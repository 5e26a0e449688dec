//! Verified core of the Infoclimat batch pipelines: download planning,
//! retry policy, metadata building, calendar and grid logic.

pub mod planning;
pub mod text;
pub mod time;
pub mod keys;
pub mod metadata;
pub mod meteofrance;
pub mod era5;
pub mod variables;
pub mod arome;
pub mod openmeteo;
pub mod grid;
pub mod r2;
pub mod climatology;
pub mod omfile;

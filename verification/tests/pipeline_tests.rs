use infoclimat_pipelines::climatology::{max_doy, smoothing_window};
use infoclimat_pipelines::omfile::{check_rank, check_variable_shapes, chunk_dims, LayoutError};
use infoclimat_pipelines::r2::{listing_prefix, r2_endpoint, ListingState, R2Config};

#[test]
fn smoothing_window_is_centered_and_wraps() {
    assert_eq!(smoothing_window(180, 366), (173..=187).collect::<Vec<u32>>());
    assert_eq!(
        smoothing_window(366, 366),
        vec![359, 360, 361, 362, 363, 364, 365, 366, 1, 2, 3, 4, 5, 6, 7]
    );
    assert_eq!(
        smoothing_window(1, 366),
        vec![360, 361, 362, 363, 364, 365, 366, 1, 2, 3, 4, 5, 6, 7, 8]
    );
    assert_eq!(max_doy(&vec![3, 365, 12]), 365);
    assert_eq!(max_doy(&Vec::new()), 366);
}

#[test]
fn omfile_layout_checks() {
    assert_eq!(chunk_dims(521, 741), (64, 64));
    assert_eq!(chunk_dims(10, 100), (10, 64));
    assert_eq!(check_variable_shapes(&Vec::new(), 2, 3), Err(LayoutError::NoVariables));
    assert_eq!(check_variable_shapes(&vec![(2, 3), (2, 3)], 2, 3), Ok(()));
    assert_eq!(
        check_variable_shapes(&vec![(2, 3), (3, 2), (1, 1)], 2, 3),
        Err(LayoutError::ShapeMismatch { index: 1, actual_ny: 3, actual_nx: 2 })
    );
    assert_eq!(check_rank(2), Ok(()));
    assert_eq!(check_rank(3), Err(3));
}

#[test]
fn bucket_endpoint_and_prefixes() {
    let cfg = R2Config {
        account_id: "acc".to_string(),
        access_key: "k".to_string(),
        secret_key: "SECRET-REDACTED".to_string(),
        bucket: "b".to_string(),
    };
    assert_eq!(r2_endpoint(&cfg), "https://acc.r2.cloudflarestorage.com");
    assert_eq!(listing_prefix("anomaly/forecast//"), "anomaly/forecast/");
    assert_eq!(listing_prefix("anomaly/forecast"), "anomaly/forecast/");
}

#[test]
fn listing_gathers_pages_until_not_truncated() {
    let mut st = ListingState::new();
    st.absorb_page(
        Some(vec![Some("a".to_string()), None, Some("b".to_string())]),
        Some(true),
        Some("t1".to_string()),
    );
    assert!(!st.done);
    assert_eq!(st.continuation, Some("t1".to_string()));
    st.absorb_page(None, Some(true), Some("t2".to_string()));
    assert_eq!(st.continuation, Some("t2".to_string()));
    st.absorb_page(Some(vec![Some("c".to_string())]), None, None);
    assert!(st.done);
    assert_eq!(st.keys, vec!["a", "b", "c"]);
}

//! Registry of the AROME-OM variables published in the OMfiles: GRIB
//! `shortName`, output name (Open-Meteo naming), unit conversion and
//! package.

use vstd::prelude::*;

use crate::text::str_eq;

verus! {

/// Unit conversion applied to a decoded field.
#[derive(Debug, Clone, Copy, PartialEq, Eq, Structural)]
pub enum UnitConversion {
    NoConversion,
    KelvinToCelsius,
    /// `kg/m²` → `mm` (factor 1, water density ≈ 1); kept to name the
    /// output unit.
    KgPerM2ToMm,
    PascalToHectopascal,
}

/// One variable of the registry.
#[derive(Debug, Clone, Copy)]
pub struct VariableEntry {
    /// GRIB `shortName`, as eccodes / cfgrib expose it.
    pub grib_short_name: &'static str,
    /// Output name, used in the OMfile and in the bucket path.
    pub om_name: &'static str,
    pub unit_conversion: UnitConversion,
    /// AROME-OM package holding the variable.
    pub package: &'static str,
}

impl View for VariableEntry {
    type V = (Seq<char>, Seq<char>, UnitConversion, Seq<char>);

    open spec fn view(&self) -> Self::V {
        (self.grib_short_name@, self.om_name@, self.unit_conversion, self.package@)
    }
}

/// The registry: SP1 (7 variables) and SP2 (4 variables); SP3 publishes
/// none; `wind_speed_10m` is left out since the map client derives it from
/// the u/v components.
pub open spec fn registry() -> Seq<(Seq<char>, Seq<char>, UnitConversion, Seq<char>)> {
    seq![
        ("2t"@, "temperature_2m"@, UnitConversion::KelvinToCelsius, "SP1"@),
        ("2r"@, "relative_humidity_2m"@, UnitConversion::NoConversion, "SP1"@),
        ("10u"@, "wind_u_component_10m"@, UnitConversion::NoConversion, "SP1"@),
        ("10v"@, "wind_v_component_10m"@, UnitConversion::NoConversion, "SP1"@),
        ("max_i10fg"@, "wind_gusts_10m"@, UnitConversion::NoConversion, "SP1"@),
        ("prmsl"@, "pressure_msl"@, UnitConversion::PascalToHectopascal, "SP1"@),
        ("tp"@, "precipitation"@, UnitConversion::KgPerM2ToMm, "SP1"@),
        ("2d"@, "dew_point_2m"@, UnitConversion::KelvinToCelsius, "SP2"@),
        ("lcc"@, "cloud_cover_low"@, UnitConversion::NoConversion, "SP2"@),
        ("mcc"@, "cloud_cover_mid"@, UnitConversion::NoConversion, "SP2"@),
        ("hcc"@, "cloud_cover_high"@, UnitConversion::NoConversion, "SP2"@),
    ]
}

/// Views of a list of entries.
pub open spec fn entry_views(v: Seq<VariableEntry>) -> Seq<
    (Seq<char>, Seq<char>, UnitConversion, Seq<char>),
> {
    v.map_values(|e: VariableEntry| e@)
}

/// The entries of the registry, in order.
pub fn variables() -> (r: Vec<VariableEntry>)
    ensures
        entry_views(r@) == registry(),
{
    let r = vec![
        VariableEntry {
            grib_short_name: "2t",
            om_name: "temperature_2m",
            unit_conversion: UnitConversion::KelvinToCelsius,
            package: "SP1",
        },
        VariableEntry {
            grib_short_name: "2r",
            om_name: "relative_humidity_2m",
            unit_conversion: UnitConversion::NoConversion,
            package: "SP1",
        },
        VariableEntry {
            grib_short_name: "10u",
            om_name: "wind_u_component_10m",
            unit_conversion: UnitConversion::NoConversion,
            package: "SP1",
        },
        VariableEntry {
            grib_short_name: "10v",
            om_name: "wind_v_component_10m",
            unit_conversion: UnitConversion::NoConversion,
            package: "SP1",
        },
        VariableEntry {
            grib_short_name: "max_i10fg",
            om_name: "wind_gusts_10m",
            unit_conversion: UnitConversion::NoConversion,
            package: "SP1",
        },
        VariableEntry {
            grib_short_name: "prmsl",
            om_name: "pressure_msl",
            unit_conversion: UnitConversion::PascalToHectopascal,
            package: "SP1",
        },
        VariableEntry {
            grib_short_name: "tp",
            om_name: "precipitation",
            unit_conversion: UnitConversion::KgPerM2ToMm,
            package: "SP1",
        },
        VariableEntry {
            grib_short_name: "2d",
            om_name: "dew_point_2m",
            unit_conversion: UnitConversion::KelvinToCelsius,
            package: "SP2",
        },
        VariableEntry {
            grib_short_name: "lcc",
            om_name: "cloud_cover_low",
            unit_conversion: UnitConversion::NoConversion,
            package: "SP2",
        },
        VariableEntry {
            grib_short_name: "mcc",
            om_name: "cloud_cover_mid",
            unit_conversion: UnitConversion::NoConversion,
            package: "SP2",
        },
        VariableEntry {
            grib_short_name: "hcc",
            om_name: "cloud_cover_high",
            unit_conversion: UnitConversion::NoConversion,
            package: "SP2",
        },
    ];
    proof {
        assert(entry_views(r@) =~= registry());
    }
    r
}

/// Index of the first entry of `reg` whose field `field` (0: GRIB name,
/// 1: output name) is `name`.
pub open spec fn first_index(
    reg: Seq<(Seq<char>, Seq<char>, UnitConversion, Seq<char>)>,
    field: int,
    name: Seq<char>,
) -> Option<int> {
    if exists|i: int|
        0 <= i < reg.len() && (if field == 0 {
            reg[i].0
        } else {
            reg[i].1
        }) == name {
        Some(
            choose|i: int|
                {
                    &&& 0 <= i < reg.len()
                    &&& (if field == 0 {
                        reg[i].0
                    } else {
                        reg[i].1
                    }) == name
                    &&& forall|k: int|
                        0 <= k < i ==> (if field == 0 {
                            reg[k].0
                        } else {
                            reg[k].1
                        }) != name
                },
        )
    } else {
        None
    }
}

/// Linear search of the first entry whose field `field` is `name`.
fn find_entry(reg: &Vec<VariableEntry>, field: u8, name: &str) -> (r: Option<VariableEntry>)
    requires
        field == 0 || field == 1,
    ensures
        match r {
            None => forall|i: int|
                0 <= i < reg@.len() ==> (if field == 0 {
                    reg@[i]@.0
                } else {
                    reg@[i]@.1
                }) != name@,
            Some(e) => exists|i: int|
                {
                    &&& 0 <= i < reg@.len()
                    &&& reg@[i] == e
                    &&& (if field == 0 {
                        e@.0
                    } else {
                        e@.1
                    }) == name@
                    &&& forall|k: int|
                        0 <= k < i ==> (if field == 0 {
                            reg@[k]@.0
                        } else {
                            reg@[k]@.1
                        }) != name@
                },
        },
{
    let mut i: usize = 0;
    while i < reg.len()
        invariant
            0 <= i <= reg@.len(),
            field == 0 || field == 1,
            forall|k: int|
                0 <= k < i ==> (if field == 0 {
                    reg@[k]@.0
                } else {
                    reg@[k]@.1
                }) != name@,
        decreases reg@.len() - i,
    {
        let e = reg[i];
        let hit = if field == 0 {
            str_eq(e.grib_short_name, name)
        } else {
            str_eq(e.om_name, name)
        };
        if hit {
            return Some(e);
        }
        i = i + 1;
    }
    None
}

/// The entry whose GRIB `shortName` is `short`, if any.
pub fn lookup_by_grib(short: &str) -> (r: Option<VariableEntry>)
    ensures
        match first_index(registry(), 0, short@) {
            None => r is None,
            Some(i) => r matches Some(e) && e@ == registry()[i],
        },
{
    let reg = variables();
    let r = find_entry(&reg, 0, short);
    proof {
        lemma_first_index(entry_views(reg@), 0, short@);
        match r {
            None => {
                assert forall|i: int| 0 <= i < registry().len() implies registry()[i].0 != short@ by {
                    assert(registry()[i] == reg@[i]@);
                }
            },
            Some(e) => {
                let i = choose|i: int|
                    {
                        &&& 0 <= i < reg@.len()
                        &&& reg@[i] == e
                        &&& e@.0 == short@
                        &&& forall|k: int| 0 <= k < i ==> reg@[k]@.0 != short@
                    };
                assert(registry()[i] == e@);
                lemma_first_index_unique(registry(), 0, short@, i);
            },
        }
    }
    r
}

/// The entry whose output name is `name`, if any.
pub fn lookup_by_om(name: &str) -> (r: Option<VariableEntry>)
    ensures
        match first_index(registry(), 1, name@) {
            None => r is None,
            Some(i) => r matches Some(e) && e@ == registry()[i],
        },
{
    let reg = variables();
    let r = find_entry(&reg, 1, name);
    proof {
        lemma_first_index(entry_views(reg@), 1, name@);
        match r {
            None => {
                assert forall|i: int| 0 <= i < registry().len() implies registry()[i].1 != name@ by {
                    assert(registry()[i] == reg@[i]@);
                }
            },
            Some(e) => {
                let i = choose|i: int|
                    {
                        &&& 0 <= i < reg@.len()
                        &&& reg@[i] == e
                        &&& e@.1 == name@
                        &&& forall|k: int| 0 <= k < i ==> reg@[k]@.1 != name@
                    };
                assert(registry()[i] == e@);
                lemma_first_index_unique(registry(), 1, name@, i);
            },
        }
    }
    r
}

/// `first_index` is none exactly when no entry matches.
proof fn lemma_first_index(
    reg: Seq<(Seq<char>, Seq<char>, UnitConversion, Seq<char>)>,
    field: int,
    name: Seq<char>,
)
    ensures
        first_index(reg, field, name) is None <==> forall|i: int|
            0 <= i < reg.len() ==> (if field == 0 {
                reg[i].0
            } else {
                reg[i].1
            }) != name,
{
}

/// The first matching index is the one `first_index` names.
proof fn lemma_first_index_unique(
    reg: Seq<(Seq<char>, Seq<char>, UnitConversion, Seq<char>)>,
    field: int,
    name: Seq<char>,
    i: int,
)
    requires
        0 <= i < reg.len(),
        (if field == 0 {
            reg[i].0
        } else {
            reg[i].1
        }) == name,
        forall|k: int|
            0 <= k < i ==> (if field == 0 {
                reg[k].0
            } else {
                reg[k].1
            }) != name,
    ensures
        first_index(reg, field, name) == Some(i),
{
    let j = choose|j: int|
        {
            &&& 0 <= j < reg.len()
            &&& (if field == 0 {
                reg[j].0
            } else {
                reg[j].1
            }) == name
            &&& forall|k: int|
                0 <= k < j ==> (if field == 0 {
                    reg[k].0
                } else {
                    reg[k].1
                }) != name
        };
    assert(j == i) by {
        if j < i {
        } else if j > i {
        }
    }
}

/// The entries of the registry in package `pkg`, in order.
pub open spec fn package_entries(pkg: Seq<char>) -> Seq<
    (Seq<char>, Seq<char>, UnitConversion, Seq<char>),
> {
    registry().filter(|e: (Seq<char>, Seq<char>, UnitConversion, Seq<char>)| e.3 == pkg)
}

/// The entries of the registry in package `pkg`, in registry order.
pub fn variables_for_package(pkg: &str) -> (r: Vec<VariableEntry>)
    ensures
        entry_views(r@) == package_entries(pkg@),
{
    let reg = variables();
    let mut out: Vec<VariableEntry> = Vec::new();
    let mut i: usize = 0;
    while i < reg.len()
        invariant
            0 <= i <= reg@.len(),
            entry_views(reg@) == registry(),
            entry_views(out@) == registry().subrange(0, i as int).filter(
                |e: (Seq<char>, Seq<char>, UnitConversion, Seq<char>)| e.3 == pkg@,
            ),
        decreases reg@.len() - i,
    {
        let e = reg[i];
        let ghost before = out@;
        proof {
            reveal(Seq::filter);
            assert(registry().subrange(0, i + 1).drop_last() =~= registry().subrange(0, i as int));
            assert(registry().subrange(0, i + 1).last() == e@);
            assert(registry()[i as int] == e@);
        }
        if str_eq(e.package, pkg) {
            out.push(e);
            proof {
                assert(entry_views(out@) =~= entry_views(before).push(e@));
            }
        }
        i = i + 1;
    }
    proof {
        assert(registry().subrange(0, i as int) =~= registry());
    }
    out
}

/// No two entries of the registry share a GRIB `shortName`, and no two
/// share an output name.
pub proof fn registry_names_are_unique()
    ensures
        forall|i: int, j: int|
            0 <= i < j < registry().len() ==> registry()[i].0 != registry()[j].0,
        forall|i: int, j: int|
            0 <= i < j < registry().len() ==> registry()[i].1 != registry()[j].1,
{
    reveal_strlit("2t");
    reveal_strlit("temperature_2m");
    reveal_strlit("2r");
    reveal_strlit("relative_humidity_2m");
    reveal_strlit("10u");
    reveal_strlit("wind_u_component_10m");
    reveal_strlit("10v");
    reveal_strlit("wind_v_component_10m");
    reveal_strlit("max_i10fg");
    reveal_strlit("wind_gusts_10m");
    reveal_strlit("prmsl");
    reveal_strlit("pressure_msl");
    reveal_strlit("tp");
    reveal_strlit("precipitation");
    reveal_strlit("2d");
    reveal_strlit("dew_point_2m");
    reveal_strlit("lcc");
    reveal_strlit("cloud_cover_low");
    reveal_strlit("mcc");
    reveal_strlit("cloud_cover_mid");
    reveal_strlit("hcc");
    reveal_strlit("cloud_cover_high");
    reveal_strlit("SP1");
    reveal_strlit("SP2");
    let r = registry();
    assert forall|i: int, j: int| 0 <= i < j < r.len() implies r[i].0 != r[j].0 by {
        let a = r[i].0;
        let b = r[j].0;
        if a == b {
            assert(a.len() == b.len());
            assert(a[0] == b[0]);
            assert(a[a.len() - 1] == b[b.len() - 1]);
        }
    }
    assert forall|i: int, j: int| 0 <= i < j < r.len() implies r[i].1 != r[j].1 by {
        let a = r[i].1;
        let b = r[j].1;
        if a == b {
            assert(a.len() == b.len());
            assert(a[0] == b[0]);
            assert(a[5] == b[5]);
            assert(a[a.len() - 1] == b[b.len() - 1]);
        }
    }
}

/// Looking an entry up by its GRIB name, then the result up by its output
/// name, gives back the entry: each lookup finds the entry itself.
pub proof fn registry_round_trip(i: int)
    requires
        0 <= i < registry().len(),
    ensures
        first_index(registry(), 0, registry()[i].0) == Some(i),
        first_index(registry(), 1, registry()[i].1) == Some(i),
{
    registry_names_are_unique();
    let r = registry();
    assert forall|k: int| 0 <= k < i implies r[k].0 != r[i].0 && r[k].1 != r[i].1 by {}
    lemma_first_index_unique(r, 0, r[i].0, i);
    lemma_first_index_unique(r, 1, r[i].1, i);
}

/// Packages SP1 and SP2 each hold at least one variable.
pub proof fn packages_are_not_empty()
    ensures
        package_entries("SP1"@).len() > 0,
        package_entries("SP2"@).len() > 0,
{
    let r = registry();
    let f1 = |e: (Seq<char>, Seq<char>, UnitConversion, Seq<char>)| e.3 == "SP1"@;
    let f2 = |e: (Seq<char>, Seq<char>, UnitConversion, Seq<char>)| e.3 == "SP2"@;
    r.lemma_filter_contains(f1, 0);
    r.lemma_filter_contains(f2, 7);
    assert(r.filter(f1).contains(r[0]));
    assert(r.filter(f2).contains(r[7]));
}

/// Units follow the physical quantity: the temperatures that GRIB gives in
/// Kelvin (`2t`, `2d`) and only they are converted to Celsius, the sea-level
/// pressure (`prmsl`) and only it from Pa to hPa, the precipitation (`tp`)
/// and only it from kg/m² to mm; every other field is published as decoded.
/// Looking up `2t` or `2d` therefore finds a Kelvin-to-Celsius entry.
pub proof fn unit_conversions_follow_physical_units()
    ensures
        forall|i: int|
            0 <= i < registry().len() ==> ((#[trigger] registry()[i].0 == "2t"@ || registry()[i].0
                == "2d"@) <==> registry()[i].2 == UnitConversion::KelvinToCelsius),
        forall|i: int|
            0 <= i < registry().len() ==> (#[trigger] registry()[i].0 == "prmsl"@ <==> registry()[i].2
                == UnitConversion::PascalToHectopascal),
        forall|i: int|
            0 <= i < registry().len() ==> (#[trigger] registry()[i].0 == "tp"@ <==> registry()[i].2
                == UnitConversion::KgPerM2ToMm),
        first_index(registry(), 0, "2t"@) matches Some(i) && registry()[i].2
            == UnitConversion::KelvinToCelsius,
        first_index(registry(), 0, "2d"@) matches Some(i) && registry()[i].2
            == UnitConversion::KelvinToCelsius,
{
    reveal_strlit("2t");
    reveal_strlit("temperature_2m");
    reveal_strlit("2r");
    reveal_strlit("relative_humidity_2m");
    reveal_strlit("10u");
    reveal_strlit("wind_u_component_10m");
    reveal_strlit("10v");
    reveal_strlit("wind_v_component_10m");
    reveal_strlit("max_i10fg");
    reveal_strlit("wind_gusts_10m");
    reveal_strlit("prmsl");
    reveal_strlit("pressure_msl");
    reveal_strlit("tp");
    reveal_strlit("precipitation");
    reveal_strlit("2d");
    reveal_strlit("dew_point_2m");
    reveal_strlit("lcc");
    reveal_strlit("cloud_cover_low");
    reveal_strlit("mcc");
    reveal_strlit("cloud_cover_mid");
    reveal_strlit("hcc");
    reveal_strlit("cloud_cover_high");
    reveal_strlit("SP1");
    reveal_strlit("SP2");
    let r = registry();
    registry_names_are_unique();
    assert forall|i: int| 0 <= i < r.len() implies ((r[i].0 == "2t"@ || r[i].0 == "2d"@) <==> r[i].2
        == UnitConversion::KelvinToCelsius) && (r[i].0 == "prmsl"@ <==> r[i].2
        == UnitConversion::PascalToHectopascal) && (r[i].0 == "tp"@ <==> r[i].2
        == UnitConversion::KgPerM2ToMm) by {
        assert(r[0].0 == "2t"@ && r[7].0 == "2d"@ && r[5].0 == "prmsl"@ && r[6].0 == "tp"@);
        if i != 0 {
            assert(r[i].0 != r[0].0);
        }
        if i != 7 {
            assert(r[i].0 != r[7].0);
        }
        if i != 5 {
            assert(r[i].0 != r[5].0);
        }
        if i != 6 {
            assert(r[i].0 != r[6].0);
        }
    }
    registry_round_trip(0);
    registry_round_trip(7);
}

/// Package SP1 holds the seven common surface fields and SP2 the dew point
/// and the three cloud covers.
pub proof fn packages_hold_the_published_fields()
    ensures
        forall|i: int|
            0 <= i < registry().len() ==> (#[trigger] registry()[i].3 == "SP2"@ <==> (registry()[i].1
                == "dew_point_2m"@ || registry()[i].1 == "cloud_cover_low"@ || registry()[i].1
                == "cloud_cover_mid"@ || registry()[i].1 == "cloud_cover_high"@)),
        forall|i: int|
            0 <= i < registry().len() ==> (registry()[i].3 == "SP1"@ || registry()[i].3 == "SP2"@),
{
    reveal_strlit("2t");
    reveal_strlit("temperature_2m");
    reveal_strlit("2r");
    reveal_strlit("relative_humidity_2m");
    reveal_strlit("10u");
    reveal_strlit("wind_u_component_10m");
    reveal_strlit("10v");
    reveal_strlit("wind_v_component_10m");
    reveal_strlit("max_i10fg");
    reveal_strlit("wind_gusts_10m");
    reveal_strlit("prmsl");
    reveal_strlit("pressure_msl");
    reveal_strlit("tp");
    reveal_strlit("precipitation");
    reveal_strlit("2d");
    reveal_strlit("dew_point_2m");
    reveal_strlit("lcc");
    reveal_strlit("cloud_cover_low");
    reveal_strlit("mcc");
    reveal_strlit("cloud_cover_mid");
    reveal_strlit("hcc");
    reveal_strlit("cloud_cover_high");
    reveal_strlit("SP1");
    reveal_strlit("SP2");
    let r = registry();
    registry_names_are_unique();
    assert("SP1"@[2] != "SP2"@[2]);
    assert forall|i: int| 0 <= i < r.len() implies (r[i].3 == "SP2"@ <==> (r[i].1
        == "dew_point_2m"@ || r[i].1 == "cloud_cover_low"@ || r[i].1 == "cloud_cover_mid"@
        || r[i].1 == "cloud_cover_high"@)) by {
        assert(r[7].1 == "dew_point_2m"@ && r[8].1 == "cloud_cover_low"@ && r[9].1
            == "cloud_cover_mid"@ && r[10].1 == "cloud_cover_high"@);
        if i < 7 {
            assert(r[i].1 != r[7].1 && r[i].1 != r[8].1 && r[i].1 != r[9].1 && r[i].1 != r[10].1);
        }
    }
}

} // verus!

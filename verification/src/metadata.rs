//! Metadata read by the map client to drive its time selector: the
//! `anomaly_europe` pseudo-domain (union of observed and forecast days) and
//! the `arome_om_reunion` domain (valid times of one run).

use vstd::prelude::*;

use crate::keys::{key_to_valid_time, parse_date_from_key};
use crate::time::Date;
use crate::time::{date_before, push_date, push_iso_z, push_two, push_year, DateTime};

verus! {

/// Shape of the client's `DomainMetaDataJson` (minimal fields).
#[derive(Debug, Clone)]
pub struct DomainMetadataJson {
    pub reference_time: String,
    pub valid_times: Vec<String>,
    pub variables: Vec<String>,
}

/// Metadata of the `arome_om_reunion` forecast domain.
#[derive(Debug, Clone)]
pub struct ForecastDomainMetadata {
    pub reference_time: String,
    pub valid_times: Vec<String>,
    pub variables: Vec<String>,
}

/// `T00:00:00Z`
pub open spec fn midnight_suffix() -> Seq<char> {
    seq!['T', '0', '0', ':', '0', '0', ':', '0', '0', 'Z']
}

/// Valid time of a day: `YYYY-MM-DDT00:00:00Z`.
pub open spec fn day_valid_time(d: Date) -> Seq<char> {
    crate::time::date_text(d) + midnight_suffix()
}

/// Strictly increasing dates.
pub open spec fn dates_sorted(s: Seq<Date>) -> bool {
    forall|i: int, j: int| 0 <= i < j < s.len() ==> crate::time::date_lt(s[i], s[j])
}

/// The dates carried by a list of keys.
pub open spec fn key_dates(keys: Seq<Seq<char>>) -> Set<Date> {
    Set::new(|d: Date| exists|i: int| 0 <= i < keys.len() && crate::keys::key_date(keys[i]) == Some(d))
}

/// `out` lists, in increasing order and once each, the valid times of the
/// days carried by `keys`.
pub open spec fn is_day_listing(keys: Seq<Seq<char>>, out: Seq<Seq<char>>) -> bool {
    exists|ds: Seq<Date>|
        {
            &&& dates_sorted(ds)
            &&& forall|d: Date| ds.contains(d) <==> #[trigger] key_dates(keys).contains(d)
            &&& out == ds.map_values(|d: Date| day_valid_time(d))
        }
}

/// Inserts `d` into a strictly increasing list, unless it is already there.
fn insert_date(v: &mut Vec<Date>, d: Date)
    requires
        dates_sorted(old(v)@),
    ensures
        dates_sorted(final(v)@),
        forall|x: Date| final(v)@.contains(x) <==> (old(v)@.contains(x) || x == d),
{
    let mut p: usize = 0;
    while p < v.len() && date_before(v[p], d)
        invariant
            0 <= p <= v@.len(),
            v@ == old(v)@,
            forall|k: int| 0 <= k < p ==> crate::time::date_lt(#[trigger] v@[k], d),
        decreases v@.len() - p,
    {
        p = p + 1;
    }
    if p < v.len() && v[p] == d {
        return;
    }
    let ghost old_v = v@;
    assert(old_v == old(v)@);
    v.insert(p, d);
    proof {
        assert forall|i: int, j: int| 0 <= i < j < v@.len() implies crate::time::date_lt(
            v@[i],
            v@[j],
        ) by {
            if p < old_v.len() {
                crate::time::lemma_date_lt_total(old_v[p as int], d);
            }
            if i < p && j == p {
            } else if i < p && j > p {
                assert(v@[j] == old_v[j - 1]);
                if p < old_v.len() {
                    crate::time::lemma_date_lt_total(old_v[p as int], d);
                    if j - 1 > p {
                        crate::time::lemma_date_lt_trans(d, old_v[p as int], old_v[j - 1]);
                    }
                }
            } else if i == p {
                assert(v@[j] == old_v[j - 1]);
                crate::time::lemma_date_lt_total(old_v[p as int], d);
                if j - 1 > p {
                    crate::time::lemma_date_lt_trans(d, old_v[p as int], old_v[j - 1]);
                }
            } else if i > p {
                assert(v@[i] == old_v[i - 1]);
                assert(v@[j] == old_v[j - 1]);
            }
        }
        assert forall|x: Date| v@.contains(x) <==> (old_v.contains(x) || x == d) by {
            if v@.contains(x) {
                let k = choose|k: int| 0 <= k < v@.len() && v@[k] == x;
                if k < p {
                    assert(old_v[k] == x);
                } else if k > p {
                    assert(old_v[k - 1] == x);
                }
            }
            if old_v.contains(x) {
                let k = choose|k: int| 0 <= k < old_v.len() && old_v[k] == x;
                if k < p {
                    assert(v@[k] == x);
                } else {
                    assert(v@[k + 1] == x);
                }
            }
            if x == d {
                assert(v@[p as int] == d);
            }
        }
        assert(forall|x: Date| v@.contains(x) <==> (old(v)@.contains(x) || x == d));
    }
}

/// The valid time `YYYY-MM-DDT00:00:00Z` of a day.
pub fn day_valid_time_string(d: Date) -> (s: String)
    ensures
        s@ == day_valid_time(d),
{
    let mut s = String::new();
    push_date(&mut s, d);
    s.push('T');
    s.push('0');
    s.push('0');
    s.push(':');
    s.push('0');
    s.push('0');
    s.push(':');
    s.push('0');
    s.push('0');
    s.push('Z');
    proof {
        assert(s@ =~= day_valid_time(d));
    }
    s
}

/// Adds to `v` the dates of `keys`.
fn collect_dates(v: &mut Vec<Date>, keys: &Vec<String>, prev_keys: Ghost<Seq<Seq<char>>>)
    requires
        dates_sorted(old(v)@),
        forall|d: Date| old(v)@.contains(d) <==> #[trigger] key_dates(prev_keys@).contains(d),
    ensures
        dates_sorted(final(v)@),
        forall|d: Date|
            final(v)@.contains(d) <==> #[trigger] key_dates(
                prev_keys@ + crate::keys::views(keys@),
            ).contains(d),
{
    let ghost prev = prev_keys@;
    let mut i: usize = 0;
    while i < keys.len()
        invariant
            0 <= i <= keys@.len(),
            dates_sorted(v@),
            forall|d: Date|
                v@.contains(d) <==> #[trigger] key_dates(
                    prev + crate::keys::views(keys@).subrange(0, i as int),
                ).contains(d),
        decreases keys@.len() - i,
    {
        let ghost ks0 = prev + crate::keys::views(keys@).subrange(0, i as int);
        let ghost ks1 = prev + crate::keys::views(keys@).subrange(0, i + 1);
        proof {
            assert(ks1 =~= ks0.push(keys@[i as int]@));
        }
        let got = parse_date_from_key(keys[i].as_str());
        match got {
            Some(d) => {
                insert_date(v, d);
            },
            None => {},
        }
        proof {
            assert forall|x: Date| v@.contains(x) <==> #[trigger] key_dates(ks1).contains(x) by {
                if key_dates(ks1).contains(x) {
                    let k = choose|k: int|
                        0 <= k < ks1.len() && crate::keys::key_date(ks1[k]) == Some(x);
                    if k < ks0.len() {
                        assert(ks0[k] == ks1[k]);
                        assert(key_dates(ks0).contains(x));
                    }
                }
                if key_dates(ks0).contains(x) {
                    let k = choose|k: int|
                        0 <= k < ks0.len() && crate::keys::key_date(ks0[k]) == Some(x);
                    assert(ks1[k] == ks0[k]);
                    assert(key_dates(ks1).contains(x));
                }
                if got == Some(x) {
                    assert(ks1[ks0.len() as int] == keys@[i as int]@);
                    assert(key_dates(ks1).contains(x));
                }
            }
        }
        i = i + 1;
    }
    proof {
        assert(crate::keys::views(keys@).subrange(0, i as int) =~= crate::keys::views(keys@));
    }
}

/// Sorted union (increasing, without duplicates) of the dates of the
/// observed and forecast keys, each written `YYYY-MM-DDT00:00:00Z`.
pub fn build_valid_times(observed_keys: &Vec<String>, forecast_keys: &Vec<String>) -> (r: Vec<
    String,
>)
    ensures
        is_day_listing(
            crate::keys::views(observed_keys@) + crate::keys::views(forecast_keys@),
            crate::keys::views(r@),
        ),
{
    let mut dates: Vec<Date> = Vec::new();
    proof {
        assert forall|d: Date| dates@.contains(d) <==> #[trigger] key_dates(
            Seq::<Seq<char>>::empty(),
        ).contains(d) by {}
    }
    collect_dates(&mut dates, observed_keys, Ghost(Seq::empty()));
    proof {
        assert(Seq::<Seq<char>>::empty() + crate::keys::views(observed_keys@) =~= crate::keys::views(
            observed_keys@,
        ));
    }
    collect_dates(&mut dates, forecast_keys, Ghost(crate::keys::views(observed_keys@)));
    let mut out: Vec<String> = Vec::new();
    let mut i: usize = 0;
    while i < dates.len()
        invariant
            0 <= i <= dates@.len(),
            crate::keys::views(out@) == dates@.subrange(0, i as int).map_values(
                |d: Date| day_valid_time(d),
            ),
        decreases dates@.len() - i,
    {
        let s = day_valid_time_string(dates[i]);
        let ghost before = out@;
        out.push(s);
        i = i + 1;
        proof {
            assert(crate::keys::views(out@) =~= crate::keys::views(before).push(s@));
            assert(dates@.subrange(0, i as int).map_values(|d: Date| day_valid_time(d))
                =~= dates@.subrange(0, i - 1).map_values(|d: Date| day_valid_time(d)).push(
                day_valid_time(dates@[i - 1]),
            ));
            assert(crate::keys::views(out@) =~= dates@.subrange(0, i as int).map_values(
                |d: Date| day_valid_time(d),
            ));
        }
    }
    proof {
        assert(dates@.subrange(0, i as int) =~= dates@);
        let all = crate::keys::views(observed_keys@) + crate::keys::views(forecast_keys@);
        assert(dates_sorted(dates@));
        assert(forall|d: Date| dates@.contains(d) <==> #[trigger] key_dates(all).contains(d));
    }
    out
}

/// `data_spatial/anomaly_europe`
pub open spec fn anomaly_domain_prefix() -> Seq<char> {
    "data_spatial/anomaly_europe"@
}

/// Name of the single variable of the anomaly files.
pub open spec fn anomaly_variable_name() -> Seq<char> {
    "temperature_2m_anomaly"@
}

/// `r` is the metadata of the anomaly domain for `today` and the keys
/// `keys`: none when no key carries a date; otherwise reference time today
/// 00Z, the day listing of the keys, the anomaly variable.
pub open spec fn is_anomaly_metadata(
    today: Date,
    keys: Seq<Seq<char>>,
    r: Option<DomainMetadataJson>,
) -> bool {
    match r {
        None => key_dates(keys) == Set::<Date>::empty(),
        Some(m) => {
            &&& m.reference_time@ == day_valid_time(today)
            &&& is_day_listing(keys, crate::keys::views(m.valid_times@))
            &&& m.valid_times@.len() > 0
            &&& crate::keys::views(m.variables@) == seq![anomaly_variable_name()]
        },
    }
}

/// Metadata of the anomaly domain for `today`: reference time today 00Z,
/// the day listing of the observed and forecast keys, the anomaly variable;
/// none when no key carries a date.
pub fn build_anomaly_metadata(
    today: Date,
    observed_keys: &Vec<String>,
    forecast_keys: &Vec<String>,
) -> (r: Option<DomainMetadataJson>)
    ensures
        is_anomaly_metadata(
            today,
            crate::keys::views(observed_keys@) + crate::keys::views(forecast_keys@),
            r,
        ),
{
    let valid_times = build_valid_times(observed_keys, forecast_keys);
    let ghost all = crate::keys::views(observed_keys@) + crate::keys::views(forecast_keys@);
    if valid_times.len() == 0 {
        proof {
            let ds = choose|ds: Seq<Date>|
                {
                    &&& dates_sorted(ds)
                    &&& forall|d: Date| ds.contains(d) <==> #[trigger] key_dates(all).contains(d)
                    &&& crate::keys::views(valid_times@) == ds.map_values(
                        |d: Date| day_valid_time(d),
                    )
                };
            assert(crate::keys::views(valid_times@).len() == 0);
            assert(ds.map_values(|d: Date| day_valid_time(d)).len() == ds.len());
            assert(ds.len() == 0);
            assert(key_dates(all) =~= Set::<Date>::empty()) by {
                assert forall|d: Date| !key_dates(all).contains(d) by {
                    assert(!ds.contains(d));
                }
            }
        }
        return None;
    }
    let reference_time = day_valid_time_string(today);
    let mut variables: Vec<String> = Vec::new();
    variables.push(String::from_str("temperature_2m_anomaly"));
    proof {
        assert(crate::keys::views(variables@) =~= seq![anomaly_variable_name()]);
    }
    Some(DomainMetadataJson { reference_time, valid_times, variables })
}

/// Keys written for the anomaly domain: `latest.json`, `in-progress.json`
/// and `{YYYY}/{MM}/{DD}/0000Z/meta.json` of today's synthetic run.
pub open spec fn anomaly_metadata_keys_spec(today: Date) -> Seq<Seq<char>> {
    seq![
        anomaly_domain_prefix() + "/latest.json"@,
        anomaly_domain_prefix() + "/in-progress.json"@,
        anomaly_domain_prefix() + seq!['/'] + crate::time::year_text(today.year as int) + seq!['/']
            + crate::time::two(today.month as int) + seq!['/'] + crate::time::two(today.day as int)
            + "/0000Z/meta.json"@,
    ]
}

/// The three metadata keys of the anomaly domain for `today`.
pub fn anomaly_metadata_keys(today: Date) -> (r: Vec<String>)
    ensures
        crate::keys::views(r@) == anomaly_metadata_keys_spec(today),
{
    let mut a = String::from_str("data_spatial/anomaly_europe");
    a.append("/latest.json");
    let mut b = String::from_str("data_spatial/anomaly_europe");
    b.append("/in-progress.json");
    let mut c = String::from_str("data_spatial/anomaly_europe");
    c.push('/');
    push_year(&mut c, today.year);
    c.push('/');
    push_two(&mut c, today.month);
    c.push('/');
    push_two(&mut c, today.day);
    c.append("/0000Z/meta.json");
    let mut r: Vec<String> = Vec::new();
    r.push(a);
    r.push(b);
    r.push(c);
    proof {
        let spec_keys = anomaly_metadata_keys_spec(today);
        assert(a@ =~= spec_keys[0]);
        assert(b@ =~= spec_keys[1]);
        assert(c@ =~= spec_keys[2]);
        assert(crate::keys::views(r@) =~= spec_keys);
    }
    r
}

// ----- the arome_om_reunion forecast domain ------------------------------

/// Strictly increasing texts, in the order of `str`.
pub open spec fn texts_sorted(s: Seq<Seq<char>>) -> bool {
    forall|i: int, j: int| 0 <= i < j < s.len() ==> crate::text::lex_lt(s[i], s[j])
}

/// The valid times carried by a list of keys.
pub open spec fn key_valid_times(keys: Seq<Seq<char>>) -> Set<Seq<char>> {
    Set::new(
        |t: Seq<char>|
            exists|i: int| 0 <= i < keys.len() && crate::keys::key_valid_time(keys[i]) == Some(t),
    )
}

/// `out` lists, in increasing order and once each, the valid times carried
/// by `keys`.
pub open spec fn is_valid_time_listing(keys: Seq<Seq<char>>, out: Seq<Seq<char>>) -> bool {
    &&& texts_sorted(out)
    &&& forall|t: Seq<char>| out.contains(t) <==> #[trigger] key_valid_times(keys).contains(t)
}

/// Inserts `s` into a strictly increasing list of texts, unless it is there.
fn insert_text(v: &mut Vec<String>, s: String)
    requires
        texts_sorted(crate::keys::views(old(v)@)),
    ensures
        texts_sorted(crate::keys::views(final(v)@)),
        forall|x: Seq<char>|
            crate::keys::views(final(v)@).contains(x) <==> (crate::keys::views(old(v)@).contains(x)
                || x == s@),
{
    let ghost old_v = crate::keys::views(v@);
    let mut p: usize = 0;
    while p < v.len() && crate::text::lex_less(v[p].as_str(), s.as_str())
        invariant
            0 <= p <= v@.len(),
            crate::keys::views(v@) == old_v,
            old_v == crate::keys::views(old(v)@),
            forall|k: int| 0 <= k < p ==> crate::text::lex_lt(#[trigger] old_v[k], s@),
        decreases v@.len() - p,
    {
        p = p + 1;
    }
    if p < v.len() && crate::text::str_eq(v[p].as_str(), s.as_str()) {
        proof {
            assert(old_v[p as int] == s@);
            assert(old_v.contains(s@));
        }
        return;
    }
    let ghost sv = s@;
    v.insert(p, s);
    proof {
        let nv = crate::keys::views(v@);
        assert(nv =~= old_v.insert(p as int, sv));
        if p < old_v.len() {
            crate::text::lemma_lex_total(old_v[p as int], sv);
        }
        assert forall|i: int, j: int| 0 <= i < j < nv.len() implies crate::text::lex_lt(
            nv[i],
            nv[j],
        ) by {
            if j < p {
                assert(nv[i] == old_v[i]);
                assert(nv[j] == old_v[j]);
            } else if j == p {
                assert(nv[i] == old_v[i]);
            } else {
                assert(nv[j] == old_v[j - 1]);
                if i < p {
                    assert(nv[i] == old_v[i]);
                } else if i == p {
                    if j - 1 > p {
                        crate::text::lemma_lex_transitive(sv, old_v[p as int], old_v[j - 1]);
                    }
                } else {
                    assert(nv[i] == old_v[i - 1]);
                }
            }
        }
        assert forall|x: Seq<char>| nv.contains(x) <==> (old_v.contains(x) || x == sv) by {
            if nv.contains(x) {
                let k = choose|k: int| 0 <= k < nv.len() && nv[k] == x;
                if k < p {
                    assert(old_v[k] == x);
                } else if k > p {
                    assert(old_v[k - 1] == x);
                }
            }
            if old_v.contains(x) {
                let k = choose|k: int| 0 <= k < old_v.len() && old_v[k] == x;
                if k < p {
                    assert(nv[k] == x);
                } else {
                    assert(nv[k + 1] == x);
                }
            }
            if x == sv {
                assert(nv[p as int] == sv);
            }
        }
    }
}

/// Sorted set (increasing, without duplicates) of the valid times of the
/// `…/YYYY-MM-DDTHHMM.om` keys, each written `YYYY-MM-DDTHH:MM:SSZ`.
pub fn collect_valid_times(keys: &Vec<String>) -> (r: Vec<String>)
    ensures
        is_valid_time_listing(crate::keys::views(keys@), crate::keys::views(r@)),
{
    let mut out: Vec<String> = Vec::new();
    let mut i: usize = 0;
    while i < keys.len()
        invariant
            0 <= i <= keys@.len(),
            texts_sorted(crate::keys::views(out@)),
            forall|t: Seq<char>|
                crate::keys::views(out@).contains(t) <==> #[trigger] key_valid_times(
                    crate::keys::views(keys@).subrange(0, i as int),
                ).contains(t),
        decreases keys@.len() - i,
    {
        let ghost ks0 = crate::keys::views(keys@).subrange(0, i as int);
        let ghost ks1 = crate::keys::views(keys@).subrange(0, i + 1);
        proof {
            assert(ks1 =~= ks0.push(keys@[i as int]@));
        }
        let got = key_to_valid_time(keys[i].as_str());
        let ghost gv: Option<Seq<char>> = match &got {
            Some(g) => Some(g@),
            None => None,
        };
        match got {
            Some(vt) => {
                insert_text(&mut out, vt);
            },
            None => {},
        }
        proof {
            assert(gv == crate::keys::key_valid_time(keys@[i as int]@));
            assert forall|t: Seq<char>|
                crate::keys::views(out@).contains(t) <==> #[trigger] key_valid_times(
                    ks1,
                ).contains(t) by {
                if key_valid_times(ks1).contains(t) {
                    let k = choose|k: int|
                        0 <= k < ks1.len() && crate::keys::key_valid_time(ks1[k]) == Some(t);
                    if k < ks0.len() {
                        assert(ks0[k] == ks1[k]);
                        assert(key_valid_times(ks0).contains(t));
                    }
                }
                if key_valid_times(ks0).contains(t) {
                    let k = choose|k: int|
                        0 <= k < ks0.len() && crate::keys::key_valid_time(ks0[k]) == Some(t);
                    assert(ks1[k] == ks0[k]);
                    assert(key_valid_times(ks1).contains(t));
                }
                if gv == Some(t) {
                    assert(ks1[ks0.len() as int] == keys@[i as int]@);
                    assert(key_valid_times(ks1).contains(t));
                }
            }
        }
        i = i + 1;
    }
    proof {
        assert(crate::keys::views(keys@).subrange(0, i as int) =~= crate::keys::views(keys@));
    }
    out
}

/// `data_spatial/arome_om_reunion`
pub open spec fn forecast_domain_prefix() -> Seq<char> {
    "data_spatial/arome_om_reunion"@
}

/// Folder of a run: `data_spatial/arome_om_reunion/{%Y}/{%m}/{%d}/{%H%M}Z/`.
pub open spec fn run_prefix_spec(run: DateTime) -> Seq<char> {
    forecast_domain_prefix() + seq!['/'] + crate::time::year_text(run.date.year as int) + seq![
        '/',
    ] + crate::time::two(run.date.month as int) + seq!['/'] + crate::time::two(
        run.date.day as int,
    ) + seq!['/'] + crate::time::two(run.hour as int) + crate::time::two(run.minute as int)
        + seq!['Z', '/']
}

/// The folder under which the files of `run` are stored.
pub fn forecast_run_prefix(run: DateTime) -> (r: String)
    ensures
        r@ == run_prefix_spec(run),
{
    let mut s = String::from_str("data_spatial/arome_om_reunion");
    s.push('/');
    push_year(&mut s, run.date.year);
    s.push('/');
    push_two(&mut s, run.date.month);
    s.push('/');
    push_two(&mut s, run.date.day);
    s.push('/');
    push_two(&mut s, run.hour);
    push_two(&mut s, run.minute);
    s.push('Z');
    s.push('/');
    proof {
        assert(s@ =~= run_prefix_spec(run));
    }
    s
}

/// Metadata of a run from the keys listed under its folder: reference time
/// `%Y-%m-%dT%H:%M:%SZ` of the run, the sorted valid times of the keys, the
/// variables; none when no key carries a valid time.
pub fn build_forecast_metadata(run: DateTime, keys: &Vec<String>, variables: &Vec<String>) -> (r:
    Option<ForecastDomainMetadata>)
    requires
        crate::time::datetime_wf(run),
    ensures
        match r {
            None => key_valid_times(crate::keys::views(keys@)) == Set::<Seq<char>>::empty(),
            Some(m) => {
                &&& m.reference_time@ == crate::time::iso_z_text(run)
                &&& is_valid_time_listing(
                    crate::keys::views(keys@),
                    crate::keys::views(m.valid_times@),
                )
                &&& m.valid_times@.len() > 0
                &&& crate::keys::views(m.variables@) == crate::keys::views(variables@)
            },
        },
{
    let valid_times = collect_valid_times(keys);
    if valid_times.len() == 0 {
        proof {
            let ks = crate::keys::views(keys@);
            assert(key_valid_times(ks) =~= Set::<Seq<char>>::empty()) by {
                assert forall|t: Seq<char>| !key_valid_times(ks).contains(t) by {
                    assert(!crate::keys::views(valid_times@).contains(t));
                }
            }
        }
        return None;
    }
    let mut reference_time = String::new();
    push_iso_z(&mut reference_time, run);
    let mut vars: Vec<String> = Vec::new();
    let mut i: usize = 0;
    while i < variables.len()
        invariant
            0 <= i <= variables@.len(),
            crate::keys::views(vars@) == crate::keys::views(variables@).subrange(0, i as int),
        decreases variables@.len() - i,
    {
        let v = crate::text::copy_string(&variables[i]);
        let ghost before = vars@;
        vars.push(v);
        proof {
            assert(crate::keys::views(vars@) =~= crate::keys::views(before).push(
                variables@[i as int]@,
            ));
            assert(crate::keys::views(vars@) =~= crate::keys::views(variables@).subrange(
                0,
                i + 1,
            ));
        }
        i = i + 1;
    }
    proof {
        assert(reference_time@ =~= crate::time::iso_z_text(run));
        assert(crate::keys::views(variables@).subrange(0, i as int) =~= crate::keys::views(
            variables@,
        ));
    }
    Some(ForecastDomainMetadata { reference_time, valid_times, variables: vars })
}

/// Keys written for the forecast domain: `latest.json`, `in-progress.json`
/// and the run's `meta.json`.
pub open spec fn forecast_metadata_keys_spec(run: DateTime) -> Seq<Seq<char>> {
    seq![
        forecast_domain_prefix() + "/latest.json"@,
        forecast_domain_prefix() + "/in-progress.json"@,
        run_prefix_spec(run) + "meta.json"@,
    ]
}

/// The three metadata keys of the forecast domain for `run`.
pub fn forecast_metadata_keys(run: DateTime) -> (r: Vec<String>)
    ensures
        crate::keys::views(r@) == forecast_metadata_keys_spec(run),
{
    let mut a = String::from_str("data_spatial/arome_om_reunion");
    a.append("/latest.json");
    let mut b = String::from_str("data_spatial/arome_om_reunion");
    b.append("/in-progress.json");
    let mut c = forecast_run_prefix(run);
    c.append("meta.json");
    let mut r: Vec<String> = Vec::new();
    r.push(a);
    r.push(b);
    r.push(c);
    proof {
        let spec_keys = forecast_metadata_keys_spec(run);
        assert(a@ =~= spec_keys[0]);
        assert(b@ =~= spec_keys[1]);
        assert(c@ =~= spec_keys[2]);
        assert(crate::keys::views(r@) =~= spec_keys);
    }
    r
}

// ----- listings depend on the sets of keys only -----------------------------

/// Two strictly increasing lists (for a transitive, irreflexive order)
/// holding the same elements are equal.
pub proof fn lemma_sorted_same_elements_equal<T>(a: Seq<T>, b: Seq<T>, lt: spec_fn(T, T) -> bool)
    requires
        forall|x: T, y: T, z: T| #[trigger] lt(x, y) && #[trigger] lt(y, z) ==> lt(x, z),
        forall|x: T| !#[trigger] lt(x, x),
        forall|i: int, j: int| 0 <= i < j < a.len() ==> lt(a[i], a[j]),
        forall|i: int, j: int| 0 <= i < j < b.len() ==> lt(b[i], b[j]),
        forall|x: T| a.contains(x) <==> b.contains(x),
    ensures
        a == b,
    decreases a.len(),
{
    if a.len() == 0 {
        if b.len() > 0 {
            assert(b.contains(b[0]));
        }
        assert(a =~= b);
    } else {
        assert(a.contains(a[0]));
        assert(b.contains(a[0]));
        assert(b.len() > 0);
        assert(b.contains(b[0]));
        assert(a.contains(b[0]));
        let k = choose|k: int| 0 <= k < b.len() && b[k] == a[0];
        let m = choose|m: int| 0 <= m < a.len() && a[m] == b[0];
        if k > 0 {
            assert(lt(b[0], b[k]));
            if m > 0 {
                assert(lt(a[0], a[m]));
                assert(lt(b[0], b[0]));
            } else {
                assert(lt(b[0], b[0]));
            }
        }
        assert(a[0] == b[0]);
        let ra = a.drop_first();
        let rb = b.drop_first();
        assert forall|x: T| ra.contains(x) <==> rb.contains(x) by {
            if ra.contains(x) {
                let i = choose|i: int| 0 <= i < ra.len() && ra[i] == x;
                assert(a[i + 1] == x);
                assert(lt(a[0], a[i + 1]));
                assert(a.contains(x));
                assert(b.contains(x));
                let j = choose|j: int| 0 <= j < b.len() && b[j] == x;
                if j == 0 {
                    assert(lt(x, x));
                }
                assert(rb[j - 1] == x);
            }
            if rb.contains(x) {
                let i = choose|i: int| 0 <= i < rb.len() && rb[i] == x;
                assert(b[i + 1] == x);
                assert(lt(b[0], b[i + 1]));
                assert(b.contains(x));
                assert(a.contains(x));
                let j = choose|j: int| 0 <= j < a.len() && a[j] == x;
                if j == 0 {
                    assert(lt(x, x));
                }
                assert(ra[j - 1] == x);
            }
        }
        lemma_sorted_same_elements_equal(ra, rb, lt);
        assert(a =~= seq![a[0]] + ra);
        assert(b =~= seq![b[0]] + rb);
    }
}

/// The day listing depends only on the dates the keys carry, not on the
/// order of the keys nor on which list (observed, forecast) holds them:
/// the metadata written from observed and from forecast runs agree.
pub proof fn day_listing_depends_on_dates_only(
    keys1: Seq<Seq<char>>,
    keys2: Seq<Seq<char>>,
    out1: Seq<Seq<char>>,
    out2: Seq<Seq<char>>,
)
    requires
        key_dates(keys1) == key_dates(keys2),
        is_day_listing(keys1, out1),
        is_day_listing(keys2, out2),
    ensures
        out1 == out2,
{
    let ds1 = choose|ds: Seq<Date>|
        {
            &&& dates_sorted(ds)
            &&& forall|d: Date| ds.contains(d) <==> #[trigger] key_dates(keys1).contains(d)
            &&& out1 == ds.map_values(|d: Date| day_valid_time(d))
        };
    let ds2 = choose|ds: Seq<Date>|
        {
            &&& dates_sorted(ds)
            &&& forall|d: Date| ds.contains(d) <==> #[trigger] key_dates(keys2).contains(d)
            &&& out2 == ds.map_values(|d: Date| day_valid_time(d))
        };
    let lt = |x: Date, y: Date| crate::time::date_lt(x, y);
    assert forall|x: Date, y: Date, z: Date| #[trigger] lt(x, y) && #[trigger] lt(y, z) implies lt(
        x,
        z,
    ) by {
        crate::time::lemma_date_lt_trans(x, y, z);
    }
    assert(dates_sorted(ds1));
    assert(forall|d: Date| ds1.contains(d) <==> #[trigger] key_dates(keys1).contains(d));
    assert forall|x: Date| ds1.contains(x) <==> ds2.contains(x) by {
        assert(ds1.contains(x) <==> key_dates(keys1).contains(x));
        assert(ds2.contains(x) <==> key_dates(keys2).contains(x));
        assert(key_dates(keys1).contains(x) == key_dates(keys2).contains(x));
    }
    lemma_sorted_same_elements_equal(ds1, ds2, lt);
}

/// The valid-time listing of a run depends only on the valid times its
/// keys carry, not on the order in which the bucket lists them.
pub proof fn valid_time_listing_depends_on_times_only(
    keys1: Seq<Seq<char>>,
    keys2: Seq<Seq<char>>,
    out1: Seq<Seq<char>>,
    out2: Seq<Seq<char>>,
)
    requires
        key_valid_times(keys1) == key_valid_times(keys2),
        is_valid_time_listing(keys1, out1),
        is_valid_time_listing(keys2, out2),
    ensures
        out1 == out2,
{
    let lt = |x: Seq<char>, y: Seq<char>| crate::text::lex_lt(x, y);
    assert forall|x: Seq<char>, y: Seq<char>, z: Seq<char>| #[trigger] lt(x, y) && #[trigger] lt(
        y,
        z,
    ) implies lt(x, z) by {
        crate::text::lemma_lex_transitive(x, y, z);
    }
    assert forall|x: Seq<char>| !#[trigger] lt(x, x) by {
        crate::text::lemma_lex_irreflexive(x);
    }
    assert forall|x: Seq<char>| out1.contains(x) <==> out2.contains(x) by {
        assert(out1.contains(x) <==> key_valid_times(keys1).contains(x));
        assert(out2.contains(x) <==> key_valid_times(keys2).contains(x));
        assert(key_valid_times(keys1).contains(x) == key_valid_times(keys2).contains(x));
    }
    lemma_sorted_same_elements_equal(out1, out2, lt);
}

/// The anomaly metadata is reproducible: for one day, two updates whose
/// listings carry the same dates (in whatever order, in whichever of the
/// observed and forecast lists) build the same metadata, or both build
/// none.
pub proof fn anomaly_metadata_is_reproducible(
    today: Date,
    keys1: Seq<Seq<char>>,
    keys2: Seq<Seq<char>>,
    r1: Option<DomainMetadataJson>,
    r2: Option<DomainMetadataJson>,
)
    requires
        key_dates(keys1) == key_dates(keys2),
        is_anomaly_metadata(today, keys1, r1),
        is_anomaly_metadata(today, keys2, r2),
    ensures
        r1 is None <==> r2 is None,
        r1 matches Some(m1) ==> (r2 matches Some(m2) && m1.reference_time@ == m2.reference_time@
            && crate::keys::views(m1.valid_times@) == crate::keys::views(m2.valid_times@)
            && crate::keys::views(m1.variables@) == crate::keys::views(m2.variables@)),
{
    lemma_listing_of_no_date_is_empty(keys1, r1);
    lemma_listing_of_no_date_is_empty(keys2, r2);
    if r1 is Some && r2 is Some {
        day_listing_depends_on_dates_only(
            keys1,
            keys2,
            crate::keys::views(r1->0.valid_times@),
            crate::keys::views(r2->0.valid_times@),
        );
    }
}

/// Keys that carry no date have no metadata.
proof fn lemma_listing_of_no_date_is_empty(keys: Seq<Seq<char>>, r: Option<DomainMetadataJson>)
    requires
        r matches Some(m) ==> is_day_listing(keys, crate::keys::views(m.valid_times@))
            && m.valid_times@.len() > 0,
        r is None ==> key_dates(keys) == Set::<Date>::empty(),
    ensures
        r is None <==> key_dates(keys) == Set::<Date>::empty(),
{
    if let Some(m) = r {
        let out = crate::keys::views(m.valid_times@);
        let ds = choose|ds: Seq<Date>|
            {
                &&& dates_sorted(ds)
                &&& forall|d: Date| ds.contains(d) <==> #[trigger] key_dates(keys).contains(d)
                &&& out == ds.map_values(|d: Date| day_valid_time(d))
            };
        assert(out.len() == ds.len());
        assert(ds.contains(ds[0]));
        assert(key_dates(keys).contains(ds[0]));
        if key_dates(keys) == Set::<Date>::empty() {
            assert(!Set::<Date>::empty().contains(ds[0]));
        }
    }
}

} // verus!

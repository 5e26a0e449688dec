//! Decisions of the AROME-OM forecast run: which run to fetch, how the
//! territory and package options read, how the decoder's files are named
//! and matched to the registry.

use vstd::prelude::*;

use crate::meteofrance::AromeOmTerritory;
use crate::text::{chars_of, parse_uint, str_eq, string_of, trim};
use crate::time::{pred_date, Date, DateTime};
use crate::variables::VariableEntry;

verus! {

/// Hours between a run and the publication of its files.
pub const PUBLICATION_DELAY_H: u32 = 4;

/// Name of the hourly precipitation among the decoded variables.
pub const PRECIP_OM_NAME: &'static str = "precipitation";

/// Name of the derived precipitation total since the start of the run.
pub const DERIVED_PRECIP_SUM: &'static str = "precipitation_sum";

// ----- run selection ------------------------------------------------------

/// `now` minus the publication delay, as a date and an hour of the day.
pub open spec fn delayed_hour(now: DateTime) -> (Date, int) {
    if now.hour >= PUBLICATION_DELAY_H {
        (now.date, now.hour - PUBLICATION_DELAY_H)
    } else {
        (crate::time::pred_spec(now.date), now.hour + 24 - PUBLICATION_DELAY_H)
    }
}

/// The run to fetch at `now`: `now` minus the publication delay, floored to
/// a multiple of three hours (00, 03, …, 21 UTC).
pub open spec fn latest_run_spec(now: DateTime) -> DateTime {
    let (d, h) = delayed_hour(now);
    DateTime { date: d, hour: ((h / 3) * 3) as u32, minute: 0, second: 0, nanosecond: 0 }
}

/// The most recent 3-hourly run published at `now`.
pub fn latest_run(now: DateTime) -> (r: DateTime)
    requires
        crate::time::datetime_wf(now),
        now.hour < PUBLICATION_DELAY_H ==> !crate::time::is_min_date(now.date),
    ensures
        r == latest_run_spec(now),
        crate::time::datetime_wf(r),
        r.hour % 3 == 0,
{
    let (d, h) = if now.hour >= PUBLICATION_DELAY_H {
        (now.date, now.hour - PUBLICATION_DELAY_H)
    } else {
        (pred_date(now.date), now.hour + 24 - PUBLICATION_DELAY_H)
    };
    DateTime { date: d, hour: (h / 3) * 3, minute: 0, second: 0, nanosecond: 0 }
}

/// The chosen run is a whole 3-hourly slot that starts within three hours
/// before `now` minus the publication delay.
pub proof fn latest_run_is_floor(now: DateTime)
    requires
        crate::time::datetime_wf(now),
    ensures
        latest_run_spec(now).date == delayed_hour(now).0,
        latest_run_spec(now).hour <= delayed_hour(now).1 < latest_run_spec(now).hour + 3,
        latest_run_spec(now).hour % 3 == 0,
        latest_run_spec(now).minute == 0 && latest_run_spec(now).second == 0,
{
}

// ----- options ------------------------------------------------------------

/// Why an option of the command line is refused.
#[derive(Debug, Clone, PartialEq, Eq)]
pub enum OptionError {
    /// Territory other than Réunion (the lowercased text).
    UnsupportedTerritory(String),
    /// Package other than SP1, SP2, SP3 (the trimmed item).
    UnsupportedPackage(String),
}

/// What `str::to_lowercase` returns.
pub uninterp spec fn unicode_lowercase(s: Seq<char>) -> Seq<char>;

/// ASCII lowercase of one character.
pub open spec fn ascii_lower(c: char) -> char {
    if 'A' <= c && c <= 'Z' {
        ((c as int) + 32) as char
    } else {
        c
    }
}

/// Calls `str::to_lowercase`. Claims: the result is the named lowercase of
/// `s`; on ASCII text it maps `A`–`Z` to `a`–`z` and keeps every other
/// character (the Unicode lowercase mapping of ASCII).
#[verifier::external_body]
fn to_lowercase(s: &str) -> (r: String)
    ensures
        r@ == unicode_lowercase(s@),
        (forall|i: int| 0 <= i < s@.len() ==> (s@[i] as u32) < 128) ==> r@ == s@.map_values(
            |c: char| ascii_lower(c),
        ),
{
    s.to_lowercase()
}

/// `reunion`
pub open spec fn reunion_text() -> Seq<char> {
    "reunion"@
}

/// `réunion`
pub open spec fn reunion_accented_text() -> Seq<char> {
    "réunion"@
}

/// The territory named by a lowercased option: `reunion` or `réunion`;
/// otherwise the error carries the text.
pub fn territory_from_lowercase(l: String) -> (r: Result<AromeOmTerritory, OptionError>)
    ensures
        (l@ == reunion_text() || l@ == reunion_accented_text()) ==> r == Ok::<
            AromeOmTerritory,
            OptionError,
        >(AromeOmTerritory::Reunion),
        !(l@ == reunion_text() || l@ == reunion_accented_text()) ==> (r matches Err(
            OptionError::UnsupportedTerritory(t),
        ) && t@ == l@),
{
    if str_eq(l.as_str(), "reunion") || str_eq(l.as_str(), "réunion") {
        Ok(AromeOmTerritory::Reunion)
    } else {
        Err(OptionError::UnsupportedTerritory(l))
    }
}

/// Reads the territory option: `reunion` or `réunion`, in any case.
pub fn parse_territory(s: &str) -> (r: Result<AromeOmTerritory, OptionError>)
    ensures
        (unicode_lowercase(s@) == reunion_text() || unicode_lowercase(s@)
            == reunion_accented_text()) ==> r == Ok::<AromeOmTerritory, OptionError>(
            AromeOmTerritory::Reunion,
        ),
        !(unicode_lowercase(s@) == reunion_text() || unicode_lowercase(s@)
            == reunion_accented_text()) ==> (r matches Err(OptionError::UnsupportedTerritory(t))
            && t@ == unicode_lowercase(s@)),
{
    territory_from_lowercase(to_lowercase(s))
}

/// Pieces of `s` between the occurrences of `c` (`str::split(c)`): one more
/// piece than occurrences.
pub open spec fn split_char(s: Seq<char>, c: char) -> Seq<Seq<char>>
    decreases s.len(),
{
    if s.len() == 0 {
        seq![Seq::<char>::empty()]
    } else {
        let pre = split_char(s.drop_last(), c);
        if s.last() == c {
            pre.push(Seq::<char>::empty())
        } else {
            pre.update(pre.len() - 1, pre.last().push(s.last()))
        }
    }
}

/// `split_char` never gives an empty list.
proof fn lemma_split_char_len(s: Seq<char>, c: char)
    ensures
        split_char(s, c).len() >= 1,
    decreases s.len(),
{
    if s.len() > 0 {
        lemma_split_char_len(s.drop_last(), c);
    }
}

/// The pieces of `s` between the occurrences of `c`.
pub fn split_on(s: &str, c: char) -> (r: Vec<String>)
    ensures
        crate::keys::views(r@) == split_char(s@, c),
{
    let v = chars_of(s);
    let mut out: Vec<String> = Vec::new();
    let mut start: usize = 0;
    let mut i: usize = 0;
    proof {
        assert(v@.subrange(0, 0) =~= Seq::<char>::empty());
    }
    while i < v.len()
        invariant
            0 <= start <= i <= v@.len(),
            v@ == s@,
            crate::keys::views(out@).push(v@.subrange(start as int, i as int)) == split_char(
                v@.subrange(0, i as int),
                c,
            ),
        decreases v@.len() - i,
    {
        let ghost pre = v@.subrange(0, i as int);
        let ghost nxt = v@.subrange(0, i + 1);
        proof {
            assert(nxt.drop_last() =~= pre);
            assert(nxt.last() == v@[i as int]);
            lemma_split_char_len(pre, c);
        }
        let ghost old_start = start;
        if v[i] == c {
            let piece = string_of(&v, start, i);
            let ghost before = out@;
            out.push(piece);
            start = i + 1;
            proof {
                assert(crate::keys::views(out@) =~= crate::keys::views(before).push(
                    v@.subrange(old_start as int, i as int),
                ));
                assert(v@.subrange(start as int, i + 1) =~= Seq::<char>::empty());
                assert(split_char(nxt, c) == split_char(pre, c).push(Seq::<char>::empty()));
            }
        } else {
            proof {
                let sp = split_char(pre, c);
                assert(sp == crate::keys::views(out@).push(v@.subrange(start as int, i as int)));
                assert(split_char(nxt, c) == sp.update(sp.len() - 1, sp.last().push(v@[i as int])));
                assert(v@.subrange(start as int, i + 1) =~= v@.subrange(start as int, i as int).push(
                    v@[i as int],
                ));
                assert(crate::keys::views(out@).push(v@.subrange(start as int, i + 1)) =~= sp.update(
                    sp.len() - 1,
                    sp.last().push(v@[i as int]),
                ));
            }
        }
        i = i + 1;
    }
    let last = string_of(&v, start, v.len());
    let ghost before = out@;
    out.push(last);
    proof {
        assert(v@.subrange(0, v@.len() as int) =~= s@);
        assert(crate::keys::views(out@) =~= crate::keys::views(before).push(last@));
    }
    out
}

/// The package named by a trimmed item, if it is one.
pub open spec fn package_of(item: Seq<char>) -> Option<Seq<char>> {
    if item == "SP1"@ || item == "SP2"@ || item == "SP3"@ {
        Some(item)
    } else {
        None
    }
}

/// Reading of a list of package items: their trimmed names in order, or
/// the first trimmed item that names no package.
pub open spec fn packages_spec(items: Seq<Seq<char>>) -> Result<Seq<Seq<char>>, Seq<char>>
    decreases items.len(),
{
    if items.len() == 0 {
        Ok(Seq::empty())
    } else {
        match packages_spec(items.drop_last()) {
            Err(e) => Err(e),
            Ok(v) => {
                let p = crate::text::trim_spec(items.last());
                match package_of(p) {
                    Some(n) => Ok(v.push(n)),
                    None => Err(p),
                }
            },
        }
    }
}

/// Views of a list of static strings.
pub open spec fn static_views(v: Seq<&'static str>) -> Seq<Seq<char>> {
    v.map_values(|s: &'static str| s@)
}

/// Reads the comma-separated package option (items trimmed): the package
/// identifiers in order, or the first item that names no package.
pub fn parse_packages(s: &str) -> (r: Result<Vec<&'static str>, OptionError>)
    ensures
        match packages_spec(split_char(s@, ',')) {
            Ok(v) => r matches Ok(out) && static_views(out@) == v,
            Err(e) => r matches Err(OptionError::UnsupportedPackage(item)) && item@ == e,
        },
{
    let items = split_on(s, ',');
    let ghost its = crate::keys::views(items@);
    let mut out: Vec<&'static str> = Vec::new();
    let mut i: usize = 0;
    proof {
        reveal_strlit("SP1");
        reveal_strlit("SP2");
        reveal_strlit("SP3");
        assert(its.subrange(0, 0) =~= Seq::<Seq<char>>::empty());
        assert(static_views(out@) =~= Seq::<Seq<char>>::empty());
    }
    while i < items.len()
        invariant
            0 <= i <= items@.len(),
            its == crate::keys::views(items@),
            its == split_char(s@, ','),
            packages_spec(its.subrange(0, i as int)) == Ok::<Seq<Seq<char>>, Seq<char>>(
                static_views(out@),
            ),
        decreases items@.len() - i,
    {
        let p = trim(items[i].as_str());
        proof {
            assert(its.subrange(0, i + 1).drop_last() =~= its.subrange(0, i as int));
            assert(its.subrange(0, i + 1).last() == items@[i as int]@);
        }
        let ghost before = out@;
        if str_eq(p.as_str(), "SP1") {
            out.push("SP1");
        } else if str_eq(p.as_str(), "SP2") {
            out.push("SP2");
        } else if str_eq(p.as_str(), "SP3") {
            out.push("SP3");
        } else {
            proof {
                assert(package_of(p@) is None);
                assert(packages_spec(its.subrange(0, i + 1)) == Err::<Seq<Seq<char>>, Seq<char>>(
                    p@,
                ));
                lemma_packages_spec_err_prefix(its, i as int + 1, p@);
            }
            return Err(OptionError::UnsupportedPackage(p));
        }
        proof {
            assert(static_views(out@) =~= static_views(before).push(p@));
        }
        i = i + 1;
    }
    proof {
        assert(its.subrange(0, i as int) =~= its);
    }
    Ok(out)
}

/// Once the reading of a prefix fails, the reading of the whole list fails
/// with the same item.
proof fn lemma_packages_spec_err_prefix(items: Seq<Seq<char>>, k: int, e: Seq<char>)
    requires
        0 <= k <= items.len(),
        packages_spec(items.subrange(0, k)) == Err::<Seq<Seq<char>>, Seq<char>>(e),
    ensures
        packages_spec(items) == Err::<Seq<Seq<char>>, Seq<char>>(e),
    decreases items.len() - k,
{
    if k == items.len() {
        assert(items.subrange(0, k) =~= items);
    } else {
        assert(items.subrange(0, k + 1).drop_last() =~= items.subrange(0, k));
        lemma_packages_spec_err_prefix(items, k + 1, e);
    }
}

// ----- decoded files ------------------------------------------------------

/// `s.rsplit_once(c)`: the parts before and after the last `c`.
pub open spec fn rsplit_once_spec(s: Seq<char>, c: char) -> Option<(Seq<char>, Seq<char>)> {
    if s.contains(c) {
        let after = crate::keys::after_last(s, c);
        Some((s.subrange(0, s.len() - after.len() - 1), after))
    } else {
        None
    }
}

/// `2t_006h` → (`2t`, 6): the part before the last `_` and the number
/// before the final `h` of the part after it (`u32` syntax).
pub open spec fn parse_stem_spec(stem: Seq<char>) -> Option<(Seq<char>, u32)> {
    match rsplit_once_spec(stem, '_') {
        None => None,
        Some((sn, lead)) => match crate::keys::strip_suffix_spec(lead, seq!['h']) {
            None => None,
            Some(digits) => match crate::text::parse_uint_spec(digits, u32::MAX as nat) {
                None => None,
                Some(n) => Some((sn, n as u32)),
            },
        },
    }
}

/// Reads the stem of a decoded file name, `{shortName}_{HHH}h`.
pub fn parse_stem(stem: &str) -> (r: Option<(String, u32)>)
    ensures
        match parse_stem_spec(stem@) {
            None => r is None,
            Some((sn, n)) => r matches Some((rs, rn)) && rs@ == sn && rn == n,
        },
{
    let v = chars_of(stem);
    let n = v.len();
    let mut j: usize = n;
    while j > 0 && v[j - 1] != '_'
        invariant
            j <= n,
            n == v@.len(),
            v@ == stem@,
            forall|k: int| j <= k < n ==> v@[k] != '_',
        decreases j,
    {
        j = j - 1;
    }
    proof {
        lemma_after_last_scan(v@, '_', j as int);
    }
    if j == 0 {
        proof {
            assert(!v@.contains('_')) by {
                if v@.contains('_') {
                    let k = choose|k: int| 0 <= k < v@.len() && v@[k] == '_';
                }
            }
        }
        return None;
    }
    proof {
        assert(v@.contains('_')) by {
            assert(v@[j - 1] == '_');
        }
    }
    let ghost lead = v@.subrange(j as int, n as int);
    if j == n || v[n - 1] != 'h' {
        proof {
            if lead.len() >= 1 {
                assert(lead.subrange(lead.len() - 1, lead.len() as int)[0] == v@[n - 1]);
            }
        }
        return None;
    }
    proof {
        assert(lead.subrange(lead.len() - 1, lead.len() as int) =~= seq!['h']);
        assert(lead.subrange(0, lead.len() - 1) =~= v@.subrange(j as int, n - 1));
    }
    match parse_uint(&v, j, n - 1, 4294967295u64) {
        None => None,
        Some(x) => Some((string_of(&v, 0, j - 1), x as u32)),
    }
}

/// Scanning back from the end to just after the last `c` finds the part
/// after the last `c`.
proof fn lemma_after_last_scan(s: Seq<char>, c: char, j: int)
    requires
        0 <= j <= s.len(),
        forall|k: int| j <= k < s.len() ==> s[k] != c,
        j == 0 || s[j - 1] == c,
    ensures
        crate::keys::after_last(s, c) == s.subrange(j, s.len() as int),
    decreases s.len() - j,
{
    if s.len() == j {
        if j > 0 {
            assert(s.last() == c);
        }
        assert(s.subrange(j, s.len() as int) =~= Seq::<char>::empty());
    } else {
        let t = s.drop_last();
        assert forall|k: int| j <= k < t.len() implies t[k] != c by {
            assert(t[k] == s[k]);
        }
        if j > 0 {
            assert(t[j - 1] == s[j - 1]);
        }
        lemma_after_last_scan(t, c, j);
        assert(s.subrange(j, s.len() as int) =~= t.subrange(j, t.len() as int).push(s.last()));
    }
}

/// The stem of a file name, as `Path::file_stem` documents it: the whole
/// name when it holds no `.` or its only `.` is its first character,
/// otherwise the part before its last `.`.
pub open spec fn stem_of(name: Seq<char>) -> Seq<char> {
    let ext = crate::keys::after_last(name, '.');
    let dot = name.len() - ext.len() - 1;
    if !name.contains('.') || dot == 0 {
        name
    } else {
        name.subrange(0, dot)
    }
}

/// Calls `Path::file_stem`. Claims: on a plain path (see
/// [`crate::keys::plain_path`]), the stem is [`stem_of`] the part after the
/// last `/` (the file name `Path` documents on every platform, cut at its
/// last `.` as `file_stem` documents). Other paths are left unsaid: their
/// separators and prefixes depend on the platform.
#[verifier::external_body]
fn file_stem(path: &str) -> (r: Option<String>)
    ensures
        crate::keys::plain_path(path@) ==> (r is Some && r->0@ == stem_of(
            crate::keys::after_last(path@, '/'),
        )),
{
    let p = std::path::Path::new(path);
    p.file_stem().and_then(|s| s.to_str()).map(|s| s.to_string())
}

/// Reads a decoded file path `…/2t_006h.nc` into (`2t`, 6): the stem of the
/// path read by [`parse_stem`].
pub fn parse_filename(path: &str) -> (r: Option<(String, u32)>)
    ensures
        r matches Some((sn, n)) ==> exists|stem: Seq<char>| parse_stem_spec(stem) == Some(
            (sn@, n),
        ),
        crate::keys::plain_path(path@) ==> match parse_stem_spec(
            stem_of(crate::keys::after_last(path@, '/')),
        ) {
            None => r is None,
            Some((sn, n)) => r matches Some((rs, rn)) && rs@ == sn && rn == n,
        },
{
    match file_stem(path) {
        None => None,
        Some(stem) => parse_stem(stem.as_str()),
    }
}

/// `a,b,c`: the GRIB short names of `vars`, joined by commas.
pub open spec fn csv_spec(names: Seq<Seq<char>>) -> Seq<char>
    decreases names.len(),
{
    if names.len() == 0 {
        Seq::empty()
    } else if names.len() == 1 {
        names[0]
    } else {
        csv_spec(names.drop_last()) + seq![','] + names.last()
    }
}

/// GRIB short names of a list of entries.
pub open spec fn grib_names(vars: Seq<VariableEntry>) -> Seq<Seq<char>> {
    vars.map_values(|e: VariableEntry| e.grib_short_name@)
}

/// The GRIB short names of `vars`, joined by commas (argument of the
/// decoder).
pub fn shortnames_csv(vars: &Vec<VariableEntry>) -> (r: String)
    ensures
        r@ == csv_spec(grib_names(vars@)),
{
    let mut s = String::new();
    let mut i: usize = 0;
    while i < vars.len()
        invariant
            0 <= i <= vars@.len(),
            s@ == csv_spec(grib_names(vars@).subrange(0, i as int)),
        decreases vars@.len() - i,
    {
        let ghost pre = grib_names(vars@).subrange(0, i as int);
        let ghost nxt = grib_names(vars@).subrange(0, i + 1);
        proof {
            assert(nxt.drop_last() =~= pre);
            assert(nxt.last() == vars@[i as int].grib_short_name@);
        }
        if i > 0 {
            s.push(',');
        }
        s.append(vars[i].grib_short_name);
        proof {
            if i == 0 {
                assert(nxt =~= seq![vars@[0].grib_short_name@]);
            }
            assert(s@ =~= csv_spec(nxt));
        }
        i = i + 1;
    }
    proof {
        assert(grib_names(vars@).subrange(0, i as int) =~= grib_names(vars@));
    }
    s
}

/// The first entry of `vars` whose GRIB short name is `short`.
pub fn find_by_grib_name(vars: &Vec<VariableEntry>, short: &str) -> (r: Option<VariableEntry>)
    ensures
        match r {
            None => forall|i: int| 0 <= i < vars@.len() ==> vars@[i].grib_short_name@ != short@,
            Some(e) => exists|i: int|
                {
                    &&& 0 <= i < vars@.len()
                    &&& vars@[i] == e
                    &&& e.grib_short_name@ == short@
                    &&& forall|k: int| 0 <= k < i ==> vars@[k].grib_short_name@ != short@
                },
        },
{
    let mut i: usize = 0;
    while i < vars.len()
        invariant
            0 <= i <= vars@.len(),
            forall|k: int| 0 <= k < i ==> vars@[k].grib_short_name@ != short@,
        decreases vars@.len() - i,
    {
        if str_eq(vars[i].grib_short_name, short) {
            return Some(vars[i]);
        }
        i = i + 1;
    }
    None
}

/// Index of the first decoded slice named `precipitation`.
pub fn precipitation_slice(names: &Vec<String>) -> (r: Option<usize>)
    ensures
        match r {
            None => forall|i: int| 0 <= i < names@.len() ==> names@[i]@ != PRECIP_OM_NAME@,
            Some(i) => i < names@.len() && names@[i as int]@ == PRECIP_OM_NAME@ && forall|k: int|
                0 <= k < i ==> names@[k]@ != PRECIP_OM_NAME@,
        },
{
    let mut i: usize = 0;
    while i < names.len()
        invariant
            0 <= i <= names@.len(),
            forall|k: int| 0 <= k < i ==> names@[k]@ != PRECIP_OM_NAME@,
        decreases names@.len() - i,
    {
        if str_eq(names[i].as_str(), PRECIP_OM_NAME) {
            return Some(i);
        }
        i = i + 1;
    }
    None
}

} // verus!

//! Object keys of the bucket: how files are named (`YYYY-MM-DD.om`,
//! `YYYY-MM-DDTHHMM.om`, `{doy:03}.om` under a prefix) and how a key is
//! read back (date, valid time), plus the garbage-collection selection.

use vstd::prelude::*;

use crate::text::{chars_of, push_padded, string_of};
use crate::time::{
    date_before, naive_date_parse, naive_datetime_parse, push_date, push_iso_z, Date, DateTime,
};

verus! {

/// The part of `s` after its last `c` (all of `s` when `c` does not occur):
/// `s.rsplit(c).next()`.
pub open spec fn after_last(s: Seq<char>, c: char) -> Seq<char>
    decreases s.len(),
{
    if s.len() == 0 {
        s
    } else if s.last() == c {
        Seq::empty()
    } else {
        after_last(s.drop_last(), c).push(s.last())
    }
}

/// `s` without every trailing `c` (`str::trim_end_matches(c)`).
pub open spec fn trim_end_char(s: Seq<char>, c: char) -> Seq<char>
    decreases s.len(),
{
    if s.len() > 0 && s.last() == c {
        trim_end_char(s.drop_last(), c)
    } else {
        s
    }
}

/// `s` without the suffix `suf`, if it ends with it (`str::strip_suffix`).
pub open spec fn strip_suffix_spec(s: Seq<char>, suf: Seq<char>) -> Option<Seq<char>> {
    if s.len() >= suf.len() && s.subrange(s.len() - suf.len(), s.len() as int) == suf {
        Some(s.subrange(0, s.len() - suf.len()))
    } else {
        None
    }
}

/// A path whose components read alike on every platform: it holds no `\\`
/// and no `:` and does not begin with `//` (so no Windows prefix: no drive,
/// UNC, device nor verbatim prefix, and `/` the only separator), and its
/// part after the last `/` is a normal file name (not empty, `.` nor `..`).
pub open spec fn plain_path(path: Seq<char>) -> bool {
    let name = after_last(path, '/');
    &&& !path.contains('\\')
    &&& !path.contains(':')
    &&& !(path.len() >= 2 && path[0] == '/' && path[1] == '/')
    &&& name.len() > 0
    &&& name != seq!['.']
    &&& name != seq!['.', '.']
}

/// Calls `Path::file_name`. Claims: on a plain path (see [`plain_path`]),
/// the file name is the part after the last `/`, the final component
/// `Path` documents on every platform. Other paths are left unsaid: their
/// separators and prefixes depend on the platform.
#[verifier::external_body]
fn path_file_name(path: &str) -> (r: Option<String>)
    ensures
        plain_path(path@) ==> (r is Some && r->0@ == after_last(path@, '/')),
{
    std::path::Path::new(path).file_name().and_then(|n| n.to_str()).map(|n| n.to_string())
}

/// Date of a file name `YYYY-MM-DD.om`, as chrono reads its stem.
pub open spec fn file_name_date_spec(name: Seq<char>) -> Option<Date> {
    match strip_suffix_spec(name, om_ext()) {
        Some(st) => crate::time::chrono_naive_date_parse(st, crate::time::ymd_format()),
        None => None,
    }
}

/// Date of a file name `YYYY-MM-DD.om`.
pub fn file_name_date(name: &str) -> (r: Option<Date>)
    ensures
        r == file_name_date_spec(name@),
        r matches Some(d) ==> crate::time::date_wf(d),
{
    let v = chars_of(name);
    let n = v.len();
    if n >= 3 && v[n - 3] == '.' && v[n - 2] == 'o' && v[n - 1] == 'm' {
        let stem = string_of(&v, 0, n - 3);
        let fmt = "%Y-%m-%d";
        proof {
            reveal_strlit("%Y-%m-%d");
            assert(fmt@ =~= crate::time::ymd_format());
            assert(v@.subrange(n - 3, n as int) =~= om_ext());
            assert(strip_suffix_spec(v@, om_ext()) == Some(stem@));
        }
        naive_date_parse(stem.as_str(), fmt)
    } else {
        proof {
            if n >= 3 {
                assert(v@.subrange(n - 3, n as int)[0] == v@[n - 3]);
                assert(v@.subrange(n - 3, n as int)[1] == v@[n - 2]);
                assert(v@.subrange(n - 3, n as int)[2] == v@[n - 1]);
                assert(v@.subrange(n - 3, n as int) != om_ext());
            }
        }
        None
    }
}

/// The file names of keys read as paths (`Path::file_name`).
pub fn file_names(keys: &Vec<String>) -> (r: Vec<Option<String>>)
    ensures
        r@.len() == keys@.len(),
        forall|i: int|
            0 <= i < keys@.len() && plain_path(#[trigger] keys@[i]@) ==> (r@[i] matches Some(n)
                && n@ == after_last(keys@[i]@, '/')),
{
    let mut r: Vec<Option<String>> = Vec::new();
    let mut i: usize = 0;
    while i < keys.len()
        invariant
            0 <= i <= keys@.len(),
            r@.len() == i,
            forall|j: int|
                0 <= j < i && plain_path(#[trigger] keys@[j]@) ==> (r@[j] matches Some(n)
                    && n@ == after_last(keys@[j]@, '/')),
        decreases keys@.len() - i,
    {
        r.push(path_file_name(keys[i].as_str()));
        i = i + 1;
    }
    r
}

/// Date of a key whose file name, the last component of the key read as a
/// path, is `YYYY-MM-DD.om`.
pub fn date_from_file_name(key: &str) -> (r: Option<Date>)
    ensures
        r matches Some(d) ==> crate::time::date_wf(d) && exists|name: Seq<char>|
            #[trigger] file_name_date_spec(name) == Some(d),
        plain_path(key@) ==> r == file_name_date_spec(after_last(key@, '/')),
{
    match path_file_name(key) {
        None => None,
        Some(name) => file_name_date(name.as_str()),
    }
}

/// The keys whose file name carries a date before `cutoff`, in order.
pub open spec fn named_before_spec(
    keys: Seq<Seq<char>>,
    names: Seq<Option<Seq<char>>>,
    cutoff: Date,
) -> Seq<Seq<char>>
    decreases keys.len(),
{
    if keys.len() == 0 || names.len() != keys.len() {
        Seq::empty()
    } else {
        let rest = named_before_spec(keys.drop_last(), names.drop_last(), cutoff);
        match names.last() {
            Some(n) => match file_name_date_spec(n) {
                Some(d) => if crate::time::date_lt(d, cutoff) {
                    rest.push(keys.last())
                } else {
                    rest
                },
                None => rest,
            },
            None => rest,
        }
    }
}

/// Views of a list of optional strings.
pub open spec fn opt_views(v: Seq<Option<String>>) -> Seq<Option<Seq<char>>> {
    v.map_values(
        |o: Option<String>|
            match o {
                Some(s) => Some(s@),
                None => None,
            },
    )
}

/// Retention of the observed files: the keys (in order) whose file name,
/// given beside each key, carries a date before `cutoff`.
pub fn keys_named_before(keys: &Vec<String>, names: &Vec<Option<String>>, cutoff: Date) -> (r: Vec<
    String,
>)
    requires
        names@.len() == keys@.len(),
    ensures
        views(r@) == named_before_spec(views(keys@), opt_views(names@), cutoff),
{
    let mut r: Vec<String> = Vec::new();
    let mut i: usize = 0;
    while i < keys.len()
        invariant
            0 <= i <= keys@.len(),
            names@.len() == keys@.len(),
            views(r@) == named_before_spec(
                views(keys@).subrange(0, i as int),
                opt_views(names@).subrange(0, i as int),
                cutoff,
            ),
        decreases keys@.len() - i,
    {
        let ghost ks = views(keys@).subrange(0, i + 1);
        let ghost ns = opt_views(names@).subrange(0, i + 1);
        proof {
            assert(ks.drop_last() =~= views(keys@).subrange(0, i as int));
            assert(ns.drop_last() =~= opt_views(names@).subrange(0, i as int));
            assert(ks.last() == keys@[i as int]@);
        }
        match &names[i] {
            Some(n) => {
                proof {
                    assert(ns.last() == Some(n@));
                }
                match file_name_date(n.as_str()) {
                    Some(d) => {
                        if date_before(d, cutoff) {
                            let ghost before = r@;
                            r.push(keys[i].clone());
                            proof {
                                assert(views(r@) =~= views(before).push(keys@[i as int]@));
                            }
                        }
                    },
                    None => {},
                }
            },
            None => {
                proof {
                    assert(ns.last() == None::<Seq<char>>);
                }
            },
        }
        i = i + 1;
    }
    proof {
        assert(views(keys@).subrange(0, i as int) =~= views(keys@));
        assert(opt_views(names@).subrange(0, i as int) =~= opt_views(names@));
    }
    r
}

/// The file names of plain keys: the part after the last `/` of each.
pub open spec fn plain_names(keys: Seq<Seq<char>>) -> Seq<Option<Seq<char>>> {
    keys.map_values(|k: Seq<char>| Some(after_last(k, '/')))
}

/// Retention of the observed files: the keys (in order) whose file name,
/// the last component of the key read as a path, carries a date before
/// `cutoff`.
pub fn keys_with_file_date_before(keys: &Vec<String>, cutoff: Date) -> (r: Vec<String>)
    ensures
        exists|names: Seq<Option<Seq<char>>>|
            names.len() == keys@.len() && #[trigger] named_before_spec(views(keys@), names, cutoff)
                == views(r@),
        (forall|i: int| 0 <= i < keys@.len() ==> plain_path(#[trigger] keys@[i]@))
            ==> views(r@) == named_before_spec(views(keys@), plain_names(views(keys@)), cutoff),
        exists|names: Seq<Option<Seq<char>>>|
            {
                &&& names.len() == keys@.len()
                &&& forall|i: int|
                    0 <= i < keys@.len() && plain_path(#[trigger] keys@[i]@) ==> names[i] == Some(
                        after_last(keys@[i]@, '/'),
                    )
                &&& named_before_spec(views(keys@), names, cutoff) == views(r@)
            },
{
    let names = file_names(keys);
    let r = keys_named_before(keys, &names, cutoff);
    proof {
        assert(opt_views(names@).len() == keys@.len());
        assert forall|i: int|
            0 <= i < keys@.len() && plain_path(#[trigger] keys@[i]@) implies opt_views(
            names@,
        )[i] == Some(after_last(keys@[i]@, '/')) by {}
        if forall|i: int| 0 <= i < keys@.len() ==> plain_path(#[trigger] keys@[i]@) {
            assert forall|i: int| 0 <= i < keys@.len() implies opt_views(names@)[i] == plain_names(
                views(keys@),
            )[i] by {
                assert(plain_path(keys@[i]@));
            }
            assert(opt_views(names@) =~= plain_names(views(keys@)));
        }
    }
    r
}

/// `.om`
pub open spec fn om_ext() -> Seq<char> {
    seq!['.', 'o', 'm']
}

/// The stem of an OMfile key: its last path segment without `.om`.
pub open spec fn om_stem(key: Seq<char>) -> Option<Seq<char>> {
    strip_suffix_spec(after_last(key, '/'), om_ext())
}

/// Key of a file under a prefix: `{prefix without trailing '/'}/{file}`.
pub open spec fn object_key_spec(prefix: Seq<char>, file: Seq<char>) -> Seq<char> {
    trim_end_char(prefix, '/') + seq!['/'] + file
}

/// Name of a daily file: `YYYY-MM-DD.om`.
pub open spec fn day_file_spec(d: Date) -> Seq<char> {
    crate::time::date_text(d) + om_ext()
}

/// Name of a leadtime file: `YYYY-MM-DDTHHMM.om`.
pub open spec fn timestep_file_spec(t: DateTime) -> Seq<char> {
    crate::time::compact_text(t) + om_ext()
}

/// Name of a climatology file: `{doy:03}.om`.
pub open spec fn climatology_file_spec(doy: u32) -> Seq<char> {
    crate::text::padded(doy as nat, 3) + om_ext()
}

/// Date of a key `…/YYYY-MM-DD.om`, as `chrono` parses its stem.
pub open spec fn key_date(key: Seq<char>) -> Option<Date> {
    match om_stem(key) {
        None => None,
        Some(stem) => crate::time::chrono_naive_date_parse(stem, crate::time::ymd_format()),
    }
}

/// Valid time `%Y-%m-%dT%H:%M:%SZ` of a key `…/YYYY-MM-DDTHHMM.om`.
pub open spec fn key_valid_time(key: Seq<char>) -> Option<Seq<char>> {
    match om_stem(key) {
        None => None,
        Some(stem) => match crate::time::chrono_naive_datetime_parse(
            stem,
            crate::time::compact_format(),
        ) {
            None => None,
            Some(t) => Some(crate::time::iso_z_text(t)),
        },
    }
}

/// Index just after the last `c` of `v` (0 when there is none).
fn after_last_index(v: &Vec<char>, c: char) -> (i: usize)
    ensures
        i <= v@.len(),
        after_last(v@, c) == v@.subrange(i as int, v@.len() as int),
{
    let mut j: usize = v.len();
    proof {
        assert(v@.subrange(0, v@.len() as int) =~= v@);
        assert(v@.subrange(v@.len() as int, v@.len() as int) =~= Seq::<char>::empty());
        assert(v@ + Seq::<char>::empty() =~= v@);
    }
    while j > 0 && v[j - 1] != c
        invariant
            j <= v@.len(),
            after_last(v@, c) == after_last(v@.subrange(0, j as int), c) + v@.subrange(
                j as int,
                v@.len() as int,
            ),
        decreases j,
    {
        proof {
            let t = v@.subrange(0, j as int);
            assert(t.drop_last() =~= v@.subrange(0, j - 1));
            assert(after_last(t, c) == after_last(t.drop_last(), c).push(t.last()));
            assert(after_last(t.drop_last(), c).push(t.last()) + v@.subrange(
                j as int,
                v@.len() as int,
            ) =~= after_last(t.drop_last(), c) + v@.subrange(j - 1, v@.len() as int));
        }
        j = j - 1;
    }
    proof {
        let t = v@.subrange(0, j as int);
        if j == 0 {
            assert(t =~= Seq::<char>::empty());
        }
        assert(after_last(t, c) =~= Seq::<char>::empty());
        assert(Seq::<char>::empty() + v@.subrange(j as int, v@.len() as int) =~= v@.subrange(
            j as int,
            v@.len() as int,
        ));
    }
    j
}

/// Index just after `trim_end_char(v[..to], c)`.
fn trim_end_char_index(v: &Vec<char>, c: char) -> (j: usize)
    ensures
        j <= v@.len(),
        trim_end_char(v@, c) == v@.subrange(0, j as int),
{
    let mut j: usize = v.len();
    assert(v@.subrange(0, v@.len() as int) =~= v@);
    while j > 0 && v[j - 1] == c
        invariant
            j <= v@.len(),
            trim_end_char(v@, c) == trim_end_char(v@.subrange(0, j as int), c),
        decreases j,
    {
        proof {
            let t = v@.subrange(0, j as int);
            assert(t.drop_last() =~= v@.subrange(0, j - 1));
        }
        j = j - 1;
    }
    j
}

/// The stem of an OMfile key, if its last segment ends with `.om`.
pub fn om_key_stem(key: &str) -> (r: Option<String>)
    ensures
        match om_stem(key@) {
            None => r is None,
            Some(st) => r matches Some(s) && s@ == st,
        },
{
    let v = chars_of(key);
    let i = after_last_index(&v, '/');
    let n = v.len();
    let ghost seg = v@.subrange(i as int, n as int);
    if n - i >= 3 && v[n - 3] == '.' && v[n - 2] == 'o' && v[n - 1] == 'm' {
        proof {
            assert(seg.subrange(seg.len() - 3, seg.len() as int) =~= om_ext());
            assert(seg.subrange(0, seg.len() - 3) =~= v@.subrange(i as int, n - 3));
        }
        Some(string_of(&v, i, n - 3))
    } else {
        proof {
            if seg.len() >= 3 {
                assert(seg.subrange(seg.len() - 3, seg.len() as int)[0] == v@[n - 3]);
                assert(seg.subrange(seg.len() - 3, seg.len() as int)[1] == v@[n - 2]);
                assert(seg.subrange(seg.len() - 3, seg.len() as int)[2] == v@[n - 1]);
                assert(seg.subrange(seg.len() - 3, seg.len() as int) != om_ext());
            }
        }
        None
    }
}

/// Extracts the date of a key `…/YYYY-MM-DD.om`.
pub fn parse_date_from_key(key: &str) -> (r: Option<Date>)
    ensures
        r == key_date(key@),
        r matches Some(d) ==> crate::time::date_wf(d),
        om_stem(key@) matches Some(st) ==> (crate::time::canonical_ymd(st) ==> r == Some(
            crate::time::canonical_date(st),
        )),
{
    match om_key_stem(key) {
        None => None,
        Some(stem) => {
            let fmt = "%Y-%m-%d";
            proof {
                reveal_strlit("%Y-%m-%d");
                assert(fmt@ =~= crate::time::ymd_format());
            }
            naive_date_parse(stem.as_str(), fmt)
        },
    }
}

/// Extracts the valid time (`%Y-%m-%dT%H:%M:%SZ`) of a key
/// `…/YYYY-MM-DDTHHMM.om`; `None` for any other key.
pub fn key_to_valid_time(key: &str) -> (r: Option<String>)
    ensures
        match key_valid_time(key@) {
            None => r is None,
            Some(t) => r matches Some(s) && s@ == t,
        },
        om_stem(key@) matches Some(st) ==> (crate::time::canonical_compact(st) ==> (r matches Some(
            s,
        ) && s@ == crate::time::iso_z_text(crate::time::canonical_compact_datetime(st)))),
{
    match om_key_stem(key) {
        None => None,
        Some(stem) => match {
            let fmt = "%Y-%m-%dT%H%M";
            proof {
                reveal_strlit("%Y-%m-%dT%H%M");
                assert(fmt@ =~= crate::time::compact_format());
            }
            naive_datetime_parse(stem.as_str(), fmt)
        } {
            None => None,
            Some(t) => {
                let mut s = String::new();
                push_iso_z(&mut s, t);
                proof {
                    assert(s@ =~= crate::time::iso_z_text(t));
                }
                Some(s)
            },
        },
    }
}

/// Appends `.om`.
fn push_om(out: &mut String)
    ensures
        final(out)@ == old(out)@ + om_ext(),
{
    out.push('.');
    out.push('o');
    out.push('m');
    proof {
        assert(final(out)@ =~= old(out)@ + om_ext());
    }
}

/// Name of the daily file of `d`: `YYYY-MM-DD.om`.
pub fn day_file_name(d: Date) -> (r: String)
    ensures
        r@ == day_file_spec(d),
{
    let mut s = String::new();
    push_date(&mut s, d);
    push_om(&mut s);
    proof {
        assert(s@ =~= day_file_spec(d));
    }
    s
}

/// Name of the file of leadtime `t`: `YYYY-MM-DDTHHMM.om`.
pub fn timestep_file_name(t: DateTime) -> (r: String)
    ensures
        r@ == timestep_file_spec(t),
{
    let mut s = String::new();
    crate::time::push_compact(&mut s, t);
    push_om(&mut s);
    proof {
        assert(s@ =~= timestep_file_spec(t));
    }
    s
}

/// Name of the climatology file of a day of year: `{doy:03}.om`.
pub fn climatology_file_name(doy: u32) -> (r: String)
    ensures
        r@ == climatology_file_spec(doy),
{
    let mut s = String::new();
    push_padded(&mut s, doy as u64, 3);
    push_om(&mut s);
    proof {
        assert(s@ =~= climatology_file_spec(doy));
    }
    s
}

/// `s` without its trailing `/` (`s.trim_end_matches('/')`).
pub fn trim_end_slashes(s: &str) -> (r: String)
    ensures
        r@ == trim_end_char(s@, '/'),
{
    let v = chars_of(s);
    let j = trim_end_char_index(&v, '/');
    string_of(&v, 0, j)
}

/// Key of `file` under `prefix`: `{prefix without trailing '/'}/{file}`.
pub fn object_key(prefix: &str, file: &str) -> (r: String)
    ensures
        r@ == object_key_spec(prefix@, file@),
{
    let v = chars_of(prefix);
    let j = trim_end_char_index(&v, '/');
    let mut s = string_of(&v, 0, j);
    s.push('/');
    s.append(file);
    proof {
        assert(s@ =~= object_key_spec(prefix@, file@));
    }
    s
}

/// `after_last` of `a ++ [c] ++ b` is `b` when `b` holds no `c`.
pub proof fn lemma_after_last_concat(a: Seq<char>, b: Seq<char>, c: char)
    requires
        !b.contains(c),
    ensures
        after_last(a + seq![c] + b, c) == b,
    decreases b.len(),
{
    let s = a + seq![c] + b;
    if b.len() == 0 {
        assert(s.last() == c);
    } else {
        assert(!(b.last() == c)) by {
            assert(b.contains(b.last()) || true);
            if b.last() == c {
                assert(b[b.len() - 1] == c);
                assert(b.contains(c));
            }
        }
        assert(s.drop_last() =~= a + seq![c] + b.drop_last());
        assert forall|x: char| b.drop_last().contains(x) implies b.contains(x) by {
            let k = choose|k: int| 0 <= k < b.drop_last().len() && b.drop_last()[k] == x;
            assert(b[k] == x);
        }
        lemma_after_last_concat(a, b.drop_last(), c);
        assert(after_last(s, c) == after_last(s.drop_last(), c).push(s.last()));
        assert(b.drop_last().push(b.last()) =~= b);
    }
}

/// A zero-padded decimal holds no `/`.
pub proof fn lemma_padded_no_slash(n: nat, w: nat)
    ensures
        !crate::text::padded(n, w).contains('/'),
{
    crate::time::lemma_padded(n, w);
    let p = crate::text::padded(n, w);
    if p.contains('/') {
        let k = choose|k: int| 0 <= k < p.len() && p[k] == '/';
        assert(crate::text::is_digit(p[k]));
    }
}

/// A daily file name of a year in 0..=9999 holds no `/`.
pub proof fn lemma_day_file_no_slash(d: Date)
    requires
        0 <= d.year <= 9999,
    ensures
        !day_file_spec(d).contains('/'),
{
    let y = crate::text::padded(d.year as nat, 4);
    let m = crate::text::padded(d.month as nat, 2);
    let dd = crate::text::padded(d.day as nat, 2);
    lemma_padded_no_slash(d.year as nat, 4);
    lemma_padded_no_slash(d.month as nat, 2);
    lemma_padded_no_slash(d.day as nat, 2);
    let s = day_file_spec(d);
    assert(s =~= y + seq!['-'] + m + seq!['-'] + dd + om_ext());
    if s.contains('/') {
        let k = choose|k: int| 0 <= k < s.len() && s[k] == '/';
        let a = y.len() as int;
        let b = a + 1 + m.len();
        let c = b + 1 + dd.len();
        if k < a {
            assert(y[k] == '/');
            assert(y.contains('/'));
        } else if k == a {
        } else if k < b {
            assert(m[k - a - 1] == '/');
            assert(m.contains('/'));
        } else if k == b {
        } else if k < c {
            assert(dd[k - b - 1] == '/');
            assert(dd.contains('/'));
        } else {
            assert(om_ext()[k - c] == '/');
        }
    }
}

/// The key of a daily file written under any prefix has, as stem, the
/// canonical text of its date, which reads back as that date (years
/// 0..=9999); so `parse_date_from_key` gives back the date of the key.
pub proof fn day_key_round_trip(prefix: Seq<char>, d: Date)
    requires
        crate::time::date_wf(d),
        0 <= d.year <= 9999,
    ensures
        om_stem(object_key_spec(prefix, day_file_spec(d))) == Some(crate::time::date_text(d)),
        crate::time::canonical_ymd(crate::time::date_text(d)),
        crate::time::canonical_date(crate::time::date_text(d)) == d,
{
    let key = object_key_spec(prefix, day_file_spec(d));
    lemma_day_file_no_slash(d);
    lemma_after_last_concat(trim_end_char(prefix, '/'), day_file_spec(d), '/');
    let seg = day_file_spec(d);
    assert(seg.subrange(seg.len() - 3, seg.len() as int) =~= om_ext());
    assert(seg.subrange(0, seg.len() - 3) =~= crate::time::date_text(d));
    crate::time::lemma_date_text_canonical(d);
}

/// Concatenating two texts without `/` gives a text without `/`.
proof fn lemma_no_slash_concat(a: Seq<char>, b: Seq<char>)
    requires
        !a.contains('/'),
        !b.contains('/'),
    ensures
        !(a + b).contains('/'),
{
    if (a + b).contains('/') {
        let k = choose|k: int| 0 <= k < (a + b).len() && (a + b)[k] == '/';
        if k < a.len() {
            assert(a[k] == '/');
        } else {
            assert(b[k - a.len()] == '/');
        }
    }
}

/// A leadtime file name of a year in 0..=9999 holds no `/`.
pub proof fn lemma_timestep_file_no_slash(t: DateTime)
    requires
        0 <= t.date.year <= 9999,
    ensures
        !timestep_file_spec(t).contains('/'),
{
    lemma_day_file_no_slash(t.date);
    let dt = crate::time::date_text(t.date);
    assert(day_file_spec(t.date) =~= dt + om_ext());
    if dt.contains('/') {
        let k = choose|k: int| 0 <= k < dt.len() && dt[k] == '/';
        assert((dt + om_ext())[k] == '/');
    }
    lemma_padded_no_slash(t.hour as nat, 2);
    lemma_padded_no_slash(t.minute as nat, 2);
    assert(!seq!['T'].contains('/')) by {
        if seq!['T'].contains('/') {
            let k = choose|k: int| 0 <= k < 1 && seq!['T'][k] == '/';
        }
    }
    assert(!om_ext().contains('/')) by {
        if om_ext().contains('/') {
            let k = choose|k: int| 0 <= k < 3 && om_ext()[k] == '/';
        }
    }
    let h = crate::time::two(t.hour as int);
    let m = crate::time::two(t.minute as int);
    lemma_no_slash_concat(dt, seq!['T']);
    lemma_no_slash_concat(dt + seq!['T'], h);
    lemma_no_slash_concat(dt + seq!['T'] + h, m);
    lemma_no_slash_concat(dt + seq!['T'] + h + m, om_ext());
    assert(timestep_file_spec(t) =~= dt + seq!['T'] + h + m + om_ext());
}

/// The key of a leadtime file written under any prefix has, as stem, the
/// `%Y-%m-%dT%H%M` text of its valid time in canonical form, which reads
/// back as that valid time (years 0..=9999, whole minutes); so
/// `key_to_valid_time` gives back the valid time of the key.
pub proof fn timestep_key_round_trip(prefix: Seq<char>, t: DateTime)
    requires
        crate::time::datetime_wf(t),
        0 <= t.date.year <= 9999,
        t.second == 0,
        t.nanosecond == 0,
    ensures
        om_stem(object_key_spec(prefix, timestep_file_spec(t))) == Some(
            crate::time::compact_text(t),
        ),
        crate::time::canonical_compact(crate::time::compact_text(t)),
        crate::time::canonical_compact_datetime(crate::time::compact_text(t)) == t,
{
    lemma_timestep_file_no_slash(t);
    lemma_after_last_concat(trim_end_char(prefix, '/'), timestep_file_spec(t), '/');
    let seg = timestep_file_spec(t);
    assert(seg.subrange(seg.len() - 3, seg.len() as int) =~= om_ext());
    assert(seg.subrange(0, seg.len() - 3) =~= crate::time::compact_text(t));
    crate::time::lemma_compact_text_canonical(t);
}

/// The `…/YYYY-MM-DD.om` keys whose date is before `cutoff`, in order.
pub open spec fn keys_before_spec(keys: Seq<Seq<char>>, cutoff: Date) -> Seq<Seq<char>>
    decreases keys.len(),
{
    if keys.len() == 0 {
        Seq::empty()
    } else {
        let rest = keys_before_spec(keys.drop_last(), cutoff);
        match key_date(keys.last()) {
            Some(d) => if crate::time::date_lt(d, cutoff) {
                rest.push(keys.last())
            } else {
                rest
            },
            None => rest,
        }
    }
}

/// The garbage collection selects, among the listed keys, exactly those
/// that carry a date strictly before the cutoff in calendar order (year,
/// then month, then day): none that is undated or dated on or after it.
pub proof fn lemma_dated_before_members(keys: Seq<Seq<char>>, cutoff: Date)
    ensures
        forall|k: Seq<char>|
            #[trigger] keys_before_spec(keys, cutoff).contains(k) <==> (keys.contains(k) && (key_date(
                k,
            ) matches Some(d) && (d.year < cutoff.year || (d.year == cutoff.year && (d.month
                < cutoff.month || (d.month == cutoff.month && d.day < cutoff.day)))))),
    decreases keys.len(),
{
    if keys.len() > 0 {
        let pre = keys.drop_last();
        lemma_dated_before_members(pre, cutoff);
        assert(keys =~= pre.push(keys.last()));
        assert forall|k: Seq<char>| keys.contains(k) <==> (pre.contains(k) || k == keys.last()) by {
            if keys.contains(k) {
                let j = choose|j: int| 0 <= j < keys.len() && keys[j] == k;
                if j < pre.len() {
                    assert(pre[j] == k);
                }
            }
            if pre.contains(k) {
                let j = choose|j: int| 0 <= j < pre.len() && pre[j] == k;
                assert(keys[j] == k);
            }
            if k == keys.last() {
                assert(keys[keys.len() - 1] == k);
            }
        }
        let rest = keys_before_spec(pre, cutoff);
        assert forall|k: Seq<char>| rest.push(keys.last()).contains(k) <==> (rest.contains(k)
            || k == keys.last()) by {
            if rest.push(keys.last()).contains(k) {
                let j = choose|j: int| 0 <= j < rest.len() + 1 && rest.push(keys.last())[j] == k;
                if j < rest.len() {
                    assert(rest[j] == k);
                }
            }
            if rest.contains(k) {
                let j = choose|j: int| 0 <= j < rest.len() && rest[j] == k;
                assert(rest.push(keys.last())[j] == k);
            }
            if k == keys.last() {
                assert(rest.push(keys.last())[rest.len() as int] == k);
            }
        }
        assert forall|k: Seq<char>|
            #[trigger] keys_before_spec(keys, cutoff).contains(k) <==> (keys.contains(k) && (key_date(
                k,
            ) matches Some(d) && (d.year < cutoff.year || (d.year == cutoff.year && (d.month
                < cutoff.month || (d.month == cutoff.month && d.day < cutoff.day)))))) by {
            assert(rest.contains(k) <==> (pre.contains(k) && (key_date(k) matches Some(d) && (d.year
                < cutoff.year || (d.year == cutoff.year && (d.month < cutoff.month || (d.month
                == cutoff.month && d.day < cutoff.day)))))));
        }
    } else {
        assert forall|k: Seq<char>|
            #[trigger] keys_before_spec(keys, cutoff).contains(k) <==> (keys.contains(k) && (key_date(
                k,
            ) matches Some(d) && (d.year < cutoff.year || (d.year == cutoff.year && (d.month
                < cutoff.month || (d.month == cutoff.month && d.day < cutoff.day)))))) by {
            if keys.contains(k) {
                let j = choose|j: int| 0 <= j < keys.len() && keys[j] == k;
            }
        }
    }
}

/// Views of a list of strings.
pub open spec fn views(v: Seq<String>) -> Seq<Seq<char>> {
    v.map_values(|s: String| s@)
}

/// Garbage collection: the keys (in listing order) of the dated files
/// older than `cutoff`. Keys that do not carry a date are kept.
pub fn keys_dated_before(keys: &Vec<String>, cutoff: Date) -> (r: Vec<String>)
    ensures
        views(r@) == keys_before_spec(views(keys@), cutoff),
        forall|i: int|
            0 <= i < keys@.len() ==> (#[trigger] key_date(keys@[i]@) matches Some(d) && (d.year
                < cutoff.year || (d.year == cutoff.year && (d.month < cutoff.month || (d.month
                == cutoff.month && d.day < cutoff.day))))) ==> views(r@).contains(keys@[i]@),
        forall|k: Seq<char>|
            #[trigger] views(r@).contains(k) ==> views(keys@).contains(k) && (key_date(
                k,
            ) matches Some(d) && (d.year < cutoff.year || (d.year == cutoff.year && (d.month
                < cutoff.month || (d.month == cutoff.month && d.day < cutoff.day))))),
{
    let mut r: Vec<String> = Vec::new();
    let mut i: usize = 0;
    while i < keys.len()
        invariant
            0 <= i <= keys@.len(),
            views(r@) == keys_before_spec(views(keys@).subrange(0, i as int), cutoff),
        decreases keys@.len() - i,
    {
        let ghost pre = views(keys@).subrange(0, i as int);
        let ghost cur = views(keys@).subrange(0, i + 1);
        proof {
            assert(cur.drop_last() =~= pre);
            assert(cur.last() == keys@[i as int]@);
        }
        match parse_date_from_key(keys[i].as_str()) {
            Some(d) => {
                if date_before(d, cutoff) {
                    let ghost before = r@;
                    r.push(keys[i].clone());
                    proof {
                        assert(views(r@) =~= views(before).push(keys@[i as int]@));
                    }
                }
            },
            None => {},
        }
        i = i + 1;
    }
    proof {
        assert(views(keys@).subrange(0, i as int) =~= views(keys@));
    }
    proof {
        lemma_dated_before_members(views(keys@), cutoff);
        assert forall|i: int| 0 <= i < keys@.len() implies views(keys@).contains(
            #[trigger] keys@[i]@,
        ) by {
            assert(views(keys@)[i] == keys@[i]@);
        }
    }
    r
}

} // verus!

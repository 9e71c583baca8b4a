//! File paths as text with `/` separators: the parts of a path that the
//! configuration locations and their display depend on.
//!
//! A path is read as its components: an optional leading root (`/`) or
//! current-directory mark (`.`), then the names between separators, where
//! repeated separators and `.` names are skipped.

use vstd::prelude::*;

use crate::text::{chars_of, push_char, string_from_chars};

verus! {

/// The file name of the local configuration file.
pub const LOCAL_CONFIG_FILE_NAME: &'static str = "fwd-deck.toml";

/// The file name used for the override file of a path without a file name.
pub const LOCAL_OVERRIDE_FILE_NAME: &'static str = "fwd-deck.override.toml";

/// The marker inserted before the extension of an override file's name.
pub const LOCAL_OVERRIDE_MARKER: &'static str = ".override";

/// Whether position `i` of `s` starts a `.` name: a `.` followed by a
/// separator or by the end.
pub open spec fn dot_name_at(s: Seq<char>, i: int) -> bool {
    s[i] == '.' && (i + 1 == s.len() || s[i + 1] == '/')
}

/// The first position at or after `i` where a name other than `.` starts
/// (or the end): separators and `.` names are skipped.
pub open spec fn skip_leading(s: Seq<char>, i: int) -> int
    decreases s.len() - i,
{
    if i < 0 || i >= s.len() {
        s.len() as int
    } else if s[i] == '/' || dot_name_at(s, i) {
        skip_leading(s, i + 1)
    } else {
        i
    }
}

/// The end of the name starting at `i`: the next separator or the end.
pub open spec fn name_end(s: Seq<char>, i: int) -> int
    decreases s.len() - i,
{
    if i < 0 || i >= s.len() {
        s.len() as int
    } else if s[i] == '/' {
        i
    } else {
        name_end(s, i + 1)
    }
}

/// The end of `s[lo..hi]` once trailing separators and `.` names are
/// dropped.
pub open spec fn trim_trailing(s: Seq<char>, lo: int, hi: int) -> int
    decreases hi - lo,
{
    if hi <= lo {
        lo
    } else if s[hi - 1] == '/' || (s[hi - 1] == '.' && (hi - 1 == lo || s[hi - 2] == '/')) {
        trim_trailing(s, lo, hi - 1)
    } else {
        hi
    }
}

/// Whether the path starts at the root.
pub open spec fn has_root(s: Seq<char>) -> bool {
    s.len() > 0 && s[0] == '/'
}

/// Whether the path starts with the current-directory mark.
pub open spec fn has_cur_dir(s: Seq<char>) -> bool {
    !has_root(s) && s.len() > 0 && dot_name_at(s, 0)
}

/// The length of the leading root or current-directory mark (0 or 1).
pub open spec fn lead_len(s: Seq<char>) -> int {
    if has_root(s) || has_cur_dir(s) {
        1
    } else {
        0
    }
}

/// The position just after the last separator before `e` (0 when none).
pub open spec fn name_start(s: Seq<char>, e: int) -> int
    decreases e,
{
    if e <= 0 {
        0
    } else if s[e - 1] == '/' {
        e
    } else {
        name_start(s, e - 1)
    }
}

/// `base` joined with the relative path `name`: a separator is put
/// between them unless `base` is empty or already ends with one.
pub open spec fn join_path(base: Seq<char>, name: Seq<char>) -> Seq<char> {
    if base.len() == 0 {
        name
    } else if base.last() == '/' {
        base + name
    } else {
        base + seq!['/'] + name
    }
}

/// The last position of `.` in `s` (-1 when none).
pub open spec fn last_dot(s: Seq<char>, e: int) -> int
    decreases e,
{
    if e <= 0 {
        -1
    } else if s[e - 1] == '.' {
        e - 1
    } else {
        last_dot(s, e - 1)
    }
}

/// The file name of a path: its last name, absent when the path has none
/// (it is empty, the root, `.`) or when the last name is `..`.
pub open spec fn file_name(s: Seq<char>) -> Option<Seq<char>> {
    let e = trim_trailing(s, 0, s.len() as int);
    let name = s.subrange(name_start(s, e), e);
    if e == 0 || name == ".."@ {
        None
    } else {
        Some(name)
    }
}

/// The path without its file name (trailing separators dropped, but not
/// the root or the leading `.`).
pub open spec fn parent_text(s: Seq<char>) -> Seq<char> {
    let e = trim_trailing(s, 0, s.len() as int);
    s.subrange(0, trim_trailing(s, lead_len(s), name_start(s, e)))
}

/// The stem of a file name: the part before its last `.`; the whole name
/// when it has no `.` other than a leading one.
pub open spec fn file_stem(name: Seq<char>) -> Seq<char> {
    let d = last_dot(name, name.len() as int);
    if d <= 0 {
        name
    } else {
        name.subrange(0, d)
    }
}

/// The extension of a file name: the part after its last `.`, absent when
/// the name has no `.` other than a leading one.
pub open spec fn file_extension(name: Seq<char>) -> Option<Seq<char>> {
    let d = last_dot(name, name.len() as int);
    if d <= 0 {
        None
    } else {
        Some(name.subrange(d + 1, name.len() as int))
    }
}

/// The override file for a local configuration file: the same directory,
/// the file name with `.override` before its extension (`.toml` when it
/// has none); for a path without a file name, `fwd-deck.override.toml`
/// inside it.
pub open spec fn spec_local_override_path(s: Seq<char>) -> Seq<char> {
    match file_name(s) {
        None => join_path(s, LOCAL_OVERRIDE_FILE_NAME@),
        Some(name) => {
            let ext = match file_extension(name) {
                Some(x) => seq!['.'] + x,
                None => ".toml"@,
            };
            join_path(parent_text(s), file_stem(name) + LOCAL_OVERRIDE_MARKER@ + ext)
        },
    }
}

pub proof fn lemma_skip_leading_bounds(s: Seq<char>, i: int)
    requires
        0 <= i <= s.len(),
    ensures
        i <= skip_leading(s, i) <= s.len(),
        skip_leading(s, i) < s.len() ==> s[skip_leading(s, i)] != '/',
    decreases s.len() - i,
{
    if i < s.len() && (s[i] == '/' || dot_name_at(s, i)) {
        lemma_skip_leading_bounds(s, i + 1);
    }
}

pub proof fn lemma_name_end_bounds(s: Seq<char>, i: int)
    requires
        0 <= i <= s.len(),
    ensures
        i <= name_end(s, i) <= s.len(),
    decreases s.len() - i,
{
    if i < s.len() && s[i] != '/' {
        lemma_name_end_bounds(s, i + 1);
    }
}

proof fn lemma_trim_trailing_bounds(s: Seq<char>, lo: int, hi: int)
    requires
        0 <= lo,
        hi <= s.len(),
    ensures
        lo <= hi ==> lo <= trim_trailing(s, lo, hi) <= hi,
        hi < lo ==> trim_trailing(s, lo, hi) == lo,
    decreases hi - lo,
{
    if hi > lo && (s[hi - 1] == '/' || (s[hi - 1] == '.' && (hi - 1 == lo || s[hi - 2] == '/'))) {
        lemma_trim_trailing_bounds(s, lo, hi - 1);
    }
}

proof fn lemma_name_start_bounds(s: Seq<char>, e: int)
    requires
        0 <= e <= s.len(),
    ensures
        0 <= name_start(s, e) <= e,
    decreases e,
{
    if e > 0 && s[e - 1] != '/' {
        lemma_name_start_bounds(s, e - 1);
    }
}

proof fn lemma_last_dot_bounds(s: Seq<char>, e: int)
    requires
        0 <= e <= s.len(),
    ensures
        -1 <= last_dot(s, e) < e,
    decreases e,
{
    if e > 0 && s[e - 1] != '.' {
        lemma_last_dot_bounds(s, e - 1);
    }
}

/// The end of `cs[lo..hi]` once trailing separators and `.` names are dropped.
fn trailing_end(cs: &Vec<char>, lo: usize, hi: usize) -> (r: usize)
    requires
        lo <= hi <= cs@.len(),
    ensures
        r == trim_trailing(cs@, lo as int, hi as int),
        lo <= r <= hi,
{
    let mut h = hi;
    while h > lo && (cs[h - 1] == '/' || (cs[h - 1] == '.' && (h - 1 == lo || cs[h - 2] == '/')))
        invariant
            lo <= h <= hi <= cs@.len(),
            trim_trailing(cs@, lo as int, hi as int) == trim_trailing(cs@, lo as int, h as int),
        decreases h,
    {
        h -= 1;
    }
    h
}

/// The position just after the last separator before `e`.
fn name_start_of(cs: &Vec<char>, e: usize) -> (r: usize)
    requires
        e <= cs@.len(),
    ensures
        r == name_start(cs@, e as int),
        r <= e,
{
    let mut k = e;
    while k > 0 && cs[k - 1] != '/'
        invariant
            k <= e <= cs@.len(),
            name_start(cs@, e as int) == name_start(cs@, k as int),
        decreases k,
    {
        k -= 1;
    }
    k
}

/// The last position of `.` before `e` in `cs`, or `None`.
fn last_dot_of(cs: &Vec<char>, e: usize) -> (r: Option<usize>)
    requires
        e <= cs@.len(),
    ensures
        match r {
            Some(d) => last_dot(cs@, e as int) == d as int,
            None => last_dot(cs@, e as int) == -1,
        },
{
    let mut k = e;
    while k > 0 && cs[k - 1] != '.'
        invariant
            k <= e <= cs@.len(),
            last_dot(cs@, e as int) == last_dot(cs@, k as int),
        decreases k,
    {
        k -= 1;
    }
    if k == 0 {
        None
    } else {
        Some(k - 1)
    }
}

/// Appends the characters `cs[lo..hi]` to `s`.
fn push_range(s: &mut String, cs: &Vec<char>, lo: usize, hi: usize)
    requires
        lo <= hi <= cs@.len(),
    ensures
        final(s)@ == old(s)@ + cs@.subrange(lo as int, hi as int),
{
    let mut i = lo;
    while i < hi
        invariant
            lo <= i <= hi <= cs@.len(),
            s@ == old(s)@ + cs@.subrange(lo as int, i as int),
        decreases hi - i,
    {
        push_char(s, cs[i]);
        i += 1;
        assert(s@ =~= old(s)@ + cs@.subrange(lo as int, i as int));
    }
}

/// Appends the characters of `t` to `s`.
fn push_str_chars(s: &mut String, t: &str)
    ensures
        final(s)@ == old(s)@ + t@,
{
    let ts = chars_of(t);
    push_range(s, &ts, 0, ts.len());
    assert(ts@.subrange(0, ts@.len() as int) =~= t@);
}

/// `base` joined with the relative path `name`.
pub fn join_path_text(base: &str, name: &str) -> (r: String)
    ensures
        r@ == join_path(base@, name@),
{
    let bs = chars_of(base);
    let mut r = string_from_chars(bs.as_slice());
    if bs.len() > 0 && bs[bs.len() - 1] != '/' {
        push_char(&mut r, '/');
    }
    push_str_chars(&mut r, name);
    r
}

/// The default local configuration file: `fwd-deck.toml` in `current_dir`.
pub fn default_local_config_path(current_dir: &str) -> (r: String)
    ensures
        r@ == join_path(current_dir@, LOCAL_CONFIG_FILE_NAME@),
{
    join_path_text(current_dir, LOCAL_CONFIG_FILE_NAME)
}


/// Where the file name of the path `cs` lies, when it has one.
fn file_name_range(cs: &Vec<char>) -> (r: Option<(usize, usize)>)
    ensures
        ({
            let s = cs@;
            let e = trim_trailing(s, 0, s.len() as int);
            let k = name_start(s, e);
            &&& 0 <= k <= e <= s.len()
            &&& match r {
                Some((a, b)) => a == k && b == e && file_name(s) == Some(s.subrange(k, e)),
                None => file_name(s) is None,
            }
        }),
{
    let ghost s = cs@;
    let n = cs.len();
    let e = trailing_end(cs, 0, n);
    let k = name_start_of(cs, e);
    let is_parent_dir = e - k == 2 && cs[k] == '.' && cs[k + 1] == '.';
    proof {
        reveal_strlit("..");
        if e == k + 2 {
            assert(s.subrange(k as int, e as int) == ".."@ <==> (s[k as int] == '.' && s[k + 1] == '.')) by {
                assert(s.subrange(k as int, e as int)[0] == s[k as int]);
                assert(s.subrange(k as int, e as int)[1] == s[k + 1]);
                assert(".."@[0] == '.' && ".."@[1] == '.');
                if s[k as int] == '.' && s[k + 1] == '.' {
                    assert(s.subrange(k as int, e as int) =~= ".."@);
                }
            }
        } else {
            assert(s.subrange(k as int, e as int).len() != ".."@.len());
        }
    }
    if e == 0 || is_parent_dir {
        None
    } else {
        Some((k, e))
    }
}

/// The file name of a path, when it has one.
pub fn file_name_of(path: &str) -> (r: Option<String>)
    ensures
        r.deep_view() == file_name(path@),
{
    let cs = chars_of(path);
    match file_name_range(&cs) {
        None => None,
        Some((k, e)) => {
            let mut r = String::new();
            push_range(&mut r, &cs, k, e);
            Some(r)
        },
    }
}

/// The override file for a local configuration file, next to it:
/// `config/fwd-deck.toml` gives `config/fwd-deck.override.toml`, and
/// `config/work` gives `config/work.override.toml`.
pub fn local_override_config_path(local_path: &str) -> (r: String)
    ensures
        r@ == spec_local_override_path(local_path@),
{
    let cs = chars_of(local_path);
    let ghost s = cs@;
    let n = cs.len();
    let (k, e) = match file_name_range(&cs) {
        None => {
            return join_path_text(local_path, LOCAL_OVERRIDE_FILE_NAME);
        },
        Some(range) => range,
    };
    let lead: usize = if (n > 0 && cs[0] == '/') || (n > 0 && cs[0] == '.' && (n == 1 || cs[1] == '/')) {
        1
    } else {
        0
    };
    let pe = if lead <= k {
        trailing_end(&cs, lead, k)
    } else {
        lead
    };
    proof {
        lemma_trim_trailing_bounds(s, lead as int, k as int);
    }
    let mut r = String::new();
    push_range(&mut r, &cs, 0, pe);
    if pe > 0 && cs[pe - 1] != '/' {
        push_char(&mut r, '/');
    }
    let new_name = override_file_name(&cs, k, e);
    push_str_chars(&mut r, new_name.as_str());
    proof {
        let p = parent_text(s);
        assert(p =~= s.subrange(0, pe as int));
        assert(r@ =~= join_path(p, new_name@));
    }
    r
}

/// The override file's name for the file name `cs[k..e]`: its stem, then
/// `.override`, then its extension (`.toml` when it has none).
fn override_file_name(cs: &Vec<char>, k: usize, e: usize) -> (r: String)
    requires
        k <= e <= cs@.len(),
    ensures
        ({
            let name = cs@.subrange(k as int, e as int);
            r@ == file_stem(name) + LOCAL_OVERRIDE_MARKER@ + match file_extension(name) {
                Some(x) => seq!['.'] + x,
                None => ".toml"@,
            }
        }),
{
    let ghost s = cs@;
    let ghost name = s.subrange(k as int, e as int);
    let d = last_dot_of(cs, e);
    proof {
        lemma_last_dot_slice(s, k as int, e as int, e - k);
        lemma_last_dot_bounds(s, e as int);
    }
    let dot: Option<usize> = match d {
        Some(di) => if di > k {
            Some(di)
        } else {
            None
        },
        None => None,
    };
    let mut r = String::new();
    match dot {
        Some(di) => {
            push_range(&mut r, cs, k, di);
            push_str_chars(&mut r, LOCAL_OVERRIDE_MARKER);
            push_char(&mut r, '.');
            push_range(&mut r, cs, di + 1, e);
            proof {
                assert(file_stem(name) =~= s.subrange(k as int, di as int));
                assert(file_extension(name) == Some(s.subrange(di + 1, e as int))) by {
                    assert(name.subrange(di - k + 1, name.len() as int) =~= s.subrange(di + 1, e as int));
                }
            }
        },
        None => {
            push_range(&mut r, cs, k, e);
            push_str_chars(&mut r, LOCAL_OVERRIDE_MARKER);
            push_str_chars(&mut r, ".toml");
        },
    }
    assert(r@ =~= file_stem(name) + LOCAL_OVERRIDE_MARKER@ + match file_extension(name) {
        Some(x) => seq!['.'] + x,
        None => ".toml"@,
    });
    r
}


/// Whether two paths begin alike: both at the root, both with the
/// current-directory mark, or neither.
pub open spec fn same_lead(p: Seq<char>, h: Seq<char>) -> bool {
    has_root(p) == has_root(h) && has_cur_dir(p) == has_cur_dir(h)
}

/// Matches the names of `h` from position `hi` one by one against the
/// names of `p` from position `pi`: the position in `p` after the last
/// matched name, or `None` when `p` lacks one of them.
pub open spec fn strip_names(p: Seq<char>, pi: int, h: Seq<char>, hi: int) -> Option<int>
    decreases h.len() - hi,
{
    if hi < 0 || hi > h.len() || pi < 0 || pi > p.len() {
        None
    } else {
        let hu = skip_leading(h, hi);
        if hu >= h.len() {
            Some(pi)
        } else {
            let pu = skip_leading(p, pi);
            if pu >= p.len() {
                None
            } else {
                let he = name_end(h, hu);
                let pe = name_end(p, pu);
                if p.subrange(pu, pe) == h.subrange(hu, he) {
                    proof {
                        lemma_skip_leading_bounds(h, hi);
                        lemma_skip_leading_bounds(p, pi);
                        lemma_name_end_bounds(h, hu + 1);
                        lemma_name_end_bounds(p, pu);
                    }
                    strip_names(p, pe, h, he)
                } else {
                    None
                }
            }
        }
    }
}

/// A path for display: inside the home directory `h` it is written from
/// `~` (the home itself is `~`); any other path, or any path when `h` is
/// empty, is written as it is. A path is inside `h` when it begins like
/// `h` and its first names are the names of `h`; the rest is shown
/// without leading and trailing separators and `.` names.
pub open spec fn spec_display_path(p: Seq<char>, h: Seq<char>) -> Seq<char> {
    if h.len() == 0 || !same_lead(p, h) {
        p
    } else {
        match strip_names(p, 0, h, 0) {
            None => p,
            Some(i) => {
                let a = skip_leading(p, i);
                let b = trim_trailing(p, a, p.len() as int);
                if b <= a {
                    "~"@
                } else {
                    "~/"@ + p.subrange(a, b)
                }
            },
        }
    }
}

/// The first position at or after `i` where a name other than `.` starts.
fn skip_leading_at(cs: &Vec<char>, i: usize) -> (r: usize)
    requires
        i <= cs@.len(),
    ensures
        r == skip_leading(cs@, i as int),
        i <= r <= cs@.len(),
{
    proof {
        lemma_skip_leading_bounds(cs@, i as int);
    }
    let mut j = i;
    while j < cs.len() && (cs[j] == '/' || (cs[j] == '.' && (j + 1 == cs.len() || cs[j + 1] == '/')))
        invariant
            i <= j <= cs@.len(),
            skip_leading(cs@, i as int) == skip_leading(cs@, j as int),
        decreases cs@.len() - j,
    {
        j += 1;
    }
    j
}

/// The end of the name starting at `i`.
fn name_end_at(cs: &Vec<char>, i: usize) -> (r: usize)
    requires
        i <= cs@.len(),
    ensures
        r == name_end(cs@, i as int),
        i <= r <= cs@.len(),
{
    let mut j = i;
    while j < cs.len() && cs[j] != '/'
        invariant
            i <= j <= cs@.len(),
            name_end(cs@, i as int) == name_end(cs@, j as int),
        decreases cs@.len() - j,
    {
        j += 1;
    }
    j
}

/// Whether `a[alo..ahi]` and `b[blo..bhi]` hold the same characters.
fn ranges_equal(a: &Vec<char>, alo: usize, ahi: usize, b: &Vec<char>, blo: usize, bhi: usize) -> (r: bool)
    requires
        alo <= ahi <= a@.len(),
        blo <= bhi <= b@.len(),
    ensures
        r == (a@.subrange(alo as int, ahi as int) == b@.subrange(blo as int, bhi as int)),
{
    if ahi - alo != bhi - blo {
        assert(a@.subrange(alo as int, ahi as int).len() != b@.subrange(blo as int, bhi as int).len());
        return false;
    }
    let n = ahi - alo;
    let mut i: usize = 0;
    while i < n
        invariant
            n == ahi - alo,
            n == bhi - blo,
            alo <= ahi <= a@.len(),
            blo <= bhi <= b@.len(),
            i <= n,
            a@.subrange(alo as int, alo + i) == b@.subrange(blo as int, blo + i),
        decreases n - i,
    {
        if a[alo + i] != b[blo + i] {
            assert(a@.subrange(alo as int, ahi as int)[i as int] != b@.subrange(blo as int, bhi as int)[i as int]);
            return false;
        }
        assert(a@.subrange(alo as int, alo + i + 1) =~= a@.subrange(alo as int, alo + i).push(a@[alo + i]));
        assert(b@.subrange(blo as int, blo + i + 1) =~= b@.subrange(blo as int, blo + i).push(b@[blo + i]));
        i += 1;
    }
    true
}

/// Whether the path text begins at the root.
fn starts_at_root(cs: &Vec<char>) -> (r: bool)
    ensures
        r == has_root(cs@),
{
    cs.len() > 0 && cs[0] == '/'
}

/// Whether the path text begins with the current-directory mark.
fn starts_at_cur_dir(cs: &Vec<char>) -> (r: bool)
    ensures
        r == has_cur_dir(cs@),
{
    !starts_at_root(cs) && cs.len() > 0 && cs[0] == '.' && (cs.len() == 1 || cs[1] == '/')
}

/// Where the names of `home` end in `path`, when `path` has them first.
fn strip_home_names(pc: &Vec<char>, hc: &Vec<char>) -> (r: Option<usize>)
    ensures
        match r {
            Some(i) => strip_names(pc@, 0, hc@, 0) == Some(i as int) && i <= pc@.len(),
            None => strip_names(pc@, 0, hc@, 0) is None,
        },
{
    let ghost p = pc@;
    let ghost h = hc@;
    let mut pi: usize = 0;
    let mut hi: usize = 0;
    let mut result: Option<usize> = None;
    let mut done = false;
    while !done
        invariant
            pi <= p.len(),
            hi <= h.len(),
            p == pc@,
            h == hc@,
            !done ==> strip_names(p, 0, h, 0) == strip_names(p, pi as int, h, hi as int),
            !done ==> result is None,
            done ==> match result {
                Some(i) => strip_names(p, 0, h, 0) == Some(i as int) && i <= p.len(),
                None => strip_names(p, 0, h, 0) is None,
            },
        decreases h.len() - hi, if done { 0int } else { 1int },
    {
        let hu = skip_leading_at(hc, hi);
        if hu >= hc.len() {
            assert(strip_names(p, pi as int, h, hi as int) == Some(pi as int));
            result = Some(pi);
            done = true;
        } else {
            let pu = skip_leading_at(pc, pi);
            if pu >= pc.len() {
                assert(strip_names(p, pi as int, h, hi as int) is None);
                done = true;
            } else {
                proof {
                    lemma_skip_leading_bounds(h, hi as int);
                }
                let he = name_end_at(hc, hu);
                let pe = name_end_at(pc, pu);
                proof {
                    lemma_name_end_bounds(h, hu + 1);
                }
                if ranges_equal(pc, pu, pe, hc, hu, he) {
                    pi = pe;
                    hi = he;
                } else {
                    done = true;
                }
            }
        }
    }
    result
}

/// A path for display, written from `~` when it lies inside the home
/// directory `home` (the home itself is `~`); otherwise, or when `home` is
/// empty, it is written as it is.
pub fn format_path_for_display_with_home(path: &str, home: &str) -> (r: String)
    ensures
        r@ == spec_display_path(path@, home@),
{
    let pc = chars_of(path);
    let hc = chars_of(home);
    if hc.len() == 0 || starts_at_root(&pc) != starts_at_root(&hc) || starts_at_cur_dir(&pc) != starts_at_cur_dir(&hc) {
        return string_from_chars(pc.as_slice());
    }
    match strip_home_names(&pc, &hc) {
        None => string_from_chars(pc.as_slice()),
        Some(i) => {
            let a = skip_leading_at(&pc, i);
            let b = trailing_end(&pc, a, pc.len());
            let mut r = String::new();
            push_char(&mut r, '~');
            if b > a {
                push_char(&mut r, '/');
                push_range(&mut r, &pc, a, b);
            }
            proof {
                reveal_strlit("~");
                reveal_strlit("~/");
                if b > a {
                    assert(r@ =~= "~/"@ + pc@.subrange(a as int, b as int));
                } else {
                    assert(r@ =~= "~"@);
                }
            }
            r
        },
    }
}

/// `last_dot` of a name that is a slice of a longer text.
proof fn lemma_last_dot_slice(s: Seq<char>, k: int, e: int, m: int)
    requires
        0 <= k <= e <= s.len(),
        0 <= m <= e - k,
    ensures
        ({
            let d = last_dot(s.subrange(k, e), m);
            let ds = last_dot(s, k + m);
            (ds >= k ==> d == ds - k) && (ds < k ==> d == -1)
        }),
    decreases m,
{
    lemma_last_dot_bounds(s, k + m);
    if m > 0 {
        assert(s.subrange(k, e)[m - 1] == s[k + m - 1]);
        if s[k + m - 1] != '.' {
            lemma_last_dot_slice(s, k, e, m - 1);
        }
    }
}

/// Whether no name of `h` is `.`.
pub open spec fn no_dot_names(h: Seq<char>) -> bool {
    forall|j: int| 0 <= j < h.len() && (j == 0 || h[j - 1] == '/') ==> !#[trigger] dot_name_at(h, j)
}

/// Whether `r` is a plain relative path: it neither begins nor ends with a
/// separator or a `.` name.
pub open spec fn plain_relative(r: Seq<char>) -> bool {
    &&& r.len() > 0
    &&& r[0] != '/'
    &&& !dot_name_at(r, 0)
    &&& r.last() != '/'
    &&& !(r.last() == '.' && (r.len() == 1 || r[r.len() - 2] == '/'))
}

proof fn lemma_skip_leading_in_home(h: Seq<char>, x: Seq<char>, i: int)
    requires
        no_dot_names(h),
        h.len() > 0,
        h.last() != '/',
        0 <= i < h.len(),
        i == 0 || h[i - 1] == '/' || h[i] == '/',
    ensures
        i <= skip_leading(h, i) < h.len(),
        skip_leading(h + x, i) == skip_leading(h, i),
        h[skip_leading(h, i)] != '/',
    decreases h.len() - i,
{
    let p = h + x;
    assert(p[i] == h[i]);
    if h[i] == '/' {
        lemma_skip_leading_in_home(h, x, i + 1);
    } else {
        assert(!dot_name_at(h, i));
        if h[i] == '.' {
            assert(p[i + 1] == h[i + 1]);
        }
    }
}

proof fn lemma_name_end_in_home(h: Seq<char>, x: Seq<char>, j: int)
    requires
        0 <= j <= h.len(),
    ensures
        name_end(h, j) < h.len() ==> name_end(h + x, j) == name_end(h, j) && h[name_end(h, j)] == '/',
        name_end(h, j) == h.len() && (x.len() == 0 || x[0] == '/') ==> name_end(h + x, j) == h.len(),
        name_end(h, j) == h.len() && x.len() > 0 && x[0] != '/' ==> name_end(h + x, j) > h.len(),
    decreases h.len() - j,
{
    let p = h + x;
    if j < h.len() {
        assert(p[j] == h[j]);
        if h[j] != '/' {
            lemma_name_end_in_home(h, x, j + 1);
        }
    } else {
        if x.len() > 0 {
            assert(p[h.len() as int] == x[0]);
            if x[0] != '/' {
                lemma_name_end_bounds(p, j + 1);
            }
        }
    }
}

proof fn lemma_strip_home(h: Seq<char>, x: Seq<char>, hi: int)
    requires
        no_dot_names(h),
        h.len() > 0,
        h.last() != '/',
        0 <= hi <= h.len(),
        hi == 0 || hi == h.len() || h[hi] == '/',
    ensures
        strip_names(h + x, hi, h, hi) == if hi == h.len() || x.len() == 0 || x[0] == '/' {
            Some(h.len() as int)
        } else {
            None::<int>
        },
    decreases h.len() - hi,
{
    let p = h + x;
    if hi == h.len() {
        assert(skip_leading(h, hi) == h.len());
    } else {
        lemma_skip_leading_in_home(h, x, hi);
        let hu = skip_leading(h, hi);
        lemma_name_end_bounds(h, hu + 1);
        lemma_name_end_in_home(h, x, hu);
        lemma_name_end_bounds(p, hu);
        let he = name_end(h, hu);
        let pe = name_end(p, hu);
        assert(he > hu);
        if he < h.len() {
            assert(p.subrange(hu, pe) =~= h.subrange(hu, he));
            lemma_strip_home(h, x, he);
        } else if x.len() == 0 || x[0] == '/' {
            assert(p.subrange(hu, pe) =~= h.subrange(hu, he));
            lemma_strip_home(h, x, he);
        } else {
            assert(p.subrange(hu, pe).len() != h.subrange(hu, he).len());
        }
    }
}

/// Showing a path relative to the home directory `h` (no name of which is
/// `.`, and which does not end with a separator): `h` itself is `~`; a
/// plain relative path `r` below it is `~/r`; and a sibling path that
/// merely begins with the same characters, such as `/Users/example-work`
/// for `/Users/example`, is shown as it is.
pub proof fn lemma_display_path_under_home(h: Seq<char>, x: Seq<char>, r: Seq<char>)
    requires
        no_dot_names(h),
        h.len() > 0,
        h.last() != '/',
    ensures
        spec_display_path(h, h) == "~"@,
        x.len() > 0 && x[0] != '/' ==> spec_display_path(h + x, h) == h + x,
        plain_relative(r) ==> spec_display_path(h + seq!['/'] + r, h) == "~/"@ + r,
{
    reveal_strlit("~");
    reveal_strlit("~/");
    assert(h + Seq::<char>::empty() =~= h);
    lemma_strip_home(h, Seq::<char>::empty(), 0);
    assert(skip_leading(h, h.len() as int) == h.len());
    assert(trim_trailing(h, h.len() as int, h.len() as int) == h.len());
    if h[0] == '.' {
        assert(!dot_name_at(h, 0));
    }
    if x.len() > 0 && x[0] != '/' {
        let p = h + x;
        lemma_strip_home(h, x, 0);
        assert(p[0] == h[0]);
        if h[0] == '.' {
            assert(h.len() > 1);
            assert(p[1] == h[1]);
        }
    }
    if plain_relative(r) {
        let y = seq!['/'] + r;
        let p = h + y;
        assert(h + seq!['/'] + r =~= p);
        lemma_strip_home(h, y, 0);
        assert(p[0] == h[0]);
        if h[0] == '.' {
            assert(h.len() > 1);
            assert(p[1] == h[1]);
        }
        let n = h.len() as int;
        assert(p[n] == '/');
        assert(p[n + 1] == r[0]);
        if r.len() > 1 {
            assert(p[n + 2] == r[1]);
        }
        assert(!dot_name_at(p, n + 1));
        assert(skip_leading(p, n + 1) == n + 1);
        assert(skip_leading(p, n) == n + 1);
        assert(p[p.len() - 1] == r.last());
        if r.len() > 1 {
            assert(p[p.len() - 2] == r[r.len() - 2]);
        }
        assert(trim_trailing(p, n + 1, p.len() as int) == p.len());
        assert(p.subrange(n + 1, p.len() as int) =~= r);
    }
}

} // verus!

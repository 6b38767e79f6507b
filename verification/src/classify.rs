//! File classification: whether a path, taken relative to the project root,
//! belongs to the page engine or the app engine, or is left alone entirely.
//! Backslash separators are normalized first.  The segment names carry
//! priorities, not scan order: a `node_modules` segment anywhere always
//! excludes the file; otherwise a `pages` segment anywhere makes it
//! page-style; otherwise an `app` segment anywhere makes it app-style; a
//! path with none of the three, or outside the root, is never transformed.

use vstd::prelude::*;
use crate::DirType;

verus! {

/// The path with every backslash turned into a forward slash.
pub open spec fn normalized(s: Seq<char>) -> Seq<char> {
    Seq::new(
        s.len(),
        |i: int|
            if s[i] == '\\' {
                '/'
            } else {
                s[i]
            },
    )
}

/// Does the relative path, scanned from segment start `start` and position
/// `i`, contain a whole segment spelling `w`?
pub open spec fn has_segment_from(rel: Seq<char>, start: int, i: int, w: Seq<char>) -> bool
    decreases rel.len() - i,
{
    if i < 0 || start < 0 || start > i {
        false
    } else if i >= rel.len() {
        rel.subrange(start, rel.len() as int) == w
    } else if rel[i] == '/' {
        rel.subrange(start, i) == w || has_segment_from(rel, i + 1, i + 1, w)
    } else {
        has_segment_from(rel, start, i + 1, w)
    }
}

/// Does the relative path contain a whole segment spelling `w`?
pub open spec fn has_segment(rel: Seq<char>, w: Seq<char>) -> bool {
    has_segment_from(rel, 0, 0, w)
}

/// The classification of a file: `None` leaves the file untouched, because
/// its path does not lie under the root, because a `node_modules` segment
/// excludes it, or because no segment names either engine.  A `pages` or
/// `app` segment may sit at any depth, nested under `src/` included, and
/// `pages` outranks `app`.
pub open spec fn classify_spec(cwd: Seq<char>, path: Seq<char>) -> Option<DirType> {
    let cn = normalized(cwd);
    let pn = normalized(path);
    if pn.len() >= cn.len() && pn.subrange(0, cn.len() as int) == cn {
        let rel = pn.skip(cn.len() as int);
        if has_segment(rel, "node_modules"@) {
            None
        } else if has_segment(rel, "pages"@) {
            Some(DirType::Page)
        } else if has_segment(rel, "app"@) {
            Some(DirType::App)
        } else {
            None
        }
    } else {
        None
    }
}

/// Normalize the separators of a path into a character list.
fn normalize_chars(s: &str) -> (r: Vec<char>)
    ensures
        r@ == normalized(s@),
{
    let n = s.unicode_len();
    let mut r: Vec<char> = Vec::new();
    let mut i: usize = 0;
    while i < n
        invariant
            n == s@.len(),
            i <= n,
            r@.len() == i,
            forall|k: int| 0 <= k < i ==> #[trigger] r@[k] == normalized(s@)[k],
        decreases n - i,
    {
        let c = s.get_char(i);
        if c == '\\' {
            r.push('/');
        } else {
            r.push(c);
        }
        i = i + 1;
    }
    proof {
        assert(r@ =~= normalized(s@));
    }
    r
}

/// Does the segment `v[a..b]` spell `w`?
fn seg_eq(v: &Vec<char>, a: usize, b: usize, w: &str) -> (r: bool)
    requires
        a <= b <= v@.len(),
    ensures
        r == (v@.subrange(a as int, b as int) == w@),
{
    let wn = w.unicode_len();
    if b - a != wn {
        proof {
            assert(v@.subrange(a as int, b as int).len() != w@.len());
        }
        return false;
    }
    let mut i: usize = 0;
    while i < wn
        invariant
            wn == w@.len(),
            a + wn <= v@.len(),
            b - a == wn,
            i <= wn,
            forall|k: int| 0 <= k < i ==> #[trigger] v@[a + k] == w@[k],
        decreases wn - i,
    {
        let c = v[a + i];
        let d = w.get_char(i);
        if c != d {
            proof {
                assert(v@.subrange(a as int, b as int)[i as int] != w@[i as int]);
            }
            return false;
        }
        i = i + 1;
    }
    proof {
        assert forall|k: int| 0 <= k < wn implies v@.subrange(a as int, b as int)[k] == w@[k] by {
            assert(v@[a + k] == w@[k]);
        }
        assert(v@.subrange(a as int, b as int) =~= w@);
    }
    true
}

/// Does the relative path contain a whole segment spelling `w`,
/// executably?
#[verifier::loop_isolation(false)]
fn scan_segment(rel: &Vec<char>, w: &str) -> (r: bool)
    ensures
        r == has_segment(rel@, w@),
{
    let n = rel.len();
    let mut start: usize = 0;
    let mut p: usize = 0;
    while p < n
        invariant
            n == rel@.len(),
            start <= p <= n,
            has_segment_from(rel@, start as int, p as int, w@) == has_segment(rel@, w@),
        decreases n - p,
    {
        if rel[p] == '/' {
            if seg_eq(rel, start, p, w) {
                return true;
            }
            start = p + 1;
        }
        p = p + 1;
    }
    seg_eq(rel, start, n, w)
}

/// Classify a file by its absolute path and the project root it should lie
/// under.  `None` leaves the file untouched.
#[verifier::loop_isolation(false)]
pub fn classify_path(cwd: &str, path: &str) -> (r: Option<DirType>)
    ensures
        r == classify_spec(cwd@, path@),
{
    let cn = normalize_chars(cwd);
    let pn = normalize_chars(path);
    if pn.len() < cn.len() {
        return None;
    }
    let mut i: usize = 0;
    while i < cn.len()
        invariant
            i <= cn@.len(),
            cn@.len() <= pn@.len(),
            forall|k: int| 0 <= k < i ==> #[trigger] pn@[k] == cn@[k],
        decreases cn@.len() - i,
    {
        if pn[i] != cn[i] {
            proof {
                assert(pn@.subrange(0, cn@.len() as int)[i as int] != cn@[i as int]);
            }
            return None;
        }
        i = i + 1;
    }
    proof {
        assert(pn@.subrange(0, cn@.len() as int) =~= cn@);
    }

    let mut rel: Vec<char> = Vec::new();
    let mut j: usize = cn.len();
    while j < pn.len()
        invariant
            cn@.len() <= j <= pn@.len(),
            rel@.len() == j - cn@.len(),
            forall|k: int| 0 <= k < rel@.len() ==> #[trigger] rel@[k] == pn@[cn@.len() + k],
        decreases pn@.len() - j,
    {
        rel.push(pn[j]);
        j = j + 1;
    }
    proof {
        assert(rel@ =~= pn@.skip(cn@.len() as int));
    }

    if scan_segment(&rel, "node_modules") {
        return None;
    }
    if scan_segment(&rel, "pages") {
        return Some(DirType::Page);
    }
    if scan_segment(&rel, "app") {
        return Some(DirType::App);
    }
    None
}

} // verus!

//! Locating and rewriting a quoted version value that follows a fixed
//! anchor text (`version = "` in build scripts and crate manifests,
//! `"version": "` in package descriptors).

use vstd::prelude::*;
use crate::error::{ManifestFault, ReleaseError};
use crate::text::{
    chars_of, find_from, find_in, lemma_find_from, occurs_at, push_range, replace_first_from,
    replace_first_in, string_of,
};

verus! {

/// The anchor of a `version = "..."` assignment (build scripts, TOML).
pub open spec fn assignment_anchor() -> Seq<char> {
    "version = \""@
}

/// The anchor of a `"version": "..."` member (JSON).
pub open spec fn member_anchor() -> Seq<char> {
    "\"version\": \""@
}

/// The anchor of a compact `"version":"..."` member (JSON without spaces).
pub open spec fn compact_member_anchor() -> Seq<char> {
    "\"version\":\""@
}

/// The text of a field: the anchor, the value and the closing quote.
pub open spec fn field_text(anchor: Seq<char>, v: Seq<char>) -> Seq<char> {
    anchor + v + seq!['"']
}

/// A character that ends a value: its closing quote or the end of its line.
pub open spec fn is_value_stop(ch: char) -> bool {
    ch == '"' || ch == '\n' || ch == '\r'
}

pub open spec fn has_value_stop(s: Seq<char>) -> bool {
    exists|i: int| 0 <= i < s.len() && is_value_stop(#[trigger] s[i])
}

/// Index of the first character at or after `i` that ends a value, or the
/// length of `c`.
pub open spec fn value_end(c: Seq<char>, i: int) -> int
    decreases c.len() - i,
{
    if i < 0 || i >= c.len() {
        c.len() as int
    } else if is_value_stop(c[i]) {
        i
    } else {
        value_end(c, i + 1)
    }
}

/// The value after the first occurrence of `anchor` at or after `h`, up to
/// the next quote or the end of its line.
pub open spec fn anchored_value_from(c: Seq<char>, anchor: Seq<char>, h: int) -> Option<Seq<char>> {
    match find_from(c, anchor, h) {
        None => None,
        Some(p) => {
            let a = p + anchor.len();
            Some(c.subrange(a, value_end(c, a)))
        },
    }
}

/// The value after the first occurrence of `anchor`.
pub open spec fn anchored_value(c: Seq<char>, anchor: Seq<char>) -> Option<Seq<char>> {
    anchored_value_from(c, anchor, 0)
}

/// The first field at or after `h` has its closing quote on its line.
pub open spec fn is_closed_from(c: Seq<char>, anchor: Seq<char>, h: int) -> bool {
    match find_from(c, anchor, h) {
        None => false,
        Some(p) => {
            let e = value_end(c, p + anchor.len());
            e < c.len() && c[e] == '"'
        },
    }
}

/// `c` with the first field `anchor old "` at or after `h` replaced by
/// `anchor new "`.
pub open spec fn rewrite_value_from(
    c: Seq<char>,
    anchor: Seq<char>,
    old: Seq<char>,
    new: Seq<char>,
    h: int,
) -> Seq<char> {
    replace_first_from(c, field_text(anchor, old), field_text(anchor, new), h)
}

/// `c` with the first field `anchor old "` replaced by `anchor new "`.
pub open spec fn rewrite_value(c: Seq<char>, anchor: Seq<char>, old: Seq<char>, new: Seq<char>) -> Seq<char> {
    rewrite_value_from(c, anchor, old, new, 0)
}

/// Builds `anchor + v + "`.
fn field_text_of(anchor: &[char], v: &[char]) -> (r: Vec<char>)
    ensures
        r@ == field_text(anchor@, v@),
{
    let mut r: Vec<char> = Vec::new();
    push_range(&mut r, anchor, 0, anchor.len());
    push_range(&mut r, v, 0, v.len());
    r.push('"');
    assert(r@ =~= field_text(anchor@, v@));
    r
}

fn value_end_in(c: &[char], i: usize) -> (r: usize)
    requires
        i <= c@.len(),
    ensures
        r as int == value_end(c@, i as int),
{
    let mut j: usize = i;
    while j < c.len() && c[j] != '"' && c[j] != '\n' && c[j] != '\r'
        invariant
            i <= j <= c@.len(),
            value_end(c@, i as int) == value_end(c@, j as int),
        decreases c@.len() - j,
    {
        j = j + 1;
    }
    j
}

pub proof fn lemma_value_end(c: Seq<char>, i: int)
    requires
        0 <= i <= c.len(),
    ensures
        i <= value_end(c, i) <= c.len(),
        value_end(c, i) < c.len() ==> is_value_stop(c[value_end(c, i)]),
        forall|j: int| i <= j < value_end(c, i) ==> !is_value_stop(#[trigger] c[j]),
    decreases c.len() - i,
{
    if i < c.len() && !is_value_stop(c[i]) {
        lemma_value_end(c, i + 1);
    }
}

pub proof fn lemma_value_end_at(c: Seq<char>, i: int, k: int)
    requires
        0 <= i <= k < c.len(),
        is_value_stop(c[k]),
        forall|j: int| i <= j < k ==> !is_value_stop(#[trigger] c[j]),
    ensures
        value_end(c, i) == k,
    decreases k - i,
{
    if i < k {
        lemma_value_end_at(c, i + 1, k);
    }
}

/// Reads the value that follows the first `anchor` at or after `h`.
pub fn read_anchored(c: &[char], anchor: &[char], h: usize) -> (r: Option<Vec<char>>)
    ensures
        match anchored_value_from(c@, anchor@, h as int) {
            Some(v) => r is Some && r->0@ == v,
            None => r is None,
        },
{
    match find_in(c, anchor, h) {
        None => None,
        Some(p) => {
            proof {
                lemma_find_from(c@, anchor@, h as int);
            }
            let n = c.len();
            assert(p + anchor@.len() <= n);
            let a = p + anchor.len();
            let e = value_end_in(c, a);
            proof {
                lemma_value_end(c@, a as int);
            }
            let mut v: Vec<char> = Vec::new();
            push_range(&mut v, c, a, e);
            Some(v)
        },
    }
}

/// Rewrites the first field at or after `h` holding `old` so that it holds
/// `new`; `None` when no such field occurs there.
pub fn rewrite_anchored(c: &[char], anchor: &[char], old: &[char], new: &[char], h: usize) -> (r: Option<Vec<char>>)
    ensures
        r is Some <==> find_from(c@, field_text(anchor@, old@), h as int) is Some,
        r is Some ==> r->0@ == rewrite_value_from(c@, anchor@, old@, new@, h as int),
{
    let from = field_text_of(anchor, old);
    let to = field_text_of(anchor, new);
    match find_in(c, from.as_slice(), h) {
        None => None,
        Some(_) => Some(replace_first_in(c, from.as_slice(), to.as_slice(), h)),
    }
}

/// The plain view of a lookup of a string field: `None` when the field is
/// missing, `Some(None)` when it holds no string.
pub open spec fn lookup_view(m: Option<Option<String>>) -> Option<Option<Seq<char>>> {
    match m {
        None => None,
        Some(None) => Some(None),
        Some(Some(v)) => Some(Some(v@)),
    }
}

/// The version read by a structured parser: the parse must succeed and the
/// field must hold a string.
pub open spec fn version_lookup(parses: bool, field: Option<Option<Seq<char>>>) -> Result<Seq<char>, ManifestFault> {
    if !parses {
        Err(ManifestFault::Malformed)
    } else {
        match field {
            None => Err(ManifestFault::MissingVersion),
            Some(None) => Err(ManifestFault::VersionNotString),
            Some(Some(v)) => Ok(v),
        }
    }
}

/// The version from the outcome of a structured lookup of the version
/// field: `Err(())` when the text did not parse.
pub fn version_of_field(field: Result<Option<Option<String>>, ()>) -> (r: Result<String, ReleaseError>)
    ensures
        match version_lookup(field is Ok, if field is Ok { lookup_view(field->Ok_0) } else { None }) {
            Ok(v) => r is Ok && r->Ok_0@ == v,
            Err(f) => r == Err::<String, ReleaseError>(ReleaseError::Manifest(f)),
        },
{
    match field {
        Err(()) => Err(ReleaseError::Manifest(ManifestFault::Malformed)),
        Ok(None) => Err(ReleaseError::Manifest(ManifestFault::MissingVersion)),
        Ok(Some(None)) => Err(ReleaseError::Manifest(ManifestFault::VersionNotString)),
        Ok(Some(Some(v))) => Ok(v),
    }
}

/// Moves the first field `anchor old "` at or after `from` to
/// `new_version`; fails when no such field occurs there.
pub fn set_field(content: &str, anchor: &str, old_version: &str, new_version: &str, from: usize) -> (r: Result<String, ReleaseError>)
    ensures
        find_from(content@, field_text(anchor@, old_version@), from as int) is Some ==> r is Ok
            && r->Ok_0@ == rewrite_value_from(content@, anchor@, old_version@, new_version@, from as int),
        find_from(content@, field_text(anchor@, old_version@), from as int) is None ==> r
            == Err::<String, ReleaseError>(ReleaseError::Manifest(ManifestFault::MissingVersion)),
{
    let c = chars_of(content);
    let a = chars_of(anchor);
    match rewrite_anchored(
        c.as_slice(),
        a.as_slice(),
        chars_of(old_version).as_slice(),
        chars_of(new_version).as_slice(),
        from,
    ) {
        Some(w) => Ok(string_of(w.as_slice())),
        None => Err(ReleaseError::Manifest(ManifestFault::MissingVersion)),
    }
}

pub proof fn lemma_first_from(s: Seq<char>, p: Seq<char>, i: int, k: int)
    requires
        0 <= i <= k,
        occurs_at(s, p, k),
        forall|j: int| i <= j < k ==> !occurs_at(s, p, j),
    ensures
        find_from(s, p, i) == Some(k),
{
    lemma_find_from(s, p, i);
    match find_from(s, p, i) {
        Some(m) => {
            if m < k {
                assert(!occurs_at(s, p, m));
            } else if m > k {
                assert(!occurs_at(s, p, k));
            }
        },
        None => {
            assert(!occurs_at(s, p, k));
        },
    }
}

/// Writing a version into a closed field (its closing quote on its line)
/// and reading the field back gives the written version, the field stays
/// closed, and the text changes only in the value: what precedes and what
/// follows it stays as it was.
pub proof fn rewrite_then_read(c: Seq<char>, anchor: Seq<char>, old: Seq<char>, new: Seq<char>, h: int)
    requires
        0 <= h,
        anchored_value_from(c, anchor, h) == Some(old),
        is_closed_from(c, anchor, h),
        !has_value_stop(new),
    ensures
        find_from(c, field_text(anchor, old), h) is Some,
        ({
            let a = find_from(c, anchor, h)->0 + anchor.len();
            let w = rewrite_value_from(c, anchor, old, new, h);
            &&& anchored_value_from(w, anchor, h) == Some(new)
            &&& is_closed_from(w, anchor, h)
            &&& w == c.subrange(0, a) + new + c.subrange(a + old.len(), c.len() as int)
        }),
{
    let quote = seq!['"'];
    lemma_find_from(c, anchor, h);
    let p = find_from(c, anchor, h)->0;
    let a = p + anchor.len();
    lemma_value_end(c, a);
    let q = value_end(c, a);
    assert(old == c.subrange(a, q));
    let f = field_text(anchor, old);
    assert(c.subrange(p, p + f.len()) =~= f) by {
        assert(c.subrange(p, a) =~= anchor);
        assert(c.subrange(q, q + 1) =~= quote);
    }
    assert(occurs_at(c, f, p));
    assert forall|j: int| h <= j < p implies !occurs_at(c, f, j) by {
        if occurs_at(c, f, j) {
            assert(c.subrange(j, j + anchor.len()) =~= f.subrange(0, anchor.len() as int));
            assert(f.subrange(0, anchor.len() as int) =~= anchor);
            assert(occurs_at(c, anchor, j));
        }
    }
    lemma_first_from(c, f, h, p);
    let g = field_text(anchor, new);
    let w = rewrite_value_from(c, anchor, old, new, h);
    assert(w == c.subrange(0, p) + g + c.subrange(p + f.len(), c.len() as int));
    assert(w =~= c.subrange(0, a) + new + c.subrange(a + old.len(), c.len() as int)) by {
        assert(c.subrange(0, a) =~= c.subrange(0, p) + anchor);
        assert(c.subrange(a + old.len(), c.len() as int) =~= quote + c.subrange(
            p + f.len(),
            c.len() as int,
        ));
    }
    // the anchor is still first found at p
    assert(w.subrange(0, a) =~= c.subrange(0, a));
    assert(occurs_at(w, anchor, p)) by {
        assert(w.subrange(p, a) =~= c.subrange(p, a));
    }
    assert forall|j: int| h <= j < p implies !occurs_at(w, anchor, j) by {
        if occurs_at(w, anchor, j) {
            assert(w.subrange(j, j + anchor.len()) =~= c.subrange(j, j + anchor.len()));
            assert(occurs_at(c, anchor, j));
        }
    }
    lemma_first_from(w, anchor, h, p);
    // the value ends at the quote after it
    let e = a + new.len();
    assert(w[e] == '"');
    assert forall|j: int| a <= j < e implies !is_value_stop(#[trigger] w[j]) by {
        assert(w[j] == new[j - a]);
    }
    lemma_value_end_at(w, a, e);
    assert(w.subrange(a, e) =~= new);
}

} // verus!

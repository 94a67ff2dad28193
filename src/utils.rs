//! Small text helpers shared by the ecosystem adapters.

use vstd::prelude::*;
use crate::text::{chars_of, find, find_from, find_in, lemma_find_from, push_range, string_of};

verus! {

/// The readme of a project.
pub const README: &'static str = "README.md";

/// The text between the first `start` and the first `end` after it.
pub open spec fn between(c: Seq<char>, start: Seq<char>, end: Seq<char>) -> Option<Seq<char>> {
    match find(c, start) {
        None => None,
        Some(i) => {
            let a = i + start.len();
            match find_from(c, end, a) {
                None => None,
                Some(j) => Some(c.subrange(a, j)),
            }
        },
    }
}

/// The text between the first `start` in `content` and the first `end`
/// after it; `None` when either is missing.
pub fn find_between(content: &str, start: &str, end: &str) -> (r: Option<String>)
    ensures
        match between(content@, start@, end@) {
            Some(v) => r is Some && r->0@ == v,
            None => r is None,
        },
{
    let c = chars_of(content);
    let s = chars_of(start);
    let e = chars_of(end);
    match find_in(c.as_slice(), s.as_slice(), 0) {
        None => None,
        Some(i) => {
            proof {
                lemma_find_from(c@, s@, 0);
            }
            let n = c.len();
            assert(i + s@.len() <= n);
            let a = i + s.len();
            match find_in(c.as_slice(), e.as_slice(), a) {
                None => None,
                Some(j) => {
                    proof {
                        lemma_find_from(c@, e@, a as int);
                    }
                    let mut v: Vec<char> = Vec::new();
                    push_range(&mut v, c.as_slice(), a, j);
                    Some(string_of(v.as_slice()))
                },
            }
        },
    }
}

} // verus!

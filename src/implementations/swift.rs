//! Swift packages: the version lives in the tags of the repository, and
//! the readme's installation section refers to it.

use vstd::prelude::*;
use crate::text::{chars_of, concat_chars, replace_all, replace_all_in, string_of};

verus! {

pub const PACKAGE_SWIFT: &'static str = "Package.swift";

/// The version of a project that has no release yet.
pub const DEFAULT: &'static str = "0.0.0";

/// The installation reference to version `v` in a readme.
pub open spec fn install_ref(v: Seq<char>) -> Seq<char> {
    "from: \""@ + v + "\""@
}

/// The latest tag (tags are listed latest first), or `0.0.0` without tags.
pub fn get_current_version(tags: &Vec<String>) -> (r: String)
    ensures
        tags@.len() > 0 ==> r@ == tags@[0]@,
        tags@.len() == 0 ==> r@ == DEFAULT@,
{
    if tags.len() > 0 {
        tags[0].clone()
    } else {
        String::from_str(DEFAULT)
    }
}

fn install_ref_of(v: &str) -> (r: Vec<char>)
    ensures
        r@ == install_ref(v@),
{
    let a = concat_chars(chars_of("from: \"").as_slice(), chars_of(v).as_slice());
    concat_chars(a.as_slice(), chars_of("\"").as_slice())
}

/// The readme with every installation reference to `old_version` turned
/// into one to `new_version`.
pub fn bump_readme(content: &str, old_version: &str, new_version: &str) -> (r: String)
    ensures
        r@ == replace_all(content@, install_ref(old_version@), install_ref(new_version@)),
{
    let from = install_ref_of(old_version);
    let to = install_ref_of(new_version);
    let c = chars_of(content);
    string_of(replace_all_in(c.as_slice(), from.as_slice(), to.as_slice()).as_slice())
}

/// The readme updated from the current version (the latest tag) to
/// `new_version`.
pub fn bump_version(new_version: &str, tags: &Vec<String>, readme: &str) -> (r: String)
    ensures
        r@ == replace_all(
            readme@,
            install_ref(if tags@.len() > 0 { tags@[0]@ } else { DEFAULT@ }),
            install_ref(new_version@),
        ),
{
    let old = get_current_version(tags);
    bump_readme(readme, old.as_str(), new_version)
}

} // verus!

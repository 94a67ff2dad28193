//! Rust crates: the version is the string `version` of the `[package]`
//! table of the crate manifest.

use vstd::prelude::*;
use crate::error::{ManifestFault, ReleaseError};
use crate::manifest::{
    anchored_value_from, assignment_anchor, field_text, has_value_stop, is_closed_from,
    lookup_view, rewrite_then_read, rewrite_value_from, set_field, version_lookup,
    version_of_field,
};
use crate::text::{chars_of, find, find_from, find_in};

verus! {

pub const CARGO_TOML: &'static str = "Cargo.toml";

/// Whether `text` parses as a TOML document.
pub uninterp spec fn toml_parses(text: Seq<char>) -> bool;

/// Of the TOML document `text`: `None` without an entry `key` in a table
/// `table`, `Some(None)` when that entry is no string, else its text.
pub uninterp spec fn toml_string_entry(text: Seq<char>, table: Seq<char>, key: Seq<char>) -> Option<
    Option<Seq<char>>,
>;

#[verifier::external_type_specification]
#[verifier::external_body]
pub struct ExTomlError(toml::de::Error);

/// Relies on toml::from_str (into a toml::Value), toml::Value::get and
/// toml::Value::as_str: parses `text`, failing on text that is not TOML,
/// then looks up the string entry `key` of the table `table`; the outcome
/// depends on the three texts alone.
#[verifier::external_body]
fn toml_entry_text(text: &str, table: &str, key: &str) -> (r: Result<Option<Option<String>>, toml::de::Error>)
    ensures
        r is Ok <==> toml_parses(text@),
        r matches Ok(m) ==> lookup_view(m) == toml_string_entry(text@, table@, key@),
{
    match toml::from_str::<toml::Value>(text) {
        Ok(v) => Ok(v.get(table).and_then(|t| t.get(key)).map(|x| x.as_str().map(|s| s.to_string()))),
        Err(e) => Err(e),
    }
}

/// The version of a crate manifest: the string `package.version`.
pub open spec fn cargo_version(c: Seq<char>) -> Result<Seq<char>, ManifestFault> {
    version_lookup(toml_parses(c), toml_string_entry(c, "package"@, "version"@))
}

/// The manifest with the first `version = "<old>"` after its `[package]`
/// header moved to `new`; `None` without such a header or field.
pub open spec fn cargo_rewrite(c: Seq<char>, old: Seq<char>, new: Seq<char>) -> Option<Seq<char>> {
    match find(c, "[package]"@) {
        None => None,
        Some(h) => if find_from(c, field_text(assignment_anchor(), old), h) is Some {
            Some(rewrite_value_from(c, assignment_anchor(), old, new, h))
        } else {
            None
        },
    }
}

/// Reads `package.version` of a crate manifest through the TOML parser.
pub fn get_current_version(content: &str) -> (r: Result<String, ReleaseError>)
    ensures
        match cargo_version(content@) {
            Ok(v) => r is Ok && r->Ok_0@ == v,
            Err(f) => r == Err::<String, ReleaseError>(ReleaseError::Manifest(f)),
        },
{
    let field = match toml_entry_text(content, "package", "version") {
        Ok(m) => Ok(m),
        Err(_) => Err(()),
    };
    version_of_field(field)
}

/// Moves the `version = "<old>"` of the `[package]` table to
/// `new_version`, leaving the rest of the text as it is.
pub fn set_version(content: &str, old_version: &str, new_version: &str) -> (r: Result<String, ReleaseError>)
    ensures
        match cargo_rewrite(content@, old_version@, new_version@) {
            Some(w) => r is Ok && r->Ok_0@ == w,
            None => r == Err::<String, ReleaseError>(
                ReleaseError::Manifest(ManifestFault::MissingVersion),
            ),
        },
{
    let c = chars_of(content);
    let header = chars_of("[package]");
    match find_in(c.as_slice(), header.as_slice(), 0) {
        None => Err(ReleaseError::Manifest(ManifestFault::MissingVersion)),
        Some(h) => set_field(content, "version = \"", old_version, new_version, h),
    }
}

/// Sets the version of a crate manifest: the version read by the TOML
/// parser is rewritten in place in the `[package]` table.
pub fn bump_version(content: &str, new_version: &str) -> (r: Result<String, ReleaseError>)
    ensures
        match cargo_version(content@) {
            Err(f) => r == Err::<String, ReleaseError>(ReleaseError::Manifest(f)),
            Ok(old) => match cargo_rewrite(content@, old, new_version@) {
                Some(w) => r is Ok && r->Ok_0@ == w,
                None => r == Err::<String, ReleaseError>(
                    ReleaseError::Manifest(ManifestFault::MissingVersion),
                ),
            },
        },
{
    let old = get_current_version(content)?;
    set_version(content, old.as_str(), new_version)
}

/// In the text of a manifest, a version written into the closed
/// `version = "..."` field after the `[package]` header is the version
/// found again at that field, and only the field's value changes. (What
/// the TOML parser reads back is the parser's own affair.)
pub proof fn write_then_read_version(content: Seq<char>, old: Seq<char>, new: Seq<char>, h: int)
    requires
        find(content, "[package]"@) == Some(h),
        anchored_value_from(content, assignment_anchor(), h) == Some(old),
        is_closed_from(content, assignment_anchor(), h),
        !has_value_stop(new),
    ensures
        cargo_rewrite(content, old, new) is Some,
        ({
            let w = cargo_rewrite(content, old, new)->0;
            let a = find_from(content, assignment_anchor(), h)->0 + assignment_anchor().len();
            &&& anchored_value_from(w, assignment_anchor(), h) == Some(new)
            &&& w == content.subrange(0, a) + new + content.subrange(a + old.len(), content.len() as int)
        }),
{
    crate::text::lemma_find_from(content, "[package]"@, 0);
    rewrite_then_read(content, assignment_anchor(), old, new, h);
}

} // verus!

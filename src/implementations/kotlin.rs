//! Kotlin libraries: the version is assigned in the build script, and the
//! readme's installation snippets refer to it.

use vstd::prelude::*;
use crate::error::{ManifestFault, ReleaseError};
use crate::manifest::{
    anchored_value, assignment_anchor, field_text, has_value_stop, is_closed_from, read_anchored,
    rewrite_then_read, rewrite_value,
};
use crate::text::{chars_of, find, find_from, concat_chars, replace_all, replace_all_in, replace_first_in, string_of};
use crate::utils::{between, find_between};

verus! {

pub const BUILD_GRADLE_KTS: &'static str = "library/build.gradle.kts";

/// Maven's reference to version `v`.
pub open spec fn maven_ref(v: Seq<char>) -> Seq<char> {
    "<version>"@ + v + "</version>"@
}

/// The Kotlin-script Gradle reference to artifact `a` at version `v`.
pub open spec fn kts_ref(a: Seq<char>, v: Seq<char>) -> Seq<char> {
    "implementation(\"ink.literate:"@ + a + ":"@ + v + "\")"@
}

/// The Groovy Gradle reference to artifact `a` at version `v`.
pub open spec fn groovy_ref(a: Seq<char>, v: Seq<char>) -> Seq<char> {
    "implementation 'ink.literate:"@ + a + ":"@ + v + "'"@
}

/// The readme `c` with every reference to artifact `a` at `old` moved to `new`.
pub open spec fn readme_update(c: Seq<char>, a: Seq<char>, old: Seq<char>, new: Seq<char>) -> Seq<char> {
    let c1 = replace_all(c, maven_ref(old), maven_ref(new));
    let c2 = replace_all(c1, kts_ref(a, old), kts_ref(a, new));
    replace_all(c2, groovy_ref(a, old), groovy_ref(a, new))
}

fn wrapped(pre: &str, mid: &[char], post: &str) -> (r: Vec<char>)
    ensures
        r@ == pre@ + mid@ + post@,
{
    let a = concat_chars(chars_of(pre).as_slice(), mid);
    concat_chars(a.as_slice(), chars_of(post).as_slice())
}

/// Reads the version assigned by `version = "x.y.z"` in a build script: the
/// text after the first `version = "` up to the next quote or the end of
/// that line.
pub fn get_current_version(content: &str) -> (r: Result<String, ReleaseError>)
    ensures
        match anchored_value(content@, assignment_anchor()) {
            Some(v) => r is Ok && r->Ok_0@ == v,
            None => r == Err::<String, ReleaseError>(
                ReleaseError::Manifest(ManifestFault::MissingVersion),
            ),
        },
{
    let anchor = chars_of("version = \"");
    match read_anchored(chars_of(content).as_slice(), anchor.as_slice(), 0) {
        Some(v) => Ok(string_of(v.as_slice())),
        None => Err(ReleaseError::Manifest(ManifestFault::MissingVersion)),
    }
}

/// The build script with its first `version = "<old>"` set to `new_version`.
pub fn bump_build_gradle_kts(content: &str, old_version: &str, new_version: &str) -> (r: String)
    ensures
        r@ == rewrite_value(content@, assignment_anchor(), old_version@, new_version@),
{
    let from = wrapped("version = \"", chars_of(old_version).as_slice(), "\"");
    let to = wrapped("version = \"", chars_of(new_version).as_slice(), "\"");
    let c = chars_of(content);
    proof {
        reveal_strlit("\"");
        assert("\""@ =~= seq!['"']);
    }
    string_of(replace_first_in(c.as_slice(), from.as_slice(), to.as_slice(), 0).as_slice())
}

/// The readme with its Maven and Gradle installation snippets moved from
/// `old_version` to `new_version`; the artifact is the text between the
/// first `<artifactId>` and `</artifactId>`.
pub fn bump_readme(content: &str, old_version: &str, new_version: &str) -> (r: Result<String, ReleaseError>)
    ensures
        match between(content@, "<artifactId>"@, "</artifactId>"@) {
            Some(a) => r is Ok && r->Ok_0@ == readme_update(
                content@,
                a,
                old_version@,
                new_version@,
            ),
            None => r == Err::<String, ReleaseError>(
                ReleaseError::Manifest(ManifestFault::MissingArtifact),
            ),
        },
{
    let artifact = match find_between(content, "<artifactId>", "</artifactId>") {
        Some(a) => a,
        None => {
            return Err(ReleaseError::Manifest(ManifestFault::MissingArtifact));
        },
    };
    let old = chars_of(old_version);
    let new = chars_of(new_version);
    let a = chars_of(artifact.as_str());
    let a_old = wrapped("", a.as_slice(), ":");
    let a_old = concat_chars(a_old.as_slice(), old.as_slice());
    let a_new = wrapped("", a.as_slice(), ":");
    let a_new = concat_chars(a_new.as_slice(), new.as_slice());
    let c = chars_of(content);
    let c1 = replace_all_in(
        c.as_slice(),
        wrapped("<version>", old.as_slice(), "</version>").as_slice(),
        wrapped("<version>", new.as_slice(), "</version>").as_slice(),
    );
    let c2 = replace_all_in(
        c1.as_slice(),
        wrapped("implementation(\"ink.literate:", a_old.as_slice(), "\")").as_slice(),
        wrapped("implementation(\"ink.literate:", a_new.as_slice(), "\")").as_slice(),
    );
    let c3 = replace_all_in(
        c2.as_slice(),
        wrapped("implementation 'ink.literate:", a_old.as_slice(), "'").as_slice(),
        wrapped("implementation 'ink.literate:", a_new.as_slice(), "'").as_slice(),
    );
    proof {
        assert(""@ + a@ + ":"@ + old@ == a@ + ":"@ + old@) by {
            assert(""@ + a@ =~= a@) by {
                reveal_strlit("");
            }
        }
        assert(""@ + a@ + ":"@ + new@ == a@ + ":"@ + new@) by {
            assert(""@ + a@ =~= a@) by {
                reveal_strlit("");
            }
        }
        assert("implementation(\"ink.literate:"@ + (a@ + ":"@ + old@) + "\")"@ =~= kts_ref(a@, old@));
        assert("implementation(\"ink.literate:"@ + (a@ + ":"@ + new@) + "\")"@ =~= kts_ref(a@, new@));
        assert("implementation 'ink.literate:"@ + (a@ + ":"@ + old@) + "'"@ =~= groovy_ref(a@, old@));
        assert("implementation 'ink.literate:"@ + (a@ + ":"@ + new@) + "'"@ =~= groovy_ref(a@, new@));
    }
    Ok(string_of(c3.as_slice()))
}

/// Sets the version of a Kotlin library: returns the new build script and
/// the new readme, both moved from the version the build script assigns.
pub fn bump_version(new_version: &str, build_script: &str, readme: &str) -> (r: Result<(String, String), ReleaseError>)
    ensures
        match anchored_value(build_script@, assignment_anchor()) {
            None => r == Err::<(String, String), ReleaseError>(
                ReleaseError::Manifest(ManifestFault::MissingVersion),
            ),
            Some(old) => match between(readme@, "<artifactId>"@, "</artifactId>"@) {
                None => r == Err::<(String, String), ReleaseError>(
                    ReleaseError::Manifest(ManifestFault::MissingArtifact),
                ),
                Some(a) => r is Ok && r->Ok_0.0@ == rewrite_value(
                    build_script@,
                    assignment_anchor(),
                    old,
                    new_version@,
                ) && r->Ok_0.1@ == readme_update(readme@, a, old, new_version@),
            },
        },
{
    let old = get_current_version(build_script)?;
    let script = bump_build_gradle_kts(build_script, old.as_str(), new_version);
    let new_readme = bump_readme(readme, old.as_str(), new_version)?;
    Ok((script, new_readme))
}

/// The version written into a build script whose assignment is closed on
/// its line is the version read back, and only the assignment's value
/// changes.
pub proof fn write_then_read_version(content: Seq<char>, old: Seq<char>, new: Seq<char>)
    requires
        anchored_value(content, assignment_anchor()) == Some(old),
        is_closed_from(content, assignment_anchor(), 0),
        !has_value_stop(new),
    ensures
        find_from(content, field_text(assignment_anchor(), old), 0) is Some,
        anchored_value(rewrite_value(content, assignment_anchor(), old, new), assignment_anchor())
            == Some(new),
        ({
            let a = find(content, assignment_anchor())->0 + assignment_anchor().len();
            rewrite_value(content, assignment_anchor(), old, new) == content.subrange(0, a) + new
                + content.subrange(a + old.len(), content.len() as int)
        }),
{
    rewrite_then_read(content, assignment_anchor(), old, new, 0);
}

} // verus!

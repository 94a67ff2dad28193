//! The release sequence: each stage runs only after the one before it
//! succeeded, and the commands that tag and publish a version.

use vstd::prelude::*;
use crate::error::ReleaseError;
use crate::language::Language;
use crate::text::{concat_str, strings_view};

verus! {

/// The stages of a release, in the order they run.
#[derive(Debug, Clone, Copy, PartialEq, Eq, Structural)]
pub enum Stage {
    DetectLanguage,
    RunChecks,
    CheckClean,
    CheckUpstream,
    ReadVersion,
    PromptVersion,
    WriteVersion,
    DeleteTag,
    StageChanges,
    Commit,
    CreateTag,
    Push,
    Changelog,
    Publish,
    Done,
    Aborted,
}

/// Position of a stage in the sequence.
pub open spec fn order(s: Stage) -> nat {
    match s {
        Stage::DetectLanguage => 0,
        Stage::RunChecks => 1,
        Stage::CheckClean => 2,
        Stage::CheckUpstream => 3,
        Stage::ReadVersion => 4,
        Stage::PromptVersion => 5,
        Stage::WriteVersion => 6,
        Stage::DeleteTag => 7,
        Stage::StageChanges => 8,
        Stage::Commit => 9,
        Stage::CreateTag => 10,
        Stage::Push => 11,
        Stage::Changelog => 12,
        Stage::Publish => 13,
        Stage::Done => 14,
        Stage::Aborted => 15,
    }
}

pub open spec fn is_final(s: Stage) -> bool {
    s is Done || s is Aborted
}

/// The stage that follows `s`.
pub open spec fn successor(s: Stage) -> Stage {
    match s {
        Stage::DetectLanguage => Stage::RunChecks,
        Stage::RunChecks => Stage::CheckClean,
        Stage::CheckClean => Stage::CheckUpstream,
        Stage::CheckUpstream => Stage::ReadVersion,
        Stage::ReadVersion => Stage::PromptVersion,
        Stage::PromptVersion => Stage::WriteVersion,
        Stage::WriteVersion => Stage::DeleteTag,
        Stage::DeleteTag => Stage::StageChanges,
        Stage::StageChanges => Stage::Commit,
        Stage::Commit => Stage::CreateTag,
        Stage::CreateTag => Stage::Push,
        Stage::Push => Stage::Changelog,
        Stage::Changelog => Stage::Publish,
        Stage::Publish => Stage::Done,
        Stage::Done => Stage::Done,
        Stage::Aborted => Stage::Aborted,
    }
}

/// The stage after `s` has run: `ok` says it succeeded (for the
/// repository checks: the tree is clean, the branch is up to date). A
/// failure aborts the run, except for deleting a stale tag, whose failure
/// means that there was no such tag.
pub open spec fn stage_after(s: Stage, ok: bool) -> Stage {
    if is_final(s) {
        s
    } else if ok || s is DeleteTag {
        successor(s)
    } else {
        Stage::Aborted
    }
}

/// Moves the release on once stage `s` has run.
pub fn next_stage(s: Stage, ok: bool) -> (r: Stage)
    ensures
        r == stage_after(s, ok),
{
    match s {
        Stage::Done | Stage::Aborted => s,
        Stage::DeleteTag => Stage::StageChanges,
        _ => if !ok {
            Stage::Aborted
        } else {
            match s {
                Stage::DetectLanguage => Stage::RunChecks,
                Stage::RunChecks => Stage::CheckClean,
                Stage::CheckClean => Stage::CheckUpstream,
                Stage::CheckUpstream => Stage::ReadVersion,
                Stage::ReadVersion => Stage::PromptVersion,
                Stage::PromptVersion => Stage::WriteVersion,
                Stage::WriteVersion => Stage::DeleteTag,
                Stage::StageChanges => Stage::Commit,
                Stage::Commit => Stage::CreateTag,
                Stage::CreateTag => Stage::Push,
                Stage::Push => Stage::Changelog,
                Stage::Changelog => Stage::Publish,
                _ => Stage::Done,
            }
        },
    }
}

/// The stages that run, from `s` on, when the stages report `outcomes` in
/// turn; the run stops at a final stage or when the outcomes run out.
pub open spec fn stages_run(s: Stage, outcomes: Seq<bool>) -> Seq<Stage>
    decreases outcomes.len(),
{
    if outcomes.len() == 0 || is_final(s) {
        Seq::empty()
    } else {
        seq![s] + stages_run(stage_after(s, outcomes[0]), outcomes.drop_first())
    }
}

pub proof fn lemma_stages_run(s: Stage, outcomes: Seq<bool>)
    ensures
        ({
            let t = stages_run(s, outcomes);
            &&& t.len() <= outcomes.len()
            &&& forall|k: int| 0 <= k < t.len() ==> order(#[trigger] t[k]) == order(s) + k
            &&& forall|k: int|
                0 <= k < t.len() && !outcomes[k] && !(#[trigger] t[k] is DeleteTag) ==> k
                    == t.len() - 1
        }),
    decreases outcomes.len(),
{
    if outcomes.len() == 0 || is_final(s) {
    } else {
        let n = stage_after(s, outcomes[0]);
        lemma_stages_run(n, outcomes.drop_first());
        let t = stages_run(s, outcomes);
        let rest = stages_run(n, outcomes.drop_first());
        assert(t == seq![s] + rest);
        assert forall|k: int| 0 <= k < t.len() implies order(#[trigger] t[k]) == order(s) + k by {
            if k > 0 {
                assert(t[k] == rest[k - 1]);
                if n is Aborted {
                    assert(rest.len() == 0);
                }
            }
        }
        assert forall|k: int|
            0 <= k < t.len() && !outcomes[k] && !(#[trigger] t[k] is DeleteTag) implies k == t.len()
                - 1 by {
            if k == 0 {
                assert(n is Aborted);
                assert(rest.len() == 0);
            } else {
                assert(t[k] == rest[k - 1]);
                assert(outcomes.drop_first()[k - 1] == outcomes[k]);
            }
        }
    }
}

/// On a dirty working tree the release stops at the cleanliness check:
/// the version is neither read nor written, nor anything after.
pub proof fn dirty_tree_stops_release(outcomes: Seq<bool>, i: int)
    requires
        0 <= i < stages_run(Stage::DetectLanguage, outcomes).len(),
        stages_run(Stage::DetectLanguage, outcomes)[i] == Stage::CheckClean,
        !outcomes[i],
    ensures
        stages_run(Stage::DetectLanguage, outcomes).len() == i + 1,
        !stages_run(Stage::DetectLanguage, outcomes).contains(Stage::ReadVersion),
        !stages_run(Stage::DetectLanguage, outcomes).contains(Stage::WriteVersion),
{
    let t = stages_run(Stage::DetectLanguage, outcomes);
    lemma_stages_run(Stage::DetectLanguage, outcomes);
    assert(order(t[i]) == i);
    assert forall|k: int| 0 <= k < t.len() implies t[k] != Stage::ReadVersion && t[k]
        != Stage::WriteVersion by {
        assert(order(t[k]) == k);
    }
}

/// A failed deletion of the tag does not stop the release: whatever its
/// outcome, the changes are staged next.
pub proof fn tag_deletion_never_aborts(ok: bool)
    ensures
        stage_after(Stage::DeleteTag, ok) == Stage::StageChanges,
{
}

/// The message of the commit that releases `v`.
pub open spec fn commit_message(v: Seq<char>) -> Seq<char> {
    "chore: release v"@ + v
}

/// The message of the tag of release `v`.
pub open spec fn tag_message(v: Seq<char>) -> Seq<char> {
    "Release v"@ + v
}

/// The git arguments of the stages that change the repository.
pub open spec fn git_args(s: Stage, v: Seq<char>, branch: Seq<char>) -> Option<Seq<Seq<char>>> {
    match s {
        Stage::DeleteTag => Some(seq!["tag"@, "-d"@, v]),
        Stage::StageChanges => Some(seq!["add"@, "-A"@]),
        Stage::Commit => Some(seq!["commit"@, "-m"@, commit_message(v)]),
        Stage::CreateTag => Some(seq!["tag"@, "-a"@, v, "-m"@, tag_message(v)]),
        Stage::Push => Some(seq!["push"@, "origin"@, branch, "--tags"@]),
        _ => None,
    }
}

/// The git command run at stage `s` for the release of `version` from
/// `branch`, if the stage runs one.
pub fn git_command(s: Stage, version: &str, branch: &str) -> (r: Option<Vec<String>>)
    ensures
        match git_args(s, version@, branch@) {
            None => r is None,
            Some(args) => r is Some && strings_view(r->0@) == args,
        },
{
    let v = String::from_str(version);
    let r = match s {
        Stage::DeleteTag => vec![String::from_str("tag"), String::from_str("-d"), v],
        Stage::StageChanges => vec![String::from_str("add"), String::from_str("-A")],
        Stage::Commit => vec![
            String::from_str("commit"),
            String::from_str("-m"),
            concat_str("chore: release v", version),
        ],
        Stage::CreateTag => vec![
            String::from_str("tag"),
            String::from_str("-a"),
            v,
            String::from_str("-m"),
            concat_str("Release v", version),
        ],
        Stage::Push => vec![
            String::from_str("push"),
            String::from_str("origin"),
            String::from_str(branch),
            String::from_str("--tags"),
        ],
        _ => {
            return None;
        },
    };
    assert(strings_view(r@) =~= git_args(s, version@, branch@)->0);
    Some(r)
}

/// The title of the published release of `version`.
pub fn release_name(version: &str) -> (r: String)
    ensures
        r@ == "v"@ + version@,
{
    concat_str("v", version)
}

/// Whether the ecosystem has verification checks to run before a release
/// (the others have no tooling, and their checks pass at once).
pub fn runs_checks(language: Language) -> (r: bool)
    ensures
        r == (language is JsTs),
{
    match language {
        Language::JsTs => true,
        _ => false,
    }
}

/// The outcome of a repository check as the release sees it: a dirty tree
/// or a branch behind its upstream stops the release.
pub fn repository_gate(dirty: Result<bool, ReleaseError>, behind: Result<bool, ReleaseError>) -> (r: Result<(), ReleaseError>)
    ensures
        dirty is Err ==> r == Err::<(), ReleaseError>(dirty->Err_0),
        dirty == Ok::<bool, ReleaseError>(true) ==> r == Err::<(), ReleaseError>(
            ReleaseError::DirtyTree,
        ),
        dirty == Ok::<bool, ReleaseError>(false) ==> match behind {
            Err(e) => r == Err::<(), ReleaseError>(e),
            Ok(true) => r == Err::<(), ReleaseError>(ReleaseError::BehindUpstream),
            Ok(false) => r == Ok::<(), ReleaseError>(()),
        },
{
    match dirty {
        Err(e) => Err(e),
        Ok(true) => Err(ReleaseError::DirtyTree),
        Ok(false) => match behind {
            Err(e) => Err(e),
            Ok(true) => Err(ReleaseError::BehindUpstream),
            Ok(false) => Ok(()),
        },
    }
}

} // verus!

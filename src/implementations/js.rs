//! JavaScript and TypeScript packages: the version is the string `version`
//! of the package descriptor; checks run through the package manager whose
//! lockfile is present.

use vstd::prelude::*;
use crate::error::{CheckStep, ManifestFault, ReleaseError};
use crate::manifest::{
    anchored_value, compact_member_anchor, field_text, has_value_stop, is_closed_from,
    lookup_view, member_anchor, rewrite_then_read, rewrite_value, set_field, version_lookup,
    version_of_field,
};
use crate::text::{find, find_from, strings_view};

verus! {

pub const PACKAGE_JSON: &'static str = "package.json";

pub const BUN_LOCK: &'static str = "bun.lock";

pub const BUN_LOCKB: &'static str = "bun.lockb";

pub const PNPM_LOCK: &'static str = "pnpm-lock.yaml";

/// The package managers whose lockfiles are recognised.
#[derive(Debug, Clone, Copy, PartialEq, Eq, Structural)]
pub enum PackageManager {
    Bun,
    Pnpm,
}

impl PackageManager {
    /// The name of the package manager's executable.
    pub fn executable(&self) -> (r: String)
        ensures
            r@ == match self {
                PackageManager::Bun => "bun"@,
                PackageManager::Pnpm => "pnpm"@,
            },
    {
        match self {
            PackageManager::Bun => String::from_str("bun"),
            PackageManager::Pnpm => String::from_str("pnpm"),
        }
    }

    pub open spec fn spec_has_test_runner(&self) -> bool {
        *self == PackageManager::Bun
    }

    /// Whether the package manager comes with a test runner.
    pub fn has_test_runner(&self) -> (r: bool)
        ensures
            r == self.spec_has_test_runner(),
    {
        match self {
            PackageManager::Bun => true,
            PackageManager::Pnpm => false,
        }
    }
}

/// Which lockfiles exist in the working directory.
#[derive(Debug, Clone, Copy, PartialEq, Eq, Structural)]
pub struct Lockfiles {
    pub bun_lock: bool,
    pub bun_lockb: bool,
    pub pnpm_lock: bool,
}

pub open spec fn lockfile_count(l: Lockfiles) -> nat {
    (if l.bun_lock { 1nat } else { 0nat }) + (if l.bun_lockb { 1nat } else { 0nat }) + (if l.pnpm_lock {
        1nat
    } else {
        0nat
    })
}

/// The package manager of the only lockfile present; more than one
/// lockfile is ambiguous, none means no toolchain.
pub fn detect_package_manager(l: &Lockfiles) -> (r: Result<PackageManager, ReleaseError>)
    ensures
        lockfile_count(*l) == 0 ==> r == Err::<PackageManager, ReleaseError>(
            ReleaseError::MissingToolchain,
        ),
        lockfile_count(*l) > 1 ==> r == Err::<PackageManager, ReleaseError>(
            ReleaseError::AmbiguousToolchain,
        ),
        lockfile_count(*l) == 1 ==> r == Ok::<PackageManager, ReleaseError>(
            if l.pnpm_lock {
                PackageManager::Pnpm
            } else {
                PackageManager::Bun
            },
        ),
{
    let count: u8 = (if l.bun_lock { 1u8 } else { 0u8 }) + (if l.bun_lockb { 1u8 } else { 0u8 }) + (
    if l.pnpm_lock {
        1u8
    } else {
        0u8
    });
    if count == 0 {
        Err(ReleaseError::MissingToolchain)
    } else if count > 1 {
        Err(ReleaseError::AmbiguousToolchain)
    } else if l.pnpm_lock {
        Ok(PackageManager::Pnpm)
    } else {
        Ok(PackageManager::Bun)
    }
}

/// Whether `pattern`, as a regular expression, matches somewhere in `text`.
pub uninterp spec fn regex_matches(pattern: Seq<char>, text: Seq<char>) -> bool;

#[verifier::external_type_specification]
#[verifier::external_body]
pub struct ExRegexError(regex::Error);

/// Relies on regex::Regex::new and regex::Regex::is_match: compiles
/// `pattern` and tells whether it matches anywhere in `text`, which
/// depends on the two texts alone; `Regex::new` fails only on a pattern
/// that is invalid or over the size limit, which the four short, valid
/// test-name patterns are not.
#[verifier::external_body]
fn regex_is_match(pattern: &str, text: &str) -> (r: Result<bool, regex::Error>)
    ensures
        r matches Ok(b) ==> b == regex_matches(pattern@, text@),
        test_patterns().contains(pattern@) ==> r is Ok,
{
    regex::Regex::new(pattern).map(|re| re.is_match(text))
}

/// The naming conventions of test files: `.test`, `_test`, `.spec` or
/// `_spec` before a JavaScript or TypeScript extension.
pub open spec fn test_patterns() -> Seq<Seq<char>> {
    seq![
        ".*\\.test\\.(js|jsx|ts|tsx)$"@,
        ".*_test\\.(js|jsx|ts|tsx)$"@,
        ".*\\.spec\\.(js|jsx|ts|tsx)$"@,
        ".*_spec\\.(js|jsx|ts|tsx)$"@,
    ]
}

pub open spec fn is_test_name(name: Seq<char>) -> bool {
    exists|i: int| 0 <= i < test_patterns().len() && regex_matches(#[trigger] test_patterns()[i], name)
}

/// Whether a file name follows one of the naming conventions of tests.
pub fn is_test_file_name(name: &str) -> (r: Result<bool, ReleaseError>)
    ensures
        r == Ok::<bool, ReleaseError>(is_test_name(name@)),
{
    let patterns = [
        ".*\\.test\\.(js|jsx|ts|tsx)$",
        ".*_test\\.(js|jsx|ts|tsx)$",
        ".*\\.spec\\.(js|jsx|ts|tsx)$",
        ".*_spec\\.(js|jsx|ts|tsx)$",
    ];
    let mut i: usize = 0;
    while i < 4
        invariant
            i <= 4,
            patterns@.len() == 4,
            forall|k: int| 0 <= k < 4 ==> (#[trigger] patterns@[k])@ == test_patterns()[k],
            forall|k: int| 0 <= k < i ==> !regex_matches(test_patterns()[k], name@),
        decreases 4 - i,
    {
        assert(test_patterns()[i as int] == patterns@[i as int]@);
        assert(test_patterns().contains(patterns@[i as int]@));
        match regex_is_match(patterns[i], name) {
            Ok(true) => {
                return Ok(true);
            },
            Ok(false) => {},
            Err(_) => {
                return Err(ReleaseError::InvalidPattern);
            },
        }
        i = i + 1;
    }
    Ok(false)
}

/// Whether any of the file names found under the working directory is the
/// name of a test file.
pub fn has_test_files(file_names: &Vec<String>) -> (r: Result<bool, ReleaseError>)
    ensures
        r == Ok::<bool, ReleaseError>(
            exists|i: int| 0 <= i < file_names@.len() && is_test_name(#[trigger] file_names@[i]@),
        ),
{
    let mut i: usize = 0;
    while i < file_names.len()
        invariant
            i <= file_names@.len(),
            forall|k: int| 0 <= k < i ==> !is_test_name(#[trigger] file_names@[k]@),
        decreases file_names@.len() - i,
    {
        if is_test_file_name(file_names[i].as_str())? {
            return Ok(true);
        }
        i = i + 1;
    }
    Ok(false)
}

/// Where a run of the checks stands.
#[derive(Debug, Clone, PartialEq, Eq)]
pub enum CheckState {
    NotStarted,
    LintRunning,
    TypeCheckRunning,
    TestDiscovery,
    TestsRunning,
    Passed,
    /// A step failed; carries the step and its captured output.
    Failed(CheckStep, String),
}

pub open spec fn is_terminal(s: CheckState) -> bool {
    s is Passed || s is Failed
}

/// Steps left before the run ends: each transition from a running state
/// lowers it.
pub open spec fn steps_left(s: CheckState) -> nat {
    match s {
        CheckState::NotStarted => 5,
        CheckState::LintRunning => 4,
        CheckState::TypeCheckRunning => 3,
        CheckState::TestDiscovery => 2,
        CheckState::TestsRunning => 1,
        _ => 0,
    }
}

/// The state after `s` once its work is done: `ok` is the success of the
/// step (for test discovery: whether test files exist), `output` what the
/// step printed.
pub open spec fn check_next(pm: PackageManager, s: CheckState, ok: bool, output: String) -> CheckState {
    match s {
        CheckState::NotStarted => CheckState::LintRunning,
        CheckState::LintRunning => if ok {
            CheckState::TypeCheckRunning
        } else {
            CheckState::Failed(CheckStep::Lint, output)
        },
        CheckState::TypeCheckRunning => if !ok {
            CheckState::Failed(CheckStep::TypeCheck, output)
        } else if pm.spec_has_test_runner() {
            CheckState::TestDiscovery
        } else {
            CheckState::Passed
        },
        CheckState::TestDiscovery => if ok {
            CheckState::TestsRunning
        } else {
            CheckState::Passed
        },
        CheckState::TestsRunning => if ok {
            CheckState::Passed
        } else {
            CheckState::Failed(CheckStep::Test, output)
        },
        _ => s,
    }
}

/// Advances a run of the checks by one step.
pub fn advance_checks(pm: PackageManager, s: CheckState, ok: bool, output: String) -> (r: CheckState)
    ensures
        r == check_next(pm, s, ok, output),
{
    match s {
        CheckState::NotStarted => CheckState::LintRunning,
        CheckState::LintRunning => if ok {
            CheckState::TypeCheckRunning
        } else {
            CheckState::Failed(CheckStep::Lint, output)
        },
        CheckState::TypeCheckRunning => if !ok {
            CheckState::Failed(CheckStep::TypeCheck, output)
        } else if pm.has_test_runner() {
            CheckState::TestDiscovery
        } else {
            CheckState::Passed
        },
        CheckState::TestDiscovery => if ok {
            CheckState::TestsRunning
        } else {
            CheckState::Passed
        },
        CheckState::TestsRunning => if ok {
            CheckState::Passed
        } else {
            CheckState::Failed(CheckStep::Test, output)
        },
        _ => s,
    }
}

/// The arguments given to the package manager in state `s`: `eslint` to
/// lint, `tsc --noEmit` to check types, `test` to run the tests; nothing to
/// run in the other states.
pub open spec fn check_args(s: CheckState) -> Option<Seq<Seq<char>>> {
    match s {
        CheckState::LintRunning => Some(seq!["eslint"@]),
        CheckState::TypeCheckRunning => Some(seq!["tsc"@, "--noEmit"@]),
        CheckState::TestsRunning => Some(seq!["test"@]),
        _ => None,
    }
}

/// The command to run in state `s`, executable first.
pub fn check_command(pm: PackageManager, s: &CheckState) -> (r: Option<Vec<String>>)
    ensures
        match check_args(*s) {
            None => r is None,
            Some(args) => r is Some && strings_view(r->0@) == seq![
                match pm {
                    PackageManager::Bun => "bun"@,
                    PackageManager::Pnpm => "pnpm"@,
                },
            ] + args,
        },
{
    let exe = pm.executable();
    let ghost e = exe@;
    let r = match s {
        CheckState::LintRunning => vec![exe, String::from_str("eslint")],
        CheckState::TypeCheckRunning => vec![exe, String::from_str("tsc"), String::from_str("--noEmit")],
        CheckState::TestsRunning => vec![exe, String::from_str("test")],
        _ => {
            return None;
        },
    };
    assert(strings_view(r@) =~= seq![e] + check_args(*s)->0);
    Some(r)
}

/// A run of the checks never goes on after a failure: a step that fails
/// moves straight to `Failed`, a finished run stays as it is and has
/// nothing left to run, and every other step brings the run closer to its
/// end, so each run ends in exactly one of `Passed` and `Failed`.
pub proof fn checks_stop_at_first_failure(pm: PackageManager, s: CheckState, ok: bool, output: String)
    ensures
        is_terminal(s) ==> check_next(pm, s, ok, output) == s && check_args(s) is None,
        !is_terminal(s) ==> steps_left(check_next(pm, s, ok, output)) < steps_left(s),
        steps_left(s) == 0 <==> is_terminal(s),
        !ok && check_args(s) is Some ==> check_next(pm, s, ok, output) is Failed,
        !(s is Passed && s is Failed),
{
}

/// Whether `text` parses as a JSON document.
pub uninterp spec fn json_parses(text: Seq<char>) -> bool;

/// Of the JSON document `text`: `None` without a member `key`, `Some(None)`
/// when that member is no string, else its text.
pub uninterp spec fn json_string_member(text: Seq<char>, key: Seq<char>) -> Option<Option<Seq<char>>>;

#[verifier::external_type_specification]
#[verifier::external_body]
pub struct ExJsonError(serde_json::Error);

/// Relies on serde_json::from_str (into a serde_json::Value),
/// serde_json::Value::get and serde_json::Value::as_str: parses `text`,
/// failing on text that is not JSON, then looks up the string member
/// `key`; the outcome depends on the two texts alone.
#[verifier::external_body]
fn json_member_text(text: &str, key: &str) -> (r: Result<Option<Option<String>>, serde_json::Error>)
    ensures
        r is Ok <==> json_parses(text@),
        r matches Ok(m) ==> lookup_view(m) == json_string_member(text@, key@),
{
    match serde_json::from_str::<serde_json::Value>(text) {
        Ok(v) => Ok(v.get(key).map(|m| m.as_str().map(|t| t.to_string()))),
        Err(e) => Err(e),
    }
}

/// The version of a package descriptor: its string member `version`.
pub open spec fn package_version(c: Seq<char>) -> Result<Seq<char>, ManifestFault> {
    version_lookup(json_parses(c), json_string_member(c, "version"@))
}

/// The descriptor with its first `"version": "<old>"` (or, failing that,
/// compact `"version":"<old>"`) moved to `new`; `None` without either.
pub open spec fn package_rewrite(c: Seq<char>, old: Seq<char>, new: Seq<char>) -> Option<Seq<char>> {
    if find_from(c, field_text(member_anchor(), old), 0) is Some {
        Some(rewrite_value(c, member_anchor(), old, new))
    } else if find_from(c, field_text(compact_member_anchor(), old), 0) is Some {
        Some(rewrite_value(c, compact_member_anchor(), old, new))
    } else {
        None
    }
}

/// Reads the `version` member of a package descriptor through the JSON
/// parser.
pub fn get_current_version(content: &str) -> (r: Result<String, ReleaseError>)
    ensures
        match package_version(content@) {
            Ok(v) => r is Ok && r->Ok_0@ == v,
            Err(f) => r == Err::<String, ReleaseError>(ReleaseError::Manifest(f)),
        },
{
    let field = match json_member_text(content, "version") {
        Ok(m) => Ok(m),
        Err(_) => Err(()),
    };
    version_of_field(field)
}

/// Moves the descriptor's `"version": "<old>"` to `new_version`, leaving
/// the rest of the text as it is.
pub fn set_version(content: &str, old_version: &str, new_version: &str) -> (r: Result<String, ReleaseError>)
    ensures
        match package_rewrite(content@, old_version@, new_version@) {
            Some(w) => r is Ok && r->Ok_0@ == w,
            None => r == Err::<String, ReleaseError>(
                ReleaseError::Manifest(ManifestFault::MissingVersion),
            ),
        },
{
    match set_field(content, "\"version\": \"", old_version, new_version, 0) {
        Ok(w) => Ok(w),
        Err(_) => set_field(content, "\"version\":\"", old_version, new_version, 0),
    }
}

/// Sets the version of a package descriptor: the version read by the JSON
/// parser is rewritten in place.
pub fn bump_version(content: &str, new_version: &str) -> (r: Result<String, ReleaseError>)
    ensures
        match package_version(content@) {
            Err(f) => r == Err::<String, ReleaseError>(ReleaseError::Manifest(f)),
            Ok(old) => match package_rewrite(content@, old, new_version@) {
                Some(w) => r is Ok && r->Ok_0@ == w,
                None => r == Err::<String, ReleaseError>(
                    ReleaseError::Manifest(ManifestFault::MissingVersion),
                ),
            },
        },
{
    let old = get_current_version(content)?;
    set_version(content, old.as_str(), new_version)
}

/// In the text of a descriptor, a version written into the closed
/// `"version": "..."` member is the version found again at that member,
/// and only the member's value changes. (What the JSON parser reads back
/// is the parser's own affair.)
pub proof fn write_then_read_version(content: Seq<char>, old: Seq<char>, new: Seq<char>)
    requires
        anchored_value(content, member_anchor()) == Some(old),
        is_closed_from(content, member_anchor(), 0),
        !has_value_stop(new),
    ensures
        package_rewrite(content, old, new) == Some(rewrite_value(content, member_anchor(), old, new)),
        anchored_value(rewrite_value(content, member_anchor(), old, new), member_anchor()) == Some(
            new,
        ),
        ({
            let a = find(content, member_anchor())->0 + member_anchor().len();
            rewrite_value(content, member_anchor(), old, new) == content.subrange(0, a) + new
                + content.subrange(a + old.len(), content.len() as int)
        }),
{
    rewrite_then_read(content, member_anchor(), old, new, 0);
}

} // verus!

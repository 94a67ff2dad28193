use release_pilot::error::{CheckStep, ReleaseError, VcsOperation};
use release_pilot::git;
use release_pilot::implementations::js::{advance_checks, check_command, CheckState, PackageManager};
use release_pilot::language::Language;
use release_pilot::release::{
    git_command, next_stage, release_name, repository_gate, runs_checks, Stage,
};

fn run(pm: PackageManager, outcomes: &[bool]) -> (CheckState, Vec<Vec<String>>) {
    let mut s = CheckState::NotStarted;
    let mut commands = Vec::new();
    let mut it = outcomes.iter();
    loop {
        if let Some(c) = check_command(pm, &s) {
            commands.push(c);
        }
        let next = advance_checks(pm, s.clone(), *it.next().unwrap_or(&true), "out".to_string());
        if next == s {
            return (s, commands);
        }
        s = next;
    }
}

#[test]
fn checks_pass_with_tests() {
    let (s, cmds) = run(PackageManager::Bun, &[true, true, true, true, true]);
    assert_eq!(s, CheckState::Passed);
    assert_eq!(
        cmds,
        vec![
            vec!["bun".to_string(), "eslint".to_string()],
            vec!["bun".to_string(), "tsc".to_string(), "--noEmit".to_string()],
            vec!["bun".to_string(), "test".to_string()],
        ]
    );
}

#[test]
fn checks_skip_tests_without_test_files() {
    let (s, cmds) = run(PackageManager::Bun, &[true, true, true, false]);
    assert_eq!(s, CheckState::Passed);
    assert_eq!(cmds.len(), 2);
}

#[test]
fn checks_skip_tests_without_runner() {
    let (s, cmds) = run(PackageManager::Pnpm, &[true, true, true]);
    assert_eq!(s, CheckState::Passed);
    assert_eq!(cmds.last().unwrap()[0], "pnpm");
    assert_eq!(cmds.len(), 2);
}

#[test]
fn failed_lint_stops_checks() {
    let (s, cmds) = run(PackageManager::Bun, &[true, false, true, true]);
    assert_eq!(s, CheckState::Failed(CheckStep::Lint, "out".to_string()));
    assert_eq!(cmds, vec![vec!["bun".to_string(), "eslint".to_string()]]);
    let after = advance_checks(PackageManager::Bun, s.clone(), true, String::new());
    assert_eq!(after, s);
    assert_eq!(check_command(PackageManager::Bun, &after), None);
}

#[test]
fn failed_type_check_and_tests() {
    let (s, _) = run(PackageManager::Pnpm, &[true, true, false]);
    assert_eq!(s, CheckState::Failed(CheckStep::TypeCheck, "out".to_string()));
    let (s, cmds) = run(PackageManager::Bun, &[true, true, true, true, false]);
    assert_eq!(s, CheckState::Failed(CheckStep::Test, "out".to_string()));
    assert_eq!(cmds.len(), 3);
}

#[test]
fn changelog_of_empty_range_is_empty() {
    assert_eq!(git::diff("", "1.0.0"), "");
}

#[test]
fn changelog_is_oldest_first() {
    let log = "E change (eeeeeee)\nD change (ddddddd)";
    assert_eq!(git::diff(log, "1.0.0"), "* D change (ddddddd)\n* E change (eeeeeee)");
}

#[test]
fn changelog_drops_boundary_commit() {
    let log = "E change (e1)\r\nD change (d1)\nchore: release v1.0.0 (c1)\n";
    assert_eq!(git::diff(log, "1.0.0"), "* D change (d1)\n* E change (e1)");
    assert_eq!(git::diff("chore: release v1.0.0 (c1)", "1.0.0"), "");
    assert_eq!(git::diff("chore: release v0.9.0 (b1)", "1.0.0"), "* chore: release v0.9.0 (b1)");
}

#[test]
fn tag_listing() {
    assert_eq!(git::tags("v2\nv1\n"), vec!["v2".to_string(), "v1".to_string()]);
    assert_eq!(git::tags(""), Vec::<String>::new());
}

#[test]
fn trimmed_outputs() {
    assert_eq!(git::branch_name("  main\n"), "main");
    assert_eq!(git::origin_url("git@host:me/repo.git\r\n"), "git@host:me/repo.git");
    assert_eq!(git::branch_name("\u{3000}dev\u{a0}"), "dev");
}

#[test]
fn dirty_status() {
    assert_eq!(git::is_repo_dirty(true, "", ""), Ok(false));
    assert_eq!(git::is_repo_dirty(true, "?? new.txt\n", ""), Ok(true));
    assert_eq!(
        git::is_repo_dirty(false, "", "fatal"),
        Err(ReleaseError::Vcs(VcsOperation::Status, "fatal".to_string()))
    );
}

#[test]
fn behind_upstream() {
    assert_eq!(git::is_behind_upstream(true, true, "3\n", ""), Ok(true));
    assert_eq!(git::is_behind_upstream(true, true, "0\n", ""), Ok(false));
    assert_eq!(git::is_behind_upstream(true, true, "+2", ""), Ok(true));
    assert_eq!(git::is_behind_upstream(true, true, "abc", ""), Ok(false));
    assert_eq!(git::is_behind_upstream(true, true, "99999999999", ""), Ok(false));
    assert_eq!(
        git::is_behind_upstream(false, true, "3", "offline"),
        Err(ReleaseError::Vcs(VcsOperation::Fetch, "offline".to_string()))
    );
    assert_eq!(
        git::is_behind_upstream(true, false, "", "no upstream"),
        Err(ReleaseError::Vcs(VcsOperation::CountBehind, "no upstream".to_string()))
    );
}

#[test]
fn git_argument_vectors() {
    assert_eq!(
        git::log_args("1.0.0", "1.1.0"),
        vec!["log", "--oneline", "--pretty=format:%s (%h)", "1.0.0..1.1.0"]
    );
    assert_eq!(git::behind_count_args("main"), vec!["rev-list", "--count", "HEAD..origin/main"]);
}

#[test]
fn dirty_tree_aborts_before_version() {
    let mut s = Stage::DetectLanguage;
    let mut seen = Vec::new();
    for ok in [true, true, false, true, true, true, true] {
        if s == Stage::Aborted {
            break;
        }
        seen.push(s);
        s = next_stage(s, ok);
    }
    assert_eq!(s, Stage::Aborted);
    assert_eq!(seen, vec![Stage::DetectLanguage, Stage::RunChecks, Stage::CheckClean]);
    assert_eq!(repository_gate(Ok(true), Ok(false)), Err(ReleaseError::DirtyTree));
    assert_eq!(repository_gate(Ok(false), Ok(true)), Err(ReleaseError::BehindUpstream));
    assert_eq!(repository_gate(Ok(false), Ok(false)), Ok(()));
    let e = ReleaseError::Vcs(VcsOperation::Status, String::new());
    assert_eq!(repository_gate(Err(e.clone()), Ok(false)), Err(e));
}

#[test]
fn missing_tag_does_not_abort() {
    assert_eq!(next_stage(Stage::DeleteTag, false), Stage::StageChanges);
    assert_eq!(next_stage(Stage::DeleteTag, true), Stage::StageChanges);
    assert_eq!(next_stage(Stage::Commit, false), Stage::Aborted);
    assert_eq!(next_stage(Stage::Publish, true), Stage::Done);
    assert_eq!(next_stage(Stage::Done, false), Stage::Done);
}

#[test]
fn release_commands() {
    assert_eq!(git_command(Stage::DeleteTag, "1.2.0", "main").unwrap(), vec!["tag", "-d", "1.2.0"]);
    assert_eq!(git_command(Stage::StageChanges, "1.2.0", "main").unwrap(), vec!["add", "-A"]);
    assert_eq!(
        git_command(Stage::Commit, "1.2.0", "main").unwrap(),
        vec!["commit", "-m", "chore: release v1.2.0"]
    );
    assert_eq!(
        git_command(Stage::CreateTag, "1.2.0", "main").unwrap(),
        vec!["tag", "-a", "1.2.0", "-m", "Release v1.2.0"]
    );
    assert_eq!(
        git_command(Stage::Push, "1.2.0", "main").unwrap(),
        vec!["push", "origin", "main", "--tags"]
    );
    assert_eq!(git_command(Stage::ReadVersion, "1.2.0", "main"), None);
    assert_eq!(release_name("1.2.0"), "v1.2.0");
    assert!(runs_checks(Language::JsTs));
    assert!(!runs_checks(Language::Rust));
    assert!(!runs_checks(Language::Kotlin));
    assert!(!runs_checks(Language::Swift));
}

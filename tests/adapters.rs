use release_pilot::error::{ManifestFault, ReleaseError};
use release_pilot::implementations::js;
use release_pilot::implementations::js::{Lockfiles, PackageManager};
use release_pilot::implementations::kotlin;
use release_pilot::implementations::rust;
use release_pilot::implementations::swift;
use release_pilot::language::{detect_language, Language, Markers};
use release_pilot::utils::find_between;

const GRADLE: &str = "plugins {\n  id(\"maven-publish\")\n}\n\ngroup = \"ink.literate\"\nversion = \"1.2.3\"\n\ndependencies {\n  implementation(\"x:y:1.2.3\")\n}\n";

const KOTLIN_README: &str = "# lib\n<dependency>\n  <artifactId>cool-lib</artifactId>\n  <version>1.2.3</version>\n</dependency>\n\nimplementation(\"ink.literate:cool-lib:1.2.3\")\n\nimplementation 'ink.literate:cool-lib:1.2.3'\n";

fn markers(p: bool, g: bool, c: bool, s: bool) -> Markers {
    Markers { package_json: p, build_gradle_kts: g, cargo_toml: c, package_swift: s }
}

#[test]
fn detection_follows_priority_order() {
    assert_eq!(detect_language(&markers(true, true, true, true)), Ok(Language::JsTs));
    assert_eq!(detect_language(&markers(false, true, true, true)), Ok(Language::Kotlin));
    assert_eq!(detect_language(&markers(false, false, true, true)), Ok(Language::Rust));
    assert_eq!(detect_language(&markers(false, false, false, true)), Ok(Language::Swift));
    for _ in 0..3 {
        assert_eq!(detect_language(&markers(false, true, true, false)), Ok(Language::Kotlin));
    }
}

#[test]
fn detection_fails_without_markers() {
    assert_eq!(detect_language(&markers(false, false, false, false)), Err(ReleaseError::Detection));
}

#[test]
fn language_names() {
    assert_eq!(Language::JsTs.name(), "JS/TS");
    assert_eq!(Language::Rust.name(), "Rust");
    assert_eq!(Language::Kotlin.name(), "Kotlin");
    assert_eq!(Language::Swift.name(), "Swift");
}

#[test]
fn find_between_takes_first_pair() {
    assert_eq!(find_between("a<x>one</x><x>two</x>", "<x>", "</x>"), Some("one".to_string()));
    assert_eq!(find_between("no tags", "<x>", "</x>"), None);
    assert_eq!(find_between("<x>open", "<x>", "</x>"), None);
    assert_eq!(find_between("</x><x>", "<x>", "</x>"), None);
}

#[test]
fn kotlin_reads_build_script_version() {
    assert_eq!(kotlin::get_current_version(GRADLE), Ok("1.2.3".to_string()));
    assert_eq!(
        kotlin::get_current_version("group = \"x\"\n"),
        Err(ReleaseError::Manifest(ManifestFault::MissingVersion))
    );
}

#[test]
fn kotlin_write_then_read_round_trips() {
    let written = kotlin::bump_build_gradle_kts(GRADLE, "1.2.3", "2.0.0");
    assert_eq!(kotlin::get_current_version(&written), Ok("2.0.0".to_string()));
    assert_eq!(written, GRADLE.replacen("version = \"1.2.3\"", "version = \"2.0.0\"", 1));
    assert!(written.contains("implementation(\"x:y:1.2.3\")"));
}

#[test]
fn kotlin_readme_updates_all_snippets() {
    let r = kotlin::bump_readme(KOTLIN_README, "1.2.3", "2.0.0").unwrap();
    assert_eq!(
        r,
        "# lib\n<dependency>\n  <artifactId>cool-lib</artifactId>\n  <version>2.0.0</version>\n</dependency>\n\nimplementation(\"ink.literate:cool-lib:2.0.0\")\n\nimplementation 'ink.literate:cool-lib:2.0.0'\n"
    );
}

#[test]
fn kotlin_readme_without_artifact_fails() {
    assert_eq!(
        kotlin::bump_readme("<version>1.2.3</version>", "1.2.3", "2.0.0"),
        Err(ReleaseError::Manifest(ManifestFault::MissingArtifact))
    );
}

#[test]
fn kotlin_bump_version_updates_both_files() {
    let (script, readme) = kotlin::bump_version("1.3.0", GRADLE, KOTLIN_README).unwrap();
    assert_eq!(kotlin::get_current_version(&script), Ok("1.3.0".to_string()));
    assert!(readme.contains("<version>1.3.0</version>"));
    assert!(readme.contains("implementation 'ink.literate:cool-lib:1.3.0'"));
    assert_eq!(
        kotlin::bump_version("1.3.0", "nothing", KOTLIN_README),
        Err(ReleaseError::Manifest(ManifestFault::MissingVersion))
    );
}

#[test]
fn rust_reads_package_version() {
    let toml = "[package]\nname = \"demo\"\nversion = \"0.4.1\"\n\n[dependencies]\nserde = { version = \"1.0\" }\n";
    assert_eq!(rust::get_current_version(toml), Ok("0.4.1".to_string()));
}

#[test]
fn rust_manifest_errors() {
    assert_eq!(
        rust::get_current_version("[package]\nname = \"demo\"\n"),
        Err(ReleaseError::Manifest(ManifestFault::MissingVersion))
    );
    assert_eq!(
        rust::get_current_version("[package]\nversion = 3\n"),
        Err(ReleaseError::Manifest(ManifestFault::VersionNotString))
    );
    assert_eq!(
        rust::get_current_version("[package\nversion = "),
        Err(ReleaseError::Manifest(ManifestFault::Malformed))
    );
}

#[test]
fn rust_write_then_read_round_trips() {
    let toml = "[package]\nname = \"demo\"\nversion = \"0.4.1\" # keep\n\n[dependencies]\nserde = { version = \"0.4.1\" }\n";
    let written = rust::bump_version(toml, "0.5.0").unwrap();
    assert_eq!(rust::get_current_version(&written), Ok("0.5.0".to_string()));
    assert_eq!(
        written,
        "[package]\nname = \"demo\"\nversion = \"0.5.0\" # keep\n\n[dependencies]\nserde = { version = \"0.4.1\" }\n"
    );
}

#[test]
fn rust_set_version_without_field_fails() {
    assert_eq!(
        rust::set_version("[package]\n", "1.0.0", "2.0.0"),
        Err(ReleaseError::Manifest(ManifestFault::MissingVersion))
    );
}

#[test]
fn js_reads_package_version() {
    let json = "{\n  \"name\": \"demo\",\n  \"version\": \"3.1.4\"\n}\n";
    assert_eq!(js::get_current_version(json), Ok("3.1.4".to_string()));
    assert_eq!(
        js::get_current_version("{\"name\": \"demo\"}"),
        Err(ReleaseError::Manifest(ManifestFault::MissingVersion))
    );
    assert_eq!(
        js::get_current_version("{\"version\": 3}"),
        Err(ReleaseError::Manifest(ManifestFault::VersionNotString))
    );
    assert_eq!(
        js::get_current_version("{\"version\": "),
        Err(ReleaseError::Manifest(ManifestFault::Malformed))
    );
}

#[test]
fn js_write_then_read_round_trips() {
    let json = "{\n  \"name\": \"demo\",\n  \"version\": \"3.1.4\",\n  \"scripts\": {}\n}\n";
    let written = js::bump_version(json, "3.2.0").unwrap();
    assert_eq!(js::get_current_version(&written), Ok("3.2.0".to_string()));
    assert_eq!(written, "{\n  \"name\": \"demo\",\n  \"version\": \"3.2.0\",\n  \"scripts\": {}\n}\n");
}

#[test]
fn js_compact_descriptor_is_rewritten() {
    assert_eq!(
        js::bump_version("{\"name\":\"x\",\"version\":\"1.0.0\"}", "2.0.0"),
        Ok("{\"name\":\"x\",\"version\":\"2.0.0\"}".to_string())
    );
    assert_eq!(
        js::bump_version("{\"version\" : \"1.0.0\"}", "2.0.0"),
        Err(ReleaseError::Manifest(ManifestFault::MissingVersion))
    );
}

#[test]
fn js_bump_errors_leave_no_output() {
    assert_eq!(
        js::bump_version("not json \"version\": \"1.0.0\"", "2.0.0"),
        Err(ReleaseError::Manifest(ManifestFault::Malformed))
    );
    assert_eq!(
        js::bump_version("{\"name\": \"x\"}", "2.0.0"),
        Err(ReleaseError::Manifest(ManifestFault::MissingVersion))
    );
    assert_eq!(
        js::bump_version("{\"version\": null}", "2.0.0"),
        Err(ReleaseError::Manifest(ManifestFault::VersionNotString))
    );
}

#[test]
fn kotlin_read_stays_on_its_line() {
    assert_eq!(
        kotlin::get_current_version("version = \"1.2.3\nname = \"x\"\n"),
        Ok("1.2.3".to_string())
    );
    assert_eq!(
        kotlin::get_current_version("version = \"1.2.3\r\nname = \"x\"\r\n"),
        Ok("1.2.3".to_string())
    );
    assert_eq!(
        kotlin::get_current_version("version = \"1.0\"\nversion = \"2.0\"\n"),
        Ok("1.0".to_string())
    );
}

#[test]
fn rust_rewrite_is_scoped_to_package_table() {
    let toml = "[dependencies]\nfoo = { version = \"0.4.1\" }\n\n[package]\nname = \"demo\"\nversion = \"0.4.1\"\n";
    assert_eq!(
        rust::bump_version(toml, "0.5.0"),
        Ok("[dependencies]\nfoo = { version = \"0.4.1\" }\n\n[package]\nname = \"demo\"\nversion = \"0.5.0\"\n".to_string())
    );
    assert_eq!(
        rust::bump_version("package.version = \"1.0.0\"\n", "2.0.0"),
        Err(ReleaseError::Manifest(ManifestFault::MissingVersion))
    );
    assert_eq!(
        rust::bump_version("[package\n", "2.0.0"),
        Err(ReleaseError::Manifest(ManifestFault::Malformed))
    );
    assert_eq!(
        rust::get_current_version("version = \"1.0.0\"\n[package]\nname = \"x\"\n"),
        Err(ReleaseError::Manifest(ManifestFault::MissingVersion))
    );
}

#[test]
fn swift_version_comes_from_tags() {
    assert_eq!(swift::get_current_version(&vec![]), "0.0.0");
    let tags = vec!["1.4.0".to_string(), "1.3.0".to_string()];
    assert_eq!(swift::get_current_version(&tags), "1.4.0");
    let mut tagged = vec!["1.5.0".to_string()];
    tagged.extend(tags);
    assert_eq!(swift::get_current_version(&tagged), "1.5.0");
}

#[test]
fn swift_readme_moves_install_reference() {
    let readme = "dependencies: [\n  .package(url: \"x\", from: \"1.4.0\")\n]\nfrom: \"1.4.0\"\n";
    let tags = vec!["1.4.0".to_string()];
    assert_eq!(
        swift::bump_version("1.5.0", &tags, readme),
        "dependencies: [\n  .package(url: \"x\", from: \"1.5.0\")\n]\nfrom: \"1.5.0\"\n"
    );
    assert_eq!(swift::bump_readme("from: \"0.0.0\"", "0.0.0", "0.1.0"), "from: \"0.1.0\"");
}

#[test]
fn lockfile_detection() {
    let l = |a, b, c| Lockfiles { bun_lock: a, bun_lockb: b, pnpm_lock: c };
    assert_eq!(js::detect_package_manager(&l(true, false, false)), Ok(PackageManager::Bun));
    assert_eq!(js::detect_package_manager(&l(false, true, false)), Ok(PackageManager::Bun));
    assert_eq!(js::detect_package_manager(&l(false, false, true)), Ok(PackageManager::Pnpm));
    assert_eq!(js::detect_package_manager(&l(true, false, true)), Err(ReleaseError::AmbiguousToolchain));
    assert_eq!(js::detect_package_manager(&l(true, true, false)), Err(ReleaseError::AmbiguousToolchain));
    assert_eq!(js::detect_package_manager(&l(false, false, false)), Err(ReleaseError::MissingToolchain));
}

#[test]
fn test_file_names_follow_conventions() {
    assert_eq!(js::is_test_file_name("button.test.tsx"), Ok(true));
    assert_eq!(js::is_test_file_name("math_test.js"), Ok(true));
    assert_eq!(js::is_test_file_name("api.spec.ts"), Ok(true));
    assert_eq!(js::is_test_file_name("api_spec.jsx"), Ok(true));
    assert_eq!(js::is_test_file_name("api.ts"), Ok(false));
    assert_eq!(js::is_test_file_name("test.ts"), Ok(false));
    assert_eq!(js::is_test_file_name("a.test.tsx.bak"), Ok(false));
    let names = vec!["index.ts".to_string(), "util.spec.js".to_string()];
    assert_eq!(js::has_test_files(&names), Ok(true));
    assert_eq!(js::has_test_files(&vec!["index.ts".to_string()]), Ok(false));
    assert_eq!(js::has_test_files(&vec![]), Ok(false));
}

#[test]
fn package_manager_executables() {
    assert_eq!(PackageManager::Bun.executable(), "bun");
    assert_eq!(PackageManager::Pnpm.executable(), "pnpm");
    assert!(PackageManager::Bun.has_test_runner());
    assert!(!PackageManager::Pnpm.has_test_runner());
}

use goida::package::dependencies::{
    artifact_matches_platform, current_platform, dependency_identity, first_listed_revision, is_full_git_sha,
    is_venv_path, remove_locked_package, revision_lookup, stale_dependencies, validate_add_request,
    validate_build_config, validate_dependency_name, DependencyTracker, RevisionLookup, Visit,
};
use goida::package::manifest::{
    check_lock_version, lock_version, starter_source, BuildArtifact, BuildConfig, Dependency, LockFile, LockedPackage,
};
use goida::package::venv::{
    cmd_activate, cmd_deactivate, escape_cmd_prompt_name, escape_cmd_value, escape_powershell_double_quoted,
    escape_sh_double_quoted, powershell_activate, powershell_deactivate, sh_activate, sh_deactivate,
};

fn s(v: &str) -> Option<String> {
    Some(v.to_string())
}

fn git_dep(rev: Option<String>, branch: Option<String>, tag: Option<String>) -> Dependency {
    Dependency { git: s("https://example.org/lib.git"), path: None, rev, branch, tag }
}

fn locked(name: &str, path: &str) -> LockedPackage {
    LockedPackage {
        name: name.to_string(),
        source: "path+/src".to_string(),
        revision: "local".to_string(),
        path: path.to_string(),
        artifacts: vec![],
    }
}

#[test]
fn escapes_for_each_shell() {
    assert_eq!(escape_powershell_double_quoted("a`b\"c$d"), "a``b`\"c`$d");
    assert_eq!(escape_cmd_prompt_name("100%"), "100%%");
    assert_eq!(escape_cmd_value("%PATH%"), "%%PATH%%");
    assert_eq!(escape_sh_double_quoted("a\\b\"c$d`e"), "a\\\\b\\\"c\\$d\\`e");
    assert_eq!(escape_sh_double_quoted("plain"), "plain");
}

#[test]
fn activation_scripts_embed_escaped_values() {
    let ps = powershell_activate("C:\\env$", "my\"env");
    assert!(ps.starts_with("$env:GOIDA_OLD_VENV = $env:GOIDA_VENV\n$env:GOIDA_VENV = \"C:\\env`$\"\n"));
    assert!(ps.contains("    \"(my`\"env) \" + $(if (Test-Path Function:_goida_old_prompt)"));
    assert!(ps.ends_with("Write-Host \"Activated Goida venv: $env:GOIDA_VENV\"\n"));
    assert_eq!(
        cmd_activate("C:\\env%", "e%"),
        "@echo off\r\nset GOIDA_OLD_VENV=%GOIDA_VENV%\r\nset \"GOIDA_VENV=C:\\env%%\"\r\nset \"GOIDA_OLD_PROMPT=%PROMPT%\"\r\nset \"PROMPT=(e%%) %PROMPT%\"\r\necho Activated Goida venv: %GOIDA_VENV%\r\n"
    );
    let sh = sh_activate("/home/u/$env", "a$b");
    assert!(sh.starts_with("export GOIDA_OLD_VENV=\"${GOIDA_VENV-}\"\nexport GOIDA_VENV=\"/home/u/$env\"\n"));
    assert!(sh.contains("export PS1=\"(a\\$b) ${PS1-}\"\n"));
    assert!(sh.ends_with("echo \"Activated Goida venv: $GOIDA_VENV\"\n"));
}

#[test]
fn deactivation_scripts() {
    assert!(powershell_deactivate().ends_with("Write-Host \"Deactivated Goida venv\"\n"));
    assert!(cmd_deactivate().starts_with("@echo off\r\nif defined GOIDA_OLD_VENV"));
    assert!(sh_deactivate().contains("unset -f deactivate 2>/dev/null || true\n"));
}

#[test]
fn dependency_names_are_single_path_components() {
    assert!(validate_dependency_name("json").is_ok());
    assert!(validate_dependency_name("my_lib-2").is_ok());
    for bad in ["", "-x", "a/b", ".", "..", "a/"] {
        assert_eq!(validate_dependency_name(bad), Err(format!("Некорректное имя зависимости '{bad}'")));
    }
}

#[test]
fn add_requests_need_one_source_and_one_reference() {
    assert!(validate_add_request("lib", &s("g"), &None, &s("abc"), &None, &None).is_ok());
    assert!(validate_add_request("lib", &None, &s("../lib"), &None, &None, &None).is_ok());
    assert_eq!(
        validate_add_request("lib", &None, &None, &None, &None, &None),
        Err("Укажите ровно один источник зависимости: --git или --path".to_string())
    );
    assert_eq!(
        validate_add_request("lib", &s("g"), &s("p"), &None, &None, &None),
        Err("Укажите ровно один источник зависимости: --git или --path".to_string())
    );
    assert_eq!(
        validate_add_request("lib", &None, &s("p"), &None, &s("main"), &None),
        Err("--rev, --branch и --tag доступны только для --git зависимостей".to_string())
    );
    assert_eq!(
        validate_add_request("lib", &s("g"), &None, &None, &s("main"), &s("v1")),
        Err("Укажите только один вариант: --rev, --branch или --tag".to_string())
    );
    assert_eq!(
        validate_add_request("a/b", &None, &None, &None, &None, &None),
        Err("Некорректное имя зависимости 'a/b'".to_string())
    );
}

#[test]
fn identities() {
    assert_eq!(dependency_identity(&git_dep(None, None, None), ""), Ok("git+https://example.org/lib.git#HEAD".to_string()));
    assert_eq!(
        dependency_identity(&git_dep(None, s("dev"), None), ""),
        Ok("git+https://example.org/lib.git#dev".to_string())
    );
    let local = Dependency { git: None, path: s("../lib"), rev: None, branch: None, tag: None };
    assert_eq!(dependency_identity(&local, "/work/lib"), Ok("path+/work/lib".to_string()));
    let none = Dependency { git: None, path: None, rev: None, branch: None, tag: None };
    assert_eq!(dependency_identity(&none, ""), Err("Dependency source is missing".to_string()));
}

#[test]
fn git_revisions() {
    let sha = "0123456789abcdefABCDEF0123456789abcdef01";
    assert!(is_full_git_sha(sha));
    assert!(!is_full_git_sha(&sha[1..]));
    assert!(!is_full_git_sha("g123456789abcdefABCDEF0123456789abcdef01"));
    assert!(matches!(revision_lookup(&git_dep(s(sha), None, None)), RevisionLookup::Pinned(r) if r == sha));
    assert!(matches!(revision_lookup(&git_dep(s("v1"), None, None)), RevisionLookup::Remote(r) if r == "v1"));
    assert!(matches!(revision_lookup(&git_dep(None, s("main"), None)), RevisionLookup::Remote(r) if r == "refs/heads/main"));
    assert!(matches!(revision_lookup(&git_dep(None, None, s("v2"))), RevisionLookup::Remote(r) if r == "refs/tags/v2"));
    assert!(matches!(revision_lookup(&git_dep(None, None, None)), RevisionLookup::Remote(r) if r == "HEAD"));
    assert_eq!(first_listed_revision("\n  abc123\tHEAD\nfff\trefs/x\n", "HEAD"), Ok("abc123".to_string()));
    assert_eq!(first_listed_revision(" \n\t", "HEAD"), Err("Git-ссылка 'HEAD' не найдена".to_string()));
}

#[test]
fn build_configurations_and_platforms() {
    let artifact = |source: &str, destination: &str, platforms: &[&str]| BuildArtifact {
        source: source.to_string(),
        destination: destination.to_string(),
        platforms: platforms.iter().map(|p| p.to_string()).collect(),
    };
    let mut build = BuildConfig::empty();
    assert!(validate_build_config(&build).is_ok());
    build.command = vec!["".to_string()];
    assert_eq!(validate_build_config(&build), Err("build.command program must not be empty".to_string()));
    build.command = vec!["make".to_string()];
    build.artifacts = vec![artifact("out/lib.so", "", &[])];
    assert_eq!(
        validate_build_config(&build),
        Err("build artifact source and destination must not be empty".to_string())
    );
    assert_eq!(current_platform("linux", "x86_64"), "linux-x86_64");
    assert!(artifact_matches_platform(&artifact("a", "b", &[]), "linux", "x86_64"));
    assert!(artifact_matches_platform(&artifact("a", "b", &["*"]), "linux", "x86_64"));
    assert!(artifact_matches_platform(&artifact("a", "b", &["windows", "linux"]), "linux", "x86_64"));
    assert!(artifact_matches_platform(&artifact("a", "b", &["linux-x86_64"]), "linux", "x86_64"));
    assert!(!artifact_matches_platform(&artifact("a", "b", &["linux-aarch64"]), "linux", "x86_64"));
}

#[test]
fn tracker_detects_conflicts_and_cycles() {
    let mut tracker = DependencyTracker::new();
    assert_eq!(tracker.begin("a", "git+x#HEAD"), Ok(Visit::Resolve));
    assert_eq!(
        tracker.begin("a", "git+x#HEAD"),
        Err("Cyclic package dependency detected at 'a'".to_string())
    );
    tracker.record("a", "git+x#HEAD");
    tracker.finish("a");
    assert_eq!(tracker.begin("a", "git+x#HEAD"), Ok(Visit::Known));
    assert_eq!(
        tracker.begin("a", "path+/y"),
        Err("Dependency name conflict for 'a': 'git+x#HEAD' and 'path+/y'".to_string())
    );
    assert_eq!(tracker.begin("b", "path+/y"), Ok(Visit::Resolve));
}

#[test]
fn lock_file_bookkeeping() {
    assert_eq!(lock_version(), 1);
    assert!(check_lock_version(1).is_ok());
    assert_eq!(check_lock_version(2), Err("Unsupported goida.lock version 2; expected 1".to_string()));
    let previous = LockFile { version: 1, package: vec![locked("a", "deps/a"), locked("b", "$GOIDA_VENV/deps/b"), locked("c", "deps/c")] };
    let current = LockFile { version: 1, package: vec![locked("b", "x")] };
    assert_eq!(stale_dependencies(&previous, &current), vec!["deps/a".to_string(), "deps/c".to_string()]);
    let mut lock = LockFile { version: 1, package: vec![locked("a", "p1"), locked("b", "p2"), locked("a", "p3")] };
    assert_eq!(remove_locked_package(&mut lock, "a"), Some("p1".to_string()));
    assert_eq!(lock.package.len(), 1);
    assert_eq!(lock.package[0].name, "b");
    assert_eq!(remove_locked_package(&mut lock, "zzz"), None);
    assert!(is_venv_path("$GOIDA_VENV/deps/b"));
    assert!(!is_venv_path("deps/b"));
    assert!(!is_venv_path("$GOIDA_VENV"));
    assert!(LockFile::empty().package.is_empty());
}

#[test]
fn new_projects_start_with_a_greeting() {
    assert_eq!(starter_source(), "функция главная() {\n    печать(\"Привет, мир!\")\n}\n\nглавная()\n");
}

use git_warden::cachedir::{
    ancestor_dirs, du_size, find_cache_dir_ancestor, has_untracked_output, is_cache_dir, is_known_cache_dir_name,
    known_cache_dir_names, parse_tracked_entries, parse_untracked_entries, visit_action, DirFacts, DirProbe,
    VisitAction,
};

fn facts(parent: &[&str], files: &[&str], dirs: &[&str]) -> DirFacts {
    DirFacts {
        parent_files: parent.iter().map(|s| s.to_string()).collect(),
        dir_files: files.iter().map(|s| s.to_string()).collect(),
        dir_dirs: dirs.iter().map(|s| s.to_string()).collect(),
        parent_has_py: false,
    }
}

fn probe(name: &str, f: DirFacts, is_venv: bool) -> DirProbe {
    DirProbe { name: name.to_string(), facts: f, is_venv }
}

#[test]
fn is_cache_dir_node_modules() {
    assert!(is_cache_dir("node_modules", &facts(&["package.json"], &[], &[])));
}

#[test]
fn is_cache_dir_node_modules_without_indicator() {
    assert!(!is_cache_dir("node_modules", &facts(&[], &[], &[])));
}

#[test]
fn is_cache_dir_build_with_cargo() {
    assert!(is_cache_dir("build", &facts(&["Cargo.toml"], &[], &[])));
}

#[test]
fn is_cache_dir_build_cmake_out_of_source() {
    assert!(is_cache_dir("build", &facts(&[], &["CMakeCache.txt"], &[])));
}

#[test]
fn is_cache_dir_unknown_name() {
    assert!(!is_cache_dir("myrandomdir", &facts(&["package.json"], &[], &[])));
    assert!(!is_known_cache_dir_name("myrandomdir"));
    assert!(known_cache_dir_names().contains(&"node_modules".to_string()));
}

#[test]
fn find_cache_dir_ancestor_direct() {
    let dirs = ancestor_dirs("node_modules/lodash/index.js");
    assert_eq!(dirs, vec!["node_modules/lodash".to_string(), "node_modules".to_string()]);
    let probes = vec![
        probe("lodash", facts(&[], &["index.js"], &[]), false),
        probe("node_modules", facts(&["package.json"], &[], &["lodash"]), false),
    ];
    assert_eq!(find_cache_dir_ancestor(&dirs, &probes), Some("node_modules".to_string()));
}

#[test]
fn find_cache_dir_ancestor_not_found() {
    let dirs = ancestor_dirs("src/main.go");
    assert_eq!(dirs, vec!["src".to_string()]);
    let probes = vec![probe("src", facts(&[], &["main.go"], &[]), false)];
    assert_eq!(find_cache_dir_ancestor(&dirs, &probes), None);
    assert!(ancestor_dirs("top.txt").is_empty());
}

#[test]
fn find_cache_dirs_in_repo_filters() {
    assert_eq!(visit_action("node_modules", false, &facts(&["package.json"], &[], &["lib"])), VisitAction::Found);
    assert_eq!(visit_action("subdir", false, &facts(&["package.json"], &[], &["build"])), VisitAction::Descend);
    assert_eq!(visit_action("build", false, &facts(&[], &[], &[])), VisitAction::Skip);
    assert_eq!(visit_action("myenv", true, &facts(&[], &["pyvenv.cfg"], &[])), VisitAction::Found);
    assert_eq!(visit_action(".git", true, &facts(&[], &[], &[])), VisitAction::Skip);
    assert_eq!(visit_action(".idea", false, &facts(&[], &[], &[])), VisitAction::Skip);
}

#[test]
fn find_cache_dirs_in_repo_stops_at_known() {
    // A registered directory is never walked into, confirmed or not.
    assert_eq!(visit_action("node_modules", false, &facts(&["package.json"], &[], &["some-pkg"])), VisitAction::Found);
    assert_eq!(visit_action("dist", false, &facts(&[], &[], &[])), VisitAction::Skip);
}

#[test]
fn git_listing_output() {
    assert_eq!(parse_tracked_entries(b"a/x.js\0a/y.js\0"), vec!["a/x.js".to_string(), "a/y.js".to_string()]);
    assert!(parse_tracked_entries(b"").is_empty());
    assert_eq!(
        parse_untracked_entries(b"dist/\0dist/a.js\0distant/b\0", "dist"),
        vec!["dist".to_string(), "dist/a.js".to_string()]
    );
    assert!(has_untracked_output(b"x/\0"));
    assert!(!has_untracked_output(b"/\0\0"));
    assert_eq!(du_size(b"12\t/tmp/x\n"), 12 * 1024);
    assert_eq!(du_size(b"oops"), 0);
}

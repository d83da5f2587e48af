use git_warden::gitdiff::{
    build_diff_args, has_extension, parse_diff, parse_range, spec_from_args, split_null_separated, Spec,
    REF_WORKTREE,
};

#[test]
fn spec_is_default() {
    assert!(Spec::default().is_default());
    assert!(!Spec {
        from: "HEAD".into(),
        to: "".into()
    }
    .is_default());
    assert!(!Spec {
        from: "".into(),
        to: "worktree".into()
    }
    .is_default());
}

#[test]
fn spec_is_worktree() {
    for (to, want) in [
        ("worktree", true),
        ("working-tree", true),
        ("wt", true),
        ("", false),
        ("HEAD", false),
        ("main", false),
    ] {
        let s = Spec {
            from: "".into(),
            to: to.into(),
        };
        assert_eq!(s.is_worktree(), want, "to={to}");
    }
}

#[test]
fn build_diff_args_cases() {
    assert_eq!(build_diff_args(&Spec::default()), vec!["diff", "--staged"]);
    assert_eq!(
        build_diff_args(&Spec {
            from: "HEAD".into(),
            to: "worktree".into()
        }),
        vec!["diff", "HEAD"]
    );
    assert_eq!(
        build_diff_args(&Spec {
            from: "".into(),
            to: "worktree".into()
        }),
        vec!["diff"]
    );
    assert_eq!(
        build_diff_args(&Spec {
            from: "origin/main".into(),
            to: "".into()
        }),
        vec!["diff", "origin/main", "HEAD"]
    );
    assert_eq!(
        build_diff_args(&Spec {
            from: "A".into(),
            to: "B".into()
        }),
        vec!["diff", "A", "B"]
    );
}

#[test]
fn parse_range_cases() {
    assert_eq!(
        parse_range("origin/main..HEAD", None),
        Some(("origin/main".into(), "HEAD".into()))
    );
    assert_eq!(parse_range("HEAD", None), None);
    assert_eq!(parse_range("", None), None);
}

#[test]
fn spec_from_args_cases() {
    assert!(spec_from_args(&[], false, None).unwrap().is_default());
    let s = spec_from_args(&["HEAD".into()], false, None).unwrap();
    assert_eq!(s.from, "HEAD");
    assert_eq!(s.to, REF_WORKTREE);
    let s = spec_from_args(&["main..feature".into()], false, None).unwrap();
    assert_eq!((s.from.as_str(), s.to.as_str()), ("main", "feature"));
    let s = spec_from_args(&["A".into(), "B".into()], false, None).unwrap();
    assert_eq!((s.from.as_str(), s.to.as_str()), ("A", "B"));
    assert!(spec_from_args(&[], true, None).unwrap().is_default());
    let s = spec_from_args(&["origin/main".into()], true, None).unwrap();
    assert_eq!(s.from, "origin/main");
    assert_eq!(s.to, "");
    assert!(spec_from_args(&["A".into(), "B".into()], true, None).is_err());
    assert!(spec_from_args(&["A".into(), "B".into(), "C".into()], false, None).is_err());
}

const SAMPLE_DIFF: &str = "diff --git a/foo.go b/foo.go\nindex abc1234..def5678 100644\n--- a/foo.go\n+++ b/foo.go\n@@ -1,4 +1,6 @@\n package main\n \n+// 새로 추가된 주석\n+\n func old() {}\n+func newFunc() {}\n\ndiff --git a/bar.go b/bar.go\nnew file mode 100644\nindex 0000000..aabbcc1\n--- /dev/null\n+++ b/bar.go\n@@ -0,0 +1,3 @@\n+package main\n \n+// 새 파일의 주석\n";

#[test]
fn parse_diff_added_lines() {
    let diffs = parse_diff(SAMPLE_DIFF);
    assert_eq!(diffs.len(), 2);
    let foo = &diffs[0];
    assert_eq!(foo.path, "foo.go");
    for w in [3, 4, 6] {
        assert!(foo.added_lines.contains(&w), "line {w} should be added");
    }
    for c in [1, 2, 5] {
        assert!(!foo.added_lines.contains(&c), "line {c} should be context");
    }
    let bar = &diffs[1];
    assert_eq!(bar.path, "bar.go");
    assert!(bar.added_lines.contains(&1) && bar.added_lines.contains(&3));
}

#[test]
fn parse_diff_deleted_file() {
    let diff = "diff --git a/old.go b/old.go\ndeleted file mode 100644\n--- a/old.go\n+++ /dev/null\n@@ -1,3 +0,0 @@\n-package main\n \n-// removed\n";
    let diffs = parse_diff(diff);
    assert_eq!(diffs.len(), 1);
    assert!(diffs[0].is_deleted);
}

#[test]
fn parse_diff_submodule_and_symlink() {
    let sub = "diff --git a/vendor/mod b/vendor/mod\nnew file mode 160000\nindex 0000000..abc1234\n--- /dev/null\n+++ b/vendor/mod\n@@ -0,0 +1 @@\n+Subproject commit abc1234\n";
    assert!(parse_diff(sub)[0].is_submodule);
    let link = "diff --git a/link b/link\nnew file mode 120000\nindex 0000000..abc1234\n--- /dev/null\n+++ b/link\n@@ -0,0 +1 @@\n+target/path\n";
    assert!(parse_diff(link)[0].is_symlink);
}

#[test]
fn parse_diff_quoted_path_with_quote() {
    let raw = "diff --git \"a/with\\\"quote.txt\" \"b/with\\\"quote.txt\"\nnew file mode 100644\nindex 0000000..abc1234\n--- /dev/null\n+++ \"b/with\\\"quote.txt\"\n@@ -0,0 +1 @@\n+x\n";
    let diffs = parse_diff(raw);
    assert_eq!(diffs.len(), 1);
    assert_eq!(diffs[0].path, "with\"quote.txt");
}

#[test]
fn parse_diff_quoted_octal_korean() {
    let raw = "diff --git \"a/\\355\\225\\234\\352\\270\\200.md\" \"b/\\355\\225\\234\\352\\270\\200.md\"\nindex abc1234..def5678 100644\n--- \"a/\\355\\225\\234\\352\\270\\200.md\"\n+++ \"b/\\355\\225\\234\\352\\270\\200.md\"\n@@ -1 +1,2 @@\n # 제목\n+본문\n";
    let diffs = parse_diff(raw);
    assert_eq!(diffs.len(), 1);
    assert_eq!(diffs[0].path, "한글.md");
    assert!(diffs[0].added_lines.contains(&2));
}

#[test]
fn parse_diff_quoted_deleted_via_header() {
    let raw = "diff --git \"a/del\\\"eted.txt\" \"b/del\\\"eted.txt\"\ndeleted file mode 100644\nindex abc1234..0000000\n--- \"a/del\\\"eted.txt\"\n+++ /dev/null\n@@ -1 +0,0 @@\n-x\n";
    let diffs = parse_diff(raw);
    assert_eq!(diffs.len(), 1);
    assert_eq!(diffs[0].path, "del\"eted.txt");
    assert!(diffs[0].is_deleted);
}

#[test]
fn has_extension_cases() {
    let exts: Vec<String> = vec![".go".into(), ".ts".into(), ".java".into()];
    for (p, want) in [
        ("main.go", true),
        ("src/app.ts", true),
        ("Service.java", true),
        ("readme.md", false),
        ("Makefile", false),
    ] {
        assert_eq!(has_extension(p, &exts), want, "path={p}");
    }
}

#[test]
fn has_extension_dockerfile() {
    let exts: Vec<String> = vec!["dockerfile".into()];
    assert!(has_extension("Dockerfile", &exts));
    assert!(has_extension("Dockerfile.dev", &exts));
    assert!(has_extension("base.dockerfile", &exts));
    assert!(!has_extension("docker-compose.yml", &exts));
}

#[test]
fn append_only_fields() {
    let new_file = "diff --git a/migrations/001.sql b/migrations/001.sql\nnew file mode 100644\nindex 0000000..abc1234\n--- /dev/null\n+++ b/migrations/001.sql\n@@ -0,0 +1,3 @@\n+CREATE TABLE users (\n+  id SERIAL PRIMARY KEY\n+);\n";
    let f = &parse_diff(new_file)[0];
    assert!(f.is_new && !f.has_removed_lines);

    let modif = "diff --git a/migrations/001.sql b/migrations/001.sql\nindex abc1234..def5678 100644\n--- a/migrations/001.sql\n+++ b/migrations/001.sql\n@@ -1,3 +1,3 @@\n CREATE TABLE users (\n-  id INT PRIMARY KEY\n+  id SERIAL PRIMARY KEY\n );\n";
    assert!(parse_diff(modif)[0].has_removed_lines);
}

#[test]
fn split_null_separated_cases() {
    assert_eq!(split_null_separated(b""), Vec::<String>::new());
    assert_eq!(
        split_null_separated(b"a\x00b\x00c\x00"),
        vec!["a", "b", "c"]
    );
    assert_eq!(split_null_separated(b"only"), vec!["only"]);
}

// Diff edge cases.

#[test]
fn parse_diff_hunk_header_no_plus() {
    let diff = "diff --git a/foo.go b/foo.go\n+++ b/foo.go\n@@ -1,3 @@\n+package main\n";
    assert_eq!(parse_diff(diff).len(), 1);
}

#[test]
fn parse_diff_hunk_header_non_numeric() {
    let diff = "diff --git a/foo.go b/foo.go\n+++ b/foo.go\n@@ -1,3 +abc,3 @@\n+package main\n";
    assert_eq!(parse_diff(diff).len(), 1);
}

#[test]
fn parse_diff_before_first_header() {
    let diff = "some preamble line\nanother line\ndiff --git a/foo.go b/foo.go\n+++ b/foo.go\n@@ -0,0 +1 @@\n+package main\n";
    assert_eq!(parse_diff(diff).len(), 1);
}

#[test]
fn parse_diff_rename_metadata() {
    let diff = "diff --git a/old.go b/new.go\nrename from old.go\nrename to new.go\n+++ b/new.go\n@@ -1 +1 @@\n package main\n";
    let diffs = parse_diff(diff);
    assert_eq!(diffs.len(), 1);
    assert_eq!(diffs[0].path, "new.go");
}

#[test]
fn parse_diff_binary_file() {
    let diff = "diff --git a/img.png b/img.png\nindex abc..def 100644\nBinary files a/img.png and b/img.png differ\n";
    assert_eq!(parse_diff(diff).len(), 1);
}

#[test]
fn split_null_separated_round_trips_joined_paths() {
    let cases: Vec<Vec<&str>> = vec![vec!["a"], vec!["a", "b", "c"], vec!["", "dir/x.txt"], vec!["한글.md", "b"]];
    for v in cases {
        let owned: Vec<String> = v.iter().map(|s| s.to_string()).collect();
        let joined = v.join("\0");
        assert_eq!(split_null_separated(joined.as_bytes()), owned);
        assert_eq!(split_null_separated(format!("{joined}\0").as_bytes()), owned);
    }
    assert_eq!(split_null_separated(b"\0\0"), Vec::<String>::new());
}

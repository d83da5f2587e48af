use git_warden::progress::{json_report, new_run, record_step, summary, StepResult};

#[test]
fn summary_format() {
    let steps = vec![
        StepResult {
            name: "Binary".into(),
            category: "binary".into(),
            errors: vec![],
            failed: false,
        },
        StepResult {
            name: "Unicode".into(),
            category: "unicode".into(),
            errors: vec!["a".into(), "b".into()],
            failed: false,
        },
        StepResult {
            name: "Lint".into(),
            category: "lint".into(),
            errors: vec!["c".into()],
            failed: false,
        },
    ];
    let (total, s) = summary(&steps);
    assert_eq!(total, 3);
    assert_eq!(s, "unicode(2), lint(1)");
}

#[test]
fn summary_uses_name_without_category() {
    let steps = vec![StepResult { name: "Guide".into(), category: String::new(), errors: vec!["x".into()], failed: false }];
    assert_eq!(summary(&steps), (1, "Guide(1)".to_string()));
    assert_eq!(summary(&[]), (0, String::new()));
}

#[test]
fn run_records_outcomes() {
    let meta = vec![("Binary".to_string(), "binary".to_string()), ("Unicode".to_string(), "unicode".to_string())];
    let mut run = new_run(&meta);
    assert_eq!(run.steps.len(), 2);
    assert!(record_step(&mut run, 0, Ok(vec![])).is_ok());
    assert!(record_step(&mut run, 1, Ok(vec!["a.txt: bad char".into(), "b.txt: bad char".into()])).is_ok());
    assert_eq!(run.all_errors.len(), 2);
    assert_eq!(run.steps[1].errors.len(), 2);
    assert!(!run.steps[0].failed);
    let r = record_step(&mut run, 0, Err("fatal".into()));
    assert_eq!(r, Err("fatal".to_string()));
    assert!(run.steps[0].failed);
    assert_eq!(run.all_errors.len(), 2);
}

#[test]
fn json_report_counts() {
    let meta = vec![("Unicode".to_string(), "unicode".to_string()), ("Lint".to_string(), "lint".to_string())];
    let mut run = new_run(&meta);
    let r = json_report(&run);
    assert_eq!(r.status, "pass");
    assert_eq!(r.total, 0);
    record_step(&mut run, 0, Ok(vec!["a.txt: oops".into(), "b.txt: oops".into()])).unwrap();
    record_step(&mut run, 1, Ok(vec!["c.yml: bad".into()])).unwrap();
    let r = json_report(&run);
    assert_eq!(r.status, "fail");
    assert_eq!(r.total, 3);
    assert_eq!(r.violations[0], ("a.txt: oops".to_string(), "unicode".to_string()));
    let mut by = r.by_check.clone();
    by.sort();
    assert_eq!(by, vec![("lint".to_string(), 1), ("unicode".to_string(), 2)]);
}

use git_warden::logger::{Level, Logger};

#[test]
fn default_shows_warnings_only() {
    let lg = Logger::new();
    assert!(lg.shows(Level::Warn));
    assert!(lg.shows(Level::Error));
    assert!(!lg.shows(Level::Info));
    assert_eq!(lg.info("hello", &[], false), None);
    assert_eq!(
        lg.warn("include: cannot read file, skipping", &[("path", "a.yml".to_string()), ("error", "gone".to_string())], false),
        Some("WARN include: cannot read file, skipping path=a.yml error=gone".to_string())
    );
    assert_eq!(lg.warn_msg("x", true), Some("\x1b[33mWARN\x1b[0m x".to_string()));
}

#[test]
fn settings_change_output() {
    let mut lg = Logger::new();
    lg.set_level(Level::Debug);
    assert_eq!(lg.debug("d", &[], false), Some("DEBU d".to_string()));
    lg.set_no_color(true);
    assert_eq!(lg.error("e", &[], true), Some("ERRO e".to_string()));
    lg.set_quiet(true);
    assert_eq!(lg.error("e", &[], true), None);
}

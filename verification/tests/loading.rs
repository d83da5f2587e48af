use git_warden::config::loading::{
    add_allowed_words, cache_key, cached_file_name, check_preset, clean_path, expand_tilde, gitdir_glob,
    gitdir_match, global_config_candidates, include_rule_applies, migration_needed, preset_key, resolve_include_path,
    resolve_includes, words_file_path, words_key,
};
use git_warden::config::schema::Version;
use git_warden::config::types::{AllowedWordsCacheConfig, Config, IncludeRule};

fn home() -> Option<String> {
    Some("/home/u".to_string())
}

#[test]
fn tilde_expansion() {
    assert_eq!(expand_tilde("~", &home()), "/home/u");
    assert_eq!(expand_tilde("~/x/y.yml", &home()), "/home/u/x/y.yml");
    assert_eq!(expand_tilde("~/x", &None), "~/x");
    assert_eq!(expand_tilde("~user/x", &home()), "~user/x");
    assert_eq!(expand_tilde("/abs", &home()), "/abs");
}

#[test]
fn path_cleaning() {
    assert_eq!(clean_path("/a/./b/../c//d/"), "/a/c/d");
    assert_eq!(clean_path("a/../../b"), "b");
    assert_eq!(clean_path("/.."), "/");
    assert_eq!(clean_path("./x"), "x");
    assert_eq!(resolve_include_path("base.yml", "conf/main.yml", &None), "conf/base.yml");
    assert_eq!(resolve_include_path("../shared.yml", "conf/main.yml", &None), "shared.yml");
    assert_eq!(resolve_include_path("/etc/w.yml", "conf/main.yml", &None), "/etc/w.yml");
    assert_eq!(resolve_include_path("~/w.yml", "main.yml", &home()), "/home/u/w.yml");
}

#[test]
fn gitdir_conditions() {
    assert_eq!(gitdir_glob("~/work/", &home()), "/home/u/work/**");
    assert_eq!(gitdir_glob("/src/*", &home()), "/src/*");
    assert!(gitdir_match("/home/u/work/proj", "/home/u/work/**"));
    assert!(!gitdir_match("/home/u/play/proj", "/home/u/work/**"));
    let rule = IncludeRule { path: "x.yml".into(), gitdir: "~/work/".into() };
    assert!(include_rule_applies(&rule, "/home/u/work/p", true));
    assert!(!include_rule_applies(&rule, "", true));
    assert!(!include_rule_applies(&rule, "/home/u/work/p", false));
    let empty = IncludeRule { path: String::new(), gitdir: String::new() };
    assert!(!include_rule_applies(&empty, "/x", true));
}

#[test]
fn includes_are_base_layers() {
    let mut cfg = Config::default();
    cfg.includes = vec![
        IncludeRule { path: "a.yml".into(), gitdir: String::new() },
        IncludeRule { path: "b.yml".into(), gitdir: "/nowhere/".into() },
        IncludeRule { path: "c.yml".into(), gitdir: String::new() },
    ];
    cfg.comment_language.locale = "english".into();
    let mut a = Config::default();
    a.comment_language.locale = "korean".into();
    a.comment_language.allowed_words = vec!["A".into()];
    let mut b = Config::default();
    b.comment_language.allowed_words = vec!["B".into()];
    let mut c = Config::default();
    c.comment_language.allowed_words = vec!["C".into()];
    c.comment_language.min_length = 9;
    let r = resolve_includes(&cfg, "/work", &[false, false, false], &[Some(a), Some(b), Some(c)]);
    assert_eq!(r.comment_language.locale, "english");
    assert_eq!(r.comment_language.allowed_words, vec!["A".to_string(), "C".to_string()]);
    assert_eq!(r.comment_language.min_length, 9);
    assert_eq!(r.includes.len(), 3);
    let r = resolve_includes(&cfg, "/work", &[false, false, false], &[None, None, None]);
    assert_eq!(r.comment_language.locale, "english");
}

#[test]
fn global_candidates_order() {
    let c = global_config_candidates(&Some("/x".into()), &Some("/cfg".into()), &home());
    assert_eq!(
        c,
        vec![
            "/x/git-warden/config.yaml",
            "/x/git-warden/config.yml",
            "/cfg/git-warden/config.yaml",
            "/cfg/git-warden/config.yml",
            "/home/u/.config/git-warden/config.yaml",
            "/home/u/.config/git-warden/config.yml",
            "/home/u/.git-warden.yml",
        ]
    );
    assert_eq!(global_config_candidates(&Some(String::new()), &None, &None), Vec::<String>::new());
}

#[test]
fn cache_keys() {
    let k = cache_key("https://example.com/words.txt", "words", "txt");
    assert!(k.starts_with("words_") && k.ends_with(".txt"));
    assert_eq!(k.len(), "words_".len() + 16 + ".txt".len());
    assert!(k[6..22].chars().all(|c| c.is_ascii_hexdigit() && !c.is_ascii_uppercase()));
    // SHA-256("abc") begins with ba7816bf8f01cfea.
    assert_eq!(cache_key("abc", "p", "e"), "p_ba7816bf8f01cfea.e");
    assert_eq!(words_key("abc"), "words_ba7816bf8f01cfea.txt");
    assert_eq!(preset_key("abc"), "preset_ba7816bf8f01cfea.yml");
    let off = AllowedWordsCacheConfig::default();
    assert_eq!(cached_file_name(&off, "abc", true), None);
    let on = AllowedWordsCacheConfig { enabled: Some(true), ..Default::default() };
    assert_eq!(cached_file_name(&on, "abc", false), Some("preset_ba7816bf8f01cfea.yml".to_string()));
}

#[test]
fn loading_steps() {
    assert!(migration_needed(Version::V100));
    assert!(!migration_needed(Version::Current));
    assert!(!migration_needed(Version::Unknown));
    let mut p = Config::default();
    p.includes = vec![IncludeRule { path: "x".into(), gitdir: String::new() }];
    assert_eq!(check_preset(&mut p), Ok(true));
    assert!(p.includes.is_empty());
    p.preset.url = "https://e/x.yml".into();
    assert_eq!(
        check_preset(&mut p),
        Err("presets cannot be nested (preset.url inside a preset is not allowed): https://e/x.yml".to_string())
    );
    assert_eq!(words_file_path("~/w.txt", &home()), "/home/u/w.txt");
    assert_eq!(words_file_path("w.txt", &home()), "w.txt");
    let mut cfg = Config::default();
    cfg.comment_language.allowed_words = vec!["Go".into()];
    add_allowed_words(&mut cfg, "Rust\n# note\n\n  Verus  \n");
    assert_eq!(cfg.comment_language.allowed_words, vec!["Go", "Rust", "Verus"]);
}

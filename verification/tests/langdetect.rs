use git_warden::langdetect::{
    dominant_language, has_cjk, has_natural_language_content, has_script, is_required_language,
    language_to_bcp47, locale_to_language, normalize_locale, strip_allowed_words, ANY, CHINESE,
    ENGLISH, JAPANESE,
    KOREAN,
};

fn ndr(text: &str, required: &str) -> (bool, bool) {
    is_required_language(text, required, 5, &[])
}

#[test]
fn required_language_korean() {
    let cases: &[(&str, bool, bool)] = &[
        ("이것은 한국어 주석입니다", true, true),
        ("변수 name을 설정합니다", true, true),
        ("This is an English comment", false, true),
        ("TODO", true, false),
        ("nolint:errcheck", true, false),
        ("hi", true, false),
        ("https://example.com/path", true, false),
    ];
    for (text, ok, content) in cases {
        assert_eq!(ndr(text, KOREAN), (*ok, *content), "text={text:?}");
    }
}

#[test]
fn required_language_any() {
    assert_eq!(ndr("anything goes here", ANY), (true, true));
}

#[test]
fn required_language_english() {
    assert_eq!(ndr("This is English", ENGLISH), (true, true));
    let (ok, _) = ndr("이것은 한국어입니다", ENGLISH);
    assert!(!ok);
}

#[test]
fn required_language_japanese() {
    let cases: &[(&str, bool, bool)] = &[
        ("これは日本語のコメントです", true, true),
        ("ユーザーデータを処理する", true, true),
        ("変数 name を設定する", true, true),
        ("이것은 한국어 주석입니다", false, true),
        ("This is an English comment", false, true),
        ("这是一个中文注释内容示例", false, true),
    ];
    for (text, ok, content) in cases {
        assert_eq!(ndr(text, JAPANESE), (*ok, *content), "text={text:?}");
    }
}

#[test]
fn required_language_chinese() {
    let cases: &[(&str, bool, bool)] = &[
        ("这是一个中文注释内容示例", true, true),
        ("处理 user 数据的函数", true, true),
        ("이것은 한국어 주석입니다", false, true),
        ("This is an English comment", false, true),
        ("これはひらがなのコメント", false, true),
    ];
    for (text, ok, content) in cases {
        assert_eq!(ndr(text, CHINESE), (*ok, *content), "text={text:?}");
    }
}

#[test]
fn cross_language() {
    let cases: &[(&str, &str, bool)] = &[
        ("이것은 한국어 주석입니다", KOREAN, true),
        ("이것은 한국어 주석입니다", JAPANESE, false),
        ("이것은 한국어 주석입니다", CHINESE, false),
        ("이것은 한국어 주석입니다", ENGLISH, false),
        ("これはひらがなとカタカナです", JAPANESE, true),
        ("これはひらがなとカタカナです", KOREAN, false),
        ("これはひらがなとカタカナです", CHINESE, false),
        ("これはひらがなとカタカナです", ENGLISH, false),
        ("これは日本語のコメントです", JAPANESE, true),
        ("これは日本語のコメントです", CHINESE, true),
        ("这是一个中文注释内容示例", CHINESE, true),
        ("这是一个中文注释内容示例", JAPANESE, false),
        ("这是一个中文注释内容示例", KOREAN, false),
        ("这是一个中文注释内容示例", ENGLISH, false),
        ("This is an English comment here", ENGLISH, true),
        ("This is an English comment here", KOREAN, false),
        ("This is an English comment here", JAPANESE, false),
        ("This is an English comment here", CHINESE, false),
    ];
    for (text, required, want_ok) in cases {
        let (ok, content) = ndr(text, required);
        assert!(content, "unexpected no-content for {text:?}");
        assert_eq!(ok, *want_ok, "text={text:?} required={required}");
    }
}

#[test]
fn dominant_detection() {
    assert_eq!(dominant_language("안녕하세요 반갑습니다"), KOREAN);
    assert_eq!(dominant_language("Hello world here"), ENGLISH);
    assert_eq!(dominant_language("これは日本語です"), JAPANESE);
    assert_eq!(dominant_language("这是中文内容示例"), CHINESE);
}

#[test]
fn locale_conversions() {
    assert_eq!(locale_to_language("ko"), KOREAN);
    assert_eq!(locale_to_language("zh-hant"), CHINESE);
    assert_eq!(locale_to_language("xx"), "");
    assert_eq!(normalize_locale(" KO "), KOREAN);
    assert_eq!(normalize_locale("korean"), KOREAN);
    assert_eq!(normalize_locale("nope"), "");
    assert_eq!(language_to_bcp47(KOREAN), "ko");
    assert_eq!(language_to_bcp47("any"), "any");
}

#[test]
fn dominant_unknown_for_digits() {
    assert_eq!(dominant_language("12345 !!"), "unknown");
    assert_eq!(ndr("12345 67890", KOREAN), (true, false));
}

#[test]
fn xml_doc_comment_has_no_content() {
    assert!(!has_natural_language_content("/ <summary></summary> <inheritdoc/>", 5, &[]));
    assert!(has_natural_language_content("/ <summary>hello</summary>", 5, &[]));
    assert!(!has_natural_language_content("<param name=\"x\"></param>", 5, &[]));
    assert!(has_natural_language_content("<b>text</b> outside the tags", 5, &[]));
}

#[test]
fn extra_skip_prefix_is_case_insensitive() {
    let extra = vec!["SPDX".to_string()];
    assert!(!has_natural_language_content("spdx-License-Identifier: MIT", 5, &extra));
    assert!(has_natural_language_content("License text goes here", 5, &extra));
}

#[test]
fn script_membership() {
    assert!(has_script("mixed 한국어 text", KOREAN));
    assert!(!has_script("plain text", KOREAN));
    assert!(!has_script("plain text", "klingon"));
    assert!(has_cjk("add 中文 content"));
    assert!(!has_cjk("plain ascii"));
}

#[test]
fn strip_allowed_words_boundaries() {
    let words = vec!["Java".to_string()];
    assert_eq!(
        strip_allowed_words("JavaScript 코드", &words),
        "JavaScript 코드"
    );
    assert_eq!(strip_allowed_words("Java 언어", &words), "     언어");
    let words2 = vec!["TypeScript".to_string(), "Type".to_string()];
    let out = strip_allowed_words("TypeScript 설정", &words2);
    assert_eq!(out, "           설정");
}

#[test]
fn normalize_locale_is_canonical() {
    for s in [" KO ", "korean", "English", "ja", "zh-Hant", "any", "ANY", "nope", "", "  ", "한국어"] {
        let r = normalize_locale(s);
        assert!(["", "korean", "english", "japanese", "chinese", "any"].contains(&r.as_str()), "{s}");
        assert_eq!(normalize_locale(&r), r, "{s}");
    }
    assert_eq!(normalize_locale(" KO "), "korean");
    assert_eq!(normalize_locale("nope"), "");
}

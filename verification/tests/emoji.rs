use git_warden::emoji::{contains_emoji, find_emojis, is_emoji};

#[test]
fn test_is_emoji() {
    let cases: &[(char, bool)] = &[
        ('A', false),
        ('가', false),
        ('あ', false),
        (' ', false),
        ('©', false),
        ('😀', true),
        ('🎉', true),
        ('🚀', true),
        ('❌', true),
        ('✅', true),
        ('⭐', true),
        ('🇰', true),
        ('🤔', true),
        ('👍', true),
        ('🔥', true),
        ('💡', true),
    ];
    for (r, want) in cases {
        assert_eq!(is_emoji(*r), *want, "is_emoji({r:?} U+{:04X})", *r as u32);
    }
}

#[test]
fn test_contains_emoji() {
    let cases: &[(&str, bool)] = &[
        ("hello world", false),
        ("변수 설정", false),
        ("fix: bug 수정", false),
        ("fix: 🐛 bug fix", true),
        ("feat: ✨ new feature", true),
        ("🚀 deploy", true),
        ("no emoji here! @#$%", false),
    ];
    for (text, want) in cases {
        assert_eq!(contains_emoji(text), *want, "contains_emoji({text:?})");
    }
}

#[test]
fn test_find_emojis() {
    let text = "line1 😀 text\nline2 🎉 more";
    let emojis = find_emojis(text);
    assert_eq!(emojis.len(), 2, "expected 2 emojis");
    assert_eq!(emojis[0].line, 1);
    assert_eq!(emojis[0].char, '😀');
    assert_eq!(emojis[1].line, 2);
    assert_eq!(emojis[1].char, '🎉');
}

#[test]
fn find_emojis_columns_and_codes() {
    let emojis = find_emojis("a😀\n\u{FE0F}b🎉");
    assert_eq!(emojis.len(), 2);
    assert_eq!((emojis[0].line, emojis[0].col, emojis[0].code), (1, 2, 0x1F600));
    assert_eq!((emojis[1].line, emojis[1].col, emojis[1].code), (2, 3, 0x1F389));
    assert!(!contains_emoji("\u{200D}\u{FE0F}"));
}

#[test]
fn contains_emoji_agrees_with_find_emojis() {
    for t in ["fix: 🐛 bug fix", "feat: ✨ new feature", "fix: bug 수정", "no emoji here! @#$%", "", "a\n🎉"] {
        assert_eq!(contains_emoji(t), !find_emojis(t).is_empty(), "{t}");
    }
}

//! Inline directives in source comments (case-insensitive, `git-warden:` prefix):
//! `disable`, `disable:lang=<L>`, `enable`, `ignore` (skips the next comment),
//! `lang=<L>` (the required language from here on) and `file-lang=<L>` (for the whole file).

use vstd::prelude::*;
use crate::comment::base::Comment;
use crate::langdetect::{locale_language, locale_to_language};
use crate::text::{has_prefix, lower_chars, lowercase, starts_with_str, string_of, trim, trim_seq};

verus! {

/// How a comment is handled once the directives before it are applied.
#[derive(Debug, Clone, Default, PartialEq, Eq)]
pub struct CommentState {
    /// Whether its language is not checked.
    pub skip: bool,
    /// The language it must be in.
    pub language: String,
}

/// A state as plain values: whether it is skipped, and its language.
pub open spec fn state_view(s: CommentState) -> (bool, Seq<char>) {
    (s.skip, s.language@)
}

pub open spec fn states_view(v: Seq<CommentState>) -> Seq<(bool, Seq<char>)> {
    v.map_values(|s: CommentState| state_view(s))
}

/// What the directives seen so far have set.
pub struct Directives {
    pub disabled: bool,
    pub disabled_lang: Seq<char>,
    pub skip_next: bool,
    pub lang_override: Seq<char>,
    pub file_lang: Seq<char>,
}

pub open spec fn no_directives() -> Directives {
    Directives {
        disabled: false,
        disabled_lang: Seq::empty(),
        skip_next: false,
        lang_override: Seq::empty(),
        file_lang: Seq::empty(),
    }
}

/// Whether a (trimmed) text is a directive.
pub open spec fn directive_text(t: Seq<char>) -> bool {
    has_prefix(lowercase(t), "git-warden:"@)
}

/// A language value: a locale code becomes the language's name; anything else is lower-cased.
pub open spec fn resolved_language(raw: Seq<char>) -> Seq<char> {
    let l = lowercase(trim_seq(raw));
    let m = locale_language(l);
    if m.len() > 0 {
        m
    } else {
        l
    }
}

/// The characters of `t` after the first `n` (none when it is shorter).
pub open spec fn after(t: Seq<char>, n: int) -> Seq<char> {
    if 0 <= n <= t.len() {
        t.skip(n)
    } else {
        Seq::empty()
    }
}

fn chars_after(t: &[char], n: usize) -> (r: Vec<char>)
    ensures
        r@ == after(t@, n as int),
{
    if n <= t.len() {
        crate::text::slice_chars(t, n, t.len())
    } else {
        Vec::new()
    }
}

/// The directives after the directive text `t`.
pub open spec fn apply_directive(d: Directives, t: Seq<char>) -> Directives {
    let l = lowercase(t);
    if has_prefix(l, "git-warden:file-lang="@) {
        Directives { file_lang: resolved_language(after(t, 21)), ..d }
    } else if has_prefix(l, "git-warden:disable:lang="@) {
        Directives { disabled: true, disabled_lang: resolved_language(after(t, 24)), ..d }
    } else if has_prefix(l, "git-warden:disable"@) {
        Directives { disabled: true, disabled_lang: Seq::empty(), ..d }
    } else if has_prefix(l, "git-warden:enable"@) {
        Directives { disabled: false, disabled_lang: Seq::empty(), ..d }
    } else if has_prefix(l, "git-warden:ignore"@) {
        Directives { skip_next: true, ..d }
    } else if has_prefix(l, "git-warden:lang="@) {
        Directives { lang_override: resolved_language(after(t, 16)), ..d }
    } else {
        d
    }
}

/// The state of an ordinary comment under the directives, and the directives after it
/// (an `ignore` is used up by the comment it skips; a disable uses it up too unless a file
/// language is set). An empty language stands for the default.
pub open spec fn ordinary_state(d: Directives) -> ((bool, Seq<char>), Directives) {
    if d.file_lang.len() > 0 {
        if d.disabled {
            ((d.disabled_lang.len() == 0, d.disabled_lang), d)
        } else if d.skip_next {
            ((true, Seq::empty()), Directives { skip_next: false, ..d })
        } else {
            ((false, if d.lang_override.len() > 0 {
                d.lang_override
            } else {
                d.file_lang
            }), d)
        }
    } else if d.disabled {
        ((d.disabled_lang.len() == 0, d.disabled_lang), Directives { skip_next: false, ..d })
    } else if d.skip_next {
        ((true, Seq::empty()), Directives { skip_next: false, ..d })
    } else {
        ((false, d.lang_override), d)
    }
}

/// The states of the (trimmed) texts, before defaults are filled in, and the directives
/// after them. Directives themselves are always skipped.
pub open spec fn analyze_prefix(ts: Seq<Seq<char>>) -> (Seq<(bool, Seq<char>)>, Directives)
    decreases ts.len(),
{
    if ts.len() == 0 {
        (Seq::empty(), no_directives())
    } else {
        let (acc, d) = analyze_prefix(ts.drop_last());
        let t = ts.last();
        if directive_text(t) {
            (acc.push((true, Seq::empty())), apply_directive(d, t))
        } else {
            let (st, d2) = ordinary_state(d);
            (acc.push(st), d2)
        }
    }
}

pub proof fn lemma_analyze_prefix_len(ts: Seq<Seq<char>>)
    ensures
        analyze_prefix(ts).0.len() == ts.len(),
    decreases ts.len(),
{
    if ts.len() > 0 {
        lemma_analyze_prefix_len(ts.drop_last());
    }
}

/// A checked state without a language gets the default one.
pub open spec fn with_default(s: (bool, Seq<char>), default_lang: Seq<char>) -> (bool, Seq<char>) {
    if !s.0 && s.1.len() == 0 {
        (false, default_lang)
    } else {
        s
    }
}

pub open spec fn trimmed_texts(cs: Seq<Comment>) -> Seq<Seq<char>> {
    cs.map_values(|c: Comment| trim_seq(c.text@))
}

/// The state of each comment, in source order.
pub open spec fn analyze_spec(cs: Seq<Comment>, default_lang: Seq<char>) -> Seq<(bool, Seq<char>)> {
    analyze_prefix(trimmed_texts(cs)).0.map_values(|s: (bool, Seq<char>)| with_default(s, default_lang))
}

fn resolve_language(raw: &[char]) -> (r: Vec<char>)
    ensures
        r@ == resolved_language(raw@),
{
    let l = lower_chars(&trim(raw));
    let ls = string_of(&l);
    let m = locale_to_language(ls.as_str());
    if !crate::text::is_empty_str(m) {
        crate::text::chars_of(m)
    } else {
        l
    }
}

/// Whether the comment text is a directive (see `directive_text`).
pub fn is_directive(text: &str) -> (r: bool)
    ensures
        r == directive_text(trim_seq(text@)),
{
    let t = crate::text::trim_str(text);
    starts_with_str(&lower_chars(&t), "git-warden:")
}

/// The states of the comments in order: each directive is skipped and changes the states of
/// the comments after it (see `analyze_spec`).
pub fn analyze(comments: &[Comment], default_lang: &str) -> (r: Vec<CommentState>)
    ensures
        states_view(r@) == analyze_spec(comments@, default_lang@),
        r@.len() == comments@.len(),
{
    let ghost ts = trimmed_texts(comments@);
    let mut raw: Vec<CommentState> = Vec::new();
    let mut disabled = false;
    let mut disabled_lang: Vec<char> = Vec::new();
    let mut skip_next = false;
    let mut lang_override: Vec<char> = Vec::new();
    let mut file_lang: Vec<char> = Vec::new();
    let mut i: usize = 0;
    proof {
        assert(states_view(raw@) =~= Seq::<(bool, Seq<char>)>::empty());
        assert(ts.take(0) =~= Seq::<Seq<char>>::empty());
        assert(disabled_lang@ =~= Seq::<char>::empty());
        assert(lang_override@ =~= Seq::<char>::empty());
        assert(file_lang@ =~= Seq::<char>::empty());
    }
    while i < comments.len()
        invariant
            i <= comments@.len(),
            ts == trimmed_texts(comments@),
            analyze_prefix(ts.take(i as int)) == (
                states_view(raw@),
                Directives {
                    disabled,
                    disabled_lang: disabled_lang@,
                    skip_next,
                    lang_override: lang_override@,
                    file_lang: file_lang@,
                },
            ),
        decreases comments.len() - i,
    {
        let text = crate::text::trim_str(comments[i].text.as_str());
        proof {
            assert(ts.take(i + 1).drop_last() =~= ts.take(i as int));
            assert(ts.take(i + 1).last() == text@);
        }
        let ghost before = states_view(raw@);
        let lower = lower_chars(&text);
        if starts_with_str(&lower, "git-warden:") {
            raw.push(CommentState { skip: true, language: String::new() });
            proof {
                reveal_strlit("git-warden:file-lang=");
                reveal_strlit("git-warden:disable:lang=");
                reveal_strlit("git-warden:lang=");
            }
            if starts_with_str(&lower, "git-warden:file-lang=") {
                file_lang = resolve_language(&chars_after(&text, 21));
            } else if starts_with_str(&lower, "git-warden:disable:lang=") {
                disabled = true;
                disabled_lang = resolve_language(&chars_after(&text, 24));
            } else if starts_with_str(&lower, "git-warden:disable") {
                disabled = true;
                disabled_lang = Vec::new();
            } else if starts_with_str(&lower, "git-warden:enable") {
                disabled = false;
                disabled_lang = Vec::new();
            } else if starts_with_str(&lower, "git-warden:ignore") {
                skip_next = true;
            } else if starts_with_str(&lower, "git-warden:lang=") {
                lang_override = resolve_language(&chars_after(&text, 16));
            }
        } else if file_lang.len() > 0 {
            if disabled {
                raw.push(
                    CommentState { skip: disabled_lang.len() == 0, language: string_of(&disabled_lang) },
                );
            } else if skip_next {
                raw.push(CommentState { skip: true, language: String::new() });
                skip_next = false;
            } else {
                let l = if lang_override.len() > 0 {
                    string_of(&lang_override)
                } else {
                    string_of(&file_lang)
                };
                raw.push(CommentState { skip: false, language: l });
            }
        } else if disabled {
            raw.push(CommentState { skip: disabled_lang.len() == 0, language: string_of(&disabled_lang) });
            skip_next = false;
        } else if skip_next {
            raw.push(CommentState { skip: true, language: String::new() });
            skip_next = false;
        } else {
            raw.push(CommentState { skip: false, language: string_of(&lang_override) });
        }
        proof {
            assert(states_view(raw@) =~= before.push(state_view(raw@.last())));
        }
        i += 1;
    }
    proof {
        assert(ts.take(comments@.len() as int) =~= ts);
    }
    proof {
        lemma_analyze_prefix_len(ts);
    }
    let ghost target = analyze_spec(comments@, default_lang@);
    let ghost rv = states_view(raw@);
    let mut out: Vec<CommentState> = Vec::new();
    let mut k: usize = 0;
    while k < raw.len()
        invariant
            k <= raw@.len(),
            rv == states_view(raw@),
            rv.len() == target.len(),
            rv.len() == raw@.len(),
            out@.len() == k,
            forall|j: int| 0 <= j < rv.len() ==> #[trigger] target[j] == with_default(rv[j], default_lang@),
            states_view(out@) == target.take(k as int),
        decreases raw.len() - k,
    {
        let s = &raw[k];
        let ns = if !s.skip && crate::text::is_empty_str(s.language.as_str()) {
            CommentState { skip: false, language: crate::text::owned(default_lang) }
        } else {
            CommentState { skip: s.skip, language: s.language.clone() }
        };
        let ghost prev = out@;
        out.push(ns);
        proof {
            assert(state_view(ns) == target[k as int]);
            assert(out@ == prev.push(ns));
            assert(states_view(out@) =~= target.take(k + 1));
        }
        k += 1;
    }
    proof {
        assert(target.take(raw@.len() as int) =~= target);
    }
    out
}


/// The states of extracted items (see `analyze_spec`).
pub open spec fn item_states(its: Seq<crate::comment::base::Item>, default_lang: Seq<char>) -> Seq<(bool, Seq<char>)> {
    analyze_prefix(its.map_values(|it: crate::comment::base::Item| trim_seq(it.text))).0.map_values(
        |s: (bool, Seq<char>)| with_default(s, default_lang),
    )
}

/// The states of comments depend on their texts alone.
pub proof fn lemma_analyze_items(cs: Seq<Comment>, default_lang: Seq<char>)
    ensures
        analyze_spec(cs, default_lang) == item_states(crate::comment::base::items(cs), default_lang),
{
    assert(trimmed_texts(cs) =~= crate::comment::base::items(cs).map_values(
        |it: crate::comment::base::Item| trim_seq(it.text),
    ));
}

proof fn lemma_prefix_char(l: Seq<char>, p: Seq<char>, k: int)
    requires
        has_prefix(l, p),
        0 <= k < p.len(),
    ensures
        l[k] == p[k],
{
    assert(l.take(p.len() as int)[k] == l[k]);
}

/// An `ignore` directive skips exactly the next comment: outside a disabled region, with or
/// without a file language, the comment after it is skipped and the one after that is
/// checked again.
pub proof fn law_ignore_skips_only_next(pre: Seq<Seq<char>>, ign: Seq<char>, c1: Seq<char>, c2: Seq<char>)
    requires
        !analyze_prefix(pre).1.disabled,
        has_prefix(lowercase(ign), "git-warden:ignore"@),
        !directive_text(c1),
        !directive_text(c2),
    ensures
        analyze_prefix(pre + seq![ign, c1, c2]).0[pre.len() as int] == (true, Seq::<char>::empty()),
        analyze_prefix(pre + seq![ign, c1, c2]).0[pre.len() as int + 1] == (true, Seq::<char>::empty()),
        !analyze_prefix(pre + seq![ign, c1, c2]).0[pre.len() as int + 2].0,
{
    let ts = pre + seq![ign, c1, c2];
    let l = lowercase(ign);
    reveal_strlit("git-warden:ignore");
    reveal_strlit("git-warden:file-lang=");
    reveal_strlit("git-warden:disable:lang=");
    reveal_strlit("git-warden:disable");
    reveal_strlit("git-warden:enable");
    reveal_strlit("git-warden:");
    lemma_prefix_char(l, "git-warden:ignore"@, 11);
    assert(has_prefix(l, "git-warden:"@)) by {
        assert(l.take(11) =~= "git-warden:"@) by {
            assert forall|k: int| 0 <= k < 11 implies l.take(11)[k] == "git-warden:"@[k] by {
                lemma_prefix_char(l, "git-warden:ignore"@, k);
            }
        }
    }
    assert(!has_prefix(l, "git-warden:file-lang="@)) by {
        if has_prefix(l, "git-warden:file-lang="@) {
            lemma_prefix_char(l, "git-warden:file-lang="@, 11);
        }
    }
    assert(!has_prefix(l, "git-warden:disable:lang="@)) by {
        if has_prefix(l, "git-warden:disable:lang="@) {
            lemma_prefix_char(l, "git-warden:disable:lang="@, 11);
        }
    }
    assert(!has_prefix(l, "git-warden:disable"@)) by {
        if has_prefix(l, "git-warden:disable"@) {
            lemma_prefix_char(l, "git-warden:disable"@, 11);
        }
    }
    assert(!has_prefix(l, "git-warden:enable"@)) by {
        if has_prefix(l, "git-warden:enable"@) {
            lemma_prefix_char(l, "git-warden:enable"@, 11);
        }
    }
    let d0 = analyze_prefix(pre).1;
    let d1 = apply_directive(d0, ign);
    assert(d1 == Directives { skip_next: true, ..d0 });
    assert(ts.drop_last().drop_last().drop_last() =~= pre);
    assert(ts.drop_last().drop_last() =~= pre.push(ign));
    assert(ts.drop_last() =~= pre.push(ign).push(c1));
    lemma_analyze_prefix_len(pre);
    lemma_analyze_prefix_len(pre.push(ign));
    lemma_analyze_prefix_len(pre.push(ign).push(c1));
    assert(directive_text(ign));
    assert(analyze_prefix(pre.push(ign)).1 == d1);
    assert(analyze_prefix(pre.push(ign).push(c1)).1 == Directives { skip_next: false, ..d1 });
}

/// A `disable` directive (without a language) skips every comment after it until an
/// `enable` directive, after which comments are checked again.
pub proof fn law_disable_until_enable(
    pre: Seq<Seq<char>>,
    dis: Seq<char>,
    c1: Seq<char>,
    en: Seq<char>,
    c2: Seq<char>,
)
    requires
        !analyze_prefix(pre).1.skip_next,
        has_prefix(lowercase(dis), "git-warden:disable"@),
        !has_prefix(lowercase(dis), "git-warden:disable:lang="@),
        has_prefix(lowercase(en), "git-warden:enable"@),
        !directive_text(c1),
        !directive_text(c2),
    ensures
        analyze_prefix(pre + seq![dis, c1, en, c2]).0[pre.len() as int + 1] == (true, Seq::<char>::empty()),
        !analyze_prefix(pre + seq![dis, c1, en, c2]).0[pre.len() as int + 3].0,
{
    let ts = pre + seq![dis, c1, en, c2];
    let ld = lowercase(dis);
    let le = lowercase(en);
    reveal_strlit("git-warden:file-lang=");
    reveal_strlit("git-warden:disable:lang=");
    reveal_strlit("git-warden:disable");
    reveal_strlit("git-warden:enable");
    reveal_strlit("git-warden:");
    lemma_prefix_char(ld, "git-warden:disable"@, 11);
    lemma_prefix_char(le, "git-warden:enable"@, 11);
    assert(has_prefix(ld, "git-warden:"@)) by {
        assert(ld.take(11) =~= "git-warden:"@) by {
            assert forall|k: int| 0 <= k < 11 implies ld.take(11)[k] == "git-warden:"@[k] by {
                lemma_prefix_char(ld, "git-warden:disable"@, k);
            }
        }
    }
    assert(has_prefix(le, "git-warden:"@)) by {
        assert(le.take(11) =~= "git-warden:"@) by {
            assert forall|k: int| 0 <= k < 11 implies le.take(11)[k] == "git-warden:"@[k] by {
                lemma_prefix_char(le, "git-warden:enable"@, k);
            }
        }
    }
    assert(!has_prefix(ld, "git-warden:file-lang="@)) by {
        if has_prefix(ld, "git-warden:file-lang="@) {
            lemma_prefix_char(ld, "git-warden:file-lang="@, 11);
        }
    }
    assert(!has_prefix(le, "git-warden:file-lang="@)) by {
        if has_prefix(le, "git-warden:file-lang="@) {
            lemma_prefix_char(le, "git-warden:file-lang="@, 11);
        }
    }
    assert(!has_prefix(le, "git-warden:disable:lang="@)) by {
        if has_prefix(le, "git-warden:disable:lang="@) {
            lemma_prefix_char(le, "git-warden:disable:lang="@, 11);
        }
    }
    assert(!has_prefix(le, "git-warden:disable"@)) by {
        if has_prefix(le, "git-warden:disable"@) {
            lemma_prefix_char(le, "git-warden:disable"@, 11);
        }
    }
    let d0 = analyze_prefix(pre).1;
    let d1 = apply_directive(d0, dis);
    assert(d1 == Directives { disabled: true, disabled_lang: Seq::empty(), ..d0 });
    assert(ts.drop_last().drop_last().drop_last().drop_last() =~= pre);
    assert(ts.drop_last().drop_last().drop_last() =~= pre.push(dis));
    assert(ts.drop_last().drop_last() =~= pre.push(dis).push(c1));
    assert(ts.drop_last() =~= pre.push(dis).push(c1).push(en));
    lemma_analyze_prefix_len(pre);
    lemma_analyze_prefix_len(pre.push(dis));
    lemma_analyze_prefix_len(pre.push(dis).push(c1));
    lemma_analyze_prefix_len(pre.push(dis).push(c1).push(en));
    assert(directive_text(dis));
    assert(directive_text(en));
    assert(analyze_prefix(pre.push(dis)).1 == d1);
    let d2 = analyze_prefix(pre.push(dis).push(c1)).1;
    assert(!d2.skip_next);
    let d3 = apply_directive(d2, en);
    assert(!d3.disabled && !d3.skip_next);
    assert(analyze_prefix(pre.push(dis).push(c1).push(en)).1 == d3);
}

/// The same for the comments themselves: after an `ignore` directive outside a disabled
/// region, the next comment is skipped with no language and the one after it is checked.
pub proof fn law_analyze_ignore_skips_only_next(
    pre: Seq<Comment>,
    ign: Comment,
    c1: Comment,
    c2: Comment,
    default_lang: Seq<char>,
)
    requires
        !analyze_prefix(trimmed_texts(pre)).1.disabled,
        has_prefix(lowercase(trim_seq(ign.text@)), "git-warden:ignore"@),
        !directive_text(trim_seq(c1.text@)),
        !directive_text(trim_seq(c2.text@)),
    ensures
        analyze_spec(pre + seq![ign, c1, c2], default_lang)[pre.len() as int + 1] == (true, Seq::<char>::empty()),
        !analyze_spec(pre + seq![ign, c1, c2], default_lang)[pre.len() as int + 2].0,
{
    let cs = pre + seq![ign, c1, c2];
    let tp = trimmed_texts(pre);
    assert(trimmed_texts(cs) =~= tp + seq![trim_seq(ign.text@), trim_seq(c1.text@), trim_seq(c2.text@)]);
    law_ignore_skips_only_next(tp, trim_seq(ign.text@), trim_seq(c1.text@), trim_seq(c2.text@));
    lemma_analyze_prefix_len(trimmed_texts(cs));
}

} // verus!

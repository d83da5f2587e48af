//! Readable messages for configuration parse errors, with a hint and an example for the
//! sections that must be mappings.

use vstd::prelude::*;
use crate::messages::{arg_views, message, tr};
use crate::text::{
    alphanumeric, chars_of, extend_chars, find, find_seq, has_prefix, is_alphanumeric, is_whitespace, is_ws,
    slice_chars, split, split_seq, starts_with, string_of, trim, trim_end, trim_end_seq, trim_seq, trim_start,
    trim_start_seq,
};

verus! {

/// The field a configuration section is written under, and a correct example of it.
pub struct FieldHint {
    pub field: String,
    pub example: String,
}

/// The hint for a section by the name of its type in the error.
pub open spec fn type_hint_spec(name: Seq<char>) -> Option<(Seq<char>, Seq<char>)> {
    if name == "LintRuleConfig"@ {
        Some(("lint.yaml or lint.xml"@, "lint:\n  yaml:\n    enabled: true\n  xml:\n    enabled: true"@))
    } else if name == "JsonLintConfig"@ {
        Some(("lint.json"@, "lint:\n  json:\n    enabled: true\n    allow_json5: false"@))
    } else if name == "LintConfig"@ {
        Some(("lint"@, "lint:\n  enabled: true\n  yaml:\n    enabled: true"@))
    } else if name == "BinaryFileConfig"@ {
        Some(("binary_file"@, "binary_file:\n  enabled: true"@))
    } else if name == "EncodingConfig"@ {
        Some(("encoding"@, "encoding:\n  enabled: true\n  require_utf8: true"@))
    } else if name == "EditorConfigConfig"@ {
        Some(("editorconfig"@, "editorconfig:\n  enabled: true"@))
    } else if name == "CommentLanguageConfig"@ {
        Some(("comment_language"@, "comment_language:\n  enabled: true\n  required_language: korean"@))
    } else if name == "CommitMessageConfig"@ {
        Some(("commit_message"@, "commit_message:\n  enabled: true\n  no_ai_coauthor: true"@))
    } else if name == "ConventionalCommitConfig"@ {
        Some(("commit_message.conventional_commit"@, "commit_message:\n  conventional_commit:\n    enabled: true"@))
    } else if name == "CommitMessageLanguageConfig"@ {
        Some(
            (
                "commit_message.language_check"@,
                "commit_message:\n  language_check:\n    enabled: true\n    required_language: korean"@,
            ),
        )
    } else {
        None
    }
}

fn hint(field: &str, example: &str) -> (r: Option<FieldHint>)
    ensures
        r matches Some(h) && h.field@ == field@ && h.example@ == example@,
{
    Some(FieldHint { field: field.to_string(), example: example.to_string() })
}

/// The hint for a section by the name of its type (see `type_hint_spec`).
pub fn type_hint(name: &str) -> (r: Option<FieldHint>)
    ensures
        match (r, type_hint_spec(name@)) {
            (Some(h), Some(s)) => h.field@ == s.0 && h.example@ == s.1,
            (None, None) => true,
            _ => false,
        },
{
    let eq = |a: &str| -> (b: bool) ensures b == (name@ == a@) { crate::text::str_eq(name, a) };
    if eq("LintRuleConfig") {
        hint("lint.yaml or lint.xml", "lint:\n  yaml:\n    enabled: true\n  xml:\n    enabled: true")
    } else if eq("JsonLintConfig") {
        hint("lint.json", "lint:\n  json:\n    enabled: true\n    allow_json5: false")
    } else if eq("LintConfig") {
        hint("lint", "lint:\n  enabled: true\n  yaml:\n    enabled: true")
    } else if eq("BinaryFileConfig") {
        hint("binary_file", "binary_file:\n  enabled: true")
    } else if eq("EncodingConfig") {
        hint("encoding", "encoding:\n  enabled: true\n  require_utf8: true")
    } else if eq("EditorConfigConfig") {
        hint("editorconfig", "editorconfig:\n  enabled: true")
    } else if eq("CommentLanguageConfig") {
        hint("comment_language", "comment_language:\n  enabled: true\n  required_language: korean")
    } else if eq("CommitMessageConfig") {
        hint("commit_message", "commit_message:\n  enabled: true\n  no_ai_coauthor: true")
    } else if eq("ConventionalCommitConfig") {
        hint("commit_message.conventional_commit", "commit_message:\n  conventional_commit:\n    enabled: true")
    } else if eq("CommitMessageLanguageConfig") {
        hint(
            "commit_message.language_check",
            "commit_message:\n  language_check:\n    enabled: true\n    required_language: korean",
        )
    } else {
        None
    }
}

/// The text after the first occurrence of `p`.
pub open spec fn after(s: Seq<char>, p: Seq<char>) -> Option<Seq<char>> {
    match find_seq(s, p) {
        Some(i) => Some(s.skip(i + p.len())),
        None => None,
    }
}

/// The text before the first occurrence of `p` (all of it when there is none).
pub open spec fn before(s: Seq<char>, p: Seq<char>) -> Seq<char> {
    match find_seq(s, p) {
        Some(i) => s.take(i),
        None => s,
    }
}

fn after_exec(s: &[char], p: &str) -> (r: Option<Vec<char>>)
    ensures
        match (r, after(s@, p@)) {
            (Some(v), Some(w)) => v@ == w,
            (None, None) => true,
            _ => false,
        },
{
    let pc = chars_of(p);
    proof {
        crate::text::lemma_find_seq(s@, p@);
    }
    match find(s, &pc) {
        Some(i) => {
            assert(crate::text::occurs_at(s@, p@, i as int));
            let sl = s.len();
            let v = slice_chars(s, i + pc.len(), sl);
            assert(v@ =~= s@.skip(i + p@.len()));
            Some(v)
        },
        None => None,
    }
}

fn before_exec(s: &[char], p: &str) -> (r: Vec<char>)
    ensures
        r@ == before(s@, p@),
{
    let pc = chars_of(p);
    proof {
        crate::text::lemma_find_seq(s@, p@);
    }
    match find(s, &pc) {
        Some(i) => {
            let v = slice_chars(s, 0, i);
            assert(v@ =~= s@.take(i as int));
            v
        },
        None => crate::text::copy_chars(s),
    }
}

/// The run of ASCII digits at the start of `s`.
pub open spec fn digits_prefix(s: Seq<char>) -> Seq<char>
    decreases s.len(),
{
    if s.len() > 0 && '0' <= s[0] <= '9' {
        seq![s[0]] + digits_prefix(s.skip(1))
    } else {
        Seq::empty()
    }
}

/// The line number after `at line `, or `?` when there is none.
pub open spec fn extract_line_spec(err: Seq<char>) -> Seq<char> {
    match after(err, "at line "@) {
        Some(rest) => if digits_prefix(rest).len() > 0 {
            digits_prefix(rest)
        } else {
            "?"@
        },
        None => "?"@,
    }
}

/// The line number in an error (see `extract_line_spec`).
pub fn extract_line(err: &str) -> (r: String)
    ensures
        r@ == extract_line_spec(err@),
{
    let e = chars_of(err);
    match after_exec(&e, "at line ") {
        Some(rest) => {
            assert(rest@.skip(0) =~= rest@);
            assert(rest@.take(0) =~= Seq::<char>::empty());
            let mut n: usize = 0;
            while n < rest.len() && '0' <= rest[n] && rest[n] <= '9'
                invariant
                    n <= rest@.len(),
                    digits_prefix(rest@) == rest@.take(n as int) + digits_prefix(rest@.skip(n as int)),
                decreases rest.len() - n,
            {
                assert(rest@.take(n + 1) =~= rest@.take(n as int) + seq![rest@[n as int]]);
                assert(rest@.skip(n as int).skip(1) =~= rest@.skip(n + 1));
                n += 1;
            }
            assert(digits_prefix(rest@.skip(n as int)) =~= Seq::<char>::empty());
            if n > 0 {
                let d = slice_chars(&rest, 0, n);
                assert(d@ =~= digits_prefix(rest@));
                string_of(&d)
            } else {
                assert(digits_prefix(rest@) =~= rest@.take(0));
                proof {
                    reveal_strlit("?");
                }
                "?".to_string()
            }
        },
        None => {
            proof {
                reveal_strlit("?");
            }
            "?".to_string()
        },
    }
}

/// The end of the first word of `s` from `i` (the next whitespace or the end).
pub open spec fn word_end(s: Seq<char>, i: int) -> int
    decreases s.len() - i,
{
    if 0 <= i < s.len() && !is_ws(s[i]) {
        word_end(s, i + 1)
    } else {
        i
    }
}

/// The short YAML name of a type described in an error: a fixed table, else the first word
/// of the description (the description itself when it has none).
pub open spec fn map_yaml_type_spec(t: Seq<char>) -> Seq<char> {
    if t == "boolean"@ {
        "bool"@
    } else if t == "string"@ {
        "str"@
    } else if t == "integer"@ {
        "int"@
    } else if t == "floating point"@ {
        "float"@
    } else if t == "sequence"@ {
        "seq"@
    } else if t == "map"@ {
        "map"@
    } else if t == "unit value"@ || t == "null"@ {
        "null"@
    } else {
        let u = trim_start_seq(t);
        if u.len() == 0 {
            t
        } else {
            u.take(word_end(u, 0))
        }
    }
}

proof fn lemma_word_end(s: Seq<char>, i: int)
    requires
        0 <= i <= s.len(),
    ensures
        i <= word_end(s, i) <= s.len(),
    decreases s.len() - i,
{
    if i < s.len() && !is_ws(s[i]) {
        lemma_word_end(s, i + 1);
    }
}

/// The short YAML name of a type (see `map_yaml_type_spec`).
pub fn map_yaml_type(t: &str) -> (r: String)
    ensures
        r@ == map_yaml_type_spec(t@),
{
    let eq = |a: &str| -> (b: bool) ensures b == (t@ == a@) { crate::text::str_eq(t, a) };
    if eq("boolean") {
        "bool".to_string()
    } else if eq("string") {
        "str".to_string()
    } else if eq("integer") {
        "int".to_string()
    } else if eq("floating point") {
        "float".to_string()
    } else if eq("sequence") {
        "seq".to_string()
    } else if eq("map") {
        "map".to_string()
    } else if eq("unit value") || eq("null") {
        "null".to_string()
    } else {
        let u = trim_start(&chars_of(t));
        if u.len() == 0 {
            t.to_string()
        } else {
            proof {
                lemma_word_end(u@, 0);
            }
            let mut k: usize = 0;
            while k < u.len() && !is_whitespace(u[k])
                invariant
                    k <= u@.len(),
                    word_end(u@, k as int) == word_end(u@, 0),
                decreases u.len() - k,
            {
                k += 1;
            }
            let w = slice_chars(&u, 0, k);
            assert(w@ =~= u@.take(k as int));
            string_of(&w)
        }
    }
}

/// The type and the value in `invalid type: <type> <value>, expected ...`; the value is the
/// text in backticks or double quotes.
pub open spec fn extract_type_value_spec(err: Seq<char>) -> (Seq<char>, Seq<char>) {
    match after(err, "invalid type: "@) {
        None => (Seq::empty(), Seq::empty()),
        Some(rest) => {
            let seg = before(rest, ", expected"@);
            match find_seq(seg, seq!['`']) {
                Some(b) => (map_yaml_type_spec(trim_seq(seg.take(b))), before(seg.skip(b + 1), "`"@)),
                None => match find_seq(seg, seq!['"']) {
                    Some(q) => (map_yaml_type_spec(trim_seq(seg.take(q))), before(seg.skip(q + 1), "\""@)),
                    None => (map_yaml_type_spec(trim_seq(seg)), Seq::empty()),
                },
            }
        },
    }
}

fn quoted_part(seg: &Vec<char>, q: char, qs: &str) -> (r: Option<(String, String)>)
    requires
        qs@ == seq![q],
    ensures
        match (r, find_seq(seg@, seq![q])) {
            (Some(tv), Some(b)) => tv.0@ == map_yaml_type_spec(trim_seq(seg@.take(b))) && tv.1@ == before(
                seg@.skip(b + 1),
                qs@,
            ),
            (None, None) => true,
            _ => false,
        },
{
    let qv = vec![q];
    assert(qv@ =~= seq![q]);
    proof {
        crate::text::lemma_find_seq(seg@, seq![q]);
    }
    match find(seg, &qv) {
        Some(b) => {
            assert(crate::text::occurs_at(seg@, seq![q], b as int));
            let head = slice_chars(seg, 0, b);
            assert(head@ =~= seg@.take(b as int));
            let sl = seg.len();
            let tail = slice_chars(seg, b + 1, sl);
            assert(tail@ =~= seg@.skip(b + 1));
            let t = map_yaml_type(string_of(&trim(&head)).as_str());
            let v = string_of(&before_exec(&tail, qs));
            Some((t, v))
        },
        None => None,
    }
}

/// The type and the value of a type error (see `extract_type_value_spec`).
pub fn extract_type_value(err: &str) -> (r: (String, String))
    ensures
        (r.0@, r.1@) == extract_type_value_spec(err@),
{
    let e = chars_of(err);
    match after_exec(&e, "invalid type: ") {
        None => (String::new(), String::new()),
        Some(rest) => {
            let seg = before_exec(&rest, ", expected");
            proof {
                reveal_strlit("`");
                reveal_strlit("\"");
                assert("`"@ =~= seq!['`']);
                assert("\""@ =~= seq!['"']);
            }
            match quoted_part(&seg, '`', "`") {
                Some(tv) => tv,
                None => match quoted_part(&seg, '"', "\"") {
                    Some(tv) => tv,
                    None => (map_yaml_type(string_of(&trim(&seg)).as_str()), String::new()),
                },
            }
        },
    }
}

pub open spec fn is_name_char(c: char) -> bool {
    alphanumeric(c) || c == '_'
}

/// The end of the run of name characters from `i`.
pub open spec fn name_end(s: Seq<char>, i: int) -> int
    decreases s.len() - i,
{
    if 0 <= i < s.len() && is_name_char(s[i]) {
        name_end(s, i + 1)
    } else {
        i
    }
}

proof fn lemma_name_end(s: Seq<char>, i: int)
    requires
        0 <= i <= s.len(),
    ensures
        i <= name_end(s, i) <= s.len(),
    decreases s.len() - i,
{
    if i < s.len() && is_name_char(s[i]) {
        lemma_name_end(s, i + 1);
    }
}

/// The type name after `expected struct `, when there is one.
pub open spec fn extract_expected_struct_spec(err: Seq<char>) -> Option<Seq<char>> {
    match after(err, "expected struct "@) {
        Some(rest) => if name_end(rest, 0) > 0 {
            Some(rest.take(name_end(rest, 0)))
        } else {
            None
        },
        None => None,
    }
}

/// The expected type name of a type error (see `extract_expected_struct_spec`).
pub fn extract_expected_struct(err: &str) -> (r: Option<String>)
    ensures
        match (r, extract_expected_struct_spec(err@)) {
            (Some(v), Some(w)) => v@ == w,
            (None, None) => true,
            _ => false,
        },
{
    let e = chars_of(err);
    match after_exec(&e, "expected struct ") {
        Some(rest) => {
            proof {
                lemma_name_end(rest@, 0);
            }
            let mut k: usize = 0;
            while k < rest.len() && (is_alphanumeric(rest[k]) || rest[k] == '_')
                invariant
                    k <= rest@.len(),
                    name_end(rest@, k as int) == name_end(rest@, 0),
                decreases rest.len() - k,
            {
                k += 1;
            }
            if k > 0 {
                let w = slice_chars(&rest, 0, k);
                assert(w@ =~= rest@.take(k as int));
                Some(string_of(&w))
            } else {
                None
            }
        },
        None => None,
    }
}

/// `s` with every leading repetition of `p` removed.
pub open spec fn strip_repeated(s: Seq<char>, p: Seq<char>) -> Seq<char>
    decreases s.len(),
{
    if p.len() > 0 && has_prefix(s, p) {
        strip_repeated(s.skip(p.len() as int), p)
    } else {
        s
    }
}

fn strip_repeated_exec(s: &Vec<char>, p: &str) -> (r: Vec<char>)
    ensures
        r@ == strip_repeated(s@, p@),
{
    let pc = chars_of(p);
    let mut cur = crate::text::copy_chars(s);
    while pc.len() > 0 && starts_with(&cur, &pc)
        invariant
            pc@ == p@,
            strip_repeated(cur@, p@) == strip_repeated(s@, p@),
        decreases cur.len(),
    {
        cur = slice_chars(&cur, pc.len(), cur.len());
    }
    cur
}

/// The expected type of a type error that names no struct: the text after `expected ` up to
/// ` at line`, without leading `a ` and then `an `.
pub open spec fn extract_expected_any_spec(err: Seq<char>) -> Seq<char> {
    match after(err, "expected "@) {
        Some(rest) => strip_repeated(strip_repeated(before(rest, " at line"@), "a "@), "an "@),
        None => Seq::empty(),
    }
}

/// The expected type of a type error (see `extract_expected_any_spec`).
pub fn extract_expected_any(err: &str) -> (r: String)
    ensures
        r@ == extract_expected_any_spec(err@),
{
    let e = chars_of(err);
    match after_exec(&e, "expected ") {
        Some(rest) => {
            let seg = before_exec(&rest, " at line");
            let a = strip_repeated_exec(&seg, "a ");
            string_of(&strip_repeated_exec(&a, "an "))
        },
        None => String::new(),
    }
}

/// The example lines, each rendered and ended by a newline.
pub open spec fn example_lines(ls: Seq<Seq<char>>) -> Seq<char>
    decreases ls.len(),
{
    if ls.len() == 0 {
        Seq::empty()
    } else {
        example_lines(ls.drop_last()) + message("config.type_error_example_line"@, seq![("Line"@, ls.last())])
            + "\n"@
    }
}

/// The lines for a section that must be a mapping: where, what was found, and the example.
pub open spec fn hint_body(line: Seq<char>, tv: (Seq<char>, Seq<char>), fe: (Seq<char>, Seq<char>)) -> Seq<char> {
    message(
        "config.type_error_object_required"@,
        seq![("Line"@, line), ("Field"@, fe.0), ("Type"@, tv.0), ("Value"@, tv.1)],
    ) + "\n"@ + message("config.type_error_example_header"@, Seq::empty()) + "\n"@ + example_lines(
        split_seq(fe.1, '\n'),
    )
}

/// The line for any other type error: where, what was expected and what was found.
pub open spec fn generic_body(line: Seq<char>, tv: (Seq<char>, Seq<char>), expected: Seq<char>) -> Seq<char> {
    message(
        "config.type_error_generic"@,
        seq![("Line"@, line), ("GoType"@, expected), ("Type"@, tv.0), ("Value"@, tv.1)],
    ) + "\n"@
}

/// The message for a configuration parse error `err` of file `cfg_path`: errors that are
/// not type errors get the syntax message; type errors name the line, the section and the
/// type and value found, with an example for the sections that must be mappings.
pub open spec fn format_config_error_spec(cfg_path: Seq<char>, err: Seq<char>) -> Seq<char> {
    if !crate::text::contains_seq(err, "invalid type:"@) {
        message("config.syntax_error"@, seq![("Path"@, cfg_path), ("Error"@, err)])
    } else {
        let line = extract_line_spec(err);
        let tv = extract_type_value_spec(err);
        let expected = extract_expected_struct_spec(err);
        let head = message("config.type_error_header"@, seq![("Path"@, cfg_path)]) + "\n"@;
        let h = match expected {
            Some(s) => type_hint_spec(s),
            None => None,
        };
        let body = match h {
            Some(fe) => hint_body(line, tv, fe),
            None => generic_body(
                line,
                tv,
                match expected {
                    Some(s) => s,
                    None => extract_expected_any_spec(err),
                },
            ),
        };
        trim_end_seq(head + body)
    }
}

fn push_str(out: &mut Vec<char>, s: &str)
    ensures
        final(out)@ == old(out)@ + s@,
{
    extend_chars(out, &chars_of(s));
}

/// The message for a configuration parse error (see `format_config_error_spec`).
pub fn format_config_error(cfg_path: &str, err: &str) -> (r: String)
    ensures
        r@ == format_config_error_spec(cfg_path@, err@),
{
    let e = chars_of(err);
    if !crate::text::contains(&e, &chars_of("invalid type:")) {
        let mut args: Vec<(&str, String)> = Vec::new();
        args.push(("Path", cfg_path.to_string()));
        args.push(("Error", err.to_string()));
        assert(arg_views(args@) =~= seq![("Path"@, cfg_path@), ("Error"@, err@)]);
        return tr("config.syntax_error", &args);
    }
    let line = extract_line(err);
    let (yaml_type, value) = extract_type_value(err);
    let expected = extract_expected_struct(err);
    let mut out: Vec<char> = Vec::new();
    let mut args: Vec<(&str, String)> = Vec::new();
    args.push(("Path", cfg_path.to_string()));
    assert(arg_views(args@) =~= seq![("Path"@, cfg_path@)]);
    push_str(&mut out, tr("config.type_error_header", &args).as_str());
    out.push('\n');
    let ghost head = out@;
    proof {
        reveal_strlit("\n");
        assert(head =~= message("config.type_error_header"@, seq![("Path"@, cfg_path@)]) + "\n"@);
    }
    let h = match &expected {
        Some(s) => type_hint(s.as_str()),
        None => None,
    };
    assert(crate::text::contains_seq(err@, "invalid type:"@));
    let ghost sh = match extract_expected_struct_spec(err@) {
        Some(s) => type_hint_spec(s),
        None => None,
    };
    assert(match (h, sh) {
        (Some(fe), Some(x)) => fe.field@ == x.0 && fe.example@ == x.1,
        (None, None) => true,
        _ => false,
    });
    assert((yaml_type@, value@) == extract_type_value_spec(err@));
    match h {
        Some(fe) => {
            assert(sh == Some((fe.field@, fe.example@)));
            let mut a: Vec<(&str, String)> = Vec::new();
            a.push(("Line", line.clone()));
            a.push(("Field", fe.field.clone()));
            a.push(("Type", yaml_type.clone()));
            a.push(("Value", value.clone()));
            assert(arg_views(a@) =~= seq![("Line"@, line@), ("Field"@, fe.field@), ("Type"@, yaml_type@), ("Value"@, value@)]);
            push_str(&mut out, tr("config.type_error_object_required", &a).as_str());
            out.push('\n');
            let none: Vec<(&str, String)> = Vec::new();
            assert(arg_views(none@) =~= Seq::<(Seq<char>, Seq<char>)>::empty());
            push_str(&mut out, tr("config.type_error_example_header", &none).as_str());
            out.push('\n');
            let ghost mid = out@;
            let ls = split(&chars_of(fe.example.as_str()), '\n');
            let ghost lv = ls@.map_values(|v: Vec<char>| v@);
            let mut i: usize = 0;
            while i < ls.len()
                invariant
                    i <= ls@.len(),
                    lv == ls@.map_values(|v: Vec<char>| v@),
                    out@ == mid + example_lines(lv.take(i as int)),
                decreases ls.len() - i,
            {
                assert(lv.take(i + 1).drop_last() =~= lv.take(i as int));
                let mut la: Vec<(&str, String)> = Vec::new();
                la.push(("Line", string_of(&ls[i])));
                assert(arg_views(la@) =~= seq![("Line"@, lv[i as int])]);
                push_str(&mut out, tr("config.type_error_example_line", &la).as_str());
                out.push('\n');
                proof {
                    reveal_strlit("\n");
                }
                assert(out@ =~= mid + example_lines(lv.take(i + 1)));
                i += 1;
            }
            assert(lv.take(ls@.len() as int) =~= lv);
            assert(lv == split_seq(fe.example@, '\n'));
            assert(out@ =~= head + (message(
                "config.type_error_object_required"@,
                seq![("Line"@, line@), ("Field"@, fe.field@), ("Type"@, yaml_type@), ("Value"@, value@)],
            ) + "\n"@ + message("config.type_error_example_header"@, Seq::empty()) + "\n"@ + example_lines(lv)));
            assert(out@ =~= head + hint_body(line@, (yaml_type@, value@), (fe.field@, fe.example@)));
        },
        None => {
            assert(sh is None);
            let go_type = match expected {
                Some(s) => s,
                None => extract_expected_any(err),
            };
            assert(go_type@ == match extract_expected_struct_spec(err@) {
                Some(s) => s,
                None => extract_expected_any_spec(err@),
            });
            let ghost gv = go_type@;
            let mut a: Vec<(&str, String)> = Vec::new();
            a.push(("Line", line.clone()));
            a.push(("GoType", go_type));
            a.push(("Type", yaml_type.clone()));
            a.push(("Value", value.clone()));
            assert(arg_views(a@) =~= seq![("Line"@, line@), ("GoType"@, gv), ("Type"@, yaml_type@), ("Value"@, value@)]);
            push_str(&mut out, tr("config.type_error_generic", &a).as_str());
            out.push('\n');
            assert(out@ =~= head + (message("config.type_error_generic"@, arg_views(a@)) + "\n"@));
            assert(out@ =~= head + (message("config.type_error_generic"@, seq![("Line"@, line@), ("GoType"@, gv), ("Type"@, yaml_type@), ("Value"@, value@)]) + "\n"@));
            assert(gv == match extract_expected_struct_spec(err@) {
                Some(s) => s,
                None => extract_expected_any_spec(err@),
            });
            assert(out@ =~= head + generic_body(line@, (yaml_type@, value@), gv));
        },
    }
    string_of(&trim_end(&out))
}

} // verus!

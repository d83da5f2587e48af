//! Message catalog and rendering: each message is a template with `{Name}` placeholders.

use vstd::prelude::*;
use crate::text::{chars_of, extend_chars, string_of};

verus! {

/// The template of a message key; the key itself for an unknown key.
pub open spec fn catalog(key: Seq<char>) -> Seq<char> {
    if key == "config.syntax_error"@ {
        "{Path}: invalid configuration: {Error}"@
    }     else if key == "config.type_error_header"@ {
        "{Path}: configuration type error"@
    }     else if key == "config.type_error_object_required"@ {
        "  line {Line}: '{Field}' must be a mapping, got {Type}({Value})"@
    }     else if key == "config.type_error_example_header"@ {
        "  example:"@
    }     else if key == "config.type_error_example_line"@ {
        "    {Line}"@
    }     else if key == "config.type_error_generic"@ {
        "  line {Line}: expected {GoType}, got {Type}({Value})"@
    }     else if key == "diff.append_only_deleted"@ {
        "{Path}: files under an append-only path may not be deleted"@
    }     else if key == "diff.append_only_modified"@ {
        "{Path}: files under an append-only path may only be appended to"@
    }     else if key == "diff.append_only_filename_order"@ {
        "{Path}: a new file must sort after the existing {MaxFile}"@
    }     else if key == "diff.binary_file_error"@ {
        "{Path}: binary files are not allowed"@
    }     else if key == "diff.binary_file_lfs_required"@ {
        "{Path}: binary files must be tracked by Git LFS"@
    }     else if key == "diff.cache_dir_staged"@ {
        "{Path}: staged file inside the cache directory {CacheDir}"@
    }     else if key == "diff.cache_dir_committed"@ {
        "cache directory {CacheDir} has {Count} tracked files"@
    }     else if key == "diff.comment_language_error"@ {
        "{Path}:{Line}: {Kind} is not in {Language} (detected {Detected}): {Text}"@
    }     else if key == "diff.custom_rule_forbidden"@ {
        "{Path}:{Line}: [{Name}] {Message}"@
    }     else if key == "diff.editorconfig_error"@ {
        "{Path}:{Line}: {Message}"@
    }     else if key == "diff.emoji_error"@ {
        "{Path}:{Line}: emoji {Char} (U+{CharCode}) in {Kind}"@
    }     else if key == "diff.encoding_error"@ {
        "{Path}: not UTF-8 (detected {Charset})"@
    }     else if key == "diff.file_ambiguous_char"@ {
        "{Path}:{Line}:{Col}: {Char} (U+{CharCode}) looks like {ASCII} (U+{ASCIICode})"@
    }     else if key == "diff.file_invisible_char"@ {
        "{Path}:{Line}:{Col}: invisible character {Desc}"@
    }     else if key == "diff.kind_comment"@ {
        "comment"@
    }     else if key == "diff.kind_string"@ {
        "string"@
    }     else if key == "diff.lint_error"@ {
        "{Path}:{Line}: {Message}"@
    }     else if key == "diff.protected_path_added"@ {
        "{Path}: files may not be added under a protected path"@
    }     else if key == "diff.protected_path_deleted"@ {
        "{Path}: files under a protected path may not be deleted"@
    }     else if key == "diff.protected_path_modified"@ {
        "{Path}: files under a protected path may not be modified"@
    }     else if key == "fix.removed_ai_coauthor"@ {
        "line {Line}: removed AI co-author trailer: {Trailer}"@
    }     else if key == "fix.removed_bad_rune"@ {
        "line {Line}, column {Col}: removed invalid byte 0x{Byte}"@
    }     else if key == "fix.removed_invisible_char"@ {
        "line {Line}, column {Col}: removed invisible character {Desc}"@
    }     else if key == "fix.replaced_ambiguous_char"@ {
        "line {Line}, column {Col}: replaced {Char} (U+{CharCode}) with {ASCII} (U+{ASCIICode})"@
    }     else if key == "fix.replaced_invisible_space"@ {
        "line {Line}, column {Col}: replaced {Desc} with a space"@
    }     else if key == "msg.ai_coauthor_error"@ {
        "line {Line}: AI co-author trailer is not allowed: {Trailer}"@
    }     else if key == "msg.ambiguous_char_error"@ {
        "line {Line}, column {Col}: {Char} (U+{CharCode}) looks like {ASCII} (U+{ASCIICode})"@
    }     else if key == "msg.bad_rune_error"@ {
        "line {Line}, column {Col}: invalid UTF-8 byte 0x{Byte}"@
    }     else if key == "msg.body_line_too_long"@ {
        "line {Line}: body line has {Length} characters (max {Max})"@
    }     else if key == "msg.conventional_format_error"@ {
        "subject does not follow Conventional Commits: {Subject}"@
    }     else if key == "msg.conventional_scope_required"@ {
        "subject needs a scope: {Subject}"@
    }     else if key == "msg.conventional_type_error"@ {
        "type {Type} is not allowed (allowed: {Types})"@
    }     else if key == "msg.custom_rule_forbidden"@ {
        "line {Line}: [{Name}] {Message}"@
    }     else if key == "msg.custom_rule_required"@ {
        "[{Name}] {Message}"@
    }     else if key == "msg.emoji_error"@ {
        "line {Line}, column {Col}: emoji {Char} (U+{CharCode})"@
    }     else if key == "msg.invisible_char_error"@ {
        "line {Line}, column {Col}: invisible character {Desc}"@
    }     else if key == "msg.language_error"@ {
        "line {Line}: not in {Language} (detected {Detected}): {Text}"@
    }     else if key == "msg.subject_too_long"@ {
        "subject has {Length} characters (max {Max})"@
    }     else if key == "validate.schema_violation"@ {
        "{Path}: {Location}: {Message}"@
    } else {
        key
    }
}

/// The template of a message key (see `catalog`).
pub fn template(key: &str) -> (r: String)
    ensures
        r@ == catalog(key@),
{
    if crate::text::str_eq(key, "config.syntax_error") {
        crate::text::owned("{Path}: invalid configuration: {Error}")
    }     else if crate::text::str_eq(key, "config.type_error_header") {
        crate::text::owned("{Path}: configuration type error")
    }     else if crate::text::str_eq(key, "config.type_error_object_required") {
        crate::text::owned("  line {Line}: '{Field}' must be a mapping, got {Type}({Value})")
    }     else if crate::text::str_eq(key, "config.type_error_example_header") {
        crate::text::owned("  example:")
    }     else if crate::text::str_eq(key, "config.type_error_example_line") {
        crate::text::owned("    {Line}")
    }     else if crate::text::str_eq(key, "config.type_error_generic") {
        crate::text::owned("  line {Line}: expected {GoType}, got {Type}({Value})")
    }     else if crate::text::str_eq(key, "diff.append_only_deleted") {
        crate::text::owned("{Path}: files under an append-only path may not be deleted")
    }     else if crate::text::str_eq(key, "diff.append_only_modified") {
        crate::text::owned("{Path}: files under an append-only path may only be appended to")
    }     else if crate::text::str_eq(key, "diff.append_only_filename_order") {
        crate::text::owned("{Path}: a new file must sort after the existing {MaxFile}")
    }     else if crate::text::str_eq(key, "diff.binary_file_error") {
        crate::text::owned("{Path}: binary files are not allowed")
    }     else if crate::text::str_eq(key, "diff.binary_file_lfs_required") {
        crate::text::owned("{Path}: binary files must be tracked by Git LFS")
    }     else if crate::text::str_eq(key, "diff.cache_dir_staged") {
        crate::text::owned("{Path}: staged file inside the cache directory {CacheDir}")
    }     else if crate::text::str_eq(key, "diff.cache_dir_committed") {
        crate::text::owned("cache directory {CacheDir} has {Count} tracked files")
    }     else if crate::text::str_eq(key, "diff.comment_language_error") {
        crate::text::owned("{Path}:{Line}: {Kind} is not in {Language} (detected {Detected}): {Text}")
    }     else if crate::text::str_eq(key, "diff.custom_rule_forbidden") {
        crate::text::owned("{Path}:{Line}: [{Name}] {Message}")
    }     else if crate::text::str_eq(key, "diff.editorconfig_error") {
        crate::text::owned("{Path}:{Line}: {Message}")
    }     else if crate::text::str_eq(key, "diff.emoji_error") {
        crate::text::owned("{Path}:{Line}: emoji {Char} (U+{CharCode}) in {Kind}")
    }     else if crate::text::str_eq(key, "diff.encoding_error") {
        crate::text::owned("{Path}: not UTF-8 (detected {Charset})")
    }     else if crate::text::str_eq(key, "diff.file_ambiguous_char") {
        crate::text::owned("{Path}:{Line}:{Col}: {Char} (U+{CharCode}) looks like {ASCII} (U+{ASCIICode})")
    }     else if crate::text::str_eq(key, "diff.file_invisible_char") {
        crate::text::owned("{Path}:{Line}:{Col}: invisible character {Desc}")
    }     else if crate::text::str_eq(key, "diff.kind_comment") {
        crate::text::owned("comment")
    }     else if crate::text::str_eq(key, "diff.kind_string") {
        crate::text::owned("string")
    }     else if crate::text::str_eq(key, "diff.lint_error") {
        crate::text::owned("{Path}:{Line}: {Message}")
    }     else if crate::text::str_eq(key, "diff.protected_path_added") {
        crate::text::owned("{Path}: files may not be added under a protected path")
    }     else if crate::text::str_eq(key, "diff.protected_path_deleted") {
        crate::text::owned("{Path}: files under a protected path may not be deleted")
    }     else if crate::text::str_eq(key, "diff.protected_path_modified") {
        crate::text::owned("{Path}: files under a protected path may not be modified")
    }     else if crate::text::str_eq(key, "fix.removed_ai_coauthor") {
        crate::text::owned("line {Line}: removed AI co-author trailer: {Trailer}")
    }     else if crate::text::str_eq(key, "fix.removed_bad_rune") {
        crate::text::owned("line {Line}, column {Col}: removed invalid byte 0x{Byte}")
    }     else if crate::text::str_eq(key, "fix.removed_invisible_char") {
        crate::text::owned("line {Line}, column {Col}: removed invisible character {Desc}")
    }     else if crate::text::str_eq(key, "fix.replaced_ambiguous_char") {
        crate::text::owned("line {Line}, column {Col}: replaced {Char} (U+{CharCode}) with {ASCII} (U+{ASCIICode})")
    }     else if crate::text::str_eq(key, "fix.replaced_invisible_space") {
        crate::text::owned("line {Line}, column {Col}: replaced {Desc} with a space")
    }     else if crate::text::str_eq(key, "msg.ai_coauthor_error") {
        crate::text::owned("line {Line}: AI co-author trailer is not allowed: {Trailer}")
    }     else if crate::text::str_eq(key, "msg.ambiguous_char_error") {
        crate::text::owned("line {Line}, column {Col}: {Char} (U+{CharCode}) looks like {ASCII} (U+{ASCIICode})")
    }     else if crate::text::str_eq(key, "msg.bad_rune_error") {
        crate::text::owned("line {Line}, column {Col}: invalid UTF-8 byte 0x{Byte}")
    }     else if crate::text::str_eq(key, "msg.body_line_too_long") {
        crate::text::owned("line {Line}: body line has {Length} characters (max {Max})")
    }     else if crate::text::str_eq(key, "msg.conventional_format_error") {
        crate::text::owned("subject does not follow Conventional Commits: {Subject}")
    }     else if crate::text::str_eq(key, "msg.conventional_scope_required") {
        crate::text::owned("subject needs a scope: {Subject}")
    }     else if crate::text::str_eq(key, "msg.conventional_type_error") {
        crate::text::owned("type {Type} is not allowed (allowed: {Types})")
    }     else if crate::text::str_eq(key, "msg.custom_rule_forbidden") {
        crate::text::owned("line {Line}: [{Name}] {Message}")
    }     else if crate::text::str_eq(key, "msg.custom_rule_required") {
        crate::text::owned("[{Name}] {Message}")
    }     else if crate::text::str_eq(key, "msg.emoji_error") {
        crate::text::owned("line {Line}, column {Col}: emoji {Char} (U+{CharCode})")
    }     else if crate::text::str_eq(key, "msg.invisible_char_error") {
        crate::text::owned("line {Line}, column {Col}: invisible character {Desc}")
    }     else if crate::text::str_eq(key, "msg.language_error") {
        crate::text::owned("line {Line}: not in {Language} (detected {Detected}): {Text}")
    }     else if crate::text::str_eq(key, "msg.subject_too_long") {
        crate::text::owned("subject has {Length} characters (max {Max})")
    }     else if crate::text::str_eq(key, "validate.schema_violation") {
        crate::text::owned("{Path}: {Location}: {Message}")
    } else {
        crate::text::owned(key)
    }
}

/// The value of the last argument named `name`.
pub open spec fn arg_value(args: Seq<(Seq<char>, Seq<char>)>, name: Seq<char>) -> Option<Seq<char>>
    decreases args.len(),
{
    if args.len() == 0 {
        None
    } else if args.last().0 == name {
        Some(args.last().1)
    } else {
        arg_value(args.drop_last(), name)
    }
}

/// Index of the first `}` at or after `j`.
pub open spec fn close_brace(t: Seq<char>, j: int) -> Option<int>
    decreases t.len() - j,
{
    if j < 0 || j >= t.len() {
        None
    } else if t[j] == '}' {
        Some(j)
    } else {
        close_brace(t, j + 1)
    }
}

pub proof fn lemma_close_brace(t: Seq<char>, j: int)
    ensures
        close_brace(t, j) matches Some(k) ==> j <= k < t.len() && t[k] == '}',
    decreases t.len() - j,
{
    if 0 <= j < t.len() && t[j] != '}' {
        lemma_close_brace(t, j + 1);
    }
}

/// `t[i..]` with every `{Name}` whose name has an argument replaced by the argument's value.
pub open spec fn render_from(t: Seq<char>, i: int, args: Seq<(Seq<char>, Seq<char>)>) -> Seq<char>
    decreases t.len() - i,
{
    if i < 0 || i >= t.len() {
        Seq::empty()
    } else if t[i] == '{' && close_brace(t, i + 1) is Some && arg_value(
        args,
        t.subrange(i + 1, close_brace(t, i + 1)->0),
    ) is Some {
        proof {
            lemma_close_brace(t, i + 1);
        }
        arg_value(args, t.subrange(i + 1, close_brace(t, i + 1)->0))->0 + render_from(
            t,
            close_brace(t, i + 1)->0 + 1,
            args,
        )
    } else {
        seq![t[i]] + render_from(t, i + 1, args)
    }
}

/// The message of `key` with its placeholders filled from `args`.
pub open spec fn message(key: Seq<char>, args: Seq<(Seq<char>, Seq<char>)>) -> Seq<char> {
    render_from(catalog(key), 0, args)
}

pub open spec fn arg_views(args: Seq<(&str, String)>) -> Seq<(Seq<char>, Seq<char>)> {
    args.map_values(|a: (&str, String)| (a.0@, a.1@))
}

fn find_close(t: &[char], j: usize) -> (r: Option<usize>)
    ensures
        r matches Some(k) ==> close_brace(t@, j as int) == Some(k as int),
        r is None ==> close_brace(t@, j as int) is None,
{
    let mut k = j;
    while k < t.len()
        invariant
            j <= k,
            close_brace(t@, k as int) == close_brace(t@, j as int),
        decreases t.len() - k,
    {
        if t[k] == '}' {
            return Some(k);
        }
        k += 1;
    }
    None
}

fn find_arg(args: &Vec<(&str, String)>, name: &[char]) -> (r: Option<usize>)
    ensures
        r matches Some(i) ==> i < args@.len() && arg_value(arg_views(args@), name@) == Some(args@[i as int].1@),
        r is None ==> arg_value(arg_views(args@), name@) is None,
{
    let mut i = args.len();
    assert(args@.take(i as int) =~= args@);
    while i > 0
        invariant
            i <= args@.len(),
            arg_value(arg_views(args@.take(i as int)), name@) == arg_value(arg_views(args@), name@),
        decreases i,
    {
        assert(arg_views(args@.take(i as int)).drop_last() =~= arg_views(args@.take(i - 1)));
        if crate::text::chars_eq_str(name, args[i - 1].0) {
            return Some(i - 1);
        }
        i -= 1;
    }
    None
}

/// Renders the message of `key` with the named arguments (see `message`).
pub fn tr(key: &str, args: &Vec<(&str, String)>) -> (r: String)
    ensures
        r@ == message(key@, arg_views(args@)),
{
    let ts = template(key);
    let t = chars_of(ts.as_str());
    let ghost av = arg_views(args@);
    let mut out: Vec<char> = Vec::new();
    let mut i: usize = 0;
    assert(args@.take(args@.len() as int) =~= args@);
    while i < t.len()
        invariant
            i <= t@.len(),
            t@ == catalog(key@),
            av == arg_views(args@),
            out@ + render_from(t@, i as int, av) == render_from(t@, 0, av),
        decreases t.len() - i,
    {
        if t[i] == '{' {
            match find_close(&t, i + 1) {
                Some(k) => {
                    proof {
                        lemma_close_brace(t@, i + 1);
                    }
                    let name = crate::text::slice_chars(&t, i + 1, k);
                    match find_arg(args, &name) {
                        Some(a) => {
                            let v = chars_of(args[a].1.as_str());
                            let ghost o0 = out@;
                            extend_chars(&mut out, &v);
                            assert(o0 + render_from(t@, i as int, av) =~= out@ + render_from(t@, k + 1, av));
                            i = k + 1;
                            continue;
                        },
                        None => {},
                    }
                },
                None => {},
            }
        }
        let ghost o0 = out@;
        out.push(t[i]);
        assert(o0 + render_from(t@, i as int, av) =~= out@ + render_from(t@, i + 1, av));
        i += 1;
    }
    assert(out@ =~= render_from(t@, 0, av));
    string_of(&out)
}

} // verus!

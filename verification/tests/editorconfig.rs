use git_warden::editorconfig::{check, Definition};

fn def(
    indent: &str,
    eol: &str,
    charset: &str,
    ifn: Option<bool>,
    ttw: Option<bool>,
) -> Definition {
    Definition {
        charset: charset.to_string(),
        end_of_line: eol.to_string(),
        insert_final_newline: ifn,
        trim_trailing_whitespace: ttw,
        indent_style: indent.to_string(),
    }
}

#[test]
fn utf8_bom_violation() {
    let d = def("", "", "utf-8", None, None);
    let mut content = vec![0xEF, 0xBB, 0xBF];
    content.extend_from_slice(b"hello\n");
    let v = check("f", &content, &d);
    assert_eq!(v.len(), 1);
    assert!(v[0].message.contains("BOM"));
    assert!(check("f", b"hello\n", &d).is_empty());
}

#[test]
fn end_of_line_lf_crlf() {
    let lf = def("", "lf", "", None, None);
    assert!(!check("f", b"a\r\nb\n", &lf).is_empty());
    assert!(check("f", b"a\nb\n", &lf).is_empty());
    let crlf = def("", "crlf", "", None, None);
    assert!(!check("f", b"a\nb\n", &crlf).is_empty());
}

#[test]
fn insert_final_newline() {
    let d = def("", "", "", Some(true), None);
    assert!(!check("f", b"no newline", &d).is_empty());
    assert!(check("f", b"with newline\n", &d).is_empty());
    assert!(check("f", b"", &d).is_empty());
}

#[test]
fn trailing_whitespace() {
    let d = def("", "", "", None, Some(true));
    assert!(!check("f", b"line with space \nok\n", &d).is_empty());
    assert!(check("f", b"clean\nlines\n", &d).is_empty());
}

#[test]
fn indent_style_space_tab() {
    let space = def("space", "", "", None, None);
    assert!(!check("f", "\tindented\n".as_bytes(), &space).is_empty());
    assert!(check("f", "    indented\n".as_bytes(), &space).is_empty());
    let tab = def("tab", "", "", None, None);
    assert!(!check("f", "    spaces\n".as_bytes(), &tab).is_empty());
    assert!(check("f", "\ttabbed\n".as_bytes(), &tab).is_empty());
}

#[test]
fn empty_definition_no_violations() {
    let d = Definition::default();
    assert!(check("f", "anything \t\r\n  mixed\n".as_bytes(), &d).is_empty());
}

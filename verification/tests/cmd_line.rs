use vrc_get_gui::cmd_line::{append_cmd_escaped, start_command_args};

fn utf16(s: &str) -> Vec<u16> {
    s.encode_utf16().collect()
}

fn escaped(s: &str) -> String {
    let mut out = Vec::new();
    append_cmd_escaped(&mut out, &utf16(s));
    String::from_utf16(&out).unwrap()
}

#[test]
fn encloses_plain_text_in_quotes() {
    assert_eq!(escaped("abc"), "\"abc\"");
    assert_eq!(escaped(""), "\"\"");
    assert_eq!(escaped(r"C:\Program Files\Unity\Unity.exe"), r#""C:\Program Files\Unity\Unity.exe""#);
}

#[test]
fn doubles_quotes_and_the_backslashes_before_them() {
    assert_eq!(escaped("a\"b"), "\"a\"\"b\"");
    assert_eq!(escaped(r#"a\"b"#), r#""a\\""b""#);
    assert_eq!(escaped(r#"a\\"b"#), r#""a\\\\""b""#);
    // Backslashes not followed by a quote stay as they are, also at the end.
    assert_eq!(escaped(r"a\\b\"), r#""a\\b\""#);
}

#[test]
fn replaces_percent_signs() {
    assert_eq!(escaped("%PATH%"), "\"%%cd:~,%PATH%%cd:~,%\"");
}

#[test]
fn removes_newlines() {
    assert_eq!(escaped("a\nb\n"), "\"ab\"");
    // A newline between a backslash and a quote breaks the backslash run.
    assert_eq!(escaped("\\\n\""), "\"\\\"\"\"");
}

#[test]
fn appends_after_what_is_there() {
    let mut out = utf16("x ");
    append_cmd_escaped(&mut out, &utf16("y"));
    assert_eq!(String::from_utf16(&out).unwrap(), "x \"y\"");
}

#[test]
fn builds_the_start_command_line() {
    let args = vec![utf16("-projectPath"), utf16(r"C:\My Project"), utf16("50%")];
    let line = start_command_args(&utf16("Unity"), &utf16(r"C:\Unity\Unity.exe"), &args);
    assert_eq!(
        String::from_utf16(&line).unwrap(),
        r#"/E:ON /V:OFF /d /c start /b "Unity" "C:\Unity\Unity.exe" "-projectPath" "C:\My Project" "50%%cd:~,%""#
    );
    let line = start_command_args(&utf16(""), &utf16("a"), &[]);
    assert_eq!(String::from_utf16(&line).unwrap(), r#"/E:ON /V:OFF /d /c start /b "" "a""#);
}

#[test]
fn escaping_two_pieces_equals_escaping_them_joined() {
    let whole = escaped("ab\"c%d");
    let mut pieces = Vec::new();
    append_cmd_escaped(&mut pieces, &utf16("ab"));
    let first = String::from_utf16(&pieces).unwrap();
    let second = escaped("\"c%d");
    assert_eq!(
        whole,
        format!("{}{}", &first[..first.len() - 1], &second[1..])
    );
}

#[test]
fn quoted_text_has_balanced_quotes_and_no_newline() {
    for input in ["", "\"", "a\"\"b", "\\\"\n\"%", "x\ny\\"] {
        let out = escaped(input);
        assert_eq!(out.matches('"').count(), 2 * input.matches('"').count() + 2);
        assert!(!out.contains('\n'));
    }
}

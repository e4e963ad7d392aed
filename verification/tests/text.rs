use nativepkg::text::{printable, shell_double_quoted, single_line, token};

#[test]
fn line_breaks_are_refused_where_one_line_is_expected() {
    assert!(single_line("author", "A <a@x.y>\nPre-Depends: evil").is_err());
    assert!(single_line("author", "A <a@x.y>").is_ok());
    assert!(printable("description", "one\ntwo\tthree").is_ok());
    assert!(printable("description", "one\r\ntwo").is_err());
    assert!(printable("description", "nul\0").is_err());
    assert!(token("homepage", "https://x.y/z").is_ok());
    assert!(token("homepage", "https://x.y/ z").is_err());
}

#[test]
fn shell_quoting_escapes_exactly_the_four_characters_that_matter_in_double_quotes() {
    assert_eq!(
        shell_double_quoted(r#"a "b" $c `d` e\f"#),
        r#"a \"b\" \$c \`d\` e\\f"#
    );
    assert_eq!(
        shell_double_quoted("plain 'single' text"),
        "plain 'single' text"
    );
}

use nativepkg::distance::edit_distance;
use nativepkg::error::Error;
use nativepkg::npm::{Author, InitSystem, Manifest, Settings};
use nativepkg::resolve::{resolve, Overrides};
use nativepkg::template::{builtin, builtin_names, load, render, Variables, CONTEXT_CHARS};

fn vars() -> Variables {
    Variables::new()
        .with("package_name", "probe-app")
        .with("package_version", "1.2.3")
        .with("package_description", "a probe")
        .with("package_description_shell", "a probe")
        .with("package_maintainer", "A <a@example.com>")
        .with("package_maintainer_shell", "A <a@example.com>")
        .with("package_dependencies", "nodejs")
        .with("package_architecture", "all")
        .with("executable_name", "probe-app")
        .with("install_dir", "/usr/lib")
        .with("no_rebuild", "0")
        .with("generator_version", "0.1.0")
        .with("install_strategy", "copy")
        .with("cli_entrypoint", "app.js")
        .with("daemon_entrypoint", "app.js")
        .with("user", "probe-app")
        .with("group", "probe-app")
        .with("init", "systemd")
}

fn render_ok(source: &str) -> String {
    render("test", source, &vars()).expect("should render")
}

#[test]
fn substitutes_a_placeholder() {
    assert_eq!(
        render_ok("Package: {{ package_name }}"),
        "Package: probe-app"
    );
}

#[test]
fn tolerates_whitespace_inside_the_delimiters() {
    assert_eq!(render_ok("{{package_name}}"), "probe-app");
    assert_eq!(render_ok("{{    package_name    }}"), "probe-app");
}

#[test]
fn a_multi_line_value_renders_literally() {
    let v = Variables::new().with("package_description", "line one\nline two");
    let out = render("test", "Description: {{ package_description }}", &v)
        .expect("a newline must not be special");
    assert_eq!(out, "Description: line one\nline two");
}

#[test]
fn regex_and_shell_metacharacters_render_unchanged() {
    let hostile = r"a&b/c\d$e*f[g]h^i|j";
    let v = Variables::new().with("package_name", hostile);
    let out = render("test", "X: {{ package_name }}", &v).expect("should render");
    assert_eq!(out, format!("X: {hostile}"));
}

#[test]
fn a_value_that_is_itself_a_placeholder_is_not_re_expanded() {
    let v = Variables::new()
        .with("package_name", "{{ package_version }}")
        .with("package_version", "1.2.3");
    let out = render("test", "{{ package_name }}", &v).expect("should render");
    assert_eq!(out, "{{ package_version }}");
}

#[test]
fn an_unknown_variable_is_an_error_naming_template_and_variable() {
    let err = render("control", "{{ nonexistent_thing }}", &vars())
        .expect_err("an unknown variable must not be passed through");
    let message = err.text();
    assert!(message.contains("control"), "{message}");
    assert!(message.contains("nonexistent_thing"), "{message}");
}

#[test]
fn a_near_miss_suggests_the_intended_variable() {
    let err = render("control", "{{ pakcage_name }}", &vars())
        .expect_err("a typo must not be passed through")
        .text();
    assert!(
        err.contains("did you mean `package_name`"),
        "a transposition should be suggested: {err:?}"
    );
}

#[test]
fn an_unrelated_name_lists_the_vocabulary_rather_than_guessing() {
    let err = render("control", "{{ zzzzzzzzzzzzzzzz }}", &vars())
        .expect_err("unknown")
        .text();
    assert!(
        err.contains("known variables:"),
        "an unrelated name should not produce a misleading suggestion: {err:?}"
    );
}

#[test]
fn supplying_an_unused_variable_is_allowed() {
    let v = vars().with("something_extra", "unused");
    assert!(render("test", "{{ package_name }}", &v).is_ok());
}

#[test]
fn an_unterminated_placeholder_is_an_error() {
    let err = render("test", "Package: {{ package_name", &vars()).expect_err("unterminated");
    assert!(err.text().contains("unterminated"), "{err:?}");
}

#[test]
fn an_unterminated_placeholder_with_multibyte_text_errors_instead_of_panicking() {
    let source = format!("{{{{{}", "\u{1F600}".repeat(9));
    let err = render("t", &source, &Variables::new())
        .expect_err("an unterminated placeholder must be an error");
    assert!(err.text().contains("unterminated"), "{err:?}");
}

#[test]
fn unterminated_placeholder_context_is_truncated_by_characters() {
    let source = format!("{{{{{}", "\u{4F60}".repeat(200));
    let err = render("t", &source, &Variables::new()).expect_err("unterminated");
    let message = err.text();
    assert!(message.contains("unterminated"), "{message}");

    let payload_chars = message.chars().filter(|c| *c == '\u{4F60}').count();
    assert_eq!(
        payload_chars,
        CONTEXT_CHARS - "{{".len(),
        "context must be capped by characters, not bytes: {message}"
    );
}

#[test]
fn multibyte_text_around_a_valid_placeholder_renders_intact() {
    let v = Variables::new().with("package_name", "\u{043F}\u{0440}\u{043E}\u{0431}\u{0430}");
    let out = render("t", "\u{4F60}\u{597D} {{ package_name }} \u{1F600}", &v)
        .expect("multi-byte text must render");
    assert_eq!(
        out,
        "\u{4F60}\u{597D} \u{043F}\u{0440}\u{043E}\u{0431}\u{0430} \u{1F600}"
    );
}

#[test]
fn an_empty_placeholder_is_an_error() {
    assert!(render("test", "{{ }}", &vars()).is_err());
}

#[test]
fn text_without_placeholders_passes_through() {
    let source = "#!/bin/sh\nset -e\necho hello\n";
    assert_eq!(render_ok(source), source);
}

#[test]
fn every_builtin_template_renders_with_the_full_vocabulary() {
    for name in builtin_names() {
        let source = builtin(name).expect("built-in should exist");
        render(name, source, &vars())
            .unwrap_or_else(|e| panic!("built-in template `{name}` failed to render: {e:?}"));
    }
}

#[test]
fn every_builtin_declares_its_provenance_where_comments_are_possible() {
    for name in builtin_names() {
        let source = builtin(name).expect("built-in should exist");
        assert!(
            source.contains("{{ generator_version }}"),
            "built-in `{name}` should record the generator version"
        );
    }
}

#[test]
fn an_unknown_builtin_lists_the_valid_names() {
    let err = builtin("nope").expect_err("unknown template").text();
    assert!(err.contains("default"), "{err:?}");
    assert!(err.contains("systemd.service"), "{err:?}");
}

#[test]
fn edit_distance_is_symmetric_and_zero_on_equality() {
    assert_eq!(edit_distance("package_name", "package_name"), 0);
    assert_eq!(
        edit_distance("pakcage_name", "package_name"),
        edit_distance("package_name", "pakcage_name")
    );
}

#[test]
fn the_published_vocabulary_is_what_a_configuration_populates() {
    let manifest = Manifest {
        name: Some("app".to_owned()),
        version: Some("1.2.3".to_owned()),
        description: Some("d".to_owned()),
        author: Some(Author::Text("A <a@example.com>".to_owned())),
        nativepkg: Some(Settings {
            init: Some(InitSystem::NoInit),
            ..Settings::default()
        }),
        ..Manifest::default()
    };
    let (config, _) = resolve(&manifest, &Overrides::default()).expect("resolves");
    let variables = Variables::for_config(&config, "0.1.0", "1.2.3", "amd64");

    let mut defined: Vec<&str> = variables.names();
    defined.sort_unstable();
    let mut published = Variables::vocabulary();
    published.sort_unstable();

    assert_eq!(
        defined, published,
        "the published vocabulary and the one a build actually uses have drifted apart"
    );
}

#[test]
fn a_user_override_replaces_the_builtin() {
    let read = Ok("OVERRIDDEN {{ package_name }}".to_owned());
    let source = load("control", Some(read)).expect("override should load");
    assert!(source.starts_with("OVERRIDDEN"));
}

#[test]
fn a_missing_override_names_the_path() {
    let read = Err(Error::io(
        "/nonexistent/control".to_owned(),
        "No such file or directory (os error 2)".to_owned(),
    ));
    let err = load("control", Some(read))
        .expect_err("a missing override must not silently fall back to the built-in");
    assert!(err.text().contains("/nonexistent/control"), "{err:?}");
}

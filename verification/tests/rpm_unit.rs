use nativepkg::rpm::{dependency_names, mode_bits};

#[test]
fn dependency_names_are_extracted_from_the_debian_spelling() {
    assert_eq!(
        dependency_names(Some("nodejs, redis-server")),
        vec!["nodejs", "redis-server"]
    );
}

#[test]
fn version_relations_are_dropped_rather_than_mistranslated() {
    assert_eq!(
        dependency_names(Some("nodejs (>= 18), libc6 (>= 2.34)")),
        vec!["nodejs", "libc6"]
    );
}

#[test]
fn alternatives_take_the_first_named() {
    assert_eq!(
        dependency_names(Some("nodejs | nodejs-legacy")),
        vec!["nodejs"]
    );
}

#[test]
fn an_absent_or_empty_expression_yields_nothing() {
    assert!(dependency_names(None).is_empty());
    assert!(dependency_names(Some("   ")).is_empty());
    assert!(dependency_names(Some(",,")).is_empty());
}

#[test]
fn mode_bits_drop_file_type_bits() {
    assert_eq!(mode_bits(0o100_644), 0o644);
    assert_eq!(mode_bits(0o755), 0o755);
}

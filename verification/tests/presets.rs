use nativepkg::build::systemd_preset_entry;
use nativepkg::plan::{FileContent, PlannedFile};

#[test]
fn the_preset_entry_enables_exactly_the_package_unit() {
    let entry = systemd_preset_entry("probe-app").expect("a valid destination");
    assert_eq!(
        entry.destination.as_str(),
        "/usr/lib/systemd/system-preset/50-probe-app.preset"
    );
    assert_eq!(entry.mode, PlannedFile::MODE_REGULAR);
    match &entry.content {
        FileContent::Inline(bytes) => assert_eq!(bytes, b"enable probe-app.service\n"),
        other => panic!("inline content expected, got {other:?}"),
    }
}

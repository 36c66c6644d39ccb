use fggb::gg::{find_package, find_pid, version, AppDir, Marker, ProcEntry};

fn app(name: &str, markers: &[bool]) -> AppDir {
    AppDir { name: Some(name.to_string()), markers: markers.to_vec() }
}

fn process(name: &str, cmdline: &[u8]) -> ProcEntry {
    ProcEntry { name: Some(name.to_string()), cmdline: Some(cmdline.to_vec()) }
}

fn text(content: &str) -> Marker {
    Marker::Text(content.to_string())
}

#[test]
fn chosen_package_comes_first() {
    let apps = Some(vec![app("com.gg", &[true])]);
    assert_eq!(find_package(Some("mine".to_string()), apps).as_deref(), Some("mine"));
    let apps = Some(vec![app("com.gg", &[true])]);
    assert_eq!(find_package(Some(String::new()), apps).as_deref(), Some("com.gg"));
    assert_eq!(find_package(Some("mine".to_string()), None).as_deref(), Some("mine"));
}

#[test]
fn first_marked_app_is_gg() {
    let apps = vec![
        app("a", &[]),
        app("b", &[false, false]),
        app("c", &[false, true]),
        app("d", &[true]),
    ];
    assert_eq!(find_package(None, Some(apps)).as_deref(), Some("c"));
}

#[test]
fn no_package_without_a_marker() {
    assert_eq!(find_package(None, None), None);
    assert_eq!(find_package(None, Some(Vec::new())), None);
    assert_eq!(find_package(None, Some(vec![app("a", &[false])])), None);
}

#[test]
fn unreadable_name_ends_the_search() {
    let apps = vec![AppDir { name: None, markers: vec![true] }, app("d", &[true])];
    assert_eq!(find_package(None, Some(apps)), None);
}

#[test]
fn version_is_trimmed() {
    let markers = vec![Marker::Absent, text(" 16142:101.1\n"), text("2")];
    assert_eq!(version(Some(markers)).as_deref(), Some("16142:101.1"));
    assert_eq!(version(Some(vec![text(" \n")])).as_deref(), Some(""));
}

#[test]
fn version_may_be_missing() {
    assert_eq!(version(None), None);
    assert_eq!(version(Some(vec![Marker::Absent])), None);
    assert_eq!(version(Some(vec![Marker::Unreadable, text("1")])), None);
}

#[test]
fn first_process_of_the_name_is_found() {
    let entries = vec![
        process("self", b"com.gg\0"),
        process("10", b"com.gg.other\0"),
        process("11", b"com.g\0g"),
        process("12", b"com.gg\0--flag\0"),
        process("13", b"com.gg"),
    ];
    assert_eq!(find_pid("com.gg", Some(entries)), Some(12));
}

#[test]
fn process_name_may_end_without_nul() {
    assert_eq!(find_pid("com.gg", Some(vec![process("13", b"com.gg")])), Some(13));
}

#[test]
fn process_may_be_missing() {
    assert_eq!(find_pid("com.gg", None), None);
    assert_eq!(find_pid("com.gg", Some(Vec::new())), None);
    let entries = vec![
        ProcEntry { name: None, cmdline: Some(b"com.gg".to_vec()) },
        ProcEntry { name: Some("7".to_string()), cmdline: None },
        process("4294967296", b"com.gg"),
        process("8", b""),
    ];
    assert_eq!(find_pid("com.gg", Some(entries)), None);
}

#[test]
fn kernel_thread_has_the_empty_name() {
    assert_eq!(find_pid("", Some(vec![process("2", b"")])), Some(2));
    assert_eq!(find_pid("", Some(vec![process("3", b"\0x")])), Some(3));
}

#[test]
fn names_are_compared_byte_by_byte() {
    let entries = vec![process("5", "gÄ".as_bytes()), process("6", "gä\0".as_bytes())];
    assert_eq!(find_pid("gä", Some(entries)), Some(6));
}

use usage_tracker::paths::executable_name_from_path;

#[test]
fn bare_name_passes_through() {
    assert_eq!(executable_name_from_path("notes.exe"), "notes.exe");
}

#[test]
fn full_path_keeps_final_component() {
    assert_eq!(
        executable_name_from_path("C:\\Program Files\\Notes\\notes.exe"),
        "notes.exe"
    );
}

#[test]
fn empty_path_gives_empty_name() {
    assert_eq!(executable_name_from_path(""), "");
}

#[test]
fn trailing_separator_gives_empty_name() {
    assert_eq!(executable_name_from_path("C:\\Windows\\"), "");
}

#[test]
fn single_separator_only() {
    assert_eq!(executable_name_from_path("\\"), "");
    assert_eq!(executable_name_from_path("\\calc.exe"), "calc.exe");
}

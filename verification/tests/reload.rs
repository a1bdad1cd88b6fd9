use microscope_viewer::reload::{is_stale_reload, reload_file_name};

#[test]
fn copy_is_named_after_its_moment() {
    assert_eq!(reload_file_name(1735689600123), "loaded_1735689600123.ply");
    assert_eq!(reload_file_name(0), "loaded_0.ply");
}

#[test]
fn earlier_copies_are_stale() {
    let current = reload_file_name(2000);
    assert!(is_stale_reload("loaded_1000.ply", &current));
    assert!(is_stale_reload("loaded_.ply", &current));
    assert!(is_stale_reload("loaded_x.ply", &current));
    assert!(!is_stale_reload("loaded_2000.ply", &current));
}

#[test]
fn other_files_are_left_alone() {
    let current = "loaded_2000.ply";
    assert!(!is_stale_reload("generated.ply", current));
    assert!(!is_stale_reload("generated_pruned.ply", current));
    assert!(!is_stale_reload("loaded_1000.txt", current));
    assert!(!is_stale_reload("loaded_1000", current));
    assert!(!is_stale_reload("Loaded_1000.ply", current));
    assert!(!is_stale_reload("xloaded_1000.ply", current));
    assert!(!is_stale_reload(".ply", current));
    assert!(!is_stale_reload("", current));
    assert!(!is_stale_reload("load.ply", current));
}

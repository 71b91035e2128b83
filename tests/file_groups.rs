use the_rust_programming_language::file_groups::{
    extension, file_name, find_suspicious, group_files, FileRecord, GroupMap, NonMatchPolicy,
    ScanError, ID_PATTERN,
};

fn paths(names: &[&str]) -> Vec<String> {
    names.iter().map(|s| s.to_string()).collect()
}

fn group_of(names: &[&str]) -> GroupMap {
    match group_files(ID_PATTERN, &paths(names), NonMatchPolicy::Skip) {
        Ok(m) => m,
        Err(_) => panic!("scan failed"),
    }
}

#[test]
fn base_id_shared_by_serial_variants() {
    let a = FileRecord::classify(ID_PATTERN, "ab-12_a.txt");
    let b = FileRecord::classify(ID_PATTERN, "ab-12_b.txt");
    let a = match a {
        Ok(Some(r)) => r,
        _ => panic!("no record"),
    };
    let b = match b {
        Ok(Some(r)) => r,
        _ => panic!("no record"),
    };
    assert_eq!(a.base_id, "ab-12");
    assert_eq!(b.base_id, "ab-12");
    assert_eq!(a.serial_marker, Some("a".to_string()));
    assert_eq!(b.serial_marker, Some("b".to_string()));
    assert_eq!(a.extension, "txt");
}

#[test]
fn classify_reads_the_file_name_part_of_a_path() {
    let r = match FileRecord::classify(ID_PATTERN, "./photos/xyz-2024.jpg") {
        Ok(Some(r)) => r,
        _ => panic!("no record"),
    };
    assert_eq!(r.path, "./photos/xyz-2024.jpg");
    assert_eq!(r.base_id, "xyz-2024");
    assert_eq!(r.serial_marker, None);
    assert_eq!(r.extension, "jpg");
}

#[test]
fn classify_rejects_short_ids() {
    assert!(matches!(FileRecord::classify(ID_PATTERN, "a-12.txt"), Ok(None)));
    assert!(matches!(FileRecord::classify(ID_PATTERN, "ab-1.txt"), Ok(None)));
    assert!(matches!(FileRecord::classify(ID_PATTERN, "readme.md"), Ok(None)));
}

#[test]
fn grouping_keeps_order_within_a_group() {
    let m = group_of(&["ab-12_c.txt", "ab-12_a.txt", "ab-12_b.txt"]);
    assert_eq!(m.groups.len(), 1);
    assert_eq!(m.groups[0].base_id, "ab-12");
    assert_eq!(
        m.groups[0].paths(),
        vec!["ab-12_c.txt".to_string(), "ab-12_a.txt".to_string(), "ab-12_b.txt".to_string()]
    );
}

#[test]
fn groups_come_in_order_of_first_appearance() {
    let m = group_of(&["cd-34.txt", "ab-12.txt", "cd-34_a.txt", "ab-12.jpg"]);
    assert_eq!(m.len(), 2);
    assert_eq!(m.groups[0].base_id, "cd-34");
    assert_eq!(m.groups[1].base_id, "ab-12");
    assert_eq!(m.groups[0].paths(), vec!["cd-34.txt".to_string(), "cd-34_a.txt".to_string()]);
    assert_eq!(m.groups[1].paths(), vec!["ab-12.txt".to_string(), "ab-12.jpg".to_string()]);
}

#[test]
fn differing_extensions_are_suspicious() {
    let m = group_of(&["ab-12.txt", "ab-12.jpg"]);
    assert!(m.groups[0].has_mixed_extensions());
    assert!(m.groups[0].is_suspicious());
}

#[test]
fn shared_extension_is_not_flagged_on_extension_grounds() {
    let m = group_of(&["ab-12.txt", "ab-12_a.txt"]);
    assert!(!m.groups[0].has_mixed_extensions());
}

#[test]
fn mixed_serial_markers_are_suspicious() {
    let m = group_of(&["ab-12.txt", "ab-12_a.txt"]);
    assert!(m.groups[0].has_mixed_serials());
    assert!(m.groups[0].is_suspicious());
}

#[test]
fn extension_differing_from_a_later_member_is_found() {
    let m = group_of(&["ab-12_a.txt", "ab-12_b.txt", "ab-12_c.png"]);
    assert!(m.groups[0].has_mixed_extensions());
    assert!(!m.groups[0].has_mixed_serials());
}

#[test]
fn consistent_groups_are_not_suspicious() {
    let m = group_of(&["ab-12_a.txt", "ab-12_b.txt", "cd-34.txt", "cd-34.txt"]);
    assert!(!m.groups[0].is_suspicious());
    assert!(!m.groups[1].is_suspicious());
    assert_eq!(m.suspicious_groups().len(), 0);
}

#[test]
fn single_file_group_is_not_suspicious() {
    let m = group_of(&["ab-12.txt"]);
    assert!(!m.groups[0].is_suspicious());
}

#[test]
fn non_matching_name_is_skipped_under_skip() {
    let names = paths(&["ab-12.txt", "readme.md", "cd-34.txt"]);
    let m = match group_files(ID_PATTERN, &names, NonMatchPolicy::Skip) {
        Ok(m) => m,
        Err(_) => panic!("scan failed"),
    };
    assert_eq!(m.len(), 2);
    assert_eq!(m.groups[1].base_id, "cd-34");
}

#[test]
fn non_matching_name_ends_the_scan_under_stop() {
    let names = paths(&["ab-12.txt", "readme.md", "cd-34.txt"]);
    let m = match group_files(ID_PATTERN, &names, NonMatchPolicy::Stop) {
        Ok(m) => m,
        Err(_) => panic!("scan failed"),
    };
    assert_eq!(m.len(), 1);
    assert_eq!(m.groups[0].base_id, "ab-12");
}

#[test]
fn empty_directory_gives_no_groups_and_no_report() {
    let m = group_of(&[]);
    assert_eq!(m.len(), 0);
    match find_suspicious(&Vec::new(), NonMatchPolicy::Skip) {
        Ok(gs) => assert!(gs.is_empty()),
        Err(_) => panic!("scan failed"),
    }
}

#[test]
fn find_suspicious_reports_only_flagged_groups() {
    let names = paths(&["ab-12.txt", "cd-34_a.txt", "ab-12.jpg", "cd-34_b.txt", "ef-56.txt", "ef-56_x.txt"]);
    let gs = match find_suspicious(&names, NonMatchPolicy::Skip) {
        Ok(gs) => gs,
        Err(_) => panic!("scan failed"),
    };
    assert_eq!(gs.len(), 2);
    assert_eq!(gs[0].base_id, "ab-12");
    assert_eq!(gs[1].base_id, "ef-56");
    assert_eq!(gs[1].paths(), vec!["ef-56.txt".to_string(), "ef-56_x.txt".to_string()]);
}

#[test]
fn missing_extension_is_an_error() {
    let names = paths(&["ab-12.txt", "ab-12"]);
    match group_files(ID_PATTERN, &names, NonMatchPolicy::Skip) {
        Err(ScanError::MissingExtension(p)) => assert_eq!(p, "ab-12"),
        _ => panic!("expected a missing extension"),
    }
}

#[test]
fn invalid_pattern_is_an_error() {
    let names = paths(&["ab-12.txt"]);
    assert!(matches!(group_files("(", &names, NonMatchPolicy::Skip), Err(ScanError::InvalidPattern)));
}

#[test]
fn invalid_pattern_on_no_files_is_no_error() {
    assert!(matches!(group_files("(", &Vec::new(), NonMatchPolicy::Skip), Ok(_)));
}

#[test]
fn extensions_follow_the_last_dot() {
    assert_eq!(extension("a.tar.gz"), Some("gz".to_string()));
    assert_eq!(extension("name."), Some("".to_string()));
    assert_eq!(extension(".hidden"), None);
    assert_eq!(extension(".hidden.txt"), Some("txt".to_string()));
    assert_eq!(extension("plain"), None);
    assert_eq!(extension(".."), None);
}

#[test]
fn file_name_is_the_part_after_the_last_slash() {
    assert_eq!(file_name("./a/b/ab-12.txt"), "ab-12.txt");
    assert_eq!(file_name("ab-12.txt"), "ab-12.txt");
    assert_eq!(file_name("dir/"), "");
}

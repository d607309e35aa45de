use rusty_mod_manager::file_structure::{case_fold_path_in_roots, fold_segment, FileStructureSegment};

fn leaf(name: &str, is_file: bool) -> FileStructureSegment {
    FileStructureSegment::new(String::from(name), is_file, None)
}

fn sample_tree() -> FileStructureSegment {
    FileStructureSegment::new(
        String::from("Segment1"),
        false,
        Some(vec![
            leaf("Segment2", false),
            leaf("Segment3", false),
            leaf("Segment4-File", true),
        ]),
    )
}

fn segs(parts: &[&str]) -> Vec<String> {
    parts.iter().map(|s| s.to_string()).collect()
}

#[test]
fn file_structure_segment_case_folding_works() {
    let file_structure = sample_tree();

    assert_eq!(
        file_structure.case_fold_path(vec!["Segment1".to_string()]),
        Some(String::from("Segment1"))
    );
    assert_eq!(
        file_structure.case_fold_path(vec!["Segment1".to_string(), "Segment2".to_string()]),
        Some(String::from("Segment1/Segment2"))
    );
    assert_eq!(
        file_structure.case_fold_path(vec![
            "Segment1".to_string(),
            "Some-Non-Existing-Path".to_string()
        ]),
        Some(String::from("Segment1/some-non-existing-path"))
    );
    assert_eq!(
        file_structure.case_fold_path(vec![
            "Segment1".to_string(),
            "Segment2".to_string(),
            "Some-Non-Existing-Path".to_string()
        ]),
        Some(String::from("Segment1/Segment2/some-non-existing-path"))
    );
    assert_eq!(
        file_structure.case_fold_path(vec![
            "Segment1".to_string(),
            "Segment2".to_string(),
            "AFile.ext".to_string()
        ]),
        Some(String::from("Segment1/Segment2/afile.ext"))
    );
    assert_eq!(
        file_structure.case_fold_path(vec!["Path-that-is-not-in-the-structure".to_string()]),
        None
    );
    assert_eq!(
        file_structure.case_fold_path(vec!["Inexistent-path1".to_string(), "Path2".to_string()]),
        None
    );
}

#[test]
fn canonical_path_is_returned_unchanged() {
    let roots = vec![sample_tree(), leaf("Other", false)];
    assert_eq!(
        case_fold_path_in_roots(&roots, segs(&["Segment1", "Segment4-File"])),
        Some(String::from("Segment1/Segment4-File"))
    );
    assert_eq!(
        case_fold_path_in_roots(&roots, segs(&["Other"])),
        Some(String::from("Other"))
    );
}

#[test]
fn tree_casing_wins_over_input_casing() {
    let roots = vec![sample_tree()];
    assert_eq!(
        case_fold_path_in_roots(&roots, segs(&["SEGMENT1", "segment3"])),
        Some(String::from("Segment1/Segment3"))
    );
}

#[test]
fn no_matching_root_gives_no_match() {
    let roots = vec![sample_tree(), leaf("Other", false)];
    assert_eq!(case_fold_path_in_roots(&roots, segs(&["Elsewhere", "Segment2"])), None);
    let empty: Vec<FileStructureSegment> = Vec::new();
    assert_eq!(case_fold_path_in_roots(&empty, segs(&["Segment1"])), None);
}

#[test]
fn unknown_child_is_lowercased_after_known_parent() {
    let roots = vec![FileStructureSegment::new(String::from("Seg1"), false, Some(vec![leaf("Known", false)]))];
    assert_eq!(
        case_fold_path_in_roots(&roots, segs(&["Seg1", "Unknown"])),
        Some(String::from("Seg1/unknown"))
    );
    assert_eq!(
        case_fold_path_in_roots(&roots, segs(&["seg1", "Unknown", "Deeper.TXT"])),
        Some(String::from("Seg1/unknown/deeper.txt"))
    );
}

#[test]
fn empty_path_has_no_match() {
    assert_eq!(sample_tree().case_fold_path(Vec::new()), None);
}

#[test]
fn first_matching_root_wins() {
    let roots = vec![leaf("Data", false), leaf("DATA", false)];
    assert_eq!(case_fold_path_in_roots(&roots, segs(&["data"])), Some(String::from("Data")));
}

#[test]
fn node_step_on_folded_values() {
    let seg = String::from("Seg1");
    let low = String::from("seg1");
    let other = String::from("seg2");
    let rest = String::from("unknown");
    assert_eq!(fold_segment(&seg, &other, &low, 2, None, &rest), None);
    assert_eq!(fold_segment(&seg, &low, &low, 1, None, &rest), Some(String::from("Seg1")));
    assert_eq!(fold_segment(&seg, &low, &low, 2, None, &rest), Some(String::from("Seg1/unknown")));
    assert_eq!(
        fold_segment(&seg, &low, &low, 3, Some(String::from("Known/x")), &rest),
        Some(String::from("Seg1/Known/x"))
    );
}

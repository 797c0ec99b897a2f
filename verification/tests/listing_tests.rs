use file_explorer::{build_listing, extension_of, sort_items, DirEntryInfo, FileItem, FileKind};

fn entry(name: &str, is_dir: bool) -> DirEntryInfo {
    DirEntryInfo {
        name: name.to_string(),
        is_dir,
        size: 42,
        date_modified_ms: 1_700_000_000_000,
        path: format!("/base/{}", name),
    }
}

#[test]
fn folders_first_then_case_insensitive_names() {
    let entries = vec![entry("b.txt", false), entry("A", true), entry("a.txt", false)];
    let items = build_listing(entries);
    let names: Vec<&str> = items.iter().map(|i| i.name.as_str()).collect();
    assert_eq!(names, vec!["A", "a.txt", "b.txt"]);
}

#[test]
fn ids_follow_reading_order() {
    let entries = vec![entry("b.txt", false), entry("A", true), entry("a.txt", false)];
    let items = build_listing(entries);
    assert_eq!(items[0].id, 1); // "A" was read second
    assert_eq!(items[1].id, 2); // "a.txt" was read third
    assert_eq!(items[2].id, 0); // "b.txt" was read first
}

#[test]
fn case_insensitive_order_crosses_ascii_case_gap() {
    // Byte-wise, 'B' < 'a'; case-insensitively, "a.txt" comes first.
    let entries = vec![entry("B.txt", false), entry("a.txt", false)];
    let items = build_listing(entries);
    let names: Vec<&str> = items.iter().map(|i| i.name.as_str()).collect();
    assert_eq!(names, vec!["a.txt", "B.txt"]);
}

#[test]
fn folder_items_carry_no_size_and_no_extension() {
    let entries = vec![entry("stuff.d", true), entry("file.txt", false)];
    let items = build_listing(entries);
    assert_eq!(items[0].name, "stuff.d");
    assert_eq!(items[0].file_type, FileKind::Folder);
    assert_eq!(items[0].size, None);
    assert_eq!(items[0].extension, None);
    assert_eq!(items[1].file_type, FileKind::File);
    assert_eq!(items[1].size, Some(42));
    assert_eq!(items[1].extension, Some("txt".to_string()));
    assert_eq!(items[1].path, "/base/file.txt");
}

#[test]
fn sort_items_orders_a_prepared_listing() {
    let a = FileItem {
        id: 0,
        name: "zeta".to_string(),
        file_type: FileKind::File,
        size: Some(1),
        date_modified_ms: 0,
        extension: None,
        path: "/zeta".to_string(),
    };
    let b = FileItem {
        id: 1,
        name: "Alpha".to_string(),
        file_type: FileKind::File,
        size: Some(2),
        date_modified_ms: 0,
        extension: None,
        path: "/Alpha".to_string(),
    };
    let sorted = sort_items(vec![a, b]);
    let names: Vec<&str> = sorted.iter().map(|i| i.name.as_str()).collect();
    assert_eq!(names, vec!["Alpha", "zeta"]);
}

#[test]
fn extension_after_final_dot() {
    assert_eq!(extension_of("notes.txt"), Some("txt".to_string()));
    assert_eq!(extension_of("archive.tar.gz"), Some("gz".to_string()));
}

#[test]
fn extension_absent_without_dot_or_for_hidden_names() {
    assert_eq!(extension_of("Makefile"), None);
    assert_eq!(extension_of(".hidden"), None);
}

#[test]
fn extension_of_trailing_dot_is_empty() {
    assert_eq!(extension_of("name."), Some(String::new()));
}

use file_explorer::{assemble_text, effective_cap, read_budget, DEFAULT_MAX_BYTES};

#[test]
fn reading_past_the_cap_truncates_to_the_cap() {
    // A 20-byte file read with a 10-byte cap: the caller hands in the
    // first 10 bytes.
    let on_disk = b"0123456789abcdefghij";
    let cap: u64 = 10;
    let budget = read_budget(on_disk.len() as u64, cap);
    assert_eq!(budget, 10);
    let bytes = on_disk[..budget as usize].to_vec();
    let content = assemble_text(bytes, on_disk.len() as u64, cap);
    assert!(content.truncated);
    assert_eq!(content.content.len() as u64, cap);
    assert_eq!(content.content, "0123456789");
    assert_eq!(content.size, 20);
    assert_eq!(content.encoding, "UTF-8");
}

#[test]
fn reading_under_the_cap_returns_everything() {
    let on_disk = b"hello";
    let cap: u64 = 100;
    let budget = read_budget(on_disk.len() as u64, cap);
    assert_eq!(budget, 5);
    let content = assemble_text(on_disk.to_vec(), on_disk.len() as u64, cap);
    assert!(!content.truncated);
    assert_eq!(content.content, "hello");
    assert_eq!(content.size, 5);
}

#[test]
fn malformed_bytes_are_replaced_not_rejected() {
    let bytes = vec![0x68, 0x69, 0xFF];
    let content = assemble_text(bytes, 3, 100);
    assert_eq!(content.content, "hi\u{FFFD}");
    assert!(!content.truncated);
}

#[test]
fn default_cap_is_four_mebibytes() {
    assert_eq!(effective_cap(None), 4 * 1024 * 1024);
    assert_eq!(effective_cap(None), DEFAULT_MAX_BYTES);
    assert_eq!(effective_cap(Some(512)), 512);
}

#[test]
fn empty_file_decodes_to_empty_content() {
    let content = assemble_text(Vec::new(), 0, DEFAULT_MAX_BYTES);
    assert_eq!(content.content, "");
    assert!(!content.truncated);
    assert_eq!(content.size, 0);
}

use novalyn::changelog::{extract_top_block, prepare_changelog_update};

fn write_or_update(existing: &mut String, new_block: &str) -> bool {
    match prepare_changelog_update(existing, new_block) {
        Some(text) => {
            *existing = text;
            true
        }
        None => false,
    }
}

#[test]
fn prepends_when_missing() {
    let mut file = "# Changelog\n".to_string();
    let changed = write_or_update(&mut file, "## v1.0.0\nNotes\n");
    assert!(changed);
    assert!(file.starts_with("## v1.0.0"));
}

#[test]
fn second_release_inserts_above() {
    let mut file = "# Changelog\n".to_string();
    write_or_update(&mut file, "## v1.0.0\nOld\n");
    let changed = write_or_update(&mut file, "## v1.1.0\nNew stuff\n");
    assert!(changed);
    assert!(file.starts_with("## v1.1.0"));
    assert!(file.contains("## v1.0.0"));
}

#[test]
fn idempotent_same_top_block() {
    let mut file = "# Changelog\n".to_string();
    let block = "## v1.0.0\nBody\n";
    write_or_update(&mut file, block);
    let changed = write_or_update(&mut file, block);
    assert!(!changed);
}

#[test]
fn updated_text_is_the_block_and_the_old_text() {
    assert_eq!(
        prepare_changelog_update("# Changelog\n", "## v1.0.0\nNotes\n\n\n"),
        Some("## v1.0.0\nNotes\n# Changelog\n".to_string())
    );
    assert_eq!(
        prepare_changelog_update("plain text", "## v1\n"),
        Some("## v1\n\nplain text".to_string())
    );
    assert_eq!(prepare_changelog_update("", "## v1"), Some("## v1\n\n".to_string()));
    assert_eq!(prepare_changelog_update("# Changelog\n## v1\nA\n## v0\nB\n", "## v1\nA"), None);
    assert_eq!(prepare_changelog_update("# Changelog\n## v1\nA\nmore\n", "## v1\nA"), None);
    assert_eq!(
        prepare_changelog_update("# Title\n## v1\nA\nmore\n", "## v1\nA"),
        Some("## v1\nA\n# Title\n## v1\nA\nmore\n".to_string())
    );
    assert_eq!(
        prepare_changelog_update("# Changelog\n## v1\nA and more\n", "## v1\nA"),
        Some("## v1\nA\n# Changelog\n## v1\nA and more\n".to_string())
    );
}

#[test]
fn top_block_runs_to_the_next_heading() {
    assert_eq!(
        extract_top_block("# Changelog\n\nintro\n## v2\nb\n\n## v1\na\n"),
        Some("## v2\nb\n\n".to_string())
    );
    assert_eq!(extract_top_block("## v1\r\na"), Some("## v1\na\n".to_string()));
    assert_eq!(extract_top_block("## only"), Some("## only\n".to_string()));
    assert_eq!(extract_top_block("# Changelog\nno releases\n"), None);
    assert_eq!(extract_top_block("##v1 is no heading\n"), None);
    assert_eq!(extract_top_block(""), None);
    assert_eq!(extract_top_block("# A\n# B\n## v1\n"), Some("## v1\n".to_string()));
}

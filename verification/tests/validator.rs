use file_handoff::validator::{ends_with, has_markdown_suffix, is_markdown_file, validate};

fn accepted(path: &str) {
    assert_eq!(validate(Some(String::from(path))), Some(String::from(path)));
    assert!(is_markdown_file(path));
}

fn rejected(path: &str) {
    assert_eq!(validate(Some(String::from(path))), None);
    assert!(!is_markdown_file(path));
}

#[test]
fn absent_candidate_stays_absent() {
    assert_eq!(validate(None), None);
}

#[test]
fn lower_case_extensions_are_accepted() {
    accepted("notes.md");
    accepted("draft.markdown");
    accepted("/home/user/docs/readme.md");
    accepted("C:\\Users\\me\\todo.markdown");
}

#[test]
fn extensions_are_matched_in_any_case() {
    accepted("notes.MD");
    accepted("notes.Md");
    accepted("notes.mD");
    accepted("DRAFT.MARKDOWN");
    accepted("Draft.MarkDown");
}

#[test]
fn accepted_path_keeps_its_case() {
    assert_eq!(
        validate(Some(String::from("Notes.MD"))),
        Some(String::from("Notes.MD"))
    );
    assert_ne!(
        validate(Some(String::from("Notes.MD"))),
        Some(String::from("notes.md"))
    );
}

#[test]
fn other_extensions_are_rejected() {
    rejected("report.txt");
    rejected("notes.mdx");
    rejected("notes.md.txt");
    rejected("notes.markdown.bak");
    rejected("notes.mkd");
    rejected("notes.md ");
}

#[test]
fn extension_needs_its_dot() {
    rejected("md");
    rejected("markdown");
    rejected("notesmd");
    rejected("notes_markdown");
    rejected("");
}

#[test]
fn bare_extension_is_accepted() {
    accepted(".md");
    accepted(".markdown");
    accepted(".MD");
}

#[test]
fn nonexistent_file_is_still_valid() {
    accepted("/no/such/directory/anywhere/ghost.md");
}

#[test]
fn lower_casing_follows_unicode() {
    // U+212A, the Kelvin sign, has the ASCII letter k as its lower case.
    accepted("notes.mar\u{212A}down");
    accepted("Ärger.MD");
    rejected("notes.m\u{0110}");
}

#[test]
fn suffix_check_expects_lower_case() {
    assert!(has_markdown_suffix("notes.md"));
    assert!(has_markdown_suffix("notes.markdown"));
    assert!(has_markdown_suffix(".md"));
    assert!(!has_markdown_suffix("notes.MD"));
    assert!(!has_markdown_suffix("notes.MARKDOWN"));
    assert!(!has_markdown_suffix("report.txt"));
    assert!(!has_markdown_suffix(""));
    assert!(!has_markdown_suffix("md"));
}

#[test]
fn ends_with_compares_characters() {
    assert!(ends_with("notes.md", ".md"));
    assert!(ends_with("notes.md", ""));
    assert!(ends_with("", ""));
    assert!(ends_with("abc", "abc"));
    assert!(!ends_with("bc", "abc"));
    assert!(!ends_with("notes.md", ".MD"));
    assert!(!ends_with("notes.md", "notes"));
    assert!(ends_with("grüße", "üße"));
    assert!(!ends_with("grüße", "usse"));
}

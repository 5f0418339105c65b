use checkmark::document::{CheckIssue, IssueCategory, IssueSeverity, MarkDownFile};
use checkmark::spelling::spell_check;

const DUMMY_FILE_PATH: &str = "this/is/a/dummy/path/to/a/file.md";

fn assert_has_issues(content: &str, whitelist: &Vec<String>, issues: &Vec<CheckIssue>) {
    let markdown = MarkDownFile {
        path: DUMMY_FILE_PATH.to_owned(),
        content: content.to_owned(),
        issues: vec![],
    };
    assert_eq!(&spell_check(&markdown, whitelist), issues);
}

fn assert_has_no_issues(content: &str, whitelist: &Vec<String>) {
    assert_has_issues(content, whitelist, &vec![]);
}

#[test]
fn spelling_apostrophe_supported() {
    assert_has_no_issues("# Don't", &vec![]);
    assert_has_no_issues("# Couldn't", &vec![]);
    assert_has_no_issues("# Won't", &vec![]);
}

#[test]
fn spelling_respect_owned_form() {
    assert_has_no_issues("# Project's", &vec![]);
}

#[test]
fn spelling_skip_quoted() {
    assert_has_no_issues("# Single quoted './report.sarif'", &vec![]);
    assert_has_no_issues("# Double quoted \"./report.sarif\"", &vec![]);
}

#[test]
fn spelling_skip_numbers() {
    assert_has_no_issues("# Number here 42", &vec![]);
}

#[test]
fn spelling_consider_abbreviation() {
    assert_has_no_issues(
        "# p.s. this is an example a.k.a. Example e.g. yeah, and etc.",
        &vec![],
    );
}

#[test]
fn spelling_known_misspelling_reported() {
    let content = "# The adress\n";
    let markdown = MarkDownFile {
        path: DUMMY_FILE_PATH.to_owned(),
        content: content.to_owned(),
        issues: vec![],
    };
    let issues = spell_check(&markdown, &vec![]);
    assert_eq!(issues.len(), 1);
    let issue = &issues[0];
    assert_eq!(issue.category, IssueCategory::Spelling);
    assert_eq!(issue.severity, IssueSeverity::Warning);
    assert_eq!(issue.offset_start, 6);
    assert_eq!(issue.offset_end, 12);
    assert_eq!(issue.row_num_start, 1);
    assert_eq!(issue.col_num_start, 3);
    assert_eq!(issue.message, "Word \"adress\" is unknown or miss-spelled");
    assert_eq!(issue.fixes[0], "Consider changing \"adress\" to \"address\"");
}

#[test]
fn spelling_whitelist_respected() {
    let markdown = MarkDownFile {
        path: DUMMY_FILE_PATH.to_owned(),
        content: "# The adress\n".to_owned(),
        issues: vec![],
    };
    assert!(spell_check(&markdown, &vec!["adress".to_string()]).is_empty());
}

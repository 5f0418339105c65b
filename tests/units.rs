use checkmark::checker::{plan, Pass};
use checkmark::config::{apply_style_options, parse_bold_style, parse_heading_style, parse_unordered_list_style};
use checkmark::config::{BoldStyle, StyleConfig, UnorderedListStyle};
use checkmark::document::{CheckIssue, IssueCategory, IssueSeverity, MarkDownFile};
use checkmark::engine::{run_rules, to_check_issue, RuleSet};
use checkmark::format_check::{count_lines, decimal_string, format_issues};
use checkmark::md003::HeadingStyle;
use checkmark::position::{find_offset_by_line_number, line_column_of, Position};
use checkmark::review::{find_index, grammar_issue, record_grammar_suggestion, record_review, Review, ReviewSuggestion};
use checkmark::violation::ViolationBuilder;

fn file(content: &str) -> MarkDownFile {
    MarkDownFile { path: String::from("doc.md"), content: content.to_string(), issues: vec![] }
}

#[test]
fn offsets_of_lines() {
    let t = b"ab\ncd\n\nef";
    assert_eq!(find_offset_by_line_number(t, 0), 0);
    assert_eq!(find_offset_by_line_number(t, 1), 3);
    assert_eq!(find_offset_by_line_number(t, 2), 6);
    assert_eq!(find_offset_by_line_number(t, 3), 7);
    assert_eq!(find_offset_by_line_number(t, 9), 9);
    assert_eq!(line_column_of(t, 0), (1, 1));
    assert_eq!(line_column_of(t, 4), (2, 2));
    assert_eq!(line_column_of(t, 8), (4, 2));
}

#[test]
fn builder_keeps_fix_order() {
    let v = ViolationBuilder::default()
        .code("X1")
        .push_fix("first")
        .push_fix("second")
        .position(Position::new(1, 1, 0, 1, 2, 1))
        .build();
    assert_eq!(v.fixes, vec!["first".to_string(), "second".to_string()]);
    assert_eq!(v.code, "X1");
    assert!(!v.is_fmt_fixable);
    assert_eq!(HeadingStyle::SetExt.as_str(), "SetExt");
    assert_eq!(HeadingStyle::Consistent.as_str(), "consistent");
}

#[test]
fn style_strings_parsed_or_kept() {
    assert_eq!(parse_heading_style("atx", HeadingStyle::Consistent), (HeadingStyle::Atx, false));
    assert_eq!(parse_heading_style("ATX", HeadingStyle::SetExt), (HeadingStyle::SetExt, true));
    assert_eq!(parse_unordered_list_style("plus", UnorderedListStyle::Dash), (UnorderedListStyle::Plus, false));
    assert_eq!(parse_bold_style("bold", BoldStyle::Underscore), (BoldStyle::Underscore, true));
    let start = StyleConfig {
        headings: HeadingStyle::Consistent,
        unordered_lists: UnorderedListStyle::Consistent,
        bold: BoldStyle::Consistent,
    };
    let (s, warnings) = apply_style_options(start, &Some("setext".into()), &Some("stars".into()), &None);
    assert_eq!(s.headings, HeadingStyle::SetExt);
    assert_eq!(s.unordered_lists, UnorderedListStyle::Consistent);
    assert_eq!(warnings, vec!["stars".to_string()]);
}

#[test]
fn pass_plan_depends_on_grammar() {
    assert_eq!(plan(true), vec![Pass::Format, Pass::LinkCheck, Pass::Grammar, Pass::Spelling, Pass::Lint]);
    assert_eq!(plan(false), vec![Pass::Format, Pass::LinkCheck, Pass::Spelling, Pass::Lint]);
}

#[test]
fn format_issue_when_text_changes() {
    assert!(format_issues("a.md", "# A\n", "# A\n").is_empty());
    let r = format_issues("a.md", "# A\ntext\n", "# A\n\ntext\n");
    assert_eq!(r.len(), 1);
    assert_eq!(r[0].id, "MD001");
    assert_eq!(r[0].file_path, "a.md:1.0-3.0");
    assert_eq!(r[0].category, "Format");
    assert_eq!(r[0].suggestions, vec!["Try auto-formatting a file with '--autoformat' flag".to_string()]);
    assert_eq!(decimal_string(0), "0");
    assert_eq!(decimal_string(1207), "1207");
    assert_eq!(count_lines(b""), 0);
    assert_eq!(count_lines(b"a\n\nb"), 3);
    assert_eq!(count_lines(b"a\n"), 1);
}

#[test]
fn substring_located() {
    assert_eq!(find_index(b"hello world", b"world"), (6, 11));
    assert_eq!(find_index(b"abab", b"ab"), (0, 2));
    assert_eq!(find_index(b"abc", b"zz"), (0, 0));
}

#[test]
fn grammar_issue_built() {
    let i = grammar_issue("doc.md", Some(Position::new(2, 3, 10, 2, 8, 15)), "Fixed text");
    assert_eq!(i.category, IssueCategory::Grammar);
    assert_eq!(i.severity, IssueSeverity::Warning);
    assert_eq!((i.row_num_start, i.col_num_start, i.offset_start, i.offset_end), (2, 3, 10, 15));
    assert_eq!(i.fixes, vec!["Consider changing to: \nFixed text".to_string()]);
    let mut f = file("Some text");
    record_grammar_suggestion(&mut f, None, "x");
    assert_eq!(f.issues.len(), 1);
    assert_eq!(f.issues[0].offset_end, 0);
}

#[test]
fn review_issues_recorded() {
    let mut f = file("Intro line.\nSecond line.");
    let review = Review {
        summary: String::from("Looks fine"),
        suggestions: vec![ReviewSuggestion {
            original: String::from("Second"),
            replacement: String::from("Next"),
            description: String::from("Word choice"),
        }],
    };
    record_review(&mut f, &review, true);
    assert_eq!(f.issues.len(), 2);
    assert_eq!(f.issues[0].severity, IssueSeverity::Help);
    assert_eq!(f.issues[0].offset_end, 24);
    assert_eq!(f.issues[0].fixes, vec!["Looks fine".to_string()]);
    assert_eq!(f.issues[1].severity, IssueSeverity::Note);
    assert_eq!((f.issues[1].offset_start, f.issues[1].offset_end), (12, 18));
    assert_eq!(f.issues[1].fixes, vec!["Consider following change: \nNext".to_string()]);
    let mut g = file("Text");
    record_review(&mut g, &Review { summary: String::from("s"), suggestions: vec![] }, true);
    assert!(g.issues.is_empty());
}

#[test]
fn engine_runs_rules_in_order() {
    let f = file("# A\n\nB\n-\n\n#  C\n");
    let style = StyleConfig {
        headings: HeadingStyle::Consistent,
        unordered_lists: UnorderedListStyle::Consistent,
        bold: BoldStyle::Consistent,
    };
    let all = run_rules(&f, RuleSet { heading_style: true, multiple_spaces_after_hash: true }, style);
    let codes: Vec<String> = all.iter().map(|v| v.code.clone()).collect();
    assert_eq!(codes, vec!["MD003", "MD019"]);
    let none = run_rules(&f, RuleSet { heading_style: false, multiple_spaces_after_hash: false }, style);
    assert!(none.is_empty());
    let issue: CheckIssue = to_check_issue("doc.md", all[1].clone());
    assert_eq!(issue.category, IssueCategory::Linting);
    assert_eq!(issue.message, "MD019: Multiple spaces after hash on atx style heading");
    assert_eq!(issue.row_num_start, 6);
}

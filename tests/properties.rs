use checkmark::checker::{check_outcome, merge_results, Issue};
use checkmark::document::MarkDownFile;
use checkmark::links::dedup_links;
use checkmark::md003::{md003_check_headings, md003_heading_style, HeadingStyle};
use checkmark::md019::md019_multiple_spaces_after_hash_on_atx_style_heading;
use checkmark::position::line_column_of;
use checkmark::violation::Violation;

fn file(content: &str) -> MarkDownFile {
    MarkDownFile { path: String::from("doc.md"), content: content.to_string(), issues: vec![] }
}

fn issue(id: &str) -> Issue {
    Issue {
        id: id.to_string(),
        file_path: String::from("doc.md"),
        category: String::from("Lint"),
        description: String::from("d"),
        issue_in_code: None,
        suggestions: vec![],
    }
}

#[test]
fn heading_rule_without_headings_reports_nothing() {
    for style in [HeadingStyle::Consistent, HeadingStyle::Atx, HeadingStyle::SetExt] {
        assert!(md003_heading_style(&file("Just a paragraph.\n\n- item\n"), &style).is_empty());
        assert!(md003_check_headings(b"text", &vec![], &style).is_empty());
    }
}

#[test]
fn heading_rule_consistent_with_one_style_reports_nothing() {
    assert!(md003_heading_style(&file("# A\n\n## B\n\n# C\n"), &HeadingStyle::Consistent).is_empty());
    assert!(md003_heading_style(&file("A\n===\n\nB\n---\n"), &HeadingStyle::Consistent).is_empty());
}

#[test]
fn heading_rule_is_idempotent() {
    let f = file("# A\n\nB\n---\n\n# C\n\nD\n===\n");
    let first = md003_heading_style(&f, &HeadingStyle::Consistent);
    let second = md003_heading_style(&f, &HeadingStyle::Consistent);
    assert_eq!(first.len(), 2);
    assert_eq!(first, second);
}

fn assert_spans_located(content: &str, violations: &[Violation]) {
    let bytes = content.as_bytes();
    for v in violations {
        let p = v.position;
        assert!(p.end_offset >= p.start_offset);
        assert!(p.end_offset > p.start_offset);
        assert!(!content[p.start_offset..p.end_offset].is_empty());
        assert_eq!(line_column_of(bytes, p.start_offset), (p.start_line, p.start_column));
    }
}

#[test]
fn violations_lie_at_their_reported_place() {
    let content = "# A\n\nB\n---\n\n##   C\n\nD\n===\n";
    let f = file(content);
    let headings = md003_heading_style(&f, &HeadingStyle::Consistent);
    assert_eq!(headings.len(), 2);
    assert_spans_located(content, &headings);
    let spaces = md019_multiple_spaces_after_hash_on_atx_style_heading(&f);
    assert_eq!(spaces.len(), 1);
    assert_eq!(spaces[0].position.start_line, 6);
    assert_eq!(spaces[0].position.end_offset - spaces[0].position.start_offset, 5);
    assert_spans_located(content, &spaces);
}

#[test]
fn heading_rule_consistent_flags_second_heading() {
    let v = md003_heading_style(&file("# H1\n\nH2\n-----"), &HeadingStyle::Consistent);
    assert_eq!(v.len(), 1);
    assert_eq!(v[0].position.start_line, 3);
    assert_eq!(
        v[0].message,
        "Inconsistent headings style. First heading in this file is \"ATX\", but this one is \"SetExt\""
    );
    assert_eq!(v[0].fixes.len(), 3);
    assert_eq!(v[0].fixes[0], "Change heading style to \"ATX\"");
}

#[test]
fn heading_rule_forced_setext() {
    let v = md003_heading_style(&file("# H1"), &HeadingStyle::SetExt);
    assert_eq!(v.len(), 1);
    assert_eq!(v[0].message, "Wrong heading style. Expected \"setext\", got \"ATX\"");
    assert_eq!(v[0].code, "MD003");
    assert!(v[0].is_fmt_fixable);
}

#[test]
fn single_space_after_hash_is_fine() {
    assert!(md019_multiple_spaces_after_hash_on_atx_style_heading(&file("# fff")).is_empty());
    assert!(md019_multiple_spaces_after_hash_on_atx_style_heading(&file("")).is_empty());
    assert!(md019_multiple_spaces_after_hash_on_atx_style_heading(&file("no heading   here")).is_empty());
}

#[test]
fn multiple_spaces_after_hash_on_later_line() {
    let v = md019_multiple_spaces_after_hash_on_atx_style_heading(&file("text\r\n##  two\n"));
    assert_eq!(v.len(), 1);
    assert_eq!(v[0].position.start_line, 2);
    assert_eq!(v[0].position.start_offset, 6);
    assert_eq!(v[0].position.end_offset, 10);
    assert_eq!(v[0].position.end_column, 5);
}

#[test]
fn links_with_and_without_trailing_slash_both_ignored() {
    let links = vec![
        (String::from("https://example.com/docs"), 1u32),
        (String::from("https://example.com/docs/"), 2u32),
        (String::from("https://other.org/"), 3u32),
    ];
    let kept = dedup_links(links, &vec![String::from("https://example.com/*")]);
    assert_eq!(kept, vec![(String::from("https://other.org/"), 3u32)]);
}

#[test]
fn links_deduplicated_keeping_first() {
    let links = vec![
        (String::from("https://a.io"), 1u32),
        (String::from("https://b.io"), 2u32),
        (String::from("https://a.io"), 3u32),
    ];
    let kept = dedup_links(links, &vec![String::from("https://c.?o")]);
    assert_eq!(kept, vec![(String::from("https://a.io"), 1u32), (String::from("https://b.io"), 2u32)]);
    let all_ignored = dedup_links(vec![(String::from("https://c.io/"), 1u32)], &vec![String::from("https://c.?o")]);
    assert!(all_ignored.is_empty());
}

#[test]
fn skipped_grammar_pass_changes_nothing() {
    let with_skip = check_outcome::<String>(
        Ok(vec![issue("f")]),
        Ok(vec![issue("l")]),
        None,
        Ok(vec![issue("s")]),
        Ok(vec![issue("x")]),
    );
    let without = merge_results::<String>(vec![
        Ok(vec![issue("f")]),
        Ok(vec![issue("l")]),
        Ok(vec![issue("s")]),
        Ok(vec![issue("x")]),
    ]);
    assert_eq!(with_skip, without);
    let ids: Vec<String> = with_skip.unwrap().into_iter().map(|i| i.id).collect();
    assert_eq!(ids, vec!["f", "l", "s", "x"]);
}

#[test]
fn failed_mandatory_pass_aborts_report() {
    let r = check_outcome::<String>(
        Ok(vec![issue("f")]),
        Err(String::from("links down")),
        Some(Ok(vec![issue("g")])),
        Err(String::from("later")),
        Ok(vec![]),
    );
    assert_eq!(r, Err(String::from("links down")));
    let g = check_outcome::<String>(Ok(vec![]), Ok(vec![]), Some(Ok(vec![issue("g")])), Ok(vec![]), Ok(vec![issue("x")]));
    let ids: Vec<String> = g.unwrap().into_iter().map(|i| i.id).collect();
    assert_eq!(ids, vec!["g", "x"]);
}

use checkmark::document::MarkDownFile;
use checkmark::md003::{self, md003_heading_style, HeadingStyle};
use checkmark::md019::{self, md019_multiple_spaces_after_hash_on_atx_style_heading};
use checkmark::position::Position;
use checkmark::violation::Violation;

const DUMMY_FILE_PATH: &str = "this/is/a/dummy/path/to/a/file.md";

fn file(content: &str) -> MarkDownFile {
    MarkDownFile {
        path: String::from(DUMMY_FILE_PATH),
        content: content.to_string(),
        issues: vec![],
    }
}

fn md003_expected(message: &str, preferred: &str, position: Position) -> Violation {
    md003::violation_builder()
        .message(message)
        .push_fix(&format!("Change heading style to \"{}\"", preferred))
        .push_fix("Alternatively, you can enforce specific heading style via either \"headings\" option from the \"[style]\" section in config file or via \"--style-headings\" CLI option")
        .push_fix("See Markdown headings reference: https://www.markdownguide.org/basic-syntax/#headings")
        .position(position)
        .build()
}

#[test]
fn md003() {
    let mut f = file("# H1
        
H2
-----");
    assert_eq!(
        vec![md003_expected(
            "Inconsistent headings style. First heading in this file is \"ATX\", but this one is \"SetExt\"",
            "ATX",
            Position::new(3, 1, 14, 4, 6, 22),
        )],
        md003_heading_style(&f, &HeadingStyle::Consistent),
    );

    f = file("# H1");
    assert_eq!(
        vec![md003_expected(
            "Wrong heading style. Expected \"setext\", got \"ATX\"",
            "SetExt",
            Position::new(1, 1, 0, 1, 5, 4),
        )],
        md003_heading_style(&f, &HeadingStyle::SetExt),
    );

    f = file("H1
===========");
    assert_eq!(
        vec![md003_expected(
            "Wrong heading style. Expected \"atx\", got \"SetExt\"",
            "ATX",
            Position::new(1, 1, 0, 2, 12, 14),
        )],
        md003_heading_style(&f, &HeadingStyle::Atx),
    );
}

#[test]
fn md019() {
    let f = file("#   fff");
    assert_eq!(
        vec![md019::violation_builder().position(Position::new(1, 1, 0, 1, 5, 4)).build()],
        md019_multiple_spaces_after_hash_on_atx_style_heading(&f)
    );
}

//! Issues built from the answers of the grammar and review services.
use vstd::prelude::*;
use crate::document::{CheckIssue, IssueCategory, IssueSeverity, MarkDownFile};
use crate::position::Position;

verus! {

/// What an issue says, as mathematical values.
pub struct IssueView {
    pub category: IssueCategory,
    pub severity: IssueSeverity,
    pub file_path: Seq<char>,
    pub rows: (usize, usize),
    pub cols: (usize, usize),
    pub offsets: (usize, usize),
    pub message: Seq<char>,
    pub fixes: Seq<Seq<char>>,
}

pub open spec fn issue_view(i: CheckIssue) -> IssueView {
    IssueView {
        category: i.category,
        severity: i.severity,
        file_path: i.file_path@,
        rows: (i.row_num_start, i.row_num_end),
        cols: (i.col_num_start, i.col_num_end),
        offsets: (i.offset_start, i.offset_end),
        message: i.message@,
        fixes: i.fixes@.map_values(|s: String| s@),
    }
}

pub open spec fn issue_views(v: Seq<CheckIssue>) -> Seq<IssueView> {
    v.map_values(|i: CheckIssue| issue_view(i))
}

/// The grammar issue for a text node at `position` (zeros where it has none)
/// for which the service proposed `suggestion`.
pub open spec fn grammar_issue_spec(path: Seq<char>, position: Option<Position>, suggestion: Seq<char>) -> IssueView {
    let p = match position {
        Some(p) => p,
        None => Position {
            start_line: 0,
            start_column: 0,
            start_offset: 0,
            end_line: 0,
            end_column: 0,
            end_offset: 0,
        },
    };
    IssueView {
        category: IssueCategory::Grammar,
        severity: IssueSeverity::Warning,
        file_path: path,
        rows: (p.start_line, p.end_line),
        cols: (p.start_column, p.end_column),
        offsets: (p.start_offset, p.end_offset),
        message: "Statement/sentence does not look like standard English"@,
        fixes: seq!["Consider changing to: \n"@ + suggestion],
    }
}

fn one_text(s: String) -> (r: Vec<String>)
    ensures
        r@.map_values(|t: String| t@) == seq![s@],
{
    let mut r = Vec::new();
    r.push(s);
    assert(r@.map_values(|t: String| t@) =~= seq![s@]);
    r
}

pub fn grammar_issue(path: &str, position: Option<Position>, suggestion: &str) -> (r: CheckIssue)
    ensures
        issue_view(r) == grammar_issue_spec(path@, position, suggestion@),
{
    let p = match position {
        Some(p) => p,
        None => Position::new(0, 0, 0, 0, 0, 0),
    };
    CheckIssue {
        category: IssueCategory::Grammar,
        severity: IssueSeverity::Warning,
        file_path: String::from_str(path),
        row_num_start: p.start_line,
        row_num_end: p.end_line,
        col_num_start: p.start_column,
        col_num_end: p.end_column,
        offset_start: p.start_offset,
        offset_end: p.end_offset,
        message: String::from_str("Statement/sentence does not look like standard English"),
        fixes: one_text(String::from_str("Consider changing to: \n").concat(suggestion)),
    }
}

/// One change that a review proposes.
#[derive(Debug, Clone)]
pub struct ReviewSuggestion {
    pub original: String,
    pub replacement: String,
    pub description: String,
}

/// A review of a whole document.
#[derive(Debug, Clone)]
pub struct Review {
    pub summary: String,
    pub suggestions: Vec<ReviewSuggestion>,
}

/// Whether `needle` occurs in `hay` at offset `i`.
pub open spec fn occurs_at(hay: Seq<u8>, needle: Seq<u8>, i: int) -> bool {
    0 <= i && i + needle.len() <= hay.len() && hay.subrange(i, i + needle.len()) == needle
}

/// The span of the first occurrence of `needle` in `hay`, or the empty span at
/// the start where there is none.
pub open spec fn first_occurrence(hay: Seq<u8>, needle: Seq<u8>) -> (usize, usize) {
    if exists|i: int| occurs_at(hay, needle, i) {
        let i = choose|i: int| occurs_at(hay, needle, i) && forall|j: int| 0 <= j < i ==> !occurs_at(hay, needle, j);
        (i as usize, (i + needle.len()) as usize)
    } else {
        (0, 0)
    }
}

fn matches_at(hay: &[u8], needle: &[u8], i: usize) -> (r: bool)
    requires
        i <= hay@.len(),
    ensures
        r == occurs_at(hay@, needle@, i as int),
{
    if needle.len() > hay.len() - i {
        return false;
    }
    let mut k: usize = 0;
    while k < needle.len()
        invariant
            k <= needle@.len(),
            hay@.len() <= usize::MAX,
            i <= hay@.len(),
            i + needle@.len() <= hay@.len(),
            forall|m: int| 0 <= m < k ==> hay@[i + m] == needle@[m],
        decreases needle@.len() - k,
    {
        if hay[i + k] != needle[k] {
            assert(hay@.subrange(i as int, i + needle@.len())[k as int] != needle@[k as int]);
            return false;
        }
        k = k + 1;
    }
    assert(hay@.subrange(i as int, i + needle@.len()) =~= needle@);
    true
}

/// The byte span of the first occurrence of `needle` in `hay`, or (0, 0).
pub fn find_index(hay: &[u8], needle: &[u8]) -> (r: (usize, usize))
    ensures
        r == first_occurrence(hay@, needle@),
{
    let mut i: usize = 0;
    let hl = hay.len();
    loop
        invariant
            hl == hay@.len(),
            i <= hay@.len(),
            forall|j: int| 0 <= j < i ==> !occurs_at(hay@, needle@, j),
        decreases hay@.len() - i,
    {
        if matches_at(hay, needle, i) {
            let ghost w = i as int;
            proof {
                let c = choose|c: int| occurs_at(hay@, needle@, c) && forall|j: int| 0 <= j < c ==> !occurs_at(hay@, needle@, j);
                if c < w {
                } else if c > w {
                    assert(!occurs_at(hay@, needle@, w));
                }
            }
            return (i, i + needle.len());
        }
        if i == hay.len() {
            assert forall|j: int| !occurs_at(hay@, needle@, j) by {
                if 0 <= j && j + needle@.len() <= hay@.len() {
                    assert(j <= i);
                }
            }
            return (0, 0);
        }
        i = i + 1;
    }
}

pub open spec fn review_summary_issue(path: Seq<char>, content: Seq<u8>, summary: Seq<char>) -> IssueView {
    IssueView {
        category: IssueCategory::Review,
        severity: IssueSeverity::Help,
        file_path: path,
        rows: (0, 0),
        cols: (0, 0),
        offsets: (0, content.len() as usize),
        message: "Consider review of your document"@,
        fixes: seq![summary],
    }
}

pub open spec fn review_suggestion_issue(
    path: Seq<char>,
    content: Seq<u8>,
    s: ReviewSuggestion,
    include_suggestions: bool,
) -> IssueView {
    IssueView {
        category: IssueCategory::Review,
        severity: IssueSeverity::Note,
        file_path: path,
        rows: (1, content.len() as usize),
        cols: (1, 1),
        offsets: first_occurrence(content, vstd::utf8::encode_utf8(s.original@)),
        message: s.description@,
        fixes: if include_suggestions {
            seq!["Consider following change: \n"@ + s.replacement@]
        } else {
            Seq::empty()
        },
    }
}

/// The issues of a review: none where it proposes no change, else one for the
/// whole document followed by one for each change, in order.
pub open spec fn review_issues(path: Seq<char>, content: Seq<u8>, review: Review, include_suggestions: bool) -> Seq<IssueView> {
    if review.suggestions@.len() == 0 {
        Seq::empty()
    } else {
        seq![review_summary_issue(path, content, review.summary@)] + review.suggestions@.map_values(
            |s: ReviewSuggestion| review_suggestion_issue(path, content, s, include_suggestions),
        )
    }
}

/// Records the issue for a text node for which the grammar service proposed a
/// change.
pub fn record_grammar_suggestion(file: &mut MarkDownFile, position: Option<Position>, suggestion: &str)
    ensures
        final(file).path == old(file).path,
        final(file).content == old(file).content,
        issue_views(final(file).issues@) == issue_views(old(file).issues@).push(
            grammar_issue_spec(old(file).path@, position, suggestion@),
        ),
{
    let issue = grammar_issue(file.path.as_str(), position, suggestion);
    let ghost before = file.issues@;
    file.issues.push(issue);
    assert(issue_views(file.issues@) =~= issue_views(before).push(issue_view(issue)));
}

/// Records the issues of a review of the file.
pub fn record_review(file: &mut MarkDownFile, review: &Review, include_suggestions: bool)
    ensures
        final(file).path == old(file).path,
        final(file).content == old(file).content,
        issue_views(final(file).issues@) == issue_views(old(file).issues@) + review_issues(
            old(file).path@,
            vstd::utf8::encode_utf8(old(file).content@),
            *review,
            include_suggestions,
        ),
{
    if review.suggestions.len() == 0 {
        assert(issue_views(file.issues@) =~= issue_views(file.issues@) + Seq::<IssueView>::empty());
        return;
    }
    let ghost path = file.path@;
    let ghost base = issue_views(file.issues@);
    let content = file.content.as_str().as_bytes();
    let summary = CheckIssue {
        category: IssueCategory::Review,
        severity: IssueSeverity::Help,
        file_path: file.path.clone(),
        row_num_start: 0,
        row_num_end: 0,
        col_num_start: 0,
        col_num_end: 0,
        offset_start: 0,
        offset_end: content.len(),
        message: String::from_str("Consider review of your document"),
        fixes: one_text(review.summary.clone()),
    };
    let mut added: Vec<CheckIssue> = Vec::new();
    added.push(summary);
    let ghost sugg_views = review.suggestions@.map_values(
        |s: ReviewSuggestion| review_suggestion_issue(path, content@, s, include_suggestions),
    );
    assert(issue_views(added@) =~= seq![review_summary_issue(path, content@, review.summary@)]);
    let mut i: usize = 0;
    while i < review.suggestions.len()
        invariant
            i <= review.suggestions@.len(),
            file.path@ == path,
            content@ == vstd::utf8::encode_utf8(file.content@),
            sugg_views == review.suggestions@.map_values(
                |s: ReviewSuggestion| review_suggestion_issue(path, content@, s, include_suggestions),
            ),
            issue_views(added@) == seq![review_summary_issue(path, content@, review.summary@)] + sugg_views.subrange(0, i as int),
        decreases review.suggestions@.len() - i,
    {
        let s = &review.suggestions[i];
        let offsets = find_index(content, s.original.as_str().as_bytes());
        let fixes = if include_suggestions {
            one_text(String::from_str("Consider following change: \n").concat(s.replacement.as_str()))
        } else {
            let v: Vec<String> = Vec::new();
            assert(v@.map_values(|t: String| t@) =~= Seq::<Seq<char>>::empty());
            v
        };
        let issue = CheckIssue {
            category: IssueCategory::Review,
            severity: IssueSeverity::Note,
            file_path: file.path.clone(),
            row_num_start: 1,
            row_num_end: content.len(),
            col_num_start: 1,
            col_num_end: 1,
            offset_start: offsets.0,
            offset_end: offsets.1,
            message: s.description.clone(),
            fixes,
        };
        assert(issue_view(issue) == sugg_views[i as int]);
        let ghost before = added@;
        added.push(issue);
        assert(issue_views(added@) =~= issue_views(before).push(issue_view(issue)));
        assert(sugg_views.subrange(0, i as int + 1) =~= sugg_views.subrange(0, i as int).push(sugg_views[i as int]));
        i = i + 1;
    }
    assert(sugg_views.subrange(0, i as int) =~= sugg_views);
    let ghost old_issues = file.issues@;
    let ghost added_view = added@;
    file.issues.append(&mut added);
    assert(issue_views(file.issues@) =~= issue_views(old_issues) + issue_views(added_view));
}

} // verus!

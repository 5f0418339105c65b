//! Running the enabled lint rules over one file, and reporting what they find.
use vstd::prelude::*;
use crate::ast::{gfm_tree, headings_of};
use crate::config::StyleConfig;
use crate::document::{CheckIssue, IssueCategory, IssueSeverity, MarkDownFile};
use crate::md003::{md003_heading_style, md003_spec, views};
use crate::md019::{md019_multiple_spaces_after_hash_on_atx_style_heading, md019_spec};
use crate::review::{issue_view, IssueView};
use crate::violation::{Violation, ViolationView};

verus! {

/// Which rules run.
#[derive(Debug, Clone, Copy, PartialEq, Eq, Structural)]
pub struct RuleSet {
    pub heading_style: bool,
    pub multiple_spaces_after_hash: bool,
}

/// The violations of the enabled rules, rule after rule in declaration order.
pub open spec fn lint_spec(content: Seq<char>, rules: RuleSet, style: StyleConfig) -> Seq<ViolationView> {
    let src = vstd::utf8::encode_utf8(content);
    (if rules.heading_style {
        md003_spec(src, headings_of(gfm_tree(content)), style.headings)
    } else {
        Seq::empty()
    }) + (if rules.multiple_spaces_after_hash {
        md019_spec(src)
    } else {
        Seq::empty()
    })
}

pub fn run_rules(file: &MarkDownFile, rules: RuleSet, style: StyleConfig) -> (r: Vec<Violation>)
    requires
        vstd::utf8::encode_utf8(file.content@).len() < usize::MAX,
    ensures
        views(r@) == lint_spec(file.content@, rules, style),
{
    let mut r: Vec<Violation> = Vec::new();
    if rules.heading_style {
        let mut v = md003_heading_style(file, &style.headings);
        let ghost added = v@;
        r.append(&mut v);
        assert(views(r@) =~= views(added));
    }
    let ghost first = r@;
    if rules.multiple_spaces_after_hash {
        let mut v = md019_multiple_spaces_after_hash_on_atx_style_heading(file);
        let ghost added = v@;
        r.append(&mut v);
        assert(views(r@) =~= views(first) + views(added));
    } else {
        assert(views(r@) =~= views(first) + Seq::<ViolationView>::empty());
    }
    proof {
        if !rules.heading_style {
            assert(views(first) =~= Seq::<ViolationView>::empty());
        }
    }
    r
}

/// The issue that reports a violation of a lint rule in the file at `path`.
pub open spec fn lint_issue(path: Seq<char>, v: ViolationView) -> IssueView {
    IssueView {
        category: IssueCategory::Linting,
        severity: IssueSeverity::Warning,
        file_path: path,
        rows: (v.position.start_line, v.position.end_line),
        cols: (v.position.start_column, v.position.end_column),
        offsets: (v.position.start_offset, v.position.end_offset),
        message: v.code + ": "@ + v.message,
        fixes: v.fixes,
    }
}

pub fn to_check_issue(path: &str, v: Violation) -> (r: CheckIssue)
    ensures
        issue_view(r) == lint_issue(path@, v@),
{
    let message = v.code.concat(": ").concat(v.message.as_str());
    CheckIssue {
        category: IssueCategory::Linting,
        severity: IssueSeverity::Warning,
        file_path: String::from_str(path),
        row_num_start: v.position.start_line,
        row_num_end: v.position.end_line,
        col_num_start: v.position.start_column,
        col_num_end: v.position.end_column,
        offset_start: v.position.start_offset,
        offset_end: v.position.end_offset,
        message,
        fixes: v.fixes,
    }
}

} // verus!

//! The heading-style rule: all headings of a document use one style.
use vstd::prelude::*;
use crate::ast::{gfm_tree, headings, headings_of, parse_gfm};
use crate::document::MarkDownFile;
use crate::position::{span_in_text, Position};
use crate::violation::{Violation, ViolationBuilder, ViolationView};

verus! {

/// A heading style, or the request to follow the first heading's style.
#[derive(Debug, Clone, Copy, PartialEq, Eq, Structural)]
pub enum HeadingStyle {
    Consistent,
    Atx,
    SetExt,
}

impl HeadingStyle {
    pub open spec fn name(self) -> Seq<char> {
        match self {
            HeadingStyle::Consistent => "consistent"@,
            HeadingStyle::Atx => "ATX"@,
            HeadingStyle::SetExt => "SetExt"@,
        }
    }

    /// How the style is written in configuration.
    pub open spec fn config_name(self) -> Seq<char> {
        match self {
            HeadingStyle::Consistent => "consistent"@,
            HeadingStyle::Atx => "atx"@,
            HeadingStyle::SetExt => "setext"@,
        }
    }

    pub fn as_str(&self) -> (r: &str)
        ensures
            r@ == self.name(),
    {
        match self {
            HeadingStyle::Consistent => "consistent",
            HeadingStyle::Atx => "ATX",
            HeadingStyle::SetExt => "SetExt",
        }
    }

    fn config_str(&self) -> (r: &str)
        ensures
            r@ == self.config_name(),
    {
        match self {
            HeadingStyle::Consistent => "consistent",
            HeadingStyle::Atx => "atx",
            HeadingStyle::SetExt => "setext",
        }
    }
}

/// The bytes that a span covers, or nothing where it does not lie in the text.
pub open spec fn span_bytes(src: Seq<u8>, p: Position) -> Seq<u8> {
    if p.start_offset <= p.end_offset <= src.len() {
        src.subrange(p.start_offset as int, p.end_offset as int)
    } else {
        Seq::empty()
    }
}

/// A heading whose text starts with `#` is ATX, any other is setext.
pub open spec fn style_of(src: Seq<u8>, p: Position) -> HeadingStyle {
    let t = span_bytes(src, p);
    if t.len() > 0 && t[0] == 35u8 {
        HeadingStyle::Atx
    } else {
        HeadingStyle::SetExt
    }
}

/// The style that headings must have: the configured one, or in consistent
/// mode that of the first heading (ATX where there is none).
pub open spec fn preferred_style(src: Seq<u8>, hs: Seq<Position>, style: HeadingStyle) -> HeadingStyle {
    match style {
        HeadingStyle::Consistent => if hs.len() > 0 {
            style_of(src, hs[0])
        } else {
            HeadingStyle::Atx
        },
        _ => style,
    }
}

pub open spec fn md003_message(style: HeadingStyle, preferred: HeadingStyle, observed: HeadingStyle) -> Seq<char> {
    if style == HeadingStyle::Consistent {
        "Inconsistent headings style. First heading in this file is \""@ + preferred.name()
            + "\", but this one is \""@ + observed.name() + "\""@
    } else {
        "Wrong heading style. Expected \""@ + style.config_name() + "\", got \""@ + observed.name()
            + "\""@
    }
}

pub open spec fn md003_fixes(preferred: HeadingStyle) -> Seq<Seq<char>> {
    seq![
        "Change heading style to \""@ + preferred.name() + "\""@,
        "Alternatively, you can enforce specific heading style via either \"headings\" option from the \"[style]\" section in config file or via \"--style-headings\" CLI option"@,
        "See Markdown headings reference: https://www.markdownguide.org/basic-syntax/#headings"@,
    ]
}

/// What every violation of this rule shares.
pub open spec fn md003_base() -> ViolationView {
    ViolationView {
        code: "MD003"@,
        doc_link: "https://github.com/DavidAnson/markdownlint/blob/v0.32.1/doc/md003.md"@,
        is_fmt_fixable: true,
        ..ViolationView::empty()
    }
}

/// The violation for a heading at `p` whose style differs from the preferred one.
pub open spec fn md003_violation(
    src: Seq<u8>,
    p: Position,
    style: HeadingStyle,
    preferred: HeadingStyle,
) -> ViolationView {
    ViolationView {
        message: md003_message(style, preferred, style_of(src, p)),
        fixes: md003_fixes(preferred),
        position: p,
        ..md003_base()
    }
}

/// The violations for the headings `hs`, judged against `preferred`.
pub open spec fn md003_scan(
    src: Seq<u8>,
    hs: Seq<Position>,
    style: HeadingStyle,
    preferred: HeadingStyle,
) -> Seq<ViolationView>
    decreases hs.len(),
{
    if hs.len() == 0 {
        Seq::empty()
    } else {
        let prev = md003_scan(src, hs.drop_last(), style, preferred);
        if style_of(src, hs.last()) != preferred {
            prev.push(md003_violation(src, hs.last(), style, preferred))
        } else {
            prev
        }
    }
}

/// The rule on a text `src` whose headings span `hs`, in document order.
pub open spec fn md003_spec(src: Seq<u8>, hs: Seq<Position>, style: HeadingStyle) -> Seq<ViolationView> {
    md003_scan(src, hs, style, preferred_style(src, hs, style))
}

pub open spec fn views(vs: Seq<Violation>) -> Seq<ViolationView> {
    vs.map_values(|v: Violation| v@)
}

pub fn violation_builder() -> (r: ViolationBuilder)
    ensures
        r@ == md003_base(),
{
    ViolationBuilder::new().code("MD003").doc_link(
        "https://github.com/DavidAnson/markdownlint/blob/v0.32.1/doc/md003.md",
    ).is_fmt_fixable(true)
}

fn heading_style_at(src: &[u8], p: Position) -> (r: HeadingStyle)
    ensures
        r == style_of(src@, p),
{
    if p.start_offset < p.end_offset && p.end_offset <= src.len() && src[p.start_offset] == 35u8 {
        HeadingStyle::Atx
    } else {
        HeadingStyle::SetExt
    }
}

fn message_for(style: &HeadingStyle, preferred: &HeadingStyle, observed: &HeadingStyle) -> (r: String)
    ensures
        r@ == md003_message(*style, *preferred, *observed),
{
    if *style == HeadingStyle::Consistent {
        String::from_str("Inconsistent headings style. First heading in this file is \"").concat(
            preferred.as_str(),
        ).concat("\", but this one is \"").concat(observed.as_str()).concat("\"")
    } else {
        String::from_str("Wrong heading style. Expected \"").concat(style.config_str()).concat(
            "\", got \"",
        ).concat(observed.as_str()).concat("\"")
    }
}

/// The heading-style rule on a text `src` whose headings span `headings`, in
/// document order: one violation for each heading whose style is not the
/// preferred one, in the order of `headings`.
pub fn md003_check_headings(src: &[u8], headings: &Vec<Position>, style: &HeadingStyle) -> (r: Vec<Violation>)
    ensures
        views(r@) == md003_spec(src@, headings@, *style),
{
    let preferred = match style {
        HeadingStyle::Consistent => if headings.len() > 0 {
            heading_style_at(src, headings[0])
        } else {
            HeadingStyle::Atx
        },
        HeadingStyle::Atx => HeadingStyle::Atx,
        HeadingStyle::SetExt => HeadingStyle::SetExt,
    };
    let ghost pref = preferred_style(src@, headings@, *style);
    assert(preferred == pref);
    let mut r: Vec<Violation> = Vec::new();
    let mut i: usize = 0;
    while i < headings.len()
        invariant
            i <= headings@.len(),
            preferred == pref,
            views(r@) == md003_scan(src@, headings@.subrange(0, i as int), *style, pref),
        decreases headings@.len() - i,
    {
        let p = headings[i];
        let observed = heading_style_at(src, p);
        assert(headings@.subrange(0, i as int + 1).drop_last() =~= headings@.subrange(0, i as int));
        assert(headings@.subrange(0, i as int + 1).last() == p);
        if observed != preferred {
            let fix = String::from_str("Change heading style to \"").concat(preferred.as_str()).concat("\"");
            let v = violation_builder().message(message_for(style, &preferred, &observed).as_str()).push_fix(
                fix.as_str(),
            ).push_fix(
                "Alternatively, you can enforce specific heading style via either \"headings\" option from the \"[style]\" section in config file or via \"--style-headings\" CLI option",
            ).push_fix(
                "See Markdown headings reference: https://www.markdownguide.org/basic-syntax/#headings",
            ).position(p).build();
            assert(v@.fixes =~= md003_fixes(preferred));
            assert(v@ == md003_violation(src@, p, *style, pref));
            let ghost before = r@;
            r.push(v);
            assert(views(r@) =~= views(before).push(v@));
        }
        i = i + 1;
    }
    assert(headings@.subrange(0, headings@.len() as int) =~= headings@);
    r
}

/// The heading-style rule on a file: its headings are found by parsing it as
/// GitHub-flavoured Markdown.
pub fn md003_heading_style(file: &MarkDownFile, style: &HeadingStyle) -> (r: Vec<Violation>)
    ensures
        views(r@) == md003_spec(
            vstd::utf8::encode_utf8(file.content@),
            headings_of(gfm_tree(file.content@)),
            *style,
        ),
{
    let text = file.content.as_str();
    let tree = parse_gfm(text);
    let hs = headings(&tree);
    md003_check_headings(text.as_bytes(), &hs, style)
}

proof fn lemma_scan_positions(src: Seq<u8>, hs: Seq<Position>, style: HeadingStyle, preferred: HeadingStyle)
    ensures
        forall|k: int|
            0 <= k < md003_scan(src, hs, style, preferred).len() ==> hs.contains(
                #[trigger] md003_scan(src, hs, style, preferred)[k].position,
            ),
    decreases hs.len(),
{
    if hs.len() > 0 {
        lemma_scan_positions(src, hs.drop_last(), style, preferred);
        let prev = md003_scan(src, hs.drop_last(), style, preferred);
        assert forall|k: int| 0 <= k < prev.len() implies hs.contains(#[trigger] prev[k].position) by {
            let j = choose|j: int| 0 <= j < hs.drop_last().len() && hs.drop_last()[j] == prev[k].position;
            assert(hs[j] == prev[k].position);
        }
        assert(hs[hs.len() - 1] == hs.last());
    }
}

proof fn lemma_scan_empty_when_all_preferred(src: Seq<u8>, hs: Seq<Position>, style: HeadingStyle, preferred: HeadingStyle)
    requires
        forall|k: int| 0 <= k < hs.len() ==> style_of(src, #[trigger] hs[k]) == preferred,
    ensures
        md003_scan(src, hs, style, preferred) == Seq::<ViolationView>::empty(),
    decreases hs.len(),
{
    if hs.len() > 0 {
        assert forall|k: int| 0 <= k < hs.drop_last().len() implies style_of(src, #[trigger] hs.drop_last()[k]) == preferred by {
            assert(hs.drop_last()[k] == hs[k]);
        }
        lemma_scan_empty_when_all_preferred(src, hs.drop_last(), style, preferred);
        assert(style_of(src, hs[hs.len() - 1]) == preferred);
    }
}

/// A document without headings has no heading-style violations, whatever the
/// configured style.
pub proof fn lemma_md003_no_headings(src: Seq<u8>, hs: Seq<Position>, style: HeadingStyle)
    requires
        hs.len() == 0,
    ensures
        md003_spec(src, hs, style) == Seq::<ViolationView>::empty(),
{
}

/// In consistent mode, a document whose headings all have one style, either
/// one, has no heading-style violations.
pub proof fn lemma_md003_consistent_uniform(src: Seq<u8>, hs: Seq<Position>, shared: HeadingStyle)
    requires
        forall|k: int| 0 <= k < hs.len() ==> style_of(src, #[trigger] hs[k]) == shared,
    ensures
        md003_spec(src, hs, HeadingStyle::Consistent) == Seq::<ViolationView>::empty(),
{
    if hs.len() > 0 {
        assert(style_of(src, hs[0]) == shared);
    }
    lemma_scan_empty_when_all_preferred(src, hs, HeadingStyle::Consistent, preferred_style(src, hs, HeadingStyle::Consistent));
}

/// Running the rule twice on the same file gives the same violations, in the
/// same order.
pub proof fn lemma_md003_idempotent(file: MarkDownFile, style: HeadingStyle, r1: Seq<Violation>, r2: Seq<Violation>)
    requires
        views(r1) == md003_spec(vstd::utf8::encode_utf8(file.content@), headings_of(gfm_tree(file.content@)), style),
        views(r2) == md003_spec(vstd::utf8::encode_utf8(file.content@), headings_of(gfm_tree(file.content@)), style),
    ensures
        views(r1) == views(r2),
{
}

/// Every violation lies on a heading: where each heading's span covers text
/// and sits at its reported line and column, so does each violation's.
pub proof fn lemma_md003_spans(src: Seq<u8>, hs: Seq<Position>, style: HeadingStyle)
    requires
        forall|k: int| 0 <= k < hs.len() ==> span_in_text(src, #[trigger] hs[k]),
    ensures
        forall|k: int|
            0 <= k < md003_spec(src, hs, style).len() ==> span_in_text(
                src,
                #[trigger] md003_spec(src, hs, style)[k].position,
            ),
{
    lemma_scan_positions(src, hs, style, preferred_style(src, hs, style));
    assert forall|k: int| 0 <= k < md003_spec(src, hs, style).len() implies span_in_text(
        src,
        #[trigger] md003_spec(src, hs, style)[k].position,
    ) by {
        let p = md003_spec(src, hs, style)[k].position;
        assert(hs.contains(p));
        let j = choose|j: int| 0 <= j < hs.len() && hs[j] == p;
        assert(span_in_text(src, hs[j]));
    }
}

} // verus!

//! The rule against more than one space between the hashes of an ATX heading
//! and its text.
use vstd::prelude::*;
use crate::document::MarkDownFile;
use crate::md003::views;
use crate::position::{lemma_newlines_before_bound, line_end_from, line_start_of, newlines_before, span_in_text, Position};
use crate::violation::{Violation, ViolationBuilder, ViolationView};

verus! {

/// Whether a line matches `^#+\s\s+\b`: hashes, then at least two whitespace
/// characters, then a word character.
pub uninterp spec fn multi_space_heading_match(line: Seq<u8>) -> bool;

/// Relies on regex::bytes::Regex::is_match with the pattern `^#+\s\s+\b`,
/// which only matches a line that starts with `#`.
#[verifier::external_body]
fn start_with_atx_heading_without_space(line: &[u8]) -> (r: bool)
    ensures
        r == multi_space_heading_match(line@),
        r ==> line@.len() > 0 && line@[0] == 35u8,
{
    regex::bytes::Regex::new(r"^#+\s\s+\b").unwrap().is_match(line)
}

pub open spec fn is_line_start(t: Seq<u8>, q: int) -> bool {
    0 <= q < t.len() && (q == 0 || t[q - 1] == 10u8)
}

/// A line that starts at `q` with a hash and matches the pattern.
pub open spec fn flagged(t: Seq<u8>, q: int) -> bool {
    is_line_start(t, q) && t[q] == 35u8 && multi_space_heading_match(line_text(t, q))
}

/// Where the text of the line starting at `q` ends: before its line break and
/// before a carriage return that precedes it.
pub open spec fn line_content_end(t: Seq<u8>, q: int) -> int {
    let e = line_end_from(t, q);
    if e > q && t[e - 1] == 13u8 {
        e - 1
    } else {
        e
    }
}

pub open spec fn line_text(t: Seq<u8>, q: int) -> Seq<u8> {
    t.subrange(q, line_content_end(t, q))
}

/// Number of `#` bytes from `q` on.
pub open spec fn hash_run(t: Seq<u8>, q: int) -> nat
    decreases t.len() - q,
{
    if 0 <= q < t.len() && t[q] == 35u8 {
        hash_run(t, q + 1) + 1
    } else {
        0
    }
}

/// Number of space and tab bytes from `q` on.
pub open spec fn blank_run(t: Seq<u8>, q: int) -> nat
    decreases t.len() - q,
{
    if 0 <= q < t.len() && (t[q] == 32u8 || t[q] == 9u8) {
        blank_run(t, q + 1) + 1
    } else {
        0
    }
}

/// Length of the hashes and the blanks after them at the start of a line.
pub open spec fn marker_len(t: Seq<u8>, q: int) -> nat {
    hash_run(t, q) + blank_run(t, q + hash_run(t, q))
}

pub open spec fn md019_base() -> ViolationView {
    ViolationView {
        code: "MD019"@,
        message: "Multiple spaces after hash on atx style heading"@,
        doc_link: "https://github.com/DavidAnson/markdownlint/blob/v0.32.1/doc/md019.md"@,
        fixes: seq!["Separate the heading text from the hash character by a single space"@],
        is_fmt_fixable: true,
        ..ViolationView::empty()
    }
}

/// The violation for the heading line that starts at `q`: it spans the hashes
/// and the blanks after them.
pub open spec fn md019_violation(t: Seq<u8>, q: int) -> ViolationView {
    let line = newlines_before(t, q) + 1;
    let width = marker_len(t, q);
    ViolationView {
        position: Position {
            start_line: line as usize,
            start_column: 1,
            start_offset: q as usize,
            end_line: line as usize,
            end_column: (width + 1) as usize,
            end_offset: (q + width) as usize,
        },
        ..md019_base()
    }
}

/// The violations for the lines that start before offset `p`.
pub open spec fn md019_upto(t: Seq<u8>, p: int) -> Seq<ViolationView>
    decreases p,
{
    if p <= 0 {
        Seq::empty()
    } else {
        let prev = md019_upto(t, p - 1);
        if flagged(t, p - 1) {
            prev.push(md019_violation(t, p - 1))
        } else {
            prev
        }
    }
}

pub open spec fn md019_spec(t: Seq<u8>) -> Seq<ViolationView> {
    md019_upto(t, t.len() as int)
}

pub fn violation_builder() -> (r: ViolationBuilder)
    ensures
        r@ == md019_base(),
{
    let r = ViolationBuilder::new().code("MD019").message("Multiple spaces after hash on atx style heading").doc_link(
        "https://github.com/DavidAnson/markdownlint/blob/v0.32.1/doc/md019.md",
    ).push_fix("Separate the heading text from the hash character by a single space").is_fmt_fixable(true);
    assert(r@.fixes =~= md019_base().fixes);
    r
}

proof fn lemma_line_end_bounds(t: Seq<u8>, q: int)
    requires
        0 <= q <= t.len(),
    ensures
        q <= line_end_from(t, q) <= t.len(),
    decreases t.len() - q,
{
    if q < t.len() && t[q] != 10u8 {
        lemma_line_end_bounds(t, q + 1);
    }
}

proof fn lemma_run_bounds(t: Seq<u8>, q: int)
    requires
        0 <= q <= t.len(),
    ensures
        q + hash_run(t, q) <= t.len(),
        q + blank_run(t, q) <= t.len(),
    decreases t.len() - q,
{
    if q < t.len() {
        lemma_run_bounds(t, q + 1);
    }
}

/// The bytes of the line that starts at `q`, without its line ending.
fn line_at(t: &[u8], q: usize) -> (r: Vec<u8>)
    requires
        q <= t@.len(),
    ensures
        r@ == line_text(t@, q as int),
{
    let mut e: usize = q;
    while e < t.len() && t[e] != 10u8
        invariant
            q <= e <= t@.len(),
            line_end_from(t@, e as int) == line_end_from(t@, q as int),
        decreases t@.len() - e,
    {
        e = e + 1;
    }
    if e > q && t[e - 1] == 13u8 {
        e = e - 1;
    }
    let mut r: Vec<u8> = Vec::new();
    let mut i: usize = q;
    while i < e
        invariant
            q <= i <= e <= t@.len(),
            e == line_content_end(t@, q as int),
            r@ =~= t@.subrange(q as int, i as int),
        decreases e - i,
    {
        r.push(t[i]);
        i = i + 1;
    }
    r
}

/// The violation for a heading line that starts at byte `line_start` of `t`,
/// the 0-indexed line `line_number`.
pub fn to_issue(t: &[u8], line_start: usize, line_number: usize) -> (r: Violation)
    requires
        is_line_start(t@, line_start as int),
        line_number == newlines_before(t@, line_start as int),
        line_number < usize::MAX,
        t@.len() < usize::MAX,
    ensures
        r@ == md019_violation(t@, line_start as int),
{
    proof {
        lemma_run_bounds(t@, line_start as int);
        lemma_run_bounds(t@, line_start + hash_run(t@, line_start as int));
    }
    let mut h: usize = line_start;
    while h < t.len() && t[h] == 35u8
        invariant
            line_start <= h <= t@.len(),
            h - line_start + hash_run(t@, h as int) == hash_run(t@, line_start as int),
        decreases t@.len() - h,
    {
        h = h + 1;
    }
    let mut b: usize = h;
    while b < t.len() && (t[b] == 32u8 || t[b] == 9u8)
        invariant
            h <= b <= t@.len(),
            h == line_start + hash_run(t@, line_start as int),
            b - h + blank_run(t@, b as int) == blank_run(t@, h as int),
        decreases t@.len() - b,
    {
        b = b + 1;
    }
    let width: usize = b - line_start;
    let line: usize = line_number + 1;
    violation_builder().position(Position::new(line, 1, line_start, line, width + 1, b)).build()
}

/// The rule on the bytes of a text: one violation for each line that starts
/// with hashes followed by two or more blanks and then a word, in line order.
pub fn md019_check_text(t: &[u8]) -> (r: Vec<Violation>)
    requires
        t@.len() < usize::MAX,
    ensures
        views(r@) == md019_spec(t@),
{
    let mut r: Vec<Violation> = Vec::new();
    let mut p: usize = 0;
    let mut line: usize = 0;
    while p < t.len()
        invariant
            p <= t@.len() < usize::MAX,
            line as int == newlines_before(t@, p as int),
            line <= p,
            views(r@) == md019_upto(t@, p as int),
        decreases t@.len() - p,
    {
        if p == 0 || t[p - 1] == 10u8 {
            proof {
                lemma_line_end_bounds(t@, p as int);
            }
            let text = line_at(t, p);
            let matched = start_with_atx_heading_without_space(text.as_slice());
            proof {
                if matched {
                    assert(text@[0] == t@[p as int]);
                }
            }
            if matched {
                let v = to_issue(t, p, line);
                let ghost before = r@;
                r.push(v);
                assert(views(r@) =~= views(before).push(v@));
            }
        }
        if t[p] == 10u8 {
            line = line + 1;
        }
        p = p + 1;
    }
    r
}

/// The rule on a file's text.
pub fn md019_multiple_spaces_after_hash_on_atx_style_heading(file: &MarkDownFile) -> (r: Vec<Violation>)
    requires
        vstd::utf8::encode_utf8(file.content@).len() < usize::MAX,
    ensures
        views(r@) == md019_spec(vstd::utf8::encode_utf8(file.content@)),
{
    md019_check_text(file.content.as_str().as_bytes())
}

/// Every violation of the rule covers at least one byte of the text and
/// starts at its reported line and column.
pub proof fn lemma_md019_spans(t: Seq<u8>)
    requires
        t.len() < usize::MAX,
    ensures
        forall|k: int| 0 <= k < md019_spec(t).len() ==> span_in_text(t, #[trigger] md019_spec(t)[k].position),
{
    lemma_upto_spans(t, t.len() as int);
}

proof fn lemma_upto_spans(t: Seq<u8>, p: int)
    requires
        t.len() < usize::MAX,
        p <= t.len(),
    ensures
        forall|k: int| 0 <= k < md019_upto(t, p).len() ==> span_in_text(t, #[trigger] md019_upto(t, p)[k].position),
    decreases p,
{
    if p > 0 {
        lemma_upto_spans(t, p - 1);
        let q = p - 1;
        if flagged(t, q) {
            lemma_run_bounds(t, q);
            lemma_run_bounds(t, q + hash_run(t, q));
            lemma_newlines_before_bound(t, q);
            assert(hash_run(t, q) > 0);
            assert(line_start_of(t, q) == q);
            let prev = md019_upto(t, q);
            assert forall|k: int| 0 <= k < md019_upto(t, p).len() implies span_in_text(t, #[trigger] md019_upto(t, p)[k].position) by {
                if k < prev.len() {
                    assert(md019_upto(t, p)[k] == prev[k]);
                } else {
                    let pos = md019_violation(t, q).position;
                    assert(md019_upto(t, p)[k] == md019_violation(t, q));
                    assert(pos.start_offset as int == q);
                    assert(pos.end_offset as int == q + marker_len(t, q));
                    assert(pos.start_line as int == newlines_before(t, q) + 1);
                }
            }
        } else {
            assert(md019_upto(t, p) == md019_upto(t, q));
        }
    }
}

} // verus!

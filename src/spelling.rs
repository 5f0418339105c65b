//! The spelling pass: words of the text nodes that a dictionary of common
//! misspellings knows.
use vstd::prelude::*;
use crate::ast::{gfm_tree, parse_gfm, text_nodes, texts_of, TextNode};
use crate::document::{CheckIssue, IssueCategory, IssueSeverity, MarkDownFile};
use crate::position::Position;
use crate::review::{issue_view, issue_views, IssueView};
use crate::violation::texts_view;

verus! {

pub open spec fn is_letter(b: u8) -> bool {
    (65u8 <= b <= 90u8) || (97u8 <= b <= 122u8) || b >= 128u8
}

pub open spec fn is_digit(b: u8) -> bool {
    48u8 <= b <= 57u8
}

/// Bytes that can stand inside a word: letters, digits, apostrophes and dots.
pub open spec fn is_word_byte(b: u8) -> bool {
    is_letter(b) || is_digit(b) || b == 39u8 || b == 46u8
}

pub open spec fn is_quote(b: u8) -> bool {
    b == 34u8 || b == 39u8
}

pub enum ScanState {
    Outside,
    Quoted(u8),
    Word(int),
}

/// Where a word that runs up to `e` ends once trailing dots and apostrophes
/// are dropped.
pub open spec fn trimmed_end(t: Seq<u8>, s: int, e: int) -> int
    decreases e - s,
{
    if e > s && (t[e - 1] == 46u8 || t[e - 1] == 39u8) {
        trimmed_end(t, s, e - 1)
    } else {
        e
    }
}

/// A run of word bytes is checked where, trimmed, it starts with a letter and
/// holds neither digits (a number) nor dots (an abbreviation).
pub open spec fn is_checked_word(t: Seq<u8>, s: int, e: int) -> bool {
    let f = trimmed_end(t, s, e);
    &&& f > s
    &&& is_letter(t[s])
    &&& forall|k: int| s <= k < f ==> !is_digit(#[trigger] t[k]) && t[k] != 46u8
}

proof fn lemma_trimmed_bounds(t: Seq<u8>, s: int, e: int)
    requires
        s <= e,
    ensures
        s <= trimmed_end(t, s, e) <= e,
    decreases e - s,
{
    if e > s && (t[e - 1] == 46u8 || t[e - 1] == 39u8) {
        lemma_trimmed_bounds(t, s, e - 1);
    }
}

pub open spec fn emit(t: Seq<u8>, s: int, e: int) -> Seq<(int, int)> {
    if is_checked_word(t, s, e) {
        seq![(s, trimmed_end(t, s, e))]
    } else {
        Seq::empty()
    }
}

pub open spec fn state_rank(st: ScanState) -> int {
    match st {
        ScanState::Word(_) => 1,
        _ => 0,
    }
}

/// The spans of the words from offset `i` on, in state `st`: text between
/// quotes is skipped, and so are numbers and abbreviations.
pub open spec fn scan(t: Seq<u8>, i: int, st: ScanState) -> Seq<(int, int)>
    decreases t.len() - i, state_rank(st),
{
    if i >= t.len() {
        match st {
            ScanState::Word(s) => emit(t, s, t.len() as int),
            _ => Seq::empty(),
        }
    } else {
        match st {
            ScanState::Outside => if is_quote(t[i]) {
                scan(t, i + 1, ScanState::Quoted(t[i]))
            } else if is_word_byte(t[i]) {
                scan(t, i + 1, ScanState::Word(i))
            } else {
                scan(t, i + 1, ScanState::Outside)
            },
            ScanState::Quoted(q) => if t[i] == q {
                scan(t, i + 1, ScanState::Outside)
            } else {
                scan(t, i + 1, ScanState::Quoted(q))
            },
            ScanState::Word(s) => if is_word_byte(t[i]) {
                scan(t, i + 1, ScanState::Word(s))
            } else {
                emit(t, s, i) + scan(t, i, ScanState::Outside)
            },
        }
    }
}

pub open spec fn words_of(t: Seq<u8>) -> Seq<(int, int)> {
    scan(t, 0, ScanState::Outside)
}

pub open spec fn spans_view(v: Seq<(usize, usize)>) -> Seq<(int, int)> {
    v.map_values(|p: (usize, usize)| (p.0 as int, p.1 as int))
}

fn word_byte(b: u8) -> (r: bool)
    ensures
        r == is_word_byte(b),
{
    (65u8 <= b && b <= 90u8) || (97u8 <= b && b <= 122u8) || b >= 128u8 || (48u8 <= b && b <= 57u8) || b == 39u8
        || b == 46u8
}

/// The end of the word `s..e` once trimmed, where it is to be checked.
fn checked_word(t: &[u8], s: usize, e: usize) -> (r: Option<usize>)
    requires
        s <= e <= t@.len(),
    ensures
        r == (if is_checked_word(t@, s as int, e as int) {
            Some(trimmed_end(t@, s as int, e as int) as usize)
        } else {
            None::<usize>
        }),
{
    let mut f: usize = e;
    while f > s && (t[f - 1] == 46u8 || t[f - 1] == 39u8)
        invariant
            s <= f <= e <= t@.len(),
            trimmed_end(t@, s as int, f as int) == trimmed_end(t@, s as int, e as int),
        decreases f,
    {
        f = f - 1;
    }
    if f == s {
        return None;
    }
    let first = t[s];
    if !((65u8 <= first && first <= 90u8) || (97u8 <= first && first <= 122u8) || first >= 128u8) {
        return None;
    }
    let mut k: usize = s;
    while k < f
        invariant
            s <= k <= f <= e <= t@.len(),
            f as int == trimmed_end(t@, s as int, e as int),
            forall|m: int| s <= m < k ==> !is_digit(#[trigger] t@[m]) && t@[m] != 46u8,
        decreases f - k,
    {
        let b = t[k];
        if (48u8 <= b && b <= 57u8) || b == 46u8 {
            assert(!is_checked_word(t@, s as int, e as int));
            return None;
        }
        k = k + 1;
    }
    Some(f)
}

/// The spans of the words of `t` to check, in order.
pub fn word_spans(t: &[u8]) -> (r: Vec<(usize, usize)>)
    ensures
        spans_view(r@) == words_of(t@),
{
    let mut out: Vec<(usize, usize)> = Vec::new();
    let mut i: usize = 0;
    // 0: between words, 1: inside quotes, 2: inside a word
    let mut mode: u8 = 0;
    let mut quote: u8 = 0;
    let mut start: usize = 0;
    let n = t.len();
    while i < n
        invariant
            n == t@.len(),
            i <= n,
            mode <= 2,
            mode == 2 ==> start < n && start <= i,
            spans_view(out@) + scan(
                t@,
                i as int,
                if mode == 0 {
                    ScanState::Outside
                } else if mode == 1 {
                    ScanState::Quoted(quote)
                } else {
                    ScanState::Word(start as int)
                },
            ) == words_of(t@),
        decreases 2 * (n - i) + (if mode == 2 { 1int } else { 0int }),
    {
        let b = t[i];
        if mode == 0 {
            if b == 34u8 || b == 39u8 {
                mode = 1;
                quote = b;
            } else if word_byte(b) {
                mode = 2;
                start = i;
            }
            i = i + 1;
        } else if mode == 1 {
            if b == quote {
                mode = 0;
            }
            i = i + 1;
        } else if word_byte(b) {
            i = i + 1;
        } else {
            let ghost before = out@;
            proof {
                lemma_trimmed_bounds(t@, start as int, i as int);
            }
            match checked_word(t, start, i) {
                Some(f) => {
                    out.push((start, f));
                    assert(spans_view(out@) =~= spans_view(before).push((start as int, f as int)));
                    assert(spans_view(out@) =~= spans_view(before) + emit(t@, start as int, i as int));
                },
                None => {
                    assert(spans_view(out@) =~= spans_view(before) + emit(t@, start as int, i as int));
                },
            }
            mode = 0;
        }
    }
    if mode == 2 {
        let ghost before = out@;
        proof {
            lemma_trimmed_bounds(t@, start as int, n as int);
        }
        match checked_word(t, start, n) {
            Some(f) => {
                out.push((start, f));
                assert(spans_view(out@) =~= spans_view(before).push((start as int, f as int)));
                assert(spans_view(out@) =~= spans_view(before) + emit(t@, start as int, n as int));
            },
            None => {
                assert(spans_view(out@) =~= spans_view(before) + emit(t@, start as int, n as int));
            },
        }
    } else {
        assert(spans_view(out@) =~= spans_view(out@) + Seq::<(int, int)>::empty());
    }
    out
}

/// The text that some bytes spell, invalid sequences replaced.
pub uninterp spec fn text_of_bytes(b: Seq<u8>) -> Seq<char>;

/// Relies on String::from_utf8_lossy: the text depends on the bytes alone.
#[verifier::external_body]
fn bytes_text(b: &[u8]) -> (r: String)
    ensures
        r@ == text_of_bytes(b@),
{
    String::from_utf8_lossy(b).into_owned()
}

/// The corrections that the dictionary of common misspellings gives for a
/// word, compared without regard to case; `None` for a word it does not hold.
pub uninterp spec fn typo_corrections_of(word: Seq<char>) -> Option<Seq<Seq<char>>>;

pub open spec fn opt_texts(o: Option<Vec<String>>) -> Option<Seq<Seq<char>>> {
    match o {
        Some(v) => Some(v@.map_values(|s: String| s@)),
        None => None,
    }
}

/// Relies on typos_dict::WORD and dictgen's Map::find with a UniCase key:
/// the corrections listed for a misspelled word, in their order.
#[verifier::external_body]
fn typo_corrections(word: &str) -> (r: Option<Vec<String>>)
    ensures
        opt_texts(r) == typo_corrections_of(word@),
{
    typos_dict::WORD.find(&unicase::UniCase::new(word)).map(|cs| cs.iter().map(|c| c.to_string()).collect())
}

/// A word without the possessive `'s`.
pub open spec fn owner_stripped(w: Seq<u8>) -> Seq<u8> {
    if w.len() >= 2 && w[w.len() - 2] == 39u8 && w[w.len() - 1] == 115u8 {
        w.subrange(0, w.len() - 2)
    } else {
        w
    }
}

pub open spec fn node_span(p: Option<Position>) -> Position {
    match p {
        Some(p) => p,
        None => Position {
            start_line: 0,
            start_column: 0,
            start_offset: 0,
            end_line: 0,
            end_column: 0,
            end_offset: 0,
        },
    }
}

/// Offsets in the file of a word at `s..e` of a node that starts at `base`.
pub open spec fn file_offsets(base: usize, s: int, e: int) -> (usize, usize) {
    if base + e <= usize::MAX {
        ((base + s) as usize, (base + e) as usize)
    } else {
        (base, base)
    }
}

/// The issue for a word that the dictionary lists as misspelled.
pub open spec fn misspelling_issue(
    path: Seq<char>,
    p: Option<Position>,
    offsets: (usize, usize),
    word: Seq<char>,
    base: Seq<char>,
    corrections: Seq<Seq<char>>,
) -> IssueView {
    let n = node_span(p);
    IssueView {
        category: IssueCategory::Spelling,
        severity: IssueSeverity::Warning,
        file_path: path,
        rows: (n.start_line, n.end_line),
        cols: (n.start_column, n.end_column),
        offsets,
        message: "Word \""@ + word + "\" is unknown or miss-spelled"@,
        fixes: seq![
            if corrections.len() > 0 {
                "Consider changing \""@ + word + "\" to \""@ + corrections[0] + "\""@
            } else {
                "Cannot find any suggestion for word \""@ + base + "\""@
            },
            "If you're sure that this word is correct - add it to the spellcheck dictionary(TBD)"@,
        ],
    }
}

/// The issues for the word at `span` of a text node.
pub open spec fn word_issues(
    path: Seq<char>,
    value: Seq<u8>,
    p: Option<Position>,
    span: (int, int),
    whitelist: Seq<Seq<char>>,
) -> Seq<IssueView> {
    let w = value.subrange(span.0, span.1);
    let word = text_of_bytes(w);
    let base = text_of_bytes(owner_stripped(w));
    if whitelist.contains(word) {
        Seq::empty()
    } else {
        match typo_corrections_of(base) {
            Some(cs) => seq![
                misspelling_issue(path, p, file_offsets(node_span(p).start_offset, span.0, span.1), word, base, cs),
            ],
            None => Seq::empty(),
        }
    }
}

pub open spec fn words_issues(
    path: Seq<char>,
    value: Seq<u8>,
    p: Option<Position>,
    spans: Seq<(int, int)>,
    whitelist: Seq<Seq<char>>,
) -> Seq<IssueView>
    decreases spans.len(),
{
    if spans.len() == 0 {
        Seq::empty()
    } else {
        words_issues(path, value, p, spans.drop_last(), whitelist) + word_issues(
            path,
            value,
            p,
            spans.last(),
            whitelist,
        )
    }
}

/// The issues of one text node: one for each of its words, in order, that is
/// not whitelisted and that the dictionary lists as misspelled.
pub open spec fn node_issues(path: Seq<char>, node: (Seq<char>, Option<Position>), whitelist: Seq<Seq<char>>) -> Seq<IssueView> {
    let value = vstd::utf8::encode_utf8(node.0);
    words_issues(path, value, node.1, words_of(value), whitelist)
}

pub open spec fn nodes_issues(
    path: Seq<char>,
    nodes: Seq<(Seq<char>, Option<Position>)>,
    whitelist: Seq<Seq<char>>,
) -> Seq<IssueView>
    decreases nodes.len(),
{
    if nodes.len() == 0 {
        Seq::empty()
    } else {
        nodes_issues(path, nodes.drop_last(), whitelist) + node_issues(path, nodes.last(), whitelist)
    }
}

fn listed(whitelist: &Vec<String>, word: &String) -> (r: bool)
    ensures
        r == texts_view(whitelist@).contains(word@),
{
    let mut k: usize = 0;
    while k < whitelist.len()
        invariant
            k <= whitelist@.len(),
            forall|m: int| 0 <= m < k ==> texts_view(whitelist@)[m] != word@,
        decreases whitelist@.len() - k,
    {
        if whitelist[k] == *word {
            assert(texts_view(whitelist@)[k as int] == word@);
            return true;
        }
        k = k + 1;
    }
    false
}

/// The issue for a word, given the corrections that the dictionary lists for
/// it.
pub fn misspelling(
    path: &str,
    p: Option<Position>,
    offsets: (usize, usize),
    word: &str,
    base: &str,
    corrections: &Vec<String>,
) -> (r: CheckIssue)
    ensures
        issue_view(r) == misspelling_issue(path@, p, offsets, word@, base@, corrections@.map_values(|s: String| s@)),
{
    let n = match p {
        Some(p) => p,
        None => Position::new(0, 0, 0, 0, 0, 0),
    };
    let first = if corrections.len() > 0 {
        String::from_str("Consider changing \"").concat(word).concat("\" to \"").concat(corrections[0].as_str()).concat(
            "\"",
        )
    } else {
        String::from_str("Cannot find any suggestion for word \"").concat(base).concat("\"")
    };
    let mut fixes: Vec<String> = Vec::new();
    fixes.push(first);
    fixes.push(String::from_str("If you're sure that this word is correct - add it to the spellcheck dictionary(TBD)"));
    let r = CheckIssue {
        category: IssueCategory::Spelling,
        severity: IssueSeverity::Warning,
        file_path: String::from_str(path),
        row_num_start: n.start_line,
        row_num_end: n.end_line,
        col_num_start: n.start_column,
        col_num_end: n.end_column,
        offset_start: offsets.0,
        offset_end: offsets.1,
        message: String::from_str("Word \"").concat(word).concat("\" is unknown or miss-spelled"),
        fixes,
    };
    assert(issue_view(r).fixes =~= misspelling_issue(path@, p, offsets, word@, base@, corrections@.map_values(|s: String| s@)).fixes);
    r
}

fn copy_range(t: &[u8], s: usize, e: usize) -> (r: Vec<u8>)
    requires
        s <= e <= t@.len(),
    ensures
        r@ == t@.subrange(s as int, e as int),
{
    let mut r: Vec<u8> = Vec::new();
    let mut i: usize = s;
    while i < e
        invariant
            s <= i <= e <= t@.len(),
            r@ =~= t@.subrange(s as int, i as int),
        decreases e - i,
    {
        r.push(t[i]);
        i = i + 1;
    }
    r
}

proof fn lemma_scan_spans(t: Seq<u8>, i: int, st: ScanState)
    requires
        0 <= i <= t.len(),
        st matches ScanState::Word(s) ==> 0 <= s <= i,
    ensures
        forall|k: int|
            0 <= k < scan(t, i, st).len() ==> 0 <= (#[trigger] scan(t, i, st)[k]).0 <= scan(t, i, st)[k].1 <= t.len(),
    decreases t.len() - i, state_rank(st),
{
    if i >= t.len() {
        if let ScanState::Word(s) = st {
            lemma_trimmed_bounds(t, s, t.len() as int);
            assert(scan(t, i, st) == emit(t, s, t.len() as int));
        }
    } else {
        match st {
            ScanState::Outside => if is_quote(t[i]) {
                lemma_scan_spans(t, i + 1, ScanState::Quoted(t[i]));
                assert(scan(t, i, st) == scan(t, i + 1, ScanState::Quoted(t[i])));
            } else if is_word_byte(t[i]) {
                lemma_scan_spans(t, i + 1, ScanState::Word(i));
                assert(scan(t, i, st) == scan(t, i + 1, ScanState::Word(i)));
            } else {
                lemma_scan_spans(t, i + 1, ScanState::Outside);
                assert(scan(t, i, st) == scan(t, i + 1, ScanState::Outside));
            },
            ScanState::Quoted(q) => if t[i] == q {
                lemma_scan_spans(t, i + 1, ScanState::Outside);
                assert(scan(t, i, st) == scan(t, i + 1, ScanState::Outside));
            } else {
                lemma_scan_spans(t, i + 1, ScanState::Quoted(q));
                assert(scan(t, i, st) == scan(t, i + 1, ScanState::Quoted(q)));
            },
            ScanState::Word(s) => if is_word_byte(t[i]) {
                lemma_scan_spans(t, i + 1, ScanState::Word(s));
                assert(scan(t, i, st) == scan(t, i + 1, ScanState::Word(s)));
            } else {
                lemma_trimmed_bounds(t, s, i);
                lemma_scan_spans(t, i, ScanState::Outside);
                let e = emit(t, s, i);
                let rest = scan(t, i, ScanState::Outside);
                assert(scan(t, i, st) == e + rest);
                assert forall|k: int| 0 <= k < (e + rest).len() implies 0 <= (#[trigger] (e + rest)[k]).0 <= (e + rest)[k].1 <= t.len() by {
                    if k >= e.len() {
                        assert((e + rest)[k] == rest[k - e.len()]);
                    }
                }
            },
        }
    }
}

/// The spelling issues of one text node.
pub fn spell_check_node(path: &str, node: &TextNode, whitelist: &Vec<String>) -> (r: Vec<CheckIssue>)
    ensures
        issue_views(r@) == node_issues(path@, (node.value@, node.position), texts_view(whitelist@)),
{
    let value = node.value.as_str().as_bytes();
    let spans = word_spans(value);
    let ghost sv = spans_view(spans@);
    proof {
        lemma_scan_spans(value@, 0, ScanState::Outside);
    }
    let base_offset: usize = match node.position {
        Some(p) => p.start_offset,
        None => 0,
    };
    let mut r: Vec<CheckIssue> = Vec::new();
    let mut i: usize = 0;
    while i < spans.len()
        invariant
            i <= spans@.len(),
            sv == spans_view(spans@),
            sv == words_of(value@),
            value@ == vstd::utf8::encode_utf8(node.value@),
            base_offset == node_span(node.position).start_offset,
            forall|k: int| 0 <= k < sv.len() ==> 0 <= (#[trigger] sv[k]).0 <= sv[k].1 <= value@.len(),
            issue_views(r@) == words_issues(path@, value@, node.position, sv.subrange(0, i as int), texts_view(whitelist@)),
        decreases spans@.len() - i,
    {
        let (s, e) = spans[i];
        assert(sv[i as int] == (s as int, e as int));
        let w = copy_range(value, s, e);
        let word = bytes_text(w.as_slice());
        let mut stripped = w.len();
        if w.len() >= 2 && w[w.len() - 2] == 39u8 && w[w.len() - 1] == 115u8 {
            stripped = w.len() - 2;
        }
        let bw = copy_range(w.as_slice(), 0, stripped);
        assert(bw@ =~= owner_stripped(w@));
        let base = bytes_text(bw.as_slice());
        let ghost before = r@;
        assert(sv.subrange(0, i as int + 1).drop_last() =~= sv.subrange(0, i as int));
        if !listed(whitelist, &word) {
            match typo_corrections(base.as_str()) {
                Some(cs) => {
                    let offsets = if e <= usize::MAX - base_offset {
                        (base_offset + s, base_offset + e)
                    } else {
                        (base_offset, base_offset)
                    };
                    let issue = misspelling(path, node.position, offsets, word.as_str(), base.as_str(), &cs);
                    r.push(issue);
                    assert(issue_views(r@) =~= issue_views(before).push(issue_view(issue)));
                },
                None => {},
            }
        }
        assert(issue_views(r@) =~= words_issues(path@, value@, node.position, sv.subrange(0, i as int + 1), texts_view(whitelist@)));
        i = i + 1;
    }
    assert(sv.subrange(0, sv.len() as int) =~= sv);
    r
}

/// The spelling pass over a file: the issues of its text nodes, in document
/// order.
pub fn spell_check(file: &MarkDownFile, whitelist: &Vec<String>) -> (r: Vec<CheckIssue>)
    ensures
        issue_views(r@) == nodes_issues(file.path@, texts_of(gfm_tree(file.content@)), texts_view(whitelist@)),
{
    let tree = parse_gfm(file.content.as_str());
    let nodes = text_nodes(&tree);
    let ghost nv = crate::ast::text_node_views(nodes@);
    let mut r: Vec<CheckIssue> = Vec::new();
    let mut i: usize = 0;
    while i < nodes.len()
        invariant
            i <= nodes@.len(),
            nv == crate::ast::text_node_views(nodes@),
            nv == texts_of(gfm_tree(file.content@)),
            issue_views(r@) == nodes_issues(file.path@, nv.subrange(0, i as int), texts_view(whitelist@)),
        decreases nodes@.len() - i,
    {
        let mut found = spell_check_node(file.path.as_str(), &nodes[i], whitelist);
        let ghost before = r@;
        let ghost added = found@;
        r.append(&mut found);
        assert(nv.subrange(0, i as int + 1).drop_last() =~= nv.subrange(0, i as int));
        assert(nv[i as int] == (nodes@[i as int].value@, nodes@[i as int].position));
        assert(issue_views(r@) =~= issue_views(before) + issue_views(added));
        i = i + 1;
    }
    assert(nv.subrange(0, nv.len() as int) =~= nv);
    r
}

} // verus!

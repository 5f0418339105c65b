//! Violations of lint rules and the builder that assembles them.
use vstd::prelude::*;
use crate::position::Position;

verus! {

/// What a violation says, as mathematical values.
pub struct ViolationView {
    pub code: Seq<char>,
    pub doc_link: Seq<char>,
    pub message: Seq<char>,
    pub fixes: Seq<Seq<char>>,
    pub is_fmt_fixable: bool,
    pub position: Position,
}

impl ViolationView {
    /// The starting point of every builder: empty texts, no fixes, not
    /// fixable, and the empty span at the start of the text.
    pub open spec fn empty() -> ViolationView {
        ViolationView {
            code: Seq::empty(),
            doc_link: Seq::empty(),
            message: Seq::empty(),
            fixes: Seq::empty(),
            is_fmt_fixable: false,
            position: Position::zero(),
        }
    }
}

pub open spec fn texts_view(v: Seq<String>) -> Seq<Seq<char>> {
    v.map_values(|s: String| s@)
}

/// One problem found by a lint rule.
#[derive(Debug, Clone, PartialEq, Eq)]
pub struct Violation {
    pub code: String,
    pub doc_link: String,
    pub message: String,
    pub fixes: Vec<String>,
    pub is_fmt_fixable: bool,
    pub position: Position,
}

impl View for Violation {
    type V = ViolationView;

    open spec fn view(&self) -> ViolationView {
        ViolationView {
            code: self.code@,
            doc_link: self.doc_link@,
            message: self.message@,
            fixes: texts_view(self.fixes@),
            is_fmt_fixable: self.is_fmt_fixable,
            position: self.position,
        }
    }
}

/// Assembles a [`Violation`] one field at a time.
#[derive(Debug)]
pub struct ViolationBuilder {
    code: String,
    doc_link: String,
    message: String,
    fixes: Vec<String>,
    is_fmt_fixable: bool,
    position: Position,
}

impl View for ViolationBuilder {
    type V = ViolationView;

    closed spec fn view(&self) -> ViolationView {
        ViolationView {
            code: self.code@,
            doc_link: self.doc_link@,
            message: self.message@,
            fixes: texts_view(self.fixes@),
            is_fmt_fixable: self.is_fmt_fixable,
            position: self.position,
        }
    }
}

impl ViolationBuilder {
    pub fn new() -> (r: ViolationBuilder)
        ensures
            r@ == ViolationView::empty(),
    {
        let r = ViolationBuilder {
            code: String::new(),
            doc_link: String::new(),
            message: String::new(),
            fixes: Vec::new(),
            is_fmt_fixable: false,
            position: Position::new(1, 1, 0, 1, 1, 0),
        };
        assert(texts_view(r.fixes@) =~= Seq::empty());
        r
    }

    pub fn code(self, code: &str) -> (r: ViolationBuilder)
        ensures
            r@ == (ViolationView { code: code@, ..self@ }),
    {
        ViolationBuilder { code: String::from_str(code), ..self }
    }

    pub fn doc_link(self, doc_link: &str) -> (r: ViolationBuilder)
        ensures
            r@ == (ViolationView { doc_link: doc_link@, ..self@ }),
    {
        ViolationBuilder { doc_link: String::from_str(doc_link), ..self }
    }

    pub fn message(self, message: &str) -> (r: ViolationBuilder)
        ensures
            r@ == (ViolationView { message: message@, ..self@ }),
    {
        ViolationBuilder { message: String::from_str(message), ..self }
    }

    /// Appends a fix suggestion after those already given.
    pub fn push_fix(self, fix: &str) -> (r: ViolationBuilder)
        ensures
            r@ == (ViolationView { fixes: self@.fixes.push(fix@), ..self@ }),
    {
        let mut fixes = self.fixes;
        let ghost old_fixes = fixes@;
        fixes.push(String::from_str(fix));
        assert(texts_view(fixes@) =~= texts_view(old_fixes).push(fix@));
        ViolationBuilder { fixes, ..self }
    }

    pub fn is_fmt_fixable(self, is_fmt_fixable: bool) -> (r: ViolationBuilder)
        ensures
            r@ == (ViolationView { is_fmt_fixable, ..self@ }),
    {
        ViolationBuilder { is_fmt_fixable, ..self }
    }

    pub fn position(self, position: Position) -> (r: ViolationBuilder)
        ensures
            r@ == (ViolationView { position, ..self@ }),
    {
        ViolationBuilder { position, ..self }
    }

    pub fn build(self) -> (r: Violation)
        ensures
            r@ == self@,
    {
        Violation {
            code: self.code,
            doc_link: self.doc_link,
            message: self.message,
            fixes: self.fixes,
            is_fmt_fixable: self.is_fmt_fixable,
            position: self.position,
        }
    }
}

impl Default for ViolationBuilder {
    fn default() -> (r: ViolationBuilder)
        ensures
            r@ == ViolationView::empty(),
    {
        ViolationBuilder::new()
    }
}

} // verus!

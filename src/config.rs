//! Style settings given as text, and how they update the active ones.
use vstd::prelude::*;
use crate::md003::HeadingStyle;

verus! {

#[derive(Debug, Clone, Copy, PartialEq, Eq, Structural)]
pub enum UnorderedListStyle {
    Consistent,
    Dash,
    Asterisk,
    Plus,
}

#[derive(Debug, Clone, Copy, PartialEq, Eq, Structural)]
pub enum BoldStyle {
    Consistent,
    Asterisk,
    Underscore,
}

/// The active style settings.
#[derive(Debug, Clone, Copy, PartialEq, Eq, Structural)]
pub struct StyleConfig {
    pub headings: HeadingStyle,
    pub unordered_lists: UnorderedListStyle,
    pub bold: BoldStyle,
}

pub open spec fn heading_style_named(s: Seq<char>) -> Option<HeadingStyle> {
    if s == "consistent"@ {
        Some(HeadingStyle::Consistent)
    } else if s == "atx"@ {
        Some(HeadingStyle::Atx)
    } else if s == "setext"@ {
        Some(HeadingStyle::SetExt)
    } else {
        None
    }
}

pub open spec fn list_style_named(s: Seq<char>) -> Option<UnorderedListStyle> {
    if s == "consistent"@ {
        Some(UnorderedListStyle::Consistent)
    } else if s == "dash"@ {
        Some(UnorderedListStyle::Dash)
    } else if s == "asterisk"@ {
        Some(UnorderedListStyle::Asterisk)
    } else if s == "plus"@ {
        Some(UnorderedListStyle::Plus)
    } else {
        None
    }
}

pub open spec fn bold_style_named(s: Seq<char>) -> Option<BoldStyle> {
    if s == "consistent"@ {
        Some(BoldStyle::Consistent)
    } else if s == "asterisk"@ {
        Some(BoldStyle::Asterisk)
    } else if s == "underscore"@ {
        Some(BoldStyle::Underscore)
    } else {
        None
    }
}

fn same_text(a: &str, b: &str) -> (r: bool)
    ensures
        r == (a@ == b@),
{
    String::from_str(a) == String::from_str(b)
}

/// The heading style that `s` names, or `previous` where it names none; the
/// flag tells that `s` was not recognised.
pub fn parse_heading_style(s: &str, previous: HeadingStyle) -> (r: (HeadingStyle, bool))
    ensures
        r == (match heading_style_named(s@) {
            Some(h) => (h, false),
            None => (previous, true),
        }),
{
    if same_text(s, "consistent") {
        (HeadingStyle::Consistent, false)
    } else if same_text(s, "atx") {
        (HeadingStyle::Atx, false)
    } else if same_text(s, "setext") {
        (HeadingStyle::SetExt, false)
    } else {
        (previous, true)
    }
}

/// The list style that `s` names, or `previous` where it names none; the flag
/// tells that `s` was not recognised.
pub fn parse_unordered_list_style(s: &str, previous: UnorderedListStyle) -> (r: (UnorderedListStyle, bool))
    ensures
        r == (match list_style_named(s@) {
            Some(h) => (h, false),
            None => (previous, true),
        }),
{
    if same_text(s, "consistent") {
        (UnorderedListStyle::Consistent, false)
    } else if same_text(s, "dash") {
        (UnorderedListStyle::Dash, false)
    } else if same_text(s, "asterisk") {
        (UnorderedListStyle::Asterisk, false)
    } else if same_text(s, "plus") {
        (UnorderedListStyle::Plus, false)
    } else {
        (previous, true)
    }
}

/// The bold style that `s` names, or `previous` where it names none; the flag
/// tells that `s` was not recognised.
pub fn parse_bold_style(s: &str, previous: BoldStyle) -> (r: (BoldStyle, bool))
    ensures
        r == (match bold_style_named(s@) {
            Some(h) => (h, false),
            None => (previous, true),
        }),
{
    if same_text(s, "consistent") {
        (BoldStyle::Consistent, false)
    } else if same_text(s, "asterisk") {
        (BoldStyle::Asterisk, false)
    } else if same_text(s, "underscore") {
        (BoldStyle::Underscore, false)
    } else {
        (previous, true)
    }
}

/// The settings after the options that were given; each unrecognised one
/// leaves its setting as it was.
pub open spec fn styles_after(
    style: StyleConfig,
    headings: Option<Seq<char>>,
    lists: Option<Seq<char>>,
    bold: Option<Seq<char>>,
) -> StyleConfig {
    StyleConfig {
        headings: match headings {
            Some(s) => match heading_style_named(s) {
                Some(h) => h,
                None => style.headings,
            },
            None => style.headings,
        },
        unordered_lists: match lists {
            Some(s) => match list_style_named(s) {
                Some(l) => l,
                None => style.unordered_lists,
            },
            None => style.unordered_lists,
        },
        bold: match bold {
            Some(s) => match bold_style_named(s) {
                Some(b) => b,
                None => style.bold,
            },
            None => style.bold,
        },
    }
}

pub open spec fn heading_warning(o: Option<Seq<char>>) -> Seq<Seq<char>> {
    match o {
        Some(s) => if heading_style_named(s) is None { seq![s] } else { Seq::empty() },
        None => Seq::empty(),
    }
}

pub open spec fn list_warning(o: Option<Seq<char>>) -> Seq<Seq<char>> {
    match o {
        Some(s) => if list_style_named(s) is None { seq![s] } else { Seq::empty() },
        None => Seq::empty(),
    }
}

pub open spec fn bold_warning(o: Option<Seq<char>>) -> Seq<Seq<char>> {
    match o {
        Some(s) => if bold_style_named(s) is None { seq![s] } else { Seq::empty() },
        None => Seq::empty(),
    }
}

pub open spec fn opt_view(o: Option<String>) -> Option<Seq<char>> {
    match o {
        Some(s) => Some(s@),
        None => None,
    }
}

/// Applies the style options that were given; returns the new settings and the
/// texts that named no style, in option order.
pub fn apply_style_options(
    style: StyleConfig,
    headings: &Option<String>,
    lists: &Option<String>,
    bold: &Option<String>,
) -> (r: (StyleConfig, Vec<String>))
    ensures
        r.0 == styles_after(style, opt_view(*headings), opt_view(*lists), opt_view(*bold)),
        r.1@.map_values(|s: String| s@) == heading_warning(opt_view(*headings)) + list_warning(opt_view(*lists))
            + bold_warning(opt_view(*bold)),
{
    let mut warnings: Vec<String> = Vec::new();
    let mut out = style;
    match headings {
        Some(s) => {
            let (h, unknown) = parse_heading_style(s.as_str(), out.headings);
            out.headings = h;
            if unknown {
                warnings.push(s.clone());
            }
        },
        None => {},
    }
    match lists {
        Some(s) => {
            let (l, unknown) = parse_unordered_list_style(s.as_str(), out.unordered_lists);
            out.unordered_lists = l;
            if unknown {
                warnings.push(s.clone());
            }
        },
        None => {},
    }
    match bold {
        Some(s) => {
            let (b, unknown) = parse_bold_style(s.as_str(), out.bold);
            out.bold = b;
            if unknown {
                warnings.push(s.clone());
            }
        },
        None => {},
    }
    (out, warnings)
}

} // verus!

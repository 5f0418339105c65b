//! Reporting a file whose formatting differs from its formatted form.
use vstd::prelude::*;
use crate::checker::Issue;
use crate::md019::is_line_start;

verus! {

pub open spec fn digit_char(d: nat) -> char {
    if d == 0 { '0' } else if d == 1 { '1' } else if d == 2 { '2' } else if d == 3 { '3' }
    else if d == 4 { '4' } else if d == 5 { '5' } else if d == 6 { '6' } else if d == 7 { '7' }
    else if d == 8 { '8' } else { '9' }
}

/// The decimal digits of `n`, without leading zeros.
pub open spec fn decimal(n: nat) -> Seq<char>
    decreases n,
{
    if n < 10 {
        seq![digit_char(n)]
    } else {
        decimal(n / 10).push(digit_char(n % 10))
    }
}

fn digit_str(d: usize) -> (r: &'static str)
    requires
        d < 10,
    ensures
        r@ == seq![digit_char(d as nat)],
{
    proof {
        reveal_strlit("0");
        reveal_strlit("1");
        reveal_strlit("2");
        reveal_strlit("3");
        reveal_strlit("4");
        reveal_strlit("5");
        reveal_strlit("6");
        reveal_strlit("7");
        reveal_strlit("8");
        reveal_strlit("9");
    }
    let r = if d == 0 { "0" } else if d == 1 { "1" } else if d == 2 { "2" } else if d == 3 { "3" }
    else if d == 4 { "4" } else if d == 5 { "5" } else if d == 6 { "6" } else if d == 7 { "7" }
    else if d == 8 { "8" } else { "9" };
    assert(r@ =~= seq![digit_char(d as nat)]);
    r
}

/// `n` written in decimal.
pub fn decimal_string(n: usize) -> (r: String)
    ensures
        r@ == decimal(n as nat),
    decreases n,
{
    if n < 10 {
        String::from_str(digit_str(n))
    } else {
        let s = decimal_string(n / 10);
        let r = s.concat(digit_str(n % 10));
        assert(r@ =~= decimal(n as nat));
        r
    }
}

/// Number of lines among the bytes before `p`, counted as `str::lines` does.
pub open spec fn lines_upto(t: Seq<u8>, p: int) -> nat
    decreases p,
{
    if p <= 0 {
        0
    } else if is_line_start(t, p - 1) {
        lines_upto(t, p - 1) + 1
    } else {
        lines_upto(t, p - 1)
    }
}

pub open spec fn line_count(t: Seq<u8>) -> nat {
    lines_upto(t, t.len() as int)
}

pub fn count_lines(t: &[u8]) -> (r: usize)
    ensures
        r == line_count(t@),
        r <= t@.len(),
{
    let mut n: usize = 0;
    let mut p: usize = 0;
    while p < t.len()
        invariant
            p <= t@.len(),
            n == lines_upto(t@, p as int),
            n <= p,
        decreases t@.len() - p,
    {
        if p == 0 || t[p - 1] == 10u8 {
            n = n + 1;
        }
        p = p + 1;
    }
    n
}

/// The issue for a file whose text is not in its formatted form: it covers the
/// file from its first line to one past its last.
pub open spec fn format_issue(path: Seq<char>, original: Seq<u8>) -> (Seq<char>, Seq<char>, Seq<char>, Seq<char>, Seq<Seq<char>>) {
    (
        "MD001"@,
        path + ":1.0-"@ + decimal(line_count(original) + 1) + ".0"@,
        "Format"@,
        "File has a wrong formatting"@,
        seq!["Try auto-formatting a file with '--autoformat' flag"@],
    )
}

pub open spec fn issue_fields(i: Issue) -> (Seq<char>, Seq<char>, Seq<char>, Seq<char>, Seq<Seq<char>>) {
    (i.id@, i.file_path@, i.category@, i.description@, i.suggestions@.map_values(|s: String| s@))
}

/// The formatting issues of the file at `path`: none where its text equals its
/// formatted form, else one.
pub fn format_issues(path: &str, original: &str, formatted: &str) -> (r: Vec<Issue>)
    requires
        vstd::utf8::encode_utf8(original@).len() < usize::MAX,
    ensures
        original@ == formatted@ ==> r@.len() == 0,
        original@ != formatted@ ==> r@.len() == 1 && issue_fields(r@[0]) == format_issue(path@, vstd::utf8::encode_utf8(original@))
            && r@[0].issue_in_code is None,
{
    let mut r: Vec<Issue> = Vec::new();
    if String::from_str(original) != String::from_str(formatted) {
        let lines = count_lines(original.as_bytes());
        let file_path = String::from_str(path).concat(":1.0-").concat(decimal_string(lines + 1).as_str()).concat(".0");
        let mut suggestions: Vec<String> = Vec::new();
        suggestions.push(String::from_str("Try auto-formatting a file with '--autoformat' flag"));
        let issue = Issue {
            id: String::from_str("MD001"),
            file_path,
            category: String::from_str("Format"),
            description: String::from_str("File has a wrong formatting"),
            issue_in_code: None,
            suggestions,
        };
        assert(issue.suggestions@.map_values(|s: String| s@) =~= format_issue(path@, vstd::utf8::encode_utf8(original@)).4);
        r.push(issue);
    }
    r
}

} // verus!

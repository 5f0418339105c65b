//! Merging the outcomes of the analysis passes over one file into one report.
use vstd::prelude::*;

verus! {

/// One problem in a file, as reported by any pass.
#[derive(Debug, Clone, PartialEq, Eq)]
pub struct Issue {
    pub id: String,
    pub file_path: String,
    pub category: String,
    pub description: String,
    pub issue_in_code: Option<String>,
    pub suggestions: Vec<String>,
}

/// The analysis passes, in the order in which they run.
#[derive(Debug, Clone, Copy, PartialEq, Eq, Structural)]
pub enum Pass {
    Format,
    LinkCheck,
    Grammar,
    Spelling,
    Lint,
}

/// The passes to run: all of them, but the grammar pass only where it is
/// enabled.
pub open spec fn plan_spec(grammar_enabled: bool) -> Seq<Pass> {
    if grammar_enabled {
        seq![Pass::Format, Pass::LinkCheck, Pass::Grammar, Pass::Spelling, Pass::Lint]
    } else {
        seq![Pass::Format, Pass::LinkCheck, Pass::Spelling, Pass::Lint]
    }
}

pub fn plan(grammar_enabled: bool) -> (r: Vec<Pass>)
    ensures
        r@ == plan_spec(grammar_enabled),
{
    let mut r = Vec::new();
    r.push(Pass::Format);
    r.push(Pass::LinkCheck);
    if grammar_enabled {
        r.push(Pass::Grammar);
    }
    r.push(Pass::Spelling);
    r.push(Pass::Lint);
    assert(r@ =~= plan_spec(grammar_enabled));
    r
}

pub open spec fn outcome_view<E>(o: Result<Vec<Issue>, E>) -> Result<Seq<Issue>, E> {
    match o {
        Ok(v) => Ok(v@),
        Err(e) => Err(e),
    }
}

/// The report of a run whose passes ended with `outcomes`, in order: the
/// first failure, or else all issues, pass after pass.
pub open spec fn merged<E>(outcomes: Seq<Result<Vec<Issue>, E>>) -> Result<Seq<Issue>, E>
    decreases outcomes.len(),
{
    if outcomes.len() == 0 {
        Ok(Seq::empty())
    } else {
        match merged(outcomes.drop_last()) {
            Err(e) => Err(e),
            Ok(acc) => match outcomes.last() {
                Ok(v) => Ok(acc + v@),
                Err(e) => Err(e),
            },
        }
    }
}

/// Merges the outcomes of passes, in order: the first failure aborts the
/// whole report, with no issue of the passes before it.
pub fn merge_results<E>(outcomes: Vec<Result<Vec<Issue>, E>>) -> (r: Result<Vec<Issue>, E>)
    ensures
        outcome_view(r) == merged(outcomes@),
{
    let ghost orig = outcomes@;
    let n = outcomes.len();
    let mut rest = outcomes;
    let mut issues: Vec<Issue> = Vec::new();
    let mut i: usize = 0;
    while i < n
        invariant
            n == orig.len(),
            orig == outcomes@,
            i <= n,
            rest@ == orig.subrange(i as int, n as int),
            merged(orig.subrange(0, i as int)) == Ok::<Seq<Issue>, E>(issues@),
        decreases n - i,
    {
        let outcome = rest.remove(0);
        assert(orig.subrange(0, i as int + 1).drop_last() =~= orig.subrange(0, i as int));
        assert(orig.subrange(0, i as int + 1).last() == outcome);
        match outcome {
            Ok(v) => {
                let mut v = v;
                issues.append(&mut v);
            },
            Err(e) => {
                proof {
                    assert(merged(orig.subrange(0, i as int + 1)) == Err::<Seq<Issue>, E>(e));
                    lemma_merged_keeps_failure(orig, i as int + 1);
                }
                return Err(e);
            },
        }
        assert(rest@ =~= orig.subrange(i as int + 1, n as int));
        i = i + 1;
    }
    assert(orig.subrange(0, n as int) =~= orig);
    Ok(issues)
}

proof fn lemma_merged_keeps_failure<E>(outcomes: Seq<Result<Vec<Issue>, E>>, i: int)
    requires
        0 < i <= outcomes.len(),
        merged(outcomes.subrange(0, i)) is Err,
    ensures
        merged(outcomes) == merged(outcomes.subrange(0, i)),
    decreases outcomes.len() - i,
{
    if i < outcomes.len() {
        assert(outcomes.subrange(0, i + 1).drop_last() =~= outcomes.subrange(0, i));
        lemma_merged_keeps_failure(outcomes, i + 1);
    } else {
        assert(outcomes.subrange(0, i) =~= outcomes);
    }
}

/// The outcomes of the passes that ran, in pass order; `grammar` is `None`
/// where the grammar pass did not run.
pub open spec fn pipeline<E>(
    format: Result<Vec<Issue>, E>,
    links: Result<Vec<Issue>, E>,
    grammar: Option<Result<Vec<Issue>, E>>,
    spelling: Result<Vec<Issue>, E>,
    lint: Result<Vec<Issue>, E>,
) -> Seq<Result<Vec<Issue>, E>> {
    match grammar {
        Some(g) => seq![format, links, g, spelling, lint],
        None => seq![format, links, spelling, lint],
    }
}

/// The report of one file from the outcomes of its passes.
pub fn check_outcome<E>(
    format: Result<Vec<Issue>, E>,
    links: Result<Vec<Issue>, E>,
    grammar: Option<Result<Vec<Issue>, E>>,
    spelling: Result<Vec<Issue>, E>,
    lint: Result<Vec<Issue>, E>,
) -> (r: Result<Vec<Issue>, E>)
    ensures
        outcome_view(r) == merged(pipeline(format, links, grammar, spelling, lint)),
{
    let ghost expected = pipeline(format, links, grammar, spelling, lint);
    let mut outcomes: Vec<Result<Vec<Issue>, E>> = Vec::new();
    outcomes.push(format);
    outcomes.push(links);
    match grammar {
        Some(g) => outcomes.push(g),
        None => {},
    }
    outcomes.push(spelling);
    outcomes.push(lint);
    assert(outcomes@ =~= expected);
    merge_results(outcomes)
}

/// A grammar pass that did not run leaves the report as it is without that
/// pass: no failure and no issue come from it.
pub proof fn lemma_skipped_grammar_contributes_nothing<E>(
    format: Result<Vec<Issue>, E>,
    links: Result<Vec<Issue>, E>,
    spelling: Result<Vec<Issue>, E>,
    lint: Result<Vec<Issue>, E>,
)
    ensures
        merged(pipeline(format, links, None, spelling, lint)) == merged(seq![format, links, spelling, lint]),
{
}

/// A grammar pass that ran and found nothing leaves the report as it is
/// without that pass.
pub proof fn lemma_empty_grammar_contributes_nothing<E>(
    format: Result<Vec<Issue>, E>,
    links: Result<Vec<Issue>, E>,
    grammar: Vec<Issue>,
    spelling: Result<Vec<Issue>, E>,
    lint: Result<Vec<Issue>, E>,
)
    requires
        grammar@.len() == 0,
    ensures
        merged(pipeline(format, links, Some(Ok(grammar)), spelling, lint)) == merged(
            pipeline(format, links, None, spelling, lint),
        ),
{
    let with = pipeline(format, links, Some(Ok::<Vec<Issue>, E>(grammar)), spelling, lint);
    let without = pipeline(format, links, None, spelling, lint);
    assert(with.drop_last().drop_last().drop_last() =~= without.drop_last().drop_last());
    assert(with.drop_last().drop_last() =~= with.drop_last().drop_last().drop_last().push(Ok::<Vec<Issue>, E>(grammar)));
    match merged(without.drop_last().drop_last()) {
        Ok(acc) => {
            assert(acc + grammar@ =~= acc);
        },
        Err(_) => {},
    }
    assert(with.drop_last().drop_last().drop_last() == without.drop_last().drop_last());
    assert(merged(with.drop_last().drop_last()) == merged(without.drop_last().drop_last()));
    assert(with.drop_last().drop_last().push(with[3]) =~= with.drop_last());
    assert(without.drop_last().drop_last().push(without[2]) =~= without.drop_last());
    assert(merged(with.drop_last()) == merged(without.drop_last()));
}

} // verus!

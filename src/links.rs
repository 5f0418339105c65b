//! Preparing the links of a document for checking: duplicates go, and so do
//! those that an ignore pattern matches.
use vstd::prelude::*;

verus! {

/// Whether a wildcard pattern matches the whole of `s`: `?` stands for any one
/// character, `*` for any run of characters, and every other character for
/// itself.
pub open spec fn wild_matches(p: Seq<char>, s: Seq<char>) -> bool
    decreases p.len() + s.len(),
{
    if p.len() == 0 {
        s.len() == 0
    } else if p[0] == '*' {
        wild_matches(p.drop_first(), s) || (s.len() > 0 && wild_matches(p, s.drop_first()))
    } else {
        s.len() > 0 && (p[0] == '?' || p[0] == s[0]) && wild_matches(p.drop_first(), s.drop_first())
    }
}

/// Relies on wildmatch::WildMatch::new and WildMatch::matches, whose
/// documentation gives the meaning of `?` and `*` and says that the pattern
/// must match the whole input.
#[verifier::external_body]
fn wildcard_matches(pattern: &str, s: &str) -> (r: bool)
    ensures
        r == wild_matches(pattern@, s@),
{
    wildmatch::WildMatch::new(pattern).matches(s)
}

/// A URI without one trailing `/`.
pub open spec fn without_slash(uri: Seq<char>) -> Seq<char> {
    if uri.len() > 0 && uri.last() == '/' {
        uri.drop_last()
    } else {
        uri
    }
}

/// Relies on str::strip_suffix: drops one trailing `/` where there is one.
#[verifier::external_body]
fn strip_slash(uri: &str) -> (r: &str)
    ensures
        r@ == without_slash(uri@),
{
    uri.strip_suffix('/').unwrap_or(uri)
}

/// Whether some pattern matches the URI once a trailing `/` is dropped.
pub open spec fn is_ignored(patterns: Seq<Seq<char>>, uri: Seq<char>) -> bool {
    exists|j: int| 0 <= j < patterns.len() && wild_matches(#[trigger] patterns[j], without_slash(uri))
}

pub open spec fn texts(v: Seq<String>) -> Seq<Seq<char>> {
    v.map_values(|s: String| s@)
}

pub open spec fn uris_of<T>(links: Seq<(String, T)>) -> Seq<Seq<char>> {
    links.map_values(|e: (String, T)| e.0@)
}

/// The indices among the first `n` URIs of those kept: the first of each URI,
/// unless a pattern matches it.
pub open spec fn kept_upto(uris: Seq<Seq<char>>, patterns: Seq<Seq<char>>, n: int) -> Seq<int>
    decreases n,
{
    if n <= 0 {
        Seq::empty()
    } else {
        let prev = kept_upto(uris, patterns, n - 1);
        if !is_ignored(patterns, uris[n - 1]) && !uris.subrange(0, n - 1).contains(uris[n - 1]) {
            prev.push(n - 1)
        } else {
            prev
        }
    }
}

pub open spec fn kept(uris: Seq<Seq<char>>, patterns: Seq<Seq<char>>) -> Seq<int> {
    kept_upto(uris, patterns, uris.len() as int)
}

fn is_ignored_uri(patterns: &Vec<String>, uri: &str) -> (r: bool)
    ensures
        r == is_ignored(texts(patterns@), uri@),
{
    let stripped = strip_slash(uri);
    let mut j: usize = 0;
    while j < patterns.len()
        invariant
            j <= patterns@.len(),
            stripped@ == without_slash(uri@),
            forall|k: int| 0 <= k < j ==> !wild_matches(#[trigger] texts(patterns@)[k], without_slash(uri@)),
        decreases patterns@.len() - j,
    {
        if wildcard_matches(patterns[j].as_str(), stripped) {
            assert(wild_matches(texts(patterns@)[j as int], without_slash(uri@)));
            return true;
        }
        j = j + 1;
    }
    false
}

fn seen_before(uris: &Vec<String>, uri: &String) -> (r: bool)
    ensures
        r == texts(uris@).contains(uri@),
{
    let mut k: usize = 0;
    while k < uris.len()
        invariant
            k <= uris@.len(),
            forall|m: int| 0 <= m < k ==> texts(uris@)[m] != uri@,
        decreases uris@.len() - k,
    {
        if uris[k] == *uri {
            assert(texts(uris@)[k as int] == uri@);
            return true;
        }
        k = k + 1;
    }
    false
}

/// Keeps, in their order, the first link of each URI that no pattern of
/// `ignored_uri_wildcards` matches; a URI is matched with one trailing `/`
/// dropped.
pub fn dedup_links<T>(links: Vec<(String, T)>, ignored_uri_wildcards: &Vec<String>) -> (r: Vec<(String, T)>)
    ensures
        r@.len() == kept(uris_of(links@), texts(ignored_uri_wildcards@)).len(),
        forall|k: int|
            0 <= k < r@.len() ==> #[trigger] r@[k] == links@[kept(uris_of(links@), texts(ignored_uri_wildcards@))[k]],
{
    let ghost orig = links@;
    let ghost uris = uris_of(orig);
    let ghost pats = texts(ignored_uri_wildcards@);
    let mut rest = links;
    let mut seen: Vec<String> = Vec::new();
    let mut r: Vec<(String, T)> = Vec::new();
    let mut i: usize = 0;
    let n = rest.len();
    while i < n
        invariant
            n == orig.len(),
            uris == uris_of(orig),
            pats == texts(ignored_uri_wildcards@),
            i <= n,
            rest@ == orig.subrange(i as int, n as int),
            texts(seen@) == uris.subrange(0, i as int),
            r@.len() == kept_upto(uris, pats, i as int).len(),
            forall|k: int| 0 <= k < r@.len() ==> #[trigger] r@[k] == orig[kept_upto(uris, pats, i as int)[k]],
        decreases n - i,
    {
        let entry = rest.remove(0);
        assert(entry == orig[i as int]);
        assert(uris_of(orig)[i as int] == orig[i as int].0@);
        assert(entry.0@ == uris[i as int]);
        let ignored = is_ignored_uri(ignored_uri_wildcards, entry.0.as_str());
        let dup = seen_before(&seen, &entry.0);
        let ghost before = r@;
        let copy = entry.0.clone();
        if !ignored && !dup {
            r.push(entry);
            assert(kept_upto(uris, pats, i as int + 1) == kept_upto(uris, pats, i as int).push(i as int));
            assert forall|k: int| 0 <= k < r@.len() implies #[trigger] r@[k] == orig[kept_upto(uris, pats, i as int + 1)[k]] by {
                if k < before.len() {
                    assert(r@[k] == before[k]);
                }
            }
        }
        else {
            assert(kept_upto(uris, pats, i as int + 1) == kept_upto(uris, pats, i as int));
        }
        let ghost seen_before_push = seen@;
        seen.push(copy);
        assert(texts(seen@) =~= texts(seen_before_push).push(uris[i as int]));
        assert(uris.subrange(0, i as int + 1) =~= uris.subrange(0, i as int).push(uris[i as int]));
        assert(rest@ =~= orig.subrange(i as int + 1, n as int));
        i = i + 1;
    }
    assert(uris.len() == n);
    r
}

proof fn lemma_kept_not_ignored(uris: Seq<Seq<char>>, patterns: Seq<Seq<char>>, n: int)
    requires
        n <= uris.len(),
    ensures
        forall|k: int|
            0 <= k < kept_upto(uris, patterns, n).len() ==> {
                let idx = #[trigger] kept_upto(uris, patterns, n)[k];
                0 <= idx < n && !is_ignored(patterns, uris[idx])
            },
    decreases n,
{
    if n > 0 {
        lemma_kept_not_ignored(uris, patterns, n - 1);
        let prev = kept_upto(uris, patterns, n - 1);
        assert forall|k: int| 0 <= k < kept_upto(uris, patterns, n).len() implies {
            let idx = #[trigger] kept_upto(uris, patterns, n)[k];
            0 <= idx < n && !is_ignored(patterns, uris[idx])
        } by {
            if k < prev.len() {
                assert(kept_upto(uris, patterns, n)[k] == prev[k]);
            }
        }
    }
}

/// When a pattern matches a URI that does not end in `/`, the URI and the same
/// URI with a trailing `/` are both ignored, and no kept link has either.
pub proof fn lemma_trailing_slash_ignored(uris: Seq<Seq<char>>, patterns: Seq<Seq<char>>, uri: Seq<char>, j: int)
    requires
        0 <= j < patterns.len(),
        wild_matches(patterns[j], uri),
        uri.len() == 0 || uri.last() != '/',
    ensures
        is_ignored(patterns, uri),
        is_ignored(patterns, uri.push('/')),
        forall|k: int|
            0 <= k < kept(uris, patterns).len() ==> uris[#[trigger] kept(uris, patterns)[k]] != uri
                && uris[kept(uris, patterns)[k]] != uri.push('/'),
{
    assert(without_slash(uri) == uri);
    assert(uri.push('/').drop_last() =~= uri);
    assert(without_slash(uri.push('/')) == uri);
    lemma_kept_not_ignored(uris, patterns, uris.len() as int);
}

} // verus!

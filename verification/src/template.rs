use vstd::prelude::*;
use vstd::string::StrSliceExecFns;
use vstd::string::StringExecFns;

use crate::errors::CliError;
use crate::text::find_char;
use crate::text::find_from;
use crate::text::lemma_find_from;
use crate::text::str_eq;

verus! {

/// Outcome of resolving a path template against a set of bindings:
/// the substituted path, the first placeholder with no bound value,
/// or a template whose `<` is never closed.
pub enum PathResolution {
    Resolved(Seq<char>),
    MissingValue(Seq<char>),
    Malformed,
}

/// The lookup key of a placeholder token: the part after the first `:`
/// when the token is a `category:name` pair, else the whole token.
pub open spec fn token_key(token: Seq<char>) -> Seq<char> {
    let i = find_from(token, ':', 0);
    if i < 0 {
        token
    } else {
        token.subrange(i + 1, token.len() as int)
    }
}

/// Left-to-right resolution of the template tail that starts at `cursor`:
/// each `<...>` token is replaced by the value bound to its key, text
/// between tokens is copied verbatim.
pub open spec fn resolve_from(t: Seq<char>, b: Map<Seq<char>, Seq<char>>, cursor: int) -> PathResolution
    decreases t.len() - cursor
        when 0 <= cursor <= t.len()
        via resolve_from_decreases
{
    let start = find_from(t, '<', cursor);
    if start < 0 {
        PathResolution::Resolved(t.subrange(cursor, t.len() as int))
    } else {
        let end = find_from(t, '>', start + 1);
        if end < 0 {
            PathResolution::Malformed
        } else {
            let key = token_key(t.subrange(start + 1, end));
            if !b.contains_key(key) {
                PathResolution::MissingValue(key)
            } else {
                match resolve_from(t, b, end + 1) {
                    PathResolution::Resolved(rest) => PathResolution::Resolved(
                        t.subrange(cursor, start) + b[key] + rest,
                    ),
                    e => e,
                }
            }
        }
    }
}

#[via_fn]
proof fn resolve_from_decreases(t: Seq<char>, b: Map<Seq<char>, Seq<char>>, cursor: int) {
    lemma_find_from(t, '<', cursor);
    lemma_find_from(t, '>', find_from(t, '<', cursor) + 1);
}

/// Every `<` in the template tail is closed by a later `>`.
pub open spec fn template_wf_from(t: Seq<char>, cursor: int) -> bool
    decreases t.len() - cursor
        when 0 <= cursor <= t.len()
        via template_wf_from_decreases
{
    let start = find_from(t, '<', cursor);
    if start < 0 {
        true
    } else {
        let end = find_from(t, '>', start + 1);
        end >= 0 && template_wf_from(t, end + 1)
    }
}

#[via_fn]
proof fn template_wf_from_decreases(t: Seq<char>, cursor: int) {
    lemma_find_from(t, '<', cursor);
    lemma_find_from(t, '>', find_from(t, '<', cursor) + 1);
}

/// The lookup keys of the template's tokens, in template order.
/// Meaningful only on a well-formed tail (`template_wf_from`).
pub open spec fn key_list(t: Seq<char>, cursor: int) -> Seq<Seq<char>>
    decreases t.len() - cursor
        when 0 <= cursor <= t.len()
        via key_list_decreases
{
    let start = find_from(t, '<', cursor);
    if start < 0 {
        Seq::empty()
    } else {
        let end = find_from(t, '>', start + 1);
        if end < 0 {
            Seq::empty()
        } else {
            seq![token_key(t.subrange(start + 1, end))] + key_list(t, end + 1)
        }
    }
}

#[via_fn]
proof fn key_list_decreases(t: Seq<char>, cursor: int) {
    lemma_find_from(t, '<', cursor);
    lemma_find_from(t, '>', find_from(t, '<', cursor) + 1);
}

/// No placeholder delimiter occurs in `s`.
pub open spec fn no_delims(s: Seq<char>) -> bool {
    forall|i: int| 0 <= i < s.len() ==> s[i] != '<' && s[i] != '>'
}

/// The literal text between tokens holds no stray `>` (a stray `<` is
/// impossible: it would start a token), and every token is closed.
pub open spec fn segments_clean(t: Seq<char>, cursor: int) -> bool
    decreases t.len() - cursor
        when 0 <= cursor <= t.len()
        via segments_clean_decreases
{
    let start = find_from(t, '<', cursor);
    if start < 0 {
        forall|j: int| cursor <= j < t.len() ==> t[j] != '>'
    } else {
        let end = find_from(t, '>', start + 1);
        &&& end >= 0
        &&& (forall|j: int| cursor <= j < start ==> t[j] != '>')
        &&& segments_clean(t, end + 1)
    }
}

#[via_fn]
proof fn segments_clean_decreases(t: Seq<char>, cursor: int) {
    lemma_find_from(t, '<', cursor);
    lemma_find_from(t, '>', find_from(t, '<', cursor) + 1);
}

/// A clean template whose keys are all bound to delimiter-free values
/// resolves, and the resolved path holds no residual `<` or `>`.
pub proof fn lemma_resolve_no_delimiters(t: Seq<char>, b: Map<Seq<char>, Seq<char>>, cursor: int)
    requires
        0 <= cursor <= t.len(),
        segments_clean(t, cursor),
        forall|k: Seq<char>| key_list(t, cursor).contains(k) ==> b.contains_key(k),
        forall|k: Seq<char>| b.contains_key(k) ==> no_delims(b[k]),
    ensures
        resolve_from(t, b, cursor) matches PathResolution::Resolved(out) && no_delims(out),
    decreases t.len() - cursor,
{
    lemma_find_from(t, '<', cursor);
    let start = find_from(t, '<', cursor);
    if start < 0 {
        assert(no_delims(t.subrange(cursor, t.len() as int)));
    } else {
        lemma_find_from(t, '>', start + 1);
        let end = find_from(t, '>', start + 1);
        let key = token_key(t.subrange(start + 1, end));
        assert(key_list(t, cursor)[0] == key);
        assert(key_list(t, cursor).contains(key));
        assert(forall|k: Seq<char>| key_list(t, end + 1).contains(k) ==> #[trigger] key_list(
            t,
            cursor,
        ).contains(k)) by {
            assert forall|k: Seq<char>| key_list(t, end + 1).contains(k) implies #[trigger] key_list(
                t,
                cursor,
            ).contains(k) by {
                let i = choose|i: int| 0 <= i < key_list(t, end + 1).len() && #[trigger] key_list(
                    t,
                    end + 1,
                )[i] == k;
                assert(key_list(t, cursor)[i + 1] == k);
            }
        }
        lemma_resolve_no_delimiters(t, b, end + 1);
        let rest = resolve_from(t, b, end + 1)->Resolved_0;
        let prefix = t.subrange(cursor, start);
        assert(no_delims(prefix));
        assert(no_delims(prefix + b[key] + rest)) by {
            assert(forall|i: int| 0 <= i < prefix.len() ==> (prefix + b[key] + rest)[i] == prefix[i]);
        }
    }
}

/// View of a binding list as pairs of character sequences.
pub open spec fn pairs_view(ps: Seq<(String, String)>) -> Seq<(Seq<char>, Seq<char>)> {
    ps.map_values(|p: (String, String)| (p.0@, p.1@))
}

/// The mapping a binding list denotes; an earlier pair shadows a later
/// one with the same key.
pub open spec fn map_of_pairs(ps: Seq<(Seq<char>, Seq<char>)>) -> Map<Seq<char>, Seq<char>>
    decreases ps.len(),
{
    if ps.len() == 0 {
        Map::empty()
    } else {
        map_of_pairs(ps.drop_first()).insert(ps[0].0, ps[0].1)
    }
}

/// The value of the first pair whose key is `n`, if any.
pub open spec fn lookup_pairs(ps: Seq<(Seq<char>, Seq<char>)>, n: Seq<char>) -> Option<Seq<char>>
    decreases ps.len(),
{
    if ps.len() == 0 {
        None
    } else if ps[0].0 == n {
        Some(ps[0].1)
    } else {
        lookup_pairs(ps.drop_first(), n)
    }
}

/// First-match lookup agrees with the denoted mapping.
pub proof fn lemma_lookup_vs_map(ps: Seq<(Seq<char>, Seq<char>)>, n: Seq<char>)
    ensures
        lookup_pairs(ps, n) matches Some(v) ==> map_of_pairs(ps).contains_key(n) && map_of_pairs(
            ps,
        )[n] == v,
        lookup_pairs(ps, n) is None ==> !map_of_pairs(ps).contains_key(n),
    decreases ps.len(),
{
    if ps.len() > 0 {
        lemma_lookup_vs_map(ps.drop_first(), n);
    }
}

/// First-match search justification: if no pair before `i` has key `n`,
/// the lookup is decided at `i`.
proof fn lemma_lookup_first(ps: Seq<(Seq<char>, Seq<char>)>, n: Seq<char>, i: int)
    requires
        0 <= i <= ps.len(),
        forall|j: int| 0 <= j < i ==> ps[j].0 != n,
    ensures
        i == ps.len() ==> lookup_pairs(ps, n) is None,
        i < ps.len() && ps[i].0 == n ==> lookup_pairs(ps, n) == Some(ps[i].1),
    decreases ps.len(),
{
    if ps.len() > 0 && i > 0 {
        lemma_lookup_first(ps.drop_first(), n, i - 1);
    }
}

/// The value bound to `name`, taken from the first pair that declares it.
fn lookup_param<'a>(params: &'a Vec<(String, String)>, name: &str) -> (r: Option<&'a String>)
    ensures
        r matches Some(v) ==> lookup_pairs(pairs_view(params@), name@) == Some(v@),
        r is None ==> lookup_pairs(pairs_view(params@), name@) is None,
{
    let ghost ps = pairs_view(params@);
    let mut i: usize = 0;
    while i < params.len()
        invariant
            i <= params.len(),
            ps == pairs_view(params@),
            forall|j: int| 0 <= j < i ==> ps[j].0 != name@,
        decreases params.len() - i,
    {
        if str_eq(params[i].0.as_str(), name) {
            proof {
                lemma_lookup_first(ps, name@, i as int);
            }
            return Some(&params[i].1);
        }
        i = i + 1;
    }
    proof {
        lemma_lookup_first(ps, name@, params.len() as int);
    }
    None
}

/// Substitutes the bound value of every `<...>` token of `template`,
/// copying the text between tokens verbatim. Fails when a `<` is never
/// closed, or when a token's key has no binding.
pub fn build_path(template: &str, params: &Vec<(String, String)>) -> (r: Result<String, CliError>)
    ensures
        ({
            let res = resolve_from(template@, map_of_pairs(pairs_view(params@)), 0);
            match r {
                Ok(s) => res matches PathResolution::Resolved(p) && s@ == p,
                Err(CliError::InvalidTemplate) => res is Malformed,
                Err(CliError::MissingValue(n)) => res matches PathResolution::MissingValue(k)
                    && n@ == k,
                Err(_) => false,
            }
        }),
{
    build_path_from(template, params, 0)
}

fn build_path_from(template: &str, params: &Vec<(String, String)>, cursor: usize) -> (r: Result<
    String,
    CliError,
>)
    requires
        cursor <= template@.len(),
    ensures
        ({
            let res = resolve_from(template@, map_of_pairs(pairs_view(params@)), cursor as int);
            match r {
                Ok(s) => res matches PathResolution::Resolved(p) && s@ == p,
                Err(CliError::InvalidTemplate) => res is Malformed,
                Err(CliError::MissingValue(n)) => res matches PathResolution::MissingValue(k)
                    && n@ == k,
                Err(_) => false,
            }
        }),
    decreases template@.len() - cursor,
{
    let ghost b = map_of_pairs(pairs_view(params@));
    let len: usize = template.unicode_len();
    proof {
        lemma_find_from(template@, '<', cursor as int);
    }
    match find_char(template, '<', cursor) {
        None => {
            let rest: &str = template.substring_char(cursor, len);
            Ok(rest.to_owned())
        },
        Some(start) => {
            proof {
                lemma_find_from(template@, '>', start as int + 1);
            }
            match find_char(template, '>', start + 1) {
                None => Err(CliError::InvalidTemplate),
                Some(end) => {
                    let token: &str = template.substring_char(start + 1, end);
                    let tlen: usize = token.unicode_len();
                    let key: &str = match find_char(token, ':', 0) {
                        None => token,
                        Some(ci) => {
                            proof {
                                lemma_find_from(token@, ':', 0);
                            }
                            token.substring_char(ci + 1, tlen)
                        },
                    };
                    assert(key@ == token_key(template@.subrange(start as int + 1, end as int)));
                    proof {
                        lemma_lookup_vs_map(pairs_view(params@), key@);
                    }
                    match lookup_param(params, key) {
                        None => Err(CliError::MissingValue(key.to_owned())),
                        Some(value) => {
                            match build_path_from(template, params, end + 1) {
                                Err(e) => Err(e),
                                Ok(rest) => {
                                    let mut out: String = template.substring_char(
                                        cursor,
                                        start,
                                    ).to_owned();
                                    out.append(value.as_str());
                                    out.append(rest.as_str());
                                    Ok(out)
                                },
                            }
                        },
                    }
                },
            }
        },
    }
}

} // verus!

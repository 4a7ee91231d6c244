use vstd::prelude::*;
use vstd::string::StrSliceExecFns;
use vstd::string::StringExecFns;

use crate::errors::CliError;
use crate::template::pairs_view;
use crate::text::find_char;
use crate::text::find_from;
use crate::text::lemma_find_from;
use crate::text::trim_ws_spec;
use crate::text::trim_ws_str;

verus! {

/// What a `key=value` override denotes: the text before the first `=` and
/// the text after it, each trimmed of whitespace; nothing when there is no
/// `=` or either side trims to empty.
pub open spec fn parse_query_pair_spec(s: Seq<char>) -> Option<(Seq<char>, Seq<char>)> {
    let i = find_from(s, '=', 0);
    if i < 0 {
        None
    } else {
        let k = trim_ws_spec(s.subrange(0, i));
        let v = trim_ws_spec(s.subrange(i + 1, s.len() as int));
        if k.len() == 0 || v.len() == 0 {
            None
        } else {
            Some((k, v))
        }
    }
}

/// Splits one `key=value` query override on its first `=`.
pub fn parse_query_pair(input: &str) -> (r: Result<(String, String), CliError>)
    ensures
        ({
            match parse_query_pair_spec(input@) {
                Some(p) => r matches Ok(q) && q.0@ == p.0 && q.1@ == p.1,
                None => r matches Err(e) && e matches CliError::InvalidQueryPair(raw) && raw@
                    == input@,
            }
        }),
{
    let len: usize = input.unicode_len();
    proof {
        lemma_find_from(input@, '=', 0);
    }
    match find_char(input, '=', 0) {
        None => Err(CliError::InvalidQueryPair(input.to_owned())),
        Some(i) => {
            let key: &str = trim_ws_str(input.substring_char(0, i));
            let value: &str = trim_ws_str(input.substring_char(i + 1, len));
            if key.unicode_len() == 0 || value.unicode_len() == 0 {
                Err(CliError::InvalidQueryPair(input.to_owned()))
            } else {
                Ok((key.to_owned(), value.to_owned()))
            }
        },
    }
}

/// The query-pair list the overrides denote, or nothing when one of them
/// is malformed.
pub open spec fn query_overrides_spec(qs: Seq<Seq<char>>) -> Option<Seq<(Seq<char>, Seq<char>)>>
    decreases qs.len(),
{
    if qs.len() == 0 {
        Some(Seq::empty())
    } else {
        match parse_query_pair_spec(qs[0]) {
            None => None,
            Some(p) => match query_overrides_spec(qs.drop_first()) {
                None => None,
                Some(rest) => Some(seq![p] + rest),
            },
        }
    }
}

/// The full query-parameter list: explicit overrides first, then the field
/// selection, then one entry per expansion selector, then the page size,
/// then the cursor.
pub open spec fn build_query_spec(
    qs: Seq<Seq<char>>,
    fields: Option<Seq<char>>,
    expands: Seq<Seq<char>>,
    per_page: Option<Seq<char>>,
    cursor: Option<Seq<char>>,
) -> Option<Seq<(Seq<char>, Seq<char>)>> {
    match query_overrides_spec(qs) {
        None => None,
        Some(base) => {
            let with_fields = match fields {
                Some(f) => base + seq![("fields"@, f)],
                None => base,
            };
            let with_expands = with_fields + expands.map_values(|e: Seq<char>| ("expand"@, e));
            let with_page = match per_page {
                Some(p) => with_expands + seq![("per_page"@, p)],
                None => with_expands,
            };
            match cursor {
                Some(c) => Some(with_page + seq![("cursor"@, c)]),
                None => Some(with_page),
            }
        },
    }
}

proof fn lemma_query_overrides_snoc(qs: Seq<Seq<char>>, x: Seq<char>)
    requires
        query_overrides_spec(qs) is Some,
    ensures
        parse_query_pair_spec(x) matches Some(p) ==> query_overrides_spec(qs.push(x))
            == Some(query_overrides_spec(qs)->0 + seq![p]),
        parse_query_pair_spec(x) is None ==> query_overrides_spec(qs.push(x)) is None,
    decreases qs.len(),
{
    if qs.len() == 0 {
        assert(qs.push(x)[0] == x);
        assert(qs.push(x).drop_first() =~= Seq::<Seq<char>>::empty());
        assert(query_overrides_spec(Seq::<Seq<char>>::empty()) == Some(
            Seq::<(Seq<char>, Seq<char>)>::empty(),
        ));
        if parse_query_pair_spec(x) is Some {
            let p = parse_query_pair_spec(x)->0;
            assert(seq![p] + Seq::<(Seq<char>, Seq<char>)>::empty() =~= seq![p]);
            assert(query_overrides_spec(qs)->0 + seq![p] =~= seq![p]);
        }
    } else {
        assert(qs.push(x)[0] == qs[0]);
        assert(qs.push(x).drop_first() =~= qs.drop_first().push(x));
        lemma_query_overrides_snoc(qs.drop_first(), x);
        let p0 = parse_query_pair_spec(qs[0])->0;
        if parse_query_pair_spec(x) is Some {
            let p = parse_query_pair_spec(x)->0;
            assert(seq![p0] + (query_overrides_spec(qs.drop_first())->0 + seq![p]) =~= (seq![p0]
                + query_overrides_spec(qs.drop_first())->0) + seq![p]);
        }
    }
}

proof fn lemma_query_overrides_none(qs: Seq<Seq<char>>, i: int)
    requires
        0 <= i < qs.len(),
        parse_query_pair_spec(qs[i]) is None,
    ensures
        query_overrides_spec(qs) is None,
    decreases qs.len(),
{
    if i > 0 {
        lemma_query_overrides_none(qs.drop_first(), i - 1);
    }
}

/// Assembles the query-parameter list from the repeatable overrides and
/// the global selection, expansion and pagination flags. Fails exactly
/// when some override is not a well-formed `key=value` pair, naming the
/// first offender.
pub fn build_query_params(
    queries: &Vec<String>,
    fields: &Option<String>,
    expands: &Vec<String>,
    per_page: &Option<String>,
    cursor: &Option<String>,
) -> (r: Result<Vec<(String, String)>, CliError>)
    ensures
        ({
            let spec = build_query_spec(
                queries.deep_view(),
                match fields {
                    Some(f) => Some(f@),
                    None => None,
                },
                expands.deep_view(),
                match per_page {
                    Some(p) => Some(p@),
                    None => None,
                },
                match cursor {
                    Some(c) => Some(c@),
                    None => None,
                },
            );
            match r {
                Ok(v) => spec matches Some(s) && pairs_view(v@) == s,
                Err(e) => spec is None && (e matches CliError::InvalidQueryPair(raw) && (
                exists|i: int|
                    {
                        &&& 0 <= i < queries.deep_view().len()
                        &&& parse_query_pair_spec(#[trigger] queries.deep_view()[i]) is None
                        &&& (forall|j: int|
                            0 <= j < i ==> parse_query_pair_spec(
                                #[trigger] queries.deep_view()[j],
                            ) is Some)
                        &&& raw@ == queries.deep_view()[i]
                    })),
            }
        }),
{
    let ghost qs = queries.deep_view();
    let mut params: Vec<(String, String)> = Vec::new();
    let mut i: usize = 0;
    while i < queries.len()
        invariant
            i <= queries.len(),
            qs == queries.deep_view(),
            qs.len() == queries.len(),
            forall|j: int| 0 <= j < i ==> parse_query_pair_spec(#[trigger] qs[j]) is Some,
            query_overrides_spec(qs.subrange(0, i as int)) is Some,
            pairs_view(params@) == query_overrides_spec(qs.subrange(0, i as int))->0,
        decreases queries.len() - i,
    {
        proof {
            assert(qs[i as int] == queries[i as int]@);
            lemma_query_overrides_snoc(qs.subrange(0, i as int), qs[i as int]);
            assert(qs.subrange(0, i as int).push(qs[i as int]) =~= qs.subrange(0, i as int + 1));
        }
        match parse_query_pair(queries[i].as_str()) {
            Err(e) => {
                proof {
                    lemma_query_overrides_none(qs, i as int);
                }
                return Err(e);
            },
            Ok(pair) => {
                let ghost prev = params@;
                let ghost pv = (pair.0@, pair.1@);
                params.push(pair);
                proof {
                    assert(pairs_view(params@) =~= pairs_view(prev) + seq![pv]);
                    assert(pairs_view(params@) =~= query_overrides_spec(
                        qs.subrange(0, i as int + 1),
                    )->0);
                }
            },
        }
        i = i + 1;
    }
    proof {
        assert(qs.subrange(0, queries.len() as int) =~= qs);
    }
    let ghost base = pairs_view(params@);
    if let Some(f) = fields {
        let ghost prev = params@;
        let ghost fv = f@;
        params.push(("fields".to_owned(), f.clone()));
        proof {
            assert(pairs_view(params@) =~= pairs_view(prev) + seq![("fields"@, fv)]);
        }
    }
    let ghost with_fields = pairs_view(params@);
    let mut k: usize = 0;
    while k < expands.len()
        invariant
            k <= expands.len(),
            pairs_view(params@) == with_fields + expands.deep_view().subrange(
                0,
                k as int,
            ).map_values(|e: Seq<char>| ("expand"@, e)),
        decreases expands.len() - k,
    {
        let ghost prev = params@;
        let ghost ev = expands[k as int]@;
        params.push(("expand".to_owned(), expands[k].clone()));
        proof {
            assert(pairs_view(params@) =~= pairs_view(prev) + seq![("expand"@, ev)]);
            assert(with_fields + expands.deep_view().subrange(0, k as int).map_values(
                |e: Seq<char>| ("expand"@, e),
            ) + seq![("expand"@, ev)] =~= with_fields + expands.deep_view().subrange(
                0,
                k as int + 1,
            ).map_values(|e: Seq<char>| ("expand"@, e)));
        }
        k = k + 1;
    }
    proof {
        assert(expands.deep_view().subrange(0, expands.len() as int) =~= expands.deep_view());
    }
    let ghost with_expands = pairs_view(params@);
    if let Some(p) = per_page {
        let ghost prev = params@;
        let ghost pv = p@;
        params.push(("per_page".to_owned(), p.clone()));
        proof {
            assert(pairs_view(params@) =~= pairs_view(prev) + seq![("per_page"@, pv)]);
        }
    }
    let ghost with_page = pairs_view(params@);
    if let Some(c) = cursor {
        let ghost prev = params@;
        let ghost cv = c@;
        params.push(("cursor".to_owned(), c.clone()));
        proof {
            assert(pairs_view(params@) =~= pairs_view(prev) + seq![("cursor"@, cv)]);
        }
    }
    proof {
        let spec = build_query_spec(
            queries.deep_view(),
            match fields {
                Some(f) => Some(f@),
                None => None,
            },
            expands.deep_view(),
            match per_page {
                Some(p) => Some(p@),
                None => None,
            },
            match cursor {
                Some(c) => Some(c@),
                None => None,
            },
        );
        assert(pairs_view(params@) =~= spec->0);
    }
    Ok(params)
}

} // verus!

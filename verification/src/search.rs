//! Building full-text search queries.
//!
//! Each keyword is wrapped in double quotes with inner quotes doubled,
//! so keywords are always literal phrases and never operators of the
//! match language. `AND` joins the quoted terms with a space — the
//! implicit conjunction of the match language — and `OR` joins them
//! with an explicit ` OR `. An operator spelling outside `AND` and
//! `OR`, compared case-insensitively, is rejected before any query is
//! built.

use vstd::prelude::*;
use crate::models::{AppError, SearchOperator, SearchQuery, SearchResultResponse};
use crate::store::Database;
use crate::text::eq_ignore_case;

verus! {

/// A keyword with every inner double quote doubled.
pub open spec fn spec_escape_inner(k: Seq<char>) -> Seq<char>
    decreases k.len(),
{
    if k.len() == 0 {
        Seq::empty()
    } else {
        spec_escape_inner(k.drop_last()) + if k.last() == '"' {
            seq!['"', '"']
        } else {
            seq![k.last()]
        }
    }
}

/// A keyword quoted as one literal phrase of the match language.
pub open spec fn spec_escape(k: Seq<char>) -> Seq<char> {
    seq!['"'] + spec_escape_inner(k) + seq!['"']
}

/// The parts joined by the separator.
pub open spec fn spec_join(parts: Seq<Seq<char>>, sep: Seq<char>) -> Seq<char>
    decreases parts.len(),
{
    if parts.len() == 0 {
        Seq::empty()
    } else if parts.len() == 1 {
        parts[0]
    } else {
        spec_join(parts.drop_last(), sep) + sep + parts.last()
    }
}

/// The separator an operator joins quoted terms with.
pub open spec fn spec_separator(op: SearchOperator) -> Seq<char> {
    match op {
        SearchOperator::And => " "@,
        SearchOperator::Or => " OR "@,
    }
}

/// The full-text query built from keywords and an operator: each
/// keyword quoted and escaped, joined by the operator's separator.
pub open spec fn spec_fts_query(keywords: Seq<Seq<char>>, op: SearchOperator) -> Seq<char> {
    spec_join(keywords.map_values(|k: Seq<char>| spec_escape(k)), spec_separator(op))
}

/// With two keywords, `AND` demands both quoted terms — they stand side
/// by side in the query — while `OR` demands either, separated by an
/// explicit ` OR `.
pub proof fn lemma_fts_query_two_keywords(a: Seq<char>, b: Seq<char>)
    ensures
        spec_fts_query(seq![a, b], SearchOperator::And) == spec_escape(a) + " "@
            + spec_escape(b),
        spec_fts_query(seq![a, b], SearchOperator::Or) == spec_escape(a) + " OR "@
            + spec_escape(b),
{
    let m = seq![a, b].map_values(|k: Seq<char>| spec_escape(k));
    assert(seq![a, b][0] == a && seq![a, b][1] == b);
    assert(m.len() == 2);
    assert(m[0] == spec_escape(a));
    assert(m[1] == spec_escape(b));
    assert(m.drop_last() =~= seq![spec_escape(a)]);
    assert(m.last() == spec_escape(b));
    assert(spec_join(m.drop_last(), " "@) == m.drop_last()[0]);
    assert(spec_join(m.drop_last(), " OR "@) == m.drop_last()[0]);
    assert(m.drop_last()[0] == spec_escape(a));
    assert(spec_join(m, " "@) == spec_escape(a) + " "@ + spec_escape(b));
    assert(spec_join(m, " OR "@) == spec_escape(a) + " OR "@ + spec_escape(b));
}

/// One keyword, quoted and escaped.
fn escape_keyword(k: &str) -> (r: String)
    ensures
        r@ == spec_escape(k@),
{
    let len = k.unicode_len();
    let mut out = String::new();
    out.append("\"");
    proof {
        reveal_strlit("\"");
        reveal_strlit("\"\"");
        assert(out@ =~= seq!['"'] + spec_escape_inner(k@.subrange(0, 0)));
    }
    let mut i: usize = 0;
    while i < len
        invariant
            len == k@.len(),
            0 <= i <= len,
            out@ == seq!['"'] + spec_escape_inner(k@.subrange(0, i as int)),
        decreases len - i,
    {
        proof {
            reveal_strlit("\"");
            reveal_strlit("\"\"");
            assert(k@.subrange(0, i + 1).drop_last() =~= k@.subrange(0, i as int));
            assert(k@.subrange(0, i + 1).last() == k@[i as int]);
        }
        let c = k.get_char(i);
        if c == '"' {
            out.append("\"\"");
            proof {
                assert(out@ =~= seq!['"'] + spec_escape_inner(k@.subrange(0, i + 1)));
            }
        } else {
            let piece = k.substring_char(i, i + 1);
            proof {
                assert(piece@ =~= seq![k@[i as int]]);
            }
            out.append(piece);
            proof {
                assert(out@ =~= seq!['"'] + spec_escape_inner(k@.subrange(0, i + 1)));
            }
        }
        i += 1;
    }
    out.append("\"");
    proof {
        reveal_strlit("\"");
        assert(k@.subrange(0, k@.len() as int) =~= k@);
        assert(out@ =~= spec_escape(k@));
    }
    out
}

impl SearchOperator {
    /// Parse an operator spelling, case-insensitively; anything outside
    /// `AND` and `OR` is a validation error, raised before any query is
    /// built.
    pub fn parse(s: &str) -> (r: Result<SearchOperator, AppError>)
        ensures
            r matches Ok(op) ==> {
                &&& (op is And <==> eq_ignore_case(s@, "AND"@))
                &&& (op is Or ==> !eq_ignore_case(s@, "AND"@) && eq_ignore_case(s@, "OR"@))
            },
            r is Err <==> !eq_ignore_case(s@, "AND"@) && !eq_ignore_case(s@, "OR"@),
    {
        if crate::text::eq_ci(s, "AND") {
            Ok(SearchOperator::And)
        } else if crate::text::eq_ci(s, "OR") {
            Ok(SearchOperator::Or)
        } else {
            Err(AppError::Validation("the search operator must be AND or OR".to_owned()))
        }
    }
}

impl Database {
    /// Build the full-text query for a search request: every keyword
    /// quoted with inner quotes doubled, joined by the operator's
    /// separator.
    pub fn build_fts_query(&self, query: &SearchQuery) -> (r: Result<String, AppError>)
        ensures
            r matches Ok(s) && s@ == spec_fts_query(query.keywords.deep_view(), query.operator),
    {
        let sep: &str = match query.operator {
            SearchOperator::And => " ",
            SearchOperator::Or => " OR ",
        };
        proof {
            reveal_strlit(" ");
            reveal_strlit(" OR ");
            assert(sep@ == spec_separator(query.operator));
        }
        let ghost qs = query.keywords.deep_view().map_values(|k: Seq<char>| spec_escape(k));
        let mut out = String::new();
        let mut i: usize = 0;
        while i < query.keywords.len()
            invariant
                qs == query.keywords.deep_view().map_values(|k: Seq<char>| spec_escape(k)),
                sep@ == spec_separator(query.operator),
                0 <= i <= query.keywords@.len(),
                qs.len() == query.keywords@.len(),
                out@ == spec_join(qs.subrange(0, i as int), spec_separator(query.operator)),
            decreases query.keywords@.len() - i,
        {
            let escaped = escape_keyword(query.keywords[i].as_str());
            proof {
                assert(query.keywords.deep_view()[i as int] == query.keywords@[i as int]@);
                assert(qs[i as int] == spec_escape(query.keywords@[i as int]@));
                assert(qs.subrange(0, i + 1).drop_last() =~= qs.subrange(0, i as int));
                assert(qs.subrange(0, i + 1).last() == qs[i as int]);
            }
            if i == 0 {
                out = escaped;
                proof {
                    assert(qs.subrange(0, 1)[0] == qs[0]);
                    assert(out@ == spec_join(qs.subrange(0, 1), spec_separator(query.operator)));
                }
            } else {
                out.append(sep);
                out.append(escaped.as_str());
                proof {
                    assert(out@ =~= spec_join(
                        qs.subrange(0, i + 1),
                        spec_separator(query.operator),
                    ));
                }
            }
            i += 1;
        }
        proof {
            assert(qs.subrange(0, qs.len() as int) =~= qs);
        }
        Ok(out)
    }
}

/// The search engine. Query evaluation is delegated to the storage
/// collaborator's match primitive; on its own the engine answers every
/// search with an empty page.
#[derive(Debug)]
pub struct SearchEngine {}

impl SearchEngine {
    /// A search engine.
    pub fn new() -> (r: SearchEngine)
    {
        SearchEngine {  }
    }

    /// Answer a search request: without a storage collaborator there
    /// are no matches and the total is zero.
    pub fn search(&self, query: &SearchQuery) -> (r: Result<SearchResultResponse, AppError>)
        ensures
            r matches Ok(resp) && resp.results@.len() == 0 && resp.total == 0,
    {
        let _ = query;
        Ok(SearchResultResponse { results: Vec::new(), total: 0 })
    }
}

impl Default for SearchEngine {
    /// A search engine.
    fn default() -> (r: SearchEngine)
    {
        SearchEngine::new()
    }
}

} // verus!

//! The query side: checking a titles request, cleaning the search text, and
//! the integer parts of the ranking score.
use vstd::prelude::*;
use vstd::string::*;

use crate::id::Id;

verus! {

/// The root of the query API.
pub struct Query;

#[derive(Clone, Copy, PartialEq, Eq, Debug, Structural)]
pub enum QueryError {
    /// Neither a search text nor ids were given.
    MissingInput,
}

/// A checked titles request.
pub struct TitlesPlan {
    /// The search text, with `:` removed.
    pub search: Option<String>,
    /// How many search hits to take.
    pub limit: usize,
    /// The ids asked for explicitly.
    pub ids: Vec<Id>,
}

/// The number of hits when the request names none.
pub const DEFAULT_LIMIT: usize = 25;

/// `s` without its `:` characters.
pub open spec fn without_colons(s: Seq<char>) -> Seq<char>
    decreases s.len(),
{
    if s.len() == 0 {
        Seq::empty()
    } else if s.last() == ':' {
        without_colons(s.drop_last())
    } else {
        without_colons(s.drop_last()).push(s.last())
    }
}

/// The votes part of the score, in tenths: 1.0, 1.5, 2.0 or 2.5 for fewer than
/// 10, 100, 1000 votes, or more.
pub open spec fn votes_bucket_of(num_votes: u64) -> u32 {
    if num_votes < 10 {
        10
    } else if num_votes < 100 {
        15
    } else if num_votes < 1000 {
        20
    } else {
        25
    }
}

/// The display part of the score, in tenths: +1.0 for a primary or original
/// title, -5.0 for an alternate title.
pub open spec fn display_bias_of(is_display: bool) -> i32 {
    if is_display {
        10
    } else {
        -50i32
    }
}

/// Removes the `:` characters, which the full-text match operator reads as syntax.
pub fn sanitize_query(q: &str) -> (r: String)
    ensures
        r@ == without_colons(q@),
{
    let n = q.unicode_len();
    let mut out = String::new();
    let mut i: usize = 0;
    while i < n
        invariant
            n == q@.len(),
            0 <= i <= n,
            out@ == without_colons(q@.take(i as int)),
        decreases n - i,
    {
        assert(q@.take(i as int + 1).drop_last() =~= q@.take(i as int));
        let c = q.get_char(i);
        if c != ':' {
            let one = q.substring_char(i, i + 1);
            assert(one@ =~= seq![c]);
            out.append(one);
        }
        i = i + 1;
    }
    assert(q@.take(n as int) =~= q@);
    out
}

pub fn votes_bucket(num_votes: u64) -> (r: u32)
    ensures
        r == votes_bucket_of(num_votes),
{
    if num_votes < 10 {
        10
    } else if num_votes < 100 {
        15
    } else if num_votes < 1000 {
        20
    } else {
        25
    }
}

pub fn display_bias(is_display: bool) -> (r: i32)
    ensures
        r == display_bias_of(is_display),
{
    if is_display {
        10
    } else {
        -50
    }
}

impl Query {
    /// Checks a titles request: at least one of a search text or a nonempty id
    /// list is needed; the text loses its `:` and the limit defaults to 25.
    pub fn plan_titles(&self, query: Option<String>, ids: Option<Vec<Id>>, limit: Option<usize>) -> (r:
        Result<TitlesPlan, QueryError>)
        ensures
            r is Err <==> (query is None && (ids is None || ids->0@.len() == 0)),
            r matches Ok(p) ==> ({
                &&& p.limit == (match limit {
                    Some(l) => l,
                    None => DEFAULT_LIMIT,
                })
                &&& p.ids@ == (match ids {
                    Some(v) => v@,
                    None => Seq::empty(),
                })
                &&& match query {
                    Some(q) => p.search matches Some(s) && s@ == without_colons(q@),
                    None => p.search is None,
                }
            }),
    {
        let ids = match ids {
            Some(v) => v,
            None => Vec::new(),
        };
        let search = match query {
            Some(q) => Some(sanitize_query(q.as_str())),
            None => {
                if ids.len() == 0 {
                    return Err(QueryError::MissingInput);
                }
                None
            },
        };
        let limit = match limit {
            Some(l) => l,
            None => DEFAULT_LIMIT,
        };
        Ok(TitlesPlan { search, limit, ids })
    }
}

} // verus!

//! Searching memories: recall, semantic and hybrid search, and context packs.
use crate::context_pack::{ContextPackRequest, DEFAULT_BUDGET_TOKENS, TOKENS_PER_ITEM};
use crate::memory::{ScopeKey, ScopeModel};
use crate::query::{Query, QueryModel};
use crate::service::error::{ApiError, ApiIssue};
use crate::service::params::{scope_from_params, scope_of, Params};
use crate::text::{blank, is_blank, to_chars};
use vstd::prelude::*;

verus! {

/// A request to search by meaning.
#[derive(Debug)]
pub struct SemanticSearchRequest {
    pub query: String,
    pub limit: Option<usize>,
}

/// A request to search by words and by meaning.
#[derive(Debug)]
pub struct HybridSearchRequest {
    /// What to search for, 1 to 1000 characters.
    pub query: String,
    /// How many results, 1 to 100; 10 where it is not said.
    pub limit: Option<usize>,
}

/// The most results of a search.
pub const MAX_RESULTS: usize = 100;

/// The number of results where none is asked for.
pub const DEFAULT_RESULTS: usize = 10;

/// The longest query text of a hybrid search, in characters.
pub const MAX_QUERY_CHARS: usize = 1000;

/// The number of results of a semantic search.
pub fn semantic_limit(limit: Option<usize>) -> (r: usize)
    ensures
        r == match limit {
            Some(n) => if n <= MAX_RESULTS {
                n
            } else {
                MAX_RESULTS
            },
            None => DEFAULT_RESULTS,
        },
{
    match limit {
        Some(n) => if n <= MAX_RESULTS {
            n
        } else {
            MAX_RESULTS
        },
        None => DEFAULT_RESULTS,
    }
}

/// The number of results of a hybrid search: from 1 to 100.
pub open spec fn hybrid_limit_of(limit: Option<usize>) -> usize {
    match limit {
        Some(n) => if n < 1 {
            1
        } else if n > MAX_RESULTS {
            MAX_RESULTS
        } else {
            n
        },
        None => DEFAULT_RESULTS,
    }
}

/// The number of results of a hybrid search.
pub fn hybrid_limit(limit: Option<usize>) -> (r: usize)
    ensures
        r == hybrid_limit_of(limit),
        1 <= r <= MAX_RESULTS,
{
    match limit {
        Some(n) => if n < 1 {
            1
        } else if n > MAX_RESULTS {
            MAX_RESULTS
        } else {
            n
        },
        None => DEFAULT_RESULTS,
    }
}

/// The scope and the number of results of a semantic search.
pub fn semantic_search_scope(params: &Params, req: &SemanticSearchRequest) -> (r: Result<
    (ScopeKey, usize),
    ApiError,
>)
    ensures
        match (r, scope_of(params@)) {
            (Ok(s), Ok(scope)) => {
                &&& s.0@ == scope
                &&& s.1 == match req.limit {
                    Some(n) => if n <= MAX_RESULTS {
                        n
                    } else {
                        MAX_RESULTS
                    },
                    None => DEFAULT_RESULTS,
                }
            },
            (Err(e), Err(f)) => e@ == f,
            _ => false,
        },
{
    match scope_from_params(params) {
        Ok(scope) => Ok((scope, semantic_limit(req.limit))),
        Err(e) => Err(e),
    }
}

/// A query for `text` in a scope, with no filter but these.
pub open spec fn plain_query(scope: ScopeModel, text: Seq<char>, limit: usize) -> QueryModel {
    QueryModel {
        scope,
        text,
        kinds: None,
        tags_any: None,
        limit,
        since_ms: None,
        until_ms: None,
        cursor: None,
    }
}

/// The query of a hybrid search. Its text must have 1 to 1000 characters, and a
/// tenant must be named.
pub fn hybrid_search_query(params: &Params, req: HybridSearchRequest) -> (r: Result<
    Query,
    ApiError,
>)
    ensures
        match r {
            Ok(q) => {
                &&& 1 <= req.query@.len() <= MAX_QUERY_CHARS
                &&& match scope_of(params@) {
                    Ok(scope) => q@ == plain_query(scope, req.query@, hybrid_limit_of(req.limit)),
                    Err(_) => false,
                }
            },
            Err(e) => if req.query@.len() < 1 || req.query@.len() > MAX_QUERY_CHARS {
                e@ == ApiIssue::BadRequest("query must be 1-1000 characters"@)
            } else {
                match scope_of(params@) {
                    Ok(_) => false,
                    Err(f) => e@ == f,
                }
            },
        },
{
    let length: usize = to_chars(req.query.as_str()).len();
    if length < 1 || length > MAX_QUERY_CHARS {
        return Err(ApiError::BadRequest("query must be 1-1000 characters".to_owned()));
    }
    match scope_from_params(params) {
        Ok(scope) => Ok(
            Query {
                scope,
                text: req.query,
                kinds: None,
                tags_any: None,
                limit: hybrid_limit(req.limit),
                since_ms: None,
                until_ms: None,
                cursor: None,
            },
        ),
        Err(e) => Err(e),
    }
}

/// Checks a query for recall: it must name a tenant.
pub fn check_recall(q: &Query) -> (r: Result<(), ApiError>)
    ensures
        match r {
            Ok(_) => !blank(q@.scope.tenant_id),
            Err(e) => blank(q@.scope.tenant_id) && e@ == ApiIssue::BadRequest(
                "scope.tenant_id is required and must be non-empty"@,
            ),
        },
{
    if is_blank(q.scope.tenant_id.as_str()) {
        Err(ApiError::BadRequest("scope.tenant_id is required and must be non-empty".to_owned()))
    } else {
        Ok(())
    }
}

/// How many candidates a context pack considers: as many as its budget affords,
/// but from 10 to 100.
pub open spec fn candidate_limit_of(budget_tokens: Option<usize>) -> usize {
    let budget = match budget_tokens {
        Some(b) => b,
        None => DEFAULT_BUDGET_TOKENS,
    };
    let n = budget / TOKENS_PER_ITEM;
    if n < 10 {
        10
    } else if n > 100 {
        100
    } else {
        n
    }
}

/// How many candidates a context pack considers.
pub fn context_candidate_limit(budget_tokens: Option<usize>) -> (r: usize)
    ensures
        r == candidate_limit_of(budget_tokens),
{
    let budget: usize = match budget_tokens {
        Some(b) => b,
        None => DEFAULT_BUDGET_TOKENS,
    };
    let n: usize = budget / TOKENS_PER_ITEM;
    if n < 10 {
        10
    } else if n > 100 {
        100
    } else {
        n
    }
}

/// The query of a context pack: the one asked for, with no more candidates than
/// the pack considers. A limit of 0 stands for that many.
pub open spec fn context_query_of(q: QueryModel, budget_tokens: Option<usize>) -> QueryModel {
    let most = candidate_limit_of(budget_tokens);
    QueryModel {
        limit: if q.limit == 0 || q.limit > most {
            most
        } else {
            q.limit
        },
        ..q
    }
}

/// Reads the query of a context pack; it must name a tenant.
pub fn context_query(req: &ContextPackRequest) -> (r: Result<Query, ApiError>)
    ensures
        match r {
            Ok(q) => req.query@.scope.tenant_id.len() > 0 && q@ == context_query_of(
                req.query@,
                req.budget_tokens,
            ),
            Err(e) => req.query@.scope.tenant_id.len() == 0 && e@ == ApiIssue::BadRequest(
                "tenant_id is required"@,
            ),
        },
{
    if req.query.scope.tenant_id.as_str().is_empty() {
        return Err(ApiError::BadRequest("tenant_id is required".to_owned()));
    }
    let most: usize = context_candidate_limit(req.budget_tokens);
    let mut q = req.query.clone();
    if q.limit == 0 || q.limit > most {
        q.limit = most;
    }
    Ok(q)
}

/// How a context pack finds its candidates.
#[derive(Debug, Clone, Copy, PartialEq, Eq, Structural)]
pub enum RecallPath {
    /// By words and by meaning.
    Hybrid,
    /// By words alone.
    Lexical,
}

/// How a context pack finds its candidates: by meaning too where there is a
/// text and it could be embedded, else by words alone.
pub fn recall_path(text: &str, embedded: bool) -> (r: RecallPath)
    ensures
        r == if text@.len() > 0 && embedded {
            RecallPath::Hybrid
        } else {
            RecallPath::Lexical
        },
{
    if !text.is_empty() && embedded {
        RecallPath::Hybrid
    } else {
        RecallPath::Lexical
    }
}

/// A hybrid search gives from 1 to 100 results: as many as were asked for within
/// these bounds, and 10 where it is not said.
pub proof fn law_search_limits_hold(limit: Option<usize>)
    ensures
        1 <= hybrid_limit_of(limit) <= 100,
        limit matches Some(n) ==> {
            &&& 1 <= n <= 100 ==> hybrid_limit_of(limit) == n
            &&& n > 100 ==> hybrid_limit_of(limit) == 100
        },
        limit is None ==> hybrid_limit_of(limit) == 10,
{
}

/// A context pack considers from 10 to 100 candidates, and within these bounds as
/// many as its budget affords: enough to fill it. The query is otherwise the one
/// that was asked, and never wider than asked.
pub proof fn law_pack_considers_enough(q: QueryModel, budget_tokens: Option<usize>)
    ensures
        ({
            let asked = context_query_of(q, budget_tokens);
            let budget = match budget_tokens {
                Some(b) => b,
                None => 3000,
            };
            &&& asked == QueryModel { limit: asked.limit, ..q }
            &&& 1 <= asked.limit <= 100
            &&& q.limit > 0 ==> asked.limit <= q.limit
            &&& (q.limit == 0 || q.limit >= 100) && budget <= 15_000 ==> asked.limit * 150 + 149
                >= budget && asked.limit >= 10
            &&& (q.limit == 0 || q.limit >= 100) && budget > 15_000 ==> asked.limit == 100
            &&& 1 <= q.limit <= 10 ==> asked.limit == q.limit
            &&& asked.limit > 10 ==> asked.limit * 150 <= budget
        }),
{
}

} // verus!

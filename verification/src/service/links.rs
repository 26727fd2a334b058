//! Requests about links between memories.
use crate::decimal::{parse_usize, read_unsigned};
use crate::float::Float;
use crate::link::{
    law_only_its_word_names_a_relationship, rel_named, rel_text, validate_link_metadata, LinkModel,
    MemoryLink, MemoryLinkId, RelationshipType, TraversalStep,
};
use crate::memory::{is_random_id, now_ms, random_id, MemoryId, ScopeKey};
use crate::model::{opt, views};
use crate::service::error::{ApiError, ApiIssue};
use crate::service::params::{owned_param, param, Params, ParamsModel};
use crate::text::{cat, contains, occurs, occurs_at, same_text};
use vstd::prelude::*;

verus! {

/// How far a traversal goes where the request does not say.
pub const DEFAULT_TRAVERSAL_DEPTH: usize = 5;

/// A request for a new link.
#[derive(Debug)]
pub struct CreateLinkRequest {
    pub src_memory_id: String,
    pub dst_memory_id: String,
    pub rel: String,
    pub weight: Option<Float>,
    pub confidence: Option<Float>,
}

/// A request to change a link.
#[derive(Debug)]
pub struct UpdateLinkRequest {
    pub weight: Option<Float>,
    pub confidence: Option<Float>,
}

/// The answer to a request for a traversal.
#[derive(Debug)]
pub struct TraverseResponse {
    pub from: MemoryId,
    pub rel: Option<String>,
    pub steps: Vec<TraversalStep>,
}

/// How a failure of the link store is answered: what the client got wrong is
/// told to them, a missing link is not found, and the rest stays inside.
pub open spec fn link_issue(msg: Seq<char>) -> ApiIssue {
    if occurs(msg, "not found in tenant"@) || occurs(msg, "weight and confidence must be"@) {
        ApiIssue::BadRequest(msg)
    } else if msg == "link not found"@ {
        ApiIssue::NotFound
    } else {
        ApiIssue::Internal(msg)
    }
}

/// Sorts a failure of the link store by its message.
pub fn map_link_store_err(msg: String) -> (r: ApiError)
    ensures
        r@ == link_issue(msg@),
{
    if contains(msg.as_str(), "not found in tenant") || contains(
        msg.as_str(),
        "weight and confidence must be",
    ) {
        ApiError::BadRequest(msg)
    } else if same_text(msg.as_str(), "link not found") {
        ApiError::NotFound
    } else {
        ApiError::Internal(msg)
    }
}

/// The relationship that a word names, or the answer where it names none.
pub open spec fn rel_of(word: Seq<char>) -> Result<RelationshipType, ApiIssue> {
    match rel_named(word) {
        Some(rel) => Ok(rel),
        None => Err(ApiIssue::BadRequest("invalid rel: "@ + word)),
    }
}

fn parse_rel(word: &str) -> (r: Result<RelationshipType, ApiError>)
    ensures
        match (r, rel_of(word@)) {
            (Ok(a), Ok(b)) => a == b,
            (Err(e), Err(f)) => e@ == f,
            _ => false,
        },
{
    match RelationshipType::parse(word) {
        Some(rel) => Ok(rel),
        None => Err(ApiError::BadRequest(cat("invalid rel: ", word))),
    }
}

/// The relationship that the parameters ask for, if they ask for one.
pub open spec fn optional_rel(params: ParamsModel) -> Result<Option<RelationshipType>, ApiIssue> {
    match param(params, "rel"@) {
        None => Ok(None),
        Some(word) => match rel_of(word) {
            Ok(rel) => Ok(Some(rel)),
            Err(issue) => Err(issue),
        },
    }
}

/// Reads the relationship that the parameters ask for, if they ask for one.
pub fn parse_optional_rel(params: &Params) -> (r: Result<Option<RelationshipType>, ApiError>)
    ensures
        match (r, optional_rel(params@)) {
            (Ok(a), Ok(b)) => a == b,
            (Err(e), Err(f)) => e@ == f,
            _ => false,
        },
{
    match params.get("rel") {
        None => Ok(None),
        Some(word) => match parse_rel(word) {
            Ok(rel) => Ok(Some(rel)),
            Err(e) => Err(e),
        },
    }
}

/// A given number, or another where none is given.
pub open spec fn given_or(given: Option<Float>, other: Float) -> Float {
    match given {
        Some(x) => x,
        None => other,
    }
}

/// The link that a request describes. Weight and confidence are full where they
/// are not given.
pub open spec fn requested_link(
    tenant_id: Seq<char>,
    req: CreateLinkRequest,
    id: Seq<char>,
    now_ms: i64,
) -> Result<LinkModel, ApiIssue> {
    match rel_of(req.rel@) {
        Err(issue) => Err(issue),
        Ok(rel) => {
            let link = LinkModel {
                id,
                tenant_id,
                src: req.src_memory_id@,
                dst: req.dst_memory_id@,
                rel,
                weight: given_or(req.weight, Float(crate::float::ONE)),
                confidence: given_or(req.confidence, Float(crate::float::ONE)),
                created_at_ms: now_ms,
            };
            if link.weight.in_unit() && link.confidence.in_unit() {
                Ok(link)
            } else {
                Err(ApiIssue::BadRequest("weight and confidence must be in 0..=1"@))
            }
        },
    }
}

/// The fault of a link whose weight or confidence is out of range is the
/// client's.
proof fn metadata_fault_is_the_clients()
    ensures
        link_issue("weight and confidence must be in 0..=1"@) == ApiIssue::BadRequest(
            "weight and confidence must be in 0..=1"@,
        ),
{
    let msg = "weight and confidence must be in 0..=1"@;
    let part = "weight and confidence must be"@;
    reveal_strlit("weight and confidence must be in 0..=1");
    reveal_strlit("weight and confidence must be");
    assert(msg.subrange(0, part.len() as int) =~= part);
    assert(occurs_at(msg, part, 0));
}

fn checked_metadata(weight: Float, confidence: Float) -> (r: Result<(), ApiError>)
    ensures
        match r {
            Ok(_) => weight.in_unit() && confidence.in_unit(),
            Err(e) => !(weight.in_unit() && confidence.in_unit()) && e@ == ApiIssue::BadRequest(
                "weight and confidence must be in 0..=1"@,
            ),
        },
{
    match validate_link_metadata(weight, confidence) {
        Ok(_) => Ok(()),
        Err(msg) => {
            proof {
                metadata_fault_is_the_clients();
            }
            Err(map_link_store_err(msg))
        },
    }
}

fn number_or(given: Option<Float>, other: Float) -> (r: Float)
    ensures
        r == given_or(given, other),
{
    match given {
        Some(x) => x,
        None => other,
    }
}

/// Plans the link that a request describes, named `id` and made at `now_ms`.
pub fn create_link_at(scope: &ScopeKey, req: CreateLinkRequest, id: String, now_ms: i64) -> (r:
    Result<MemoryLink, ApiError>)
    ensures
        match (r, requested_link(scope@.tenant_id, req, id@, now_ms)) {
            (Ok(link), Ok(m)) => link@ == m,
            (Err(e), Err(f)) => e@ == f,
            _ => false,
        },
{
    let rel = match parse_rel(req.rel.as_str()) {
        Ok(rel) => rel,
        Err(e) => return Err(e),
    };
    let weight = number_or(req.weight, Float(crate::float::ONE));
    let confidence = number_or(req.confidence, Float(crate::float::ONE));
    match checked_metadata(weight, confidence) {
        Ok(_) => {},
        Err(e) => return Err(e),
    }
    Ok(
        MemoryLink {
            id: MemoryLinkId(id),
            tenant_id: scope.tenant_id.clone(),
            src: MemoryId(req.src_memory_id),
            dst: MemoryId(req.dst_memory_id),
            rel,
            weight,
            confidence,
            created_at_ms: now_ms,
        },
    )
}

/// Plans the link that a request describes, under a new random name, made now.
pub fn create_link(scope: &ScopeKey, req: CreateLinkRequest) -> (r: Result<MemoryLink, ApiError>)
    ensures
        exists|id: Seq<char>, now: i64|
            is_random_id(id) && match (r, #[trigger] requested_link(scope@.tenant_id, req, id, now)) {
                (Ok(link), Ok(m)) => link@ == m,
                (Err(e), Err(f)) => e@ == f,
                _ => false,
            },
{
    let id = random_id();
    let now: i64 = now_ms();
    let ghost name = id@;
    let r = create_link_at(scope, req, id, now);
    proof {
        assert(is_random_id(name));
        let _ = requested_link(scope@.tenant_id, req, name, now);
    }
    r
}

/// The link that a request makes of an existing one: what it does not give
/// stays as it was.
pub open spec fn changed_link(req: UpdateLinkRequest, existing: Option<LinkModel>) -> Result<
    LinkModel,
    ApiIssue,
> {
    match existing {
        None => Err(ApiIssue::NotFound),
        Some(link) => {
            let weight = given_or(req.weight, link.weight);
            let confidence = given_or(req.confidence, link.confidence);
            if weight.in_unit() && confidence.in_unit() {
                Ok(LinkModel { weight, confidence, ..link })
            } else {
                Err(ApiIssue::BadRequest("weight and confidence must be in 0..=1"@))
            }
        },
    }
}

/// Plans the change of a link.
pub fn update_link(req: &UpdateLinkRequest, existing: Option<MemoryLink>) -> (r: Result<
    MemoryLink,
    ApiError,
>)
    ensures
        match (r, changed_link(*req, opt(existing))) {
            (Ok(link), Ok(m)) => link@ == m,
            (Err(e), Err(f)) => e@ == f,
            _ => false,
        },
{
    let existing = match existing {
        Some(link) => link,
        None => return Err(ApiError::NotFound),
    };
    let weight = number_or(req.weight, existing.weight);
    let confidence = number_or(req.confidence, existing.confidence);
    match checked_metadata(weight, confidence) {
        Ok(_) => {},
        Err(e) => return Err(e),
    }
    Ok(MemoryLink { weight, confidence, ..existing })
}

/// A change leaves a link between the same memories, in the same tenant, of the
/// same relationship and age.
pub proof fn law_change_keeps_the_ends(req: UpdateLinkRequest, link: LinkModel)
    ensures
        changed_link(req, Some(link)) matches Ok(after) ==> {
            &&& after.id == link.id
            &&& after.tenant_id == link.tenant_id
            &&& after.src == link.src
            &&& after.dst == link.dst
            &&& after.rel == link.rel
            &&& after.created_at_ms == link.created_at_ms
        },
{
}

/// What a traversal is asked for.
#[derive(Debug)]
pub struct TraversalRequest {
    pub from: MemoryId,
    pub rel: Option<RelationshipType>,
    pub max_depth: usize,
}

/// How far the parameters ask a traversal to go.
pub open spec fn depth_of(params: ParamsModel) -> usize {
    match param(params, "depth"@) {
        Some(text) => match read_unsigned(text) {
            Some(n) if n <= usize::MAX => n as usize,
            _ => DEFAULT_TRAVERSAL_DEPTH,
        },
        None => DEFAULT_TRAVERSAL_DEPTH,
    }
}

/// Reads what a traversal is asked for: where it begins, which it must be told,
/// which links it follows and how far.
pub fn traverse_request(params: &Params) -> (r: Result<TraversalRequest, ApiError>)
    ensures
        match r {
            Ok(t) => {
                &&& param(params@, "from"@) == Some(t.from@)
                &&& optional_rel(params@) == Ok::<Option<RelationshipType>, ApiIssue>(t.rel)
                &&& t.max_depth == depth_of(params@)
            },
            Err(e) => if param(params@, "from"@) is None {
                e@ == ApiIssue::BadRequest("from is required"@)
            } else {
                optional_rel(params@) == Err::<Option<RelationshipType>, ApiIssue>(e@)
            },
        },
{
    let from = match owned_param(params, "from") {
        Some(from) => from,
        None => return Err(ApiError::BadRequest("from is required".to_owned())),
    };
    let rel = match parse_optional_rel(params) {
        Ok(rel) => rel,
        Err(e) => return Err(e),
    };
    let max_depth: usize = match params.get("depth") {
        Some(text) => match parse_usize(text) {
            Some(n) => n,
            None => DEFAULT_TRAVERSAL_DEPTH,
        },
        None => DEFAULT_TRAVERSAL_DEPTH,
    };
    Ok(TraversalRequest { from: MemoryId(from), rel, max_depth })
}

/// The answer to a request for a traversal, with the steps that it took.
pub fn traverse_response(request: TraversalRequest, steps: Vec<TraversalStep>) -> (r:
    TraverseResponse)
    ensures
        r.from@ == request.from@,
        opt(r.rel) == match request.rel {
            Some(rel) => Some(rel_text(rel)),
            None => None,
        },
        views(r.steps@) == views(steps@),
{
    let rel = match request.rel {
        Some(rel) => Some(rel.as_str().to_owned()),
        None => None,
    };
    TraverseResponse { from: request.from, rel, steps }
}

/// A new link goes from the memory that the request names as its source to the one
/// it names as its destination, in the tenant of the request, with the relationship
/// that it names; weight and confidence are as given, and 1 where they are not. It
/// is refused exactly where the relationship is unknown, or a given number is not
/// from 0 to 1.
pub proof fn law_new_link_is_as_requested(
    tenant_id: Seq<char>,
    req: CreateLinkRequest,
    id: Seq<char>,
    now_ms: i64,
)
    ensures
        requested_link(tenant_id, req, id, now_ms) is Ok <==> rel_named(req.rel@) is Some && (
        req.weight matches Some(w) ==> Float(0).at_most(w) && w.at_most(Float(0x3f80_0000))) && (
        req.confidence matches Some(c) ==> Float(0).at_most(c) && c.at_most(Float(0x3f80_0000))),
        requested_link(tenant_id, req, id, now_ms) matches Ok(link) ==> {
            &&& link.id == id
            &&& link.tenant_id == tenant_id
            &&& link.src == req.src_memory_id@
            &&& link.dst == req.dst_memory_id@
            &&& rel_text(link.rel) == req.rel@
            &&& link.weight == match req.weight {
                Some(w) => w,
                None => Float(0x3f80_0000),
            }
            &&& link.confidence == match req.confidence {
                Some(c) => c,
                None => Float(0x3f80_0000),
            }
            &&& link.created_at_ms == now_ms
        },
        requested_link(tenant_id, req, id, now_ms) matches Err(issue) ==> issue is BadRequest,
{
    law_only_its_word_names_a_relationship(req.rel@);
}

/// A change gives a link the numbers that it names and leaves the others; it is
/// refused where there is no link, as not found, and where a number would not be
/// from 0 to 1, as a bad request.
pub proof fn law_change_sets_what_it_names(req: UpdateLinkRequest, link: LinkModel)
    ensures
        changed_link(req, None) == Err::<LinkModel, ApiIssue>(ApiIssue::NotFound),
        changed_link(req, Some(link)) matches Ok(after) ==> {
            &&& after.weight == match req.weight {
                Some(w) => w,
                None => link.weight,
            }
            &&& after.confidence == match req.confidence {
                Some(c) => c,
                None => link.confidence,
            }
            &&& Float(0).at_most(after.weight) && after.weight.at_most(Float(0x3f80_0000))
            &&& Float(0).at_most(after.confidence) && after.confidence.at_most(Float(0x3f80_0000))
        },
        changed_link(req, Some(link)) matches Err(issue) ==> issue is BadRequest,
        req.weight is None && req.confidence is None && Float(0).at_most(link.weight)
            && link.weight.at_most(Float(0x3f80_0000)) && Float(0).at_most(link.confidence)
            && link.confidence.at_most(Float(0x3f80_0000)) ==> changed_link(req, Some(link)) == Ok::<
            LinkModel,
            ApiIssue,
        >(link),
{
}

/// A failure of the link store is told to the client only where it is the client's
/// own: an end that is missing, or a number out of range. That the link is missing
/// is answered as not found, and every other reason stays inside.
pub proof fn law_link_failures_are_sorted(msg: Seq<char>)
    ensures
        link_issue(msg) is BadRequest <==> occurs(msg, "not found in tenant"@) || occurs(
            msg,
            "weight and confidence must be"@,
        ),
        link_issue(msg) is NotFound ==> msg == "link not found"@,
        !(link_issue(msg) is BadRequest) && msg != "link not found"@ ==> link_issue(msg)
            == ApiIssue::Internal(msg),
{
}

/// A traversal follows the relationship that the parameter `rel` names, or any
/// where there is none, and goes as far as `depth` says, or 5 links where that is no
/// number.
pub proof fn law_traversal_is_as_requested(params: ParamsModel)
    ensures
        !params.contains_key("rel"@) ==> optional_rel(params) == Ok::<
            Option<RelationshipType>,
            ApiIssue,
        >(None),
        params.contains_key("rel"@) ==> (match optional_rel(params) {
            Ok(Some(rel)) => rel_text(rel) == params["rel"@],
            Ok(None) => false,
            Err(issue) => rel_named(params["rel"@]) is None && issue is BadRequest,
        }),
        !params.contains_key("depth"@) ==> depth_of(params) == 5,
        params.contains_key("depth"@) ==> (match read_unsigned(params["depth"@]) {
            Some(n) => n <= usize::MAX ==> depth_of(params) == n,
            None => depth_of(params) == 5,
        }),
{
    if params.contains_key("rel"@) {
        law_only_its_word_names_a_relationship(params["rel"@]);
    }
}

} // verus!

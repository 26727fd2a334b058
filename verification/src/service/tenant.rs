//! Tenant isolation: whose memories a request may touch.
use crate::memory::{ItemModel, MemoryItem, ScopeKey, ScopeModel};
use crate::service::error::{ApiError, ApiIssue};
use crate::service::params::{owned_param, param, read_scope_in, scope_in, Params, ParamsModel};
use crate::store::sql::{scope_matches, within};
use crate::text::{blank, cat3, is_blank, same_text};
use vstd::prelude::*;

verus! {

/// The header by which a client may repeat its tenant.
pub const TENANT_HEADER: &'static str = "x-tenant-id";

/// Checks that a tenant is named.
pub fn require_tenant_id(tenant_id: &str) -> (r: Result<(), String>)
    ensures
        match r {
            Ok(_) => !blank(tenant_id@),
            Err(e) => blank(tenant_id@) && e@ == "tenant_id is required"@,
        },
{
    if is_blank(tenant_id) {
        Err("tenant_id is required".to_owned())
    } else {
        Ok(())
    }
}

/// Checks that a scope names a tenant.
pub fn require_query_scope(scope: &ScopeKey) -> (r: Result<(), String>)
    ensures
        match r {
            Ok(_) => !blank(scope@.tenant_id),
            Err(e) => blank(scope@.tenant_id) && e@ == "tenant_id is required"@,
        },
{
    require_tenant_id(scope.tenant_id.as_str())
}

/// Whether a tenant header contradicts the tenant of a request. A blank header
/// says nothing.
pub open spec fn header_contradicts(header: Option<Seq<char>>, tenant_id: Seq<char>) -> bool {
    match header {
        Some(h) => !blank(h) && h != tenant_id,
        None => false,
    }
}

fn contradicts(header: &Option<String>, tenant_id: &str) -> (r: bool)
    ensures
        r == header_contradicts(crate::model::opt(*header), tenant_id@),
{
    match header {
        Some(h) => !is_blank(h.as_str()) && !same_text(h.as_str(), tenant_id),
        None => false,
    }
}

/// The scope of a request: its parameters must name a tenant, and a tenant
/// header must not contradict them.
pub open spec fn tenant_scope(params: ParamsModel, header: Option<Seq<char>>) -> Result<
    ScopeModel,
    ApiIssue,
> {
    match param(params, "tenant_id"@) {
        None => Err(ApiIssue::BadRequest("tenant_id is required"@)),
        Some(tenant_id) => if blank(tenant_id) {
            Err(ApiIssue::BadRequest("tenant_id is required"@))
        } else if header_contradicts(header, tenant_id) {
            Err(
                ApiIssue::BadRequest("tenant_id query param does not match X-Tenant-ID header"@),
            )
        } else {
            Ok(scope_in(params, tenant_id))
        },
    }
}

/// Finds the scope of a request.
pub fn resolve_tenant_scope(params: &Params, header: &Option<String>) -> (r: Result<
    ScopeKey,
    ApiError,
>)
    ensures
        match (r, tenant_scope(params@, crate::model::opt(*header))) {
            (Ok(s), Ok(m)) => s@ == m,
            (Err(e), Err(f)) => e@ == f,
            _ => false,
        },
{
    let tenant_id = match owned_param(params, "tenant_id") {
        None => return Err(ApiError::BadRequest("tenant_id is required".to_owned())),
        Some(t) => t,
    };
    match require_tenant_id(tenant_id.as_str()) {
        Ok(_) => {},
        Err(_) => return Err(ApiError::BadRequest("tenant_id is required".to_owned())),
    }
    if contradicts(header, tenant_id.as_str()) {
        return Err(
            ApiError::BadRequest(
                "tenant_id query param does not match X-Tenant-ID header".to_owned(),
            ),
        );
    }
    Ok(read_scope_in(params, tenant_id))
}

/// What is wrong with writing an item, if anything: it must name a tenant, and
/// a tenant header must not contradict it.
pub open spec fn write_fault(item: ItemModel, header: Option<Seq<char>>) -> Option<ApiIssue> {
    if blank(item.scope.tenant_id) {
        Some(ApiIssue::BadRequest("tenant_id is required on memory writes"@))
    } else if header_contradicts(header, item.scope.tenant_id) {
        Some(ApiIssue::BadRequest("memory scope tenant_id does not match X-Tenant-ID header"@))
    } else {
        None
    }
}

/// Checks that an item may be written.
pub fn validate_memory_write(item: &MemoryItem, header: &Option<String>) -> (r: Result<
    (),
    ApiError,
>)
    ensures
        match r {
            Ok(_) => write_fault(item@, crate::model::opt(*header)) is None,
            Err(e) => write_fault(item@, crate::model::opt(*header)) == Some(e@),
        },
{
    match require_tenant_id(item.scope.tenant_id.as_str()) {
        Ok(_) => {},
        Err(_) => return Err(
            ApiError::BadRequest("tenant_id is required on memory writes".to_owned()),
        ),
    }
    if contradicts(header, item.scope.tenant_id.as_str()) {
        return Err(
            ApiError::BadRequest(
                "memory scope tenant_id does not match X-Tenant-ID header".to_owned(),
            ),
        );
    }
    Ok(())
}

/// The audit line of an operation on a tenant's data.
pub fn audit_tenant_access(operation: &str, tenant_id: &str, resource: &str) -> (r: String)
    ensures
        r@ == "audit=tenant_access operation="@ + operation@ + " tenant_id="@ + tenant_id@
            + " resource="@ + resource@,
{
    let mut out = cat3("audit=tenant_access operation=", operation, " tenant_id=");
    out.push_str(tenant_id);
    out.push_str(" resource=");
    out.push_str(resource);
    out
}

/// An item outside the scope is as good as none: one that another tenant holds,
/// or that differs at a level which the scope sets.
pub open spec fn visible_to(item: Option<ItemModel>, scope: ScopeModel) -> Option<ItemModel> {
    match item {
        Some(i) if within(i.scope, scope) => Some(i),
        _ => None,
    }
}

/// What is seen from a scope of an item found by its id alone.
pub fn get_scoped(item: Option<MemoryItem>, scope: &ScopeKey) -> (r: Option<MemoryItem>)
    ensures
        crate::model::opt(r) == visible_to(crate::model::opt(item), scope@),
{
    match item {
        Some(i) => if scope_matches(&i.scope, scope) {
            Some(i)
        } else {
            None
        },
        None => None,
    }
}

/// Whether an item found by its id alone may be deleted from a scope.
pub fn may_delete_scoped(item: &Option<MemoryItem>, scope: &ScopeKey) -> (r: bool)
    ensures
        r == (visible_to(crate::model::opt(*item), scope@) is Some),
{
    match item {
        Some(i) => scope_matches(&i.scope, scope),
        None => false,
    }
}

/// What lies outside a scope is never seen from it, and is answered as if it did
/// not exist. That is so of all that another tenant holds.
pub proof fn law_tenants_are_isolated(item: ItemModel, scope: ScopeModel)
    requires
        !within(item.scope, scope),
    ensures
        visible_to(Some(item), scope) == visible_to(None, scope),
{
}

/// What another tenant holds lies outside every scope of a tenant.
pub proof fn law_other_tenants_are_outside(item: ItemModel, scope: ScopeModel)
    requires
        item.scope.tenant_id != scope.tenant_id,
    ensures
        visible_to(Some(item), scope) is None,
{
}

/// A narrower scope shows nothing that a wider one hides.
pub proof fn law_narrower_scopes_show_less(
    item: Option<ItemModel>,
    narrow: ScopeModel,
    wide: ScopeModel,
)
    requires
        within(narrow, wide),
        visible_to(item, narrow) is Some,
    ensures
        visible_to(item, wide) == visible_to(item, narrow),
{
}

/// The scope of a request is of the tenant that its parameters name, never of
/// another; without a tenant, with a blank one or with a header that names another
/// there is none.
pub proof fn law_request_keeps_to_its_tenant(params: ParamsModel, header: Option<Seq<char>>)
    ensures
        tenant_scope(params, header) is Ok <==> params.contains_key("tenant_id"@) && !blank(
            params["tenant_id"@],
        ) && (header matches Some(h) ==> blank(h) || h == params["tenant_id"@]),
        tenant_scope(params, header) matches Ok(scope) ==> {
            &&& scope.tenant_id == params["tenant_id"@]
            &&& scope.workspace_id is Some <==> params.contains_key("workspace_id"@)
            &&& scope.project_id is Some <==> params.contains_key("project_id"@)
            &&& scope.agent_id is Some <==> params.contains_key("agent_id"@)
            &&& scope.run_id is Some <==> params.contains_key("run_id"@)
            &&& scope.workspace_id matches Some(v) ==> v == params["workspace_id"@]
            &&& scope.project_id matches Some(v) ==> v == params["project_id"@]
            &&& scope.agent_id matches Some(v) ==> v == params["agent_id"@]
            &&& scope.run_id matches Some(v) ==> v == params["run_id"@]
        },
{
}

/// A memory may be written exactly where it names a tenant that the header does not
/// contradict.
pub proof fn law_writes_name_their_tenant(item: ItemModel, header: Option<Seq<char>>)
    ensures
        write_fault(item, header) is None <==> !blank(item.scope.tenant_id) && (header matches Some(
            h,
        ) ==> blank(h) || h == item.scope.tenant_id),
{
}

/// A memory is seen from a scope exactly where the tenant is the same and every
/// level that the scope sets is the same; what is seen is the memory as it is.
pub proof fn law_memories_are_seen_from_their_scope(item: ItemModel, scope: ScopeModel)
    ensures
        item.scope.tenant_id == scope.tenant_id && (scope.workspace_id is Some
            ==> item.scope.workspace_id == scope.workspace_id) && (scope.project_id is Some
            ==> item.scope.project_id == scope.project_id) && (scope.agent_id is Some
            ==> item.scope.agent_id == scope.agent_id) && (scope.run_id is Some
            ==> item.scope.run_id == scope.run_id) ==> visible_to(Some(item), scope) == Some(item),
        visible_to(Some(item), scope) is Some ==> item.scope.tenant_id == scope.tenant_id && (
        scope.workspace_id is Some ==> item.scope.workspace_id == scope.workspace_id) && (
        scope.project_id is Some ==> item.scope.project_id == scope.project_id) && (
        scope.agent_id is Some ==> item.scope.agent_id == scope.agent_id) && (scope.run_id is Some
            ==> item.scope.run_id == scope.run_id),
        visible_to(None, scope) is None,
{
}

} // verus!

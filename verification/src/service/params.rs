//! The parameters of a request's query string.
use crate::memory::{ScopeKey, ScopeModel};
use crate::service::error::{ApiError, ApiIssue};
use crate::text::same_text;
use vstd::prelude::*;

verus! {

/// Parameters by name. Of two with the same name the later counts.
#[derive(Debug)]
pub struct Params {
    entries: Vec<(String, String)>,
}

/// Values by name.
pub type ParamsModel = Map<Seq<char>, Seq<char>>;

spec fn entries_map(entries: Seq<(String, String)>) -> ParamsModel
    decreases entries.len(),
{
    if entries.len() == 0 {
        Map::empty()
    } else {
        entries_map(entries.drop_last()).insert(entries.last().0@, entries.last().1@)
    }
}

impl View for Params {
    type V = ParamsModel;

    closed spec fn view(&self) -> ParamsModel {
        entries_map(self.entries@)
    }
}

proof fn last_entry_counts(entries: Seq<(String, String)>, i: int)
    requires
        0 <= i < entries.len(),
        forall|k: int| i < k < entries.len() ==> (#[trigger] entries[k]).0@ != entries[i].0@,
    ensures
        entries_map(entries).contains_key(entries[i].0@),
        entries_map(entries)[entries[i].0@] == entries[i].1@,
    decreases entries.len(),
{
    if i < entries.len() - 1 {
        let front = entries.drop_last();
        assert forall|k: int| i < k < front.len() implies (#[trigger] front[k]).0@ != front[i].0@ by {
            assert(front[k] == entries[k]);
        }
        last_entry_counts(front, i);
        assert(entries[entries.len() - 1].0@ != entries[i].0@);
    }
}

proof fn no_entry_no_key(entries: Seq<(String, String)>, key: Seq<char>)
    requires
        forall|k: int| 0 <= k < entries.len() ==> (#[trigger] entries[k]).0@ != key,
    ensures
        !entries_map(entries).contains_key(key),
    decreases entries.len(),
{
    if entries.len() > 0 {
        let front = entries.drop_last();
        assert forall|k: int| 0 <= k < front.len() implies (#[trigger] front[k]).0@ != key by {
            assert(front[k] == entries[k]);
        }
        no_entry_no_key(front, key);
        assert(entries[entries.len() - 1].0@ != key);
    }
}

impl Params {
    /// No parameters.
    pub fn new() -> (r: Params)
        ensures
            r@ == Map::<Seq<char>, Seq<char>>::empty(),
    {
        Params { entries: Vec::new() }
    }

    /// Sets the parameter `name` to `value`.
    pub fn insert(&mut self, name: String, value: String)
        ensures
            final(self)@ == old(self)@.insert(name@, value@),
    {
        let ghost before = self.entries@;
        self.entries.push((name, value));
        assert(self.entries@.drop_last() =~= before);
    }

    /// The value of the parameter `name`, if it is set.
    pub fn get(&self, name: &str) -> (r: Option<&str>)
        ensures
            match r {
                Some(v) => self@.contains_key(name@) && self@[name@] == v@,
                None => !self@.contains_key(name@),
            },
    {
        let mut i: usize = self.entries.len();
        while i > 0
            invariant
                i <= self.entries@.len(),
                forall|k: int| i <= k < self.entries@.len() ==> (#[trigger] self.entries@[k]).0@
                    != name@,
            decreases i,
        {
            i -= 1;
            if same_text(self.entries[i].0.as_str(), name) {
                proof {
                    last_entry_counts(self.entries@, i as int);
                }
                return Some(self.entries[i].1.as_str());
            }
        }
        proof {
            no_entry_no_key(self.entries@, name@);
        }
        None
    }
}

/// The value of a parameter, if it is set.
pub open spec fn param(params: ParamsModel, name: Seq<char>) -> Option<Seq<char>> {
    if params.contains_key(name) {
        Some(params[name])
    } else {
        None
    }
}

/// A copy of the value of a parameter, if it is set.
pub fn owned_param(params: &Params, name: &str) -> (r: Option<String>)
    ensures
        crate::model::opt(r) == param(params@, name@),
{
    match params.get(name) {
        Some(v) => Some(v.to_owned()),
        None => None,
    }
}

/// The scope that parameters name, for a given tenant.
pub open spec fn scope_in(params: ParamsModel, tenant_id: Seq<char>) -> ScopeModel {
    ScopeModel {
        tenant_id,
        workspace_id: param(params, "workspace_id"@),
        project_id: param(params, "project_id"@),
        agent_id: param(params, "agent_id"@),
        run_id: param(params, "run_id"@),
    }
}

/// The scope that parameters name; the tenant must be given.
pub open spec fn scope_of(params: ParamsModel) -> Result<ScopeModel, ApiIssue> {
    match param(params, "tenant_id"@) {
        None => Err(ApiIssue::BadRequest("tenant_id is required"@)),
        Some(tenant_id) => Ok(scope_in(params, tenant_id)),
    }
}

/// The scope that parameters name, for a given tenant.
pub fn read_scope_in(params: &Params, tenant_id: String) -> (r: ScopeKey)
    ensures
        r@ == scope_in(params@, tenant_id@),
{
    ScopeKey {
        tenant_id,
        workspace_id: owned_param(params, "workspace_id"),
        project_id: owned_param(params, "project_id"),
        agent_id: owned_param(params, "agent_id"),
        run_id: owned_param(params, "run_id"),
    }
}

/// Reads the scope out of parameters.
pub fn scope_from_params(params: &Params) -> (r: Result<ScopeKey, ApiError>)
    ensures
        match (r, scope_of(params@)) {
            (Ok(s), Ok(m)) => s@ == m,
            (Err(e), Err(f)) => e@ == f,
            _ => false,
        },
{
    match owned_param(params, "tenant_id") {
        None => Err(ApiError::BadRequest("tenant_id is required".to_owned())),
        Some(tenant_id) => Ok(read_scope_in(params, tenant_id)),
    }
}

/// The scope of a request is what its parameters say, each level under its own
/// name; a level without a parameter is left open, and without `tenant_id` there is
/// no scope.
pub proof fn law_scope_is_what_parameters_name(params: ParamsModel)
    ensures
        !params.contains_key("tenant_id"@) ==> scope_of(params) is Err,
        params.contains_key("tenant_id"@) ==> (scope_of(params) matches Ok(scope) && {
            &&& scope.tenant_id == params["tenant_id"@]
            &&& scope.workspace_id is Some <==> params.contains_key("workspace_id"@)
            &&& scope.project_id is Some <==> params.contains_key("project_id"@)
            &&& scope.agent_id is Some <==> params.contains_key("agent_id"@)
            &&& scope.run_id is Some <==> params.contains_key("run_id"@)
            &&& scope.workspace_id matches Some(v) ==> v == params["workspace_id"@]
            &&& scope.project_id matches Some(v) ==> v == params["project_id"@]
            &&& scope.agent_id matches Some(v) ==> v == params["agent_id"@]
            &&& scope.run_id matches Some(v) ==> v == params["run_id"@]
        }),
{
}

} // verus!

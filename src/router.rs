use vstd::prelude::*;
use vstd::string::StrSliceExecFns;
use vstd::string::StringExecFns;
use crate::error::{join2, join3, text, LMSError, LMSResult};
use crate::user::{default_settings, Tenant, TenantSettings};
use crate::key_order::{key_order, permuted, positions, sort_keys, views_of};
use crate::utils::{decimal, generate_id, id_text, is_valid_subdomain, push_decimal, valid_subdomain};

verus! {

/// Resource budget handed to each new tenant instance: the platform's
/// creation minimum plus an operating margin.
pub const TENANT_CYCLES: u128 = 900_000_000_000;

/// Whether candid accepts `s` as the text of a principal.
pub uninterp spec fn principal_text_ok(s: Seq<char>) -> bool;

/// ASCII lower-casing of one character, as a code point.
pub open spec fn lower_code(c: char) -> int {
    if 'A' <= c <= 'Z' { c as int + 32 } else { c as int }
}

/// `c` is `s` with its ASCII capitals lowered.
pub open spec fn is_lower_text(c: Seq<char>, s: Seq<char>) -> bool {
    c.len() == s.len() && forall|i: int| 0 <= i < s.len() ==> #[trigger] (c[i] as int) == lower_code(s[i])
}

/// Relies on candid's `Principal::from_text`, which accepts a text only when
/// it decodes with a valid checksum and its ASCII-lowercase form equals the
/// canonical text, and on `Principal::to_text`, which gives that canonical
/// text.
#[verifier::external_body]
fn parse_principal(s: &str) -> (r: Option<String>)
    ensures
        r.is_some() == principal_text_ok(s@),
        r.is_some() ==> is_lower_text(r.unwrap()@, s@),
{
    candid::Principal::from_text(s).ok().map(|p| p.to_text())
}

/// One routing-table entry: a subdomain and the instance that serves it.
#[derive(Debug, Clone, PartialEq, Eq)]
pub struct RouteEntry {
    pub subdomain: String,
    pub canister_id: String,
}

/// Whether the table holds an entry for subdomain `sub`.
pub open spec fn subdomain_taken(rt: Seq<RouteEntry>, sub: Seq<char>) -> bool {
    exists|i: int| 0 <= i < rt.len() && (#[trigger] rt[i]).subdomain@ == sub
}

/// Whether the table sends subdomain `sub` to instance `cid`.
pub open spec fn routes_to(rt: Seq<RouteEntry>, sub: Seq<char>, cid: Seq<char>) -> bool {
    exists|i: int| 0 <= i < rt.len() && (#[trigger] rt[i]).subdomain@ == sub && rt[i].canister_id@ == cid
}

/// Whether some route leads to instance `cid`.
pub open spec fn instance_routed(rt: Seq<RouteEntry>, cid: Seq<char>) -> bool {
    exists|i: int| 0 <= i < rt.len() && (#[trigger] rt[i]).canister_id@ == cid
}

/// Whether some tenant record names instance `cid`.
pub open spec fn instance_registered(ts: Seq<Tenant>, cid: Seq<char>) -> bool {
    exists|j: int| 0 <= j < ts.len() && (#[trigger] ts[j]).canister_id@ == cid
}

/// Whether some tenant record has id `id`.
pub open spec fn tenant_id_taken(ts: Seq<Tenant>, id: Seq<char>) -> bool {
    exists|j: int| 0 <= j < ts.len() && (#[trigger] ts[j]).id@ == id
}

/// Subdomains and instances each appear at most once in the table.
pub open spec fn unique_routes(rt: Seq<RouteEntry>) -> bool {
    forall|i: int, j: int|
        0 <= i < rt.len() && 0 <= j < rt.len() && i != j ==> (#[trigger] rt[i]).subdomain@
            != (#[trigger] rt[j]).subdomain@ && rt[i].canister_id@ != rt[j].canister_id@
}

/// Tenant ids and instances each appear at most once in the registry.
pub open spec fn unique_tenants(ts: Seq<Tenant>) -> bool {
    forall|i: int, j: int|
        0 <= i < ts.len() && 0 <= j < ts.len() && i != j ==> (#[trigger] ts[i]).id@
            != (#[trigger] ts[j]).id@ && ts[i].canister_id@ != ts[j].canister_id@
}

/// Every route leads to an instance that a tenant record names, and every
/// tenant record's instance has a route: no orphaned routes or tenants.
pub open spec fn consistent(rt: Seq<RouteEntry>, ts: Seq<Tenant>) -> bool {
    &&& forall|i: int| 0 <= i < rt.len() ==> instance_registered(ts, (#[trigger] rt[i]).canister_id@)
    &&& forall|j: int| 0 <= j < ts.len() ==> instance_routed(rt, (#[trigger] ts[j]).canister_id@)
}

/// Same tenant record, field by field (the admin list compared by content).
pub open spec fn same_tenant(a: Tenant, b: Tenant) -> bool {
    &&& a.id == b.id
    &&& a.name == b.name
    &&& a.subdomain == b.subdomain
    &&& a.canister_id == b.canister_id
    &&& a.admin_ids@ == b.admin_ids@
    &&& a.created_at == b.created_at
    &&& a.updated_at == b.updated_at
    &&& a.is_active == b.is_active
    &&& a.settings == b.settings
}

/// The tenant ids of a registry, in storage order.
pub open spec fn tenant_keys(ts: Seq<Tenant>) -> Seq<Seq<char>> {
    Seq::new(ts.len(), |i: int| ts[i].id@)
}

/// The subdomains of a routing table, in storage order.
pub open spec fn route_keys(rt: Seq<RouteEntry>) -> Seq<Seq<char>> {
    Seq::new(rt.len(), |i: int| rt[i].subdomain@)
}

/// `v` lists the records of `ts` in the key order `idx`.
pub open spec fn tenants_listed(v: Seq<Tenant>, ts: Seq<Tenant>, idx: Seq<int>) -> bool {
    &&& key_order(tenant_keys(ts), idx)
    &&& v.len() == ts.len()
    &&& forall|k: int| 0 <= k < v.len() ==> same_tenant(#[trigger] v[k], ts[idx[k]])
}

/// `v` lists the entries of `rt` as pairs in the key order `idx`.
pub open spec fn routes_listed(v: Seq<(String, String)>, rt: Seq<RouteEntry>, idx: Seq<int>) -> bool {
    &&& key_order(route_keys(rt), idx)
    &&& v.len() == rt.len()
    &&& forall|k: int| 0 <= k < v.len() ==> (#[trigger] v[k]).0 == rt[idx[k]].subdomain && v[k].1 == rt[idx[k]].canister_id
}

/// The tenant ids of a registry, in storage order.
pub fn tenant_keys_of(ts: &Vec<Tenant>) -> (r: Vec<String>)
    requires
        unique_tenants(ts@),
    ensures
        views_of(r@) == tenant_keys(ts@),
        forall|a: int, b: int| 0 <= a < r@.len() && 0 <= b < r@.len() && a != b ==> (#[trigger] r@[a])@ != (#[trigger] r@[b])@,
{
    let mut r: Vec<String> = Vec::new();
    let mut i: usize = 0;
    while i < ts.len()
        invariant
            i <= ts@.len(),
            r@.len() == i,
            forall|k: int| 0 <= k < i ==> (#[trigger] r@[k])@ == ts@[k].id@,
        decreases ts.len() - i,
    {
        r.push(ts[i].id.clone());
        i += 1;
    }
    assert(views_of(r@) =~= tenant_keys(ts@));
    r
}

/// The subdomains of a routing table, in storage order.
pub fn route_keys_of(rt: &Vec<RouteEntry>) -> (r: Vec<String>)
    requires
        unique_routes(rt@),
    ensures
        views_of(r@) == route_keys(rt@),
        forall|a: int, b: int| 0 <= a < r@.len() && 0 <= b < r@.len() && a != b ==> (#[trigger] r@[a])@ != (#[trigger] r@[b])@,
{
    let mut r: Vec<String> = Vec::new();
    let mut i: usize = 0;
    while i < rt.len()
        invariant
            i <= rt@.len(),
            r@.len() == i,
            forall|k: int| 0 <= k < i ==> (#[trigger] r@[k])@ == rt@[k].subdomain@,
        decreases rt.len() - i,
    {
        r.push(rt[i].subdomain.clone());
        i += 1;
    }
    assert(views_of(r@) =~= route_keys(rt@));
    r
}

/// What the router keeps: the routing table (subdomain to instance), the
/// tenant registry (tenant id to record) and the configured template.
pub struct RouterState {
    routing_table: Vec<RouteEntry>,
    tenant_registry: Vec<Tenant>,
    template_canister_id: Option<String>,
}

/// What the orchestrator asks of the instance lifecycle client first: a new
/// instance with these controllers and budget, to receive the template.
#[derive(Debug, Clone, PartialEq, Eq)]
pub struct ProvisionRequest {
    pub subdomain: String,
    pub university_name: String,
    pub admin_principal: String,
    pub template_canister_id: String,
    pub controllers: Vec<String>,
    pub cycles: u128,
}

/// What the orchestrator asks next: install the template into the new
/// instance, initialised with `tenant_id` and `admin_principal`.
#[derive(Debug, Clone, PartialEq, Eq)]
pub struct InstallRequest {
    pub canister_id: String,
    pub template_canister_id: String,
    pub tenant_id: String,
    pub admin_principal: String,
    pub subdomain: String,
    pub university_name: String,
}

/// The next action of a registration in progress.
#[derive(Debug, Clone, PartialEq, Eq)]
pub enum ProvisionStep {
    /// Install code into the instance just created.
    Install(InstallRequest),
    /// Delete the instance `canister_id` (best effort), then report `error`.
    Rollback { canister_id: String, error: LMSError },
    /// Report `error`; nothing was created that needs undoing.
    Failed(LMSError),
    /// The tenant is registered.
    Registered(Tenant),
}

fn find_route_by_subdomain(rt: &Vec<RouteEntry>, sub: &String) -> (r: Option<usize>)
    ensures
        match r {
            Some(i) => i < rt@.len() && rt@[i as int].subdomain@ == sub@,
            None => !subdomain_taken(rt@, sub@),
        },
{
    let mut i: usize = 0;
    while i < rt.len()
        invariant
            i <= rt@.len(),
            forall|k: int| 0 <= k < i ==> (#[trigger] rt@[k]).subdomain@ != sub@,
        decreases rt.len() - i,
    {
        if rt[i].subdomain == *sub {
            return Some(i);
        }
        i += 1;
    }
    None
}

pub(crate) fn find_route_by_canister(rt: &Vec<RouteEntry>, cid: &String) -> (r: Option<usize>)
    ensures
        match r {
            Some(i) => i < rt@.len() && rt@[i as int].canister_id@ == cid@,
            None => !instance_routed(rt@, cid@),
        },
{
    let mut i: usize = 0;
    while i < rt.len()
        invariant
            i <= rt@.len(),
            forall|k: int| 0 <= k < i ==> (#[trigger] rt@[k]).canister_id@ != cid@,
        decreases rt.len() - i,
    {
        if rt[i].canister_id == *cid {
            return Some(i);
        }
        i += 1;
    }
    None
}

fn find_tenant_by_id(ts: &Vec<Tenant>, id: &String) -> (r: Option<usize>)
    ensures
        match r {
            Some(j) => j < ts@.len() && ts@[j as int].id@ == id@,
            None => !tenant_id_taken(ts@, id@),
        },
{
    let mut j: usize = 0;
    while j < ts.len()
        invariant
            j <= ts@.len(),
            forall|k: int| 0 <= k < j ==> (#[trigger] ts@[k]).id@ != id@,
        decreases ts.len() - j,
    {
        if ts[j].id == *id {
            return Some(j);
        }
        j += 1;
    }
    None
}

pub(crate) fn find_tenant_by_canister(ts: &Vec<Tenant>, cid: &String) -> (r: Option<usize>)
    ensures
        match r {
            Some(j) => j < ts@.len() && ts@[j as int].canister_id@ == cid@,
            None => !instance_registered(ts@, cid@),
        },
{
    let mut j: usize = 0;
    while j < ts.len()
        invariant
            j <= ts@.len(),
            forall|k: int| 0 <= k < j ==> (#[trigger] ts@[k]).canister_id@ != cid@,
        decreases ts.len() - j,
    {
        if ts[j].canister_id == *cid {
            return Some(j);
        }
        j += 1;
    }
    None
}

impl RouterState {
    /// The routing table's entries.
    pub closed spec fn routes(&self) -> Seq<RouteEntry> {
        self.routing_table@
    }

    /// The tenant registry's records.
    pub closed spec fn tenants(&self) -> Seq<Tenant> {
        self.tenant_registry@
    }

    /// The template configured for new tenants, if any.
    pub closed spec fn template(&self) -> Option<Seq<char>> {
        match self.template_canister_id {
            Some(t) => Some(t@),
            None => None,
        }
    }

    /// Keys are unique in both maps.
    pub open spec fn wf(&self) -> bool {
        unique_routes(self.routes()) && unique_tenants(self.tenants())
    }

    /// An empty router.
    pub fn new() -> (r: RouterState)
        ensures
            r.wf(),
            consistent(r.routes(), r.tenants()),
            r.routes().len() == 0,
            r.tenants().len() == 0,
            r.template() is None,
    {
        RouterState { routing_table: Vec::new(), tenant_registry: Vec::new(), template_canister_id: None }
    }

    /// Sets the instance whose code new tenants receive. The id must be the
    /// text of a principal; it is stored in canonical form.
    pub fn configure_template(&mut self, template_canister_id: &str) -> (r: LMSResult<()>)
        ensures
            r is Ok == principal_text_ok(template_canister_id@),
            r is Err ==> r->Err_0 is ValidationError && *final(self) == *old(self),
            r is Ok ==> final(self).template() is Some && is_lower_text(final(self).template()->Some_0, template_canister_id@),
            final(self).routes() == old(self).routes(),
            final(self).tenants() == old(self).tenants(),
    {
        match parse_principal(template_canister_id) {
            Some(t) => {
                self.template_canister_id = Some(t);
                Ok(())
            },
            None => Err(LMSError::ValidationError(text("Invalid template canister ID"))),
        }
    }

    /// The instance serving `subdomain`.
    pub fn get_tenant_canister(&self, subdomain: &str) -> (r: LMSResult<String>)
        requires
            self.wf(),
        ensures
            r is Ok == subdomain_taken(self.routes(), subdomain@),
            r is Ok ==> routes_to(self.routes(), subdomain@, r->Ok_0@),
            r is Err ==> r->Err_0 is NotFound,
    {
        let sub = String::from_str(subdomain);
        match find_route_by_subdomain(&self.routing_table, &sub) {
            Some(i) => Ok(self.routing_table[i].canister_id.clone()),
            None => Err(LMSError::NotFound(text("Subdomain not found"))),
        }
    }

    /// Every tenant record, in tenant-id order.
    pub fn list_tenants(&self) -> (r: Vec<Tenant>)
        requires
            self.wf(),
        ensures
            exists|idx: Seq<int>| #[trigger] tenants_listed(r@, self.tenants(), idx),
    {
        let keys = tenant_keys_of(&self.tenant_registry);
        let order = sort_keys(&keys);
        let ghost idx = positions(order@);
        let mut r: Vec<Tenant> = Vec::new();
        let mut m: usize = 0;
        while m < order.len()
            invariant
                m <= order@.len(),
                idx == positions(order@),
                key_order(tenant_keys(self.tenants()), idx),
                self.tenants() == self.tenant_registry@,
                r@.len() == m,
                forall|k: int| 0 <= k < m ==> same_tenant(#[trigger] r@[k], self.tenants()[idx[k]]),
            decreases order.len() - m,
        {
            assert(idx[m as int] == order@[m as int] as int);
            assert(0 <= idx[m as int] < tenant_keys(self.tenants()).len());
            r.push(self.tenant_registry[order[m]].duplicate());
            m += 1;
        }
        assert(tenants_listed(r@, self.tenants(), idx));
        r
    }

    /// The routing table as (subdomain, instance) pairs, in subdomain order.
    pub fn get_routing_table(&self) -> (r: Vec<(String, String)>)
        requires
            self.wf(),
        ensures
            exists|idx: Seq<int>| #[trigger] routes_listed(r@, self.routes(), idx),
    {
        let keys = route_keys_of(&self.routing_table);
        let order = sort_keys(&keys);
        let ghost idx = positions(order@);
        let mut r: Vec<(String, String)> = Vec::new();
        let mut m: usize = 0;
        while m < order.len()
            invariant
                m <= order@.len(),
                idx == positions(order@),
                key_order(route_keys(self.routes()), idx),
                self.routes() == self.routing_table@,
                r@.len() == m,
                forall|k: int| 0 <= k < m ==> (#[trigger] r@[k]).0 == self.routes()[idx[k]].subdomain
                    && r@[k].1 == self.routes()[idx[k]].canister_id,
            decreases order.len() - m,
        {
            assert(idx[m as int] == order@[m as int] as int);
            assert(0 <= idx[m as int] < route_keys(self.routes()).len());
            let e = &self.routing_table[order[m]];
            r.push((e.subdomain.clone(), e.canister_id.clone()));
            m += 1;
        }
        assert(routes_listed(r@, self.routes(), idx));
        r
    }
}


impl RouterState {
    /// Whether a template can be found for a new tenant: one is configured,
    /// or the first registered tenant's instance id parses as a principal.
    pub open spec fn template_available(&self) -> bool {
        self.template() is Some || (self.tenants().len() > 0 && principal_text_ok(
            self.tenants()[0].canister_id@,
        ))
    }

    /// First step of registering a university: validates `subdomain`, checks
    /// that it is free and resolves the template. On success it returns what
    /// to ask of the instance lifecycle client; on failure nothing has been
    /// created. The new instance is controlled by the router, the caller and
    /// the university's admin.
    pub fn register_university(
        &self,
        subdomain: &str,
        university_name: &str,
        admin_principal: &str,
        router_id: &str,
        caller: &str,
    ) -> (r: LMSResult<ProvisionRequest>)
        requires
            self.wf(),
        ensures
            r is Ok <==> (valid_subdomain(subdomain@) && !subdomain_taken(self.routes(), subdomain@)
                && self.template_available()),
            !valid_subdomain(subdomain@) ==> r is Err && r->Err_0 is ValidationError,
            valid_subdomain(subdomain@) && subdomain_taken(self.routes(), subdomain@) ==> r is Err
                && r->Err_0 is AlreadyExists,
            valid_subdomain(subdomain@) && !subdomain_taken(self.routes(), subdomain@)
                && self.template() is None && self.tenants().len() == 0 ==> r is Err
                && r->Err_0 is InitializationError,
            valid_subdomain(subdomain@) && !subdomain_taken(self.routes(), subdomain@)
                && !self.template_available() && self.tenants().len() > 0 ==> r is Err
                && r->Err_0 is InternalError,
            r is Ok ==> {
                let q = r->Ok_0;
                &&& q.subdomain@ == subdomain@
                &&& q.university_name@ == university_name@
                &&& q.admin_principal@ == admin_principal@
                &&& q.cycles == TENANT_CYCLES
                &&& q.controllers@.len() == 3
                &&& q.controllers@[0]@ == router_id@
                &&& q.controllers@[1]@ == caller@
                &&& q.controllers@[2]@ == admin_principal@
                &&& (self.template() is Some ==> q.template_canister_id@ == self.template()->Some_0)
                &&& (self.template() is None ==> is_lower_text(q.template_canister_id@, self.tenants()[0].canister_id@))
            },
    {
        if !is_valid_subdomain(subdomain) {
            return Err(LMSError::ValidationError(text("Invalid subdomain format")));
        }
        let sub = String::from_str(subdomain);
        if find_route_by_subdomain(&self.routing_table, &sub).is_some() {
            return Err(LMSError::AlreadyExists(text("Subdomain already registered")));
        }
        let template = match &self.template_canister_id {
            Some(t) => t.clone(),
            None => {
                if self.tenant_registry.len() == 0 {
                    return Err(LMSError::InitializationError(text("No template configured and no deployed tenant instance to copy")));
                }
                match parse_principal(self.tenant_registry[0].canister_id.as_str()) {
                    Some(t) => t,
                    None => {
                        return Err(LMSError::InternalError(text("Invalid canister ID format")));
                    },
                }
            },
        };
        let mut controllers: Vec<String> = Vec::new();
        controllers.push(String::from_str(router_id));
        controllers.push(String::from_str(caller));
        controllers.push(String::from_str(admin_principal));
        Ok(
            ProvisionRequest {
                subdomain: sub,
                university_name: String::from_str(university_name),
                admin_principal: String::from_str(admin_principal),
                template_canister_id: template,
                controllers,
                cycles: TENANT_CYCLES,
            },
        )
    }
}

/// The step asks to delete instance `cid` and report an error.
pub open spec fn rolled_back(r: ProvisionStep, cid: Seq<char>) -> bool {
    r is Rollback && r->canister_id@ == cid
}

/// The tenant record that a successful install produces.
pub open spec fn is_new_record(t: Tenant, install: InstallRequest, now: u64) -> bool {
    &&& t.id == install.tenant_id
    &&& t.name == install.university_name
    &&& t.subdomain == install.subdomain
    &&& t.canister_id == install.canister_id
    &&& t.admin_ids@.len() == 1
    &&& t.admin_ids@[0] == install.admin_principal
    &&& t.created_at == now
    &&& t.updated_at == now
    &&& t.is_active
    &&& t.settings == default_settings()
}

/// `after` is `before` with the route and the record of `install` added.
pub open spec fn recorded(before: RouterState, after: RouterState, install: InstallRequest, now: u64) -> bool {
    &&& after.routes() == before.routes().push(
        (RouteEntry { subdomain: install.subdomain, canister_id: install.canister_id }),
    )
    &&& after.tenants().len() == before.tenants().len() + 1
    &&& after.tenants().drop_last() == before.tenants()
    &&& is_new_record(after.tenants().last(), install, now)
}

impl RouterState {
    /// Whether the install's subdomain, tenant id and instance are all
    /// still free, so that it can be recorded.
    pub open spec fn accepts(&self, install: InstallRequest) -> bool {
        &&& valid_subdomain(install.subdomain@)
        &&& !subdomain_taken(self.routes(), install.subdomain@)
        &&& !tenant_id_taken(self.tenants(), install.tenant_id@)
        &&& !instance_routed(self.routes(), install.canister_id@)
        &&& !instance_registered(self.tenants(), install.canister_id@)
    }
}

impl ProvisionRequest {
    /// Second step: the lifecycle client answered the creation request. A
    /// failure ends the registration; a new instance is to receive the
    /// template, with a tenant id drawn from the time `now`. That same id is
    /// the one recorded once the install succeeds.
    pub fn instance_created(self, created: Result<String, String>, now: u64) -> (r: ProvisionStep)
        ensures
            created is Err ==> r is Failed && r->Failed_0 is InternalError
                && r->Failed_0.msg() == "Failed to create canister: "@ + created->Err_0@,
            created is Ok ==> r is Install && {
                let q = r->Install_0;
                &&& q.canister_id == created->Ok_0
                &&& q.tenant_id@ == id_text("tenant"@, now as nat)
                &&& q.template_canister_id == self.template_canister_id
                &&& q.admin_principal == self.admin_principal
                &&& q.subdomain == self.subdomain
                &&& q.university_name == self.university_name
            },
    {
        match created {
            Err(e) => ProvisionStep::Failed(
                LMSError::InternalError(join2("Failed to create canister: ", e.as_str())),
            ),
            Ok(canister_id) => {
                let tenant_id = generate_id("tenant", now);
                ProvisionStep::Install(
                    InstallRequest {
                        canister_id,
                        template_canister_id: self.template_canister_id,
                        tenant_id,
                        admin_principal: self.admin_principal,
                        subdomain: self.subdomain,
                        university_name: self.university_name,
                    },
                )
            },
        }
    }
}

impl RouterState {
    /// Last step: the install into the new instance finished. If it failed,
    /// or the subdomain, tenant id or instance was taken meanwhile by a
    /// concurrent call, nothing is recorded and the new instance is to be
    /// deleted (except when its id already belongs to another tenant). On
    /// success the tenant is recorded in the routing table and the registry
    /// together, under the tenant id that was sent to the instance.
    pub fn complete_registration(
        &mut self,
        install: InstallRequest,
        installed: Result<(), String>,
        now: u64,
    ) -> (r: ProvisionStep)
        requires
            old(self).wf(),
        ensures
            final(self).wf(),
            final(self).template() == old(self).template(),
            installed is Err ==> rolled_back(r, install.canister_id@),
            installed is Err ==> r->error is InternalError,
            installed is Err ==> r->error.msg() == "Failed to install template: "@ + installed->Err_0@,
            (r is Registered) == (installed is Ok && old(self).accepts(install)),
            installed is Ok && valid_subdomain(install.subdomain@) && subdomain_taken(
                old(self).routes(),
                install.subdomain@,
            ) ==> rolled_back(r, install.canister_id@) && r->error is AlreadyExists,
            !(r is Registered) ==> final(self).routes() == old(self).routes(),
            !(r is Registered) ==> final(self).tenants() == old(self).tenants(),
            (r is Registered) ==> recorded(*old(self), *final(self), install, now),
            (r is Registered) ==> same_tenant(r->Registered_0, final(self).tenants().last()),
            consistent(old(self).routes(), old(self).tenants()) ==> consistent(
                final(self).routes(),
                final(self).tenants(),
            ),
    {
        if let Err(e) = installed {
            return ProvisionStep::Rollback {
                canister_id: install.canister_id,
                error: LMSError::InternalError(join2("Failed to install template: ", e.as_str())),
            };
        }
        if !is_valid_subdomain(install.subdomain.as_str()) {
            return ProvisionStep::Rollback {
                canister_id: install.canister_id,
                error: LMSError::ValidationError(text("Invalid subdomain format")),
            };
        }
        if find_route_by_subdomain(&self.routing_table, &install.subdomain).is_some() {
            return ProvisionStep::Rollback {
                canister_id: install.canister_id,
                error: LMSError::AlreadyExists(text("Subdomain already registered")),
            };
        }
        if find_tenant_by_id(&self.tenant_registry, &install.tenant_id).is_some() {
            return ProvisionStep::Rollback {
                canister_id: install.canister_id,
                error: LMSError::AlreadyExists(text("Tenant ID already registered")),
            };
        }
        if find_route_by_canister(&self.routing_table, &install.canister_id).is_some()
            || find_tenant_by_canister(&self.tenant_registry, &install.canister_id).is_some() {
            return ProvisionStep::Failed(
                LMSError::InternalError(text("Instance already belongs to a registered tenant")),
            );
        }
        let mut admin_ids: Vec<String> = Vec::new();
        admin_ids.push(install.admin_principal);
        let tenant = Tenant {
            id: install.tenant_id,
            name: install.university_name,
            subdomain: install.subdomain.clone(),
            canister_id: install.canister_id.clone(),
            admin_ids,
            created_at: now,
            updated_at: now,
            is_active: true,
            settings: TenantSettings::default(),
        };
        let result = tenant.duplicate();
        let ghost old_rt = self.routing_table@;
        let ghost old_ts = self.tenant_registry@;
        let entry = RouteEntry { subdomain: install.subdomain, canister_id: install.canister_id };
        proof {
            lemma_register_keeps_consistency(old_rt, old_ts, entry, tenant);
        }
        self.routing_table.push(entry);
        self.tenant_registry.push(tenant);
        proof {
            assert(self.tenant_registry@.drop_last() =~= old_ts);
            assert(self.routing_table@[old_rt.len() as int] == entry);
        }
        ProvisionStep::Registered(result)
    }
}

/// Recording a tenant together with a route to its instance keeps the two
/// maps consistent: no orphaned route or tenant appears.
pub proof fn lemma_register_keeps_consistency(
    rt: Seq<RouteEntry>,
    ts: Seq<Tenant>,
    entry: RouteEntry,
    tenant: Tenant,
)
    requires
        entry.canister_id@ == tenant.canister_id@,
    ensures
        consistent(rt, ts) ==> consistent(rt.push(entry), ts.push(tenant)),
{
    if consistent(rt, ts) {
        let rt2 = rt.push(entry);
        let ts2 = ts.push(tenant);
        assert forall|i: int| 0 <= i < rt2.len() implies instance_registered(ts2, (#[trigger] rt2[i]).canister_id@) by {
            if i < rt.len() {
                assert(instance_registered(ts, rt[i].canister_id@));
                let j = choose|j: int| 0 <= j < ts.len() && (#[trigger] ts[j]).canister_id@ == rt[i].canister_id@;
                assert(ts2[j] == ts[j]);
            } else {
                assert(ts2[ts.len() as int] == tenant);
            }
        }
        assert forall|j: int| 0 <= j < ts2.len() implies instance_routed(rt2, (#[trigger] ts2[j]).canister_id@) by {
            if j < ts.len() {
                assert(instance_routed(rt, ts[j].canister_id@));
                let i = choose|i: int| 0 <= i < rt.len() && (#[trigger] rt[i]).canister_id@ == ts[j].canister_id@;
                assert(rt2[i] == rt[i]);
            } else {
                assert(rt2[rt.len() as int] == entry);
            }
        }
    }
}

/// With unique subdomains, a subdomain routes to one instance only: what
/// `get_tenant_canister` returns for a registered subdomain is the instance
/// that its registration created.
pub proof fn lemma_route_unique(rt: Seq<RouteEntry>, s: Seq<char>, c1: Seq<char>, c2: Seq<char>)
    requires
        unique_routes(rt),
        routes_to(rt, s, c1),
        routes_to(rt, s, c2),
    ensures
        c1 == c2,
{
    let i = choose|i: int| 0 <= i < rt.len() && (#[trigger] rt[i]).subdomain@ == s && rt[i].canister_id@ == c1;
    let j = choose|j: int| 0 <= j < rt.len() && (#[trigger] rt[j]).subdomain@ == s && rt[j].canister_id@ == c2;
    assert(i == j);
}

/// Once a registration commits subdomain `s` to instance `c`, the table sends
/// `s` to `c`, and every route that existed before is still there.
pub proof fn lemma_registered_route_resolves(rt: Seq<RouteEntry>, entry: RouteEntry, s: Seq<char>, c: Seq<char>)
    ensures
        routes_to(rt.push(entry), entry.subdomain@, entry.canister_id@),
        routes_to(rt, s, c) ==> routes_to(rt.push(entry), s, c),
{
    let rt2 = rt.push(entry);
    assert(rt2[rt.len() as int] == entry);
    if routes_to(rt, s, c) {
        let i = choose|i: int| 0 <= i < rt.len() && (#[trigger] rt[i]).subdomain@ == s && rt[i].canister_id@ == c;
        assert(rt2[i] == rt[i]);
    }
}

/// `after` is `before` without the tenant whose id is `id` and without the
/// route to that tenant's instance, if there was one.
pub open spec fn removed(before: RouterState, after: RouterState, id: Seq<char>) -> bool {
    exists|j: int|
        0 <= j < before.tenants().len() && (#[trigger] before.tenants()[j]).id@ == id
            && after.tenants() == before.tenants().remove(j) && (if instance_routed(
            before.routes(),
            before.tenants()[j].canister_id@,
        ) {
            exists|i: int|
                0 <= i < before.routes().len() && (#[trigger] before.routes()[i]).canister_id@
                    == before.tenants()[j].canister_id@ && after.routes() == before.routes().remove(i)
        } else {
            after.routes() == before.routes()
        })
}

/// Uniqueness of routing keys survives removing one entry.
pub proof fn lemma_remove_keeps_unique_routes(rt: Seq<RouteEntry>, i: int)
    requires
        unique_routes(rt),
        0 <= i < rt.len(),
    ensures
        unique_routes(rt.remove(i)),
{
    let rt2 = rt.remove(i);
    assert forall|a: int, b: int| 0 <= a < rt2.len() && 0 <= b < rt2.len() && a != b implies (#[trigger] rt2[a]).subdomain@
        != (#[trigger] rt2[b]).subdomain@ && rt2[a].canister_id@ != rt2[b].canister_id@ by {
        let a0 = if a < i { a } else { a + 1 };
        let b0 = if b < i { b } else { b + 1 };
        assert(rt2[a] == rt[a0] && rt2[b] == rt[b0]);
    }
}

/// Uniqueness of registry keys survives removing one record.
pub proof fn lemma_remove_keeps_unique_tenants(ts: Seq<Tenant>, j: int)
    requires
        unique_tenants(ts),
        0 <= j < ts.len(),
    ensures
        unique_tenants(ts.remove(j)),
{
    let ts2 = ts.remove(j);
    assert forall|a: int, b: int| 0 <= a < ts2.len() && 0 <= b < ts2.len() && a != b implies (#[trigger] ts2[a]).id@
        != (#[trigger] ts2[b]).id@ && ts2[a].canister_id@ != ts2[b].canister_id@ by {
        let a0 = if a < j { a } else { a + 1 };
        let b0 = if b < j { b } else { b + 1 };
        assert(ts2[a] == ts[a0] && ts2[b] == ts[b0]);
    }
}

/// Removing a tenant together with the route to its instance keeps the two
/// maps consistent.
pub proof fn lemma_remove_keeps_consistency(rt: Seq<RouteEntry>, ts: Seq<Tenant>, i: int, j: int)
    requires
        unique_routes(rt),
        unique_tenants(ts),
        consistent(rt, ts),
        0 <= i < rt.len(),
        0 <= j < ts.len(),
        rt[i].canister_id@ == ts[j].canister_id@,
    ensures
        consistent(rt.remove(i), ts.remove(j)),
{
    let rt2 = rt.remove(i);
    let ts2 = ts.remove(j);
    assert forall|a: int| 0 <= a < rt2.len() implies instance_registered(ts2, (#[trigger] rt2[a]).canister_id@) by {
        let a0 = if a < i { a } else { a + 1 };
        assert(rt2[a] == rt[a0]);
        assert(instance_registered(ts, rt[a0].canister_id@));
        let b0 = choose|b0: int| 0 <= b0 < ts.len() && (#[trigger] ts[b0]).canister_id@ == rt[a0].canister_id@;
        assert(b0 != j);
        let b = if b0 < j { b0 } else { b0 - 1 };
        assert(ts2[b] == ts[b0]);
    }
    assert forall|b: int| 0 <= b < ts2.len() implies instance_routed(rt2, (#[trigger] ts2[b]).canister_id@) by {
        let b0 = if b < j { b } else { b + 1 };
        assert(ts2[b] == ts[b0]);
        assert(instance_routed(rt, ts[b0].canister_id@));
        let a0 = choose|a0: int| 0 <= a0 < rt.len() && (#[trigger] rt[a0]).canister_id@ == ts[b0].canister_id@;
        assert(a0 != i);
        let a = if a0 < i { a0 } else { a0 - 1 };
        assert(rt2[a] == rt[a0]);
    }
}

/// The text of a domain up to its first dot: `r` is a prefix of `s` without
/// a dot, followed in `s` by a dot or by nothing.
pub open spec fn is_first_label(r: Seq<char>, s: Seq<char>) -> bool {
    &&& r.len() <= s.len()
    &&& r == s.take(r.len() as int)
    &&& forall|k: int| 0 <= k < r.len() ==> r[k] != '.'
    &&& (r.len() == s.len() || s[r.len() as int] == '.')
}

/// The first label of a domain name (`uni` for `uni.example.org`).
pub fn first_label(domain: &str) -> (r: String)
    ensures
        is_first_label(r@, domain@),
{
    let n = domain.unicode_len();
    let mut k: usize = 0;
    while k < n && domain.get_char(k) != '.'
        invariant
            n == domain@.len(),
            k <= n,
            forall|m: int| 0 <= m < k ==> domain@[m] != '.',
        decreases n - k,
    {
        k += 1;
    }
    let r = String::from_str(domain.substring_char(0, k));
    assert(r@ =~= domain@.take(k as int));
    r
}

impl RouterState {
    /// The tenant records, borrowed.
    pub fn tenant_records(&self) -> (r: &Vec<Tenant>)
        ensures
            r@ == self.tenants(),
    {
        &self.tenant_registry
    }

    /// The routing entries, borrowed.
    pub fn route_entries(&self) -> (r: &Vec<RouteEntry>)
        ensures
            r@ == self.routes(),
    {
        &self.routing_table
    }

    /// Removes the tenant `tenant_id` and the route to its instance, found by
    /// scanning the routing table for that instance.
    pub fn remove_tenant(&mut self, tenant_id: &str) -> (r: LMSResult<()>)
        requires
            old(self).wf(),
        ensures
            final(self).wf(),
            final(self).template() == old(self).template(),
            r is Ok == tenant_id_taken(old(self).tenants(), tenant_id@),
            r is Ok ==> removed(*old(self), *final(self), tenant_id@),
            r is Err ==> r->Err_0 is NotFound && *final(self) == *old(self),
            r is Err ==> r->Err_0.msg() == "Tenant '"@ + tenant_id@ + "' not found"@,
            consistent(old(self).routes(), old(self).tenants()) ==> consistent(
                final(self).routes(),
                final(self).tenants(),
            ),
    {
        let id = String::from_str(tenant_id);
        let j = match find_tenant_by_id(&self.tenant_registry, &id) {
            Some(j) => j,
            None => {
                return Err(LMSError::NotFound(join3("Tenant '", tenant_id, "' not found")));
            },
        };
        let ghost rt0 = self.routing_table@;
        let ghost ts0 = self.tenant_registry@;
        let cid = self.tenant_registry[j].canister_id.clone();
        match find_route_by_canister(&self.routing_table, &cid) {
            Some(i) => {
                proof {
                    lemma_remove_keeps_unique_routes(rt0, i as int);
                    lemma_remove_keeps_unique_tenants(ts0, j as int);
                    if consistent(rt0, ts0) {
                        lemma_remove_keeps_consistency(rt0, ts0, i as int, j as int);
                    }
                }
                self.routing_table.remove(i);
                self.tenant_registry.remove(j);
                assert(self.routing_table@ == rt0.remove(i as int));
            },
            None => {
                proof {
                    lemma_remove_keeps_unique_tenants(ts0, j as int);
                    assert(!consistent(rt0, ts0));
                }
                self.tenant_registry.remove(j);
                assert(unique_routes(self.routing_table@));
            },
        }
        assert(removed(*old(self), *self, tenant_id@));
        Ok(())
    }

    /// Empties both maps (for tests and resets) and reports how many
    /// entries each held.
    pub fn clear_all_tenants(&mut self) -> (r: String)
        requires
            old(self).wf(),
        ensures
            final(self).wf(),
            consistent(final(self).routes(), final(self).tenants()),
            final(self).routes().len() == 0,
            final(self).tenants().len() == 0,
            final(self).template() == old(self).template(),
            r@ == "Cleared "@ + decimal(old(self).tenants().len()) + " tenants and "@ + decimal(
                old(self).routes().len(),
            ) + " routing entries"@,
    {
        let tenant_count = self.tenant_registry.len();
        let routing_count = self.routing_table.len();
        let mut r = text("Cleared ");
        push_decimal(&mut r, tenant_count as u64);
        r.append(" tenants and ");
        push_decimal(&mut r, routing_count as u64);
        r.append(" routing entries");
        self.tenant_registry = Vec::new();
        self.routing_table = Vec::new();
        r
    }

    /// Repair tool: points `subdomain` at `canister_id`, replacing its current
    /// route or adding one. Refused when another subdomain already routes to
    /// that instance. The tenant registry is left alone, so this can create
    /// orphaned routes, which inspection reports.
    pub fn update_routing_entry(&mut self, subdomain: &str, canister_id: &str) -> (r: LMSResult<()>)
        requires
            old(self).wf(),
        ensures
            final(self).wf(),
            final(self).tenants() == old(self).tenants(),
            final(self).template() == old(self).template(),
            r is Ok ==> routes_to(final(self).routes(), subdomain@, canister_id@),
            r is Err ==> r->Err_0 is AlreadyExists && final(self).routes() == old(self).routes(),
            r is Err == (exists|i: int|
                0 <= i < old(self).routes().len() && (#[trigger] old(self).routes()[i]).canister_id@
                    == canister_id@ && old(self).routes()[i].subdomain@ != subdomain@),
    {
        let sub = String::from_str(subdomain);
        let cid = String::from_str(canister_id);
        let existing = find_route_by_canister(&self.routing_table, &cid);
        if let Some(k) = existing {
            if self.routing_table[k].subdomain != sub {
                return Err(LMSError::AlreadyExists(text("Instance already routed from another subdomain")));
            }
            assert(routes_to(self.routing_table@, subdomain@, canister_id@));
            return Ok(());
        }
        let ghost rt0 = self.routing_table@;
        match find_route_by_subdomain(&self.routing_table, &sub) {
            Some(i) => {
                self.routing_table.set(i, RouteEntry { subdomain: sub, canister_id: cid });
                assert(self.routing_table@[i as int].subdomain@ == subdomain@);
                assert forall|a: int, b: int|
                    0 <= a < self.routing_table@.len() && 0 <= b < self.routing_table@.len() && a != b implies (
                    #[trigger] self.routing_table@[a]).subdomain@ != (#[trigger] self.routing_table@[b]).subdomain@
                        && self.routing_table@[a].canister_id@ != self.routing_table@[b].canister_id@ by {
                    if a != i && b != i {
                        assert(self.routing_table@[a] == rt0[a] && self.routing_table@[b] == rt0[b]);
                    } else if a == i {
                        assert(self.routing_table@[b] == rt0[b]);
                    } else {
                        assert(self.routing_table@[a] == rt0[a]);
                    }
                }
            },
            None => {
                self.routing_table.push(RouteEntry { subdomain: sub, canister_id: cid });
                assert(self.routing_table@[rt0.len() as int].subdomain@ == subdomain@);
                assert forall|a: int, b: int|
                    0 <= a < self.routing_table@.len() && 0 <= b < self.routing_table@.len() && a != b implies (
                    #[trigger] self.routing_table@[a]).subdomain@ != (#[trigger] self.routing_table@[b]).subdomain@
                        && self.routing_table@[a].canister_id@ != self.routing_table@[b].canister_id@ by {
                    if a < rt0.len() && b < rt0.len() {
                        assert(self.routing_table@[a] == rt0[a] && self.routing_table@[b] == rt0[b]);
                    } else if a < rt0.len() {
                        assert(self.routing_table@[a] == rt0[a]);
                    } else {
                        assert(self.routing_table@[b] == rt0[b]);
                    }
                }
            },
        }
        Ok(())
    }
}

/// Whether the legacy registration of (`id`, `domain`, `canister_id`) finds
/// all its keys free: the tenant id, the domain's first label as subdomain,
/// and the canonical instance id.
pub open spec fn legacy_keys_free(rt: Seq<RouteEntry>, ts: Seq<Tenant>, id: Seq<char>, domain: Seq<char>, cid: Seq<char>) -> bool {
    &&& !tenant_id_taken(ts, id)
    &&& forall|l: Seq<char>| is_first_label(l, domain) ==> !subdomain_taken(rt, l)
    &&& forall|c: Seq<char>| is_lower_text(c, cid) ==> !instance_routed(rt, c) && !instance_registered(ts, c)
}

impl RouterState {
    /// Legacy registration of an already existing instance: records tenant
    /// `id` for `domain`, routed from the domain's first label, with the
    /// caller as its admin. The instance id must be the text of a principal.
    pub fn register_tenant(
        &mut self,
        id: &str,
        name: &str,
        domain: &str,
        canister_id: &str,
        caller: &str,
        now: u64,
    ) -> (r: LMSResult<Tenant>)
        requires
            old(self).wf(),
        ensures
            final(self).wf(),
            final(self).template() == old(self).template(),
            !principal_text_ok(canister_id@) ==> r is Err && r->Err_0 is ValidationError,
            r is Ok == (principal_text_ok(canister_id@) && legacy_keys_free(
                old(self).routes(),
                old(self).tenants(),
                id@,
                domain@,
                canister_id@,
            )),
            r is Err ==> *final(self) == *old(self),
            r is Err ==> r->Err_0 is ValidationError || r->Err_0 is AlreadyExists,
            r is Ok ==> final(self).routes().drop_last() == old(self).routes(),
            r is Ok ==> final(self).tenants().drop_last() == old(self).tenants(),
            r is Ok ==> final(self).routes().len() == old(self).routes().len() + 1,
            r is Ok ==> final(self).tenants().len() == old(self).tenants().len() + 1,
            r is Ok ==> is_first_label(final(self).routes().last().subdomain@, domain@),
            r is Ok ==> is_lower_text(final(self).routes().last().canister_id@, canister_id@),
            r is Ok ==> same_tenant(r->Ok_0, final(self).tenants().last()),
            r is Ok ==> r->Ok_0.id@ == id@ && r->Ok_0.name@ == name@ && r->Ok_0.subdomain@ == domain@,
            r is Ok ==> r->Ok_0.canister_id == final(self).routes().last().canister_id,
            r is Ok ==> r->Ok_0.admin_ids@.len() == 1 && r->Ok_0.admin_ids@[0]@ == caller@,
            r is Ok ==> r->Ok_0.created_at == now && r->Ok_0.updated_at == now && r->Ok_0.is_active,
            r is Ok ==> r->Ok_0.settings == default_settings(),
            consistent(old(self).routes(), old(self).tenants()) ==> consistent(
                final(self).routes(),
                final(self).tenants(),
            ),
    {
        let cid = match parse_principal(canister_id) {
            Some(c) => c,
            None => {
                return Err(LMSError::ValidationError(text("Invalid canister ID format")));
            },
        };
        let subdomain = first_label(domain);
        let tid = String::from_str(id);
        if find_tenant_by_id(&self.tenant_registry, &tid).is_some() {
            return Err(LMSError::AlreadyExists(text("Tenant ID already registered")));
        }
        if find_route_by_subdomain(&self.routing_table, &subdomain).is_some() {
            return Err(LMSError::AlreadyExists(text("Subdomain already registered")));
        }
        if find_route_by_canister(&self.routing_table, &cid).is_some()
            || find_tenant_by_canister(&self.tenant_registry, &cid).is_some() {
            return Err(LMSError::AlreadyExists(text("Instance already registered")));
        }
        proof {
            assert forall|l: Seq<char>| is_first_label(l, domain@) implies l == subdomain@ by {
                lemma_first_label_unique(l, subdomain@, domain@);
            }
            assert forall|c: Seq<char>| is_lower_text(c, canister_id@) implies c == cid@ by {
                assert(c =~= cid@) by {
                    assert forall|i: int| 0 <= i < c.len() implies c[i] == cid@[i] by {
                        assert((c[i] as int) == (cid@[i] as int));
                    }
                }
            }
        }
        let mut admin_ids: Vec<String> = Vec::new();
        admin_ids.push(String::from_str(caller));
        let tenant = Tenant {
            id: tid,
            name: String::from_str(name),
            subdomain: String::from_str(domain),
            canister_id: cid.clone(),
            admin_ids,
            created_at: now,
            updated_at: now,
            is_active: true,
            settings: TenantSettings::default(),
        };
        let result = tenant.duplicate();
        let ghost old_rt = self.routing_table@;
        let ghost old_ts = self.tenant_registry@;
        let entry = RouteEntry { subdomain, canister_id: cid };
        proof {
            lemma_register_keeps_consistency(old_rt, old_ts, entry, tenant);
        }
        self.routing_table.push(entry);
        self.tenant_registry.push(tenant);
        proof {
            assert(self.tenant_registry@.drop_last() =~= old_ts);
            assert(self.routing_table@.drop_last() =~= old_rt);
        }
        Ok(result)
    }
}

/// A domain has only one first label.
pub proof fn lemma_first_label_unique(a: Seq<char>, b: Seq<char>, s: Seq<char>)
    requires
        is_first_label(a, s),
        is_first_label(b, s),
    ensures
        a == b,
{
    if a.len() < b.len() {
        assert(b[a.len() as int] == s[a.len() as int]);
    } else if b.len() < a.len() {
        assert(a[b.len() as int] == s[b.len() as int]);
    }
    assert(a =~= b);
}

/// Whether a record predates the current layout (no settings or no update
/// time).
pub open spec fn needs_migration(t: Tenant) -> bool {
    t.settings.max_students == 0 || t.updated_at == 0
}

/// `after` is `before` brought to the current layout: missing settings get
/// the defaults and a missing update time becomes the creation time.
pub open spec fn migrated(before: Tenant, after: Tenant) -> bool {
    &&& after.id == before.id
    &&& after.name == before.name
    &&& after.subdomain == before.subdomain
    &&& after.canister_id == before.canister_id
    &&& after.admin_ids@ == before.admin_ids@
    &&& after.created_at == before.created_at
    &&& after.is_active == before.is_active
    &&& after.settings == (if before.settings.max_students == 0 {
        default_settings()
    } else {
        before.settings
    })
    &&& after.updated_at == (if before.updated_at == 0 {
        before.created_at
    } else {
        before.updated_at
    })
}

/// How many records of `ts` need migration.
pub open spec fn migration_count(ts: Seq<Tenant>) -> nat
    decreases ts.len(),
{
    if ts.len() == 0 {
        0
    } else {
        migration_count(ts.drop_last()) + if needs_migration(ts.last()) {
            1nat
        } else {
            0nat
        }
    }
}

/// Brings every tenant record to the current layout and reports how many
/// were changed.
pub fn migrate_tenant_data(router: &mut RouterState) -> (r: LMSResult<String>)
    requires
        old(router).wf(),
    ensures
        final(router).wf(),
        final(router).routes() == old(router).routes(),
        final(router).template() == old(router).template(),
        final(router).tenants().len() == old(router).tenants().len(),
        forall|j: int| 0 <= j < old(router).tenants().len() ==> migrated(old(router).tenants()[j], #[trigger] final(router).tenants()[j]),
        r is Ok,
        r->Ok_0@ == "Migrated "@ + decimal(migration_count(old(router).tenants())) + " tenants to new format"@,
        consistent(old(router).routes(), old(router).tenants()) ==> consistent(
            final(router).routes(),
            final(router).tenants(),
        ),
{
    let ghost ts0 = router.tenant_registry@;
    let n = router.tenant_registry.len();
    let mut count: usize = 0;
    let mut j: usize = 0;
    while j < n
        invariant
            n == ts0.len(),
            j <= n,
            count <= j,
            router.tenant_registry@.len() == n,
            router.routing_table@ == old(router).routing_table@,
            router.template_canister_id == old(router).template_canister_id,
            count == migration_count(ts0.take(j as int)),
            forall|k: int| 0 <= k < j ==> migrated(ts0[k], #[trigger] router.tenant_registry@[k]),
            forall|k: int| j <= k < n ==> #[trigger] router.tenant_registry@[k] == ts0[k],
        decreases n - j,
    {
        assert(ts0.take(j as int + 1).drop_last() =~= ts0.take(j as int));
        let t = &router.tenant_registry[j];
        if t.settings.max_students == 0 || t.updated_at == 0 {
            let mut m = t.duplicate();
            if m.settings.max_students == 0 {
                m.settings = TenantSettings::default();
            }
            if m.updated_at == 0 {
                m.updated_at = m.created_at;
            }
            router.tenant_registry.set(j, m);
            count += 1;
        } else {
            let m = t.duplicate();
            router.tenant_registry.set(j, m);
        }
        j += 1;
    }
    assert(ts0.take(n as int) =~= ts0);
    proof {
        let ts1 = router.tenant_registry@;
        assert forall|a: int, b: int| 0 <= a < ts1.len() && 0 <= b < ts1.len() && a != b implies (#[trigger] ts1[a]).id@
            != (#[trigger] ts1[b]).id@ && ts1[a].canister_id@ != ts1[b].canister_id@ by {
            assert(migrated(ts0[a], ts1[a]) && migrated(ts0[b], ts1[b]));
        }
        let rt = router.routing_table@;
        if consistent(rt, ts0) {
            assert forall|i: int| 0 <= i < rt.len() implies instance_registered(ts1, (#[trigger] rt[i]).canister_id@) by {
                let k = choose|k: int| 0 <= k < ts0.len() && (#[trigger] ts0[k]).canister_id@ == rt[i].canister_id@;
                assert(migrated(ts0[k], ts1[k]));
            }
            assert forall|k: int| 0 <= k < ts1.len() implies instance_routed(rt, (#[trigger] ts1[k]).canister_id@) by {
                assert(migrated(ts0[k], ts1[k]));
                assert(instance_routed(rt, ts0[k].canister_id@));
            }
        }
    }
    let mut r = text("Migrated ");
    push_decimal(&mut r, count as u64);
    r.append(" tenants to new format");
    Ok(r)
}

/// Empties the tenant registry and leaves the routing table as it is (a
/// reset for tests; the routes it leaves are reported as orphaned).
pub fn clear_tenant_registry(router: &mut RouterState) -> (r: LMSResult<String>)
    requires
        old(router).wf(),
    ensures
        final(router).wf(),
        final(router).tenants().len() == 0,
        final(router).routes() == old(router).routes(),
        final(router).template() == old(router).template(),
        r is Ok && r->Ok_0@ == "Tenant registry cleared"@,
{
    router.tenant_registry = Vec::new();
    Ok(text("Tenant registry cleared"))
}

/// The router cannot find the tenant instance to copy on its own: the
/// template must be configured explicitly.
pub fn auto_configure_template() -> (r: LMSResult<String>)
    ensures
        r is Err && r->Err_0 is InitializationError,
{
    Err(LMSError::InitializationError(text("Auto-configuration not available. Please use configure_template() to set the tenant canister ID manually.")))
}

/// Sizes of the router's maps.
#[derive(Debug, Clone, Copy, PartialEq, Eq, Structural)]
pub struct RouterStats {
    pub tenant_count: u64,
    pub routing_entries: u64,
    pub has_wasm_module: bool,
}

impl RouterState {
    /// How many tenants and routes the router holds, and whether a template
    /// is configured.
    pub fn get_router_stats(&self) -> (r: RouterStats)
        ensures
            r.tenant_count == self.tenants().len(),
            r.routing_entries == self.routes().len(),
            r.has_wasm_module == self.template() is Some,
    {
        RouterStats {
            tenant_count: self.tenant_registry.len() as u64,
            routing_entries: self.routing_table.len() as u64,
            has_wasm_module: self.template_canister_id.is_some(),
        }
    }
}

/// One step that the router's public operations can take: nothing changes
/// (a failed or rolled-back call, a query), a registration is recorded, a
/// tenant is removed with its route, or both maps are emptied.
pub open spec fn public_step(a: RouterState, b: RouterState) -> bool {
    ||| (b.routes() == a.routes() && b.tenants() == a.tenants())
    ||| (exists|install: InstallRequest, now: u64| #[trigger] recorded(a, b, install, now))
    ||| (exists|id: Seq<char>| #[trigger] removed(a, b, id))
    ||| (b.routes().len() == 0 && b.tenants().len() == 0)
}

/// Through any history of public operations that starts from empty maps,
/// the routing table and the registry stay consistent: no orphaned route
/// and no orphaned tenant ever appears.
pub proof fn lemma_history_consistent(h: Seq<RouterState>)
    requires
        h.len() > 0,
        h[0].routes().len() == 0,
        h[0].tenants().len() == 0,
        forall|i: int| 0 <= i < h.len() ==> (#[trigger] h[i]).wf(),
        forall|i: int| 0 <= i < h.len() - 1 ==> public_step(#[trigger] h[i], h[i + 1]),
    ensures
        forall|i: int| 0 <= i < h.len() ==> consistent((#[trigger] h[i]).routes(), h[i].tenants()),
    decreases h.len(),
{
    if h.len() > 1 {
        let p = h.drop_last();
        assert forall|i: int| 0 <= i < p.len() implies (#[trigger] p[i]).wf() by {
            assert(p[i] == h[i]);
        }
        assert forall|i: int| 0 <= i < p.len() - 1 implies public_step(#[trigger] p[i], p[i + 1]) by {
            assert(p[i] == h[i] && p[i + 1] == h[i + 1]);
            assert(public_step(h[i], h[i + 1]));
        }
        lemma_history_consistent(p);
        let n = h.len() - 1;
        let a = h[n - 1];
        let b = h[n];
        assert(p[n - 1] == a);
        assert(consistent(a.routes(), a.tenants()));
        assert(public_step(h[n - 1], h[n]));
        lemma_step_consistent(a, b);
        assert forall|i: int| 0 <= i < h.len() implies consistent((#[trigger] h[i]).routes(), h[i].tenants()) by {
            if i < n {
                assert(p[i] == h[i]);
            }
        }
    }
}

/// One public step keeps consistent, well-formed maps consistent.
pub proof fn lemma_step_consistent(a: RouterState, b: RouterState)
    requires
        a.wf(),
        consistent(a.routes(), a.tenants()),
        public_step(a, b),
    ensures
        consistent(b.routes(), b.tenants()),
{
    if b.routes() == a.routes() && b.tenants() == a.tenants() {
    } else if exists|install: InstallRequest, now: u64| #[trigger] recorded(a, b, install, now) {
        let (install, now) = choose|install: InstallRequest, now: u64| #[trigger] recorded(a, b, install, now);
        let entry = RouteEntry { subdomain: install.subdomain, canister_id: install.canister_id };
        lemma_register_keeps_consistency(a.routes(), a.tenants(), entry, b.tenants().last());
        assert(b.tenants() =~= a.tenants().push(b.tenants().last()));
    } else if exists|id: Seq<char>| #[trigger] removed(a, b, id) {
        let id = choose|id: Seq<char>| #[trigger] removed(a, b, id);
        let j = choose|j: int| 0 <= j < a.tenants().len() && (#[trigger] a.tenants()[j]).id@ == id
            && b.tenants() == a.tenants().remove(j) && (if instance_routed(a.routes(), a.tenants()[j].canister_id@) {
            exists|i: int| 0 <= i < a.routes().len() && (#[trigger] a.routes()[i]).canister_id@ == a.tenants()[j].canister_id@
                && b.routes() == a.routes().remove(i)
        } else {
            b.routes() == a.routes()
        });
        assert(instance_routed(a.routes(), a.tenants()[j].canister_id@));
        let i = choose|i: int| 0 <= i < a.routes().len() && (#[trigger] a.routes()[i]).canister_id@ == a.tenants()[j].canister_id@
            && b.routes() == a.routes().remove(i);
        lemma_remove_keeps_consistency(a.routes(), a.tenants(), i, j);
    } else {
    }
}

fn routes_unique(rt: &Vec<RouteEntry>) -> (r: bool)
    ensures
        r == unique_routes(rt@),
{
    let mut i: usize = 0;
    while i < rt.len()
        invariant
            i <= rt@.len(),
            forall|a: int, b: int| 0 <= a < i && 0 <= b < rt@.len() && a != b ==> (#[trigger] rt@[a]).subdomain@
                != (#[trigger] rt@[b]).subdomain@ && rt@[a].canister_id@ != rt@[b].canister_id@,
        decreases rt.len() - i,
    {
        let mut j: usize = 0;
        while j < rt.len()
            invariant
                i < rt@.len(),
                j <= rt@.len(),
                forall|a: int, b: int| 0 <= a < i && 0 <= b < rt@.len() && a != b ==> (#[trigger] rt@[a]).subdomain@
                    != (#[trigger] rt@[b]).subdomain@ && rt@[a].canister_id@ != rt@[b].canister_id@,
                forall|b: int| 0 <= b < j && b != i ==> (#[trigger] rt@[b]).subdomain@ != rt@[i as int].subdomain@
                    && rt@[b].canister_id@ != rt@[i as int].canister_id@,
            decreases rt.len() - j,
        {
            if j != i && (rt[j].subdomain == rt[i].subdomain || rt[j].canister_id == rt[i].canister_id) {
                return false;
            }
            j += 1;
        }
        i += 1;
    }
    true
}

fn tenants_unique(ts: &Vec<Tenant>) -> (r: bool)
    ensures
        r == unique_tenants(ts@),
{
    let mut i: usize = 0;
    while i < ts.len()
        invariant
            i <= ts@.len(),
            forall|a: int, b: int| 0 <= a < i && 0 <= b < ts@.len() && a != b ==> (#[trigger] ts@[a]).id@
                != (#[trigger] ts@[b]).id@ && ts@[a].canister_id@ != ts@[b].canister_id@,
        decreases ts.len() - i,
    {
        let mut j: usize = 0;
        while j < ts.len()
            invariant
                i < ts@.len(),
                j <= ts@.len(),
                forall|a: int, b: int| 0 <= a < i && 0 <= b < ts@.len() && a != b ==> (#[trigger] ts@[a]).id@
                    != (#[trigger] ts@[b]).id@ && ts@[a].canister_id@ != ts@[b].canister_id@,
                forall|b: int| 0 <= b < j && b != i ==> (#[trigger] ts@[b]).id@ != ts@[i as int].id@
                    && ts@[b].canister_id@ != ts@[i as int].canister_id@,
            decreases ts.len() - j,
        {
            if j != i && (ts[j].id == ts[i].id || ts[j].canister_id == ts[i].canister_id) {
                return false;
            }
            j += 1;
        }
        i += 1;
    }
    true
}

impl RouterState {
    /// The configured template, if any.
    pub fn template_id(&self) -> (r: &Option<String>)
        ensures
            match *r {
                Some(t) => self.template() == Some(t@),
                None => self.template() is None,
            },
    {
        &self.template_canister_id
    }

    /// Rebuilds a router from saved maps (after an upgrade). Refused when a
    /// subdomain, tenant id or instance appears twice.
    pub fn restore(routing_table: Vec<RouteEntry>, tenant_registry: Vec<Tenant>, template_canister_id: Option<String>) -> (r: LMSResult<RouterState>)
        ensures
            r is Ok == (unique_routes(routing_table@) && unique_tenants(tenant_registry@)),
            r is Err ==> r->Err_0 is ValidationError,
            r is Ok ==> r->Ok_0.wf() && r->Ok_0.routes() == routing_table@ && r->Ok_0.tenants() == tenant_registry@,
            r is Ok ==> match template_canister_id {
                Some(t) => r->Ok_0.template() == Some(t@),
                None => r->Ok_0.template() is None,
            },
    {
        if !routes_unique(&routing_table) || !tenants_unique(&tenant_registry) {
            return Err(LMSError::ValidationError(text("Saved router maps repeat a key")));
        }
        Ok(RouterState { routing_table, tenant_registry, template_canister_id })
    }
}
} // verus!

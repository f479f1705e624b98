use vstd::prelude::*;
use crate::key_order::{key_order, permuted, positions, sort_keys};
use crate::router::{
    consistent, find_route_by_canister, find_tenant_by_canister, instance_registered,
    instance_routed, route_keys, route_keys_of, same_tenant, tenant_keys, tenant_keys_of, RouteEntry, RouterState,
};
use crate::user::Tenant;

verus! {

/// Ids of the tenants of `ts` whose activity flag is `active`, in order.
pub open spec fn ids_with_status(ts: Seq<Tenant>, active: bool) -> Seq<Seq<char>>
    decreases ts.len(),
{
    if ts.len() == 0 {
        seq![]
    } else {
        let rest = ids_with_status(ts.drop_last(), active);
        if ts.last().is_active == active {
            rest.push(ts.last().id@)
        } else {
            rest
        }
    }
}

/// Routes whose instance no tenant record names, in table order.
pub open spec fn orphan_routes(rt: Seq<RouteEntry>, ts: Seq<Tenant>) -> Seq<RouteEntry>
    decreases rt.len(),
{
    if rt.len() == 0 {
        seq![]
    } else {
        let rest = orphan_routes(rt.drop_last(), ts);
        if instance_registered(ts, rt.last().canister_id@) {
            rest
        } else {
            rest.push(rt.last())
        }
    }
}

/// Tenant records whose instance no route leads to, in registry order.
pub open spec fn orphan_tenants(rt: Seq<RouteEntry>, ts: Seq<Tenant>) -> Seq<Tenant>
    decreases ts.len(),
{
    if ts.len() == 0 {
        seq![]
    } else {
        let rest = orphan_tenants(rt, ts.drop_last());
        if instance_routed(rt, ts.last().canister_id@) {
            rest
        } else {
            rest.push(ts.last())
        }
    }
}

/// The strings of `v` read as `s`.
pub open spec fn texts_are(v: Seq<String>, s: Seq<Seq<char>>) -> bool {
    v.len() == s.len() && forall|k: int| 0 <= k < v.len() ==> (#[trigger] v[k])@ == s[k]
}

/// Contents of the tenant registry.
#[derive(Debug, Clone)]
pub struct TenantRegistryInspection {
    pub total_tenants: u64,
    pub tenants: Vec<(String, Tenant)>,
    pub tenant_ids: Vec<String>,
    pub active_tenants: Vec<String>,
    pub inactive_tenants: Vec<String>,
}

/// Contents of the routing table.
#[derive(Debug, Clone)]
pub struct RoutingTableInspection {
    pub total_routes: u64,
    pub routes: Vec<(String, String)>,
    pub subdomains: Vec<String>,
    pub canister_ids: Vec<String>,
}

/// Both maps, cross-referenced.
#[derive(Debug, Clone)]
pub struct FullSystemInspection {
    pub tenant_registry: TenantRegistryInspection,
    pub routing_table: RoutingTableInspection,
    pub orphaned_routes: Vec<(String, String)>,
    pub orphaned_tenants: Vec<(String, Tenant)>,
    pub data_consistency: bool,
}

/// `r` describes the registry `ts` exactly.
pub open spec fn describes_registry(r: TenantRegistryInspection, ts: Seq<Tenant>) -> bool {
    &&& r.total_tenants == ts.len()
    &&& r.tenants@.len() == ts.len()
    &&& forall|j: int| 0 <= j < ts.len() ==> (#[trigger] r.tenants@[j]).0 == ts[j].id && same_tenant(r.tenants@[j].1, ts[j])
    &&& r.tenant_ids@.len() == ts.len()
    &&& forall|j: int| 0 <= j < ts.len() ==> #[trigger] r.tenant_ids@[j] == ts[j].id
    &&& texts_are(r.active_tenants@, ids_with_status(ts, true))
    &&& texts_are(r.inactive_tenants@, ids_with_status(ts, false))
}

/// `r` describes the routing table `rt` exactly.
pub open spec fn describes_routes(r: RoutingTableInspection, rt: Seq<RouteEntry>) -> bool {
    &&& r.total_routes == rt.len()
    &&& r.routes@.len() == rt.len()
    &&& r.subdomains@.len() == rt.len()
    &&& r.canister_ids@.len() == rt.len()
    &&& forall|i: int| 0 <= i < rt.len() ==> (#[trigger] r.routes@[i]).0 == rt[i].subdomain && r.routes@[i].1 == rt[i].canister_id
    &&& forall|i: int| 0 <= i < rt.len() ==> #[trigger] r.subdomains@[i] == rt[i].subdomain
    &&& forall|i: int| 0 <= i < rt.len() ==> #[trigger] r.canister_ids@[i] == rt[i].canister_id
}

/// `r` describes the registry `ts` visited in the key order `idx`.
pub open spec fn registry_in_order(r: TenantRegistryInspection, ts: Seq<Tenant>, idx: Seq<int>) -> bool {
    key_order(tenant_keys(ts), idx) && describes_registry(r, permuted(ts, idx))
}

/// `r` describes the routing table `rt` visited in the key order `idx`.
pub open spec fn routes_in_order(r: RoutingTableInspection, rt: Seq<RouteEntry>, idx: Seq<int>) -> bool {
    key_order(route_keys(rt), idx) && describes_routes(r, permuted(rt, idx))
}

/// Lists the registry in tenant-id order: its size, its records, their ids,
/// and the ids of the active and of the inactive tenants.
pub fn inspect_tenant_registry(router: &RouterState) -> (r: TenantRegistryInspection)
    requires
        router.wf(),
    ensures
        exists|idx: Seq<int>| #[trigger] registry_in_order(r, router.tenants(), idx),
{
    let ts = router.tenant_records();
    let keys = tenant_keys_of(ts);
    let order = sort_keys(&keys);
    let ghost idx = positions(order@);
    let ghost s = permuted(ts@, idx);
    let mut tenants: Vec<(String, Tenant)> = Vec::new();
    let mut tenant_ids: Vec<String> = Vec::new();
    let mut active: Vec<String> = Vec::new();
    let mut inactive: Vec<String> = Vec::new();
    let mut j: usize = 0;
    while j < order.len()
        invariant
            idx == positions(order@),
            key_order(tenant_keys(ts@), idx),
            s == permuted(ts@, idx),
            j <= s.len(),
            s.len() == order@.len(),
            tenants@.len() == j,
            tenant_ids@.len() == j,
            forall|k: int| 0 <= k < j ==> (#[trigger] tenants@[k]).0 == s[k].id && same_tenant(tenants@[k].1, s[k]),
            forall|k: int| 0 <= k < j ==> #[trigger] tenant_ids@[k] == s[k].id,
            texts_are(active@, ids_with_status(s.take(j as int), true)),
            texts_are(inactive@, ids_with_status(s.take(j as int), false)),
        decreases order.len() - j,
    {
        assert(s.take(j as int + 1).drop_last() =~= s.take(j as int));
        assert(s.take(j as int + 1).last() == s[j as int]);
        assert(idx[j as int] == order@[j as int] as int);
        assert(0 <= idx[j as int] < tenant_keys(ts@).len());
        let t = &ts[order[j]];
        assert(*t == s[j as int]);
        tenants.push((t.id.clone(), t.duplicate()));
        tenant_ids.push(t.id.clone());
        if t.is_active {
            active.push(t.id.clone());
        } else {
            inactive.push(t.id.clone());
        }
        j += 1;
    }
    assert(s.take(s.len() as int) =~= s);
    let r = TenantRegistryInspection {
        total_tenants: ts.len() as u64,
        tenants,
        tenant_ids,
        active_tenants: active,
        inactive_tenants: inactive,
    };
    assert(registry_in_order(r, router.tenants(), idx));
    r
}

/// Lists the routing table in subdomain order: its size, its entries, and
/// their subdomains and instances.
pub fn inspect_routing_table(router: &RouterState) -> (r: RoutingTableInspection)
    requires
        router.wf(),
    ensures
        exists|idx: Seq<int>| #[trigger] routes_in_order(r, router.routes(), idx),
{
    let rt = router.route_entries();
    let keys = route_keys_of(rt);
    let order = sort_keys(&keys);
    let ghost idx = positions(order@);
    let ghost s = permuted(rt@, idx);
    let mut routes: Vec<(String, String)> = Vec::new();
    let mut subdomains: Vec<String> = Vec::new();
    let mut canister_ids: Vec<String> = Vec::new();
    let mut i: usize = 0;
    while i < order.len()
        invariant
            idx == positions(order@),
            key_order(route_keys(rt@), idx),
            s == permuted(rt@, idx),
            i <= s.len(),
            s.len() == order@.len(),
            routes@.len() == i,
            subdomains@.len() == i,
            canister_ids@.len() == i,
            forall|k: int| 0 <= k < i ==> (#[trigger] routes@[k]).0 == s[k].subdomain && routes@[k].1 == s[k].canister_id,
            forall|k: int| 0 <= k < i ==> #[trigger] subdomains@[k] == s[k].subdomain,
            forall|k: int| 0 <= k < i ==> #[trigger] canister_ids@[k] == s[k].canister_id,
        decreases order.len() - i,
    {
        assert(idx[i as int] == order@[i as int] as int);
        assert(0 <= idx[i as int] < route_keys(rt@).len());
        let e = &rt[order[i]];
        assert(*e == s[i as int]);
        routes.push((e.subdomain.clone(), e.canister_id.clone()));
        subdomains.push(e.subdomain.clone());
        canister_ids.push(e.canister_id.clone());
        i += 1;
    }
    let r = RoutingTableInspection { total_routes: rt.len() as u64, routes, subdomains, canister_ids };
    assert(routes_in_order(r, router.routes(), idx));
    r
}

/// No orphaned routes exactly when every route's instance has a record.
pub proof fn lemma_no_orphan_routes(rt: Seq<RouteEntry>, ts: Seq<Tenant>)
    ensures
        (orphan_routes(rt, ts).len() == 0) == (forall|i: int| 0 <= i < rt.len() ==> instance_registered(ts, (#[trigger] rt[i]).canister_id@)),
    decreases rt.len(),
{
    if rt.len() > 0 {
        let d = rt.drop_last();
        lemma_no_orphan_routes(d, ts);
        if orphan_routes(rt, ts).len() == 0 {
            assert(instance_registered(ts, rt.last().canister_id@));
            assert forall|i: int| 0 <= i < rt.len() implies instance_registered(ts, (#[trigger] rt[i]).canister_id@) by {
                if i < rt.len() - 1 {
                    assert(d[i] == rt[i]);
                }
            }
        } else if instance_registered(ts, rt.last().canister_id@) {
            let i = choose|i: int| 0 <= i < d.len() && !instance_registered(ts, (#[trigger] d[i]).canister_id@);
            assert(d[i] == rt[i]);
        } else {
            assert(!instance_registered(ts, rt[rt.len() - 1].canister_id@));
        }
    }
}

/// No orphaned tenants exactly when every record's instance has a route.
pub proof fn lemma_no_orphan_tenants(rt: Seq<RouteEntry>, ts: Seq<Tenant>)
    ensures
        (orphan_tenants(rt, ts).len() == 0) == (forall|j: int| 0 <= j < ts.len() ==> instance_routed(rt, (#[trigger] ts[j]).canister_id@)),
    decreases ts.len(),
{
    if ts.len() > 0 {
        let d = ts.drop_last();
        lemma_no_orphan_tenants(rt, d);
        if orphan_tenants(rt, ts).len() == 0 {
            assert(instance_routed(rt, ts.last().canister_id@));
            assert forall|j: int| 0 <= j < ts.len() implies instance_routed(rt, (#[trigger] ts[j]).canister_id@) by {
                if j < ts.len() - 1 {
                    assert(d[j] == ts[j]);
                }
            }
        } else if instance_routed(rt, ts.last().canister_id@) {
            let j = choose|j: int| 0 <= j < d.len() && !instance_routed(rt, (#[trigger] d[j]).canister_id@);
            assert(d[j] == ts[j]);
        } else {
            assert(!instance_routed(rt, ts[ts.len() - 1].canister_id@));
        }
    }
}

/// The inspection's verdict is the consistency of the two maps: it finds no
/// orphaned route and no orphaned tenant exactly when every route leads to a
/// registered instance and every registered instance has a route.
pub proof fn lemma_consistency_oracle(rt: Seq<RouteEntry>, ts: Seq<Tenant>)
    ensures
        (orphan_routes(rt, ts).len() == 0 && orphan_tenants(rt, ts).len() == 0) == consistent(rt, ts),
{
    lemma_no_orphan_routes(rt, ts);
    lemma_no_orphan_tenants(rt, ts);
}

/// A route added to consistent maps, towards an instance that no tenant
/// record names, is reported as orphaned, and the maps are no longer
/// consistent.
pub proof fn lemma_orphan_route_detected(rt: Seq<RouteEntry>, ts: Seq<Tenant>, entry: RouteEntry)
    requires
        !instance_registered(ts, entry.canister_id@),
    ensures
        orphan_routes(rt.push(entry), ts).last() == entry,
        orphan_routes(rt.push(entry), ts).len() > 0,
        !consistent(rt.push(entry), ts),
{
    assert(rt.push(entry).drop_last() =~= rt);
    assert(rt.push(entry).last() == entry);
    lemma_consistency_oracle(rt.push(entry), ts);
}

/// Cross-references the two maps: routes whose instance has no record,
/// records whose instance has no route, and whether there are none of
/// either.
pub fn inspect_full_system(router: &RouterState) -> (r: FullSystemInspection)
    requires
        router.wf(),
    ensures
        exists|idx: Seq<int>| #[trigger] registry_in_order(r.tenant_registry, router.tenants(), idx),
        exists|idx: Seq<int>| #[trigger] routes_in_order(r.routing_table, router.routes(), idx),
        r.orphaned_routes@.len() == orphan_routes(router.routes(), router.tenants()).len(),
        forall|k: int| 0 <= k < r.orphaned_routes@.len() ==> (#[trigger] r.orphaned_routes@[k]).0@ == orphan_routes(router.routes(), router.tenants())[k].subdomain@
            && r.orphaned_routes@[k].1@ == orphan_routes(router.routes(), router.tenants())[k].canister_id@,
        r.orphaned_tenants@.len() == orphan_tenants(router.routes(), router.tenants()).len(),
        forall|k: int| 0 <= k < r.orphaned_tenants@.len() ==> (#[trigger] r.orphaned_tenants@[k]).0 == orphan_tenants(router.routes(), router.tenants())[k].id
            && same_tenant(r.orphaned_tenants@[k].1, orphan_tenants(router.routes(), router.tenants())[k]),
        r.data_consistency == consistent(router.routes(), router.tenants()),
{
    let rt = router.route_entries();
    let ts = router.tenant_records();
    let ghost srt = rt@;
    let ghost sts = ts@;
    let mut orphaned_routes: Vec<(String, String)> = Vec::new();
    let mut i: usize = 0;
    while i < rt.len()
        invariant
            srt == rt@,
            sts == ts@,
            i <= srt.len(),
            orphaned_routes@.len() == orphan_routes(srt.take(i as int), sts).len(),
            forall|k: int| 0 <= k < orphaned_routes@.len() ==> (#[trigger] orphaned_routes@[k]).0@ == orphan_routes(srt.take(i as int), sts)[k].subdomain@
                && orphaned_routes@[k].1@ == orphan_routes(srt.take(i as int), sts)[k].canister_id@,
        decreases srt.len() - i,
    {
        assert(srt.take(i as int + 1).drop_last() =~= srt.take(i as int));
        assert(srt.take(i as int + 1).last() == srt[i as int]);
        if find_tenant_by_canister(ts, &rt[i].canister_id).is_none() {
            orphaned_routes.push((rt[i].subdomain.clone(), rt[i].canister_id.clone()));
        }
        i += 1;
    }
    assert(srt.take(srt.len() as int) =~= srt);
    let mut orphaned_tenants: Vec<(String, Tenant)> = Vec::new();
    let mut j: usize = 0;
    while j < ts.len()
        invariant
            srt == rt@,
            sts == ts@,
            j <= sts.len(),
            orphaned_tenants@.len() == orphan_tenants(srt, sts.take(j as int)).len(),
            forall|k: int| 0 <= k < orphaned_tenants@.len() ==> (#[trigger] orphaned_tenants@[k]).0 == orphan_tenants(srt, sts.take(j as int))[k].id
                && same_tenant(orphaned_tenants@[k].1, orphan_tenants(srt, sts.take(j as int))[k]),
        decreases sts.len() - j,
    {
        assert(sts.take(j as int + 1).drop_last() =~= sts.take(j as int));
        assert(sts.take(j as int + 1).last() == sts[j as int]);
        if find_route_by_canister(rt, &ts[j].canister_id).is_none() {
            orphaned_tenants.push((ts[j].id.clone(), ts[j].duplicate()));
        }
        j += 1;
    }
    assert(sts.take(sts.len() as int) =~= sts);
    proof {
        lemma_consistency_oracle(srt, sts);
    }
    let data_consistency = orphaned_routes.len() == 0 && orphaned_tenants.len() == 0;
    let tenant_inspection = inspect_tenant_registry(router);
    let routing_inspection = inspect_routing_table(router);
    let ghost i1 = choose|idx: Seq<int>| #[trigger] registry_in_order(tenant_inspection, router.tenants(), idx);
    let ghost i2 = choose|idx: Seq<int>| #[trigger] routes_in_order(routing_inspection, router.routes(), idx);
    let r = FullSystemInspection {
        tenant_registry: tenant_inspection,
        routing_table: routing_inspection,
        orphaned_routes,
        orphaned_tenants,
        data_consistency,
    };
    assert(registry_in_order(r.tenant_registry, router.tenants(), i1));
    assert(routes_in_order(r.routing_table, router.routes(), i2));
    r
}

} // verus!

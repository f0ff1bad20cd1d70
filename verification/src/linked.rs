//! Registry of linked entities: platform entities sharing one shape, a
//! `(name, kind, version, metadata)` row joined to applications with a usage
//! (infrastructure, tools, cloud providers, services, platforms, external).

use vstd::prelude::*;
use crate::text::str_eq;

verus! {

broadcast use vstd::string::group_string_axioms;

/// One linked entity: its route name and the tables backing it.
#[derive(Debug, Clone, Copy)]
pub struct LinkedEntity {
    /// Route/entity name used in URLs and the analysis schema array.
    pub name: &'static str,
    /// Entity table holding the `(name, kind, version, metadata)` rows.
    pub table: &'static str,
    /// Join table linking the entity to applications.
    pub join_table: &'static str,
    /// Foreign-key column in the join table referencing the entity.
    pub fk_col: &'static str,
}

/// An entity's four names.
pub open spec fn entity_view(e: LinkedEntity) -> (Seq<char>, Seq<char>, Seq<char>, Seq<char>) {
    (e.name@, e.table@, e.join_table@, e.fk_col@)
}

/// Every linked entity, in tab/display order.
pub open spec fn linked_registry() -> Seq<(Seq<char>, Seq<char>, Seq<char>, Seq<char>)> {
    seq![
        ("infrastructure"@, "infrastructure"@, "application_infrastructure"@, "infrastructure_id"@),
        ("tools"@, "tools"@, "application_tools"@, "tool_id"@),
        ("cloud-providers"@, "cloud_providers"@, "application_cloud_providers"@, "cloud_provider_id"@),
        ("services"@, "services"@, "application_services"@, "service_id"@),
        ("platforms"@, "platforms"@, "application_platforms"@, "platform_id"@),
        ("external"@, "external_deps"@, "application_external_deps"@, "external_dep_id"@),
    ]
}

/// The first registry entry with the given route name.
pub open spec fn find_linked(
    reg: Seq<(Seq<char>, Seq<char>, Seq<char>, Seq<char>)>,
    name: Seq<char>,
) -> Option<(Seq<char>, Seq<char>, Seq<char>, Seq<char>)>
    decreases reg.len(),
{
    if reg.len() == 0 {
        None
    } else if reg[0].0 == name {
        Some(reg[0])
    } else {
        find_linked(reg.drop_first(), name)
    }
}

/// The registry entry for a route name.
pub open spec fn linked_spec(name: Seq<char>) -> Option<(Seq<char>, Seq<char>, Seq<char>, Seq<char>)> {
    find_linked(linked_registry(), name)
}

fn entity(name: &'static str, table: &'static str, join_table: &'static str, fk_col: &'static str) -> (e: LinkedEntity)
    ensures
        entity_view(e) == (name@, table@, join_table@, fk_col@),
{
    LinkedEntity { name, table, join_table, fk_col }
}

/// Every linked entity, in tab/display order.
pub fn linked_entities() -> (r: Vec<LinkedEntity>)
    ensures
        r@.map_values(|e: LinkedEntity| entity_view(e)) == linked_registry(),
{
    let mut r: Vec<LinkedEntity> = Vec::new();
    r.push(entity("infrastructure", "infrastructure", "application_infrastructure", "infrastructure_id"));
    r.push(entity("tools", "tools", "application_tools", "tool_id"));
    r.push(entity("cloud-providers", "cloud_providers", "application_cloud_providers", "cloud_provider_id"));
    r.push(entity("services", "services", "application_services", "service_id"));
    r.push(entity("platforms", "platforms", "application_platforms", "platform_id"));
    r.push(entity("external", "external_deps", "application_external_deps", "external_dep_id"));
    assert(r@.map_values(|e: LinkedEntity| entity_view(e)) == linked_registry());
    r
}

/// Looks up a linked entity by its route name.
pub fn linked(name: &str) -> (r: Option<LinkedEntity>)
    ensures
        match r {
            Some(e) => linked_spec(name@) == Some(entity_view(e)),
            None => linked_spec(name@) is None,
        },
{
    let all = linked_entities();
    let ghost reg = linked_registry();
    let mut i: usize = 0;
    assert(reg.skip(0) == reg);
    while i < all.len()
        invariant
            i <= all@.len(),
            all@.map_values(|e: LinkedEntity| entity_view(e)) == reg,
            reg == linked_registry(),
            linked_spec(name@) == find_linked(reg.skip(i as int), name@),
        decreases all.len() - i,
    {
        let e = all[i];
        assert(reg[i as int] == entity_view(e));
        assert(reg.skip(i as int)[0] == reg[i as int]);
        if str_eq(e.name, name) {
            return Some(e);
        }
        assert(reg.skip(i as int).drop_first() == reg.skip(i + 1));
        i = i + 1;
    }
    None
}

} // verus!

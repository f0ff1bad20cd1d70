//! The PostgreSQL statements of the platform read layer: list and detail
//! queries returning each row as JSON, with the linked-entity registry
//! expanded into per-entity sub-selects.

use vstd::prelude::*;
use crate::linked::{LinkedEntity, entity_view, linked_entities, linked_registry};
use crate::text::{chars_of, decimal, decimal_chars, join, join_chars, push_all, push_str, seqs_of, string_of};

verus! {

/// Fixed text of the statement (part 0).
pub const APPS_LIST_0: &'static str = "SELECT to_jsonb(t) FROM (SELECT a.id, a.name, a.app_type, a.primary_language, (SELECT COUNT(*) FROM application_libraries al WHERE al.application_id=a.id) AS libraries, (SELECT COUNT(*) FROM application_infrastructure ai WHERE ai.application_id=a.id) AS infrastructure, (SELECT COUNT(*) FROM application_dependencies d WHERE d.source_app_id=a.id) AS dependencies FROM applications a WHERE ($1 = '' OR a.name ILIKE '%'||$1||'%')";

/// Fixed text of the statement (part 1).
pub const APPS_LIST_1: &'static str = " ORDER BY a.name LIMIT $2 OFFSET $3) t";

/// Fixed text of the statement (part 0).
pub const LIBS_LIST_0: &'static str = "SELECT to_jsonb(t) FROM (SELECT l.id, l.name, l.ecosystem, l.metadata, (SELECT COUNT(*) FROM library_versions v WHERE v.library_id=l.id) AS versions, (SELECT COUNT(DISTINCT al.application_id) FROM library_versions v JOIN application_libraries al ON al.library_version_id=v.id WHERE v.library_id=l.id) AS applications FROM libraries l WHERE ($1 = '' OR l.name ILIKE '%'||$1||'%')";

/// Fixed text of the statement (part 1).
pub const LIBS_LIST_1: &'static str = " ORDER BY l.name LIMIT $2 OFFSET $3) t";

/// Fixed text of the statement (part 0).
pub const LINKED_LIST_0: &'static str = "SELECT to_jsonb(t) FROM (SELECT i.id, i.name, i.kind, i.version, i.metadata, (SELECT COUNT(*) FROM ";

/// Fixed text of the statement (part 1).
pub const LINKED_LIST_1: &'static str = " ai WHERE ai.";

/// Fixed text of the statement (part 2).
pub const LINKED_LIST_2: &'static str = "=i.id) AS applications FROM ";

/// Fixed text of the statement (part 3).
pub const LINKED_LIST_3: &'static str = " i WHERE ($1 = '' OR i.name ILIKE '%'||$1||'%')";

/// Fixed text of the statement (part 4).
pub const LINKED_LIST_4: &'static str = " ORDER BY i.name LIMIT $2 OFFSET $3) t";

/// Fixed text of the statement (part 0).
pub const LINKED_DETAIL_0: &'static str = "SELECT to_jsonb(t) FROM (SELECT i.id, i.name, i.kind, i.version, i.metadata, (SELECT json_agg(json_build_object('id', a.id, 'name', a.name, 'usage', ai.usage)) FROM ";

/// Fixed text of the statement (part 1).
pub const LINKED_DETAIL_1: &'static str = " ai JOIN applications a ON a.id=ai.application_id WHERE ai.";

/// Fixed text of the statement (part 2).
pub const LINKED_DETAIL_2: &'static str = "=i.id) AS applications FROM ";

/// Fixed text of the statement (part 3).
pub const LINKED_DETAIL_3: &'static str = " i WHERE i.id=$1) t";

/// Fixed text of the statement (part 0).
pub const APP_LINKED_SELECT_0: &'static str = ", (SELECT json_agg(json_build_object('id', x.id, 'name', x.name, 'kind', x.kind, 'version', x.version, 'usage', j.usage)) FROM ";

/// Fixed text of the statement (part 1).
pub const APP_LINKED_SELECT_1: &'static str = " j JOIN ";

/// Fixed text of the statement (part 2).
pub const APP_LINKED_SELECT_2: &'static str = " x ON x.id=j.";

/// Fixed text of the statement (part 3).
pub const APP_LINKED_SELECT_3: &'static str = " WHERE j.application_id=a.id) AS \"";

/// Fixed text of the statement (part 4).
pub const APP_LINKED_SELECT_4: &'static str = "\"";

/// Fixed text of the statement (part 0).
pub const APP_DETAIL_0: &'static str = "SELECT to_jsonb(t) FROM (SELECT a.id, a.name, a.app_type, a.description, a.primary_language, a.metadata, (SELECT json_agg(json_build_object('name', l.name, 'percentage', al.percentage)) FROM application_languages al JOIN languages l ON l.id=al.language_id WHERE al.application_id=a.id) AS languages, (SELECT json_agg(json_build_object('id', lib.id, 'name', lib.name, 'ecosystem', lib.ecosystem, 'version', v.version, 'scope', al.scope, 'metadata', lib.metadata)) FROM application_libraries al JOIN library_versions v ON v.id=al.library_version_id JOIN libraries lib ON lib.id=v.library_id WHERE al.application_id=a.id) AS libraries, (SELECT json_agg(json_build_object('target_name', d.target_name, 'kind', d.kind, 'description', d.description, 'target_app_id', ta.id, 'component_id', co.id, 'component_name', co.name)) FROM application_dependencies d LEFT JOIN applications ta ON ta.name=d.target_name LEFT JOIN components co ON co.id=d.component_id WHERE d.source_app_id=a.id) AS dependencies, (SELECT json_agg(json_build_object('principal_type', g.principal_type, 'access_level', g.access_level, 'association_type', g.association_type, 'permissions', g.permissions, 'principal_name', CASE WHEN g.principal_type='user' THEN u.username ELSE grp.name END)) FROM access_grants g LEFT JOIN users u ON g.principal_type='user' AND u.id=g.principal_id LEFT JOIN groups grp ON g.principal_type='group' AND grp.id=g.principal_id WHERE g.application_id=a.id) AS access, (SELECT json_agg(json_build_object('id', c.id, 'name', c.name, 'kind', c.kind, 'description', c.description, 'metadata', c.metadata, 'observability_signals', (SELECT json_agg(json_build_object('id', s.id, 'name', s.name, 'kind', s.kind, 'description', s.description)) FROM observability_signals s WHERE s.component_id=c.id))) FROM components c WHERE c.application_id=a.id) AS components, (SELECT json_agg(json_build_object('id', uc.id, 'name', uc.name, 'description', uc.description, 'metadata', uc.metadata, 'components', (SELECT json_agg(json_build_object('id', cc.id, 'name', cc.name)) FROM use_case_components ucc JOIN components cc ON cc.id=ucc.component_id WHERE ucc.use_case_id=uc.id), 'diagrams', (SELECT json_agg(json_build_object('id', dg.id, 'name', dg.name, 'kind', dg.kind, 'description', dg.description, 'content', dg.content)) FROM diagrams dg WHERE dg.use_case_id=uc.id))) FROM use_cases uc WHERE uc.application_id=a.id) AS use_cases";

/// Fixed text of the statement (part 1).
pub const APP_DETAIL_1: &'static str = " FROM applications a WHERE a.id=$1) t";
/// The applications list statement with an extra filter clause.
pub open spec fn apps_list_text(filter: Seq<char>) -> Seq<char> {
    APPS_LIST_0@ + filter + APPS_LIST_1@
}

/// The applications list statement (search, page size, offset, then the
/// filter values as parameters).
pub fn apps_list_sql(filter: &str) -> (r: String)
    ensures
        r@ == apps_list_text(filter@),
{
    let mut s: Vec<char> = Vec::new();
    push_str(&mut s, APPS_LIST_0);
    push_str(&mut s, filter);
    push_str(&mut s, APPS_LIST_1);
    string_of(&s)
}

/// The libraries list statement with an extra filter clause.
pub open spec fn libs_list_text(filter: Seq<char>) -> Seq<char> {
    LIBS_LIST_0@ + filter + LIBS_LIST_1@
}

/// The libraries list statement.
pub fn libs_list_sql(filter: &str) -> (r: String)
    ensures
        r@ == libs_list_text(filter@),
{
    let mut s: Vec<char> = Vec::new();
    push_str(&mut s, LIBS_LIST_0);
    push_str(&mut s, filter);
    push_str(&mut s, LIBS_LIST_1);
    string_of(&s)
}

/// The list statement of a linked entity with an extra filter clause.
pub open spec fn linked_list_text(e: (Seq<char>, Seq<char>, Seq<char>, Seq<char>), filter: Seq<char>) -> Seq<char> {
    LINKED_LIST_0@ + e.2 + LINKED_LIST_1@ + e.3 + LINKED_LIST_2@ + e.1 + LINKED_LIST_3@ + filter + LINKED_LIST_4@
}

/// The list statement of a linked entity.
pub fn linked_list_sql(e: &LinkedEntity, filter: &str) -> (r: String)
    ensures
        r@ == linked_list_text(entity_view(*e), filter@),
{
    let mut s: Vec<char> = Vec::new();
    push_str(&mut s, LINKED_LIST_0);
    push_str(&mut s, e.join_table);
    push_str(&mut s, LINKED_LIST_1);
    push_str(&mut s, e.fk_col);
    push_str(&mut s, LINKED_LIST_2);
    push_str(&mut s, e.table);
    push_str(&mut s, LINKED_LIST_3);
    push_str(&mut s, filter);
    push_str(&mut s, LINKED_LIST_4);
    string_of(&s)
}

/// The detail statement of a linked entity: the entity and the applications
/// using it.
pub open spec fn linked_detail_text(e: (Seq<char>, Seq<char>, Seq<char>, Seq<char>)) -> Seq<char> {
    LINKED_DETAIL_0@ + e.2 + LINKED_DETAIL_1@ + e.3 + LINKED_DETAIL_2@ + e.1 + LINKED_DETAIL_3@
}

/// The detail statement of a linked entity.
pub fn linked_detail_sql(e: &LinkedEntity) -> (r: String)
    ensures
        r@ == linked_detail_text(entity_view(*e)),
{
    let mut s: Vec<char> = Vec::new();
    push_str(&mut s, LINKED_DETAIL_0);
    push_str(&mut s, e.join_table);
    push_str(&mut s, LINKED_DETAIL_1);
    push_str(&mut s, e.fk_col);
    push_str(&mut s, LINKED_DETAIL_2);
    push_str(&mut s, e.table);
    push_str(&mut s, LINKED_DETAIL_3);
    string_of(&s)
}

/// The sub-select of one linked entity in the application detail, named by
/// the entity's registry name.
pub open spec fn linked_select_text(e: (Seq<char>, Seq<char>, Seq<char>, Seq<char>)) -> Seq<char> {
    APP_LINKED_SELECT_0@ + e.2 + APP_LINKED_SELECT_1@ + e.1 + APP_LINKED_SELECT_2@ + e.3 + APP_LINKED_SELECT_3@
        + e.0 + APP_LINKED_SELECT_4@
}

/// The sub-select of one linked entity.
fn linked_select(e: &LinkedEntity) -> (r: Vec<char>)
    ensures
        r@ == linked_select_text(entity_view(*e)),
{
    let mut s: Vec<char> = Vec::new();
    push_str(&mut s, APP_LINKED_SELECT_0);
    push_str(&mut s, e.join_table);
    push_str(&mut s, APP_LINKED_SELECT_1);
    push_str(&mut s, e.table);
    push_str(&mut s, APP_LINKED_SELECT_2);
    push_str(&mut s, e.fk_col);
    push_str(&mut s, APP_LINKED_SELECT_3);
    push_str(&mut s, e.name);
    push_str(&mut s, APP_LINKED_SELECT_4);
    s
}

/// The sub-selects of the registry entities, in order.
pub open spec fn linked_selects_text(reg: Seq<(Seq<char>, Seq<char>, Seq<char>, Seq<char>)>) -> Seq<char>
    decreases reg.len(),
{
    if reg.len() == 0 {
        Seq::empty()
    } else {
        linked_selects_text(reg.drop_last()) + linked_select_text(reg.last())
    }
}

/// The application detail statement: the application with its languages,
/// libraries, dependencies, access, components and use cases, and one
/// sub-select per linked entity.
pub open spec fn app_detail_text() -> Seq<char> {
    APP_DETAIL_0@ + linked_selects_text(linked_registry()) + APP_DETAIL_1@
}

/// The application detail statement.
pub fn app_detail_sql() -> (r: String)
    ensures
        r@ == app_detail_text(),
{
    let reg = linked_entities();
    let ghost rv = reg@.map_values(|e: LinkedEntity| entity_view(e));
    let mut s: Vec<char> = Vec::new();
    push_str(&mut s, APP_DETAIL_0);
    let ghost head = s@;
    let mut i: usize = 0;
    while i < reg.len()
        invariant
            i <= reg@.len(),
            rv == reg@.map_values(|e: LinkedEntity| entity_view(e)),
            s@ == head + linked_selects_text(rv.take(i as int)),
        decreases reg.len() - i,
    {
        let e = reg[i];
        let sel = linked_select(&e);
        let ghost before = s@;
        crate::text::push_all(&mut s, &sel);
        assert(s@ == head + (linked_selects_text(rv.take(i as int)) + linked_select_text(entity_view(e))));
        assert(rv.take(i + 1).drop_last() == rv.take(i as int));
        assert(rv.take(i + 1).last() == entity_view(e));
        i = i + 1;
    }
    assert(rv.take(reg@.len() as int) == rv);
    push_str(&mut s, APP_DETAIL_1);
    string_of(&s)
}

/// Marks every current member of an application as an ex-member.
pub const EX_MEMBERS_ALL: &'static str = "UPDATE access_grants SET association_type='ex_member' WHERE application_id=$1 AND association_type='member'";

/// Marks the members of an application outside a list as ex-members (the
/// list's placeholders follow).
pub const EX_MEMBERS_EXCEPT: &'static str = "UPDATE access_grants SET association_type='ex_member' WHERE application_id=$1 AND association_type='member' AND principal_id NOT IN (";

/// The placeholders `$2` to `$(n + 1)`.
pub open spec fn placeholders(n: nat) -> Seq<Seq<char>> {
    Seq::new(n, |i: int| seq!['$'] + decimal((i + 2) as nat))
}

/// The statement that turns members no longer present into ex-members:
/// every member when there are no current ones, else those whose id is not
/// among the `current` placeholders.
pub open spec fn ex_members_text(current: nat) -> Seq<char> {
    if current == 0 {
        EX_MEMBERS_ALL@
    } else {
        EX_MEMBERS_EXCEPT@ + join(placeholders(current), ","@) + ")"@
    }
}

/// Builds the ex-member update for `current` current members.
pub fn ex_members_sql(current: usize) -> (r: String)
    requires
        current < u64::MAX - 2,
    ensures
        r@ == ex_members_text(current as nat),
{
    if current == 0 {
        return String::from_str(EX_MEMBERS_ALL);
    }
    let mut parts: Vec<Vec<char>> = Vec::new();
    let mut i: usize = 0;
    while i < current
        invariant
            i <= current < u64::MAX - 2,
            seqs_of(parts@) == placeholders(i as nat),
        decreases current - i,
    {
        let mut p: Vec<char> = Vec::new();
        p.push('$');
        push_all(&mut p, &decimal_chars((i as u64) + 2));
        let ghost before = parts@;
        parts.push(p);
        assert(seqs_of(parts@) == seqs_of(before).push(p@));
        assert(placeholders((i + 1) as nat) == placeholders(i as nat).push(seq!['$'] + decimal((i + 2) as nat)));
        i = i + 1;
    }
    let mut s: Vec<char> = Vec::new();
    push_str(&mut s, EX_MEMBERS_EXCEPT);
    push_all(&mut s, &join_chars(&parts, &chars_of(",")));
    push_str(&mut s, ")");
    string_of(&s)
}

} // verus!

//! Operator roles (least to most privileged), role parsing that fails closed,
//! and the access decisions of the RBAC service: effective role, mutation
//! gating by team ownership, and tenant scoping of visible applications.
//! Identifiers of teams and applications are the 128-bit values of their
//! UUIDs.

use vstd::prelude::*;
use crate::text::{ascii_lower_chars, ascii_lower_seq, chars_eq, chars_of, trim, trimmed};

verus! {

broadcast use vstd::string::group_string_axioms;

/// Operator role, ordered least to most privileged.
#[derive(Debug, Clone, Copy, PartialEq, Eq, Structural, PartialOrd, Ord)]
pub enum Role {
    Viewer,
    Maintainer,
    Admin,
}

/// The privilege rank of a role (the order of the variants).
pub open spec fn rank(r: Role) -> int {
    match r {
        Role::Viewer => 0,
        Role::Maintainer => 1,
        Role::Admin => 2,
    }
}

/// The stored name of a role.
pub open spec fn role_name(r: Role) -> Seq<char> {
    match r {
        Role::Viewer => "viewer"@,
        Role::Maintainer => "maintainer"@,
        Role::Admin => "admin"@,
    }
}

/// The role a raw string names: trimmed and ASCII-lowercased, `admin` or
/// `maintainer`; anything else is `Viewer` (fail closed).
pub open spec fn parsed_role(raw: Seq<char>) -> Role {
    let t = ascii_lower_seq(trim(raw));
    if t == "admin"@ {
        Role::Admin
    } else if t == "maintainer"@ {
        Role::Maintainer
    } else {
        Role::Viewer
    }
}

/// The more privileged of two roles.
pub open spec fn max_role(a: Role, b: Role) -> Role {
    if rank(a) >= rank(b) {
        a
    } else {
        b
    }
}

/// The highest role named in a role list (`Viewer` for an empty list).
pub open spec fn highest_of(roles: Seq<Seq<char>>) -> Role
    decreases roles.len(),
{
    if roles.len() == 0 {
        Role::Viewer
    } else {
        max_role(highest_of(roles.drop_last()), parsed_role(roles.last()))
    }
}

/// The character views of a list of strings.
pub open spec fn views(v: Seq<String>) -> Seq<Seq<char>> {
    v.map_values(|s: String| s@)
}

impl Role {
    /// The privilege rank, as a number.
    pub fn level(&self) -> (n: u8)
        ensures
            n == rank(*self),
    {
        match self {
            Role::Viewer => 0,
            Role::Maintainer => 1,
            Role::Admin => 2,
        }
    }

    /// Whether this role is at least as privileged as `min`.
    pub fn at_least(&self, min: Role) -> (b: bool)
        ensures
            b == (rank(*self) >= rank(min)),
    {
        self.level() >= min.level()
    }

    /// The stored name of the role.
    pub fn as_str(&self) -> (s: &'static str)
        ensures
            s@ == role_name(*self),
    {
        match self {
            Role::Viewer => "viewer",
            Role::Maintainer => "maintainer",
            Role::Admin => "admin",
        }
    }

    /// Parses a role string, defaulting unknown values to the
    /// least-privileged `Viewer` (fail closed).
    pub fn parse(raw: &str) -> (r: Role)
        ensures
            r == parsed_role(raw@),
    {
        let t = ascii_lower_chars(&trimmed(&chars_of(raw)));
        let admin = chars_of("admin");
        let maintainer = chars_of("maintainer");
        if chars_eq(&t, &admin) {
            Role::Admin
        } else if chars_eq(&t, &maintainer) {
            Role::Maintainer
        } else {
            Role::Viewer
        }
    }

    /// The highest role named in a principal's role list (default `Viewer`).
    pub fn highest(roles: &[String]) -> (r: Role)
        ensures
            r == highest_of(views(roles@)),
    {
        let mut best = Role::Viewer;
        let mut i: usize = 0;
        assert(views(roles@).take(0) == Seq::<Seq<char>>::empty());
        while i < roles.len()
            invariant
                i <= roles@.len(),
                best == highest_of(views(roles@).take(i as int)),
            decreases roles.len() - i,
        {
            let r = Role::parse(roles[i].as_str());
            assert(views(roles@).take(i + 1).drop_last() == views(roles@).take(i as int));
            if r.level() > best.level() {
                best = r;
            }
            i = i + 1;
        }
        assert(views(roles@).take(roles.len() as int) == views(roles@));
        best
    }
}

/// The highest role of a list is at least every role it names, and is one of
/// them (or `Viewer` for an empty list).
pub proof fn lemma_highest_is_max(roles: Seq<Seq<char>>)
    ensures
        forall|i: int| 0 <= i < roles.len() ==> rank(highest_of(roles)) >= rank(
            #[trigger] parsed_role(roles[i]),
        ),
        highest_of(roles) == Role::Viewer || exists|i: int|
            0 <= i < roles.len() && highest_of(roles) == parsed_role(roles[i]),
    decreases roles.len(),
{
    if roles.len() > 0 {
        let init = roles.drop_last();
        lemma_highest_is_max(init);
        assert forall|i: int| 0 <= i < roles.len() implies rank(highest_of(roles)) >= rank(
            #[trigger] parsed_role(roles[i]),
        ) by {
            if i < roles.len() - 1 {
                assert(init[i] == roles[i]);
            }
        }
        if highest_of(roles) != Role::Viewer {
            if highest_of(roles) == parsed_role(roles.last()) {
                assert(roles.last() == roles[roles.len() - 1]);
            } else {
                let j = choose|j: int| 0 <= j < init.len() && highest_of(init) == parsed_role(init[j]);
                assert(init[j] == roles[j]);
            }
        }
    }
}

/// Whether the route guard lets a caller through: a signed-in principal whose
/// highest role meets `min` (no principal is refused).
pub fn role_guard_allows(roles: Option<&[String]>, min: Role) -> (b: bool)
    ensures
        b == match roles {
            Some(r) => rank(highest_of(views(r@))) >= rank(min),
            None => false,
        },
{
    match roles {
        Some(r) => Role::highest(r).at_least(min),
        None => false,
    }
}

/// The effective role decided without the assignment count: an explicit
/// assignment wins; the bootstrap admin is always admin; otherwise `None`
/// (the answer depends on whether any role is assigned at all).
pub fn role_before_count(explicit: Option<Role>, bootstrap_admin: Option<&str>, username: &str) -> (r: Option<Role>)
    ensures
        r == match explicit {
            Some(role) => Some(role),
            None => match bootstrap_admin {
                Some(b) => if b@ == username@ {
                    Some(Role::Admin)
                } else {
                    None
                },
                None => None,
            },
        },
{
    if let Some(role) = explicit {
        return Some(role);
    }
    match bootstrap_admin {
        Some(b) => {
            if crate::text::str_eq(b, username) {
                Some(Role::Admin)
            } else {
                None
            }
        },
        None => None,
    }
}

/// The effective role of an unassigned, non-bootstrap principal: admin while
/// no role is assigned to anyone (first-admin bootstrap), else viewer.
pub fn role_from_count(assigned: i64) -> (r: Role)
    ensures
        r == if assigned == 0 {
            Role::Admin
        } else {
            Role::Viewer
        },
{
    if assigned == 0 {
        Role::Admin
    } else {
        Role::Viewer
    }
}

/// The first step of a mutation check.
#[derive(Debug, Clone, Copy, PartialEq, Eq, Structural)]
pub enum MutationGate {
    /// Admins may always mutate.
    Allowed,
    /// Below maintainer: never.
    Denied,
    /// Maintainers: only applications a team of theirs owns.
    NeedsOwnership,
}

/// The mutation decision from a principal's roles alone.
pub fn mutation_gate(roles: &[String]) -> (g: MutationGate)
    ensures
        g == if rank(highest_of(views(roles@))) >= rank(Role::Admin) {
            MutationGate::Allowed
        } else if rank(highest_of(views(roles@))) < rank(Role::Maintainer) {
            MutationGate::Denied
        } else {
            MutationGate::NeedsOwnership
        },
{
    let role = Role::highest(roles);
    if role.at_least(Role::Admin) {
        MutationGate::Allowed
    } else if !role.at_least(Role::Maintainer) {
        MutationGate::Denied
    } else {
        MutationGate::NeedsOwnership
    }
}

/// Whether any team of the principal owns the application.
pub fn shares_team(owner_team_ids: &[u128], principal_team_ids: &[u128]) -> (b: bool)
    ensures
        b == exists|i: int| 0 <= i < principal_team_ids@.len() && owner_team_ids@.contains(
            #[trigger] principal_team_ids@[i],
        ),
{
    let mut i: usize = 0;
    while i < principal_team_ids.len()
        invariant
            i <= principal_team_ids@.len(),
            forall|j: int| 0 <= j < i ==> !owner_team_ids@.contains(#[trigger] principal_team_ids@[j]),
        decreases principal_team_ids.len() - i,
    {
        if contains_id(owner_team_ids, principal_team_ids[i]) {
            return true;
        }
        i = i + 1;
    }
    false
}

/// Whether `id` is in `ids`.
pub fn contains_id(ids: &[u128], id: u128) -> (b: bool)
    ensures
        b == ids@.contains(id),
{
    let mut i: usize = 0;
    while i < ids.len()
        invariant
            i <= ids@.len(),
            forall|j: int| 0 <= j < i ==> ids@[j] != id,
        decreases ids.len() - i,
    {
        if ids[i] == id {
            return true;
        }
        i = i + 1;
    }
    false
}

/// Whether a principal's view of applications is scoped to its tenants:
/// only with multi-tenancy on, and never for admins.
pub fn tenant_scoped(multitenant: bool, roles: &[String]) -> (b: bool)
    ensures
        b == (multitenant && rank(highest_of(views(roles@))) < rank(Role::Admin)),
{
    multitenant && !Role::highest(roles).at_least(Role::Admin)
}

/// Appends `id` unless already present.
fn push_unique(r: &mut Vec<u128>, id: u128)
    requires
        old(r)@.no_duplicates(),
    ensures
        final(r)@.no_duplicates(),
        forall|x: u128| #[trigger] final(r)@.contains(x) <==> (old(r)@.contains(x) || x == id),
{
    let ghost r0 = r@;
    if !contains_id(r, id) {
        r.push(id);
        assert forall|x: u128| #[trigger] r@.contains(x) <==> (r0.contains(x) || x == id) by {
            if r@.contains(x) {
                let k = choose|k: int| 0 <= k < r@.len() && r@[k] == x;
                if k < r0.len() {
                    assert(r0[k] == x);
                }
            }
            if r0.contains(x) {
                let k = choose|k: int| 0 <= k < r0.len() && r0[k] == x;
                assert(r@[k] == x);
            }
            if x == id {
                assert(r@[r0.len() as int] == id);
            }
        }
    }
}

/// The union of several id lists, without duplicates.
pub fn union_ids(lists: &[Vec<u128>]) -> (r: Vec<u128>)
    ensures
        r@.no_duplicates(),
        forall|id: u128| #[trigger] r@.contains(id) <==> exists|i: int|
            0 <= i < lists@.len() && (#[trigger] lists@[i])@.contains(id),
{
    let mut r: Vec<u128> = Vec::new();
    let mut i: usize = 0;
    while i < lists.len()
        invariant
            i <= lists@.len(),
            r@.no_duplicates(),
            forall|id: u128| #[trigger] r@.contains(id) <==> exists|k: int|
                0 <= k < i && (#[trigger] lists@[k])@.contains(id),
        decreases lists.len() - i,
    {
        let l = &lists[i];
        let mut j: usize = 0;
        let ghost before = r@;
        while j < l.len()
            invariant
                i < lists@.len(),
                *l == lists@[i as int],
                j <= l@.len(),
                r@.no_duplicates(),
                forall|id: u128| #[trigger] r@.contains(id) <==> (before.contains(id) || l@.take(
                    j as int,
                ).contains(id)),
            decreases l.len() - j,
        {
            let ghost r0 = r@;
            push_unique(&mut r, l[j]);
            assert forall|x: u128| #[trigger] r@.contains(x) <==> (before.contains(x) || l@.take(
                j + 1,
            ).contains(x)) by {
                assert(l@.take(j + 1) == l@.take(j as int).push(l@[j as int]));
                if l@.take(j + 1).contains(x) {
                    let m = choose|m: int| 0 <= m < j + 1 && #[trigger] l@.take(j + 1)[m] == x;
                    if m < j {
                        assert(l@.take(j as int)[m] == x);
                    }
                }
                if l@.take(j as int).contains(x) {
                    let m = choose|m: int| 0 <= m < j && #[trigger] l@.take(j as int)[m] == x;
                    assert(l@.take(j + 1)[m] == x);
                }
                assert(r0.contains(x) <==> (before.contains(x) || l@.take(j as int).contains(x)));
                if x == l@[j as int] {
                    assert(l@.take(j + 1)[j as int] == x);
                }
            }
            j = j + 1;
        }
        assert(l@.take(l@.len() as int) == l@);
        assert forall|id: u128| #[trigger] r@.contains(id) <==> exists|k: int|
            0 <= k < i + 1 && (#[trigger] lists@[k])@.contains(id) by {
            if r@.contains(id) {
                if before.contains(id) {
                    let k = choose|k: int| 0 <= k < i && (#[trigger] lists@[k])@.contains(id);
                    assert(0 <= k < i + 1 && lists@[k]@.contains(id));
                } else {
                    assert(lists@[i as int]@.contains(id));
                }
            }
            if exists|k: int| 0 <= k < i + 1 && (#[trigger] lists@[k])@.contains(id) {
                let k = choose|k: int| 0 <= k < i + 1 && (#[trigger] lists@[k])@.contains(id);
                if k < i {
                    assert(before.contains(id));
                }
            }
        }
        i = i + 1;
    }
    r
}

/// A team that can own applications.
#[derive(Debug, Clone)]
pub struct Team {
    pub id: u128,
    pub name: String,
    pub tenant_id: Option<String>,
}

/// Fields to create a team.
#[derive(Debug, Clone)]
pub struct TeamInput {
    pub name: String,
    pub tenant_id: Option<String>,
}

/// The names of the teams owning an application, in team-list order.
pub open spec fn owner_names(teams: Seq<Team>, owners: Seq<u128>) -> Seq<Seq<char>>
    decreases teams.len(),
{
    if teams.len() == 0 {
        Seq::empty()
    } else if owners.contains(teams.last().id) {
        owner_names(teams.drop_last(), owners).push(teams.last().name@)
    } else {
        owner_names(teams.drop_last(), owners)
    }
}

/// The names of the listed teams that own the application.
pub fn owner_team_names(teams: &[Team], owner_team_ids: &[u128]) -> (r: Vec<String>)
    ensures
        views(r@) == owner_names(teams@, owner_team_ids@),
{
    let mut r: Vec<String> = Vec::new();
    let mut i: usize = 0;
    while i < teams.len()
        invariant
            i <= teams@.len(),
            views(r@) == owner_names(teams@.take(i as int), owner_team_ids@),
        decreases teams.len() - i,
    {
        assert(teams@.take(i + 1).drop_last() == teams@.take(i as int));
        assert(teams@.take(i + 1).last() == teams@[i as int]);
        let ghost before = r@;
        if contains_id(owner_team_ids, teams[i].id) {
            r.push(teams[i].name.clone());
            assert(r@ == before.push(teams@[i as int].name));
            assert(views(r@) == views(before).push(teams@[i as int].name@));
        }
        i = i + 1;
    }
    assert(teams@.take(teams.len() as int) == teams@);
    r
}

} // verus!

//! Delivery events: resolving the application of a deploy event, and
//! selecting the applications of the fleet report with their events.

use vstd::prelude::*;
use crate::text::str_eq;

verus! {

/// The environment of a deploy event that names none.
pub const DEFAULT_ENVIRONMENT: &'static str = "production";

/// How a deploy event names its application.
pub enum DeployTarget {
    /// By the application's id.
    Application(u128),
    /// By the full name of one of its repositories.
    Repository(String),
}

/// Why the application of a deploy event cannot be found.
#[derive(Debug, Clone, Copy, PartialEq, Eq, Structural)]
pub enum ResolveError {
    /// The event names neither an application nor a repository (a bad
    /// request).
    Missing,
    /// No repository has the full name (not found).
    UnknownRepository,
    /// The repository belongs to no application (not found).
    UnmappedRepository,
}

/// The text of each resolution error.
pub open spec fn resolve_error_text(e: ResolveError) -> Seq<char> {
    match e {
        ResolveError::Missing => "application_id or repository_full_name is required"@,
        ResolveError::UnknownRepository => "repository"@,
        ResolveError::UnmappedRepository => "application for repository"@,
    }
}

impl ResolveError {
    /// The error's text.
    pub fn message(&self) -> (r: String)
        ensures
            r@ == resolve_error_text(*self),
    {
        proof {
            reveal_strlit("application_id or repository_full_name is required");
            reveal_strlit("repository");
            reveal_strlit("application for repository");
        }
        match self {
            ResolveError::Missing => String::from_str("application_id or repository_full_name is required"),
            ResolveError::UnknownRepository => String::from_str("repository"),
            ResolveError::UnmappedRepository => String::from_str("application for repository"),
        }
    }
}

/// The application a deploy event names: its id when given (the repository
/// is then not looked at), else the repository's full name, else an error.
pub fn deploy_target(application_id: Option<u128>, repository_full_name: Option<&str>) -> (r: Result<
    DeployTarget,
    ResolveError,
>)
    ensures
        match application_id {
            Some(id) => r matches Ok(DeployTarget::Application(x)) && x == id,
            None => match repository_full_name {
                Some(n) => r matches Ok(DeployTarget::Repository(s)) && s@ == n@,
                None => r == Err::<DeployTarget, ResolveError>(ResolveError::Missing),
            },
        },
{
    match application_id {
        Some(id) => Ok(DeployTarget::Application(id)),
        None => match repository_full_name {
            Some(n) => Ok(DeployTarget::Repository(String::from_str(n))),
            None => Err(ResolveError::Missing),
        },
    }
}

/// The id of the first repository record (id, full name) with the full
/// name; `UnknownRepository` when there is none.
pub fn find_repository(repos: &Vec<(u128, String)>, full_name: &str) -> (r: Result<u128, ResolveError>)
    ensures
        match r {
            Ok(id) => exists|k: int|
                0 <= k < repos.len() && repos@[k].0 == id && #[trigger] repos@[k].1@ == full_name@ && forall|j: int|
                    0 <= j < k ==> repos@[j].1@ != full_name@,
            Err(e) => e == ResolveError::UnknownRepository && forall|k: int|
                0 <= k < repos.len() ==> #[trigger] repos@[k].1@ != full_name@,
        },
{
    let mut k: usize = 0;
    while k < repos.len()
        invariant
            k <= repos.len(),
            forall|j: int| 0 <= j < k ==> #[trigger] repos@[j].1@ != full_name@,
        decreases repos.len() - k,
    {
        if str_eq(repos[k].1.as_str(), full_name) {
            return Ok(repos[k].0);
        }
        k = k + 1;
    }
    Err(ResolveError::UnknownRepository)
}

/// The application a repository maps to; `UnmappedRepository` when none.
pub fn mapped_application(application: Option<u128>) -> (r: Result<u128, ResolveError>)
    ensures
        match application {
            Some(id) => r == Ok::<u128, ResolveError>(id),
            None => r == Err::<u128, ResolveError>(ResolveError::UnmappedRepository),
        },
{
    match application {
        Some(id) => Ok(id),
        None => Err(ResolveError::UnmappedRepository),
    }
}

/// The environment and outcome of a deploy event: `production` and success
/// unless the event says otherwise.
pub fn deploy_defaults(environment: Option<&str>, succeeded: Option<bool>) -> (r: (String, bool))
    ensures
        r.0@ == match environment {
            Some(e) => e@,
            None => DEFAULT_ENVIRONMENT@,
        },
        r.1 == match succeeded {
            Some(b) => b,
            None => true,
        },
{
    let env = match environment {
        Some(e) => String::from_str(e),
        None => String::from_str(DEFAULT_ENVIRONMENT),
    };
    let ok = match succeeded {
        Some(b) => b,
        None => true,
    };
    (env, ok)
}

/// The positions, in order, of the events of application `id`.
pub open spec fn positions_of(events: Seq<Option<u128>>, id: u128) -> Seq<int>
    decreases events.len(),
{
    if events.len() == 0 {
        Seq::empty()
    } else if events.last() == Some(id) {
        positions_of(events.drop_last(), id).push(events.len() - 1)
    } else {
        positions_of(events.drop_last(), id)
    }
}

/// The listed applications of the fleet report, in list order, as (list
/// position, id): those with an id and at least one deployment or incident.
pub open spec fn fleet_selection(
    items: Seq<Option<u128>>,
    deployments: Seq<Option<u128>>,
    incidents: Seq<Option<u128>>,
) -> Seq<(int, u128)>
    decreases items.len(),
{
    if items.len() == 0 {
        Seq::empty()
    } else {
        let prior = fleet_selection(items.drop_last(), deployments, incidents);
        match items.last() {
            Some(id) => if positions_of(deployments, id).len() > 0 || positions_of(incidents, id).len() > 0 {
                prior.push((items.len() - 1, id))
            } else {
                prior
            },
            None => prior,
        }
    }
}

/// One application of the fleet report: its list position, id, and the
/// positions of its deployments and incidents.
pub struct FleetApp {
    pub item: usize,
    pub id: u128,
    pub deployments: Vec<usize>,
    pub incidents: Vec<usize>,
}

/// The positions as integers.
pub open spec fn as_ints(v: Seq<usize>) -> Seq<int> {
    v.map_values(|k: usize| k as int)
}

/// The positions of the events of application `id`.
fn events_of(events: &Vec<Option<u128>>, id: u128) -> (r: Vec<usize>)
    ensures
        as_ints(r@) == positions_of(events@, id),
{
    let mut out: Vec<usize> = Vec::new();
    let mut k: usize = 0;
    while k < events.len()
        invariant
            k <= events.len(),
            as_ints(out@) == positions_of(events@.take(k as int), id),
        decreases events.len() - k,
    {
        let ghost before = out@;
        assert(events@.take(k + 1).drop_last() =~= events@.take(k as int));
        if events[k] == Some(id) {
            out.push(k);
            assert(as_ints(out@) =~= as_ints(before).push(k as int));
        }
        k = k + 1;
    }
    assert(events@.take(events.len() as int) =~= events@);
    out
}

/// The view of a fleet row as (list position, id).
pub open spec fn fleet_key(a: FleetApp) -> (int, u128) {
    (a.item as int, a.id)
}

/// Selects the applications of the fleet report from the listed
/// applications' ids (`None` where an id does not parse) and the application
/// of each deployment and incident: in list order, each listed application
/// with at least one event, with the positions of all its deployments and
/// incidents.
pub fn fleet_apps(items: &Vec<Option<u128>>, deployments: &Vec<Option<u128>>, incidents: &Vec<Option<u128>>) -> (r: Vec<
    FleetApp,
>)
    ensures
        r@.map_values(|a: FleetApp| fleet_key(a)) == fleet_selection(items@, deployments@, incidents@),
        forall|i: int|
            0 <= i < r.len() ==> {
                &&& as_ints((#[trigger] r@[i]).deployments@) == positions_of(deployments@, r@[i].id)
                &&& as_ints(r@[i].incidents@) == positions_of(incidents@, r@[i].id)
            },
{
    let mut out: Vec<FleetApp> = Vec::new();
    let mut k: usize = 0;
    while k < items.len()
        invariant
            k <= items.len(),
            out@.map_values(|a: FleetApp| fleet_key(a)) == fleet_selection(items@.take(k as int), deployments@, incidents@),
            forall|i: int|
                0 <= i < out.len() ==> {
                    &&& as_ints((#[trigger] out@[i]).deployments@) == positions_of(deployments@, out@[i].id)
                    &&& as_ints(out@[i].incidents@) == positions_of(incidents@, out@[i].id)
                },
        decreases items.len() - k,
    {
        let ghost before = out@;
        assert(items@.take(k + 1).drop_last() =~= items@.take(k as int));
        match items[k] {
            Some(id) => {
                let ds = events_of(deployments, id);
                let is = events_of(incidents, id);
                if ds.len() > 0 || is.len() > 0 {
                    out.push(FleetApp { item: k, id, deployments: ds, incidents: is });
                    assert(out@.map_values(|a: FleetApp| fleet_key(a)) =~= before.map_values(|a: FleetApp| fleet_key(a)).push(
                        (k as int, id),
                    ));
                }
            },
            None => {},
        }
        k = k + 1;
    }
    assert(items@.take(items.len() as int) =~= items@);
    out
}

} // verus!

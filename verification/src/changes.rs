//! Platform change feed: the changes the writer emits for model mutations
//! (entities created, updated or removed, keyed by natural keys), and the
//! per-type tallies of a two-point diff.

use vstd::prelude::*;
use crate::analysis::names;
use crate::keyed::{KeyedList, insert_sorted, lookup, lemma_lookup_insert};
use crate::text::str_eq;

verus! {

broadcast use vstd::seq_lib::group_seq_properties;

/// Kind of model change.
#[derive(Debug, Clone, Copy, PartialEq, Eq, Structural)]
pub enum ChangeKind {
    Created,
    Updated,
    Removed,
}

/// The stored name of a change kind.
pub open spec fn kind_name(k: ChangeKind) -> Seq<char> {
    match k {
        ChangeKind::Created => "created"@,
        ChangeKind::Updated => "updated"@,
        ChangeKind::Removed => "removed"@,
    }
}

impl ChangeKind {
    /// The stored name: `created`, `updated` or `removed`.
    pub fn as_str(&self) -> (r: &'static str)
        ensures
            r@ == kind_name(*self),
    {
        proof {
            reveal_strlit("created");
            reveal_strlit("updated");
            reveal_strlit("removed");
        }
        match self {
            ChangeKind::Created => "created",
            ChangeKind::Updated => "updated",
            ChangeKind::Removed => "removed",
        }
    }
}

/// What a change records beyond its kind: nothing, or an application's type
/// and description before and after an update.
pub enum ChangeDetail {
    Empty,
    AppUpdate {
        before_type: String,
        before_description: String,
        after_type: String,
        after_description: String,
    },
}

/// One emitted change (before persistence).
pub struct Change {
    pub entity_type: String,
    pub entity_key: String,
    pub kind: ChangeKind,
    pub detail: ChangeDetail,
}

impl Change {
    /// A change of `kind` to the entity `entity_key` of type `entity_type`.
    pub fn new(entity_type: &str, entity_key: &str, kind: ChangeKind, detail: ChangeDetail) -> (c: Change)
        ensures
            c.entity_type@ == entity_type@,
            c.entity_key@ == entity_key@,
            c.kind == kind,
            c.detail == detail,
    {
        Change { entity_type: String::from_str(entity_type), entity_key: String::from_str(entity_key), kind, detail }
    }
}

/// The distinct keys of `xs`, in ascending order (as a key-ordered entry
/// list with no values).
pub open spec fn key_set(xs: Seq<Seq<char>>) -> Seq<(Seq<char>, ())>
    decreases xs.len(),
{
    if xs.len() == 0 {
        Seq::empty()
    } else {
        insert_sorted(key_set(xs.drop_last()), xs.last(), ())
    }
}

/// The keys of `s`, in order, that `other` lacks.
pub open spec fn keys_absent_from(s: Seq<(Seq<char>, ())>, other: Seq<(Seq<char>, ())>) -> Seq<Seq<char>> {
    s.map_values(|e: (Seq<char>, ())| e.0).filter(|k: Seq<char>| lookup(other, k) is None)
}

/// The view of a change list: key and kind of each change.
pub open spec fn change_keys(v: Seq<Change>) -> Seq<(Seq<char>, ChangeKind)> {
    v.map_values(|c: Change| (c.entity_key@, c.kind))
}

/// Created/removed changes between the prior and next key lists, as
/// `diff_keys` orders them: creations (next keys missing from the prior
/// ones) then removals (prior keys missing from the next ones), each in
/// ascending key order and without duplicates.
pub open spec fn key_diff(prior: Seq<Seq<char>>, next: Seq<Seq<char>>) -> Seq<(Seq<char>, ChangeKind)> {
    let p = key_set(prior);
    let n = key_set(next);
    keys_absent_from(n, p).map_values(|k: Seq<char>| (k, ChangeKind::Created)) + keys_absent_from(
        p,
        n,
    ).map_values(|k: Seq<char>| (k, ChangeKind::Removed))
}

/// The distinct keys of `xs` in key order.
fn key_list(xs: &[String]) -> (r: KeyedList<()>)
    ensures
        r@ == key_set(names(xs@)),
{
    let mut r: KeyedList<()> = KeyedList::new();
    let mut i: usize = 0;
    while i < xs.len()
        invariant
            i <= xs@.len(),
            r@ == key_set(names(xs@).take(i as int)),
        decreases xs.len() - i,
    {
        assert(names(xs@).take(i + 1).drop_last() == names(xs@).take(i as int));
        r.insert(xs[i].clone(), ());
        i = i + 1;
    }
    assert(names(xs@).take(xs@.len() as int) == names(xs@));
    r
}

/// Appends a change for each key of `from` that `other` lacks.
fn push_absent(
    out: &mut Vec<Change>,
    entity_type: &str,
    from: &KeyedList<()>,
    other: &KeyedList<()>,
    kind: ChangeKind,
)
    ensures
        change_keys(final(out)@) == change_keys(old(out)@) + keys_absent_from(from@, other@).map_values(
            |k: Seq<char>| (k, kind),
        ),
        forall|i: int| old(out)@.len() <= i < final(out)@.len() ==> (#[trigger] final(out)@[i]).entity_type@
            == entity_type@ && final(out)@[i].detail == ChangeDetail::Empty,
        forall|i: int| 0 <= i < old(out)@.len() ==> #[trigger] final(out)@[i] == old(out)@[i],
{
    let ghost keys = from@.map_values(|e: (Seq<char>, ())| e.0);
    let ghost p = |k: Seq<char>| lookup(other@, k) is None;
    let ghost base = out@;
    let mut i: usize = 0;
    while i < from.len()
        invariant
            i <= from@.len(),
            keys == from@.map_values(|e: (Seq<char>, ())| e.0),
            p == (|k: Seq<char>| lookup(other@, k) is None),
            base.len() <= out@.len(),
            change_keys(out@) == change_keys(base) + keys.take(i as int).filter(p).map_values(
                |k: Seq<char>| (k, kind),
            ),
            forall|j: int| base.len() <= j < out@.len() ==> (#[trigger] out@[j]).entity_type@ == entity_type@
                && out@[j].detail == ChangeDetail::Empty,
            forall|j: int| 0 <= j < base.len() ==> #[trigger] out@[j] == base[j],
        decreases from@.len() - i,
    {
        let (k, _) = from.entry(i);
        assert(keys.take(i + 1) == keys.take(i as int).push(keys[i as int]));
        proof {
            keys.take(i as int).lemma_filter_push(keys[i as int], p);
        }
        let absent = other.get(k.as_str()).is_none();
        assert(p(keys[i as int]) == absent);
        if absent {
            let ghost before = out@;
            out.push(Change::new(entity_type, k.as_str(), kind, ChangeDetail::Empty));
            assert(change_keys(out@) == change_keys(before).push((k@, kind)));
            assert(forall|j: int| 0 <= j < before.len() ==> out@[j] == before[j]);
        }
        i = i + 1;
    }
    assert(keys.take(from@.len() as int) == keys);
}

/// Created/removed changes between a prior and next set of natural keys
/// (each deduplicated): creations first, then removals, each sorted.
pub fn diff_keys(entity_type: &str, prior: &[String], next: &[String]) -> (r: Vec<Change>)
    ensures
        change_keys(r@) == key_diff(names(prior@), names(next@)),
        forall|i: int| 0 <= i < r@.len() ==> (#[trigger] r@[i]).entity_type@ == entity_type@ && r@[i].detail
            == ChangeDetail::Empty,
{
    let p = key_list(prior);
    let n = key_list(next);
    let mut out: Vec<Change> = Vec::new();
    push_absent(&mut out, entity_type, &n, &p, ChangeKind::Created);
    push_absent(&mut out, entity_type, &p, &n, ChangeKind::Removed);
    assert(change_keys(Seq::<Change>::empty()) == Seq::<(Seq<char>, ChangeKind)>::empty());
    out
}

/// The keys of a key set are exactly the keys of the list it was built from.
pub proof fn lemma_key_set_members(xs: Seq<Seq<char>>, k: Seq<char>)
    ensures
        (lookup(key_set(xs), k) is Some) == xs.contains(k),
    decreases xs.len(),
{
    if xs.len() > 0 {
        lemma_key_set_members(xs.drop_last(), k);
        lemma_lookup_insert(key_set(xs.drop_last()), xs.last(), ());
        if k != xs.last() {
            if xs.contains(k) {
                let i = choose|i: int| 0 <= i < xs.len() && xs[i] == k;
                assert(xs.drop_last()[i] == k);
            }
            if xs.drop_last().contains(k) {
                let i = choose|i: int| 0 <= i < xs.drop_last().len() && xs.drop_last()[i] == k;
                assert(xs[i] == k);
            }
        } else {
            assert(xs[xs.len() - 1] == k);
        }
    }
}

/// A key of a key-ordered list is one of the list's entries.
proof fn lemma_lookup_keys(s: Seq<(Seq<char>, ())>, k: Seq<char>)
    ensures
        (lookup(s, k) is Some) == s.map_values(|e: (Seq<char>, ())| e.0).contains(k),
    decreases s.len(),
{
    let ks = s.map_values(|e: (Seq<char>, ())| e.0);
    if s.len() > 0 {
        let t = s.drop_first();
        lemma_lookup_keys(t, k);
        let kt = t.map_values(|e: (Seq<char>, ())| e.0);
        assert(ks == seq![s[0].0] + kt);
        if kt.contains(k) {
            let i = choose|i: int| 0 <= i < kt.len() && kt[i] == k;
            assert(ks[i + 1] == k);
        }
        if ks.contains(k) && s[0].0 != k {
            let i = choose|i: int| 0 <= i < ks.len() && ks[i] == k;
            assert(kt[i - 1] == k);
        }
        if s[0].0 == k {
            assert(ks[0] == k);
        }
    }
}

/// Key diff: a key is reported created exactly when it is among the next
/// keys and not the prior ones, and removed exactly when it is among the
/// prior keys and not the next ones; keys in both lists are not reported.
pub proof fn lemma_key_diff_members(prior: Seq<Seq<char>>, next: Seq<Seq<char>>, k: Seq<char>)
    ensures
        key_diff(prior, next).contains((k, ChangeKind::Created)) == (next.contains(k) && !prior.contains(k)),
        key_diff(prior, next).contains((k, ChangeKind::Removed)) == (prior.contains(k) && !next.contains(k)),
{
    let p = key_set(prior);
    let n = key_set(next);
    let created = keys_absent_from(n, p);
    let removed = keys_absent_from(p, n);
    let cm = created.map_values(|x: Seq<char>| (x, ChangeKind::Created));
    let rm = removed.map_values(|x: Seq<char>| (x, ChangeKind::Removed));
    let d = key_diff(prior, next);
    assert(d == cm + rm);
    lemma_key_set_members(prior, k);
    lemma_key_set_members(next, k);
    lemma_lookup_keys(n, k);
    lemma_lookup_keys(p, k);
    let nk = n.map_values(|e: (Seq<char>, ())| e.0);
    let pk = p.map_values(|e: (Seq<char>, ())| e.0);
    let fp = |x: Seq<char>| lookup(p, x) is None;
    let fn_ = |x: Seq<char>| lookup(n, x) is None;
    // created side
    if next.contains(k) && !prior.contains(k) {
        let i = choose|i: int| 0 <= i < nk.len() && nk[i] == k;
        nk.lemma_filter_contains(fp, i);
        let j = choose|j: int| 0 <= j < created.len() && created[j] == k;
        assert(d[j] == (k, ChangeKind::Created));
    }
    if d.contains((k, ChangeKind::Created)) {
        let j = choose|j: int| 0 <= j < d.len() && d[j] == (k, ChangeKind::Created);
        assert(j < cm.len());
        assert(created[j] == k);
        assert(created.contains(k));
        nk.lemma_filter_contains_rev(fp, k);
        let m = choose|m: int| 0 <= m < created.len() && created[m] == k;
        nk.lemma_filter_pred(fp, m);
    }
    // removed side
    if prior.contains(k) && !next.contains(k) {
        let i = choose|i: int| 0 <= i < pk.len() && pk[i] == k;
        pk.lemma_filter_contains(fn_, i);
        let j = choose|j: int| 0 <= j < removed.len() && removed[j] == k;
        assert(d[cm.len() + j] == (k, ChangeKind::Removed));
    }
    if d.contains((k, ChangeKind::Removed)) {
        let j = choose|j: int| 0 <= j < d.len() && d[j] == (k, ChangeKind::Removed);
        assert(j >= cm.len());
        assert(removed[j - cm.len()] == k);
        assert(removed.contains(k));
        pk.lemma_filter_contains_rev(fn_, k);
        let m = choose|m: int| 0 <= m < removed.len() && removed[m] == k;
        pk.lemma_filter_pred(fn_, m);
    }
}

/// A persisted change row, as the diff reads it.
pub struct ChangeRow {
    pub id: u128,
    pub application_id: Option<u128>,
    pub entity_type: String,
    pub entity_key: String,
    /// `created`, `updated` or `removed`.
    pub change: String,
    /// The JSON text of the recorded detail, when there is one.
    pub detail: Option<String>,
    /// When the change happened, in microseconds since the Unix epoch.
    pub occurred_at: i64,
}

/// A net per-entity-type delta between two points in time.
#[derive(Debug, Clone, Copy, PartialEq, Eq, Structural)]
pub struct DiffCounts {
    pub created: i64,
    pub updated: i64,
    pub removed: i64,
}

impl Default for DiffCounts {
    /// All counts zero.
    fn default() -> (c: DiffCounts)
        ensures
            c == (DiffCounts { created: 0, updated: 0, removed: 0 }),
    {
        DiffCounts { created: 0, updated: 0, removed: 0 }
    }
}

/// `c` with the count for `change` raised by one (an unknown change name
/// leaves it as it is).
pub open spec fn bump(c: DiffCounts, change: Seq<char>) -> DiffCounts {
    if change == "created"@ {
        DiffCounts { created: (c.created + 1) as i64, ..c }
    } else if change == "updated"@ {
        DiffCounts { updated: (c.updated + 1) as i64, ..c }
    } else if change == "removed"@ {
        DiffCounts { removed: (c.removed + 1) as i64, ..c }
    } else {
        c
    }
}

/// Per-entity-type net counts of `rows`, in entity-type order: each row
/// raises its type's count for its change.
pub open spec fn tally(rows: Seq<ChangeRow>) -> Seq<(Seq<char>, DiffCounts)>
    decreases rows.len(),
{
    if rows.len() == 0 {
        Seq::empty()
    } else {
        let prior = tally(rows.drop_last());
        let r = rows.last();
        let c = match lookup(prior, r.entity_type@) {
            Some(c) => c,
            None => DiffCounts { created: 0, updated: 0, removed: 0 },
        };
        insert_sorted(prior, r.entity_type@, bump(c, r.change@))
    }
}

/// Every count lies in `[0, n]`.
pub open spec fn counts_within(s: Seq<(Seq<char>, DiffCounts)>, n: int) -> bool {
    forall|i: int| 0 <= i < s.len() ==> {
        let c = #[trigger] s[i].1;
        0 <= c.created <= n && 0 <= c.updated <= n && 0 <= c.removed <= n
    }
}

proof fn lemma_insert_within(s: Seq<(Seq<char>, DiffCounts)>, k: Seq<char>, v: DiffCounts, n: int)
    requires
        counts_within(s, n),
        0 <= v.created <= n && 0 <= v.updated <= n && 0 <= v.removed <= n,
    ensures
        counts_within(insert_sorted(s, k, v), n),
    decreases s.len(),
{
    if s.len() > 0 && s[0].0 != k && !crate::keyed::seq_lt(k, s[0].0) {
        assert(counts_within(s.drop_first(), n));
        lemma_insert_within(s.drop_first(), k, v, n);
    } else if s.len() > 0 && s[0].0 == k {
        assert(insert_sorted(s, k, v) == seq![(k, v)] + s.drop_first());
    } else if s.len() > 0 {
        assert(insert_sorted(s, k, v) == seq![(k, v)] + s);
    }
}

proof fn lemma_lookup_within(s: Seq<(Seq<char>, DiffCounts)>, k: Seq<char>, n: int)
    requires
        counts_within(s, n),
    ensures
        match lookup(s, k) {
            Some(c) => 0 <= c.created <= n && 0 <= c.updated <= n && 0 <= c.removed <= n,
            None => true,
        },
    decreases s.len(),
{
    if s.len() > 0 && s[0].0 != k {
        assert(counts_within(s.drop_first(), n));
        lemma_lookup_within(s.drop_first(), k, n);
    }
}

proof fn lemma_tally_within(rows: Seq<ChangeRow>)
    requires
        rows.len() <= i64::MAX,
    ensures
        counts_within(tally(rows), rows.len() as int),
    decreases rows.len(),
{
    if rows.len() > 0 {
        let prior = tally(rows.drop_last());
        lemma_tally_within(rows.drop_last());
        let r = rows.last();
        lemma_lookup_within(prior, r.entity_type@, rows.len() - 1);
        assert(counts_within(prior, rows.len() as int));
        let c = match lookup(prior, r.entity_type@) {
            Some(c) => c,
            None => DiffCounts { created: 0, updated: 0, removed: 0 },
        };
        lemma_insert_within(prior, r.entity_type@, bump(c, r.change@), rows.len() as int);
    }
}

/// Aggregates change rows into per-entity-type net counts.
pub fn summarize(rows: &[ChangeRow]) -> (r: KeyedList<DiffCounts>)
    requires
        rows@.len() <= i64::MAX,
    ensures
        r@ == tally(rows@),
{
    let mut out: KeyedList<DiffCounts> = KeyedList::new();
    let mut i: usize = 0;
    while i < rows.len()
        invariant
            i <= rows@.len(),
            rows@.len() <= i64::MAX,
            out@ == tally(rows@.take(i as int)),
        decreases rows.len() - i,
    {
        let row = &rows[i];
        let ghost prior = out@;
        assert(rows@.take(i + 1).drop_last() == rows@.take(i as int));
        assert(rows@.take(i + 1).last() == rows@[i as int]);
        proof {
            lemma_tally_within(rows@.take(i as int));
            lemma_lookup_within(prior, row.entity_type@, i as int);
        }
        let c = match out.get(row.entity_type.as_str()) {
            Some(c) => *c,
            None => DiffCounts::default(),
        };
        assert(i < usize::MAX);
        let change = row.change.as_str();
        let next = if str_eq(change, "created") {
            DiffCounts { created: c.created + 1, ..c }
        } else if str_eq(change, "updated") {
            DiffCounts { updated: c.updated + 1, ..c }
        } else if str_eq(change, "removed") {
            DiffCounts { removed: c.removed + 1, ..c }
        } else {
            c
        };
        proof {
            reveal_strlit("created");
            reveal_strlit("updated");
            reveal_strlit("removed");
        }
        assert(next == bump(c, row.change@));
        out.insert(row.entity_type.clone(), next);
        i = i + 1;
    }
    assert(rows@.take(rows@.len() as int) == rows@);
    out
}

/// The `application` change for a sync: `created` on first analysis, or
/// `updated` (with the before and after type and description) when its type
/// or description changed; none otherwise.
pub open spec fn app_change_spec(
    prior: Option<(Seq<char>, Seq<char>)>,
    next_type: Seq<char>,
    next_description: Seq<char>,
) -> Option<ChangeKind> {
    match prior {
        None => Some(ChangeKind::Created),
        Some((t, d)) => if t != next_type || d != next_description {
            Some(ChangeKind::Updated)
        } else {
            None
        },
    }
}

/// Builds the `application` change for a sync.
pub fn application_change(
    name: &str,
    prior: Option<(&str, &str)>,
    next_type: &str,
    next_description: &str,
) -> (r: Option<Change>)
    ensures
        match prior {
            None => r matches Some(c) && c.kind == ChangeKind::Created && c.detail == ChangeDetail::Empty,
            Some((t, d)) => if t@ != next_type@ || d@ != next_description@ {
                r matches Some(c) && c.kind == ChangeKind::Updated && match c.detail {
                    ChangeDetail::AppUpdate { before_type, before_description, after_type, after_description } => {
                        &&& before_type@ == t@
                        &&& before_description@ == d@
                        &&& after_type@ == next_type@
                        &&& after_description@ == next_description@
                    },
                    ChangeDetail::Empty => false,
                }
            } else {
                r is None
            },
        },
        match r {
            Some(c) => c.entity_type@ == "application"@ && c.entity_key@ == name@,
            None => true,
        },
{
    proof {
        reveal_strlit("application");
    }
    match prior {
        None => Some(Change::new("application", name, ChangeKind::Created, ChangeDetail::Empty)),
        Some((ptype, pdesc)) => {
            if !str_eq(ptype, next_type) || !str_eq(pdesc, next_description) {
                let detail = ChangeDetail::AppUpdate {
                    before_type: String::from_str(ptype),
                    before_description: String::from_str(pdesc),
                    after_type: String::from_str(next_type),
                    after_description: String::from_str(next_description),
                };
                Some(Change::new("application", name, ChangeKind::Updated, detail))
            } else {
                None
            }
        },
    }
}

/// When the prior and next key lists hold the same keys (in any order and
/// multiplicity), the diff is empty.
pub proof fn lemma_same_keys_no_diff(prior: Seq<Seq<char>>, next: Seq<Seq<char>>)
    requires
        forall|k: Seq<char>| prior.contains(k) == next.contains(k),
    ensures
        key_diff(prior, next).len() == 0,
{
    let d = key_diff(prior, next);
    if d.len() > 0 {
        let p = key_set(prior);
        let n = key_set(next);
        let cm = keys_absent_from(n, p).map_values(|x: Seq<char>| (x, ChangeKind::Created));
        let rm = keys_absent_from(p, n).map_values(|x: Seq<char>| (x, ChangeKind::Removed));
        assert(d == cm + rm);
        let e = d[0];
        if cm.len() > 0 {
            assert(e == cm[0]);
            assert(e.1 == ChangeKind::Created);
            assert(d.contains((e.0, ChangeKind::Created)));
            lemma_key_diff_members(prior, next, e.0);
        } else {
            assert(e == rm[0]);
            assert(e.1 == ChangeKind::Removed);
            assert(d.contains((e.0, ChangeKind::Removed)));
            lemma_key_diff_members(prior, next, e.0);
        }
    }
}

/// The target names of dependencies.
pub open spec fn dependency_targets(deps: Seq<crate::analysis::DependencyInfo>) -> Seq<Seq<char>> {
    deps.map_values(|d: crate::analysis::DependencyInfo| d.target_name@)
}

/// The changes a sync records: the application's change, if any, then the
/// dependency targets created and removed.
pub open spec fn sync_change_keys(
    name: Seq<char>,
    prior_app: Option<(Seq<char>, Seq<char>)>,
    next_type: Seq<char>,
    next_description: Seq<char>,
    prior_deps: Seq<Seq<char>>,
    next_deps: Seq<Seq<char>>,
) -> Seq<(Seq<char>, ChangeKind)> {
    (match app_change_spec(prior_app, next_type, next_description) {
        Some(k) => seq![(name, k)],
        None => Seq::empty(),
    }) + key_diff(prior_deps, next_deps)
}

/// The changes of writing `result` over the prior application record (its
/// type and description) and prior dependency targets; an absent type or
/// description counts as empty.
pub fn sync_changes(
    result: &crate::analysis::AnalysisResult,
    prior_app: Option<(&str, &str)>,
    prior_deps: &[String],
) -> (r: Vec<Change>)
    ensures
        change_keys(r@) == sync_change_keys(
            result.application.name@,
            match prior_app {
                Some((t, d)) => Some((t@, d@)),
                None => None,
            },
            match result.application.app_type {
                Some(t) => t@,
                None => Seq::<char>::empty(),
            },
            match result.application.description {
                Some(d) => d@,
                None => Seq::<char>::empty(),
            },
            names(prior_deps@),
            dependency_targets(result.dependencies@),
        ),
{
    let next_type = match &result.application.app_type {
        Some(t) => t.clone(),
        None => String::new(),
    };
    let next_desc = match &result.application.description {
        Some(d) => d.clone(),
        None => String::new(),
    };
    let mut out: Vec<Change> = Vec::new();
    match application_change(result.application.name.as_str(), prior_app, next_type.as_str(), next_desc.as_str()) {
        Some(c) => out.push(c),
        None => {},
    }
    let ghost head = change_keys(out@);
    let mut next: Vec<String> = Vec::new();
    let mut i: usize = 0;
    while i < result.dependencies.len()
        invariant
            i <= result.dependencies@.len(),
            names(next@) == dependency_targets(result.dependencies@.take(i as int)),
        decreases result.dependencies.len() - i,
    {
        let ghost before = next@;
        next.push(result.dependencies[i].target_name.clone());
        assert(names(next@) == names(before).push(result.dependencies@[i as int].target_name@));
        assert(result.dependencies@.take(i + 1) == result.dependencies@.take(i as int).push(
            result.dependencies@[i as int],
        ));
        i = i + 1;
    }
    assert(result.dependencies@.take(result.dependencies@.len() as int) == result.dependencies@);
    let diff = diff_keys("dependency", prior_deps, &next);
    let ghost before = out@;
    let mut rest = diff;
    let ghost all = change_keys(rest@);
    let ghost mut k: int = 0;
    while rest.len() > 0
        invariant
            0 <= k <= all.len(),
            change_keys(rest@) == all.skip(k),
            change_keys(out@) == head + all.take(k),
        decreases rest.len(),
    {
        assert(change_keys(rest@).len() == rest@.len());
        let ghost rb = rest@;
        let c = rest.remove(0);
        assert(change_keys(rest@) =~= change_keys(rb).drop_first());
        assert(all.skip(k)[0] == (c.entity_key@, c.kind));
        let ghost ob = out@;
        out.push(c);
        assert(change_keys(out@) == change_keys(ob).push((c.entity_key@, c.kind)));
        assert(all.take(k + 1) == all.take(k).push(all[k]));
        assert(all.skip(k).drop_first() =~= all.skip(k + 1));
        proof {
            k = k + 1;
        }
    }
    assert(all.take(k) == all);
    out
}

/// Syncing the same result again records nothing: when the prior record
/// holds the result's type and description and the prior dependency targets
/// are the result's (in any order and multiplicity), no change is emitted.
pub proof fn lemma_resync_records_nothing(
    name: Seq<char>,
    next_type: Seq<char>,
    next_description: Seq<char>,
    prior_deps: Seq<Seq<char>>,
    next_deps: Seq<Seq<char>>,
)
    requires
        forall|k: Seq<char>| prior_deps.contains(k) == next_deps.contains(k),
    ensures
        sync_change_keys(
            name,
            Some((next_type, next_description)),
            next_type,
            next_description,
            prior_deps,
            next_deps,
        ).len() == 0,
{
    lemma_same_keys_no_diff(prior_deps, next_deps);
}

} // verus!

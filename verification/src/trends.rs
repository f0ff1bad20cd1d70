//! The portfolio view: the latest coverage, complexity and size of each
//! application, grouped from the latest metric values. The value type is a
//! parameter: grouping never looks inside a value.

use vstd::prelude::*;
use crate::ids::{uuid_string, uuid_text};
use crate::text::{push_str, str_eq, string_of};

verus! {

/// The latest recorded value of one metric of one application.
pub struct LatestMetric<V> {
    pub application_id: u128,
    pub metric_key: String,
    pub value: V,
}

/// One application of the portfolio view.
pub struct PortfolioApp<V> {
    pub id: u128,
    pub name: String,
    pub href: String,
    pub coverage_pct: Option<V>,
    pub complexity_avg: Option<V>,
    pub loc: Option<V>,
}

/// The portfolio slot a metric key fills: coverage, complexity, size; -1 for
/// any other key.
pub open spec fn slot_of(key: Seq<char>) -> int {
    if key == "coverage_pct"@ {
        0
    } else if key == "complexity_avg"@ {
        1
    } else if key == "loc"@ {
        2
    } else {
        -1
    }
}

/// The value in `slot` for application `id`: that of the last metric of the
/// application whose key fills the slot, if any.
pub open spec fn slot_value<V>(ms: Seq<LatestMetric<V>>, id: u128, slot: int) -> Option<V>
    decreases ms.len(),
{
    if ms.len() == 0 {
        None
    } else if ms.last().application_id == id && slot_of(ms.last().metric_key@) == slot {
        Some(ms.last().value)
    } else {
        slot_value(ms.drop_last(), id, slot)
    }
}

/// The display name of application `id`: the last one listed for it, or
/// empty.
pub open spec fn app_name(names: Seq<(u128, String)>, id: u128) -> Seq<char>
    decreases names.len(),
{
    if names.len() == 0 {
        Seq::empty()
    } else if names.last().0 == id {
        names.last().1@
    } else {
        app_name(names.drop_last(), id)
    }
}

/// The page of application `id`.
pub open spec fn app_href(id: u128) -> Seq<char> {
    "/platform/applications/"@ + uuid_text(id)
}

/// Whether some metric belongs to application `id`.
pub open spec fn has_metric<V>(ms: Seq<LatestMetric<V>>, id: u128) -> bool {
    exists|k: int| 0 <= k < ms.len() && #[trigger] ms[k].application_id == id
}

/// Strictly increasing.
pub open spec fn increasing(s: Seq<u128>) -> bool {
    forall|i: int, j: int| 0 <= i < j < s.len() ==> s[i] < s[j]
}

/// The slot filled by `key`.
fn metric_slot(key: &str) -> (r: i8)
    ensures
        r == slot_of(key@),
{
    proof {
        reveal_strlit("coverage_pct");
        reveal_strlit("complexity_avg");
        reveal_strlit("loc");
    }
    if str_eq(key, "coverage_pct") {
        0
    } else if str_eq(key, "complexity_avg") {
        1
    } else if str_eq(key, "loc") {
        2
    } else {
        -1
    }
}

/// Adds `id` to the increasing list `ids` unless it is there already.
fn insert_id(ids: &mut Vec<u128>, id: u128)
    requires
        increasing(old(ids)@),
    ensures
        increasing(final(ids)@),
        forall|x: u128| final(ids)@.contains(x) <==> (old(ids)@.contains(x) || x == id),
{
    let mut p: usize = 0;
    while p < ids.len() && ids[p] < id
        invariant
            p <= ids.len(),
            forall|j: int| 0 <= j < p ==> ids@[j] < id,
        decreases ids.len() - p,
    {
        p = p + 1;
    }
    if p < ids.len() && ids[p] == id {
        assert(ids@.contains(id));
        return;
    }
    let ghost before = ids@;
    ids.insert(p, id);
    proof {
        before.insert_ensures(p as int, id);
        assert(ids@ == before.insert(p as int, id));
        assert forall|i: int, j: int| 0 <= i < j < ids@.len() implies ids@[i] < ids@[j] by {
            if j < p {
            } else if j == p {
            } else if i < p {
                assert(ids@[j] == before[j - 1]);
                assert(before[j - 1] >= id) by {
                    assert(before[p as int] > id);
                }
            } else if i == p {
                assert(ids@[j] == before[j - 1]);
                assert(before[p as int] > id);
            } else {
                assert(ids@[i] == before[i - 1]);
                assert(ids@[j] == before[j - 1]);
            }
        }
        assert forall|x: u128| ids@.contains(x) <==> (before.contains(x) || x == id) by {
            if ids@.contains(x) {
                let k = choose|k: int| 0 <= k < ids@.len() && ids@[k] == x;
                if k < p {
                    assert(before[k] == x);
                } else if k > p {
                    assert(before[k - 1] == x);
                }
            }
            if before.contains(x) {
                let k = choose|k: int| 0 <= k < before.len() && before[k] == x;
                if k < p {
                    assert(ids@[k] == x);
                } else {
                    assert(ids@[k + 1] == x);
                }
            }
            if x == id {
                assert(ids@[p as int] == x);
            }
        }
    }
}

/// The ids of the applications with a metric, increasing.
fn metric_app_ids<V>(latest: &Vec<LatestMetric<V>>) -> (ids: Vec<u128>)
    ensures
        increasing(ids@),
        forall|x: u128| ids@.contains(x) <==> has_metric(latest@, x),
{
    let mut ids: Vec<u128> = Vec::new();
    let mut k: usize = 0;
    while k < latest.len()
        invariant
            k <= latest.len(),
            increasing(ids@),
            forall|x: u128| ids@.contains(x) <==> has_metric(latest@.take(k as int), x),
        decreases latest.len() - k,
    {
        let id = latest[k].application_id;
        let ghost before = ids@;
        insert_id(&mut ids, id);
        proof {
            let pre = latest@.take(k as int);
            let post = latest@.take(k + 1);
            assert forall|x: u128| ids@.contains(x) <==> has_metric(post, x) by {
                if has_metric(post, x) {
                    let j = choose|j: int| 0 <= j < post.len() && #[trigger] post[j].application_id == x;
                    if j < k {
                        assert(pre[j].application_id == x);
                    }
                }
                if has_metric(pre, x) {
                    let j = choose|j: int| 0 <= j < pre.len() && #[trigger] pre[j].application_id == x;
                    assert(post[j].application_id == x);
                }
                if x == id {
                    assert(post[k as int].application_id == x);
                }
            }
        }
        k = k + 1;
    }
    assert(latest@.take(latest.len() as int) =~= latest@);
    ids
}

/// The three slot values of application `id`.
fn slots_for<V: Copy>(latest: &Vec<LatestMetric<V>>, id: u128) -> (r: (Option<V>, Option<V>, Option<V>))
    ensures
        r.0 == slot_value(latest@, id, 0),
        r.1 == slot_value(latest@, id, 1),
        r.2 == slot_value(latest@, id, 2),
{
    let mut a: Option<V> = None;
    let mut b: Option<V> = None;
    let mut c: Option<V> = None;
    let mut k: usize = 0;
    while k < latest.len()
        invariant
            k <= latest.len(),
            a == slot_value(latest@.take(k as int), id, 0),
            b == slot_value(latest@.take(k as int), id, 1),
            c == slot_value(latest@.take(k as int), id, 2),
        decreases latest.len() - k,
    {
        let m = &latest[k];
        if m.application_id == id {
            let s = metric_slot(m.metric_key.as_str());
            if s == 0 {
                a = Some(m.value);
            } else if s == 1 {
                b = Some(m.value);
            } else if s == 2 {
                c = Some(m.value);
            }
        }
        assert(latest@.take(k + 1).drop_last() =~= latest@.take(k as int));
        k = k + 1;
    }
    assert(latest@.take(latest.len() as int) =~= latest@);
    (a, b, c)
}

/// The display name listed last for application `id`, or empty.
fn name_for(names: &Vec<(u128, String)>, id: u128) -> (r: String)
    ensures
        r@ == app_name(names@, id),
{
    let mut found: Option<usize> = None;
    let mut k: usize = 0;
    while k < names.len()
        invariant
            k <= names.len(),
            match found {
                Some(j) => j < k && names@[j as int].1@ == app_name(names@.take(k as int), id),
                None => app_name(names@.take(k as int), id) == Seq::<char>::empty(),
            },
        decreases names.len() - k,
    {
        assert(names@.take(k + 1).drop_last() =~= names@.take(k as int));
        if names[k].0 == id {
            found = Some(k);
        }
        k = k + 1;
    }
    assert(names@.take(names.len() as int) =~= names@);
    match found {
        Some(j) => names[j].1.clone(),
        None => String::new(),
    }
}

/// The page of application `id`.
fn href_of(id: u128) -> (r: String)
    ensures
        r@ == app_href(id),
{
    let mut s: Vec<char> = Vec::new();
    push_str(&mut s, "/platform/applications/");
    push_str(&mut s, uuid_string(id).as_str());
    string_of(&s)
}

/// The portfolio: one entry per application with a latest metric, by
/// increasing id, holding its name, page, and the last coverage, complexity
/// and size values recorded for it.
pub fn portfolio<V: Copy>(latest: &Vec<LatestMetric<V>>, names: &Vec<(u128, String)>) -> (r: Vec<PortfolioApp<V>>)
    ensures
        forall|i: int, j: int| 0 <= i < j < r.len() ==> r[i].id < r[j].id,
        forall|i: int| 0 <= i < r.len() ==> has_metric(latest@, #[trigger] r[i].id),
        forall|k: int|
            0 <= k < latest.len() ==> exists|i: int|
                0 <= i < r.len() && #[trigger] r[i].id == #[trigger] latest@[k].application_id,
        forall|i: int|
            0 <= i < r.len() ==> {
                let a = #[trigger] r[i];
                &&& a.name@ == app_name(names@, a.id)
                &&& a.href@ == app_href(a.id)
                &&& a.coverage_pct == slot_value(latest@, a.id, 0)
                &&& a.complexity_avg == slot_value(latest@, a.id, 1)
                &&& a.loc == slot_value(latest@, a.id, 2)
            },
{
    let ids = metric_app_ids(latest);
    let mut out: Vec<PortfolioApp<V>> = Vec::new();
    let mut i: usize = 0;
    while i < ids.len()
        invariant
            i <= ids.len(),
            out.len() == i,
            increasing(ids@),
            forall|x: u128| ids@.contains(x) <==> has_metric(latest@, x),
            forall|j: int| 0 <= j < i ==> #[trigger] out@[j].id == ids@[j],
            forall|j: int|
                0 <= j < i ==> {
                    let a = #[trigger] out@[j];
                    &&& a.name@ == app_name(names@, a.id)
                    &&& a.href@ == app_href(a.id)
                    &&& a.coverage_pct == slot_value(latest@, a.id, 0)
                    &&& a.complexity_avg == slot_value(latest@, a.id, 1)
                    &&& a.loc == slot_value(latest@, a.id, 2)
                },
        decreases ids.len() - i,
    {
        let id = ids[i];
        let (c, x, l) = slots_for(latest, id);
        out.push(PortfolioApp { id, name: name_for(names, id), href: href_of(id), coverage_pct: c, complexity_avg: x, loc: l });
        i = i + 1;
    }
    proof {
        assert forall|i: int| 0 <= i < out.len() implies has_metric(latest@, #[trigger] out@[i].id) by {
            assert(ids@.contains(ids@[i]));
        }
        assert forall|k: int| 0 <= k < latest.len() implies exists|i: int|
            0 <= i < out.len() && #[trigger] out@[i].id == #[trigger] latest@[k].application_id by {
            let x = latest@[k].application_id;
            assert(has_metric(latest@, x));
            assert(ids@.contains(x));
            let i = choose|i: int| 0 <= i < ids@.len() && ids@[i] == x;
            assert(out@[i].id == x);
        }
    }
    out
}

} // verus!

//! Which applications a remediation rule applies to.

use vstd::prelude::*;
use crate::ids::{parse_uuid, uuid_parse_result};

verus! {

broadcast use vstd::seq_lib::group_seq_properties;

/// The UUIDs among `texts` that parse, in order.
pub open spec fn parsed_ids(texts: Seq<String>) -> Seq<u128>
    decreases texts.len(),
{
    if texts.len() == 0 {
        Seq::empty()
    } else {
        let prior = parsed_ids(texts.drop_last());
        match uuid_parse_result(texts.last()@) {
            Ok(id) => prior.push(id),
            Err(_) => prior,
        }
    }
}

/// The application ids a rule's scope restricts it to, given the scope's
/// `application_ids` strings when it has them: the ones that parse as UUIDs;
/// `None` (the whole fleet) when there are none.
pub fn scope_app_ids(ids: Option<&Vec<String>>) -> (r: Option<Vec<u128>>)
    ensures
        match ids {
            None => r is None,
            Some(v) => if parsed_ids(v@).len() == 0 {
                r is None
            } else {
                r matches Some(out) && out@ == parsed_ids(v@)
            },
        },
{
    let v = match ids {
        Some(v) => v,
        None => {
            return None;
        },
    };
    let mut out: Vec<u128> = Vec::new();
    let mut i: usize = 0;
    while i < v.len()
        invariant
            i <= v@.len(),
            out@ == parsed_ids(v@.take(i as int)),
        decreases v.len() - i,
    {
        assert(v@.take(i + 1).drop_last() == v@.take(i as int));
        assert(v@.take(i + 1).last() == v@[i as int]);
        match parse_uuid(v[i].as_str()) {
            Ok(id) => out.push(id),
            Err(_) => {},
        }
        i = i + 1;
    }
    assert(v@.take(v@.len() as int) == v@);
    if out.len() == 0 {
        None
    } else {
        Some(out)
    }
}

/// Whether a rule with this scope applies to the application.
pub fn applies_to(scope: &Option<Vec<u128>>, app_id: u128) -> (b: bool)
    ensures
        b == match scope {
            None => true,
            Some(ids) => ids@.contains(app_id),
        },
{
    match scope {
        None => true,
        Some(ids) => {
            let mut i: usize = 0;
            while i < ids.len()
                invariant
                    i <= ids@.len(),
                    *scope matches Some(v) && v@ == ids@,
                    forall|j: int| 0 <= j < i ==> ids@[j] != app_id,
                decreases ids.len() - i,
            {
                if ids[i] == app_id {
                    assert(ids@[i as int] == app_id);
                    return true;
                }
                i = i + 1;
            }
            assert(!ids@.contains(app_id));
            false
        },
    }
}

/// What the evaluation needs of a rule: whether it is enabled and the
/// applications its scope restricts it to (`None`: the whole fleet).
pub struct RuleScope {
    pub enabled: bool,
    pub app_ids: Option<Vec<u128>>,
}

/// The ids of a scope.
pub open spec fn scope_view(s: Option<Vec<u128>>) -> Option<Seq<u128>> {
    match s {
        Some(v) => Some(v@),
        None => None,
    }
}

/// Whether a scope admits the application.
pub open spec fn admits(scope: Option<Seq<u128>>, app: u128) -> bool {
    match scope {
        None => true,
        Some(ids) => ids.contains(app),
    }
}

/// The (rule, application) positions rule `r` is evaluated on: the
/// applications its scope admits, in order.
pub open spec fn rule_pairs(r: int, scope: Option<Seq<u128>>, apps: Seq<u128>) -> Seq<(int, int)>
    decreases apps.len(),
{
    if apps.len() == 0 {
        Seq::empty()
    } else {
        let prior = rule_pairs(r, scope, apps.drop_last());
        if admits(scope, apps.last()) {
            prior.push((r, apps.len() - 1))
        } else {
            prior
        }
    }
}

/// The (rule, application) positions an evaluation tests triggers on: for
/// each enabled rule in order, the applications its scope admits.
pub open spec fn candidate_pairs(rules: Seq<RuleScope>, apps: Seq<u128>) -> Seq<(int, int)>
    decreases rules.len(),
{
    if rules.len() == 0 {
        Seq::empty()
    } else {
        let prior = candidate_pairs(rules.drop_last(), apps);
        if rules.last().enabled {
            prior + rule_pairs(rules.len() - 1, scope_view(rules.last().app_ids), apps)
        } else {
            prior
        }
    }
}

/// The positions as integers.
pub open spec fn int_pairs(v: Seq<(usize, usize)>) -> Seq<(int, int)> {
    v.map_values(|p: (usize, usize)| (p.0 as int, p.1 as int))
}

/// The (rule, application) positions whose trigger an evaluation tests, in
/// the order it tests them: disabled rules are skipped, and a scoped rule
/// only meets the applications of its scope.
pub fn evaluation_pairs(rules: &Vec<RuleScope>, apps: &Vec<u128>) -> (r: Vec<(usize, usize)>)
    ensures
        int_pairs(r@) == candidate_pairs(rules@, apps@),
{
    let mut out: Vec<(usize, usize)> = Vec::new();
    let mut i: usize = 0;
    while i < rules.len()
        invariant
            i <= rules.len(),
            int_pairs(out@) == candidate_pairs(rules@.take(i as int), apps@),
        decreases rules.len() - i,
    {
        assert(rules@.take(i + 1).drop_last() =~= rules@.take(i as int));
        let rule = &rules[i];
        if rule.enabled {
            let ghost base = out@;
            let mut j: usize = 0;
            while j < apps.len()
                invariant
                    i < rules.len(),
                    j <= apps.len(),
                    *rule == rules@[i as int],
                    int_pairs(out@) == int_pairs(base) + rule_pairs(
                        i as int,
                        scope_view(rules@[i as int].app_ids),
                        apps@.take(j as int),
                    ),
                decreases apps.len() - j,
            {
                let ghost before = out@;
                assert(apps@.take(j + 1).drop_last() =~= apps@.take(j as int));
                if applies_to(&rule.app_ids, apps[j]) {
                    out.push((i, j));
                    assert(int_pairs(out@) =~= int_pairs(before).push((i as int, j as int)));
                }
                j = j + 1;
            }
            assert(apps@.take(apps.len() as int) =~= apps@);
        }
        i = i + 1;
    }
    assert(rules@.take(rules.len() as int) =~= rules@);
    out
}

} // verus!

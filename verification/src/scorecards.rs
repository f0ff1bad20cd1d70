//! The weighted tally of a production-readiness scorecard: which checks
//! count, the weight they carry and whether a critical one failed. Whether
//! each check passed, and the score and level drawn from the tally, are
//! computed on floating-point metrics outside this crate.

use vstd::prelude::*;
use crate::text::{chars_of, str_eq, trim, trimmed};

verus! {

/// One configured check with its outcome.
pub struct CheckOutcome {
    pub enabled: bool,
    pub weight: i32,
    /// `info`, `warn` or `critical`.
    pub severity: String,
    pub passed: bool,
}

/// The tally of the enabled checks.
#[derive(Debug, Clone, Copy, PartialEq, Eq, Structural)]
pub struct ScoreTally {
    /// The sum of their weights, a negative weight counting as zero.
    pub total_weight: i32,
    /// The sum of the weights of those that passed.
    pub earned: i32,
    /// Whether one of severity `critical` failed.
    pub critical_failed: bool,
}

/// The weight a check carries: its own, or zero when negative.
pub open spec fn carried(w: i32) -> int {
    if w < 0 {
        0
    } else {
        w as int
    }
}

/// The summed weight of the enabled checks.
pub open spec fn total_of(s: Seq<CheckOutcome>) -> int
    decreases s.len(),
{
    if s.len() == 0 {
        0
    } else {
        total_of(s.drop_last()) + if s.last().enabled {
            carried(s.last().weight)
        } else {
            0
        }
    }
}

/// The summed weight of the enabled checks that passed.
pub open spec fn earned_of(s: Seq<CheckOutcome>) -> int
    decreases s.len(),
{
    if s.len() == 0 {
        0
    } else {
        earned_of(s.drop_last()) + if s.last().enabled && s.last().passed {
            carried(s.last().weight)
        } else {
            0
        }
    }
}

/// Whether an enabled check of severity `critical` failed.
pub open spec fn critical_failed_of(s: Seq<CheckOutcome>) -> bool {
    exists|i: int|
        0 <= i < s.len() && (#[trigger] s[i]).enabled && !s[i].passed && s[i].severity@ == "critical"@
}

/// What passes can earn never exceeds the total, and neither is negative.
pub proof fn lemma_earned_within_total(s: Seq<CheckOutcome>)
    ensures
        0 <= earned_of(s) <= total_of(s),
    decreases s.len(),
{
    if s.len() > 0 {
        lemma_earned_within_total(s.drop_last());
    }
}

/// The summed weight of the enabled checks of a prefix never exceeds that
/// of the whole.
proof fn lemma_total_prefix(s: Seq<CheckOutcome>, k: int)
    requires
        0 <= k <= s.len(),
    ensures
        total_of(s.take(k)) <= total_of(s),
    decreases s.len() - k,
{
    if k < s.len() {
        lemma_total_prefix(s, k + 1);
        assert(s.take(k + 1).drop_last() =~= s.take(k));
    }
    assert(s.take(s.len() as int) =~= s);
}

/// Tallies the enabled checks: their total weight, the weight of those that
/// passed, and whether a critical one failed. The total must fit in an
/// `i32`, the type weights are summed in.
pub fn tally(checks: &Vec<CheckOutcome>) -> (t: ScoreTally)
    requires
        total_of(checks@) <= i32::MAX,
    ensures
        t.total_weight == total_of(checks@),
        t.earned == earned_of(checks@),
        t.critical_failed == critical_failed_of(checks@),
{
    proof {
        reveal_strlit("critical");
    }
    let mut total: i32 = 0;
    let mut earned: i32 = 0;
    let mut critical_failed = false;
    let mut k: usize = 0;
    while k < checks.len()
        invariant
            k <= checks.len(),
            total_of(checks@) <= i32::MAX,
            total == total_of(checks@.take(k as int)),
            earned == earned_of(checks@.take(k as int)),
            critical_failed == critical_failed_of(checks@.take(k as int)),
        decreases checks.len() - k,
    {
        let c = &checks[k];
        let ghost pre = checks@.take(k as int);
        let ghost post = checks@.take(k + 1);
        assert(post.drop_last() =~= pre);
        assert(post.last() == *c);
        proof {
            lemma_total_prefix(checks@, k + 1);
            lemma_earned_within_total(post);
            lemma_earned_within_total(pre);
        }
        if c.enabled {
            let w: i32 = if c.weight < 0 {
                0
            } else {
                c.weight
            };
            total = total + w;
            if c.passed {
                earned = earned + w;
            } else if str_eq(c.severity.as_str(), "critical") {
                critical_failed = true;
            }
        }
        proof {
            assert(critical_failed == critical_failed_of(post)) by {
                if critical_failed_of(post) && !critical_failed_of(pre) {
                    let i = choose|i: int|
                        0 <= i < post.len() && (#[trigger] post[i]).enabled && !post[i].passed && post[i].severity@
                            == "critical"@;
                    if i < k {
                        assert(pre[i] == post[i]);
                    }
                }
                if critical_failed_of(pre) {
                    let i = choose|i: int|
                        0 <= i < pre.len() && (#[trigger] pre[i]).enabled && !pre[i].passed && pre[i].severity@
                            == "critical"@;
                    assert(post[i] == pre[i]);
                }
                if c.enabled && !c.passed && c.severity@ == "critical"@ {
                    assert(post[k as int] == *c);
                }
            }
        }
        k = k + 1;
    }
    assert(checks@.take(checks.len() as int) =~= checks@);
    ScoreTally { total_weight: total, earned, critical_failed }
}

/// What the non-metric readiness rules read of an application.
pub struct RuleFacts {
    /// The names of its owning teams.
    pub owner_teams: Vec<String>,
    /// Its description, when it has one.
    pub description: Option<String>,
    /// For each component, how many observability signals it lists.
    pub component_signals: Vec<usize>,
    /// For each use case, how many diagrams it lists.
    pub use_case_diagrams: Vec<usize>,
}

/// Whether some count is positive.
pub open spec fn any_positive(s: Seq<usize>) -> bool {
    exists|i: int| 0 <= i < s.len() && #[trigger] s[i] > 0
}

/// The outcome of a rule that needs no metric: `has_owner` passes with an
/// owning team, `documented` with a non-blank description,
/// `has_observability` when a component lists a signal, `has_diagrams` when
/// a use case lists a diagram, and an unknown rule always passes (it never
/// blocks readiness). `None` for the metric rules `metric_min` and
/// `metric_max`, which compare metric values.
pub open spec fn rule_result(rule: Seq<char>, f: RuleFacts) -> Option<bool> {
    if rule == "has_owner"@ {
        Some(f.owner_teams@.len() > 0)
    } else if rule == "documented"@ {
        Some(match f.description {
            Some(d) => trim(d@).len() > 0,
            None => false,
        })
    } else if rule == "has_observability"@ {
        Some(any_positive(f.component_signals@))
    } else if rule == "has_diagrams"@ {
        Some(any_positive(f.use_case_diagrams@))
    } else if rule == "metric_min"@ || rule == "metric_max"@ {
        None
    } else {
        Some(true)
    }
}

fn has_positive(v: &Vec<usize>) -> (b: bool)
    ensures
        b == any_positive(v@),
{
    let mut i: usize = 0;
    while i < v.len()
        invariant
            i <= v.len(),
            forall|j: int| 0 <= j < i ==> v@[j] == 0,
        decreases v.len() - i,
    {
        if v[i] > 0 {
            return true;
        }
        i = i + 1;
    }
    false
}

/// Runs a readiness rule that needs no metric (see `rule_result`).
pub fn run_plain_rule(rule: &str, facts: &RuleFacts) -> (r: Option<bool>)
    ensures
        r == rule_result(rule@, *facts),
{
    proof {
        reveal_strlit("has_owner");
        reveal_strlit("documented");
        reveal_strlit("has_observability");
        reveal_strlit("has_diagrams");
        reveal_strlit("metric_min");
        reveal_strlit("metric_max");
    }
    if str_eq(rule, "has_owner") {
        Some(facts.owner_teams.len() > 0)
    } else if str_eq(rule, "documented") {
        match &facts.description {
            Some(d) => Some(trimmed(&chars_of(d.as_str())).len() > 0),
            None => Some(false),
        }
    } else if str_eq(rule, "has_observability") {
        Some(has_positive(&facts.component_signals))
    } else if str_eq(rule, "has_diagrams") {
        Some(has_positive(&facts.use_case_diagrams))
    } else if str_eq(rule, "metric_min") || str_eq(rule, "metric_max") {
        None
    } else {
        Some(true)
    }
}

/// The readiness rules that read no metric, over all facts: `has_diagrams`
/// passes exactly when some use case lists a diagram (so it fails when
/// every use case lists none, however many there are), `has_observability`
/// exactly when some component lists a signal, `has_owner` exactly when a
/// team owns the application, and `documented` exactly when the description
/// has a non-whitespace character.
pub proof fn lemma_plain_rules(f: RuleFacts)
    ensures
        rule_result("has_diagrams"@, f) == Some(
            exists|i: int| 0 <= i < f.use_case_diagrams@.len() && f.use_case_diagrams@[i] >= 1,
        ),
        (forall|i: int| 0 <= i < f.use_case_diagrams@.len() ==> f.use_case_diagrams@[i] == 0) ==> rule_result(
            "has_diagrams"@,
            f,
        ) == Some(false),
        rule_result("has_observability"@, f) == Some(
            exists|i: int| 0 <= i < f.component_signals@.len() && f.component_signals@[i] >= 1,
        ),
        (forall|i: int| 0 <= i < f.component_signals@.len() ==> f.component_signals@[i] == 0) ==> rule_result(
            "has_observability"@,
            f,
        ) == Some(false),
        rule_result("has_owner"@, f) == Some(f.owner_teams@.len() != 0),
        rule_result("documented"@, f) == Some(
            exists|d: String| f.description == Some(d) && trim(d@).len() != 0,
        ),
{
    reveal_strlit("has_owner");
    reveal_strlit("documented");
    reveal_strlit("has_observability");
    reveal_strlit("has_diagrams");
    reveal_strlit("metric_min");
    reveal_strlit("metric_max");
    assert("has_diagrams"@.len() == 12);
    assert("has_owner"@.len() == 9);
    assert("documented"@.len() == 10);
    assert("has_observability"@.len() == 17);
    if any_positive(f.use_case_diagrams@) {
        let i = choose|i: int| 0 <= i < f.use_case_diagrams@.len() && #[trigger] f.use_case_diagrams@[i] > 0;
        assert(f.use_case_diagrams@[i] >= 1);
    }
    if any_positive(f.component_signals@) {
        let i = choose|i: int| 0 <= i < f.component_signals@.len() && #[trigger] f.component_signals@[i] > 0;
        assert(f.component_signals@[i] >= 1);
    }
    if exists|i: int| 0 <= i < f.use_case_diagrams@.len() && f.use_case_diagrams@[i] >= 1 {
        let i = choose|i: int| 0 <= i < f.use_case_diagrams@.len() && f.use_case_diagrams@[i] >= 1;
        assert(f.use_case_diagrams@[i] > 0);
    }
    if exists|i: int| 0 <= i < f.component_signals@.len() && f.component_signals@[i] >= 1 {
        let i = choose|i: int| 0 <= i < f.component_signals@.len() && f.component_signals@[i] >= 1;
        assert(f.component_signals@[i] > 0);
    }
    match f.description {
        Some(d) => {
            if trim(d@).len() != 0 {
                assert(f.description == Some(d) && trim(d@).len() != 0);
            }
        },
        None => {},
    }
}

} // verus!

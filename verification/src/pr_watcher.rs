//! The decisions of the pull-request watcher, which reconciles the pull
//! requests opened by agent tasks: finishing merged or closed ones and
//! sending the agent back to fix new review comments, merge conflicts or
//! failed checks.

use vstd::prelude::*;
use crate::techradar::digits_value;
use crate::text::{
    chars_of, push_str, push_all, string_of, str_eq, starts_with, starts_with_chars, join, join_chars, seqs_of,
    slice_chars, last_index, rfind_char,
};

verus! {

broadcast use vstd::seq_lib::group_seq_properties;

/// Prefix of the agent's own PR comments: when the latest comment carries
/// it, the watcher has already acted on the current state.
pub const AGENT_MARKER: &'static str = "🤖 pmp-iq:";

/// `s` without its trailing `/` characters.
pub open spec fn trim_slashes(s: Seq<char>) -> Seq<char>
    decreases s.len(),
{
    if s.len() > 0 && s.last() == '/' {
        trim_slashes(s.drop_last())
    } else {
        s
    }
}

/// The text after the last `/` (all of it when there is none).
pub open spec fn last_segment(s: Seq<char>) -> Seq<char> {
    match last_index(s, '/') {
        Some(i) => s.skip(i + 1),
        None => s,
    }
}

/// Every character is an ASCII digit.
pub open spec fn all_digits(d: Seq<char>) -> bool {
    forall|i: int| 0 <= i < d.len() ==> '0' <= #[trigger] d[i] && d[i] <= '9'
}

/// std's `u64` parsing: an optional `+`, then one or more ASCII digits whose
/// value fits in a `u64`.
pub open spec fn u64_of(s: Seq<char>) -> Option<u64> {
    let d = if s.len() > 0 && s[0] == '+' {
        s.drop_first()
    } else {
        s
    };
    if d.len() > 0 && all_digits(d) && digits_value(d) <= u64::MAX {
        Some(digits_value(d) as u64)
    } else {
        None
    }
}

/// The PR number of a PR URL: its last path segment as a number.
pub open spec fn pr_number_of(url: Seq<char>) -> Option<u64> {
    u64_of(last_segment(trim_slashes(url)))
}

/// Parses a decimal `u64` the way std does.
fn parse_u64(s: &[char]) -> (r: Option<u64>)
    ensures
        r == u64_of(s@),
{
    let start: usize = if s.len() > 0 && s[0] == '+' { 1 } else { 0 };
    let d = slice_chars(s, start, s.len());
    assert(d@ == (if s@.len() > 0 && s@[0] == '+' { s@.drop_first() } else { s@ }));
    if d.len() == 0 {
        return None;
    }
    let mut i: usize = 0;
    let mut value: u64 = 0;
    let mut overflow = false;
    while i < d.len()
        invariant
            i <= d@.len(),
            d@.len() > 0,
            d@ == (if s@.len() > 0 && s@[0] == '+' { s@.drop_first() } else { s@ }),
            all_digits(d@.take(i as int)),
            !overflow ==> value == digits_value(d@.take(i as int)),
            overflow ==> digits_value(d@.take(i as int)) > u64::MAX,
        decreases d.len() - i,
    {
        let c = d[i];
        if c < '0' || c > '9' {
            assert(!all_digits(d@));
            return None;
        }
        let k = (c as u32 - 48) as u64;
        assert(d@.take(i + 1).drop_last() == d@.take(i as int));
        assert(d@.take(i + 1).last() == c);
        if !overflow {
            if value <= (u64::MAX - k) / 10 {
                assert(value * 10 + k <= u64::MAX) by (nonlinear_arith)
                    requires
                        value <= (u64::MAX - k) / 10,
                        k <= 9,
                ;
                value = value * 10 + k;
            } else {
                assert(value * 10 + k > u64::MAX) by (nonlinear_arith)
                    requires
                        value > (u64::MAX - k) / 10,
                        k <= 9,
                ;
                overflow = true;
            }
        } else {
            assert(digits_value(d@.take(i + 1)) >= digits_value(d@.take(i as int))) by (nonlinear_arith)
                requires
                    digits_value(d@.take(i + 1)) == digits_value(d@.take(i as int)) * 10 + k,
            ;
        }
        assert(all_digits(d@.take(i + 1))) by {
            assert forall|j: int| 0 <= j < i + 1 implies '0' <= #[trigger] d@.take(i + 1)[j] && d@.take(i + 1)[j]
                <= '9' by {
                if j < i {
                    assert(d@.take(i + 1)[j] == d@.take(i as int)[j]);
                }
            }
        }
        i = i + 1;
    }
    assert(d@.take(d@.len() as int) == d@);
    if overflow {
        None
    } else {
        Some(value)
    }
}

/// Parses the PR number from a PR URL (`.../pull/7` or
/// `.../merge_requests/7`).
pub fn parse_pr_number(url: &str) -> (r: Option<u64>)
    ensures
        r == pr_number_of(url@),
{
    let u = chars_of(url);
    let mut n = u.len();
    assert(u@.take(n as int) == u@);
    while n > 0 && u[n - 1] == '/'
        invariant
            n <= u@.len(),
            u@ == url@,
            trim_slashes(url@) == trim_slashes(u@.take(n as int)),
        decreases n,
    {
        assert(u@.take(n as int).drop_last() == u@.take(n - 1));
        n = n - 1;
    }
    let t = slice_chars(&u, 0, n);
    assert(t@ == u@.take(n as int));
    assert(trim_slashes(t@) == t@);
    let seg = match rfind_char(&t, '/') {
        Some(i) => {
            proof {
                lemma_last_index_in(t@, '/');
            }
            slice_chars(&t, i + 1, t.len())
        },
        None => t,
    };
    parse_u64(&seg)
}

proof fn lemma_last_index_in(s: Seq<char>, c: char)
    ensures
        match last_index(s, c) {
            Some(i) => 0 <= i < s.len(),
            None => true,
        },
    decreases s.len(),
{
    if s.len() > 0 && s.last() != c {
        lemma_last_index_in(s.drop_last(), c);
    }
}

/// The instruction sent to the agent for the PR of `repo`: the conflict with
/// `base`, the failing checks and the review comment, each only when present.
pub open spec fn fix_instruction_text(
    repo: Seq<char>,
    base: Seq<char>,
    conflict: bool,
    failed: Seq<Seq<char>>,
    human: Option<Seq<char>>,
) -> Seq<char> {
    "You are continuing work on the open pull request for repository '"@ + repo
        + "'. Your working directory is checked out on the PR branch. "@ + (if conflict {
        "The PR has merge conflicts with the base branch '"@ + base + "'. Merge or rebase 'origin/"@ + base
            + "' into the branch, resolve all conflicts, and commit the result. "@
    } else {
        Seq::empty()
    }) + (if failed.len() > 0 {
        "These CI checks are failing \u{2014} investigate and fix them: "@ + join(failed, ", "@) + ". "@
    } else {
        Seq::empty()
    }) + (match human {
        Some(c) => "Address this review comment:\n\n"@ + c + "\n\n"@,
        None => Seq::empty(),
    }) + "Make the necessary code changes, then summarise what you did."@
}

/// Builds the agent's fix instruction for an open PR.
pub fn build_fix_instruction(
    repo: &str,
    base: &str,
    conflict: bool,
    failed: &[String],
    human: Option<&str>,
) -> (r: String)
    ensures
        r@ == fix_instruction_text(
            repo@,
            base@,
            conflict,
            failed@.map_values(|s: String| s@),
            match human {
                Some(h) => Some(h@),
                None => None,
            },
        ),
{
    let mut s: Vec<char> = Vec::new();
    push_str(&mut s, "You are continuing work on the open pull request for repository '");
    push_str(&mut s, repo);
    push_str(&mut s, "'. Your working directory is checked out on the PR branch. ");
    let ghost head = s@;
    if conflict {
        push_str(&mut s, "The PR has merge conflicts with the base branch '");
        push_str(&mut s, base);
        push_str(&mut s, "'. Merge or rebase 'origin/");
        push_str(&mut s, base);
        push_str(&mut s, "' into the branch, resolve all conflicts, and commit the result. ");
    }
    let ghost with_conflict = s@;
    let ghost names = failed@.map_values(|x: String| x@);
    if failed.len() > 0 {
        let mut parts: Vec<Vec<char>> = Vec::new();
        let mut i: usize = 0;
        while i < failed.len()
            invariant
                i <= failed@.len(),
                names == failed@.map_values(|x: String| x@),
                seqs_of(parts@) == names.take(i as int),
            decreases failed.len() - i,
        {
            let ghost before = parts@;
            parts.push(chars_of(failed[i].as_str()));
            assert(seqs_of(parts@) == seqs_of(before).push(failed@[i as int]@));
            assert(names.take(i + 1) == names.take(i as int).push(names[i as int]));
            i = i + 1;
        }
        assert(names.take(failed@.len() as int) == names);
        push_str(&mut s, "These CI checks are failing \u{2014} investigate and fix them: ");
        let joined = join_chars(&parts, &chars_of(", "));
        push_all(&mut s, &joined);
        push_str(&mut s, ". ");
    }
    let ghost with_failed = s@;
    match human {
        Some(comment) => {
            push_str(&mut s, "Address this review comment:\n\n");
            push_str(&mut s, comment);
            push_str(&mut s, "\n\n");
        },
        None => {},
    }
    push_str(&mut s, "Make the necessary code changes, then summarise what you did.");
    string_of(&s)
}

/// The AI profile the watcher acts with: the first enabled one, else the
/// first one, given as `(id, enabled)` pairs.
pub open spec fn profile_pick(profiles: Seq<(u128, bool)>) -> Option<u128> {
    if exists|i: int| 0 <= i < profiles.len() && (#[trigger] profiles[i]).1 {
        let i = choose|i: int|
            0 <= i < profiles.len() && (#[trigger] profiles[i]).1 && forall|j: int| 0 <= j < i ==> !profiles[j].1;
        Some(profiles[i].0)
    } else if profiles.len() > 0 {
        Some(profiles[0].0)
    } else {
        None
    }
}

/// Picks the profile: the first enabled one, else the first.
pub fn default_profile(profiles: &[(u128, bool)]) -> (r: Option<u128>)
    ensures
        r == profile_pick(profiles@),
        match r {
            Some(id) => exists|i: int| 0 <= i < profiles@.len() && (#[trigger] profiles@[i]).0 == id,
            None => profiles@.len() == 0,
        },
{
    let mut i: usize = 0;
    while i < profiles.len()
        invariant
            i <= profiles@.len(),
            forall|j: int| 0 <= j < i ==> !(#[trigger] profiles@[j]).1,
        decreases profiles.len() - i,
    {
        if profiles[i].1 {
            proof {
                let w = choose|w: int|
                    0 <= w < profiles@.len() && (#[trigger] profiles@[w]).1 && forall|j: int|
                        0 <= j < w ==> !profiles@[j].1;
                assert(w == i) by {
                    if w < i {
                        assert(!profiles@[w].1);
                    }
                    if w > i {
                        assert(!profiles@[i as int].1);
                    }
                }
            }
            return Some(profiles[i].0);
        }
        i = i + 1;
    }
    if profiles.len() > 0 {
        Some(profiles[0].0)
    } else {
        None
    }
}

/// Where an agent-task target's pull request stands.
#[derive(Debug, Clone, Copy, PartialEq, Eq, Structural)]
pub enum TargetState {
    Merged,
    Closed,
    Open,
}

/// The task's settled state once every target is merged or closed: merged
/// when any target merged, else closed; none while a target is open or when
/// there are no targets.
pub open spec fn settled(targets: Seq<TargetState>) -> Option<TargetState> {
    if targets.len() == 0 || exists|i: int| 0 <= i < targets.len() && #[trigger] targets[i] == TargetState::Open {
        None
    } else if exists|i: int| 0 <= i < targets.len() && #[trigger] targets[i] == TargetState::Merged {
        Some(TargetState::Merged)
    } else {
        Some(TargetState::Closed)
    }
}

/// Settles a task from its targets' states.
pub fn settle_task(targets: &[TargetState]) -> (r: Option<TargetState>)
    ensures
        r == settled(targets@),
{
    if targets.len() == 0 {
        return None;
    }
    let mut any_merged = false;
    let mut i: usize = 0;
    while i < targets.len()
        invariant
            i <= targets@.len(),
            forall|j: int| 0 <= j < i ==> #[trigger] targets@[j] != TargetState::Open,
            any_merged == exists|j: int| 0 <= j < i && #[trigger] targets@[j] == TargetState::Merged,
        decreases targets.len() - i,
    {
        match targets[i] {
            TargetState::Open => {
                return None;
            },
            TargetState::Merged => {
                any_merged = true;
            },
            TargetState::Closed => {},
        }
        i = i + 1;
    }
    if any_merged {
        Some(TargetState::Merged)
    } else {
        Some(TargetState::Closed)
    }
}

/// How the watcher finishes a target whose PR is no longer open: the final
/// state and the note added to the task.
pub open spec fn finish_of(state: Seq<char>, repo: Seq<char>) -> Option<(TargetState, Seq<char>)> {
    if state == "merged"@ {
        Some((TargetState::Merged, "**"@ + repo + "** PR was merged. \u{2705}"@))
    } else if state == "closed"@ {
        Some((TargetState::Closed, "**"@ + repo + "** PR was closed without merging."@))
    } else {
        None
    }
}

/// Decides from the provider's PR state whether the target is finished, and
/// with which note.
pub fn finish_for(state: &str, repo: &str) -> (r: Option<(TargetState, String)>)
    ensures
        match (r, finish_of(state@, repo@)) {
            (Some((s, n)), Some((t, m))) => s == t && n@ == m,
            (None, None) => true,
            _ => false,
        },
{
    if str_eq(state, "merged") {
        let mut n: Vec<char> = Vec::new();
        push_str(&mut n, "**");
        push_str(&mut n, repo);
        push_str(&mut n, "** PR was merged. \u{2705}");
        Some((TargetState::Merged, string_of(&n)))
    } else if str_eq(state, "closed") {
        let mut n: Vec<char> = Vec::new();
        push_str(&mut n, "**");
        push_str(&mut n, repo);
        push_str(&mut n, "** PR was closed without merging.");
        Some((TargetState::Closed, string_of(&n)))
    } else {
        None
    }
}

/// Whether the watcher already acted on the PR's current state: the latest
/// comment is its own.
pub fn already_acted(last_comment: Option<&str>) -> (b: bool)
    ensures
        b == match last_comment {
            Some(c) => starts_with(c@, AGENT_MARKER@),
            None => false,
        },
{
    match last_comment {
        Some(c) => starts_with_chars(&chars_of(c), &chars_of(AGENT_MARKER)),
        None => false,
    }
}

/// A CI check run on the PR head: its name and conclusion, if concluded.
pub struct CheckRun {
    pub name: String,
    pub conclusion: Option<String>,
}

/// The names of the failed checks, in order.
pub open spec fn failed_checks(checks: Seq<CheckRun>) -> Seq<Seq<char>> {
    checks.filter(|c: CheckRun| c.conclusion matches Some(s) && s@ == "failure"@).map_values(|c: CheckRun| c.name@)
}

/// A fix turn for the agent: its instruction and the PR comment announcing
/// it.
pub struct FixPlan {
    pub instruction: String,
    pub note: String,
}

/// The note posted on the PR when the agent is sent to fix it.
pub open spec fn fix_note() -> Seq<char> {
    AGENT_MARKER@ + " addressing the review feedback / CI / conflicts; a fix is on the way."@
}

/// Decides whether an open PR needs a fix turn: when it has merge conflicts
/// (`mergeable` is `Some(false)`), failed checks or a latest review comment.
/// The instruction names the base branch (`main` when unknown).
pub fn fix_plan(
    repo: &str,
    default_branch: Option<&str>,
    mergeable: Option<bool>,
    checks: &[CheckRun],
    last_comment: Option<&str>,
) -> (r: Option<FixPlan>)
    ensures
        ({
            let conflict = mergeable == Some(false);
            let failed = failed_checks(checks@);
            if !conflict && failed.len() == 0 && last_comment is None {
                r is None
            } else {
                r matches Some(p) && p.note@ == fix_note() && p.instruction@ == fix_instruction_text(
                    repo@,
                    match default_branch {
                        Some(b) => b@,
                        None => "main"@,
                    },
                    conflict,
                    failed,
                    match last_comment {
                        Some(c) => Some(c@),
                        None => None,
                    },
                )
            }
        }),
{
    let conflict = match mergeable {
        Some(m) => !m,
        None => false,
    };
    let ghost p = |c: CheckRun| c.conclusion matches Some(s) && s@ == "failure"@;
    let mut failed: Vec<String> = Vec::new();
    let mut i: usize = 0;
    proof {
        reveal_strlit("failure");
    }
    while i < checks.len()
        invariant
            i <= checks@.len(),
            p == (|c: CheckRun| c.conclusion matches Some(s) && s@ == "failure"@),
            failed@.map_values(|s: String| s@) == checks@.take(i as int).filter(p).map_values(|c: CheckRun| c.name@),
        decreases checks.len() - i,
    {
        let c = &checks[i];
        let hit = match &c.conclusion {
            Some(s) => str_eq(s.as_str(), "failure"),
            None => false,
        };
        assert(p(checks@[i as int]) == hit);
        assert(checks@.take(i + 1) == checks@.take(i as int).push(checks@[i as int]));
        proof {
            checks@.take(i as int).lemma_filter_push(checks@[i as int], p);
        }
        if hit {
            let ghost before = failed@;
            failed.push(c.name.clone());
            assert(failed@.map_values(|s: String| s@) == before.map_values(|s: String| s@).push(c.name@));
        }
        i = i + 1;
    }
    assert(checks@.take(checks@.len() as int) == checks@);
    if !conflict && failed.len() == 0 && last_comment.is_none() {
        return None;
    }
    proof {
        reveal_strlit("main");
    }
    let base = match default_branch {
        Some(b) => b,
        None => "main",
    };
    let instruction = build_fix_instruction(repo, base, conflict, &failed, last_comment);
    let mut note: Vec<char> = Vec::new();
    push_str(&mut note, AGENT_MARKER);
    push_str(&mut note, " addressing the review feedback / CI / conflicts; a fix is on the way.");
    Some(FixPlan { instruction, note: string_of(&note) })
}

/// Settling a task, over all target lists and whatever their order: a task
/// with an open target or no targets is not settled; once no target is open,
/// one merged target anywhere makes it merged; and it is closed only when
/// every target was closed.
pub proof fn lemma_settle_outcomes(targets: Seq<TargetState>, k: int)
    ensures
        targets.len() == 0 ==> settled(targets) is None,
        0 <= k < targets.len() && targets[k] == TargetState::Open ==> settled(targets) is None,
        0 <= k < targets.len() && targets[k] == TargetState::Merged && (forall|i: int|
            0 <= i < targets.len() ==> targets[i] != TargetState::Open) ==> settled(targets) == Some(
            TargetState::Merged,
        ),
        settled(targets) == Some(TargetState::Closed) ==> targets.len() > 0 && forall|i: int|
            0 <= i < targets.len() ==> targets[i] == TargetState::Closed,
        targets.len() > 0 && (forall|i: int| 0 <= i < targets.len() ==> targets[i] == TargetState::Closed)
            ==> settled(targets) == Some(TargetState::Closed),
{
    if 0 <= k < targets.len() {
        if targets[k] == TargetState::Open {
            assert(exists|i: int| 0 <= i < targets.len() && #[trigger] targets[i] == TargetState::Open);
        }
        if targets[k] == TargetState::Merged {
            assert(exists|i: int| 0 <= i < targets.len() && #[trigger] targets[i] == TargetState::Merged);
        }
    }
    if settled(targets) == Some(TargetState::Closed) {
        assert forall|i: int| 0 <= i < targets.len() implies targets[i] == TargetState::Closed by {
            if targets[i] == TargetState::Open {
                assert(exists|j: int| 0 <= j < targets.len() && #[trigger] targets[j] == TargetState::Open);
            }
            if targets[i] == TargetState::Merged {
                assert(exists|j: int| 0 <= j < targets.len() && #[trigger] targets[j] == TargetState::Merged);
            }
        }
    }
}

} // verus!

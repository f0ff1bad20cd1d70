//! The decisions of the repository sync job: which accounts and repositories
//! a sweep visits, how its resumable checkpoint and tally evolve, when it
//! pauses or fails, which AI profile it analyses with, and how its
//! configuration is backfilled.

use vstd::prelude::*;
use crate::ids::{parse_uuid, uuid_parse_result, uuid_string, uuid_text};
use crate::keyed::{KeyedList, insert_sorted, lookup};
use crate::text::{decimal, decimal_chars, push_all, push_str, string_of, str_eq};

verus! {

/// The job type of the repository sync.
pub const JOB_TYPE: &'static str = "sync-repositories";

/// Running tally of a sweep.
#[derive(Debug, Clone, Copy, PartialEq, Eq, Structural)]
pub struct Tally {
    pub repositories: u32,
    pub cloned: u32,
    pub failed: u32,
    pub analyzed: u32,
    pub analysis_failed: u32,
}

/// What happened to one repository of a sweep.
#[derive(Debug, Clone, Copy, PartialEq, Eq, Structural)]
pub enum RepoEvent {
    /// A repository was selected for the sweep.
    Selected,
    /// Recording or cloning it failed.
    CloneFailed,
    /// It was cloned (or updated).
    Cloned,
    /// Its analysis, or writing the analysis, failed.
    AnalysisFailed,
    /// It was analysed and written.
    Analyzed,
}

/// The tally after an event: the event's count goes up by one.
pub open spec fn tallied(t: Tally, e: RepoEvent) -> Tally {
    match e {
        RepoEvent::Selected => Tally { repositories: (t.repositories + 1) as u32, ..t },
        RepoEvent::CloneFailed => Tally { failed: (t.failed + 1) as u32, ..t },
        RepoEvent::Cloned => Tally { cloned: (t.cloned + 1) as u32, ..t },
        RepoEvent::AnalysisFailed => Tally { analysis_failed: (t.analysis_failed + 1) as u32, ..t },
        RepoEvent::Analyzed => Tally { analyzed: (t.analyzed + 1) as u32, ..t },
    }
}

/// The event's count is below `u32::MAX`, so it can go up.
pub open spec fn can_tally(t: Tally, e: RepoEvent) -> bool {
    match e {
        RepoEvent::Selected => t.repositories < u32::MAX,
        RepoEvent::CloneFailed => t.failed < u32::MAX,
        RepoEvent::Cloned => t.cloned < u32::MAX,
        RepoEvent::AnalysisFailed => t.analysis_failed < u32::MAX,
        RepoEvent::Analyzed => t.analyzed < u32::MAX,
    }
}

impl Tally {
    /// All counts zero.
    pub fn new() -> (t: Tally)
        ensures
            t == (Tally { repositories: 0, cloned: 0, failed: 0, analyzed: 0, analysis_failed: 0 }),
    {
        Tally { repositories: 0, cloned: 0, failed: 0, analyzed: 0, analysis_failed: 0 }
    }

    /// Counts an event.
    pub fn record(&mut self, e: RepoEvent)
        requires
            can_tally(*old(self), e),
        ensures
            *final(self) == tallied(*old(self), e),
    {
        match e {
            RepoEvent::Selected => self.repositories = self.repositories + 1,
            RepoEvent::CloneFailed => self.failed = self.failed + 1,
            RepoEvent::Cloned => self.cloned = self.cloned + 1,
            RepoEvent::AnalysisFailed => self.analysis_failed = self.analysis_failed + 1,
            RepoEvent::Analyzed => self.analyzed = self.analyzed + 1,
        }
    }
}

/// The closing log line of a sweep.
pub open spec fn summary_text(t: Tally) -> Seq<char> {
    "done: "@ + decimal(t.repositories as nat) + " repositories, "@ + decimal(t.cloned as nat) + " cloned, "@
        + decimal(t.failed as nat) + " failed, "@ + decimal(t.analyzed as nat) + " analysed"@
}

/// Formats the closing log line.
pub fn summary_line(t: &Tally) -> (r: String)
    ensures
        r@ == summary_text(*t),
{
    let mut s: Vec<char> = Vec::new();
    push_str(&mut s, "done: ");
    push_all(&mut s, &decimal_chars(t.repositories as u64));
    push_str(&mut s, " repositories, ");
    push_all(&mut s, &decimal_chars(t.cloned as u64));
    push_str(&mut s, " cloned, ");
    push_all(&mut s, &decimal_chars(t.failed as u64));
    push_str(&mut s, " failed, ");
    push_all(&mut s, &decimal_chars(t.analyzed as u64));
    push_str(&mut s, " analysed");
    string_of(&s)
}

/// The resumable state of a sweep: the accounts fully processed (by id
/// text) and the tally.
pub struct Checkpoint {
    pub done_accounts: KeyedList<()>,
    pub tally: Tally,
}

impl Checkpoint {
    /// A fresh checkpoint: nothing done, all counts zero.
    pub fn new() -> (c: Checkpoint)
        ensures
            c.done_accounts@.len() == 0,
            c.tally == (Tally { repositories: 0, cloned: 0, failed: 0, analyzed: 0, analysis_failed: 0 }),
    {
        Checkpoint { done_accounts: KeyedList::new(), tally: Tally::new() }
    }

    /// Whether the account was fully processed.
    pub fn is_done(&self, account_id: u128) -> (b: bool)
        ensures
            b == lookup(self.done_accounts@, uuid_text(account_id)) is Some,
    {
        self.done_accounts.get(uuid_string(account_id).as_str()).is_some()
    }
}

/// A sweep visits an account unless it is scoped to another account's
/// repository or the account was already processed.
pub open spec fn visits(target: Option<u128>, account_id: u128, done: Seq<(Seq<char>, ())>) -> bool {
    &&& match target {
        Some(t) => t == account_id,
        None => true,
    }
    &&& lookup(done, uuid_text(account_id)) is None
}

/// Whether the sweep processes the account.
pub fn should_visit(target: Option<u128>, account_id: u128, checkpoint: &Checkpoint) -> (b: bool)
    ensures
        b == visits(target, account_id, checkpoint.done_accounts@),
{
    match target {
        Some(t) => if t != account_id {
            return false;
        },
        None => {},
    }
    !checkpoint.is_done(account_id)
}

/// How processing one account ended.
pub enum AccountOutcome {
    /// Every selected repository was handled (failures are per repository).
    Done,
    /// The provider rate-limited the sweep, until the given time if known
    /// (seconds since the Unix epoch).
    RateLimited(Option<i64>),
    /// Any other error, with its text.
    Failed(String),
}

/// What the sweep does after an account.
pub enum SweepAction {
    /// Go on with the next account.
    Continue,
    /// Pause, resuming at the given time if known.
    Pause(Option<i64>),
    /// Fail the run with this message.
    Fail(String),
}

/// Applies an account's outcome: a processed account joins the done set and
/// the sweep goes on; a rate limit pauses it until the reset; any other
/// error fails it, naming the account.
pub fn after_account(checkpoint: &mut Checkpoint, account_id: u128, account_name: &str, outcome: AccountOutcome) -> (a: SweepAction)
    ensures
        final(checkpoint).tally == old(checkpoint).tally,
        match outcome {
            AccountOutcome::Done => a is Continue && final(checkpoint).done_accounts@ == insert_sorted(
                old(checkpoint).done_accounts@,
                uuid_text(account_id),
                (),
            ),
            AccountOutcome::RateLimited(at) => a == SweepAction::Pause(at) && final(checkpoint).done_accounts@
                == old(checkpoint).done_accounts@,
            AccountOutcome::Failed(e) => a matches SweepAction::Fail(m) && m@ == "account '"@ + account_name@ + "': "@
                + e@ && final(checkpoint).done_accounts@ == old(checkpoint).done_accounts@,
        },
{
    match outcome {
        AccountOutcome::Done => {
            checkpoint.done_accounts.insert(uuid_string(account_id), ());
            SweepAction::Continue
        },
        AccountOutcome::RateLimited(at) => SweepAction::Pause(at),
        AccountOutcome::Failed(e) => {
            let mut m: Vec<char> = Vec::new();
            push_str(&mut m, "account '");
            push_str(&mut m, account_name);
            push_str(&mut m, "': ");
            push_str(&mut m, e.as_str());
            SweepAction::Fail(string_of(&m))
        },
    }
}

/// What the sweep does with the next account.
#[derive(Debug, Clone, Copy, PartialEq, Eq, Structural)]
pub enum AccountStep {
    /// Pass it by: out of the run's scope, or already processed.
    Skip,
    /// Stop cleanly before it: a pause was requested; the checkpoint is kept
    /// as it is for the resume.
    Pause,
    /// Process its repositories.
    Process,
}

/// The step the sweep takes at an account.
pub open spec fn step_of(target: Option<u128>, account_id: u128, done: Seq<(Seq<char>, ())>, pause_requested: bool) -> AccountStep {
    if !visits(target, account_id, done) {
        AccountStep::Skip
    } else if pause_requested {
        AccountStep::Pause
    } else {
        AccountStep::Process
    }
}

/// The step for an account: accounts outside the scope or already done are
/// passed by; before any other account a requested pause stops the sweep;
/// else the account is processed.
pub fn account_step(target: Option<u128>, account_id: u128, checkpoint: &Checkpoint, pause_requested: bool) -> (s: AccountStep)
    ensures
        s == step_of(target, account_id, checkpoint.done_accounts@, pause_requested),
{
    if !should_visit(target, account_id, checkpoint) {
        AccountStep::Skip
    } else if pause_requested {
        AccountStep::Pause
    } else {
        AccountStep::Process
    }
}

/// A requested pause stops the sweep between accounts: no account is
/// processed once a pause is requested, and an account already done is
/// never processed again.
pub proof fn lemma_pause_processes_nothing(target: Option<u128>, account_id: u128, done: Seq<(Seq<char>, ())>, pause_requested: bool)
    ensures
        pause_requested ==> step_of(target, account_id, done, pause_requested) != AccountStep::Process,
        lookup(done, uuid_text(account_id)) is Some ==> step_of(target, account_id, done, pause_requested)
            == AccountStep::Skip,
{
}

/// What a sweep does beyond cloning, decided by whether an AI provider is
/// configured: snapshot the catalog, prune orphaned shared entities at the
/// end, and how the opening log line describes the run.
pub struct SweepPlan {
    pub snapshot_catalog: bool,
    pub prune_orphans: bool,
    pub analysis: String,
}

/// The sweep's plan: the catalog snapshot and the orphan prune happen only
/// with a provider, which is also when repositories are analysed.
pub fn sweep_plan(has_provider: bool) -> (p: SweepPlan)
    ensures
        p.snapshot_catalog == has_provider,
        p.prune_orphans == has_provider,
        p.analysis@ == (if has_provider {
            "with analysis"@
        } else {
            "without analysis (no AI profile configured \u{2014} add one under AI Profiles)"@
        }),
{
    let analysis = if has_provider {
        String::from_str("with analysis")
    } else {
        String::from_str("without analysis (no AI profile configured \u{2014} add one under AI Profiles)")
    };
    SweepPlan { snapshot_catalog: has_provider, prune_orphans: has_provider, analysis }
}

/// The steps of a repository's analysis around the write: dependency
/// canonicalisation (before the write) and member reconciliation (after a
/// successful write) run on full analyses only; canonicalisation needs a
/// catalog snapshot and member reconciliation a GitHub account.
pub struct AnalysisSteps {
    pub resolve_dependencies: bool,
    pub reconcile_members: bool,
}

/// Decides the steps of an analysis.
pub fn analysis_steps(incremental: bool, has_catalog: bool, github_account: bool) -> (s: AnalysisSteps)
    ensures
        s.resolve_dependencies == (!incremental && has_catalog),
        s.reconcile_members == (!incremental && github_account),
{
    AnalysisSteps { resolve_dependencies: !incremental && has_catalog, reconcile_members: !incremental && github_account }
}

/// How an analysis is written.
#[derive(Debug, Clone, Copy, PartialEq, Eq, Structural)]
pub enum WriteMode {
    /// Merge into the existing application with this id.
    Partial(u128),
    /// Write the whole application.
    Full,
}

/// An incremental analysis of a repository that already has an application
/// is merged into it; every other analysis is written whole.
pub fn write_mode(incremental: bool, existing_application: Option<u128>) -> (m: WriteMode)
    ensures
        m == (match existing_application {
            Some(id) => if incremental {
                WriteMode::Partial(id)
            } else {
                WriteMode::Full
            },
            None => WriteMode::Full,
        }),
{
    match existing_application {
        Some(id) => if incremental {
            WriteMode::Partial(id)
        } else {
            WriteMode::Full
        },
        None => WriteMode::Full,
    }
}

/// Whether a repository is synced: all are, unless the run is scoped to one
/// repository's full name.
pub fn repo_selected(filter: Option<&str>, full_name: &str) -> (b: bool)
    ensures
        b == match filter {
            Some(f) => f@ == full_name@,
            None => true,
        },
{
    match filter {
        Some(f) => str_eq(f, full_name),
        None => true,
    }
}

/// Whether an incremental analysis is worth a changed-file diff: the run is
/// incremental and the repository was analysed before at another commit.
/// Otherwise the analysis is full.
pub fn needs_diff(incremental: bool, last_analyzed: Option<&str>, head: &str) -> (b: bool)
    ensures
        b == (incremental && match last_analyzed {
            Some(l) => l@ != head@,
            None => false,
        }),
{
    match last_analyzed {
        Some(l) => incremental && !str_eq(l, head),
        None => false,
    }
}

/// The AI profile pinned in the job configuration: none when nothing is
/// pinned (the default profile applies), its id when the pinned text is a
/// UUID, else an error naming the parse failure.
pub fn pinned_profile(pinned: Option<&str>) -> (r: Result<Option<u128>, String>)
    ensures
        match pinned {
            None => r == Ok::<Option<u128>, String>(None),
            Some(s) => match uuid_parse_result(s@) {
                Ok(id) => r == Ok::<Option<u128>, String>(Some(id)),
                Err(e) => r matches Err(m) && m@ == "invalid ai_profile_id: "@ + e,
            },
        },
{
    match pinned {
        None => Ok(None),
        Some(s) => match parse_uuid(s) {
            Ok(id) => Ok(Some(id)),
            Err(e) => {
                let mut m: Vec<char> = Vec::new();
                push_str(&mut m, "invalid ai_profile_id: ");
                push_str(&mut m, e.as_str());
                Err(string_of(&m))
            },
        },
    }
}

/// The profile to backfill into an existing sync job: only when the job has
/// none and one is available.
pub fn backfill_profile(job_has_profile: bool, available: Option<u128>) -> (r: Option<u128>)
    ensures
        r == (if job_has_profile {
            None
        } else {
            available
        }),
{
    if job_has_profile {
        None
    } else {
        available
    }
}

/// Resuming never repeats an account: once an account's outcome is recorded
/// as processed, the sweep does not visit it again.
pub proof fn lemma_done_account_not_revisited(done: Seq<(Seq<char>, ())>, account_id: u128, target: Option<u128>)
    ensures
        !visits(target, account_id, insert_sorted(done, uuid_text(account_id), ())),
{
    crate::keyed::lemma_lookup_insert(done, uuid_text(account_id), ());
}

} // verus!

//! Turning a repository checkout into an analysis request: the manifest
//! files gathered as context, the prompts, the incremental focus, the retry
//! decision on unparseable replies, and the pruning of file paths that do not
//! exist in the checkout.

use vstd::prelude::*;
use crate::analysis::{AnalysisConfig, AnalysisResult, ComponentInfo, UseCaseInfo, names, has_name};
use crate::prompts::{compose_system_prompt, composed_prompt};
use crate::text::{
    chars_of, push_all, push_str, slice_chars, string_of, trim, trimmed, join, join_chars, seqs_of,
};

verus! {

broadcast use vstd::seq_lib::group_seq_properties;

/// At most this many characters of each manifest file go into the context.
pub const MAX_FILE_CHARS: usize = 8000;

/// Replies that fail to parse are retried this many times.
pub const MAX_RETRIES: u32 = 1;

/// The manifest files looked for in a checkout, in order.
pub open spec fn signal_file_names() -> Seq<Seq<char>> {
    seq![
        "Cargo.toml"@, "package.json"@, "requirements.txt"@, "pyproject.toml"@, "go.mod"@, "pom.xml"@,
        "build.gradle"@, "Gemfile"@, "composer.json"@, "docker-compose.yml"@, "docker-compose.yaml"@,
        "Dockerfile"@, "Makefile"@, ".gitlab-ci.yml"@, ".github/workflows"@, "CODEOWNERS"@, "README.md"@,
    ]
}

/// The manifest files looked for in a checkout.
pub fn signal_files() -> (r: Vec<&'static str>)
    ensures
        r@.map_values(|s: &'static str| s@) == signal_file_names(),
{
    let r = vec![
        "Cargo.toml", "package.json", "requirements.txt", "pyproject.toml", "go.mod", "pom.xml",
        "build.gradle", "Gemfile", "composer.json", "docker-compose.yml", "docker-compose.yaml",
        "Dockerfile", "Makefile", ".gitlab-ci.yml", ".github/workflows", "CODEOWNERS", "README.md",
    ];
    assert(r@.map_values(|s: &'static str| s@) =~= signal_file_names());
    r
}

/// `s` without its trailing `/` characters.
pub open spec fn without_trailing_slashes(s: Seq<char>) -> Seq<char>
    decreases s.len(),
{
    if s.len() > 0 && s.last() == '/' {
        without_trailing_slashes(s.drop_last())
    } else {
        s
    }
}

/// The path of a manifest file in the checkout.
pub open spec fn signal_path(checkout: Seq<char>, file: Seq<char>) -> Seq<char> {
    without_trailing_slashes(checkout) + "/"@ + file
}

/// The paths of the manifest files in a checkout, in the order of
/// `signal_files`.
pub fn signal_paths(checkout: &str) -> (r: Vec<String>)
    ensures
        names(r@) == signal_file_names().map_values(|f: Seq<char>| signal_path(checkout@, f)),
{
    let c = chars_of(checkout);
    let mut n = c.len();
    assert(c@.take(n as int) == c@);
    while n > 0 && c[n - 1] == '/'
        invariant
            n <= c@.len(),
            c@ == checkout@,
            without_trailing_slashes(checkout@) == without_trailing_slashes(c@.take(n as int)),
        decreases n,
    {
        assert(c@.take(n as int).drop_last() == c@.take(n - 1));
        n = n - 1;
    }
    let base = slice_chars(&c, 0, n);
    assert(base@ == c@.take(n as int));
    assert(without_trailing_slashes(base@) == base@);
    let files = signal_files();
    let ghost fv = files@.map_values(|s: &'static str| s@);
    let mut out: Vec<String> = Vec::new();
    let mut i: usize = 0;
    while i < files.len()
        invariant
            i <= files@.len(),
            fv == files@.map_values(|s: &'static str| s@),
            fv == signal_file_names(),
            base@ == without_trailing_slashes(checkout@),
            names(out@) == fv.take(i as int).map_values(|f: Seq<char>| signal_path(checkout@, f)),
        decreases files.len() - i,
    {
        let mut p = base.clone();
        push_str(&mut p, "/");
        push_str(&mut p, files[i]);
        let path = string_of(&p);
        let ghost before = out@;
        out.push(path);
        assert(names(out@) == names(before).push(path@));
        assert(fv.take(i + 1) == fv.take(i as int).push(fv[i as int]));
        i = i + 1;
    }
    assert(fv.take(files@.len() as int) == fv);
    out
}

/// At most the first `MAX_FILE_CHARS` characters.
pub open spec fn truncated(content: Seq<char>) -> Seq<char> {
    if content.len() <= MAX_FILE_CHARS {
        content
    } else {
        content.take(MAX_FILE_CHARS as int)
    }
}

/// The context block of one manifest file.
pub open spec fn context_block(file: Seq<char>, content: Seq<char>) -> Seq<char> {
    "\n===== "@ + file + " =====\n"@ + truncated(content) + "\n"@
}

/// The context of the first `contents.len()` manifest files: a block for
/// each one that was read.
pub open spec fn context_text(files: Seq<Seq<char>>, contents: Seq<Option<Seq<char>>>) -> Seq<char>
    decreases contents.len(),
{
    if contents.len() == 0 {
        Seq::empty()
    } else {
        let prior = context_text(files, contents.drop_last());
        match contents.last() {
            Some(c) => prior + context_block(files[contents.len() - 1], c),
            None => prior,
        }
    }
}

/// The character views of optional strings.
pub open spec fn opt_views(v: Seq<Option<String>>) -> Seq<Option<Seq<char>>> {
    v.map_values(|o: Option<String>| crate::text::opt_view(o))
}

/// Builds the analysis context from what was read of each manifest file
/// (`contents[i]` for the `i`-th of `signal_files`, `None` when absent or
/// unreadable).
pub fn context_from(contents: &Vec<Option<String>>) -> (r: String)
    requires
        contents@.len() <= signal_file_names().len(),
    ensures
        r@ == context_text(signal_file_names(), opt_views(contents@)),
{
    let files = signal_files();
    let ghost fv = files@.map_values(|s: &'static str| s@);
    let ghost cv = opt_views(contents@);
    let mut out: Vec<char> = Vec::new();
    let mut i: usize = 0;
    while i < contents.len()
        invariant
            i <= contents@.len() <= files@.len(),
            fv == files@.map_values(|s: &'static str| s@),
            fv == signal_file_names(),
            cv == opt_views(contents@),
            out@ == context_text(fv, cv.take(i as int)),
        decreases contents.len() - i,
    {
        assert(cv.take(i + 1).drop_last() == cv.take(i as int));
        assert(cv.take(i + 1).last() == crate::text::opt_view(contents@[i as int]));
        match &contents[i] {
            Some(content) => {
                let cs = chars_of(content.as_str());
                let n = if cs.len() <= MAX_FILE_CHARS { cs.len() } else { MAX_FILE_CHARS };
                let t = slice_chars(&cs, 0, n);
                assert(t@ == truncated(content@));
                push_str(&mut out, "\n===== ");
                push_str(&mut out, files[i]);
                push_str(&mut out, " =====\n");
                push_all(&mut out, &t);
                push_str(&mut out, "\n");
            },
            None => {},
        }
        i = i + 1;
    }
    assert(cv.take(contents@.len() as int) == cv);
    string_of(&out)
}

/// A checkout's files, as the analyzer reads them.
pub trait FileSystem {
    /// The contents of the file at `path`, when it exists and is readable.
    fn read_to_string(&self, path: &str) -> Option<String>;

    /// Whether `path` is a regular file.
    fn is_file(&self, path: &str) -> bool;
}

/// Gathers the analysis context from a checkout's files.
pub struct FileAnalyzer<F: FileSystem> {
    pub fs: F,
}

impl<F: FileSystem> FileAnalyzer<F> {
    /// An analyzer reading through `fs`.
    pub fn new(fs: F) -> (a: FileAnalyzer<F>)
        ensures
            a.fs == fs,
    {
        FileAnalyzer { fs }
    }

    /// Reads the known manifest files under the checkout into a context
    /// string: whatever the file system returns, the result is the context of
    /// some read outcome for each manifest file.
    pub fn gather_context(&self, checkout_path: &str) -> (r: String)
        ensures
            exists|reads: Seq<Option<Seq<char>>>| reads.len() == signal_file_names().len() && r@ == context_text(
                signal_file_names(),
                reads,
            ),
    {
        let paths = signal_paths(checkout_path);
        let mut contents: Vec<Option<String>> = Vec::new();
        let mut i: usize = 0;
        assert(paths@.len() == signal_file_names().len()) by {
            assert(names(paths@).len() == paths@.len());
        }
        while i < paths.len()
            invariant
                i <= paths@.len(),
                paths@.len() == signal_file_names().len(),
                contents@.len() == i,
            decreases paths.len() - i,
        {
            contents.push(self.fs.read_to_string(paths[i].as_str()));
            i = i + 1;
        }
        let r = context_from(&contents);
        assert(opt_views(contents@).len() == signal_file_names().len());
        r
    }
}

/// The user prompt for a repository and its gathered context.
pub open spec fn prompt_text(repo: Seq<char>, context: Seq<char>) -> Seq<char> {
    if trim(context).len() == 0 {
        "Repository '"@ + repo
            + "' has no recognised manifest files. Infer what you can from the name and return the JSON schema."@
    } else {
        "Repository '"@ + repo + "'. Files:\n"@ + context
    }
}

/// Builds the user prompt for a repository and its gathered context.
pub fn build_prompt(repo_full_name: &str, context: &str) -> (r: String)
    ensures
        r@ == prompt_text(repo_full_name@, context@),
{
    let mut s: Vec<char> = Vec::new();
    if trimmed(&chars_of(context)).len() == 0 {
        push_str(&mut s, "Repository '");
        push_str(&mut s, repo_full_name);
        push_str(
            &mut s,
            "' has no recognised manifest files. Infer what you can from the name and return the JSON schema.",
        );
    } else {
        push_str(&mut s, "Repository '");
        push_str(&mut s, repo_full_name);
        push_str(&mut s, "'. Files:\n");
        push_str(&mut s, context);
    }
    string_of(&s)
}

/// The incremental instruction appended to the user prompt.
pub open spec fn focus_text(changed: Seq<Seq<char>>) -> Seq<char> {
    "\n\nINCREMENTAL UPDATE: only these files changed since the last analysis: ["@ + join(changed, ", "@)
        + "]. Return ONLY the 'application', 'components', 'use_cases' and 'endpoints' that involve these files (with their full sub-fields). Leave every other top-level array empty \u{2014} they are preserved from the existing model and must not be re-derived here."@
}

/// The incremental focus instruction: re-extract only what touches the
/// changed files.
pub fn incremental_focus(changed: &Vec<String>) -> (r: String)
    ensures
        r@ == focus_text(names(changed@)),
{
    let mut parts: Vec<Vec<char>> = Vec::new();
    let mut i: usize = 0;
    while i < changed.len()
        invariant
            i <= changed@.len(),
            seqs_of(parts@) == names(changed@).take(i as int),
        decreases changed.len() - i,
    {
        let ghost before = parts@;
        parts.push(chars_of(changed[i].as_str()));
        assert(seqs_of(parts@) == seqs_of(before).push(changed@[i as int]@));
        assert(names(changed@).take(i + 1) == names(changed@).take(i as int).push(names(changed@)[i as int]));
        i = i + 1;
    }
    assert(names(changed@).take(changed@.len() as int) == names(changed@));
    let mut s: Vec<char> = Vec::new();
    push_str(&mut s, "\n\nINCREMENTAL UPDATE: only these files changed since the last analysis: [");
    push_all(&mut s, &join_chars(&parts, &chars_of(", ")));
    push_str(
        &mut s,
        "]. Return ONLY the 'application', 'components', 'use_cases' and 'endpoints' that involve these files (with their full sub-fields). Leave every other top-level array empty \u{2014} they are preserved from the existing model and must not be re-derived here.",
    );
    string_of(&s)
}

/// The analyzer's system prompt: the configured section templates with the
/// vocabulary and schema injected.
pub fn build_system_prompt(config: &AnalysisConfig) -> (r: String)
    ensures
        r@ == composed_prompt(config.prompts.sections@, config.kinds@, config.properties@),
{
    compose_system_prompt(&config.prompts, config)
}

/// Input for one analysis.
pub struct AnalysisInput {
    pub checkout_path: String,
    pub repo_full_name: String,
    /// Allowed kinds, properties and prompt templates.
    pub config: AnalysisConfig,
    /// The rendered operator hints for the application (empty on a first
    /// sync).
    pub hints: String,
    /// When set, only these files changed: only what involves them is
    /// re-extracted.
    pub changed_files: Option<Vec<String>>,
}

/// The full user prompt: the repository prompt, the hints, and the
/// incremental focus when only some files changed.
pub open spec fn request_text(repo: Seq<char>, context: Seq<char>, hints: Seq<char>, changed: Option<Seq<Seq<char>>>) -> Seq<char> {
    prompt_text(repo, context) + hints + match changed {
        Some(c) => focus_text(c),
        None => Seq::empty(),
    }
}

/// Builds the full user prompt for an input and its gathered context.
pub fn user_prompt(input: &AnalysisInput, context: &str) -> (r: String)
    ensures
        r@ == request_text(
            input.repo_full_name@,
            context@,
            input.hints@,
            match input.changed_files {
                Some(c) => Some(names(c@)),
                None => None,
            },
        ),
{
    let mut s = chars_of(build_prompt(input.repo_full_name.as_str(), context).as_str());
    push_str(&mut s, input.hints.as_str());
    match &input.changed_files {
        Some(c) => {
            push_str(&mut s, incremental_focus(c).as_str());
        },
        None => {},
    }
    string_of(&s)
}

/// Errors from analysis.
pub enum AnalysisError {
    /// The model call failed.
    Ai(String),
    /// No attempt produced a valid analysis; the last parse error.
    Invalid(String),
}

impl AnalysisError {
    /// The error's message.
    pub fn message(&self) -> (r: String)
        ensures
            r@ == match self {
                AnalysisError::Ai(e) => "ai error: "@ + e@,
                AnalysisError::Invalid(e) => "could not produce valid analysis: "@ + e@,
            },
    {
        let mut s: Vec<char> = Vec::new();
        match self {
            AnalysisError::Ai(e) => {
                push_str(&mut s, "ai error: ");
                push_str(&mut s, e.as_str());
            },
            AnalysisError::Invalid(e) => {
                push_str(&mut s, "could not produce valid analysis: ");
                push_str(&mut s, e.as_str());
            },
        }
        string_of(&s)
    }
}

/// What the analyzer does after an attempt.
pub enum AttemptStep {
    /// The reply parsed: this is the result.
    Done(AnalysisResult),
    /// The reply did not parse and a retry is left: ask again.
    Retry(String),
    /// The reply did not parse and no retry is left.
    Fail(AnalysisError),
}

/// Decides after attempt `attempt` (from 0) whose reply parsed to `parsed`:
/// a result ends the analysis; a parse error is retried while attempts up to
/// `MAX_RETRIES` remain, and otherwise ends it as invalid with that error.
pub fn after_attempt(attempt: u32, parsed: Result<AnalysisResult, String>) -> (s: AttemptStep)
    ensures
        match parsed {
            Ok(r) => s matches AttemptStep::Done(x) && x == r,
            Err(e) => if attempt < MAX_RETRIES {
                s matches AttemptStep::Retry(m) && m@ == e@
            } else {
                s matches AttemptStep::Fail(AnalysisError::Invalid(m)) && m@ == e@
            },
        },
{
    match parsed {
        Ok(r) => AttemptStep::Done(r),
        Err(e) => if attempt < MAX_RETRIES {
            AttemptStep::Retry(e)
        } else {
            AttemptStep::Fail(AnalysisError::Invalid(e))
        },
    }
}

/// The request an analysis sends to the model: the user prompt, the
/// system prompt, and the checkout as the working directory (so an agentic
/// provider can read real files).
pub struct AnalysisRequest {
    pub prompt: String,
    pub system: String,
    pub working_dir: String,
}

/// Builds the model request for an input and its gathered context; it is
/// the same on every attempt.
pub fn analysis_request(input: &AnalysisInput, context: &str) -> (r: AnalysisRequest)
    ensures
        r.prompt@ == request_text(
            input.repo_full_name@,
            context@,
            input.hints@,
            match input.changed_files {
                Some(c) => Some(names(c@)),
                None => None,
            },
        ),
        r.system@ == composed_prompt(
            input.config.prompts.sections@,
            input.config.kinds@,
            input.config.properties@,
        ),
        r.working_dir@ == input.checkout_path@,
{
    AnalysisRequest {
        prompt: user_prompt(input, context),
        system: build_system_prompt(&input.config),
        working_dir: input.checkout_path.clone(),
    }
}

/// The step after attempt `attempt` (from 0) given what the model call
/// gave: a failed call ends the analysis at once with the call's error (no
/// retry); a parsed reply is the result; a parse error is retried while
/// attempts up to `MAX_RETRIES` remain, and otherwise ends it as invalid.
pub open spec fn reply_step(attempt: u32, outcome: Result<Result<AnalysisResult, String>, String>, s: AttemptStep) -> bool {
    match outcome {
        Err(e) => s matches AttemptStep::Fail(AnalysisError::Ai(m)) && m@ == e@,
        Ok(Ok(r)) => s matches AttemptStep::Done(x) && x == r,
        Ok(Err(e)) => if attempt < MAX_RETRIES {
            s matches AttemptStep::Retry(m) && m@ == e@
        } else {
            s matches AttemptStep::Fail(AnalysisError::Invalid(m)) && m@ == e@
        },
    }
}

/// Decides after an attempt what the model call gave (see `reply_step`).
pub fn after_reply(attempt: u32, outcome: Result<Result<AnalysisResult, String>, String>) -> (s: AttemptStep)
    ensures
        reply_step(attempt, outcome, s),
{
    match outcome {
        Err(e) => AttemptStep::Fail(AnalysisError::Ai(e)),
        Ok(parsed) => after_attempt(attempt, parsed),
    }
}

/// The analysis never asks the model more than `MAX_RETRIES + 1` times: from
/// the last attempt on, no outcome leads to another.
pub proof fn lemma_attempts_bounded(attempt: u32, outcome: Result<Result<AnalysisResult, String>, String>, s: AttemptStep)
    requires
        attempt >= MAX_RETRIES,
        reply_step(attempt, outcome, s),
    ensures
        !(s is Retry),
{
}

/// Whether a `..` segment starts at `i` of the path.
pub open spec fn parent_segment_at(p: Seq<char>, i: int) -> bool {
    &&& 0 <= i && i + 2 <= p.len()
    &&& (i == 0 || p[i - 1] == '/')
    &&& p[i] == '.' && p[i + 1] == '.'
    &&& (i + 2 == p.len() || p[i + 2] == '/')
}

/// A path that stays inside the checkout it is joined to: relative (no
/// leading `/`) and without a `..` segment.
pub open spec fn inside_checkout(p: Seq<char>) -> bool {
    &&& !(p.len() > 0 && p[0] == '/')
    &&& forall|i: int| !parent_segment_at(p, i)
}

/// Whether a repository-relative path the model gave may be looked up in
/// the checkout (see `inside_checkout`).
pub fn stays_inside(path: &str) -> (b: bool)
    ensures
        b == inside_checkout(path@),
{
    let p = chars_of(path);
    let n = p.len();
    if n > 0 && p[0] == '/' {
        return false;
    }
    let mut i: usize = 0;
    while i < n
        invariant
            n == p@.len(),
            p@ == path@,
            i <= n,
            forall|j: int| 0 <= j < i ==> !parent_segment_at(p@, j),
        decreases n - i,
    {
        if n - i >= 2 && (i == 0 || p[i - 1] == '/') && p[i] == '.' && p[i + 1] == '.' && (i + 2 == n || p[i
            + 2] == '/') {
            assert(parent_segment_at(p@, i as int));
            return false;
        }
        i = i + 1;
    }
    assert forall|j: int| !parent_segment_at(p@, j) by {
        if 0 <= j < n {
        }
    }
    true
}

/// The paths of `files` that are among `existing`, in order.
pub open spec fn existing_only(files: Seq<String>, existing: Seq<Seq<char>>) -> Seq<Seq<char>> {
    names(files).filter(|f: Seq<char>| existing.contains(f))
}

/// Keeps the paths of `files` that are among `existing`.
fn keep_existing(files: Vec<String>, existing: &Vec<String>) -> (r: Vec<String>)
    ensures
        names(r@) == existing_only(files@, names(existing@)),
{
    let ghost src = names(files@);
    let ghost p = |f: Seq<char>| names(existing@).contains(f);
    let mut out: Vec<String> = Vec::new();
    let mut i: usize = 0;
    while i < files.len()
        invariant
            i <= files@.len(),
            src == names(files@),
            p == (|f: Seq<char>| names(existing@).contains(f)),
            names(out@) == src.take(i as int).filter(p),
        decreases files.len() - i,
    {
        assert(src.take(i + 1) == src.take(i as int).push(src[i as int]));
        proof {
            src.take(i as int).lemma_filter_push(src[i as int], p);
        }
        let keep = has_name(existing, files[i].as_str());
        if keep {
            let ghost before = out@;
            out.push(files[i].clone());
            assert(names(out@) == names(before).push(files@[i as int]@));
        }
        i = i + 1;
    }
    assert(src.take(files@.len() as int) == src);
    out
}

/// Drops component and use-case file paths that are not among `existing`
/// (the paths the checkout holds as regular files), so nothing links to a
/// missing file.
pub fn retain_existing_files(result: &mut AnalysisResult, existing: &Vec<String>)
    ensures
        final(result).components@.len() == old(result).components@.len(),
        final(result).use_cases@.len() == old(result).use_cases@.len(),
        forall|i: int| 0 <= i < old(result).components@.len() ==> {
            let o = #[trigger] old(result).components@[i];
            let c = final(result).components@[i];
            &&& names(c.files@) == existing_only(o.files@, names(existing@))
            &&& c.name == o.name && c.kind == o.kind && c.description == o.description
            &&& c.metadata == o.metadata && c.observability_signals == o.observability_signals
        },
        forall|i: int| 0 <= i < old(result).use_cases@.len() ==> {
            let o = #[trigger] old(result).use_cases@[i];
            let u = final(result).use_cases@[i];
            &&& names(u.files@) == existing_only(o.files@, names(existing@))
            &&& u.name == o.name && u.description == o.description && u.metadata == o.metadata
            &&& u.components == o.components && u.diagrams == o.diagrams
        },
        crate::analysis::same_but_components(*final(result), *old(result)),
{
    let ghost oc = result.components@;
    let ghost ou = result.use_cases@;
    let mut comps: Vec<ComponentInfo> = Vec::new();
    std::mem::swap(&mut comps, &mut result.components);
    let mut out_c: Vec<ComponentInfo> = Vec::new();
    let ghost mut k: int = 0;
    while comps.len() > 0
        invariant
            0 <= k <= oc.len(),
            comps@ == oc.skip(k),
            out_c@.len() == k,
            forall|i: int| 0 <= i < k ==> {
                let o = #[trigger] oc[i];
                let c = out_c@[i];
                &&& names(c.files@) == existing_only(o.files@, names(existing@))
                &&& c.name == o.name && c.kind == o.kind && c.description == o.description
                &&& c.metadata == o.metadata && c.observability_signals == o.observability_signals
            },
        decreases comps.len(),
    {
        let c = comps.remove(0);
        assert(c == oc[k]);
        let files = keep_existing(c.files, existing);
        let ghost before = out_c@;
        out_c.push(ComponentInfo {
            name: c.name,
            kind: c.kind,
            description: c.description,
            metadata: c.metadata,
            observability_signals: c.observability_signals,
            files,
        });
        assert(forall|i: int| 0 <= i < k ==> out_c@[i] == before[i]);
        assert(oc.skip(k).drop_first() =~= oc.skip(k + 1));
        proof {
            k = k + 1;
        }
    }
    result.components = out_c;
    let mut ucs: Vec<UseCaseInfo> = Vec::new();
    std::mem::swap(&mut ucs, &mut result.use_cases);
    let mut out_u: Vec<UseCaseInfo> = Vec::new();
    let ghost mut m: int = 0;
    while ucs.len() > 0
        invariant
            0 <= m <= ou.len(),
            ucs@ == ou.skip(m),
            out_u@.len() == m,
            forall|i: int| 0 <= i < m ==> {
                let o = #[trigger] ou[i];
                let u = out_u@[i];
                &&& names(u.files@) == existing_only(o.files@, names(existing@))
                &&& u.name == o.name && u.description == o.description && u.metadata == o.metadata
                &&& u.components == o.components && u.diagrams == o.diagrams
            },
        decreases ucs.len(),
    {
        let u = ucs.remove(0);
        assert(u == ou[m]);
        let files = keep_existing(u.files, existing);
        let ghost before = out_u@;
        out_u.push(UseCaseInfo {
            name: u.name,
            description: u.description,
            metadata: u.metadata,
            components: u.components,
            diagrams: u.diagrams,
            files,
        });
        assert(forall|i: int| 0 <= i < m ==> out_u@[i] == before[i]);
        assert(ou.skip(m).drop_first() =~= ou.skip(m + 1));
        proof {
            m = m + 1;
        }
    }
    result.use_cases = out_u;
}

} // verus!

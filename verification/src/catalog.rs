//! The platform catalog: the names of known entities a dependency can
//! target. Each dependency's free-form `target_name` is canonicalised to an
//! existing entity: exact, then normalised, then fuzzy matching; only
//! genuinely ambiguous cases consult the model, with a short candidate list.

use vstd::prelude::*;
use crate::analysis::{AnalysisResult, DependencyInfo};
use crate::text::{
    ascii_lower_seq, ascii_lower_chars, chars_eq, chars_of, contains, contains_chars, push_str, push_all,
    string_of, str_eq, trim, trimmed, opt_view,
};

verus! {

broadcast use vstd::seq_lib::group_seq_properties;

/// What std's `char::is_alphanumeric` returns for `c` (Unicode `Alphabetic`
/// or `Numeric`).
pub uninterp spec fn unicode_alphanumeric(c: char) -> bool;

/// The characters std's `char::to_lowercase` yields for `c` (its Unicode
/// lowercase mapping).
pub uninterp spec fn unicode_lowercase(c: char) -> Seq<char>;

/// std's `char::is_alphanumeric`; the contract names its result.
#[verifier::external_body]
fn is_alphanumeric(c: char) -> (b: bool)
    ensures
        b == unicode_alphanumeric(c),
{
    c.is_alphanumeric()
}

/// std's `char::to_lowercase`, collected; the contract names its result.
#[verifier::external_body]
fn to_lowercase(c: char) -> (r: Vec<char>)
    ensures
        r@ == unicode_lowercase(c),
{
    c.to_lowercase().collect()
}

/// A name lowercased with its non-alphanumeric characters dropped, so
/// `auth-service` and `AuthService` share one key.
pub open spec fn normalized(s: Seq<char>) -> Seq<char>
    decreases s.len(),
{
    if s.len() == 0 {
        Seq::empty()
    } else {
        normalized(s.drop_last()) + if unicode_alphanumeric(s.last()) {
            unicode_lowercase(s.last())
        } else {
            Seq::empty()
        }
    }
}

/// Lowercases and drops non-alphanumeric characters.
pub fn normalize(name: &str) -> (r: String)
    ensures
        r@ == normalized(name@),
{
    let cs = chars_of(name);
    let mut out: Vec<char> = Vec::new();
    let mut i: usize = 0;
    while i < cs.len()
        invariant
            i <= cs@.len(),
            cs@ == name@,
            out@ == normalized(cs@.take(i as int)),
        decreases cs.len() - i,
    {
        assert(cs@.take(i + 1).drop_last() == cs@.take(i as int));
        if is_alphanumeric(cs[i]) {
            let low = to_lowercase(cs[i]);
            push_all(&mut out, &low);
        }
        i = i + 1;
    }
    assert(cs@.take(cs@.len() as int) == cs@);
    string_of(&out)
}

/// One catalog entry: a canonical entity name and its kind (application,
/// service, external, ...).
#[derive(Debug, Clone)]
pub struct CatalogEntry {
    pub name: String,
    pub kind: String,
}

/// The character view of an entry.
pub open spec fn entry_view(e: CatalogEntry) -> (Seq<char>, Seq<char>) {
    (e.name@, e.kind@)
}

/// The character view of a list of entries.
pub open spec fn entries_view(s: Seq<CatalogEntry>) -> Seq<(Seq<char>, Seq<char>)> {
    s.map_values(|e: CatalogEntry| entry_view(e))
}

impl CatalogEntry {
    /// A copy of the entry.
    pub fn duplicate(&self) -> (r: CatalogEntry)
        ensures
            entry_view(r) == entry_view(*self),
    {
        CatalogEntry { name: self.name.clone(), kind: self.kind.clone() }
    }
}

/// The known platform entities a dependency may target (a per-run snapshot).
pub struct Catalog {
    entries: Vec<CatalogEntry>,
}

impl View for Catalog {
    type V = Seq<(Seq<char>, Seq<char>)>;

    closed spec fn view(&self) -> Seq<(Seq<char>, Seq<char>)> {
        entries_view(self.entries@)
    }
}

/// Outcome of resolving a target name against the catalog.
pub enum Resolution {
    /// A confident single match: use this canonical name.
    Matched(String),
    /// Several plausible candidates; the model has to pick one.
    Ambiguous(Vec<CatalogEntry>),
    /// No plausible match; the name stays as it is.
    NoMatch,
}

/// Entries whose normalised name equals `norm`.
pub open spec fn same_key(entries: Seq<(Seq<char>, Seq<char>)>, norm: Seq<char>) -> Seq<(Seq<char>, Seq<char>)> {
    entries.filter(|e: (Seq<char>, Seq<char>)| normalized(e.0) == norm)
}

/// Whether an entry's normalised name is non-empty and contains, or is
/// contained in, `norm`.
pub open spec fn fuzzy_hit(e: (Seq<char>, Seq<char>), norm: Seq<char>) -> bool {
    let en = normalized(e.0);
    en.len() > 0 && (contains(en, norm) || contains(norm, en))
}

/// Entries that match `norm` fuzzily.
pub open spec fn fuzzy_matches(entries: Seq<(Seq<char>, Seq<char>)>, norm: Seq<char>) -> Seq<(Seq<char>, Seq<char>)> {
    entries.filter(|e: (Seq<char>, Seq<char>)| fuzzy_hit(e, norm))
}

/// How a target resolves: `Some(Ok(name))` for a match, `Some(Err(list))`
/// for an ambiguous candidate list, `None` for no match.
pub open spec fn resolution_of(entries: Seq<(Seq<char>, Seq<char>)>, target: Seq<char>) -> Option<
    Result<Seq<char>, Seq<(Seq<char>, Seq<char>)>>,
> {
    let norm = normalized(target);
    let exact = same_key(entries, norm);
    let fuzzy = fuzzy_matches(entries, norm);
    if exists|i: int| 0 <= i < entries.len() && #[trigger] entries[i].0 == target {
        Some(Ok(target))
    } else if norm.len() == 0 {
        None
    } else if exact.len() == 1 {
        Some(Ok(exact[0].0))
    } else if exact.len() > 1 {
        Some(Err(exact))
    } else if fuzzy.len() == 0 {
        None
    } else if fuzzy.len() == 1 {
        Some(Ok(fuzzy[0].0))
    } else {
        Some(Err(fuzzy))
    }
}

/// The spec view of a resolution.
pub open spec fn resolution_view(r: Resolution) -> Option<Result<Seq<char>, Seq<(Seq<char>, Seq<char>)>>> {
    match r {
        Resolution::Matched(n) => Some(Ok(n@)),
        Resolution::Ambiguous(v) => Some(Err(entries_view(v@))),
        Resolution::NoMatch => None,
    }
}

/// The entries of `entries` (in order) whose normalised name satisfies the
/// chosen test against `norm`: equality when `fuzzy` is false, the fuzzy test
/// otherwise.
fn select(entries: &Vec<CatalogEntry>, norm: &Vec<char>, fuzzy: bool) -> (r: Vec<CatalogEntry>)
    ensures
        fuzzy ==> entries_view(r@) == fuzzy_matches(entries_view(entries@), norm@),
        !fuzzy ==> entries_view(r@) == same_key(entries_view(entries@), norm@),
{
    let ghost src = entries_view(entries@);
    let ghost p = if fuzzy {
        |e: (Seq<char>, Seq<char>)| fuzzy_hit(e, norm@)
    } else {
        |e: (Seq<char>, Seq<char>)| normalized(e.0) == norm@
    };
    let mut out: Vec<CatalogEntry> = Vec::new();
    let mut i: usize = 0;
    while i < entries.len()
        invariant
            i <= entries@.len(),
            src == entries_view(entries@),
            p == (if fuzzy {
                |e: (Seq<char>, Seq<char>)| fuzzy_hit(e, norm@)
            } else {
                |e: (Seq<char>, Seq<char>)| normalized(e.0) == norm@
            }),
            entries_view(out@) == src.take(i as int).filter(p),
        decreases entries.len() - i,
    {
        let en = normalize(entries[i].name.as_str());
        let env = chars_of(en.as_str());
        let hit = if fuzzy {
            env.len() > 0 && (contains_chars(&env, norm) || contains_chars(norm, &env))
        } else {
            chars_eq(&env, norm)
        };
        assert(src[i as int] == entry_view(entries@[i as int]));
        assert(p(src[i as int]) == hit);
        assert(src.take(i + 1) == src.take(i as int).push(src[i as int]));
        proof {
            src.take(i as int).lemma_filter_push(src[i as int], p);
        }
        if hit {
            let ghost before = out@;
            out.push(entries[i].duplicate());
            assert(entries_view(out@) == entries_view(before).push(src[i as int]));
        }
        i = i + 1;
    }
    assert(src.take(entries@.len() as int) == src);
    out
}

impl Catalog {
    /// A catalog of the given entries.
    pub fn new(entries: Vec<CatalogEntry>) -> (c: Catalog)
        ensures
            c@ == entries_view(entries@),
    {
        Catalog { entries }
    }

    /// Whether the catalog has no entries.
    pub fn is_empty(&self) -> (b: bool)
        ensures
            b == (self@.len() == 0),
    {
        self.entries.len() == 0
    }

    /// Resolves a free-form target name: an entry with exactly that name; else
    /// the entries with the same normalised name (one is a match, several are
    /// ambiguous); else the entries whose normalised name contains, or is
    /// contained in, the target's (likewise).
    pub fn resolve(&self, target: &str) -> (r: Resolution)
        ensures
            resolution_view(r) == resolution_of(self@, target@),
    {
        let ghost es = self@;
        let t = chars_of(target);
        let mut i: usize = 0;
        while i < self.entries.len()
            invariant
                i <= self.entries@.len(),
                es == entries_view(self.entries@),
                t@ == target@,
                forall|j: int| 0 <= j < i ==> es[j].0 != target@,
            decreases self.entries.len() - i,
        {
            assert(es[i as int] == entry_view(self.entries@[i as int]));
            if str_eq_view(&self.entries[i].name, &t) {
                assert(es[i as int].0 == target@);
                return Resolution::Matched(self.entries[i].name.clone());
            }
            i = i + 1;
        }
        let n = normalize(target);
        let norm = chars_of(n.as_str());
        if norm.len() == 0 {
            return Resolution::NoMatch;
        }
        let exact = select(&self.entries, &norm, false);
        if exact.len() == 1 {
            assert(entries_view(exact@)[0] == entry_view(exact@[0]));
            return Resolution::Matched(exact[0].name.clone());
        }
        if exact.len() > 1 {
            return Resolution::Ambiguous(exact);
        }
        let fuzzy = select(&self.entries, &norm, true);
        if fuzzy.len() == 0 {
            Resolution::NoMatch
        } else if fuzzy.len() == 1 {
            assert(entries_view(fuzzy@)[0] == entry_view(fuzzy@[0]));
            Resolution::Matched(fuzzy[0].name.clone())
        } else {
            Resolution::Ambiguous(fuzzy)
        }
    }
}

fn str_eq_view(s: &String, t: &Vec<char>) -> (b: bool)
    ensures
        b == (s@ == t@),
{
    crate::text::str_eq_chars(s.as_str(), t)
}

/// At most this many candidates are shown to the model when disambiguating.
pub const MAX_CANDIDATES: usize = 8;

/// The candidates shown to the model: the first `MAX_CANDIDATES`.
pub fn shortlist(candidates: &Vec<CatalogEntry>) -> (r: Vec<CatalogEntry>)
    ensures
        entries_view(r@) == entries_view(candidates@).take(
            if candidates@.len() < MAX_CANDIDATES { candidates@.len() as int } else { MAX_CANDIDATES as int },
        ),
{
    let n = if candidates.len() < MAX_CANDIDATES { candidates.len() } else { MAX_CANDIDATES };
    let mut out: Vec<CatalogEntry> = Vec::new();
    let mut i: usize = 0;
    while i < n
        invariant
            i <= n <= candidates@.len(),
            entries_view(out@) == entries_view(candidates@).take(i as int),
        decreases n - i,
    {
        let ghost before = out@;
        out.push(candidates[i].duplicate());
        assert(entries_view(out@) == entries_view(before).push(entry_view(candidates@[i as int])));
        assert(entries_view(candidates@).take(i + 1) == entries_view(candidates@).take(i as int).push(
            entries_view(candidates@)[i as int],
        ));
        i = i + 1;
    }
    out
}

/// The system prompt for disambiguation.
pub const PICK_SYSTEM: &'static str = "You match a dependency target to a known platform entity. Reply with EXACTLY one of the listed entity names, or NONE if none match. Output only the name (or NONE), nothing else.";

/// One candidate line: `- name (kind)`.
pub open spec fn option_line(e: (Seq<char>, Seq<char>)) -> Seq<char> {
    "- "@ + e.0 + " ("@ + e.1 + ")"@
}

/// The candidate lines joined with newlines.
pub open spec fn option_lines(s: Seq<(Seq<char>, Seq<char>)>) -> Seq<char> {
    crate::text::join(s.map_values(|e: (Seq<char>, Seq<char>)| option_line(e)), "\n"@)
}

/// The question put to the model about `target` and its candidates.
pub open spec fn pick_prompt_text(target: Seq<char>, shortlist: Seq<(Seq<char>, Seq<char>)>) -> Seq<char> {
    "An application's code connects to a system it refers to as \""@ + target
        + "\". Which of these known entities is it?\n"@ + option_lines(shortlist) + "\n\nAnswer:"@
}

/// Builds the disambiguation question for `target` over `shortlist`.
pub fn pick_prompt(target: &str, shortlist: &Vec<CatalogEntry>) -> (r: String)
    ensures
        r@ == pick_prompt_text(target@, entries_view(shortlist@)),
{
    let mut lines: Vec<Vec<char>> = Vec::new();
    let mut i: usize = 0;
    while i < shortlist.len()
        invariant
            i <= shortlist@.len(),
            crate::text::seqs_of(lines@) == entries_view(shortlist@).take(i as int).map_values(
                |e: (Seq<char>, Seq<char>)| option_line(e),
            ),
        decreases shortlist.len() - i,
    {
        let mut line: Vec<char> = Vec::new();
        push_str(&mut line, "- ");
        push_str(&mut line, shortlist[i].name.as_str());
        push_str(&mut line, " (");
        push_str(&mut line, shortlist[i].kind.as_str());
        push_str(&mut line, ")");
        let ghost before = lines@;
        lines.push(line);
        assert(entries_view(shortlist@)[i as int] == entry_view(shortlist@[i as int]));
        assert(crate::text::seqs_of(lines@) == crate::text::seqs_of(before).push(line@));
        assert(entries_view(shortlist@).take(i + 1) == entries_view(shortlist@).take(i as int).push(
            entries_view(shortlist@)[i as int],
        ));
        i = i + 1;
    }
    assert(entries_view(shortlist@).take(shortlist@.len() as int) == entries_view(shortlist@));
    let nl = chars_of("\n");
    let joined = crate::text::join_chars(&lines, &nl);
    let mut out: Vec<char> = Vec::new();
    push_str(&mut out, "An application's code connects to a system it refers to as \"");
    push_str(&mut out, target);
    push_str(&mut out, "\". Which of these known entities is it?\n");
    push_all(&mut out, &joined);
    push_str(&mut out, "\n\nAnswer:");
    string_of(&out)
}

/// The first entry named exactly `a`.
pub open spec fn first_named(s: Seq<(Seq<char>, Seq<char>)>, a: Seq<char>) -> Option<Seq<char>>
    decreases s.len(),
{
    if s.len() == 0 {
        None
    } else if s[0].0 == a {
        Some(s[0].0)
    } else {
        first_named(s.drop_first(), a)
    }
}

/// The first entry named `a` up to ASCII case.
pub open spec fn first_named_ci(s: Seq<(Seq<char>, Seq<char>)>, a: Seq<char>) -> Option<Seq<char>>
    decreases s.len(),
{
    if s.len() == 0 {
        None
    } else if ascii_lower_seq(s[0].0) == ascii_lower_seq(a) {
        Some(s[0].0)
    } else {
        first_named_ci(s.drop_first(), a)
    }
}

/// The entity the model's reply picks from the shortlist: none when the
/// trimmed reply is `NONE` in any ASCII case; else the entry with exactly that
/// name, else the first whose name matches it up to ASCII case.
pub open spec fn picked(reply: Seq<char>, shortlist: Seq<(Seq<char>, Seq<char>)>) -> Option<Seq<char>> {
    let answer = trim(reply);
    if ascii_lower_seq(answer) == "none"@ {
        None
    } else {
        match first_named(shortlist, answer) {
            Some(n) => Some(n),
            None => first_named_ci(shortlist, answer),
        }
    }
}

/// Reads the model's reply against the shortlist it was shown.
pub fn choose_from_reply(reply: &str, shortlist: &Vec<CatalogEntry>) -> (r: Option<String>)
    ensures
        opt_view(r) == picked(reply@, entries_view(shortlist@)),
{
    let answer = trimmed(&chars_of(reply));
    let low = ascii_lower_chars(&answer);
    proof {
        reveal_strlit("none");
    }
    if chars_eq(&low, &chars_of("none")) {
        return None;
    }
    let ghost s = entries_view(shortlist@);
    let mut i: usize = 0;
    assert(s.skip(0) == s);
    while i < shortlist.len()
        invariant
            i <= shortlist@.len(),
            s == entries_view(shortlist@),
            answer@ == trim(reply@),
            ascii_lower_seq(answer@) != "none"@,
            first_named(s, answer@) == first_named(s.skip(i as int), answer@),
        decreases shortlist.len() - i,
    {
        assert(s.skip(i as int)[0] == entry_view(shortlist@[i as int]));
        if str_eq_view(&shortlist[i].name, &answer) {
            return Some(shortlist[i].name.clone());
        }
        assert(s.skip(i as int).drop_first() == s.skip(i + 1));
        i = i + 1;
    }
    let mut j: usize = 0;
    assert(s.skip(0) == s);
    while j < shortlist.len()
        invariant
            j <= shortlist@.len(),
            s == entries_view(shortlist@),
            low@ == ascii_lower_seq(answer@),
            answer@ == trim(reply@),
            ascii_lower_seq(answer@) != "none"@,
            first_named(s, answer@) is None,
            first_named_ci(s, answer@) == first_named_ci(s.skip(j as int), answer@),
        decreases shortlist.len() - j,
    {
        assert(s.skip(j as int)[0] == entry_view(shortlist@[j as int]));
        let nl = ascii_lower_chars(&chars_of(shortlist[j].name.as_str()));
        if chars_eq(&nl, &low) {
            return Some(shortlist[j].name.clone());
        }
        assert(s.skip(j as int).drop_first() == s.skip(j + 1));
        j = j + 1;
    }
    None
}

/// The candidates shown to the model: the first `MAX_CANDIDATES`.
pub open spec fn shortlist_of(c: Seq<(Seq<char>, Seq<char>)>) -> Seq<(Seq<char>, Seq<char>)> {
    c.take(if c.len() < MAX_CANDIDATES { c.len() as int } else { MAX_CANDIDATES as int })
}

/// The question put to the model about a dependency target, if any: only an
/// ambiguous target (against a non-empty catalog) is asked about, over its
/// shortlist.
pub open spec fn pick_request(entries: Seq<(Seq<char>, Seq<char>)>, target: Seq<char>) -> Option<Seq<char>> {
    if entries.len() == 0 {
        None
    } else {
        match resolution_of(entries, target) {
            Some(Err(c)) => Some(pick_prompt_text(target, shortlist_of(c))),
            _ => None,
        }
    }
}

/// The canonical name chosen for a dependency target: the match; for an
/// ambiguous target, the shortlist entry the model's reply picks (none
/// without a reply); else none.
pub open spec fn chosen_name(res: Option<Result<Seq<char>, Seq<(Seq<char>, Seq<char>)>>>, reply: Option<Seq<char>>) -> Option<Seq<char>> {
    match res {
        Some(Ok(n)) => Some(n),
        Some(Err(c)) => match reply {
            Some(r) => picked(r, shortlist_of(c)),
            None => None,
        },
        None => None,
    }
}

/// A dependency's target after canonicalisation, given the model's reply to
/// its question (if it was asked and answered).
pub open spec fn new_target(entries: Seq<(Seq<char>, Seq<char>)>, old: Seq<char>, reply: Option<Seq<char>>) -> Seq<char> {
    match chosen_name(resolution_of(entries, old), reply) {
        Some(n) => n,
        None => old,
    }
}

/// How many targets among the first `n` dependencies get a different name.
pub open spec fn rewritten_count(
    entries: Seq<(Seq<char>, Seq<char>)>,
    deps: Seq<DependencyInfo>,
    replies: Seq<Option<String>>,
    n: int,
) -> nat
    decreases n,
{
    if n <= 0 {
        0
    } else {
        rewritten_count(entries, deps, replies, n - 1) + if new_target(entries, deps[n - 1].target_name@, opt_view(replies[n - 1]))
            != deps[n - 1].target_name@ {
            1nat
        } else {
            0nat
        }
    }
}

/// The questions to put to the model, one per dependency: the
/// disambiguation question for an ambiguous target (over at most
/// `MAX_CANDIDATES` candidates), `None` for every other target and for all
/// of them when the catalog is empty.
pub fn pick_requests(result: &AnalysisResult, catalog: &Catalog) -> (r: Vec<Option<String>>)
    ensures
        r@.len() == result.dependencies@.len(),
        forall|i: int| 0 <= i < r@.len() ==> opt_view(#[trigger] r@[i]) == pick_request(
            catalog@,
            result.dependencies@[i].target_name@,
        ),
{
    let mut out: Vec<Option<String>> = Vec::new();
    let empty = catalog.is_empty();
    let mut i: usize = 0;
    while i < result.dependencies.len()
        invariant
            i <= result.dependencies@.len(),
            out@.len() == i,
            empty == (catalog@.len() == 0),
            forall|j: int| 0 <= j < i ==> opt_view(#[trigger] out@[j]) == pick_request(
                catalog@,
                result.dependencies@[j].target_name@,
            ),
        decreases result.dependencies.len() - i,
    {
        let target = result.dependencies[i].target_name.as_str();
        let q = if empty {
            None
        } else {
            match catalog.resolve(target) {
                Resolution::Ambiguous(candidates) => Some(pick_prompt(target, &shortlist(&candidates))),
                _ => None,
            }
        };
        out.push(q);
        i = i + 1;
    }
    out
}

/// The name the first entry named `a` has is `a`, and it is an entry's.
proof fn lemma_first_named_member(s: Seq<(Seq<char>, Seq<char>)>, a: Seq<char>)
    ensures
        first_named(s, a) matches Some(n) ==> exists|j: int| 0 <= j < s.len() && #[trigger] s[j].0 == n,
    decreases s.len(),
{
    if s.len() > 0 && s[0].0 != a {
        lemma_first_named_member(s.drop_first(), a);
        if first_named(s, a) is Some {
            let n = first_named(s, a)->0;
            let j = choose|j: int| 0 <= j < s.drop_first().len() && #[trigger] s.drop_first()[j].0 == n;
            assert(s[j + 1].0 == n);
        }
    }
}

/// The first entry named `a` up to case is an entry's name.
proof fn lemma_first_named_ci_member(s: Seq<(Seq<char>, Seq<char>)>, a: Seq<char>)
    ensures
        first_named_ci(s, a) matches Some(n) ==> exists|j: int| 0 <= j < s.len() && #[trigger] s[j].0 == n,
    decreases s.len(),
{
    if s.len() > 0 && ascii_lower_seq(s[0].0) != ascii_lower_seq(a) {
        lemma_first_named_ci_member(s.drop_first(), a);
        if first_named_ci(s, a) is Some {
            let n = first_named_ci(s, a)->0;
            let j = choose|j: int| 0 <= j < s.drop_first().len() && #[trigger] s.drop_first()[j].0 == n;
            assert(s[j + 1].0 == n);
        }
    }
}

/// Canonicalisation never invents a target: whatever the model replies, a
/// dependency's new target is its old one or the name of a catalog entry.
pub proof fn lemma_new_target_from_catalog(entries: Seq<(Seq<char>, Seq<char>)>, old: Seq<char>, reply: Option<Seq<char>>)
    ensures
        new_target(entries, old, reply) == old || exists|i: int|
            0 <= i < entries.len() && #[trigger] entries[i].0 == new_target(entries, old, reply),
{
    lemma_resolution_from_catalog(entries, old);
    match resolution_of(entries, old) {
        Some(Err(c)) => match reply {
            Some(r) => {
                let s = shortlist_of(c);
                let answer = trim(r);
                lemma_first_named_member(s, answer);
                lemma_first_named_ci_member(s, answer);
                if picked(r, s) is Some {
                    let n = picked(r, s)->0;
                    let j = choose|j: int| 0 <= j < s.len() && #[trigger] s[j].0 == n;
                    assert(s[j] == c[j]);
                    assert(entries.contains(c[j]));
                    let i = choose|i: int| 0 <= i < entries.len() && entries[i] == c[j];
                    assert(entries[i].0 == n);
                }
            },
            None => {},
        },
        _ => {},
    }
}

/// Canonicalises each dependency's `target_name` against the catalog.
/// `replies[i]` is the model's reply to the question `pick_requests` gives
/// for dependency `i` (`None` when it was not asked, no model is configured
/// or the request failed); it is read, only for an ambiguous target, against
/// that target's shortlist. Returns how many targets were rewritten; an
/// empty catalog changes nothing.
pub fn resolve_dependencies(result: &mut AnalysisResult, catalog: &Catalog, replies: &Vec<Option<String>>) -> (n: usize)
    requires
        replies@.len() == old(result).dependencies@.len(),
    ensures
        final(result).dependencies@.len() == old(result).dependencies@.len(),
        catalog@.len() == 0 ==> n == 0 && final(result).dependencies@ == old(result).dependencies@,
        catalog@.len() > 0 ==> n == rewritten_count(
            catalog@,
            old(result).dependencies@,
            replies@,
            old(result).dependencies@.len() as int,
        ),
        forall|i: int| 0 <= i < old(result).dependencies@.len() ==> {
            let o = #[trigger] old(result).dependencies@[i];
            let d = final(result).dependencies@[i];
            &&& d.target_name@ == (if catalog@.len() > 0 {
                new_target(catalog@, o.target_name@, opt_view(replies@[i]))
            } else {
                o.target_name@
            })
            &&& (d.target_name@ == o.target_name@ || exists|j: int|
                0 <= j < catalog@.len() && #[trigger] catalog@[j].0 == d.target_name@)
            &&& d.kind == o.kind
            &&& d.description == o.description
            &&& d.component == o.component
            &&& d.metadata == o.metadata
        },
        crate::analysis::same_but_dependencies(*final(result), *old(result)),
{
    if catalog.is_empty() {
        return 0;
    }
    let ghost src = result.dependencies@;
    let mut deps: Vec<DependencyInfo> = Vec::new();
    std::mem::swap(&mut deps, &mut result.dependencies);
    let mut out: Vec<DependencyInfo> = Vec::new();
    let mut count: usize = 0;
    let ghost mut k: int = 0;
    while deps.len() > 0
        invariant
            0 <= k <= src.len(),
            replies@.len() == src.len(),
            deps@ == src.skip(k),
            out@.len() == k,
            count == rewritten_count(catalog@, src, replies@, k),
            count <= k,
            forall|i: int| 0 <= i < k ==> {
                let o = #[trigger] src[i];
                let d = out@[i];
                &&& d.target_name@ == new_target(catalog@, o.target_name@, opt_view(replies@[i]))
                &&& d.kind == o.kind
                &&& d.description == o.description
                &&& d.component == o.component
                &&& d.metadata == o.metadata
            },
        decreases deps.len(),
    {
        let d = deps.remove(0);
        assert(d == src[k]);
        let res = catalog.resolve(d.target_name.as_str());
        let idx = out.len();
        let chosen: Option<String> = match res {
            Resolution::Matched(name) => Some(name),
            Resolution::Ambiguous(candidates) => match &replies[idx] {
                Some(text) => choose_from_reply(text.as_str(), &shortlist(&candidates)),
                None => None,
            },
            Resolution::NoMatch => None,
        };
        assert(opt_view(chosen) == chosen_name(resolution_of(catalog@, d.target_name@), opt_view(replies@[k])));
        let (target, changed) = match chosen {
            Some(name) => {
                let changed = !str_eq(name.as_str(), d.target_name.as_str());
                (name, changed)
            },
            None => (d.target_name, false),
        };
        assert(k < src.len());
        assert(replies@.len() == replies.len());
        if changed {
            count = count + 1;
        }
        let ghost before = out@;
        out.push(DependencyInfo {
            target_name: target,
            kind: d.kind,
            description: d.description,
            component: d.component,
            metadata: d.metadata,
        });
        assert(forall|i: int| 0 <= i < k ==> out@[i] == before[i]);
        assert(src.skip(k).drop_first() =~= src.skip(k + 1));
        proof {
            k = k + 1;
        }
    }
    assert(src.skip(k).len() == 0);
    result.dependencies = out;
    proof {
        assert forall|i: int| 0 <= i < src.len() implies (#[trigger] result.dependencies@[i]).target_name@
            == src[i].target_name@ || exists|j: int|
            0 <= j < catalog@.len() && #[trigger] catalog@[j].0 == result.dependencies@[i].target_name@ by {
            lemma_new_target_from_catalog(catalog@, src[i].target_name@, opt_view(replies@[i]));
        }
    }
    count
}

/// A resolved match is always the name of a catalog entry, so
/// canonicalisation never invents a target; an ambiguous outcome lists at
/// least two candidates, all of them catalog entries.
pub proof fn lemma_resolution_from_catalog(entries: Seq<(Seq<char>, Seq<char>)>, target: Seq<char>)
    ensures
        match resolution_of(entries, target) {
            Some(Ok(n)) => exists|i: int| 0 <= i < entries.len() && #[trigger] entries[i].0 == n,
            Some(Err(c)) => c.len() >= 2 && forall|j: int| 0 <= j < c.len() ==> entries.contains(#[trigger] c[j]),
            None => true,
        },
{
    let norm = normalized(target);
    let pe = |e: (Seq<char>, Seq<char>)| normalized(e.0) == norm;
    let pf = |e: (Seq<char>, Seq<char>)| fuzzy_hit(e, norm);
    let exact = same_key(entries, norm);
    let fuzzy = fuzzy_matches(entries, norm);
    assert forall|j: int| 0 <= j < exact.len() implies entries.contains(#[trigger] exact[j]) by {
        assert(entries.filter(pe).contains(exact[j]));
        entries.lemma_filter_contains_rev(pe, exact[j]);
    }
    assert forall|j: int| 0 <= j < fuzzy.len() implies entries.contains(#[trigger] fuzzy[j]) by {
        assert(entries.filter(pf).contains(fuzzy[j]));
        entries.lemma_filter_contains_rev(pf, fuzzy[j]);
    }
    if exists|i: int| 0 <= i < entries.len() && #[trigger] entries[i].0 == target {
    } else if norm.len() == 0 {
    } else if exact.len() == 1 {
        assert(entries.contains(exact[0]));
        let i = choose|i: int| 0 <= i < entries.len() && entries[i] == exact[0];
        assert(entries[i].0 == exact[0].0);
    } else if exact.len() > 1 {
    } else if fuzzy.len() == 1 {
        assert(entries.contains(fuzzy[0]));
        let i = choose|i: int| 0 <= i < entries.len() && entries[i] == fuzzy[0];
        assert(entries[i].0 == fuzzy[0].0);
    }
}

/// A target that already names a catalog entry exactly is left as it is
/// (and so is not counted as rewritten), whatever the model replies.
pub proof fn lemma_exact_name_kept(entries: Seq<(Seq<char>, Seq<char>)>, target: Seq<char>, reply: Option<Seq<char>>, i: int)
    requires
        0 <= i < entries.len(),
        entries[i].0 == target,
    ensures
        new_target(entries, target, reply) == target,
{
    assert(exists|j: int| 0 <= j < entries.len() && #[trigger] entries[j].0 == target);
}

/// Fuzzy matching works both ways: an entry whose normalised name is
/// non-empty and contained in the target's normalised name, or contains it,
/// is a fuzzy candidate for the target.
pub proof fn lemma_fuzzy_both_ways(entries: Seq<(Seq<char>, Seq<char>)>, target: Seq<char>, k: int)
    requires
        0 <= k < entries.len(),
        normalized(entries[k].0).len() > 0,
        contains(normalized(target), normalized(entries[k].0)) || contains(normalized(entries[k].0), normalized(target)),
    ensures
        fuzzy_matches(entries, normalized(target)).contains(entries[k]),
{
    let pf = |e: (Seq<char>, Seq<char>)| fuzzy_hit(e, normalized(target));
    assert(pf(entries[k]));
    entries.lemma_filter_contains(pf, k);
}

/// A one-entry catalog canonicalises a target whose normalised name
/// contains the entry's, or is contained in it, to the entry (when the
/// target is not the entry's name and does not normalise to the same key).
pub proof fn lemma_single_fuzzy_match(name: Seq<char>, kind: Seq<char>, target: Seq<char>)
    requires
        target != name,
        normalized(target).len() > 0,
        normalized(name).len() > 0,
        normalized(name) != normalized(target),
        contains(normalized(target), normalized(name)) || contains(normalized(name), normalized(target)),
    ensures
        resolution_of(seq![(name, kind)], target) == Some(Ok::<Seq<char>, Seq<(Seq<char>, Seq<char>)>>(name)),
{
    let entries = seq![(name, kind)];
    let norm = normalized(target);
    reveal_with_fuel(Seq::filter, 2);
    assert(entries.drop_last() =~= Seq::<(Seq<char>, Seq<char>)>::empty());
    assert(entries.last() == (name, kind));
    assert(same_key(entries, norm) =~= Seq::<(Seq<char>, Seq<char>)>::empty());
    assert(fuzzy_hit((name, kind), norm));
    assert(fuzzy_matches(entries, norm) =~= seq![(name, kind)]);
    assert(!(exists|i: int| 0 <= i < entries.len() && #[trigger] entries[i].0 == target));
}

} // verus!

//! Request-side decisions of the web routes: list queries from raw query
//! parameters, entity validation, prompt-section views, the login form's
//! provider, and the checks before a remediation is approved.

use vstd::prelude::*;
use crate::analysis::{names, has_name};
use crate::keyed::{KeyedList, insert_sorted, lookup};
use crate::pr_watcher::all_digits;
use crate::prompts::{PromptConfig, default_template, default_template_spec, required_placeholders, required_placeholders_spec};
use crate::query::{ListQuery, filter_fields, filter_fields_spec, is_entity, is_entity_spec};
use crate::techradar::digits_value;
use crate::pr_watcher::{default_profile, profile_pick};
use crate::text::{chars_of, push_str, slice_chars, string_of, str_eq, trim, trimmed};

verus! {

/// std's `i64` parsing: an optional sign, then one or more ASCII digits whose
/// signed value fits in an `i64`.
pub open spec fn i64_of(s: Seq<char>) -> Option<i64> {
    let neg = s.len() > 0 && s[0] == '-';
    let d = if s.len() > 0 && (s[0] == '+' || s[0] == '-') {
        s.drop_first()
    } else {
        s
    };
    if d.len() == 0 || !all_digits(d) {
        None
    } else if neg {
        if digits_value(d) <= 0x8000_0000_0000_0000 {
            Some((-(digits_value(d) as int)) as i64)
        } else {
            None
        }
    } else if digits_value(d) <= i64::MAX {
        Some(digits_value(d) as i64)
    } else {
        None
    }
}

/// Parses a decimal `i64` the way std does.
pub fn parse_i64(text: &str) -> (r: Option<i64>)
    ensures
        r == i64_of(text@),
{
    let s = chars_of(text);
    let neg = s.len() > 0 && s[0] == '-';
    let start: usize = if s.len() > 0 && (s[0] == '+' || s[0] == '-') { 1 } else { 0 };
    let d = slice_chars(&s, start, s.len());
    assert(d@ == (if s@.len() > 0 && (s@[0] == '+' || s@[0] == '-') { s@.drop_first() } else { s@ }));
    if d.len() == 0 {
        return None;
    }
    let limit: u64 = if neg { 0x8000_0000_0000_0000 } else { 0x7fff_ffff_ffff_ffff };
    let mut i: usize = 0;
    let mut value: u64 = 0;
    let mut over = false;
    while i < d.len()
        invariant
            i <= d@.len(),
            d@.len() > 0,
            s@ == text@,
            d@ == (if s@.len() > 0 && (s@[0] == '+' || s@[0] == '-') { s@.drop_first() } else { s@ }),
            neg == (s@.len() > 0 && s@[0] == '-'),
            limit == (if neg { 0x8000_0000_0000_0000u64 } else { 0x7fff_ffff_ffff_ffffu64 }),
            all_digits(d@.take(i as int)),
            !over ==> value == digits_value(d@.take(i as int)) && value <= limit,
            over ==> digits_value(d@.take(i as int)) > limit,
        decreases d.len() - i,
    {
        let c = d[i];
        if c < '0' || c > '9' {
            assert(!all_digits(d@));
            return None;
        }
        let k = (c as u32 - 48) as u64;
        assert(d@.take(i + 1).drop_last() == d@.take(i as int));
        assert(d@.take(i + 1).last() == c);
        if !over {
            if value <= (limit - k) / 10 {
                assert(value * 10 + k <= limit) by (nonlinear_arith)
                    requires
                        value <= (limit - k) / 10,
                        k <= 9,
                        k <= limit,
                ;
                value = value * 10 + k;
            } else {
                assert(value * 10 + k > limit) by (nonlinear_arith)
                    requires
                        value > (limit - k) / 10,
                        k <= 9,
                        k <= limit,
                ;
                over = true;
            }
        } else {
            assert(digits_value(d@.take(i + 1)) >= digits_value(d@.take(i as int))) by (nonlinear_arith)
                requires
                    digits_value(d@.take(i + 1)) == digits_value(d@.take(i as int)) * 10 + k,
            ;
        }
        assert(all_digits(d@.take(i + 1))) by {
            assert forall|j: int| 0 <= j < i + 1 implies '0' <= #[trigger] d@.take(i + 1)[j] && d@.take(i + 1)[j]
                <= '9' by {
                if j < i {
                    assert(d@.take(i + 1)[j] == d@.take(i as int)[j]);
                }
            }
        }
        i = i + 1;
    }
    assert(d@.take(d@.len() as int) == d@);
    if over {
        None
    } else if neg {
        if value == 0x8000_0000_0000_0000 {
            Some(i64::MIN)
        } else {
            let v = value as i64;
            Some(-v)
        }
    } else {
        Some(value as i64)
    }
}

/// A parameter's parsed number, when it is given and parses.
pub open spec fn param_number(params: Seq<(Seq<char>, String)>, key: Seq<char>) -> Option<i64> {
    match lookup(params, key) {
        Some(v) => i64_of(v@),
        None => None,
    }
}

/// The filters of a list request: for each allowlisted field, in order, its
/// parameter when given and non-empty.
pub open spec fn requested_filters(params: Seq<(Seq<char>, String)>, fields: Seq<Seq<char>>) -> Seq<(Seq<char>, String)>
    decreases fields.len(),
{
    if fields.len() == 0 {
        Seq::empty()
    } else {
        let prior = requested_filters(params, fields.drop_last());
        let f = fields.last();
        match lookup(params, f) {
            Some(v) => if v@.len() > 0 {
                insert_sorted(prior, f, v)
            } else {
                prior
            },
            None => prior,
        }
    }
}

/// Builds a list query from raw query parameters: `search`, `page` and
/// `page_size`, plus the entity's allowlisted equality filters.
pub fn build_list_query(entity: &str, params: &KeyedList<String>) -> (q: ListQuery)
    ensures
        q.search@ == match lookup(params@, "search"@) {
            Some(s) => s@,
            None => Seq::<char>::empty(),
        },
        q.page == match param_number(params@, "page"@) {
            Some(p) => if p < 1 {
                1
            } else {
                p
            },
            None => 1,
        },
        q.page_size == match param_number(params@, "page_size"@) {
            Some(p) => if p < 1 {
                1
            } else if p > 200 {
                200
            } else {
                p
            },
            None => 25,
        },
        q.filters@ == requested_filters(params@, filter_fields_spec(entity@)),
{
    let search = match params.get("search") {
        Some(s) => Some(s.clone()),
        None => None,
    };
    let page = match params.get("page") {
        Some(v) => parse_i64(v.as_str()),
        None => None,
    };
    let page_size = match params.get("page_size") {
        Some(v) => parse_i64(v.as_str()),
        None => None,
    };
    let fields = filter_fields(entity);
    let ghost fv = fields@.map_values(|s: &'static str| s@);
    let mut filters: KeyedList<String> = KeyedList::new();
    let mut i: usize = 0;
    while i < fields.len()
        invariant
            i <= fields@.len(),
            fv == fields@.map_values(|s: &'static str| s@),
            fv == filter_fields_spec(entity@),
            filters@ == requested_filters(params@, fv.take(i as int)),
        decreases fields.len() - i,
    {
        let field = fields[i];
        assert(fv.take(i + 1).drop_last() == fv.take(i as int));
        assert(fv.take(i + 1).last() == field@);
        match params.get(field) {
            Some(v) => {
                if chars_of(v.as_str()).len() > 0 {
                    filters.insert(String::from_str(field), v.clone());
                }
            },
            None => {},
        }
        i = i + 1;
    }
    assert(fv.take(fields@.len() as int) == fv);
    ListQuery::new(search, page, page_size, filters)
}

/// Rejects a name that is not a platform entity.
pub fn validate_entity(entity: &str) -> (r: Result<(), String>)
    ensures
        match r {
            Ok(()) => is_entity_spec(entity@),
            Err(m) => !is_entity_spec(entity@) && m@ == "unknown entity '"@ + entity@ + "'"@,
        },
{
    if is_entity(entity) {
        Ok(())
    } else {
        let mut m: Vec<char> = Vec::new();
        push_str(&mut m, "unknown entity '");
        push_str(&mut m, entity);
        push_str(&mut m, "'");
        Err(string_of(&m))
    }
}

/// A prompt section as the settings page shows it.
pub struct PromptView {
    pub section: String,
    pub template: String,
    pub enabled: bool,
    pub overridden: bool,
    pub default_template: String,
    pub required_placeholders: Vec<String>,
}

/// Describes a section of the active prompt configuration: its template and
/// flag (empty and enabled when the section is absent), whether it is
/// overridden, its shipped default and its required placeholders.
pub fn prompt_view(resolved: &PromptConfig, section: &str, overridden: &Vec<String>) -> (v: PromptView)
    ensures
        v.section@ == section@,
        v.template@ == match lookup(resolved.sections@, section@) {
            Some(s) => s.template@,
            None => Seq::<char>::empty(),
        },
        v.enabled == match lookup(resolved.sections@, section@) {
            Some(s) => s.enabled,
            None => true,
        },
        v.overridden == names(overridden@).contains(section@),
        v.default_template@ == match default_template_spec(section@) {
            Some(t) => t,
            None => Seq::<char>::empty(),
        },
        names(v.required_placeholders@) == required_placeholders_spec(section@),
{
    let s = resolved.sections.get(section);
    let template = match s {
        Some(s) => s.template.clone(),
        None => String::new(),
    };
    let enabled = match s {
        Some(s) => s.enabled,
        None => true,
    };
    let default = match default_template(section) {
        Some(t) => String::from_str(t),
        None => String::new(),
    };
    let phs = required_placeholders(section);
    let mut req: Vec<String> = Vec::new();
    let mut i: usize = 0;
    while i < phs.len()
        invariant
            i <= phs@.len(),
            names(req@) == phs@.take(i as int).map_values(|p: &'static str| p@),
        decreases phs.len() - i,
    {
        let ghost before = req@;
        req.push(String::from_str(phs[i]));
        assert(names(req@) == names(before).push(phs@[i as int]@));
        assert(phs@.take(i + 1) == phs@.take(i as int).push(phs@[i as int]));
        i = i + 1;
    }
    assert(phs@.take(phs@.len() as int) == phs@);
    PromptView {
        section: String::from_str(section),
        template,
        enabled,
        overridden: has_name(overridden, section),
        default_template: default,
        required_placeholders: req,
    }
}

/// The default of an omitted `enabled` flag in request bodies.
pub fn default_true() -> (b: bool)
    ensures
        b,
{
    true
}

/// How users sign in.
#[derive(Debug, Clone, Copy, PartialEq, Eq, Structural)]
pub enum AuthProvider {
    Github,
    Admin,
}

/// How GitHub sign-in works.
#[derive(Debug, Clone, Copy, PartialEq, Eq, Structural)]
pub enum GitHubAuthMode {
    OauthApp,
    PersonalToken,
}

/// The login provider and GitHub mode the login form renders for:
/// `("github", "personal_token")` or `("github", "oauth_app")` (also when the
/// GitHub settings are absent), or `("admin", "")`.
pub fn login_provider(provider: AuthProvider, github_mode: Option<GitHubAuthMode>) -> (r: (&'static str, &'static str))
    ensures
        r.0@ == match provider {
            AuthProvider::Github => "github"@,
            AuthProvider::Admin => "admin"@,
        },
        r.1@ == match provider {
            AuthProvider::Github => match github_mode {
                Some(GitHubAuthMode::PersonalToken) => "personal_token"@,
                _ => "oauth_app"@,
            },
            AuthProvider::Admin => ""@,
        },
{
    match provider {
        AuthProvider::Github => {
            let mode = match github_mode {
                Some(GitHubAuthMode::PersonalToken) => "personal_token",
                _ => "oauth_app",
            };
            ("github", mode)
        },
        AuthProvider::Admin => ("admin", ""),
    }
}

/// Checks that a remediation can be approved: it must be pending approval
/// (`proposed`) and belong to an application, whose id is returned.
pub fn check_approval(status: &str, application_id: Option<u128>) -> (r: Result<u128, String>)
    ensures
        match r {
            Ok(id) => status@ == "proposed"@ && application_id == Some(id),
            Err(m) => if status@ != "proposed"@ {
                m@ == "remediation is not pending approval"@
            } else {
                application_id is None && m@ == "remediation has no application"@
            },
        },
{
    if !str_eq(status, "proposed") {
        return Err(String::from_str("remediation is not pending approval"));
    }
    match application_id {
        Some(id) => Ok(id),
        None => Err(String::from_str("remediation has no application")),
    }
}

/// The prompt of the rule (`(id, prompt)` pairs) a remediation came from.
pub open spec fn rule_prompt(rules: Seq<(u128, String)>, rule_id: Option<u128>) -> Seq<char>
    decreases rules.len(),
{
    if rules.len() == 0 {
        "Apply the remediation."@
    } else if rule_id == Some(rules[0].0) {
        rules[0].1@
    } else {
        rule_prompt(rules.drop_first(), rule_id)
    }
}

/// The agent's prompt for an approved remediation: its rule's prompt, or a
/// generic instruction when the rule is gone.
pub fn remediation_prompt(rules: &Vec<(u128, String)>, rule_id: Option<u128>) -> (r: String)
    ensures
        r@ == rule_prompt(rules@, rule_id),
{
    let mut i: usize = 0;
    assert(rules@.skip(0) == rules@);
    while i < rules.len()
        invariant
            i <= rules@.len(),
            rule_prompt(rules@, rule_id) == rule_prompt(rules@.skip(i as int), rule_id),
        decreases rules.len() - i,
    {
        assert(rules@.skip(i as int)[0] == rules@[i as int]);
        let matched = match rule_id {
            Some(id) => id == rules[i].0,
            None => false,
        };
        if matched {
            return rules[i].1.clone();
        }
        assert(rules@.skip(i as int).drop_first() == rules@.skip(i + 1));
        i = i + 1;
    }
    String::from_str("Apply the remediation.")
}

/// `s` trimmed of surrounding whitespace (`str::trim`).
fn trimmed_string(s: &str) -> (r: String)
    ensures
        r@ == trim(s@),
{
    let v = chars_of(s);
    string_of(&trimmed(&v))
}

/// A question to ask about an application: the trimmed text, which must not
/// be blank.
pub fn ask_question(question: &str) -> (r: Result<String, String>)
    ensures
        match r {
            Ok(q) => q@ == trim(question@) && q@.len() > 0,
            Err(m) => trim(question@).len() == 0 && m@ == "question is required"@,
        },
{
    let q = trimmed_string(question);
    if q.as_str().unicode_len() == 0 {
        Err(String::from_str("question is required"))
    } else {
        Ok(q)
    }
}

/// A new agent task: its trimmed title and first instruction, neither of
/// which may be blank.
pub fn new_task_fields(title: &str, message: &str) -> (r: Result<(String, String), String>)
    ensures
        match r {
            Ok((t, m)) => t@ == trim(title@) && m@ == trim(message@) && t@.len() > 0 && m@.len() > 0,
            Err(e) => (trim(title@).len() == 0 || trim(message@).len() == 0)
                && e@ == "title and message are required"@,
        },
{
    let t = trimmed_string(title);
    let m = trimmed_string(message);
    if t.as_str().unicode_len() == 0 || m.as_str().unicode_len() == 0 {
        Err(String::from_str("title and message are required"))
    } else {
        Ok((t, m))
    }
}

/// A follow-up instruction to an agent task: the trimmed text, which must
/// not be blank.
pub fn follow_up_message(message: &str) -> (r: Result<String, String>)
    ensures
        match r {
            Ok(m) => m@ == trim(message@) && m@.len() > 0,
            Err(e) => trim(message@).len() == 0 && e@ == "message is required"@,
        },
{
    let m = trimmed_string(message);
    if m.as_str().unicode_len() == 0 {
        Err(String::from_str("message is required"))
    } else {
        Ok(m)
    }
}

/// What a hint request does to an application's hints.
pub enum HintChange {
    /// Clears the hint of the entity.
    Delete { entity_type: String, entity_key: String },
    /// Sets the hint of the entity.
    Upsert { entity_type: String, entity_key: String, hint: String },
}

/// The change a hint request makes, all fields trimmed: a blank hint clears
/// the entity's hint, any other sets it; a blank entity type is refused.
pub fn hint_change(entity_type: &str, entity_key: &str, hint: &str) -> (r: Result<HintChange, String>)
    ensures
        trim(entity_type@).len() == 0 ==> (r matches Err(e) && e@ == "entity_type is required"@),
        trim(entity_type@).len() > 0 && trim(hint@).len() == 0 ==> (r matches Ok(
            HintChange::Delete { entity_type: t, entity_key: k },
        ) && t@ == trim(entity_type@) && k@ == trim(entity_key@)),
        trim(entity_type@).len() > 0 && trim(hint@).len() > 0 ==> (r matches Ok(
            HintChange::Upsert { entity_type: t, entity_key: k, hint: h },
        ) && t@ == trim(entity_type@) && k@ == trim(entity_key@) && h@ == trim(hint@)),
{
    let t = trimmed_string(entity_type);
    if t.as_str().unicode_len() == 0 {
        return Err(String::from_str("entity_type is required"));
    }
    let k = trimmed_string(entity_key);
    let h = trimmed_string(hint);
    if h.as_str().unicode_len() == 0 {
        Ok(HintChange::Delete { entity_type: t, entity_key: k })
    } else {
        Ok(HintChange::Upsert { entity_type: t, entity_key: k, hint: h })
    }
}

/// The AI profile an application question or agent turn runs with (given
/// each profile's id and whether it is enabled): the first enabled, else
/// the first; an error when there is none.
pub fn agent_profile(profiles: &[(u128, bool)]) -> (r: Result<u128, String>)
    ensures
        match r {
            Ok(id) => profile_pick(profiles@) == Some(id),
            Err(m) => profiles@.len() == 0 && m@ == "no AI agent profile configured"@,
        },
{
    match default_profile(profiles) {
        Some(id) => Ok(id),
        None => Err(String::from_str("no AI agent profile configured")),
    }
}

/// A request whose fields must not be blank.
#[derive(Debug, Clone, Copy, PartialEq, Eq, Structural)]
pub enum RequiredFields {
    /// Testing an AI profile: the prompt.
    TestPrompt,
    /// Creating a team: its name.
    TeamName,
    /// Creating a remediation rule: its name and prompt.
    Rule,
    /// Saving a tech-radar entry: its quadrant, name and ring.
    Radar,
}

/// The refusal of a request with a blank field.
pub open spec fn required_message(kind: RequiredFields) -> Seq<char> {
    match kind {
        RequiredFields::TestPrompt => "prompt is required"@,
        RequiredFields::TeamName => "team name is required"@,
        RequiredFields::Rule => "name and prompt are required"@,
        RequiredFields::Radar => "quadrant, name and ring are required"@,
    }
}

/// Checks a request's required fields: accepted when none is blank (empty
/// after trimming), else refused with the request's message.
pub fn check_required(kind: RequiredFields, fields: &[&str]) -> (r: Result<(), String>)
    ensures
        r is Ok <==> forall|i: int| 0 <= i < fields@.len() ==> trim((#[trigger] fields@[i])@).len() > 0,
        r matches Err(m) ==> m@ == required_message(kind),
{
    let mut i: usize = 0;
    while i < fields.len()
        invariant
            i <= fields@.len(),
            forall|j: int| 0 <= j < i ==> trim((#[trigger] fields@[j])@).len() > 0,
        decreases fields.len() - i,
    {
        let f = trimmed_string(fields[i]);
        if f.as_str().unicode_len() == 0 {
            let m = match kind {
                RequiredFields::TestPrompt => String::from_str("prompt is required"),
                RequiredFields::TeamName => String::from_str("team name is required"),
                RequiredFields::Rule => String::from_str("name and prompt are required"),
                RequiredFields::Radar => String::from_str("quadrant, name and ring are required"),
            };
            return Err(m);
        }
        i = i + 1;
    }
    Ok(())
}

} // verus!

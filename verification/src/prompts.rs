//! Configurable extraction prompts: the analyzer's system prompt is composed
//! from per-section templates that operators can edit, while the strict
//! kinds/properties vocabulary and the JSON output schema are always injected
//! programmatically, so edits can never weaken the contract.

use vstd::prelude::*;
use crate::analysis::{AnalysisConfig, KindDef, PropertyDef};
use crate::keyed::{KeyedList, insert_sorted, lookup};
use crate::text::{
    chars_of, contains, contains_chars, join, join_chars, push_all, push_str, replace_all,
    replace_chars, seqs_of, str_eq, string_of, trim, trimmed,
};

verus! {

broadcast use vstd::string::group_string_axioms;

/// The required JSON output shape, injected wherever `{{json_schema}}`
/// appears.
pub const JSON_SCHEMA: &'static str = "{\"application\":{\"name\":string,\"app_type\":string,\"description\":string,\"primary_language\":string,\"metadata\":object},\"languages\":[{\"name\":string,\"percentage\":number}],\"libraries\":[{\"name\":string,\"ecosystem\":string,\"version\":string,\"scope\":string,\"metadata\":object}],\"infrastructure\":[{\"name\":string,\"kind\":string,\"version\":string,\"usage\":string,\"metadata\":object}],\"tools\":[{\"name\":string,\"kind\":string,\"version\":string,\"usage\":string,\"metadata\":object}],\"cloud_providers\":[{\"name\":string,\"kind\":string,\"version\":string,\"usage\":string,\"metadata\":object}],\"services\":[{\"name\":string,\"kind\":string,\"version\":string,\"usage\":string,\"metadata\":object}],\"platforms\":[{\"name\":string,\"kind\":string,\"version\":string,\"usage\":string,\"metadata\":object}],\"external\":[{\"name\":string,\"kind\":string,\"version\":string,\"usage\":string,\"metadata\":object}],\"dependencies\":[{\"target_name\":string,\"kind\":string,\"description\":string,\"component\":string,\"endpoint\":string,\"metadata\":object}],\"endpoints\":[{\"operation\":string,\"protocol\":\"http\"|\"grpc\"|\"graphql\",\"summary\":string,\"component\":string,\"files\":[string]}],\"users\":[{\"username\":string,\"email\":string,\"groups\":[string],\"metadata\":object}],\"groups\":[{\"name\":string,\"metadata\":object}],\"access\":[{\"principal_type\":\"user\"|\"group\",\"principal_name\":string,\"access_level\":string}],\"components\":[{\"name\":string,\"kind\":string,\"description\":string,\"metadata\":object,\"files\":[string],\"observability_signals\":[{\"name\":string,\"kind\":string,\"description\":string,\"metadata\":object}]}],\"use_cases\":[{\"name\":string,\"description\":string,\"metadata\":object,\"components\":[string],\"files\":[string],\"diagrams\":[{\"name\":string,\"kind\":string,\"description\":string,\"content\":string,\"metadata\":object}]}]}";

/// The shipped `base` section template.
pub const BASE_TEMPLATE: &'static str = "You are a software platform analyst. Given files from a repository, extract structured metadata. Respond with ONLY a JSON object (no prose, no markdown fences) of the shape: {{json_schema}}. Use empty arrays when unknown.";

/// The shipped `applications` section template.
pub const APPLICATIONS_TEMPLATE: &'static str = "For 'application', set a concise 'app_type', a thorough 'description', and the 'primary_language'; list the 'languages' with rough percentages and the 'libraries' the project declares with their ecosystem and version.";

/// The shipped `components` section template.
pub const COMPONENTS_TEMPLATE: &'static str = "'components' are the internal building blocks of THIS application (e.g. controllers, models, services); give each a thorough 'description'. For every component set 'files' to the list of repository-relative paths (e.g. \"src/auth/login.rs\") it is implemented in; use an empty array when unknown.";

/// The shipped `observability` section template.
pub const OBSERVABILITY_TEMPLATE: &'static str = "For each component list the observability signals (metrics, traces, logs) it emits in 'observability_signals', each with its 'kind' and a description.";

/// The shipped `use_cases` section template.
pub const USE_CASES_TEMPLATE: &'static str = "'use_cases' are the capabilities the application fulfils; give each a thorough 'description' and reference the involved components by their exact 'name'. For every use case set 'files' to the repository-relative paths it affects; use an empty array when unknown.";

/// The shipped `diagrams` section template.
pub const DIAGRAMS_TEMPLATE: &'static str = "For every use case ALWAYS include at least these two diagrams: (1) a sequence diagram with 'kind' set to \"sequence\" whose 'content' is a mermaid sequenceDiagram tracing the interaction between the actors and the involved components; and (2) a component diagram with 'kind' set to \"component\" whose 'content' is a mermaid flowchart/graph showing the involved components and how they connect. Each diagram's 'content' MUST be valid mermaid source that renders standalone (no markdown fences), and its 'kind' names the mermaid diagram type.";

/// The shipped `endpoints` section template.
pub const ENDPOINTS_TEMPLATE: &'static str = "'endpoints' are the API operations THIS application exposes to others: for each, set 'operation' (e.g. \"POST /charge\" for http, \"billing.Charge\" for grpc, \"mutation pay\" for graphql), 'protocol' (http | grpc | graphql), a short 'summary', the 'component' (by exact name) that implements it, and the repository 'files' it lives in. When a dependency calls another application's operation, set that dependency's 'endpoint' to the EXACT operation string.";

/// The shipped `dependencies` section template.
pub const DEPENDENCIES_TEMPLATE: &'static str = "Classify each discovered dependency into exactly one array: 'infrastructure' = self-hosted runtime backing services (database, cache, queue, storage, message broker); 'tools' = build/orchestration/dev tooling, not runtime (docker compose, gradle, maven, make, npm, terraform, CI like github actions); 'cloud_providers' = cloud platforms (AWS, GCP, Azure, Cloudflare); 'services' = third-party or internal network APIs the app calls (Stripe, Twilio, an internal auth-service); 'platforms' = SaaS for observability/identity/CI/error tracking (Datadog, Auth0, Sentry); 'external' = any other external dependency that fits none of the above; 'dependencies' = the outbound connections THIS app makes to other applications or services, detected from code (HTTP/REST/gRPC clients, database/cache/queue connections, SDK calls, configured service URLs or hostnames). For each, set 'target_name' to the application or service it connects to, 'kind' to the connection type (http, grpc, db, queue, cache, etc.), and 'component' to the EXACT name of the component (from the 'components' array) that makes the connection. A target may also appear in 'services'/'external' (the catalog of things used); 'dependencies' additionally records the connection edge and its component. Never place the same thing in more than one of the catalog arrays (infrastructure/tools/cloud_providers/services/platforms/external).";

/// The shipped `members` section template.
pub const MEMBERS_TEMPLATE: &'static str = "Populate 'users', 'groups' and 'access' ONLY from a CODEOWNERS file (its code owners and owning teams); leave all three as empty arrays when there is no CODEOWNERS file. Repository membership is collected separately from the provider, so do not infer members from commits, READMEs or other files.";

/// The shipped `metrics` section template.
pub const METRICS_TEMPLATE: &'static str = "You are a senior software quality and security analyst. Inspect the repository checkout and report precise, evidence-based metrics from its code, tests, coverage reports and CI configuration. Never fabricate a number — omit any metric you cannot determine from the checkout.";

/// The lead-in of the allowed-kinds injection.
pub const KINDS_PREFIX: &'static str = "Allowed kind values per type — output EXACTLY one listed id (the value before any parenthesis) for each item's kind; never invent a value. An item whose kind is not listed will be discarded, so prefer the closest listed id. ";

/// The lead-in of the extraction-properties injection.
pub const PROPS_PREFIX: &'static str = "Populate each entity's metadata object ONLY with these keys (when known); do not add any other keys (unlisted keys are discarded): ";

/// The metrics-collection section key.
pub const METRICS_SECTION: &'static str = "metrics";

/// Analyzer section keys, in composition order.
pub open spec fn analyzer_keys() -> Seq<Seq<char>> {
    seq![
        "base"@, "applications"@, "components"@, "observability"@, "use_cases"@, "diagrams"@,
        "endpoints"@, "dependencies"@, "members"@,
    ]
}

/// Every editable section key (analyzer order, then metrics).
pub open spec fn all_keys() -> Seq<Seq<char>> {
    analyzer_keys().push("metrics"@)
}

/// The shipped template of a section, if it has one.
pub open spec fn default_template_spec(section: Seq<char>) -> Option<Seq<char>> {
    if section == "base"@ {
        Some(BASE_TEMPLATE@)
    } else if section == "applications"@ {
        Some(APPLICATIONS_TEMPLATE@)
    } else if section == "components"@ {
        Some(COMPONENTS_TEMPLATE@)
    } else if section == "observability"@ {
        Some(OBSERVABILITY_TEMPLATE@)
    } else if section == "use_cases"@ {
        Some(USE_CASES_TEMPLATE@)
    } else if section == "diagrams"@ {
        Some(DIAGRAMS_TEMPLATE@)
    } else if section == "endpoints"@ {
        Some(ENDPOINTS_TEMPLATE@)
    } else if section == "dependencies"@ {
        Some(DEPENDENCIES_TEMPLATE@)
    } else if section == "members"@ {
        Some(MEMBERS_TEMPLATE@)
    } else if section == "metrics"@ {
        Some(METRICS_TEMPLATE@)
    } else {
        None
    }
}

/// The placeholders a section's template must keep.
pub open spec fn required_placeholders_spec(section: Seq<char>) -> Seq<Seq<char>> {
    if section == "base"@ {
        seq!["{{json_schema}}"@]
    } else {
        Seq::empty()
    }
}

/// Analyzer sections, in composition order.
pub fn analyzer_sections() -> (r: Vec<&'static str>)
    ensures
        r@.map_values(|s: &'static str| s@) == analyzer_keys(),
{
    let mut r: Vec<&'static str> = Vec::new();
    r.push("base");
    r.push("applications");
    r.push("components");
    r.push("observability");
    r.push("use_cases");
    r.push("diagrams");
    r.push("endpoints");
    r.push("dependencies");
    r.push("members");
    assert(r@.map_values(|s: &'static str| s@) == analyzer_keys());
    r
}

/// Every editable section key (analyzer order, then metrics).
pub fn all_sections() -> (r: Vec<&'static str>)
    ensures
        r@.map_values(|s: &'static str| s@) == all_keys(),
{
    let mut v = analyzer_sections();
    let ghost before = v@;
    v.push(METRICS_SECTION);
    assert(v@.map_values(|s: &'static str| s@) == before.map_values(|s: &'static str| s@).push(
        METRICS_SECTION@,
    ));
    v
}

/// Placeholders a section's template must retain on save.
pub fn required_placeholders(section: &str) -> (r: Vec<&'static str>)
    ensures
        r@.map_values(|s: &'static str| s@) == required_placeholders_spec(section@),
{
    let mut r: Vec<&'static str> = Vec::new();
    if str_eq(section, "base") {
        r.push("{{json_schema}}");
    }
    assert(r@.map_values(|s: &'static str| s@) == required_placeholders_spec(section@));
    r
}

/// One editable prompt section.
#[derive(Debug, Clone)]
pub struct PromptSection {
    pub template: String,
    pub enabled: bool,
}

/// The active per-section prompt templates (defaults plus stored overrides),
/// keyed by section.
pub struct PromptConfig {
    pub sections: KeyedList<PromptSection>,
}

/// A section as text and flag.
pub open spec fn section_view(s: PromptSection) -> (Seq<char>, bool) {
    (s.template@, s.enabled)
}

/// The section stored for `key` is the shipped one, enabled.
pub open spec fn section_is_default(sec: Option<PromptSection>, key: Seq<char>) -> bool {
    match sec {
        Some(s) => Some(s.template@) == default_template_spec(key) && s.enabled,
        None => false,
    }
}

/// The shipped sections: one entry per section key, each with its default
/// template and enabled.
pub open spec fn default_sections(s: Seq<(Seq<char>, PromptSection)>) -> bool {
    &&& s.len() == all_keys().len()
    &&& forall|i: int| 0 <= i < all_keys().len() ==> section_is_default(#[trigger] lookup(s, all_keys()[i]), all_keys()[i])
}

/// The section keys are pairwise distinct.
pub proof fn lemma_section_keys_distinct()
    ensures
        forall|i: int, j: int|
            0 <= i < j < all_keys().len() ==> #[trigger] all_keys()[i] != #[trigger] all_keys()[j],
{
    reveal_strlit("base");
    reveal_strlit("applications");
    reveal_strlit("components");
    reveal_strlit("observability");
    reveal_strlit("use_cases");
    reveal_strlit("diagrams");
    reveal_strlit("endpoints");
    reveal_strlit("dependencies");
    reveal_strlit("members");
    reveal_strlit("metrics");
    let k = all_keys();
    assert(k.len() == 10);
    assert forall|i: int, j: int| 0 <= i < j < k.len() implies #[trigger] k[i] != #[trigger] k[j] by {
        if k[i] == k[j] {
            assert(k[i].len() == k[j].len());
            assert(k[i][0] == k[j][0]);
            assert(k[i][2] == k[j][2]);
        }
    }
}

/// Every section key has a shipped template.
pub proof fn lemma_defaults_exist()
    ensures
        forall|i: int| 0 <= i < all_keys().len() ==> (#[trigger] default_template_spec(all_keys()[i])) is Some,
{
    let k = all_keys();
    assert(k[0] == "base"@);
    assert(k[1] == "applications"@);
    assert(k[2] == "components"@);
    assert(k[3] == "observability"@);
    assert(k[4] == "use_cases"@);
    assert(k[5] == "diagrams"@);
    assert(k[6] == "endpoints"@);
    assert(k[7] == "dependencies"@);
    assert(k[8] == "members"@);
    assert(k[9] == "metrics"@);
    assert forall|i: int| 0 <= i < k.len() implies (#[trigger] default_template_spec(k[i])) is Some by {
        if i == 0 {
        } else if i == 1 {
        } else if i == 2 {
        } else if i == 3 {
        } else if i == 4 {
        } else if i == 5 {
        } else if i == 6 {
        } else if i == 7 {
        } else if i == 8 {
        } else {
            assert(i == 9);
        }
    }
}

/// Inserting a key that is absent adds one entry.
pub proof fn lemma_insert_absent_len<V>(s: Seq<(Seq<char>, V)>, k: Seq<char>, v: V)
    requires
        lookup(s, k) is None,
    ensures
        insert_sorted(s, k, v).len() == s.len() + 1,
    decreases s.len(),
{
    if s.len() > 0 {
        lemma_insert_absent_len(s.drop_first(), k, v);
    }
}

/// The shipped template for a section, if any.
pub fn default_template(section: &str) -> (r: Option<&'static str>)
    ensures
        match r {
            Some(t) => default_template_spec(section@) == Some(t@),
            None => default_template_spec(section@) is None,
        },
{
    if str_eq(section, "base") {
        Some(BASE_TEMPLATE)
    } else if str_eq(section, "applications") {
        Some(APPLICATIONS_TEMPLATE)
    } else if str_eq(section, "components") {
        Some(COMPONENTS_TEMPLATE)
    } else if str_eq(section, "observability") {
        Some(OBSERVABILITY_TEMPLATE)
    } else if str_eq(section, "use_cases") {
        Some(USE_CASES_TEMPLATE)
    } else if str_eq(section, "diagrams") {
        Some(DIAGRAMS_TEMPLATE)
    } else if str_eq(section, "endpoints") {
        Some(ENDPOINTS_TEMPLATE)
    } else if str_eq(section, "dependencies") {
        Some(DEPENDENCIES_TEMPLATE)
    } else if str_eq(section, "members") {
        Some(MEMBERS_TEMPLATE)
    } else if str_eq(section, "metrics") {
        Some(METRICS_TEMPLATE)
    } else {
        None
    }
}

impl Default for PromptConfig {
    /// Every section with its shipped template, enabled.
    fn default() -> (c: Self)
        ensures
            default_sections(c.sections@),
    {
        let keys = all_sections();
        let ghost kv = keys@.map_values(|s: &'static str| s@);
        let mut m: KeyedList<PromptSection> = KeyedList::new();
        let mut i: usize = 0;
        proof {
            lemma_section_keys_distinct();
            lemma_defaults_exist();
        }
        while i < keys.len()
            invariant
                i <= keys@.len(),
                kv == keys@.map_values(|s: &'static str| s@),
                kv == all_keys(),
                m@.len() == i,
                forall|a: int, b: int| 0 <= a < b < kv.len() ==> #[trigger] kv[a] != #[trigger] kv[b],
                forall|j: int| 0 <= j < i ==> section_is_default(#[trigger] lookup(m@, kv[j]), kv[j]),
                forall|j: int| i <= j < kv.len() ==> (#[trigger] lookup(m@, kv[j])) is None,
                forall|j: int| 0 <= j < kv.len() ==> (#[trigger] default_template_spec(kv[j])) is Some,
            decreases keys.len() - i,
        {
            let key = keys[i];
            assert(kv[i as int] == key@);
            let t = match default_template(key) {
                Some(t) => t,
                None => {
                    assert(false);
                    ""
                },
            };
            let sec = PromptSection { template: String::from_str(t), enabled: true };
            let ghost before = m@;
            let ghost gsec = sec;
            proof {
                lemma_insert_absent_len(before, key@, gsec);
                crate::keyed::lemma_lookup_insert(before, key@, gsec);
            }
            m.insert(String::from_str(key), sec);
            assert(lookup(m@, key@) == Some(gsec));
            assert(section_is_default(lookup(m@, kv[i as int]), kv[i as int]));
            assert forall|j: int| 0 <= j < i + 1 implies section_is_default(#[trigger] lookup(m@, kv[j]), kv[j]) by {
                if j < i {
                    assert(kv[j] != kv[i as int]);
                    assert(lookup(m@, kv[j]) == lookup(before, kv[j]));
                }
            }
            assert forall|j: int| i + 1 <= j < kv.len() implies (#[trigger] lookup(m@, kv[j])) is None by {
                assert(kv[j] != kv[i as int]);
                assert(lookup(m@, kv[j]) == lookup(before, kv[j]));
            }
            i = i + 1;
        }
        PromptConfig { sections: m }
    }
}

impl PromptConfig {
    /// The shipped default template for a section, if any.
    pub fn default_template(section: &str) -> (r: Option<&'static str>)
        ensures
            match r {
                Some(t) => default_template_spec(section@) == Some(t@),
                None => default_template_spec(section@) is None,
            },
    {
        default_template(section)
    }

    /// Applies a stored override for a section (creating it if new).
    pub fn set(&mut self, section: &str, template: String, enabled: bool)
        ensures
            final(self).sections@ == insert_sorted(
                old(self).sections@,
                section@,
                PromptSection { template, enabled },
            ),
    {
        self.sections.insert(String::from_str(section), PromptSection { template, enabled });
    }

    /// The metrics-collection preamble, or empty when that section is
    /// missing or disabled.
    pub fn metrics_template(&self) -> (r: String)
        ensures
            r@ == match lookup(self.sections@, "metrics"@) {
                Some(s) => if s.enabled {
                    s.template@
                } else {
                    Seq::<char>::empty()
                },
                None => Seq::<char>::empty(),
            },
    {
        match self.sections.get(METRICS_SECTION) {
            Some(s) => if s.enabled {
                s.template.clone()
            } else {
                String::new()
            },
            None => String::new(),
        }
    }
}

/// The first required placeholder missing from `template`.
pub open spec fn first_missing(phs: Seq<Seq<char>>, template: Seq<char>) -> Option<Seq<char>>
    decreases phs.len(),
{
    if phs.len() == 0 {
        None
    } else if !contains(template, phs[0]) {
        Some(phs[0])
    } else {
        first_missing(phs.drop_first(), template)
    }
}

/// Why a template is rejected, if it is.
pub open spec fn validation_error(section: Seq<char>, template: Seq<char>) -> Option<Seq<char>> {
    if trim(template).len() == 0 {
        Some("template must not be empty"@)
    } else {
        match first_missing(required_placeholders_spec(section), template) {
            Some(ph) => Some("template for '"@ + section + "' must contain the "@ + ph + " placeholder"@),
            None => None,
        }
    }
}

/// Rejects an empty template or one missing a required placeholder.
pub fn validate_section(section: &str, template: &str) -> (r: Result<(), String>)
    ensures
        match r {
            Ok(()) => validation_error(section@, template@) is None,
            Err(e) => validation_error(section@, template@) == Some(e@),
        },
{
    let t = chars_of(template);
    if trimmed(&t).len() == 0 {
        return Err(String::from_str("template must not be empty"));
    }
    let phs = required_placeholders(section);
    let ghost pv = phs@.map_values(|s: &'static str| s@);
    let mut i: usize = 0;
    assert(pv.skip(0) == pv);
    while i < phs.len()
        invariant
            i <= phs@.len(),
            pv == phs@.map_values(|s: &'static str| s@),
            pv == required_placeholders_spec(section@),
            t@ == template@,
            trim(template@).len() > 0,
            first_missing(pv, template@) == first_missing(pv.skip(i as int), template@),
        decreases phs.len() - i,
    {
        let ph = phs[i];
        assert(pv.skip(i as int)[0] == ph@);
        if !contains_chars(&t, &chars_of(ph)) {
            assert(first_missing(pv.skip(i as int), template@) == Some(ph@));
            let mut msg: Vec<char> = Vec::new();
            push_str(&mut msg, "template for '");
            push_str(&mut msg, section);
            push_str(&mut msg, "' must contain the ");
            push_str(&mut msg, ph);
            push_str(&mut msg, " placeholder");
            assert(trim(template@).len() > 0);
            assert(first_missing(required_placeholders_spec(section@), template@) == Some(ph@));
            assert(msg@ == "template for '"@ + section@ + "' must contain the "@ + ph@ + " placeholder"@);
            return Err(string_of(&msg));
        }
        assert(pv.skip(i as int).drop_first() == pv.skip(i + 1));
        i = i + 1;
    }
    Ok(())
}

/// The prompt field label carrying the kind for an entity type.
pub open spec fn kind_label(entity: Seq<char>) -> Seq<char> {
    if entity == "applications"@ {
        "application app_type"@
    } else if entity == "libraries"@ {
        "library ecosystem"@
    } else {
        entity + " kind"@
    }
}

/// How a kind is listed: its id, with its trimmed description in
/// parentheses when it has one.
pub open spec fn kind_text(k: KindDef) -> Seq<char> {
    if trim(k.description@).len() == 0 {
        k.kind_id@
    } else {
        k.kind_id@ + " ("@ + trim(k.description@) + ")"@
    }
}

/// How a property is listed: `id (type)` or `id (type, description)`.
pub open spec fn property_text(p: PropertyDef) -> Seq<char> {
    if trim(p.description@).len() == 0 {
        p.prop_id@ + " ("@ + p.data_type@ + ")"@
    } else {
        p.prop_id@ + " ("@ + p.data_type@ + ", "@ + trim(p.description@) + ")"@
    }
}

/// The per-type kind listings, for types with a non-empty list, in key order.
pub open spec fn kind_sections(entries: Seq<(Seq<char>, Vec<KindDef>)>) -> Seq<Seq<char>>
    decreases entries.len(),
{
    if entries.len() == 0 {
        Seq::empty()
    } else {
        let prior = kind_sections(entries.drop_last());
        let (entity, kinds) = entries.last();
        if kinds@.len() == 0 {
            prior
        } else {
            prior.push(kind_label(entity) + ": ["@ + join(kinds@.map_values(|k: KindDef| kind_text(k)), ", "@) + "]"@)
        }
    }
}

/// The per-type property listings, for types with a non-empty list.
pub open spec fn property_sections(entries: Seq<(Seq<char>, Vec<PropertyDef>)>) -> Seq<Seq<char>>
    decreases entries.len(),
{
    if entries.len() == 0 {
        Seq::empty()
    } else {
        let prior = property_sections(entries.drop_last());
        let (entity, props) = entries.last();
        if props@.len() == 0 {
            prior
        } else {
            prior.push(entity + " \u{2014} "@ + join(props@.map_values(|p: PropertyDef| property_text(p)), ", "@))
        }
    }
}

/// The strict allowed-kinds injection (empty when no kinds are configured).
pub open spec fn kinds_text(entries: Seq<(Seq<char>, Vec<KindDef>)>) -> Seq<char> {
    let secs = kind_sections(entries);
    if secs.len() == 0 {
        Seq::empty()
    } else {
        KINDS_PREFIX@ + join(secs, "; "@) + "."@
    }
}

/// The strict properties injection (empty when none are configured).
pub open spec fn properties_text(entries: Seq<(Seq<char>, Vec<PropertyDef>)>) -> Seq<char> {
    let secs = property_sections(entries);
    if secs.len() == 0 {
        Seq::empty()
    } else {
        PROPS_PREFIX@ + join(secs, "; "@) + "."@
    }
}

/// The enabled, non-blank analyzer sections (trimmed), in the given key
/// order, separated by single spaces.
pub open spec fn sections_text(keys: Seq<Seq<char>>, secs: Seq<(Seq<char>, PromptSection)>) -> Seq<char>
    decreases keys.len(),
{
    if keys.len() == 0 {
        Seq::empty()
    } else {
        let prior = sections_text(keys.drop_last(), secs);
        match lookup(secs, keys.last()) {
            Some(s) => if s.enabled && trim(s.template@).len() > 0 {
                if prior.len() == 0 {
                    trim(s.template@)
                } else {
                    prior + " "@ + trim(s.template@)
                }
            } else {
                prior
            },
            None => prior,
        }
    }
}

/// The composed analyzer system prompt: the enabled sections in order, a
/// schema sentence when no section carries the schema placeholder, then the
/// schema and the kinds/properties vocabulary substituted, trimmed.
pub open spec fn composed_prompt(
    secs: Seq<(Seq<char>, PromptSection)>,
    kinds: Seq<(Seq<char>, Vec<KindDef>)>,
    props: Seq<(Seq<char>, Vec<PropertyDef>)>,
) -> Seq<char> {
    let base = sections_text(analyzer_keys(), secs);
    let with_schema = if contains(base, "{{json_schema}}"@) {
        base
    } else {
        base + " Respond with the JSON shape: {{json_schema}}."@
    };
    let full = with_schema + " {{kinds}} {{properties}}"@;
    trim(
        replace_all(
            replace_all(replace_all(full, "{{json_schema}}"@, JSON_SCHEMA@), "{{kinds}}"@, kinds_text(kinds)),
            "{{properties}}"@,
            properties_text(props),
        ),
    )
}

/// The prompt field label carrying the kind for an entity type.
pub fn kind_field_label(entity: &str) -> (r: String)
    ensures
        r@ == kind_label(entity@),
{
    if str_eq(entity, "applications") {
        String::from_str("application app_type")
    } else if str_eq(entity, "libraries") {
        String::from_str("library ecosystem")
    } else {
        let mut v = chars_of(entity);
        push_str(&mut v, " kind");
        string_of(&v)
    }
}

/// How a kind is listed in the prompt.
pub fn describe_kind(k: &KindDef) -> (r: Vec<char>)
    ensures
        r@ == kind_text(*k),
{
    let d = trimmed(&chars_of(k.description.as_str()));
    let mut v = chars_of(k.kind_id.as_str());
    if d.len() > 0 {
        push_str(&mut v, " (");
        push_all(&mut v, &d);
        push_str(&mut v, ")");
    }
    v
}

/// How a property is listed in the prompt.
pub fn describe_property(p: &PropertyDef) -> (r: Vec<char>)
    ensures
        r@ == property_text(*p),
{
    let d = trimmed(&chars_of(p.description.as_str()));
    let mut v = chars_of(p.prop_id.as_str());
    push_str(&mut v, " (");
    push_str(&mut v, p.data_type.as_str());
    if d.len() > 0 {
        push_str(&mut v, ", ");
        push_all(&mut v, &d);
    }
    push_str(&mut v, ")");
    v
}

/// The listing of one entity type's kinds.
fn kind_listing(kinds: &Vec<KindDef>) -> (r: Vec<char>)
    ensures
        r@ == join(kinds@.map_values(|k: KindDef| kind_text(k)), ", "@),
{
    let mut parts: Vec<Vec<char>> = Vec::new();
    let mut i: usize = 0;
    while i < kinds.len()
        invariant
            i <= kinds@.len(),
            seqs_of(parts@) == kinds@.take(i as int).map_values(|k: KindDef| kind_text(k)),
        decreases kinds.len() - i,
    {
        let d = describe_kind(&kinds[i]);
        let ghost before = parts@;
        parts.push(d);
        assert(seqs_of(parts@) == seqs_of(before).push(d@));
        assert(kinds@.take(i + 1).map_values(|k: KindDef| kind_text(k)) == kinds@.take(
            i as int,
        ).map_values(|k: KindDef| kind_text(k)).push(kind_text(kinds@[i as int])));
        i = i + 1;
    }
    assert(kinds@.take(kinds.len() as int) == kinds@);
    join_chars(&parts, &chars_of(", "))
}

/// The listing of one entity type's properties.
fn property_listing(props: &Vec<PropertyDef>) -> (r: Vec<char>)
    ensures
        r@ == join(props@.map_values(|p: PropertyDef| property_text(p)), ", "@),
{
    let mut parts: Vec<Vec<char>> = Vec::new();
    let mut i: usize = 0;
    while i < props.len()
        invariant
            i <= props@.len(),
            seqs_of(parts@) == props@.take(i as int).map_values(|p: PropertyDef| property_text(p)),
        decreases props.len() - i,
    {
        let d = describe_property(&props[i]);
        let ghost before = parts@;
        parts.push(d);
        assert(seqs_of(parts@) == seqs_of(before).push(d@));
        assert(props@.take(i + 1).map_values(|p: PropertyDef| property_text(p)) == props@.take(
            i as int,
        ).map_values(|p: PropertyDef| property_text(p)).push(property_text(props@[i as int])));
        i = i + 1;
    }
    assert(props@.take(props.len() as int) == props@);
    join_chars(&parts, &chars_of(", "))
}

/// The strict allowed-kinds injection (empty when no kinds are configured).
pub fn kinds_injection(config: &AnalysisConfig) -> (r: Vec<char>)
    ensures
        r@ == kinds_text(config.kinds@),
{
    let mut secs: Vec<Vec<char>> = Vec::new();
    let mut i: usize = 0;
    while i < config.kinds.len()
        invariant
            i <= config.kinds@.len(),
            seqs_of(secs@) == kind_sections(config.kinds@.take(i as int)),
        decreases config.kinds@.len() - i,
    {
        let (entity, kinds) = config.kinds.entry(i);
        let ghost t = config.kinds@.take(i + 1);
        assert(t.drop_last() == config.kinds@.take(i as int));
        assert(t.last() == config.kinds@[i as int]);
        if kinds.len() > 0 {
            let mut sec = chars_of(kind_field_label(entity.as_str()).as_str());
            push_str(&mut sec, ": [");
            let listing = kind_listing(kinds);
            push_all(&mut sec, &listing);
            push_str(&mut sec, "]");
            let ghost before = secs@;
            secs.push(sec);
            assert(seqs_of(secs@) == seqs_of(before).push(sec@));
        }
        i = i + 1;
    }
    assert(config.kinds@.take(config.kinds@.len() as int) == config.kinds@);
    if secs.len() == 0 {
        return Vec::new();
    }
    let mut r = chars_of(KINDS_PREFIX);
    let joined = join_chars(&secs, &chars_of("; "));
    push_all(&mut r, &joined);
    push_str(&mut r, ".");
    r
}

/// The strict extraction-properties injection (empty when none are
/// configured).
pub fn props_injection(config: &AnalysisConfig) -> (r: Vec<char>)
    ensures
        r@ == properties_text(config.properties@),
{
    let mut secs: Vec<Vec<char>> = Vec::new();
    let mut i: usize = 0;
    while i < config.properties.len()
        invariant
            i <= config.properties@.len(),
            seqs_of(secs@) == property_sections(config.properties@.take(i as int)),
        decreases config.properties@.len() - i,
    {
        let (entity, props) = config.properties.entry(i);
        let ghost t = config.properties@.take(i + 1);
        assert(t.drop_last() == config.properties@.take(i as int));
        assert(t.last() == config.properties@[i as int]);
        if props.len() > 0 {
            let mut sec = chars_of(entity.as_str());
            push_str(&mut sec, " \u{2014} ");
            let listing = property_listing(props);
            push_all(&mut sec, &listing);
            let ghost before = secs@;
            secs.push(sec);
            assert(seqs_of(secs@) == seqs_of(before).push(sec@));
        }
        i = i + 1;
    }
    assert(config.properties@.take(config.properties@.len() as int) == config.properties@);
    if secs.len() == 0 {
        return Vec::new();
    }
    let mut r = chars_of(PROPS_PREFIX);
    let joined = join_chars(&secs, &chars_of("; "));
    push_all(&mut r, &joined);
    push_str(&mut r, ".");
    r
}

/// Composes the analyzer system prompt: each enabled section in fixed order,
/// then the always-injected schema and strict kinds/properties vocabulary.
pub fn compose_system_prompt(prompts: &PromptConfig, config: &AnalysisConfig) -> (r: String)
    ensures
        r@ == composed_prompt(prompts.sections@, config.kinds@, config.properties@),
{
    let keys = analyzer_sections();
    let ghost kv = keys@.map_values(|s: &'static str| s@);
    let mut out: Vec<char> = Vec::new();
    let mut i: usize = 0;
    while i < keys.len()
        invariant
            i <= keys@.len(),
            kv == keys@.map_values(|s: &'static str| s@),
            kv == analyzer_keys(),
            out@ == sections_text(kv.take(i as int), prompts.sections@),
        decreases keys.len() - i,
    {
        let key = keys[i];
        let ghost t = kv.take(i + 1);
        assert(t.drop_last() == kv.take(i as int));
        assert(t.last() == key@);
        match prompts.sections.get(key) {
            Some(s) => {
                let tt = trimmed(&chars_of(s.template.as_str()));
                if s.enabled && tt.len() > 0 {
                    if out.len() > 0 {
                        push_str(&mut out, " ");
                    }
                    push_all(&mut out, &tt);
                }
            },
            None => {},
        }
        i = i + 1;
    }
    assert(kv.take(keys.len() as int) == kv);
    let schema_ph = chars_of("{{json_schema}}");
    if !contains_chars(&out, &schema_ph) {
        push_str(&mut out, " Respond with the JSON shape: {{json_schema}}.");
    }
    push_str(&mut out, " {{kinds}} {{properties}}");
    proof {
        reveal_strlit("{{json_schema}}");
        reveal_strlit("{{kinds}}");
        reveal_strlit("{{properties}}");
    }
    let a = replace_chars(&out, &schema_ph, &chars_of(JSON_SCHEMA));
    let kinds = kinds_injection(config);
    let b = replace_chars(&a, &chars_of("{{kinds}}"), &kinds);
    let props = props_injection(config);
    let c = replace_chars(&b, &chars_of("{{properties}}"), &props);
    string_of(&trimmed(&c))
}

} // verus!

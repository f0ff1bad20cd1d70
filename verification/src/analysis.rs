//! The typed result the model returns for a repository, the analysis
//! vocabulary operators configure (allowed kind values and extraction
//! properties per entity type), and the enforcement of that vocabulary.

use vstd::prelude::*;
use crate::keyed::{KeyedList, lookup};
use crate::prompts::{PromptConfig, default_sections};
use crate::text::{
    chars_of, str_eq_chars, trim, trim_start, trimmed, trimmed_start, starts_with, ends_with, starts_with_chars,
    ends_with_chars, first_match, find, last_index, rfind_char, slice_chars, string_of, push_str, str_eq,
};

verus! {

broadcast use vstd::seq_lib::group_seq_properties;

/// A configured allowed `kind`/`app_type`/`ecosystem` value for an entity
/// type.
#[derive(Debug, Clone)]
pub struct KindDef {
    pub kind_id: String,
    pub name: String,
    pub description: String,
}

/// A configured extraction property for an entity type.
#[derive(Debug, Clone)]
pub struct PropertyDef {
    pub prop_id: String,
    pub name: String,
    pub description: String,
    pub data_type: String,
}

/// The configured analysis vocabulary keyed by entity-type name (e.g.
/// `applications`, `services`), plus the extraction prompt templates.
pub struct AnalysisConfig {
    pub kinds: KeyedList<Vec<KindDef>>,
    pub properties: KeyedList<Vec<PropertyDef>>,
    pub prompts: PromptConfig,
}

impl Default for AnalysisConfig {
    /// No configured kinds or properties, and the shipped prompts.
    fn default() -> (c: Self)
        ensures
            c.kinds@.len() == 0,
            c.properties@.len() == 0,
            default_sections(c.prompts.sections@),
    {
        AnalysisConfig { kinds: KeyedList::new(), properties: KeyedList::new(), prompts: PromptConfig::default() }
    }
}

/// Character views of a list of strings.
pub open spec fn names(v: Seq<String>) -> Seq<Seq<char>> {
    v.map_values(|s: String| s@)
}

/// Character views of an optional list of strings.
pub open spec fn opt_names(v: Option<Vec<String>>) -> Option<Seq<Seq<char>>> {
    match v {
        Some(v) => Some(names(v@)),
        None => None,
    }
}

/// Whether `k` is one of the strings in `v`.
pub fn has_name(v: &Vec<String>, k: &str) -> (b: bool)
    ensures
        b == names(v@).contains(k@),
{
    let kc = chars_of(k);
    let mut i: usize = 0;
    while i < v.len()
        invariant
            i <= v@.len(),
            kc@ == k@,
            forall|j: int| 0 <= j < i ==> v@[j]@ != k@,
        decreases v.len() - i,
    {
        if str_eq_chars(v[i].as_str(), &kc) {
            assert(names(v@)[i as int] == k@);
            return true;
        }
        i = i + 1;
    }
    assert(!names(v@).contains(k@)) by {
        if names(v@).contains(k@) {
            let j = choose|j: int| 0 <= j < names(v@).len() && names(v@)[j] == k@;
            assert(v@[j]@ == k@);
        }
    }
    false
}

/// The allowed kind ids configured for an entity type, when a non-empty list
/// is configured (`None` leaves the type unconstrained).
pub open spec fn allowed_kinds_spec(kinds: Seq<(Seq<char>, Vec<KindDef>)>, entity: Seq<char>) -> Option<Seq<Seq<char>>> {
    match lookup(kinds, entity) {
        Some(v) => if v@.len() > 0 {
            Some(v@.map_values(|k: KindDef| k.kind_id@))
        } else {
            None
        },
        None => None,
    }
}

/// The allowed property ids configured for an entity type, when a non-empty
/// list is configured (`None` leaves the type unconstrained).
pub open spec fn allowed_props_spec(props: Seq<(Seq<char>, Vec<PropertyDef>)>, entity: Seq<char>) -> Option<Seq<Seq<char>>> {
    match lookup(props, entity) {
        Some(v) => if v@.len() > 0 {
            Some(v@.map_values(|p: PropertyDef| p.prop_id@))
        } else {
            None
        },
        None => None,
    }
}

impl AnalysisConfig {
    /// The allowed kind ids for an entity type, if a non-empty list is
    /// configured (otherwise `None`: unconstrained).
    pub fn allowed_kinds(&self, entity: &str) -> (r: Option<Vec<String>>)
        ensures
            opt_names(r) == allowed_kinds_spec(self.kinds@, entity@),
    {
        match self.kinds.get(entity) {
            Some(v) => {
                if v.len() == 0 {
                    return None;
                }
                let mut ids: Vec<String> = Vec::new();
                let mut i: usize = 0;
                while i < v.len()
                    invariant
                        i <= v@.len(),
                        names(ids@) == v@.take(i as int).map_values(|k: KindDef| k.kind_id@),
                    decreases v.len() - i,
                {
                    let id = v[i].kind_id.clone();
                    assert(id@ == v@[i as int].kind_id@);
                    let ghost before = ids@;
                    ids.push(id);
                    assert(names(ids@) == names(before).push(id@));
                    assert(v@.take(i + 1) == v@.take(i as int).push(v@[i as int]));
                    i = i + 1;
                }
                assert(v@.take(v.len() as int) == v@);
                Some(ids)
            },
            None => None,
        }
    }

    /// The allowed property ids for an entity type, if a non-empty list is
    /// configured (otherwise `None`: unconstrained).
    pub fn allowed_props(&self, entity: &str) -> (r: Option<Vec<String>>)
        ensures
            opt_names(r) == allowed_props_spec(self.properties@, entity@),
    {
        match self.properties.get(entity) {
            Some(v) => {
                if v.len() == 0 {
                    return None;
                }
                let mut ids: Vec<String> = Vec::new();
                let mut i: usize = 0;
                while i < v.len()
                    invariant
                        i <= v@.len(),
                        names(ids@) == v@.take(i as int).map_values(|p: PropertyDef| p.prop_id@),
                    decreases v.len() - i,
                {
                    let id = v[i].prop_id.clone();
                    assert(id@ == v@[i as int].prop_id@);
                    let ghost before = ids@;
                    ids.push(id);
                    assert(names(ids@) == names(before).push(id@));
                    assert(v@.take(i + 1) == v@.take(i as int).push(v@[i as int]));
                    i = i + 1;
                }
                assert(v@.take(v.len() as int) == v@);
                Some(ids)
            },
            None => None,
        }
    }
}

/// Free-form JSON metadata, held as what the vocabulary rules read: a JSON
/// object's members (each key with the JSON text of its value, in the
/// object's key order), or any other JSON value by its JSON text.
pub enum Metadata {
    Object(Vec<(String, String)>),
    Other(String),
}

/// The character view of object members.
pub open spec fn member_views(v: Seq<(String, String)>) -> Seq<(Seq<char>, Seq<char>)> {
    v.map_values(|e: (String, String)| (e.0@, e.1@))
}

/// Whether a member's key is among the allowed ones.
pub open spec fn member_allowed(allowed: Seq<Seq<char>>, e: (Seq<char>, Seq<char>)) -> bool {
    allowed.contains(e.0)
}

/// `out` is `src` with object keys outside `allowed` removed (a non-object
/// value is unchanged); with no allowed set, `out` is `src`.
pub open spec fn meta_stripped(out: Metadata, src: Metadata, allowed: Option<Seq<Seq<char>>>) -> bool {
    match src {
        Metadata::Object(v) => match out {
            Metadata::Object(w) => member_views(w@) == match allowed {
                Some(a) => member_views(v@).filter(|e: (Seq<char>, Seq<char>)| member_allowed(a, e)),
                None => member_views(v@),
            },
            Metadata::Other(_) => false,
        },
        Metadata::Other(t) => match out {
            Metadata::Other(u) => u@ == t@,
            Metadata::Object(_) => false,
        },
    }
}

impl Metadata {
    /// JSON `null`, the value of absent metadata.
    pub fn null() -> (m: Metadata)
        ensures
            m matches Metadata::Other(t) && t@ == "null"@,
    {
        proof {
            reveal_strlit("null");
        }
        Metadata::Other(String::from_str("null"))
    }

    /// Removes the object keys that are not in `allowed`; a non-object value
    /// is left unchanged.
    pub fn strip(self, allowed: &Vec<String>) -> (r: Metadata)
        ensures
            meta_stripped(r, self, Some(names(allowed@))),
    {
        match self {
            Metadata::Object(v) => {
                let ghost a = names(allowed@);
                let ghost src = member_views(v@);
                let ghost p = |e: (Seq<char>, Seq<char>)| member_allowed(a, e);
                let mut rest = v;
                let mut out: Vec<(String, String)> = Vec::new();
                let ghost mut k: int = 0;
                while rest.len() > 0
                    invariant
                        0 <= k <= src.len(),
                        a == names(allowed@),
                        p == (|e: (Seq<char>, Seq<char>)| member_allowed(a, e)),
                        member_views(rest@) == src.skip(k),
                        member_views(out@) == src.take(k).filter(p),
                    decreases rest.len(),
                {
                    assert(member_views(rest@).len() == rest@.len());
                    let ghost before = rest@;
                    let e = rest.remove(0);
                    assert(member_views(rest@) =~= member_views(before).drop_first());
                    assert(src.skip(k)[0] == (e.0@, e.1@));
                    assert(src.take(k + 1) == src.take(k).push(src[k]));
                    proof {
                        src.take(k).lemma_filter_push(src[k], p);
                    }
                    let keep = has_name(allowed, e.0.as_str());
                    assert(src[k] == src.skip(k)[0]);
                    assert(member_allowed(a, src[k]) == keep);
                    assert(p(src[k]) == keep);
                    let ghost ob = out@;
                    if keep {
                        out.push(e);
                        assert(member_views(out@) =~= member_views(ob).push((e.0@, e.1@)));
                    }
                    assert(src.skip(k).drop_first() =~= src.skip(k + 1));
                    proof {
                        k = k + 1;
                    }
                }
                assert(src.take(k) == src);
                Metadata::Object(out)
            },
            Metadata::Other(t) => Metadata::Other(t),
        }
    }
}

/// Strips `m` when an allowed set is given.
fn strip_opt(m: Metadata, allowed: &Option<Vec<String>>) -> (r: Metadata)
    ensures
        meta_stripped(r, m, opt_names(*allowed)),
{
    match allowed {
        Some(a) => m.strip(a),
        None => match m {
            Metadata::Object(v) => Metadata::Object(v),
            Metadata::Other(t) => Metadata::Other(t),
        },
    }
}

/// An entity with a configurable kind (`kind`, or `ecosystem` for libraries).
pub trait Kinded {
    spec fn kind_of(&self) -> Seq<char>;

    fn kind_str(&self) -> (r: &str)
        ensures
            r@ == self.kind_of(),
    ;
}

/// An entity carrying free-form metadata.
pub trait Annotated: Sized {
    spec fn meta_of(&self) -> Metadata;

    /// `other` has the same fields as `self`, metadata aside.
    spec fn agrees_except_meta(&self, other: &Self) -> bool;

    proof fn lemma_agrees_refl(&self)
        ensures
            self.agrees_except_meta(self),
    ;

    /// The entity with object keys outside `allowed` removed from its
    /// metadata.
    fn strip_meta(self, allowed: &Vec<String>) -> (r: Self)
        ensures
            meta_stripped(r.meta_of(), self.meta_of(), Some(names(allowed@))),
            self.agrees_except_meta(&r),
    ;
}

/// Whether an entity's kind is allowed (always, when unconstrained).
pub open spec fn kind_ok<T: Kinded>(allowed: Option<Seq<Seq<char>>>, t: T) -> bool {
    match allowed {
        Some(a) => a.contains(t.kind_of()),
        None => true,
    }
}

/// The entities whose kind is allowed, in order.
pub open spec fn kept<T: Kinded>(s: Seq<T>, allowed: Option<Seq<Seq<char>>>) -> Seq<T> {
    s.filter(|t: T| kind_ok(allowed, t))
}

/// `out` is `src` element by element with each metadata stripped to
/// `allowed` (and otherwise unchanged).
pub open spec fn each_stripped<T: Annotated>(out: Seq<T>, src: Seq<T>, allowed: Option<Seq<Seq<char>>>) -> bool {
    &&& out.len() == src.len()
    &&& forall|i: int| 0 <= i < src.len() ==> {
        &&& #[trigger] src[i].agrees_except_meta(&out[i])
        &&& meta_stripped(out[i].meta_of(), src[i].meta_of(), allowed)
    }
}

/// Keeps the entities whose kind is allowed (all of them when unconstrained).
fn retain_kinds<T: Kinded>(items: Vec<T>, allowed: &Option<Vec<String>>) -> (r: Vec<T>)
    ensures
        r@ == kept(items@, opt_names(*allowed)),
{
    let ghost src = items@;
    let ghost a = opt_names(*allowed);
    let ghost p = |t: T| kind_ok(a, t);
    let mut rest = items;
    let mut out: Vec<T> = Vec::new();
    let ghost mut k: int = 0;
    while rest.len() > 0
        invariant
            0 <= k <= src.len(),
            a == opt_names(*allowed),
            p == (|t: T| kind_ok(a, t)),
            rest@ == src.skip(k),
            out@ == src.take(k).filter(p),
        decreases rest.len(),
    {
        let item = rest.remove(0);
        assert(src.take(k + 1) == src.take(k).push(src[k]));
        proof {
            src.take(k).lemma_filter_push(src[k], p);
        }
        let keep = match allowed {
            Some(names_list) => has_name(names_list, item.kind_str()),
            None => true,
        };
        assert(p(src[k]) == keep);
        if keep {
            out.push(item);
        }
        assert(src.skip(k).drop_first() =~= src.skip(k + 1));
        proof {
            k = k + 1;
        }
    }
    assert(src.take(k) == src);
    out
}

/// Strips each entity's metadata to `allowed` (no change when
/// unconstrained).
fn strip_each<T: Annotated>(items: Vec<T>, allowed: &Option<Vec<String>>) -> (r: Vec<T>)
    ensures
        each_stripped(r@, items@, opt_names(*allowed)),
{
    match allowed {
        None => {
            assert forall|i: int| 0 <= i < items@.len() implies {
                &&& #[trigger] items@[i].agrees_except_meta(&items@[i])
                &&& meta_stripped(items@[i].meta_of(), items@[i].meta_of(), None)
            } by {
                items@[i].lemma_agrees_refl();
            }
            items
        },
        Some(a) => {
            let ghost src = items@;
            let mut rest = items;
            let mut out: Vec<T> = Vec::new();
            let ghost mut k: int = 0;
            while rest.len() > 0
                invariant
                    0 <= k <= src.len(),
                    rest@ == src.skip(k),
                    out@.len() == k,
                    forall|i: int| 0 <= i < k ==> {
                        &&& #[trigger] src[i].agrees_except_meta(&out@[i])
                        &&& meta_stripped(out@[i].meta_of(), src[i].meta_of(), Some(names(a@)))
                    },
                decreases rest.len(),
            {
                let item = rest.remove(0);
                assert(item == src[k]);
                let s = item.strip_meta(a);
                let ghost before = out@;
                out.push(s);
                assert(out@ == before.push(s));
                assert(forall|i: int| 0 <= i < k ==> out@[i] == before[i]);
                assert(src.skip(k).drop_first() =~= src.skip(k + 1));
                proof {
                    k = k + 1;
                }
            }
            out
        },
    }
}

/// The application the repository implements.
pub struct AppInfo {
    pub name: String,
    pub app_type: Option<String>,
    pub description: Option<String>,
    pub primary_language: Option<String>,
    pub metadata: Metadata,
}

/// A language the repository is written in; `percentage` is the reported
/// share as decimal text, when there is one.
pub struct LanguageInfo {
    pub name: String,
    pub percentage: Option<String>,
}

/// A library the application uses.
pub struct LibraryInfo {
    pub name: String,
    pub ecosystem: String,
    pub version: Option<String>,
    pub scope: Option<String>,
    pub metadata: Metadata,
}

/// A linked entity (infrastructure, tool, cloud provider, service, platform
/// or external dependency): a named `(kind, version)` thing an application
/// uses, with free-form metadata.
pub struct LinkedInfo {
    pub name: String,
    pub kind: String,
    pub version: Option<String>,
    pub usage: Option<String>,
    pub metadata: Metadata,
}

/// A connection from the application to another system.
pub struct DependencyInfo {
    pub target_name: String,
    pub kind: Option<String>,
    pub description: Option<String>,
    /// Name of the component (from `components`) that makes the connection.
    pub component: Option<String>,
    pub metadata: Metadata,
}

/// A user with access to the application.
pub struct UserInfo {
    pub username: String,
    pub email: Option<String>,
    pub groups: Vec<String>,
    pub metadata: Metadata,
}

/// A group with access to the application.
pub struct GroupInfo {
    pub name: String,
    pub metadata: Metadata,
}

/// An access grant: a user or group and its access level.
#[derive(Debug, Clone)]
pub struct AccessInfo {
    pub principal_type: String,
    pub principal_name: String,
    pub access_level: String,
}

/// An internal component of an application with its kind and the
/// observability signals it emits.
pub struct ComponentInfo {
    pub name: String,
    pub kind: String,
    pub description: Option<String>,
    pub metadata: Metadata,
    pub observability_signals: Vec<ObservabilitySignalInfo>,
    /// Repository-relative paths the component is implemented in.
    pub files: Vec<String>,
}

/// A signal a component emits (metric, trace, log, ...).
pub struct ObservabilitySignalInfo {
    pub name: String,
    pub kind: String,
    pub description: Option<String>,
    pub metadata: Metadata,
}

/// A use case an application fulfils, naming the components it involves and
/// carrying diagrams.
pub struct UseCaseInfo {
    pub name: String,
    pub description: Option<String>,
    pub metadata: Metadata,
    pub components: Vec<String>,
    pub diagrams: Vec<DiagramInfo>,
    /// Repository-relative paths the use case affects.
    pub files: Vec<String>,
}

/// A diagram: `kind` names the diagram type, `content` is its source.
pub struct DiagramInfo {
    pub name: String,
    pub kind: String,
    pub description: Option<String>,
    pub content: String,
    pub metadata: Metadata,
}

/// A repository member association from a git provider (e.g. a
/// collaborator), reconciled as a member of the application.
pub struct MemberInfo {
    pub username: String,
    pub email: Option<String>,
    /// Provider role (stored as the access level).
    pub role: Option<String>,
    /// Raw provider permission flags.
    pub permissions: Metadata,
    pub metadata: Metadata,
}

impl Kinded for LibraryInfo {
    open spec fn kind_of(&self) -> Seq<char> {
        self.ecosystem@
    }

    fn kind_str(&self) -> (r: &str) {
        self.ecosystem.as_str()
    }
}

impl Annotated for LibraryInfo {
    open spec fn meta_of(&self) -> Metadata {
        self.metadata
    }

    open spec fn agrees_except_meta(&self, other: &Self) -> bool {
        &&& self.name == other.name
        &&& self.ecosystem == other.ecosystem
        &&& self.version == other.version
        &&& self.scope == other.scope
    }

    proof fn lemma_agrees_refl(&self) {
    }

    fn strip_meta(self, allowed: &Vec<String>) -> (r: Self) {
        LibraryInfo {
            name: self.name,
            ecosystem: self.ecosystem,
            version: self.version,
            scope: self.scope,
            metadata: self.metadata.strip(allowed),
        }
    }
}

impl Kinded for LinkedInfo {
    open spec fn kind_of(&self) -> Seq<char> {
        self.kind@
    }

    fn kind_str(&self) -> (r: &str) {
        self.kind.as_str()
    }
}

impl Annotated for LinkedInfo {
    open spec fn meta_of(&self) -> Metadata {
        self.metadata
    }

    open spec fn agrees_except_meta(&self, other: &Self) -> bool {
        &&& self.name == other.name
        &&& self.kind == other.kind
        &&& self.version == other.version
        &&& self.usage == other.usage
    }

    proof fn lemma_agrees_refl(&self) {
    }

    fn strip_meta(self, allowed: &Vec<String>) -> (r: Self) {
        LinkedInfo {
            name: self.name,
            kind: self.kind,
            version: self.version,
            usage: self.usage,
            metadata: self.metadata.strip(allowed),
        }
    }
}

impl Annotated for UserInfo {
    open spec fn meta_of(&self) -> Metadata {
        self.metadata
    }

    open spec fn agrees_except_meta(&self, other: &Self) -> bool {
        &&& self.username == other.username
        &&& self.email == other.email
        &&& self.groups@ == other.groups@
    }

    proof fn lemma_agrees_refl(&self) {
    }

    fn strip_meta(self, allowed: &Vec<String>) -> (r: Self) {
        UserInfo {
            username: self.username,
            email: self.email,
            groups: self.groups,
            metadata: self.metadata.strip(allowed),
        }
    }
}

impl Annotated for GroupInfo {
    open spec fn meta_of(&self) -> Metadata {
        self.metadata
    }

    open spec fn agrees_except_meta(&self, other: &Self) -> bool {
        self.name == other.name
    }

    proof fn lemma_agrees_refl(&self) {
    }

    fn strip_meta(self, allowed: &Vec<String>) -> (r: Self) {
        GroupInfo { name: self.name, metadata: self.metadata.strip(allowed) }
    }
}

impl Kinded for ComponentInfo {
    open spec fn kind_of(&self) -> Seq<char> {
        self.kind@
    }

    fn kind_str(&self) -> (r: &str) {
        self.kind.as_str()
    }
}

impl Kinded for ObservabilitySignalInfo {
    open spec fn kind_of(&self) -> Seq<char> {
        self.kind@
    }

    fn kind_str(&self) -> (r: &str) {
        self.kind.as_str()
    }
}

impl Annotated for ObservabilitySignalInfo {
    open spec fn meta_of(&self) -> Metadata {
        self.metadata
    }

    open spec fn agrees_except_meta(&self, other: &Self) -> bool {
        &&& self.name == other.name
        &&& self.kind == other.kind
        &&& self.description == other.description
    }

    proof fn lemma_agrees_refl(&self) {
    }

    fn strip_meta(self, allowed: &Vec<String>) -> (r: Self) {
        ObservabilitySignalInfo {
            name: self.name,
            kind: self.kind,
            description: self.description,
            metadata: self.metadata.strip(allowed),
        }
    }
}

impl Kinded for DiagramInfo {
    open spec fn kind_of(&self) -> Seq<char> {
        self.kind@
    }

    fn kind_str(&self) -> (r: &str) {
        self.kind.as_str()
    }
}

impl Annotated for DiagramInfo {
    open spec fn meta_of(&self) -> Metadata {
        self.metadata
    }

    open spec fn agrees_except_meta(&self, other: &Self) -> bool {
        &&& self.name == other.name
        &&& self.kind == other.kind
        &&& self.description == other.description
        &&& self.content == other.content
    }

    proof fn lemma_agrees_refl(&self) {
    }

    fn strip_meta(self, allowed: &Vec<String>) -> (r: Self) {
        DiagramInfo {
            name: self.name,
            kind: self.kind,
            description: self.description,
            content: self.content,
            metadata: self.metadata.strip(allowed),
        }
    }
}

/// Top-level analysis result for one repository.
pub struct AnalysisResult {
    pub application: AppInfo,
    pub languages: Vec<LanguageInfo>,
    pub libraries: Vec<LibraryInfo>,
    pub infrastructure: Vec<LinkedInfo>,
    pub tools: Vec<LinkedInfo>,
    pub cloud_providers: Vec<LinkedInfo>,
    pub services: Vec<LinkedInfo>,
    pub platforms: Vec<LinkedInfo>,
    pub external: Vec<LinkedInfo>,
    pub dependencies: Vec<DependencyInfo>,
    pub users: Vec<UserInfo>,
    pub groups: Vec<GroupInfo>,
    pub access: Vec<AccessInfo>,
    pub components: Vec<ComponentInfo>,
    pub use_cases: Vec<UseCaseInfo>,
}

/// The application after vocabulary enforcement: an `app_type` outside the
/// allowed kinds is cleared (the application itself is always kept) and its
/// metadata is stripped to the allowed properties.
pub open spec fn app_vetted(out: AppInfo, src: AppInfo, kinds: Option<Seq<Seq<char>>>, props: Option<Seq<Seq<char>>>) -> bool {
    &&& out.name == src.name
    &&& out.description == src.description
    &&& out.primary_language == src.primary_language
    &&& out.app_type == match (kinds, src.app_type) {
        (Some(a), Some(t)) => if a.contains(t@) {
            Some(t)
        } else {
            None
        },
        _ => src.app_type,
    }
    &&& meta_stripped(out.metadata, src.metadata, props)
}

/// A collection after enforcement: entities of a disallowed kind dropped,
/// the rest in order with their metadata stripped.
pub open spec fn list_vetted<T: Kinded + Annotated>(out: Seq<T>, src: Seq<T>, kinds: Option<Seq<Seq<char>>>, props: Option<Seq<Seq<char>>>) -> bool {
    each_stripped(out, kept(src, kinds), props)
}

/// A component after enforcement: its signals vetted, its metadata stripped.
pub open spec fn component_vetted(
    out: ComponentInfo,
    src: ComponentInfo,
    signal_kinds: Option<Seq<Seq<char>>>,
    component_props: Option<Seq<Seq<char>>>,
    signal_props: Option<Seq<Seq<char>>>,
) -> bool {
    &&& out.name == src.name
    &&& out.kind == src.kind
    &&& out.description == src.description
    &&& out.files@ == src.files@
    &&& meta_stripped(out.metadata, src.metadata, component_props)
    &&& list_vetted(out.observability_signals@, src.observability_signals@, signal_kinds, signal_props)
}

/// A use case after enforcement: its diagrams vetted, its metadata stripped.
pub open spec fn use_case_vetted(
    out: UseCaseInfo,
    src: UseCaseInfo,
    use_case_props: Option<Seq<Seq<char>>>,
    diagram_kinds: Option<Seq<Seq<char>>>,
    diagram_props: Option<Seq<Seq<char>>>,
) -> bool {
    &&& out.name == src.name
    &&& out.description == src.description
    &&& out.components@ == src.components@
    &&& out.files@ == src.files@
    &&& meta_stripped(out.metadata, src.metadata, use_case_props)
    &&& list_vetted(out.diagrams@, src.diagrams@, diagram_kinds, diagram_props)
}

/// The whole result after enforcing the configured vocabulary (`kinds` and
/// `props` are the configuration's entries). Types with no non-empty
/// configured list are unconstrained.
pub open spec fn vetted(
    out: AnalysisResult,
    src: AnalysisResult,
    kinds: Seq<(Seq<char>, Vec<KindDef>)>,
    props: Seq<(Seq<char>, Vec<PropertyDef>)>,
) -> bool {
    let k = |e: Seq<char>| allowed_kinds_spec(kinds, e);
    let p = |e: Seq<char>| allowed_props_spec(props, e);
    let cs = kept(src.components@, k("components"@));
    &&& app_vetted(out.application, src.application, k("applications"@), p("applications"@))
    &&& out.languages@ == src.languages@
    &&& list_vetted(out.libraries@, src.libraries@, k("libraries"@), p("libraries"@))
    &&& list_vetted(out.infrastructure@, src.infrastructure@, k("infrastructure"@), p("infrastructure"@))
    &&& list_vetted(out.tools@, src.tools@, k("tools"@), p("tools"@))
    &&& list_vetted(out.cloud_providers@, src.cloud_providers@, k("cloud-providers"@), p("cloud-providers"@))
    &&& list_vetted(out.services@, src.services@, k("services"@), p("services"@))
    &&& list_vetted(out.platforms@, src.platforms@, k("platforms"@), p("platforms"@))
    &&& list_vetted(out.external@, src.external@, k("external"@), p("external"@))
    &&& out.dependencies@ == src.dependencies@
    &&& each_stripped(out.users@, src.users@, p("users"@))
    &&& each_stripped(out.groups@, src.groups@, p("groups"@))
    &&& out.access@ == src.access@
    &&& out.components@.len() == cs.len()
    &&& forall|i: int| 0 <= i < cs.len() ==> component_vetted(
        #[trigger] out.components@[i],
        cs[i],
        k("observability-signals"@),
        p("components"@),
        p("observability-signals"@),
    )
    &&& out.use_cases@.len() == src.use_cases@.len()
    &&& forall|i: int| 0 <= i < src.use_cases@.len() ==> use_case_vetted(
        #[trigger] out.use_cases@[i],
        src.use_cases@[i],
        p("use-cases"@),
        k("diagrams"@),
        p("diagrams"@),
    )
}

/// Drops the disallowed kinds and strips each remaining entity's metadata.
fn vet_list<T: Kinded + Annotated>(items: Vec<T>, kinds: &Option<Vec<String>>, props: &Option<Vec<String>>) -> (r: Vec<T>)
    ensures
        list_vetted(r@, items@, opt_names(*kinds), opt_names(*props)),
{
    strip_each(retain_kinds(items, kinds), props)
}

/// Enforces the vocabulary on the application record.
fn vet_app(app: AppInfo, kinds: &Option<Vec<String>>, props: &Option<Vec<String>>) -> (r: AppInfo)
    ensures
        app_vetted(r, app, opt_names(*kinds), opt_names(*props)),
{
    let app_type = match app.app_type {
        Some(t) => match kinds {
            Some(a) => if has_name(a, t.as_str()) {
                Some(t)
            } else {
                None
            },
            None => Some(t),
        },
        None => None,
    };
    AppInfo {
        name: app.name,
        app_type,
        description: app.description,
        primary_language: app.primary_language,
        metadata: strip_opt(app.metadata, props),
    }
}

/// Enforces the vocabulary on one component.
fn vet_component(
    c: ComponentInfo,
    signal_kinds: &Option<Vec<String>>,
    component_props: &Option<Vec<String>>,
    signal_props: &Option<Vec<String>>,
) -> (r: ComponentInfo)
    ensures
        component_vetted(r, c, opt_names(*signal_kinds), opt_names(*component_props), opt_names(*signal_props)),
{
    ComponentInfo {
        name: c.name,
        kind: c.kind,
        description: c.description,
        metadata: strip_opt(c.metadata, component_props),
        observability_signals: vet_list(c.observability_signals, signal_kinds, signal_props),
        files: c.files,
    }
}

/// Enforces the vocabulary on one use case.
fn vet_use_case(
    u: UseCaseInfo,
    use_case_props: &Option<Vec<String>>,
    diagram_kinds: &Option<Vec<String>>,
    diagram_props: &Option<Vec<String>>,
) -> (r: UseCaseInfo)
    ensures
        use_case_vetted(r, u, opt_names(*use_case_props), opt_names(*diagram_kinds), opt_names(*diagram_props)),
{
    UseCaseInfo {
        name: u.name,
        description: u.description,
        metadata: strip_opt(u.metadata, use_case_props),
        components: u.components,
        diagrams: vet_list(u.diagrams, diagram_kinds, diagram_props),
        files: u.files,
    }
}

/// Enforces the vocabulary on every component.
fn vet_components(
    items: Vec<ComponentInfo>,
    signal_kinds: &Option<Vec<String>>,
    component_props: &Option<Vec<String>>,
    signal_props: &Option<Vec<String>>,
) -> (r: Vec<ComponentInfo>)
    ensures
        r@.len() == items@.len(),
        forall|i: int| 0 <= i < items@.len() ==> component_vetted(
            #[trigger] r@[i],
            items@[i],
            opt_names(*signal_kinds),
            opt_names(*component_props),
            opt_names(*signal_props),
        ),
{
    let ghost src = items@;
    let mut rest = items;
    let mut out: Vec<ComponentInfo> = Vec::new();
    let ghost mut k: int = 0;
    while rest.len() > 0
        invariant
            0 <= k <= src.len(),
            rest@ == src.skip(k),
            out@.len() == k,
            forall|i: int| 0 <= i < k ==> component_vetted(
                #[trigger] out@[i],
                src[i],
                opt_names(*signal_kinds),
                opt_names(*component_props),
                opt_names(*signal_props),
            ),
        decreases rest.len(),
    {
        let c = rest.remove(0);
        assert(c == src[k]);
        out.push(vet_component(c, signal_kinds, component_props, signal_props));
        assert(src.skip(k).drop_first() =~= src.skip(k + 1));
        proof {
            k = k + 1;
        }
    }
    out
}

/// Enforces the vocabulary on every use case.
fn vet_use_cases(
    items: Vec<UseCaseInfo>,
    use_case_props: &Option<Vec<String>>,
    diagram_kinds: &Option<Vec<String>>,
    diagram_props: &Option<Vec<String>>,
) -> (r: Vec<UseCaseInfo>)
    ensures
        r@.len() == items@.len(),
        forall|i: int| 0 <= i < items@.len() ==> use_case_vetted(
            #[trigger] r@[i],
            items@[i],
            opt_names(*use_case_props),
            opt_names(*diagram_kinds),
            opt_names(*diagram_props),
        ),
{
    let ghost src = items@;
    let mut rest = items;
    let mut out: Vec<UseCaseInfo> = Vec::new();
    let ghost mut k: int = 0;
    while rest.len() > 0
        invariant
            0 <= k <= src.len(),
            rest@ == src.skip(k),
            out@.len() == k,
            forall|i: int| 0 <= i < k ==> use_case_vetted(
                #[trigger] out@[i],
                src[i],
                opt_names(*use_case_props),
                opt_names(*diagram_kinds),
                opt_names(*diagram_props),
            ),
        decreases rest.len(),
    {
        let u = rest.remove(0);
        assert(u == src[k]);
        out.push(vet_use_case(u, use_case_props, diagram_kinds, diagram_props));
        assert(src.skip(k).drop_first() =~= src.skip(k + 1));
        proof {
            k = k + 1;
        }
    }
    out
}

/// Takes a list out of a field, leaving it empty.
fn take_list<T>(v: &mut Vec<T>) -> (r: Vec<T>)
    ensures
        r@ == old(v)@,
        final(v)@.len() == 0,
{
    let mut out: Vec<T> = Vec::new();
    std::mem::swap(&mut out, v);
    out
}

impl AnalysisResult {
    /// Enforces the configured vocabulary: drops entities whose kind is not
    /// allowed, clears a disallowed application type (keeping the
    /// application) and strips metadata keys that are not configured
    /// properties. A type with no non-empty configured list is unconstrained.
    pub fn apply_config(&mut self, cfg: &AnalysisConfig)
        ensures
            vetted(*final(self), *old(self), cfg.kinds@, cfg.properties@),
    {
        let mut app = AppInfo {
            name: String::new(),
            app_type: None,
            description: None,
            primary_language: None,
            metadata: Metadata::null(),
        };
        std::mem::swap(&mut app, &mut self.application);
        self.application = vet_app(app, &cfg.allowed_kinds("applications"), &cfg.allowed_props("applications"));

        let libs = take_list(&mut self.libraries);
        self.libraries = vet_list(libs, &cfg.allowed_kinds("libraries"), &cfg.allowed_props("libraries"));
        let items = take_list(&mut self.infrastructure);
        self.infrastructure = vet_list(items, &cfg.allowed_kinds("infrastructure"), &cfg.allowed_props("infrastructure"));
        let items = take_list(&mut self.tools);
        self.tools = vet_list(items, &cfg.allowed_kinds("tools"), &cfg.allowed_props("tools"));
        let items = take_list(&mut self.cloud_providers);
        self.cloud_providers = vet_list(items, &cfg.allowed_kinds("cloud-providers"), &cfg.allowed_props("cloud-providers"));
        let items = take_list(&mut self.services);
        self.services = vet_list(items, &cfg.allowed_kinds("services"), &cfg.allowed_props("services"));
        let items = take_list(&mut self.platforms);
        self.platforms = vet_list(items, &cfg.allowed_kinds("platforms"), &cfg.allowed_props("platforms"));
        let items = take_list(&mut self.external);
        self.external = vet_list(items, &cfg.allowed_kinds("external"), &cfg.allowed_props("external"));

        let users = take_list(&mut self.users);
        self.users = strip_each(users, &cfg.allowed_props("users"));
        let groups = take_list(&mut self.groups);
        self.groups = strip_each(groups, &cfg.allowed_props("groups"));

        let components = take_list(&mut self.components);
        let components = retain_kinds(components, &cfg.allowed_kinds("components"));
        self.components = vet_components(
            components,
            &cfg.allowed_kinds("observability-signals"),
            &cfg.allowed_props("components"),
            &cfg.allowed_props("observability-signals"),
        );
        let use_cases = take_list(&mut self.use_cases);
        self.use_cases = vet_use_cases(
            use_cases,
            &cfg.allowed_props("use-cases"),
            &cfg.allowed_kinds("diagrams"),
            &cfg.allowed_props("diagrams"),
        );
    }
}

/// Every object key of `m` is allowed (nothing to check when unconstrained
/// or not an object).
pub open spec fn meta_within(m: Metadata, allowed: Option<Seq<Seq<char>>>) -> bool {
    match allowed {
        Some(a) => match m {
            Metadata::Object(w) => forall|j: int| 0 <= j < w@.len() ==> a.contains(#[trigger] w@[j].0@),
            Metadata::Other(_) => true,
        },
        None => true,
    }
}

proof fn lemma_kept_ok<T: Kinded>(s: Seq<T>, kinds: Option<Seq<Seq<char>>>)
    ensures
        forall|i: int| 0 <= i < kept(s, kinds).len() ==> kind_ok(kinds, #[trigger] kept(s, kinds)[i]),
{
    let p = |t: T| kind_ok(kinds, t);
    assert forall|i: int| 0 <= i < kept(s, kinds).len() implies kind_ok(kinds, #[trigger] kept(s, kinds)[i]) by {
        s.lemma_filter_pred(p, i);
    }
}

proof fn lemma_list_kinds<T: Kinded + Annotated>(
    out: Seq<T>,
    src: Seq<T>,
    kinds: Option<Seq<Seq<char>>>,
    props: Option<Seq<Seq<char>>>,
)
    requires
        list_vetted(out, src, kinds, props),
        forall|x: T, y: T| #[trigger] x.agrees_except_meta(&y) ==> x.kind_of() == y.kind_of(),
    ensures
        forall|i: int| 0 <= i < out.len() ==> kind_ok(kinds, #[trigger] out[i]),
{
    lemma_kept_ok(src, kinds);
    assert forall|i: int| 0 <= i < out.len() implies kind_ok(kinds, #[trigger] out[i]) by {
        assert(kept(src, kinds)[i].agrees_except_meta(&out[i]));
        assert(kind_ok(kinds, kept(src, kinds)[i]));
    }
}

proof fn lemma_meta_within(out: Metadata, src: Metadata, allowed: Option<Seq<Seq<char>>>)
    requires
        meta_stripped(out, src, allowed),
    ensures
        meta_within(out, allowed),
{
    if let Some(a) = allowed {
        if let Metadata::Object(w) = out {
            if let Metadata::Object(v) = src {
                let p = |e: (Seq<char>, Seq<char>)| member_allowed(a, e);
                assert forall|j: int| 0 <= j < w@.len() implies a.contains(#[trigger] w@[j].0@) by {
                    member_views(v@).lemma_filter_pred(p, j);
                    assert(member_views(w@)[j] == (w@[j].0@, w@[j].1@));
                }
            }
        }
    }
}

proof fn lemma_each_within<T: Annotated>(out: Seq<T>, src: Seq<T>, allowed: Option<Seq<Seq<char>>>)
    requires
        each_stripped(out, src, allowed),
    ensures
        forall|i: int| 0 <= i < out.len() ==> meta_within(#[trigger] out[i].meta_of(), allowed),
{
    assert forall|i: int| 0 <= i < out.len() implies meta_within(#[trigger] out[i].meta_of(), allowed) by {
        assert(src[i].agrees_except_meta(&out[i]));
        lemma_meta_within(out[i].meta_of(), src[i].meta_of(), allowed);
    }
}

proof fn lemma_filter_all<T: Kinded>(s: Seq<T>)
    ensures
        kept(s, None) == s,
    decreases s.len(),
{
    let p = |t: T| kind_ok(None, t);
    if s.len() > 0 {
        lemma_filter_all(s.drop_last());
        s.drop_last().lemma_filter_push(s.last(), p);
        assert(s.drop_last().push(s.last()) == s);
    } else {
        reveal(Seq::filter);
    }
}

/// Vocabulary enforcement, kinds: after `apply_config`, an application type
/// that is kept is an allowed one, and every library, linked entity,
/// component, observability signal and diagram of a constrained type has an
/// allowed kind.
pub proof fn lemma_kinds_enforced(
    out: AnalysisResult,
    src: AnalysisResult,
    kinds: Seq<(Seq<char>, Vec<KindDef>)>,
    props: Seq<(Seq<char>, Vec<PropertyDef>)>,
)
    requires
        vetted(out, src, kinds, props),
    ensures
        match (allowed_kinds_spec(kinds, "applications"@), out.application.app_type) {
            (Some(a), Some(t)) => a.contains(t@),
            _ => true,
        },
        forall|i: int| 0 <= i < out.libraries@.len()
            ==> kind_ok(allowed_kinds_spec(kinds, "libraries"@), #[trigger] out.libraries@[i]),
        forall|i: int| 0 <= i < out.infrastructure@.len()
            ==> kind_ok(allowed_kinds_spec(kinds, "infrastructure"@), #[trigger] out.infrastructure@[i]),
        forall|i: int| 0 <= i < out.tools@.len()
            ==> kind_ok(allowed_kinds_spec(kinds, "tools"@), #[trigger] out.tools@[i]),
        forall|i: int| 0 <= i < out.cloud_providers@.len()
            ==> kind_ok(allowed_kinds_spec(kinds, "cloud-providers"@), #[trigger] out.cloud_providers@[i]),
        forall|i: int| 0 <= i < out.services@.len()
            ==> kind_ok(allowed_kinds_spec(kinds, "services"@), #[trigger] out.services@[i]),
        forall|i: int| 0 <= i < out.platforms@.len()
            ==> kind_ok(allowed_kinds_spec(kinds, "platforms"@), #[trigger] out.platforms@[i]),
        forall|i: int| 0 <= i < out.external@.len()
            ==> kind_ok(allowed_kinds_spec(kinds, "external"@), #[trigger] out.external@[i]),
        forall|i: int| 0 <= i < out.components@.len()
            ==> kind_ok(allowed_kinds_spec(kinds, "components"@), #[trigger] out.components@[i]),
        forall|i: int, j: int| 0 <= i < out.components@.len() && 0 <= j < out.components@[i].observability_signals@.len()
            ==> kind_ok(
                allowed_kinds_spec(kinds, "observability-signals"@),
                #[trigger] out.components@[i].observability_signals@[j],
            ),
        forall|i: int, j: int| 0 <= i < out.use_cases@.len() && 0 <= j < out.use_cases@[i].diagrams@.len()
            ==> kind_ok(allowed_kinds_spec(kinds, "diagrams"@), #[trigger] out.use_cases@[i].diagrams@[j]),
{
    let k = |e: Seq<char>| allowed_kinds_spec(kinds, e);
    let p = |e: Seq<char>| allowed_props_spec(props, e);
    assert forall|x: LibraryInfo, y: LibraryInfo| #[trigger] x.agrees_except_meta(&y) implies x.kind_of() == y.kind_of() by {}
    assert forall|x: LinkedInfo, y: LinkedInfo| #[trigger] x.agrees_except_meta(&y) implies x.kind_of() == y.kind_of() by {}
    assert forall|x: ObservabilitySignalInfo, y: ObservabilitySignalInfo| #[trigger] x.agrees_except_meta(&y) implies x.kind_of() == y.kind_of() by {}
    assert forall|x: DiagramInfo, y: DiagramInfo| #[trigger] x.agrees_except_meta(&y) implies x.kind_of() == y.kind_of() by {}
    lemma_list_kinds(out.libraries@, src.libraries@, k("libraries"@), p("libraries"@));
    lemma_list_kinds(out.infrastructure@, src.infrastructure@, k("infrastructure"@), p("infrastructure"@));
    lemma_list_kinds(out.tools@, src.tools@, k("tools"@), p("tools"@));
    lemma_list_kinds(out.cloud_providers@, src.cloud_providers@, k("cloud-providers"@), p("cloud-providers"@));
    lemma_list_kinds(out.services@, src.services@, k("services"@), p("services"@));
    lemma_list_kinds(out.platforms@, src.platforms@, k("platforms"@), p("platforms"@));
    lemma_list_kinds(out.external@, src.external@, k("external"@), p("external"@));
    let cs = kept(src.components@, k("components"@));
    lemma_kept_ok(src.components@, k("components"@));
    assert forall|i: int| 0 <= i < out.components@.len()
        implies kind_ok(k("components"@), #[trigger] out.components@[i]) by {
        assert(component_vetted(out.components@[i], cs[i], k("observability-signals"@), p("components"@), p("observability-signals"@)));
        assert(kind_ok(k("components"@), cs[i]));
    }
    assert forall|i: int, j: int| 0 <= i < out.components@.len() && 0 <= j < out.components@[i].observability_signals@.len()
        implies kind_ok(k("observability-signals"@), #[trigger] out.components@[i].observability_signals@[j]) by {
        assert(component_vetted(out.components@[i], cs[i], k("observability-signals"@), p("components"@), p("observability-signals"@)));
        lemma_list_kinds(
            out.components@[i].observability_signals@,
            cs[i].observability_signals@,
            k("observability-signals"@),
            p("observability-signals"@),
        );
    }
    assert forall|i: int, j: int| 0 <= i < out.use_cases@.len() && 0 <= j < out.use_cases@[i].diagrams@.len()
        implies kind_ok(k("diagrams"@), #[trigger] out.use_cases@[i].diagrams@[j]) by {
        assert(use_case_vetted(out.use_cases@[i], src.use_cases@[i], p("use-cases"@), k("diagrams"@), p("diagrams"@)));
        lemma_list_kinds(out.use_cases@[i].diagrams@, src.use_cases@[i].diagrams@, k("diagrams"@), p("diagrams"@));
    }
}

/// Vocabulary enforcement, properties: after `apply_config`, every metadata
/// object key of an entity of a constrained type is a configured property.
pub proof fn lemma_properties_enforced(
    out: AnalysisResult,
    src: AnalysisResult,
    kinds: Seq<(Seq<char>, Vec<KindDef>)>,
    props: Seq<(Seq<char>, Vec<PropertyDef>)>,
)
    requires
        vetted(out, src, kinds, props),
    ensures
        meta_within(out.application.metadata, allowed_props_spec(props, "applications"@)),
        forall|i: int| 0 <= i < out.libraries@.len()
            ==> meta_within(#[trigger] out.libraries@[i].metadata, allowed_props_spec(props, "libraries"@)),
        forall|i: int| 0 <= i < out.services@.len()
            ==> meta_within(#[trigger] out.services@[i].metadata, allowed_props_spec(props, "services"@)),
        forall|i: int| 0 <= i < out.infrastructure@.len()
            ==> meta_within(#[trigger] out.infrastructure@[i].metadata, allowed_props_spec(props, "infrastructure"@)),
        forall|i: int| 0 <= i < out.tools@.len()
            ==> meta_within(#[trigger] out.tools@[i].metadata, allowed_props_spec(props, "tools"@)),
        forall|i: int| 0 <= i < out.cloud_providers@.len()
            ==> meta_within(#[trigger] out.cloud_providers@[i].metadata, allowed_props_spec(props, "cloud-providers"@)),
        forall|i: int| 0 <= i < out.platforms@.len()
            ==> meta_within(#[trigger] out.platforms@[i].metadata, allowed_props_spec(props, "platforms"@)),
        forall|i: int| 0 <= i < out.external@.len()
            ==> meta_within(#[trigger] out.external@[i].metadata, allowed_props_spec(props, "external"@)),
        forall|i: int| 0 <= i < out.users@.len()
            ==> meta_within(#[trigger] out.users@[i].metadata, allowed_props_spec(props, "users"@)),
        forall|i: int| 0 <= i < out.groups@.len()
            ==> meta_within(#[trigger] out.groups@[i].metadata, allowed_props_spec(props, "groups"@)),
        forall|i: int| 0 <= i < out.components@.len()
            ==> meta_within(#[trigger] out.components@[i].metadata, allowed_props_spec(props, "components"@)),
        forall|i: int, j: int| 0 <= i < out.components@.len() && 0 <= j < out.components@[i].observability_signals@.len()
            ==> meta_within(
                #[trigger] out.components@[i].observability_signals@[j].metadata,
                allowed_props_spec(props, "observability-signals"@),
            ),
        forall|i: int| 0 <= i < out.use_cases@.len()
            ==> meta_within(#[trigger] out.use_cases@[i].metadata, allowed_props_spec(props, "use-cases"@)),
        forall|i: int, j: int| 0 <= i < out.use_cases@.len() && 0 <= j < out.use_cases@[i].diagrams@.len()
            ==> meta_within(#[trigger] out.use_cases@[i].diagrams@[j].metadata, allowed_props_spec(props, "diagrams"@)),
{
    let k = |e: Seq<char>| allowed_kinds_spec(kinds, e);
    let p = |e: Seq<char>| allowed_props_spec(props, e);
    lemma_meta_within(out.application.metadata, src.application.metadata, p("applications"@));
    lemma_each_within(out.libraries@, kept(src.libraries@, k("libraries"@)), p("libraries"@));
    assert forall|i: int| 0 <= i < out.libraries@.len()
        implies meta_within(#[trigger] out.libraries@[i].metadata, p("libraries"@)) by {
        assert(out.libraries@[i].meta_of() == out.libraries@[i].metadata);
    }
    lemma_each_within(out.services@, kept(src.services@, k("services"@)), p("services"@));
    assert forall|i: int| 0 <= i < out.services@.len()
        implies meta_within(#[trigger] out.services@[i].metadata, p("services"@)) by {
        assert(out.services@[i].meta_of() == out.services@[i].metadata);
    }
    lemma_each_within(out.infrastructure@, kept(src.infrastructure@, k("infrastructure"@)), p("infrastructure"@));
    assert forall|i: int| 0 <= i < out.infrastructure@.len()
        implies meta_within(#[trigger] out.infrastructure@[i].metadata, p("infrastructure"@)) by {
        assert(out.infrastructure@[i].meta_of() == out.infrastructure@[i].metadata);
    }
    lemma_each_within(out.tools@, kept(src.tools@, k("tools"@)), p("tools"@));
    assert forall|i: int| 0 <= i < out.tools@.len()
        implies meta_within(#[trigger] out.tools@[i].metadata, p("tools"@)) by {
        assert(out.tools@[i].meta_of() == out.tools@[i].metadata);
    }
    lemma_each_within(out.cloud_providers@, kept(src.cloud_providers@, k("cloud-providers"@)), p("cloud-providers"@));
    assert forall|i: int| 0 <= i < out.cloud_providers@.len()
        implies meta_within(#[trigger] out.cloud_providers@[i].metadata, p("cloud-providers"@)) by {
        assert(out.cloud_providers@[i].meta_of() == out.cloud_providers@[i].metadata);
    }
    lemma_each_within(out.platforms@, kept(src.platforms@, k("platforms"@)), p("platforms"@));
    assert forall|i: int| 0 <= i < out.platforms@.len()
        implies meta_within(#[trigger] out.platforms@[i].metadata, p("platforms"@)) by {
        assert(out.platforms@[i].meta_of() == out.platforms@[i].metadata);
    }
    lemma_each_within(out.external@, kept(src.external@, k("external"@)), p("external"@));
    assert forall|i: int| 0 <= i < out.external@.len()
        implies meta_within(#[trigger] out.external@[i].metadata, p("external"@)) by {
        assert(out.external@[i].meta_of() == out.external@[i].metadata);
    }
    lemma_each_within(out.users@, src.users@, p("users"@));
    assert forall|i: int| 0 <= i < out.users@.len()
        implies meta_within(#[trigger] out.users@[i].metadata, p("users"@)) by {
        assert(out.users@[i].meta_of() == out.users@[i].metadata);
    }
    lemma_each_within(out.groups@, src.groups@, p("groups"@));
    assert forall|i: int| 0 <= i < out.groups@.len()
        implies meta_within(#[trigger] out.groups@[i].metadata, p("groups"@)) by {
        assert(out.groups@[i].meta_of() == out.groups@[i].metadata);
    }
    let cs = kept(src.components@, k("components"@));
    assert forall|i: int| 0 <= i < out.components@.len()
        implies meta_within(#[trigger] out.components@[i].metadata, p("components"@)) by {
        assert(component_vetted(out.components@[i], cs[i], k("observability-signals"@), p("components"@), p("observability-signals"@)));
        lemma_meta_within(out.components@[i].metadata, cs[i].metadata, p("components"@));
    }
    assert forall|i: int, j: int| 0 <= i < out.components@.len() && 0 <= j < out.components@[i].observability_signals@.len()
        implies meta_within(#[trigger] out.components@[i].observability_signals@[j].metadata, p("observability-signals"@)) by {
        assert(component_vetted(out.components@[i], cs[i], k("observability-signals"@), p("components"@), p("observability-signals"@)));
        lemma_each_within(
            out.components@[i].observability_signals@,
            kept(cs[i].observability_signals@, k("observability-signals"@)),
            p("observability-signals"@),
        );
        assert(out.components@[i].observability_signals@[j].meta_of() == out.components@[i].observability_signals@[j].metadata);
    }
    assert forall|i: int| 0 <= i < out.use_cases@.len()
        implies meta_within(#[trigger] out.use_cases@[i].metadata, p("use-cases"@)) by {
        assert(use_case_vetted(out.use_cases@[i], src.use_cases@[i], p("use-cases"@), k("diagrams"@), p("diagrams"@)));
        lemma_meta_within(out.use_cases@[i].metadata, src.use_cases@[i].metadata, p("use-cases"@));
    }
    assert forall|i: int, j: int| 0 <= i < out.use_cases@.len() && 0 <= j < out.use_cases@[i].diagrams@.len()
        implies meta_within(#[trigger] out.use_cases@[i].diagrams@[j].metadata, p("diagrams"@)) by {
        assert(use_case_vetted(out.use_cases@[i], src.use_cases@[i], p("use-cases"@), k("diagrams"@), p("diagrams"@)));
        lemma_each_within(
            out.use_cases@[i].diagrams@,
            kept(src.use_cases@[i].diagrams@, k("diagrams"@)),
            p("diagrams"@),
        );
        assert(out.use_cases@[i].diagrams@[j].meta_of() == out.use_cases@[i].diagrams@[j].metadata);
    }
}

/// An empty configuration leaves the result as it was: every collection
/// keeps all its entities, with unchanged fields and metadata.
pub proof fn lemma_empty_config_keeps_all(
    out: AnalysisResult,
    src: AnalysisResult,
    kinds: Seq<(Seq<char>, Vec<KindDef>)>,
    props: Seq<(Seq<char>, Vec<PropertyDef>)>,
)
    requires
        vetted(out, src, kinds, props),
        kinds.len() == 0,
        props.len() == 0,
    ensures
        out.application.app_type == src.application.app_type,
        meta_stripped(out.application.metadata, src.application.metadata, None),
        each_stripped(out.libraries@, src.libraries@, None),
        each_stripped(out.infrastructure@, src.infrastructure@, None),
        each_stripped(out.tools@, src.tools@, None),
        each_stripped(out.cloud_providers@, src.cloud_providers@, None),
        each_stripped(out.services@, src.services@, None),
        each_stripped(out.platforms@, src.platforms@, None),
        each_stripped(out.external@, src.external@, None),
        each_stripped(out.users@, src.users@, None),
        each_stripped(out.groups@, src.groups@, None),
        out.components@.len() == src.components@.len(),
        forall|i: int| 0 <= i < src.components@.len() ==> component_vetted(
            #[trigger] out.components@[i],
            src.components@[i],
            None,
            None,
            None,
        ),
        forall|i: int| 0 <= i < src.use_cases@.len() ==> use_case_vetted(
            #[trigger] out.use_cases@[i],
            src.use_cases@[i],
            None,
            None,
            None,
        ),
{
    lemma_filter_all(src.libraries@);
    lemma_filter_all(src.infrastructure@);
    lemma_filter_all(src.tools@);
    lemma_filter_all(src.cloud_providers@);
    lemma_filter_all(src.services@);
    lemma_filter_all(src.platforms@);
    lemma_filter_all(src.external@);
    lemma_filter_all(src.components@);
}

/// The model's reply with surrounding whitespace and Markdown code fences
/// removed.
pub open spec fn unfenced(text: Seq<char>) -> Seq<char> {
    let t = trim(text);
    let without_fence = if starts_with(t, "```json"@) {
        trim_start(t.skip(7))
    } else if starts_with(t, "```"@) {
        trim_start(t.skip(3))
    } else {
        t
    };
    if ends_with(without_fence, "```"@) {
        without_fence.take(without_fence.len() - 3)
    } else {
        without_fence
    }
}

/// Where the JSON object that is open at index `i` of `s` closes: scanning
/// from `i` with `depth` braces open, inside a JSON string or not, just after
/// a backslash in a string or not. Braces inside strings do not count; the
/// object closes at the `}` that brings the depth from one to zero. `None`
/// when the text ends first.
pub open spec fn object_end(s: Seq<char>, i: int, depth: int, in_str: bool, escaped: bool) -> Option<int>
    decreases s.len() - i,
{
    if i < 0 || i >= s.len() {
        None
    } else if in_str {
        if escaped {
            object_end(s, i + 1, depth, true, false)
        } else if s[i] == '\\' {
            object_end(s, i + 1, depth, true, true)
        } else if s[i] == '"' {
            object_end(s, i + 1, depth, false, false)
        } else {
            object_end(s, i + 1, depth, true, false)
        }
    } else if s[i] == '"' {
        object_end(s, i + 1, depth, true, false)
    } else if s[i] == '{' {
        object_end(s, i + 1, depth + 1, false, false)
    } else if s[i] == '}' {
        if depth == 1 {
            Some(i)
        } else {
            object_end(s, i + 1, depth - 1, false, false)
        }
    } else {
        object_end(s, i + 1, depth, false, false)
    }
}

/// The JSON text isolated from a model reply: in the unfenced reply, the
/// first JSON object, from the first `{` to the `}` that balances it
/// (braces inside JSON strings do not count). When that object never
/// closes, the span from the first `{` to the last `}` if that follows it;
/// the whole unfenced reply when there is no `{`, or no `}` after it.
pub open spec fn json_span(text: Seq<char>) -> Seq<char> {
    let body = unfenced(text);
    match first_match(body, seq!['{']) {
        Some(start) => match object_end(body, start, 0, false, false) {
            Some(end) => body.subrange(start, end + 1),
            None => match last_index(body, '}') {
                Some(last) => if last > start {
                    body.subrange(start, last + 1)
                } else {
                    body
                },
                None => body,
            },
        },
        None => body,
    }
}

/// Where the object opened at `start` closes.
fn find_object_end(body: &Vec<char>, start: usize) -> (r: Option<usize>)
    requires
        start < body.len(),
        body@[start as int] == '{',
    ensures
        match r {
            Some(e) => object_end(body@, start as int, 0, false, false) == Some(e as int) && start < e < body.len(),
            None => object_end(body@, start as int, 0, false, false) is None,
        },
{
    let mut i: usize = start + 1;
    let mut depth: usize = 1;
    let mut in_str = false;
    let mut escaped = false;
    while i < body.len()
        invariant
            start < i <= body.len(),
            1 <= depth <= i,
            escaped ==> in_str,
            object_end(body@, start as int, 0, false, false) == object_end(body@, i as int, depth as int, in_str, escaped),
        decreases body.len() - i,
    {
        let c = body[i];
        let ghost before = object_end(body@, i as int, depth as int, in_str, escaped);
        assert(c == body@[i as int]);
        if in_str {
            if escaped {
                escaped = false;
            } else if c == '\\' {
                escaped = true;
            } else if c == '"' {
                in_str = false;
            }
        } else if c == '"' {
            in_str = true;
        } else if c == '{' {
            depth = depth + 1;
        } else if c == '}' {
            if depth == 1 {
                return Some(i);
            }
            depth = depth - 1;
        }
        i = i + 1;
        assert(before == object_end(body@, i as int, depth as int, in_str, escaped));
    }
    None
}

/// Strips Markdown code fences and isolates the first JSON object.
pub fn extract_json(text: &str) -> (r: String)
    ensures
        r@ == json_span(text@),
{
    let t = trimmed(&chars_of(text));
    proof {
        reveal_strlit("```json");
        reveal_strlit("```");
    }
    let fence_json = chars_of("```json");
    let fence = chars_of("```");
    let without_fence = if starts_with_chars(&t, &fence_json) {
        let rest = slice_chars(&t, 7, t.len());
        assert(rest@ == t@.skip(7));
        trimmed_start(&rest)
    } else if starts_with_chars(&t, &fence) {
        let rest = slice_chars(&t, 3, t.len());
        assert(rest@ == t@.skip(3));
        trimmed_start(&rest)
    } else {
        t
    };
    let body = if ends_with_chars(&without_fence, &fence) {
        let n = without_fence.len();
        slice_chars(&without_fence, 0, n - 3)
    } else {
        without_fence
    };
    assert(body@ == unfenced(text@));
    let open = vec!['{'];
    assert(open@ == seq!['{']);
    match find(&body, &open) {
        Some(start) => {
            assert(body@.subrange(start as int, start + 1) == seq!['{']);
            assert(body@[start as int] == body@.subrange(start as int, start + 1)[0]);
            match find_object_end(&body, start) {
                Some(end) => string_of(&slice_chars(&body, start, end + 1)),
                None => match rfind_char(&body, '}') {
                    Some(last) => {
                        if last > start {
                            assert(last < body.len()) by {
                                lemma_last_index_bound(body@, '}');
                            }
                            string_of(&slice_chars(&body, start, last + 1))
                        } else {
                            string_of(&body)
                        }
                    },
                    None => string_of(&body),
                },
            }
        },
        None => string_of(&body),
    }
}

proof fn lemma_last_index_bound(s: Seq<char>, c: char)
    ensures
        match last_index(s, c) {
            Some(i) => 0 <= i < s.len(),
            None => true,
        },
    decreases s.len(),
{
    if s.len() > 0 && s.last() != c {
        lemma_last_index_bound(s.drop_last(), c);
    }
}

/// The first principal type other than `user` or `group`.
pub open spec fn first_bad_principal(access: Seq<AccessInfo>) -> Option<Seq<char>>
    decreases access.len(),
{
    if access.len() == 0 {
        None
    } else if access[0].principal_type@ != "user"@ && access[0].principal_type@ != "group"@ {
        Some(access[0].principal_type@)
    } else {
        first_bad_principal(access.drop_first())
    }
}

/// Why a parsed result is rejected, if it is: a blank application name, or
/// an access grant to something other than a user or a group.
pub open spec fn result_error(r: AnalysisResult) -> Option<Seq<char>> {
    if trim(r.application.name@).len() == 0 {
        Some("application.name is required"@)
    } else {
        match first_bad_principal(r.access@) {
            Some(t) => Some("invalid principal_type '"@ + t + "'"@),
            None => None,
        }
    }
}

impl AnalysisResult {
    /// Checks the required application name and the principal types.
    pub fn validate(&self) -> (r: Result<(), String>)
        ensures
            match r {
                Ok(()) => result_error(*self) is None,
                Err(e) => result_error(*self) == Some(e@),
            },
    {
        if trimmed(&chars_of(self.application.name.as_str())).len() == 0 {
            return Err(String::from_str("application.name is required"));
        }
        let mut i: usize = 0;
        assert(self.access@.skip(0) == self.access@);
        while i < self.access.len()
            invariant
                i <= self.access@.len(),
                trim(self.application.name@).len() > 0,
                first_bad_principal(self.access@) == first_bad_principal(self.access@.skip(i as int)),
            decreases self.access.len() - i,
        {
            let t = self.access[i].principal_type.as_str();
            assert(self.access@.skip(i as int)[0] == self.access@[i as int]);
            if !str_eq(t, "user") && !str_eq(t, "group") {
                proof {
                    reveal_strlit("user");
                    reveal_strlit("group");
                }
                let mut msg: Vec<char> = Vec::new();
                push_str(&mut msg, "invalid principal_type '");
                push_str(&mut msg, t);
                push_str(&mut msg, "'");
                return Err(string_of(&msg));
            }
            assert(self.access@.skip(i as int).drop_first() == self.access@.skip(i + 1));
            i = i + 1;
        }
        Ok(())
    }

    /// Accepts a decoded model reply: a decoding error is reported as invalid
    /// analysis JSON, a decoded result must pass `validate`.
    pub fn from_decoded(decoded: Result<AnalysisResult, String>) -> (r: Result<AnalysisResult, String>)
        ensures
            match decoded {
                Err(e) => r matches Err(m) && m@ == "invalid analysis JSON: "@ + e@,
                Ok(res) => match result_error(res) {
                    Some(m) => r matches Err(m2) && m2@ == m,
                    None => r matches Ok(out) && out == res,
                },
            },
    {
        match decoded {
            Err(e) => {
                let mut msg: Vec<char> = Vec::new();
                push_str(&mut msg, "invalid analysis JSON: ");
                push_str(&mut msg, e.as_str());
                Err(string_of(&msg))
            },
            Ok(res) => match res.validate() {
                Ok(()) => Ok(res),
                Err(m) => Err(m),
            },
        }
    }

    /// The linked-entity list for a registry entity name (`None` for a name
    /// that is not a linked entity).
    pub fn linked_items(&self, name: &str) -> (r: Option<&Vec<LinkedInfo>>)
        ensures
            r == (if name@ == "infrastructure"@ {
                Some(&self.infrastructure)
            } else if name@ == "tools"@ {
                Some(&self.tools)
            } else if name@ == "cloud-providers"@ {
                Some(&self.cloud_providers)
            } else if name@ == "services"@ {
                Some(&self.services)
            } else if name@ == "platforms"@ {
                Some(&self.platforms)
            } else if name@ == "external"@ {
                Some(&self.external)
            } else {
                None
            }),
    {
        if str_eq(name, "infrastructure") {
            Some(&self.infrastructure)
        } else if str_eq(name, "tools") {
            Some(&self.tools)
        } else if str_eq(name, "cloud-providers") {
            Some(&self.cloud_providers)
        } else if str_eq(name, "services") {
            Some(&self.services)
        } else if str_eq(name, "platforms") {
            Some(&self.platforms)
        } else if str_eq(name, "external") {
            Some(&self.external)
        } else {
            None
        }
    }
}

/// Every list but the dependencies, and the application, are the same.
pub open spec fn same_but_dependencies(a: AnalysisResult, b: AnalysisResult) -> bool {
    &&& a.application == b.application
    &&& a.languages@ == b.languages@
    &&& a.libraries@ == b.libraries@
    &&& a.infrastructure@ == b.infrastructure@
    &&& a.tools@ == b.tools@
    &&& a.cloud_providers@ == b.cloud_providers@
    &&& a.services@ == b.services@
    &&& a.platforms@ == b.platforms@
    &&& a.external@ == b.external@
    &&& a.users@ == b.users@
    &&& a.groups@ == b.groups@
    &&& a.access@ == b.access@
    &&& a.components@ == b.components@
    &&& a.use_cases@ == b.use_cases@
}

/// Every list but the components and use cases, and the application, are
/// the same.
pub open spec fn same_but_components(a: AnalysisResult, b: AnalysisResult) -> bool {
    &&& a.application == b.application
    &&& a.languages@ == b.languages@
    &&& a.libraries@ == b.libraries@
    &&& a.infrastructure@ == b.infrastructure@
    &&& a.tools@ == b.tools@
    &&& a.cloud_providers@ == b.cloud_providers@
    &&& a.services@ == b.services@
    &&& a.platforms@ == b.platforms@
    &&& a.external@ == b.external@
    &&& a.dependencies@ == b.dependencies@
    &&& a.users@ == b.users@
    &&& a.groups@ == b.groups@
    &&& a.access@ == b.access@
}

} // verus!

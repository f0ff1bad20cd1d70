//! Version currency (how far behind and how close to end-of-life each
//! dependency is) and the shipped version-policy seed. Dates are day numbers
//! counted from the Common Era (1 January of year 1 is day 1), the range of
//! `chrono::NaiveDate`.

use vstd::prelude::*;
use chrono::Datelike;
use crate::text::{chars_of, opt_view, trim, trimmed, first_match, find, slice_chars};

verus! {

broadcast use vstd::string::group_string_axioms;

/// Day number of the earliest date (`NaiveDate::MIN`, 1 January -262143).
pub const MIN_DAY: i64 = -95746129;

/// Day number of the latest date (`NaiveDate::MAX`, 31 December 262142).
pub const MAX_DAY: i64 = 95745399;

/// The largest whole number of days a `chrono::TimeDelta` can hold.
pub const MAX_DELTA_DAYS: i64 = 106751991167;

/// The version prefix characters that parsing skips.
pub open spec fn is_version_prefix(c: char) -> bool {
    c == '^' || c == '~' || c == '=' || c == 'v' || c == 'V' || c == ' '
}

/// `s` without its leading `^ ~ = v V` and spaces.
pub open spec fn strip_version_prefix(s: Seq<char>) -> Seq<char>
    decreases s.len(),
{
    if s.len() > 0 && is_version_prefix(s[0]) {
        strip_version_prefix(s.drop_first())
    } else {
        s
    }
}

/// The longest prefix of ASCII digits.
pub open spec fn leading_digits(s: Seq<char>) -> Seq<char>
    decreases s.len(),
{
    if s.len() > 0 && '0' <= s[0] && s[0] <= '9' {
        seq![s[0]] + leading_digits(s.drop_first())
    } else {
        Seq::empty()
    }
}

/// The value of a string of ASCII digits.
pub open spec fn digits_value(d: Seq<char>) -> nat
    decreases d.len(),
{
    if d.len() == 0 {
        0
    } else {
        digits_value(d.drop_last()) * 10 + ((d.last() as u32) - 48) as nat
    }
}

/// The number at the start of a trimmed component: `None` when it has no
/// leading digit or the digits overflow `u64`.
pub open spec fn leading_number(s: Seq<char>) -> Option<u64> {
    let d = leading_digits(trim(s));
    if d.len() == 0 || digits_value(d) > u64::MAX {
        None
    } else {
        Some(digits_value(d) as u64)
    }
}

/// The text before the first `.` and, when there is a `.`, the text after it.
pub open spec fn split_dot(s: Seq<char>) -> (Seq<char>, Option<Seq<char>>) {
    match first_match(s, seq!['.']) {
        Some(i) => (s.take(i), Some(s.skip(i + 1))),
        None => (s, None),
    }
}

/// A component's number, `0` when absent or unparseable.
pub open spec fn component_or_zero(c: Option<Seq<char>>) -> u64 {
    match c {
        Some(p) => match leading_number(p) {
            Some(n) => n,
            None => 0,
        },
        None => 0,
    }
}

/// `major.minor.patch` read tolerantly: prefixes skipped, missing or
/// unparseable minor/patch are 0, and only an unparseable major fails.
pub open spec fn parsed_semver(raw: Seq<char>) -> Option<(u64, u64, u64)> {
    let cleaned = strip_version_prefix(raw);
    let (first, rest) = split_dot(cleaned);
    let (second, third) = match rest {
        Some(r) => (
            Some(split_dot(r).0),
            match split_dot(r).1 {
                Some(t) => Some(split_dot(t).0),
                None => None,
            },
        ),
        None => (None, None),
    };
    match leading_number(first) {
        Some(major) => Some((major, component_or_zero(second), component_or_zero(third))),
        None => None,
    }
}

proof fn lemma_digits_value_prefix(d: Seq<char>, k: int)
    requires
        0 <= k <= d.len(),
        forall|i: int| 0 <= i < d.len() ==> '0' <= #[trigger] d[i] && d[i] <= '9',
    ensures
        digits_value(d.take(k)) <= digits_value(d),
    decreases d.len() - k,
{
    if k < d.len() {
        lemma_digits_value_prefix(d, k + 1);
        assert(d.take(k + 1).drop_last() == d.take(k));
    } else {
        assert(d.take(k) == d);
    }
}

fn strip_prefix_chars(v: &[char]) -> (r: Vec<char>)
    ensures
        r@ == strip_version_prefix(v@),
{
    let mut i: usize = 0;
    assert(v@.skip(0) == v@);
    while i < v.len() && (v[i] == '^' || v[i] == '~' || v[i] == '=' || v[i] == 'v' || v[i] == 'V'
        || v[i] == ' ')
        invariant
            i <= v@.len(),
            strip_version_prefix(v@) == strip_version_prefix(v@.skip(i as int)),
        decreases v.len() - i,
    {
        assert(v@.skip(i as int).drop_first() == v@.skip(i + 1));
        i = i + 1;
    }
    assert(v@.skip(i as int) == v@.subrange(i as int, v@.len() as int));
    slice_chars(v, i, v.len())
}

/// The number at the start of a component (after trimming).
fn leading_number_of(s: &[char]) -> (r: Option<u64>)
    ensures
        r == leading_number(s@),
{
    let t = trimmed(s);
    let mut i: usize = 0;
    let mut value: u64 = 0;
    let mut overflow = false;
    assert(t@.skip(0) == t@);
    while i < t.len() && '0' <= t[i] && t[i] <= '9'
        invariant
            i <= t@.len(),
            t@ == trim(s@),
            leading_digits(t@) == t@.take(i as int) + leading_digits(t@.skip(i as int)),
            forall|j: int| 0 <= j < i ==> '0' <= #[trigger] t@[j] && t@[j] <= '9',
            !overflow ==> value == digits_value(t@.take(i as int)),
            overflow ==> digits_value(t@.take(i as int)) > u64::MAX,
        decreases t.len() - i,
    {
        let d = (t[i] as u32 - 48) as u64;
        assert(t@.take(i + 1).drop_last() == t@.take(i as int));
        assert(t@.skip(i as int).drop_first() == t@.skip(i + 1));
        assert(t@.take(i + 1) == t@.take(i as int) + seq![t@[i as int]]);
        if !overflow {
            if value <= (u64::MAX - d) / 10 {
                assert(value * 10 + d <= u64::MAX) by (nonlinear_arith)
                    requires
                        value <= (u64::MAX - d) / 10,
                        d <= 9,
                ;
                value = value * 10 + d;
            } else {
                assert(value * 10 + d > u64::MAX) by (nonlinear_arith)
                    requires
                        value > (u64::MAX - d) / 10,
                        d <= 9,
                ;
                overflow = true;
            }
        } else {
            assert(digits_value(t@.take(i + 1)) >= digits_value(t@.take(i as int))) by (nonlinear_arith)
                requires
                    digits_value(t@.take(i + 1)) == digits_value(t@.take(i as int)) * 10 + d,
            ;
        }
        i = i + 1;
    }
    proof {
        let rest = t@.skip(i as int);
        if rest.len() > 0 {
            assert(rest[0] == t@[i as int]);
        }
        assert(leading_digits(rest) == Seq::<char>::empty());
        assert(leading_digits(t@) == t@.take(i as int));
    }
    if i == 0 || overflow {
        None
    } else {
        Some(value)
    }
}

/// Splits at the first `.`.
fn split_dot_chars(s: &[char]) -> (r: (Vec<char>, Option<Vec<char>>))
    ensures
        r.0@ == split_dot(s@).0,
        match r.1 {
            Some(v) => split_dot(s@).1 == Some(v@),
            None => split_dot(s@).1 is None,
        },
{
    let mut dot: Vec<char> = Vec::new();
    dot.push('.');
    assert(dot@ == seq!['.']);
    match find(s, &dot) {
        Some(i) => {
            assert(crate::text::matches_at(s@, dot@, i as int));
            let n = s.len();
            assert(i < n);
            let a = slice_chars(s, 0, i);
            let b = slice_chars(s, i + 1, n);
            assert(a@ == s@.take(i as int));
            assert(b@ == s@.skip(i + 1));
            (a, Some(b))
        },
        None => {
            let a = slice_chars(s, 0, s.len());
            assert(a@ == s@);
            (a, None)
        },
    }
}

fn component_value(c: &Option<Vec<char>>) -> (n: u64)
    ensures
        n == component_or_zero(match c {
            Some(v) => Some(v@),
            None => None,
        }),
{
    match c {
        Some(v) => match leading_number_of(v) {
            Some(n) => n,
            None => 0,
        },
        None => 0,
    }
}

/// Parses a `major.minor.patch` version, tolerating `^`/`~`/`=`/`v`/`V`/space
/// prefixes and missing components; `None` when the major is unparseable.
pub fn parse_semver(raw: &str) -> (r: Option<(u64, u64, u64)>)
    ensures
        r == parsed_semver(raw@),
{
    let cleaned = strip_prefix_chars(&chars_of(raw));
    let (first, rest) = split_dot_chars(&cleaned);
    let (second, third): (Option<Vec<char>>, Option<Vec<char>>) = match rest {
        Some(r) => {
            let (a, b) = split_dot_chars(&r);
            let third = match b {
                Some(t) => {
                    let (c, _) = split_dot_chars(&t);
                    Some(c)
                },
                None => None,
            };
            (Some(a), third)
        },
        None => (None, None),
    };
    match leading_number_of(&first) {
        Some(major) => Some((major, component_value(&second), component_value(&third))),
        None => None,
    }
}

/// How many majors `version` is behind `latest`.
pub open spec fn majors_behind(version: Seq<char>, latest: Seq<char>) -> i64 {
    match (parsed_semver(version), parsed_semver(latest)) {
        (Some((cur, _, _)), Some((lat, _, _))) => if lat > cur {
            (lat - cur) as i64
        } else {
            0
        },
        _ => 0,
    }
}

/// How many major versions `version` is behind `latest` (0 when current or
/// ahead, or when either is unparseable).
pub fn major_behind(version: &str, latest: &str) -> (n: i64)
    ensures
        n == majors_behind(version@, latest@),
{
    match (parse_semver(version), parse_semver(latest)) {
        (Some((cur, _, _)), Some((lat, _, _))) => {
            if lat > cur {
                (lat - cur) as i64
            } else {
                0
            }
        },
        _ => 0,
    }
}

/// The end-of-life bucket of a policy date relative to `today`.
pub open spec fn eol_bucket(eol: Option<i64>, today: i64, soon_days: i64) -> Seq<char> {
    match eol {
        None => "unknown"@,
        Some(date) => if today > date {
            "eol"@
        } else if today + soon_days > date {
            "eol_soon"@
        } else {
            "current"@
        },
    }
}

/// The inputs on which the date arithmetic stays in range.
pub open spec fn eol_inputs_in_range(eol: Option<i64>, today: i64, soon_days: i64) -> bool {
    &&& MIN_DAY <= today <= MAX_DAY
    &&& match eol {
        Some(date) => {
            &&& MIN_DAY <= date <= MAX_DAY
            &&& today <= date ==> -MAX_DELTA_DAYS <= soon_days <= MAX_DELTA_DAYS
            &&& today <= date ==> MIN_DAY <= today + soon_days <= MAX_DAY
        },
        None => true,
    }
}

/// EOL bucket from the policy date relative to `today`: `unknown` without a
/// date, `eol` once past it, `eol_soon` within `soon_days` of it, else
/// `current`.
pub fn eol_status(eol: Option<i64>, today: i64, soon_days: i64) -> (s: &'static str)
    requires
        eol_inputs_in_range(eol, today, soon_days),
    ensures
        s@ == eol_bucket(eol, today, soon_days),
{
    match eol {
        None => "unknown",
        Some(date) => {
            if today > date {
                "eol"
            } else if today + soon_days > date {
                "eol_soon"
            } else {
                "current"
            }
        },
    }
}

/// The date string format of a version policy's end-of-life date
/// (`YYYY-MM-DD` as `chrono` reads `%Y-%m-%d`), as a day number.
pub uninterp spec fn ymd_day(s: Seq<char>) -> Option<i64>;

/// Parses a `%Y-%m-%d` date with `chrono::NaiveDate::parse_from_str` into
/// its day number (`Datelike::num_days_from_ce`); `None` when it does not
/// parse. Claimed: the result is `ymd_day` of the text, and any date lies in
/// the `NaiveDate` range.
#[verifier::external_body]
fn parse_ymd(s: &str) -> (r: Option<i64>)
    ensures
        r == ymd_day(s@),
        r matches Some(d) ==> MIN_DAY <= d <= MAX_DAY,
{
    chrono::NaiveDate::parse_from_str(s, "%Y-%m-%d").ok().map(|d| Datelike::num_days_from_ce(&d) as i64)
}

/// The end-of-life day of a policy's optional `YYYY-MM-DD` date.
pub fn parse_eol(date: &Option<String>) -> (r: Option<i64>)
    ensures
        r == match date {
            Some(s) => ymd_day(s@),
            None => None,
        },
        r matches Some(d) ==> MIN_DAY <= d <= MAX_DAY,
{
    match date {
        Some(s) => parse_ymd(s.as_str()),
        None => None,
    }
}

/// A dependency to assess: its declared version plus the policy's
/// known-latest version and end-of-life day (both optional).
#[derive(Debug, Clone)]
pub struct DepInput {
    pub name: String,
    pub ecosystem: String,
    pub version: String,
    pub latest: Option<String>,
    pub eol: Option<i64>,
}

/// The assessed currency of one dependency.
#[derive(Debug, Clone)]
pub struct DepCurrency {
    pub name: String,
    pub ecosystem: String,
    pub version: String,
    pub latest: Option<String>,
    pub major_behind: i64,
    /// `current`, `eol_soon`, `eol` or `unknown`.
    pub eol_status: String,
}

/// Assesses one dependency against its policy: the majors it lags the
/// policy's latest (0 without one) and its end-of-life bucket.
pub fn assess(dep: &DepInput, today: i64, soon_days: i64) -> (c: DepCurrency)
    requires
        eol_inputs_in_range(dep.eol, today, soon_days),
    ensures
        c.name@ == dep.name@,
        c.ecosystem@ == dep.ecosystem@,
        c.version@ == dep.version@,
        opt_view(c.latest) == opt_view(dep.latest),
        c.major_behind == match dep.latest {
            Some(l) => majors_behind(dep.version@, l@),
            None => 0,
        },
        c.eol_status@ == eol_bucket(dep.eol, today, soon_days),
{
    let major = match &dep.latest {
        Some(l) => major_behind(dep.version.as_str(), l.as_str()),
        None => 0,
    };
    let latest = match &dep.latest {
        Some(l) => Some(l.clone()),
        None => None,
    };
    DepCurrency {
        name: dep.name.clone(),
        ecosystem: dep.ecosystem.clone(),
        version: dep.version.clone(),
        latest,
        major_behind: major,
        eol_status: String::from_str(eol_status(dep.eol, today, soon_days)),
    }
}

/// A dependency is current when it is on the latest major and not
/// end-of-life.
pub open spec fn current(dep: DepCurrency) -> bool {
    dep.major_behind == 0 && dep.eol_status@ != "eol"@
}

/// Whether a dependency is on the latest major and not end-of-life.
pub fn is_current(dep: &DepCurrency) -> (b: bool)
    ensures
        b == current(*dep),
{
    dep.major_behind == 0 && !crate::text::str_eq(dep.eol_status.as_str(), "eol")
}

/// The number of current dependencies among the first `n`.
pub open spec fn current_count(deps: Seq<DepCurrency>) -> nat
    decreases deps.len(),
{
    if deps.len() == 0 {
        0
    } else {
        current_count(deps.drop_last()) + if current(deps.last()) {
            1nat
        } else {
            0nat
        }
    }
}

/// The number of dependencies past their end of life.
pub open spec fn eol_count(deps: Seq<DepCurrency>) -> nat
    decreases deps.len(),
{
    if deps.len() == 0 {
        0
    } else {
        eol_count(deps.drop_last()) + if deps.last().eol_status@ == "eol"@ {
            1nat
        } else {
            0nat
        }
    }
}

/// How many of the dependencies are past their end of life (status `eol`).
pub fn count_eol(deps: &[DepCurrency]) -> (n: usize)
    ensures
        n == eol_count(deps@),
{
    proof {
        reveal_strlit("eol");
    }
    let mut n: usize = 0;
    let mut i: usize = 0;
    while i < deps.len()
        invariant
            i <= deps@.len(),
            n == eol_count(deps@.take(i as int)),
            n <= i,
        decreases deps.len() - i,
    {
        assert(deps@.take(i + 1).drop_last() == deps@.take(i as int));
        if crate::text::str_eq(deps[i].eol_status.as_str(), "eol") {
            n = n + 1;
        }
        i = i + 1;
    }
    assert(deps@.take(deps.len() as int) == deps@);
    n
}

/// How many of the dependencies are current (the numerator of the currency
/// score, whose denominator is the number of dependencies).
pub fn count_current(deps: &[DepCurrency]) -> (n: usize)
    ensures
        n == current_count(deps@),
{
    let mut n: usize = 0;
    let mut i: usize = 0;
    while i < deps.len()
        invariant
            i <= deps@.len(),
            n == current_count(deps@.take(i as int)),
            n <= i,
        decreases deps.len() - i,
    {
        assert(deps@.take(i + 1).drop_last() == deps@.take(i as int));
        if is_current(&deps[i]) {
            n = n + 1;
        }
        i = i + 1;
    }
    assert(deps@.take(deps.len() as int) == deps@);
    n
}


/// Known-current version and end-of-life date for a technology (`ecosystem`
/// is empty for languages).
#[derive(Debug, Clone)]
pub struct VersionPolicy {
    pub ecosystem: String,
    pub name: String,
    pub latest: Option<String>,
    pub eol_date: Option<String>,
}

/// Fields to upsert a policy.
#[derive(Debug, Clone)]
pub struct PolicyInput {
    pub ecosystem: String,
    pub name: String,
    pub latest: Option<String>,
    pub eol_date: Option<String>,
}

/// Fields to upsert a tech-radar entry.
#[derive(Debug, Clone)]
pub struct RadarInput {
    pub quadrant: String,
    pub name: String,
    pub ring: String,
    pub note: Option<String>,
}

/// A policy as plain text fields.
pub open spec fn policy_view(p: PolicyInput) -> (Seq<char>, Seq<char>, Option<Seq<char>>, Option<Seq<char>>) {
    (p.ecosystem@, p.name@, opt_view(p.latest), opt_view(p.eol_date))
}

/// The shipped seed of common ecosystems and runtimes.
pub open spec fn policy_seed() -> Seq<(Seq<char>, Seq<char>, Option<Seq<char>>, Option<Seq<char>>)> {
    seq![
        (""@, "rust"@, Some("1.85"@), None),
        (""@, "python"@, Some("3.13"@), None),
        (""@, "node"@, Some("22"@), Some("2025-04-30"@)),
        (""@, "go"@, Some("1.24"@), None),
        ("cargo"@, "axum"@, Some("0.8"@), None),
        ("cargo"@, "tokio"@, Some("1"@), None),
        ("npm"@, "react"@, Some("19"@), None),
        ("pip"@, "django"@, Some("5"@), None),
    ]
}

fn seed_policy(ecosystem: &str, name: &str, latest: &str, eol: Option<&str>) -> (p: PolicyInput)
    ensures
        policy_view(p) == (ecosystem@, name@, Some(latest@), match eol {
            Some(e) => Some(e@),
            None => None,
        }),
{
    PolicyInput {
        ecosystem: String::from_str(ecosystem),
        name: String::from_str(name),
        latest: Some(String::from_str(latest)),
        eol_date: match eol {
            Some(e) => Some(String::from_str(e)),
            None => None,
        },
    }
}

/// A small seed of common ecosystems/runtimes (operators update these).
pub fn default_policies() -> (r: Vec<PolicyInput>)
    ensures
        r@.map_values(|p: PolicyInput| policy_view(p)) == policy_seed(),
{
    let mut r: Vec<PolicyInput> = Vec::new();
    r.push(seed_policy("", "rust", "1.85", None));
    r.push(seed_policy("", "python", "3.13", None));
    r.push(seed_policy("", "node", "22", Some("2025-04-30")));
    r.push(seed_policy("", "go", "1.24", None));
    r.push(seed_policy("cargo", "axum", "0.8", None));
    r.push(seed_policy("cargo", "tokio", "1", None));
    r.push(seed_policy("npm", "react", "19", None));
    r.push(seed_policy("pip", "django", "5", None));
    assert(r@.map_values(|p: PolicyInput| policy_view(p)) == policy_seed());
    r
}

/// Days before an end-of-life date that count as "soon".
pub const EOL_SOON_DAYS: i64 = 90;

/// A library of an application: name, ecosystem and declared version.
pub struct LibraryRow {
    pub name: String,
    pub ecosystem: String,
    pub version: String,
}

/// The policy for `(ecosystem, name)`: the last one listed for that pair.
pub open spec fn policy_for(policies: Seq<VersionPolicy>, ecosystem: Seq<char>, name: Seq<char>) -> Option<VersionPolicy>
    decreases policies.len(),
{
    if policies.len() == 0 {
        None
    } else if policies.last().ecosystem@ == ecosystem && policies.last().name@ == name {
        Some(policies.last())
    } else {
        policy_for(policies.drop_last(), ecosystem, name)
    }
}

/// Finds the policy for a library.
fn find_policy<'a>(policies: &'a Vec<VersionPolicy>, ecosystem: &str, name: &str) -> (r: Option<&'a VersionPolicy>)
    ensures
        match r {
            Some(p) => policy_for(policies@, ecosystem@, name@) == Some(*p),
            None => policy_for(policies@, ecosystem@, name@) is None,
        },
{
    let mut i = policies.len();
    assert(policies@.take(i as int) == policies@);
    while i > 0
        invariant
            i <= policies@.len(),
            policy_for(policies@, ecosystem@, name@) == policy_for(policies@.take(i as int), ecosystem@, name@),
        decreases i,
    {
        let p = &policies[i - 1];
        assert(policies@.take(i as int).last() == *p);
        if crate::text::str_eq(p.ecosystem.as_str(), ecosystem) && crate::text::str_eq(p.name.as_str(), name) {
            return Some(p);
        }
        assert(policies@.take(i as int).drop_last() == policies@.take(i - 1));
        i = i - 1;
    }
    None
}

/// The dependency input of a library under its policy: the policy's latest
/// version and end-of-life day, when there is a policy.
pub open spec fn dep_input_of(lib: LibraryRow, policy: Option<VersionPolicy>) -> (Seq<char>, Seq<char>, Seq<char>, Option<Seq<char>>, Option<i64>) {
    (
        lib.name@,
        lib.ecosystem@,
        lib.version@,
        match policy {
            Some(p) => opt_view(p.latest),
            None => None,
        },
        match policy {
            Some(p) => match p.eol_date {
                Some(d) => ymd_day(d@),
                None => None,
            },
            None => None,
        },
    )
}

/// `c` is the assessment of the dependency input `d` on day `today`.
pub open spec fn assessed(c: DepCurrency, d: (Seq<char>, Seq<char>, Seq<char>, Option<Seq<char>>, Option<i64>), today: i64) -> bool {
    &&& c.name@ == d.0
    &&& c.ecosystem@ == d.1
    &&& c.version@ == d.2
    &&& opt_view(c.latest) == d.3
    &&& c.major_behind == match d.3 {
        Some(l) => majors_behind(d.2, l),
        None => 0,
    }
    &&& c.eol_status@ == eol_bucket(d.4, today, EOL_SOON_DAYS)
}

/// Assesses an application's libraries against the version policies, as of
/// day `today` (days from the common era).
pub fn assess_libraries(libs: &Vec<LibraryRow>, policies: &Vec<VersionPolicy>, today: i64) -> (r: Vec<DepCurrency>)
    requires
        MIN_DAY <= today <= MAX_DAY - EOL_SOON_DAYS,
    ensures
        r@.len() == libs@.len(),
        forall|i: int| 0 <= i < libs@.len() ==> assessed(
            #[trigger] r@[i],
            dep_input_of(libs@[i], policy_for(policies@, libs@[i].ecosystem@, libs@[i].name@)),
            today,
        ),
{
    let mut out: Vec<DepCurrency> = Vec::new();
    let mut i: usize = 0;
    while i < libs.len()
        invariant
            i <= libs@.len(),
            MIN_DAY <= today <= MAX_DAY - EOL_SOON_DAYS,
            out@.len() == i,
            forall|j: int| 0 <= j < i ==> assessed(
                #[trigger] out@[j],
                dep_input_of(libs@[j], policy_for(policies@, libs@[j].ecosystem@, libs@[j].name@)),
                today,
            ),
        decreases libs.len() - i,
    {
        let lib = &libs[i];
        let policy = find_policy(policies, lib.ecosystem.as_str(), lib.name.as_str());
        let latest = match policy {
            Some(p) => match &p.latest {
                Some(l) => Some(l.clone()),
                None => None,
            },
            None => None,
        };
        let eol = match policy {
            Some(p) => parse_eol(&p.eol_date),
            None => None,
        };
        let dep = DepInput {
            name: lib.name.clone(),
            ecosystem: lib.ecosystem.clone(),
            version: lib.version.clone(),
            latest,
            eol,
        };
        let c = assess(&dep, today, EOL_SOON_DAYS);
        let ghost before = out@;
        out.push(c);
        assert(forall|j: int| 0 <= j < i ==> out@[j] == before[j]);
        i = i + 1;
    }
    out
}

/// Currency, over all dependencies: a dependency behind its latest major, or
/// past its end of life, is never current, and one on the latest major and
/// not past end of life is; adding a dependency that is not current leaves
/// the current count as it was, and the count never exceeds the number of
/// dependencies.
pub proof fn lemma_currency(deps: Seq<DepCurrency>, dep: DepCurrency)
    ensures
        dep.major_behind > 0 ==> !current(dep),
        dep.major_behind < 0 ==> !current(dep),
        dep.eol_status@ == "eol"@ ==> !current(dep),
        dep.major_behind == 0 && dep.eol_status@ != "eol"@ ==> current(dep),
        !current(dep) ==> current_count(deps.push(dep)) == current_count(deps),
        current(dep) ==> current_count(deps.push(dep)) == current_count(deps) + 1,
        current_count(deps) <= deps.len(),
    decreases deps.len(),
{
    assert(deps.push(dep).drop_last() =~= deps);
    if deps.len() > 0 {
        lemma_currency(deps.drop_last(), dep);
    }
}

} // verus!

//! List-query parameters (pagination, search, allowlisted equality filters)
//! and the entity registry the read side accepts.

use vstd::prelude::*;
use crate::keyed::{KeyedList, lookup};
use crate::linked::{linked, linked_spec};
use crate::text::{decimal, decimal_chars, push_all, push_str, str_eq, string_of};

verus! {

broadcast use vstd::string::group_string_axioms;

/// Pagination + search + filter parameters for a list query.
pub struct ListQuery {
    pub search: String,
    pub page: i64,
    pub page_size: i64,
    /// Equality filters keyed by column name (limited to the entity's
    /// allowlisted columns by `effective_filters`).
    pub filters: KeyedList<String>,
}

/// The allowlisted equality-filter columns of an entity.
pub open spec fn filter_fields_spec(entity: Seq<char>) -> Seq<Seq<char>> {
    if linked_spec(entity) is Some {
        seq!["kind"@, "version"@]
    } else if entity == "applications"@ {
        seq!["app_type"@, "primary_language"@]
    } else if entity == "libraries"@ {
        seq!["ecosystem"@]
    } else {
        Seq::empty()
    }
}

/// The primary table backing an entity.
pub open spec fn table_for_spec(entity: Seq<char>) -> Option<Seq<char>> {
    match linked_spec(entity) {
        Some(e) => Some(e.1),
        None => if entity == "applications"@ {
            Some("applications"@)
        } else if entity == "libraries"@ {
            Some("libraries"@)
        } else if entity == "users"@ {
            Some("users"@)
        } else if entity == "groups"@ {
            Some("groups"@)
        } else {
            None
        },
    }
}

/// The recognised platform entity names.
pub open spec fn is_entity_spec(name: Seq<char>) -> bool {
    linked_spec(name) is Some || name == "applications"@ || name == "libraries"@ || name
        == "users"@ || name == "groups"@
}

/// The requested filters on the allowlisted columns, in column order, with
/// empty values dropped.
pub open spec fn effective(cols: Seq<Seq<char>>, filters: Seq<(Seq<char>, String)>) -> Seq<(Seq<char>, Seq<char>)>
    decreases cols.len(),
{
    if cols.len() == 0 {
        Seq::empty()
    } else {
        let prior = effective(cols.drop_last(), filters);
        match lookup(filters, cols.last()) {
            Some(v) => if v@.len() > 0 {
                prior.push((cols.last(), v@))
            } else {
                prior
            },
            None => prior,
        }
    }
}

/// The SQL `AND` conditions for a filter list, placeholders numbered from
/// `start` (`$N` for Postgres, `?N` for SQLite).
pub open spec fn clause(filters: Seq<(Seq<char>, Seq<char>)>, alias: Seq<char>, start: nat, sqlite: bool) -> Seq<char>
    decreases filters.len(),
{
    if filters.len() == 0 {
        Seq::empty()
    } else {
        let n = (start + filters.len() - 1) as nat;
        clause(filters.drop_last(), alias, start, sqlite) + " AND "@ + alias + filters.last().0 + "="@
            + (if sqlite {
            "?"@
        } else {
            "$"@
        }) + decimal(n)
    }
}

/// Filter values never reach the SQL text, which is built from the columns
/// alone: two filter lists with the same columns in the same order give the
/// same conditions, whatever their values.
pub proof fn lemma_clause_ignores_values(
    f1: Seq<(Seq<char>, Seq<char>)>,
    f2: Seq<(Seq<char>, Seq<char>)>,
    alias: Seq<char>,
    start: nat,
    sqlite: bool,
)
    requires
        f1.len() == f2.len(),
        forall|i: int| 0 <= i < f1.len() ==> (#[trigger] f1[i]).0 == f2[i].0,
    ensures
        clause(f1, alias, start, sqlite) == clause(f2, alias, start, sqlite),
    decreases f1.len(),
{
    if f1.len() > 0 {
        assert(f1.drop_last().len() == f2.drop_last().len());
        assert forall|i: int| 0 <= i < f1.drop_last().len() implies (#[trigger] f1.drop_last()[i]).0
            == f2.drop_last()[i].0 by {
            assert(f1.drop_last()[i] == f1[i]);
            assert(f2.drop_last()[i] == f2[i]);
        }
        lemma_clause_ignores_values(f1.drop_last(), f2.drop_last(), alias, start, sqlite);
        assert(f1.last().0 == f2.last().0);
    }
}

/// Pairs of strings as text.
pub open spec fn pair_views(v: Seq<(String, String)>) -> Seq<(Seq<char>, Seq<char>)> {
    v.map_values(|p: (String, String)| (p.0@, p.1@))
}

/// Allowlisted equality-filter columns per entity.
pub fn filter_fields(entity: &str) -> (r: Vec<&'static str>)
    ensures
        r@.map_values(|s: &'static str| s@) == filter_fields_spec(entity@),
{
    let mut r: Vec<&'static str> = Vec::new();
    if linked(entity).is_some() {
        r.push("kind");
        r.push("version");
    } else if str_eq(entity, "applications") {
        r.push("app_type");
        r.push("primary_language");
    } else if str_eq(entity, "libraries") {
        r.push("ecosystem");
    }
    assert(r@.map_values(|s: &'static str| s@) == filter_fields_spec(entity@));
    r
}

/// The primary table backing an entity (for facet queries).
pub fn table_for(entity: &str) -> (r: Option<&'static str>)
    ensures
        match r {
            Some(t) => table_for_spec(entity@) == Some(t@),
            None => table_for_spec(entity@) is None,
        },
{
    if let Some(e) = linked(entity) {
        return Some(e.table);
    }
    if str_eq(entity, "applications") {
        Some("applications")
    } else if str_eq(entity, "libraries") {
        Some("libraries")
    } else if str_eq(entity, "users") {
        Some("users")
    } else if str_eq(entity, "groups") {
        Some("groups")
    } else {
        None
    }
}

/// Whether `name` is a recognised platform entity.
pub fn is_entity(name: &str) -> (b: bool)
    ensures
        b == is_entity_spec(name@),
{
    linked(name).is_some() || str_eq(name, "applications") || str_eq(name, "libraries") || str_eq(
        name,
        "users",
    ) || str_eq(name, "groups")
}

/// Builds ` AND {alias}{col}=<placeholder>` for each filter, numbering the
/// placeholders from `start` (`$N` for Postgres, `?N` for SQLite).
pub fn filter_clause(filters: &[(String, String)], alias: &str, start: usize, sqlite: bool) -> (out: String)
    requires
        filters@.len() == 0 || start + filters@.len() - 1 <= usize::MAX,
    ensures
        out@ == clause(pair_views(filters@), alias@, start as nat, sqlite),
{
    let mut out: Vec<char> = Vec::new();
    let mut i: usize = 0;
    while i < filters.len()
        invariant
            i <= filters@.len(),
            filters@.len() == 0 || start + filters@.len() - 1 <= usize::MAX,
            out@ == clause(pair_views(filters@).take(i as int), alias@, start as nat, sqlite),
        decreases filters.len() - i,
    {
        let n = start + i;
        push_str(&mut out, " AND ");
        push_str(&mut out, alias);
        push_str(&mut out, filters[i].0.as_str());
        push_str(&mut out, "=");
        if sqlite {
            push_str(&mut out, "?");
        } else {
            push_str(&mut out, "$");
        }
        let digits = decimal_chars(n as u64);
        push_all(&mut out, &digits);
        proof {
            let t = pair_views(filters@).take(i + 1);
            assert(t.drop_last() == pair_views(filters@).take(i as int));
            assert(t.last() == (filters@[i as int].0@, filters@[i as int].1@));
        }
        i = i + 1;
    }
    assert(pair_views(filters@).take(filters.len() as int) == pair_views(filters@));
    string_of(&out)
}

impl ListQuery {
    /// Builds a query: page defaults to 1 and is at least 1; page size
    /// defaults to 25 and is clamped to `1..=200`; search defaults to empty.
    pub fn new(search: Option<String>, page: Option<i64>, page_size: Option<i64>, filters: KeyedList<String>) -> (q: Self)
        ensures
            q.search@ == match search {
                Some(s) => s@,
                None => Seq::<char>::empty(),
            },
            q.page == match page {
                Some(p) => if p < 1 {
                    1
                } else {
                    p
                },
                None => 1,
            },
            q.page_size == match page_size {
                Some(p) => if p < 1 {
                    1
                } else if p > 200 {
                    200
                } else {
                    p
                },
                None => 25,
            },
            q.filters@ == filters@,
    {
        let p = match page {
            Some(p) => if p < 1 {
                1
            } else {
                p
            },
            None => 1,
        };
        let ps = match page_size {
            Some(s) => if s < 1 {
                1
            } else if s > 200 {
                200
            } else {
                s
            },
            None => 25,
        };
        let search = match search {
            Some(s) => s,
            None => String::new(),
        };
        ListQuery { search, page: p, page_size: ps, filters }
    }

    /// The row offset of the page: `(page - 1) * page_size`.
    pub fn offset(&self) -> (n: i64)
        requires
            i64::MIN <= (self.page - 1) * self.page_size <= i64::MAX,
        ensures
            n == (self.page - 1) * self.page_size,
    {
        let a = self.page as i128 - 1;
        let b = self.page_size as i128;
        let m = a * b;
        m as i64
    }

    /// The `%search%` pattern for `LIKE`.
    pub fn like(&self) -> (s: String)
        ensures
            s@ == "%"@ + self.search@ + "%"@,
    {
        let mut out: Vec<char> = Vec::new();
        push_str(&mut out, "%");
        push_str(&mut out, self.search.as_str());
        push_str(&mut out, "%");
        string_of(&out)
    }

    /// The requested filters limited to the allowlisted columns of `entity`,
    /// in allowlist order, with empty values dropped.
    pub fn effective_filters(&self, entity: &str) -> (r: Vec<(String, String)>)
        ensures
            pair_views(r@) == effective(filter_fields_spec(entity@), self.filters@),
    {
        let cols = filter_fields(entity);
        let ghost colv = cols@.map_values(|s: &'static str| s@);
        let mut r: Vec<(String, String)> = Vec::new();
        let mut i: usize = 0;
        while i < cols.len()
            invariant
                i <= cols@.len(),
                colv == cols@.map_values(|s: &'static str| s@),
                colv == filter_fields_spec(entity@),
                pair_views(r@) == effective(colv.take(i as int), self.filters@),
            decreases cols.len() - i,
        {
            let col = cols[i];
            assert(colv.take(i + 1).drop_last() == colv.take(i as int));
            assert(colv.take(i + 1).last() == col@);
            let ghost before = r@;
            match self.filters.get(col) {
                Some(v) => {
                    if !v.as_str().is_empty() {
                        r.push((String::from_str(col), v.clone()));
                        assert(pair_views(r@) == pair_views(before).push((col@, v@)));
                    }
                },
                None => {},
            }
            i = i + 1;
        }
        assert(colv.take(cols.len() as int) == colv);
        r
    }
}

/// A page of results plus the total count.
pub struct Page<T> {
    pub items: Vec<T>,
    pub total: i64,
    pub page: i64,
    pub page_size: i64,
}

impl<T> Page<T> {
    /// A page of `items` out of `total`, numbered as the query's page.
    pub fn new(items: Vec<T>, total: i64, q: &ListQuery) -> (p: Self)
        ensures
            p.items@ == items@,
            p.total == total,
            p.page == q.page,
            p.page_size == q.page_size,
    {
        Page { items, total, page: q.page, page_size: q.page_size }
    }
}

} // verus!

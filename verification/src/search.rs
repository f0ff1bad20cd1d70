//! Entity search by name: the substring fallback, ranked by where the query
//! occurs in the name, and the links of results.

use vstd::prelude::*;
use crate::ids::{uuid_string, uuid_text};
use crate::text::{chars_of, find, first_match, push_str, string_of, str_eq, opt_view};

verus! {

broadcast use vstd::seq_lib::group_seq_properties;

/// At most this many results are returned.
pub const SEARCH_K: usize = 20;

/// What std's `str::to_lowercase` returns for `s` (Unicode lowercase,
/// including the final-sigma rule).
pub uninterp spec fn unicode_lower(s: Seq<char>) -> Seq<char>;

/// std's `str::to_lowercase`; the contract names its result.
#[verifier::external_body]
fn lowercase(s: &str) -> (r: String)
    ensures
        r@ == unicode_lower(s@),
{
    s.to_lowercase()
}

/// The number of UTF-8 bytes of a character.
pub open spec fn utf8_width(c: char) -> nat {
    if (c as u32) < 0x80 {
        1
    } else if (c as u32) < 0x800 {
        2
    } else if (c as u32) < 0x10000 {
        3
    } else {
        4
    }
}

/// The number of UTF-8 bytes of a character sequence.
pub open spec fn utf8_len(s: Seq<char>) -> nat
    decreases s.len(),
{
    if s.len() == 0 {
        0
    } else {
        utf8_len(s.drop_last()) + utf8_width(s.last())
    }
}

/// The byte offset of the first occurrence of `needle` in `hay` (what
/// `str::find` returns).
pub open spec fn byte_find(hay: Seq<char>, needle: Seq<char>) -> Option<nat> {
    match first_match(hay, needle) {
        Some(i) => Some(utf8_len(hay.take(i))),
        None => None,
    }
}

/// The UTF-8 length of the first `n` characters.
fn utf8_prefix_len(v: &Vec<char>, n: usize) -> (r: u128)
    requires
        n <= v@.len(),
    ensures
        r == utf8_len(v@.take(n as int)),
{
    let mut total: u128 = 0;
    let mut i: usize = 0;
    while i < n
        invariant
            i <= n <= v@.len(),
            total == utf8_len(v@.take(i as int)),
            total <= 4 * i,
        decreases n - i,
    {
        let c = v[i];
        let w: u128 = if (c as u32) < 0x80 {
            1
        } else if (c as u32) < 0x800 {
            2
        } else if (c as u32) < 0x10000 {
            3
        } else {
            4
        };
        assert(v@.take(i + 1).drop_last() == v@.take(i as int));
        assert(v@.take(i + 1).last() == c);
        total = total + w;
        i = i + 1;
    }
    total
}

/// The link of a search result: applications have a page.
pub open spec fn href_text(entity_type: Seq<char>, id: u128) -> Option<Seq<char>> {
    if entity_type == "application"@ {
        Some("/platform/applications/"@ + uuid_text(id))
    } else {
        None
    }
}

/// The page linked from a search result, if it has one.
pub fn href_for(entity_type: &str, id: u128) -> (r: Option<String>)
    ensures
        opt_view(r) == href_text(entity_type@, id),
{
    if str_eq(entity_type, "application") {
        let mut s: Vec<char> = Vec::new();
        push_str(&mut s, "/platform/applications/");
        push_str(&mut s, uuid_string(id).as_str());
        Some(string_of(&s))
    } else {
        None
    }
}

/// A searchable entity: its type, id and display name.
pub struct NamedEntity {
    pub entity_type: String,
    pub entity_id: u128,
    pub name: String,
}

/// A search result.
pub struct SearchHit {
    pub entity_type: String,
    pub entity_id: u128,
    pub name: String,
    pub href: Option<String>,
}

/// A hit as the ranking sees it: the match position and the entity.
pub type RankedHit = (nat, (Seq<char>, u128, Seq<char>));

/// Whether an entity passes the optional type filter.
pub open spec fn type_ok(filter: Option<Seq<char>>, entity_type: Seq<char>) -> bool {
    match filter {
        Some(t) => t == entity_type,
        None => true,
    }
}

/// The matching entities in input order, each with the byte position of the
/// lowercased query in its lowercased name.
pub open spec fn matches_of(names: Seq<NamedEntity>, needle: Seq<char>, filter: Option<Seq<char>>) -> Seq<RankedHit>
    decreases names.len(),
{
    if names.len() == 0 {
        Seq::empty()
    } else {
        let prior = matches_of(names.drop_last(), needle, filter);
        let e = names.last();
        if type_ok(filter, e.entity_type@) {
            match byte_find(unicode_lower(e.name@), needle) {
                Some(pos) => prior.push((pos, (e.entity_type@, e.entity_id, e.name@))),
                None => prior,
            }
        } else {
            prior
        }
    }
}

/// Inserts a hit after every hit at the same or an earlier position.
pub open spec fn insert_ranked(s: Seq<RankedHit>, x: RankedHit) -> Seq<RankedHit>
    decreases s.len(),
{
    if s.len() == 0 {
        seq![x]
    } else if s.last().0 <= x.0 {
        s.push(x)
    } else {
        insert_ranked(s.drop_last(), x).push(s.last())
    }
}

/// The hits stably sorted by position.
pub open spec fn ranked(s: Seq<RankedHit>) -> Seq<RankedHit>
    decreases s.len(),
{
    if s.len() == 0 {
        Seq::empty()
    } else {
        insert_ranked(ranked(s.drop_last()), s.last())
    }
}

/// The search results: the matches ranked by position, at most `SEARCH_K`.
pub open spec fn search_results(names: Seq<NamedEntity>, query: Seq<char>, filter: Option<Seq<char>>) -> Seq<RankedHit> {
    let r = ranked(matches_of(names, unicode_lower(query), filter));
    if r.len() <= SEARCH_K {
        r
    } else {
        r.take(SEARCH_K as int)
    }
}

/// Positions never decrease along the sequence.
pub open spec fn by_position(s: Seq<RankedHit>) -> bool {
    forall|i: int, j: int| 0 <= i < j < s.len() ==> (#[trigger] s[i]).0 <= (#[trigger] s[j]).0
}

/// The character view of a hit, with its position.
pub open spec fn hit_view(pos: nat, h: SearchHit) -> RankedHit {
    (pos, (h.entity_type@, h.entity_id, h.name@))
}

/// A hit's link is the one of its entity.
pub open spec fn href_ok(h: SearchHit) -> bool {
    opt_view(h.href) == href_text(h.entity_type@, h.entity_id)
}

/// Inserts a positioned hit into a list kept by position.
fn insert_hit(out: &mut Vec<(u128, SearchHit)>, pos: u128, hit: SearchHit)
    requires
        forall|i: int| 0 <= i < old(out)@.len() ==> href_ok(#[trigger] old(out)@[i].1),
        href_ok(hit),
    ensures
        final(out)@.map_values(|p: (u128, SearchHit)| hit_view(p.0 as nat, p.1)) == insert_ranked(
            old(out)@.map_values(|p: (u128, SearchHit)| hit_view(p.0 as nat, p.1)),
            hit_view(pos as nat, hit),
        ),
        forall|i: int| 0 <= i < final(out)@.len() ==> href_ok(#[trigger] final(out)@[i].1),
{
    let ghost f = |p: (u128, SearchHit)| hit_view(p.0 as nat, p.1);
    let ghost src = out@.map_values(f);
    let ghost before = out@;
    let mut k: usize = out.len();
    while k > 0 && out[k - 1].0 > pos
        invariant
            k <= out@.len(),
            out@ == before,
            f == (|p: (u128, SearchHit)| hit_view(p.0 as nat, p.1)),
            src == out@.map_values(f),
            insert_ranked(src, hit_view(pos as nat, hit)) == insert_ranked(src.take(k as int), hit_view(pos as nat, hit))
                + src.skip(k as int),
        decreases k,
    {
        assert(src.take(k as int).last() == src[k - 1]);
        assert(src.take(k as int).drop_last() == src.take(k - 1));
        assert(src.skip(k - 1) == seq![src[k - 1]] + src.skip(k as int));
        k = k - 1;
    }
    proof {
        if k > 0 {
            assert(src.take(k as int).last() == src[k - 1]);
        }
        assert(insert_ranked(src.take(k as int), hit_view(pos as nat, hit)) == src.take(k as int).push(
            hit_view(pos as nat, hit),
        ));
    }
    out.insert(k, (pos, hit));
    assert(out@.map_values(f) == src.take(k as int).push(hit_view(pos as nat, hit)) + src.skip(k as int));
    assert forall|i: int| 0 <= i < out@.len() implies href_ok(#[trigger] out@[i].1) by {
        if i < k {
            assert(out@[i] == before[i]);
        } else if i > k {
            assert(out@[i] == before[i - 1]);
        }
    }
}

/// Searches entity names for the query, case-insensitively: the entities
/// (of the requested type, if any) whose lowercased name contains the
/// lowercased query, ranked by the byte position of the first occurrence
/// (ties keep the input order), at most `SEARCH_K`, each with its link.
pub fn substring_search(names: &Vec<NamedEntity>, query: &str, entity_type: Option<&str>) -> (r: Vec<SearchHit>)
    ensures
        r@.len() == search_results(names@, query@, match entity_type { Some(t) => Some(t@), None => None }).len(),
        forall|i: int| 0 <= i < r@.len() ==> {
            let h = #[trigger] r@[i];
            let x = search_results(names@, query@, match entity_type { Some(t) => Some(t@), None => None })[i];
            &&& (h.entity_type@, h.entity_id, h.name@) == x.1
            &&& href_ok(h)
        },
{
    let ghost filter = match entity_type {
        Some(t) => Some(t@),
        None => None,
    };
    let ghost f = |p: (u128, SearchHit)| hit_view(p.0 as nat, p.1);
    let needle = chars_of(lowercase(query).as_str());
    let mut hits: Vec<(u128, SearchHit)> = Vec::new();
    let mut i: usize = 0;
    while i < names.len()
        invariant
            i <= names@.len(),
            needle@ == unicode_lower(query@),
            filter == (match entity_type { Some(t) => Some(t@), None => None }),
            f == (|p: (u128, SearchHit)| hit_view(p.0 as nat, p.1)),
            hits@.map_values(f) == ranked(matches_of(names@.take(i as int), needle@, filter)),
            forall|j: int| 0 <= j < hits@.len() ==> href_ok(#[trigger] hits@[j].1),
        decreases names.len() - i,
    {
        let e = &names[i];
        assert(names@.take(i + 1).drop_last() == names@.take(i as int));
        assert(names@.take(i + 1).last() == *e);
        let wanted = match entity_type {
            Some(t) => str_eq(t, e.entity_type.as_str()),
            None => true,
        };
        let ghost prior = matches_of(names@.take(i as int), needle@, filter);
        let ghost old_hits = hits@;
        assert(wanted == type_ok(filter, e.entity_type@));
        if wanted {
            let lname = chars_of(lowercase(e.name.as_str()).as_str());
            match find(&lname, &needle) {
                Some(ci) => {
                    let pos = utf8_prefix_len(&lname, ci);
                    let hit = SearchHit {
                        entity_type: e.entity_type.clone(),
                        entity_id: e.entity_id,
                        name: e.name.clone(),
                        href: href_for(e.entity_type.as_str(), e.entity_id),
                    };
                    let ghost hv = hit_view(pos as nat, hit);
                    assert(byte_find(unicode_lower(e.name@), needle@) == Some(pos as nat));
                    assert(hv == (pos as nat, (e.entity_type@, e.entity_id, e.name@)));
                    assert(matches_of(names@.take(i + 1), needle@, filter) == prior.push(hv));
                    insert_hit(&mut hits, pos, hit);
                    assert(hits@.map_values(f) == insert_ranked(old_hits.map_values(f), hv));
                    assert(prior.push(hv).drop_last() == prior);
                    assert(prior.push(hv).last() == hv);
                },
                None => {
                    assert(byte_find(unicode_lower(e.name@), needle@) is None);
                },
            }
        }
        i = i + 1;
    }
    assert(names@.take(names@.len() as int) == names@);
    let n = if hits.len() <= SEARCH_K { hits.len() } else { SEARCH_K };
    let ghost all = hits@.map_values(f);
    let mut out: Vec<SearchHit> = Vec::new();
    let mut rest = hits;
    let mut k: usize = 0;
    while k < n
        invariant
            k <= n <= all.len(),
            n == (if all.len() <= SEARCH_K { all.len() } else { SEARCH_K as nat }),
            rest@.len() == all.len() - k,
            forall|j: int| 0 <= j < rest@.len() ==> hit_view(rest@[j].0 as nat, rest@[j].1) == all[j + k]
                && href_ok(rest@[j].1),
            out@.len() == k,
            forall|j: int| 0 <= j < k ==> (#[trigger] out@[j]).entity_type@ == all[j].1.0 && out@[j].entity_id
                == all[j].1.1 && out@[j].name@ == all[j].1.2 && href_ok(out@[j]),
        decreases n - k,
    {
        let ghost before = rest@;
        let (_, h) = rest.remove(0);
        assert(hit_view(before[0].0 as nat, before[0].1) == all[k as int]);
        out.push(h);
        k = k + 1;
    }
    out
}

proof fn lemma_insert_bounded(s: Seq<RankedHit>, x: RankedHit, b: nat)
    requires
        forall|i: int| 0 <= i < s.len() ==> (#[trigger] s[i]).0 <= b,
        x.0 <= b,
    ensures
        forall|i: int| 0 <= i < insert_ranked(s, x).len() ==> (#[trigger] insert_ranked(s, x)[i]).0 <= b,
        insert_ranked(s, x).len() == s.len() + 1,
    decreases s.len(),
{
    if s.len() > 0 && s.last().0 > x.0 {
        lemma_insert_bounded(s.drop_last(), x, b);
        let r = insert_ranked(s.drop_last(), x);
        assert(insert_ranked(s, x) == r.push(s.last()));
        assert forall|i: int| 0 <= i < insert_ranked(s, x).len() implies (#[trigger] insert_ranked(s, x)[i]).0 <= b by {
            if i < r.len() {
                assert(insert_ranked(s, x)[i] == r[i]);
            }
        }
    }
}

proof fn lemma_insert_sorted(s: Seq<RankedHit>, x: RankedHit)
    requires
        by_position(s),
    ensures
        by_position(insert_ranked(s, x)),
        insert_ranked(s, x).len() == s.len() + 1,
    decreases s.len(),
{
    if s.len() == 0 {
    } else if s.last().0 <= x.0 {
        assert forall|i: int, j: int| 0 <= i < j < s.push(x).len() implies (#[trigger] s.push(x)[i]).0
            <= (#[trigger] s.push(x)[j]).0 by {
            if j == s.len() && i < s.len() - 1 {
                assert(s[i].0 <= s[s.len() - 1].0);
            }
        }
    } else {
        let t = s.drop_last();
        assert(by_position(t));
        lemma_insert_sorted(t, x);
        assert forall|i: int| 0 <= i < t.len() implies (#[trigger] t[i]).0 <= s.last().0 by {
            assert(s[i].0 <= s[s.len() - 1].0);
        }
        lemma_insert_bounded(t, x, s.last().0);
        let r = insert_ranked(t, x);
        assert forall|i: int, j: int| 0 <= i < j < r.push(s.last()).len() implies (#[trigger] r.push(s.last())[i]).0
            <= (#[trigger] r.push(s.last())[j]).0 by {
            if j == r.len() {
                assert(r[i].0 <= s.last().0);
            } else {
                assert(r.push(s.last())[i] == r[i]);
                assert(r.push(s.last())[j] == r[j]);
            }
        }
    }
}

/// Search ranking: the ranked hits never go back in match position, and
/// there are as many as there were matches.
pub proof fn lemma_ranked_by_position(s: Seq<RankedHit>)
    ensures
        by_position(ranked(s)),
        ranked(s).len() == s.len(),
    decreases s.len(),
{
    if s.len() > 0 {
        lemma_ranked_by_position(s.drop_last());
        lemma_insert_sorted(ranked(s.drop_last()), s.last());
    }
}

proof fn lemma_insert_multiset(s: Seq<RankedHit>, x: RankedHit)
    ensures
        insert_ranked(s, x).to_multiset() == s.to_multiset().insert(x),
    decreases s.len(),
{
    broadcast use vstd::seq_lib::to_multiset_build;
    broadcast use vstd::multiset::group_multiset_axioms;
    if s.len() > 0 && s.last().0 > x.0 {
        lemma_insert_multiset(s.drop_last(), x);
        assert(s.drop_last().push(s.last()) == s);
        assert(insert_ranked(s, x).to_multiset() =~= s.to_multiset().insert(x));
    } else if s.len() == 0 {
        assert(seq![x] == Seq::<RankedHit>::empty().push(x));
    }
}

/// Search ranking only reorders: the ranked hits are exactly the matches.
pub proof fn lemma_ranked_keeps_matches(s: Seq<RankedHit>)
    ensures
        ranked(s).to_multiset() == s.to_multiset(),
    decreases s.len(),
{
    broadcast use vstd::seq_lib::to_multiset_build;
    if s.len() > 0 {
        lemma_ranked_keeps_matches(s.drop_last());
        lemma_insert_multiset(ranked(s.drop_last()), s.last());
        assert(s.drop_last().push(s.last()) == s);
    } else {
        assert(ranked(s) == s);
    }
}

/// The name listed for the entity `id` of `entity_type`: the last one, or
/// empty when none is listed.
pub open spec fn entity_name(names: Seq<NamedEntity>, entity_type: Seq<char>, id: u128) -> Seq<char>
    decreases names.len(),
{
    if names.len() == 0 {
        Seq::empty()
    } else if names.last().entity_type@ == entity_type && names.last().entity_id == id {
        names.last().name@
    } else {
        entity_name(names.drop_last(), entity_type, id)
    }
}

/// The listed name of one entity.
fn listed_name(names: &Vec<NamedEntity>, entity_type: &str, id: u128) -> (r: String)
    ensures
        r@ == entity_name(names@, entity_type@, id),
{
    let mut found: Option<usize> = None;
    let mut k: usize = 0;
    while k < names.len()
        invariant
            k <= names.len(),
            match found {
                Some(j) => j < k && names@[j as int].name@ == entity_name(names@.take(k as int), entity_type@, id),
                None => entity_name(names@.take(k as int), entity_type@, id) == Seq::<char>::empty(),
            },
        decreases names.len() - k,
    {
        assert(names@.take(k + 1).drop_last() =~= names@.take(k as int));
        if names[k].entity_id == id && str_eq(names[k].entity_type.as_str(), entity_type) {
            found = Some(k);
        }
        k = k + 1;
    }
    assert(names@.take(names.len() as int) =~= names@);
    match found {
        Some(j) => names[j].name.clone(),
        None => String::new(),
    }
}

/// Results for entities found by similarity (type and id, in rank order):
/// each keeps its place and gets its listed name (empty when none is
/// listed) and its link.
pub fn enrich(neighbours: &Vec<(String, u128)>, names: &Vec<NamedEntity>) -> (r: Vec<SearchHit>)
    ensures
        r.len() == neighbours.len(),
        forall|i: int| 0 <= i < r.len() ==> {
            let h = #[trigger] r@[i];
            &&& h.entity_type@ == neighbours@[i].0@
            &&& h.entity_id == neighbours@[i].1
            &&& h.name@ == entity_name(names@, neighbours@[i].0@, neighbours@[i].1)
            &&& href_ok(h)
        },
{
    let mut out: Vec<SearchHit> = Vec::new();
    let mut i: usize = 0;
    while i < neighbours.len()
        invariant
            i <= neighbours.len(),
            out.len() == i,
            forall|j: int| 0 <= j < i ==> {
                let h = #[trigger] out@[j];
                &&& h.entity_type@ == neighbours@[j].0@
                &&& h.entity_id == neighbours@[j].1
                &&& h.name@ == entity_name(names@, neighbours@[j].0@, neighbours@[j].1)
                &&& href_ok(h)
            },
        decreases neighbours.len() - i,
    {
        let t = neighbours[i].0.as_str();
        let id = neighbours[i].1;
        let hit = SearchHit {
            entity_type: neighbours[i].0.clone(),
            entity_id: id,
            name: listed_name(names, t, id),
            href: href_for(t, id),
        };
        out.push(hit);
        i = i + 1;
    }
    out
}

} // verus!

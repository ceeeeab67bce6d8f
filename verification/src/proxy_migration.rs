//! Decisions of the migration from persons-in-trees to per-tree person
//! proxies: which proxies to create, which trees a relationship edge is
//! copied into, which proxy a sibling edge's shared parent becomes, which
//! proxy takes a person's life events, and whether the copied edges are
//! complete.

use vstd::prelude::*;
use vstd::string::StringExecFns;
use crate::text::{lex_le, lemma_lex_le_total, lemma_lex_le_trans, lemma_lex_le_refl, str_eq, str_lex_le, strip_prefix};

verus! {

/// A person proxy: its key, its person's key and its tree.
pub struct ProxyRow {
    pub proxy_key: String,
    pub person_key: String,
    pub tree: String,
}

/// The proxy of `person` in `tree`; a later row for the same pair replaces
/// an earlier one.
pub open spec fn proxy_of(rows: Seq<ProxyRow>, person: Seq<char>, tree: Seq<char>) -> Option<Seq<char>>
    decreases rows.len(),
{
    if rows.len() == 0 {
        None
    } else if rows.last().person_key@ == person && rows.last().tree@ == tree {
        Some(rows.last().proxy_key@)
    } else {
        proxy_of(rows.drop_last(), person, tree)
    }
}

proof fn lemma_proxy_of_found(rows: Seq<ProxyRow>, person: Seq<char>, tree: Seq<char>, i: int)
    requires
        0 <= i < rows.len(),
        rows[i].person_key@ == person,
        rows[i].tree@ == tree,
    ensures
        proxy_of(rows, person, tree) is Some,
    decreases rows.len(),
{
    if i < rows.len() - 1 {
        if !(rows.last().person_key@ == person && rows.last().tree@ == tree) {
            assert(rows.drop_last()[i] == rows[i]);
            lemma_proxy_of_found(rows.drop_last(), person, tree, i);
        }
    }
}

/// The proxy of `person` in `tree`.
pub fn proxy_for(rows: &Vec<ProxyRow>, person: &str, tree: &str) -> (r: Option<String>)
    ensures
        crate::text::opt_chars(r) == proxy_of(rows@, person@, tree@),
{
    let mut i: usize = rows.len();
    proof {
        assert(rows@.take(i as int) =~= rows@);
    }
    while i > 0
        invariant
            i <= rows.len(),
            proxy_of(rows@, person@, tree@) == proxy_of(rows@.take(i as int), person@, tree@),
        decreases i,
    {
        let row = &rows[i - 1];
        proof {
            assert(rows@.take(i as int).last() == rows@[i - 1]);
            assert(rows@.take(i as int).drop_last() =~= rows@.take(i - 1));
        }
        if str_eq(row.person_key.as_str(), person) && str_eq(row.tree.as_str(), tree) {
            return Some(row.proxy_key.clone());
        }
        i = i - 1;
    }
    None
}

/// Pairs by their character views.
pub open spec fn pair_views(ps: Seq<(String, String)>) -> Seq<(Seq<char>, Seq<char>)> {
    ps.map_values(|p: (String, String)| (p.0@, p.1@))
}

/// The `(person, tree)` pairs that get a new proxy: each pair, in order,
/// that has no proxy yet and did not occur before.
pub open spec fn fresh_pairs(pairs: Seq<(Seq<char>, Seq<char>)>, existing: Seq<ProxyRow>) -> Seq<(Seq<char>, Seq<char>)>
    decreases pairs.len(),
{
    if pairs.len() == 0 {
        Seq::empty()
    } else {
        let prev = fresh_pairs(pairs.drop_last(), existing);
        let p = pairs.last();
        if proxy_of(existing, p.0, p.1) is Some || prev.contains(p) { prev } else { prev.push(p) }
    }
}

fn contains_pair(v: &Vec<(String, String)>, a: &str, b: &str) -> (r: bool)
    ensures
        r == pair_views(v@).contains((a@, b@)),
{
    let mut i: usize = 0;
    while i < v.len()
        invariant
            i <= v.len(),
            forall|j: int| 0 <= j < i ==> pair_views(v@)[j] != (a@, b@),
        decreases v.len() - i,
    {
        if str_eq(v[i].0.as_str(), a) && str_eq(v[i].1.as_str(), b) {
            proof {
                assert(pair_views(v@)[i as int] == (a@, b@));
            }
            return true;
        }
        i = i + 1;
    }
    false
}

/// The proxies to create, given every `(person key, tree)` pair of the
/// persons' trees in row order and the proxies that already exist.
pub fn proxies_to_create(pairs: &Vec<(String, String)>, existing: &Vec<ProxyRow>) -> (r: Vec<(String, String)>)
    ensures
        pair_views(r@) == fresh_pairs(pair_views(pairs@), existing@),
{
    let mut out: Vec<(String, String)> = Vec::new();
    let mut i: usize = 0;
    while i < pairs.len()
        invariant
            i <= pairs.len(),
            pair_views(out@) == fresh_pairs(pair_views(pairs@.take(i as int)), existing@),
        decreases pairs.len() - i,
    {
        let (a, b) = (&pairs[i].0, &pairs[i].1);
        proof {
            assert(pair_views(pairs@.take(i + 1)).drop_last() =~= pair_views(pairs@.take(i as int)));
            assert(pair_views(pairs@.take(i + 1)).last() == (a@, b@));
        }
        let present = proxy_for(existing, a.as_str(), b.as_str()).is_some();
        if !present && !contains_pair(&out, a.as_str(), b.as_str()) {
            let ghost before = out@;
            out.push((a.clone(), b.clone()));
            proof {
                assert(pair_views(out@) =~= pair_views(before).push((a@, b@)));
            }
        }
        i = i + 1;
    }
    proof {
        assert(pairs@.take(pairs.len() as int) =~= pairs@);
    }
    out
}

/// The trees in which both ends of an edge have a proxy: the distinct
/// trees of `a`'s proxies, in row order, in which `b` has a proxy.
pub open spec fn shared_of(rows: Seq<ProxyRow>, all: Seq<ProxyRow>, a: Seq<char>, b: Seq<char>) -> Seq<Seq<char>>
    decreases rows.len(),
{
    if rows.len() == 0 {
        Seq::empty()
    } else {
        let prev = shared_of(rows.drop_last(), all, a, b);
        let r = rows.last();
        if r.person_key@ == a && !prev.contains(r.tree@) && proxy_of(all, b, r.tree@) is Some {
            prev.push(r.tree@)
        } else {
            prev
        }
    }
}

/// Strings by their character views.
pub open spec fn str_views(v: Seq<String>) -> Seq<Seq<char>> {
    v.map_values(|x: String| x@)
}

fn contains_str(v: &Vec<String>, s: &str) -> (r: bool)
    ensures
        r == str_views(v@).contains(s@),
{
    let mut i: usize = 0;
    while i < v.len()
        invariant
            i <= v.len(),
            forall|j: int| 0 <= j < i ==> #[trigger] str_views(v@)[j] != s@,
        decreases v.len() - i,
    {
        if str_eq(v[i].as_str(), s) {
            proof {
                assert(str_views(v@)[i as int] == s@);
            }
            return true;
        }
        i = i + 1;
    }
    false
}

/// The trees an edge from person `in_key` to person `out_key` is copied into.
pub fn shared_trees(proxies: &Vec<ProxyRow>, in_key: &str, out_key: &str) -> (r: Vec<String>)
    ensures
        r@.map_values(|s: String| s@) == shared_of(proxies@, proxies@, in_key@, out_key@),
{
    let mut out: Vec<String> = Vec::new();
    let mut i: usize = 0;
    while i < proxies.len()
        invariant
            i <= proxies.len(),
            out@.map_values(|s: String| s@) == shared_of(proxies@.take(i as int), proxies@, in_key@, out_key@),
        decreases proxies.len() - i,
    {
        let row = &proxies[i];
        proof {
            assert(proxies@.take(i + 1).drop_last() =~= proxies@.take(i as int));
            assert(proxies@.take(i + 1).last() == proxies@[i as int]);
        }
        if str_eq(row.person_key.as_str(), in_key) && !contains_str(&out, row.tree.as_str())
            && proxy_for(proxies, out_key, row.tree.as_str()).is_some() {
            let ghost before = out@;
            out.push(row.tree.clone());
            proof {
                assert(out@.map_values(|s: String| s@) =~= before.map_values(|s: String| s@).push(row.tree@));
            }
        }
        i = i + 1;
    }
    proof {
        assert(proxies@.take(proxies.len() as int) =~= proxies@);
    }
    out
}

/// A person key without a leading `person:` table name.
pub open spec fn person_key_of(v: Seq<char>) -> Seq<char> {
    if "person:"@.is_prefix_of(v) { v.skip("person:"@.len() as int) } else { v }
}

/// The proxy record id that a sibling edge's shared parent becomes in
/// `tree`: `person_proxy:<key>` of the parent's proxy there, if any.
pub fn via_parent_proxy(via: Option<&str>, tree: &str, proxies: &Vec<ProxyRow>) -> (r: Option<String>)
    ensures
        match via {
            None => r is None,
            Some(v) => match proxy_of(proxies@, person_key_of(v@), tree@) {
                Some(p) => r is Some && r->0@ == "person_proxy:"@ + p,
                None => r is None,
            },
        },
{
    match via {
        None => None,
        Some(v) => {
            let key = match strip_prefix(v, "person:") {
                Some(k) => k,
                None => v,
            };
            match proxy_for(proxies, key, tree) {
                Some(p) => {
                    let mut s = String::from_str("person_proxy:");
                    s.append(p.as_str());
                    Some(s)
                },
                None => None,
            }
        },
    }
}

/// Whether some proxy belongs to `person`.
pub open spec fn has_proxy(rows: Seq<ProxyRow>, person: Seq<char>) -> bool {
    exists|i: int| 0 <= i < rows.len() && #[trigger] rows[i].person_key@ == person
}

/// The proxy that takes over a person's life events: the proxy in the
/// person's first tree by name. `None` exactly when the person has no proxy.
pub fn life_event_target(person_key: &str, proxies: &Vec<ProxyRow>) -> (r: Option<(String, String)>)
    ensures
        r is None <==> !has_proxy(proxies@, person_key@),
        r matches Some((t, p)) ==> {
            &&& exists|i: int| 0 <= i < proxies@.len() && proxies@[i].person_key@ == person_key@
                && #[trigger] proxies@[i].tree@ == t@
            &&& forall|i: int| 0 <= i < proxies@.len() && proxies@[i].person_key@ == person_key@
                ==> lex_le(t@, #[trigger] proxies@[i].tree@)
            &&& proxy_of(proxies@, person_key@, t@) == Some(p@)
        },
{
    let mut best: Option<String> = None;
    let mut i: usize = 0;
    while i < proxies.len()
        invariant
            i <= proxies.len(),
            best is None <==> !(exists|j: int| 0 <= j < i && #[trigger] proxies@[j].person_key@ == person_key@),
            best matches Some(b) ==> {
                &&& exists|j: int| 0 <= j < i && proxies@[j].person_key@ == person_key@
                    && #[trigger] proxies@[j].tree@ == b@
                &&& forall|j: int| 0 <= j < i && proxies@[j].person_key@ == person_key@
                    ==> lex_le(b@, #[trigger] proxies@[j].tree@)
            },
        decreases proxies.len() - i,
    {
        let row = &proxies[i];
        if str_eq(row.person_key.as_str(), person_key) {
            let take = match &best {
                None => true,
                Some(b) => !str_lex_le(b.as_str(), row.tree.as_str()),
            };
            if take {
                proof {
                    if let Some(b) = best {
                        lemma_lex_le_total(b@, row.tree@);
                        assert forall|j: int| 0 <= j < i && proxies@[j].person_key@ == person_key@
                            implies lex_le(row.tree@, #[trigger] proxies@[j].tree@) by {
                            lemma_lex_le_trans(row.tree@, b@, proxies@[j].tree@);
                        }
                    }
                    lemma_lex_le_refl(row.tree@);
                }
                best = Some(row.tree.clone());
                proof {
                    assert(proxies@[i as int].tree@ == row.tree@);
                }
            }
        }
        i = i + 1;
    }
    match best {
        None => {
            proof {
                assert(!has_proxy(proxies@, person_key@));
            }
            None
        },
        Some(b) => {
            proof {
                let j = choose|j: int| 0 <= j < proxies@.len() && proxies@[j].person_key@ == person_key@
                    && #[trigger] proxies@[j].tree@ == b@;
                lemma_proxy_of_found(proxies@, person_key@, b@, j);
            }
            match proxy_for(proxies, person_key, b.as_str()) {
                Some(p) => Some((b, p)),
                None => None,
            }
        },
    }
}

/// The migration succeeded when, for each of the father, mother, sibling
/// and spouse edge tables, the copied proxy edges are at least as many as
/// the person-to-person edges they replace. Orphaned life events do not fail it.
pub fn migration_ok(new_counts: [i64; 4], old_counts: [i64; 4]) -> (r: bool)
    ensures
        r == (new_counts@[0] >= old_counts@[0] && new_counts@[1] >= old_counts@[1]
            && new_counts@[2] >= old_counts@[2] && new_counts@[3] >= old_counts@[3]),
{
    new_counts[0] >= old_counts[0] && new_counts[1] >= old_counts[1]
        && new_counts[2] >= old_counts[2] && new_counts[3] >= old_counts[3]
}


/// The migration never creates a proxy twice, nor one that already exists:
/// the pairs to create are distinct and none has a proxy.
pub proof fn lemma_fresh_pairs_new_and_distinct(pairs: Seq<(Seq<char>, Seq<char>)>, existing: Seq<ProxyRow>)
    ensures
        forall|i: int, j: int| 0 <= i < j < fresh_pairs(pairs, existing).len()
            ==> #[trigger] fresh_pairs(pairs, existing)[i] != #[trigger] fresh_pairs(pairs, existing)[j],
        forall|i: int| 0 <= i < fresh_pairs(pairs, existing).len()
            ==> proxy_of(existing, (#[trigger] fresh_pairs(pairs, existing)[i]).0, fresh_pairs(pairs, existing)[i].1) is None,
    decreases pairs.len(),
{
    if pairs.len() > 0 {
        lemma_fresh_pairs_new_and_distinct(pairs.drop_last(), existing);
        let prev = fresh_pairs(pairs.drop_last(), existing);
        let p = pairs.last();
        if !(proxy_of(existing, p.0, p.1) is Some || prev.contains(p)) {
            let f = prev.push(p);
            assert forall|i: int, j: int| 0 <= i < j < f.len() implies #[trigger] f[i] != #[trigger] f[j] by {
                if j == prev.len() {
                    assert(f[i] == prev[i]);
                    if f[i] == p {
                        assert(prev.contains(p));
                    }
                } else {
                    assert(f[i] == prev[i] && f[j] == prev[j]);
                }
            }
            assert forall|i: int| 0 <= i < f.len() implies proxy_of(existing, (#[trigger] f[i]).0, f[i].1) is None by {
                if i < prev.len() {
                    assert(f[i] == prev[i]);
                }
            }
        }
    }
}

} // verus!

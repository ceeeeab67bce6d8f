//! Strictly increasing lists of strings and of string pairs, kept in the
//! order of `String`'s `Ord` (lexicographic by character), as an ordered
//! set walks them.

use vstd::prelude::*;
use crate::text::{lex_le, lemma_lex_le_antisymmetric, lemma_lex_le_refl, lemma_lex_le_total, lemma_lex_le_trans, str_eq, str_lex_le};

verus! {

/// Strings by their character views.
pub open spec fn views(v: Seq<String>) -> Seq<Seq<char>> {
    v.map_values(|x: String| x@)
}

/// Each element is strictly below every later one.
pub open spec fn strictly_sorted(s: Seq<Seq<char>>) -> bool {
    forall|i: int, j: int| 0 <= i < j < s.len() ==> lex_le(#[trigger] s[i], #[trigger] s[j]) && s[i] != s[j]
}

/// Adds `t` to a strictly increasing list, keeping it strictly increasing.
pub fn insert_sorted(v: &mut Vec<String>, t: &str)
    requires
        strictly_sorted(views(old(v)@)),
    ensures
        strictly_sorted(views(final(v)@)),
        views(final(v)@).to_set() == views(old(v)@).to_set().insert(t@),
{
    let ghost s = views(v@);
    let mut i: usize = 0;
    while i < v.len() && !str_lex_le(t, v[i].as_str())
        invariant
            i <= v.len(),
            s == views(v@),
            forall|j: int| 0 <= j < i ==> lex_le(#[trigger] s[j], t@) && s[j] != t@,
        decreases v.len() - i,
    {
        proof {
            lemma_lex_le_total(t@, s[i as int]);
            if s[i as int] == t@ {
                lemma_lex_le_refl(t@);
            }
        }
        i = i + 1;
    }
    if i < v.len() && str_eq(v[i].as_str(), t) {
        proof {
            assert(s.to_set() =~= s.to_set().insert(t@)) by {
                assert(s[i as int] == t@);
            }
        }
        return;
    }
    proof {
        if i < v.len() {
            assert(lex_le(t@, s[i as int]) && s[i as int] != t@);
        }
    }
    v.insert(i, t.to_owned());
    proof {
        let w = views(v@);
        assert(w =~= s.insert(i as int, t@));
        assert forall|a: int, b: int| 0 <= a < b < w.len() implies lex_le(#[trigger] w[a], #[trigger] w[b]) && w[a] != w[b] by {
            if b < i {
            } else if a > i {
                assert(w[a] == s[a - 1] && w[b] == s[b - 1]);
            } else if a == i {
                assert(w[b] == s[b - 1]);
                if b - 1 > i {
                    lemma_lex_le_trans(t@, s[i as int], s[b - 1]);
                    if t@ == s[b - 1] {
                        lemma_lex_le_antisymmetric(s[i as int], t@);
                    }
                }
            } else if b == i {
                assert(w[a] == s[a]);
            } else {
                assert(w[a] == s[a] && w[b] == s[b - 1]);
            }
        }
        assert(w.to_set() =~= s.to_set().insert(t@)) by {
            assert forall|x: Seq<char>| w.to_set().contains(x) <==> s.to_set().insert(t@).contains(x) by {
                if w.to_set().contains(x) {
                    let k = choose|k: int| 0 <= k < w.len() && w[k] == x;
                    if k < i {
                        assert(s[k] == x);
                    } else if k > i {
                        assert(s[k - 1] == x);
                    }
                }
                if s.to_set().contains(x) {
                    let k = choose|k: int| 0 <= k < s.len() && s[k] == x;
                    if k < i {
                        assert(w[k] == x);
                    } else {
                        assert(w[k + 1] == x);
                    }
                }
                if x == t@ {
                    assert(w[i as int] == x);
                }
            }
        }
    }
}

/// Pairs by their character views.
pub open spec fn pair_views(v: Seq<(String, String)>) -> Seq<(Seq<char>, Seq<char>)> {
    v.map_values(|p: (String, String)| (p.0@, p.1@))
}

/// The order of pairs: by first component, then by second.
pub open spec fn pair_le(x: (Seq<char>, Seq<char>), y: (Seq<char>, Seq<char>)) -> bool {
    if x.0 == y.0 { lex_le(x.1, y.1) } else { lex_le(x.0, y.0) }
}

proof fn lemma_pair_le_total(x: (Seq<char>, Seq<char>), y: (Seq<char>, Seq<char>))
    ensures
        pair_le(x, y) || pair_le(y, x),
{
    lemma_lex_le_total(x.0, y.0);
    lemma_lex_le_total(x.1, y.1);
}

proof fn lemma_pair_le_refl(x: (Seq<char>, Seq<char>))
    ensures
        pair_le(x, x),
{
    lemma_lex_le_refl(x.1);
}

proof fn lemma_pair_le_trans(x: (Seq<char>, Seq<char>), y: (Seq<char>, Seq<char>), z: (Seq<char>, Seq<char>))
    requires
        pair_le(x, y),
        pair_le(y, z),
    ensures
        pair_le(x, z),
{
    if x.0 == y.0 && y.0 == z.0 {
        lemma_lex_le_trans(x.1, y.1, z.1);
    } else if x.0 == y.0 {
    } else if y.0 == z.0 {
    } else {
        lemma_lex_le_trans(x.0, y.0, z.0);
        if x.0 == z.0 {
            lemma_lex_le_antisymmetric(x.0, y.0);
        }
    }
}

proof fn lemma_pair_le_antisymmetric(x: (Seq<char>, Seq<char>), y: (Seq<char>, Seq<char>))
    requires
        pair_le(x, y),
        pair_le(y, x),
    ensures
        x == y,
{
    if x.0 == y.0 {
        lemma_lex_le_antisymmetric(x.1, y.1);
    } else {
        lemma_lex_le_antisymmetric(x.0, y.0);
    }
}

/// Each pair is strictly below every later one.
pub open spec fn pairs_sorted(s: Seq<(Seq<char>, Seq<char>)>) -> bool {
    forall|i: int, j: int| 0 <= i < j < s.len() ==> pair_le(#[trigger] s[i], #[trigger] s[j]) && s[i] != s[j]
}

fn pair_le_exec(a: &str, b: &str, c: &str, d: &str) -> (r: bool)
    ensures
        r == pair_le((a@, b@), (c@, d@)),
{
    if str_eq(a, c) { str_lex_le(b, d) } else { str_lex_le(a, c) }
}

/// Adds `(a, b)` to a strictly increasing list of pairs, keeping it
/// strictly increasing.
pub fn insert_sorted_pair(v: &mut Vec<(String, String)>, a: &str, b: &str)
    requires
        pairs_sorted(pair_views(old(v)@)),
    ensures
        pairs_sorted(pair_views(final(v)@)),
        pair_views(final(v)@).to_set() == pair_views(old(v)@).to_set().insert((a@, b@)),
{
    let ghost s = pair_views(v@);
    let ghost t = (a@, b@);
    let mut i: usize = 0;
    while i < v.len() && !pair_le_exec(a, b, v[i].0.as_str(), v[i].1.as_str())
        invariant
            i <= v.len(),
            s == pair_views(v@),
            t == (a@, b@),
            forall|j: int| 0 <= j < i ==> pair_le(#[trigger] s[j], t) && s[j] != t,
        decreases v.len() - i,
    {
        proof {
            assert(s[i as int] == (v@[i as int].0@, v@[i as int].1@));
            lemma_pair_le_total(t, s[i as int]);
            if s[i as int] == t {
                lemma_pair_le_refl(t);
            }
        }
        i = i + 1;
    }
    if i < v.len() && str_eq(v[i].0.as_str(), a) && str_eq(v[i].1.as_str(), b) {
        proof {
            assert(s[i as int] == t);
            assert(s.to_set() =~= s.to_set().insert(t));
        }
        return;
    }
    proof {
        if i < v.len() {
            assert(s[i as int] == (v@[i as int].0@, v@[i as int].1@));
            assert(pair_le(t, s[i as int]) && s[i as int] != t);
        }
    }
    v.insert(i, (a.to_owned(), b.to_owned()));
    proof {
        let w = pair_views(v@);
        assert(w =~= s.insert(i as int, t));
        assert forall|x: int, y: int| 0 <= x < y < w.len() implies pair_le(#[trigger] w[x], #[trigger] w[y]) && w[x] != w[y] by {
            if y < i {
            } else if x > i {
                assert(w[x] == s[x - 1] && w[y] == s[y - 1]);
            } else if x == i {
                assert(w[y] == s[y - 1]);
                if y - 1 > i {
                    lemma_pair_le_trans(t, s[i as int], s[y - 1]);
                    if t == s[y - 1] {
                        lemma_pair_le_antisymmetric(s[i as int], t);
                    }
                }
            } else if y == i {
                assert(w[x] == s[x]);
            } else {
                assert(w[x] == s[x] && w[y] == s[y - 1]);
            }
        }
        assert(w.to_set() =~= s.to_set().insert(t)) by {
            assert forall|p: (Seq<char>, Seq<char>)| w.to_set().contains(p) <==> s.to_set().insert(t).contains(p) by {
                if w.to_set().contains(p) {
                    let k = choose|k: int| 0 <= k < w.len() && w[k] == p;
                    if k < i {
                        assert(s[k] == p);
                    } else if k > i {
                        assert(s[k - 1] == p);
                    }
                }
                if s.to_set().contains(p) {
                    let k = choose|k: int| 0 <= k < s.len() && s[k] == p;
                    if k < i {
                        assert(w[k] == p);
                    } else {
                        assert(w[k + 1] == p);
                    }
                }
                if p == t {
                    assert(w[i as int] == p);
                }
            }
        }
    }
}

} // verus!

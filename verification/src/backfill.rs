//! Resolution layer of the notes migration: what resolved cleanly, and what
//! did not, tagged with a `SkipReason`. Nothing here guesses; an ambiguous
//! or missing input is always a skip, never a best-effort fallback.

use vstd::prelude::*;
use vstd::hash_map::StringHashMap;
use crate::text::{ascii_fold, eq_ignore_ascii_case, opt_chars, opt_str_to_string};

verus! {

#[derive(Debug, Clone, PartialEq, Eq)]
pub enum SkipReason {
    /// No user has this username.
    UnresolvableUsername,
    /// The user search returned more than one exact case-insensitive match.
    AmbiguousUsername,
    /// A tree name with no matching tree.
    UnresolvableTreeSlug,
    /// The tree's team no longer exists.
    TeamNotFound,
    /// The team exists but has no organization assigned yet.
    TeamNoOrganization,
    /// Transport or authorization failure talking to the user service.
    LookupFailed,
}

#[derive(Debug, Clone, PartialEq, Eq)]
pub struct SkipEntry {
    pub key: String,
    pub reason: SkipReason,
}

#[verifier::reject_recursive_types(T)]
pub struct ResolutionReport<T> {
    pub resolved: StringHashMap<T>,
    pub skipped: Vec<SkipEntry>,
}

impl<T> ResolutionReport<T> {
    /// An empty report.
    pub fn new() -> (r: Self)
        ensures
            r.resolved@ == Map::<Seq<char>, T>::empty(),
            r.skipped@ == Seq::<SkipEntry>::empty(),
    {
        ResolutionReport { resolved: StringHashMap::new(), skipped: Vec::new() }
    }

    /// Records `key` as skipped for `reason`; nothing resolved changes.
    pub fn skip(&mut self, key: &str, reason: SkipReason)
        ensures
            final(self).resolved@ == old(self).resolved@,
            final(self).skipped@.len() == old(self).skipped@.len() + 1,
            final(self).skipped@.drop_last() == old(self).skipped@,
            final(self).skipped@.last().key@ == key@,
            final(self).skipped@.last().reason == reason,
    {
        let entry = SkipEntry { key: key.to_owned(), reason };
        self.skipped.push(entry);
        proof {
            assert(final(self).skipped@.drop_last() =~= old(self).skipped@) by {
                assert(self.skipped@.drop_last() =~= old(self).skipped@);
            }
        }
    }
}

/// The keys of skip entries, in order.
pub open spec fn skip_keys(s: Seq<SkipEntry>) -> Seq<Seq<char>> {
    s.map_values(|e: SkipEntry| e.key@)
}

/// The resolved keys after filing `key` with `outcome`.
pub open spec fn filed_resolved<T>(resolved: Map<Seq<char>, T>, key: Seq<char>, outcome: Result<T, SkipReason>) -> Map<Seq<char>, T> {
    match outcome {
        Ok(v) => resolved.insert(key, v),
        Err(_) => resolved,
    }
}

/// The skipped keys after filing `key` with `outcome`.
pub open spec fn filed_skipped<T>(skipped: Seq<Seq<char>>, key: Seq<char>, outcome: Result<T, SkipReason>) -> Seq<Seq<char>> {
    match outcome {
        Ok(_) => skipped,
        Err(_) => skipped.push(key),
    }
}

impl<T> ResolutionReport<T> {
    /// Files the outcome of one lookup: a resolved value, or a skip entry
    /// with its reason.
    pub fn file(&mut self, key: &str, outcome: Result<T, SkipReason>)
        ensures
            final(self).resolved@ == filed_resolved(old(self).resolved@, key@, outcome),
            skip_keys(final(self).skipped@) == filed_skipped(skip_keys(old(self).skipped@), key@, outcome),
            outcome is Ok ==> final(self).skipped@ == old(self).skipped@,
            outcome matches Err(reason) ==> final(self).skipped@.drop_last() == old(self).skipped@
                && final(self).skipped@.last().reason == reason,
    {
        match outcome {
            Ok(v) => {
                self.resolved.insert(key.to_owned(), v);
            },
            Err(reason) => {
                let ghost before = self.skipped@;
                self.skip(key, reason);
                proof {
                    assert(skip_keys(self.skipped@) =~= skip_keys(before).push(key@)) by {
                        assert(self.skipped@ =~= before.push(self.skipped@.last()));
                    }
                }
            },
        }
    }
}

/// A key that was not yet filed lands in exactly one place: among the
/// resolved keys or among the skipped ones.
pub proof fn lemma_filed_exactly_once<T>(
    resolved: Map<Seq<char>, T>,
    skipped: Seq<Seq<char>>,
    key: Seq<char>,
    outcome: Result<T, SkipReason>,
)
    requires
        !resolved.contains_key(key),
        !skipped.contains(key),
    ensures
        filed_resolved(resolved, key, outcome).contains_key(key)
            != filed_skipped(skipped, key, outcome).contains(key),
{
    if outcome is Err {
        assert(filed_skipped(skipped, key, outcome)[skipped.len() as int] == key);
    } else {
        assert(filed_skipped(skipped, key, outcome) == skipped);
    }
}

pub open spec fn is_success(status: Option<u16>) -> bool {
    status matches Some(s) && 200 <= s <= 299
}

/// Indices of `candidates` that equal `username` ignoring ASCII case.
pub open spec fn exact_matches(username: Seq<char>, candidates: Seq<Seq<char>>) -> Set<int> {
    Set::new(|i: int| 0 <= i < candidates.len() && ascii_fold(candidates[i]) == ascii_fold(username))
}

/// Outcome of a username search: `status` is the HTTP status (`None` when
/// the request failed outright), `candidates` the usernames of the result
/// page (`None` when its body could not be read). The search matches
/// substrings, so only an exact case-insensitive match resolves; the result
/// is the index of that single match in `candidates`.
pub fn classify_username_search(
    username: &str,
    status: Option<u16>,
    candidates: Option<&Vec<String>>,
) -> (r: Result<usize, SkipReason>)
    ensures
        !is_success(status) || candidates is None ==> r == Err::<usize, SkipReason>(SkipReason::LookupFailed),
        is_success(status) && candidates is Some ==> {
            let c = candidates.unwrap()@.map_values(|s: String| s@);
            let m = exact_matches(username@, c);
            &&& m.finite()
            &&& m.len() == 0 ==> r == Err::<usize, SkipReason>(SkipReason::UnresolvableUsername)
            &&& m.len() == 1 ==> (r matches Ok(i) && m.contains(i as int))
            &&& m.len() > 1 ==> r == Err::<usize, SkipReason>(SkipReason::AmbiguousUsername)
        },
{
    let ok = match status {
        Some(s) => 200 <= s && s <= 299,
        None => false,
    };
    if !ok {
        return Err(SkipReason::LookupFailed);
    }
    let cands = match candidates {
        Some(c) => c,
        None => return Err(SkipReason::LookupFailed),
    };
    let ghost c = cands@.map_values(|s: String| s@);
    let mut found: Option<usize> = None;
    let mut count: usize = 0;
    let mut i: usize = 0;
    proof {
        assert(exact_matches(username@, c).intersect(Set::new(|j: int| 0 <= j < 0)) =~= Set::empty());
    }
    while i < cands.len()
        invariant
            c == cands@.map_values(|s: String| s@),
            i <= cands.len(),
            count <= i,
            exact_matches(username@, c).intersect(Set::new(|j: int| 0 <= j < i)).finite(),
            count == exact_matches(username@, c).intersect(Set::new(|j: int| 0 <= j < i)).len(),
            count == 0 <==> found is None,
            found matches Some(f) ==> f < i && exact_matches(username@, c).contains(f as int),
        decreases cands.len() - i,
    {
        let ghost before = exact_matches(username@, c).intersect(Set::new(|j: int| 0 <= j < i));
        let ghost after = exact_matches(username@, c).intersect(Set::new(|j: int| 0 <= j < i + 1));
        let is_match = eq_ignore_ascii_case(cands[i].as_str(), username);
        if is_match {
            assert(after =~= before.insert(i as int));
            found = Some(i);
            count = count + 1;
        } else {
            assert(after =~= before);
        }
        i = i + 1;
    }
    proof {
        assert(exact_matches(username@, c).intersect(Set::new(|j: int| 0 <= j < cands.len()))
            =~= exact_matches(username@, c));
    }
    if count == 0 {
        Err(SkipReason::UnresolvableUsername)
    } else if count == 1 {
        Ok(found.unwrap())
    } else {
        Err(SkipReason::AmbiguousUsername)
    }
}

/// Outcome of a lookup by id: 404 means the record does not exist; any
/// other non-success status, a failed request (`None`) or an unreadable
/// body (`parsed` is `None`) is a lookup failure.
pub fn classify_lookup<T>(status: Option<u16>, parsed: Option<T>, missing: SkipReason) -> (r: Result<T, SkipReason>)
    ensures
        status == Some(404u16) ==> r == Err::<T, SkipReason>(missing),
        status != Some(404u16) && !is_success(status) ==> r == Err::<T, SkipReason>(SkipReason::LookupFailed),
        is_success(status) ==> r == match parsed {
            Some(v) => Ok::<T, SkipReason>(v),
            None => Err(SkipReason::LookupFailed),
        },
{
    match status {
        Some(s) => {
            if s == 404 {
                Err(missing)
            } else if 200 <= s && s <= 299 {
                match parsed {
                    Some(v) => Ok(v),
                    None => Err(SkipReason::LookupFailed),
                }
            } else {
                Err(SkipReason::LookupFailed)
            }
        },
        None => Err(SkipReason::LookupFailed),
    }
}

/// Outcome of a team lookup: `parsed` is the team's organization id, if the
/// body was readable (`Some(None)` is a team without an organization).
pub fn classify_team_lookup<T>(status: Option<u16>, parsed: Option<Option<T>>) -> (r: Result<T, SkipReason>)
    ensures
        status == Some(404u16) ==> r == Err::<T, SkipReason>(SkipReason::TeamNotFound),
        status != Some(404u16) && !is_success(status) ==> r == Err::<T, SkipReason>(SkipReason::LookupFailed),
        is_success(status) ==> r == match parsed {
            Some(Some(v)) => Ok::<T, SkipReason>(v),
            Some(None) => Err(SkipReason::TeamNoOrganization),
            None => Err(SkipReason::LookupFailed),
        },
{
    match classify_lookup(status, parsed, SkipReason::TeamNotFound) {
        Ok(Some(v)) => Ok(v),
        Ok(None) => Err(SkipReason::TeamNoOrganization),
        Err(e) => Err(e),
    }
}

#[derive(Debug, Clone, PartialEq, Eq)]
pub struct TreeInfo {
    /// The tree record's key (no table prefix).
    pub tree_id: String,
    pub team_id: Option<String>,
}

impl TreeInfo {
    pub open spec fn model(self) -> (Seq<char>, Option<Seq<char>>) {
        (self.tree_id@, opt_chars(self.team_id))
    }
}

pub open spec fn row_model(row: (&str, &str, Option<&str>)) -> (Seq<char>, Seq<char>, Option<Seq<char>>) {
    (row.0@, row.1@, match row.2 { Some(t) => Some(t@), None => None })
}

/// Tree rows `(name, tree_id, team_id)` keyed by name; a later row for the
/// same name replaces an earlier one.
pub open spec fn tree_index(rows: Seq<(Seq<char>, Seq<char>, Option<Seq<char>>)>) -> Map<Seq<char>, (Seq<char>, Option<Seq<char>>)>
    decreases rows.len(),
{
    if rows.len() == 0 {
        Map::empty()
    } else {
        let r = rows.last();
        tree_index(rows.drop_last()).insert(r.0, (r.1, r.2))
    }
}

/// Indexes already-fetched tree rows `(name, tree_id, team_id)` by name.
pub fn resolve_trees(trees: Vec<(&str, &str, Option<&str>)>) -> (m: StringHashMap<TreeInfo>)
    ensures
        m@.dom() == tree_index(trees@.map_values(|r: (&str, &str, Option<&str>)| row_model(r))).dom(),
        forall|k: Seq<char>| #[trigger] m@.contains_key(k) ==>
            m@[k].model() == tree_index(trees@.map_values(|r: (&str, &str, Option<&str>)| row_model(r)))[k],
{
    let ghost rows = trees@.map_values(|r: (&str, &str, Option<&str>)| row_model(r));
    let mut m: StringHashMap<TreeInfo> = StringHashMap::new();
    let mut i: usize = 0;
    while i < trees.len()
        invariant
            rows == trees@.map_values(|r: (&str, &str, Option<&str>)| row_model(r)),
            i <= trees.len(),
            m@.dom() == tree_index(rows.take(i as int)).dom(),
            forall|k: Seq<char>| #[trigger] m@.contains_key(k) ==> m@[k].model() == tree_index(rows.take(i as int))[k],
        decreases trees.len() - i,
    {
        let (name, tree_id, team_id) = trees[i];
        let info = TreeInfo { tree_id: tree_id.to_owned(), team_id: opt_str_to_string(team_id) };
        m.insert(name.to_owned(), info);
        proof {
            assert(rows.take(i + 1).drop_last() =~= rows.take(i as int));
            assert(rows.take(i + 1).last() == row_model(trees@[i as int]));
        }
        i = i + 1;
    }
    proof {
        assert(rows.take(trees.len() as int) =~= rows);
    }
    m
}

/// Trees of `slugs` that resolve in `trees`, in order.
pub open spec fn resolved_trees_of(slugs: Seq<Seq<char>>, trees: Map<Seq<char>, TreeInfo>) -> Seq<TreeInfo>
    decreases slugs.len(),
{
    if slugs.len() == 0 {
        Seq::empty()
    } else {
        let prev = resolved_trees_of(slugs.drop_last(), trees);
        if trees.contains_key(slugs.last()) { prev.push(trees[slugs.last()]) } else { prev }
    }
}

/// Slugs of `slugs` that do not resolve in `trees`, in order.
pub open spec fn unresolved_slugs_of(slugs: Seq<Seq<char>>, trees: Map<Seq<char>, TreeInfo>) -> Seq<Seq<char>>
    decreases slugs.len(),
{
    if slugs.len() == 0 {
        Seq::empty()
    } else {
        let prev = unresolved_slugs_of(slugs.drop_last(), trees);
        if trees.contains_key(slugs.last()) { prev } else { prev.push(slugs.last()) }
    }
}

/// Looks up every tree slug a note references, splitting those that resolve
/// from those that do not.
pub fn resolve_note_trees<'a>(
    tree_slugs: &'a [String],
    trees: &'a StringHashMap<TreeInfo>,
) -> (r: (Vec<&'a TreeInfo>, Vec<&'a str>))
    ensures
        r.0@.len() == resolved_trees_of(tree_slugs@.map_values(|s: String| s@), trees@).len(),
        forall|i: int| 0 <= i < r.0@.len() ==> *r.0@[i] == resolved_trees_of(tree_slugs@.map_values(|s: String| s@), trees@)[i],
        r.1@.len() == unresolved_slugs_of(tree_slugs@.map_values(|s: String| s@), trees@).len(),
        forall|i: int| 0 <= i < r.1@.len() ==> r.1@[i]@ == unresolved_slugs_of(tree_slugs@.map_values(|s: String| s@), trees@)[i],
{
    let ghost slugs = tree_slugs@.map_values(|s: String| s@);
    let mut resolved: Vec<&'a TreeInfo> = Vec::new();
    let mut unresolvable: Vec<&'a str> = Vec::new();
    let mut i: usize = 0;
    while i < tree_slugs.len()
        invariant
            slugs == tree_slugs@.map_values(|s: String| s@),
            i <= tree_slugs.len(),
            resolved@.len() == resolved_trees_of(slugs.take(i as int), trees@).len(),
            forall|j: int| 0 <= j < resolved@.len() ==> *resolved@[j] == resolved_trees_of(slugs.take(i as int), trees@)[j],
            unresolvable@.len() == unresolved_slugs_of(slugs.take(i as int), trees@).len(),
            forall|j: int| 0 <= j < unresolvable@.len() ==> unresolvable@[j]@ == unresolved_slugs_of(slugs.take(i as int), trees@)[j],
        decreases tree_slugs.len() - i,
    {
        let slug: &'a String = &tree_slugs[i];
        proof {
            assert(slugs.take(i + 1).drop_last() =~= slugs.take(i as int));
            assert(slugs.take(i + 1).last() == slug@);
        }
        match trees.get(slug.as_str()) {
            Some(info) => resolved.push(info),
            None => unresolvable.push(slug.as_str()),
        }
        i = i + 1;
    }
    proof {
        assert(slugs.take(tree_slugs.len() as int) =~= slugs);
    }
    (resolved, unresolvable)
}

/// Every referenced slug lands on exactly one side of the split.
pub proof fn lemma_note_trees_partition(slugs: Seq<Seq<char>>, trees: Map<Seq<char>, TreeInfo>)
    ensures
        resolved_trees_of(slugs, trees).len() + unresolved_slugs_of(slugs, trees).len() == slugs.len(),
    decreases slugs.len(),
{
    if slugs.len() > 0 {
        lemma_note_trees_partition(slugs.drop_last(), trees);
    }
}

/// The last row for a tree name is the one that is kept.
pub proof fn lemma_last_tree_row_wins(
    rows: Seq<(Seq<char>, Seq<char>, Option<Seq<char>>)>,
    row: (Seq<char>, Seq<char>, Option<Seq<char>>),
)
    ensures
        tree_index(rows.push(row)).contains_key(row.0),
        tree_index(rows.push(row))[row.0] == (row.1, row.2),
{
    assert(rows.push(row).drop_last() =~= rows);
}

} // verus!

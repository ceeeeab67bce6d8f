//! The plan of the notes backfill, derived before any write: each note's
//! visibility decision over the teams it can be filed under, the skip and
//! ambiguity rows of the report, the number of notes to migrate, and the
//! distinct (folder, team) pairs whose folders must exist first. Also the
//! author of a note, and the parity checks of a migrated body.

use std::collections::BTreeSet;
use vstd::prelude::*;
use vstd::hash_map::StringHashMap;
use crate::backfill::{resolve_note_trees, resolved_trees_of, TreeInfo};
use crate::backfill_visibility::{decide, spec_decide, team_id_set, Decision, DecisionModel, SkipReason};
use crate::migration::{dam_url_count, marker_count_from, sha256, sha256_digest, visibility_skip_str};
use crate::sorted::{insert_sorted, insert_sorted_pair, pair_views, pairs_sorted, strictly_sorted, views};
use crate::text::opt_chars;

verus! {

/// A top-level note as the backfill reads it.
pub struct NotePlanRow {
    pub id: String,
    /// Names of the trees the note belongs to.
    pub trees: Vec<String>,
    pub folder_id: Option<String>,
    pub is_shared: bool,
}

/// A note left out of the migration, with the reason (and a detail).
pub struct SkipRow {
    pub note_id: String,
    pub reason: String,
    pub detail: Option<String>,
}

/// A note that migrates under a tie-broken team, with every candidate.
pub struct AmbiguousRow {
    pub note_id: String,
    pub chosen_team_id: String,
    /// The candidate teams in increasing order.
    pub all_candidate_teams: Vec<String>,
}

/// The backfill's plan.
pub struct BackfillPlan {
    /// The decision of each note, in note order.
    pub decisions: Vec<Decision>,
    pub notes_skipped: Vec<SkipRow>,
    pub notes_ambiguous: Vec<AmbiguousRow>,
    pub notes_to_migrate: usize,
    /// The distinct (folder id, team id) pairs to create, in increasing order.
    pub folders_needed: Vec<(String, String)>,
}

/// The tree names of a note.
pub open spec fn slugs_of(n: NotePlanRow) -> Seq<Seq<char>> {
    n.trees@.map_values(|s: String| s@)
}

/// The team ids, in tree order, of the trees that have a team whose
/// organization resolved (`orgs`).
pub open spec fn team_candidates(ts: Seq<TreeInfo>, orgs: Set<Seq<char>>) -> Seq<Seq<char>>
    decreases ts.len(),
{
    if ts.len() == 0 {
        Seq::empty()
    } else {
        let prev = team_candidates(ts.drop_last(), orgs);
        match ts.last().team_id {
            Some(t) => if orgs.contains(t@) { prev.push(t@) } else { prev },
            None => prev,
        }
    }
}

/// The teams a note can be filed under: the teams of its resolved trees
/// whose organization resolved.
pub open spec fn candidate_teams(n: NotePlanRow, trees: Map<Seq<char>, TreeInfo>, orgs: Set<Seq<char>>) -> Set<Seq<char>> {
    team_candidates(resolved_trees_of(slugs_of(n), trees), orgs).to_set()
}

/// The decision of a note.
pub open spec fn planned_decision(n: NotePlanRow, trees: Map<Seq<char>, TreeInfo>, orgs: Set<Seq<char>>) -> DecisionModel {
    spec_decide(
        n.is_shared,
        candidate_teams(n, trees, orgs),
        n.trees@.len() > 0,
        resolved_trees_of(slugs_of(n), trees).len() > 0,
    )
}

/// The report text of a skip reason.
pub open spec fn skip_text(r: SkipReason) -> Seq<char> {
    match r {
        SkipReason::NoTrees => "no_trees"@,
        SkipReason::AllTreeSlugsUnresolvable => "all_tree_slugs_unresolvable"@,
        SkipReason::NoTeamOnAnyResolvedTree => "no_team_on_any_resolved_tree"@,
    }
}

pub open spec fn skip_row_view(r: SkipRow) -> (Seq<char>, Seq<char>, Option<Seq<char>>) {
    (r.note_id@, r.reason@, opt_chars(r.detail))
}

pub open spec fn ambiguous_row_view(r: AmbiguousRow) -> (Seq<char>, Seq<char>, Set<Seq<char>>) {
    (r.note_id@, r.chosen_team_id@, views(r.all_candidate_teams@).to_set())
}

/// The skip rows of the notes, in note order.
pub open spec fn planned_skips(ns: Seq<NotePlanRow>, trees: Map<Seq<char>, TreeInfo>, orgs: Set<Seq<char>>)
    -> Seq<(Seq<char>, Seq<char>, Option<Seq<char>>)>
    decreases ns.len(),
{
    if ns.len() == 0 {
        Seq::empty()
    } else {
        let prev = planned_skips(ns.drop_last(), trees, orgs);
        match planned_decision(ns.last(), trees, orgs) {
            DecisionModel::Skip(r) => prev.push((ns.last().id@, skip_text(r), None)),
            _ => prev,
        }
    }
}

/// The ambiguity rows of the notes, in note order: note, chosen team and
/// the set of all candidates.
pub open spec fn planned_ambiguous(ns: Seq<NotePlanRow>, trees: Map<Seq<char>, TreeInfo>, orgs: Set<Seq<char>>)
    -> Seq<(Seq<char>, Seq<char>, Set<Seq<char>>)>
    decreases ns.len(),
{
    if ns.len() == 0 {
        Seq::empty()
    } else {
        let prev = planned_ambiguous(ns.drop_last(), trees, orgs);
        match planned_decision(ns.last(), trees, orgs) {
            DecisionModel::MigrateAmbiguous(t, _, _) => prev.push((ns.last().id@, t, candidate_teams(ns.last(), trees, orgs))),
            _ => prev,
        }
    }
}

/// The number of notes that migrate (those not skipped).
pub open spec fn planned_migrations(ns: Seq<NotePlanRow>, trees: Map<Seq<char>, TreeInfo>, orgs: Set<Seq<char>>) -> nat
    decreases ns.len(),
{
    if ns.len() == 0 {
        0
    } else {
        planned_migrations(ns.drop_last(), trees, orgs)
            + if planned_decision(ns.last(), trees, orgs) is Skip { 0nat } else { 1nat }
    }
}

/// The team a decision files under, if it migrates.
pub open spec fn target_team(d: DecisionModel) -> Option<Seq<char>> {
    match d {
        DecisionModel::Migrate(t, _) => Some(t),
        DecisionModel::MigrateAmbiguous(t, _, _) => Some(t),
        DecisionModel::Skip(_) => None,
    }
}

/// The (folder, team) pairs of migrating notes that are filed in a folder.
pub open spec fn planned_folders(ns: Seq<NotePlanRow>, trees: Map<Seq<char>, TreeInfo>, orgs: Set<Seq<char>>)
    -> Set<(Seq<char>, Seq<char>)>
    decreases ns.len(),
{
    if ns.len() == 0 {
        Set::empty()
    } else {
        let prev = planned_folders(ns.drop_last(), trees, orgs);
        match (ns.last().folder_id, target_team(planned_decision(ns.last(), trees, orgs))) {
            (Some(f), Some(t)) => prev.insert((f@, t)),
            _ => prev,
        }
    }
}

/// Calls `BTreeSet::insert`: afterwards the set holds a string with the
/// characters of `t`, besides what it held. (vstd relates this call to the
/// set's view only for key types whose order it models, which `String` is
/// not.)
#[verifier::external_body]
fn insert_team(s: &mut BTreeSet<String>, t: String)
    ensures
        team_id_set(final(s)@) == team_id_set(old(s)@).insert(t@),
{
    s.insert(t);
}

/// The candidate teams of a note's resolved trees, as an ordered set and as
/// an increasing list.
fn note_candidates<T>(resolved: &Vec<&TreeInfo>, orgs: &StringHashMap<T>) -> (r: (BTreeSet<String>, Vec<String>))
    ensures
        team_id_set(r.0@) == team_candidates(resolved@.map_values(|t: &TreeInfo| *t), orgs@.dom()).to_set(),
        strictly_sorted(views(r.1@)),
        views(r.1@).to_set() == team_candidates(resolved@.map_values(|t: &TreeInfo| *t), orgs@.dom()).to_set(),
{
    let ghost ts = resolved@.map_values(|t: &TreeInfo| *t);
    let mut set: BTreeSet<String> = BTreeSet::new();
    let mut list: Vec<String> = Vec::new();
    proof {
        assert(team_id_set(set@) =~= Set::<Seq<char>>::empty());
        assert(team_candidates(ts.take(0), orgs@.dom()) =~= Seq::<Seq<char>>::empty());
        assert(views(list@).to_set() =~= Set::<Seq<char>>::empty());
        assert(team_candidates(ts.take(0), orgs@.dom()).to_set() =~= Set::<Seq<char>>::empty());
    }
    let mut i: usize = 0;
    while i < resolved.len()
        invariant
            ts == resolved@.map_values(|t: &TreeInfo| *t),
            i <= resolved.len(),
            team_id_set(set@) == team_candidates(ts.take(i as int), orgs@.dom()).to_set(),
            strictly_sorted(views(list@)),
            views(list@).to_set() == team_candidates(ts.take(i as int), orgs@.dom()).to_set(),
        decreases resolved.len() - i,
    {
        let info: &TreeInfo = resolved[i];
        proof {
            assert(ts.take(i + 1).drop_last() =~= ts.take(i as int));
            assert(ts.take(i + 1).last() == *info);
        }
        match &info.team_id {
            Some(t) => {
                if orgs.contains_key(t.as_str()) {
                    proof {
                        team_candidates(ts.take(i as int), orgs@.dom()).lemma_push_to_set_commute(t@);
                    }
                    insert_team(&mut set, t.clone());
                    insert_sorted(&mut list, t.as_str());
                }
            },
            None => {},
        }
        i = i + 1;
    }
    proof {
        assert(ts.take(resolved.len() as int) =~= ts);
    }
    (set, list)
}

/// Plans the backfill of the top-level notes, given the trees by name and
/// the teams whose organization resolved.
pub fn plan_backfill<T>(notes: &Vec<NotePlanRow>, trees: &StringHashMap<TreeInfo>, team_orgs: &StringHashMap<T>) -> (r: BackfillPlan)
    ensures
        r.decisions@.len() == notes@.len(),
        forall|i: int| 0 <= i < notes@.len()
            ==> (#[trigger] r.decisions@[i]).model() == planned_decision(notes@[i], trees@, team_orgs@.dom()),
        r.notes_skipped@.map_values(|s: SkipRow| skip_row_view(s)) == planned_skips(notes@, trees@, team_orgs@.dom()),
        r.notes_ambiguous@.map_values(|a: AmbiguousRow| ambiguous_row_view(a))
            == planned_ambiguous(notes@, trees@, team_orgs@.dom()),
        forall|k: int| 0 <= k < r.notes_ambiguous@.len()
            ==> strictly_sorted(views((#[trigger] r.notes_ambiguous@[k]).all_candidate_teams@)),
        r.notes_to_migrate == planned_migrations(notes@, trees@, team_orgs@.dom()),
        pairs_sorted(pair_views(r.folders_needed@)),
        pair_views(r.folders_needed@).to_set() == planned_folders(notes@, trees@, team_orgs@.dom()),
{
    let ghost orgs = team_orgs@.dom();
    let mut decisions: Vec<Decision> = Vec::new();
    let mut skipped: Vec<SkipRow> = Vec::new();
    let mut ambiguous: Vec<AmbiguousRow> = Vec::new();
    let mut count: usize = 0;
    let mut folders: Vec<(String, String)> = Vec::new();
    proof {
        assert(pair_views(folders@).to_set() =~= Set::<(Seq<char>, Seq<char>)>::empty());
    }
    let mut i: usize = 0;
    while i < notes.len()
        invariant
            orgs == team_orgs@.dom(),
            i <= notes.len(),
            count <= i,
            decisions@.len() == i,
            forall|j: int| 0 <= j < i ==> (#[trigger] decisions@[j]).model() == planned_decision(notes@[j], trees@, orgs),
            skipped@.map_values(|s: SkipRow| skip_row_view(s)) == planned_skips(notes@.take(i as int), trees@, orgs),
            ambiguous@.map_values(|a: AmbiguousRow| ambiguous_row_view(a)) == planned_ambiguous(notes@.take(i as int), trees@, orgs),
            forall|k: int| 0 <= k < ambiguous@.len() ==> strictly_sorted(views((#[trigger] ambiguous@[k]).all_candidate_teams@)),
            count == planned_migrations(notes@.take(i as int), trees@, orgs),
            pairs_sorted(pair_views(folders@)),
            pair_views(folders@).to_set() == planned_folders(notes@.take(i as int), trees@, orgs),
        decreases notes.len() - i,
    {
        let note = &notes[i];
        proof {
            assert(notes@.take(i + 1).drop_last() =~= notes@.take(i as int));
            assert(notes@.take(i + 1).last() == *note);
        }
        let (resolved, _unresolvable) = resolve_note_trees(note.trees.as_slice(), trees);
        proof {
            assert(resolved@.map_values(|t: &TreeInfo| *t) =~= resolved_trees_of(slugs_of(*note), trees@));
        }
        let (set, sorted) = note_candidates(&resolved, team_orgs);
        let d = decide(note.is_shared, &set, note.trees.len() > 0, resolved.len() > 0);
        proof {
            assert(d.model() == planned_decision(*note, trees@, orgs));
        }
        match &d {
            Decision::Skip(reason) => {
                let ghost before = skipped@;
                let row = SkipRow { note_id: note.id.clone(), reason: visibility_skip_str(*reason).to_owned(), detail: None };
                skipped.push(row);
                proof {
                    assert(skipped@.map_values(|s: SkipRow| skip_row_view(s))
                        =~= before.map_values(|s: SkipRow| skip_row_view(s)).push(skip_row_view(row)));
                }
            },
            Decision::MigrateAmbiguous(t, _) => {
                let ghost before = ambiguous@;
                let row = AmbiguousRow {
                    note_id: note.id.clone(),
                    chosen_team_id: t.team_id.clone(),
                    all_candidate_teams: sorted,
                };
                ambiguous.push(row);
                proof {
                    assert(ambiguous@.map_values(|a: AmbiguousRow| ambiguous_row_view(a))
                        =~= before.map_values(|a: AmbiguousRow| ambiguous_row_view(a)).push(ambiguous_row_view(row)));
                    assert forall|k: int| 0 <= k < ambiguous@.len()
                        implies strictly_sorted(views((#[trigger] ambiguous@[k]).all_candidate_teams@)) by {
                        if k < before.len() {
                            assert(ambiguous@[k] == before[k]);
                        }
                    }
                }
                count = count + 1;
                if let Some(f) = &note.folder_id {
                    insert_sorted_pair(&mut folders, f.as_str(), t.team_id.as_str());
                }
            },
            Decision::Migrate(t) => {
                count = count + 1;
                if let Some(f) = &note.folder_id {
                    insert_sorted_pair(&mut folders, f.as_str(), t.team_id.as_str());
                }
            },
        }
        decisions.push(d);
        proof {
            assert forall|j: int| 0 <= j < i + 1 implies (#[trigger] decisions@[j]).model() == planned_decision(notes@[j], trees@, orgs) by {
                if j == i {
                    assert(notes@[j] == *note);
                }
            }
        }
        i = i + 1;
    }
    proof {
        assert(notes@.take(notes.len() as int) =~= notes@);
    }
    BackfillPlan {
        decisions,
        notes_skipped: skipped,
        notes_ambiguous: ambiguous,
        notes_to_migrate: count,
        folders_needed: folders,
    }
}

/// The author of a note to migrate: its resolved user id, or the skip row
/// of a note without an author or with an author that did not resolve.
pub fn note_author(note_id: &str, created_by: Option<&str>, resolved: &StringHashMap<u128>) -> (r: Result<u128, SkipRow>)
    ensures
        match created_by {
            None => r matches Err(s) && skip_row_view(s) == (note_id@, "no_created_by"@, None::<Seq<char>>),
            Some(u) => if resolved@.contains_key(u@) {
                r == Ok::<u128, SkipRow>(resolved@[u@])
            } else {
                r matches Err(s) && skip_row_view(s) == (note_id@, "unresolvable_author_username"@, Some(u@))
            },
        },
{
    match created_by {
        None => Err(SkipRow { note_id: note_id.to_owned(), reason: "no_created_by".to_owned(), detail: None }),
        Some(u) => match resolved.get(u) {
            Some(id) => Ok(*id),
            None => Err(SkipRow {
                note_id: note_id.to_owned(),
                reason: crate::migration::visibility_skip_str_username_unresolved(),
                detail: Some(u.to_owned()),
            }),
        },
    }
}

/// The author of a reply: its resolved user id; `None` (the reply is
/// skipped) when it has no author or the author did not resolve.
pub fn reply_author(created_by: Option<&str>, resolved: &StringHashMap<u128>) -> (r: Option<u128>)
    ensures
        r == match created_by {
            Some(u) => if resolved@.contains_key(u@) { Some(resolved@[u@]) } else { None },
            None => None,
        },
{
    match created_by {
        Some(u) => match resolved.get(u) {
            Some(id) => Some(*id),
            None => None,
        },
        None => None,
    }
}

fn bytes_eq(a: &Vec<u8>, b: &Vec<u8>) -> (r: bool)
    ensures
        r == (a@ == b@),
{
    if a.len() != b.len() {
        return false;
    }
    let mut i: usize = 0;
    while i < a.len()
        invariant
            a.len() == b.len(),
            i <= a.len(),
            forall|j: int| 0 <= j < i ==> a@[j] == b@[j],
        decreases a.len() - i,
    {
        if a[i] != b[i] {
            return false;
        }
        i = i + 1;
    }
    proof {
        assert(a@ =~= b@);
    }
    true
}

/// The parity checks of a migrated body against the source body: whether the
/// SHA-256 digests of their UTF-8 bytes differ, and whether their counts
/// of embedded links differ.
pub fn parity_mismatches(before: &str, after: &str) -> (r: (bool, bool))
    ensures
        r.0 == (sha256_digest(vstd::utf8::encode_utf8(before@)) != sha256_digest(vstd::utf8::encode_utf8(after@))),
        r.1 == (marker_count_from(before@, 0) != marker_count_from(after@, 0)),
{
    let hb = sha256(before.as_bytes());
    let ha = sha256(after.as_bytes());
    let body = !bytes_eq(&hb, &ha);
    let links = dam_url_count(before) != dam_url_count(after);
    (body, links)
}


/// Every note is either migrated or reported as skipped, never both: the
/// notes to migrate and the skip rows together number the notes.
pub proof fn lemma_every_note_planned_once(ns: Seq<NotePlanRow>, trees: Map<Seq<char>, TreeInfo>, orgs: Set<Seq<char>>)
    ensures
        planned_migrations(ns, trees, orgs) + planned_skips(ns, trees, orgs).len() == ns.len(),
    decreases ns.len(),
{
    if ns.len() > 0 {
        lemma_every_note_planned_once(ns.drop_last(), trees, orgs);
    }
}

/// An ambiguous note is never skipped: every ambiguity row is a note that
/// migrates, and there are no more of them than notes to migrate.
pub proof fn lemma_ambiguous_notes_migrate(ns: Seq<NotePlanRow>, trees: Map<Seq<char>, TreeInfo>, orgs: Set<Seq<char>>)
    ensures
        planned_ambiguous(ns, trees, orgs).len() <= planned_migrations(ns, trees, orgs),
    decreases ns.len(),
{
    if ns.len() > 0 {
        lemma_ambiguous_notes_migrate(ns.drop_last(), trees, orgs);
    }
}

} // verus!

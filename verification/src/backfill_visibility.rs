//! Visibility policy for migrating research notes to the notes service.
//!
//! A note's `is_shared` flag and its trees do not map cleanly onto one
//! `(team, visibility)` pair: a note may reference no tree, trees without a
//! team, or trees spanning several teams. `decide` turns that into exactly
//! one outcome and never resolves ambiguity toward wider exposure: an
//! ambiguous note still migrates, but always as `Visibility::Private`.

use std::collections::BTreeSet;
use vstd::prelude::*;
use crate::text::{is_lex_least, lemma_lex_least_unique};

verus! {

#[derive(Debug, Clone, Copy, PartialEq, Eq)]
pub enum Visibility {
    Private,
    Team,
}

#[derive(Debug, Clone, PartialEq, Eq)]
pub struct MigrationTarget {
    pub team_id: String,
    pub visibility: Visibility,
}

#[derive(Debug, Clone, Copy, PartialEq, Eq)]
pub enum AmbiguityReason {
    /// The note's resolved trees span more than one distinct team; the
    /// lexicographically first one is used and the note is flagged.
    MultiTeam,
}

#[derive(Debug, Clone, Copy, PartialEq, Eq)]
pub enum SkipReason {
    /// The note references no tree at all.
    NoTrees,
    /// Every tree slug the note references failed to resolve.
    AllTreeSlugsUnresolvable,
    /// Some tree resolved, but none of them belongs to a team.
    NoTeamOnAnyResolvedTree,
}

#[derive(Debug, Clone, PartialEq, Eq)]
pub enum Decision {
    /// Exactly one distinct team resolved.
    Migrate(MigrationTarget),
    /// A team was picked by a tie-break; always private, always reported.
    MigrateAmbiguous(MigrationTarget, AmbiguityReason),
    /// No team can be determined at all.
    Skip(SkipReason),
}

/// A decision with its team id taken by its character view.
pub enum DecisionModel {
    Migrate(Seq<char>, Visibility),
    MigrateAmbiguous(Seq<char>, Visibility, AmbiguityReason),
    Skip(SkipReason),
}

impl Decision {
    pub open spec fn model(self) -> DecisionModel {
        match self {
            Decision::Migrate(t) => DecisionModel::Migrate(t.team_id@, t.visibility),
            Decision::MigrateAmbiguous(t, r) => DecisionModel::MigrateAmbiguous(t.team_id@, t.visibility, r),
            Decision::Skip(r) => DecisionModel::Skip(r),
        }
    }
}

/// The distinct team ids of a set of team-id strings, by their characters.
pub open spec fn team_id_set(s: Set<String>) -> Set<Seq<char>> {
    s.map(|t: String| t@)
}

/// `ids` is finite and holds exactly `n` elements.
pub open spec fn has_size(ids: Set<Seq<char>>, n: nat) -> bool {
    ids.finite() && ids.len() == n
}

/// The visibility policy, over the set of distinct candidate team ids.
pub open spec fn spec_decide(
    is_shared: bool,
    team_ids: Set<Seq<char>>,
    had_any_slugs: bool,
    had_any_resolved_trees: bool,
) -> DecisionModel {
    if !had_any_slugs {
        DecisionModel::Skip(SkipReason::NoTrees)
    } else if !had_any_resolved_trees {
        DecisionModel::Skip(SkipReason::AllTreeSlugsUnresolvable)
    } else if team_ids.len() == 0 {
        DecisionModel::Skip(SkipReason::NoTeamOnAnyResolvedTree)
    } else {
        let first = choose|t: Seq<char>| is_lex_least(t, team_ids);
        if team_ids.len() == 1 {
            DecisionModel::Migrate(
                first,
                if is_shared { Visibility::Team } else { Visibility::Private },
            )
        } else {
            DecisionModel::MigrateAmbiguous(first, Visibility::Private, AmbiguityReason::MultiTeam)
        }
    }
}

/// Number of elements of a set of team ids.
/// Calls `BTreeSet::len`; a `BTreeSet<String>` holds no two strings with the
/// same characters, so this is the number of distinct character views.
/// (vstd relates `BTreeSet::len` to the set's view only for key types whose
/// order it models, which `String` is not.)
#[verifier::external_body]
fn team_count(s: &BTreeSet<String>) -> (n: usize)
    ensures
        has_size(team_id_set(s@), n as nat),
{
    s.len()
}

/// Least element of a set of team ids.
/// Calls `BTreeSet::first`, which returns the minimum under `String`'s
/// order: lexicographic by byte, which for UTF-8 is lexicographic by code
/// point. `None` exactly when the set is empty.
#[verifier::external_body]
fn least_team(s: &BTreeSet<String>) -> (r: Option<&String>)
    ensures
        match r {
            None => team_id_set(s@).len() == 0,
            Some(t) => is_lex_least(t@, team_id_set(s@)),
        },
{
    s.first()
}

/// `is_shared`: the note's own flag. `resolved_team_ids`: the distinct team
/// ids of every referenced tree that resolved and has a team.
/// `had_any_slugs`/`had_any_resolved_trees` distinguish the skip reasons.
pub fn decide(
    is_shared: bool,
    resolved_team_ids: &BTreeSet<String>,
    had_any_slugs: bool,
    had_any_resolved_trees: bool,
) -> (d: Decision)
    ensures
        team_id_set(resolved_team_ids@).finite(),
        d.model() == spec_decide(
            is_shared,
            team_id_set(resolved_team_ids@),
            had_any_slugs,
            had_any_resolved_trees,
        ),
{
    let n = team_count(resolved_team_ids);
    if !had_any_slugs {
        return Decision::Skip(SkipReason::NoTrees);
    }
    if !had_any_resolved_trees {
        return Decision::Skip(SkipReason::AllTreeSlugsUnresolvable);
    }
    let ghost ids = team_id_set(resolved_team_ids@);
    match least_team(resolved_team_ids) {
        None => Decision::Skip(SkipReason::NoTeamOnAnyResolvedTree),
        Some(t) => {
            proof {
                let first = choose|u: Seq<char>| is_lex_least(u, ids);
                assert(is_lex_least(t@, ids));
                lemma_lex_least_unique(t@, first, ids);
            }
            let team_id = t.clone();
            if n == 1 {
                let visibility = if is_shared { Visibility::Team } else { Visibility::Private };
                Decision::Migrate(MigrationTarget { team_id, visibility })
            } else {
                Decision::MigrateAmbiguous(
                    MigrationTarget { team_id, visibility: Visibility::Private },
                    AmbiguityReason::MultiTeam,
                )
            }
        }
    }
}

/// No ambiguity resolves toward wider exposure: a note becomes
/// team-visible only when it is shared and exactly one team resolved.
pub proof fn lemma_team_visible_only_when_unambiguous(
    is_shared: bool,
    team_ids: Set<Seq<char>>,
    had_any_slugs: bool,
    had_any_resolved_trees: bool,
)
    ensures
        (spec_decide(is_shared, team_ids, had_any_slugs, had_any_resolved_trees) matches
            DecisionModel::Migrate(_, v) && v == Visibility::Team)
            ==> is_shared && team_ids.len() == 1,
        spec_decide(is_shared, team_ids, had_any_slugs, had_any_resolved_trees) matches
            DecisionModel::MigrateAmbiguous(_, v, _) ==> v == Visibility::Private,
{
}

/// A note is skipped exactly when no team can be determined.
pub proof fn lemma_skip_iff_no_team(
    is_shared: bool,
    team_ids: Set<Seq<char>>,
    had_any_slugs: bool,
    had_any_resolved_trees: bool,
)
    ensures
        spec_decide(is_shared, team_ids, had_any_slugs, had_any_resolved_trees) is Skip
            <==> (!had_any_slugs || !had_any_resolved_trees || team_ids.len() == 0),
{
}

/// A migrated note is always filed under one of its own candidate teams,
/// the lexicographically least one.
pub proof fn lemma_chosen_team_is_least_candidate(
    is_shared: bool,
    team_ids: Set<Seq<char>>,
    had_any_slugs: bool,
    had_any_resolved_trees: bool,
)
    requires
        team_ids.finite(),
    ensures
        match spec_decide(is_shared, team_ids, had_any_slugs, had_any_resolved_trees) {
            DecisionModel::Migrate(t, _) => is_lex_least(t, team_ids),
            DecisionModel::MigrateAmbiguous(t, _, _) => is_lex_least(t, team_ids),
            DecisionModel::Skip(_) => true,
        },
{
    if had_any_slugs && had_any_resolved_trees && team_ids.len() != 0 {
        crate::text::lemma_finite_set_has_lex_least(team_ids);
    }
}

} // verus!

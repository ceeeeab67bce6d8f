use clann_server::backfill_visibility::{decide, AmbiguityReason, Decision, MigrationTarget, SkipReason, Visibility};
use std::collections::BTreeSet;

fn set(ids: &[&str]) -> BTreeSet<String> {
    ids.iter().map(|s| s.to_string()).collect()
}

#[test]
fn single_team_shared_note_migrates_as_team_visible() {
    let d = decide(true, &set(&["team-a"]), true, true);
    assert_eq!(
        d,
        Decision::Migrate(MigrationTarget { team_id: "team-a".into(), visibility: Visibility::Team })
    );
}

#[test]
fn single_team_private_note_migrates_as_private() {
    let d = decide(false, &set(&["team-a"]), true, true);
    assert_eq!(
        d,
        Decision::Migrate(MigrationTarget { team_id: "team-a".into(), visibility: Visibility::Private })
    );
}

#[test]
fn empty_trees_is_a_skip_regardless_of_is_shared() {
    assert_eq!(decide(true, &set(&[]), false, false), Decision::Skip(SkipReason::NoTrees));
    assert_eq!(decide(false, &set(&[]), false, false), Decision::Skip(SkipReason::NoTrees));
}

#[test]
fn all_slugs_unresolvable_is_its_own_skip_reason() {
    let d = decide(true, &set(&[]), true, false);
    assert_eq!(d, Decision::Skip(SkipReason::AllTreeSlugsUnresolvable));
}

#[test]
fn resolved_tree_with_no_team_is_a_skip_not_a_guess() {
    let d = decide(true, &set(&[]), true, true);
    assert_eq!(d, Decision::Skip(SkipReason::NoTeamOnAnyResolvedTree));
}

#[test]
fn multi_team_never_resolves_to_shared_even_if_is_shared_true() {
    let d = decide(true, &set(&["team-b", "team-a"]), true, true);
    assert_eq!(
        d,
        Decision::MigrateAmbiguous(
            MigrationTarget { team_id: "team-a".into(), visibility: Visibility::Private },
            AmbiguityReason::MultiTeam
        )
    );
}

#[test]
fn multi_team_tie_break_is_deterministic_across_runs() {
    let a = decide(false, &set(&["zzz", "aaa", "mmm"]), true, true);
    let b = decide(false, &set(&["mmm", "zzz", "aaa"]), true, true);
    assert_eq!(a, b);
    assert_eq!(
        a,
        Decision::MigrateAmbiguous(
            MigrationTarget { team_id: "aaa".into(), visibility: Visibility::Private },
            AmbiguityReason::MultiTeam
        )
    );
}

#[test]
fn tie_break_orders_a_prefix_before_its_extensions() {
    let d = decide(true, &set(&["team-ab", "team-a", "team-b"]), true, true);
    assert_eq!(
        d,
        Decision::MigrateAmbiguous(
            MigrationTarget { team_id: "team-a".into(), visibility: Visibility::Private },
            AmbiguityReason::MultiTeam
        )
    );
}

#[test]
fn unresolved_slugs_outrank_missing_teams() {
    // No tree resolved: the team set is irrelevant.
    assert_eq!(decide(true, &set(&["team-a"]), true, false), Decision::Skip(SkipReason::AllTreeSlugsUnresolvable));
    assert_eq!(decide(false, &set(&["team-a"]), false, true), Decision::Skip(SkipReason::NoTrees));
}

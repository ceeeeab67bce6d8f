use clann_server::backfill::{
    classify_lookup, classify_team_lookup, classify_username_search, resolve_note_trees, resolve_trees,
    ResolutionReport, SkipReason,
};

#[test]
fn resolve_trees_and_note_trees_split_resolvable_from_not() {
    let rows = vec![
        ("smith-family", "01ARZ3NDEKTSV4RRFFQ69G5FAV", Some("team-uuid-1")),
        ("orphan-tree", "01ARZ3NDEKTSV4RRFFQ69G5FAW", None),
    ];
    let trees = resolve_trees(rows);

    let slugs = vec!["smith-family".to_string(), "orphan-tree".to_string(), "ghost-tree".to_string()];
    let (resolved, unresolvable) = resolve_note_trees(&slugs, &trees);

    assert_eq!(resolved.len(), 2);
    assert_eq!(unresolvable, vec!["ghost-tree"]);
    assert_eq!(trees.get("smith-family").unwrap().team_id.as_deref(), Some("team-uuid-1"));
    assert_eq!(trees.get("orphan-tree").unwrap().team_id, None);
}

#[test]
fn later_tree_row_replaces_earlier_one() {
    let rows = vec![("dup", "A", None), ("dup", "B", Some("t"))];
    let trees = resolve_trees(rows);
    assert_eq!(trees.len(), 1);
    assert_eq!(trees.get("dup").unwrap().tree_id, "B");
    assert_eq!(trees.get("dup").unwrap().team_id.as_deref(), Some("t"));
}

#[test]
fn resolved_trees_keep_slug_order() {
    let trees = resolve_trees(vec![("a", "1", None), ("b", "2", None)]);
    let slugs = vec!["b".to_string(), "x".to_string(), "a".to_string(), "y".to_string()];
    let (resolved, unresolvable) = resolve_note_trees(&slugs, &trees);
    assert_eq!(resolved.iter().map(|t| t.tree_id.as_str()).collect::<Vec<_>>(), vec!["2", "1"]);
    assert_eq!(unresolvable, vec!["x", "y"]);
}

#[test]
fn username_search_keeps_only_exact_match() {
    let page = vec!["sam".to_string(), "samantha".to_string()];
    assert_eq!(classify_username_search("sam", Some(200), Some(&page)), Ok(0));
    let empty: Vec<String> = vec![];
    assert_eq!(
        classify_username_search("ghost", Some(200), Some(&empty)),
        Err(SkipReason::UnresolvableUsername)
    );
}

#[test]
fn username_search_ambiguous_is_a_skip_not_a_guess() {
    let page = vec!["dup".to_string(), "DUP".to_string()];
    assert_eq!(classify_username_search("dup", Some(200), Some(&page)), Err(SkipReason::AmbiguousUsername));
}

#[test]
fn username_search_transport_failures_are_lookup_failed() {
    let page = vec!["sam".to_string()];
    assert_eq!(classify_username_search("sam", None, Some(&page)), Err(SkipReason::LookupFailed));
    assert_eq!(classify_username_search("sam", Some(500), Some(&page)), Err(SkipReason::LookupFailed));
    assert_eq!(classify_username_search("sam", Some(200), None), Err(SkipReason::LookupFailed));
}

#[test]
fn user_lookup_distinguishes_deleted_from_failure() {
    assert_eq!(classify_lookup(Some(200), Some("colin".to_string()), SkipReason::UnresolvableUsername), Ok("colin".to_string()));
    assert_eq!(classify_lookup::<String>(Some(404), None, SkipReason::UnresolvableUsername), Err(SkipReason::UnresolvableUsername));
    assert_eq!(classify_lookup::<String>(Some(200), None, SkipReason::UnresolvableUsername), Err(SkipReason::LookupFailed));
    assert_eq!(classify_lookup::<String>(Some(503), None, SkipReason::UnresolvableUsername), Err(SkipReason::LookupFailed));
}

#[test]
fn team_lookup_distinguishes_missing_from_unassigned() {
    assert_eq!(classify_team_lookup(Some(200), Some(Some(44u32))), Ok(44u32));
    assert_eq!(classify_team_lookup::<u32>(Some(200), Some(None)), Err(SkipReason::TeamNoOrganization));
    assert_eq!(classify_team_lookup::<u32>(Some(404), None), Err(SkipReason::TeamNotFound));
    assert_eq!(classify_team_lookup::<u32>(None, None), Err(SkipReason::LookupFailed));
}

#[test]
fn report_skip_appends_an_entry() {
    let mut report: ResolutionReport<u32> = ResolutionReport::new();
    report.skip("ghost", SkipReason::UnresolvableUsername);
    assert_eq!(report.skipped.len(), 1);
    assert_eq!(report.skipped[0].key, "ghost");
    assert_eq!(report.skipped[0].reason, SkipReason::UnresolvableUsername);
    assert!(report.resolved.is_empty());
}

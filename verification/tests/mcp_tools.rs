use clann_server::mcp::{
    allowed_hosts, collect_siblings, contact_action, contact_direction, hosts_with, merge_children,
    parent_edge_table, parse_proxy_id, search_persons, www_authenticate, ContactAction, ContactTally,
    Direction, FamilyRow, SearchRow, ToolError,
};

fn row(id: Option<&str>, tag: u32) -> FamilyRow<u32> {
    FamilyRow { person_proxy_id: id.map(str::to_string), row: tag }
}

#[test]
fn proxy_ids_with_and_without_prefix() {
    assert_eq!(parse_proxy_id("person_proxy:01abc"), Ok("01abc"));
    assert_eq!(parse_proxy_id("01abc"), Ok("01abc"));
    assert_eq!(parse_proxy_id("person_proxy:"), Err(ToolError::EmptyProxyId));
    assert_eq!(parse_proxy_id(""), Err(ToolError::EmptyProxyId));
}

#[test]
fn children_from_both_parents_are_merged_once() {
    let fathers = vec![row(Some("a"), 1), row(Some("b"), 2), row(None, 3)];
    let mothers = vec![row(Some("b"), 4), row(Some("c"), 5), row(Some("c"), 6), row(None, 7)];
    let merged = merge_children(fathers, mothers);
    let tags: Vec<u32> = merged.iter().map(|r| r.row).collect();
    // The mother-side "b" is already known; both "c" rows pass (only
    // father-side ids are checked); the id-less row's key "" is not known.
    assert_eq!(tags, vec![1, 2, 3, 5, 6, 7]);
}

#[test]
fn siblings_are_deduplicated_and_need_an_id() {
    let rows = vec![row(Some("x"), 1), row(None, 2), row(Some("y"), 3), row(Some("x"), 4), row(Some(""), 5)];
    let sibs = collect_siblings(rows);
    let tags: Vec<u32> = sibs.iter().map(|r| r.row).collect();
    assert_eq!(tags, vec![1, 3]);
}

#[test]
fn parent_edge_follows_the_father_list() {
    let fathers = vec![row(Some("person_proxy:f"), 0)];
    assert_eq!(parent_edge_table("person_proxy:f", &fathers), "has_father");
    assert_eq!(parent_edge_table("person_proxy:m", &fathers), "has_mother");
}

#[test]
fn contact_requests_skip_self_unknown_and_pending() {
    let mut tally = ContactTally::new();
    assert_eq!(contact_action("alice", None), ContactAction::Skip);
    assert_eq!(contact_action("alice", Some("alice")), ContactAction::Skip);
    assert_eq!(contact_action("alice", Some("bob")), ContactAction::CheckPending);
    assert!(!tally.record(ContactAction::Skip, false));
    assert!(!tally.record(ContactAction::CheckPending, true));
    assert!(tally.record(ContactAction::CheckPending, false));
    assert_eq!(tally.sent, 1);
    assert_eq!(tally.skipped, 2);
}

#[test]
fn contact_direction_hides_identity() {
    assert_eq!(contact_direction(Some("alice"), "alice"), Direction::Sent);
    assert_eq!(contact_direction(Some("bob"), "alice"), Direction::Received);
    assert_eq!(contact_direction(None, "alice"), Direction::Received);
}

fn srow(first: Option<&str>, family: Option<&str>, tag: u32) -> SearchRow<u32> {
    SearchRow { first_name: first.map(str::to_string), family_name: family.map(str::to_string), row: tag }
}

#[test]
fn person_search_is_case_insensitive_and_capped() {
    let rows = vec![
        srow(Some("Mary"), Some("Kelly"), 1),
        srow(Some("John"), Some("Smith"), 2),
        srow(Some("MARY ann"), None, 3),
        srow(None, Some("Mc Kelly"), 4),
    ];
    let r = search_persons(rows, "mary");
    assert_eq!(r.iter().map(|x| x.row).collect::<Vec<_>>(), vec![1, 3]);
    let rows2 = vec![srow(Some("Mary"), Some("Kelly"), 1), srow(Some("John"), Some("Smith"), 2)];
    let r2 = search_persons(rows2, "y k");
    assert_eq!(r2.iter().map(|x| x.row).collect::<Vec<_>>(), vec![1]);
    let many: Vec<SearchRow<u32>> = (0..30).map(|i| srow(Some("Ann"), None, i)).collect();
    let r3 = search_persons(many, "ann");
    assert_eq!(r3.len(), 20);
    assert_eq!(r3[19].row, 19);
}

#[test]
fn tool_endpoint_challenge() {
    assert_eq!(
        www_authenticate("https://clann.example.com", false),
        "Bearer resource_metadata=\"https://clann.example.com/.well-known/oauth-protected-resource\", scope=\"mcp:tools\""
    );
    assert_eq!(
        www_authenticate("https://clann.example.com", true),
        "Bearer resource_metadata=\"https://clann.example.com/.well-known/oauth-protected-resource\", scope=\"mcp:tools\", error=\"invalid_token\""
    );
}

#[test]
fn allowed_hosts_include_canonical_host() {
    assert_eq!(allowed_hosts("https://clann.example.com:8443/mcp"), vec!["localhost", "127.0.0.1", "::1", "clann.example.com"]);
    assert_eq!(allowed_hosts("not a url"), vec!["localhost", "127.0.0.1", "::1", ""]);
    assert_eq!(hosts_with(Some("h".to_string())), vec!["localhost", "127.0.0.1", "::1", "h"]);
    assert_eq!(hosts_with(None), vec!["localhost", "127.0.0.1", "::1", ""]);
}

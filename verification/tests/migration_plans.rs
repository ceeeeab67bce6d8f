use clann_server::reverse_drain::unlisted_forward_notes;
use clann_server::access::check_person_trees;
use clann_server::person::{proxy_from_request, CreatePerson, Sex};
use clann_server::access::{check_tree_exists, mark_primary, AccessError, FamilyTree};
use clann_server::duplicates::{duplicates_document, DuplicateMatch};
use clann_server::auth::{auth_step, invalid_token_message, AuthStep};
use clann_server::backfill::{resolve_trees, ResolutionReport, SkipReason};
use clann_server::backfill_plan::{note_author, parity_mismatches, plan_backfill, reply_author, NotePlanRow};
use clann_server::backfill_visibility::{AmbiguityReason, Decision, SkipReason as VisibilitySkip, Visibility};
use clann_server::config::secret_setting;
use clann_server::errors::AppError;
use clann_server::json::Json;
use clann_server::media::MediaError;
use clann_server::merge::MergeError;
use clann_server::proxy_migration::{
    life_event_target, migration_ok, proxies_to_create, proxy_for, shared_trees, via_parent_proxy, ProxyRow,
};
use clann_server::refusals::{media_error, member_limit_error, merge_error, note_error, tree_limit_error};
use clann_server::notes::NoteError;
use clann_server::reverse_drain::{
    author_or_placeholder, legacy_folder_id, note_trees, reconcile_note, replies_to_create, AttachmentRef, Reconcile,
};
use clann_server::text::trim;

fn note(id: &str, trees: &[&str], folder: Option<&str>, shared: bool) -> NotePlanRow {
    NotePlanRow {
        id: id.to_string(),
        trees: trees.iter().map(|t| t.to_string()).collect(),
        folder_id: folder.map(|f| f.to_string()),
        is_shared: shared,
    }
}

fn orgs(teams: &[&str]) -> ResolutionReport<u128> {
    let mut r = ResolutionReport::new();
    for (i, t) in teams.iter().enumerate() {
        r.file(t, Ok(i as u128 + 1));
    }
    r
}

#[test]
fn backfill_plan_decides_reports_and_derives_folders() {
    let trees = resolve_trees(vec![
        ("smith", "t1", Some("team-b")),
        ("jones", "t2", Some("team-a")),
        ("solo", "t3", None),
        ("orphan", "t4", Some("team-x")),
    ]);
    let teams = orgs(&["team-a", "team-b"]);
    let notes = vec![
        note("n1", &["smith"], Some("f1"), true),
        note("n2", &["smith", "jones"], Some("f1"), true),
        note("n3", &[], None, false),
        note("n4", &["nowhere"], None, false),
        note("n5", &["solo", "orphan"], None, true),
        note("n6", &["jones"], Some("f0"), false),
        note("n7", &["smith"], Some("f1"), false),
    ];
    let plan = plan_backfill(&notes, &trees, &teams.resolved);
    assert_eq!(plan.decisions.len(), 7);
    match &plan.decisions[0] {
        Decision::Migrate(t) => {
            assert_eq!(t.team_id, "team-b");
            assert_eq!(t.visibility, Visibility::Team);
        }
        _ => panic!(),
    }
    match &plan.decisions[1] {
        Decision::MigrateAmbiguous(t, AmbiguityReason::MultiTeam) => {
            assert_eq!(t.team_id, "team-a");
            assert_eq!(t.visibility, Visibility::Private);
        }
        _ => panic!(),
    }
    assert_eq!(plan.decisions[2], Decision::Skip(VisibilitySkip::NoTrees));
    assert_eq!(plan.decisions[3], Decision::Skip(VisibilitySkip::AllTreeSlugsUnresolvable));
    assert_eq!(plan.decisions[4], Decision::Skip(VisibilitySkip::NoTeamOnAnyResolvedTree));
    let skips: Vec<(&str, &str)> =
        plan.notes_skipped.iter().map(|s| (s.note_id.as_str(), s.reason.as_str())).collect();
    assert_eq!(
        skips,
        vec![("n3", "no_trees"), ("n4", "all_tree_slugs_unresolvable"), ("n5", "no_team_on_any_resolved_tree")]
    );
    assert_eq!(plan.notes_ambiguous.len(), 1);
    assert_eq!(plan.notes_ambiguous[0].note_id, "n2");
    assert_eq!(plan.notes_ambiguous[0].chosen_team_id, "team-a");
    assert_eq!(plan.notes_ambiguous[0].all_candidate_teams, vec!["team-a".to_string(), "team-b".to_string()]);
    assert_eq!(plan.notes_to_migrate, 4);
    assert_eq!(
        plan.folders_needed,
        vec![
            ("f0".to_string(), "team-a".to_string()),
            ("f1".to_string(), "team-a".to_string()),
            ("f1".to_string(), "team-b".to_string()),
        ]
    );
}

#[test]
fn note_and_reply_authors() {
    let mut users: ResolutionReport<u128> = ResolutionReport::new();
    users.file("sam", Ok(11));
    match note_author("n1", None, &users.resolved) {
        Err(s) => {
            assert_eq!(s.note_id, "n1");
            assert_eq!(s.reason, "no_created_by");
            assert_eq!(s.detail, None);
        }
        Ok(_) => panic!(),
    }
    match note_author("n2", Some("ghost"), &users.resolved) {
        Err(s) => {
            assert_eq!(s.reason, "unresolvable_author_username");
            assert_eq!(s.detail, Some("ghost".to_string()));
        }
        Ok(_) => panic!(),
    }
    assert!(matches!(note_author("n3", Some("sam"), &users.resolved), Ok(11)));
    assert_eq!(reply_author(Some("sam"), &users.resolved), Some(11));
    assert_eq!(reply_author(Some("ghost"), &users.resolved), None);
    assert_eq!(reply_author(None, &users.resolved), None);
}

#[test]
fn body_parity_checks() {
    assert_eq!(parity_mismatches("see [x](http://a)", "see [x](http://a)"), (false, false));
    assert_eq!(parity_mismatches("see [x](http://a)", "see [x](http://a) "), (true, false));
    assert_eq!(parity_mismatches("see [x](http://a)", "see x"), (true, true));
}

fn proxy(p: &str, person: &str, tree: &str) -> ProxyRow {
    ProxyRow { proxy_key: p.to_string(), person_key: person.to_string(), tree: tree.to_string() }
}

#[test]
fn proxy_migration_decisions() {
    let existing = vec![proxy("x1", "p1", "smith")];
    let pairs = vec![
        ("p1".to_string(), "smith".to_string()),
        ("p1".to_string(), "jones".to_string()),
        ("p2".to_string(), "jones".to_string()),
        ("p1".to_string(), "jones".to_string()),
    ];
    assert_eq!(
        proxies_to_create(&pairs, &existing),
        vec![("p1".to_string(), "jones".to_string()), ("p2".to_string(), "jones".to_string())]
    );

    let proxies = vec![
        proxy("a1", "p1", "smith"),
        proxy("a2", "p1", "jones"),
        proxy("b1", "p2", "jones"),
        proxy("a3", "p1", "jones"),
        proxy("c1", "p3", "murphy"),
    ];
    assert_eq!(proxy_for(&proxies, "p1", "jones"), Some("a3".to_string()));
    assert_eq!(proxy_for(&proxies, "p2", "smith"), None);
    assert_eq!(shared_trees(&proxies, "p1", "p2"), vec!["jones".to_string()]);
    assert_eq!(shared_trees(&proxies, "p1", "p3"), Vec::<String>::new());
    assert_eq!(via_parent_proxy(Some("person:p2"), "jones", &proxies), Some("person_proxy:b1".to_string()));
    assert_eq!(via_parent_proxy(Some("p2"), "jones", &proxies), Some("person_proxy:b1".to_string()));
    assert_eq!(via_parent_proxy(Some("person:p2"), "smith", &proxies), None);
    assert_eq!(via_parent_proxy(None, "jones", &proxies), None);
    assert_eq!(life_event_target("p1", &proxies), Some(("jones".to_string(), "a3".to_string())));
    assert_eq!(life_event_target("p3", &proxies), Some(("murphy".to_string(), "c1".to_string())));
    assert_eq!(life_event_target("p9", &proxies), None);
    assert!(migration_ok([3, 2, 4, 1], [3, 1, 4, 0]));
    assert!(!migration_ok([3, 2, 3, 1], [3, 1, 4, 0]));
}

#[test]
fn reverse_drain_decisions() {
    assert_eq!(legacy_folder_id("research_folder:abc|team-1"), Some("abc".to_string()));
    assert_eq!(legacy_folder_id("research_folder:abc"), Some("abc".to_string()));
    assert_eq!(legacy_folder_id("research_folder:|t"), Some(String::new()));
    assert_eq!(legacy_folder_id("note:abc|t"), None);

    let mut forward: ResolutionReport<String> = ResolutionReport::new();
    forward.file("tack-1", Ok("research_note:old1".to_string()));
    let mut drained: ResolutionReport<String> = ResolutionReport::new();
    drained.file("tack-2", Ok("research_note:new2".to_string()));
    assert_eq!(
        reconcile_note("tack-1", &forward.resolved, &drained.resolved),
        Reconcile::Update("research_note:old1".to_string())
    );
    assert_eq!(reconcile_note("tack-2", &forward.resolved, &drained.resolved), Reconcile::AlreadyDrained);
    assert_eq!(reconcile_note("tack-3", &forward.resolved, &drained.resolved), Reconcile::Create);

    let mut names: ResolutionReport<String> = ResolutionReport::new();
    names.file("t1", Ok("smith".to_string()));
    let att = |s: &str, t: &str, id: &str| AttachmentRef {
        owning_service: s.to_string(),
        entity_type: t.to_string(),
        entity_id: id.to_string(),
    };
    let atts = vec![att("clann", "tree", "t1"), att("clann", "person", "t1"), att("other", "tree", "t1"), att("clann", "tree", "t9")];
    let (trees, missing) = note_trees("tack-1", &atts, &names.resolved);
    assert_eq!(trees, vec!["smith".to_string()]);
    assert_eq!(missing, vec!["tack-1:t9".to_string()]);

    assert_eq!(replies_to_create(vec![1, 2, 3], 1), vec![2, 3]);
    assert_eq!(replies_to_create(vec![1, 2, 3], 5), Vec::<i32>::new());
    assert_eq!(replies_to_create(vec![1, 2, 3], 0), vec![1, 2, 3]);
    assert_eq!(author_or_placeholder(Some("sam".to_string())), "sam");
    assert_eq!(author_or_placeholder(None), "clann-migration-rollback");
}

fn forbidden(e: AppError) -> String {
    match e {
        AppError::Forbidden(m) => m,
        _ => panic!("not forbidden"),
    }
}

fn bad_request(e: AppError) -> String {
    match e {
        AppError::BadRequest(m) => m,
        _ => panic!("not a bad request"),
    }
}

#[test]
fn refusal_messages() {
    assert_eq!(
        bad_request(media_error(MediaError::UnsupportedImageType("image/gif".to_string()))),
        "Unsupported image type `image/gif`. Only JPG and PNG are accepted for profile pictures."
    );
    assert_eq!(
        bad_request(media_error(MediaError::TooLarge(2097153))),
        "Image exceeds the 2 MB size limit (2097153 bytes received so far)"
    );
    assert_eq!(bad_request(media_error(MediaError::Empty)), "Image field is empty");
    assert_eq!(bad_request(media_error(MediaError::MissingContentType)), "Missing content-type on image field");
    assert_eq!(
        bad_request(media_error(MediaError::UnsupportedMediaType("x/y".to_string()))),
        "Unsupported media type `x/y`."
    );
    assert_eq!(
        forbidden(media_error(MediaError::PlanDisallows("video/mp4".to_string()))),
        "Your plan does not allow `video/mp4` uploads. Upgrade to Professional for video, audio, and document support."
    );
    assert_eq!(
        forbidden(media_error(MediaError::StorageLimit(500))),
        "Storage limit of 500 MB reached for your plan. Upgrade for more storage."
    );
    assert_eq!(forbidden(tree_limit_error(2)), "Tree limit of 2 reached for your plan. Upgrade to create more trees.");
    assert_eq!(
        forbidden(member_limit_error(100)),
        "Member limit of 100 reached for your plan. Upgrade to add more people."
    );
    match merge_error(MergeError::Conflict(vec!["first_name".to_string(), "sex".to_string()])) {
        AppError::Conflict(Json::Object(entries)) => {
            assert_eq!(entries.len(), 2);
            assert_eq!(entries[0].0, "error");
            assert!(matches!(&entries[0].1, Json::Str(m) if m == "Canonical conflict \u{2014} supply resolution to proceed"));
            assert_eq!(entries[1].0, "conflicts");
            match &entries[1].1 {
                Json::Array(items) => {
                    assert_eq!(items.len(), 2);
                    assert!(matches!(&items[0], Json::Str(f) if f == "first_name"));
                    assert!(matches!(&items[1], Json::Str(f) if f == "sex"));
                }
                _ => panic!(),
            }
        }
        _ => panic!(),
    }
    assert!(matches!(note_error(NoteError::Internal("x".to_string())), AppError::Internal(m) if m == "x"));
}

#[test]
fn middleware_and_settings_decisions() {
    match auth_step(false, None) {
        AuthStep::Admit(a) => assert_eq!(a.tier, "enterprise"),
        _ => panic!(),
    }
    match auth_step(true, Some("Bearer abc")) {
        AuthStep::Validate(t) => assert_eq!(t, "abc"),
        _ => panic!(),
    }
    match auth_step(true, Some("Basic abc")) {
        AuthStep::Refuse(m) => assert_eq!(m, "Missing Authorization header"),
        _ => panic!(),
    }
    assert!(matches!(auth_step(true, None), AuthStep::Refuse(_)));
    assert_eq!(invalid_token_message("expired"), "Invalid token: expired");

    assert_eq!(secret_setting(Some("  s3cret\n".to_string()), Some("plain".to_string())), Some("s3cret".to_string()));
    assert_eq!(secret_setting(None, Some("plain".to_string())), Some("plain".to_string()));
    assert_eq!(secret_setting(None, None), None);
    assert_eq!(trim("\t a b \u{3000}"), "a b");
    assert_eq!(trim("   "), "");
}

#[test]
fn filing_outcomes_puts_each_key_in_one_place() {
    let mut r: ResolutionReport<u32> = ResolutionReport::new();
    r.file("a", Ok(1));
    r.file("b", Err(SkipReason::AmbiguousUsername));
    assert_eq!(r.resolved.len(), 1);
    assert_eq!(r.skipped.len(), 1);
    assert_eq!(r.skipped[0].key, "b");
    assert_eq!(r.skipped[0].reason, SkipReason::AmbiguousUsername);
}

#[test]
fn primary_tree_and_unknown_tree() {
    let tree = |n: &str, o: &str, p: bool| FamilyTree {
        id: format!("family_tree:{n}"),
        name: n.to_string(),
        display_name: n.to_string(),
        owner: o.to_string(),
        is_primary: p,
        team_id: None,
    };
    let trees = vec![tree("a", "colin", true), tree("b", "colin", false), tree("c", "sam", true)];
    let after = mark_primary(&trees, "colin", "b");
    let flags: Vec<bool> = after.iter().map(|t| t.is_primary).collect();
    assert_eq!(flags, vec![false, true, true]);
    assert_eq!(after[0].name, "a");
    assert!(check_tree_exists("smith", true).is_ok());
    match check_tree_exists("smith", false) {
        Err(AccessError::BadRequest(m)) => assert_eq!(m, "Family tree 'smith' not found"),
        _ => panic!(),
    }
}

#[test]
fn duplicates_tool_document_has_no_owner() {
    let m = DuplicateMatch {
        proxy_id: "person_proxy:x".to_string(),
        canonical_id: "person:c".to_string(),
        tree: "smith".to_string(),
        owner: "someone".to_string(),
        family_name: "Manning".to_string(),
        first_name: "John".to_string(),
        sex: Some("Male".to_string()),
        date_of_birth: None,
        place_of_birth: Some("Dublin".to_string()),
        score: 8,
        confidence: "strong".to_string(),
        is_own: false,
    };
    match duplicates_document(&vec![m]) {
        Json::Object(e) => {
            assert_eq!(e[0].0, "count");
            assert!(matches!(&e[0].1, Json::Number(n) if n == "1"));
            match &e[1].1 {
                Json::Array(items) => match &items[0] {
                    Json::Object(f) => {
                        let keys: Vec<&str> = f.iter().map(|(k, _)| k.as_str()).collect();
                        assert_eq!(
                            keys,
                            vec!["proxy_id", "family_name", "first_name", "sex", "date_of_birth", "place_of_birth", "score", "confidence", "is_own"]
                        );
                        assert!(matches!(&f[4].1, Json::Null));
                        assert!(matches!(&f[6].1, Json::Number(n) if n == "8"));
                    }
                    _ => panic!(),
                },
                _ => panic!(),
            }
        }
        _ => panic!(),
    }
}

#[test]
fn new_person_needs_a_tree_and_gets_a_proxy_per_tree() {
    let req = CreatePerson {
        family_name: "Smith".to_string(),
        first_name: "John".to_string(),
        sex: Sex::Male,
        middle_name: None,
        date_of_birth: None,
        place_of_birth: None,
        date_of_death: None,
        place_of_death: None,
        birth_cert_authority: None,
        birth_cert_number: None,
        trees: vec!["smith".to_string(), "jones".to_string()],
        preferred_family_name: None,
        preferred_first_name: Some("Jack".to_string()),
        preferred_middle_name: None,
        nickname: None,
        username: None,
        email: None,
        biography: None,
        is_private: None,
        created_by: Some("colin".to_string()),
    };
    assert!(check_person_trees(&req.trees).is_ok());
    match check_person_trees(&Vec::new()) {
        Err(AccessError::BadRequest(m)) => assert_eq!(m, "At least one tree is required"),
        _ => panic!(),
    }
    let p = proxy_from_request("person_proxy:1".to_string(), "person:1".to_string(), req.trees[1].clone(), &req);
    assert_eq!(p.tree, "jones");
    assert_eq!(p.preferred_first_name, Some("Jack".to_string()));
    assert!(!p.is_private);
    assert_eq!(p.created_by, Some("colin".to_string()));
}

#[test]
fn forward_notes_missing_from_the_service_listing() {
    let forward = vec![
        ("t1".to_string(), "research_note:a".to_string()),
        ("t2".to_string(), "research_note:b".to_string()),
        ("t3".to_string(), "research_note:c".to_string()),
    ];
    let seen = vec!["t2".to_string()];
    assert_eq!(
        unlisted_forward_notes(&forward, &seen),
        vec![("t1".to_string(), "research_note:a".to_string()), ("t3".to_string(), "research_note:c".to_string())]
    );
    assert_eq!(unlisted_forward_notes(&forward, &vec!["t1".to_string(), "t2".to_string(), "t3".to_string()]), Vec::new());
}

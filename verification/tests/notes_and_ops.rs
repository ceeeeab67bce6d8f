use clann_server::access::{AccessError, FamilyTree};
use clann_server::auth::ClannAuth;
use clann_server::backfill_visibility::SkipReason;
use clann_server::collab::{
    check_not_editor, my_tree_access, require_team_owner, session_listed, upsert_ai_settings, ChatSession,
    SessionFilter, UpsertUserAiSettings, UserAiSettings,
};
use clann_server::config::{parse_bool, parse_u16, Config, ConfigSources};
use clann_server::errors::{decimal_string, signed_decimal_string, tack_upstream_error, AppError, ErrorBody};
use clann_server::json::Json;
use clann_server::migration::{dam_url_count, sha256_hex, to_hex, visibility_skip_str, visibility_skip_str_username_unresolved};
use clann_server::notes::{
    ClannNote, TackNote,
    check_body, newest_first, next_note_meta, note_filing, resolve_team_for_tree, tack_folder_name, team_for_note,
    Filing, NoteError, NoteMeta, Visibility,
};

#[test]
fn visibility_and_sharing_flag() {
    assert_eq!(Visibility::from_is_shared(true), Visibility::Team);
    assert_eq!(Visibility::from_is_shared(false), Visibility::Private);
    assert!(Visibility::Team.is_shared());
    assert!(Visibility::Organization.is_shared());
    assert!(!Visibility::Private.is_shared());
    for b in [true, false] {
        assert_eq!(Visibility::from_is_shared(b).is_shared(), b);
    }
}

#[test]
fn team_of_a_note() {
    let uuid = "a1a2a3a4-b1b2-c1c2-d1d2-d3d4d5d6d7d8";
    assert_eq!(resolve_team_for_tree(Some(uuid), Visibility::Team), Ok(Some(0xa1a2a3a4b1b2c1c2d1d2d3d4d5d6d7d8)));
    assert_eq!(
        resolve_team_for_tree(Some("not-a-uuid"), Visibility::Private),
        Err(NoteError::Internal("family_tree.team_id is not a valid UUID: not-a-uuid".to_string()))
    );
    assert_eq!(resolve_team_for_tree(None, Visibility::Private), Ok(None));
    assert!(matches!(resolve_team_for_tree(None, Visibility::Team), Err(NoteError::BadRequest(_))));
    assert_eq!(team_for_note(Some("x"), Some(7), Visibility::Organization), Ok(Some(7)));
}

#[test]
fn filing_and_meta() {
    assert_eq!(note_filing(None, None, true), Ok(Filing::Unfiled));
    assert_eq!(note_filing(Some("f1"), Some(9), true), Ok(Filing::Folder("f1".to_string(), 9)));
    assert_eq!(
        note_filing(Some("f1"), None, true),
        Err(NoteError::BadRequest("A personal note (no team on this tree) can't be filed into a folder.".to_string()))
    );
    assert_eq!(
        note_filing(Some("f1"), None, false),
        Err(NoteError::BadRequest("This note has no team, so it can't be filed into a folder.".to_string()))
    );
    assert_eq!(check_body("  \n"), Err(NoteError::BadRequest("body must not be empty".to_string())));
    assert_eq!(check_body("x"), Ok(()));
    let existing = Some(NoteMeta { description: Some("d".to_string()), legacy_folder_id: Some("f".to_string()) });
    assert!(next_note_meta(None, None, &existing).is_none());
    let m = next_note_meta(Some(None), None, &existing).unwrap();
    assert_eq!(m.description, None);
    assert_eq!(m.legacy_folder_id.as_deref(), Some("f"));
    let m2 = next_note_meta(None, Some(Some("g".to_string())), &None).unwrap();
    assert_eq!(m2.description, None);
    assert_eq!(m2.legacy_folder_id.as_deref(), Some("g"));
    assert_eq!(tack_folder_name(None), "Unfiled");
    assert_eq!(tack_folder_name(Some("Wills".to_string())), "Wills");
    assert_eq!(newest_first(vec![1, 2, 3]), vec![3, 2, 1]);
}

#[test]
fn migration_parity_checks() {
    assert_eq!(dam_url_count("![a](http://x) and [b](https://y) ](htt"), 2);
    assert_eq!(dam_url_count(""), 0);
    assert_eq!(dam_url_count("](http](http"), 2);
    assert_eq!(sha256_hex(""), "e3b0c44298fc1c149afbf4c8996fb92427ae41e4649b934ca495991b7852b855");
    assert_eq!(sha256_hex("abc"), "ba7816bf8f01cfea414140de5dae2223b00361a396177a9cb410ff61f20015ad");
    assert_eq!(to_hex(&vec![0, 15, 16, 255]), "000f10ff");
    assert_eq!(visibility_skip_str(SkipReason::NoTrees), "no_trees");
    assert_eq!(visibility_skip_str(SkipReason::AllTreeSlugsUnresolvable), "all_tree_slugs_unresolvable");
    assert_eq!(visibility_skip_str(SkipReason::NoTeamOnAnyResolvedTree), "no_team_on_any_resolved_tree");
    assert_eq!(visibility_skip_str_username_unresolved(), "unresolvable_author_username");
}

fn msg(e: AppError) -> (u16, String) {
    match e.into_response_parts() {
        (s, ErrorBody::Message(m)) => (s, m.error),
        (s, ErrorBody::Document(_)) => (s, "<document>".to_string()),
    }
}

#[test]
fn error_responses() {
    assert_eq!(msg(AppError::NotFound), (404, "Not found".to_string()));
    assert_eq!(msg(AppError::Forbidden("no".to_string())), (403, "no".to_string()));
    assert_eq!(msg(AppError::InvalidRelType("bad".to_string())), (400, "bad".to_string()));
    assert_eq!(msg(AppError::TackUpstream(401, "x".to_string())), (502, "notes service rejected the request".to_string()));
    assert_eq!(msg(AppError::TackUpstream(403, "acl".to_string())), (403, "acl".to_string()));
    assert_eq!(msg(AppError::TackUpstream(42, "odd".to_string())), (500, "odd".to_string()));
    assert_eq!(msg(AppError::TackUnreachable("down".to_string())), (502, "down".to_string()));
    assert_eq!(msg(AppError::Conflict(Json::Null)), (409, "<document>".to_string()));
    let body = Json::Object(vec![("error".to_string(), Json::Str("team has no organization".to_string()))]);
    assert_eq!(msg(tack_upstream_error(400, Some(&body))), (400, "team has no organization".to_string()));
    assert_eq!(msg(tack_upstream_error(404, None)), (404, "tack-server request failed".to_string()));
    assert_eq!(decimal_string(0), "0");
    assert_eq!(decimal_string(5120), "5120");
    assert_eq!(signed_decimal_string(-42), "-42");
}

fn sources() -> ConfigSources {
    ConfigSources {
        db_url: None,
        db_namespace: None,
        db_database: Some("prod".to_string()),
        db_username: None,
        db_password: None,
        port: Some("8080".to_string()),
        upload_dir: None,
        db_path: None,
        enable_docs: Some("false".to_string()),
        oauth2_jwks_url: None,
        oauth2_issuer: None,
        mcp_canonical_uri: None,
        tack_api_url: None,
    }
}

#[test]
fn config_defaults_and_parsing() {
    let c = Config::from_sources(sources());
    assert_eq!(c.db_url, "ws://localhost:8000");
    assert_eq!(c.db_database, "prod");
    assert_eq!(c.server_port, 8080);
    assert!(!c.enable_docs);
    assert_eq!(c.tack_api_url, "http://localhost:8087");
    let mut s = sources();
    s.port = Some("70000".to_string());
    s.enable_docs = Some("yes".to_string());
    let c2 = Config::from_sources(s);
    assert_eq!(c2.server_port, 3000);
    assert!(c2.enable_docs);
    assert_eq!(parse_u16("+65535"), Some(65535));
    assert_eq!(parse_u16("007"), Some(7));
    assert_eq!(parse_u16("65536"), None);
    assert_eq!(parse_u16(""), None);
    assert_eq!(parse_u16("+"), None);
    assert_eq!(parse_u16("-1"), None);
    assert_eq!(parse_u16(" 1"), None);
    assert_eq!(parse_bool("true"), Some(true));
    assert_eq!(parse_bool("True"), None);
}

fn tree(team: Option<&str>) -> FamilyTree {
    FamilyTree {
        id: "family_tree:1".to_string(),
        name: "t".to_string(),
        display_name: "T".to_string(),
        owner: "bob".to_string(),
        is_primary: true,
        team_id: team.map(str::to_string),
    }
}

#[test]
fn editors_and_roles() {
    let a = ClannAuth::from_claims(
        "uid".to_string(),
        "alice".to_string(),
        None,
        vec![("team-1".to_string(), "owner".to_string(), None), ("team-2".to_string(), "member".to_string(), None)],
    );
    assert_eq!(require_team_owner(None, &a), Err(AccessError::NotFound));
    assert_eq!(
        require_team_owner(Some(&tree(None)), &a),
        Err(AccessError::Forbidden("This tree is not linked to a team".to_string()))
    );
    assert_eq!(require_team_owner(Some(&tree(Some("team-1"))), &a), Ok(()));
    assert_eq!(
        require_team_owner(Some(&tree(Some("team-2"))), &a),
        Err(AccessError::Forbidden("Only the team owner can manage tree editors".to_string()))
    );
    assert_eq!(check_not_editor(true), Err(AccessError::BadRequest("User is already an editor for this tree".to_string())));
    assert_eq!(my_tree_access(&tree(Some("team-1")), &a, false).role, "owner");
    assert_eq!(my_tree_access(&tree(Some("team-2")), &a, true).role, "editor");
    assert_eq!(my_tree_access(&tree(None), &a, false).role, "viewer");
    assert_eq!(my_tree_access(&tree(None), &ClannAuth::unauthenticated(), false).role, "owner");
}

#[test]
fn ai_settings_and_sessions() {
    let payload = || UpsertUserAiSettings {
        provider: "ollama".to_string(),
        model: "llama3".to_string(),
        ollama_url: Some("http://h".to_string()),
        encrypted_key: None,
        iv: None,
        auth_tag: None,
    };
    let created = upsert_ai_settings(None, "uid".to_string(), "user_ai_settings:new".to_string(), payload());
    assert_eq!(created.id, "user_ai_settings:new");
    assert_eq!(created.username, "uid");
    let existing = UserAiSettings {
        id: "user_ai_settings:old".to_string(),
        username: "uid".to_string(),
        provider: "openai".to_string(),
        model: "x".to_string(),
        ollama_url: None,
        encrypted_key: Some("k".to_string()),
        iv: Some("i".to_string()),
        auth_tag: Some("t".to_string()),
    };
    let updated = upsert_ai_settings(Some(existing), "uid".to_string(), "unused".to_string(), payload());
    assert_eq!(updated.id, "user_ai_settings:old");
    assert_eq!(updated.provider, "ollama");
    assert_eq!(updated.encrypted_key, None);
    let s = ChatSession {
        id: "chat_session:1".to_string(),
        title: "t".to_string(),
        created_by: "alice".to_string(),
        tree: Some("smith".to_string()),
        created_at: None,
        updated_at: None,
    };
    assert!(session_listed(&s, &SessionFilter { created_by: Some("alice".to_string()), tree: None }));
    assert!(session_listed(&s, &SessionFilter { created_by: Some("alice".to_string()), tree: Some("smith".to_string()) }));
    assert!(!session_listed(&s, &SessionFilter { created_by: Some("alice".to_string()), tree: Some("jones".to_string()) }));
    assert!(!session_listed(&s, &SessionFilter { created_by: None, tree: None }));
}

#[test]
fn note_with_its_sidecar() {
    let note = TackNote {
        id: 7,
        team_id: Some(9),
        parent_id: None,
        folder_id: Some(11),
        visibility: Visibility::Team,
        title: "Census".to_string(),
        body_markdown: "1901 return".to_string(),
        created_by: 3,
        created_at: "2024-01-01T00:00:00+00:00".to_string(),
        updated_at: "2024-01-02T00:00:00+00:00".to_string(),
        reply_count: 2,
    };
    let c = ClannNote::from_tack(note, Some("desc".to_string()), Some("f1".to_string()));
    assert_eq!(c.id, 7);
    assert_eq!(c.team_id, Some(9));
    assert_eq!(c.parent_id, None);
    assert_eq!(c.folder_id, Some("f1".to_string()));
    assert_eq!(c.visibility, Visibility::Team);
    assert_eq!(c.title, "Census");
    assert_eq!(c.body_markdown, "1901 return");
    assert_eq!(c.description, Some("desc".to_string()));
    assert_eq!(c.created_by, 3);
    assert_eq!(c.created_at, "2024-01-01T00:00:00+00:00");
    assert_eq!(c.updated_at, "2024-01-02T00:00:00+00:00");
    assert_eq!(c.reply_count, 2);
}

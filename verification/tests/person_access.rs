use clann_server::access::{
    acting_user, assemble_person_list, can_write_to_person, canonical_orphaned, check_can_leave_tree,
    check_ownership, check_same_tree, check_tree_name_free, effective_creator, is_admin,
    loser_canonical_deleted, proxy_write_access, redact_if_private, tree_limit_reached, tree_membership,
    tree_query, Access, AccessError, FamilyTree, PersonFilter, TreeFilter, TreeQuery,
};
use clann_server::auth::ClannAuth;
use clann_server::person::{
    apply_canonical_update, apply_proxy_update, build_proxy_response, member_limit_reached, Person,
    PersonProxy, PersonResponse, Sex, UpdateCanonicalPerson, UpdatePersonProxy,
};

fn person(id: &str, first: &str, created_by: Option<&str>) -> Person {
    Person {
        id: id.to_string(),
        family_name: "Murphy".to_string(),
        first_name: first.to_string(),
        middle_name: Some("Anne".to_string()),
        sex: Sex::Female,
        date_of_birth: Some("1900-01-01".to_string()),
        place_of_birth: Some("Cork".to_string()),
        date_of_death: None,
        place_of_death: None,
        birth_cert_authority: None,
        birth_cert_number: None,
        created_by: created_by.map(str::to_string),
        created_at: None,
    }
}

fn proxy(id: &str, person_id: &str, tree: &str, private: bool, created_by: Option<&str>) -> PersonProxy {
    PersonProxy {
        id: id.to_string(),
        person_id: person_id.to_string(),
        tree: tree.to_string(),
        preferred_family_name: None,
        preferred_first_name: Some("Mollie".to_string()),
        preferred_middle_name: None,
        nickname: None,
        username: None,
        email: None,
        verified: false,
        biography: None,
        image_path: None,
        life_image_path: None,
        image_bytes: None,
        life_image_bytes: None,
        is_private: private,
        created_by: created_by.map(str::to_string),
        created_at: None,
    }
}

fn tree(name: &str, owner: &str, team: Option<&str>) -> FamilyTree {
    FamilyTree {
        id: format!("family_tree:{name}"),
        name: name.to_string(),
        display_name: name.to_string(),
        owner: owner.to_string(),
        is_primary: false,
        team_id: team.map(str::to_string),
    }
}

fn alice() -> ClannAuth {
    ClannAuth::from_claims(
        "uid-alice".to_string(),
        "alice".to_string(),
        Some(("family".to_string(), "active".to_string())),
        vec![("team-1".to_string(), "owner".to_string(), None), ("team-2".to_string(), "member".to_string(), None)],
    )
}

#[test]
fn proxy_response_prefers_proxy_names() {
    let r = build_proxy_response(proxy("person_proxy:p", "person:c", "t", false, None), person("person:c", "Mary", None));
    assert_eq!(r.first_name, "Mollie");
    assert_eq!(r.family_name, "Murphy");
    assert_eq!(r.middle_name.as_deref(), Some("Anne"));
    assert_eq!(r.preferred_first_name.as_deref(), Some("Mollie"));
    assert_eq!(r.sex, Sex::Female);
    assert_eq!(r.place_of_birth.as_deref(), Some("Cork"));
    assert_eq!(r.canonical.first_name, "Mary");
}

#[test]
fn updates_merge_given_fields_only() {
    let mut p = proxy("person_proxy:p", "person:c", "t", false, Some("alice"));
    apply_proxy_update(
        &mut p,
        UpdatePersonProxy {
            preferred_family_name: None,
            preferred_first_name: None,
            preferred_middle_name: None,
            nickname: Some("Osh".to_string()),
            username: None,
            email: None,
            verified: Some(true),
            biography: None,
            is_private: None,
            created_by: None,
        },
    );
    assert_eq!(p.nickname.as_deref(), Some("Osh"));
    assert!(p.verified);
    assert_eq!(p.preferred_first_name.as_deref(), Some("Mollie"));
    assert_eq!(p.created_by.as_deref(), Some("alice"));

    let mut c = person("person:c", "Mary", None);
    apply_canonical_update(
        &mut c,
        UpdateCanonicalPerson {
            family_name: Some("O'Murphy".to_string()),
            first_name: None,
            middle_name: None,
            sex: Some(Sex::Male),
            date_of_birth: None,
            place_of_birth: None,
            date_of_death: Some("1980".to_string()),
            place_of_death: None,
            birth_cert_authority: None,
            birth_cert_number: None,
        },
    );
    assert_eq!(c.family_name, "O'Murphy");
    assert_eq!(c.first_name, "Mary");
    assert_eq!(c.sex, Sex::Male);
    assert_eq!(c.date_of_death.as_deref(), Some("1980"));
    assert_eq!(c.place_of_birth.as_deref(), Some("Cork"));
}

#[test]
fn membership_of_owner_team_and_editor() {
    let a = alice();
    assert_eq!(tree_membership(&a, Some(&tree("t", "alice", None))), Access::Allow);
    assert_eq!(tree_membership(&a, Some(&tree("t", "bob", Some("team-2")))), Access::Allow);
    assert_eq!(tree_membership(&a, Some(&tree("t", "bob", Some("team-9")))), Access::AskEditor);
    assert_eq!(tree_membership(&a, None), Access::Deny);
    assert_eq!(tree_membership(&ClannAuth::unauthenticated(), None), Access::Allow);
}

#[test]
fn write_access_to_proxies() {
    let a = alice();
    assert_eq!(proxy_write_access(&a, "theboss", Some("alice"), None), Access::Allow);
    assert_eq!(proxy_write_access(&a, "alice", Some("bob"), None), Access::Allow);
    assert_eq!(proxy_write_access(&a, "theboss", Some("bob"), Some(&tree("t", "bob", Some("team-1")))), Access::Allow);
    assert_eq!(proxy_write_access(&a, "theboss", Some("bob"), Some(&tree("t", "bob", Some("team-2")))), Access::AskEditor);
    assert_eq!(proxy_write_access(&a, "theboss", None, None), Access::AskEditor);
    assert!(is_admin("theboss", "theboss"));
    assert!(!is_admin("alice", "theboss"));
}

#[test]
fn write_access_to_persons() {
    let a = alice();
    assert_eq!(can_write_to_person(&a, "theboss", &person("person:c", "M", Some("alice"))), Ok(()));
    assert_eq!(
        can_write_to_person(&a, "theboss", &person("person:c", "M", Some("bob"))),
        Err(AccessError::Forbidden("You do not have write access to this person".to_string()))
    );
    assert_eq!(can_write_to_person(&ClannAuth::unauthenticated(), "x", &person("person:c", "M", None)), Ok(()));
}

#[test]
fn ownership_filter() {
    let p = person("person:c", "M", Some("alice"));
    assert_eq!(check_ownership(&p, &None), Ok(()));
    assert_eq!(check_ownership(&p, &Some("alice".to_string())), Ok(()));
    assert_eq!(check_ownership(&p, &Some("Alice".to_string())), Err(AccessError::NotFound));
}

#[test]
fn private_proxies_for_outsiders() {
    let c = person("person:c", "Mary", None);
    let full = redact_if_private(proxy("person_proxy:p", "person:c", "t", true, None), c.copy(), true, 0).unwrap();
    assert!(matches!(full, PersonResponse::Full(_)));
    let public = redact_if_private(proxy("person_proxy:p", "person:c", "t", false, None), c.copy(), false, 0).unwrap();
    assert!(matches!(public, PersonResponse::Full(_)));
    let hidden = redact_if_private(proxy("person_proxy:p", "person:c", "t", true, None), c.copy(), false, 1);
    assert!(matches!(hidden, Err(AccessError::NotFound)));
    match redact_if_private(proxy("person_proxy:p", "person:c", "t", true, None), c.copy(), false, 2) {
        Ok(PersonResponse::Stub(s)) => {
            assert_eq!(s.id, "person_proxy:p");
            assert_eq!(s.sex, Sex::Female);
            assert!(s.is_private);
        }
        _ => panic!("expected a stub"),
    }
}

#[test]
fn person_list_drops_orphans_and_stubs_private() {
    let proxies = vec![
        proxy("person_proxy:1", "person:a", "t", false, None),
        proxy("person_proxy:2", "person:missing", "t", false, None),
        proxy("person_proxy:3", "person:b", "t", true, None),
    ];
    let canonicals = vec![person("person:a", "Ann", None), person("person:b", "Bea", None)];
    let out = assemble_person_list(proxies, &canonicals, false);
    assert_eq!(out.len(), 2);
    assert!(matches!(&out[0], PersonResponse::Full(r) if r.id == "person_proxy:1"));
    assert!(matches!(&out[1], PersonResponse::Stub(s) if s.id == "person_proxy:3"));
}

#[test]
fn creator_filter_and_team_bypass() {
    let a = alice();
    let f = PersonFilter { created_by: Some("bob".to_string()), tree: Some("t".to_string()) };
    assert_eq!(effective_creator(&f, "theboss", Some(&tree("t", "carol", Some("team-2"))), &a), None);
    assert_eq!(effective_creator(&f, "theboss", Some(&tree("t", "bob", Some("team-2"))), &a).as_deref(), Some("bob"));
    assert_eq!(effective_creator(&f, "theboss", None, &a).as_deref(), Some("bob"));
    let admin_filter = PersonFilter { created_by: Some("theboss".to_string()), tree: None };
    assert_eq!(effective_creator(&admin_filter, "theboss", None, &a), None);
}

#[test]
fn tree_listing_and_limits() {
    let a = alice();
    assert_eq!(tree_query(&TreeFilter { owner: None, team_id: Some("team-1".to_string()) }, &a), Ok(TreeQuery::ByTeam("team-1".to_string())));
    assert_eq!(
        tree_query(&TreeFilter { owner: None, team_id: Some("team-9".to_string()) }, &a),
        Err(AccessError::Forbidden("Not a member of this team".to_string()))
    );
    assert_eq!(tree_query(&TreeFilter { owner: Some("bob".to_string()), team_id: None }, &a), Ok(TreeQuery::ByOwner("bob".to_string())));
    assert_eq!(tree_query(&TreeFilter { owner: None, team_id: None }, &a), Ok(TreeQuery::All));
    assert!(tree_limit_reached(Some(2), 2));
    assert!(!tree_limit_reached(Some(2), 1));
    assert!(!tree_limit_reached(None, 1000));
    assert!(member_limit_reached(Some(100), true, 100));
    assert!(!member_limit_reached(Some(100), true, 99));
    assert!(!member_limit_reached(Some(100), false, 500));
    assert_eq!(
        check_tree_name_free(true, "smith"),
        Err(AccessError::BadRequest("A family tree with name 'smith' already exists".to_string()))
    );
    assert_eq!(check_tree_name_free(false, "smith"), Ok(()));
}

#[test]
fn proxy_lifecycle_rules() {
    assert!(check_can_leave_tree(1).is_err());
    assert_eq!(check_can_leave_tree(2), Ok(()));
    assert!(canonical_orphaned(0));
    assert!(!canonical_orphaned(1));
    let l = proxy("person_proxy:l", "person:a", "t", false, None);
    let s = proxy("person_proxy:s", "person:b", "t", false, None);
    let other = proxy("person_proxy:o", "person:b", "u", false, None);
    assert_eq!(check_same_tree(&l, &s), Ok(()));
    assert!(check_same_tree(&l, &other).is_err());
    assert!(loser_canonical_deleted(&l, &s, 0));
    assert!(!loser_canonical_deleted(&l, &s, 1));
    assert!(!loser_canonical_deleted(&s, &other, 0));
    assert_eq!(acting_user("alice", &Some("bob".to_string())), "alice");
    assert_eq!(acting_user("", &Some("bob".to_string())), "bob");
    assert_eq!(acting_user("", &None), "");
}

use clann_server::person::{Person, PersonProxy, Sex};
use clann_server::relationship::{
    build_tree_node, dedup_by_person, delete_both_directions, edge_pedigree, parse_record_id,
    pedigree_update, proxy_person_select, proxy_to_person, relation_edges, AddRelationshipRequest,
    FamilySnapshot, ParentEdges, ParentInfo, Pedigree, PedigreeUpdate, RelationEdges, RelationshipError,
    RelationshipType, SiblingInfo, SiblingType, SpouseInfo, UpdateRelationshipRequest,
};

#[test]
fn pedigree_strings() {
    assert_eq!(Pedigree::Birth.as_db_str(), "birth");
    assert_eq!(Pedigree::Adopted.as_db_str(), "adopted");
    assert_eq!(Pedigree::Half.as_db_str(), "half");
    assert_eq!(Pedigree::from_db_str("adopted"), Pedigree::Adopted);
    assert_eq!(Pedigree::from_db_str("half"), Pedigree::Half);
    assert_eq!(Pedigree::from_db_str("step"), Pedigree::Birth);
    assert_eq!(Pedigree::from_db_str("foster"), Pedigree::Birth);
    assert_eq!(Pedigree::default(), Pedigree::Birth);
    for p in [Pedigree::Birth, Pedigree::Adopted, Pedigree::Half] {
        assert_eq!(Pedigree::from_db_str(p.as_db_str()), p);
    }
    assert_eq!(edge_pedigree(None), Pedigree::Birth);
    assert_eq!(edge_pedigree(Some("half")), Pedigree::Half);
}

#[test]
fn relationship_tables() {
    for t in [RelationshipType::Father, RelationshipType::Mother, RelationshipType::Sibling, RelationshipType::Spouse] {
        assert_eq!(RelationshipType::from_str(t.table_name()), Some(t));
    }
    assert_eq!(RelationshipType::Spouse.table_name(), "has_spouse");
    assert_eq!(RelationshipType::from_str("has_uncle"), None);
    assert_eq!(RelationshipType::from_str("Father"), None);
    assert_eq!(delete_both_directions("has_spouse"), Ok(true));
    assert_eq!(delete_both_directions("has_father"), Ok(false));
    assert_eq!(
        delete_both_directions("has_uncle"),
        Err(RelationshipError::InvalidRelType("Unknown relationship type: has_uncle".to_string()))
    );
}

#[test]
fn record_ids_split_at_first_colon() {
    assert_eq!(parse_record_id("person_proxy:01ab"), Ok(("person_proxy", "01ab")));
    assert_eq!(parse_record_id("a:b:c"), Ok(("a", "b:c")));
    assert_eq!(
        parse_record_id("nocolon"),
        Err(RelationshipError::BadRequest("Expected 'table:id', got: nocolon".to_string()))
    );
}

fn add_req(t: RelationshipType, st: Option<SiblingType>) -> AddRelationshipRequest {
    AddRelationshipRequest {
        rel_type: t,
        related_id: "person_proxy:x".to_string(),
        sibling_type: st,
        spouse_from: Some("1950".to_string()),
        spouse_to: None,
        pedigree: Pedigree::Adopted,
        via_parent_id: Some("person_proxy:dad".to_string()),
    }
}

#[test]
fn relation_edges_written() {
    match relation_edges(add_req(RelationshipType::Father, None)) {
        Ok(RelationEdges::Parent { table, pedigree }) => {
            assert_eq!(table, "has_father");
            assert_eq!(pedigree, "adopted");
        }
        _ => panic!("parent edge expected"),
    }
    assert!(matches!(
        relation_edges(add_req(RelationshipType::Sibling, None)),
        Err(RelationshipError::BadRequest(m)) if m == "sibling_type required for Sibling relationship"
    ));
    match relation_edges(add_req(RelationshipType::Sibling, Some(SiblingType::Sister))) {
        Ok(RelationEdges::Sibling { sibling_type, pedigree, via_parent_id }) => {
            assert_eq!(sibling_type, "Sister");
            assert_eq!(pedigree, "adopted");
            assert_eq!(via_parent_id.as_deref(), Some("person_proxy:dad"));
        }
        _ => panic!("sibling edge expected"),
    }
    match relation_edges(add_req(RelationshipType::Spouse, None)) {
        Ok(RelationEdges::Spouse { spouse_from, spouse_to }) => {
            assert_eq!(spouse_from, "1950");
            assert_eq!(spouse_to, "");
        }
        _ => panic!("spouse edges expected"),
    }
}

#[test]
fn pedigree_updates() {
    let req = |p| UpdateRelationshipRequest { pedigree: p, via_parent_id: None };
    match pedigree_update("has_mother", req(Pedigree::Adopted)) {
        Ok(PedigreeUpdate::Parent { table, pedigree, sibling_pedigree }) => {
            assert_eq!(table, "has_mother");
            assert_eq!(pedigree, "adopted");
            assert_eq!(sibling_pedigree, "adopted");
        }
        _ => panic!(),
    }
    match pedigree_update("has_father", req(Pedigree::Birth)) {
        Ok(PedigreeUpdate::Parent { sibling_pedigree, .. }) => assert_eq!(sibling_pedigree, "birth"),
        _ => panic!(),
    }
    assert!(matches!(pedigree_update("has_sibling", req(Pedigree::Half)), Ok(PedigreeUpdate::Sibling { pedigree: "half", .. })));
    assert!(matches!(pedigree_update("has_spouse", req(Pedigree::Half)), Err(RelationshipError::BadRequest(_))));
    assert!(matches!(pedigree_update("nope", req(Pedigree::Half)), Err(RelationshipError::InvalidRelType(_))));
}

#[test]
fn person_projection_query() {
    assert_eq!(
        proxy_person_select("out"),
        "{ id: out.id, family_name: out.preferred_family_name ?? out.person_id.family_name, first_name:  out.preferred_first_name  ?? out.person_id.first_name, middle_name: out.preferred_middle_name ?? out.person_id.middle_name, sex: out.person_id.sex, date_of_birth: out.person_id.date_of_birth, place_of_birth: out.person_id.place_of_birth, date_of_death: out.person_id.date_of_death, place_of_death: out.person_id.place_of_death, birth_cert_authority: out.person_id.birth_cert_authority, birth_cert_number: out.person_id.birth_cert_number, created_by: out.created_by ?? out.person_id.created_by }"
    );
}

fn p(id: &str, first: &str) -> Person {
    Person {
        id: id.to_string(),
        family_name: "Walsh".to_string(),
        first_name: first.to_string(),
        middle_name: None,
        sex: Sex::Male,
        date_of_birth: None,
        place_of_birth: None,
        date_of_death: None,
        place_of_death: None,
        birth_cert_authority: None,
        birth_cert_number: None,
        created_by: None,
        created_at: None,
    }
}

#[test]
fn proxy_as_person_record() {
    let proxy = PersonProxy {
        id: "person_proxy:x".to_string(),
        person_id: "person:c".to_string(),
        tree: "t".to_string(),
        preferred_family_name: Some("Breathnach".to_string()),
        preferred_first_name: None,
        preferred_middle_name: None,
        nickname: None,
        username: None,
        email: None,
        verified: false,
        biography: None,
        image_path: None,
        life_image_path: None,
        image_bytes: None,
        life_image_bytes: None,
        is_private: false,
        created_by: None,
        created_at: Some("2024".to_string()),
    };
    let mut canonical = p("person:c", "Eoin");
    canonical.created_by = Some("alice".to_string());
    let r = proxy_to_person(proxy, canonical);
    assert_eq!(r.id, "person_proxy:x");
    assert_eq!(r.family_name, "Breathnach");
    assert_eq!(r.first_name, "Eoin");
    assert_eq!(r.created_by.as_deref(), Some("alice"));
    assert_eq!(r.created_at.as_deref(), Some("2024"));
}

#[test]
fn family_tree_nests_two_generations_of_ancestors() {
    let g = FamilySnapshot {
        parents: vec![
            ParentEdges { child_id: "c".to_string(), fathers: vec![ParentInfo { person: p("d", "Dad"), pedigree: Pedigree::Adopted }], mothers: vec![] },
            ParentEdges { child_id: "d".to_string(), fathers: vec![ParentInfo { person: p("g", "Grandpa"), pedigree: Pedigree::Birth }], mothers: vec![] },
            ParentEdges { child_id: "g".to_string(), fathers: vec![ParentInfo { person: p("gg", "Great"), pedigree: Pedigree::Birth }], mothers: vec![] },
        ],
        children: vec![(p("k", "Kid"), Pedigree::Birth)],
        spouses: vec![SpouseInfo { person: p("s", "Spouse"), spouse_from: None, spouse_to: None }],
        siblings: vec![SiblingInfo { person: p("b", "Bro"), pedigree: Pedigree::Half, via_parent_id: Some("d".to_string()) }],
    };
    let root = build_tree_node(&g, p("c", "Child"), 2, true);
    assert_eq!(root.first_name, "Child");
    assert_eq!(root.father.len(), 1);
    assert_eq!(root.father[0].first_name, "Dad");
    assert_eq!(root.father[0].pedigree, Some(Pedigree::Adopted));
    assert_eq!(root.father[0].father[0].first_name, "Grandpa");
    assert!(root.father[0].father[0].father.is_empty());
    assert!(root.father[0].children.is_empty());
    assert_eq!(root.children[0].first_name, "Kid");
    assert_eq!(root.children[0].pedigree, Some(Pedigree::Birth));
    assert_eq!(root.spouse[0].first_name, "Spouse");
    assert_eq!(root.siblings[0].via_parent_id.as_deref(), Some("d"));
    assert_eq!(root.siblings[0].pedigree, Some(Pedigree::Half));
    assert!(root.mother.is_empty());
}

#[test]
fn edges_deduplicated_by_person() {
    let rows = vec![("a".to_string(), 1), ("b".to_string(), 2), ("a".to_string(), 3), ("".to_string(), 4), ("".to_string(), 5)];
    let r = dedup_by_person(rows);
    assert_eq!(r.iter().map(|x| x.1).collect::<Vec<_>>(), vec![1, 2, 4]);
}

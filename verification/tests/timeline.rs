use clann_server::life_event::{
    apply_life_event_update, merge_life_events, new_life_event, sort_events_by_date, CreateLifeEvent, EventType,
    LifeEvent, UpdateLifeEvent,
};

fn ev(id: &str, date: Option<&str>) -> LifeEvent {
    LifeEvent {
        id: id.to_string(),
        person_proxy_id: "person_proxy:p".to_string(),
        contributed_by_tree: "t".to_string(),
        is_canonical: false,
        name: id.to_string(),
        date: date.map(str::to_string),
        event_type: "Other".to_string(),
        description: None,
        story: None,
        verified: false,
        source_link: None,
        source_image: None,
        source_doc: None,
        created_by: None,
    }
}

fn ids(es: &[LifeEvent]) -> Vec<&str> {
    es.iter().map(|e| e.id.as_str()).collect()
}

#[test]
fn events_sorted_by_date_stably() {
    let es = vec![ev("a", Some("1990")), ev("b", None), ev("c", Some("1985-03-01")), ev("d", Some("1990")), ev("e", None)];
    let r = sort_events_by_date(es);
    assert_eq!(ids(&r), vec!["b", "e", "c", "a", "d"]);
}

#[test]
fn timeline_joins_canonical_events_once() {
    let own = vec![ev("life_event:1", Some("1950")), ev("life_event:2", Some("1900"))];
    let canonical = vec![ev("life_event:2", Some("1900")), ev("life_event:3", Some("1920")), ev("life_event:3", Some("1920"))];
    let r = merge_life_events(own, canonical);
    assert_eq!(ids(&r), vec!["life_event:2", "life_event:3", "life_event:1"]);
}

#[test]
fn life_event_updates_merge() {
    let mut e = ev("life_event:1", None);
    apply_life_event_update(
        &mut e,
        UpdateLifeEvent {
            name: Some("Birth Updated".to_string()),
            date: Some("1985-03-01".to_string()),
            event_type: None,
            description: Some("Born in Dublin".to_string()),
            story: None,
            verified: None,
            source_link: None,
            source_image: None,
            source_doc: None,
        },
    );
    assert_eq!(e.name, "Birth Updated");
    assert_eq!(e.date.as_deref(), Some("1985-03-01"));
    assert_eq!(e.description.as_deref(), Some("Born in Dublin"));
    assert_eq!(e.event_type, "Other");
}

#[test]
fn new_event_records_request() {
    let e = new_life_event(
        "life_event:9".to_string(),
        "person_proxy:p".to_string(),
        "smith".to_string(),
        CreateLifeEvent {
            name: "Birth".to_string(),
            event_type: EventType::Birth.as_str().to_string(),
            date: None,
            description: None,
            story: None,
            verified: false,
            source_link: None,
            source_image: None,
            source_doc: None,
            created_by: Some("alice".to_string()),
            is_canonical: true,
        },
    );
    assert_eq!(e.event_type, "Birth");
    assert_eq!(e.contributed_by_tree, "smith");
    assert!(e.is_canonical);
    assert_eq!(EventType::NameChange.as_str(), "NameChange");
}

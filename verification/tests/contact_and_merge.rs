use clann_server::contact::{
    answer_request, append_message, check_proxy_owner, check_recipients, contact_listing, parse_person_proxy_ref,
    Answer, ContactError, ContactListing, CreateContactRequest, MergeContactRequest,
};
use clann_server::merge::{
    apply_resolution, check_conflicts_resolved, check_merge_pair, check_pending, merge_conflicts, MergeError,
    MergeProposal, MergeResolution,
};
use clann_server::person::{Person, PersonProxy, Sex};

fn req(status: &str) -> MergeContactRequest {
    MergeContactRequest {
        id: "merge_contact_request:1".to_string(),
        from_proxy_id: "person_proxy:p".to_string(),
        from_user: "alice".to_string(),
        to_user: "bob".to_string(),
        initial_message: Some("hi".to_string()),
        status: status.to_string(),
        messages: vec![],
        created_at: "t0".to_string(),
        updated_at: "t0".to_string(),
    }
}

#[test]
fn proxy_refs() {
    assert_eq!(parse_person_proxy_ref("person_proxy:01x"), Ok("01x"));
    assert_eq!(
        parse_person_proxy_ref("person:01x"),
        Err(ContactError::BadRequest("Expected person_proxy record ID, got table: person".to_string()))
    );
    assert_eq!(parse_person_proxy_ref("01x"), Err(ContactError::BadRequest("Expected 'table:id', got: 01x".to_string())));
}

#[test]
fn opening_requests() {
    let empty = CreateContactRequest { from_proxy_id: "person_proxy:p".to_string(), to_users: vec![], message: None };
    assert_eq!(check_recipients(&empty), Err(ContactError::BadRequest("to_users must not be empty".to_string())));
    assert_eq!(check_proxy_owner("alice", &Some("alice".to_string())), Ok(()));
    assert_eq!(
        check_proxy_owner("alice", &Some("bob".to_string())),
        Err(ContactError::Forbidden("You do not own this person proxy".to_string()))
    );
    assert_eq!(check_proxy_owner("", &Some("bob".to_string())), Ok(()));
    assert_eq!(check_proxy_owner("alice", &None), Ok(()));
}

#[test]
fn only_the_recipient_answers_once() {
    let mut r = req("pending");
    assert_eq!(
        answer_request(&mut r, "alice", Answer::Accept),
        Err(ContactError::Forbidden("Only the recipient can accept this request".to_string()))
    );
    assert_eq!(answer_request(&mut r, "bob", Answer::Accept), Ok(()));
    assert_eq!(r.status, "accepted");
    assert_eq!(
        answer_request(&mut r, "bob", Answer::Ignore),
        Err(ContactError::BadRequest("Request is already accepted".to_string()))
    );
    let mut i = req("pending");
    assert_eq!(answer_request(&mut i, "bob", Answer::Ignore), Ok(()));
    assert_eq!(i.status, "ignored");
}

#[test]
fn messages_only_between_participants_once_accepted() {
    let mut r = req("pending");
    assert_eq!(
        append_message(&mut r, "alice", "hello".to_string(), "t1".to_string()),
        Err(ContactError::BadRequest("Messages can only be sent on accepted requests".to_string()))
    );
    r.status = "accepted".to_string();
    assert_eq!(
        append_message(&mut r, "carol", "hello".to_string(), "t1".to_string()),
        Err(ContactError::Forbidden("Only participants can send messages".to_string()))
    );
    assert_eq!(
        append_message(&mut r, "alice", " \t\n".to_string(), "t1".to_string()),
        Err(ContactError::BadRequest("Message text must not be empty".to_string()))
    );
    assert_eq!(append_message(&mut r, "bob", "hello".to_string(), "t1".to_string()), Ok(()));
    assert_eq!(r.messages.len(), 1);
    assert_eq!(r.messages[0].from_user, "bob");
    assert_eq!(r.messages[0].text, "hello");
}

#[test]
fn listing_roles() {
    assert_eq!(contact_listing(Some("sent")), ContactListing::Sent);
    assert_eq!(contact_listing(Some("received")), ContactListing::Received);
    assert_eq!(contact_listing(Some("other")), ContactListing::All);
    assert_eq!(contact_listing(None), ContactListing::All);
}

fn person(dob: Option<&str>, pob: Option<&str>, bcn: Option<&str>) -> Person {
    Person {
        id: "person:a".to_string(),
        family_name: "Byrne".to_string(),
        first_name: "Nora".to_string(),
        middle_name: None,
        sex: Sex::Female,
        date_of_birth: dob.map(str::to_string),
        place_of_birth: pob.map(str::to_string),
        date_of_death: None,
        place_of_death: None,
        birth_cert_authority: None,
        birth_cert_number: bcn.map(str::to_string),
        created_by: None,
        created_at: None,
    }
}

fn proxy(tree: &str, person_id: &str) -> PersonProxy {
    PersonProxy {
        id: "person_proxy:x".to_string(),
        person_id: person_id.to_string(),
        tree: tree.to_string(),
        preferred_family_name: None,
        preferred_first_name: None,
        preferred_middle_name: None,
        nickname: None,
        username: None,
        email: None,
        verified: false,
        biography: None,
        image_path: None,
        life_image_path: None,
        image_bytes: None,
        life_image_bytes: None,
        is_private: false,
        created_by: None,
        created_at: None,
    }
}

#[test]
fn merge_pairs_and_conflicts() {
    assert!(matches!(check_merge_pair(&proxy("t", "person:a"), &proxy("t", "person:b")),
        Err(MergeError::BadRequest(m)) if m == "Use collapse-into for same-tree deduplication"));
    assert!(matches!(check_merge_pair(&proxy("t", "person:a"), &proxy("u", "person:a")),
        Err(MergeError::BadRequest(m)) if m == "These proxies already share the same canonical person"));
    assert_eq!(check_merge_pair(&proxy("t", "person:a"), &proxy("u", "person:b")), Ok(()));
    let a = person(Some("1900"), Some("Cork"), Some("1"));
    let b = person(Some("1901"), None, Some("2"));
    assert_eq!(merge_conflicts(&a, &b), vec!["date_of_birth".to_string(), "birth_cert_number".to_string()]);
    assert!(merge_conflicts(&a, &a.copy()).is_empty());
    assert_eq!(
        check_conflicts_resolved(vec!["date_of_birth".to_string()], false),
        Err(MergeError::Conflict(vec!["date_of_birth".to_string()]))
    );
    assert_eq!(check_conflicts_resolved(vec!["date_of_birth".to_string()], true), Ok(()));
    assert_eq!(check_conflicts_resolved(vec![], false), Ok(()));
}

fn resolution(sex: Option<&str>) -> MergeResolution {
    MergeResolution {
        family_name: None,
        first_name: Some("Honora".to_string()),
        middle_name: None,
        sex: sex.map(str::to_string),
        date_of_birth: Some("1900".to_string()),
        place_of_birth: None,
        date_of_death: None,
        place_of_death: None,
        birth_cert_authority: None,
        birth_cert_number: None,
    }
}

#[test]
fn resolutions_apply_to_the_survivor() {
    let mut a = person(Some("1901"), Some("Cork"), None);
    assert_eq!(apply_resolution(&mut a, &resolution(Some("Male"))), Ok(()));
    assert_eq!(a.first_name, "Honora");
    assert_eq!(a.family_name, "Byrne");
    assert_eq!(a.sex, Sex::Male);
    assert_eq!(a.date_of_birth.as_deref(), Some("1900"));
    assert_eq!(a.place_of_birth.as_deref(), Some("Cork"));
    let mut b = person(None, None, None);
    assert_eq!(apply_resolution(&mut b, &resolution(Some("Unknown"))), Err(MergeError::InvalidSex("Unknown".to_string())));
    assert_eq!(b.first_name, "Nora");
    let p = MergeProposal {
        id: "person_merge_proposal:1".to_string(),
        from_proxy_id: "person_proxy:a".to_string(),
        to_proxy_id: "person_proxy:b".to_string(),
        proposed_by: "alice".to_string(),
        proposed_at: "t".to_string(),
        status: "rejected".to_string(),
        resolution: None,
        responded_by: None,
        responded_at: None,
    };
    assert_eq!(check_pending(&p), Err(MergeError::BadRequest("Proposal is already rejected".to_string())));
}

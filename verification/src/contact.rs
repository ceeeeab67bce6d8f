//! Contact requests between tree owners: who may open, answer and write on
//! a request, and the states it moves through (pending, then accepted or
//! ignored; messages only once accepted).

use vstd::prelude::*;
use vstd::string::StringExecFns;
use crate::text::{is_blank, split_once, str_eq, trim_is_empty};

verus! {

/// A message on an accepted contact request.
pub struct ContactMessage {
    pub from_user: String,
    pub text: String,
    pub sent_at: String,
}

/// A contact request from the owner of a person proxy to another user.
pub struct MergeContactRequest {
    /// Record id `merge_contact_request:<ulid>`.
    pub id: String,
    /// The sender's proxy (`person_proxy:<ulid>`).
    pub from_proxy_id: String,
    pub from_user: String,
    pub to_user: String,
    pub initial_message: Option<String>,
    /// `pending`, `accepted` or `ignored`.
    pub status: String,
    pub messages: Vec<ContactMessage>,
    pub created_at: String,
    pub updated_at: String,
}

/// Request body for opening contact requests to several users.
pub struct CreateContactRequest {
    /// The sender's proxy (`person_proxy:<ulid>`).
    pub from_proxy_id: String,
    /// Usernames of the owners to contact.
    pub to_users: Vec<String>,
    pub message: Option<String>,
}

/// Request body for a message on a contact request.
pub struct AppendContactMessage {
    pub text: String,
}

/// Query filter of the contact-request listing.
pub struct ContactRequestFilter {
    /// `sent`, `received`, or none for all.
    pub role: Option<String>,
}

/// The number of pending incoming requests.
pub struct UnreadContactCount {
    pub count: u64,
}

/// The result of a duplicate search.
pub struct DuplicateSearchResult {
    /// Total number of candidate matches.
    pub count: u64,
    /// Distinct owners across all matches.
    pub owners: Vec<String>,
    /// Scored matches, highest confidence first.
    pub matches: Vec<crate::duplicates::DuplicateMatch>,
}

/// Why a contact-request operation is refused.
#[derive(Debug, Clone, PartialEq, Eq)]
pub enum ContactError {
    BadRequest(String),
    Forbidden(String),
}

/// The key of a `person_proxy:<key>` record id; any other table, or no
/// table at all, is refused.
pub fn parse_person_proxy_ref(s: &str) -> (r: Result<&str, ContactError>)
    ensures
        match r {
            Ok(key) => exists|i: int| 0 <= i < s@.len() && s@[i] == ':'
                && (forall|j: int| 0 <= j < i ==> s@[j] != ':')
                && s@.take(i) == "person_proxy"@ && key@ == s@.skip(i + 1),
            Err(e) => ((forall|i: int| 0 <= i < s@.len() ==> s@[i] != ':')
                    && (e matches ContactError::BadRequest(m) && m@ == "Expected 'table:id', got: "@ + s@))
                || exists|i: int| 0 <= i < s@.len() && s@[i] == ':'
                    && (forall|j: int| 0 <= j < i ==> s@[j] != ':') && s@.take(i) != "person_proxy"@
                    && (e matches ContactError::BadRequest(m)
                        && m@ == "Expected person_proxy record ID, got table: "@ + s@.take(i)),
        },
{
    match split_once(s, ':') {
        None => {
            let mut msg = String::from_str("Expected 'table:id', got: ");
            msg.append(s);
            Err(ContactError::BadRequest(msg))
        },
        Some((table, key)) => {
            if !str_eq(table, "person_proxy") {
                let mut msg = String::from_str("Expected person_proxy record ID, got table: ");
                msg.append(table);
                Err(ContactError::BadRequest(msg))
            } else {
                Ok(key)
            }
        },
    }
}

/// A request must name at least one recipient.
pub fn check_recipients(req: &CreateContactRequest) -> (r: Result<(), ContactError>)
    ensures
        r is Ok <==> req.to_users@.len() > 0,
        r is Err ==> (r matches Err(ContactError::BadRequest(m)) && m@ == "to_users must not be empty"@),
{
    if req.to_users.len() == 0 {
        Err(ContactError::BadRequest("to_users must not be empty".to_owned()))
    } else {
        Ok(())
    }
}

/// Only the owner of the sender's proxy may open requests from it (anyone
/// when authentication is off or the proxy has no recorded owner).
pub fn check_proxy_owner(username: &str, proxy_created_by: &Option<String>) -> (r: Result<(), ContactError>)
    ensures
        r is Ok <==> (match proxy_created_by {
            Some(o) => username@.len() == 0 || o@ == username@,
            None => true,
        }),
        r is Err ==> (r matches Err(ContactError::Forbidden(m)) && m@ == "You do not own this person proxy"@),
{
    match proxy_created_by {
        Some(o) => {
            if !username.is_empty() && !str_eq(o.as_str(), username) {
                Err(ContactError::Forbidden("You do not own this person proxy".to_owned()))
            } else {
                Ok(())
            }
        },
        None => Ok(()),
    }
}

/// An answer to a pending request.
#[derive(Debug, Clone, Copy, PartialEq, Eq, Structural)]
pub enum Answer {
    Accept,
    Ignore,
}

/// The status an answer gives.
pub open spec fn answered_status(a: Answer) -> Seq<char> {
    match a {
        Answer::Accept => "accepted"@,
        Answer::Ignore => "ignored"@,
    }
}

/// Answers a request: only its recipient may, and only while it is
/// pending; the request then has the answer's status.
pub fn answer_request(req: &mut MergeContactRequest, caller: &str, answer: Answer) -> (r: Result<(), ContactError>)
    ensures
        old(req).to_user@ != caller@ ==> (r matches Err(ContactError::Forbidden(m)) && m@ == (match answer {
            Answer::Accept => "Only the recipient can accept this request"@,
            Answer::Ignore => "Only the recipient can ignore this request"@,
        })),
        old(req).to_user@ == caller@ && old(req).status@ != "pending"@ ==> (r matches Err(ContactError::BadRequest(m))
            && m@ == "Request is already "@ + old(req).status@),
        r is Err ==> *final(req) == *old(req),
        r is Ok <==> old(req).to_user@ == caller@ && old(req).status@ == "pending"@,
        r is Ok ==> final(req).status@ == answered_status(answer) && final(req).id == old(req).id
            && final(req).from_user == old(req).from_user && final(req).to_user == old(req).to_user
            && final(req).from_proxy_id == old(req).from_proxy_id
            && final(req).initial_message == old(req).initial_message
            && final(req).messages@ == old(req).messages@,
{
    if !str_eq(req.to_user.as_str(), caller) {
        let msg = match answer {
            Answer::Accept => "Only the recipient can accept this request",
            Answer::Ignore => "Only the recipient can ignore this request",
        };
        return Err(ContactError::Forbidden(msg.to_owned()));
    }
    if !str_eq(req.status.as_str(), "pending") {
        let mut msg = String::from_str("Request is already ");
        msg.append(req.status.as_str());
        return Err(ContactError::BadRequest(msg));
    }
    req.status = match answer {
        Answer::Accept => "accepted".to_owned(),
        Answer::Ignore => "ignored".to_owned(),
    };
    Ok(())
}

/// Adds a message to a request: the text must not be blank, the caller
/// must be its sender or recipient, and the request must be accepted.
pub fn append_message(req: &mut MergeContactRequest, caller: &str, text: String, sent_at: String) -> (r: Result<(), ContactError>)
    ensures
        is_blank(text@) ==> (r matches Err(ContactError::BadRequest(m)) && m@ == "Message text must not be empty"@),
        !is_blank(text@) && old(req).from_user@ != caller@ && old(req).to_user@ != caller@
            ==> (r matches Err(ContactError::Forbidden(m)) && m@ == "Only participants can send messages"@),
        !is_blank(text@) && (old(req).from_user@ == caller@ || old(req).to_user@ == caller@)
            && old(req).status@ != "accepted"@
            ==> (r matches Err(ContactError::BadRequest(m)) && m@ == "Messages can only be sent on accepted requests"@),
        r is Ok <==> (!is_blank(text@) && (old(req).from_user@ == caller@ || old(req).to_user@ == caller@)
            && old(req).status@ == "accepted"@),
        r is Err ==> *final(req) == *old(req),
        r is Ok ==> final(req).messages@.len() == old(req).messages@.len() + 1
            && final(req).messages@.drop_last() == old(req).messages@
            && final(req).messages@.last().from_user@ == caller@
            && final(req).messages@.last().text == text
            && final(req).messages@.last().sent_at == sent_at
            && final(req).status == old(req).status && final(req).from_user == old(req).from_user
            && final(req).to_user == old(req).to_user && final(req).id == old(req).id,
{
    if trim_is_empty(text.as_str()) {
        return Err(ContactError::BadRequest("Message text must not be empty".to_owned()));
    }
    if !str_eq(req.from_user.as_str(), caller) && !str_eq(req.to_user.as_str(), caller) {
        return Err(ContactError::Forbidden("Only participants can send messages".to_owned()));
    }
    if !str_eq(req.status.as_str(), "accepted") {
        return Err(ContactError::BadRequest("Messages can only be sent on accepted requests".to_owned()));
    }
    let ghost before = req.messages@;
    req.messages.push(ContactMessage { from_user: caller.to_owned(), text, sent_at });
    proof {
        assert(req.messages@.drop_last() =~= before);
    }
    Ok(())
}

/// Which requests the listing returns.
#[derive(Debug, Clone, Copy, PartialEq, Eq, Structural)]
pub enum ContactListing {
    /// Requests the caller sent.
    Sent,
    /// Requests the caller received.
    Received,
    /// Both.
    All,
}

/// The listing of a role filter: `sent`, `received`, anything else all.
pub fn contact_listing(role: Option<&str>) -> (r: ContactListing)
    ensures
        r == (match role {
            Some(x) => if x@ == "sent"@ {
                ContactListing::Sent
            } else if x@ == "received"@ {
                ContactListing::Received
            } else {
                ContactListing::All
            },
            None => ContactListing::All,
        }),
{
    match role {
        Some(x) => if str_eq(x, "sent") {
            ContactListing::Sent
        } else if str_eq(x, "received") {
            ContactListing::Received
        } else {
            ContactListing::All
        },
        None => ContactListing::All,
    }
}

/// A request that was answered can never be answered again.
pub proof fn lemma_answer_once(status: Seq<char>, a: Answer)
    requires
        status == answered_status(a),
    ensures
        status != "pending"@,
{
    reveal_strlit("pending");
    reveal_strlit("accepted");
    reveal_strlit("ignored");
    assert("pending"@[0] != "accepted"@[0]);
    assert("pending"@[0] != "ignored"@[0]);
}

} // verus!

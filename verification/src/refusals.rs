//! The API errors that the library's refusals become, with the messages
//! the caller sees.

use vstd::prelude::*;
use vstd::string::StringExecFns;
use crate::access::AccessError;
use crate::contact::ContactError;
use crate::errors::{decimal, decimal_string, signed_decimal_string, AppError};
use crate::json::Json;
use crate::media::MediaError;
use crate::merge::MergeError;
use crate::notes::NoteError;
use crate::relationship::RelationshipError;

verus! {

/// `a`, `b` and `c` joined.
fn join3(a: &str, b: &str, c: &str) -> (r: String)
    ensures
        r@ == a@ + b@ + c@,
{
    let mut s = String::from_str(a);
    s.append(b);
    s.append(c);
    s
}

/// The decimal text of a signed number.
pub open spec fn signed_decimal(n: int) -> Seq<char> {
    if n < 0 { seq!['-'] + decimal((-n) as nat) } else { decimal(n as nat) }
}

/// The text of a refused upload.
pub open spec fn media_message(e: MediaError) -> Seq<char> {
    match e {
        MediaError::MissingContentType => "Missing content-type on image field"@,
        MediaError::UnsupportedImageType(t) =>
            "Unsupported image type `"@ + t@ + "`. Only JPG and PNG are accepted for profile pictures."@,
        MediaError::PlanDisallows(t) =>
            "Your plan does not allow `"@ + t@ + "` uploads. Upgrade to Professional for video, audio, and document support."@,
        MediaError::UnsupportedMediaType(t) => "Unsupported media type `"@ + t@ + "`."@,
        MediaError::TooLarge(n) =>
            "Image exceeds the 2 MB size limit ("@ + decimal(n as nat) + " bytes received so far)"@,
        MediaError::Empty => "Image field is empty"@,
        MediaError::StorageLimit(mb) =>
            "Storage limit of "@ + signed_decimal(mb as int) + " MB reached for your plan. Upgrade for more storage."@,
    }
}

/// Whether a refused upload is forbidden by the plan (403) rather than a
/// bad request (400).
pub open spec fn media_forbidden(e: MediaError) -> bool {
    e is PlanDisallows || e is StorageLimit
}

/// The API error of a refused upload: the plan's refusals are 403, the
/// others 400, each with its message.
pub fn media_error(e: MediaError) -> (r: AppError)
    ensures
        media_forbidden(e) ==> (r matches AppError::Forbidden(m) && m@ == media_message(e)),
        !media_forbidden(e) ==> (r matches AppError::BadRequest(m) && m@ == media_message(e)),
{
    match e {
        MediaError::MissingContentType => AppError::BadRequest("Missing content-type on image field".to_owned()),
        MediaError::UnsupportedImageType(t) => AppError::BadRequest(join3(
            "Unsupported image type `",
            t.as_str(),
            "`. Only JPG and PNG are accepted for profile pictures.",
        )),
        MediaError::PlanDisallows(t) => AppError::Forbidden(join3(
            "Your plan does not allow `",
            t.as_str(),
            "` uploads. Upgrade to Professional for video, audio, and document support.",
        )),
        MediaError::UnsupportedMediaType(t) => AppError::BadRequest(join3("Unsupported media type `", t.as_str(), "`.")),
        MediaError::TooLarge(n) => {
            let d = decimal_string(n as u64);
            AppError::BadRequest(join3("Image exceeds the 2 MB size limit (", d.as_str(), " bytes received so far)"))
        },
        MediaError::Empty => AppError::BadRequest("Image field is empty".to_owned()),
        MediaError::StorageLimit(mb) => {
            let d = signed_decimal_string(mb);
            AppError::Forbidden(join3(
                "Storage limit of ",
                d.as_str(),
                " MB reached for your plan. Upgrade for more storage.",
            ))
        },
    }
}

/// The refusal of a new tree beyond the plan's limit (403).
pub fn tree_limit_error(limit: usize) -> (r: AppError)
    ensures
        r matches AppError::Forbidden(m)
            && m@ == "Tree limit of "@ + decimal(limit as nat) + " reached for your plan. Upgrade to create more trees."@,
{
    let d = decimal_string(limit as u64);
    AppError::Forbidden(join3("Tree limit of ", d.as_str(), " reached for your plan. Upgrade to create more trees."))
}

/// The refusal of a new person beyond the plan's limit (403).
pub fn member_limit_error(limit: usize) -> (r: AppError)
    ensures
        r matches AppError::Forbidden(m)
            && m@ == "Member limit of "@ + decimal(limit as nat) + " reached for your plan. Upgrade to add more people."@,
{
    let d = decimal_string(limit as u64);
    AppError::Forbidden(join3("Member limit of ", d.as_str(), " reached for your plan. Upgrade to add more people."))
}

/// The JSON strings of field names.
pub open spec fn json_strings(fields: Seq<String>) -> Seq<Json> {
    fields.map_values(|f: String| Json::Str(f))
}

/// `{"error": "Canonical conflict — supply resolution to proceed",
/// "conflicts": fields}`, keys in that order.
pub open spec fn is_conflict_doc(j: Json, fields: Seq<String>) -> bool {
    match j {
        Json::Object(entries) => {
            &&& entries@.len() == 2
            &&& entries@[0].0@ == "error"@
            &&& entries@[0].1 is Str
            &&& entries@[0].1->Str_0@ == "Canonical conflict \u{2014} supply resolution to proceed"@
            &&& entries@[1].0@ == "conflicts"@
            &&& entries@[1].1 is Array
            &&& entries@[1].1->Array_0@ == json_strings(fields)
        },
        _ => false,
    }
}

/// The API error of a refused merge. Unresolved conflicts answer 409 with
/// `{"error": "Canonical conflict — supply resolution to proceed",
/// "conflicts": [...]}`. A resolution sex that is neither `Male` nor
/// `Female` answers 500 with the decoding error of that value.
pub fn merge_error(e: MergeError) -> (r: AppError)
    ensures
        match e {
            MergeError::BadRequest(m) => r == AppError::BadRequest(m),
            MergeError::Conflict(fields) => r matches AppError::Conflict(j) && is_conflict_doc(j, fields@),
            MergeError::InvalidSex(s) => r matches AppError::Database(m)
                && m@ == "Failed to decode Sex, no variants matched: `"@ + s@ + "`"@,
        },
{
    match e {
        MergeError::BadRequest(m) => AppError::BadRequest(m),
        MergeError::Conflict(fields) => {
            let mut items: Vec<Json> = Vec::new();
            let mut i: usize = 0;
            while i < fields.len()
                invariant
                    i <= fields.len(),
                    items@ == json_strings(fields@.take(i as int)),
                decreases fields.len() - i,
            {
                items.push(Json::Str(fields[i].clone()));
                proof {
                    assert(json_strings(fields@.take(i + 1)) =~= json_strings(fields@.take(i as int)).push(Json::Str(fields@[i as int])));
                }
                i = i + 1;
            }
            proof {
                assert(fields@.take(fields.len() as int) =~= fields@);
            }
            let mut entries: Vec<(String, Json)> = Vec::new();
            entries.push(("error".to_owned(), Json::Str("Canonical conflict \u{2014} supply resolution to proceed".to_owned())));
            entries.push(("conflicts".to_owned(), Json::Array(items)));
            AppError::Conflict(Json::Object(entries))
        },
        MergeError::InvalidSex(s) => AppError::Database(join3(
            "Failed to decode Sex, no variants matched: `",
            s.as_str(),
            "`",
        )),
    }
}

/// The API error of a refused access: not found stays 404, refusals 403,
/// bad requests 400, each with its message.
pub fn access_error(e: AccessError) -> (r: AppError)
    ensures
        match e {
            AccessError::NotFound => r == AppError::NotFound,
            AccessError::Forbidden(m) => r == AppError::Forbidden(m),
            AccessError::BadRequest(m) => r == AppError::BadRequest(m),
        },
{
    match e {
        AccessError::NotFound => AppError::NotFound,
        AccessError::Forbidden(m) => AppError::Forbidden(m),
        AccessError::BadRequest(m) => AppError::BadRequest(m),
    }
}

/// The API error of a refused contact request.
pub fn contact_error(e: ContactError) -> (r: AppError)
    ensures
        match e {
            ContactError::BadRequest(m) => r == AppError::BadRequest(m),
            ContactError::Forbidden(m) => r == AppError::Forbidden(m),
        },
{
    match e {
        ContactError::BadRequest(m) => AppError::BadRequest(m),
        ContactError::Forbidden(m) => AppError::Forbidden(m),
    }
}

/// The API error of a refused relationship change.
pub fn relationship_error(e: RelationshipError) -> (r: AppError)
    ensures
        match e {
            RelationshipError::BadRequest(m) => r == AppError::BadRequest(m),
            RelationshipError::InvalidRelType(m) => r == AppError::InvalidRelType(m),
        },
{
    match e {
        RelationshipError::BadRequest(m) => AppError::BadRequest(m),
        RelationshipError::InvalidRelType(m) => AppError::InvalidRelType(m),
    }
}

/// The API error of a refused note operation.
pub fn note_error(e: NoteError) -> (r: AppError)
    ensures
        match e {
            NoteError::BadRequest(m) => r == AppError::BadRequest(m),
            NoteError::Internal(m) => r == AppError::Internal(m),
        },
{
    match e {
        NoteError::BadRequest(m) => AppError::BadRequest(m),
        NoteError::Internal(m) => AppError::Internal(m),
    }
}

} // verus!

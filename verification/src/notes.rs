//! Research notes kept in the notes service: note visibility, the team a
//! note of a tree belongs to, filing into folders, and the description and
//! folder kept beside each note.

use vstd::prelude::*;
use vstd::string::StringExecFns;
use crate::text::{copy_opt, is_blank, trim_is_empty};

verus! {

/// Who may see a note in the notes service.
#[derive(Debug, Clone, Copy, PartialEq, Eq, Structural)]
pub enum Visibility {
    Private,
    Team,
    Organization,
}

impl Visibility {
    /// The legacy `is_shared` flag: shared notes are team notes, others
    /// private. `Organization` is never produced.
    pub fn from_is_shared(is_shared: bool) -> (v: Visibility)
        ensures
            v == (if is_shared { Visibility::Team } else { Visibility::Private }),
    {
        if is_shared { Visibility::Team } else { Visibility::Private }
    }

    /// Whether the note is visible beyond its creator.
    pub fn is_shared(&self) -> (r: bool)
        ensures
            r == !(*self == Visibility::Private),
    {
        match self {
            Visibility::Private => false,
            _ => true,
        }
    }
}

/// A legacy sharing flag survives the trip to a visibility and back.
pub proof fn lemma_is_shared_round_trip(b: bool)
    ensures
        !((if b { Visibility::Team } else { Visibility::Private }) == Visibility::Private) == b,
{
}

/// Why a note operation is refused.
#[derive(Debug, Clone, PartialEq, Eq)]
pub enum NoteError {
    BadRequest(String),
    /// Stored data is inconsistent.
    Internal(String),
}

/// The 128-bit value of a UUID string, as `uuid::Uuid::parse_str` reads it
/// (any of its accepted formats); `None` when it is not a UUID.
pub uninterp spec fn parsed_uuid(s: Seq<char>) -> Option<u128>;

/// Calls `uuid::Uuid::parse_str`; the value of the parsed UUID is named
/// `parsed_uuid` of the input.
#[verifier::external_body]
fn parse_uuid(s: &str) -> (r: Option<u128>)
    ensures
        r == parsed_uuid(s@),
{
    match uuid::Uuid::parse_str(s) {
        Ok(u) => Some(u.as_u128()),
        Err(_) => None,
    }
}

/// The team of a note on a tree, given the tree's team id and the value it
/// parses to: a team-linked tree gives a team note (a team id that is not a
/// UUID is inconsistent data); a tree without a team takes private notes
/// only, as personal notes.
pub fn team_for_note(team_id: Option<&str>, parsed: Option<u128>, visibility: Visibility) -> (r: Result<Option<u128>, NoteError>)
    ensures
        match team_id {
            Some(t) => match parsed {
                Some(v) => r == Ok::<Option<u128>, NoteError>(Some(v)),
                None => (r matches Err(NoteError::Internal(m))
                    && m@ == "family_tree.team_id is not a valid UUID: "@ + t@),
            },
            None => if visibility == Visibility::Private {
                r == Ok::<Option<u128>, NoteError>(None)
            } else {
                (r matches Err(NoteError::BadRequest(m))
                    && m@ == "This tree has no team -- a note on it can only be private (tack has no per-person sharing yet)."@)
            },
        },
{
    match team_id {
        Some(t) => match parsed {
            Some(v) => Ok(Some(v)),
            None => {
                let mut msg = String::from_str("family_tree.team_id is not a valid UUID: ");
                msg.append(t);
                Err(NoteError::Internal(msg))
            },
        },
        None => if visibility == Visibility::Private {
            Ok(None)
        } else {
            Err(NoteError::BadRequest(
                "This tree has no team -- a note on it can only be private (tack has no per-person sharing yet).".to_owned(),
            ))
        },
    }
}

/// The team of a note on a tree with the given team id.
pub fn resolve_team_for_tree(team_id: Option<&str>, visibility: Visibility) -> (r: Result<Option<u128>, NoteError>)
    ensures
        match team_id {
            Some(t) => match parsed_uuid(t@) {
                Some(v) => r == Ok::<Option<u128>, NoteError>(Some(v)),
                None => (r matches Err(NoteError::Internal(m))
                    && m@ == "family_tree.team_id is not a valid UUID: "@ + t@),
            },
            None => if visibility == Visibility::Private {
                r == Ok::<Option<u128>, NoteError>(None)
            } else {
                (r matches Err(NoteError::BadRequest(m))
                    && m@ == "This tree has no team -- a note on it can only be private (tack has no per-person sharing yet)."@)
            },
        },
{
    let parsed = match team_id {
        Some(t) => parse_uuid(t),
        None => None,
    };
    team_for_note(team_id, parsed, visibility)
}

/// Where a note is filed.
#[derive(Debug, Clone, PartialEq, Eq)]
pub enum Filing {
    /// Not in a folder.
    Unfiled,
    /// In the notes-service folder of this folder id within the team.
    Folder(String, u128),
}

/// The filing of a note into a folder: only team notes can be filed.
/// `on_create` chooses the message of the refusal.
pub fn note_filing(folder_id: Option<&str>, team: Option<u128>, on_create: bool) -> (r: Result<Filing, NoteError>)
    ensures
        match (folder_id, team) {
            (None, _) => r == Ok::<Filing, NoteError>(Filing::Unfiled),
            (Some(f), Some(t)) => (r matches Ok(Filing::Folder(id, tm)) && id@ == f@ && tm == t),
            (Some(_), None) => (r matches Err(NoteError::BadRequest(m)) && m@ == (if on_create {
                "A personal note (no team on this tree) can't be filed into a folder."@
            } else {
                "This note has no team, so it can't be filed into a folder."@
            })),
        },
{
    match (folder_id, team) {
        (None, _) => Ok(Filing::Unfiled),
        (Some(f), Some(t)) => Ok(Filing::Folder(f.to_owned(), t)),
        (Some(_), None) => {
            let msg = if on_create {
                "A personal note (no team on this tree) can't be filed into a folder."
            } else {
                "This note has no team, so it can't be filed into a folder."
            };
            Err(NoteError::BadRequest(msg.to_owned()))
        },
    }
}

/// A note or reply body must not be blank.
pub fn check_body(body: &str) -> (r: Result<(), NoteError>)
    ensures
        r is Ok <==> !is_blank(body@),
        r is Err ==> (r matches Err(NoteError::BadRequest(m)) && m@ == "body must not be empty"@),
{
    if trim_is_empty(body) {
        Err(NoteError::BadRequest("body must not be empty".to_owned()))
    } else {
        Ok(())
    }
}

/// The description and folder kept beside a note.
pub struct NoteMeta {
    pub description: Option<String>,
    pub legacy_folder_id: Option<String>,
}

/// The record kept beside a note after a change: `None` (nothing written)
/// when neither field changes; else each changed field takes its new value
/// (possibly none) and the other keeps its stored value.
pub fn next_note_meta(
    description: Option<Option<String>>,
    folder_id: Option<Option<String>>,
    existing: &Option<NoteMeta>,
) -> (r: Option<NoteMeta>)
    ensures
        (description is None && folder_id is None) <==> r is None,
        r is Some ==> r->0.description == (match description {
            Some(d) => d,
            None => match existing {
                Some(m) => m.description,
                None => None,
            },
        }),
        r is Some ==> r->0.legacy_folder_id == (match folder_id {
            Some(f) => f,
            None => match existing {
                Some(m) => m.legacy_folder_id,
                None => None,
            },
        }),
{
    if description.is_none() && folder_id.is_none() {
        return None;
    }
    let final_description = match description {
        Some(d) => d,
        None => match existing {
            Some(m) => copy_opt(&m.description),
            None => None,
        },
    };
    let final_folder = match folder_id {
        Some(f) => f,
        None => match existing {
            Some(m) => copy_opt(&m.legacy_folder_id),
            None => None,
        },
    };
    Some(NoteMeta { description: final_description, legacy_folder_id: final_folder })
}

/// The name of the notes-service folder made for a folder id: the folder's
/// name, or `Unfiled` when the folder no longer exists.
pub fn tack_folder_name(folder_name: Option<String>) -> (r: String)
    ensures
        r@ == (match folder_name {
            Some(n) => n@,
            None => "Unfiled"@,
        }),
{
    match folder_name {
        Some(n) => n,
        None => "Unfiled".to_owned(),
    }
}

/// Request body for creating a note on a tree.
pub struct CreateResearchNote {
    pub title: String,
    pub description: Option<String>,
    pub body: String,
    /// The tree (by name) the note belongs to.
    pub tree: String,
    /// A folder id of the folder registry.
    pub folder_id: Option<String>,
    pub visibility: Visibility,
}

/// Request body for changing a note.
pub struct UpdateResearchNote {
    pub title: Option<String>,
    pub description: Option<String>,
    pub body: Option<String>,
    pub visibility: Option<Visibility>,
}

/// Request body for filing a note (`None` unfiles it).
pub struct SetNoteFolderPayload {
    pub folder_id: Option<String>,
}

/// Request body for a reply.
pub struct CreateNoteReply {
    pub body: String,
}

/// Query filter of the note listing.
pub struct NoteFilter {
    pub tree: String,
}

/// A folder of the per-user folder registry.
pub struct ResearchFolder {
    /// The bare key of the folder record.
    pub id: String,
    pub name: String,
    pub created_by: String,
    pub created_at: Option<String>,
}

/// Request body for creating a folder.
pub struct CreateResearchFolder {
    pub name: String,
}

/// Request body for renaming a folder.
pub struct RenameResearchFolder {
    pub name: String,
}

/// Query filter of the folder listing.
pub struct FolderFilter {
    pub created_by: Option<String>,
}

/// A note as the notes service returns it. Ids are the 128-bit values of
/// their UUIDs; timestamps are RFC 3339 text.
pub struct TackNote {
    pub id: u128,
    pub team_id: Option<u128>,
    pub parent_id: Option<u128>,
    pub folder_id: Option<u128>,
    pub visibility: Visibility,
    pub title: String,
    pub body_markdown: String,
    pub created_by: u128,
    pub created_at: String,
    pub updated_at: String,
    pub reply_count: i64,
}

/// A note as this API returns it: the service's note with the description
/// and the registry folder kept beside it.
pub struct ClannNote {
    pub id: u128,
    pub team_id: Option<u128>,
    pub parent_id: Option<u128>,
    /// A folder id of the folder registry, not the service's folder.
    pub folder_id: Option<String>,
    pub visibility: Visibility,
    pub title: String,
    pub body_markdown: String,
    pub description: Option<String>,
    pub created_by: u128,
    pub created_at: String,
    pub updated_at: String,
    pub reply_count: i64,
}

impl ClannNote {
    /// The note with its description and registry folder (`None` when
    /// nothing is kept beside it). The service's own folder is dropped.
    pub fn from_tack(note: TackNote, description: Option<String>, folder_id: Option<String>) -> (r: ClannNote)
        ensures
            r.id == note.id,
            r.team_id == note.team_id,
            r.parent_id == note.parent_id,
            r.folder_id == folder_id,
            r.visibility == note.visibility,
            r.title == note.title,
            r.body_markdown == note.body_markdown,
            r.description == description,
            r.created_by == note.created_by,
            r.created_at == note.created_at,
            r.updated_at == note.updated_at,
            r.reply_count == note.reply_count,
    {
        ClannNote {
            id: note.id,
            team_id: note.team_id,
            parent_id: note.parent_id,
            folder_id,
            visibility: note.visibility,
            title: note.title,
            body_markdown: note.body_markdown,
            description,
            created_by: note.created_by,
            created_at: note.created_at,
            updated_at: note.updated_at,
            reply_count: note.reply_count,
        }
    }
}

/// Notes come from the notes service oldest first; they are listed newest
/// first.
pub fn newest_first<T>(notes: Vec<T>) -> (r: Vec<T>)
    ensures
        r@ == notes@.reverse(),
{
    crate::mcp::reversed(notes)
}

} // verus!

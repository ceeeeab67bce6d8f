//! Collaboration around a tree: editor grants, a caller's role on a tree,
//! chat sessions and the per-user AI settings.

use vstd::prelude::*;
use crate::access::{AccessError, FamilyTree};
use crate::auth::ClannAuth;
use crate::text::str_eq;

verus! {

/// An editor grant on a tree.
pub struct TreeEditor {
    pub id: String,
    pub tree_name: String,
    /// The user granted editor access (token subject).
    pub user_id: String,
    /// The user who granted it.
    pub granted_by_user_id: String,
    pub granted_at: String,
}

/// Request body for granting editor access.
pub struct AddTreeEditor {
    /// The team member to grant editor access to.
    pub user_id: String,
}

/// The caller's access level on a tree: `owner`, `editor` or `viewer`.
pub struct TreeAccessResponse {
    pub role: String,
}

/// Only an owner of the tree's team may manage its editors (anyone when
/// authentication is off); a tree without a team has no editors.
pub fn require_team_owner(tree: Option<&FamilyTree>, auth: &ClannAuth) -> (r: Result<(), AccessError>)
    ensures
        match tree {
            None => r == Err::<(), AccessError>(AccessError::NotFound),
            Some(t) => match t.team_id {
                None => (r matches Err(AccessError::Forbidden(m)) && m@ == "This tree is not linked to a team"@),
                Some(tid) => if auth.user_id@.len() == 0 || (auth.teams@.contains_key(tid@)
                    && auth.teams@[tid@]@ == "owner"@) {
                    r is Ok
                } else {
                    (r matches Err(AccessError::Forbidden(m)) && m@ == "Only the team owner can manage tree editors"@)
                },
            },
        },
{
    let t = match tree {
        None => return Err(AccessError::NotFound),
        Some(t) => t,
    };
    let tid = match &t.team_id {
        None => return Err(AccessError::Forbidden("This tree is not linked to a team".to_owned())),
        Some(tid) => tid,
    };
    if !auth.user_id.as_str().is_empty() {
        let is_owner = match auth.teams.get(tid.as_str()) {
            Some(role) => str_eq(role.as_str(), "owner"),
            None => false,
        };
        if !is_owner {
            return Err(AccessError::Forbidden("Only the team owner can manage tree editors".to_owned()));
        }
    }
    Ok(())
}

/// A user is granted editor access once per tree.
pub fn check_not_editor(already_editor: bool) -> (r: Result<(), AccessError>)
    ensures
        r is Ok <==> !already_editor,
        r is Err ==> (r matches Err(AccessError::BadRequest(m)) && m@ == "User is already an editor for this tree"@),
{
    if already_editor {
        Err(AccessError::BadRequest("User is already an editor for this tree".to_owned()))
    } else {
        Ok(())
    }
}

/// The caller's role on a tree: owner when authentication is off or for an
/// owner of the tree's team, editor with a grant, else viewer.
pub open spec fn tree_role_spec(tree: FamilyTree, auth: ClannAuth, has_grant: bool) -> Seq<char> {
    if auth.user_id@.len() == 0 {
        "owner"@
    } else if tree.team_id is Some && auth.teams@.contains_key(tree.team_id->0@)
        && auth.teams@[tree.team_id->0@]@ == "owner"@ {
        "owner"@
    } else if has_grant {
        "editor"@
    } else {
        "viewer"@
    }
}

/// The caller's access level on a tree; `has_grant` tells whether the
/// caller holds an editor grant for it.
pub fn my_tree_access(tree: &FamilyTree, auth: &ClannAuth, has_grant: bool) -> (r: TreeAccessResponse)
    ensures
        r.role@ == tree_role_spec(*tree, *auth, has_grant),
{
    if auth.user_id.as_str().is_empty() {
        return TreeAccessResponse { role: "owner".to_owned() };
    }
    let is_team_owner = match &tree.team_id {
        Some(tid) => match auth.teams.get(tid.as_str()) {
            Some(role) => str_eq(role.as_str(), "owner"),
            None => false,
        },
        None => false,
    };
    if is_team_owner {
        return TreeAccessResponse { role: "owner".to_owned() };
    }
    let role = if has_grant { "editor" } else { "viewer" };
    TreeAccessResponse { role: role.to_owned() }
}

/// Stored AI settings of a user; the key arrives encrypted by the web app.
pub struct UserAiSettings {
    pub id: String,
    pub username: String,
    pub provider: String,
    pub model: String,
    pub ollama_url: Option<String>,
    pub encrypted_key: Option<String>,
    pub iv: Option<String>,
    pub auth_tag: Option<String>,
}

/// Request body for saving AI settings.
pub struct UpsertUserAiSettings {
    pub provider: String,
    pub model: String,
    pub ollama_url: Option<String>,
    pub encrypted_key: Option<String>,
    pub iv: Option<String>,
    pub auth_tag: Option<String>,
}

/// Saving AI settings: the user's record keeps its id and owner and takes
/// every given value (absent optional values clear the stored ones); a
/// user without a record gets a new one under `new_id`.
pub fn upsert_ai_settings(existing: Option<UserAiSettings>, username: String, new_id: String, payload: UpsertUserAiSettings) -> (r: UserAiSettings)
    ensures
        r.id == (match existing {
            Some(e) => e.id,
            None => new_id,
        }),
        r.username == (match existing {
            Some(e) => e.username,
            None => username,
        }),
        r.provider == payload.provider,
        r.model == payload.model,
        r.ollama_url == payload.ollama_url,
        r.encrypted_key == payload.encrypted_key,
        r.iv == payload.iv,
        r.auth_tag == payload.auth_tag,
{
    let (id, owner) = match existing {
        Some(e) => (e.id, e.username),
        None => (new_id, username),
    };
    UserAiSettings {
        id,
        username: owner,
        provider: payload.provider,
        model: payload.model,
        ollama_url: payload.ollama_url,
        encrypted_key: payload.encrypted_key,
        iv: payload.iv,
        auth_tag: payload.auth_tag,
    }
}

/// A chat session of the assistant.
pub struct ChatSession {
    pub id: String,
    pub title: String,
    pub created_by: String,
    pub tree: Option<String>,
    pub created_at: Option<String>,
    pub updated_at: Option<String>,
}

/// A message of a chat session.
pub struct ChatMessage {
    pub id: String,
    pub session_id: String,
    pub role: String,
    pub content: String,
    pub created_at: Option<String>,
}

/// Request body for a new chat session.
pub struct CreateChatSession {
    pub title: String,
    pub created_by: String,
    pub tree: Option<String>,
}

/// Request body for a chat message.
pub struct AppendMessage {
    pub role: String,
    pub content: String,
}

/// Query filter of the session listing.
pub struct SessionFilter {
    pub created_by: Option<String>,
    pub tree: Option<String>,
}

/// Whether a session is listed for a filter: sessions of the filter's
/// creator (the empty name when none is given) and, when a tree is given,
/// of that tree.
pub fn session_listed(s: &ChatSession, filter: &SessionFilter) -> (r: bool)
    ensures
        r == (s.created_by@ == (match filter.created_by {
            Some(c) => c@,
            None => Seq::<char>::empty(),
        }) && match filter.tree {
            Some(t) => s.tree is Some && s.tree->0@ == t@,
            None => true,
        }),
{
    proof {
        reveal_strlit("");
        assert(""@ =~= Seq::<char>::empty());
    }
    let creator: &str = match &filter.created_by {
        Some(c) => c.as_str(),
        None => "",
    };
    if !str_eq(s.created_by.as_str(), creator) {
        return false;
    }
    match &filter.tree {
        Some(t) => match &s.tree {
            Some(st) => str_eq(st.as_str(), t.as_str()),
            None => false,
        },
        None => true,
    }
}

} // verus!

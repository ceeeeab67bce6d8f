//! Who may read and write trees and persons, and what a caller sees of a
//! private person.

use vstd::prelude::*;
use vstd::hash_map::StringHashMap;
use vstd::string::StringExecFns;
use crate::auth::ClannAuth;
use crate::person::{build_proxy_response, is_proxy_response, proxy_stub, Person, PersonProxy, PersonResponse};
use crate::text::{copy_opt, str_eq};

verus! {

/// A family tree.
pub struct FamilyTree {
    /// Record id `family_tree:<ulid>`.
    pub id: String,
    /// Unique slug of the tree (e.g. `"smith-family"`).
    pub name: String,
    pub display_name: String,
    /// Username of the tree owner.
    pub owner: String,
    pub is_primary: bool,
    /// The team the tree is shared with, if any.
    pub team_id: Option<String>,
}

/// Request body for creating a tree.
pub struct CreateFamilyTree {
    pub name: String,
    pub display_name: String,
    pub owner: String,
    pub is_primary: bool,
}

/// Query filter of the tree listing.
pub struct TreeFilter {
    /// Only trees of this owner.
    pub owner: Option<String>,
    /// Only trees linked to this team (the caller must be a member).
    pub team_id: Option<String>,
}

/// Query filter of the person listing.
pub struct PersonFilter {
    pub created_by: Option<String>,
    pub tree: Option<String>,
}

/// Why an access check failed.
#[derive(Debug, Clone, PartialEq, Eq)]
pub enum AccessError {
    /// Reported as not found, so that records cannot be enumerated.
    NotFound,
    /// Refused, with the reason given to the caller.
    Forbidden(String),
    /// A request that cannot be carried out, with the reason.
    BadRequest(String),
}

/// The outcome of an access check that may depend on an editor grant.
#[derive(Debug, Clone, Copy, PartialEq, Eq, Structural)]
pub enum Access {
    Allow,
    Deny,
    /// Allowed exactly when the caller holds an editor grant for the tree.
    AskEditor,
}

/// Whether the caller is the configured administrator.
pub fn is_admin(username: &str, admin: &str) -> (r: bool)
    ensures
        r == (username@ == admin@),
{
    str_eq(username, admin)
}

/// Membership of the caller in a tree (`None` when the tree does not exist):
/// everyone when authentication is off, then the owner, then members of the
/// tree's team, then holders of an editor grant.
pub open spec fn tree_membership_spec(auth: ClannAuth, tree: Option<FamilyTree>) -> Access {
    if auth.user_id@.len() == 0 {
        Access::Allow
    } else {
        match tree {
            None => Access::Deny,
            Some(t) => if t.owner@ == auth.username@ {
                Access::Allow
            } else if t.team_id is Some && auth.teams@.contains_key(t.team_id->0@) {
                Access::Allow
            } else {
                Access::AskEditor
            },
        }
    }
}

/// Whether the caller is a member of the tree: owner, team member or editor;
/// always when authentication is off.
pub fn tree_membership(auth: &ClannAuth, tree: Option<&FamilyTree>) -> (r: Access)
    ensures
        r == tree_membership_spec(*auth, match tree {
            Some(t) => Some(*t),
            None => None,
        }),
{
    if auth.user_id.as_str().is_empty() {
        return Access::Allow;
    }
    match tree {
        None => Access::Deny,
        Some(t) => {
            if str_eq(t.owner.as_str(), auth.username.as_str()) {
                Access::Allow
            } else {
                match &t.team_id {
                    Some(tid) => if auth.teams.contains_key(tid.as_str()) {
                        Access::Allow
                    } else {
                        Access::AskEditor
                    },
                    None => Access::AskEditor,
                }
            }
        },
    }
}

/// Write access to a proxy: everyone when authentication is off; the
/// administrator; the proxy's creator; an owner of the tree's team; else
/// holders of an editor grant. Refusal is reported as not found.
pub open spec fn proxy_write_spec(
    auth: ClannAuth,
    admin: Seq<char>,
    created_by: Option<Seq<char>>,
    tree: Option<FamilyTree>,
) -> Access {
    if auth.user_id@.len() == 0 {
        Access::Allow
    } else if auth.username@.len() > 0 && auth.username@ == admin {
        Access::Allow
    } else if auth.username@.len() > 0 && created_by == Some(auth.username@) {
        Access::Allow
    } else {
        match tree {
            Some(t) => if t.team_id is Some && auth.teams@.contains_key(t.team_id->0@)
                && auth.teams@[t.team_id->0@]@ == "owner"@ {
                Access::Allow
            } else {
                Access::AskEditor
            },
            None => Access::AskEditor,
        }
    }
}

/// Whether the caller may write to a proxy created by `created_by` in the
/// given tree.
pub fn proxy_write_access(auth: &ClannAuth, admin: &str, created_by: Option<&str>, tree: Option<&FamilyTree>) -> (r: Access)
    ensures
        r == proxy_write_spec(*auth, admin@, match created_by {
            Some(c) => Some(c@),
            None => None,
        }, match tree {
            Some(t) => Some(*t),
            None => None,
        }),
{
    if auth.user_id.as_str().is_empty() {
        return Access::Allow;
    }
    if !auth.username.as_str().is_empty() && is_admin(auth.username.as_str(), admin) {
        return Access::Allow;
    }
    if !auth.username.as_str().is_empty() {
        if let Some(c) = created_by {
            if str_eq(c, auth.username.as_str()) {
                return Access::Allow;
            }
        }
    }
    match tree {
        Some(t) => match &t.team_id {
            Some(tid) => match auth.teams.get(tid.as_str()) {
                Some(role) => if str_eq(role.as_str(), "owner") {
                    Access::Allow
                } else {
                    Access::AskEditor
                },
                None => Access::AskEditor,
            },
            None => Access::AskEditor,
        },
        None => Access::AskEditor,
    }
}

/// Write access to a canonical person: everyone when authentication is off,
/// the administrator and the person's creator; others are refused.
pub fn can_write_to_person(auth: &ClannAuth, admin: &str, person: &Person) -> (r: Result<(), AccessError>)
    ensures
        r is Ok <==> (auth.user_id@.len() == 0
            || (auth.username@.len() > 0 && auth.username@ == admin@)
            || (auth.username@.len() > 0 && match person.created_by {
                Some(c) => c@ == auth.username@,
                None => false,
            })),
        r is Err ==> r == Err::<(), AccessError>(AccessError::Forbidden(r->Err_0->Forbidden_0))
            && r->Err_0->Forbidden_0@ == "You do not have write access to this person"@,
{
    if auth.user_id.as_str().is_empty() {
        return Ok(());
    }
    if !auth.username.as_str().is_empty() && is_admin(auth.username.as_str(), admin) {
        return Ok(());
    }
    if !auth.username.as_str().is_empty() {
        if let Some(c) = &person.created_by {
            if str_eq(c.as_str(), auth.username.as_str()) {
                return Ok(());
            }
        }
    }
    Err(AccessError::Forbidden("You do not have write access to this person".to_owned()))
}

/// A `created_by` filter matches only persons with that creator; no filter
/// matches all. A mismatch is reported as not found.
pub fn check_ownership(person: &Person, created_by: &Option<String>) -> (r: Result<(), AccessError>)
    ensures
        r is Ok <==> match created_by {
            None => true,
            Some(f) => person.created_by is Some && person.created_by->0@ == f@,
        },
        r is Err ==> r == Err::<(), AccessError>(AccessError::NotFound),
{
    if let Some(f) = created_by {
        match &person.created_by {
            Some(c) => if !str_eq(c.as_str(), f.as_str()) {
                return Err(AccessError::NotFound);
            },
            None => return Err(AccessError::NotFound),
        }
    }
    Ok(())
}

/// Whether `r` is what a caller sees of `proxy` with canonical `c`: a stub
/// when the proxy is private and the caller is not a tree member, the full
/// response otherwise.
pub open spec fn response_for(r: PersonResponse, proxy: PersonProxy, c: Person, member: bool) -> bool {
    if proxy.is_private && !member {
        match r {
            PersonResponse::Stub(s) => s.id == proxy.id && s.person_id == proxy.person_id
                && s.tree == proxy.tree && s.sex == c.sex && s.is_private,
            _ => false,
        }
    } else {
        match r {
            PersonResponse::Full(f) => is_proxy_response(f, proxy, c),
            _ => false,
        }
    }
}

/// The response of a proxy for a caller who is or is not a member of its tree.
pub fn person_response(proxy: PersonProxy, canonical: Person, member: bool) -> (r: PersonResponse)
    ensures
        response_for(r, proxy, canonical, member),
{
    if proxy.is_private && !member {
        let sex = canonical.sex;
        PersonResponse::Stub(proxy_stub(proxy, sex))
    } else {
        PersonResponse::Full(build_proxy_response(proxy, canonical))
    }
}

/// What a caller sees of one proxy: members and public proxies in full; a
/// private proxy as a stub when its canonical person has another proxy
/// (`shared_count`, the number of proxies of the canonical person, is above
/// one), else not at all.
pub fn redact_if_private(proxy: PersonProxy, canonical: Person, member: bool, shared_count: u64) -> (r: Result<PersonResponse, AccessError>)
    ensures
        (member || !proxy.is_private) ==> r is Ok && is_proxy_response(r->Ok_0->Full_0, proxy, canonical)
            && r->Ok_0 is Full,
        (!member && proxy.is_private && shared_count <= 1) ==> r == Err::<PersonResponse, AccessError>(AccessError::NotFound),
        (!member && proxy.is_private && shared_count > 1) ==> r is Ok && response_for(r->Ok_0, proxy, canonical, member),
{
    if member || !proxy.is_private {
        return Ok(PersonResponse::Full(build_proxy_response(proxy, canonical)));
    }
    if shared_count <= 1 {
        return Err(AccessError::NotFound);
    }
    Ok(person_response(proxy, canonical, member))
}

/// The last canonical person of `cs` with the id `id`.
pub open spec fn canonical_for(cs: Seq<Person>, id: Seq<char>) -> Option<Person>
    decreases cs.len(),
{
    if cs.len() == 0 {
        None
    } else if cs.last().id@ == id {
        Some(cs.last())
    } else {
        canonical_for(cs.drop_last(), id)
    }
}

/// Whether `out` lists what the caller sees of each proxy whose canonical
/// person was found, in order; proxies without one are left out.
pub open spec fn person_list(proxies: Seq<PersonProxy>, cs: Seq<Person>, member: bool, out: Seq<PersonResponse>) -> bool
    decreases proxies.len(),
{
    if proxies.len() == 0 {
        out.len() == 0
    } else {
        let p = proxies.last();
        match canonical_for(cs, p.person_id@) {
            None => person_list(proxies.drop_last(), cs, member, out),
            Some(c) => out.len() > 0 && response_for(out.last(), p, c, member)
                && person_list(proxies.drop_last(), cs, member, out.drop_last()),
        }
    }
}

/// The index of the last canonical person with the given id.
fn find_canonical(cs: &Vec<Person>, id: &str) -> (r: Option<usize>)
    ensures
        match r {
            Some(k) => k < cs.len() && canonical_for(cs@, id@) == Some(cs@[k as int]),
            None => canonical_for(cs@, id@) is None,
        },
{
    let mut k: usize = cs.len();
    proof {
        assert(cs@.take(k as int) =~= cs@);
    }
    while k > 0
        invariant
            k <= cs.len(),
            canonical_for(cs@, id@) == canonical_for(cs@.take(k as int), id@),
        decreases k,
    {
        proof {
            assert(cs@.take(k as int).drop_last() =~= cs@.take(k - 1));
        }
        if str_eq(cs[k - 1].id.as_str(), id) {
            return Some(k - 1);
        }
        k = k - 1;
    }
    None
}

/// The person listing: what the caller sees of each proxy, dropping those
/// whose canonical person is missing. `member` tells whether the caller is
/// a member of the listed tree.
pub fn assemble_person_list(proxies: Vec<PersonProxy>, canonicals: &Vec<Person>, member: bool) -> (r: Vec<PersonResponse>)
    ensures
        person_list(proxies@, canonicals@, member, r@),
{
    let ghost ps = proxies@;
    let n = proxies.len();
    let mut stack = crate::mcp::reversed(proxies);
    let mut out: Vec<PersonResponse> = Vec::new();
    let mut i: usize = 0;
    while i < n
        invariant
            n == ps.len(),
            i <= n,
            stack@.len() == n - i,
            forall|k: int| 0 <= k < n - i ==> #[trigger] stack@[k] == ps[n - 1 - k],
            person_list(ps.take(i as int), canonicals@, member, out@),
        decreases n - i,
    {
        let p = stack.pop().unwrap();
        proof {
            assert(p == ps[i as int]);
            assert(ps.take(i + 1).drop_last() =~= ps.take(i as int));
            assert(ps.take(i + 1).last() == p);
        }
        match find_canonical(canonicals, p.person_id.as_str()) {
            Some(k) => {
                let c = canonicals[k].copy();
                let resp = person_response(p, c, member);
                let ghost prev = out@;
                out.push(resp);
                proof {
                    assert(out@.drop_last() =~= prev);
                }
            },
            None => {},
        }
        i = i + 1;
    }
    proof {
        assert(ps.take(n as int) =~= ps);
    }
    out
}

/// The creator filter that the person listing applies. A filter naming the
/// administrator is dropped. With a tree filter too, the creator scope is
/// lifted when the creator does not own the tree and the caller is a member
/// of the tree's team (or authentication is off).
pub open spec fn effective_creator_spec(
    created_by: Option<Seq<char>>,
    tree_filter: Option<Seq<char>>,
    admin: Seq<char>,
    tree: Option<FamilyTree>,
    auth: ClannAuth,
) -> Option<Seq<char>> {
    let creator = match created_by {
        Some(c) => if c == admin { None } else { Some(c) },
        None => None,
    };
    match (tree_filter, creator) {
        (Some(_), Some(c)) => {
            let bypass = match tree {
                None => false,
                Some(t) => if t.owner@ == c {
                    false
                } else if auth.user_id@.len() == 0 {
                    true
                } else {
                    t.team_id is Some && auth.teams@.contains_key(t.team_id->0@)
                },
            };
            if bypass { None } else { Some(c) }
        },
        _ => creator,
    }
}

/// The creator filter of the person listing; `tree` is the record of the
/// filtered tree, read only when both filters are given.
pub fn effective_creator(filter: &PersonFilter, admin: &str, tree: Option<&FamilyTree>, auth: &ClannAuth) -> (r: Option<String>)
    ensures
        crate::text::opt_chars(r) == effective_creator_spec(crate::text::opt_chars(filter.created_by),
            crate::text::opt_chars(filter.tree), admin@, match tree {
                Some(t) => Some(*t),
                None => None,
            }, *auth),
{
    let creator: Option<&String> = match &filter.created_by {
        Some(c) => if is_admin(c.as_str(), admin) { None } else { Some(c) },
        None => None,
    };
    match (&filter.tree, creator) {
        (Some(_), Some(c)) => {
            let bypass = match tree {
                None => false,
                Some(t) => {
                    if str_eq(t.owner.as_str(), c.as_str()) {
                        false
                    } else if auth.user_id.as_str().is_empty() {
                        true
                    } else {
                        match &t.team_id {
                            Some(tid) => auth.teams.contains_key(tid.as_str()),
                            None => false,
                        }
                    }
                },
            };
            if bypass { None } else { Some(c.clone()) }
        },
        _ => match creator {
            Some(c) => Some(c.clone()),
            None => None,
        },
    }
}

/// The user acting for a request: the caller, or when authentication is off
/// the creator of the record acted on (empty if unknown).
pub fn acting_user(username: &str, created_by: &Option<String>) -> (r: String)
    ensures
        r@ == (if username@.len() > 0 {
            username@
        } else {
            match created_by {
                Some(c) => c@,
                None => Seq::<char>::empty(),
            }
        }),
{
    if username.is_empty() {
        match created_by {
            Some(c) => c.clone(),
            None => String::new(),
        }
    } else {
        username.to_owned()
    }
}

/// Which trees the tree listing returns.
#[derive(Debug, Clone, PartialEq, Eq)]
pub enum TreeQuery {
    ByTeam(String),
    ByOwner(String),
    All,
}

/// The tree listing for a filter: a team's trees for its members (anyone
/// when authentication is off), else an owner's trees, else all.
pub fn tree_query(filter: &TreeFilter, auth: &ClannAuth) -> (r: Result<TreeQuery, AccessError>)
    ensures
        match filter.team_id {
            Some(t) => if auth.user_id@.len() == 0 || auth.teams@.contains_key(t@) {
                r is Ok && r->Ok_0 is ByTeam && r->Ok_0->ByTeam_0@ == t@
            } else {
                r is Err && r->Err_0 is Forbidden && r->Err_0->Forbidden_0@ == "Not a member of this team"@
            },
            None => match filter.owner {
                Some(o) => r is Ok && r->Ok_0 is ByOwner && r->Ok_0->ByOwner_0@ == o@,
                None => r == Ok::<TreeQuery, AccessError>(TreeQuery::All),
            },
        },
{
    match &filter.team_id {
        Some(t) => {
            if auth.user_id.as_str().is_empty() || auth.teams.contains_key(t.as_str()) {
                Ok(TreeQuery::ByTeam(t.clone()))
            } else {
                Err(AccessError::Forbidden("Not a member of this team".to_owned()))
            }
        },
        None => match &filter.owner {
            Some(o) => Ok(TreeQuery::ByOwner(o.clone())),
            None => Ok(TreeQuery::All),
        },
    }
}

/// Whether the plan's tree limit refuses another tree to an owner who has
/// `existing` trees.
pub fn tree_limit_reached(limit: Option<usize>, existing: usize) -> (r: bool)
    ensures
        r == match limit {
            Some(l) => existing >= l,
            None => false,
        },
{
    match limit {
        Some(l) => existing >= l,
        None => false,
    }
}

/// A person can be taken out of a tree only while it has another proxy
/// (`remaining` counts the proxies of its canonical person).
pub fn check_can_leave_tree(remaining: u64) -> (r: Result<(), AccessError>)
    ensures
        r is Ok <==> remaining > 1,
        r is Err ==> (r matches Err(AccessError::BadRequest(m))
            && m@ == "Cannot remove person from their last tree \u{2014} use DELETE /api/persons/{id} instead"@),
{
    if remaining <= 1 {
        Err(AccessError::BadRequest(
            "Cannot remove person from their last tree \u{2014} use DELETE /api/persons/{id} instead".to_owned(),
        ))
    } else {
        Ok(())
    }
}

/// A canonical person with no proxy left is deleted.
pub fn canonical_orphaned(remaining: u64) -> (r: bool)
    ensures
        r == (remaining == 0),
{
    remaining == 0
}

/// Two proxies are collapsed into one only within a tree.
pub fn check_same_tree(loser: &PersonProxy, survivor: &PersonProxy) -> (r: Result<(), AccessError>)
    ensures
        r is Ok <==> loser.tree@ == survivor.tree@,
        r is Err ==> (r matches Err(AccessError::BadRequest(m)) && m@ == "Both proxies must be in the same tree to collapse"@),
{
    if str_eq(loser.tree.as_str(), survivor.tree.as_str()) {
        Ok(())
    } else {
        Err(AccessError::BadRequest("Both proxies must be in the same tree to collapse".to_owned()))
    }
}

/// After a collapse, the loser's canonical person is deleted when it is not
/// the survivor's and has no proxy left.
pub fn loser_canonical_deleted(loser: &PersonProxy, survivor: &PersonProxy, remaining: u64) -> (r: bool)
    ensures
        r == (loser.person_id@ != survivor.person_id@ && remaining == 0),
{
    !str_eq(loser.person_id.as_str(), survivor.person_id.as_str()) && remaining == 0
}

/// Tree names are unique: a name already taken is refused.
pub fn check_tree_name_free(taken: bool, name: &str) -> (r: Result<(), AccessError>)
    ensures
        r is Ok <==> !taken,
        r is Err ==> (r matches Err(AccessError::BadRequest(m))
            && m@ == "A family tree with name '"@ + name@ + "' already exists"@),
{
    if taken {
        let mut msg = String::from_str("A family tree with name '");
        msg.append(name);
        msg.append("' already exists");
        Err(AccessError::BadRequest(msg))
    } else {
        Ok(())
    }
}


/// A new person names at least one tree.
pub fn check_person_trees(trees: &Vec<String>) -> (r: Result<(), AccessError>)
    ensures
        trees@.len() > 0 ==> r is Ok,
        trees@.len() == 0 ==> (r matches Err(AccessError::BadRequest(m)) && m@ == "At least one tree is required"@),
{
    if trees.len() > 0 {
        Ok(())
    } else {
        Err(AccessError::BadRequest("At least one tree is required".to_owned()))
    }
}

/// A person can be put in a tree only when that tree exists.
pub fn check_tree_exists(tree: &str, exists: bool) -> (r: Result<(), AccessError>)
    ensures
        exists ==> r is Ok,
        !exists ==> (r matches Err(AccessError::BadRequest(m)) && m@ == "Family tree '"@ + tree@ + "' not found"@),
{
    if exists {
        Ok(())
    } else {
        let mut m = String::from_str("Family tree '");
        m.append(tree);
        m.append("' not found");
        Err(AccessError::BadRequest(m))
    }
}

/// Whether a tree is primary after `name` is made the primary tree of
/// `owner`: every other tree of the owner stops being primary.
pub open spec fn primary_after(t: FamilyTree, owner: Seq<char>, name: Seq<char>) -> bool {
    t.name@ == name || (t.is_primary && t.owner@ != owner)
}

/// The trees after `name` is made the primary tree of `owner`: the
/// owner's trees are all cleared, then the named tree is set.
pub fn mark_primary(trees: &Vec<FamilyTree>, owner: &str, name: &str) -> (r: Vec<FamilyTree>)
    ensures
        r@.len() == trees@.len(),
        forall|i: int| 0 <= i < trees@.len() ==> {
            &&& (#[trigger] r@[i]).is_primary == primary_after(trees@[i], owner@, name@)
            &&& r@[i].id == trees@[i].id && r@[i].name == trees@[i].name
            &&& r@[i].display_name == trees@[i].display_name && r@[i].owner == trees@[i].owner
            &&& r@[i].team_id == trees@[i].team_id
        },
{
    let mut out: Vec<FamilyTree> = Vec::new();
    let mut i: usize = 0;
    while i < trees.len()
        invariant
            i <= trees.len(),
            out@.len() == i,
            forall|k: int| 0 <= k < i ==> {
                &&& (#[trigger] out@[k]).is_primary == primary_after(trees@[k], owner@, name@)
                &&& out@[k].id == trees@[k].id && out@[k].name == trees@[k].name
                &&& out@[k].display_name == trees@[k].display_name && out@[k].owner == trees@[k].owner
                &&& out@[k].team_id == trees@[k].team_id
            },
        decreases trees.len() - i,
    {
        let t = &trees[i];
        let is_primary = str_eq(t.name.as_str(), name) || (t.is_primary && !str_eq(t.owner.as_str(), owner));
        out.push(FamilyTree {
            id: t.id.clone(),
            name: t.name.clone(),
            display_name: t.display_name.clone(),
            owner: t.owner.clone(),
            is_primary,
            team_id: copy_opt(&t.team_id),
        });
        i = i + 1;
    }
    out
}

/// One tree per owner is primary: after `name` is made the primary tree of
/// `owner`, every primary tree of that owner is the named one.
pub proof fn lemma_one_primary_per_owner(t: FamilyTree, owner: Seq<char>, name: Seq<char>)
    requires
        t.owner@ == owner,
        primary_after(t, owner, name),
    ensures
        t.name@ == name,
{
}

} // verus!

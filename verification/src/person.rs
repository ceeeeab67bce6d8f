//! Canonical persons, their tree-local proxies, and the responses built
//! from the two.

use vstd::prelude::*;
use crate::text::{copy_opt, str_eq};

verus! {

/// Biological sex, an immutable canonical fact.
#[derive(Debug, Clone, Copy, PartialEq, Eq, Structural)]
pub enum Sex {
    Male,
    Female,
}

impl Sex {
    /// The stored form: `"Male"` or `"Female"`.
    pub fn as_str(&self) -> (r: &'static str)
        ensures
            r@ == (match self {
                Sex::Male => "Male"@,
                Sex::Female => "Female"@,
            }),
    {
        match self {
            Sex::Male => "Male",
            Sex::Female => "Female",
        }
    }

    /// Decodes the stored form; any other string is not a sex.
    pub fn from_value(s: &str) -> (r: Option<Sex>)
        ensures
            r == (if s@ == "Male"@ {
                Some(Sex::Male)
            } else if s@ == "Female"@ {
                Some(Sex::Female)
            } else {
                None
            }),
    {
        if str_eq(s, "Male") {
            Some(Sex::Male)
        } else if str_eq(s, "Female") {
            Some(Sex::Female)
        } else {
            None
        }
    }
}

/// Decoding the stored form of a sex gives it back.
pub proof fn lemma_sex_round_trip(x: Sex)
    ensures
        (match x {
            Sex::Male => "Male"@,
            Sex::Female => "Female"@,
        }) == "Male"@ ==> x == Sex::Male,
        (match x {
            Sex::Male => "Male"@,
            Sex::Female => "Female"@,
        }) == "Female"@ ==> x == Sex::Female,
        "Male"@ != "Female"@,
{
    reveal_strlit("Male");
    reveal_strlit("Female");
    assert("Male"@[0] != "Female"@[0]);
}

/// Canonical person record: birth-certificate identity and vital facts.
pub struct Person {
    /// Record id `person:<ulid>`.
    pub id: String,
    pub family_name: String,
    pub first_name: String,
    pub middle_name: Option<String>,
    pub sex: Sex,
    pub date_of_birth: Option<String>,
    pub place_of_birth: Option<String>,
    pub date_of_death: Option<String>,
    pub place_of_death: Option<String>,
    /// Issuing authority of the birth certificate.
    pub birth_cert_authority: Option<String>,
    /// Number of the birth certificate within its authority.
    pub birth_cert_number: Option<String>,
    pub created_by: Option<String>,
    pub created_at: Option<String>,
}

impl Person {
    /// A field-by-field copy.
    pub fn copy(&self) -> (r: Person)
        ensures
            r == *self,
    {
        Person {
            id: self.id.clone(),
            family_name: self.family_name.clone(),
            first_name: self.first_name.clone(),
            middle_name: copy_opt(&self.middle_name),
            sex: self.sex,
            date_of_birth: copy_opt(&self.date_of_birth),
            place_of_birth: copy_opt(&self.place_of_birth),
            date_of_death: copy_opt(&self.date_of_death),
            place_of_death: copy_opt(&self.place_of_death),
            birth_cert_authority: copy_opt(&self.birth_cert_authority),
            birth_cert_number: copy_opt(&self.birth_cert_number),
            created_by: copy_opt(&self.created_by),
            created_at: copy_opt(&self.created_at),
        }
    }
}

/// Tree-local view of a canonical person: display-name overrides,
/// enrichment and the privacy flag.
pub struct PersonProxy {
    /// Record id `person_proxy:<ulid>`.
    pub id: String,
    /// The canonical person (`person:<ulid>`).
    pub person_id: String,
    pub tree: String,
    pub preferred_family_name: Option<String>,
    pub preferred_first_name: Option<String>,
    pub preferred_middle_name: Option<String>,
    pub nickname: Option<String>,
    pub username: Option<String>,
    pub email: Option<String>,
    pub verified: bool,
    pub biography: Option<String>,
    pub image_path: Option<String>,
    pub life_image_path: Option<String>,
    pub image_bytes: Option<i64>,
    pub life_image_bytes: Option<i64>,
    /// When true, non-members see only a stub (sex and existence).
    pub is_private: bool,
    pub created_by: Option<String>,
    pub created_at: Option<String>,
}

/// A proxy combined with its canonical person.
pub struct PersonProxyResponse {
    pub id: String,
    pub person_id: String,
    pub tree: String,
    /// `preferred_family_name`, else the canonical family name.
    pub family_name: String,
    /// `preferred_first_name`, else the canonical first name.
    pub first_name: String,
    /// `preferred_middle_name`, else the canonical middle name.
    pub middle_name: Option<String>,
    pub preferred_family_name: Option<String>,
    pub preferred_first_name: Option<String>,
    pub preferred_middle_name: Option<String>,
    pub sex: Sex,
    pub date_of_birth: Option<String>,
    pub place_of_birth: Option<String>,
    pub date_of_death: Option<String>,
    pub place_of_death: Option<String>,
    pub nickname: Option<String>,
    pub username: Option<String>,
    pub email: Option<String>,
    pub verified: bool,
    pub biography: Option<String>,
    pub image_path: Option<String>,
    pub life_image_path: Option<String>,
    pub image_bytes: Option<i64>,
    pub life_image_bytes: Option<i64>,
    pub is_private: bool,
    pub created_by: Option<String>,
    pub created_at: Option<String>,
    /// The full canonical record.
    pub canonical: Person,
}

/// What a non-member sees of a private proxy.
pub struct PersonProxyStub {
    pub id: String,
    pub person_id: String,
    pub tree: String,
    pub sex: Sex,
    pub is_private: bool,
}

/// A full response or a privacy stub.
pub enum PersonResponse {
    Full(PersonProxyResponse),
    Stub(PersonProxyStub),
}

/// `preferred`, else `fallback`.
pub open spec fn or_else<T>(preferred: Option<T>, fallback: T) -> T {
    match preferred {
        Some(v) => v,
        None => fallback,
    }
}

/// `preferred` when present, else `fallback`.
pub open spec fn or_opt<T>(preferred: Option<T>, fallback: Option<T>) -> Option<T> {
    match preferred {
        Some(v) => Some(v),
        None => fallback,
    }
}

/// Whether `r` combines `proxy` and `canonical`: proxy fields as they are,
/// names preferred over canonical ones, vital facts from the canonical.
pub open spec fn is_proxy_response(r: PersonProxyResponse, proxy: PersonProxy, canonical: Person) -> bool {
    &&& r.id == proxy.id
    &&& r.person_id == proxy.person_id
    &&& r.tree == proxy.tree
    &&& r.family_name == or_else(proxy.preferred_family_name, canonical.family_name)
    &&& r.first_name == or_else(proxy.preferred_first_name, canonical.first_name)
    &&& r.middle_name == or_opt(proxy.preferred_middle_name, canonical.middle_name)
    &&& r.preferred_family_name == proxy.preferred_family_name
    &&& r.preferred_first_name == proxy.preferred_first_name
    &&& r.preferred_middle_name == proxy.preferred_middle_name
    &&& r.sex == canonical.sex
    &&& r.date_of_birth == canonical.date_of_birth
    &&& r.place_of_birth == canonical.place_of_birth
    &&& r.date_of_death == canonical.date_of_death
    &&& r.place_of_death == canonical.place_of_death
    &&& r.nickname == proxy.nickname
    &&& r.username == proxy.username
    &&& r.email == proxy.email
    &&& r.verified == proxy.verified
    &&& r.biography == proxy.biography
    &&& r.image_path == proxy.image_path
    &&& r.life_image_path == proxy.life_image_path
    &&& r.image_bytes == proxy.image_bytes
    &&& r.life_image_bytes == proxy.life_image_bytes
    &&& r.is_private == proxy.is_private
    &&& r.created_by == proxy.created_by
    &&& r.created_at == proxy.created_at
    &&& r.canonical == canonical
}

/// Builds the response of a proxy and its canonical person.
pub fn build_proxy_response(proxy: PersonProxy, canonical: Person) -> (r: PersonProxyResponse)
    ensures
        is_proxy_response(r, proxy, canonical),
{
    let family_name = match &proxy.preferred_family_name {
        Some(v) => v.clone(),
        None => canonical.family_name.clone(),
    };
    let first_name = match &proxy.preferred_first_name {
        Some(v) => v.clone(),
        None => canonical.first_name.clone(),
    };
    let middle_name = match &proxy.preferred_middle_name {
        Some(v) => Some(v.clone()),
        None => copy_opt(&canonical.middle_name),
    };
    let sex = canonical.sex;
    let date_of_birth = copy_opt(&canonical.date_of_birth);
    let place_of_birth = copy_opt(&canonical.place_of_birth);
    let date_of_death = copy_opt(&canonical.date_of_death);
    let place_of_death = copy_opt(&canonical.place_of_death);
    PersonProxyResponse {
        id: proxy.id,
        person_id: proxy.person_id,
        tree: proxy.tree,
        family_name,
        first_name,
        middle_name,
        preferred_family_name: proxy.preferred_family_name,
        preferred_first_name: proxy.preferred_first_name,
        preferred_middle_name: proxy.preferred_middle_name,
        sex,
        date_of_birth,
        place_of_birth,
        date_of_death,
        place_of_death,
        nickname: proxy.nickname,
        username: proxy.username,
        email: proxy.email,
        verified: proxy.verified,
        biography: proxy.biography,
        image_path: proxy.image_path,
        life_image_path: proxy.life_image_path,
        image_bytes: proxy.image_bytes,
        life_image_bytes: proxy.life_image_bytes,
        is_private: proxy.is_private,
        created_by: proxy.created_by,
        created_at: proxy.created_at,
        canonical,
    }
}

/// The privacy stub of a proxy: its ids, tree and the canonical sex.
pub fn proxy_stub(proxy: PersonProxy, sex: Sex) -> (r: PersonProxyStub)
    ensures
        r.id == proxy.id,
        r.person_id == proxy.person_id,
        r.tree == proxy.tree,
        r.sex == sex,
        r.is_private,
{
    PersonProxyStub { id: proxy.id, person_id: proxy.person_id, tree: proxy.tree, sex, is_private: true }
}

/// Request body for creating a person: canonical identity and proxy
/// enrichment.
pub struct CreatePerson {
    pub family_name: String,
    pub first_name: String,
    pub sex: Sex,
    pub middle_name: Option<String>,
    pub date_of_birth: Option<String>,
    pub place_of_birth: Option<String>,
    pub date_of_death: Option<String>,
    pub place_of_death: Option<String>,
    pub birth_cert_authority: Option<String>,
    pub birth_cert_number: Option<String>,
    /// Names of the trees the person belongs to; at least one.
    pub trees: Vec<String>,
    pub preferred_family_name: Option<String>,
    pub preferred_first_name: Option<String>,
    pub preferred_middle_name: Option<String>,
    pub nickname: Option<String>,
    pub username: Option<String>,
    pub email: Option<String>,
    pub biography: Option<String>,
    pub is_private: Option<bool>,
    pub created_by: Option<String>,
}

/// Request body naming a tree to add a person to.
pub struct TreeMembershipRequest {
    pub tree: String,
}

/// Proxy fields to change; `None` leaves a field as it is.
pub struct UpdatePersonProxy {
    pub preferred_family_name: Option<String>,
    pub preferred_first_name: Option<String>,
    pub preferred_middle_name: Option<String>,
    pub nickname: Option<String>,
    pub username: Option<String>,
    pub email: Option<String>,
    pub verified: Option<bool>,
    pub biography: Option<String>,
    pub is_private: Option<bool>,
    pub created_by: Option<String>,
}

/// Canonical fields to change; `None` leaves a field as it is.
pub struct UpdateCanonicalPerson {
    pub family_name: Option<String>,
    pub first_name: Option<String>,
    pub middle_name: Option<String>,
    pub sex: Option<Sex>,
    pub date_of_birth: Option<String>,
    pub place_of_birth: Option<String>,
    pub date_of_death: Option<String>,
    pub place_of_death: Option<String>,
    pub birth_cert_authority: Option<String>,
    pub birth_cert_number: Option<String>,
}

/// A field replaced by the update when it gives a value.
pub open spec fn merged<T>(update: Option<T>, current: T) -> T {
    match update {
        Some(v) => v,
        None => current,
    }
}

/// An optional field replaced by the update when it gives a value.
pub open spec fn merged_opt<T>(update: Option<T>, current: Option<T>) -> Option<T> {
    match update {
        Some(v) => Some(v),
        None => current,
    }
}

/// Applies a proxy update with merge semantics: each field the update gives
/// replaces the stored one; every other field is kept.
pub fn apply_proxy_update(proxy: &mut PersonProxy, update: UpdatePersonProxy)
    ensures
        final(proxy).preferred_family_name == merged_opt(update.preferred_family_name, old(proxy).preferred_family_name),
        final(proxy).preferred_first_name == merged_opt(update.preferred_first_name, old(proxy).preferred_first_name),
        final(proxy).preferred_middle_name == merged_opt(update.preferred_middle_name, old(proxy).preferred_middle_name),
        final(proxy).nickname == merged_opt(update.nickname, old(proxy).nickname),
        final(proxy).username == merged_opt(update.username, old(proxy).username),
        final(proxy).email == merged_opt(update.email, old(proxy).email),
        final(proxy).verified == merged(update.verified, old(proxy).verified),
        final(proxy).biography == merged_opt(update.biography, old(proxy).biography),
        final(proxy).is_private == merged(update.is_private, old(proxy).is_private),
        final(proxy).created_by == merged_opt(update.created_by, old(proxy).created_by),
        final(proxy).id == old(proxy).id,
        final(proxy).person_id == old(proxy).person_id,
        final(proxy).tree == old(proxy).tree,
        final(proxy).image_path == old(proxy).image_path,
        final(proxy).life_image_path == old(proxy).life_image_path,
        final(proxy).image_bytes == old(proxy).image_bytes,
        final(proxy).life_image_bytes == old(proxy).life_image_bytes,
        final(proxy).created_at == old(proxy).created_at,
{
    if let Some(v) = update.preferred_family_name { proxy.preferred_family_name = Some(v); }
    if let Some(v) = update.preferred_first_name { proxy.preferred_first_name = Some(v); }
    if let Some(v) = update.preferred_middle_name { proxy.preferred_middle_name = Some(v); }
    if let Some(v) = update.nickname { proxy.nickname = Some(v); }
    if let Some(v) = update.username { proxy.username = Some(v); }
    if let Some(v) = update.email { proxy.email = Some(v); }
    if let Some(v) = update.verified { proxy.verified = v; }
    if let Some(v) = update.biography { proxy.biography = Some(v); }
    if let Some(v) = update.is_private { proxy.is_private = v; }
    if let Some(v) = update.created_by { proxy.created_by = Some(v); }
}

/// Applies a canonical update with merge semantics: each field the update
/// gives replaces the stored one; every other field is kept.
pub fn apply_canonical_update(person: &mut Person, update: UpdateCanonicalPerson)
    ensures
        final(person).family_name == merged(update.family_name, old(person).family_name),
        final(person).first_name == merged(update.first_name, old(person).first_name),
        final(person).middle_name == merged_opt(update.middle_name, old(person).middle_name),
        final(person).sex == merged(update.sex, old(person).sex),
        final(person).date_of_birth == merged_opt(update.date_of_birth, old(person).date_of_birth),
        final(person).place_of_birth == merged_opt(update.place_of_birth, old(person).place_of_birth),
        final(person).date_of_death == merged_opt(update.date_of_death, old(person).date_of_death),
        final(person).place_of_death == merged_opt(update.place_of_death, old(person).place_of_death),
        final(person).birth_cert_authority == merged_opt(update.birth_cert_authority, old(person).birth_cert_authority),
        final(person).birth_cert_number == merged_opt(update.birth_cert_number, old(person).birth_cert_number),
        final(person).id == old(person).id,
        final(person).created_by == old(person).created_by,
        final(person).created_at == old(person).created_at,
{
    if let Some(v) = update.family_name { person.family_name = v; }
    if let Some(v) = update.first_name { person.first_name = v; }
    if let Some(v) = update.middle_name { person.middle_name = Some(v); }
    if let Some(v) = update.sex { person.sex = v; }
    if let Some(v) = update.date_of_birth { person.date_of_birth = Some(v); }
    if let Some(v) = update.place_of_birth { person.place_of_birth = Some(v); }
    if let Some(v) = update.date_of_death { person.date_of_death = Some(v); }
    if let Some(v) = update.place_of_death { person.place_of_death = Some(v); }
    if let Some(v) = update.birth_cert_authority { person.birth_cert_authority = Some(v); }
    if let Some(v) = update.birth_cert_number { person.birth_cert_number = Some(v); }
}

/// The canonical record of a new person: the request's identity fields,
/// under the given record id.
pub fn canonical_from_request(id: String, req: &CreatePerson) -> (r: Person)
    ensures
        r.id == id,
        r.family_name == req.family_name,
        r.first_name == req.first_name,
        r.middle_name == req.middle_name,
        r.sex == req.sex,
        r.date_of_birth == req.date_of_birth,
        r.place_of_birth == req.place_of_birth,
        r.date_of_death == req.date_of_death,
        r.place_of_death == req.place_of_death,
        r.birth_cert_authority == req.birth_cert_authority,
        r.birth_cert_number == req.birth_cert_number,
        r.created_by == req.created_by,
        r.created_at is None,
{
    Person {
        id,
        family_name: req.family_name.clone(),
        first_name: req.first_name.clone(),
        middle_name: copy_opt(&req.middle_name),
        sex: req.sex,
        date_of_birth: copy_opt(&req.date_of_birth),
        place_of_birth: copy_opt(&req.place_of_birth),
        date_of_death: copy_opt(&req.date_of_death),
        place_of_death: copy_opt(&req.place_of_death),
        birth_cert_authority: copy_opt(&req.birth_cert_authority),
        birth_cert_number: copy_opt(&req.birth_cert_number),
        created_by: copy_opt(&req.created_by),
        created_at: None,
    }
}

/// The proxy of a new person in one of the request's trees: its enrichment
/// fields, private only when the request says so.
pub fn proxy_from_request(id: String, person_id: String, tree: String, req: &CreatePerson) -> (r: PersonProxy)
    ensures
        r.id == id,
        r.person_id == person_id,
        r.tree == tree,
        r.preferred_family_name == req.preferred_family_name,
        r.preferred_first_name == req.preferred_first_name,
        r.preferred_middle_name == req.preferred_middle_name,
        r.nickname == req.nickname,
        r.username == req.username,
        r.email == req.email,
        r.biography == req.biography,
        r.is_private == merged(req.is_private, false),
        r.created_by == req.created_by,
        !r.verified,
        r.image_path is None && r.life_image_path is None,
        r.image_bytes is None && r.life_image_bytes is None,
        r.created_at is None,
{
    PersonProxy {
        id,
        person_id,
        tree,
        preferred_family_name: copy_opt(&req.preferred_family_name),
        preferred_first_name: copy_opt(&req.preferred_first_name),
        preferred_middle_name: copy_opt(&req.preferred_middle_name),
        nickname: copy_opt(&req.nickname),
        username: copy_opt(&req.username),
        email: copy_opt(&req.email),
        verified: false,
        biography: copy_opt(&req.biography),
        image_path: None,
        life_image_path: None,
        image_bytes: None,
        life_image_bytes: None,
        is_private: match req.is_private {
            Some(b) => b,
            None => false,
        },
        created_by: copy_opt(&req.created_by),
        created_at: None,
    }
}

/// Whether the plan's person limit refuses one more person: the limit is
/// reached when the creator already has `count` canonical persons and
/// `count >= limit`. Without a limit or a creator nothing is refused.
pub fn member_limit_reached(limit: Option<usize>, has_creator: bool, count: usize) -> (r: bool)
    ensures
        r == (has_creator && match limit {
            Some(l) => count >= l,
            None => false,
        }),
{
    match limit {
        Some(l) => has_creator && count >= l,
        None => false,
    }
}

} // verus!

//! Merge proposals between proxies of two trees: which pairs may be
//! proposed, the conflicts between their canonical persons, and the
//! resolution applied to the surviving canonical person.

use vstd::prelude::*;
use vstd::string::StringExecFns;
use crate::person::{Person, PersonProxy, Sex, merged, merged_opt};
use crate::text::{copy_opt, str_eq};

verus! {

/// Agreed canonical values given when accepting a proposal; `None` keeps
/// the surviving canonical person's value.
pub struct MergeResolution {
    pub family_name: Option<String>,
    pub first_name: Option<String>,
    pub middle_name: Option<String>,
    pub sex: Option<String>,
    pub date_of_birth: Option<String>,
    pub place_of_birth: Option<String>,
    pub date_of_death: Option<String>,
    pub place_of_death: Option<String>,
    pub birth_cert_authority: Option<String>,
    pub birth_cert_number: Option<String>,
}

/// A proposal to merge the canonical persons of two proxies.
pub struct MergeProposal {
    /// Record id `person_merge_proposal:<ulid>`.
    pub id: String,
    pub from_proxy_id: String,
    pub to_proxy_id: String,
    pub proposed_by: String,
    pub proposed_at: String,
    /// `pending`, `accepted` or `rejected`.
    pub status: String,
    pub resolution: Option<MergeResolution>,
    pub responded_by: Option<String>,
    pub responded_at: Option<String>,
}

/// Request body for proposing a merge.
pub struct CreateMergeProposalRequest {
    /// The proposing tree's proxy (`person_proxy:<ulid>`).
    pub from_proxy_id: String,
    /// The receiving tree's proxy (`person_proxy:<ulid>`).
    pub to_proxy_id: String,
}

/// Request body for accepting a proposal.
pub struct AcceptMergeProposalRequest {
    /// Needed only when the canonical persons conflict.
    pub resolution: Option<MergeResolution>,
}

/// Why a merge operation is refused.
#[derive(Debug, Clone, PartialEq, Eq)]
pub enum MergeError {
    BadRequest(String),
    /// The canonical persons conflict on these fields and no resolution was given.
    Conflict(Vec<String>),
    /// The resolution's sex is not a stored sex value; refused by the
    /// library before anything is written.
    InvalidSex(String),
}

/// Two proxies may be proposed for merging only across trees and only
/// when they are not already the same canonical person.
pub fn check_merge_pair(from: &PersonProxy, to: &PersonProxy) -> (r: Result<(), MergeError>)
    ensures
        from.tree@ == to.tree@ ==> (r matches Err(MergeError::BadRequest(m))
            && m@ == "Use collapse-into for same-tree deduplication"@),
        from.tree@ != to.tree@ && from.person_id@ == to.person_id@ ==> (r matches Err(MergeError::BadRequest(m))
            && m@ == "These proxies already share the same canonical person"@),
        r is Ok <==> from.tree@ != to.tree@ && from.person_id@ != to.person_id@,
{
    if str_eq(from.tree.as_str(), to.tree.as_str()) {
        return Err(MergeError::BadRequest("Use collapse-into for same-tree deduplication".to_owned()));
    }
    if str_eq(from.person_id.as_str(), to.person_id.as_str()) {
        return Err(MergeError::BadRequest("These proxies already share the same canonical person".to_owned()));
    }
    Ok(())
}

/// Whether two optional values are both present and differ.
pub open spec fn conflicting(a: Option<String>, b: Option<String>) -> bool {
    a is Some && b is Some && a->0@ != b->0@
}

/// The hard fields on which two canonical persons conflict, in order:
/// date and place of birth, date and place of death, birth-certificate
/// authority and number.
pub open spec fn conflict_fields(a: Person, b: Person) -> Seq<Seq<char>> {
    let f1 = if conflicting(a.date_of_birth, b.date_of_birth) { seq!["date_of_birth"@] } else { Seq::empty() };
    let f2 = if conflicting(a.place_of_birth, b.place_of_birth) { seq!["place_of_birth"@] } else { Seq::empty() };
    let f3 = if conflicting(a.date_of_death, b.date_of_death) { seq!["date_of_death"@] } else { Seq::empty() };
    let f4 = if conflicting(a.place_of_death, b.place_of_death) { seq!["place_of_death"@] } else { Seq::empty() };
    let f5 = if conflicting(a.birth_cert_authority, b.birth_cert_authority) { seq!["birth_cert_authority"@] } else { Seq::empty() };
    let f6 = if conflicting(a.birth_cert_number, b.birth_cert_number) { seq!["birth_cert_number"@] } else { Seq::empty() };
    f1 + f2 + f3 + f4 + f5 + f6
}

fn differ(a: &Option<String>, b: &Option<String>) -> (r: bool)
    ensures
        r == conflicting(*a, *b),
{
    match (a, b) {
        (Some(x), Some(y)) => !str_eq(x.as_str(), y.as_str()),
        _ => false,
    }
}

fn push_if(out: &mut Vec<String>, cond: bool, name: &str)
    ensures
        final(out)@.map_values(|s: String| s@) == old(out)@.map_values(|s: String| s@) + (if cond { seq![name@] } else { Seq::empty() }),
{
    let ghost before = out@;
    if cond {
        out.push(name.to_owned());
        proof {
            assert(out@.map_values(|s: String| s@) =~= before.map_values(|s: String| s@) + seq![name@]);
        }
    } else {
        proof {
            assert(out@.map_values(|s: String| s@) =~= before.map_values(|s: String| s@) + Seq::<Seq<char>>::empty());
        }
    }
}

/// The conflicting hard fields of two canonical persons.
pub fn merge_conflicts(a: &Person, b: &Person) -> (r: Vec<String>)
    ensures
        r@.map_values(|s: String| s@) == conflict_fields(*a, *b),
{
    let mut out: Vec<String> = Vec::new();
    proof {
        assert(out@.map_values(|s: String| s@) =~= Seq::<Seq<char>>::empty());
    }
    push_if(&mut out, differ(&a.date_of_birth, &b.date_of_birth), "date_of_birth");
    push_if(&mut out, differ(&a.place_of_birth, &b.place_of_birth), "place_of_birth");
    push_if(&mut out, differ(&a.date_of_death, &b.date_of_death), "date_of_death");
    push_if(&mut out, differ(&a.place_of_death, &b.place_of_death), "place_of_death");
    push_if(&mut out, differ(&a.birth_cert_authority, &b.birth_cert_authority), "birth_cert_authority");
    push_if(&mut out, differ(&a.birth_cert_number, &b.birth_cert_number), "birth_cert_number");
    proof {
        assert(out@.map_values(|s: String| s@) =~= conflict_fields(*a, *b));
    }
    out
}

/// A proposal is answered only while pending.
pub fn check_pending(p: &MergeProposal) -> (r: Result<(), MergeError>)
    ensures
        r is Ok <==> p.status@ == "pending"@,
        r is Err ==> (r matches Err(MergeError::BadRequest(m)) && m@ == "Proposal is already "@ + p.status@),
{
    if str_eq(p.status.as_str(), "pending") {
        Ok(())
    } else {
        let mut msg = String::from_str("Proposal is already ");
        msg.append(p.status.as_str());
        Err(MergeError::BadRequest(msg))
    }
}

/// Accepting a proposal whose canonical persons conflict needs a
/// resolution; the refusal lists the conflicts.
pub fn check_conflicts_resolved(conflicts: Vec<String>, has_resolution: bool) -> (r: Result<(), MergeError>)
    ensures
        r is Ok <==> (conflicts@.len() == 0 || has_resolution),
        r is Err ==> r == Err::<(), MergeError>(MergeError::Conflict(conflicts)),
{
    if conflicts.len() > 0 && !has_resolution {
        Err(MergeError::Conflict(conflicts))
    } else {
        Ok(())
    }
}

/// Applies an agreed resolution to the surviving canonical person: each
/// value the resolution gives replaces the stored one. A sex other than
/// `Male` or `Female` is refused with `InvalidSex` before any field is
/// changed, leaving the person unchanged; `merge_error` answers it with a
/// 500 that carries the decoding error of such a sex value.
pub fn apply_resolution(person: &mut Person, res: &MergeResolution) -> (r: Result<(), MergeError>)
    ensures
        match res.sex {
            Some(s) => (s@ == "Male"@ || s@ == "Female"@) <==> r is Ok,
            None => r is Ok,
        },
        r is Err ==> *final(person) == *old(person),
        r is Ok ==> {
            &&& final(person).family_name == merged(res.family_name, old(person).family_name)
            &&& final(person).first_name == merged(res.first_name, old(person).first_name)
            &&& final(person).middle_name == merged_opt(res.middle_name, old(person).middle_name)
            &&& final(person).sex == (match res.sex {
                Some(s) => if s@ == "Male"@ { Sex::Male } else { Sex::Female },
                None => old(person).sex,
            })
            &&& final(person).date_of_birth == merged_opt(res.date_of_birth, old(person).date_of_birth)
            &&& final(person).place_of_birth == merged_opt(res.place_of_birth, old(person).place_of_birth)
            &&& final(person).date_of_death == merged_opt(res.date_of_death, old(person).date_of_death)
            &&& final(person).place_of_death == merged_opt(res.place_of_death, old(person).place_of_death)
            &&& final(person).birth_cert_authority == merged_opt(res.birth_cert_authority, old(person).birth_cert_authority)
            &&& final(person).birth_cert_number == merged_opt(res.birth_cert_number, old(person).birth_cert_number)
            &&& final(person).id == old(person).id
            &&& final(person).created_by == old(person).created_by
            &&& final(person).created_at == old(person).created_at
        },
{
    let sex = match &res.sex {
        Some(s) => match Sex::from_value(s.as_str()) {
            Some(x) => x,
            None => return Err(MergeError::InvalidSex(s.clone())),
        },
        None => person.sex,
    };
    proof {
        crate::person::lemma_sex_round_trip(Sex::Male);
    }
    if let Some(v) = &res.family_name { person.family_name = v.clone(); }
    if let Some(v) = &res.first_name { person.first_name = v.clone(); }
    if let Some(v) = &res.middle_name { person.middle_name = Some(v.clone()); }
    person.sex = sex;
    if let Some(v) = &res.date_of_birth { person.date_of_birth = Some(v.clone()); }
    if let Some(v) = &res.place_of_birth { person.place_of_birth = Some(v.clone()); }
    if let Some(v) = &res.date_of_death { person.date_of_death = Some(v.clone()); }
    if let Some(v) = &res.place_of_death { person.place_of_death = Some(v.clone()); }
    if let Some(v) = &res.birth_cert_authority { person.birth_cert_authority = Some(v.clone()); }
    if let Some(v) = &res.birth_cert_number { person.birth_cert_number = Some(v.clone()); }
    Ok(())
}


/// `[n]` when `b` holds, else empty.
pub open spec fn one_if(b: bool, n: Seq<char>) -> Seq<Seq<char>> {
    if b { seq![n] } else { Seq::empty() }
}

proof fn lemma_one_if_contains(s: Seq<Seq<char>>, b: bool, n: Seq<char>)
    ensures
        forall|x: Seq<char>| #![trigger (s + one_if(b, n)).contains(x)]
            (s + one_if(b, n)).contains(x) <==> (s.contains(x) || (b && x == n)),
{
    let t = s + one_if(b, n);
    assert forall|x: Seq<char>| #![trigger t.contains(x)] t.contains(x) <==> (s.contains(x) || (b && x == n)) by {
        if t.contains(x) {
            let k = choose|k: int| 0 <= k < t.len() && t[k] == x;
            if k < s.len() {
                assert(s[k] == x);
            }
        }
        if s.contains(x) {
            let k = choose|k: int| 0 <= k < s.len() && s[k] == x;
            assert(t[k] == x);
        }
        if b && x == n {
            assert(t[s.len() as int] == x);
        }
    }
}

/// A hard field is reported as a conflict exactly when both persons have a
/// value for it and the values differ.
pub proof fn lemma_conflicts_are_differing_hard_fields(a: Person, b: Person)
    ensures
        conflict_fields(a, b).contains("date_of_birth"@) <==> (a.date_of_birth is Some && b.date_of_birth is Some
            && a.date_of_birth->0@ != b.date_of_birth->0@),
        conflict_fields(a, b).contains("place_of_birth"@) <==> (a.place_of_birth is Some && b.place_of_birth is Some
            && a.place_of_birth->0@ != b.place_of_birth->0@),
        conflict_fields(a, b).contains("date_of_death"@) <==> (a.date_of_death is Some && b.date_of_death is Some
            && a.date_of_death->0@ != b.date_of_death->0@),
        conflict_fields(a, b).contains("place_of_death"@) <==> (a.place_of_death is Some && b.place_of_death is Some
            && a.place_of_death->0@ != b.place_of_death->0@),
        conflict_fields(a, b).contains("birth_cert_authority"@) <==> (a.birth_cert_authority is Some
            && b.birth_cert_authority is Some && a.birth_cert_authority->0@ != b.birth_cert_authority->0@),
        conflict_fields(a, b).contains("birth_cert_number"@) <==> (a.birth_cert_number is Some
            && b.birth_cert_number is Some && a.birth_cert_number->0@ != b.birth_cert_number->0@),
{
    reveal_strlit("date_of_birth");
    reveal_strlit("place_of_birth");
    reveal_strlit("date_of_death");
    reveal_strlit("place_of_death");
    reveal_strlit("birth_cert_authority");
    reveal_strlit("birth_cert_number");
    assert("date_of_birth"@[8] != "date_of_death"@[8]);
    assert("place_of_birth"@[9] != "place_of_death"@[9]);
    assert("date_of_birth"@[0] != "place_of_birth"@[0]);
    assert("date_of_birth"@[0] != "place_of_death"@[0]);
    assert("date_of_birth"@[0] != "birth_cert_authority"@[0]);
    assert("date_of_birth"@[0] != "birth_cert_number"@[0]);
    assert("date_of_death"@[0] != "place_of_birth"@[0]);
    assert("date_of_death"@[0] != "place_of_death"@[0]);
    assert("date_of_death"@[0] != "birth_cert_authority"@[0]);
    assert("date_of_death"@[0] != "birth_cert_number"@[0]);
    assert("place_of_birth"@[0] != "birth_cert_authority"@[0]);
    assert("place_of_birth"@[0] != "birth_cert_number"@[0]);
    assert("place_of_death"@[0] != "birth_cert_authority"@[0]);
    assert("place_of_death"@[0] != "birth_cert_number"@[0]);
    assert("birth_cert_authority"@.len() != "birth_cert_number"@.len());
    let f1 = one_if(conflicting(a.date_of_birth, b.date_of_birth), "date_of_birth"@);
    let f2 = one_if(conflicting(a.place_of_birth, b.place_of_birth), "place_of_birth"@);
    let f3 = one_if(conflicting(a.date_of_death, b.date_of_death), "date_of_death"@);
    let f4 = one_if(conflicting(a.place_of_death, b.place_of_death), "place_of_death"@);
    let f5 = one_if(conflicting(a.birth_cert_authority, b.birth_cert_authority), "birth_cert_authority"@);
    let f6 = one_if(conflicting(a.birth_cert_number, b.birth_cert_number), "birth_cert_number"@);
    assert(conflict_fields(a, b) == f1 + f2 + f3 + f4 + f5 + f6);
    lemma_one_if_contains(Seq::empty(), conflicting(a.date_of_birth, b.date_of_birth), "date_of_birth"@);
    assert(Seq::<Seq<char>>::empty() + f1 =~= f1);
    lemma_one_if_contains(f1, conflicting(a.place_of_birth, b.place_of_birth), "place_of_birth"@);
    lemma_one_if_contains(f1 + f2, conflicting(a.date_of_death, b.date_of_death), "date_of_death"@);
    lemma_one_if_contains(f1 + f2 + f3, conflicting(a.place_of_death, b.place_of_death), "place_of_death"@);
    lemma_one_if_contains(f1 + f2 + f3 + f4, conflicting(a.birth_cert_authority, b.birth_cert_authority), "birth_cert_authority"@);
    lemma_one_if_contains(f1 + f2 + f3 + f4 + f5, conflicting(a.birth_cert_number, b.birth_cert_number), "birth_cert_number"@);
}

} // verus!

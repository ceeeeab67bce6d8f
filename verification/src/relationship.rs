//! Relationship vocabulary (pedigree, edge tables), the edges a request
//! writes, and the family-tree view built from the edges.

use vstd::prelude::*;
use vstd::string::StringExecFns;
use crate::person::{Person, PersonProxy, Sex, or_else, or_opt};
use crate::text::{copy_opt, split_once, str_eq};

verus! {

/// The nature of a parent-child or sibling relationship. Parent edges hold
/// `birth` or `adopted`; sibling edges also `half`.
#[derive(Debug, Clone, Copy, PartialEq, Eq, Structural)]
pub enum Pedigree {
    Birth,
    Adopted,
    Half,
}

impl Default for Pedigree {
    fn default() -> (r: Pedigree)
        ensures
            r == Pedigree::Birth,
    {
        Pedigree::Birth
    }
}

/// The stored form of a pedigree.
pub open spec fn pedigree_str(p: Pedigree) -> Seq<char> {
    match p {
        Pedigree::Birth => "birth"@,
        Pedigree::Adopted => "adopted"@,
        Pedigree::Half => "half"@,
    }
}

/// The pedigree of a stored string: `adopted` and `half`, anything else
/// is a birth relationship.
pub open spec fn pedigree_of(s: Seq<char>) -> Pedigree {
    if s == "adopted"@ {
        Pedigree::Adopted
    } else if s == "half"@ {
        Pedigree::Half
    } else {
        Pedigree::Birth
    }
}

impl Pedigree {
    /// The stored form: `birth`, `adopted` or `half`.
    pub fn as_db_str(&self) -> (r: &'static str)
        ensures
            r@ == pedigree_str(*self),
    {
        match self {
            Pedigree::Birth => "birth",
            Pedigree::Adopted => "adopted",
            Pedigree::Half => "half",
        }
    }

    /// Reads a stored pedigree; unknown strings are `Birth`.
    pub fn from_db_str(s: &str) -> (r: Pedigree)
        ensures
            r == pedigree_of(s@),
    {
        if str_eq(s, "adopted") {
            Pedigree::Adopted
        } else if str_eq(s, "half") {
            Pedigree::Half
        } else {
            Pedigree::Birth
        }
    }
}

/// Reading back the stored form of a pedigree gives the same pedigree.
pub proof fn lemma_pedigree_round_trip(p: Pedigree)
    ensures
        pedigree_of(pedigree_str(p)) == p,
{
    reveal_strlit("birth");
    reveal_strlit("adopted");
    reveal_strlit("half");
    assert("birth"@[0] != "adopted"@[0]);
    assert("birth"@[0] != "half"@[0]);
    assert("adopted"@[0] != "half"@[0]);
}

/// The pedigree of an edge: the stored one, or `Birth` when the edge has none.
pub fn edge_pedigree(stored: Option<&str>) -> (r: Pedigree)
    ensures
        r == match stored {
            Some(s) => pedigree_of(s@),
            None => Pedigree::Birth,
        },
{
    match stored {
        Some(s) => Pedigree::from_db_str(s),
        None => Pedigree::Birth,
    }
}

/// The kind of a relationship edge.
#[derive(Debug, Clone, Copy, PartialEq, Eq, Structural)]
pub enum RelationshipType {
    Father,
    Mother,
    Sibling,
    Spouse,
}

/// The edge table of a relationship kind.
pub open spec fn table_of(t: RelationshipType) -> Seq<char> {
    match t {
        RelationshipType::Father => "has_father"@,
        RelationshipType::Mother => "has_mother"@,
        RelationshipType::Sibling => "has_sibling"@,
        RelationshipType::Spouse => "has_spouse"@,
    }
}

/// The relationship kind of an edge table name, if it is one.
pub open spec fn relationship_of(s: Seq<char>) -> Option<RelationshipType> {
    if s == "has_father"@ {
        Some(RelationshipType::Father)
    } else if s == "has_mother"@ {
        Some(RelationshipType::Mother)
    } else if s == "has_sibling"@ {
        Some(RelationshipType::Sibling)
    } else if s == "has_spouse"@ {
        Some(RelationshipType::Spouse)
    } else {
        None
    }
}

impl RelationshipType {
    /// The edge table: `has_father`, `has_mother`, `has_sibling` or `has_spouse`.
    pub fn table_name(&self) -> (r: &'static str)
        ensures
            r@ == table_of(*self),
    {
        match self {
            RelationshipType::Father => "has_father",
            RelationshipType::Mother => "has_mother",
            RelationshipType::Sibling => "has_sibling",
            RelationshipType::Spouse => "has_spouse",
        }
    }

    /// The relationship kind of an edge table name.
    pub fn from_str(s: &str) -> (r: Option<RelationshipType>)
        ensures
            r == relationship_of(s@),
    {
        if str_eq(s, "has_father") {
            Some(RelationshipType::Father)
        } else if str_eq(s, "has_mother") {
            Some(RelationshipType::Mother)
        } else if str_eq(s, "has_sibling") {
            Some(RelationshipType::Sibling)
        } else if str_eq(s, "has_spouse") {
            Some(RelationshipType::Spouse)
        } else {
            None
        }
    }
}

/// Edge table names and relationship kinds correspond one to one.
pub proof fn lemma_relationship_table_round_trip(t: RelationshipType, s: Seq<char>)
    ensures
        relationship_of(table_of(t)) == Some(t),
        relationship_of(s) == Some(t) ==> table_of(t) == s,
{
    reveal_strlit("has_father");
    reveal_strlit("has_mother");
    reveal_strlit("has_sibling");
    reveal_strlit("has_spouse");
    assert("has_father"@[4] != "has_mother"@[4]);
    assert("has_father"@[4] != "has_sibling"@[4]);
    assert("has_father"@[4] != "has_spouse"@[4]);
    assert("has_mother"@[4] != "has_sibling"@[4]);
    assert("has_mother"@[4] != "has_spouse"@[4]);
    assert("has_sibling"@[5] != "has_spouse"@[5]);
}

/// Brother or sister.
#[derive(Debug, Clone, Copy, PartialEq, Eq, Structural)]
pub enum SiblingType {
    Brother,
    Sister,
}

impl SiblingType {
    /// The stored form: `Brother` or `Sister`.
    pub fn as_str(&self) -> (r: &'static str)
        ensures
            r@ == (match self {
                SiblingType::Brother => "Brother"@,
                SiblingType::Sister => "Sister"@,
            }),
    {
        match self {
            SiblingType::Brother => "Brother",
            SiblingType::Sister => "Sister",
        }
    }
}

/// Request body for adding a relationship.
pub struct AddRelationshipRequest {
    pub rel_type: RelationshipType,
    /// Full record id of the related proxy (`person_proxy:<ulid>`).
    pub related_id: String,
    /// Required for a sibling.
    pub sibling_type: Option<SiblingType>,
    pub spouse_from: Option<String>,
    pub spouse_to: Option<String>,
    pub pedigree: Pedigree,
    /// For half or adopted siblings, the parent through whom they are related.
    pub via_parent_id: Option<String>,
}

/// Request body for changing the pedigree of an edge.
pub struct UpdateRelationshipRequest {
    pub pedigree: Pedigree,
    pub via_parent_id: Option<String>,
}

/// Request body for changing the dates of a marriage.
pub struct UpdateSpouseDatesRequest {
    pub spouse_from: Option<String>,
    pub spouse_to: Option<String>,
}

/// Why a relationship request is refused.
#[derive(Debug, Clone, PartialEq, Eq)]
pub enum RelationshipError {
    /// Malformed input, with the message for the caller.
    BadRequest(String),
    /// An unknown edge table, with the message for the caller.
    InvalidRelType(String),
}

/// A record id split at its first colon: `(table, key)`.
pub fn parse_record_id(s: &str) -> (r: Result<(&str, &str), RelationshipError>)
    ensures
        match r {
            Ok((table, key)) => exists|i: int| 0 <= i < s@.len() && s@[i] == ':'
                && (forall|j: int| 0 <= j < i ==> s@[j] != ':')
                && table@ == s@.take(i) && key@ == s@.skip(i + 1),
            Err(e) => (forall|i: int| 0 <= i < s@.len() ==> s@[i] != ':')
                && (e matches RelationshipError::BadRequest(m) && m@ == "Expected 'table:id', got: "@ + s@),
        },
{
    match split_once(s, ':') {
        Some((table, key)) => Ok((table, key)),
        None => {
            let mut msg = String::from_str("Expected 'table:id', got: ");
            msg.append(s);
            Err(RelationshipError::BadRequest(msg))
        },
    }
}

/// The edges that adding a relationship writes, from the person to the
/// related proxy.
pub enum RelationEdges {
    /// One parent edge in `table` with the pedigree.
    Parent { table: &'static str, pedigree: &'static str },
    /// One sibling edge.
    Sibling { sibling_type: &'static str, pedigree: &'static str, via_parent_id: Option<String> },
    /// Spouse edges in both directions with the same dates (empty when absent).
    Spouse { spouse_from: String, spouse_to: String },
}

/// What adding a relationship writes: a parent edge with its pedigree, a
/// sibling edge (which needs a sibling type), or spouse edges both ways.
pub fn relation_edges(req: AddRelationshipRequest) -> (r: Result<RelationEdges, RelationshipError>)
    ensures
        match req.rel_type {
            RelationshipType::Father => r matches Ok(RelationEdges::Parent { table, pedigree })
                && table@ == "has_father"@ && pedigree@ == pedigree_str(req.pedigree),
            RelationshipType::Mother => r matches Ok(RelationEdges::Parent { table, pedigree })
                && table@ == "has_mother"@ && pedigree@ == pedigree_str(req.pedigree),
            RelationshipType::Sibling => match req.sibling_type {
                None => r matches Err(RelationshipError::BadRequest(m))
                    && m@ == "sibling_type required for Sibling relationship"@,
                Some(st) => r matches Ok(RelationEdges::Sibling { sibling_type, pedigree, via_parent_id })
                    && sibling_type@ == (match st {
                        SiblingType::Brother => "Brother"@,
                        SiblingType::Sister => "Sister"@,
                    })
                    && pedigree@ == pedigree_str(req.pedigree) && via_parent_id == req.via_parent_id,
            },
            RelationshipType::Spouse => r matches Ok(RelationEdges::Spouse { spouse_from, spouse_to })
                && spouse_from@ == (match req.spouse_from {
                    Some(d) => d@,
                    None => Seq::<char>::empty(),
                })
                && spouse_to@ == (match req.spouse_to {
                    Some(d) => d@,
                    None => Seq::<char>::empty(),
                }),
        },
{
    match req.rel_type {
        RelationshipType::Father => Ok(RelationEdges::Parent { table: "has_father", pedigree: req.pedigree.as_db_str() }),
        RelationshipType::Mother => Ok(RelationEdges::Parent { table: "has_mother", pedigree: req.pedigree.as_db_str() }),
        RelationshipType::Sibling => match req.sibling_type {
            None => Err(RelationshipError::BadRequest("sibling_type required for Sibling relationship".to_owned())),
            Some(st) => Ok(RelationEdges::Sibling {
                sibling_type: st.as_str(),
                pedigree: req.pedigree.as_db_str(),
                via_parent_id: req.via_parent_id,
            }),
        },
        RelationshipType::Spouse => {
            let spouse_from = match req.spouse_from {
                Some(d) => d,
                None => String::new(),
            };
            let spouse_to = match req.spouse_to {
                Some(d) => d,
                None => String::new(),
            };
            Ok(RelationEdges::Spouse { spouse_from, spouse_to })
        },
    }
}

/// How a pedigree change is written.
pub enum PedigreeUpdate {
    /// The parent edge in `table` gets `pedigree`; sibling edges formed
    /// through that parent get `sibling_pedigree`.
    Parent { table: &'static str, pedigree: &'static str, sibling_pedigree: &'static str },
    /// Both directions of the sibling edge get the pedigree and parent.
    Sibling { pedigree: &'static str, via_parent_id: Option<String> },
}

/// The write of a pedigree change on edge table `rel_type`. Sibling edges
/// through a parent become `adopted` when the parent edge is no longer a birth
/// edge and `birth` when it is. Spouse edges have no pedigree.
pub fn pedigree_update(rel_type: &str, req: UpdateRelationshipRequest) -> (r: Result<PedigreeUpdate, RelationshipError>)
    ensures
        match relationship_of(rel_type@) {
            None => r matches Err(RelationshipError::InvalidRelType(_)),
            Some(RelationshipType::Spouse) => r matches Err(RelationshipError::BadRequest(m))
                && m@ == "Pedigree update not supported for this relationship type"@,
            Some(RelationshipType::Sibling) => r matches Ok(PedigreeUpdate::Sibling { pedigree, via_parent_id })
                && pedigree@ == pedigree_str(req.pedigree) && via_parent_id == req.via_parent_id,
            Some(t) => r matches Ok(PedigreeUpdate::Parent { table, pedigree, sibling_pedigree })
                && table@ == table_of(t) && pedigree@ == pedigree_str(req.pedigree)
                && sibling_pedigree@ == (if req.pedigree != Pedigree::Birth { "adopted"@ } else { "birth"@ }),
        },
{
    match RelationshipType::from_str(rel_type) {
        None => {
            let mut msg = String::from_str("Unknown relationship type: ");
            msg.append(rel_type);
            Err(RelationshipError::InvalidRelType(msg))
        },
        Some(t) => match t {
            RelationshipType::Father | RelationshipType::Mother => {
                let sibling_pedigree = if req.pedigree != Pedigree::Birth { "adopted" } else { "birth" };
                Ok(PedigreeUpdate::Parent { table: t.table_name(), pedigree: req.pedigree.as_db_str(), sibling_pedigree })
            },
            RelationshipType::Sibling => Ok(PedigreeUpdate::Sibling {
                pedigree: req.pedigree.as_db_str(),
                via_parent_id: req.via_parent_id,
            }),
            RelationshipType::Spouse => Err(RelationshipError::BadRequest(
                "Pedigree update not supported for this relationship type".to_owned(),
            )),
        },
    }
}

/// Which edges deleting a relationship removes: `true` for both directions
/// (a marriage), `false` for the edge from the person only.
pub fn delete_both_directions(rel_type: &str) -> (r: Result<bool, RelationshipError>)
    ensures
        match relationship_of(rel_type@) {
            None => r matches Err(RelationshipError::InvalidRelType(_)),
            Some(t) => r == Ok::<bool, RelationshipError>(t == RelationshipType::Spouse),
        },
{
    match RelationshipType::from_str(rel_type) {
        None => {
            let mut msg = String::from_str("Unknown relationship type: ");
            msg.append(rel_type);
            Err(RelationshipError::InvalidRelType(msg))
        },
        Some(t) => Ok(match t {
            RelationshipType::Spouse => true,
            _ => false,
        }),
    }
}

/// The projection of a proxy at edge end `side` as a person record: the
/// proxy id, preferred names over canonical ones, canonical facts, and the
/// proxy's creator over the canonical one.
pub open spec fn person_select(side: Seq<char>) -> Seq<char> {
    "{ id: "@ + side + ".id, family_name: "@ + side + ".preferred_family_name ?? "@ + side
        + ".person_id.family_name, first_name:  "@ + side + ".preferred_first_name  ?? "@ + side
        + ".person_id.first_name, middle_name: "@ + side + ".preferred_middle_name ?? "@ + side
        + ".person_id.middle_name, sex: "@ + side + ".person_id.sex, date_of_birth: "@ + side
        + ".person_id.date_of_birth, place_of_birth: "@ + side + ".person_id.place_of_birth, date_of_death: "@
        + side + ".person_id.date_of_death, place_of_death: "@ + side
        + ".person_id.place_of_death, birth_cert_authority: "@ + side
        + ".person_id.birth_cert_authority, birth_cert_number: "@ + side
        + ".person_id.birth_cert_number, created_by: "@ + side + ".created_by ?? "@ + side
        + ".person_id.created_by }"@
}

/// The query projection of the proxy at edge end `side` (`in` or `out`) as
/// a person record.
pub fn proxy_person_select(side: &str) -> (r: String)
    ensures
        r@ == person_select(side@),
{
    let mut q = String::from_str("{ id: ");
    q.append(side);
    q.append(".id, family_name: ");
    q.append(side);
    q.append(".preferred_family_name ?? ");
    q.append(side);
    q.append(".person_id.family_name, first_name:  ");
    q.append(side);
    q.append(".preferred_first_name  ?? ");
    q.append(side);
    q.append(".person_id.first_name, middle_name: ");
    q.append(side);
    q.append(".preferred_middle_name ?? ");
    q.append(side);
    q.append(".person_id.middle_name, sex: ");
    q.append(side);
    q.append(".person_id.sex, date_of_birth: ");
    q.append(side);
    q.append(".person_id.date_of_birth, place_of_birth: ");
    q.append(side);
    q.append(".person_id.place_of_birth, date_of_death: ");
    q.append(side);
    q.append(".person_id.date_of_death, place_of_death: ");
    q.append(side);
    q.append(".person_id.place_of_death, birth_cert_authority: ");
    q.append(side);
    q.append(".person_id.birth_cert_authority, birth_cert_number: ");
    q.append(side);
    q.append(".person_id.birth_cert_number, created_by: ");
    q.append(side);
    q.append(".created_by ?? ");
    q.append(side);
    q.append(".person_id.created_by }");
    q
}

/// A proxy as a person record: the proxy id, display names preferred over
/// canonical ones, canonical facts, the proxy's creator over the canonical
/// one, and the proxy's creation time.
pub fn proxy_to_person(proxy: PersonProxy, canonical: Person) -> (r: Person)
    ensures
        r.id == proxy.id,
        r.family_name == or_else(proxy.preferred_family_name, canonical.family_name),
        r.first_name == or_else(proxy.preferred_first_name, canonical.first_name),
        r.middle_name == or_opt(proxy.preferred_middle_name, canonical.middle_name),
        r.sex == canonical.sex,
        r.date_of_birth == canonical.date_of_birth,
        r.place_of_birth == canonical.place_of_birth,
        r.date_of_death == canonical.date_of_death,
        r.place_of_death == canonical.place_of_death,
        r.birth_cert_authority == canonical.birth_cert_authority,
        r.birth_cert_number == canonical.birth_cert_number,
        r.created_by == or_opt(proxy.created_by, canonical.created_by),
        r.created_at == proxy.created_at,
{
    Person {
        id: proxy.id,
        family_name: match proxy.preferred_family_name {
            Some(v) => v,
            None => canonical.family_name,
        },
        first_name: match proxy.preferred_first_name {
            Some(v) => v,
            None => canonical.first_name,
        },
        middle_name: match proxy.preferred_middle_name {
            Some(v) => Some(v),
            None => canonical.middle_name,
        },
        sex: canonical.sex,
        date_of_birth: canonical.date_of_birth,
        place_of_birth: canonical.place_of_birth,
        date_of_death: canonical.date_of_death,
        place_of_death: canonical.place_of_death,
        birth_cert_authority: canonical.birth_cert_authority,
        birth_cert_number: canonical.birth_cert_number,
        created_by: match proxy.created_by {
            Some(v) => Some(v),
            None => canonical.created_by,
        },
        created_at: proxy.created_at,
    }
}

/// A parent with the pedigree of the edge.
pub struct ParentInfo {
    pub person: Person,
    pub pedigree: Pedigree,
}

/// A sibling with the pedigree of the edge and the parent it goes through.
pub struct SiblingInfo {
    pub person: Person,
    pub pedigree: Pedigree,
    pub via_parent_id: Option<String>,
}

/// A spouse with the dates of the marriage.
pub struct SpouseInfo {
    pub person: Person,
    pub spouse_from: Option<String>,
    pub spouse_to: Option<String>,
}

/// The relationships of a person, grouped.
pub struct RelationshipsResponse {
    pub father: Vec<ParentInfo>,
    pub mother: Vec<ParentInfo>,
    pub siblings: Vec<SiblingInfo>,
    pub spouse: Vec<SpouseInfo>,
}

/// A node of the family-tree view.
pub struct FamilyTreeNode {
    /// Proxy record id (`person_proxy:<ulid>`).
    pub id: String,
    pub family_name: String,
    pub first_name: String,
    pub sex: Option<Sex>,
    pub date_of_birth: Option<String>,
    pub place_of_birth: Option<String>,
    pub biography: Option<String>,
    pub image_path: Option<String>,
    /// The pedigree of the edge that leads to this node, if any.
    pub pedigree: Option<Pedigree>,
    pub father: Vec<FamilyTreeNode>,
    pub mother: Vec<FamilyTreeNode>,
    pub children: Vec<FamilyTreeNode>,
    pub spouse: Vec<FamilyTreeNode>,
    pub siblings: Vec<FamilyTreeNode>,
    /// For a sibling node, the parent through whom the sibling is related.
    pub via_parent_id: Option<String>,
}

/// The parents of one person.
pub struct ParentEdges {
    /// The person's proxy id.
    pub child_id: String,
    pub fathers: Vec<ParentInfo>,
    pub mothers: Vec<ParentInfo>,
}

/// The edges the family-tree view reads: the parents of each person up the
/// tree, and the children, spouses and siblings of the root person.
pub struct FamilySnapshot {
    pub parents: Vec<ParentEdges>,
    pub children: Vec<(Person, Pedigree)>,
    pub spouses: Vec<SpouseInfo>,
    pub siblings: Vec<SiblingInfo>,
}

/// The last parent record of the person with proxy id `id`.
pub open spec fn edges_for(es: Seq<ParentEdges>, id: Seq<char>) -> Option<ParentEdges>
    decreases es.len(),
{
    if es.len() == 0 {
        None
    } else if es.last().child_id@ == id {
        Some(es.last())
    } else {
        edges_for(es.drop_last(), id)
    }
}

/// Whether `n` shows the person's own fields: id, names, sex, birth date
/// and place; no biography and no image.
pub open spec fn shows_person(n: FamilyTreeNode, p: Person) -> bool {
    &&& n.id == p.id
    &&& n.family_name == p.family_name
    &&& n.first_name == p.first_name
    &&& n.sex == Some(p.sex)
    &&& n.date_of_birth == p.date_of_birth
    &&& n.place_of_birth == p.place_of_birth
    &&& n.biography is None
    &&& n.image_path is None
}

/// Whether `n` is a leaf node of `p`: its fields and no relatives.
pub open spec fn is_leaf(n: FamilyTreeNode, p: Person) -> bool {
    &&& shows_person(n, p)
    &&& n.father@.len() == 0
    &&& n.mother@.len() == 0
    &&& n.children@.len() == 0
    &&& n.spouse@.len() == 0
    &&& n.siblings@.len() == 0
}

/// Whether `n` is the family-tree node of `p` with `depth` generations of
/// ancestors; the root node also lists children, spouses and siblings as
/// leaves. Parent nodes carry their edge's pedigree.
pub open spec fn is_tree_node(n: FamilyTreeNode, p: Person, depth: nat, root: bool, g: FamilySnapshot) -> bool
    decreases depth,
{
    &&& shows_person(n, p)
    &&& (if root {
        &&& n.children@.len() == g.children@.len()
        &&& (forall|i: int| 0 <= i < n.children@.len() ==> is_leaf(#[trigger] n.children@[i], g.children@[i].0)
            && n.children@[i].pedigree == Some(g.children@[i].1) && n.children@[i].via_parent_id is None)
        &&& n.spouse@.len() == g.spouses@.len()
        &&& (forall|i: int| 0 <= i < n.spouse@.len() ==> is_leaf(#[trigger] n.spouse@[i], g.spouses@[i].person)
            && n.spouse@[i].pedigree is None && n.spouse@[i].via_parent_id is None)
        &&& n.siblings@.len() == g.siblings@.len()
        &&& (forall|i: int| 0 <= i < n.siblings@.len() ==> is_leaf(#[trigger] n.siblings@[i], g.siblings@[i].person)
            && n.siblings@[i].pedigree == Some(g.siblings@[i].pedigree)
            && n.siblings@[i].via_parent_id == g.siblings@[i].via_parent_id)
    } else {
        n.children@.len() == 0 && n.spouse@.len() == 0 && n.siblings@.len() == 0
    })
    &&& (if depth == 0 {
        n.father@.len() == 0 && n.mother@.len() == 0
    } else {
        let fathers = match edges_for(g.parents@, p.id@) {
            Some(e) => e.fathers@,
            None => Seq::empty(),
        };
        let mothers = match edges_for(g.parents@, p.id@) {
            Some(e) => e.mothers@,
            None => Seq::empty(),
        };
        &&& n.father@.len() == fathers.len()
        &&& (forall|i: int| 0 <= i < n.father@.len() ==> is_tree_node(#[trigger] n.father@[i], fathers[i].person,
            (depth - 1) as nat, false, g) && n.father@[i].pedigree == Some(fathers[i].pedigree)
            && n.father@[i].via_parent_id is None)
        &&& n.mother@.len() == mothers.len()
        &&& (forall|i: int| 0 <= i < n.mother@.len() ==> is_tree_node(#[trigger] n.mother@[i], mothers[i].person,
            (depth - 1) as nat, false, g) && n.mother@[i].pedigree == Some(mothers[i].pedigree)
            && n.mother@[i].via_parent_id is None)
    })
}

/// A node of `p` without relatives, pedigree or parent.
fn leaf_node(p: Person) -> (n: FamilyTreeNode)
    ensures
        is_leaf(n, p),
        n.pedigree is None,
        n.via_parent_id is None,
{
    FamilyTreeNode {
        id: p.id,
        family_name: p.family_name,
        first_name: p.first_name,
        sex: Some(p.sex),
        date_of_birth: p.date_of_birth,
        place_of_birth: p.place_of_birth,
        biography: None,
        image_path: None,
        pedigree: None,
        father: Vec::new(),
        mother: Vec::new(),
        children: Vec::new(),
        spouse: Vec::new(),
        siblings: Vec::new(),
        via_parent_id: None,
    }
}

/// The index of the last parent record of the person with proxy id `id`.
fn find_edges(es: &Vec<ParentEdges>, id: &str) -> (r: Option<usize>)
    ensures
        match r {
            Some(k) => k < es.len() && edges_for(es@, id@) == Some(es@[k as int]),
            None => edges_for(es@, id@) is None,
        },
{
    let mut k: usize = es.len();
    proof {
        assert(es@.take(k as int) =~= es@);
    }
    while k > 0
        invariant
            k <= es.len(),
            edges_for(es@, id@) == edges_for(es@.take(k as int), id@),
        decreases k,
    {
        proof {
            assert(es@.take(k as int).drop_last() =~= es@.take(k - 1));
        }
        if str_eq(es[k - 1].child_id.as_str(), id) {
            return Some(k - 1);
        }
        k = k - 1;
    }
    None
}

/// The nodes of a list of parents, each with `depth` generations above it.
fn parent_nodes(g: &FamilySnapshot, parents: &Vec<ParentInfo>, depth: u8) -> (r: Vec<FamilyTreeNode>)
    ensures
        r@.len() == parents@.len(),
        forall|i: int| 0 <= i < r@.len() ==> is_tree_node(#[trigger] r@[i], parents@[i].person, depth as nat, false, *g)
            && r@[i].pedigree == Some(parents@[i].pedigree) && r@[i].via_parent_id is None,
    decreases depth, 1nat,
{
    let mut out: Vec<FamilyTreeNode> = Vec::new();
    let mut i: usize = 0;
    while i < parents.len()
        invariant
            i <= parents.len(),
            out@.len() == i,
            forall|k: int| 0 <= k < i ==> is_tree_node(#[trigger] out@[k], parents@[k].person, depth as nat, false, *g)
                && out@[k].pedigree == Some(parents@[k].pedigree) && out@[k].via_parent_id is None,
        decreases parents.len() - i,
    {
        let mut node = build_tree_node(g, parents[i].person.copy(), depth, false);
        node.pedigree = Some(parents[i].pedigree);
        out.push(node);
        i = i + 1;
    }
    out
}

/// The family-tree node of a person with `depth` generations of ancestors
/// read from the snapshot; with `include_root_extras` it also lists the
/// root's children, spouses and siblings.
pub fn build_tree_node(g: &FamilySnapshot, person: Person, depth: u8, include_root_extras: bool) -> (n: FamilyTreeNode)
    ensures
        is_tree_node(n, person, depth as nat, include_root_extras, *g),
        n.pedigree is None,
        n.via_parent_id is None,
    decreases depth, 0nat,
{
    let mut children: Vec<FamilyTreeNode> = Vec::new();
    let mut spouse: Vec<FamilyTreeNode> = Vec::new();
    let mut siblings: Vec<FamilyTreeNode> = Vec::new();
    if include_root_extras {
        let mut i: usize = 0;
        while i < g.children.len()
            invariant
                i <= g.children.len(),
                children@.len() == i,
                forall|k: int| 0 <= k < i ==> is_leaf(#[trigger] children@[k], g.children@[k].0)
                    && children@[k].pedigree == Some(g.children@[k].1) && children@[k].via_parent_id is None,
            decreases g.children.len() - i,
        {
            let mut node = leaf_node(g.children[i].0.copy());
            node.pedigree = Some(g.children[i].1);
            children.push(node);
            i = i + 1;
        }
        let mut i: usize = 0;
        while i < g.spouses.len()
            invariant
                i <= g.spouses.len(),
                spouse@.len() == i,
                forall|k: int| 0 <= k < i ==> is_leaf(#[trigger] spouse@[k], g.spouses@[k].person)
                    && spouse@[k].pedigree is None && spouse@[k].via_parent_id is None,
            decreases g.spouses.len() - i,
        {
            spouse.push(leaf_node(g.spouses[i].person.copy()));
            i = i + 1;
        }
        let mut i: usize = 0;
        while i < g.siblings.len()
            invariant
                i <= g.siblings.len(),
                siblings@.len() == i,
                forall|k: int| 0 <= k < i ==> is_leaf(#[trigger] siblings@[k], g.siblings@[k].person)
                    && siblings@[k].pedigree == Some(g.siblings@[k].pedigree)
                    && siblings@[k].via_parent_id == g.siblings@[k].via_parent_id,
            decreases g.siblings.len() - i,
        {
            let mut node = leaf_node(g.siblings[i].person.copy());
            node.pedigree = Some(g.siblings[i].pedigree);
            node.via_parent_id = copy_opt(&g.siblings[i].via_parent_id);
            siblings.push(node);
            i = i + 1;
        }
    }
    let (father, mother) = if depth == 0 {
        (Vec::new(), Vec::new())
    } else {
        match find_edges(&g.parents, person.id.as_str()) {
            Some(k) => (
                parent_nodes(g, &g.parents[k].fathers, depth - 1),
                parent_nodes(g, &g.parents[k].mothers, depth - 1),
            ),
            None => (Vec::new(), Vec::new()),
        }
    };
    FamilyTreeNode {
        id: person.id,
        family_name: person.family_name,
        first_name: person.first_name,
        sex: Some(person.sex),
        date_of_birth: person.date_of_birth,
        place_of_birth: person.place_of_birth,
        biography: None,
        image_path: None,
        pedigree: None,
        father,
        mother,
        children,
        spouse,
        siblings,
        via_parent_id: None,
    }
}

/// The keys kept by `first_of_each`: the rows whose key did not occur before.
pub open spec fn first_of_each<T>(rows: Seq<(String, T)>) -> Seq<(String, T)>
    decreases rows.len(),
{
    if rows.len() == 0 {
        Seq::empty()
    } else {
        let prev = first_of_each(rows.drop_last());
        if exists|j: int| 0 <= j < rows.len() - 1 && #[trigger] rows[j].0@ == rows.last().0@ {
            prev
        } else {
            prev.push(rows.last())
        }
    }
}

/// Keeps the first row of each key, in order: the deduplication of the
/// children found through both parent edges and of the siblings found
/// through both directions of the sibling edge.
pub fn dedup_by_person<T>(rows: Vec<(String, T)>) -> (r: Vec<(String, T)>)
    ensures
        r@ == first_of_each(rows@),
{
    let ghost all = rows@;
    let n = rows.len();
    let mut keep: Vec<bool> = Vec::new();
    let mut i: usize = 0;
    while i < n
        invariant
            all == rows@,
            n == rows.len(),
            i <= n,
            keep@.len() == i,
            forall|k: int| 0 <= k < i ==> #[trigger] keep@[k] == !(exists|j: int| 0 <= j < k && #[trigger] all[j].0@ == all[k].0@),
        decreases n - i,
    {
        let mut fresh = true;
        let mut j: usize = 0;
        while j < i
            invariant
                all == rows@,
                n == rows.len(),
                i < n,
                j <= i,
                fresh == !(exists|m: int| 0 <= m < j && #[trigger] all[m].0@ == all[i as int].0@),
            decreases i - j,
        {
            if str_eq(rows[j].0.as_str(), rows[i].0.as_str()) {
                fresh = false;
            }
            proof {
                if !fresh {
                    if all[j as int].0@ == all[i as int].0@ {
                        assert(exists|m: int| 0 <= m < j + 1 && #[trigger] all[m].0@ == all[i as int].0@);
                    }
                }
            }
            j = j + 1;
        }
        keep.push(fresh);
        i = i + 1;
    }
    let mut stack = crate::mcp::reversed(rows);
    let mut out: Vec<(String, T)> = Vec::new();
    let mut i: usize = 0;
    while i < n
        invariant
            n == all.len(),
            i <= n,
            keep@.len() == n,
            forall|k: int| 0 <= k < n ==> #[trigger] keep@[k] == !(exists|j: int| 0 <= j < k && #[trigger] all[j].0@ == all[k].0@),
            stack@.len() == n - i,
            forall|k: int| 0 <= k < n - i ==> #[trigger] stack@[k] == all[n - 1 - k],
            out@ == first_of_each(all.take(i as int)),
        decreases n - i,
    {
        let c = stack.pop().unwrap();
        proof {
            let t = all.take(i + 1);
            assert(c == all[i as int]);
            assert(t.drop_last() =~= all.take(i as int));
            assert(t.last() == c);
            assert((exists|j: int| 0 <= j < t.len() - 1 && #[trigger] t[j].0@ == t.last().0@)
                == (exists|j: int| 0 <= j < i && #[trigger] all[j].0@ == all[i as int].0@)) by {
                if exists|j: int| 0 <= j < i && #[trigger] all[j].0@ == all[i as int].0@ {
                    let j = choose|j: int| 0 <= j < i && #[trigger] all[j].0@ == all[i as int].0@;
                    assert(t[j] == all[j]);
                }
                if exists|j: int| 0 <= j < t.len() - 1 && #[trigger] t[j].0@ == t.last().0@ {
                    let j = choose|j: int| 0 <= j < t.len() - 1 && #[trigger] t[j].0@ == t.last().0@;
                    assert(t[j] == all[j]);
                }
            }
        }
        if keep[i] {
            out.push(c);
        }
        i = i + 1;
    }
    proof {
        assert(all.take(n as int) =~= all);
    }
    out
}

/// Whether two optional parent ids name the same known parent.
pub open spec fn same_parent(a: Option<Seq<char>>, b: Option<Seq<char>>) -> bool {
    a is Some && b is Some && a->0 == b->0
}

/// The pedigree of two children of a common parent: `Birth` when they share
/// both father and mother, `Half` when they share only one parent.
pub open spec fn sibling_pedigree_spec(
    a_father: Option<Seq<char>>,
    a_mother: Option<Seq<char>>,
    b_father: Option<Seq<char>>,
    b_mother: Option<Seq<char>>,
) -> Pedigree {
    if same_parent(a_father, b_father) && same_parent(a_mother, b_mother) {
        Pedigree::Birth
    } else {
        Pedigree::Half
    }
}

fn same_known(a: Option<&str>, b: Option<&str>) -> (r: bool)
    ensures
        r == same_parent(crate::duplicates::ostr(a), crate::duplicates::ostr(b)),
{
    match (a, b) {
        (Some(x), Some(y)) => str_eq(x, y),
        _ => false,
    }
}

/// The pedigree of the sibling edge between two children of a common
/// parent, from their fathers' and mothers' proxy ids.
pub fn sibling_pedigree(a_father: Option<&str>, a_mother: Option<&str>, b_father: Option<&str>, b_mother: Option<&str>) -> (r: Pedigree)
    ensures
        r == sibling_pedigree_spec(crate::duplicates::ostr(a_father), crate::duplicates::ostr(a_mother),
            crate::duplicates::ostr(b_father), crate::duplicates::ostr(b_mother)),
{
    if same_known(a_father, b_father) && same_known(a_mother, b_mother) {
        Pedigree::Birth
    } else {
        Pedigree::Half
    }
}

/// Siblinghood does not depend on which of the two children is asked about.
pub proof fn lemma_sibling_pedigree_symmetric(
    a_father: Option<Seq<char>>,
    a_mother: Option<Seq<char>>,
    b_father: Option<Seq<char>>,
    b_mother: Option<Seq<char>>,
)
    ensures
        sibling_pedigree_spec(a_father, a_mother, b_father, b_mother)
            == sibling_pedigree_spec(b_father, b_mother, a_father, a_mother),
{
}

} // verus!

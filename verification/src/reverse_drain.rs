//! Decisions of the reverse drain, which copies notes written in the notes
//! service after a cutover back into the legacy note tables: which legacy
//! folder a service folder came from, whether a service note updates,
//! skips or creates a legacy note, the trees of a note, and which replies
//! are still missing.

use vstd::prelude::*;
use vstd::hash_map::StringHashMap;
use vstd::string::StringExecFns;
use crate::text::{split_once, str_eq, strip_prefix};

verus! {

/// The characters of `s` before its first `|` (all of `s` when it has none).
pub open spec fn up_to_bar(s: Seq<char>) -> Seq<char>
    decreases s.len(),
{
    if s.len() == 0 {
        s
    } else if s[0] == '|' {
        Seq::empty()
    } else {
        seq![s[0]] + up_to_bar(s.drop_first())
    }
}

proof fn lemma_up_to_bar(s: Seq<char>, i: int)
    requires
        0 <= i <= s.len(),
        forall|j: int| 0 <= j < i ==> s[j] != '|',
        i == s.len() || s[i] == '|',
    ensures
        up_to_bar(s) == s.take(i),
    decreases s.len(),
{
    if s.len() == 0 {
        assert(s.take(i) =~= s);
    } else if i == 0 {
        assert(s.take(0) =~= Seq::<char>::empty());
    } else {
        let t = s.drop_first();
        assert forall|j: int| 0 <= j < i - 1 implies t[j] != '|' by {
            assert(t[j] == s[j + 1]);
        }
        if i < s.len() {
            assert(t[i - 1] == s[i]);
        }
        lemma_up_to_bar(t, i - 1);
        assert(s.take(i) =~= seq![s[0]] + t.take(i - 1));
    }
}

/// The legacy folder id recorded in a forward-migration key
/// `research_folder:<id>|<team>`: the text after the prefix up to the first
/// `|`. `None` when the key does not have the prefix.
pub fn legacy_folder_id(surreal_id: &str) -> (r: Option<String>)
    ensures
        match r {
            None => !"research_folder:"@.is_prefix_of(surreal_id@),
            Some(id) => "research_folder:"@.is_prefix_of(surreal_id@)
                && id@ == up_to_bar(surreal_id@.skip("research_folder:"@.len() as int)),
        },
{
    match strip_prefix(surreal_id, "research_folder:") {
        None => None,
        Some(rest) => match split_once(rest, '|') {
            Some((a, _b)) => {
                proof {
                    let i = choose|i: int| 0 <= i < rest@.len() && rest@[i] == '|'
                        && (forall|j: int| 0 <= j < i ==> rest@[j] != '|')
                        && a@ == rest@.take(i) && _b@ == rest@.skip(i + 1);
                    lemma_up_to_bar(rest@, i);
                }
                Some(a.to_owned())
            },
            None => {
                proof {
                    lemma_up_to_bar(rest@, rest@.len() as int);
                    assert(rest@.take(rest@.len() as int) =~= rest@);
                }
                Some(rest.to_owned())
            },
        },
    }
}

/// What the drain does with a note of the service.
#[derive(Debug, Clone, PartialEq, Eq)]
pub enum Reconcile {
    /// It came from the legacy tables: update that legacy note.
    Update(String),
    /// A previous drain already created its legacy note.
    AlreadyDrained,
    /// It is new since the cutover: create a legacy note.
    Create,
}

/// The action for the service note `tack_id`, given the forward-migration
/// map (service id to legacy id) and the notes drained before.
pub fn reconcile_note(tack_id: &str, forward: &StringHashMap<String>, drained: &StringHashMap<String>) -> (r: Reconcile)
    ensures
        forward@.contains_key(tack_id@) ==> r == Reconcile::Update(forward@[tack_id@]),
        !forward@.contains_key(tack_id@) && drained@.contains_key(tack_id@) ==> r == Reconcile::AlreadyDrained,
        !forward@.contains_key(tack_id@) && !drained@.contains_key(tack_id@) ==> r == Reconcile::Create,
{
    match forward.get(tack_id) {
        Some(id) => Reconcile::Update(id.clone()),
        None => if drained.contains_key(tack_id) {
            Reconcile::AlreadyDrained
        } else {
            Reconcile::Create
        },
    }
}

/// An attachment of a note in the service.
pub struct AttachmentRef {
    pub owning_service: String,
    pub entity_type: String,
    pub entity_id: String,
}

/// Whether an attachment links a legacy tree.
pub open spec fn is_tree_attachment(a: AttachmentRef) -> bool {
    a.owning_service@ == "clann"@ && a.entity_type@ == "tree"@
}

/// The tree names of the tree attachments that resolve, in order.
pub open spec fn attached_tree_names(atts: Seq<AttachmentRef>, names: Map<Seq<char>, String>) -> Seq<Seq<char>>
    decreases atts.len(),
{
    if atts.len() == 0 {
        Seq::empty()
    } else {
        let prev = attached_tree_names(atts.drop_last(), names);
        let a = atts.last();
        if is_tree_attachment(a) && names.contains_key(a.entity_id@) {
            prev.push(names[a.entity_id@]@)
        } else {
            prev
        }
    }
}

/// `<note>:<entity>` for each tree attachment that does not resolve, in order.
pub open spec fn unresolved_tree_refs(note: Seq<char>, atts: Seq<AttachmentRef>, names: Map<Seq<char>, String>) -> Seq<Seq<char>>
    decreases atts.len(),
{
    if atts.len() == 0 {
        Seq::empty()
    } else {
        let prev = unresolved_tree_refs(note, atts.drop_last(), names);
        let a = atts.last();
        if is_tree_attachment(a) && !names.contains_key(a.entity_id@) {
            prev.push(note + ":"@ + a.entity_id@)
        } else {
            prev
        }
    }
}

/// The trees of service note `tack_id` from its attachments: the names of
/// the attached legacy trees (`tree_names` maps tree ids to names), and a
/// `<note>:<tree id>` entry for each attached tree that is unknown.
pub fn note_trees(tack_id: &str, attachments: &Vec<AttachmentRef>, tree_names: &StringHashMap<String>) -> (r: (Vec<String>, Vec<String>))
    ensures
        r.0@.map_values(|s: String| s@) == attached_tree_names(attachments@, tree_names@),
        r.1@.map_values(|s: String| s@) == unresolved_tree_refs(tack_id@, attachments@, tree_names@),
{
    let mut names: Vec<String> = Vec::new();
    let mut missing: Vec<String> = Vec::new();
    let mut i: usize = 0;
    while i < attachments.len()
        invariant
            i <= attachments.len(),
            names@.map_values(|s: String| s@) == attached_tree_names(attachments@.take(i as int), tree_names@),
            missing@.map_values(|s: String| s@) == unresolved_tree_refs(tack_id@, attachments@.take(i as int), tree_names@),
        decreases attachments.len() - i,
    {
        let a = &attachments[i];
        proof {
            assert(attachments@.take(i + 1).drop_last() =~= attachments@.take(i as int));
            assert(attachments@.take(i + 1).last() == attachments@[i as int]);
            reveal_strlit("clann");
            reveal_strlit("tree");
        }
        if str_eq(a.owning_service.as_str(), "clann") && str_eq(a.entity_type.as_str(), "tree") {
            match tree_names.get(a.entity_id.as_str()) {
                Some(n) => {
                    let ghost before = names@;
                    names.push(n.clone());
                    proof {
                        assert(names@.map_values(|s: String| s@) =~= before.map_values(|s: String| s@).push(n@));
                    }
                },
                None => {
                    let ghost before = missing@;
                    let mut e = String::from_str(tack_id);
                    e.append(":");
                    e.append(a.entity_id.as_str());
                    missing.push(e);
                    proof {
                        assert(missing@.map_values(|s: String| s@) =~= before.map_values(|s: String| s@).push(
                            tack_id@ + ":"@ + a.entity_id@));
                    }
                },
            }
        }
        i = i + 1;
    }
    proof {
        assert(attachments@.take(attachments.len() as int) =~= attachments@);
    }
    (names, missing)
}

/// The replies still to be copied: the service's replies (oldest first)
/// past the `existing_count` already present.
pub fn replies_to_create<T>(replies: Vec<T>, existing_count: usize) -> (r: Vec<T>)
    ensures
        r@ == replies@.skip(if existing_count < replies@.len() { existing_count as int } else { replies@.len() as int }),
{
    let ghost all = replies@;
    let mut replies = replies;
    let n = replies.len();
    let start = if existing_count < n { existing_count } else { n };
    let rest = replies.split_off(start);
    proof {
        assert(rest@ =~= all.skip(start as int));
    }
    rest
}

/// The author of a drained note: its resolved username, or the placeholder
/// recorded for an author that cannot be resolved.
pub fn author_or_placeholder(username: Option<String>) -> (r: String)
    ensures
        r@ == match username {
            Some(u) => u@,
            None => "clann-migration-rollback"@,
        },
{
    match username {
        Some(u) => u,
        None => "clann-migration-rollback".to_owned(),
    }
}


/// The forward-migrated notes `(service id, legacy id)` whose service id is
/// not among the notes the service listed, in order: candidates for a note
/// deleted in the service after the cutover.
pub open spec fn unlisted_notes(forward: Seq<(String, String)>, seen: Seq<Seq<char>>) -> Seq<(Seq<char>, Seq<char>)>
    decreases forward.len(),
{
    if forward.len() == 0 {
        Seq::empty()
    } else {
        let prev = unlisted_notes(forward.drop_last(), seen);
        let f = forward.last();
        if seen.contains(f.0@) { prev } else { prev.push((f.0@, f.1@)) }
    }
}

fn seen_contains(seen: &Vec<String>, id: &str) -> (r: bool)
    ensures
        r == seen@.map_values(|s: String| s@).contains(id@),
{
    let ghost v = seen@.map_values(|s: String| s@);
    let mut i: usize = 0;
    while i < seen.len()
        invariant
            v == seen@.map_values(|s: String| s@),
            i <= seen.len(),
            forall|j: int| 0 <= j < i ==> #[trigger] v[j] != id@,
        decreases seen.len() - i,
    {
        if str_eq(seen[i].as_str(), id) {
            proof {
                assert(v[i as int] == id@);
            }
            return true;
        }
        i = i + 1;
    }
    false
}

/// The forward-migrated notes the service did not list for the team; each
/// is then looked up, and one the service no longer has needs review.
pub fn unlisted_forward_notes(forward: &Vec<(String, String)>, seen: &Vec<String>) -> (r: Vec<(String, String)>)
    ensures
        r@.map_values(|p: (String, String)| (p.0@, p.1@))
            == unlisted_notes(forward@, seen@.map_values(|s: String| s@)),
{
    let ghost sv = seen@.map_values(|s: String| s@);
    let mut out: Vec<(String, String)> = Vec::new();
    let mut i: usize = 0;
    while i < forward.len()
        invariant
            sv == seen@.map_values(|s: String| s@),
            i <= forward.len(),
            out@.map_values(|p: (String, String)| (p.0@, p.1@)) == unlisted_notes(forward@.take(i as int), sv),
        decreases forward.len() - i,
    {
        let f = &forward[i];
        proof {
            assert(forward@.take(i + 1).drop_last() =~= forward@.take(i as int));
            assert(forward@.take(i + 1).last() == forward@[i as int]);
        }
        if !seen_contains(seen, f.0.as_str()) {
            let ghost before = out@;
            out.push((f.0.clone(), f.1.clone()));
            proof {
                assert(out@.map_values(|p: (String, String)| (p.0@, p.1@))
                    =~= before.map_values(|p: (String, String)| (p.0@, p.1@)).push((f.0@, f.1@)));
            }
        }
        i = i + 1;
    }
    proof {
        assert(forward@.take(forward.len() as int) =~= forward@);
    }
    out
}

} // verus!

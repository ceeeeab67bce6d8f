//! Life events of a person: creation, merge updates, and the timeline that
//! joins a proxy's own events with the canonical events of its person.

use vstd::prelude::*;
use crate::text::{lex_le, str_eq, str_lex_le, copy_opt, opt_chars};

verus! {

/// Common event types; events store the type as free text.
#[derive(Debug, Clone, Copy, PartialEq, Eq, Structural)]
pub enum EventType {
    Birth,
    Death,
    Marriage,
    Divorce,
    Graduation,
    Immigration,
    Emigration,
    Military,
    NameChange,
    Other,
}

impl EventType {
    /// The stored form of the type (its name).
    pub fn as_str(&self) -> (r: &'static str)
        ensures
            r@ == (match self {
                EventType::Birth => "Birth"@,
                EventType::Death => "Death"@,
                EventType::Marriage => "Marriage"@,
                EventType::Divorce => "Divorce"@,
                EventType::Graduation => "Graduation"@,
                EventType::Immigration => "Immigration"@,
                EventType::Emigration => "Emigration"@,
                EventType::Military => "Military"@,
                EventType::NameChange => "NameChange"@,
                EventType::Other => "Other"@,
            }),
    {
        match self {
            EventType::Birth => "Birth",
            EventType::Death => "Death",
            EventType::Marriage => "Marriage",
            EventType::Divorce => "Divorce",
            EventType::Graduation => "Graduation",
            EventType::Immigration => "Immigration",
            EventType::Emigration => "Emigration",
            EventType::Military => "Military",
            EventType::NameChange => "NameChange",
            EventType::Other => "Other",
        }
    }
}

/// An event in a person's life, recorded on one proxy.
pub struct LifeEvent {
    /// Record id `life_event:<ulid>`.
    pub id: String,
    /// The proxy the event was recorded on.
    pub person_proxy_id: String,
    /// The tree of that proxy.
    pub contributed_by_tree: String,
    /// Shared with every proxy of the same person.
    pub is_canonical: bool,
    pub name: String,
    pub date: Option<String>,
    pub event_type: String,
    pub description: Option<String>,
    /// Long-form story in Markdown.
    pub story: Option<String>,
    pub verified: bool,
    pub source_link: Option<String>,
    pub source_image: Option<String>,
    pub source_doc: Option<String>,
    pub created_by: Option<String>,
}

/// Request body for recording an event.
pub struct CreateLifeEvent {
    pub name: String,
    pub event_type: String,
    pub date: Option<String>,
    pub description: Option<String>,
    pub story: Option<String>,
    pub verified: bool,
    pub source_link: Option<String>,
    pub source_image: Option<String>,
    pub source_doc: Option<String>,
    pub created_by: Option<String>,
    pub is_canonical: bool,
}

/// Event fields to change; `None` leaves a field as it is.
pub struct UpdateLifeEvent {
    pub name: Option<String>,
    pub date: Option<String>,
    pub event_type: Option<String>,
    pub description: Option<String>,
    pub story: Option<String>,
    pub verified: Option<bool>,
    pub source_link: Option<String>,
    pub source_image: Option<String>,
    pub source_doc: Option<String>,
}

/// Query filter of the event listing.
pub struct LifeEventFilter {
    pub created_by: Option<String>,
}

/// The event a request records on a proxy of the given tree.
pub fn new_life_event(id: String, proxy_id: String, tree: String, req: CreateLifeEvent) -> (e: LifeEvent)
    ensures
        e.id == id,
        e.person_proxy_id == proxy_id,
        e.contributed_by_tree == tree,
        e.is_canonical == req.is_canonical,
        e.name == req.name,
        e.date == req.date,
        e.event_type == req.event_type,
        e.description == req.description,
        e.story == req.story,
        e.verified == req.verified,
        e.source_link == req.source_link,
        e.source_image == req.source_image,
        e.source_doc == req.source_doc,
        e.created_by == req.created_by,
{
    LifeEvent {
        id,
        person_proxy_id: proxy_id,
        contributed_by_tree: tree,
        is_canonical: req.is_canonical,
        name: req.name,
        date: req.date,
        event_type: req.event_type,
        description: req.description,
        story: req.story,
        verified: req.verified,
        source_link: req.source_link,
        source_image: req.source_image,
        source_doc: req.source_doc,
        created_by: req.created_by,
    }
}

/// Applies an update with merge semantics: given fields replace the stored
/// ones, all others are kept.
pub fn apply_life_event_update(e: &mut LifeEvent, u: UpdateLifeEvent)
    ensures
        final(e).name == crate::person::merged(u.name, old(e).name),
        final(e).date == crate::person::merged_opt(u.date, old(e).date),
        final(e).event_type == crate::person::merged(u.event_type, old(e).event_type),
        final(e).description == crate::person::merged_opt(u.description, old(e).description),
        final(e).story == crate::person::merged_opt(u.story, old(e).story),
        final(e).verified == crate::person::merged(u.verified, old(e).verified),
        final(e).source_link == crate::person::merged_opt(u.source_link, old(e).source_link),
        final(e).source_image == crate::person::merged_opt(u.source_image, old(e).source_image),
        final(e).source_doc == crate::person::merged_opt(u.source_doc, old(e).source_doc),
        final(e).id == old(e).id,
        final(e).person_proxy_id == old(e).person_proxy_id,
        final(e).contributed_by_tree == old(e).contributed_by_tree,
        final(e).is_canonical == old(e).is_canonical,
        final(e).created_by == old(e).created_by,
{
    if let Some(v) = u.name { e.name = v; }
    if let Some(v) = u.date { e.date = Some(v); }
    if let Some(v) = u.event_type { e.event_type = v; }
    if let Some(v) = u.description { e.description = Some(v); }
    if let Some(v) = u.story { e.story = Some(v); }
    if let Some(v) = u.verified { e.verified = v; }
    if let Some(v) = u.source_link { e.source_link = Some(v); }
    if let Some(v) = u.source_image { e.source_image = Some(v); }
    if let Some(v) = u.source_doc { e.source_doc = Some(v); }
}

/// The order of optional dates: no date first, then dates in string order.
pub open spec fn date_le(a: Option<Seq<char>>, b: Option<Seq<char>>) -> bool {
    match (a, b) {
        (None, _) => true,
        (Some(_), None) => false,
        (Some(x), Some(y)) => lex_le(x, y),
    }
}

/// The date of an event by its characters.
pub open spec fn date_key(e: LifeEvent) -> Option<Seq<char>> {
    opt_chars(e.date)
}

/// Whether event dates are in order.
pub open spec fn dates_sorted(s: Seq<LifeEvent>) -> bool {
    forall|i: int, j: int| 0 <= i < j < s.len() ==> date_le(date_key(#[trigger] s[i]), date_key(#[trigger] s[j]))
}

/// `perm` sends each position of `r` to the position in `s` its event
/// comes from: positions are distinct, and events of equal date keep the
/// order they have in `s`.
pub open spec fn is_stable_permutation(perm: Seq<int>, r: Seq<LifeEvent>, s: Seq<LifeEvent>) -> bool {
    &&& perm.len() == r.len()
    &&& forall|k: int| 0 <= k < perm.len() ==> 0 <= #[trigger] perm[k] < s.len() && r[k] == s[perm[k]]
    &&& forall|k: int, l: int| 0 <= k < l < perm.len() ==> #[trigger] perm[k] != #[trigger] perm[l]
        && (date_key(r[k]) == date_key(r[l]) ==> perm[k] < perm[l])
}

/// `r` is `s` sorted by date, stably: the same events, rearranged, in date
/// order, events of equal date in their order in `s`.
pub open spec fn is_date_sort_of(r: Seq<LifeEvent>, s: Seq<LifeEvent>) -> bool {
    &&& r.len() == s.len()
    &&& dates_sorted(r)
    &&& exists|perm: Seq<int>| is_stable_permutation(perm, r, s)
}

/// Whether `a` is dated no later than `b`.
fn date_before_or_same(a: &Option<String>, b: &Option<String>) -> (r: bool)
    ensures
        r == date_le(opt_chars(*a), opt_chars(*b)),
{
    match (a, b) {
        (None, _) => true,
        (Some(_), None) => false,
        (Some(x), Some(y)) => str_lex_le(x.as_str(), y.as_str()),
    }
}

/// Joins a proxy's own events with the canonical events recorded on the
/// person's other proxies: a canonical event is added unless its id is
/// already among the proxy's events or earlier canonical events.
pub open spec fn joined_events(own: Seq<LifeEvent>, canonical: Seq<LifeEvent>) -> Seq<LifeEvent>
    decreases canonical.len(),
{
    if canonical.len() == 0 {
        own
    } else {
        let prev = joined_events(own, canonical.drop_last());
        let x = canonical.last();
        if (exists|j: int| 0 <= j < own.len() && #[trigger] own[j].id@ == x.id@)
            || (exists|j: int| 0 <= j < canonical.len() - 1 && #[trigger] canonical[j].id@ == x.id@) {
            prev
        } else {
            prev.push(x)
        }
    }
}

/// Whether an event with id `id` is among `es`.
fn has_event_id(es: &Vec<LifeEvent>, upto: usize, id: &str) -> (r: bool)
    requires
        upto <= es.len(),
    ensures
        r == exists|j: int| 0 <= j < upto && #[trigger] es@[j].id@ == id@,
{
    let mut j: usize = 0;
    while j < upto
        invariant
            upto <= es.len(),
            j <= upto,
            forall|m: int| 0 <= m < j ==> #[trigger] es@[m].id@ != id@,
        decreases upto - j,
    {
        if str_eq(es[j].id.as_str(), id) {
            return true;
        }
        j = j + 1;
    }
    false
}

/// Sorts events by date, keeping the given order of events of the same
/// date (insertion sort).
pub fn sort_events_by_date(events: Vec<LifeEvent>) -> (r: Vec<LifeEvent>)
    ensures
        is_date_sort_of(r@, events@),
{
    let ghost all = events@;
    let n = events.len();
    let mut stack = crate::mcp::reversed(events);
    let mut out: Vec<LifeEvent> = Vec::new();
    let ghost mut perm: Seq<int> = Seq::empty();
    let mut i: usize = 0;
    while i < n
        invariant
            n == all.len(),
            i <= n,
            stack@.len() == n - i,
            forall|k: int| 0 <= k < n - i ==> #[trigger] stack@[k] == all[n - 1 - k],
            out@.len() == i,
            dates_sorted(out@),
            is_stable_permutation(perm, out@, all),
            forall|k: int| 0 <= k < perm.len() ==> #[trigger] perm[k] < i,
        decreases n - i,
    {
        let x = stack.pop().unwrap();
        proof {
            assert(x == all[i as int]);
        }
        let mut p: usize = 0;
        while p < out.len() && date_before_or_same(&out[p].date, &x.date)
            invariant
                p <= out.len(),
                forall|k: int| 0 <= k < p ==> date_le(date_key(#[trigger] out@[k]), date_key(x)),
            decreases out.len() - p,
        {
            p = p + 1;
        }
        let ghost old_out = out@;
        let ghost old_perm = perm;
        proof {
            lemma_insert_keeps_sorted(old_out, x, p as int);
        }
        out.insert(p, x);
        proof {
            perm = old_perm.insert(p as int, i as int);
            assert(out@ =~= old_out.insert(p as int, x));
            assert forall|k: int| 0 <= k < perm.len() implies 0 <= #[trigger] perm[k] < all.len()
                && out@[k] == all[perm[k]] && perm[k] < i + 1 by {
                if k < p {
                    assert(perm[k] == old_perm[k]);
                } else if k > p {
                    assert(perm[k] == old_perm[k - 1]);
                }
            }
            assert forall|k: int, l: int| 0 <= k < l < perm.len() implies #[trigger] perm[k] != #[trigger] perm[l]
                && (date_key(out@[k]) == date_key(out@[l]) ==> perm[k] < perm[l]) by {
                if l < p {
                    assert(perm[k] == old_perm[k] && perm[l] == old_perm[l]);
                } else if l == p {
                    assert(perm[k] == old_perm[k]);
                } else if k < p {
                    assert(perm[k] == old_perm[k] && perm[l] == old_perm[l - 1]);
                } else if k == p {
                    assert(perm[l] == old_perm[l - 1]);
                    assert(out@[l] == old_out[l - 1]);
                    if date_key(x) == date_key(old_out[l - 1]) {
                        assert(date_le(date_key(old_out[p as int]), date_key(old_out[l - 1])));
                        assert(date_le(date_key(old_out[p as int]), date_key(x)));
                    }
                } else {
                    assert(perm[k] == old_perm[k - 1] && perm[l] == old_perm[l - 1]);
                }
            }
        }
        i = i + 1;
    }
    proof {
        assert(is_stable_permutation(perm, out@, all));
    }
    out
}

/// The timeline of a proxy from its own events and the canonical events
/// of its person's other proxies.
pub fn merge_life_events(own: Vec<LifeEvent>, canonical: Vec<LifeEvent>) -> (r: Vec<LifeEvent>)
    ensures
        is_date_sort_of(r@, joined_events(own@, canonical@)),
{
    let ghost own0 = own@;
    let ghost can0 = canonical@;
    let n = canonical.len();
    let mut keep: Vec<bool> = Vec::new();
    let mut i: usize = 0;
    while i < n
        invariant
            own@ == own0,
            canonical@ == can0,
            n == canonical.len(),
            i <= n,
            keep@.len() == i,
            forall|k: int| 0 <= k < i ==> #[trigger] keep@[k] == !((exists|j: int| 0 <= j < own0.len() && #[trigger] own0[j].id@ == can0[k].id@)
                || (exists|j: int| 0 <= j < k && #[trigger] can0[j].id@ == can0[k].id@)),
        decreases n - i,
    {
        let in_own = has_event_id(&own, own.len(), canonical[i].id.as_str());
        let earlier = has_event_id(&canonical, i, canonical[i].id.as_str());
        keep.push(!(in_own || earlier));
        i = i + 1;
    }
    let mut joined = own;
    let mut stack = crate::mcp::reversed(canonical);
    let mut i: usize = 0;
    while i < n
        invariant
            n == can0.len(),
            i <= n,
            keep@.len() == n,
            forall|k: int| 0 <= k < n ==> #[trigger] keep@[k] == !((exists|j: int| 0 <= j < own0.len() && #[trigger] own0[j].id@ == can0[k].id@)
                || (exists|j: int| 0 <= j < k && #[trigger] can0[j].id@ == can0[k].id@)),
            stack@.len() == n - i,
            forall|k: int| 0 <= k < n - i ==> #[trigger] stack@[k] == can0[n - 1 - k],
            joined@ == joined_events(own0, can0.take(i as int)),
        decreases n - i,
    {
        let x = stack.pop().unwrap();
        proof {
            let t = can0.take(i + 1);
            assert(x == can0[i as int]);
            assert(t.drop_last() =~= can0.take(i as int));
            assert(t.last() == x);
            assert((exists|j: int| 0 <= j < t.len() - 1 && #[trigger] t[j].id@ == x.id@)
                == (exists|j: int| 0 <= j < i && #[trigger] can0[j].id@ == can0[i as int].id@)) by {
                if exists|j: int| 0 <= j < i && #[trigger] can0[j].id@ == can0[i as int].id@ {
                    let j = choose|j: int| 0 <= j < i && #[trigger] can0[j].id@ == can0[i as int].id@;
                    assert(t[j] == can0[j]);
                }
                if exists|j: int| 0 <= j < t.len() - 1 && #[trigger] t[j].id@ == x.id@ {
                    let j = choose|j: int| 0 <= j < t.len() - 1 && #[trigger] t[j].id@ == x.id@;
                    assert(t[j] == can0[j]);
                }
            }
        }
        if keep[i] {
            joined.push(x);
        }
        i = i + 1;
    }
    proof {
        assert(can0.take(n as int) =~= can0);
    }
    sort_events_by_date(joined)
}

/// The order of dates is total and transitive.
proof fn lemma_date_le_facts(a: Option<Seq<char>>, b: Option<Seq<char>>, c: Option<Seq<char>>)
    ensures
        date_le(a, b) || date_le(b, a),
        date_le(a, b) && date_le(b, c) ==> date_le(a, c),
{
    match (a, b) {
        (Some(x), Some(y)) => crate::text::lemma_lex_le_total(x, y),
        _ => {},
    }
    match (a, b, c) {
        (Some(x), Some(y), Some(z)) => {
            if lex_le(x, y) && lex_le(y, z) {
                crate::text::lemma_lex_le_trans(x, y, z);
            }
        },
        _ => {},
    }
}

/// Inserting `x` before the first event dated after it keeps a dated
/// sequence in order.
proof fn lemma_insert_keeps_sorted(s: Seq<LifeEvent>, x: LifeEvent, p: int)
    requires
        dates_sorted(s),
        0 <= p <= s.len(),
        forall|k: int| 0 <= k < p ==> date_le(date_key(#[trigger] s[k]), date_key(x)),
        p < s.len() ==> !date_le(date_key(s[p]), date_key(x)),
    ensures
        dates_sorted(s.insert(p, x)),
{
    let r = s.insert(p, x);
    assert forall|i: int, j: int| 0 <= i < j < r.len() implies date_le(date_key(#[trigger] r[i]), date_key(#[trigger] r[j])) by {
        if j < p {
            assert(r[i] == s[i] && r[j] == s[j]);
        } else if j == p {
            assert(r[i] == s[i]);
        } else if i < p {
            assert(r[i] == s[i] && r[j] == s[j - 1]);
        } else if i == p {
            assert(r[j] == s[j - 1]);
            lemma_date_le_facts(date_key(s[p]), date_key(x), date_key(s[j - 1]));
            if j - 1 > p {
                assert(date_le(date_key(s[p]), date_key(s[j - 1])));
                lemma_date_le_facts(date_key(x), date_key(s[p]), date_key(s[j - 1]));
            }
        } else {
            assert(r[i] == s[i - 1] && r[j] == s[j - 1]);
        }
    }
}

} // verus!

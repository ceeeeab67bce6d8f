//! Scoring and ranking of possible duplicates of a person across trees.
//!
//! Candidates are proxies whose canonical person has the same first and
//! family name. A candidate of the other sex is dropped; otherwise it scores
//! sex (+3), birth year (+2 exact, +1 one year off) and place of birth (+3
//! equal, +2 one containing the other, +1 sharing a significant word).

use vstd::prelude::*;
use crate::json::Json;
use crate::errors::{decimal, decimal_string};
use crate::text::{contains, is_substring, lowercase, str_eq, to_lowercase, copy_opt, opt_chars};
use crate::mcp::{extracted_year, mcp_extract_year, mcp_shares_significant_word, shares_significant_word};

verus! {

/// A proxy with the searched person's name, as the database returns it.
pub struct DuplicateCandidate {
    /// Full proxy record id (`person_proxy:<ulid>`).
    pub proxy_id: String,
    /// Full canonical record id (`person:<ulid>`).
    pub canonical_id: String,
    pub tree: String,
    /// Creator of the proxy; empty when unknown.
    pub owner: String,
    pub sex: Option<String>,
    pub date_of_birth: Option<String>,
    pub place_of_birth: Option<String>,
}

/// A single candidate duplicate found by the scored matching algorithm.
pub struct DuplicateMatch {
    /// Full proxy record id: `person_proxy:<ulid>`.
    pub proxy_id: String,
    /// Full canonical record id: `person:<ulid>`.
    pub canonical_id: String,
    pub tree: String,
    /// Username of the tree owner (never shown to other users).
    pub owner: String,
    pub family_name: String,
    pub first_name: String,
    pub sex: Option<String>,
    pub date_of_birth: Option<String>,
    pub place_of_birth: Option<String>,
    /// Sex (+3), birth year (+2) and place of birth (+3): at most 8.
    pub score: u32,
    /// `"strong"` (at least 4), `"likely"` (2 or 3) or `"possible"` (0 or 1).
    pub confidence: String,
    /// True when the match is in a tree of the searching user.
    pub is_own: bool,
}

/// A candidate by the characters of its fields.
pub struct CandidateView {
    pub proxy_id: Seq<char>,
    pub canonical_id: Seq<char>,
    pub tree: Seq<char>,
    pub owner: Seq<char>,
    pub sex: Option<Seq<char>>,
    pub date_of_birth: Option<Seq<char>>,
    pub place_of_birth: Option<Seq<char>>,
}

/// A match by the characters of its fields.
pub struct MatchView {
    pub proxy_id: Seq<char>,
    pub canonical_id: Seq<char>,
    pub tree: Seq<char>,
    pub owner: Seq<char>,
    pub family_name: Seq<char>,
    pub first_name: Seq<char>,
    pub sex: Option<Seq<char>>,
    pub date_of_birth: Option<Seq<char>>,
    pub place_of_birth: Option<Seq<char>>,
    pub score: u32,
    pub confidence: Seq<char>,
    pub is_own: bool,
}

impl View for DuplicateCandidate {
    type V = CandidateView;

    open spec fn view(&self) -> CandidateView {
        CandidateView {
            proxy_id: self.proxy_id@,
            canonical_id: self.canonical_id@,
            tree: self.tree@,
            owner: self.owner@,
            sex: opt_chars(self.sex),
            date_of_birth: opt_chars(self.date_of_birth),
            place_of_birth: opt_chars(self.place_of_birth),
        }
    }
}

impl View for DuplicateMatch {
    type V = MatchView;

    open spec fn view(&self) -> MatchView {
        MatchView {
            proxy_id: self.proxy_id@,
            canonical_id: self.canonical_id@,
            tree: self.tree@,
            owner: self.owner@,
            family_name: self.family_name@,
            first_name: self.first_name@,
            sex: opt_chars(self.sex),
            date_of_birth: opt_chars(self.date_of_birth),
            place_of_birth: opt_chars(self.place_of_birth),
            score: self.score,
            confidence: self.confidence@,
            is_own: self.is_own,
        }
    }
}

/// An optional string slice by its characters.
pub open spec fn ostr(o: Option<&str>) -> Option<Seq<char>> {
    match o {
        Some(s) => Some(s@),
        None => None,
    }
}

/// Points for sex: `None` when both sexes are known and differ, which
/// disqualifies the candidate.
pub open spec fn sex_points(my_sex: Seq<char>, cand_sex: Option<Seq<char>>) -> Option<u32> {
    match cand_sex {
        Some(cs) => if my_sex.len() == 0 {
            Some(0)
        } else if cs == my_sex {
            Some(3)
        } else {
            None
        },
        None => Some(0),
    }
}

/// Points for the birth year: 2 for the same year, 1 for one year apart.
pub open spec fn year_points(my_year: Option<u32>, cand_dob: Option<Seq<char>>) -> u32 {
    match (my_year, cand_dob) {
        (Some(my), Some(d)) => match extracted_year(d) {
            Some(cy) => if my == cy {
                2
            } else if my - cy == 1 || cy - my == 1 {
                1
            } else {
                0
            },
            None => 0,
        },
        _ => 0,
    }
}

/// Points for the lower-cased places of birth: 3 when equal, 2 when one
/// contains the other, 1 when they share a significant word.
pub open spec fn place_points(my_pob_lc: Option<Seq<char>>, cand_pob_lc: Option<Seq<char>>) -> u32 {
    match (my_pob_lc, cand_pob_lc) {
        (Some(m), Some(c)) => if m == c {
            3
        } else if is_substring(c, m) || is_substring(m, c) {
            2
        } else if shares_significant_word(m, c) {
            1
        } else {
            0
        },
        _ => 0,
    }
}

/// The score of a candidate, or `None` when it is disqualified.
pub open spec fn candidate_score(
    my_sex: Seq<char>,
    my_year: Option<u32>,
    my_pob_lc: Option<Seq<char>>,
    cand_sex: Option<Seq<char>>,
    cand_dob: Option<Seq<char>>,
    cand_pob_lc: Option<Seq<char>>,
) -> Option<u32> {
    match sex_points(my_sex, cand_sex) {
        None => None,
        Some(sp) => Some((sp + year_points(my_year, cand_dob) + place_points(my_pob_lc, cand_pob_lc)) as u32),
    }
}

/// The confidence label of a score.
pub open spec fn confidence_label(score: u32) -> Seq<char> {
    if score >= 4 {
        "strong"@
    } else if score >= 2 {
        "likely"@
    } else {
        "possible"@
    }
}

/// An optional string, lower-cased.
pub open spec fn lower_opt(o: Option<Seq<char>>) -> Option<Seq<char>> {
    match o {
        Some(s) => Some(lowercase(s)),
        None => None,
    }
}

/// The match made of a candidate, unless it is disqualified.
pub open spec fn scored_match(
    username: Seq<char>,
    first_name: Seq<char>,
    family_name: Seq<char>,
    my_sex: Seq<char>,
    my_year: Option<u32>,
    my_pob_lc: Option<Seq<char>>,
    c: CandidateView,
) -> Option<MatchView> {
    match candidate_score(my_sex, my_year, my_pob_lc, c.sex, c.date_of_birth, lower_opt(c.place_of_birth)) {
        None => None,
        Some(score) => Some(MatchView {
            proxy_id: c.proxy_id,
            canonical_id: c.canonical_id,
            tree: c.tree,
            owner: c.owner,
            family_name: family_name,
            first_name: first_name,
            sex: c.sex,
            date_of_birth: c.date_of_birth,
            place_of_birth: c.place_of_birth,
            score: score,
            confidence: confidence_label(score),
            is_own: c.owner == username,
        }),
    }
}

/// The matches of the candidates that are not disqualified, in candidate order.
pub open spec fn scored_matches(
    username: Seq<char>,
    first_name: Seq<char>,
    family_name: Seq<char>,
    my_sex: Seq<char>,
    my_year: Option<u32>,
    my_pob_lc: Option<Seq<char>>,
    cs: Seq<CandidateView>,
) -> Seq<MatchView>
    decreases cs.len(),
{
    if cs.len() == 0 {
        Seq::empty()
    } else {
        let prev = scored_matches(username, first_name, family_name, my_sex, my_year, my_pob_lc, cs.drop_last());
        match scored_match(username, first_name, family_name, my_sex, my_year, my_pob_lc, cs.last()) {
            Some(m) => prev.push(m),
            None => prev,
        }
    }
}

/// The matches with the given score, in their order.
pub open spec fn with_score(ms: Seq<MatchView>, s: u32) -> Seq<MatchView> {
    ms.filter(|m: MatchView| m.score == s)
}

/// The matches with score at most `s`, highest score first, equal scores in
/// their input order.
pub open spec fn ranked_from(ms: Seq<MatchView>, s: u32) -> Seq<MatchView>
    decreases s,
{
    if s == 0 {
        with_score(ms, 0)
    } else {
        with_score(ms, s) + ranked_from(ms, (s - 1) as u32)
    }
}

/// The highest possible score.
pub const MAX_SCORE: u32 = 8;

/// Matches ordered by score, highest first; a stable order (equal scores keep
/// their relative order).
pub open spec fn ranked(ms: Seq<MatchView>) -> Seq<MatchView> {
    ranked_from(ms, MAX_SCORE)
}

/// The ranked duplicates of a person: none when its first or family name is
/// empty, else the scored candidates ordered by score.
pub open spec fn duplicate_ranking(
    username: Seq<char>,
    first_name: Seq<char>,
    family_name: Seq<char>,
    my_sex: Seq<char>,
    my_dob: Option<Seq<char>>,
    my_pob: Option<Seq<char>>,
    cs: Seq<CandidateView>,
) -> Seq<MatchView> {
    if first_name.len() == 0 || family_name.len() == 0 {
        Seq::empty()
    } else {
        let my_year = match my_dob {
            Some(d) => extracted_year(d),
            None => None,
        };
        ranked(scored_matches(username, first_name, family_name, my_sex, my_year, lower_opt(my_pob), cs))
    }
}

/// The score of a candidate against the searched person, or `None` when the
/// sexes are both known and differ. Places are given lower-cased.
pub fn score_candidate(
    my_sex: &str,
    my_year: Option<u32>,
    my_pob_lc: Option<&str>,
    cand_sex: Option<&str>,
    cand_dob: Option<&str>,
    cand_pob_lc: Option<&str>,
) -> (r: Option<u32>)
    ensures
        r == candidate_score(my_sex@, my_year, ostr(my_pob_lc), ostr(cand_sex), ostr(cand_dob), ostr(cand_pob_lc)),
{
    let mut score: u32 = 0;
    if let Some(cs) = cand_sex {
        if my_sex.unicode_len() != 0 {
            if str_eq(cs, my_sex) {
                score = score + 3;
            } else {
                return None;
            }
        }
    }
    if let (Some(my_y), Some(cand_str)) = (my_year, cand_dob) {
        if let Some(cy) = mcp_extract_year(cand_str) {
            if my_y == cy {
                score = score + 2;
            } else if (my_y > cy && my_y - cy == 1) || (cy > my_y && cy - my_y == 1) {
                score = score + 1;
            }
        }
    }
    if let (Some(my_p), Some(cp)) = (my_pob_lc, cand_pob_lc) {
        if str_eq(my_p, cp) {
            score = score + 3;
        } else if contains(my_p, cp) || contains(cp, my_p) {
            score = score + 2;
        } else if mcp_shares_significant_word(my_p, cp) {
            score = score + 1;
        }
    }
    Some(score)
}

/// The confidence label of a score: `"strong"` from 4, `"likely"` from 2,
/// else `"possible"`.
pub fn confidence_for(score: u32) -> (r: String)
    ensures
        r@ == confidence_label(score),
{
    if score >= 4 {
        "strong".to_owned()
    } else if score >= 2 {
        "likely".to_owned()
    } else {
        "possible".to_owned()
    }
}

impl DuplicateMatch {
    /// A field-by-field copy.
    pub fn copy(&self) -> (r: DuplicateMatch)
        ensures
            r@ == self@,
    {
        DuplicateMatch {
            proxy_id: self.proxy_id.clone(),
            canonical_id: self.canonical_id.clone(),
            tree: self.tree.clone(),
            owner: self.owner.clone(),
            family_name: self.family_name.clone(),
            first_name: self.first_name.clone(),
            sex: copy_opt(&self.sex),
            date_of_birth: copy_opt(&self.date_of_birth),
            place_of_birth: copy_opt(&self.place_of_birth),
            score: self.score,
            confidence: self.confidence.clone(),
            is_own: self.is_own,
        }
    }
}

/// The matches ordered by score, highest first, keeping the relative order
/// of equal scores.
pub fn rank_matches(ms: &Vec<DuplicateMatch>) -> (r: Vec<DuplicateMatch>)
    ensures
        r@.map_values(|m: DuplicateMatch| m@) == ranked(ms@.map_values(|m: DuplicateMatch| m@)),
{
    let ghost mv = ms@.map_values(|m: DuplicateMatch| m@);
    let mut out: Vec<DuplicateMatch> = Vec::new();
    let mut s: u32 = MAX_SCORE;
    let mut done = false;
    while !done
        invariant
            mv == ms@.map_values(|m: DuplicateMatch| m@),
            s <= MAX_SCORE,
            done ==> s == 0 && out@.map_values(|m: DuplicateMatch| m@) == ranked(mv),
            !done ==> out@.map_values(|m: DuplicateMatch| m@) == (if s == MAX_SCORE {
                Seq::<MatchView>::empty()
            } else {
                ranked_down_to(mv, (s + 1) as u32)
            }),
        decreases s as int + (if done { 0int } else { 1int }),
    {
        let ghost before = out@.map_values(|m: DuplicateMatch| m@);
        let mut i: usize = 0;
        while i < ms.len()
            invariant
                mv == ms@.map_values(|m: DuplicateMatch| m@),
                i <= ms.len(),
                out@.map_values(|m: DuplicateMatch| m@) == before + with_score(mv.take(i as int), s),
            decreases ms.len() - i,
        {
            proof {
                reveal(Seq::filter);
                assert(mv.take(i + 1).drop_last() =~= mv.take(i as int));
                assert(mv.take(i + 1).last() == ms@[i as int]@);
            }
            if ms[i].score == s {
                let c = ms[i].copy();
                let ghost prev_out = out@;
                out.push(c);
                proof {
                    reveal(Seq::filter);
                    assert(with_score(mv.take(i + 1), s) == with_score(mv.take(i as int), s).push(ms@[i as int]@));
                    assert(out@.map_values(|m: DuplicateMatch| m@) =~= prev_out.map_values(|m: DuplicateMatch| m@).push(c@));
                    assert(out@.map_values(|m: DuplicateMatch| m@) =~= before + with_score(mv.take(i + 1), s));
                }
            } else {
                proof {
                    assert(with_score(mv.take(i + 1), s) == with_score(mv.take(i as int), s));
                }
            }
            i = i + 1;
        }
        proof {
            assert(mv.take(ms.len() as int) =~= mv);
            lemma_ranked_down_to_step(mv, s);
        }
        if s == 0 {
            done = true;
        } else {
            s = s - 1;
        }
    }
    out
}

/// The matches with score above `s`, highest first (the part of the ranking
/// that precedes score `s`).
pub open spec fn ranked_down_to(ms: Seq<MatchView>, s: u32) -> Seq<MatchView>
    decreases MAX_SCORE - s,
{
    if s >= MAX_SCORE {
        with_score(ms, MAX_SCORE)
    } else {
        ranked_down_to(ms, (s + 1) as u32) + with_score(ms, s)
    }
}

proof fn lemma_ranked_down_to_step(ms: Seq<MatchView>, s: u32)
    requires
        s <= MAX_SCORE,
    ensures
        s == MAX_SCORE ==> ranked_down_to(ms, s) == Seq::<MatchView>::empty() + with_score(ms, s),
        s < MAX_SCORE ==> ranked_down_to(ms, s) == ranked_down_to(ms, (s + 1) as u32) + with_score(ms, s),
        s == 0 ==> ranked_down_to(ms, 0) == ranked(ms),
{
    if s == MAX_SCORE {
        assert(Seq::<MatchView>::empty() + with_score(ms, s) =~= with_score(ms, s));
    }
    if s == 0 {
        lemma_ranked_split(ms, 0);
    }
}

/// The ranking read from the top equals the ranking read from the bottom.
proof fn lemma_ranked_split(ms: Seq<MatchView>, s: u32)
    requires
        s <= MAX_SCORE,
    ensures
        s == 0 ==> ranked_down_to(ms, 0) == ranked(ms),
        s > 0 ==> ranked(ms) == ranked_down_to(ms, s) + ranked_from(ms, (s - 1) as u32),
    decreases MAX_SCORE - s,
{
    if s == MAX_SCORE {
        assert(ranked_from(ms, MAX_SCORE) == with_score(ms, MAX_SCORE) + ranked_from(ms, (MAX_SCORE - 1) as u32));
    } else {
        lemma_ranked_split(ms, (s + 1) as u32);
        if s == 0 {
            assert(ranked_from(ms, 0) == with_score(ms, 0));
            assert(ranked(ms) =~= ranked_down_to(ms, 1) + with_score(ms, 0));
        } else {
            assert(ranked_from(ms, s) == with_score(ms, s) + ranked_from(ms, (s - 1) as u32));
            assert(ranked(ms) =~= ranked_down_to(ms, s) + ranked_from(ms, (s - 1) as u32));
        }
    }
}

/// A borrowed view of an optional string.
pub fn as_str_opt(o: &Option<String>) -> (r: Option<&str>)
    ensures
        ostr(r) == opt_chars(*o),
{
    match o {
        Some(s) => Some(s.as_str()),
        None => None,
    }
}

/// An optional string slice, lower-cased.
fn lower_opt_str(o: Option<&str>) -> (r: Option<String>)
    ensures
        opt_chars(r) == lower_opt(ostr(o)),
{
    match o {
        Some(s) => Some(to_lowercase(s)),
        None => None,
    }
}

/// The possible duplicates of a person among same-name candidates, scored
/// and ranked highest first. `first_name`, `family_name`, `my_sex`, `my_dob`
/// and `my_pob` describe the searched person; `username` is the searching
/// user, who owns the matches marked `is_own`.
pub fn find_duplicate_matches(
    username: &str,
    first_name: &str,
    family_name: &str,
    my_sex: &str,
    my_dob: Option<&str>,
    my_pob: Option<&str>,
    candidates: &Vec<DuplicateCandidate>,
) -> (r: Vec<DuplicateMatch>)
    ensures
        r@.map_values(|m: DuplicateMatch| m@) == duplicate_ranking(username@, first_name@, family_name@,
            my_sex@, ostr(my_dob), ostr(my_pob), candidates@.map_values(|c: DuplicateCandidate| c@)),
{
    let ghost cv = candidates@.map_values(|c: DuplicateCandidate| c@);
    if first_name.unicode_len() == 0 || family_name.unicode_len() == 0 {
        return Vec::new();
    }
    let my_year = match my_dob {
        Some(d) => mcp_extract_year(d),
        None => None,
    };
    let my_pob_lc = lower_opt_str(my_pob);
    let mut scored: Vec<DuplicateMatch> = Vec::new();
    let mut i: usize = 0;
    while i < candidates.len()
        invariant
            cv == candidates@.map_values(|c: DuplicateCandidate| c@),
            i <= candidates.len(),
            my_year == (match ostr(my_dob) {
                Some(d) => extracted_year(d),
                None => None,
            }),
            opt_chars(my_pob_lc) == lower_opt(ostr(my_pob)),
            scored@.map_values(|m: DuplicateMatch| m@) == scored_matches(username@, first_name@, family_name@,
                my_sex@, my_year, lower_opt(ostr(my_pob)), cv.take(i as int)),
        decreases candidates.len() - i,
    {
        let c = &candidates[i];
        let cand_pob_lc = lower_opt_str(as_str_opt(&c.place_of_birth));
        let score = score_candidate(
            my_sex,
            my_year,
            as_str_opt(&my_pob_lc),
            as_str_opt(&c.sex),
            as_str_opt(&c.date_of_birth),
            as_str_opt(&cand_pob_lc),
        );
        proof {
            assert(cv.take(i + 1).drop_last() =~= cv.take(i as int));
            assert(cv.take(i + 1).last() == c@);
        }
        match score {
            Some(sc) => {
                let m = DuplicateMatch {
                    proxy_id: c.proxy_id.clone(),
                    canonical_id: c.canonical_id.clone(),
                    tree: c.tree.clone(),
                    owner: c.owner.clone(),
                    family_name: family_name.to_owned(),
                    first_name: first_name.to_owned(),
                    sex: copy_opt(&c.sex),
                    date_of_birth: copy_opt(&c.date_of_birth),
                    place_of_birth: copy_opt(&c.place_of_birth),
                    score: sc,
                    confidence: confidence_for(sc),
                    is_own: str_eq(c.owner.as_str(), username),
                };
                let ghost prev = scored@;
                scored.push(m);
                proof {
                    assert(scored@.map_values(|m: DuplicateMatch| m@) =~= prev.map_values(|m: DuplicateMatch| m@).push(m@));
                }
            },
            None => {},
        }
        i = i + 1;
    }
    proof {
        assert(cv.take(candidates.len() as int) =~= cv);
    }
    rank_matches(&scored)
}

/// Every score is at most `MAX_SCORE`.
pub proof fn lemma_scores_bounded(
    username: Seq<char>,
    first_name: Seq<char>,
    family_name: Seq<char>,
    my_sex: Seq<char>,
    my_year: Option<u32>,
    my_pob_lc: Option<Seq<char>>,
    cs: Seq<CandidateView>,
)
    ensures
        forall|i: int| 0 <= i < scored_matches(username, first_name, family_name, my_sex, my_year, my_pob_lc, cs).len()
            ==> (#[trigger] scored_matches(username, first_name, family_name, my_sex, my_year, my_pob_lc, cs)[i]).score <= MAX_SCORE,
    decreases cs.len(),
{
    if cs.len() > 0 {
        lemma_scores_bounded(username, first_name, family_name, my_sex, my_year, my_pob_lc, cs.drop_last());
    }
}

proof fn lemma_ranked_from_bounded(ms: Seq<MatchView>, s: u32)
    ensures
        forall|i: int| 0 <= i < ranked_from(ms, s).len() ==> (#[trigger] ranked_from(ms, s)[i]).score <= s,
        forall|i: int| 0 <= i < ranked_from(ms, s).len() ==> ms.contains(#[trigger] ranked_from(ms, s)[i]),
        forall|i: int, j: int| 0 <= i < j < ranked_from(ms, s).len()
            ==> (#[trigger] ranked_from(ms, s)[i]).score >= (#[trigger] ranked_from(ms, s)[j]).score,
        forall|k: int| 0 <= k < ms.len() && ms[k].score <= s ==> ranked_from(ms, s).contains(#[trigger] ms[k]),
    decreases s,
{
    broadcast use Seq::lemma_filter_pred, Seq::lemma_filter_contains, Seq::lemma_filter_contains_rev;
    let top = with_score(ms, s);
    assert forall|i: int| 0 <= i < top.len() implies (#[trigger] top[i]).score == s && ms.contains(top[i]) by {
        assert((|m: MatchView| m.score == s)(top[i]));
        ms.lemma_filter_contains_rev(|m: MatchView| m.score == s, top[i]);
    }
    if s == 0 {
    } else {
        lemma_ranked_from_bounded(ms, (s - 1) as u32);
        let rest = ranked_from(ms, (s - 1) as u32);
        let all = ranked_from(ms, s);
        assert(all == top + rest);
        assert forall|i: int| 0 <= i < all.len() implies (#[trigger] all[i]).score <= s && ms.contains(all[i]) by {
            if i >= top.len() {
                assert(all[i] == rest[i - top.len()]);
            }
        }
        assert forall|i: int, j: int| 0 <= i < j < all.len() implies (#[trigger] all[i]).score >= (#[trigger] all[j]).score by {
            if j < top.len() {
            } else if i < top.len() {
                assert(all[j] == rest[j - top.len()]);
            } else {
                assert(all[i] == rest[i - top.len()]);
                assert(all[j] == rest[j - top.len()]);
            }
        }
        assert forall|k: int| 0 <= k < ms.len() && ms[k].score <= s implies all.contains(#[trigger] ms[k]) by {
            if ms[k].score == s {
                assert((|m: MatchView| m.score == s)(ms[k]));
                assert(top.contains(ms[k]));
                let x = choose|x: int| 0 <= x < top.len() && top[x] == ms[k];
                assert(all[x] == ms[k]);
            } else {
                assert(rest.contains(ms[k]));
                let x = choose|x: int| 0 <= x < rest.len() && rest[x] == ms[k];
                assert(all[top.len() + x] == ms[k]);
            }
        }
    }
    if s == 0 {
        assert forall|k: int| 0 <= k < ms.len() && ms[k].score <= s implies ranked_from(ms, s).contains(#[trigger] ms[k]) by {
            assert((|m: MatchView| m.score == s)(ms[k]));
        }
    }
}

/// The duplicates of a person come highest score first; they are exactly
/// the candidates that are not disqualified, and none has the other sex
/// when both sexes are known.
pub proof fn lemma_duplicate_ranking_ordered(
    username: Seq<char>,
    first_name: Seq<char>,
    family_name: Seq<char>,
    my_sex: Seq<char>,
    my_dob: Option<Seq<char>>,
    my_pob: Option<Seq<char>>,
    cs: Seq<CandidateView>,
)
    ensures
        ({
            let r = duplicate_ranking(username, first_name, family_name, my_sex, my_dob, my_pob, cs);
            &&& forall|i: int, j: int| 0 <= i < j < r.len() ==> (#[trigger] r[i]).score >= (#[trigger] r[j]).score
            &&& forall|i: int| 0 <= i < r.len() ==> (#[trigger] r[i]).score <= MAX_SCORE
                && r[i].confidence == confidence_label(r[i].score)
                && (my_sex.len() == 0 || r[i].sex is None || r[i].sex == Some(my_sex))
        }),
        first_name.len() > 0 && family_name.len() > 0 ==> {
            let my_year = match my_dob {
                Some(d) => extracted_year(d),
                None => None,
            };
            let all = scored_matches(username, first_name, family_name, my_sex, my_year, lower_opt(my_pob), cs);
            let r = duplicate_ranking(username, first_name, family_name, my_sex, my_dob, my_pob, cs);
            &&& forall|i: int| 0 <= i < r.len() ==> all.contains(#[trigger] r[i])
            &&& forall|k: int| 0 <= k < all.len() ==> r.contains(#[trigger] all[k])
        },
{
    if first_name.len() > 0 && family_name.len() > 0 {
        let my_year = match my_dob {
            Some(d) => extracted_year(d),
            None => None,
        };
        let all = scored_matches(username, first_name, family_name, my_sex, my_year, lower_opt(my_pob), cs);
        lemma_scores_bounded(username, first_name, family_name, my_sex, my_year, lower_opt(my_pob), cs);
        lemma_scored_matches_fields(username, first_name, family_name, my_sex, my_year, lower_opt(my_pob), cs);
        lemma_ranked_from_bounded(all, MAX_SCORE);
        let r = ranked(all);
        assert forall|i: int| 0 <= i < r.len() implies (#[trigger] r[i]).score <= MAX_SCORE
            && r[i].confidence == confidence_label(r[i].score)
            && (my_sex.len() == 0 || r[i].sex is None || r[i].sex == Some(my_sex)) by {
            assert(all.contains(r[i]));
        }
    }
}

proof fn lemma_scored_matches_fields(
    username: Seq<char>,
    first_name: Seq<char>,
    family_name: Seq<char>,
    my_sex: Seq<char>,
    my_year: Option<u32>,
    my_pob_lc: Option<Seq<char>>,
    cs: Seq<CandidateView>,
)
    ensures
        forall|m: MatchView| #[trigger] scored_matches(username, first_name, family_name, my_sex, my_year, my_pob_lc, cs).contains(m)
            ==> m.confidence == confidence_label(m.score)
                && (my_sex.len() == 0 || m.sex is None || m.sex == Some(my_sex)),
    decreases cs.len(),
{
    if cs.len() > 0 {
        lemma_scored_matches_fields(username, first_name, family_name, my_sex, my_year, my_pob_lc, cs.drop_last());
        let prev = scored_matches(username, first_name, family_name, my_sex, my_year, my_pob_lc, cs.drop_last());
        let cur = scored_matches(username, first_name, family_name, my_sex, my_year, my_pob_lc, cs);
        assert forall|m: MatchView| #[trigger] cur.contains(m) implies m.confidence == confidence_label(m.score)
            && (my_sex.len() == 0 || m.sex is None || m.sex == Some(my_sex)) by {
            let x = choose|x: int| 0 <= x < cur.len() && cur[x] == m;
            if x < prev.len() {
                assert(prev[x] == m);
                assert(prev.contains(m));
            }
        }
    }
}


/// `j` is the JSON of an optional string: the string, or `null`.
pub open spec fn is_opt_str_doc(j: Json, o: Option<String>) -> bool {
    match o {
        Some(s) => j is Str && j->Str_0@ == s@,
        None => j is Null,
    }
}

/// `j` is the tool's JSON of a match: every field but the owner, in the
/// order proxy id, names, sex, birth date and place, score, confidence and
/// whether the match is the caller's own.
pub open spec fn is_match_doc(j: Json, m: DuplicateMatch) -> bool {
    j is Object && {
        let e = j->Object_0@;
        &&& e.len() == 9
        &&& e[0].0@ == "proxy_id"@ && e[0].1 is Str && e[0].1->Str_0@ == m.proxy_id@
        &&& e[1].0@ == "family_name"@ && e[1].1 is Str && e[1].1->Str_0@ == m.family_name@
        &&& e[2].0@ == "first_name"@ && e[2].1 is Str && e[2].1->Str_0@ == m.first_name@
        &&& e[3].0@ == "sex"@ && is_opt_str_doc(e[3].1, m.sex)
        &&& e[4].0@ == "date_of_birth"@ && is_opt_str_doc(e[4].1, m.date_of_birth)
        &&& e[5].0@ == "place_of_birth"@ && is_opt_str_doc(e[5].1, m.place_of_birth)
        &&& e[6].0@ == "score"@ && e[6].1 is Number && e[6].1->Number_0@ == decimal(m.score as nat)
        &&& e[7].0@ == "confidence"@ && e[7].1 is Str && e[7].1->Str_0@ == m.confidence@
        &&& e[8].0@ == "is_own"@ && e[8].1 == Json::Bool(m.is_own)
    }
}

/// `j` is the tool's answer listing `ms`: `{"count": n, "matches": [...]}`.
pub open spec fn is_duplicates_doc(j: Json, ms: Seq<DuplicateMatch>) -> bool {
    j is Object && {
        let e = j->Object_0@;
        &&& e.len() == 2
        &&& e[0].0@ == "count"@ && e[0].1 is Number && e[0].1->Number_0@ == decimal(ms.len())
        &&& e[1].0@ == "matches"@ && e[1].1 is Array && e[1].1->Array_0@.len() == ms.len()
        &&& forall|i: int| 0 <= i < ms.len() ==> is_match_doc(#[trigger] e[1].1->Array_0@[i], ms[i])
    }
}

fn opt_str_doc(o: &Option<String>) -> (j: Json)
    ensures
        is_opt_str_doc(j, *o),
{
    match o {
        Some(s) => Json::Str(s.clone()),
        None => Json::Null,
    }
}

/// The JSON of one match, without its owner.
pub fn match_document(m: &DuplicateMatch) -> (j: Json)
    ensures
        is_match_doc(j, *m),
{
    let mut e: Vec<(String, Json)> = Vec::new();
    e.push(("proxy_id".to_owned(), Json::Str(m.proxy_id.clone())));
    e.push(("family_name".to_owned(), Json::Str(m.family_name.clone())));
    e.push(("first_name".to_owned(), Json::Str(m.first_name.clone())));
    e.push(("sex".to_owned(), opt_str_doc(&m.sex)));
    e.push(("date_of_birth".to_owned(), opt_str_doc(&m.date_of_birth)));
    e.push(("place_of_birth".to_owned(), opt_str_doc(&m.place_of_birth)));
    e.push(("score".to_owned(), Json::Number(decimal_string(m.score as u64))));
    e.push(("confidence".to_owned(), Json::Str(m.confidence.clone())));
    e.push(("is_own".to_owned(), Json::Bool(m.is_own)));
    Json::Object(e)
}

/// The duplicates tool's answer: the number of matches and each match,
/// in ranking order, without owners.
pub fn duplicates_document(ms: &Vec<DuplicateMatch>) -> (j: Json)
    ensures
        is_duplicates_doc(j, ms@),
{
    let mut items: Vec<Json> = Vec::new();
    let mut i: usize = 0;
    while i < ms.len()
        invariant
            i <= ms.len(),
            items@.len() == i,
            forall|k: int| 0 <= k < i ==> is_match_doc(#[trigger] items@[k], ms@[k]),
        decreases ms.len() - i,
    {
        let d = match_document(&ms[i]);
        items.push(d);
        i = i + 1;
    }
    let mut e: Vec<(String, Json)> = Vec::new();
    e.push(("count".to_owned(), Json::Number(decimal_string(ms.len() as u64))));
    e.push(("matches".to_owned(), Json::Array(items)));
    Json::Object(e)
}


/// A place of birth that contains the other one, or is contained in it
/// (and differs from it), adds exactly 2 points to the score, whichever of
/// the two places is the longer: the score with those places is the score
/// without places plus 2.
pub proof fn lemma_place_containment_scores_two(
    my_sex: Seq<char>,
    my_year: Option<u32>,
    my_pob_lc: Seq<char>,
    cand_sex: Option<Seq<char>>,
    cand_dob: Option<Seq<char>>,
    cand_pob_lc: Seq<char>,
)
    requires
        my_pob_lc != cand_pob_lc,
        is_substring(cand_pob_lc, my_pob_lc) || is_substring(my_pob_lc, cand_pob_lc),
    ensures
        match candidate_score(my_sex, my_year, None, cand_sex, cand_dob, None) {
            None => candidate_score(my_sex, my_year, Some(my_pob_lc), cand_sex, cand_dob, Some(cand_pob_lc)) is None,
            Some(base) => candidate_score(my_sex, my_year, Some(my_pob_lc), cand_sex, cand_dob, Some(cand_pob_lc))
                == Some((base + 2) as u32),
        },
        candidate_score(my_sex, my_year, Some(my_pob_lc), cand_sex, cand_dob, Some(cand_pob_lc))
            == candidate_score(my_sex, my_year, Some(cand_pob_lc), cand_sex, cand_dob, Some(my_pob_lc)),
{
}

} // verus!

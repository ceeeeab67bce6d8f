//! Logic of the genealogy tool server: proxy ids, year and place matching,
//! duplicate scoring and ranking, immediate-family assembly and the
//! contact-request bookkeeping of the tools.

use vstd::prelude::*;
use vstd::string::StrSliceExecFns;
use vstd::string::StringExecFns;
use crate::text::{chars_of, contains, is_alphabetic, alphabetic, is_substring, lowercase,
    str_eq, strip_prefix, to_lowercase, copy_opt, opt_chars};

verus! {

/// Why a tool call was refused before it reached the database.
#[derive(Debug, Clone, Copy, PartialEq, Eq)]
pub enum ToolError {
    /// The person proxy id was empty once its table prefix was removed.
    EmptyProxyId,
}

/// Input of the tree-listing tool (none).
pub struct ListTreesParams {}

/// Input of the person-search tool.
pub struct SearchPersonsParams {
    /// Slug of the tree to search.
    pub tree_name: String,
    /// Text matched against first and family names, ignoring case.
    pub query: String,
}

/// Input of the person-detail tool.
pub struct GetPersonParams {
    /// `person_proxy:<id>` or `<id>`.
    pub person_proxy_id: String,
}

/// Input of the immediate-family tool.
pub struct GetFamilyParams {
    /// `person_proxy:<id>` or `<id>`.
    pub person_proxy_id: String,
    /// Also list siblings (persons sharing a parent).
    pub include_siblings: bool,
}

/// Input of the duplicate-search tool.
pub struct FindDuplicatesParams {
    pub person_proxy_id: String,
}

/// Input of the contact-request listing tool.
pub struct ListContactRequestsParams {
    /// `sent`, `received`, or none for all.
    pub role: Option<String>,
}

/// Input of the contact-request tool.
pub struct CreateContactRequestParams {
    /// The caller's own proxy.
    pub from_proxy_id: String,
    /// Proxies of the matched persons whose owners are contacted.
    pub target_proxy_ids: Vec<String>,
    /// The opening message.
    pub message: String,
}

/// The record key named by a proxy id written as `person_proxy:<key>` or `<key>`.
pub open spec fn proxy_key(s: Seq<char>) -> Seq<char> {
    if "person_proxy:"@.is_prefix_of(s) {
        s.skip("person_proxy:"@.len() as int)
    } else {
        s
    }
}

/// The record key of a person proxy id given with or without its
/// `person_proxy:` table prefix; an empty key is refused.
pub fn parse_proxy_id(s: &str) -> (r: Result<&str, ToolError>)
    ensures
        match r {
            Ok(key) => key@ == proxy_key(s@) && key@.len() > 0,
            Err(e) => e == ToolError::EmptyProxyId && proxy_key(s@).len() == 0,
        },
{
    let key = match strip_prefix(s, "person_proxy:") {
        Some(rest) => rest,
        None => s,
    };
    if key.unicode_len() == 0 {
        Err(ToolError::EmptyProxyId)
    } else {
        Ok(key)
    }
}

/// Whether a byte is an ASCII digit.
pub open spec fn is_digit_byte(b: u8) -> bool {
    48 <= b <= 57
}

/// Whether the four bytes from `i` are ASCII digits.
pub open spec fn four_digits_at(b: Seq<u8>, i: int) -> bool {
    0 <= i && i + 4 <= b.len() && is_digit_byte(b[i]) && is_digit_byte(b[i + 1])
        && is_digit_byte(b[i + 2]) && is_digit_byte(b[i + 3])
}

/// The decimal number written by the four bytes from `i`.
pub open spec fn number_at(b: Seq<u8>, i: int) -> int {
    (b[i] - 48) * 1000 + (b[i + 1] - 48) * 100 + (b[i + 2] - 48) * 10 + (b[i + 3] - 48)
}

/// Whether a plausible birth year (1700 to 2099) is written from `i`.
pub open spec fn year_at(b: Seq<u8>, i: int) -> bool {
    four_digits_at(b, i) && 1700 <= number_at(b, i) <= 2099
}

/// The first plausible year written at or after byte `i`.
pub open spec fn year_from(b: Seq<u8>, i: int) -> Option<u32>
    decreases b.len() - i,
{
    if i < 0 || i + 4 > b.len() {
        None
    } else if year_at(b, i) {
        Some(number_at(b, i) as u32)
    } else {
        year_from(b, i + 1)
    }
}

/// The first four-digit run of a free-form date string that reads as a year
/// from 1700 to 2099, scanning the UTF-8 bytes from the start.
pub open spec fn extracted_year(s: Seq<char>) -> Option<u32> {
    year_from(vstd::utf8::encode_utf8(s), 0)
}

/// Extracts a 4-digit year (1700 to 2099) from a free-form date string.
pub fn mcp_extract_year(s: &str) -> (r: Option<u32>)
    ensures
        r == extracted_year(s@),
{
    let bytes = s.as_bytes();
    let n = bytes.len();
    if n < 4 {
        return None;
    }
    let mut i: usize = 0;
    while i <= n - 4
        invariant
            bytes@ == vstd::utf8::encode_utf8(s@),
            n == bytes@.len(),
            4 <= n,
            i <= n - 3,
            year_from(bytes@, 0) == year_from(bytes@, i as int),
        decreases n - i,
    {
        let b0 = bytes[i];
        let b1 = bytes[i + 1];
        let b2 = bytes[i + 2];
        let b3 = bytes[i + 3];
        if 48 <= b0 && b0 <= 57 && 48 <= b1 && b1 <= 57 && 48 <= b2 && b2 <= 57 && 48 <= b3 && b3 <= 57 {
            let y: u32 = (b0 as u32 - 48) * 1000 + (b1 as u32 - 48) * 100 + (b2 as u32 - 48) * 10 + (b3 as u32 - 48);
            if 1700 <= y && y <= 2099 {
                return Some(y);
            }
        }
        i = i + 1;
    }
    None
}

/// Which characters of `s` are alphabetic.
pub open spec fn alpha_mask(s: Seq<char>) -> Seq<bool> {
    Seq::new(s.len(), |k: int| alphabetic(s[k]))
}

/// Whether `s[i..j]` is a maximal run of characters marked in `m`: a word
/// of `s` split at every unmarked character.
pub open spec fn is_word(s: Seq<char>, m: Seq<bool>, i: int, j: int) -> bool {
    &&& 0 <= i < j <= s.len()
    &&& forall|k: int| i <= k < j ==> #[trigger] m[k]
    &&& (i == 0 || !m[i - 1])
    &&& (j == s.len() || !m[j])
}

/// A word longer than three bytes in UTF-8.
pub open spec fn is_significant_word(s: Seq<char>, m: Seq<bool>, i: int, j: int) -> bool {
    is_word(s, m, i, j) && vstd::utf8::encode_utf8(s.subrange(i, j)).len() > 3
}

/// Whether `w` is one of the significant words of `s`.
pub open spec fn has_significant_word(s: Seq<char>, m: Seq<bool>, w: Seq<char>) -> bool {
    exists|i: int, j: int| #[trigger] is_significant_word(s, m, i, j) && s.subrange(i, j) == w
}

/// Whether `a` and `b`, split at their unmarked characters, share a word
/// longer than three bytes.
pub open spec fn shares_words(a: Seq<char>, ma: Seq<bool>, b: Seq<char>, mb: Seq<bool>) -> bool {
    exists|i: int, j: int| #[trigger] is_significant_word(a, ma, i, j) && has_significant_word(b, mb, a.subrange(i, j))
}

/// Whether two place strings share a word longer than three bytes, words
/// being the runs of alphabetic characters.
pub open spec fn shares_significant_word(a: Seq<char>, b: Seq<char>) -> bool {
    shares_words(a, alpha_mask(a), b, alpha_mask(b))
}

proof fn lemma_word_start_unique(s: Seq<char>, mask: Seq<bool>, start: int, i: int, k: int)
    requires
        0 <= start <= k <= s.len(),
        forall|m: int| start <= m < k ==> #[trigger] mask[m],
        start == 0 || !mask[start - 1],
        is_word(s, mask, i, k),
    ensures
        i == start,
{
    if i < start {
        assert(mask[start - 1]);
    } else if i > start {
        assert(mask[i - 1]);
    }
}

/// The significant words of `s` split at its unmarked characters, in
/// order of appearance.
fn significant_words(s: &str, mask: &Vec<bool>) -> (ws: Vec<String>)
    requires
        mask@.len() == s@.len(),
    ensures
        forall|m: int| 0 <= m < ws.len() ==> has_significant_word(s@, mask@, #[trigger] ws@[m]@),
        forall|i: int, j: int| #[trigger] is_significant_word(s@, mask@, i, j)
            ==> exists|m: int| 0 <= m < ws.len() && #[trigger] ws@[m]@ == s@.subrange(i, j),
{
    let cs = chars_of(s);
    let n = cs.len();
    let mut ws: Vec<String> = Vec::new();
    let mut start: usize = 0;
    let mut k: usize = 0;
    while k <= n
        invariant
            cs@ == s@,
            n == cs.len(),
            mask@.len() == n,
            start <= k <= n + 1,
            k <= n ==> start <= k,
            k <= n ==> forall|m: int| start <= m < k ==> #[trigger] mask@[m],
            k <= n ==> (start == 0 || !mask@[start - 1]),
            forall|m: int| 0 <= m < ws.len() ==> has_significant_word(s@, mask@, #[trigger] ws@[m]@),
            forall|i: int, j: int| #[trigger] is_significant_word(s@, mask@, i, j) && j < k
                ==> exists|m: int| 0 <= m < ws.len() && #[trigger] ws@[m]@ == s@.subrange(i, j),
        decreases n + 1 - k,
    {
        let at_end = k == n;
        let boundary = if at_end { true } else { !mask[k] };
        if boundary {
            if start < k {
                let w = s.substring_char(start, k);
                let wl = w.as_bytes().len();
                proof {
                    assert(vstd::utf8::encode_utf8(w@).len() == wl);
                }
                if wl > 3 {
                    let ghost old_ws = ws@;
                    ws.push(w.to_owned());
                    proof {
                        assert(is_word(s@, mask@, start as int, k as int));
                        assert(is_significant_word(s@, mask@, start as int, k as int));
                        assert(ws@[ws.len() - 1]@ == s@.subrange(start as int, k as int));
                        assert forall|m: int| 0 <= m < ws.len() implies has_significant_word(s@, mask@, #[trigger] ws@[m]@) by {
                            if m < old_ws.len() {
                                assert(ws@[m] == old_ws[m]);
                            }
                        }
                        assert forall|i: int, j: int| #[trigger] is_significant_word(s@, mask@, i, j) && j < k + 1
                            implies exists|m: int| 0 <= m < ws.len() && #[trigger] ws@[m]@ == s@.subrange(i, j) by {
                            if j < k {
                                let m = choose|m: int| 0 <= m < old_ws.len() && #[trigger] old_ws[m]@ == s@.subrange(i, j);
                                assert(ws@[m] == old_ws[m]);
                            } else {
                                lemma_word_start_unique(s@, mask@, start as int, i, k as int);
                                assert(ws@[ws.len() - 1]@ == s@.subrange(i, j));
                            }
                        }
                    }
                } else {
                    proof {
                        assert forall|i: int, j: int| #[trigger] is_significant_word(s@, mask@, i, j) && j < k + 1
                            implies exists|m: int| 0 <= m < ws.len() && #[trigger] ws@[m]@ == s@.subrange(i, j) by {
                            if j == k {
                                lemma_word_start_unique(s@, mask@, start as int, i, k as int);
                                assert(s@.subrange(i, j) == w@);
                            }
                        }
                    }
                }
            } else {
                proof {
                    assert forall|i: int, j: int| #[trigger] is_significant_word(s@, mask@, i, j) && j < k + 1
                        implies exists|m: int| 0 <= m < ws.len() && #[trigger] ws@[m]@ == s@.subrange(i, j) by {
                        if j == k {
                            lemma_word_start_unique(s@, mask@, start as int, i, k as int);
                        }
                    }
                }
            }
            if at_end {
                return ws;
            }
            start = k + 1;
        } else {
            proof {
                assert forall|i: int, j: int| #[trigger] is_significant_word(s@, mask@, i, j) && j < k + 1
                    implies exists|m: int| 0 <= m < ws.len() && #[trigger] ws@[m]@ == s@.subrange(i, j) by {
                    if j == k {
                        assert(!mask@[j]);
                    }
                }
            }
        }
        k = k + 1;
    }
    ws
}

/// Whether `a` and `b`, each split at the characters its mask leaves
/// unmarked, share a word longer than three bytes.
pub fn shares_significant_word_in(a: &str, a_alpha: &Vec<bool>, b: &str, b_alpha: &Vec<bool>) -> (r: bool)
    requires
        a_alpha@.len() == a@.len(),
        b_alpha@.len() == b@.len(),
    ensures
        r == shares_words(a@, a_alpha@, b@, b_alpha@),
{
    let words_a = significant_words(a, a_alpha);
    let words_b = significant_words(b, b_alpha);
    let mut x: usize = 0;
    while x < words_a.len()
        invariant
            forall|m: int| 0 <= m < words_a.len() ==> has_significant_word(a@, a_alpha@, #[trigger] words_a@[m]@),
            forall|i: int, j: int| #[trigger] is_significant_word(a@, a_alpha@, i, j)
                ==> exists|m: int| 0 <= m < words_a.len() && #[trigger] words_a@[m]@ == a@.subrange(i, j),
            forall|m: int| 0 <= m < words_b.len() ==> has_significant_word(b@, b_alpha@, #[trigger] words_b@[m]@),
            forall|i: int, j: int| #[trigger] is_significant_word(b@, b_alpha@, i, j)
                ==> exists|m: int| 0 <= m < words_b.len() && #[trigger] words_b@[m]@ == b@.subrange(i, j),
            x <= words_a.len(),
            forall|m: int| 0 <= m < x ==> !has_significant_word(b@, b_alpha@, #[trigger] words_a@[m]@),
        decreases words_a.len() - x,
    {
        let mut y: usize = 0;
        while y < words_b.len()
            invariant
                forall|m: int| 0 <= m < words_a.len() ==> has_significant_word(a@, a_alpha@, #[trigger] words_a@[m]@),
                forall|m: int| 0 <= m < words_b.len() ==> has_significant_word(b@, b_alpha@, #[trigger] words_b@[m]@),
                x < words_a.len(),
                y <= words_b.len(),
                forall|m: int| 0 <= m < y ==> words_b@[m]@ != words_a@[x as int]@,
            decreases words_b.len() - y,
        {
            if str_eq(words_a[x].as_str(), words_b[y].as_str()) {
                proof {
                    let w = words_a@[x as int]@;
                    assert(has_significant_word(a@, a_alpha@, w));
                    let (i, j) = choose|i: int, j: int| #[trigger] is_significant_word(a@, a_alpha@, i, j) && a@.subrange(i, j) == w;
                    assert(has_significant_word(b@, b_alpha@, words_b@[y as int]@));
                    assert(is_significant_word(a@, a_alpha@, i, j) && has_significant_word(b@, b_alpha@, a@.subrange(i, j)));
                }
                return true;
            }
            y = y + 1;
        }
        proof {
            let w = words_a@[x as int]@;
            if has_significant_word(b@, b_alpha@, w) {
                let (i, j) = choose|i: int, j: int| #[trigger] is_significant_word(b@, b_alpha@, i, j) && b@.subrange(i, j) == w;
                let m = choose|m: int| 0 <= m < words_b.len() && #[trigger] words_b@[m]@ == b@.subrange(i, j);
                assert(words_b@[m]@ == w);
            }
        }
        x = x + 1;
    }
    proof {
        assert forall|i: int, j: int| #[trigger] is_significant_word(a@, a_alpha@, i, j) implies !has_significant_word(b@, b_alpha@, a@.subrange(i, j)) by {
            let m = choose|m: int| 0 <= m < words_a.len() && #[trigger] words_a@[m]@ == a@.subrange(i, j);
            assert(!has_significant_word(b@, b_alpha@, words_a@[m]@));
        }
    }
    false
}

/// Which characters of `s` are alphabetic (`char::is_alphabetic`).
fn alpha_flags(s: &str) -> (r: Vec<bool>)
    ensures
        r@ == alpha_mask(s@),
{
    let cs = chars_of(s);
    let mut out: Vec<bool> = Vec::new();
    let mut i: usize = 0;
    while i < cs.len()
        invariant
            cs@ == s@,
            i <= cs.len(),
            out@.len() == i,
            forall|k: int| 0 <= k < i ==> #[trigger] out@[k] == alphabetic(s@[k]),
        decreases cs.len() - i,
    {
        out.push(is_alphabetic(cs[i]));
        i = i + 1;
    }
    proof {
        assert(out@ =~= alpha_mask(s@));
    }
    out
}

/// True when two lower-cased place strings share at least one word longer
/// than three bytes, words being the runs between non-alphabetic characters.
pub fn mcp_shares_significant_word(a: &str, b: &str) -> (r: bool)
    ensures
        r == shares_significant_word(a@, b@),
{
    let a_alpha = alpha_flags(a);
    let b_alpha = alpha_flags(b);
    shares_significant_word_in(a, &a_alpha, b, &b_alpha)
}

/// A row of a family query with the proxy id it names, if it has one.
pub struct FamilyRow<T> {
    pub person_proxy_id: Option<String>,
    pub row: T,
}

/// The key under which a row is deduplicated: its proxy id, or the empty
/// string when it has none.
pub open spec fn row_key<T>(r: FamilyRow<T>) -> Seq<char> {
    match r.person_proxy_id {
        Some(s) => s@,
        None => Seq::empty(),
    }
}

/// Whether one of `rows` names the proxy id `key`.
pub open spec fn names_proxy<T>(rows: Seq<FamilyRow<T>>, key: Seq<char>) -> bool {
    exists|j: int| 0 <= j < rows.len() && #[trigger] opt_chars(rows[j].person_proxy_id) == Some(key)
}

/// The children of a person: those found through father edges, then those
/// found through mother edges whose proxy id is not among the former.
pub open spec fn merged_children<T>(via_father: Seq<FamilyRow<T>>, via_mother: Seq<FamilyRow<T>>) -> Seq<FamilyRow<T>> {
    via_father + via_mother.filter(|c: FamilyRow<T>| !names_proxy(via_father, row_key(c)))
}

/// Whether `rows` holds `key` among its proxy ids.
fn holds_proxy_id<T>(rows: &Vec<FamilyRow<T>>, key: &str) -> (r: bool)
    ensures
        r == names_proxy(rows@, key@),
{
    let mut j: usize = 0;
    while j < rows.len()
        invariant
            j <= rows.len(),
            forall|k: int| 0 <= k < j ==> #[trigger] opt_chars(rows@[k].person_proxy_id) != Some(key@),
        decreases rows.len() - j,
    {
        match &rows[j].person_proxy_id {
            Some(id) => {
                if str_eq(id.as_str(), key) {
                    proof {
                        assert(opt_chars(rows@[j as int].person_proxy_id) == Some(key@));
                    }
                    return true;
                }
            },
            None => {},
        }
        j = j + 1;
    }
    false
}

/// The proxy id of a row, or the empty string.
fn key_of<T>(r: &FamilyRow<T>) -> (k: &str)
    ensures
        k@ == row_key(*r),
{
    proof {
        reveal_strlit("");
    }
    match &r.person_proxy_id {
        Some(s) => s.as_str(),
        None => "",
    }
}

/// The elements of `v` in reverse order.
pub fn reversed<T>(v: Vec<T>) -> (r: Vec<T>)
    ensures
        r@ == v@.reverse(),
{
    let ghost orig = v@;
    let mut rest = v;
    let mut out: Vec<T> = Vec::new();
    while rest.len() > 0
        invariant
            rest@ + out@.reverse() == orig,
        decreases rest.len(),
    {
        let c = rest.pop().unwrap();
        let ghost prev_out = out@;
        out.push(c);
        proof {
            assert(out@.reverse() =~= seq![c] + prev_out.reverse());
            assert(rest@ + out@.reverse() =~= orig);
        }
    }
    proof {
        assert(out@.reverse() =~= orig);
        assert(out@ =~= orig.reverse());
    }
    out
}

/// Merges the children found through father and mother edges, dropping
/// mother-side rows whose proxy id was already found through a father edge.
pub fn merge_children<T>(via_father: Vec<FamilyRow<T>>, via_mother: Vec<FamilyRow<T>>) -> (r: Vec<FamilyRow<T>>)
    ensures
        r@ == merged_children(via_father@, via_mother@),
{
    let ghost fathers = via_father@;
    let ghost mothers = via_mother@;
    let ghost pred = |c: FamilyRow<T>| !names_proxy(fathers, row_key(c));
    let n = via_mother.len();
    let mut stack = reversed(via_mother);
    let mut extra: Vec<FamilyRow<T>> = Vec::new();
    let mut i: usize = 0;
    while i < n
        invariant
            fathers == via_father@,
            pred == (|c: FamilyRow<T>| !names_proxy(fathers, row_key(c))),
            n == mothers.len(),
            i <= n,
            stack@.len() == n - i,
            forall|k: int| 0 <= k < n - i ==> #[trigger] stack@[k] == mothers[n - 1 - k],
            extra@ == mothers.take(i as int).filter(pred),
        decreases n - i,
    {
        let c = stack.pop().unwrap();
        proof {
            reveal(Seq::filter);
            assert(c == mothers[i as int]);
            assert(mothers.take(i + 1).drop_last() =~= mothers.take(i as int));
            assert(mothers.take(i + 1).last() == c);
        }
        let known = holds_proxy_id(&via_father, key_of(&c));
        if !known {
            extra.push(c);
        }
        i = i + 1;
    }
    proof {
        assert(mothers.take(n as int) =~= mothers);
    }
    let mut out = via_father;
    out.append(&mut extra);
    out
}

/// Whether the row at `i` has a proxy id and is the first row with it.
pub open spec fn first_with_key<T>(rows: Seq<FamilyRow<T>>, i: int) -> bool {
    row_key(rows[i]).len() > 0 && forall|j: int| 0 <= j < i ==> row_key(#[trigger] rows[j]) != row_key(rows[i])
}

/// The sibling rows gathered over all parents: each proxy id once, at its
/// first row, and no row without a proxy id.
pub open spec fn distinct_siblings<T>(rows: Seq<FamilyRow<T>>) -> Seq<FamilyRow<T>>
    decreases rows.len(),
{
    if rows.len() == 0 {
        Seq::empty()
    } else {
        let prev = distinct_siblings(rows.drop_last());
        if first_with_key(rows, rows.len() - 1) {
            prev.push(rows.last())
        } else {
            prev
        }
    }
}

/// Keeps the first row of each non-empty proxy id among the sibling rows
/// found under each parent in turn.
pub fn collect_siblings<T>(rows: Vec<FamilyRow<T>>) -> (r: Vec<FamilyRow<T>>)
    ensures
        r@ == distinct_siblings(rows@),
{
    let ghost all = rows@;
    let n = rows.len();
    let mut keep: Vec<bool> = Vec::new();
    let mut i: usize = 0;
    while i < n
        invariant
            all == rows@,
            n == rows.len(),
            i <= n,
            keep@.len() == i,
            forall|k: int| 0 <= k < i ==> #[trigger] keep@[k] == first_with_key(all, k),
        decreases n - i,
    {
        let key = key_of(&rows[i]);
        let mut fresh = key.unicode_len() > 0;
        let mut j: usize = 0;
        while j < i
            invariant
                all == rows@,
                n == rows.len(),
                i < n,
                j <= i,
                key@ == row_key(all[i as int]),
                fresh == (row_key(all[i as int]).len() > 0 && forall|m: int| 0 <= m < j ==> row_key(#[trigger] all[m]) != key@),
            decreases i - j,
        {
            if str_eq(key_of(&rows[j]), key) {
                fresh = false;
            }
            j = j + 1;
        }
        keep.push(fresh);
        i = i + 1;
    }
    let mut stack = reversed(rows);
    let mut out: Vec<FamilyRow<T>> = Vec::new();
    let mut i: usize = 0;
    while i < n
        invariant
            n == all.len(),
            i <= n,
            keep@.len() == n,
            forall|k: int| 0 <= k < n ==> #[trigger] keep@[k] == first_with_key(all, k),
            stack@.len() == n - i,
            forall|k: int| 0 <= k < n - i ==> #[trigger] stack@[k] == all[n - 1 - k],
            out@ == distinct_siblings(all.take(i as int)),
        decreases n - i,
    {
        let c = stack.pop().unwrap();
        proof {
            let t = all.take(i + 1);
            assert(c == all[i as int]);
            assert(t.drop_last() =~= all.take(i as int));
            assert(t.last() == c);
            assert(t[i as int] == all[i as int]);
            assert(first_with_key(t, i as int) == first_with_key(all, i as int)) by {
                if first_with_key(all, i as int) {
                    assert forall|j: int| 0 <= j < i implies row_key(#[trigger] t[j]) != row_key(t[i as int]) by {
                        assert(t[j] == all[j]);
                    }
                }
                if first_with_key(t, i as int) {
                    assert forall|j: int| 0 <= j < i implies row_key(#[trigger] all[j]) != row_key(all[i as int]) by {
                        assert(t[j] == all[j]);
                    }
                }
            }
        }
        if keep[i] {
            out.push(c);
        }
        i = i + 1;
    }
    proof {
        assert(all.take(n as int) =~= all);
    }
    out
}

/// The edge table that links a person to the given parent: `has_father`
/// when the parent is among the person's fathers, else `has_mother`.
pub fn parent_edge_table<T>(parent_id: &str, fathers: &Vec<FamilyRow<T>>) -> (r: &'static str)
    ensures
        r@ == (if names_proxy(fathers@, parent_id@) { "has_father"@ } else { "has_mother"@ }),
{
    if holds_proxy_id(fathers, parent_id) {
        "has_father"
    } else {
        "has_mother"
    }
}

/// What to do with one target of a contact request.
#[derive(Debug, Clone, Copy, PartialEq, Eq)]
pub enum ContactAction {
    /// No request: the target has no owner or is the caller's own.
    Skip,
    /// Look for a pending request to this owner; create one if there is none.
    CheckPending,
}

/// The action for a target owned by `target_owner` (unknown when `None`),
/// on behalf of `caller`.
pub open spec fn contact_action_spec(caller: Seq<char>, target_owner: Option<Seq<char>>) -> ContactAction {
    match target_owner {
        None => ContactAction::Skip,
        Some(o) => if o == caller {
            ContactAction::Skip
        } else {
            ContactAction::CheckPending
        },
    }
}

/// Skips targets without an owner and the caller's own; the others go on to
/// the pending-request check.
pub fn contact_action(caller: &str, target_owner: Option<&str>) -> (r: ContactAction)
    ensures
        r == contact_action_spec(caller@, match target_owner {
            Some(o) => Some(o@),
            None => None,
        }),
{
    match target_owner {
        None => ContactAction::Skip,
        Some(o) => if str_eq(o, caller) {
            ContactAction::Skip
        } else {
            ContactAction::CheckPending
        },
    }
}

/// The number of contact requests sent and of targets skipped.
#[derive(Debug, Clone, Copy, PartialEq, Eq)]
pub struct ContactTally {
    pub sent: u32,
    pub skipped: u32,
}

impl ContactTally {
    /// No target seen yet.
    pub fn new() -> (t: ContactTally)
        ensures
            t.sent == 0 && t.skipped == 0,
    {
        ContactTally { sent: 0, skipped: 0 }
    }

    /// Counts a target: skipped when its action is `Skip` or a pending
    /// request to its owner exists, else sent. Returns whether a request is
    /// to be created.
    pub fn record(&mut self, action: ContactAction, pending_exists: bool) -> (create: bool)
        requires
            old(self).sent + old(self).skipped < u32::MAX,
        ensures
            create == (action == ContactAction::CheckPending && !pending_exists),
            create ==> final(self).sent == old(self).sent + 1 && final(self).skipped == old(self).skipped,
            !create ==> final(self).skipped == old(self).skipped + 1 && final(self).sent == old(self).sent,
    {
        let create = match action {
            ContactAction::Skip => false,
            ContactAction::CheckPending => !pending_exists,
        };
        if create {
            self.sent = self.sent + 1;
        } else {
            self.skipped = self.skipped + 1;
        }
        create
    }
}

/// Which side of a contact request the caller is on.
#[derive(Debug, Clone, Copy, PartialEq, Eq)]
pub enum Direction {
    Sent,
    Received,
}

/// Sent when the request's sender (empty when unknown) is the caller.
pub fn contact_direction(from_user: Option<&str>, username: &str) -> (r: Direction)
    ensures
        r == (if (match from_user {
            Some(f) => f@,
            None => Seq::<char>::empty(),
        }) == username@ {
            Direction::Sent
        } else {
            Direction::Received
        }),
{
    proof {
        reveal_strlit("");
        assert(""@ =~= Seq::<char>::empty());
    }
    let from = match from_user {
        Some(f) => f,
        None => "",
    };
    if str_eq(from, username) {
        Direction::Sent
    } else {
        Direction::Received
    }
}

/// The host of a URL as `url::Url` parses it; `None` when the string is
/// not a URL or the URL has no host.
pub uninterp spec fn url_host(s: Seq<char>) -> Option<Seq<char>>;

/// Calls `url::Url::parse` and `host_str`; the host is named `url_host` of
/// the input.
#[verifier::external_body]
fn parse_host(uri: &str) -> (r: Option<String>)
    ensures
        crate::text::opt_chars(r) == url_host(uri@),
{
    match url::Url::parse(uri) {
        Ok(u) => match u.host_str() {
            Some(h) => Some(h.to_owned()),
            None => None,
        },
        Err(_) => None,
    }
}

/// The hosts the tool server answers to, given the host of its canonical
/// URI: the loopback names, then that host (empty when there is none).
pub fn hosts_with(host: Option<String>) -> (r: Vec<String>)
    ensures
        r@.len() == 4,
        r@[0]@ == "localhost"@,
        r@[1]@ == "127.0.0.1"@,
        r@[2]@ == "::1"@,
        r@[3]@ == (match host {
            Some(h) => h@,
            None => Seq::<char>::empty(),
        }),
{
    let host = match host {
        Some(h) => h,
        None => String::new(),
    };
    let mut v: Vec<String> = Vec::new();
    v.push("localhost".to_owned());
    v.push("127.0.0.1".to_owned());
    v.push("::1".to_owned());
    v.push(host);
    v
}

/// The hosts the tool server answers to: the loopback names and the host of
/// its canonical URI (empty when the URI has none).
pub fn allowed_hosts(canonical_uri: &str) -> (r: Vec<String>)
    ensures
        r@.len() == 4,
        r@[0]@ == "localhost"@,
        r@[1]@ == "127.0.0.1"@,
        r@[2]@ == "::1"@,
        r@[3]@ == (match url_host(canonical_uri@) {
            Some(h) => h,
            None => Seq::<char>::empty(),
        }),
{
    hosts_with(parse_host(canonical_uri))
}

/// The `WWW-Authenticate` challenge of the tool endpoint: it points clients
/// at the protected-resource metadata, and names an invalid token as such.
pub open spec fn challenge(canonical_uri: Seq<char>, invalid_token: bool) -> Seq<char> {
    "Bearer resource_metadata=\""@ + canonical_uri + "/.well-known/oauth-protected-resource\", scope=\"mcp:tools\""@
        + (if invalid_token { ", error=\"invalid_token\""@ } else { Seq::<char>::empty() })
}

/// Builds the `WWW-Authenticate` header value of a refused tool request.
pub fn www_authenticate(canonical_uri: &str, invalid_token: bool) -> (r: String)
    ensures
        r@ == challenge(canonical_uri@, invalid_token),
{
    let mut h = String::from_str("Bearer resource_metadata=\"");
    h.append(canonical_uri);
    h.append("/.well-known/oauth-protected-resource\", scope=\"mcp:tools\"");
    if invalid_token {
        h.append(", error=\"invalid_token\"");
    } else {
        proof {
            assert(h@ + Seq::<char>::empty() =~= h@);
        }
    }
    h
}

/// The most rows a person search returns.
pub const SEARCH_LIMIT: usize = 20;

/// A row of a person search with its first and family names.
pub struct SearchRow<T> {
    pub first_name: Option<String>,
    pub family_name: Option<String>,
    pub row: T,
}

/// Whether lower-cased names match a lower-cased query: it occurs in the
/// first name, the family name, or `first family`.
pub open spec fn name_matches(first_lc: Seq<char>, family_lc: Seq<char>, q_lc: Seq<char>) -> bool {
    is_substring(q_lc, first_lc) || is_substring(q_lc, family_lc)
        || is_substring(q_lc, first_lc + seq![' '] + family_lc)
}

/// Whether lower-cased names match a lower-cased query.
pub fn names_match(first_lc: &str, family_lc: &str, q_lc: &str) -> (r: bool)
    ensures
        r == name_matches(first_lc@, family_lc@, q_lc@),
{
    if contains(first_lc, q_lc) || contains(family_lc, q_lc) {
        return true;
    }
    let mut full = String::from_str(first_lc);
    full.append(" ");
    full.append(family_lc);
    proof {
        reveal_strlit(" ");
        assert(full@ =~= first_lc@ + seq![' '] + family_lc@);
    }
    contains(full.as_str(), q_lc)
}

/// A missing name is searched as the empty string.
pub open spec fn name_or_empty(o: Option<String>) -> Seq<char> {
    match o {
        Some(s) => s@,
        None => Seq::empty(),
    }
}

/// Whether a search row matches the query, names and query lower-cased.
pub open spec fn row_matches<T>(r: SearchRow<T>, query: Seq<char>) -> bool {
    name_matches(lowercase(name_or_empty(r.first_name)), lowercase(name_or_empty(r.family_name)), lowercase(query))
}

/// The rows that match, in order, at most `SEARCH_LIMIT` of them.
pub open spec fn search_result<T>(rows: Seq<SearchRow<T>>, query: Seq<char>) -> Seq<SearchRow<T>> {
    let all = rows.filter(|r: SearchRow<T>| row_matches(r, query));
    if all.len() <= SEARCH_LIMIT { all } else { all.take(SEARCH_LIMIT as int) }
}

/// An optional name, lower-cased, the empty string when missing.
fn lower_name(o: &Option<String>) -> (r: String)
    ensures
        r@ == lowercase(name_or_empty(*o)),
{
    proof {
        reveal_strlit("");
        assert(""@ =~= Seq::<char>::empty());
    }
    match o {
        Some(s) => to_lowercase(s.as_str()),
        None => to_lowercase(""),
    }
}

/// Searches persons by name: rows whose first name, family name or full
/// name contains the query, ignoring case; at most twenty, in order.
pub fn search_persons<T>(rows: Vec<SearchRow<T>>, query: &str) -> (r: Vec<SearchRow<T>>)
    ensures
        r@ == search_result(rows@, query@),
{
    let ghost all = rows@;
    let ghost pred = |r: SearchRow<T>| row_matches(r, query@);
    let q = to_lowercase(query);
    let n = rows.len();
    let mut stack = reversed(rows);
    let mut out: Vec<SearchRow<T>> = Vec::new();
    let mut i: usize = 0;
    while i < n && out.len() < SEARCH_LIMIT
        invariant
            n == all.len(),
            i <= n,
            q@ == lowercase(query@),
            pred == (|r: SearchRow<T>| row_matches(r, query@)),
            stack@.len() == n - i,
            forall|k: int| 0 <= k < n - i ==> #[trigger] stack@[k] == all[n - 1 - k],
            out@ == all.take(i as int).filter(pred),
            out@.len() <= SEARCH_LIMIT,
        decreases n - i,
    {
        let c = stack.pop().unwrap();
        proof {
            reveal(Seq::filter);
            assert(c == all[i as int]);
            assert(all.take(i + 1).drop_last() =~= all.take(i as int));
            assert(all.take(i + 1).last() == c);
        }
        let first = lower_name(&c.first_name);
        let family = lower_name(&c.family_name);
        if names_match(first.as_str(), family.as_str(), q.as_str()) {
            out.push(c);
        }
        i = i + 1;
    }
    proof {
        lemma_filter_prefix(all, pred, i as int);
        if out@.len() < SEARCH_LIMIT {
            assert(all.take(n as int) =~= all);
        }
    }
    out
}

/// Filtering a prefix gives a prefix of the filtered whole; once the
/// prefix's filter has `SEARCH_LIMIT` items, so do the first items of the
/// whole's filter.
proof fn lemma_filter_prefix<A>(s: Seq<A>, pred: spec_fn(A) -> bool, i: int)
    requires
        0 <= i <= s.len(),
    ensures
        s.take(i).filter(pred).is_prefix_of(s.filter(pred)),
    decreases s.len() - i,
{
    reveal(Seq::filter);
    if i == s.len() {
        assert(s.take(i) =~= s);
    } else {
        lemma_filter_prefix(s, pred, i + 1);
        assert(s.take(i + 1).drop_last() =~= s.take(i));
    }
}


/// The search does not depend on the case of the query: two queries with
/// the same lower-cased form select the same rows.
pub proof fn lemma_search_ignores_query_case<T>(rows: Seq<SearchRow<T>>, q1: Seq<char>, q2: Seq<char>)
    requires
        lowercase(q1) == lowercase(q2),
    ensures
        search_result(rows, q1) == search_result(rows, q2),
{
    assert((|r: SearchRow<T>| row_matches(r, q1)) =~= (|r: SearchRow<T>| row_matches(r, q2)));
}

/// Every row found contains the lower-cased query in its lower-cased first
/// name, family name or full name, and the search returns at most twenty
/// rows.
pub proof fn lemma_search_rows_contain_lowercased_query<T>(rows: Seq<SearchRow<T>>, q: Seq<char>)
    ensures
        search_result(rows, q).len() <= 20,
        forall|k: int| 0 <= k < search_result(rows, q).len() ==> {
            let r = #[trigger] search_result(rows, q)[k];
            let f = lowercase(name_or_empty(r.first_name));
            let g = lowercase(name_or_empty(r.family_name));
            let ql = lowercase(q);
            &&& rows.contains(r)
            &&& is_substring(ql, f) || is_substring(ql, g) || is_substring(ql, f + seq![' '] + g)
        },
{
    let pred = |r: SearchRow<T>| row_matches(r, q);
    let all = rows.filter(pred);
    assert forall|k: int| 0 <= k < search_result(rows, q).len() implies {
        let r = #[trigger] search_result(rows, q)[k];
        &&& rows.contains(r)
        &&& row_matches(r, q)
    } by {
        rows.filter_lemma(pred);
        assert(search_result(rows, q)[k] == all[k]);
        assert(pred(all[k]));
        assert(all.contains(all[k]));
        rows.lemma_filter_contains_rev(pred, all[k]);
    }
}

} // verus!

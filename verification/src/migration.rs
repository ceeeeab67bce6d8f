//! Checks and labels of the notes migration: the parity counts compared
//! before and after a note is copied, and the report's skip reasons.

use vstd::prelude::*;
use sha2::Digest;
use crate::backfill_visibility::SkipReason;
use crate::text::chars_of;

verus! {

/// The marker of a Markdown link or image to an absolute URL.
pub open spec fn link_marker() -> Seq<char> {
    seq!['\u{5d}', '(', 'h', 't', 't', 'p']
}

/// The number of non-overlapping occurrences of the link marker in `s`
/// from position `i`, found left to right.
pub open spec fn marker_count_from(s: Seq<char>, i: int) -> nat
    decreases s.len() - i,
{
    if i < 0 || i + 6 > s.len() {
        0
    } else if s.subrange(i, i + 6) == link_marker() {
        1 + marker_count_from(s, i + 6)
    } else {
        marker_count_from(s, i + 1)
    }
}

/// The number of `](http` occurrences in a note body: a simple parity
/// count of embedded links, compared before and after migration.
pub fn dam_url_count(body: &str) -> (r: usize)
    ensures
        r == marker_count_from(body@, 0),
{
    let cs = chars_of(body);
    let n = cs.len();
    let mut count: usize = 0;
    let mut i: usize = 0;
    while n >= 6 && i <= n - 6
        invariant
            cs@ == body@,
            n == cs.len(),
            i <= n,
            count + marker_count_from(body@, i as int) == marker_count_from(body@, 0),
            count <= i,
        decreases n - i,
    {
        if cs[i] == ']' && cs[i + 1] == '(' && cs[i + 2] == 'h' && cs[i + 3] == 't' && cs[i + 4] == 't' && cs[i + 5] == 'p' {
            proof {
                assert(body@.subrange(i as int, i + 6) =~= link_marker());
            }
            count = count + 1;
            i = i + 6;
        } else {
            proof {
                assert(body@.subrange(i as int, i + 6) != link_marker()) by {
                    if cs[i as int] != ']' {
                        assert(body@.subrange(i as int, i + 6)[0] != link_marker()[0]);
                    } else if cs[i + 1] != '(' {
                        assert(body@.subrange(i as int, i + 6)[1] != link_marker()[1]);
                    } else if cs[i + 2] != 'h' {
                        assert(body@.subrange(i as int, i + 6)[2] != link_marker()[2]);
                    } else if cs[i + 3] != 't' {
                        assert(body@.subrange(i as int, i + 6)[3] != link_marker()[3]);
                    } else if cs[i + 4] != 't' {
                        assert(body@.subrange(i as int, i + 6)[4] != link_marker()[4]);
                    } else {
                        assert(body@.subrange(i as int, i + 6)[5] != link_marker()[5]);
                    }
                }
            }
            i = i + 1;
        }
    }
    count
}

/// The SHA-256 digest of a byte string, as the `sha2` crate computes it.
pub uninterp spec fn sha256_digest(data: Seq<u8>) -> Seq<u8>;

/// Calls `sha2::Sha256`: the digest of the bytes, named `sha256_digest`;
/// a SHA-256 digest has 32 bytes.
#[verifier::external_body]
pub(crate) fn sha256(data: &[u8]) -> (r: Vec<u8>)
    ensures
        r@ == sha256_digest(data@),
        r@.len() == 32,
{
    sha2::Sha256::digest(data).to_vec()
}

/// The lower-case hexadecimal digit of a value below 16.
pub open spec fn hex_digit(v: int) -> char {
    if v < 10 {
        (48 + v) as char
    } else {
        (87 + v) as char
    }
}

/// Bytes written as two lower-case hexadecimal digits each.
pub open spec fn hex_lower(bytes: Seq<u8>) -> Seq<char>
    decreases bytes.len(),
{
    if bytes.len() == 0 {
        Seq::empty()
    } else {
        hex_lower(bytes.drop_last()) + seq![hex_digit(bytes.last() as int / 16), hex_digit(bytes.last() as int % 16)]
    }
}

fn hex_char(v: u8) -> (c: char)
    requires
        v < 16,
    ensures
        c == hex_digit(v as int),
{
    if v < 10 {
        (48 + v) as char
    } else {
        (87 + v) as char
    }
}

/// The lower-case hexadecimal form of bytes (`{:x}` of a digest).
pub fn to_hex(bytes: &Vec<u8>) -> (r: String)
    ensures
        r@ == hex_lower(bytes@),
{
    let mut out: Vec<char> = Vec::new();
    let mut i: usize = 0;
    while i < bytes.len()
        invariant
            i <= bytes.len(),
            out@ == hex_lower(bytes@.take(i as int)),
        decreases bytes.len() - i,
    {
        let b = bytes[i];
        out.push(hex_char(b / 16));
        out.push(hex_char(b % 16));
        proof {
            assert(bytes@.take(i + 1).drop_last() =~= bytes@.take(i as int));
            assert(out@ =~= hex_lower(bytes@.take(i + 1)));
        }
        i = i + 1;
    }
    proof {
        assert(bytes@.take(bytes.len() as int) =~= bytes@);
    }
    crate::text::string_of_chars(&out)
}

/// The lower-case hexadecimal SHA-256 of a string's UTF-8 bytes: the body
/// hash compared before and after a note is copied.
pub fn sha256_hex(s: &str) -> (r: String)
    ensures
        r@ == hex_lower(sha256_digest(vstd::utf8::encode_utf8(s@))),
        r@.len() == 64,
{
    let digest = sha256(s.as_bytes());
    let r = to_hex(&digest);
    proof {
        lemma_hex_len(digest@);
    }
    r
}

proof fn lemma_hex_len(b: Seq<u8>)
    ensures
        hex_lower(b).len() == 2 * b.len(),
    decreases b.len(),
{
    if b.len() > 0 {
        lemma_hex_len(b.drop_last());
    }
}

/// The report label of a visibility skip reason.
pub fn visibility_skip_str(r: SkipReason) -> (s: &'static str)
    ensures
        s@ == (match r {
            SkipReason::NoTrees => "no_trees"@,
            SkipReason::AllTreeSlugsUnresolvable => "all_tree_slugs_unresolvable"@,
            SkipReason::NoTeamOnAnyResolvedTree => "no_team_on_any_resolved_tree"@,
        }),
{
    match r {
        SkipReason::NoTrees => "no_trees",
        SkipReason::AllTreeSlugsUnresolvable => "all_tree_slugs_unresolvable",
        SkipReason::NoTeamOnAnyResolvedTree => "no_team_on_any_resolved_tree",
    }
}

/// The report label of a note skipped because its author's username could
/// not be resolved.
pub fn visibility_skip_str_username_unresolved() -> (s: String)
    ensures
        s@ == "unresolvable_author_username"@,
{
    "unresolvable_author_username".to_owned()
}

} // verus!

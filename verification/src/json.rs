//! JSON documents as the tool server returns them, and the removal of
//! identifying fields from every object at every depth.

use vstd::prelude::*;
use crate::text::{chars_of, str_eq};
use crate::config::{all_digits, digits_value, lemma_digits_value_grows};

verus! {

/// A JSON value. Numbers are kept as their decimal text.
pub enum Json {
    Null,
    Bool(bool),
    Number(String),
    Str(String),
    Array(Vec<Json>),
    Object(Vec<(String, Json)>),
}

/// Field names that never appear in a tool response.
pub open spec fn is_sensitive_key(k: Seq<char>) -> bool {
    k == "username"@ || k == "email"@ || k == "owner"@ || k == "from_user"@ || k == "to_user"@
        || k == "created_by"@
}

/// Whether `k` names an identifying field.
pub fn sensitive_key(k: &str) -> (r: bool)
    ensures
        r == is_sensitive_key(k@),
{
    str_eq(k, "username") || str_eq(k, "email") || str_eq(k, "owner") || str_eq(k, "from_user")
        || str_eq(k, "to_user") || str_eq(k, "created_by")
}

/// Whether no object inside `j`, at any depth, has an identifying field.
pub open spec fn pii_free(j: Json) -> bool
    decreases j,
{
    match j {
        Json::Array(items) => items_pii_free(items@),
        Json::Object(entries) => entries_pii_free(entries@),
        _ => true,
    }
}

/// Whether every value of `items` is free of identifying fields.
pub open spec fn items_pii_free(items: Seq<Json>) -> bool
    decreases items,
{
    if items.len() == 0 {
        true
    } else {
        items_pii_free(items.drop_last()) && pii_free(items.last())
    }
}

/// Whether no key of `entries` is identifying and every value is free of
/// identifying fields.
pub open spec fn entries_pii_free(entries: Seq<(String, Json)>) -> bool
    decreases entries,
{
    if entries.len() == 0 {
        true
    } else {
        entries_pii_free(entries.drop_last()) && !is_sensitive_key(entries.last().0@)
            && pii_free(entries.last().1)
    }
}

/// Whether `new` is `old` with every identifying field removed from every
/// object at every depth, all else kept in order.
pub open spec fn scrubbed(old: Json, new: Json) -> bool
    decreases old,
{
    match old {
        Json::Array(a) => match new {
            Json::Array(b) => items_scrubbed(a@, b@),
            _ => false,
        },
        Json::Object(o) => match new {
            Json::Object(n) => entries_scrubbed(o@, n@),
            _ => false,
        },
        _ => new == old,
    }
}

/// Whether `b` holds the scrubbed values of `a`, one for one.
pub open spec fn items_scrubbed(a: Seq<Json>, b: Seq<Json>) -> bool
    decreases a,
{
    if a.len() == 0 {
        b.len() == 0
    } else {
        b.len() > 0 && items_scrubbed(a.drop_last(), b.drop_last()) && scrubbed(a.last(), b.last())
    }
}

/// Whether `n` holds the entries of `o` whose keys are not identifying,
/// in order, each value scrubbed.
pub open spec fn entries_scrubbed(o: Seq<(String, Json)>, n: Seq<(String, Json)>) -> bool
    decreases o,
{
    if o.len() == 0 {
        n.len() == 0
    } else if is_sensitive_key(o.last().0@) {
        entries_scrubbed(o.drop_last(), n)
    } else {
        n.len() > 0 && n.last().0@ == o.last().0@ && entries_scrubbed(o.drop_last(), n.drop_last())
            && scrubbed(o.last().1, n.last().1)
    }
}

/// The value with every identifying field removed at every depth.
fn scrub_value(value: Json) -> (r: Json)
    ensures
        scrubbed(value, r),
    decreases value,
{
    let ghost orig = value;
    match value {
        Json::Array(items) => {
            let ghost a = items@;
            proof {
                assert forall|k: int| 0 <= k < a.len() implies decreases_to!(orig => #[trigger] a[k]) by {
                    assert(decreases_to!(orig => items));
                    assert(decreases_to!(items => items@));
                    assert(decreases_to!(items@ => a[k]));
                }
            }
            let n = items.len();
            let mut stack = crate::mcp::reversed(items);
            let mut out: Vec<Json> = Vec::new();
            let mut i: usize = 0;
            while i < n
                invariant
                    n == a.len(),
                    i <= n,
                    stack@.len() == n - i,
                    forall|k: int| 0 <= k < n - i ==> #[trigger] stack@[k] == a[n - 1 - k],
                    items_scrubbed(a.take(i as int), out@),
                    orig == value,
                    forall|k: int| 0 <= k < n ==> decreases_to!(orig => #[trigger] a[k]),
                decreases n - i,
            {
                let c = stack.pop().unwrap();
                proof {
                    assert(c == a[i as int]);
                    assert(a.take(i + 1).drop_last() =~= a.take(i as int));
                    assert(decreases_to!(orig => a[i as int]));
                }
                let s = scrub_value(c);
                let ghost prev = out@;
                out.push(s);
                proof {
                    assert(out@.drop_last() =~= prev);
                }
                i = i + 1;
            }
            proof {
                assert(a.take(n as int) =~= a);
            }
            Json::Array(out)
        },
        Json::Object(entries) => {
            let ghost o = entries@;
            proof {
                assert forall|k: int| 0 <= k < o.len() implies decreases_to!(orig => (#[trigger] o[k]).1) by {
                    assert(decreases_to!(orig => entries));
                    assert(decreases_to!(entries => entries@));
                    assert(decreases_to!(entries@ => o[k]));
                    assert(decreases_to!(o[k] => o[k].1));
                }
            }
            let n = entries.len();
            let mut stack = crate::mcp::reversed(entries);
            let mut out: Vec<(String, Json)> = Vec::new();
            let mut i: usize = 0;
            while i < n
                invariant
                    n == o.len(),
                    i <= n,
                    stack@.len() == n - i,
                    forall|k: int| 0 <= k < n - i ==> #[trigger] stack@[k] == o[n - 1 - k],
                    entries_scrubbed(o.take(i as int), out@),
                    orig == value,
                    forall|k: int| 0 <= k < n ==> decreases_to!(orig => (#[trigger] o[k]).1),
                decreases n - i,
            {
                let (k, v) = stack.pop().unwrap();
                proof {
                    assert((k, v) == o[i as int]);
                    assert(o.take(i + 1).drop_last() =~= o.take(i as int));
                    assert(decreases_to!(orig => o[i as int].1));
                }
                if !sensitive_key(k.as_str()) {
                    let s = scrub_value(v);
                    let ghost prev = out@;
                    out.push((k, s));
                    proof {
                        assert(out@.drop_last() =~= prev);
                    }
                }
                i = i + 1;
            }
            proof {
                assert(o.take(n as int) =~= o);
            }
            Json::Object(out)
        },
        other => other,
    }
}

/// Recursively removes every identifying field (`username`, `email`,
/// `owner`, `from_user`, `to_user`, `created_by`) from a JSON value.
pub fn scrub_pii(value: &mut Json)
    ensures
        scrubbed(*old(value), *final(value)),
        pii_free(*final(value)),
{
    let mut taken = Json::Null;
    std::mem::swap(value, &mut taken);
    let clean = scrub_value(taken);
    proof {
        lemma_scrubbed_is_pii_free(taken, clean);
    }
    *value = clean;
}

/// A scrubbed value has no identifying field in any object at any depth.
pub proof fn lemma_scrubbed_is_pii_free(old: Json, new: Json)
    requires
        scrubbed(old, new),
    ensures
        pii_free(new),
    decreases old,
{
    match old {
        Json::Array(a) => match new {
            Json::Array(b) => lemma_items_scrubbed_pii_free(a@, b@),
            _ => {},
        },
        Json::Object(o) => match new {
            Json::Object(n) => lemma_entries_scrubbed_pii_free(o@, n@),
            _ => {},
        },
        _ => {},
    }
}

/// Scrubbed array items are free of identifying fields.
pub proof fn lemma_items_scrubbed_pii_free(a: Seq<Json>, b: Seq<Json>)
    requires
        items_scrubbed(a, b),
    ensures
        items_pii_free(b),
    decreases a,
{
    if a.len() > 0 {
        lemma_items_scrubbed_pii_free(a.drop_last(), b.drop_last());
        lemma_scrubbed_is_pii_free(a.last(), b.last());
    }
}

/// Scrubbed object entries are free of identifying fields.
pub proof fn lemma_entries_scrubbed_pii_free(o: Seq<(String, Json)>, n: Seq<(String, Json)>)
    requires
        entries_scrubbed(o, n),
    ensures
        entries_pii_free(n),
    decreases o,
{
    if o.len() > 0 {
        if is_sensitive_key(o.last().0@) {
            lemma_entries_scrubbed_pii_free(o.drop_last(), n);
        } else {
            lemma_entries_scrubbed_pii_free(o.drop_last(), n.drop_last());
            lemma_scrubbed_is_pii_free(o.last().1, n.last().1);
        }
    }
}

/// The value of the first entry with the given key.
pub open spec fn entry_value(entries: Seq<(String, Json)>, key: Seq<char>) -> Option<Json>
    decreases entries.len(),
{
    if entries.len() == 0 {
        None
    } else if entries[0].0@ == key {
        Some(entries[0].1)
    } else {
        entry_value(entries.drop_first(), key)
    }
}

/// The value of a field of an object (the first entry with the key);
/// nothing for other values.
pub open spec fn field_of(j: Json, key: Seq<char>) -> Option<Json> {
    match j {
        Json::Object(entries) => entry_value(entries@, key),
        _ => None,
    }
}

/// The value of a field of an object (`Value::get`).
pub fn get_field<'a>(j: &'a Json, key: &str) -> (r: Option<&'a Json>)
    ensures
        match r {
            Some(v) => field_of(*j, key@) == Some(*v),
            None => field_of(*j, key@) is None,
        },
{
    match j {
        Json::Object(entries) => {
            let mut i: usize = 0;
            proof {
                assert(entries@.skip(0) =~= entries@);
                assert(*j == Json::Object(*entries));
                assert(field_of(*j, key@) == entry_value(entries@, key@));
            }
            while i < entries.len()
                invariant
                    i <= entries.len(),
                    entry_value(entries@, key@) == entry_value(entries@.skip(i as int), key@),
                    field_of(*j, key@) == entry_value(entries@, key@),
                decreases entries.len() - i,
            {
                proof {
                    assert(entries@.skip(i as int)[0] == entries@[i as int]);
                    assert(entries@.skip(i as int).drop_first() =~= entries@.skip(i + 1));
                }
                if str_eq(entries[i].0.as_str(), key) {
                    return Some(&entries[i].1);
                }
                i = i + 1;
            }
            None
        },
        _ => None,
    }
}

/// A string field of a row.
pub fn str_field<'a>(row: &'a Json, field: &str) -> (r: Option<&'a str>)
    ensures
        match field_of(*row, field@) {
            Some(Json::Str(s)) => r is Some && r->0@ == s@,
            _ => r is None,
        },
{
    match get_field(row, field) {
        Some(Json::Str(s)) => Some(s.as_str()),
        _ => None,
    }
}

/// A boolean field of a row; false when missing or not a boolean.
pub fn bool_field(row: &Json, field: &str) -> (r: bool)
    ensures
        r == (match field_of(*row, field@) {
            Some(Json::Bool(b)) => b,
            _ => false,
        }),
{
    match get_field(row, field) {
        Some(Json::Bool(b)) => *b,
        _ => false,
    }
}

/// The integer a number text denotes, as `as_i64` reads it: an optional
/// `-` and at least one decimal digit, within the range of `i64`. Any other
/// text (a fraction, an exponent) denotes no `i64`.
pub open spec fn number_i64(s: Seq<char>) -> Option<i64> {
    let neg = s.len() > 0 && s[0] == '-';
    let d = if neg { s.drop_first() } else { s };
    if d.len() > 0 && all_digits(d) {
        let v = if neg { -digits_value(d) } else { digits_value(d) };
        if i64::MIN <= v <= i64::MAX { Some(v as i64) } else { None }
    } else {
        None
    }
}

/// Reads a number text as an `i64`.
fn number_as_i64(s: &str) -> (r: Option<i64>)
    ensures
        r == number_i64(s@),
{
    let cs = chars_of(s);
    let neg = cs.len() > 0 && cs[0] == '-';
    let start: usize = if neg { 1 } else { 0 };
    let limit: u128 = if neg { 0x8000_0000_0000_0000 } else { 0x7fff_ffff_ffff_ffff };
    let ghost d = if neg { s@.drop_first() } else { s@ };
    proof {
        assert(d =~= s@.skip(start as int));
        assert(neg == (s@.len() > 0 && s@[0] == '-'));
    }
    if start >= cs.len() {
        return None;
    }
    let mut value: u128 = 0;
    let mut i: usize = start;
    while i < cs.len()
        invariant
            cs@ == s@,
            d == s@.skip(start as int),
            neg == (s@.len() > 0 && s@[0] == '-'),
            d == (if neg { s@.drop_first() } else { s@ }),
            limit == (if neg { 0x8000_0000_0000_0000u128 } else { 0x7fff_ffff_ffff_ffffu128 }),
            start <= i <= cs.len(),
            start < cs.len(),
            all_digits(s@.subrange(start as int, i as int)),
            value as int == digits_value(s@.subrange(start as int, i as int)),
            value <= limit,
        decreases cs.len() - i,
    {
        let c = cs[i];
        proof {
            assert(s@.subrange(start as int, i + 1).drop_last() =~= s@.subrange(start as int, i as int));
        }
        if c < '0' || c > '9' {
            proof {
                assert(d[i - start] == s@[i as int]);
                assert(!all_digits(d));
            }
            return None;
        }
        let v: u128 = value * 10 + (c as u128 - 48);
        if v > limit {
            proof {
                assert(d.subrange(0, (i + 1 - start) as int) =~= s@.subrange(start as int, i + 1));
                assert(d[i - start] == s@[i as int]);
                if all_digits(d) {
                    lemma_digits_value_grows(d, (i + 1 - start) as int);
                    assert(digits_value(s@.subrange(start as int, i + 1)) == v);
                    assert(digits_value(d) >= v);
                }
            }
            return None;
        }
        value = v;
        i = i + 1;
    }
    proof {
        assert(s@.subrange(start as int, cs.len() as int) =~= d);
    }
    let x: i128 = if neg { -(value as i128) } else { value as i128 };
    Some(x as i64)
}

/// An integer field of a row (`as_i64` of the field); `None` when missing,
/// not a number, or not an integer within the range of `i64`.
pub fn int_field(row: &Json, field: &str) -> (r: Option<i64>)
    ensures
        r == (match field_of(*row, field@) {
            Some(Json::Number(n)) => number_i64(n@),
            _ => None,
        }),
{
    match get_field(row, field) {
        Some(Json::Number(n)) => number_as_i64(n.as_str()),
        _ => None,
    }
}

/// The strings of an array field of a row, skipping other items; empty when
/// the field is missing or not an array.
pub fn str_arr(row: &Json, field: &str) -> (r: Vec<String>)
    ensures
        match field_of(*row, field@) {
            Some(Json::Array(items)) => r@.map_values(|s: String| s@) == strings_of(items@),
            _ => r@.len() == 0,
        },
{
    match get_field(row, field) {
        Some(Json::Array(items)) => {
            let mut out: Vec<String> = Vec::new();
            let mut i: usize = 0;
            while i < items.len()
                invariant
                    i <= items.len(),
                    out@.map_values(|s: String| s@) == strings_of(items@.take(i as int)),
                decreases items.len() - i,
            {
                proof {
                    assert(items@.take(i + 1).drop_last() =~= items@.take(i as int));
                }
                match &items[i] {
                    Json::Str(s) => {
                        let ghost before = out@;
                        out.push(s.clone());
                        proof {
                            assert(out@.map_values(|s: String| s@) =~= before.map_values(|s: String| s@).push(s@));
                        }
                    },
                    _ => {},
                }
                i = i + 1;
            }
            proof {
                assert(items@.take(items.len() as int) =~= items@);
            }
            out
        },
        _ => Vec::new(),
    }
}

/// The strings among JSON values, in order.
pub open spec fn strings_of(items: Seq<Json>) -> Seq<Seq<char>>
    decreases items.len(),
{
    if items.len() == 0 {
        Seq::empty()
    } else {
        let prev = strings_of(items.drop_last());
        match items.last() {
            Json::Str(s) => prev.push(s@),
            _ => prev,
        }
    }
}

} // verus!

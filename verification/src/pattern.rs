//! The order of specificity among the pattern keys of `exports` and
//! `imports` (`"./dist/*.js"`, `"./lib/"`): PATTERN_KEY_COMPARE.
use vstd::prelude::*;
use vstd::utf8::encode_utf8;

use crate::text::chars_of;

verus! {

/// The length of `s` in UTF-8 bytes, which is what `str::len` counts.
pub open spec fn utf8_len(s: Seq<char>) -> nat {
    encode_utf8(s).len()
}

/// The index of the first `c` in `s` at or after `from`.
pub open spec fn index_of_from(s: Seq<char>, c: char, from: int) -> Option<int>
    decreases s.len() - from,
{
    if from < 0 || from >= s.len() {
        None
    } else if s[from] == c {
        Some(from)
    } else {
        index_of_from(s, c, from + 1)
    }
}

/// The index of the first `c` in `s`.
pub open spec fn index_of(s: Seq<char>, c: char) -> Option<int> {
    index_of_from(s, c, 0)
}

/// How many times `c` occurs in `s`.
pub open spec fn count_of(s: Seq<char>, c: char) -> nat
    decreases s.len(),
{
    if s.len() == 0 {
        0
    } else {
        count_of(s.drop_last(), c) + if s.last() == c { 1nat } else { 0nat }
    }
}

/// A key that PATTERN_KEY_COMPARE orders: a folder (ending in `/`) or a
/// pattern with exactly one `*`.
pub open spec fn is_pattern_key(s: Seq<char>) -> bool {
    (s.len() > 0 && s.last() == '/') || count_of(s, '*') == 1
}

/// The length that ranks a key: up to and including its `*`, counted in
/// characters, or its whole length in bytes when it has none.
pub open spec fn base_length(s: Seq<char>) -> int {
    match index_of(s, '*') {
        Some(p) => p + 1,
        None => utf8_len(s) as int,
    }
}

/// PATTERN_KEY_COMPARE as a number: `-1` when `a` is more specific than
/// `b` (it sorts first), `1` when less, `0` when they rank alike. The empty
/// key, which stands for "no key yet", ranks below every key.
pub open spec fn pattern_key_order(a: Seq<char>, b: Seq<char>) -> int {
    if a.len() == 0 {
        1
    } else if base_length(a) > base_length(b) {
        -1
    } else if base_length(b) > base_length(a) {
        1
    } else if !a.contains('*') {
        1
    } else if !b.contains('*') {
        -1
    } else if utf8_len(a) > utf8_len(b) {
        -1
    } else if utf8_len(b) > utf8_len(a) {
        1
    } else {
        0
    }
}

pub(crate) proof fn lemma_index_of_from(s: Seq<char>, c: char, from: int)
    requires
        0 <= from <= s.len(),
    ensures
        match index_of_from(s, c, from) {
            Some(p) => from <= p < s.len() && s[p] == c && forall|j: int| from <= j < p ==> s[j] != c,
            None => forall|j: int| from <= j < s.len() ==> s[j] != c,
        },
    decreases s.len() - from,
{
    if from < s.len() && s[from] != c {
        lemma_index_of_from(s, c, from + 1);
    }
}

/// The index of the first `*` in `v`.
pub(crate) fn star_index(v: &Vec<char>) -> (r: Option<usize>)
    ensures
        match r {
            Some(p) => index_of(v@, '*') == Some(p as int),
            None => index_of(v@, '*').is_none(),
        },
{
    proof {
        lemma_index_of_from(v@, '*', 0);
    }
    let mut i: usize = 0;
    while i < v.len()
        invariant
            i <= v@.len(),
            forall|j: int| 0 <= j < i ==> v@[j] != '*',
        decreases v@.len() - i,
    {
        if v[i] == '*' {
            proof {
                lemma_index_of_from(v@, '*', 0);
                let k = index_of(v@, '*');
                assert(k is Some);
                assert(k.unwrap() == i) by {
                    if k.unwrap() < i {
                        assert(v@[k.unwrap()] != '*');
                    }
                    if k.unwrap() > i {
                        assert(v@[i as int] == '*');
                    }
                }
            }
            return Some(i);
        }
        i = i + 1;
    }
    proof {
        lemma_index_of_from(v@, '*', 0);
        if index_of(v@, '*') is Some {
            let k = index_of(v@, '*').unwrap();
            assert(v@[k] == '*');
        }
    }
    None
}

pub(crate) proof fn lemma_index_of_contains(s: Seq<char>, c: char)
    ensures
        index_of(s, c) is Some <==> s.contains(c),
{
    lemma_index_of_from(s, c, 0);
    if s.contains(c) {
        let j = choose|j: int| 0 <= j < s.len() && s[j] == c;
        assert(s[j] == c);
    }
}

/// PATTERN_KEY_COMPARE(keyA, keyB): `Less` when `key_a` is the more specific
/// key, `Greater` when `key_b` is, `Equal` when they rank alike; an empty
/// `key_a` is `Greater` than everything.
pub fn pattern_key_compare(key_a: &str, key_b: &str) -> (r: core::cmp::Ordering)
    requires
        key_a@.len() == 0 || (is_pattern_key(key_a@) && is_pattern_key(key_b@)),
    ensures
        match r {
            core::cmp::Ordering::Less => pattern_key_order(key_a@, key_b@) == -1,
            core::cmp::Ordering::Equal => pattern_key_order(key_a@, key_b@) == 0,
            core::cmp::Ordering::Greater => pattern_key_order(key_a@, key_b@) == 1,
        },
{
    let a = chars_of(key_a);
    let b = chars_of(key_b);
    if a.len() == 0 {
        return core::cmp::Ordering::Greater;
    }
    let a_len = a.len();
    let b_len = b.len();
    let a_bytes = key_a.as_bytes().len();
    let b_bytes = key_b.as_bytes().len();
    let a_pos = star_index(&a);
    let b_pos = star_index(&b);
    proof {
        lemma_index_of_from(a@, '*', 0);
        lemma_index_of_from(b@, '*', 0);
        lemma_index_of_contains(a@, '*');
        lemma_index_of_contains(b@, '*');
    }
    let base_length_a: usize = match a_pos {
        Some(p) => {
            assert(p < a_len);
            p + 1
        },
        None => a_bytes,
    };
    let base_length_b: usize = match b_pos {
        Some(p) => {
            assert(p < b_len);
            p + 1
        },
        None => b_bytes,
    };
    if base_length_a > base_length_b {
        return core::cmp::Ordering::Less;
    }
    if base_length_b > base_length_a {
        return core::cmp::Ordering::Greater;
    }
    if a_pos.is_none() {
        return core::cmp::Ordering::Greater;
    }
    if b_pos.is_none() {
        return core::cmp::Ordering::Less;
    }
    if a_bytes > b_bytes {
        return core::cmp::Ordering::Less;
    }
    if b_bytes > a_bytes {
        return core::cmp::Ordering::Greater;
    }
    core::cmp::Ordering::Equal
}

/// Whether `key`, a candidate pattern key, is more specific than `best`, the
/// best key so far (empty when there is none).
pub fn key_outranks(best: &str, key: &str) -> (r: bool)
    requires
        best@.len() == 0 || (is_pattern_key(best@) && is_pattern_key(key@)),
    ensures
        r == (pattern_key_order(best@, key@) == 1),
{
    match pattern_key_compare(best, key) {
        core::cmp::Ordering::Greater => true,
        _ => false,
    }
}

/// The UTF-8 encoding of a concatenation is the concatenation of the
/// encodings.
pub proof fn lemma_utf8_concat(a: Seq<char>, b: Seq<char>)
    ensures
        encode_utf8(a + b) == encode_utf8(a) + encode_utf8(b),
    decreases a.len(),
{
    if a.len() == 0 {
        assert(a + b =~= b);
        assert(encode_utf8(a) =~= Seq::<u8>::empty());
        assert(encode_utf8(a) + encode_utf8(b) =~= encode_utf8(b));
    } else {
        assert((a + b).drop_first() =~= a.drop_first() + b);
        assert((a + b)[0] == a[0]);
        lemma_utf8_concat(a.drop_first(), b);
        assert(encode_utf8(a + b) =~= encode_utf8(a) + encode_utf8(b));
    }
}

/// Every character takes at least one byte.
pub proof fn lemma_utf8_len_at_least(s: Seq<char>)
    ensures
        utf8_len(s) >= s.len(),
    decreases s.len(),
{
    if s.len() > 0 {
        lemma_utf8_len_at_least(s.drop_first());
    }
}

/// An ASCII character takes one byte.
pub proof fn lemma_utf8_len_ascii(c: char)
    requires
        (c as u32) < 0x80,
    ensures
        utf8_len(seq![c]) == 1,
{
    let s = seq![c];
    assert(s.drop_first() =~= Seq::<char>::empty());
    assert(s[0] == c);
    assert(encode_utf8(s.drop_first()) =~= Seq::<u8>::empty());
    assert(vstd::utf8::has_width_1_encoding(c as u32));
    assert(vstd::utf8::encode_scalar(c as u32).len() == 1);
    assert(encode_utf8(s) == vstd::utf8::encode_scalar(s[0] as u32) + encode_utf8(s.drop_first()));
}

/// The count of a concatenation is the sum of the counts.
pub proof fn lemma_count_concat(a: Seq<char>, b: Seq<char>, c: char)
    ensures
        count_of(a + b, c) == count_of(a, c) + count_of(b, c),
    decreases b.len(),
{
    if b.len() == 0 {
        assert(a + b =~= a);
    } else {
        assert((a + b).drop_last() =~= a + b.drop_last());
        lemma_count_concat(a, b.drop_last(), c);
    }
}

/// A character occurs no times exactly when the sequence does not hold it.
pub proof fn lemma_count_zero(s: Seq<char>, c: char)
    ensures
        (count_of(s, c) == 0) == !s.contains(c),
    decreases s.len(),
{
    if s.len() > 0 {
        lemma_count_zero(s.drop_last(), c);
        if s.drop_last().contains(c) {
            let j = choose|j: int| 0 <= j < s.drop_last().len() && s.drop_last()[j] == c;
            assert(s[j] == c);
        }
        if s.contains(c) && s.last() != c {
            let j = choose|j: int| 0 <= j < s.len() && s[j] == c;
            assert(s.drop_last()[j] == c);
        }
    }
}

/// PATTERN_KEY_COMPARE orders two pattern keys oppositely when their
/// arguments are swapped: one is more specific than the other exactly when
/// the other is less specific, and keys that rank alike rank alike either
/// way round.
pub proof fn lemma_pattern_key_order_antisymmetric(a: Seq<char>, b: Seq<char>)
    requires
        a.len() > 0,
        b.len() > 0,
        a.contains('*'),
        b.contains('*'),
    ensures
        pattern_key_order(a, b) == -pattern_key_order(b, a),
{
}

/// A pattern key ranks alike with itself.
pub proof fn lemma_pattern_key_order_reflexive(a: Seq<char>)
    requires
        a.len() > 0,
        a.contains('*'),
    ensures
        pattern_key_order(a, a) == 0,
{
}

/// Ranking pattern keys is transitive: a key more specific than a second,
/// itself more specific than a third, is more specific than the third; so
/// sorting by it is well defined.
pub proof fn lemma_pattern_key_order_transitive(a: Seq<char>, b: Seq<char>, c: Seq<char>)
    requires
        a.len() > 0,
        b.len() > 0,
        c.len() > 0,
        a.contains('*'),
        b.contains('*'),
        c.contains('*'),
        pattern_key_order(a, b) == -1,
        pattern_key_order(b, c) == -1,
    ensures
        pattern_key_order(a, c) == -1,
{
}

} // verus!

//! Cutting and comparing borrowed text without copying it.
//!
//! The executable functions scan the UTF-8 bytes of a `&str`; their contracts
//! speak of its characters. The lemmas in this module carry the facts that
//! connect the two: a byte below 128 stands for exactly one character, the
//! character of the same value, and it never occurs inside the encoding of
//! another character.

use vstd::prelude::*;
use vstd::string::*;
use vstd::utf8::*;

verus! {

/// Number of characters of `s` that come before the first occurrence of `a`
/// or `b`; the length of `s` when neither occurs.
pub open spec fn span(s: Seq<char>, a: char, b: char) -> int
    decreases s.len(),
{
    if s.len() == 0 || s[0] == a || s[0] == b {
        0
    } else {
        1 + span(s.drop_first(), a, b)
    }
}

/// `s` cut at the first occurrence of `a` or `b`: the text before it and the
/// text after it, the delimiter itself left out. `None` when neither occurs.
pub open spec fn spec_cut(s: Seq<char>, a: char, b: char) -> Option<(Seq<char>, Seq<char>)> {
    let n = span(s, a, b);
    if n < s.len() {
        Some((s.take(n), s.skip(n + 1)))
    } else {
        None
    }
}

/// `span` stays within the text.
pub proof fn lemma_span_bounds(s: Seq<char>, a: char, b: char)
    ensures
        0 <= span(s, a, b) <= s.len(),
    decreases s.len(),
{
    if !(s.len() == 0 || s[0] == a || s[0] == b) {
        lemma_span_bounds(s.drop_first(), a, b);
    }
}

/// `span` is the one position that has no delimiter before it and is either
/// a delimiter or the end of the text.
pub proof fn lemma_span_is(s: Seq<char>, a: char, b: char, n: int)
    requires
        0 <= n <= s.len(),
        forall|j: int| 0 <= j < n ==> s[j] != a && s[j] != b,
        n < s.len() ==> s[n] == a || s[n] == b,
    ensures
        span(s, a, b) == n,
    decreases n,
{
    if n > 0 {
        let rest = s.drop_first();
        assert forall|j: int| 0 <= j < n - 1 implies rest[j] != a && rest[j] != b by {
            assert(rest[j] == s[j + 1]);
        }
        lemma_span_is(rest, a, b, n - 1);
    }
}

/// What `span` finds: nothing before it is a delimiter, and the character at
/// it, if there is one, is.
pub proof fn lemma_span_finds(s: Seq<char>, a: char, b: char)
    ensures
        forall|j: int| 0 <= j < span(s, a, b) ==> s[j] != a && s[j] != b,
        span(s, a, b) < s.len() ==> s[span(s, a, b)] == a || s[span(s, a, b)] == b,
    decreases s.len(),
{
    if !(s.len() == 0 || s[0] == a || s[0] == b) {
        let rest = s.drop_first();
        lemma_span_finds(rest, a, b);
        lemma_span_bounds(rest, a, b);
        assert forall|j: int| 0 <= j < span(s, a, b) implies s[j] != a && s[j] != b by {
            if j > 0 {
                assert(s[j] == rest[j - 1]);
            }
        }
        if span(s, a, b) < s.len() {
            assert(s[span(s, a, b)] == rest[span(rest, a, b)]);
        }
    }
}

/// A text without delimiter, then a delimiter, then any text: the cut falls
/// at that delimiter and gives back the two texts.
pub proof fn lemma_cut_joined(head: Seq<char>, d: char, tail: Seq<char>, a: char, b: char)
    requires
        forall|i: int| 0 <= i < head.len() ==> head[i] != a && head[i] != b,
        d == a || d == b,
    ensures
        spec_cut(head + seq![d] + tail, a, b) == Some((head, tail)),
{
    let s = head + seq![d] + tail;
    let n = head.len() as int;
    assert(s[n] == d);
    assert forall|i: int| 0 <= i < n implies s[i] != a && s[i] != b by {
        assert(s[i] == head[i]);
    }
    lemma_span_is(s, a, b, n);
    assert(s.take(n) =~= head);
    assert(s.skip(n + 1) =~= tail);
}

/// A text without delimiter is not cut.
pub proof fn lemma_cut_none(s: Seq<char>, a: char, b: char)
    requires
        forall|i: int| 0 <= i < s.len() ==> s[i] != a && s[i] != b,
    ensures
        spec_cut(s, a, b) is None,
{
    lemma_span_is(s, a, b, s.len() as int);
}

/// The text before a cut holds no delimiter.
pub proof fn lemma_cut_head(s: Seq<char>, a: char, b: char)
    ensures
        match spec_cut(s, a, b) {
            Some((head, _)) => forall|i: int| 0 <= i < head.len() ==> head[i] != a && head[i] != b,
            None => forall|i: int| 0 <= i < s.len() ==> s[i] != a && s[i] != b,
        },
{
    lemma_span_finds(s, a, b);
    lemma_span_bounds(s, a, b);
}

proof fn lemma_low_byte_encoding(x: u32)
    by (bit_vector)
    requires
        x < 128,
    ensures
        (x & 0x7F) == x,
{
}

proof fn lemma_low_byte_decoding(x: u8)
    by (bit_vector)
    requires
        x < 128,
    ensures
        (x & 0x7F) == x,
{
}

/// A byte below 128 that occurs nowhere in well-formed UTF-8 stands for a
/// character that occurs nowhere in the decoded text.
pub proof fn lemma_absent_byte_absent_char(bytes: Seq<u8>, a: u8)
    requires
        valid_utf8(bytes),
        a < 128,
        forall|i: int| 0 <= i < bytes.len() ==> bytes[i] != a,
    ensures
        forall|j: int| 0 <= j < decode_utf8(bytes).len() ==> decode_utf8(bytes)[j] != a as char,
    decreases bytes.len(),
{
    if bytes.len() > 0 {
        let first = decode_first_scalar(bytes) as char;
        let rest = pop_first_scalar(bytes);
        assert(first != a as char) by {
            if first == a as char {
                decode_utf8_first_scalar(bytes);
                lemma_low_byte_encoding(a as u32);
                assert(encode_scalar(first as u32) =~= seq![a]);
                assert(take_first_scalar(bytes)[0] == bytes[0]);
            }
        }
        assert forall|i: int| 0 <= i < rest.len() implies rest[i] != a by {
            assert(rest[i] == bytes[i + length_of_first_scalar(bytes)]);
        }
        lemma_absent_byte_absent_char(rest, a);
        assert(decode_utf8(bytes) =~= seq![first] + decode_utf8(rest));
    }
}

/// Well-formed UTF-8 that starts with a byte below 128 decodes to the
/// character of that value followed by what the remaining bytes decode to.
pub proof fn lemma_low_byte_first(bytes: Seq<u8>)
    requires
        valid_utf8(bytes),
        bytes.len() > 0,
        bytes[0] < 128,
    ensures
        is_char_boundary(bytes, 1),
        valid_utf8(bytes.subrange(1, bytes.len() as int)),
        decode_utf8(bytes) =~= seq![bytes[0] as char] + decode_utf8(
            bytes.subrange(1, bytes.len() as int),
        ),
{
    lemma_low_byte_decoding(bytes[0]);
    assert(is_leading_byte_width_1(bytes[0]));
    assert(length_of_first_scalar(bytes) == 1);
    assert(pop_first_scalar(bytes) =~= bytes.subrange(1, bytes.len() as int));
    assert(is_char_boundary(pop_first_scalar(bytes), 0));
    reveal_with_fuel(is_char_boundary, 2);
}

/// The characters of a `&str` are what its bytes decode to, and those bytes
/// are well-formed.
pub proof fn lemma_str_bytes(s: &str)
    ensures
        valid_utf8(s.spec_bytes()),
        decode_utf8(s.spec_bytes()) == s@,
{
    encode_utf8_valid_utf8(s@);
    encode_utf8_decode_utf8(s@);
}

/// Cuts `s` at the first occurrence of `a` or `b`, two characters below 128:
/// returns the text before it and the text after it, both borrowed from `s`.
pub(crate) fn cut<'a>(s: &'a str, a: char, b: char) -> (r: Option<(&'a str, &'a str)>)
    requires
        (a as u32) < 128,
        (b as u32) < 128,
    ensures
        match r {
            Some((head, tail)) => spec_cut(s@, a, b) == Some((head@, tail@)),
            None => spec_cut(s@, a, b) is None,
        },
{
    let a_byte = a as u8;
    let b_byte = b as u8;
    let bytes = s.as_bytes();
    let mut i: usize = 0;
    while i < bytes.len()
        invariant
            i <= bytes.len(),
            a_byte < 128,
            b_byte < 128,
            a_byte as char == a,
            b_byte as char == b,
            bytes@ == s.spec_bytes(),
            forall|j: int| 0 <= j < i ==> bytes@[j] != a_byte && bytes@[j] != b_byte,
        decreases bytes.len() - i,
    {
        if bytes[i] == a_byte || bytes[i] == b_byte {
            let ghost all = s.spec_bytes();
            let ghost n = i as int;
            proof {
                lemma_str_bytes(s);
                is_char_boundary_iff_is_leading_byte(all, n);
                valid_utf8_split(all, n);
                decode_utf8_split(all, n);
                lemma_low_byte_first(all.subrange(n, all.len() as int));
            }
            let (head, rest) = s.split_at(i);
            let (_, tail) = rest.split_at(1);
            proof {
                let before = all.subrange(0, n);
                let from = all.subrange(n, all.len() as int);
                let after = from.subrange(1, from.len() as int);
                lemma_str_bytes(head);
                lemma_str_bytes(rest);
                lemma_str_bytes(tail);
                assert(head@ == decode_utf8(before));
                assert(tail@ == decode_utf8(after));
                lemma_absent_byte_absent_char(before, a_byte);
                lemma_absent_byte_absent_char(before, b_byte);
                let c = all[n] as char;
                assert(s@ =~= head@ + (seq![c] + tail@));
                let k = head@.len() as int;
                assert(s@[k] == c);
                assert forall|j: int| 0 <= j < k implies s@[j] != a && s@[j] != b by {
                    assert(s@[j] == head@[j]);
                }
                lemma_span_is(s@, a, b, k);
                assert(s@.take(k) =~= head@);
                assert(s@.skip(k + 1) =~= tail@);
            }
            return Some((head, tail));
        }
        i += 1;
    }
    proof {
        lemma_str_bytes(s);
        lemma_absent_byte_absent_char(s.spec_bytes(), a_byte);
        lemma_absent_byte_absent_char(s.spec_bytes(), b_byte);
        lemma_span_is(s@, a, b, s@.len() as int);
    }
    None
}

/// Whether two texts hold the same characters.
pub fn same_text(x: &str, y: &str) -> (r: bool)
    ensures
        r == (x@ == y@),
{
    let xb = x.as_bytes();
    let yb = y.as_bytes();
    if xb.len() != yb.len() {
        return false;
    }
    let mut i: usize = 0;
    while i < xb.len()
        invariant
            i <= xb.len(),
            xb.len() == yb.len(),
            xb@ == x.spec_bytes(),
            yb@ == y.spec_bytes(),
            forall|j: int| 0 <= j < i ==> xb@[j] == yb@[j],
        decreases xb.len() - i,
    {
        if xb[i] != yb[i] {
            return false;
        }
        i += 1;
    }
    proof {
        assert(xb@ =~= yb@);
        lemma_str_bytes(x);
        lemma_str_bytes(y);
    }
    true
}

/// The character that stands for a digit below ten.
pub open spec fn digit(d: nat) -> char {
    ((48 + d) as u8) as char
}

/// A number written in decimal, without sign or leading zeros.
pub open spec fn decimal(n: nat) -> Seq<char>
    decreases n,
{
    if n < 10 {
        seq![digit(n)]
    } else {
        decimal(n / 10).push(digit(n % 10))
    }
}

fn digit_text(d: u16) -> (r: &'static str)
    requires
        d < 10,
    ensures
        r@ == seq![digit(d as nat)],
{
    proof {
        reveal_strlit("0");
        reveal_strlit("1");
        reveal_strlit("2");
        reveal_strlit("3");
        reveal_strlit("4");
        reveal_strlit("5");
        reveal_strlit("6");
        reveal_strlit("7");
        reveal_strlit("8");
        reveal_strlit("9");
    }
    let r = if d == 0 {
        "0"
    } else if d == 1 {
        "1"
    } else if d == 2 {
        "2"
    } else if d == 3 {
        "3"
    } else if d == 4 {
        "4"
    } else if d == 5 {
        "5"
    } else if d == 6 {
        "6"
    } else if d == 7 {
        "7"
    } else if d == 8 {
        "8"
    } else {
        "9"
    };
    assert(r@ =~= seq![digit(d as nat)]);
    r
}

/// Writes `n` in decimal.
pub fn to_decimal(n: u16) -> (r: String)
    ensures
        r@ == decimal(n as nat),
    decreases n,
{
    if n < 10 {
        String::from_str(digit_text(n))
    } else {
        let mut text = to_decimal(n / 10);
        text.append(digit_text(n % 10));
        assert(text@ =~= decimal(n as nat));
        text
    }
}

} // verus!

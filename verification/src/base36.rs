//! Identifiers as text: base 36 with the digits `0-9` then `a-z`.

use vstd::prelude::*;
use vstd::string::*;
use crate::text::push_char;

verus! {

/// The value of one base-36 digit, in either case; `None` for any other character.
pub open spec fn digit_value(c: char) -> Option<nat> {
    if '0' <= c <= '9' {
        Some((c as u32 - '0' as u32) as nat)
    } else if 'a' <= c <= 'z' {
        Some((c as u32 - 'a' as u32 + 10) as nat)
    } else if 'A' <= c <= 'Z' {
        Some((c as u32 - 'A' as u32 + 10) as nat)
    } else {
        None
    }
}

/// The canonical (lower-case) character of a digit below 36.
pub open spec fn digit_char(d: nat) -> char
    recommends
        d < 36,
{
    if d < 10 {
        (0x30 + d) as u8 as char
    } else {
        (0x61 + d - 10) as u8 as char
    }
}

/// Every character of `s` is a base-36 digit.
pub open spec fn is_numeral(s: Seq<char>) -> bool {
    forall|i: int| 0 <= i < s.len() ==> (#[trigger] digit_value(s[i])) is Some
}

/// The number that the digits of `s` denote, most significant digit first.
/// The empty text denotes zero.
pub open spec fn numeral_value(s: Seq<char>) -> nat
    decreases s.len(),
{
    if s.len() == 0 {
        0
    } else {
        numeral_value(s.drop_last()) * 36 + digit_value(s.last()).unwrap_or(0)
    }
}

/// What decoding yields: the value of a numeral that fits in 64 bits, and
/// nothing for a text with a foreign character or a value beyond that width.
pub open spec fn decode_spec(s: Seq<char>) -> Option<u64> {
    if is_numeral(s) && numeral_value(s) <= u64::MAX {
        Some(numeral_value(s) as u64)
    } else {
        None
    }
}

/// The canonical text of `n`: no leading zero, and `0` itself as the single digit `0`.
pub open spec fn encode_spec(n: nat) -> Seq<char>
    decreases n,
{
    if n < 36 {
        seq![digit_char(n)]
    } else {
        encode_spec(n / 36).push(digit_char(n % 36))
    }
}

/// A digit's canonical character denotes that digit.
pub proof fn lemma_digit_round_trip(d: nat)
    requires
        d < 36,
    ensures
        digit_value(digit_char(d)) == Some(d),
{
}

/// The value of a numeral grows with every digit appended to it.
pub proof fn lemma_prefix_value(s: Seq<char>, i: int)
    requires
        0 <= i <= s.len(),
    ensures
        numeral_value(s.take(i)) <= numeral_value(s),
    decreases s.len() - i,
{
    if i == s.len() {
        assert(s.take(i) == s);
    } else {
        lemma_prefix_value(s, i + 1);
        assert(s.take(i + 1).drop_last() == s.take(i));
    }
}

/// The canonical text of a number is a numeral with that number as its value.
pub proof fn lemma_encode_is_numeral(n: nat)
    ensures
        is_numeral(encode_spec(n)),
        numeral_value(encode_spec(n)) == n,
        encode_spec(n).len() >= 1,
    decreases n,
{
    if n < 36 {
        let s = encode_spec(n);
        lemma_digit_round_trip(n);
        assert(s.drop_last() == Seq::<char>::empty());
        assert(numeral_value(s.drop_last()) == 0);
    } else {
        lemma_encode_is_numeral(n / 36);
        lemma_digit_round_trip(n % 36);
        let p = encode_spec(n / 36);
        let s = p.push(digit_char(n % 36));
        assert(s.drop_last() == p);
        assert forall|i: int| 0 <= i < s.len() implies (#[trigger] digit_value(s[i])) is Some by {
            if i < p.len() {
                assert(s[i] == p[i]);
            }
        }
    }
}

/// The canonical text uses the digits `0-9` and the lower-case letters only,
/// and starts with the digit `0` only where the number is zero.
pub proof fn law_encode_is_canonical(n: nat)
    ensures
        forall|i: int|
            0 <= i < encode_spec(n).len() ==> {
                let c = #[trigger] encode_spec(n)[i];
                '0' <= c <= '9' || 'a' <= c <= 'z'
            },
        encode_spec(n).len() >= 1,
        n > 0 ==> encode_spec(n)[0] != '0',
    decreases n,
{
    if n >= 36 {
        law_encode_is_canonical(n / 36);
        let p = encode_spec(n / 36);
        let s = p.push(digit_char(n % 36));
        assert forall|i: int| 0 <= i < s.len() implies {
            let c = #[trigger] s[i];
            '0' <= c <= '9' || 'a' <= c <= 'z'
        } by {
            if i < p.len() {
                assert(s[i] == p[i]);
            }
        }
        assert(s[0] == p[0]);
    }
}

/// Decoding undoes encoding: the canonical text of any 64-bit number decodes
/// to that number. In particular zero, written `0`, decodes to zero.
pub proof fn law_decode_encode(n: u64)
    ensures
        decode_spec(encode_spec(n as nat)) == Some(n),
        encode_spec(0) == seq!['0'],
{
    lemma_encode_is_numeral(n as nat);
    assert(digit_char(0) == '0');
}

/// At every place the two texts hold the same digit, in whichever case, or
/// both hold a character that is no digit.
pub open spec fn same_ignoring_case(a: Seq<char>, b: Seq<char>) -> bool {
    &&& a.len() == b.len()
    &&& forall|i: int| 0 <= i < a.len() ==> digit_value(#[trigger] a[i]) == digit_value(b[i])
}

/// Decoding does not tell the two cases of a letter apart: texts that differ
/// only in the case of their letters decode alike.
pub proof fn law_decode_ignores_case(a: Seq<char>, b: Seq<char>)
    requires
        same_ignoring_case(a, b),
    ensures
        decode_spec(a) == decode_spec(b),
{
    lemma_same_value(a, b);
    if is_numeral(a) {
        assert forall|i: int| 0 <= i < b.len() implies (#[trigger] digit_value(b[i])) is Some by {
            assert(digit_value(a[i]) is Some);
        }
    }
    if is_numeral(b) {
        assert forall|i: int| 0 <= i < a.len() implies (#[trigger] digit_value(a[i])) is Some by {
            assert(digit_value(b[i]) is Some);
        }
    }
}

proof fn lemma_same_value(a: Seq<char>, b: Seq<char>)
    requires
        same_ignoring_case(a, b),
    ensures
        numeral_value(a) == numeral_value(b),
    decreases a.len(),
{
    if a.len() > 0 {
        assert(digit_value(a[a.len() - 1]) == digit_value(b[a.len() - 1]));
        lemma_same_value(a.drop_last(), b.drop_last());
    }
}

/// A text with a character that is no digit or letter decodes to nothing.
pub proof fn law_decode_rejects_foreign(s: Seq<char>, i: int)
    requires
        0 <= i < s.len(),
        digit_value(s[i]) is None,
    ensures
        decode_spec(s) is None,
{
}

/// A numeral whose value does not fit in 64 bits decodes to nothing.
pub proof fn law_decode_rejects_wide(s: Seq<char>)
    requires
        numeral_value(s) > u64::MAX,
    ensures
        decode_spec(s) is None,
{
}

/// Reads a base-36 numeral. Letters count in either case; the empty text is
/// zero; a foreign character or a value beyond 64 bits gives `None`.
pub fn decode_base36(s: &str) -> (r: Option<u64>)
    ensures
        r == decode_spec(s@),
{
    broadcast use is_ascii_spec_bytes;

    if !s.is_ascii() {
        proof {
            let i = choose|i: int| 0 <= i < s@.len() && !('\0' <= #[trigger] s@[i] <= '\u{7f}');
            assert(digit_value(s@[i]) is None);
        }
        return None;
    }
    let bytes = s.as_bytes();
    let mut result: u64 = 0;
    let mut i: usize = 0;
    assert(s@.take(0) == Seq::<char>::empty());
    while i < bytes.len()
        invariant
            i <= bytes.len(),
            bytes@.len() == s@.len(),
            forall|k: int|
                #![trigger s@[k]]
                0 <= k < s@.len() ==> bytes@[k] == s@[k] as u8 && '\0' <= s@[k] <= '\u{7f}',
            is_numeral(s@.take(i as int)),
            result == numeral_value(s@.take(i as int)),
        decreases bytes.len() - i,
    {
        let b = bytes[i];
        let ghost c = s@[i as int];
        assert(b == c as u8 && '\0' <= c <= '\u{7f}');
        let ghost next = s@.take(i + 1);
        assert(next.drop_last() == s@.take(i as int));
        assert(next.last() == c);
        let digit: u64 = if 0x30 <= b && b <= 0x39 {
            (b - 0x30) as u64
        } else if 0x61 <= b && b <= 0x7a {
            (b - 0x61 + 10) as u64
        } else if 0x41 <= b && b <= 0x5a {
            (b - 0x41 + 10) as u64
        } else {
            assert(digit_value(c) is None);
            return None;
        };
        assert(digit_value(c) == Some(digit as nat));
        proof {
            lemma_prefix_value(s@, i + 1);
        }
        let scaled = match result.checked_mul(36) {
            Some(v) => v,
            None => {
                return None;
            },
        };
        result = match scaled.checked_add(digit) {
            Some(v) => v,
            None => {
                return None;
            },
        };
        assert forall|k: int| 0 <= k < next.len() implies (#[trigger] digit_value(next[k])) is Some by {
            if k < i {
                assert(next[k] == s@.take(i as int)[k]);
            }
        }
        i += 1;
    }
    assert(s@.take(i as int) == s@);
    Some(result)
}

/// Writes `n` in base 36, most significant digit first, in lower case.
pub fn encode_base36(n: u64) -> (s: String)
    ensures
        s@ == encode_spec(n as nat),
{
    let mut digits: Vec<u8> = Vec::new();
    let mut rest: u64 = n;
    // Least significant digit first; the loop always takes the last digit of `n`.
    loop
        invariant_except_break
            forall|k: int| 0 <= k < digits@.len() ==> digits@[k] < 36,
            encode_spec(n as nat) == encode_spec(rest as nat) + tail_text(digits@),
        ensures
            digits@.len() >= 1,
            forall|k: int| 0 <= k < digits@.len() ==> digits@[k] < 36,
            encode_spec(n as nat) == tail_text(digits@),
        decreases rest,
    {
        let d: u8 = (rest % 36) as u8;
        if rest < 36 {
            proof {
                assert(encode_spec(rest as nat) == seq![digit_char(d as nat)]);
                assert(tail_text(digits@.push(d)) == seq![digit_char(d as nat)] + tail_text(digits@)) by {
                    assert(digits@.push(d).drop_last() == digits@);
                }
            }
            digits.push(d);
            break;
        }
        proof {
            assert(encode_spec(rest as nat) == encode_spec((rest / 36) as nat).push(digit_char(d as nat)));
            assert(digits@.push(d).drop_last() == digits@);
            assert(encode_spec((rest / 36) as nat).push(digit_char(d as nat)) + tail_text(digits@)
                == encode_spec((rest / 36) as nat) + tail_text(digits@.push(d)));
        }
        digits.push(d);
        rest = rest / 36;
    }
    let mut s = String::new();
    let mut k: usize = digits.len();
    proof {
        assert(digits@.take(k as int) == digits@);
        assert(s@ + tail_text(digits@) == tail_text(digits@));
    }
    while k > 0
        invariant
            k <= digits@.len(),
            forall|j: int| 0 <= j < digits@.len() ==> digits@[j] < 36,
            s@ + tail_text(digits@.take(k as int)) == tail_text(digits@),
        decreases k,
    {
        k -= 1;
        let d = digits[k];
        let c: char = if d < 10 { (0x30 + d) as char } else { (0x61 + d - 10) as char };
        proof {
            let t = digits@.take(k + 1);
            assert(t.drop_last() == digits@.take(k as int));
            assert(t.last() == d);
            assert(c == digit_char(d as nat));
            assert(s@.push(c) + tail_text(digits@.take(k as int)) == s@ + tail_text(t));
        }
        push_char(&mut s, c);
    }
    proof {
        assert(digits@.take(0) == Seq::<u8>::empty());
        assert(s@ + Seq::<char>::empty() == s@);
    }
    s
}

/// The text of digits stored least significant first.
spec fn tail_text(digits: Seq<u8>) -> Seq<char>
    decreases digits.len(),
{
    if digits.len() == 0 {
        Seq::empty()
    } else {
        seq![digit_char(digits.last() as nat)] + tail_text(digits.drop_last())
    }
}

} // verus!


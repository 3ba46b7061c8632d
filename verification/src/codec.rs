//! Verified hex and decimal text codecs.
//!
//! Policy identifiers arrive as hex strings and leave as raw bytes; keys may
//! carry a decimal epoch suffix. Both codecs are specified as recursive
//! functions over sequences and the executable code is proved against them.

use vstd::prelude::*;

verus! {

/// A character that may stand in a hex string: `0-9`, `a-f` or `A-F`.
pub open spec fn is_hex_digit(c: char) -> bool {
    (48 <= c as u32 && c as u32 <= 57) || (97 <= c as u32 && c as u32 <= 102) || (65 <= c as u32
        && c as u32 <= 70)
}

/// The value of one hex digit.
pub open spec fn hex_digit_value(c: char) -> u8
    recommends
        is_hex_digit(c),
{
    if 48 <= c as u32 && c as u32 <= 57 {
        (c as u32 - 48) as u8
    } else if 97 <= c as u32 && c as u32 <= 102 {
        (c as u32 - 87) as u8
    } else {
        (c as u32 - 55) as u8
    }
}

/// A sequence of characters that decodes as hex: even length, hex digits only.
pub open spec fn is_hex_seq(s: Seq<char>) -> bool {
    s.len() % 2 == 0 && (forall|i: int| 0 <= i < s.len() ==> is_hex_digit(#[trigger] s[i]))
}

/// The bytes a hex string stands for, two digits to a byte.
pub open spec fn hex_decode_seq(s: Seq<char>) -> Seq<u8>
    recommends
        is_hex_seq(s),
    decreases s.len(),
{
    if s.len() < 2 {
        Seq::empty()
    } else {
        seq![(hex_digit_value(s[0]) * 16 + hex_digit_value(s[1])) as u8] + hex_decode_seq(
            s.skip(2),
        )
    }
}

/// The lower-case hex digit for a value below sixteen.
pub open spec fn hex_char_of(n: u8) -> char
    recommends
        n < 16,
{
    if n < 10 {
        ((48 + n) as u8) as char
    } else {
        ((87 + n) as u8) as char
    }
}

/// The lower-case hex string for a byte sequence, two digits to a byte.
pub open spec fn hex_encode_seq(b: Seq<u8>) -> Seq<char>
    decreases b.len(),
{
    if b.len() == 0 {
        Seq::empty()
    } else {
        seq![hex_char_of(b[0] / 16), hex_char_of(b[0] % 16)] + hex_encode_seq(b.skip(1))
    }
}

/// The value of one hex digit, or `None` for any other character.
pub fn hex_digit(c: char) -> (r: Option<u8>)
    ensures
        r is Some <==> is_hex_digit(c),
        r is Some ==> r->0 == hex_digit_value(c) && r->0 < 16,
{
    let n = c as u32;
    if 48 <= n && n <= 57 {
        Some((n - 48) as u8)
    } else if 97 <= n && n <= 102 {
        Some((n - 87) as u8)
    } else if 65 <= n && n <= 70 {
        Some((n - 55) as u8)
    } else {
        None
    }
}

fn hex_decode_from(s: &Vec<char>, i: usize) -> (r: Option<Vec<u8>>)
    requires
        i <= s@.len(),
        i % 2 == 0,
        s@.len() % 2 == 0,
    ensures
        r is Some <==> is_hex_seq(s@.skip(i as int)),
        r is Some ==> r->0@ == hex_decode_seq(s@.skip(i as int)),
    decreases s@.len() - i,
{
    if i == s.len() {
        assert(s@.skip(i as int) =~= Seq::<char>::empty());
        Some(Vec::new())
    } else {
        let hi = hex_digit(s[i]);
        let lo = hex_digit(s[i + 1]);
        match (hi, lo) {
            (Some(h), Some(l)) => {
                match hex_decode_from(s, i + 2) {
                    Some(mut rest) => {
                        let b: u8 = h * 16 + l;
                        rest.insert(0, b);
                        proof {
                            assert(s@.skip(i as int).skip(2) =~= s@.skip(i + 2));
                            assert(rest@ =~= seq![b] + hex_decode_seq(s@.skip(i + 2)));
                            let t = s@.skip(i as int);
                            assert forall|k: int| 0 <= k < t.len() implies is_hex_digit(
                                #[trigger] t[k],
                            ) by {
                                if k == 0 {
                                    assert(t[0] == s@[i as int]);
                                } else if k == 1 {
                                    assert(t[1] == s@[i + 1]);
                                } else {
                                    assert(t[k] == s@.skip(i + 2)[k - 2]);
                                }
                            }
                        }
                        Some(rest)
                    },
                    None => {
                        proof {
                            let t = s@.skip(i + 2);
                            assert(!is_hex_seq(t));
                            assert(t.len() % 2 == 0);
                            let k = choose|k: int| 0 <= k < t.len() && !is_hex_digit(t[k]);
                            assert(t[k] == s@.skip(i as int)[k + 2]);
                            assert(!is_hex_digit(s@.skip(i as int)[k + 2]));
                        }
                        None
                    },
                }
            },
            _ => {
                proof {
                    if hi is None {
                        assert(s@.skip(i as int)[0] == s@[i as int]);
                    } else {
                        assert(s@.skip(i as int)[1] == s@[i + 1]);
                    }
                }
                None
            },
        }
    }
}

/// Decodes a hex string, or returns `None` when the characters are not an
/// even run of hex digits.
pub fn hex_decode(s: &Vec<char>) -> (r: Option<Vec<u8>>)
    ensures
        r is Some <==> is_hex_seq(s@),
        r is Some ==> r->0@ == hex_decode_seq(s@),
{
    if s.len() % 2 != 0 {
        return None;
    }
    let r = hex_decode_from(s, 0);
    proof {
        assert(s@.skip(0) =~= s@);
    }
    r
}

fn hex_encode_from(b: &Vec<u8>, i: usize) -> (r: Vec<char>)
    requires
        i <= b@.len(),
    ensures
        r@ == hex_encode_seq(b@.skip(i as int)),
    decreases b@.len() - i,
{
    if i == b.len() {
        assert(b@.skip(i as int) =~= Seq::<u8>::empty());
        Vec::new()
    } else {
        let byte = b[i];
        let mut rest = hex_encode_from(b, i + 1);
        let hi: u8 = byte / 16;
        let lo: u8 = byte % 16;
        rest.insert(0, hex_nibble(lo));
        rest.insert(0, hex_nibble(hi));
        proof {
            assert(b@.skip(i as int).skip(1) =~= b@.skip(i + 1));
            assert(rest@ =~= seq![hex_char_of(hi), hex_char_of(lo)] + hex_encode_seq(
                b@.skip(i + 1),
            ));
        }
        rest
    }
}

/// The lower-case hex digit for a value below sixteen.
pub fn hex_nibble(n: u8) -> (c: char)
    requires
        n < 16,
    ensures
        c == hex_char_of(n),
{
    if n < 10 {
        (48 + n) as char
    } else {
        (87 + n) as char
    }
}

/// Encodes bytes as a lower-case hex string.
pub fn hex_encode(b: &Vec<u8>) -> (r: Vec<char>)
    ensures
        r@ == hex_encode_seq(b@),
{
    let r = hex_encode_from(b, 0);
    proof {
        assert(b@.skip(0) =~= b@);
    }
    r
}

/// Decoding distributes over splicing two hex strings together.
pub proof fn lemma_hex_decode_append(a: Seq<char>, b: Seq<char>)
    requires
        is_hex_seq(a),
        is_hex_seq(b),
    ensures
        is_hex_seq(a + b),
        hex_decode_seq(a + b) == hex_decode_seq(a) + hex_decode_seq(b),
    decreases a.len(),
{
    assert forall|i: int| 0 <= i < (a + b).len() implies is_hex_digit(#[trigger] (a + b)[i]) by {
        if i < a.len() {
            assert((a + b)[i] == a[i]);
        } else {
            assert((a + b)[i] == b[i - a.len()]);
        }
    }
    if a.len() == 0 {
        assert(a + b =~= b);
        assert(hex_decode_seq(a + b) =~= hex_decode_seq(a) + hex_decode_seq(b));
    } else {
        lemma_hex_decode_append(a.skip(2), b);
        assert((a + b).skip(2) =~= a.skip(2) + b);
        assert((a + b)[0] == a[0] && (a + b)[1] == a[1]);
        assert(hex_decode_seq(a + b) =~= hex_decode_seq(a) + hex_decode_seq(b));
    }
}

/// A hex string decodes to one byte for every two digits.
pub proof fn lemma_hex_decode_len(s: Seq<char>)
    requires
        s.len() % 2 == 0,
    ensures
        hex_decode_seq(s).len() == s.len() / 2,
    decreases s.len(),
{
    if s.len() >= 2 {
        lemma_hex_decode_len(s.skip(2));
    }
}

/// An encoded byte sequence is itself a valid hex string.
pub proof fn lemma_hex_encode_valid(b: Seq<u8>)
    ensures
        is_hex_seq(hex_encode_seq(b)),
        hex_encode_seq(b).len() == 2 * b.len(),
    decreases b.len(),
{
    if b.len() == 0 {
    } else {
        lemma_hex_encode_valid(b.skip(1));
        let e = hex_encode_seq(b);
        let rest = hex_encode_seq(b.skip(1));
        assert forall|i: int| 0 <= i < e.len() implies is_hex_digit(#[trigger] e[i]) by {
            if i >= 2 {
                assert(e[i] == rest[i - 2]);
            }
        }
    }
}

/// Decoding inverts encoding: the codec loses nothing.
pub proof fn lemma_hex_round_trip(b: Seq<u8>)
    ensures
        hex_decode_seq(hex_encode_seq(b)) == b,
    decreases b.len(),
{
    if b.len() == 0 {
        assert(hex_decode_seq(hex_encode_seq(b)) =~= b);
    } else {
        lemma_hex_round_trip(b.skip(1));
        let e = hex_encode_seq(b);
        assert(e.skip(2) =~= hex_encode_seq(b.skip(1)));
        assert(hex_digit_value(hex_char_of(b[0] / 16)) == b[0] / 16);
        assert(hex_digit_value(hex_char_of(b[0] % 16)) == b[0] % 16);
        assert(hex_decode_seq(e) =~= b);
    }
}

/// The digit character for a value below ten.
pub open spec fn dec_char_of(n: u8) -> char
    recommends
        n < 10,
{
    ((48 + n) as u8) as char
}

/// The decimal text of a number, most significant digit first, no sign and no
/// leading zero except for the number zero itself.
pub open spec fn dec_seq_of(n: nat) -> Seq<char>
    decreases n,
{
    if n < 10 {
        seq![dec_char_of(n as u8)]
    } else {
        dec_seq_of(n / 10) + seq![dec_char_of((n % 10) as u8)]
    }
}

/// Writes a number in decimal.
pub fn dec_digits(n: u64) -> (r: Vec<char>)
    ensures
        r@ == dec_seq_of(n as nat),
    decreases n,
{
    if n < 10 {
        let mut v: Vec<char> = Vec::new();
        v.push((48 + (n as u8)) as char);
        proof {
            assert(v@ =~= seq![dec_char_of(n as u8)]);
        }
        v
    } else {
        let mut v = dec_digits(n / 10);
        v.push((48 + ((n % 10) as u8)) as char);
        proof {
            assert(v@ =~= dec_seq_of((n / 10) as nat) + seq![dec_char_of((n % 10) as u8)]);
            assert((n / 10) as nat == (n as nat) / 10);
            assert((n % 10) as nat == (n as nat) % 10);
        }
        v
    }
}

} // verus!

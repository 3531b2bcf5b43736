//! Canonical hex text for byte strings.
//!
//! The durable store keeps hash-shaped and byte-string columns as text: a
//! `"0x"` prefix followed by two lowercase hex digits per byte. Encoding is
//! total; decoding validates the prefix and every digit (upper-case digits
//! are accepted on read-back) and recovers exactly the encoded bytes.

use vstd::prelude::*;

verus! {

/// The lowercase hex digit for a value below 16, as an ASCII byte.
pub open spec fn hex_digit(n: u8) -> u8
    recommends
        n < 16,
{
    if n < 10 {
        (0x30 + n) as u8
    } else {
        (0x57 + n) as u8
    }
}

/// The value of one ASCII hex digit, or `None` for any other byte.
/// Both lowercase and uppercase digits are accepted.
pub open spec fn hex_val(d: u8) -> Option<u8> {
    if 0x30 <= d && d <= 0x39 {
        Some((d - 0x30) as u8)
    } else if 0x61 <= d && d <= 0x66 {
        Some((d - 0x61 + 10) as u8)
    } else if 0x41 <= d && d <= 0x46 {
        Some((d - 0x41 + 10) as u8)
    } else {
        None
    }
}

/// Hex digits of a byte string, two per byte, without the `"0x"` prefix.
pub open spec fn spec_hex_body(s: Seq<u8>) -> Seq<u8>
    decreases s.len(),
{
    if s.len() == 0 {
        Seq::empty()
    } else {
        seq![hex_digit(s[0] / 16), hex_digit(s[0] % 16)] + spec_hex_body(s.drop_first())
    }
}

/// Canonical hex text of a byte string: `"0x"`, then two lowercase digits per byte.
pub open spec fn spec_hex_text(s: Seq<u8>) -> Seq<u8> {
    seq![0x30u8, 0x78u8] + spec_hex_body(s)
}

/// The bytes encoded by a digit string (no prefix), or `None` where some
/// position is not a hex digit or the length is odd.
pub open spec fn spec_hex_pairs(t: Seq<u8>) -> Option<Seq<u8>>
    decreases t.len(),
{
    if t.len() == 0 {
        Some(Seq::empty())
    } else if t.len() == 1 {
        None
    } else {
        match (hex_val(t[0]), hex_val(t[1])) {
            (Some(hi), Some(lo)) => match spec_hex_pairs(t.skip(2)) {
                Some(rest) => Some(seq![(hi * 16 + lo) as u8] + rest),
                None => None,
            },
            _ => None,
        }
    }
}

/// The bytes encoded by a full hex text, or `None` where the `"0x"` prefix
/// is absent or the digits are ill-formed.
pub open spec fn spec_hex_decode(t: Seq<u8>) -> Option<Seq<u8>> {
    if t.len() >= 2 && t[0] == 0x30 && t[1] == 0x78 {
        spec_hex_pairs(t.skip(2))
    } else {
        None
    }
}

/// Reading back a digit emitted by the encoder gives the value back.
proof fn lemma_hex_digit_val(n: u8)
    requires
        n < 16,
    ensures
        hex_val(hex_digit(n)) == Some(n),
{
}

/// Appending one byte to a string appends its two digits to the hex body.
pub proof fn lemma_hex_body_push(s: Seq<u8>, b: u8)
    ensures
        spec_hex_body(s.push(b)) == spec_hex_body(s) + seq![
            hex_digit(b / 16),
            hex_digit(b % 16),
        ],
    decreases s.len(),
{
    let pair = seq![hex_digit(b / 16), hex_digit(b % 16)];
    if s.len() == 0 {
        assert(s.push(b).len() == 1);
        assert(s.push(b)[0] == b);
        assert(s.push(b).drop_first() =~= Seq::<u8>::empty());
        assert(spec_hex_body(s.push(b)) == pair + spec_hex_body(Seq::<u8>::empty()));
        assert(spec_hex_body(s) == Seq::<u8>::empty());
        assert(pair + Seq::<u8>::empty() =~= Seq::<u8>::empty() + pair);
    } else {
        let pair0 = seq![hex_digit(s[0] / 16), hex_digit(s[0] % 16)];
        assert(s.push(b)[0] == s[0]);
        assert(s.push(b).len() == s.len() + 1);
        assert(s.push(b).drop_first() =~= s.drop_first().push(b));
        lemma_hex_body_push(s.drop_first(), b);
        assert(spec_hex_body(s.push(b)) == pair0 + (spec_hex_body(s.drop_first()) + pair));
        assert(pair0 + (spec_hex_body(s.drop_first()) + pair) =~= (pair0 + spec_hex_body(
            s.drop_first(),
        )) + pair);
        assert(spec_hex_body(s) == pair0 + spec_hex_body(s.drop_first()));
    }
}

/// Decoding the digits the encoder wrote recovers exactly the encoded bytes.
pub proof fn lemma_hex_body_roundtrip(s: Seq<u8>)
    ensures
        spec_hex_pairs(spec_hex_body(s)) == Some(s),
    decreases s.len(),
{
    if s.len() == 0 {
        assert(spec_hex_body(s).len() == 0);
    } else {
        let t = spec_hex_body(s);
        lemma_hex_digit_val(s[0] / 16);
        lemma_hex_digit_val(s[0] % 16);
        lemma_hex_body_roundtrip(s.drop_first());
        assert(t.skip(2) =~= spec_hex_body(s.drop_first()));
        assert((s[0] / 16) * 16 + s[0] % 16 == s[0]) by (nonlinear_arith);
        assert(seq![(s[0] as u8)] + s.drop_first() =~= s);
    }
}

/// Decoding the full canonical text recovers exactly the encoded bytes.
pub proof fn lemma_hex_text_roundtrip(s: Seq<u8>)
    ensures
        spec_hex_decode(spec_hex_text(s)) == Some(s),
{
    let t = spec_hex_text(s);
    assert(t.skip(2) =~= spec_hex_body(s));
    lemma_hex_body_roundtrip(s);
}

/// Encodes a byte string as canonical hex text.
pub fn encode_hex(bytes: &Vec<u8>) -> (r: Vec<u8>)
    ensures
        r@ == spec_hex_text(bytes@),
{
    let mut r: Vec<u8> = Vec::new();
    r.push(0x30);
    r.push(0x78);
    proof {
        assert(r@ =~= seq![0x30u8, 0x78u8] + spec_hex_body(bytes@.take(0)));
    }
    let mut i: usize = 0;
    while i < bytes.len()
        invariant
            i <= bytes.len(),
            r@ == seq![0x30u8, 0x78u8] + spec_hex_body(bytes@.take(i as int)),
        decreases bytes.len() - i,
    {
        let b: u8 = bytes[i];
        let hi: u8 = b / 16;
        let lo: u8 = b % 16;
        r.push(if hi < 10 { 0x30 + hi } else { 0x57 + hi });
        r.push(if lo < 10 { 0x30 + lo } else { 0x57 + lo });
        proof {
            assert(bytes@.take(i + 1) =~= bytes@.take(i as int).push(bytes@[i as int]));
            lemma_hex_body_push(bytes@.take(i as int), bytes@[i as int]);
            assert(r@ =~= seq![0x30u8, 0x78u8] + spec_hex_body(bytes@.take(i + 1)));
        }
        i = i + 1;
    }
    proof {
        assert(bytes@.take(bytes@.len() as int) =~= bytes@);
    }
    r
}

/// Decodes hex text back into bytes; `None` where the text is not
/// well-formed hex with a `"0x"` prefix.
pub fn decode_hex(text: &Vec<u8>) -> (r: Option<Vec<u8>>)
    ensures
        r matches Some(b) ==> spec_hex_decode(text@) == Some(b@),
        r is None ==> spec_hex_decode(text@) is None,
{
    if text.len() < 2 || text[0] != 0x30 || text[1] != 0x78 {
        return None;
    }
    if (text.len() - 2) % 2 != 0 {
        proof {
            lemma_hex_pairs_odd(text@.skip(2));
        }
        return None;
    }
    let mut out: Vec<u8> = Vec::new();
    let mut i: usize = 2;
    proof {
        assert(text@.skip(2).skip(0) =~= text@.skip(2));
    }
    while i < text.len()
        invariant
            2 <= i <= text@.len(),
            (i - 2) % 2 == 0,
            (text@.len() - 2) % 2 == 0,
            text@.len() >= 2,
            out@.len() == (i - 2) / 2,
            spec_hex_pairs(text@.skip(2)) == match spec_hex_pairs(text@.skip(i as int)) {
                Some(rest) => Some(out@ + rest),
                None => None::<Seq<u8>>,
            },
        decreases text@.len() - i,
    {
        let d0: u8 = text[i];
        let d1: u8 = text[i + 1];
        let hi: Option<u8> = hex_val_exec(d0);
        let lo: Option<u8> = hex_val_exec(d1);
        proof {
            assert(text@.skip(i as int).len() == text@.len() - i);
            assert(text@.skip(i as int)[0] == text@[i as int]);
            assert(text@.skip(i as int)[1] == text@[i as int + 1]);
            assert(text@.skip(i as int).skip(2) =~= text@.skip(i + 2));
        }
        match (hi, lo) {
            (Some(h), Some(l)) => {
                proof {
                    assert(spec_hex_pairs(text@.skip(i as int)) == match spec_hex_pairs(
                        text@.skip(i + 2),
                    ) {
                        Some(rest) => Some(seq![(h * 16 + l) as u8] + rest),
                        None => None::<Seq<u8>>,
                    });
                }
                out.push(h * 16 + l);
                proof {
                    let prev = out@.drop_last();
                    match spec_hex_pairs(text@.skip(i + 2)) {
                        Some(rest) => {
                            assert(prev + (seq![(h * 16 + l) as u8] + rest) =~= out@ + rest);
                        },
                        None => {},
                    }
                }
                i = i + 2;
            },
            _ => {
                proof {
                    assert(spec_hex_pairs(text@.skip(i as int)) is None);
                }
                return None;
            },
        }
    }
    proof {
        assert(text@.skip(text@.len() as int) =~= Seq::<u8>::empty());
        assert(out@ + Seq::<u8>::empty() =~= out@);
    }
    Some(out)
}

/// A digit string of odd length decodes to nothing.
proof fn lemma_hex_pairs_odd(t: Seq<u8>)
    requires
        t.len() % 2 == 1,
    ensures
        spec_hex_pairs(t) is None,
    decreases t.len(),
{
    if t.len() > 1 {
        lemma_hex_pairs_odd(t.skip(2));
    }
}

/// Copies a byte vector.
pub fn copy_bytes(v: &Vec<u8>) -> (r: Vec<u8>)
    ensures
        r@ == v@,
{
    let mut r: Vec<u8> = Vec::new();
    let mut i: usize = 0;
    while i < v.len()
        invariant
            i <= v@.len(),
            r@ == v@.take(i as int),
        decreases v@.len() - i,
    {
        r.push(v[i]);
        proof {
            assert(v@.take(i + 1) =~= v@.take(i as int).push(v@[i as int]));
        }
        i = i + 1;
    }
    proof {
        assert(v@.take(v@.len() as int) =~= v@);
    }
    r
}

/// Whether two byte strings hold the same bytes.
pub fn bytes_eq(a: &Vec<u8>, b: &Vec<u8>) -> (r: bool)
    ensures
        r == (a@ == b@),
{
    if a.len() != b.len() {
        return false;
    }
    let mut i: usize = 0;
    while i < a.len()
        invariant
            a@.len() == b@.len(),
            i <= a@.len(),
            forall|j: int| 0 <= j < i ==> a@[j] == b@[j],
        decreases a@.len() - i,
    {
        if a[i] != b[i] {
            return false;
        }
        i = i + 1;
    }
    proof {
        assert(a@ =~= b@);
    }
    true
}

/// The value of one ASCII hex digit, matching [`hex_val`].
fn hex_val_exec(d: u8) -> (r: Option<u8>)
    ensures
        r == hex_val(d),
{
    if 0x30 <= d && d <= 0x39 {
        Some(d - 0x30)
    } else if 0x61 <= d && d <= 0x66 {
        Some(d - 0x61 + 10)
    } else if 0x41 <= d && d <= 0x46 {
        Some(d - 0x41 + 10)
    } else {
        None
    }
}

} // verus!

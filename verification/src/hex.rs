//! Hexadecimal framing of cookie bytes.
//!
//! A signed cookie is raw bytes, but an HTTP cookie header carries text:
//! the wire string is the cookie's bytes in lower-case hex, two digits per
//! byte, high digit first.  Decoding is strict: odd length or any
//! non-digit rejects the whole input.

use vstd::prelude::*;

verus! {

/// Whether `c` is an ASCII lower-case hex digit.
pub open spec fn spec_is_hex_digit(c: u8) -> bool {
    48 <= c <= 57 || 97 <= c <= 102
}

/// ASCII byte of the lower-case hex digit for a value below sixteen.
pub open spec fn spec_hex_digit(v: int) -> u8
    recommends
        0 <= v < 16,
{
    if v < 10 {
        (48 + v) as u8
    } else {
        (87 + v) as u8
    }
}

/// Value of an ASCII lower-case hex digit; zero on anything else.
pub open spec fn spec_hex_val(c: u8) -> u8 {
    if 48 <= c <= 57 {
        (c - 48) as u8
    } else if 97 <= c <= 102 {
        (c - 87) as u8
    } else {
        0
    }
}

/// Hex encoding of a byte string: two digits per byte, high digit first.
pub open spec fn spec_hex_encode(s: Seq<u8>) -> Seq<u8> {
    Seq::new(
        2 * s.len(),
        |i: int|
            if i % 2 == 0 {
                spec_hex_digit(s[i / 2] as int / 16)
            } else {
                spec_hex_digit(s[i / 2] as int % 16)
            },
    )
}

/// What strict decoding accepts: an even number of lower-case hex digits,
/// and nothing else.
pub open spec fn spec_hex_decode(s: Seq<u8>) -> Option<Seq<u8>> {
    if s.len() % 2 == 0 && (forall|i: int| 0 <= i < s.len() ==> spec_is_hex_digit(s[i])) {
        Some(
            Seq::new(
                s.len() / 2,
                |k: int| (16 * spec_hex_val(s[2 * k]) + spec_hex_val(s[2 * k + 1])) as u8,
            ),
        )
    } else {
        None
    }
}

fn hex_digit(v: u8) -> (r: u8)
    requires
        v < 16,
    ensures
        r == spec_hex_digit(v as int),
{
    if v < 10 {
        48 + v
    } else {
        87 + v
    }
}

fn hex_val(c: u8) -> (r: Option<u8>)
    ensures
        r is Some <==> spec_is_hex_digit(c),
        r matches Some(v) ==> v == spec_hex_val(c) && v < 16,
{
    if 48 <= c && c <= 57 {
        Some(c - 48)
    } else if 97 <= c && c <= 102 {
        Some(c - 87)
    } else {
        None
    }
}

/// Encode a byte string as lower-case hex text.
pub fn hex_encode(b: &Vec<u8>) -> (r: Vec<u8>)
    ensures
        r@ == spec_hex_encode(b@),
{
    let mut out: Vec<u8> = Vec::new();
    let mut i: usize = 0;
    while i < b.len()
        invariant
            i <= b@.len(),
            out@ == spec_hex_encode(b@.take(i as int)),
        decreases b@.len() - i,
    {
        let byte = b[i];
        out.push(hex_digit(byte / 16));
        out.push(hex_digit(byte % 16));
        proof {
            assert(out@ =~= spec_hex_encode(b@.take(i as int + 1)));
        }
        i = i + 1;
    }
    proof {
        assert(b@.take(i as int) =~= b@);
    }
    out
}

/// Decode lower-case hex text back into bytes; `None` on odd length or on
/// any byte that is not a lower-case hex digit.
pub fn hex_decode(s: &Vec<u8>) -> (r: Option<Vec<u8>>)
    ensures
        match r {
            Some(b) => spec_hex_decode(s@) == Some(b@),
            None => spec_hex_decode(s@) is None,
        },
{
    let n = s.len();
    if n % 2 != 0 {
        return None;
    }
    let mut out: Vec<u8> = Vec::new();
    let mut i: usize = 0;
    while i < n
        invariant
            n == s@.len(),
            n % 2 == 0,
            i % 2 == 0,
            i <= n,
            out@.len() == i / 2,
            forall|j: int| 0 <= j < i ==> spec_is_hex_digit(s@[j]),
            forall|k: int|
                0 <= k < i / 2 ==> out@[k] == (16 * spec_hex_val(s@[2 * k]) + spec_hex_val(
                    s@[2 * k + 1],
                )) as u8,
        decreases n - i,
    {
        let hi = match hex_val(s[i]) {
            None => {
                return None;
            },
            Some(v) => v,
        };
        let lo = match hex_val(s[i + 1]) {
            None => {
                return None;
            },
            Some(v) => v,
        };
        out.push(16 * hi + lo);
        i = i + 2;
    }
    proof {
        let d = spec_hex_decode(s@);
        assert(d matches Some(b) && b =~= out@);
    }
    Some(out)
}

/// Round trip: hex decoding inverts hex encoding on every byte string.
pub proof fn lemma_hex_round_trip(b: Seq<u8>)
    ensures
        spec_hex_decode(spec_hex_encode(b)) == Some(b),
{
    let e = spec_hex_encode(b);
    assert forall|i: int| 0 <= i < e.len() implies spec_is_hex_digit(e[i]) by {
        assert(0 <= b[i / 2] as int / 16 < 16);
        assert(0 <= b[i / 2] as int % 16 < 16);
    }
    let d = spec_hex_decode(e);
    assert(d matches Some(dec) && dec =~= b) by {
        assert forall|k: int| 0 <= k < b.len() implies (16 * spec_hex_val(e[2 * k])
            + spec_hex_val(e[2 * k + 1])) as u8 == b[k] by {
            assert(e[2 * k] == spec_hex_digit(b[k] as int / 16));
            assert(e[2 * k + 1] == spec_hex_digit(b[k] as int % 16));
            assert(spec_hex_val(spec_hex_digit(b[k] as int / 16)) == b[k] as int / 16);
            assert(spec_hex_val(spec_hex_digit(b[k] as int % 16)) == b[k] as int % 16);
            assert(16 * (b[k] as int / 16) + b[k] as int % 16 == b[k] as int);
        }
    }
}

} // verus!

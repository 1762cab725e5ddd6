//! The HEX rendering of a WKB buffer: two uppercase digits per byte, and
//! the round-trip law connecting the two directions.

use vstd::prelude::*;

use crate::enums::ByteOrder;
use crate::geometry::GeomV;
use crate::wkb::{enc_geom, encodable, parse_geom, wkb_form};

verus! {

/// The digit character for a value below 16: `0` to `9`, then `A` to `F`.
pub open spec fn hex_digit(v: u8) -> u8 {
    if v < 10 {
        (v + 0x30) as u8
    } else {
        (v + 55) as u8
    }
}

/// The hexadecimal rendering of a byte list: for each byte its high digit,
/// then its low digit.
pub open spec fn hex_of(bytes: Seq<u8>) -> Seq<u8>
    decreases bytes.len(),
{
    if bytes.len() == 0 {
        Seq::empty()
    } else {
        seq![hex_digit(bytes[0] >> 4), hex_digit(bytes[0] & 0xf)] + hex_of(bytes.skip(1))
    }
}

/// The value of one digit character; both letter cases are read.
pub open spec fn unhex_digit(c: u8) -> Option<u8> {
    if 0x30 <= c <= 0x39 {
        Some((c - 0x30) as u8)
    } else if 0x41 <= c <= 0x46 {
        Some((c - 55) as u8)
    } else if 0x61 <= c <= 0x66 {
        Some((c - 87) as u8)
    } else {
        None
    }
}

/// The bytes a hexadecimal text denotes: nothing when its length is odd or
/// a character is no digit.
pub open spec fn unhex(s: Seq<u8>) -> Option<Seq<u8>>
    decreases s.len(),
{
    if s.len() == 0 {
        Some(Seq::empty())
    } else if s.len() == 1 {
        None
    } else {
        match (unhex_digit(s[0]), unhex_digit(s[1])) {
            (Some(h), Some(l)) => match unhex(s.skip(2)) {
                None => None,
                Some(rest) => Some(seq![(16 * h + l) as u8] + rest),
            },
            _ => None,
        }
    }
}

/// Reading one digit back from its own rendering yields its value.
proof fn lemma_unhex_digit_rt(v: u8)
    requires
        v < 16,
    ensures
        unhex_digit(hex_digit(v)) == Some(v),
{
}

/// Reading a hexadecimal rendering back yields the bytes it was made from.
pub proof fn lemma_unhex_hex(bytes: Seq<u8>)
    ensures
        unhex(hex_of(bytes)) == Some(bytes),
    decreases bytes.len(),
{
    if bytes.len() == 0 {
    } else {
        let b = bytes[0];
        let s = hex_of(bytes);
        assert(b >> 4 < 16 && b & 0xf < 16 && 16 * (b >> 4) + (b & 0xf) == b) by (bit_vector);
        lemma_unhex_digit_rt(b >> 4);
        lemma_unhex_digit_rt(b & 0xf);
        assert(s.skip(2) =~= hex_of(bytes.skip(1)));
        lemma_unhex_hex(bytes.skip(1));
        assert(seq![bytes[0]] + bytes.skip(1) =~= bytes);
    }
}

/// The HEX round-trip law: the hexadecimal rendering of a well-formed,
/// encodable geometry's WKB bytes reads back to those same bytes, and they
/// parse to the geometry's WKB form.
pub proof fn lemma_hex_round_trip(bo: ByteOrder, g: GeomV)
    requires
        g.wf(),
        encodable(g),
    ensures
        unhex(hex_of(enc_geom(bo, g))) == Some(enc_geom(bo, g)),
        parse_geom(enc_geom(bo, g)) == Some((wkb_form(g), Seq::<u8>::empty())),
{
    lemma_unhex_hex(enc_geom(bo, g));
    crate::wkb::lemma_wkb_round_trip(bo, g);
}

/// Prepending bytes to a partial reading.
spec fn opt_bytes_prepend(pre: Seq<u8>, o: Option<Seq<u8>>) -> Option<Seq<u8>> {
    match o {
        None => None,
        Some(b) => Some(pre + b),
    }
}

/// The digit character for a value below 16.
fn hex_digit_exec(v: u8) -> (r: u8)
    requires
        v < 16,
    ensures
        r == hex_digit(v),
{
    if v < 10 {
        v + 0x30
    } else {
        v + 55
    }
}

/// Renders a byte list as hexadecimal text.
#[verifier::loop_isolation(false)]
pub(crate) fn hex_encode(bytes: &Vec<u8>) -> (r: Vec<u8>)
    ensures
        r@ == hex_of(bytes@),
{
    let n = bytes.len();
    let mut out: Vec<u8> = Vec::new();
    let mut k: usize = 0;
    proof {
        assert(bytes@.skip(0) =~= bytes@);
        assert(Seq::<u8>::empty() + hex_of(bytes@.skip(0)) =~= hex_of(bytes@));
    }
    while k < n
        invariant
            k <= n,
            out@ + hex_of(bytes@.skip(k as int)) == hex_of(bytes@),
        decreases n - k,
    {
        let b = bytes[k];
        let ghost pre = out@;
        proof {
            assert(b >> 4 < 16 && b & 0xf < 16) by (bit_vector);
            assert(bytes@.skip(k as int)[0] == bytes@[k as int]);
            assert(bytes@.skip(k as int).skip(1) =~= bytes@.skip(k as int + 1));
        }
        out.push(hex_digit_exec(b >> 4));
        out.push(hex_digit_exec(b & 0xf));
        proof {
            assert(out@ + hex_of(bytes@.skip(k as int + 1)) =~= pre + hex_of(
                bytes@.skip(k as int),
            ));
        }
        k = k + 1;
    }
    proof {
        assert(out@ + hex_of(bytes@.skip(n as int)) =~= out@);
    }
    out
}

/// Reads one digit character.
fn unhex_digit_exec(c: u8) -> (r: Option<u8>)
    ensures
        r == unhex_digit(c),
        r matches Some(v) ==> v < 16,
{
    if 0x30 <= c && c <= 0x39 {
        Some(c - 0x30)
    } else if 0x41 <= c && c <= 0x46 {
        Some(c - 55)
    } else if 0x61 <= c && c <= 0x66 {
        Some(c - 87)
    } else {
        None
    }
}

/// Reads hexadecimal text back into bytes; fails on an odd length or a
/// character that is no digit.
#[verifier::loop_isolation(false)]
pub(crate) fn hex_decode(s: &[u8]) -> (r: Option<Vec<u8>>)
    ensures
        match r {
            Some(b) => unhex(s@) == Some(b@),
            None => unhex(s@) is None,
        },
{
    let n = s.len();
    let mut out: Vec<u8> = Vec::new();
    let mut cur: usize = 0;
    proof {
        assert(s@.skip(0) =~= s@);
    }
    while n - cur >= 2
        invariant
            cur <= n,
            n == s@.len(),
            unhex(s@) == opt_bytes_prepend(out@, unhex(s@.skip(cur as int))),
        decreases n - cur,
    {
        proof {
            assert(s@.skip(cur as int)[0] == s@[cur as int]);
            assert(s@.skip(cur as int)[1] == s@[cur as int + 1]);
            assert(s@.skip(cur as int).skip(2) =~= s@.skip(cur as int + 2));
        }
        let h = match unhex_digit_exec(s[cur]) {
            None => {
                return None;
            },
            Some(v) => v,
        };
        let l = match unhex_digit_exec(s[cur + 1]) {
            None => {
                return None;
            },
            Some(v) => v,
        };
        let ghost pre = out@;
        out.push(16 * h + l);
        proof {
            match unhex(s@.skip(cur as int + 2)) {
                None => {},
                Some(rest) => {
                    assert(out@ + rest =~= pre + (seq![(16 * (h as int) + l) as u8] + rest));
                },
            }
        }
        cur = cur + 2;
    }
    if cur == n {
        proof {
            assert(out@ + Seq::<u8>::empty() =~= out@);
        }
        Some(out)
    } else {
        None
    }
}

} // verus!

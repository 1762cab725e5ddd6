//! The WKB form of a geometry: its exact byte layout, both directions, and
//! the round-trip law connecting them.
//!
//! A geometry is written as a one-byte order flag, a 32-bit type code, and a
//! payload of 32-bit counts and 64-bit ordinate patterns, all in the order
//! the flag announces. Rings inside a polygon are written as bare
//! count-plus-coordinates lists; every element of a multipolygon carries its
//! own flag and type code.

use vstd::prelude::*;

use crate::coord_seq::{Coord, CoordSeq};
use crate::enums::ByteOrder;
use crate::geometry::{wf_ring, GGeom, GeomV, PolyGeom, PolyV};

verus! {

/// The flag byte announcing a byte order.
pub open spec fn bo_flag(bo: ByteOrder) -> u8 {
    match bo {
        ByteOrder::BigEndian => 0,
        ByteOrder::LittleEndian => 1,
    }
}

/// The four bytes of a 32-bit value in the given order.
pub open spec fn enc_u32(bo: ByteOrder, v: u32) -> Seq<u8> {
    let b0 = (v & 0xff) as u8;
    let b1 = ((v >> 8) & 0xff) as u8;
    let b2 = ((v >> 16) & 0xff) as u8;
    let b3 = ((v >> 24) & 0xff) as u8;
    match bo {
        ByteOrder::LittleEndian => seq![b0, b1, b2, b3],
        ByteOrder::BigEndian => seq![b3, b2, b1, b0],
    }
}

/// The eight bytes of a 64-bit value in the given order.
pub open spec fn enc_u64(bo: ByteOrder, v: u64) -> Seq<u8> {
    let b0 = (v & 0xff) as u8;
    let b1 = ((v >> 8) & 0xff) as u8;
    let b2 = ((v >> 16) & 0xff) as u8;
    let b3 = ((v >> 24) & 0xff) as u8;
    let b4 = ((v >> 32) & 0xff) as u8;
    let b5 = ((v >> 40) & 0xff) as u8;
    let b6 = ((v >> 48) & 0xff) as u8;
    let b7 = ((v >> 56) & 0xff) as u8;
    match bo {
        ByteOrder::LittleEndian => seq![b0, b1, b2, b3, b4, b5, b6, b7],
        ByteOrder::BigEndian => seq![b7, b6, b5, b4, b3, b2, b1, b0],
    }
}

/// The sixteen bytes of one coordinate: x then y.
pub open spec fn enc_coord(bo: ByteOrder, c: Coord) -> Seq<u8> {
    enc_u64(bo, c.x) + enc_u64(bo, c.y)
}

/// The bytes of the coordinates from position `i` on, in order.
pub open spec fn enc_coords_from(bo: ByteOrder, cs: Seq<Coord>, i: int) -> Seq<u8>
    decreases cs.len() - i,
{
    if 0 <= i < cs.len() {
        enc_coord(bo, cs[i]) + enc_coords_from(bo, cs, i + 1)
    } else {
        Seq::empty()
    }
}

/// A coordinate list: its 32-bit count, then its coordinates.
pub open spec fn enc_coord_list(bo: ByteOrder, cs: Seq<Coord>) -> Seq<u8> {
    enc_u32(bo, cs.len() as u32) + enc_coords_from(bo, cs, 0)
}

/// The bytes of the rings from position `i` on, each a bare coordinate list.
pub open spec fn enc_rings_from(bo: ByteOrder, rs: Seq<Seq<Coord>>, i: int) -> Seq<u8>
    decreases rs.len() - i,
{
    if 0 <= i < rs.len() {
        enc_coord_list(bo, rs[i]) + enc_rings_from(bo, rs, i + 1)
    } else {
        Seq::empty()
    }
}

/// A polygon body: its ring count, the exterior ring, then the interior
/// rings in order.
pub open spec fn enc_poly_body(bo: ByteOrder, p: PolyV) -> Seq<u8> {
    enc_u32(bo, (p.interiors.len() + 1) as u32) + enc_coord_list(bo, p.exterior)
        + enc_rings_from(bo, p.interiors, 0)
}

/// A geometry header: the order flag, then the 32-bit type code.
pub open spec fn enc_header(bo: ByteOrder, t: u32) -> Seq<u8> {
    seq![bo_flag(bo)] + enc_u32(bo, t)
}

/// The bytes of the polygons from position `i` on, each with its own header.
pub open spec fn enc_polys_from(bo: ByteOrder, ps: Seq<PolyV>, i: int) -> Seq<u8>
    decreases ps.len() - i,
{
    if 0 <= i < ps.len() {
        enc_header(bo, 3) + enc_poly_body(bo, ps[i]) + enc_polys_from(bo, ps, i + 1)
    } else {
        Seq::empty()
    }
}

/// The WKB bytes of a geometry in the given order. A linear ring has no
/// type code of its own and is written as a line string.
pub open spec fn enc_geom(bo: ByteOrder, g: GeomV) -> Seq<u8> {
    match g {
        GeomV::Point(c) => enc_header(bo, 1) + enc_coord(bo, c),
        GeomV::LineString(cs) => enc_header(bo, 2) + enc_coord_list(bo, cs),
        GeomV::LinearRing(cs) => enc_header(bo, 2) + enc_coord_list(bo, cs),
        GeomV::Polygon(p) => enc_header(bo, 3) + enc_poly_body(bo, p),
        GeomV::MultiPolygon(ps) => enc_header(bo, 6) + enc_u32(bo, ps.len() as u32)
            + enc_polys_from(bo, ps, 0),
    }
}

/// Whether a polygon's counts fit the 32-bit fields of the format.
pub open spec fn poly_encodable(p: PolyV) -> bool {
    &&& p.exterior.len() <= u32::MAX
    &&& p.interiors.len() + 1 <= u32::MAX
    &&& forall|i: int| 0 <= i < p.interiors.len()
        ==> (#[trigger] p.interiors[i]).len() <= u32::MAX
}

/// Whether every count of the geometry fits the 32-bit fields of the format.
pub open spec fn encodable(g: GeomV) -> bool {
    match g {
        GeomV::Point(_) => true,
        GeomV::LineString(cs) => cs.len() <= u32::MAX,
        GeomV::LinearRing(cs) => cs.len() <= u32::MAX,
        GeomV::Polygon(p) => poly_encodable(p),
        GeomV::MultiPolygon(ps) => ps.len() <= u32::MAX && forall|i: int|
            0 <= i < ps.len() ==> poly_encodable(#[trigger] ps[i]),
    }
}

/// The geometry a WKB round trip reproduces: identical, except that a
/// linear ring comes back as the line string it was written as.
pub open spec fn wkb_form(g: GeomV) -> GeomV {
    match g {
        GeomV::LinearRing(cs) => GeomV::LineString(cs),
        _ => g,
    }
}

/// The 32-bit value read from four bytes in the given order.
#[verifier::opaque]
pub open spec fn dec_u32(bo: ByteOrder, b0: u8, b1: u8, b2: u8, b3: u8) -> u32 {
    match bo {
        ByteOrder::LittleEndian => (b0 as u32) | ((b1 as u32) << 8) | ((b2 as u32) << 16)
            | ((b3 as u32) << 24),
        ByteOrder::BigEndian => (b3 as u32) | ((b2 as u32) << 8) | ((b1 as u32) << 16)
            | ((b0 as u32) << 24),
    }
}

/// The 64-bit value read from eight bytes in the given order.
#[verifier::opaque]
pub open spec fn dec_u64(
    bo: ByteOrder,
    b0: u8,
    b1: u8,
    b2: u8,
    b3: u8,
    b4: u8,
    b5: u8,
    b6: u8,
    b7: u8,
) -> u64 {
    match bo {
        ByteOrder::LittleEndian => (b0 as u64) | ((b1 as u64) << 8) | ((b2 as u64) << 16)
            | ((b3 as u64) << 24) | ((b4 as u64) << 32) | ((b5 as u64) << 40)
            | ((b6 as u64) << 48) | ((b7 as u64) << 56),
        ByteOrder::BigEndian => (b7 as u64) | ((b6 as u64) << 8) | ((b5 as u64) << 16)
            | ((b4 as u64) << 24) | ((b3 as u64) << 32) | ((b2 as u64) << 40)
            | ((b1 as u64) << 48) | ((b0 as u64) << 56),
    }
}

/// Reads the order flag byte.
pub open spec fn parse_bo(s: Seq<u8>) -> Option<(ByteOrder, Seq<u8>)> {
    if s.len() >= 1 {
        if s[0] == 0 {
            Some((ByteOrder::BigEndian, s.skip(1)))
        } else if s[0] == 1 {
            Some((ByteOrder::LittleEndian, s.skip(1)))
        } else {
            None
        }
    } else {
        None
    }
}

/// Reads a 32-bit value.
pub open spec fn parse_u32(bo: ByteOrder, s: Seq<u8>) -> Option<(u32, Seq<u8>)> {
    if s.len() >= 4 {
        Some((dec_u32(bo, s[0], s[1], s[2], s[3]), s.skip(4)))
    } else {
        None
    }
}

/// Reads a 64-bit value.
pub open spec fn parse_u64(bo: ByteOrder, s: Seq<u8>) -> Option<(u64, Seq<u8>)> {
    if s.len() >= 8 {
        Some((dec_u64(bo, s[0], s[1], s[2], s[3], s[4], s[5], s[6], s[7]), s.skip(8)))
    } else {
        None
    }
}

/// Reads one coordinate: x then y.
pub open spec fn parse_coord(bo: ByteOrder, s: Seq<u8>) -> Option<(Coord, Seq<u8>)> {
    match parse_u64(bo, s) {
        None => None,
        Some((x, s1)) => match parse_u64(bo, s1) {
            None => None,
            Some((y, s2)) => Some((Coord { x, y }, s2)),
        },
    }
}

/// Prepends a prefix to the list a partial parse produced.
pub open spec fn opt_prepend<T>(pre: Seq<T>, o: Option<(Seq<T>, Seq<u8>)>) -> Option<
    (Seq<T>, Seq<u8>),
> {
    match o {
        None => None,
        Some((items, rest)) => Some((pre + items, rest)),
    }
}

/// Reads `n` coordinates.
#[verifier::opaque]
pub open spec fn parse_coords(bo: ByteOrder, n: nat, s: Seq<u8>) -> Option<(Seq<Coord>, Seq<u8>)>
    decreases n,
{
    if n == 0 {
        Some((Seq::empty(), s))
    } else {
        match parse_coord(bo, s) {
            None => None,
            Some((c, s1)) => opt_prepend(seq![c], parse_coords(bo, (n - 1) as nat, s1)),
        }
    }
}

/// Reads a coordinate list: its count, then that many coordinates.
pub open spec fn parse_coord_list(bo: ByteOrder, s: Seq<u8>) -> Option<(Seq<Coord>, Seq<u8>)> {
    match parse_u32(bo, s) {
        None => None,
        Some((n, s1)) => parse_coords(bo, n as nat, s1),
    }
}

/// Reads a coordinate list that must be shaped as a linear ring.
#[verifier::opaque]
pub open spec fn parse_ring(bo: ByteOrder, s: Seq<u8>) -> Option<(Seq<Coord>, Seq<u8>)> {
    match parse_coord_list(bo, s) {
        None => None,
        Some((cs, s1)) => if wf_ring(cs) {
            Some((cs, s1))
        } else {
            None
        },
    }
}

/// Reads `n` rings.
#[verifier::opaque]
pub open spec fn parse_rings(bo: ByteOrder, n: nat, s: Seq<u8>) -> Option<
    (Seq<Seq<Coord>>, Seq<u8>),
>
    decreases n,
{
    if n == 0 {
        Some((Seq::empty(), s))
    } else {
        match parse_ring(bo, s) {
            None => None,
            Some((r, s1)) => opt_prepend(seq![r], parse_rings(bo, (n - 1) as nat, s1)),
        }
    }
}

/// Reads a polygon body: its ring count, which must be positive, then its
/// exterior ring and its interior rings.
#[verifier::opaque]
pub open spec fn parse_poly_body(bo: ByteOrder, s: Seq<u8>) -> Option<(PolyV, Seq<u8>)> {
    match parse_u32(bo, s) {
        None => None,
        Some((n, s1)) => if n == 0 {
            None
        } else {
            match parse_ring(bo, s1) {
                None => None,
                Some((ext, s2)) => match parse_rings(bo, (n - 1) as nat, s2) {
                    None => None,
                    Some((ints, s3)) => Some((PolyV { exterior: ext, interiors: ints }, s3)),
                },
            }
        },
    }
}

/// Reads `n` polygons, each with its own header whose type code must be the
/// polygon code.
#[verifier::opaque]
pub open spec fn parse_polys(n: nat, s: Seq<u8>) -> Option<(Seq<PolyV>, Seq<u8>)>
    decreases n,
{
    if n == 0 {
        Some((Seq::empty(), s))
    } else {
        match parse_bo(s) {
            None => None,
            Some((bo, s1)) => match parse_u32(bo, s1) {
                None => None,
                Some((t, s2)) => if t != 3 {
                    None
                } else {
                    match parse_poly_body(bo, s2) {
                        None => None,
                        Some((p, s3)) => opt_prepend(seq![p], parse_polys((n - 1) as nat, s3)),
                    }
                },
            },
        }
    }
}

/// Reads one geometry: its order flag, its type code, and the payload the
/// code selects. A line string of exactly one coordinate is rejected, as
/// are rings that are not closed, so every parsed geometry is well formed.
pub open spec fn parse_geom(s: Seq<u8>) -> Option<(GeomV, Seq<u8>)> {
    match parse_bo(s) {
        None => None,
        Some((bo, s1)) => match parse_u32(bo, s1) {
            None => None,
            Some((t, s2)) => if t == 1 {
                match parse_coord(bo, s2) {
                    None => None,
                    Some((c, s3)) => Some((GeomV::Point(c), s3)),
                }
            } else if t == 2 {
                match parse_coord_list(bo, s2) {
                    None => None,
                    Some((cs, s3)) => if cs.len() == 1 {
                        None
                    } else {
                        Some((GeomV::LineString(cs), s3))
                    },
                }
            } else if t == 3 {
                match parse_poly_body(bo, s2) {
                    None => None,
                    Some((p, s3)) => Some((GeomV::Polygon(p), s3)),
                }
            } else if t == 6 {
                match parse_u32(bo, s2) {
                    None => None,
                    Some((n, s3)) => match parse_polys(n as nat, s3) {
                        None => None,
                        Some((ps, s4)) => Some((GeomV::MultiPolygon(ps), s4)),
                    },
                }
            } else {
                None
            },
        },
    }
}

/// Reading the order flag back from its own encoding yields the order.
proof fn lemma_parse_bo_rt(bo: ByteOrder, rest: Seq<u8>)
    ensures
        parse_bo(seq![bo_flag(bo)] + rest) == Some((bo, rest)),
{
    let s = seq![bo_flag(bo)] + rest;
    assert(s[0] == bo_flag(bo));
    assert(s.skip(1) =~= rest);
}

/// Reading four bytes back from the encoding of a 32-bit value yields it.
proof fn lemma_parse_u32_rt(bo: ByteOrder, v: u32, rest: Seq<u8>)
    ensures
        parse_u32(bo, enc_u32(bo, v) + rest) == Some((v, rest)),
{
    reveal(dec_u32);
    let s = enc_u32(bo, v) + rest;
    assert(s.skip(4) =~= rest);
    assert(s[0] == enc_u32(bo, v)[0] && s[1] == enc_u32(bo, v)[1] && s[2] == enc_u32(bo, v)[2]
        && s[3] == enc_u32(bo, v)[3]);
    assert((((v & 0xff) as u8) as u32) | ((((v >> 8) & 0xff) as u8) as u32) << 8
        | ((((v >> 16) & 0xff) as u8) as u32) << 16 | ((((v >> 24) & 0xff) as u8) as u32) << 24
        == v) by (bit_vector);
}

/// Reading eight bytes back from the encoding of a 64-bit value yields it.
proof fn lemma_parse_u64_rt(bo: ByteOrder, v: u64, rest: Seq<u8>)
    ensures
        parse_u64(bo, enc_u64(bo, v) + rest) == Some((v, rest)),
{
    reveal(dec_u64);
    let s = enc_u64(bo, v) + rest;
    assert(s.skip(8) =~= rest);
    assert(s[0] == enc_u64(bo, v)[0] && s[1] == enc_u64(bo, v)[1] && s[2] == enc_u64(bo, v)[2]
        && s[3] == enc_u64(bo, v)[3] && s[4] == enc_u64(bo, v)[4] && s[5] == enc_u64(bo, v)[5]
        && s[6] == enc_u64(bo, v)[6] && s[7] == enc_u64(bo, v)[7]);
    assert((((v & 0xff) as u8) as u64) | ((((v >> 8) & 0xff) as u8) as u64) << 8
        | ((((v >> 16) & 0xff) as u8) as u64) << 16 | ((((v >> 24) & 0xff) as u8) as u64) << 24
        | ((((v >> 32) & 0xff) as u8) as u64) << 32 | ((((v >> 40) & 0xff) as u8) as u64) << 40
        | ((((v >> 48) & 0xff) as u8) as u64) << 48 | ((((v >> 56) & 0xff) as u8) as u64) << 56
        == v) by (bit_vector);
}

/// Reading a coordinate back from its own encoding yields it.
proof fn lemma_parse_coord_rt(bo: ByteOrder, c: Coord, rest: Seq<u8>)
    ensures
        parse_coord(bo, enc_coord(bo, c) + rest) == Some((c, rest)),
{
    assert((enc_u64(bo, c.x) + enc_u64(bo, c.y)) + rest =~= enc_u64(bo, c.x) + (enc_u64(bo, c.y)
        + rest));
    lemma_parse_u64_rt(bo, c.x, enc_u64(bo, c.y) + rest);
    lemma_parse_u64_rt(bo, c.y, rest);
}

/// Reading the coordinates from position `i` on back from their own
/// encoding yields them.
proof fn lemma_parse_coords_rt(bo: ByteOrder, cs: Seq<Coord>, i: int, rest: Seq<u8>)
    requires
        0 <= i <= cs.len(),
    ensures
        parse_coords(bo, (cs.len() - i) as nat, enc_coords_from(bo, cs, i) + rest) == Some(
            (cs.skip(i), rest),
        ),
    decreases cs.len() - i,
{
    reveal(parse_coords);
    if i == cs.len() {
        assert(enc_coords_from(bo, cs, i) + rest =~= rest);
        assert(cs.skip(i) =~= Seq::<Coord>::empty());
    } else {
        let tail = enc_coords_from(bo, cs, i + 1);
        assert((enc_coord(bo, cs[i]) + tail) + rest =~= enc_coord(bo, cs[i]) + (tail + rest));
        lemma_parse_coord_rt(bo, cs[i], tail + rest);
        lemma_parse_coords_rt(bo, cs, i + 1, rest);
        assert(seq![cs[i]] + cs.skip(i + 1) =~= cs.skip(i));
    }
}

/// Reading a coordinate list back from its own encoding yields it.
proof fn lemma_parse_coord_list_rt(bo: ByteOrder, cs: Seq<Coord>, rest: Seq<u8>)
    requires
        cs.len() <= u32::MAX,
    ensures
        parse_coord_list(bo, enc_coord_list(bo, cs) + rest) == Some((cs, rest)),
{
    let body = enc_coords_from(bo, cs, 0);
    assert((enc_u32(bo, cs.len() as u32) + body) + rest =~= enc_u32(bo, cs.len() as u32) + (body
        + rest));
    lemma_parse_u32_rt(bo, cs.len() as u32, body + rest);
    lemma_parse_coords_rt(bo, cs, 0, rest);
    assert(cs.skip(0) =~= cs);
}

/// Reading a well-shaped ring back from its own encoding yields it.
proof fn lemma_parse_ring_rt(bo: ByteOrder, cs: Seq<Coord>, rest: Seq<u8>)
    requires
        cs.len() <= u32::MAX,
        wf_ring(cs),
    ensures
        parse_ring(bo, enc_coord_list(bo, cs) + rest) == Some((cs, rest)),
{
    reveal(parse_ring);
    lemma_parse_coord_list_rt(bo, cs, rest);
}

/// Reading the rings from position `i` on back from their own encoding
/// yields them.
proof fn lemma_parse_rings_rt(bo: ByteOrder, rs: Seq<Seq<Coord>>, i: int, rest: Seq<u8>)
    requires
        0 <= i <= rs.len(),
        forall|j: int| 0 <= j < rs.len() ==> wf_ring(#[trigger] rs[j]),
        forall|j: int| 0 <= j < rs.len() ==> (#[trigger] rs[j]).len() <= u32::MAX,
    ensures
        parse_rings(bo, (rs.len() - i) as nat, enc_rings_from(bo, rs, i) + rest) == Some(
            (rs.skip(i), rest),
        ),
    decreases rs.len() - i,
{
    reveal(parse_rings);
    if i == rs.len() {
        assert(enc_rings_from(bo, rs, i) + rest =~= rest);
        assert(rs.skip(i) =~= Seq::<Seq<Coord>>::empty());
    } else {
        let tail = enc_rings_from(bo, rs, i + 1);
        assert((enc_coord_list(bo, rs[i]) + tail) + rest =~= enc_coord_list(bo, rs[i]) + (tail
            + rest));
        lemma_parse_ring_rt(bo, rs[i], tail + rest);
        lemma_parse_rings_rt(bo, rs, i + 1, rest);
        assert(seq![rs[i]] + rs.skip(i + 1) =~= rs.skip(i));
    }
}

/// Reading a polygon body back from its own encoding yields the polygon.
proof fn lemma_parse_poly_body_rt(bo: ByteOrder, p: PolyV, rest: Seq<u8>)
    requires
        crate::geometry::wf_poly(p),
        poly_encodable(p),
    ensures
        parse_poly_body(bo, enc_poly_body(bo, p) + rest) == Some((p, rest)),
{
    reveal(parse_poly_body);
    let n = (p.interiors.len() + 1) as u32;
    let ext = enc_coord_list(bo, p.exterior);
    let ints = enc_rings_from(bo, p.interiors, 0);
    assert((enc_u32(bo, n) + ext + ints) + rest =~= enc_u32(bo, n) + (ext + (ints + rest)));
    lemma_parse_u32_rt(bo, n, ext + (ints + rest));
    assert(n != 0 && n as nat - 1 == p.interiors.len());
    lemma_parse_ring_rt(bo, p.exterior, ints + rest);
    lemma_parse_rings_rt(bo, p.interiors, 0, rest);
    assert(p.interiors.skip(0) =~= p.interiors);
}

/// Reading the polygons from position `i` on back from their own encoding
/// yields them.
#[verifier::rlimit(100)]
proof fn lemma_parse_polys_rt(bo: ByteOrder, ps: Seq<PolyV>, i: int, rest: Seq<u8>)
    requires
        0 <= i <= ps.len(),
        forall|j: int| 0 <= j < ps.len() ==> crate::geometry::wf_poly(#[trigger] ps[j]),
        forall|j: int| 0 <= j < ps.len() ==> poly_encodable(#[trigger] ps[j]),
    ensures
        parse_polys((ps.len() - i) as nat, enc_polys_from(bo, ps, i) + rest) == Some(
            (ps.skip(i), rest),
        ),
    decreases ps.len() - i,
{
    reveal(parse_polys);
    if i == ps.len() {
        assert(enc_polys_from(bo, ps, i) + rest =~= rest);
        assert(ps.skip(i) =~= Seq::<PolyV>::empty());
    } else {
        let body = enc_poly_body(bo, ps[i]);
        let tail = enc_polys_from(bo, ps, i + 1);
        assert((enc_header(bo, 3) + body + tail) + rest =~= seq![bo_flag(bo)] + (enc_u32(bo, 3)
            + (body + (tail + rest))));
        lemma_parse_bo_rt(bo, enc_u32(bo, 3) + (body + (tail + rest)));
        lemma_parse_u32_rt(bo, 3, body + (tail + rest));
        lemma_parse_poly_body_rt(bo, ps[i], tail + rest);
        lemma_parse_polys_rt(bo, ps, i + 1, rest);
        assert(seq![ps[i]] + ps.skip(i + 1) =~= ps.skip(i));
    }
}

/// Reading a point geometry back from its own encoding yields it.
proof fn lemma_parse_geom_point_rt(bo: ByteOrder, c: Coord, rest: Seq<u8>)
    ensures
        parse_geom((enc_header(bo, 1) + enc_coord(bo, c)) + rest) == Some((GeomV::Point(c), rest)),
{
    assert((enc_header(bo, 1) + enc_coord(bo, c)) + rest =~= seq![bo_flag(bo)] + (enc_u32(bo, 1)
        + (enc_coord(bo, c) + rest)));
    lemma_parse_bo_rt(bo, enc_u32(bo, 1) + (enc_coord(bo, c) + rest));
    lemma_parse_u32_rt(bo, 1, enc_coord(bo, c) + rest);
    lemma_parse_coord_rt(bo, c, rest);
}

/// Reading a line-string geometry back from its own encoding yields it.
proof fn lemma_parse_geom_line_rt(bo: ByteOrder, cs: Seq<Coord>, rest: Seq<u8>)
    requires
        cs.len() != 1,
        cs.len() <= u32::MAX,
    ensures
        parse_geom((enc_header(bo, 2) + enc_coord_list(bo, cs)) + rest) == Some(
            (GeomV::LineString(cs), rest),
        ),
{
    assert((enc_header(bo, 2) + enc_coord_list(bo, cs)) + rest =~= seq![bo_flag(bo)] + (enc_u32(
        bo,
        2,
    ) + (enc_coord_list(bo, cs) + rest)));
    lemma_parse_bo_rt(bo, enc_u32(bo, 2) + (enc_coord_list(bo, cs) + rest));
    lemma_parse_u32_rt(bo, 2, enc_coord_list(bo, cs) + rest);
    lemma_parse_coord_list_rt(bo, cs, rest);
}

/// Reading a polygon geometry back from its own encoding yields it.
#[verifier::rlimit(100)]
proof fn lemma_parse_geom_poly_rt(bo: ByteOrder, p: PolyV, rest: Seq<u8>)
    requires
        crate::geometry::wf_poly(p),
        poly_encodable(p),
    ensures
        parse_geom((enc_header(bo, 3) + enc_poly_body(bo, p)) + rest) == Some(
            (GeomV::Polygon(p), rest),
        ),
{
    assert((enc_header(bo, 3) + enc_poly_body(bo, p)) + rest =~= seq![bo_flag(bo)] + (enc_u32(
        bo,
        3,
    ) + (enc_poly_body(bo, p) + rest)));
    lemma_parse_bo_rt(bo, enc_u32(bo, 3) + (enc_poly_body(bo, p) + rest));
    lemma_parse_u32_rt(bo, 3, enc_poly_body(bo, p) + rest);
    lemma_parse_poly_body_rt(bo, p, rest);
}

/// Reading a multipolygon geometry back from its own encoding yields it.
#[verifier::rlimit(100)]
proof fn lemma_parse_geom_multi_rt(bo: ByteOrder, ps: Seq<PolyV>, rest: Seq<u8>)
    requires
        ps.len() <= u32::MAX,
        forall|j: int| 0 <= j < ps.len() ==> crate::geometry::wf_poly(#[trigger] ps[j]),
        forall|j: int| 0 <= j < ps.len() ==> poly_encodable(#[trigger] ps[j]),
    ensures
        parse_geom((enc_header(bo, 6) + enc_u32(bo, ps.len() as u32) + enc_polys_from(bo, ps, 0))
            + rest) == Some((GeomV::MultiPolygon(ps), rest)),
{
    let n = ps.len() as u32;
    let body = enc_polys_from(bo, ps, 0);
    assert((enc_header(bo, 6) + enc_u32(bo, n) + body) + rest =~= seq![bo_flag(bo)] + (enc_u32(
        bo,
        6,
    ) + (enc_u32(bo, n) + (body + rest))));
    lemma_parse_bo_rt(bo, enc_u32(bo, 6) + (enc_u32(bo, n) + (body + rest)));
    lemma_parse_u32_rt(bo, 6, enc_u32(bo, n) + (body + rest));
    lemma_parse_u32_rt(bo, n, body + rest);
    lemma_parse_polys_rt(bo, ps, 0, rest);
    assert(ps.skip(0) =~= ps);
}

/// Reading a whole geometry back from its own encoding yields its WKB form,
/// with the trailing bytes untouched.
proof fn lemma_parse_geom_rt(bo: ByteOrder, g: GeomV, rest: Seq<u8>)
    requires
        g.wf(),
        encodable(g),
    ensures
        parse_geom(enc_geom(bo, g) + rest) == Some((wkb_form(g), rest)),
{
    match g {
        GeomV::Point(c) => lemma_parse_geom_point_rt(bo, c, rest),
        GeomV::LineString(cs) => lemma_parse_geom_line_rt(bo, cs, rest),
        GeomV::LinearRing(cs) => lemma_parse_geom_line_rt(bo, cs, rest),
        GeomV::Polygon(p) => lemma_parse_geom_poly_rt(bo, p, rest),
        GeomV::MultiPolygon(ps) => lemma_parse_geom_multi_rt(bo, ps, rest),
    }
}

/// The WKB round-trip law: a well-formed geometry whose counts fit the
/// format, written in either byte order, is read back exactly, as its WKB
/// form (a linear ring comes back as the equal-coordinate line string), and
/// the whole buffer is consumed.
pub proof fn lemma_wkb_round_trip(bo: ByteOrder, g: GeomV)
    requires
        g.wf(),
        encodable(g),
    ensures
        parse_geom(enc_geom(bo, g)) == Some((wkb_form(g), Seq::<u8>::empty())),
{
    lemma_parse_geom_rt(bo, g, Seq::empty());
    assert(enc_geom(bo, g) + Seq::<u8>::empty() =~= enc_geom(bo, g));
}


/// Prepending one element then a prefix is prepending the pushed prefix.
proof fn lemma_opt_prepend_push<T>(pre: Seq<T>, x: T, o: Option<(Seq<T>, Seq<u8>)>)
    ensures
        opt_prepend(pre.push(x), o) == opt_prepend(pre, opt_prepend(seq![x], o)),
{
    match o {
        None => {},
        Some((items, rest)) => {
            assert(pre.push(x) + items =~= pre + (seq![x] + items));
        },
    }
}

/// Appends the four bytes of a 32-bit value.
fn push_u32(out: &mut Vec<u8>, bo: ByteOrder, v: u32)
    ensures
        final(out)@ == old(out)@ + enc_u32(bo, v),
{
    proof {
        assert(v & 0xff < 256 && (v >> 8) & 0xff < 256 && (v >> 16) & 0xff < 256 && (v >> 24)
            & 0xff < 256) by (bit_vector);
    }
    let b0 = (v & 0xff) as u8;
    let b1 = ((v >> 8) & 0xff) as u8;
    let b2 = ((v >> 16) & 0xff) as u8;
    let b3 = ((v >> 24) & 0xff) as u8;
    match bo {
        ByteOrder::LittleEndian => {
            out.push(b0);
            out.push(b1);
            out.push(b2);
            out.push(b3);
        },
        ByteOrder::BigEndian => {
            out.push(b3);
            out.push(b2);
            out.push(b1);
            out.push(b0);
        },
    }
    proof {
        assert(out@ =~= old(out)@ + enc_u32(bo, v));
    }
}

/// Appends the eight bytes of a 64-bit value.
fn push_u64(out: &mut Vec<u8>, bo: ByteOrder, v: u64)
    ensures
        final(out)@ == old(out)@ + enc_u64(bo, v),
{
    proof {
        assert(v & 0xff < 256 && (v >> 8) & 0xff < 256 && (v >> 16) & 0xff < 256 && (v >> 24)
            & 0xff < 256 && (v >> 32) & 0xff < 256 && (v >> 40) & 0xff < 256 && (v >> 48) & 0xff
            < 256 && (v >> 56) & 0xff < 256) by (bit_vector);
    }
    let b0 = (v & 0xff) as u8;
    let b1 = ((v >> 8) & 0xff) as u8;
    let b2 = ((v >> 16) & 0xff) as u8;
    let b3 = ((v >> 24) & 0xff) as u8;
    let b4 = ((v >> 32) & 0xff) as u8;
    let b5 = ((v >> 40) & 0xff) as u8;
    let b6 = ((v >> 48) & 0xff) as u8;
    let b7 = ((v >> 56) & 0xff) as u8;
    match bo {
        ByteOrder::LittleEndian => {
            out.push(b0);
            out.push(b1);
            out.push(b2);
            out.push(b3);
            out.push(b4);
            out.push(b5);
            out.push(b6);
            out.push(b7);
        },
        ByteOrder::BigEndian => {
            out.push(b7);
            out.push(b6);
            out.push(b5);
            out.push(b4);
            out.push(b3);
            out.push(b2);
            out.push(b1);
            out.push(b0);
        },
    }
    proof {
        assert(out@ =~= old(out)@ + enc_u64(bo, v));
    }
}

/// Appends the sixteen bytes of one coordinate.
fn push_coord(out: &mut Vec<u8>, bo: ByteOrder, c: Coord)
    ensures
        final(out)@ == old(out)@ + enc_coord(bo, c),
{
    push_u64(out, bo, c.x);
    push_u64(out, bo, c.y);
    proof {
        assert((old(out)@ + enc_u64(bo, c.x)) + enc_u64(bo, c.y) =~= old(out)@ + (enc_u64(bo, c.x)
            + enc_u64(bo, c.y)));
    }
}

/// Appends the coordinates of a sequence, in order.
#[verifier::loop_isolation(false)]
fn push_coords(out: &mut Vec<u8>, bo: ByteOrder, seq: &CoordSeq)
    ensures
        final(out)@ == old(out)@ + enc_coords_from(bo, seq@, 0),
{
    let n = seq.len();
    let mut k: usize = 0;
    while k < n
        invariant
            k <= n,
            out@ + enc_coords_from(bo, seq@, k as int) == old(out)@ + enc_coords_from(bo, seq@, 0),
        decreases n - k,
    {
        let ghost pre = out@;
        push_coord(out, bo, seq.coord(k));
        proof {
            assert((pre + enc_coord(bo, seq@[k as int])) + enc_coords_from(bo, seq@, k as int + 1)
                =~= pre + (enc_coord(bo, seq@[k as int]) + enc_coords_from(bo, seq@, k as int
                + 1)));
        }
        k = k + 1;
    }
    proof {
        assert(out@ + enc_coords_from(bo, seq@, n as int) =~= out@);
    }
}

/// Appends a coordinate list: count, then coordinates.
fn push_coord_list(out: &mut Vec<u8>, bo: ByteOrder, seq: &CoordSeq)
    requires
        seq@.len() <= u32::MAX,
    ensures
        final(out)@ == old(out)@ + enc_coord_list(bo, seq@),
{
    let n = seq.len();
    push_u32(out, bo, n as u32);
    push_coords(out, bo, seq);
    proof {
        assert((old(out)@ + enc_u32(bo, seq@.len() as u32)) + enc_coords_from(bo, seq@, 0)
            =~= old(out)@ + (enc_u32(bo, seq@.len() as u32) + enc_coords_from(bo, seq@, 0)));
    }
}

/// Appends a geometry header: flag byte, then type code.
fn push_header(out: &mut Vec<u8>, bo: ByteOrder, t: u32)
    ensures
        final(out)@ == old(out)@ + enc_header(bo, t),
{
    match bo {
        ByteOrder::BigEndian => out.push(0u8),
        ByteOrder::LittleEndian => out.push(1u8),
    }
    push_u32(out, bo, t);
    proof {
        assert(out@ =~= old(out)@ + (seq![bo_flag(bo)] + enc_u32(bo, t)));
    }
}

/// Whether the polygon's counts fit the 32-bit fields of the format.
#[verifier::loop_isolation(false)]
fn check_poly(p: &PolyGeom) -> (b: bool)
    ensures
        b == poly_encodable(p@),
{
    if p.exterior.len() > u32::MAX as usize {
        return false;
    }
    let n = p.interiors.len();
    if n > (u32::MAX - 1) as usize {
        return false;
    }
    let mut k: usize = 0;
    while k < n
        invariant
            k <= n,
            forall|i: int| 0 <= i < k ==> (#[trigger] p@.interiors[i]).len() <= u32::MAX,
        decreases n - k,
    {
        if p.interiors[k].len() > u32::MAX as usize {
            proof {
                assert(p@.interiors[k as int].len() > u32::MAX);
            }
            return false;
        }
        k = k + 1;
    }
    true
}

/// Appends a polygon body: ring count, exterior, then interior rings.
#[verifier::loop_isolation(false)]
fn push_poly_body(out: &mut Vec<u8>, bo: ByteOrder, p: &PolyGeom)
    requires
        poly_encodable(p@),
    ensures
        final(out)@ == old(out)@ + enc_poly_body(bo, p@),
{
    let n = p.interiors.len();
    push_u32(out, bo, (n + 1) as u32);
    push_coord_list(out, bo, &p.exterior);
    proof {
        assert(out@ + enc_rings_from(bo, p@.interiors, 0) =~= old(out)@ + enc_poly_body(bo, p@));
    }
    let mut k: usize = 0;
    while k < n
        invariant
            k <= n,
            out@ + enc_rings_from(bo, p@.interiors, k as int) == old(out)@ + enc_poly_body(
                bo,
                p@,
            ),
        decreases n - k,
    {
        let ghost pre = out@;
        push_coord_list(out, bo, &p.interiors[k]);
        proof {
            assert((pre + enc_coord_list(bo, p@.interiors[k as int])) + enc_rings_from(
                bo,
                p@.interiors,
                k as int + 1,
            ) =~= pre + (enc_coord_list(bo, p@.interiors[k as int]) + enc_rings_from(
                bo,
                p@.interiors,
                k as int + 1,
            )));
        }
        k = k + 1;
    }
    proof {
        assert(out@ + enc_rings_from(bo, p@.interiors, n as int) =~= out@);
    }
}

/// Serializes a geometry as WKB in the given order; fails exactly when one
/// of its counts does not fit the format's 32-bit fields.
#[verifier::loop_isolation(false)]
#[verifier::rlimit(50)]
pub(crate) fn encode_geom(bo: ByteOrder, g: &GGeom) -> (r: Option<Vec<u8>>)
    ensures
        (r is Some) <==> encodable(g@),
        r matches Some(b) ==> b@ == enc_geom(bo, g@),
{
    let mut out: Vec<u8> = Vec::new();
    match g {
        GGeom::Point(c) => {
            push_header(&mut out, bo, 1);
            push_coord(&mut out, bo, *c);
            proof {
                assert(out@ =~= enc_geom(bo, g@));
            }
            Some(out)
        },
        GGeom::LineString(s) => {
            if s.len() > u32::MAX as usize {
                return None;
            }
            push_header(&mut out, bo, 2);
            push_coord_list(&mut out, bo, s);
            proof {
                assert(out@ =~= enc_geom(bo, g@));
            }
            Some(out)
        },
        GGeom::LinearRing(s) => {
            if s.len() > u32::MAX as usize {
                return None;
            }
            push_header(&mut out, bo, 2);
            push_coord_list(&mut out, bo, s);
            proof {
                assert(out@ =~= enc_geom(bo, g@));
            }
            Some(out)
        },
        GGeom::Polygon(p) => {
            if !check_poly(p) {
                return None;
            }
            push_header(&mut out, bo, 3);
            push_poly_body(&mut out, bo, p);
            proof {
                assert(out@ =~= enc_geom(bo, g@));
            }
            Some(out)
        },
        GGeom::MultiPolygon(ps) => {
            let ghost psv = g@->MultiPolygon_0;
            let n = ps.len();
            if n > u32::MAX as usize {
                return None;
            }
            let mut k: usize = 0;
            while k < n
                invariant
                    k <= n,
                    forall|i: int| 0 <= i < k ==> poly_encodable(#[trigger] psv[i]),
                decreases n - k,
            {
                if !check_poly(&ps[k]) {
                    proof {
                        assert(!poly_encodable(psv[k as int]));
                    }
                    return None;
                }
                k = k + 1;
            }
            push_header(&mut out, bo, 6);
            push_u32(&mut out, bo, n as u32);
            proof {
                assert(out@ + enc_polys_from(bo, psv, 0) =~= enc_geom(bo, g@));
            }
            let mut j: usize = 0;
            while j < n
                invariant
                    j <= n,
                    out@ + enc_polys_from(bo, psv, j as int) == enc_geom(bo, g@),
                decreases n - j,
            {
                let ghost pre = out@;
                push_header(&mut out, bo, 3);
                push_poly_body(&mut out, bo, &ps[j]);
                proof {
                    assert(((pre + enc_header(bo, 3)) + enc_poly_body(bo, psv[j as int]))
                        + enc_polys_from(bo, psv, j as int + 1) =~= pre + ((enc_header(bo, 3)
                        + enc_poly_body(bo, psv[j as int])) + enc_polys_from(
                        bo,
                        psv,
                        j as int + 1,
                    )));
                }
                j = j + 1;
            }
            proof {
                assert(out@ + enc_polys_from(bo, psv, n as int) =~= out@);
            }
            Some(out)
        },
    }
}


/// Reads the order flag at position `i`.
fn parse_bo_at(s: &[u8], i: usize) -> (r: Option<(ByteOrder, usize)>)
    requires
        i <= s@.len(),
    ensures
        match r {
            Some((bo, j)) => i <= j <= s@.len() && parse_bo(s@.skip(i as int)) == Some(
                (bo, s@.skip(j as int)),
            ),
            None => parse_bo(s@.skip(i as int)) is None,
        },
{
    if s.len() - i >= 1 {
        proof {
            assert(s@.skip(i as int)[0] == s@[i as int]);
            assert(s@.skip(i as int).skip(1) =~= s@.skip(i as int + 1));
        }
        let b = s[i];
        if b == 0 {
            Some((ByteOrder::BigEndian, i + 1))
        } else if b == 1 {
            Some((ByteOrder::LittleEndian, i + 1))
        } else {
            None
        }
    } else {
        None
    }
}

/// Reads a 32-bit value at position `i`.
fn parse_u32_at(bo: ByteOrder, s: &[u8], i: usize) -> (r: Option<(u32, usize)>)
    requires
        i <= s@.len(),
    ensures
        match r {
            Some((v, j)) => i <= j <= s@.len() && parse_u32(bo, s@.skip(i as int)) == Some(
                (v, s@.skip(j as int)),
            ),
            None => parse_u32(bo, s@.skip(i as int)) is None,
        },
{
    if s.len() - i >= 4 {
        let b0 = s[i];
        let b1 = s[i + 1];
        let b2 = s[i + 2];
        let b3 = s[i + 3];
        let v: u32 = match bo {
            ByteOrder::LittleEndian => (b0 as u32) | ((b1 as u32) << 8) | ((b2 as u32) << 16)
                | ((b3 as u32) << 24),
            ByteOrder::BigEndian => (b3 as u32) | ((b2 as u32) << 8) | ((b1 as u32) << 16) | ((
            b0 as u32) << 24),
        };
        proof {
            reveal(dec_u32);
            let t = s@.skip(i as int);
            assert(t[0] == s@[i as int] && t[1] == s@[i as int + 1] && t[2] == s@[i as int + 2]
                && t[3] == s@[i as int + 3]);
            assert(t.skip(4) =~= s@.skip(i as int + 4));
        }
        Some((v, i + 4))
    } else {
        None
    }
}

/// Reads a 64-bit value at position `i`.
fn parse_u64_at(bo: ByteOrder, s: &[u8], i: usize) -> (r: Option<(u64, usize)>)
    requires
        i <= s@.len(),
    ensures
        match r {
            Some((v, j)) => i <= j <= s@.len() && parse_u64(bo, s@.skip(i as int)) == Some(
                (v, s@.skip(j as int)),
            ),
            None => parse_u64(bo, s@.skip(i as int)) is None,
        },
{
    if s.len() - i >= 8 {
        let b0 = s[i];
        let b1 = s[i + 1];
        let b2 = s[i + 2];
        let b3 = s[i + 3];
        let b4 = s[i + 4];
        let b5 = s[i + 5];
        let b6 = s[i + 6];
        let b7 = s[i + 7];
        let v: u64 = match bo {
            ByteOrder::LittleEndian => (b0 as u64) | ((b1 as u64) << 8) | ((b2 as u64) << 16) | ((
            b3 as u64) << 24) | ((b4 as u64) << 32) | ((b5 as u64) << 40) | ((b6 as u64) << 48)
                | ((b7 as u64) << 56),
            ByteOrder::BigEndian => (b7 as u64) | ((b6 as u64) << 8) | ((b5 as u64) << 16) | ((
            b4 as u64) << 24) | ((b3 as u64) << 32) | ((b2 as u64) << 40) | ((b1 as u64) << 48)
                | ((b0 as u64) << 56),
        };
        proof {
            reveal(dec_u64);
            let t = s@.skip(i as int);
            assert(t[0] == s@[i as int] && t[1] == s@[i as int + 1] && t[2] == s@[i as int + 2]
                && t[3] == s@[i as int + 3] && t[4] == s@[i as int + 4] && t[5] == s@[i as int + 5]
                && t[6] == s@[i as int + 6] && t[7] == s@[i as int + 7]);
            assert(t.skip(8) =~= s@.skip(i as int + 8));
        }
        Some((v, i + 8))
    } else {
        None
    }
}

/// Reads one coordinate at position `i`.
fn parse_coord_at(bo: ByteOrder, s: &[u8], i: usize) -> (r: Option<(Coord, usize)>)
    requires
        i <= s@.len(),
    ensures
        match r {
            Some((c, j)) => i <= j <= s@.len() && parse_coord(bo, s@.skip(i as int)) == Some(
                (c, s@.skip(j as int)),
            ),
            None => parse_coord(bo, s@.skip(i as int)) is None,
        },
{
    match parse_u64_at(bo, s, i) {
        None => None,
        Some((x, j)) => match parse_u64_at(bo, s, j) {
            None => None,
            Some((y, k)) => Some((Coord { x, y }, k)),
        },
    }
}

/// Reads `n` coordinates at position `i`.
#[verifier::loop_isolation(false)]
fn parse_coords_at(bo: ByteOrder, s: &[u8], i: usize, n: u32) -> (r: Option<(Vec<Coord>, usize)>)
    requires
        i <= s@.len(),
    ensures
        match r {
            Some((cs, j)) => i <= j <= s@.len() && parse_coords(bo, n as nat, s@.skip(i as int))
                == Some((cs@, s@.skip(j as int))),
            None => parse_coords(bo, n as nat, s@.skip(i as int)) is None,
        },
{
    let mut acc: Vec<Coord> = Vec::new();
    let mut cur: usize = i;
    let mut k: u32 = 0;
    while k < n
        invariant
            i <= cur <= s@.len(),
            k <= n,
            parse_coords(bo, n as nat, s@.skip(i as int)) == opt_prepend(
                acc@,
                parse_coords(bo, (n - k) as nat, s@.skip(cur as int)),
            ),
        decreases n - k,
    {
        proof {
            reveal(parse_coords);
        }
        match parse_coord_at(bo, s, cur) {
            None => {
                return None;
            },
            Some((c, j)) => {
                proof {
                    lemma_opt_prepend_push(
                        acc@,
                        c,
                        parse_coords(bo, (n - k - 1) as nat, s@.skip(j as int)),
                    );
                }
                acc.push(c);
                cur = j;
                k = k + 1;
            },
        }
    }
    proof {
        reveal(parse_coords);
        assert(acc@ + Seq::<Coord>::empty() =~= acc@);
    }
    Some((acc, cur))
}

/// Reads a coordinate list at position `i`.
fn parse_coord_list_at(bo: ByteOrder, s: &[u8], i: usize) -> (r: Option<(Vec<Coord>, usize)>)
    requires
        i <= s@.len(),
    ensures
        match r {
            Some((cs, j)) => i <= j <= s@.len() && parse_coord_list(bo, s@.skip(i as int)) == Some(
                (cs@, s@.skip(j as int)),
            ),
            None => parse_coord_list(bo, s@.skip(i as int)) is None,
        },
{
    match parse_u32_at(bo, s, i) {
        None => None,
        Some((n, j)) => parse_coords_at(bo, s, j, n),
    }
}

/// Reads a ring at position `i`: a coordinate list shaped as a linear ring.
fn parse_ring_at(bo: ByteOrder, s: &[u8], i: usize) -> (r: Option<(Vec<Coord>, usize)>)
    requires
        i <= s@.len(),
    ensures
        match r {
            Some((cs, j)) => i <= j <= s@.len() && parse_ring(bo, s@.skip(i as int)) == Some(
                (cs@, s@.skip(j as int)),
            ) && wf_ring(cs@),
            None => parse_ring(bo, s@.skip(i as int)) is None,
        },
{
    proof {
        reveal(parse_ring);
    }
    match parse_coord_list_at(bo, s, i) {
        None => None,
        Some((cs, j)) => {
            let len = cs.len();
            let ring_ok: bool = if len == 0 {
                true
            } else if len >= 4 {
                cs[0] == cs[len - 1]
            } else {
                false
            };
            if ring_ok {
                Some((cs, j))
            } else {
                None
            }
        },
    }
}

/// Reads a polygon body at position `i`.
#[verifier::loop_isolation(false)]
#[verifier::rlimit(50)]
fn parse_poly_body_at(bo: ByteOrder, s: &[u8], i: usize) -> (r: Option<(PolyGeom, usize)>)
    requires
        i <= s@.len(),
    ensures
        match r {
            Some((p, j)) => i <= j <= s@.len() && parse_poly_body(bo, s@.skip(i as int)) == Some(
                (p@, s@.skip(j as int)),
            ),
            None => parse_poly_body(bo, s@.skip(i as int)) is None,
        },
{
    proof {
        reveal(parse_poly_body);
    }
    let (n, j0) = match parse_u32_at(bo, s, i) {
        None => {
            return None;
        },
        Some(v) => v,
    };
    if n == 0 {
        return None;
    }
    let (ext, j1) = match parse_ring_at(bo, s, j0) {
        None => {
            return None;
        },
        Some(v) => v,
    };
    let mut acc: Vec<CoordSeq> = Vec::new();
    let mut cur: usize = j1;
    let mut k: u32 = 0;
    let m = n - 1;
    while k < m
        invariant
            j1 <= cur <= s@.len(),
            k <= m,
            parse_rings(bo, m as nat, s@.skip(j1 as int)) == opt_prepend(
                acc@.map_values(|q: CoordSeq| q@),
                parse_rings(bo, (m - k) as nat, s@.skip(cur as int)),
            ),
        decreases m - k,
    {
        proof {
            reveal(parse_rings);
        }
        match parse_ring_at(bo, s, cur) {
            None => {
                return None;
            },
            Some((ring, j)) => {
                proof {
                    lemma_opt_prepend_push(
                        acc@.map_values(|q: CoordSeq| q@),
                        ring@,
                        parse_rings(bo, (m - k - 1) as nat, s@.skip(j as int)),
                    );
                }
                let ghost accv = acc@;
                acc.push(CoordSeq::from_coords(ring));
                proof {
                    assert(acc@.map_values(|q: CoordSeq| q@) =~= accv.map_values(
                        |q: CoordSeq| q@,
                    ).push(ring@));
                }
                cur = j;
                k = k + 1;
            },
        }
    }
    proof {
        reveal(parse_rings);
        assert(acc@.map_values(|q: CoordSeq| q@) + Seq::<Seq<Coord>>::empty() =~= acc@.map_values(
            |q: CoordSeq| q@,
        ));
    }
    let p = PolyGeom { exterior: CoordSeq::from_coords(ext), interiors: acc };
    Some((p, cur))
}

/// Parses one geometry from the head of a WKB buffer; trailing bytes are
/// left unread.
#[verifier::loop_isolation(false)]
#[verifier::rlimit(50)]
pub(crate) fn decode_geom(s: &[u8]) -> (r: Option<GGeom>)
    ensures
        match r {
            Some(g) => parse_geom(s@) matches Some(pr) && g@ == pr.0,
            None => parse_geom(s@) is None,
        },
{
    proof {
        assert(s@.skip(0) =~= s@);
    }
    let (bo, j0) = match parse_bo_at(s, 0) {
        None => {
            return None;
        },
        Some(v) => v,
    };
    let (t, j1) = match parse_u32_at(bo, s, j0) {
        None => {
            return None;
        },
        Some(v) => v,
    };
    if t == 1 {
        match parse_coord_at(bo, s, j1) {
            None => None,
            Some((c, _)) => Some(GGeom::Point(c)),
        }
    } else if t == 2 {
        match parse_coord_list_at(bo, s, j1) {
            None => None,
            Some((cs, _)) => {
                if cs.len() == 1 {
                    return None;
                }
                Some(GGeom::LineString(CoordSeq::from_coords(cs)))
            },
        }
    } else if t == 3 {
        match parse_poly_body_at(bo, s, j1) {
            None => None,
            Some((p, _)) => Some(GGeom::Polygon(p)),
        }
    } else if t == 6 {
        let (n, j2) = match parse_u32_at(bo, s, j1) {
            None => {
                return None;
            },
            Some(v) => v,
        };
        let mut acc: Vec<PolyGeom> = Vec::new();
        let mut cur: usize = j2;
        let mut k: u32 = 0;
        while k < n
            invariant
                j2 <= cur <= s@.len(),
                k <= n,
                parse_polys(n as nat, s@.skip(j2 as int)) == opt_prepend(
                    acc@.map_values(|q: PolyGeom| q@),
                    parse_polys((n - k) as nat, s@.skip(cur as int)),
                ),
            decreases n - k,
        {
            proof {
                reveal(parse_polys);
            }
            let (bo2, i0) = match parse_bo_at(s, cur) {
                None => {
                    return None;
                },
                Some(v) => v,
            };
            let (t2, i1) = match parse_u32_at(bo2, s, i0) {
                None => {
                    return None;
                },
                Some(v) => v,
            };
            if t2 != 3 {
                return None;
            }
            match parse_poly_body_at(bo2, s, i1) {
                None => {
                    return None;
                },
                Some((p, j)) => {
                    proof {
                        lemma_opt_prepend_push(
                            acc@.map_values(|q: PolyGeom| q@),
                            p@,
                            parse_polys((n - k - 1) as nat, s@.skip(j as int)),
                        );
                    }
                    let ghost accv = acc@;
                    acc.push(p);
                    proof {
                        assert(acc@.map_values(|q: PolyGeom| q@) =~= accv.map_values(
                            |q: PolyGeom| q@,
                        ).push(p@));
                    }
                    cur = j;
                    k = k + 1;
                },
            }
        }
        proof {
            reveal(parse_polys);
            assert(acc@.map_values(|q: PolyGeom| q@) + Seq::<PolyV>::empty() =~= acc@.map_values(
                |q: PolyGeom| q@,
            ));
        }
        Some(GGeom::MultiPolygon(acc))
    } else {
        None
    }
}

} // verus!

//! Opaque engine geometries: construction and structural rules.

use vstd::prelude::*;

use crate::coord_seq::{Coord, CoordSeq};
use crate::error::{Error, GResult};

verus! {

/// The abstract value of a polygon: one exterior ring and the ordered list
/// of its interior rings.
pub ghost struct PolyV {
    pub exterior: Seq<Coord>,
    pub interiors: Seq<Seq<Coord>>,
}

/// The abstract value of a geometry.
pub ghost enum GeomV {
    Point(Coord),
    LineString(Seq<Coord>),
    LinearRing(Seq<Coord>),
    Polygon(PolyV),
    MultiPolygon(Seq<PolyV>),
}

/// A coordinate list shaped as a linear ring: either empty, or at least four
/// coordinates whose first and last entries coincide.
pub open spec fn wf_ring(s: Seq<Coord>) -> bool {
    s.len() == 0 || (s.len() >= 4 && s[0] == s[s.len() - 1])
}

/// Every ring of the polygon is shaped as a linear ring.
pub open spec fn wf_poly(p: PolyV) -> bool {
    &&& wf_ring(p.exterior)
    &&& forall|i: int| 0 <= i < p.interiors.len() ==> wf_ring(#[trigger] p.interiors[i])
}

impl GeomV {
    /// The structural rules that every geometry built by this crate obeys:
    /// line strings never hold exactly one coordinate, and polygon rings are
    /// shaped as linear rings.
    pub open spec fn wf(self) -> bool {
        match self {
            GeomV::Point(_) => true,
            GeomV::LineString(s) => s.len() != 1,
            GeomV::LinearRing(s) => wf_ring(s),
            GeomV::Polygon(p) => wf_poly(p),
            GeomV::MultiPolygon(ps) => forall|i: int|
                0 <= i < ps.len() ==> wf_poly(#[trigger] ps[i]),
        }
    }
}

/// The rings of a polygon geometry.
#[derive(Debug)]
pub struct PolyGeom {
    pub exterior: CoordSeq,
    pub interiors: Vec<CoordSeq>,
}

impl View for PolyGeom {
    type V = PolyV;

    open spec fn view(&self) -> PolyV {
        PolyV {
            exterior: self.exterior@,
            interiors: self.interiors@.map_values(|s: CoordSeq| s@),
        }
    }
}

/// A geometry, owned exclusively by whichever scope created it. A polygon
/// owns its exterior and interior rings; a multipolygon owns its polygons.
#[derive(Debug)]
pub enum GGeom {
    Point(Coord),
    LineString(CoordSeq),
    LinearRing(CoordSeq),
    Polygon(PolyGeom),
    MultiPolygon(Vec<PolyGeom>),
}

impl View for GGeom {
    type V = GeomV;

    open spec fn view(&self) -> GeomV {
        match self {
            GGeom::Point(c) => GeomV::Point(*c),
            GGeom::LineString(s) => GeomV::LineString(s@),
            GGeom::LinearRing(s) => GeomV::LinearRing(s@),
            GGeom::Polygon(p) => GeomV::Polygon(p@),
            GGeom::MultiPolygon(ps) => GeomV::MultiPolygon(
                ps@.map_values(|p: PolyGeom| p@),
            ),
        }
    }
}

impl GGeom {
    /// Builds a point geometry from one coordinate.
    pub fn create_point(coord: Coord) -> (r: GGeom)
        ensures
            r@ == GeomV::Point(coord),
            r@.wf(),
    {
        GGeom::Point(coord)
    }

    /// Builds a line string from a coordinate sequence, consuming it.
    ///
    /// A line string must hold zero or at least two coordinates; a sequence
    /// of exactly one is rejected.
    pub fn create_line_string(seq: CoordSeq) -> (r: GResult<GGeom>)
        ensures
            r is Ok <==> seq@.len() != 1,
            r matches Ok(g) ==> g@ == GeomV::LineString(seq@) && g@.wf(),
            r matches Err(e) ==> e matches Error::GenericError(m)
                && m@ == "a LineString must have 0 or more than 1 coordinates"@,
    {
        if seq.len() == 1 {
            Err(Error::GenericError(
                "a LineString must have 0 or more than 1 coordinates".to_string(),
            ))
        } else {
            Ok(GGeom::LineString(seq))
        }
    }

    /// Builds a linear ring from a coordinate sequence, consuming it.
    ///
    /// The sequence must already be shaped as a ring: empty, or at least
    /// four coordinates with the first and last equal.
    pub fn create_linear_ring(seq: CoordSeq) -> (r: GResult<GGeom>)
        ensures
            r is Ok <==> wf_ring(seq@),
            r matches Ok(g) ==> g@ == GeomV::LinearRing(seq@) && g@.wf(),
            r matches Err(e) ==> e matches Error::GenericError(m)
                && m@ == "a LinearRing must be closed with 0 or at least 4 coordinates"@,
    {
        let n = seq.len();
        let ring_ok: bool = if n == 0 {
            true
        } else if n >= 4 {
            seq.coord(0) == seq.coord(n - 1)
        } else {
            false
        };
        if ring_ok {
            Ok(GGeom::LinearRing(seq))
        } else {
            Err(Error::GenericError(
                "a LinearRing must be closed with 0 or at least 4 coordinates".to_string(),
            ))
        }
    }

    /// Builds a polygon that takes ownership of its exterior ring and of the
    /// ordered list of its interior rings.
    ///
    /// Every argument must be a linear ring geometry.
    #[verifier::loop_isolation(false)]
    pub fn create_polygon(exterior: GGeom, mut interiors: Vec<GGeom>) -> (r: GResult<GGeom>)
        ensures
            r is Ok <==> (exterior@ matches GeomV::LinearRing(_)
                && forall|i: int| 0 <= i < interiors@.len()
                    ==> (#[trigger] interiors@[i]@) matches GeomV::LinearRing(_)),
            r matches Ok(g) ==> {
                &&& exterior@ matches GeomV::LinearRing(ext)
                    && g@ == GeomV::Polygon(PolyV {
                        exterior: ext,
                        interiors: Seq::new(
                            interiors@.len(),
                            |i: int| interiors@[i]@->LinearRing_0,
                        ),
                    })
                &&& exterior@.wf() && (forall|i: int| 0 <= i < interiors@.len()
                        ==> (#[trigger] interiors@[i]@).wf()) ==> g@.wf()
            },
            r matches Err(e) ==> e matches Error::GenericError(m)
                && m@ == "a Polygon must be built from LinearRing geometries"@,
    {
        let mut rings: Vec<CoordSeq> = Vec::new();
        let exterior_seq = match exterior {
            GGeom::LinearRing(s) => s,
            _ => {
                return Err(Error::GenericError(
                    "a Polygon must be built from LinearRing geometries".to_string(),
                ));
            },
        };
        let n = interiors.len();
        let ghost all = interiors@;
        let mut k: usize = 0;
        while k < n
            invariant
                k <= n,
                n == all.len(),
                interiors@ == all.skip(k as int),
                rings@.len() == k,
                forall|i: int| 0 <= i < k ==> (#[trigger] all[i]@) matches GeomV::LinearRing(_),
                forall|i: int| 0 <= i < k ==> rings@[i]@ == all[i]@->LinearRing_0,
            decreases n - k,
        {
            let g = interiors.remove(0);
            proof {
                assert(all.skip(k as int)[0] == all[k as int]);
                assert(interiors@ =~= all.skip(k as int + 1));
            }
            match g {
                GGeom::LinearRing(s) => {
                    rings.push(s);
                },
                _ => {
                    proof {
                        assert(!((all[k as int]@) matches GeomV::LinearRing(_)));
                        assert(!(forall|i: int| 0 <= i < all.len()
                            ==> (#[trigger] all[i]@) matches GeomV::LinearRing(_)));
                    }
                    return Err(Error::GenericError(
                        "a Polygon must be built from LinearRing geometries".to_string(),
                    ));
                },
            }
            k = k + 1;
        }
        let poly = PolyGeom { exterior: exterior_seq, interiors: rings };
        proof {
            assert(poly@.interiors =~= Seq::new(all.len(), |i: int| all[i]@->LinearRing_0));
        }
        Ok(GGeom::Polygon(poly))
    }

    /// Builds a multipolygon that takes ownership of the given polygons, in
    /// their original order.
    ///
    /// Every argument must be a polygon geometry.
    #[verifier::loop_isolation(false)]
    pub fn create_multipolygon(mut polygons: Vec<GGeom>) -> (r: GResult<GGeom>)
        ensures
            r is Ok <==> (forall|i: int| 0 <= i < polygons@.len()
                ==> (#[trigger] polygons@[i]@) matches GeomV::Polygon(_)),
            r matches Ok(g) ==> {
                &&& g@ == GeomV::MultiPolygon(Seq::new(
                    polygons@.len(),
                    |i: int| polygons@[i]@->Polygon_0,
                ))
                &&& (forall|i: int| 0 <= i < polygons@.len()
                        ==> (#[trigger] polygons@[i]@).wf()) ==> g@.wf()
            },
            r matches Err(e) ==> e matches Error::GenericError(m)
                && m@ == "a MultiPolygon must be built from Polygon geometries"@,
    {
        let mut polys: Vec<PolyGeom> = Vec::new();
        let n = polygons.len();
        let ghost all = polygons@;
        let mut k: usize = 0;
        while k < n
            invariant
                k <= n,
                n == all.len(),
                polygons@ == all.skip(k as int),
                polys@.len() == k,
                forall|i: int| 0 <= i < k ==> (#[trigger] all[i]@) matches GeomV::Polygon(_),
                forall|i: int| 0 <= i < k ==> polys@[i]@ == all[i]@->Polygon_0,
            decreases n - k,
        {
            let g = polygons.remove(0);
            proof {
                assert(all.skip(k as int)[0] == all[k as int]);
                assert(polygons@ =~= all.skip(k as int + 1));
            }
            match g {
                GGeom::Polygon(p) => {
                    polys.push(p);
                },
                _ => {
                    proof {
                        assert(!((all[k as int]@) matches GeomV::Polygon(_)));
                        assert(!(forall|i: int| 0 <= i < all.len()
                            ==> (#[trigger] all[i]@) matches GeomV::Polygon(_)));
                    }
                    return Err(Error::GenericError(
                        "a MultiPolygon must be built from Polygon geometries".to_string(),
                    ));
                },
            }
            k = k + 1;
        }
        let out = GGeom::MultiPolygon(polys);
        proof {
            assert(out@->MultiPolygon_0 =~= Seq::new(all.len(), |i: int| all[i]@->Polygon_0));
        }
        Ok(out)
    }

    /// The coordinate sequence of a point, line string or linear ring
    /// geometry; composite geometries have none of their own.
    pub fn get_coord_seq(&self) -> (r: GResult<&CoordSeq>)
        ensures
            match self {
                GGeom::LineString(s) => r == Ok::<&CoordSeq, Error>(s),
                GGeom::LinearRing(s) => r == Ok::<&CoordSeq, Error>(s),
                _ => r matches Err(e) && e matches Error::GenericError(m)
                    && m@ == "geometry has no directly readable coordinate sequence"@,
            },
    {
        match self {
            GGeom::LineString(s) => Ok(s),
            GGeom::LinearRing(s) => Ok(s),
            _ => Err(Error::GenericError(
                "geometry has no directly readable coordinate sequence".to_string(),
            )),
        }
    }
}

} // verus!

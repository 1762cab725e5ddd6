//! Conversion from the external point-based geometry model into engine
//! geometries, including the ring closure rules.

use vstd::prelude::*;

use crate::coord_seq::{Coord, CoordSeq};
use crate::error::Error;
use crate::geometry::{wf_ring, GGeom, GeomV, PolyV};

verus! {

/// A point of the external source model: a pair of ordinates, each carried
/// as the 64-bit pattern of a finite double-precision value.
#[derive(Clone, Copy, PartialEq, Eq, Structural, Debug)]
pub struct Point {
    x: u64,
    y: u64,
}

impl View for Point {
    type V = Coord;

    closed spec fn view(&self) -> Coord {
        Coord { x: self.x, y: self.y }
    }
}

impl Point {
    /// A point from its two ordinate patterns.
    pub fn new(x: u64, y: u64) -> (p: Point)
        ensures
            p@ == (Coord { x, y }),
    {
        Point { x, y }
    }

    /// The x ordinate pattern.
    pub fn x(&self) -> (v: u64)
        ensures
            v == self@.x,
    {
        self.x
    }

    /// The y ordinate pattern.
    pub fn y(&self) -> (v: u64)
        ensures
            v == self@.y,
    {
        self.y
    }
}

/// An ordered point sequence of the external source model.
#[derive(Clone, PartialEq, Debug)]
pub struct LineString(pub Vec<Point>);

impl View for LineString {
    type V = Seq<Point>;

    open spec fn view(&self) -> Seq<Point> {
        self.0@
    }
}

/// The abstract value of an external polygon: its exterior point sequence
/// and the point sequences of its interior rings.
pub ghost struct PolygonPts {
    pub exterior: Seq<Point>,
    pub interiors: Seq<Seq<Point>>,
}

/// An external polygon: one exterior ring candidate and any number of
/// interior ring candidates.
#[derive(Clone, PartialEq, Debug)]
pub struct Polygon {
    pub exterior: LineString,
    pub interiors: Vec<LineString>,
}

impl View for Polygon {
    type V = PolygonPts;

    open spec fn view(&self) -> PolygonPts {
        PolygonPts {
            exterior: self.exterior@,
            interiors: self.interiors@.map_values(|ls: LineString| ls@),
        }
    }
}

impl Polygon {
    /// A polygon from its exterior and interior ring candidates.
    pub fn new(exterior: LineString, interiors: Vec<LineString>) -> (p: Polygon)
        ensures
            p.exterior == exterior,
            p.interiors == interiors,
    {
        Polygon { exterior, interiors }
    }
}

/// An external multipolygon: an ordered collection of polygons.
#[derive(Clone, PartialEq, Debug)]
pub struct MultiPolygon(pub Vec<Polygon>);

impl View for MultiPolygon {
    type V = Seq<PolygonPts>;

    open spec fn view(&self) -> Seq<PolygonPts> {
        self.0@.map_values(|p: Polygon| p@)
    }
}

/// A point sequence read as a ring candidate. The source model does not
/// distinguish line strings from rings, so this wrapper selects the ring
/// closure rules.
pub struct LineRing<'a>(pub &'a LineString);

impl<'a> View for LineRing<'a> {
    type V = Seq<Point>;

    open spec fn view(&self) -> Seq<Point> {
        (*self.0)@
    }
}

/// The coordinates of a point sequence, in order.
pub open spec fn pt_coords(ps: Seq<Point>) -> Seq<Coord> {
    ps.map_values(|p: Point| p@)
}

/// Whether a ring candidate is closed: it has points and its first and last
/// points are equal.
pub open spec fn ring_is_closed(ps: Seq<Point>) -> bool {
    ps.len() > 0 && ps[0] == ps[ps.len() - 1]
}

/// Whether normalization must append a copy of the first point: the
/// candidate is open, or it has exactly three points. A closed three-point
/// candidate holds only two distinct points, and the engine counts the
/// duplicate closing vertex, so it is re-closed as if it were open.
pub open spec fn ring_needs_closing(ps: Seq<Point>) -> bool {
    ps.len() > 0 && (!ring_is_closed(ps) || ps.len() == 3)
}

/// The normalized ring: the candidate itself, or the candidate with a copy
/// of its first point appended when closing is needed.
pub open spec fn normalized_ring(ps: Seq<Point>) -> Seq<Point> {
    if ring_needs_closing(ps) {
        ps.push(ps[0])
    } else {
        ps
    }
}

/// Whether a ring candidate has an acceptable point count: anything but one
/// or two points (an empty candidate makes the empty ring).
pub open spec fn ring_candidate_ok(ps: Seq<Point>) -> bool {
    ps.len() != 1 && ps.len() != 2
}

/// Machine bound: a ring candidate and its closing point must fit the
/// engine's 32-bit sequence length.
pub open spec fn ring_fits(ps: Seq<Point>) -> bool {
    ps.len() + 1 <= u32::MAX
}

/// Every ring candidate of the polygon satisfies the machine bound.
pub open spec fn polygon_fits(p: PolygonPts) -> bool {
    &&& ring_fits(p.exterior)
    &&& forall|i: int| 0 <= i < p.interiors.len() ==> ring_fits(#[trigger] p.interiors[i])
}

/// Every ring candidate of the polygon has an acceptable point count.
pub open spec fn polygon_ok(p: PolygonPts) -> bool {
    &&& ring_candidate_ok(p.exterior)
    &&& forall|i: int| 0 <= i < p.interiors.len()
        ==> ring_candidate_ok(#[trigger] p.interiors[i])
}

/// The abstract polygon geometry that conversion builds: every ring
/// candidate normalized, exterior first.
pub open spec fn polygon_geom(p: PolygonPts) -> PolyV {
    PolyV {
        exterior: pt_coords(normalized_ring(p.exterior)),
        interiors: p.interiors.map_values(|r: Seq<Point>| pt_coords(normalized_ring(r))),
    }
}

/// The message carried by every ring-count rejection.
pub open spec fn ring_error_msg() -> Seq<char> {
    "impossible to create a LinearRing, A LinearRing must have at least 3 coordinates"@
}

/// Normalization of an acceptable ring candidate yields a coordinate list
/// shaped as a linear ring, never of length one.
pub proof fn lemma_normalized_ring_wf(ps: Seq<Point>)
    requires
        ring_candidate_ok(ps),
    ensures
        wf_ring(pt_coords(normalized_ring(ps))),
        pt_coords(normalized_ring(ps)).len() != 1,
{
    let nr = normalized_ring(ps);
    if ps.len() == 0 {
        assert(nr.len() == 0);
    } else if ring_needs_closing(ps) {
        assert(nr == ps.push(ps[0]));
        assert(nr.len() == ps.len() + 1);
        assert(nr[0] == ps[0] && nr[nr.len() - 1] == ps[0]);
        assert(pt_coords(nr)[0] == pt_coords(nr)[nr.len() - 1]);
    } else {
        assert(ring_is_closed(ps) && ps.len() != 3);
        assert(ps.len() >= 4);
        assert(pt_coords(nr)[0] == pt_coords(nr)[nr.len() - 1]);
    }
}

/// An empty ring candidate is acceptable and normalizes to the empty
/// coordinate list.
pub proof fn lemma_empty_candidate_normalizes(ps: Seq<Point>)
    requires
        ps.len() == 0,
    ensures
        ring_candidate_ok(ps),
        pt_coords(normalized_ring(ps)).len() == 0,
{
}

/// A ring candidate of one or two points is always rejected, whatever its
/// closure.
pub proof fn lemma_short_candidate_rejected(ps: Seq<Point>)
    requires
        ps.len() == 1 || ps.len() == 2,
    ensures
        !ring_candidate_ok(ps),
{
}

/// An open three-point candidate is closed by one copy of its first point.
pub proof fn lemma_open_triangle_closes(a: Point, b: Point, c: Point)
    requires
        a != c,
    ensures
        normalized_ring(seq![a, b, c]) == seq![a, b, c, a],
{
    assert(normalized_ring(seq![a, b, c]) =~= seq![a, b, c, a]);
}

/// A closed three-point candidate, which holds only two distinct points, is
/// closed once more even though it is already closed.
pub proof fn lemma_closed_pair_recloses(a: Point, b: Point)
    ensures
        normalized_ring(seq![a, b, a]) == seq![a, b, a, a],
{
    assert(normalized_ring(seq![a, b, a]) =~= seq![a, b, a, a]);
}

/// A closed candidate of more than three points is left unchanged.
pub proof fn lemma_closed_ring_unchanged(ps: Seq<Point>)
    requires
        ps.len() > 3,
        ps[0] == ps[ps.len() - 1],
    ensures
        normalized_ring(ps) == ps,
{
}

/// Builds a coordinate sequence holding the coordinates of the given points
/// in input order; the requested length either matches the point count, or
/// exceeds it by one, in which case a copy of the first point closes the
/// sequence.
fn create_coord_seq(points: &Vec<Point>, len: usize) -> (r: Result<CoordSeq, Error>)
    requires
        len <= u32::MAX,
        len == points@.len() || (points@.len() > 0 && len == points@.len() + 1),
    ensures
        r is Ok,
        r matches Ok(s) ==> s@ == pt_coords(
            if len == points@.len() {
                points@
            } else {
                points@.push(points@[0])
            },
        ),
{
    let mut seq = CoordSeq::new(len as u32, 2);
    let n = points.len();
    let mut i: usize = 0;
    while i < n
        invariant
            i <= n,
            n == points@.len(),
            n <= len <= u32::MAX,
            seq@.len() == len,
            forall|j: int| 0 <= j < i ==> seq@[j] == points@[j]@,
        decreases n - i,
    {
        let p = points[i];
        seq.set_x(i as u32, p.x())?;
        seq.set_y(i as u32, p.y())?;
        i = i + 1;
    }
    if len > n {
        let p0 = points[0];
        seq.set_x((len - 1) as u32, p0.x())?;
        seq.set_y((len - 1) as u32, p0.y())?;
    }
    proof {
        if len == points@.len() {
            assert(seq@ =~= pt_coords(points@));
        } else {
            assert(seq@ =~= pt_coords(points@.push(points@[0])));
        }
    }
    Ok(seq)
}

/// Builds a coordinate sequence holding exactly the given points, in order.
fn create_coord_seq_from_vec(points: &Vec<Point>) -> (r: Result<CoordSeq, Error>)
    requires
        points@.len() <= u32::MAX,
    ensures
        r is Ok,
        r matches Ok(s) ==> s@ == pt_coords(points@),
{
    create_coord_seq(points, points.len())
}

/// Fallible conversion into an engine value, under one shared contract:
/// the implementing spec functions say when the conversion succeeds, what
/// abstract value it yields, and what error it reports.
pub trait TryInto<T: View> where Self: Sized {
    type Err;

    /// Machine bound the input must satisfy before conversion is attempted.
    spec fn fits(self) -> bool;

    /// Whether the conversion succeeds for this input.
    spec fn conversion_ok(self) -> bool;

    /// The abstract value the conversion yields on success.
    spec fn converted(self) -> T::V;

    /// What the conversion reports on failure.
    spec fn conversion_err(self, e: &Self::Err) -> bool;

    /// Performs the conversion.
    fn try_into(self) -> (r: Result<T, Self::Err>)
        requires
            self.fits(),
        ensures
            r is Ok <==> self.conversion_ok(),
            r matches Ok(g) ==> g@ == self.converted(),
            r matches Err(e) ==> self.conversion_err(&e),
    ;
}

impl<'a> TryInto<GGeom> for &'a LineString {
    type Err = Error;

    open spec fn fits(self) -> bool {
        self@.len() <= u32::MAX
    }

    open spec fn conversion_ok(self) -> bool {
        self@.len() != 1
    }

    open spec fn converted(self) -> GeomV {
        GeomV::LineString(pt_coords(self@))
    }

    open spec fn conversion_err(self, e: &Error) -> bool {
        e matches Error::GenericError(m)
            && m@ == "a LineString must have 0 or more than 1 coordinates"@
    }

    fn try_into(self) -> (r: Result<GGeom, Error>) {
        let coord_seq = create_coord_seq_from_vec(&self.0)?;
        GGeom::create_line_string(coord_seq)
    }
}

impl<'a> TryInto<GGeom> for &'a LineRing<'a> {
    type Err = Error;

    open spec fn fits(self) -> bool {
        ring_fits(self@)
    }

    open spec fn conversion_ok(self) -> bool {
        ring_candidate_ok(self@)
    }

    open spec fn converted(self) -> GeomV {
        GeomV::LinearRing(pt_coords(normalized_ring(self@)))
    }

    open spec fn conversion_err(self, e: &Error) -> bool {
        e matches Error::InvalidGeometry(m) && m@ == ring_error_msg()
    }

    fn try_into(self) -> (r: Result<GGeom, Error>) {
        let points: &Vec<Point> = &(self.0).0;
        let nb_points = points.len();
        if nb_points > 0 && nb_points < 3 {
            return Err(Error::InvalidGeometry(
                "impossible to create a LinearRing, A LinearRing must have at least 3 coordinates"
                    .to_string(),
            ));
        }
        let is_closed = nb_points > 0 && points[0] == points[nb_points - 1];
        let need_closing = nb_points > 0 && (!is_closed || nb_points == 3);
        let coord_seq = if need_closing {
            create_coord_seq(points, nb_points + 1)?
        } else {
            create_coord_seq(points, nb_points)?
        };
        proof {
            lemma_normalized_ring_wf(points@);
            assert(coord_seq@ == pt_coords(normalized_ring(points@)));
        }
        GGeom::create_linear_ring(coord_seq)
    }
}

impl<'a> TryInto<GGeom> for &'a Polygon {
    type Err = Error;

    open spec fn fits(self) -> bool {
        polygon_fits(self@)
    }

    open spec fn conversion_ok(self) -> bool {
        polygon_ok(self@)
    }

    open spec fn converted(self) -> GeomV {
        GeomV::Polygon(polygon_geom(self@))
    }

    open spec fn conversion_err(self, e: &Error) -> bool {
        e matches Error::InvalidGeometry(m) && m@ == ring_error_msg()
    }

    #[verifier::loop_isolation(false)]
    fn try_into(self) -> (r: Result<GGeom, Error>) {
        let geom_exterior = TryInto::try_into(&LineRing(&self.exterior))?;
        let n = self.interiors.len();
        let mut rings: Vec<GGeom> = Vec::new();
        let mut k: usize = 0;
        while k < n
            invariant
                k <= n,
                rings@.len() == k,
                forall|i: int| 0 <= i < k ==> ring_candidate_ok(
                    #[trigger] self.interiors@[i]@,
                ),
                forall|i: int| 0 <= i < k ==> (#[trigger] rings@[i]@) == GeomV::LinearRing(
                    pt_coords(normalized_ring(self.interiors@[i]@)),
                ),
            decreases n - k,
        {
            proof {
                assert(self@.interiors[k as int] == self.interiors@[k as int]@);
            }
            let ring = TryInto::try_into(&LineRing(&self.interiors[k]))?;
            rings.push(ring);
            k = k + 1;
        }
        let res = GGeom::create_polygon(geom_exterior, rings);
        proof {
            assert(res matches Ok(g) ==> g@ == GeomV::Polygon(polygon_geom(self@))) by {
                if res matches Ok(g) {
                    assert(Seq::new(
                        rings@.len(),
                        |i: int| rings@[i]@->LinearRing_0,
                    ) =~= polygon_geom(self@).interiors);
                }
            }
        }
        res
    }
}

impl<'a> TryInto<GGeom> for &'a MultiPolygon {
    type Err = Error;

    open spec fn fits(self) -> bool {
        forall|i: int| 0 <= i < self@.len() ==> polygon_fits(#[trigger] self@[i])
    }

    open spec fn conversion_ok(self) -> bool {
        forall|i: int| 0 <= i < self@.len() ==> polygon_ok(#[trigger] self@[i])
    }

    open spec fn converted(self) -> GeomV {
        GeomV::MultiPolygon(self@.map_values(|p: PolygonPts| polygon_geom(p)))
    }

    open spec fn conversion_err(self, e: &Error) -> bool {
        e matches Error::InvalidGeometry(m) && m@ == ring_error_msg()
    }

    #[verifier::loop_isolation(false)]
    fn try_into(self) -> (r: Result<GGeom, Error>) {
        let n = self.0.len();
        let mut polygons: Vec<GGeom> = Vec::new();
        let mut k: usize = 0;
        while k < n
            invariant
                k <= n,
                polygons@.len() == k,
                forall|i: int| 0 <= i < k ==> polygon_ok(#[trigger] self@[i]),
                forall|i: int| 0 <= i < k ==> (#[trigger] polygons@[i]@) == GeomV::Polygon(
                    polygon_geom(self@[i]),
                ),
            decreases n - k,
        {
            proof {
                assert(self@[k as int] == self.0@[k as int]@);
            }
            let poly = TryInto::try_into(&self.0[k])?;
            polygons.push(poly);
            k = k + 1;
        }
        let res = GGeom::create_multipolygon(polygons);
        proof {
            assert(res matches Ok(g) ==> g@ == GeomV::MultiPolygon(
                self@.map_values(|p: PolygonPts| polygon_geom(p)),
            )) by {
                if res matches Ok(g) {
                    assert(Seq::new(
                        polygons@.len(),
                        |i: int| polygons@[i]@->Polygon_0,
                    ) =~= self@.map_values(|p: PolygonPts| polygon_geom(p)));
                }
            }
        }
        res
    }
}

} // verus!

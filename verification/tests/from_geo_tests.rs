//! The conversion pipeline: ring closure rules, polygon and multipolygon
//! builders, and their error reporting.

use geos::error::Error;
use geos::from_geo::{LineRing, LineString, MultiPolygon, Point, Polygon, TryInto};
use geos::geometry::GGeom;

fn pt(x: f64, y: f64) -> Point {
    Point::new(x.to_bits(), y.to_bits())
}

const RING_ERROR: &str =
    "impossible to create a LinearRing, A LinearRing must have at least 3 coordinates";

fn ring_coords(geom: &GGeom) -> Vec<(f64, f64)> {
    let seq = geom.get_coord_seq().unwrap();
    let mut out = Vec::new();
    let n = seq.len();
    let mut i: u32 = 0;
    while (i as usize) < n {
        let x = f64::from_bits(seq.get_x(i).unwrap());
        let y = f64::from_bits(seq.get_y(i).unwrap());
        out.push((x, y));
        i += 1;
    }
    out
}

#[test]
fn polygon_contains_test() {
    let exterior = LineString(vec![
        pt(0., 0.),
        pt(0., 1.),
        pt(1., 1.),
        pt(1., 0.),
        pt(0., 0.),
    ]);
    let interiors = vec![LineString(vec![
        pt(0.1, 0.1),
        pt(0.1, 0.9),
        pt(0.9, 0.9),
        pt(0.9, 0.1),
        pt(0.1, 0.1),
    ])];
    let p = Polygon::new(exterior.clone(), interiors.clone());

    assert_eq!(p.exterior, exterior);
    assert_eq!(p.interiors, interiors);

    let geom: GGeom = TryInto::try_into(&p).unwrap();
    assert!(matches!(geom, GGeom::Polygon(_)));

    let ext_geom: GGeom = TryInto::try_into(&exterior).unwrap();
    assert!(matches!(ext_geom, GGeom::LineString(_)));
}

#[test]
fn multipolygon_contains_test() {
    let exterior = LineString(vec![
        pt(0., 0.),
        pt(0., 1.),
        pt(1., 1.),
        pt(1., 0.),
        pt(0., 0.),
    ]);
    let interiors = vec![LineString(vec![
        pt(0.1, 0.1),
        pt(0.1, 0.9),
        pt(0.9, 0.9),
        pt(0.9, 0.1),
        pt(0.1, 0.1),
    ])];
    let p = Polygon::new(exterior, interiors);
    let mp = MultiPolygon(vec![p.clone()]);

    let geom: GGeom = TryInto::try_into(&mp).unwrap();
    assert!(matches!(geom, GGeom::MultiPolygon(_)));

    let p_geom: GGeom = TryInto::try_into(&p).unwrap();
    assert!(matches!(p_geom, GGeom::Polygon(_)));
}

#[test]
fn incorrect_multipolygon_test() {
    let exterior = LineString(vec![pt(0., 0.)]);
    let interiors = vec![];
    let p = Polygon::new(exterior, interiors);
    let mp = MultiPolygon(vec![p.clone()]);

    let geom: Result<GGeom, Error> = TryInto::try_into(&mp);

    assert!(geom.is_err());
}

#[test]
fn incorrect_polygon_not_closed() {
    // even an unclosed polygon converts: the ring is closed on the way
    let exterior = LineString(vec![
        pt(0., 0.),
        pt(0., 2.),
        pt(2., 2.),
        pt(2., 0.),
        pt(0., 0.),
    ]);
    let interiors = vec![LineString(vec![
        pt(0., 0.),
        pt(0., 1.),
        pt(1., 1.),
        pt(1., 0.),
        pt(0., 10.),
    ])];
    let p = Polygon::new(exterior, interiors);
    let mp = MultiPolygon(vec![p]);

    let _g: GGeom = TryInto::try_into(&mp).unwrap(); // no error
}

/// a linear ring can be empty
#[test]
fn empty_linear_ring() {
    let ls = LineString(vec![]);
    let geom: GGeom = TryInto::try_into(&LineRing(&ls)).unwrap();

    assert!(matches!(geom, GGeom::LinearRing(_)));
    assert_eq!(geom.get_coord_seq().unwrap().len(), 0);
}

/// a linear ring should have at least 3 elements
#[test]
fn one_elt_linear_ring() {
    let ls = LineString(vec![pt(0., 0.)]);
    let geom: Result<GGeom, Error> = TryInto::try_into(&LineRing(&ls));
    let error = geom.err().unwrap();
    match &error {
        Error::InvalidGeometry(m) => assert_eq!(m, RING_ERROR),
        other => panic!("unexpected error kind: {:?}", other),
    }
}

/// a linear ring should have at least 3 elements
#[test]
fn two_elt_linear_ring() {
    let ls = LineString(vec![pt(0., 0.), pt(0., 1.)]);
    let geom: Result<GGeom, Error> = TryInto::try_into(&LineRing(&ls));
    let error = geom.err().unwrap();
    match &error {
        Error::InvalidGeometry(m) => assert_eq!(m, RING_ERROR),
        other => panic!("unexpected error kind: {:?}", other),
    }
}

/// an unclosed ring is closed before it reaches the engine
#[test]
fn unclosed_linear_ring() {
    let ls = LineString(vec![pt(0., 0.), pt(0., 1.), pt(1., 2.)]);
    let geom: GGeom = TryInto::try_into(&LineRing(&ls)).unwrap();

    assert!(matches!(geom, GGeom::LinearRing(_)));
    assert_eq!(geom.get_coord_seq().unwrap().len(), 4);
    assert_eq!(
        ring_coords(&geom),
        vec![(0., 0.), (0., 1.), (1., 2.), (0., 0.)]
    );
}

/// a bit tricky: a ring should have at least 3 points. A closed ring of
/// three points, e.g. [p1, p2, p1], holds only two distinct points, so it
/// is treated as an unclosed three-point ring and closed once more.
#[test]
fn closed_2_points_linear_ring() {
    let ls = LineString(vec![pt(0., 0.), pt(0., 1.), pt(0., 0.)]);
    let geom: GGeom = TryInto::try_into(&LineRing(&ls)).unwrap();

    assert!(matches!(geom, GGeom::LinearRing(_)));
    assert_eq!(geom.get_coord_seq().unwrap().len(), 4);
    assert_eq!(
        ring_coords(&geom),
        vec![(0., 0.), (0., 1.), (0., 0.), (0., 0.)]
    );
}

/// an already-closed ring of enough points is used as it is
#[test]
fn good_linear_ring() {
    let ls = LineString(vec![pt(0., 0.), pt(0., 1.), pt(1., 2.), pt(0., 0.)]);
    let geom: GGeom = TryInto::try_into(&LineRing(&ls)).unwrap();

    assert!(matches!(geom, GGeom::LinearRing(_)));
    assert_eq!(geom.get_coord_seq().unwrap().len(), 4);
    assert_eq!(
        ring_coords(&geom),
        vec![(0., 0.), (0., 1.), (1., 2.), (0., 0.)]
    );
}

/// a closed ring of more than three points gains no extra closing point
#[test]
fn five_point_closed_ring_unchanged() {
    let ls = LineString(vec![
        pt(0., 0.),
        pt(0., 1.),
        pt(1., 1.),
        pt(1., 0.),
        pt(0., 0.),
    ]);
    let geom: GGeom = TryInto::try_into(&LineRing(&ls)).unwrap();
    assert_eq!(geom.get_coord_seq().unwrap().len(), 5);
    assert_eq!(
        ring_coords(&geom),
        vec![(0., 0.), (0., 1.), (1., 1.), (1., 0.), (0., 0.)]
    );
}

/// a polygon whose exterior holds a single point is rejected before any
/// engine work, and no polygon is built
#[test]
fn polygon_one_point_exterior_fails() {
    let p = Polygon::new(LineString(vec![pt(3., 4.)]), vec![]);
    let geom: Result<GGeom, Error> = TryInto::try_into(&p);
    match geom {
        Err(Error::InvalidGeometry(m)) => assert_eq!(m, RING_ERROR),
        other => panic!("expected an InvalidGeometry error, got {:?}", other),
    }
}

/// the first failing interior ring decides the polygon's error
#[test]
fn polygon_bad_interior_fails() {
    let exterior = LineString(vec![
        pt(0., 0.),
        pt(0., 1.),
        pt(1., 1.),
        pt(1., 0.),
        pt(0., 0.),
    ]);
    let p = Polygon::new(exterior, vec![LineString(vec![pt(0.2, 0.2), pt(0.4, 0.4)])]);
    let geom: Result<GGeom, Error> = TryInto::try_into(&p);
    match geom {
        Err(Error::InvalidGeometry(m)) => assert_eq!(m, RING_ERROR),
        other => panic!("expected an InvalidGeometry error, got {:?}", other),
    }
}

//! Geometry constructors: the structural rules they enforce and the errors
//! they report.

use geos::coord_seq::{Coord, CoordSeq};
use geos::error::Error;
use geos::geometry::GGeom;

fn seq_of(points: &[(u64, u64)]) -> CoordSeq {
    let mut s = CoordSeq::new(points.len() as u32, 2);
    for (i, (x, y)) in points.iter().enumerate() {
        s.set_x(i as u32, *x).unwrap();
        s.set_y(i as u32, *y).unwrap();
    }
    s
}

#[test]
fn coord_seq_rejects_out_of_range_writes() {
    let mut s = CoordSeq::new(2, 2);
    assert!(s.set_x(0, 5).is_ok());
    assert!(s.set_y(1, 6).is_ok());
    assert!(matches!(s.set_x(2, 7), Err(Error::GenericError(_))));
    assert!(matches!(s.get_y(9), Err(Error::GenericError(_))));
    assert_eq!(s.get_x(0).unwrap(), 5);
    assert_eq!(s.get_y(1).unwrap(), 6);
    assert_eq!(s.len(), 2);
}

#[test]
fn line_string_of_one_point_is_rejected() {
    let r = GGeom::create_line_string(seq_of(&[(1, 2)]));
    match r {
        Err(Error::GenericError(m)) => {
            assert_eq!(m, "a LineString must have 0 or more than 1 coordinates")
        },
        other => panic!("expected a GenericError, got {:?}", other),
    }
    assert!(GGeom::create_line_string(seq_of(&[])).is_ok());
    assert!(GGeom::create_line_string(seq_of(&[(1, 2), (3, 4)])).is_ok());
}

#[test]
fn linear_ring_must_be_closed() {
    let open = seq_of(&[(0, 0), (1, 1), (2, 2), (3, 3)]);
    match GGeom::create_linear_ring(open) {
        Err(Error::GenericError(m)) => {
            assert_eq!(m, "a LinearRing must be closed with 0 or at least 4 coordinates")
        },
        other => panic!("expected a GenericError, got {:?}", other),
    }
    let closed = seq_of(&[(0, 0), (1, 1), (2, 2), (0, 0)]);
    assert!(GGeom::create_linear_ring(closed).is_ok());
    assert!(GGeom::create_linear_ring(seq_of(&[])).is_ok());
    assert!(GGeom::create_linear_ring(seq_of(&[(0, 0), (1, 1), (0, 0)])).is_err());
}

#[test]
fn polygon_takes_only_rings() {
    let ring = GGeom::create_linear_ring(seq_of(&[(0, 0), (1, 1), (2, 2), (0, 0)])).unwrap();
    let not_a_ring = GGeom::create_line_string(seq_of(&[(0, 0), (1, 1)])).unwrap();
    match GGeom::create_polygon(not_a_ring, vec![]) {
        Err(Error::GenericError(m)) => {
            assert_eq!(m, "a Polygon must be built from LinearRing geometries")
        },
        other => panic!("expected a GenericError, got {:?}", other),
    }
    let bad_interior = GGeom::create_line_string(seq_of(&[])).unwrap();
    assert!(GGeom::create_polygon(ring, vec![bad_interior]).is_err());
}

#[test]
fn multipolygon_takes_only_polygons() {
    let ring = GGeom::create_linear_ring(seq_of(&[(0, 0), (1, 1), (2, 2), (0, 0)])).unwrap();
    let poly = GGeom::create_polygon(ring, vec![]).unwrap();
    assert!(GGeom::create_multipolygon(vec![poly]).is_ok());
    let stray = GGeom::create_point(Coord { x: 1, y: 2 });
    match GGeom::create_multipolygon(vec![stray]) {
        Err(Error::GenericError(m)) => {
            assert_eq!(m, "a MultiPolygon must be built from Polygon geometries")
        },
        other => panic!("expected a GenericError, got {:?}", other),
    }
}

#[test]
fn composite_geometries_expose_no_coord_seq() {
    let ring = GGeom::create_linear_ring(seq_of(&[(0, 0), (1, 1), (2, 2), (0, 0)])).unwrap();
    let poly = GGeom::create_polygon(ring, vec![]).unwrap();
    assert!(poly.get_coord_seq().is_err());
}

//! The session: output settings, diagnostics, and WKB/HEX round trips.

use geos::coord_seq::{Coord, CoordSeq};
use geos::enums::{ByteOrder, Dimensions};
use geos::error::Error;
use geos::from_geo::{LineRing, LineString, MultiPolygon, Point, Polygon, TryInto};
use geos::context_handle::GContextHandle;
use geos::geometry::GGeom;

fn pt(x: f64, y: f64) -> Point {
    Point::new(x.to_bits(), y.to_bits())
}

fn square_polygon() -> Polygon {
    let exterior = LineString(vec![
        pt(0., 0.),
        pt(0., 1.),
        pt(1., 1.),
        pt(1., 0.),
        pt(0., 0.),
    ]);
    let interiors = vec![LineString(vec![
        pt(0.25, 0.25),
        pt(0.25, 0.75),
        pt(0.75, 0.75),
        pt(0.75, 0.25),
        pt(0.25, 0.25),
    ])];
    Polygon::new(exterior, interiors)
}

#[test]
fn wkb_round_trip_polygon() {
    let mut ctx = GContextHandle::new().unwrap();
    let geom: GGeom = TryInto::try_into(&square_polygon()).unwrap();
    let buf = ctx.geom_to_wkb_buf(&geom).unwrap();
    let back = ctx.geom_from_wkb_buf(&buf).unwrap();
    let buf2 = ctx.geom_to_wkb_buf(&back).unwrap();
    assert_eq!(buf, buf2);
}

#[test]
fn wkb_round_trip_big_endian() {
    let mut ctx = GContextHandle::new().unwrap();
    ctx.set_wkb_byte_order(ByteOrder::BigEndian);
    let geom: GGeom = TryInto::try_into(&MultiPolygon(vec![square_polygon()])).unwrap();
    let buf = ctx.geom_to_wkb_buf(&geom).unwrap();
    assert_eq!(buf[0], 0); // big-endian flag
    let back = ctx.geom_from_wkb_buf(&buf).unwrap();
    assert!(matches!(back, GGeom::MultiPolygon(_)));
    let buf2 = ctx.geom_to_wkb_buf(&back).unwrap();
    assert_eq!(buf, buf2);
}

#[test]
fn hex_round_trip_line_string() {
    let mut ctx = GContextHandle::new().unwrap();
    let ls = LineString(vec![pt(1.5, -2.5), pt(3.25, 4.0)]);
    let geom: GGeom = TryInto::try_into(&ls).unwrap();
    let hex = ctx.geom_to_hex_buf(&geom).unwrap();
    let back = ctx.geom_from_hex_buf(&hex).unwrap();
    let wkb_first = ctx.geom_to_wkb_buf(&geom).unwrap();
    let wkb_back = ctx.geom_to_wkb_buf(&back).unwrap();
    assert_eq!(wkb_first, wkb_back);
}

#[test]
fn hex_of_empty_line_string_is_exact() {
    let ctx = GContextHandle::new().unwrap();
    let geom = GGeom::create_line_string(CoordSeq::new(0, 2)).unwrap();
    let hex = ctx.geom_to_hex_buf(&geom).unwrap();
    assert_eq!(hex, b"010200000000000000".to_vec());
}

#[test]
fn hex_of_point_is_exact() {
    let ctx = GContextHandle::new().unwrap();
    let v = (2.5f64).to_bits();
    let geom = GGeom::create_point(Coord { x: v, y: v });
    let hex = ctx.geom_to_hex_buf(&geom).unwrap();
    assert_eq!(
        hex,
        b"010100000000000000000004400000000000000440".to_vec()
    );
}

#[test]
fn wkb_round_trip_of_ring_is_line_string() {
    let mut ctx = GContextHandle::new().unwrap();
    let ls = LineString(vec![pt(0., 0.), pt(0., 1.), pt(1., 2.)]);
    let ring: GGeom = TryInto::try_into(&LineRing(&ls)).unwrap();
    let buf = ctx.geom_to_wkb_buf(&ring).unwrap();
    let back = ctx.geom_from_wkb_buf(&buf).unwrap();
    assert!(matches!(back, GGeom::LineString(_)));
    assert_eq!(back.get_coord_seq().unwrap().len(), 4);
}

#[test]
fn decode_of_garbage_fails() {
    let ctx = GContextHandle::new().unwrap();
    assert!(matches!(
        ctx.geom_from_wkb_buf(&[]),
        Err(Error::NullPointer)
    ));
    assert!(matches!(
        ctx.geom_from_wkb_buf(&[9, 1, 0, 0, 0]),
        Err(Error::NullPointer)
    ));
    assert!(matches!(
        ctx.geom_from_hex_buf(b"zz"),
        Err(Error::NullPointer)
    ));
    assert!(matches!(
        ctx.geom_from_hex_buf(b"010"),
        Err(Error::NullPointer)
    ));
}

#[test]
fn settings_set_returns_previous() {
    let mut ctx = GContextHandle::new().unwrap();
    assert_eq!(ctx.get_wkb_output_dimensions(), Dimensions::TwoD);
    assert_eq!(ctx.get_wkb_byte_order(), ByteOrder::LittleEndian);
    let prev = ctx.set_wkb_output_dimensions(Dimensions::ThreeD);
    assert_eq!(prev, Dimensions::TwoD);
    assert_eq!(ctx.get_wkb_output_dimensions(), Dimensions::ThreeD);
    let prev = ctx.set_wkb_byte_order(ByteOrder::BigEndian);
    assert_eq!(prev, ByteOrder::LittleEndian);
    assert_eq!(ctx.get_wkb_byte_order(), ByteOrder::BigEndian);
}

#[test]
fn setting_byte_order_twice_encodes_identically() {
    let geom = GGeom::create_point(Coord { x: 7, y: 9 });

    let mut once = GContextHandle::new().unwrap();
    once.set_wkb_byte_order(ByteOrder::BigEndian);
    let buf_once = once.geom_to_wkb_buf(&geom).unwrap();

    let mut twice = GContextHandle::new().unwrap();
    twice.set_wkb_byte_order(ByteOrder::BigEndian);
    twice.set_wkb_byte_order(ByteOrder::BigEndian);
    let buf_twice = twice.geom_to_wkb_buf(&geom).unwrap();

    assert_eq!(buf_once, buf_twice);
}

#[test]
fn setting_dimensions_twice_encodes_identically() {
    let geom = GGeom::create_point(Coord { x: 7, y: 9 });

    let mut once = GContextHandle::new().unwrap();
    once.set_wkb_output_dimensions(Dimensions::TwoD);
    let buf_once = once.geom_to_wkb_buf(&geom).unwrap();

    let mut twice = GContextHandle::new().unwrap();
    twice.set_wkb_output_dimensions(Dimensions::TwoD);
    twice.set_wkb_output_dimensions(Dimensions::TwoD);
    let buf_twice = twice.geom_to_wkb_buf(&geom).unwrap();

    assert_eq!(buf_once, buf_twice);
}

#[test]
fn take_last_notice_clears_the_notice() {
    let mut ctx = GContextHandle::new().unwrap();
    assert_eq!(ctx.take_last_notice(), None);
    ctx.record_notice("ring closed on the way in".to_string());
    assert_eq!(
        ctx.take_last_notice(),
        Some("ring closed on the way in".to_string())
    );
    assert_eq!(ctx.take_last_notice(), None);
}

#[test]
fn newer_notice_overwrites_older() {
    let mut ctx = GContextHandle::new().unwrap();
    ctx.record_notice("first".to_string());
    ctx.record_notice("second".to_string());
    assert_eq!(ctx.take_last_notice(), Some("second".to_string()));
    assert_eq!(ctx.take_last_notice(), None);
}

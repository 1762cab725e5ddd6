//! Construction pipeline and session layer for planar vector geometries.
//!
//! The crate turns ordered point sequences into coordinate sequences, closed
//! linear rings, polygons and multipolygons, enforcing the structural rules a
//! computational-geometry engine requires (minimum ring length, closure), and
//! wraps a session handle that captures diagnostics and serializes geometries
//! to WKB and HEX.

pub mod context_handle;
pub mod coord_seq;
pub mod enums;
pub mod error;
pub mod geometry;
pub mod from_geo;
pub mod hex;
pub mod wkb;

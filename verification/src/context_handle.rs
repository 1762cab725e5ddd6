//! The engine session: output settings, captured diagnostics, and the WKB
//! and HEX serialization entry points.

use vstd::prelude::*;

use crate::enums::{ByteOrder, Dimensions};
use crate::error::{Error, GResult};
use crate::geometry::{GGeom, GeomV};
use crate::hex::{hex_decode, hex_encode, hex_of, unhex};
use crate::wkb::{decode_geom, enc_geom, encodable, encode_geom, parse_geom};

verus! {

broadcast use vstd::string::to_string_from_display_ensures_for_str;

/// The diagnostics record: at most one pending error message and at most
/// one pending notice message, each overwritten by a newer one of its kind.
struct Messages {
    last_error: Option<String>,
    last_notice: Option<String>,
}

/// The abstract state of a session: its pending diagnostics and its output
/// settings.
pub ghost struct SessionV {
    pub last_error: Option<Seq<char>>,
    pub last_notice: Option<Seq<char>>,
    pub dims: Dimensions,
    pub byte_order: ByteOrder,
}

/// The text of a message, if one is pending.
pub open spec fn opt_text(o: Option<String>) -> Option<Seq<char>> {
    match o {
        None => None,
        Some(m) => Some(m@),
    }
}

/// What taking the pending notice returns: the notice, if one is pending.
pub open spec fn take_notice_result(s: SessionV) -> Option<Seq<char>> {
    s.last_notice
}

/// The session state after the pending notice is taken.
pub open spec fn after_take_notice(s: SessionV) -> SessionV {
    SessionV { last_notice: None, ..s }
}

/// What taking the pending error yields: the error text, or the fixed
/// placeholder when none was captured.
pub open spec fn take_error_result(s: SessionV) -> Seq<char> {
    match s.last_error {
        Some(m) => m,
        None => "unknown error"@,
    }
}

/// The session state after the pending error is taken.
pub open spec fn after_take_error(s: SessionV) -> SessionV {
    SessionV { last_error: None, ..s }
}

/// The session state after the output dimensions are set.
pub open spec fn after_set_dims(s: SessionV, dims: Dimensions) -> SessionV {
    SessionV { dims, ..s }
}

/// The session state after the output byte order is set.
pub open spec fn after_set_byte_order(s: SessionV, byte_order: ByteOrder) -> SessionV {
    SessionV { byte_order, ..s }
}

/// Taking the pending notice twice in a row yields a notice at most once:
/// whatever the state, the second take returns nothing.
pub proof fn lemma_take_notice_at_most_once(s: SessionV)
    ensures
        take_notice_result(after_take_notice(s)) is None,
{
}

/// Setting the output byte order to the same value twice leaves the session
/// exactly as one set does, so subsequent encodings are byte-identical.
pub proof fn lemma_set_byte_order_idempotent(s: SessionV, byte_order: ByteOrder)
    ensures
        after_set_byte_order(after_set_byte_order(s, byte_order), byte_order)
            == after_set_byte_order(s, byte_order),
{
}

/// Setting the output dimensions to the same value twice leaves the session
/// exactly as one set does.
pub proof fn lemma_set_dims_idempotent(s: SessionV, dims: Dimensions)
    ensures
        after_set_dims(after_set_dims(s, dims), dims) == after_set_dims(s, dims),
{
}

/// Two sessions with the same output byte order encode every geometry to
/// identical bytes: the encoding depends on no other session state.
pub proof fn lemma_encoding_depends_on_byte_order(s1: SessionV, s2: SessionV, g: GeomV)
    requires
        s1.byte_order == s2.byte_order,
    ensures
        enc_geom(s1.byte_order, g) == enc_geom(s2.byte_order, g),
{
}

/// A session of the geometry engine. It owns the diagnostics record fed by
/// the engine's error and notice callbacks, and the output settings that
/// subsequent WKB encodings use.
pub struct GContextHandle {
    messages: Messages,
    wkb_dims: Dimensions,
    wkb_byte_order: ByteOrder,
}

impl View for GContextHandle {
    type V = SessionV;

    closed spec fn view(&self) -> SessionV {
        SessionV {
            last_error: opt_text(self.messages.last_error),
            last_notice: opt_text(self.messages.last_notice),
            dims: self.wkb_dims,
            byte_order: self.wkb_byte_order,
        }
    }
}

impl GContextHandle {
    /// Starts a session: no diagnostic is pending, the output is
    /// two-dimensional and little-endian.
    pub fn new() -> (r: GResult<GContextHandle>)
        ensures
            r matches Ok(h) && h@ == (SessionV {
                last_error: None,
                last_notice: None,
                dims: Dimensions::TwoD,
                byte_order: ByteOrder::LittleEndian,
            }),
    {
        Ok(
            GContextHandle {
                messages: Messages { last_error: None, last_notice: None },
                wkb_dims: Dimensions::TwoD,
                wkb_byte_order: ByteOrder::LittleEndian,
            },
        )
    }

    /// The notice-callback entry point: stores the message, overwriting any
    /// unread notice.
    pub fn record_notice(&mut self, message: String)
        ensures
            final(self)@ == (SessionV { last_notice: Some(message@), ..old(self)@ }),
    {
        self.messages.last_notice = Some(message);
    }

    /// The error-callback entry point: stores the message, overwriting any
    /// unread error.
    pub fn record_error(&mut self, message: String)
        ensures
            final(self)@ == (SessionV { last_error: Some(message@), ..old(self)@ }),
    {
        self.messages.last_error = Some(message);
    }

    /// Reads and clears the pending notice; nothing is pending afterwards.
    pub fn take_last_notice(&mut self) -> (r: Option<String>)
        ensures
            opt_text(r) == take_notice_result(old(self)@),
            final(self)@ == after_take_notice(old(self)@),
    {
        self.messages.last_notice.take()
    }

    /// Reads and clears the pending error, substituting a fixed placeholder
    /// when no error was captured.
    fn get_error(&mut self) -> (r: String)
        ensures
            r@ == take_error_result(old(self)@),
            final(self)@ == after_take_error(old(self)@),
    {
        match self.messages.last_error.take() {
            Some(m) => m,
            None => "unknown error".to_string(),
        }
    }

    /// The output dimensions that subsequent WKB encodings use.
    pub fn get_wkb_output_dimensions(&self) -> (r: Dimensions)
        ensures
            r == self@.dims,
    {
        self.wkb_dims
    }

    /// Sets the output dimensions and returns the previous setting. This
    /// crate builds two-dimensional geometries only, so the setting never
    /// changes the bytes an encoding produces.
    pub fn set_wkb_output_dimensions(&mut self, dimensions: Dimensions) -> (prev: Dimensions)
        ensures
            prev == old(self)@.dims,
            final(self)@ == after_set_dims(old(self)@, dimensions),
    {
        let prev = self.wkb_dims;
        self.wkb_dims = dimensions;
        prev
    }

    /// The byte order that subsequent WKB encodings use.
    pub fn get_wkb_byte_order(&self) -> (r: ByteOrder)
        ensures
            r == self@.byte_order,
    {
        self.wkb_byte_order
    }

    /// Sets the output byte order and returns the previous setting.
    pub fn set_wkb_byte_order(&mut self, byte_order: ByteOrder) -> (prev: ByteOrder)
        ensures
            prev == old(self)@.byte_order,
            final(self)@ == after_set_byte_order(old(self)@, byte_order),
    {
        let prev = self.wkb_byte_order;
        self.wkb_byte_order = byte_order;
        prev
    }

    /// Parses a geometry from WKB bytes; a buffer that denotes no geometry
    /// is surfaced as a construction failure.
    pub fn geom_from_wkb_buf(&self, wkb: &[u8]) -> (r: GResult<GGeom>)
        ensures
            match parse_geom(wkb@) {
                Some(pr) => r matches Ok(g) && g@ == pr.0,
                None => r matches Err(e) && e matches Error::NullPointer,
            },
    {
        match decode_geom(wkb) {
            Some(g) => Ok(g),
            None => Err(Error::NullPointer),
        }
    }

    /// Serializes a geometry as WKB in the session's byte order. On failure
    /// the most recent captured diagnostic is taken as the error text, with
    /// the fixed placeholder when none was captured.
    pub fn geom_to_wkb_buf(&mut self, g: &GGeom) -> (r: GResult<Vec<u8>>)
        ensures
            (r is Ok) <==> encodable(g@),
            r matches Ok(b) ==> b@ == enc_geom(old(self)@.byte_order, g@) && final(self)@ == old(
                self,
            )@,
            r matches Err(e) ==> e matches Error::GenericError(m) && m@ == take_error_result(
                old(self)@,
            ) && final(self)@ == after_take_error(old(self)@),
    {
        match encode_geom(self.wkb_byte_order, g) {
            Some(b) => Ok(b),
            None => Err(Error::GenericError(self.get_error())),
        }
    }

    /// Parses a geometry from HEX bytes; text that denotes no geometry is
    /// surfaced as a construction failure.
    pub fn geom_from_hex_buf(&self, hex: &[u8]) -> (r: GResult<GGeom>)
        ensures
            match unhex(hex@) {
                Some(bytes) => match parse_geom(bytes) {
                    Some(pr) => r matches Ok(g) && g@ == pr.0,
                    None => r matches Err(e) && e matches Error::NullPointer,
                },
                None => r matches Err(e) && e matches Error::NullPointer,
            },
    {
        match hex_decode(hex) {
            Some(bytes) => match decode_geom(bytes.as_slice()) {
                Some(g) => Ok(g),
                None => Err(Error::NullPointer),
            },
            None => Err(Error::NullPointer),
        }
    }

    /// Serializes a geometry as HEX in the session's byte order. Unlike the
    /// WKB path, a failure carries no diagnostic text: the result is simply
    /// empty.
    pub fn geom_to_hex_buf(&self, g: &GGeom) -> (r: Option<Vec<u8>>)
        ensures
            (r is Some) <==> encodable(g@),
            r matches Some(b) ==> b@ == hex_of(enc_geom(self@.byte_order, g@)),
    {
        match encode_geom(self.wkb_byte_order, g) {
            Some(b) => Some(hex_encode(&b)),
            None => None,
        }
    }
}

} // verus!

//! Owned, fixed-length sequences of two-dimensional coordinates.

use vstd::prelude::*;

use crate::error::{Error, GResult};

verus! {

/// One two-dimensional coordinate.
///
/// Each ordinate is carried as the 64-bit pattern of a finite
/// double-precision value. Two coordinates are equal exactly when both
/// ordinate patterns are equal, so a caller that produces the patterns is
/// expected to map numerically equal values to equal patterns.
#[derive(Clone, Copy, PartialEq, Eq, Structural, Debug)]
pub struct Coord {
    pub x: u64,
    pub y: u64,
}

/// An owned, ordered list of coordinates whose length is fixed at
/// construction; ordinates may be assigned until the sequence is consumed
/// into a geometry.
#[derive(Debug)]
pub struct CoordSeq {
    coords: Vec<Coord>,
}

impl View for CoordSeq {
    type V = Seq<Coord>;

    closed spec fn view(&self) -> Seq<Coord> {
        self.coords@
    }
}

impl CoordSeq {
    /// Creates a sequence of `size` coordinates, every ordinate zero.
    ///
    /// The crate builds two-dimensional geometries only, so `dims` must be 2.
    pub fn new(size: u32, dims: u32) -> (s: CoordSeq)
        requires
            dims == 2,
        ensures
            s@.len() == size,
            forall|i: int| 0 <= i < size ==> s@[i] == (Coord { x: 0, y: 0 }),
    {
        let mut coords: Vec<Coord> = Vec::new();
        let mut k: u32 = 0;
        while k < size
            invariant
                k <= size,
                coords@.len() == k,
                forall|i: int| 0 <= i < k ==> coords@[i] == (Coord { x: 0, y: 0 }),
            decreases size - k,
        {
            coords.push(Coord { x: 0, y: 0 });
            k = k + 1;
        }
        CoordSeq { coords }
    }

    /// Wraps an already-assembled list of coordinates.
    pub(crate) fn from_coords(coords: Vec<Coord>) -> (s: CoordSeq)
        ensures
            s@ == coords@,
    {
        CoordSeq { coords }
    }

    /// The number of coordinates in the sequence.
    pub fn len(&self) -> (n: usize)
        ensures
            n == self@.len(),
    {
        self.coords.len()
    }

    /// Assigns the x ordinate at position `idx`; positions outside the
    /// sequence are rejected.
    pub fn set_x(&mut self, idx: u32, value: u64) -> (r: GResult<()>)
        ensures
            r is Ok <==> idx < old(self)@.len(),
            idx < old(self)@.len() ==> final(self)@ == old(self)@.update(
                idx as int,
                (Coord { x: value, y: old(self)@[idx as int].y }),
            ),
            idx >= old(self)@.len() ==> final(self)@ == old(self)@,
    {
        if (idx as usize) < self.coords.len() {
            let y = self.coords[idx as usize].y;
            self.coords[idx as usize] = Coord { x: value, y };
            Ok(())
        } else {
            Err(Error::GenericError("coordinate index out of sequence bounds".to_string()))
        }
    }

    /// Assigns the y ordinate at position `idx`; positions outside the
    /// sequence are rejected.
    pub fn set_y(&mut self, idx: u32, value: u64) -> (r: GResult<()>)
        ensures
            r is Ok <==> idx < old(self)@.len(),
            idx < old(self)@.len() ==> final(self)@ == old(self)@.update(
                idx as int,
                (Coord { x: old(self)@[idx as int].x, y: value }),
            ),
            idx >= old(self)@.len() ==> final(self)@ == old(self)@,
    {
        if (idx as usize) < self.coords.len() {
            let x = self.coords[idx as usize].x;
            self.coords[idx as usize] = Coord { x, y: value };
            Ok(())
        } else {
            Err(Error::GenericError("coordinate index out of sequence bounds".to_string()))
        }
    }

    /// Reads the coordinate at position `i`, which must be in bounds.
    pub(crate) fn coord(&self, i: usize) -> (c: Coord)
        requires
            i < self@.len(),
        ensures
            c == self@[i as int],
    {
        self.coords[i]
    }

    /// Reads the x ordinate at position `idx`.
    pub fn get_x(&self, idx: u32) -> (r: GResult<u64>)
        ensures
            r is Ok <==> idx < self@.len(),
            idx < self@.len() ==> r == Ok::<u64, Error>(self@[idx as int].x),
    {
        if (idx as usize) < self.coords.len() {
            Ok(self.coords[idx as usize].x)
        } else {
            Err(Error::GenericError("coordinate index out of sequence bounds".to_string()))
        }
    }

    /// Reads the y ordinate at position `idx`.
    pub fn get_y(&self, idx: u32) -> (r: GResult<u64>)
        ensures
            r is Ok <==> idx < self@.len(),
            idx < self@.len() ==> r == Ok::<u64, Error>(self@[idx as int].y),
    {
        if (idx as usize) < self.coords.len() {
            Ok(self.coords[idx as usize].y)
        } else {
            Err(Error::GenericError("coordinate index out of sequence bounds".to_string()))
        }
    }
}

} // verus!

//! In-memory byte source with an explicit read position.
//!
//! All multi-byte integers in the container format are little-endian; the
//! spec functions here give every field read a mathematical meaning over the
//! underlying byte sequence.

use crate::result::{ZipError, ZipResult};
use vstd::prelude::*;

verus! {

/// The little-endian 16-bit value formed by the two bytes of `s` at `i`.
pub open spec fn le16_at(s: Seq<u8>, i: int) -> int {
    s[i] as int + s[i + 1] as int * 0x100
}

/// The little-endian 32-bit value formed by the four bytes of `s` at `i`.
pub open spec fn le32_at(s: Seq<u8>, i: int) -> int {
    le16_at(s, i) + le16_at(s, i + 2) * 0x1_0000
}

/// The little-endian 64-bit value formed by the eight bytes of `s` at `i`.
pub open spec fn le64_at(s: Seq<u8>, i: int) -> int {
    le32_at(s, i) + le32_at(s, i + 4) * 0x1_0000_0000
}

/// Reads a 16-bit little-endian value directly out of a byte vector.
pub fn le16_direct(data: &Vec<u8>, i: usize) -> (r: u16)
    requires
        i + 2 <= data@.len(),
    ensures
        r as int == le16_at(data@, i as int),
{
    proof {
        vstd::std_specs::vec::axiom_spec_len(data);
    }
    let b0 = data[i];
    let b1 = data[i + 1];
    b0 as u16 + b1 as u16 * 0x100
}

/// Reads a 32-bit little-endian value directly out of a byte vector.
pub fn le32_direct(data: &Vec<u8>, i: usize) -> (r: u32)
    requires
        i + 4 <= data@.len(),
    ensures
        r as int == le32_at(data@, i as int),
{
    proof {
        vstd::std_specs::vec::axiom_spec_len(data);
    }
    let lo = le16_direct(data, i);
    let hi = le16_direct(data, i + 2);
    lo as u32 + hi as u32 * 0x1_0000
}

/// Reads a 64-bit little-endian value directly out of a byte vector.
pub fn le64_direct(data: &Vec<u8>, i: usize) -> (r: u64)
    requires
        i + 8 <= data@.len(),
    ensures
        r as int == le64_at(data@, i as int),
{
    proof {
        vstd::std_specs::vec::axiom_spec_len(data);
    }
    let lo = le32_direct(data, i);
    let hi = le32_direct(data, i + 4);
    lo as u64 + hi as u64 * 0x1_0000_0000
}

/// An owned byte source with a current position.
///
/// The position may be moved anywhere, including past the end of the data;
/// reads fail with [`ZipError::Io`] when fewer bytes remain than requested.
#[derive(Debug)]
pub struct ByteReader {
    pub data: Vec<u8>,
    pub pos: u64,
}

impl Clone for ByteReader {
    /// A copy over the same bytes at the same position, independently
    /// positionable from here on.
    fn clone(&self) -> (r: Self)
        ensures
            r.data@ == self.data@,
            r.pos == self.pos,
    {
        ByteReader { data: vstd::slice::slice_to_vec(self.data.as_slice()), pos: self.pos }
    }
}

impl ByteReader {
    /// True when `n` more bytes are available at the current position.
    pub open spec fn has(self, n: int) -> bool {
        self.pos + n <= self.data@.len()
    }

    pub fn new(data: Vec<u8>) -> (r: ByteReader)
        ensures
            r.data@ == data@,
            r.pos == 0,
    {
        ByteReader { data, pos: 0 }
    }

    /// Gives the underlying bytes back; the read position is forgotten.
    pub fn into_data(self) -> (r: Vec<u8>)
        ensures
            r@ == self.data@,
    {
        self.data
    }

    /// Moves the read position to an absolute offset (which may lie past the
    /// end of the data; only reads check bounds).
    pub fn seek_to(&mut self, p: u64)
        ensures
            final(self).data@ == old(self).data@,
            final(self).pos == p,
    {
        self.pos = p;
    }

    pub fn read_u8(&mut self) -> (r: ZipResult<u8>)
        ensures
            final(self).data@ == old(self).data@,
            match r {
                Ok(v) => old(self).has(1) && v == old(self).data@[old(self).pos as int]
                    && final(self).pos == old(self).pos + 1,
                Err(e) => e is Io && !old(self).has(1) && final(self).pos == old(self).pos,
            },
    {
        let len: u64 = self.data.len() as u64;
        if self.pos >= len {
            return Err(ZipError::Io);
        }
        let i = self.pos as usize;
        let b = self.data[i];
        self.pos = self.pos + 1;
        Ok(b)
    }

    pub fn read_u16(&mut self) -> (r: ZipResult<u16>)
        ensures
            final(self).data@ == old(self).data@,
            match r {
                Ok(v) => old(self).has(2)
                    && v as int == le16_at(old(self).data@, old(self).pos as int)
                    && final(self).pos == old(self).pos + 2,
                Err(e) => e is Io && !old(self).has(2) && final(self).pos == old(self).pos,
            },
    {
        let len: u64 = self.data.len() as u64;
        if self.pos >= len || len - self.pos < 2 {
            return Err(ZipError::Io);
        }
        let v = le16_direct(&self.data, self.pos as usize);
        self.pos = self.pos + 2;
        Ok(v)
    }

    pub fn read_u32(&mut self) -> (r: ZipResult<u32>)
        ensures
            final(self).data@ == old(self).data@,
            match r {
                Ok(v) => old(self).has(4)
                    && v as int == le32_at(old(self).data@, old(self).pos as int)
                    && final(self).pos == old(self).pos + 4,
                Err(e) => e is Io && !old(self).has(4) && final(self).pos == old(self).pos,
            },
    {
        let len: u64 = self.data.len() as u64;
        if self.pos >= len || len - self.pos < 4 {
            return Err(ZipError::Io);
        }
        let v = le32_direct(&self.data, self.pos as usize);
        self.pos = self.pos + 4;
        Ok(v)
    }

    pub fn read_u64(&mut self) -> (r: ZipResult<u64>)
        ensures
            final(self).data@ == old(self).data@,
            match r {
                Ok(v) => old(self).has(8)
                    && v as int == le64_at(old(self).data@, old(self).pos as int)
                    && final(self).pos == old(self).pos + 8,
                Err(e) => e is Io && !old(self).has(8) && final(self).pos == old(self).pos,
            },
    {
        let len: u64 = self.data.len() as u64;
        if self.pos >= len || len - self.pos < 8 {
            return Err(ZipError::Io);
        }
        let v = le64_direct(&self.data, self.pos as usize);
        self.pos = self.pos + 8;
        Ok(v)
    }

    /// Reads exactly `n` bytes, or fails without moving when fewer remain.
    pub fn read_exact(&mut self, n: usize) -> (r: ZipResult<Vec<u8>>)
        ensures
            final(self).data@ == old(self).data@,
            match r {
                Ok(v) => old(self).has(n as int)
                    && v@ == old(self).data@.subrange(
                        old(self).pos as int,
                        old(self).pos + n,
                    )
                    && final(self).pos == old(self).pos + n,
                Err(e) => e is Io && !old(self).has(n as int) && final(self).pos == old(self).pos,
            },
    {
        let len: u64 = self.data.len() as u64;
        if self.pos > len || len - self.pos < n as u64 {
            return Err(ZipError::Io);
        }
        let i = self.pos as usize;
        let part = vstd::slice::slice_subrange(self.data.as_slice(), i, i + n);
        let v = vstd::slice::slice_to_vec(part);
        self.pos = self.pos + n as u64;
        Ok(v)
    }
}

} // verus!

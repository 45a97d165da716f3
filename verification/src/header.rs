//! The header reader: validates the artifact's magic number and decodes the
//! global-variable count.

use vstd::prelude::*;

use crate::error::VmError;

verus! {

/// Number of bytes of the fixed artifact header: a big-endian `u32` magic
/// number followed by a big-endian `u32` count of global variables.
pub const HEADER_SIZE: usize = 8;

/// The magic number every valid artifact begins with.
pub const MAGIC_VALUE: u32 = 0x5AB70500;

/// The value of a big-endian 32-bit word whose bytes are `b0 b1 b2 b3`.
pub open spec fn be32(b0: u8, b1: u8, b2: u8, b3: u8) -> u32 {
    (b0 * 0x100_0000 + b1 * 0x1_0000 + b2 * 0x100 + b3) as u32
}

/// The fixed 8-byte prefix of an artifact.
#[derive(Clone, Copy, Debug, PartialEq, Eq, Structural)]
pub struct RaptorHeader {
    /// Magic number (`0x5AB70500` in a valid artifact).
    pub magic: u32,
    /// Number of global variables the evaluator allocates.
    pub var_count: u32,
}

impl RaptorHeader {
    /// Whether the magic number is the expected one.
    pub fn verify(&self) -> (r: bool)
        ensures
            r == (self.magic == MAGIC_VALUE),
    {
        self.magic == MAGIC_VALUE
    }
}

/// Relies on byteorder's `BigEndian::read_u32`: the big-endian `u32` held in
/// the first four bytes of the slice (it panics on fewer than four bytes,
/// which the precondition rules out).
#[verifier::external_body]
fn read_u32_be(data: &[u8]) -> (r: u32)
    requires
        data@.len() >= 4,
    ensures
        r == be32(data@[0], data@[1], data@[2], data@[3]),
{
    <byteorder::BigEndian as byteorder::ByteOrder>::read_u32(data)
}

/// Read and validate the artifact header.
///
/// Fails with `BadHeaderSize` on fewer than [`HEADER_SIZE`] bytes and with
/// `BadMagic` when the leading word is not [`MAGIC_VALUE`]; otherwise
/// returns the decoded header.
pub fn read_header(data: &[u8]) -> (r: Result<RaptorHeader, VmError>)
    ensures
        match r {
            Ok(h) => {
                &&& data@.len() >= HEADER_SIZE
                &&& h.magic == MAGIC_VALUE
                &&& be32(data@[0], data@[1], data@[2], data@[3]) == MAGIC_VALUE
                &&& h.var_count == be32(data@[4], data@[5], data@[6], data@[7])
            },
            Err(e) => {
                &&& (e == VmError::BadHeaderSize || e == VmError::BadMagic)
                &&& (e == VmError::BadHeaderSize <==> data@.len() < HEADER_SIZE)
                &&& e == VmError::BadMagic ==> be32(data@[0], data@[1], data@[2], data@[3])
                    != MAGIC_VALUE
            },
        },
{
    if data.len() < HEADER_SIZE {
        return Err(VmError::BadHeaderSize);
    }
    let header = read_header_impl(data);
    if !header.verify() {
        return Err(VmError::BadMagic);
    }
    Ok(header)
}

/// Decode the two header words of a slice known to be long enough.
fn read_header_impl(data: &[u8]) -> (h: RaptorHeader)
    requires
        data@.len() >= HEADER_SIZE,
    ensures
        h.magic == be32(data@[0], data@[1], data@[2], data@[3]),
        h.var_count == be32(data@[4], data@[5], data@[6], data@[7]),
{
    let magic = read_u32_be(data);
    let rest = vstd::slice::slice_subrange(data, 4, data.len());
    let var_count = read_u32_be(rest);
    RaptorHeader { magic, var_count }
}

} // verus!

//! Common traits for working with cross-process packets in communications.

use super::stream::ByteReader;
use crate::runtime::error::IoError;
use vstd::prelude::*;

verus! {

/// Generic u8 data packet (sometimes called an "envelope").
///
/// Packets consist of a header plus a payload.
pub struct U8Packet<H> {
    pub header: H,
    pub payload: Vec<u8>,
}

/// Reads U8Packet objects from a byte stream.
pub trait U8PacketRead<H> {
    /// Read the next event packet from the stream.
    fn read(&self, source: &mut ByteReader) -> Result<U8Packet<H>, IoError>;
}

/// Writes U8Packet objects to a byte stream.
pub trait U8PacketWrite<H> {
    /// Writes U8Packet objects to a byte stream.
    ///
    /// The implementation should perform validation on the
    /// packet's contents.  However, some implementations may skip this for
    /// performance reasons, and, in doing so, should clearly document that
    /// it skips validation.
    fn write(&self, out: &mut Vec<u8>, packet: &U8Packet<H>) -> Result<(), IoError>;
}

} // verus!

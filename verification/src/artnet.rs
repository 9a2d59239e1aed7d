//! The frame as an Art-Net packet.

use crate::universe::{all_fit, frame_of, Universe};
use vstd::prelude::*;

verus! {

/// UDP port that Art-Net nodes listen on.
pub const ARTNET_PORT: u16 = 6454;

/// The error type of the Art-Net encoder.
#[verifier::external_type_specification]
#[verifier::external_body]
pub struct ExArtnetError(artnet_protocol::Error);

/// Why no packet was made.
#[derive(Clone, Copy, PartialEq, Eq, Structural, Debug)]
pub enum PacketError {
    /// The encoder refused the frame.
    Encoding,
}

/// What stands before the channel values in an ArtDmx packet for a full
/// frame: the text `Art-Net` and a zero byte, opcode 0x5000 low byte first,
/// protocol version 14 high byte first, sequence 0 (off), physical port 0,
/// port address 1 low byte first, and the number of values, 512, high byte
/// first.
pub open spec fn artdmx_header() -> Seq<u8> {
    seq![
        65u8, 114u8, 116u8, 45u8, 78u8, 101u8, 116u8, 0u8,
        0x00u8, 0x50u8,
        0u8, 14u8,
        0u8,
        0u8,
        1u8, 0u8,
        2u8, 0u8,
    ]
}

/// Encodes a frame as an ArtDmx packet.
///
/// Calls `artnet_protocol::ArtCommand::write_to_buffer` on an `Output`
/// command that carries the 512 values and is otherwise the crate's default.
/// Not proved: that the call succeeds on 512 values (the encoder refuses
/// only an empty payload and one of more than 512 bytes) and that the packet
/// is the header above followed by the values as they are.
#[verifier::external_body]
fn encode_artdmx(values: &[u8; 512]) -> (r: Result<Vec<u8>, artnet_protocol::Error>)
    ensures
        r is Ok,
        r->Ok_0@ == artdmx_header() + values@,
{
    artnet_protocol::ArtCommand::Output(
        artnet_protocol::Output { data: values.to_vec().into(), ..Default::default() },
    ).write_to_buffer()
}

impl Universe {
    /// Renders the universe and wraps the frame in an ArtDmx packet.
    pub fn artnet_packet(&self) -> (r: Result<Vec<u8>, PacketError>)
        requires
            all_fit(self@.fixtures),
        ensures
            r matches Ok(packet) && packet@ == artdmx_header() + frame_of(self@.fixtures),
    {
        let frame = self.get_dmx_values();
        match encode_artdmx(&frame) {
            Ok(packet) => Ok(packet),
            Err(_) => Err(PacketError::Encoding),
        }
    }
}

} // verus!

//! MIDI over Bluetooth Low Energy: the identifiers of its service, and the packets that
//! carry one MIDI message each.

use vstd::prelude::*;

verus! {

/// Identifier of the MIDI service.
pub const SERVICE_UUID: u128 = 0x03B80E5A_EDE8_4B33_A751_6CE34EC4C700;

/// Identifier of the MIDI data characteristic.
pub const CHAR_UUID: u128 = 0x7772E5DB_3868_4112_A1A9_F2669D106BF3;

/// Packets that can wait for a subscriber.
pub const CHANNEL_DEPTH: usize = 256;

/// Failures to frame a MIDI message.
#[derive(Debug, Clone, Copy, PartialEq, Eq, Structural)]
pub enum MidiError {
    Empty,
}

impl MidiError {
    /// The text of an error.
    pub fn message(&self) -> (s: &'static str)
        ensures
            s@ == "empty MIDI message"@,
    {
        "empty MIDI message"
    }
}

/// The thirteen-bit millisecond counter at a time.
pub open spec fn midi_timestamp(elapsed_ms: u128) -> int {
    elapsed_ms as int % 0x2000
}

/// The packet that carries a message: the upper and the lower bits of the counter, each
/// under a set top bit, and the message.
pub open spec fn midi_packet(elapsed_ms: u128, message: Seq<u8>) -> Seq<u8> {
    seq![
        (0x80 + midi_timestamp(elapsed_ms) / 0x80) as u8,
        (0x80 + midi_timestamp(elapsed_ms) % 0x80) as u8,
    ] + message
}

/// A packet holds the counter and the message: both can be read back from it.
pub proof fn law_midi_packet_read_back(elapsed_ms: u128, message: Seq<u8>)
    ensures
        midi_packet(elapsed_ms, message).len() == message.len() + 2,
        midi_packet(elapsed_ms, message)[0] >= 0x80,
        midi_packet(elapsed_ms, message)[1] >= 0x80,
        (midi_packet(elapsed_ms, message)[0] - 0x80) * 0x80 + (midi_packet(elapsed_ms, message)[1]
            - 0x80) == midi_timestamp(elapsed_ms),
        midi_packet(elapsed_ms, message).skip(2) == message,
{
    assert(midi_packet(elapsed_ms, message).skip(2) =~= message);
}

/// Frames a MIDI message that is sent `elapsed_ms` milliseconds after the start.
pub fn frame_message(elapsed_ms: u128, bytes: &[u8]) -> (r: Result<Vec<u8>, MidiError>)
    ensures
        r is Ok <==> bytes@.len() > 0,
        r matches Ok(packet) ==> packet@ == midi_packet(elapsed_ms, bytes@),
        r matches Err(e) ==> e == MidiError::Empty,
{
    if bytes.len() == 0 {
        return Err(MidiError::Empty);
    }
    let timestamp: u16 = (elapsed_ms % 0x2000) as u16;
    let mut packet: Vec<u8> = Vec::new();
    packet.push((0x80 + timestamp / 0x80) as u8);
    packet.push((0x80 + timestamp % 0x80) as u8);
    packet.extend_from_slice(bytes);
    assert(packet@ =~= midi_packet(elapsed_ms, bytes@));
    Ok(packet)
}

/// The two bytes before a message spell the milliseconds since the start, up to a multiple of
/// 8192, in two groups of bits: six, and then seven.
pub proof fn law_midi_counter(elapsed_ms: u128, message: Seq<u8>)
    ensures
        ({
            let p = midi_packet(elapsed_ms, message);
            &&& 0x80 <= p[0] < 0xC0
            &&& 0x80 <= p[1]
            &&& (elapsed_ms - ((p[0] - 0x80) * 128 + (p[1] - 0x80))) % 8192 == 0
            &&& elapsed_ms < 8192 ==> (p[0] - 0x80) * 128 + (p[1] - 0x80) == elapsed_ms
        }),
        0 <= midi_timestamp(elapsed_ms) < 8192,
{
}

} // verus!

//! Words of the host-target interface, by which a bare-metal guest tells the
//! simulator that it is done.

use vstd::prelude::*;

verus! {

/// The device that halts the machine.
pub const HTIF_DEVICE_HALT: u64 = 0x0000;

/// The command that halts the machine.
pub const HTIF_CMD_HALT: u64 = 0;

/// The word that carries a command to a device: the low 16 bits of the
/// device on top, the low 16 bits of the command below them, the low 32 bits
/// of the payload at the bottom.
pub open spec fn htif_word_of(device: u64, cmd: u64, payload: u64) -> int {
    (device % 0x1_0000) * 0x1_0000_0000_0000 + (cmd % 0x1_0000) * 0x1_0000_0000 + payload
        % 0x1_0000_0000
}

/// The payload that reports an exit code: the code, doubled within 32 bits,
/// with the lowest bit set.
pub open spec fn exit_payload_of(code: u32) -> int {
    2 * (code % 0x8000_0000) + 1
}

/// Packs device, command and payload into one word.
pub fn htif_word(device: u64, cmd: u64, payload: u64) -> (word: u64)
    ensures
        word == htif_word_of(device, cmd, payload),
{
    let word = ((device & 0xFFFF) << 48) | ((cmd & 0xFFFF) << 32) | (payload & 0xFFFF_FFFF);
    assert(((device & 0xFFFF) << 48) | ((cmd & 0xFFFF) << 32) | (payload & 0xFFFF_FFFF) == (device
        % 0x1_0000) * 0x1_0000_0000_0000 + (cmd % 0x1_0000) * 0x1_0000_0000 + payload
        % 0x1_0000_0000) by (bit_vector);
    word
}

/// The payload by which a guest reports its exit code.
pub fn exit_payload(code: u32) -> (payload: u64)
    ensures
        payload == exit_payload_of(code),
{
    let shifted: u32 = code << 1;
    assert(((code << 1) | 1) as u64 == 2 * (code % 0x8000_0000) + 1) by (bit_vector);
    (shifted | 1) as u64
}

/// The word that a guest writes to halt the machine with an exit code.
pub fn exit_word(code: u32) -> (word: u64)
    ensures
        word == exit_payload_of(code),
{
    htif_word(HTIF_DEVICE_HALT, HTIF_CMD_HALT, exit_payload(code))
}

} // verus!

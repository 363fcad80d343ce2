//! The command channel: frames one controller opcode, with optional parameter
//! bytes, into the byte sequence of a single bus transaction.
//!
//! The controller expects a leading lane-selector byte followed by a
//! three-byte address header — a zero, the opcode echoed, and a zero filler —
//! and then the parameter bytes. Commands always go out on a single data lane
//! and never hold chip-select beyond the transaction.
use vstd::prelude::*;

use crate::bus::{BusWrite, LineWidth, WriteModel};

verus! {

/// Lane-selector byte of an ordinary single-lane command.
pub const HEADER_SINGLE: u8 = 0x02;

/// Lane-selector byte of the idle command that closes a quad-lane pixel burst.
pub const HEADER_QUAD: u8 = 0x32;

/// Largest transfer the underlying link accepts in one transaction; larger
/// payloads must go through the pixel streamer instead.
pub const MAX_TRANSFER: usize = 64;

pub const OP_SLEEP_OUT: u8 = 0x11;

pub const OP_ALL_PIXELS_OFF: u8 = 0x22;

pub const OP_ALL_PIXELS_ON: u8 = 0x23;

pub const OP_RAM_WRITE_CONFIG: u8 = 0x24;

pub const OP_MIPI_OFF: u8 = 0x26;

pub const OP_DISPLAY_ON: u8 = 0x29;

pub const OP_COLUMN_ADDRESS_SET: u8 = 0x2A;

pub const OP_ROW_ADDRESS_SET: u8 = 0x2B;

pub const OP_MEMORY_WRITE: u8 = 0x2C;

pub const OP_TEARING_EFFECT_OFF: u8 = 0x34;

pub const OP_PIXEL_FORMAT: u8 = 0x3A;

pub const OP_BRIGHTNESS: u8 = 0x51;

pub const OP_DISPLAY_MODE: u8 = 0xC2;

pub const OP_PAGE_SELECT: u8 = 0xFE;

pub const OP_NOP: u8 = 0x00;

/// The bytes of one framed command transaction.
pub open spec fn spec_command_bytes(header: u8, opcode: u8, params: Seq<u8>) -> Seq<u8> {
    seq![header, 0u8, opcode, 0u8] + params
}

/// The model of the transfer a framed command becomes: its bytes, on a single
/// lane, with chip-select dropped at the end.
pub open spec fn spec_command_model(header: u8, opcode: u8, params: Seq<u8>) -> WriteModel {
    WriteModel { bytes: spec_command_bytes(header, opcode, params), quad: false, keep_cs: false }
}

/// Frame `opcode` and `params` into the single transfer that carries them.
pub fn command_write(header: u8, opcode: u8, params: &[u8]) -> (w: BusWrite)
    requires
        params@.len() + 4 <= MAX_TRANSFER,
    ensures
        w@ == spec_command_model(header, opcode, params@),
{
    let mut bytes: Vec<u8> = Vec::new();
    bytes.push(header);
    bytes.push(0);
    bytes.push(opcode);
    bytes.push(0);
    let mut k: usize = 0;
    while k < params.len()
        invariant
            k <= params@.len(),
            bytes@ =~= seq![header, 0u8, opcode, 0u8] + params@.take(k as int),
        decreases params@.len() - k,
    {
        bytes.push(params[k]);
        k = k + 1;
        assert(bytes@ =~= seq![header, 0u8, opcode, 0u8] + params@.take(k as int));
    }
    assert(bytes@ =~= spec_command_bytes(header, opcode, params@));
    BusWrite { bytes, width: LineWidth::Single, keep_cs: false }
}

/// Frame a parameterless `opcode` into the single transfer that carries it.
pub fn command_only(header: u8, opcode: u8) -> (w: BusWrite)
    ensures
        w@ == spec_command_model(header, opcode, Seq::empty()),
{
    let mut bytes: Vec<u8> = Vec::new();
    bytes.push(header);
    bytes.push(0);
    bytes.push(opcode);
    bytes.push(0);
    assert(bytes@ =~= spec_command_bytes(header, opcode, Seq::empty()));
    BusWrite { bytes, width: LineWidth::Single, keep_cs: false }
}

} // verus!

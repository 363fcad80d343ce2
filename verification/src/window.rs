//! The addressing-window calculator: maps a requested inclusive column or row
//! range onto the aligned window the controller addresses.
//!
//! The controller addresses pixels in 2-wide blocks, so a range's start is
//! moved down to the nearest even coordinate and its end is moved up to the
//! nearest odd coordinate (an odd end already sits on a block boundary): the
//! aligned window always contains the requested range, never shrinks it.
//! The column range additionally carries the fixed offset of the controller's
//! RAM origin. Each aligned range is then framed as a 4-byte big-endian
//! start/end payload of the matching address-set command.
use vstd::prelude::*;

use crate::bus::{BusWrite, WriteModel};
use crate::command::{
    command_write, spec_command_model, HEADER_SINGLE, OP_COLUMN_ADDRESS_SET, OP_ROW_ADDRESS_SET,
};

verus! {

/// Columns are shifted by this many pixels inside the controller's RAM.
pub const COLUMN_OFFSET: u16 = 16;

/// A range's start, moved down to the even boundary of its 2-wide block.
pub open spec fn spec_align_start(v: int) -> int {
    if v % 2 == 0 {
        v
    } else {
        v - 1
    }
}

/// A range's end, moved up to the odd boundary of its 2-wide block.
pub open spec fn spec_align_end(v: int) -> int {
    if v % 2 == 1 {
        v
    } else {
        v + 1
    }
}

/// A 16-bit coordinate as the two big-endian bytes the controller reads.
pub open spec fn spec_be16(v: int) -> Seq<u8> {
    seq![(v / 256) as u8, (v % 256) as u8]
}

/// The payload of an address-set command: big-endian start, big-endian end.
pub open spec fn spec_range_payload(start: int, end: int) -> Seq<u8> {
    spec_be16(start) + spec_be16(end)
}

/// The transfer that sets the column window for a request of `[start, end]`:
/// both bounds aligned, then moved up by the RAM origin offset.
pub open spec fn spec_column_command(start: int, end: int) -> WriteModel {
    spec_command_model(
        HEADER_SINGLE,
        OP_COLUMN_ADDRESS_SET,
        spec_range_payload(
            spec_align_start(start) + COLUMN_OFFSET,
            spec_align_end(end) + COLUMN_OFFSET,
        ),
    )
}

/// The transfer that sets the row window for a request of `[start, end]`:
/// both bounds aligned, with no origin offset.
pub open spec fn spec_row_command(start: int, end: int) -> WriteModel {
    spec_command_model(
        HEADER_SINGLE,
        OP_ROW_ADDRESS_SET,
        spec_range_payload(spec_align_start(start), spec_align_end(end)),
    )
}

/// What alignment does to a requested column range: the start never moves up
/// and the end never moves down, both aligned bounds sit on block boundaries
/// (even start, odd end, measured before the RAM origin offset), so the
/// aligned window contains the whole request — and it still lies within the
/// panel, whose last column is odd.
pub proof fn lemma_column_alignment(s: int, e: int)
    requires
        0 <= s <= e < 450,
    ensures
        spec_align_start(s) + COLUMN_OFFSET <= s + COLUMN_OFFSET,
        spec_align_end(e) + COLUMN_OFFSET >= e + COLUMN_OFFSET,
        spec_align_start(s) >= 0,
        (spec_align_start(s) + COLUMN_OFFSET - COLUMN_OFFSET) % 2 == 0,
        (spec_align_end(e) + COLUMN_OFFSET - COLUMN_OFFSET) % 2 == 1,
        spec_align_end(e) < 450,
        spec_align_start(s) <= spec_align_end(e),
{
}

/// The same alignment facts for a requested row range, which carries no
/// origin offset.
pub proof fn lemma_row_alignment(s: int, e: int)
    requires
        0 <= s <= e < 600,
    ensures
        spec_align_start(s) <= s,
        spec_align_end(e) >= e,
        spec_align_start(s) >= 0,
        spec_align_start(s) % 2 == 0,
        spec_align_end(e) % 2 == 1,
        spec_align_end(e) < 600,
        spec_align_start(s) <= spec_align_end(e),
{
}

/// Align `v` down to the even boundary of its block.
pub fn align_start(v: u16) -> (r: u16)
    ensures
        r as int == spec_align_start(v as int),
{
    if v % 2 == 0 {
        v
    } else {
        v - 1
    }
}

/// Align `v` up to the odd boundary of its block.
pub fn align_end(v: u16) -> (r: u16)
    ensures
        r as int == spec_align_end(v as int),
{
    if v % 2 == 1 {
        v
    } else {
        v + 1
    }
}

/// The two big-endian bytes of a 16-bit coordinate.
fn be16(v: u16) -> (r: (u8, u8))
    ensures
        seq![r.0, r.1] == spec_be16(v as int),
{
    proof {
        assert(v >> 8 == v / 256 && (v & 0xFF) == v % 256 && v >> 8 <= 0xFF && (v & 0xFF)
            <= 0xFF) by (bit_vector);
    }
    ((v >> 8) as u8, (v & 0xFF) as u8)
}

/// Build the 4-byte start/end payload of an address-set command.
fn range_payload(start: u16, end: u16) -> (p: Vec<u8>)
    ensures
        p@ == spec_range_payload(start as int, end as int),
{
    let (s_hi, s_lo) = be16(start);
    let (e_hi, e_lo) = be16(end);
    let mut p: Vec<u8> = Vec::new();
    p.push(s_hi);
    p.push(s_lo);
    p.push(e_hi);
    p.push(e_lo);
    assert(p@ =~= spec_range_payload(start as int, end as int));
    p
}

/// Frame the column-address-set command for a request of `[start, end]`.
pub fn column_command(start: u16, end: u16) -> (w: BusWrite)
    requires
        start <= end,
        end < 450,
    ensures
        w@ == spec_column_command(start as int, end as int),
{
    let s = align_start(start) + COLUMN_OFFSET;
    let e = align_end(end) + COLUMN_OFFSET;
    let payload = range_payload(s, e);
    command_write(HEADER_SINGLE, OP_COLUMN_ADDRESS_SET, payload.as_slice())
}

/// Frame the row-address-set command for a request of `[start, end]`.
pub fn row_command(start: u16, end: u16) -> (w: BusWrite)
    requires
        start <= end,
        end < 600,
    ensures
        w@ == spec_row_command(start as int, end as int),
{
    let s = align_start(start);
    let e = align_end(end);
    let payload = range_payload(s, e);
    command_write(HEADER_SINGLE, OP_ROW_ADDRESS_SET, payload.as_slice())
}

} // verus!

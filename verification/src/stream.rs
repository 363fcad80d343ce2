//! The pixel streamer: turns an arbitrary-length sequence of pixel bytes into
//! the chunked burst of bus transfers that fills the controller's RAM.
//!
//! A burst opens with the memory-write command, then streams the four header
//! bytes as the first chunk and the pixel bytes in fixed-size chunks on four
//! lanes. Every chunk but the last keeps chip-select asserted, and the
//! exclusive-ownership lock of the bus brackets every multi-chunk burst so
//! that no other device's transaction can tear it apart. The burst closes
//! with the quad-headed idle command and the display-refresh command.
use vstd::prelude::*;

use crate::bus::{
    acquire_count, lemma_plan_view_push, lemma_single_scope, lemma_write_only_scoped, lock_scoped,
    plan_view, release_count, write_only, ActionModel, BusAction, BusWrite, LineWidth, WriteModel,
};
use crate::command::{
    spec_command_model, HEADER_QUAD, HEADER_SINGLE, OP_DISPLAY_ON, OP_MEMORY_WRITE, OP_NOP,
};

verus! {

/// A burst's fixed-size chunk buffer holds this many bytes.
pub const CHUNK_BYTES: usize = 64;

/// The four bytes that open a RAM-write burst on the data lanes: the quad
/// lane-selector, a zero, the memory-write opcode echoed, a zero filler.
/// They occupy the first chunk of every burst by themselves.
pub open spec fn spec_stream_header() -> Seq<u8> {
    seq![HEADER_QUAD, 0u8, OP_MEMORY_WRITE, 0u8]
}

/// The model of the transfer that carries the burst header: single lane,
/// holding chip-select only if pixel chunks follow.
pub open spec fn spec_header_write(keep_cs: bool) -> WriteModel {
    WriteModel { bytes: spec_stream_header(), quad: false, keep_cs }
}

/// The transfers that carry `data` in chunks of at most [`CHUNK_BYTES`]
/// bytes, on four lanes, each holding chip-select except the last.
pub open spec fn spec_chunk_writes(data: Seq<u8>) -> Seq<ActionModel>
    decreases data.len(),
{
    if data.len() == 0 {
        seq![]
    } else if data.len() <= CHUNK_BYTES {
        seq![ActionModel::Write(WriteModel { bytes: data, quad: true, keep_cs: false })]
    } else {
        seq![
            ActionModel::Write(
                WriteModel { bytes: data.take(CHUNK_BYTES as int), quad: true, keep_cs: true },
            ),
        ] + spec_chunk_writes(data.skip(CHUNK_BYTES as int))
    }
}

/// How many chunks a burst over `pixels` has: the header chunk, then one
/// chunk per started group of [`CHUNK_BYTES`] pixel bytes.
pub open spec fn spec_burst_chunk_count(pixels: Seq<u8>) -> int {
    1 + spec_chunk_writes(pixels).len() as int
}

/// The whole burst over `pixels`. An empty pixel stream is a single-chunk
/// burst — just the header transfer, no lock. Otherwise the bus lock is taken
/// before the header goes out and given back after the final chunk.
pub open spec fn spec_burst_actions(pixels: Seq<u8>) -> Seq<ActionModel> {
    if pixels.len() == 0 {
        seq![ActionModel::Write(spec_header_write(false))]
    } else {
        seq![ActionModel::Acquire, ActionModel::Write(spec_header_write(true))]
            + spec_chunk_writes(pixels) + seq![ActionModel::Release]
    }
}

/// Everything a pixel write puts on the bus: the memory-write command, the
/// burst, then the quad-headed idle command that closes RAM-write mode and
/// the display-refresh command.
pub open spec fn spec_write_pixels_actions(pixels: Seq<u8>) -> Seq<ActionModel> {
    seq![ActionModel::Write(spec_command_model(HEADER_SINGLE, OP_MEMORY_WRITE, Seq::empty()))]
        + spec_burst_actions(pixels) + seq![
        ActionModel::Write(spec_command_model(HEADER_QUAD, OP_NOP, Seq::empty())),
        ActionModel::Write(spec_command_model(HEADER_SINGLE, OP_DISPLAY_ON, Seq::empty())),
    ]
}

/// The bytes a plan fragment transfers, in order.
pub open spec fn written_bytes(s: Seq<ActionModel>) -> Seq<u8>
    decreases s.len(),
{
    if s.len() == 0 {
        Seq::empty()
    } else {
        written_bytes(s.drop_last()) + (match s.last() {
            ActionModel::Write(w) => w.bytes,
            _ => Seq::empty(),
        })
    }
}

pub proof fn lemma_written_bytes_add(s: Seq<ActionModel>, t: Seq<ActionModel>)
    ensures
        written_bytes(s + t) == written_bytes(s) + written_bytes(t),
    decreases t.len(),
{
    if t.len() == 0 {
        assert(s + t =~= s);
        assert(written_bytes(s) + Seq::<u8>::empty() =~= written_bytes(s));
    } else {
        assert((s + t).drop_last() =~= s + t.drop_last());
        assert((s + t).last() == t.last());
        lemma_written_bytes_add(s, t.drop_last());
        assert(written_bytes(s) + written_bytes(t.drop_last()) + (match t.last() {
            ActionModel::Write(w) => w.bytes,
            _ => Seq::<u8>::empty(),
        }) =~= written_bytes(s) + written_bytes(t));
    }
}

/// Chunking loses nothing and invents nothing: the chunk transfers of `data`
/// put exactly `data` on the bus, in order.
pub proof fn lemma_chunk_writes_reassemble(data: Seq<u8>)
    ensures
        written_bytes(spec_chunk_writes(data)) == data,
    decreases data.len(),
{
    if data.len() == 0 {
        assert(written_bytes(spec_chunk_writes(data)) =~= data);
    } else if data.len() <= CHUNK_BYTES {
        let s = spec_chunk_writes(data);
        assert(s.drop_last() =~= Seq::<ActionModel>::empty());
        assert(written_bytes(Seq::<ActionModel>::empty()) =~= Seq::<u8>::empty());
        assert(written_bytes(s) =~= data);
    } else {
        let head = seq![
            ActionModel::Write(
                WriteModel { bytes: data.take(CHUNK_BYTES as int), quad: true, keep_cs: true },
            ),
        ];
        let rest = spec_chunk_writes(data.skip(CHUNK_BYTES as int));
        lemma_chunk_writes_reassemble(data.skip(CHUNK_BYTES as int));
        lemma_written_bytes_add(head, rest);
        assert(head.drop_last() =~= Seq::<ActionModel>::empty());
        assert(written_bytes(Seq::<ActionModel>::empty()) =~= Seq::<u8>::empty());
        assert(written_bytes(head) =~= data.take(CHUNK_BYTES as int));
        assert(data.take(CHUNK_BYTES as int) + data.skip(CHUNK_BYTES as int) =~= data);
    }
}

pub proof fn lemma_chunk_writes_write_only(data: Seq<u8>)
    ensures
        write_only(spec_chunk_writes(data)),
    decreases data.len(),
{
    if data.len() > CHUNK_BYTES {
        lemma_chunk_writes_write_only(data.skip(CHUNK_BYTES as int));
        let s = spec_chunk_writes(data);
        assert forall|i: int| 0 <= i < s.len() implies s[i] is Write by {
            if i > 0 {
                assert(s[i] == spec_chunk_writes(data.skip(CHUNK_BYTES as int))[i - 1]);
            }
        }
    }
}

/// The bus-arbiter law for a whole pixel write: the lock is taken exactly
/// once around a multi-chunk burst and not at all around a single-chunk one,
/// it is released exactly as often as it is taken, and the plan keeps to the
/// scoped discipline — at any stopping point, even one forced by a failed
/// transfer, at most one acquisition is outstanding for the scoped guard to
/// undo.
pub proof fn lemma_lock_discipline(pixels: Seq<u8>)
    ensures
        spec_burst_chunk_count(pixels) > 1 <==> pixels.len() > 0,
        acquire_count(spec_write_pixels_actions(pixels)) == if spec_burst_chunk_count(pixels) > 1 {
            1int
        } else {
            0int
        },
        release_count(spec_write_pixels_actions(pixels)) == acquire_count(
            spec_write_pixels_actions(pixels),
        ),
        lock_scoped(spec_write_pixels_actions(pixels)),
{
    let plan = spec_write_pixels_actions(pixels);
    let opening = seq![
        ActionModel::Write(spec_command_model(HEADER_SINGLE, OP_MEMORY_WRITE, Seq::empty())),
    ];
    let closing = seq![
        ActionModel::Write(spec_command_model(HEADER_QUAD, OP_NOP, Seq::empty())),
        ActionModel::Write(spec_command_model(HEADER_SINGLE, OP_DISPLAY_ON, Seq::empty())),
    ];
    if pixels.len() == 0 {
        assert(write_only(plan));
        lemma_write_only_scoped(plan);
    } else {
        let mid = seq![ActionModel::Write(spec_header_write(true))] + spec_chunk_writes(pixels);
        lemma_chunk_writes_write_only(pixels);
        assert(write_only(mid)) by {
            let chunks = spec_chunk_writes(pixels);
            assert forall|i: int| 0 <= i < mid.len() implies mid[i] is Write by {
                if i > 0 {
                    assert(mid[i] == chunks[i - 1]);
                }
            }
        }
        assert(plan =~= opening + seq![ActionModel::Acquire] + mid + seq![ActionModel::Release]
            + closing);
        lemma_single_scope(opening, mid, closing);
    }
}

/// Build the transfer that carries the burst header.
fn header_write(keep_cs: bool) -> (w: BusWrite)
    ensures
        w@ == spec_header_write(keep_cs),
{
    let mut bytes: Vec<u8> = Vec::new();
    bytes.push(HEADER_QUAD);
    bytes.push(0);
    bytes.push(OP_MEMORY_WRITE);
    bytes.push(0);
    assert(bytes@ =~= spec_stream_header());
    BusWrite { bytes, width: LineWidth::Single, keep_cs }
}

/// Build the burst over `pixels`: the header chunk, then the pixel chunks,
/// with the lock actions bracketing a multi-chunk burst.
#[verifier::loop_isolation(false)]
pub fn burst_actions(pixels: &[u8]) -> (plan: Vec<BusAction>)
    ensures
        plan_view(plan@) == spec_burst_actions(pixels@),
{
    let mut plan: Vec<BusAction> = Vec::new();
    if pixels.len() == 0 {
        let w = header_write(false);
        proof {
            lemma_plan_view_push(plan@, BusAction::Write(w));
        }
        plan.push(BusAction::Write(w));
        assert(plan_view(plan@) =~= spec_burst_actions(pixels@));
    } else {
        let w = header_write(true);
        proof {
            lemma_plan_view_push(plan@, BusAction::AcquireBus);
        }
        plan.push(BusAction::AcquireBus);
        proof {
            lemma_plan_view_push(plan@, BusAction::Write(w));
        }
        plan.push(BusAction::Write(w));
        let ghost opening: Seq<ActionModel> = seq![
            ActionModel::Acquire,
            ActionModel::Write(spec_header_write(true)),
        ];
        assert(plan_view(plan@) =~= opening);
        assert(pixels@.skip(0) =~= pixels@);
        let mut i: usize = 0;
        while i < pixels.len()
            invariant
                i <= pixels@.len(),
                plan_view(plan@) + spec_chunk_writes(pixels@.skip(i as int)) == opening
                    + spec_chunk_writes(pixels@),
            decreases pixels@.len() - i,
        {
            let end = if pixels.len() - i >= CHUNK_BYTES {
                i + CHUNK_BYTES
            } else {
                pixels.len()
            };
            let keep = end < pixels.len();
            let mut chunk: Vec<u8> = Vec::new();
            let mut j: usize = i;
            while j < end
                invariant
                    i <= j <= end,
                    chunk@ == pixels@.subrange(i as int, j as int),
                decreases end - j,
            {
                chunk.push(pixels[j]);
                j = j + 1;
                assert(chunk@ =~= pixels@.subrange(i as int, j as int));
            }
            let ghost rem = pixels@.skip(i as int);
            proof {
                assert(chunk@ =~= pixels@.subrange(i as int, end as int));
                if keep {
                    assert(chunk@ =~= rem.take(CHUNK_BYTES as int));
                    assert(rem.skip(CHUNK_BYTES as int) =~= pixels@.skip(end as int));
                } else {
                    assert(chunk@ =~= rem);
                    assert(pixels@.skip(end as int) =~= Seq::<u8>::empty());
                }
            }
            let w = BusWrite { bytes: chunk, width: LineWidth::Quad, keep_cs: keep };
            proof {
                lemma_plan_view_push(plan@, BusAction::Write(w));
            }
            plan.push(BusAction::Write(w));
            proof {
                if keep {
                    assert(spec_chunk_writes(rem) == seq![ActionModel::Write(w@)]
                        + spec_chunk_writes(rem.skip(CHUNK_BYTES as int)));
                    assert(plan_view(plan@) + spec_chunk_writes(pixels@.skip(end as int))
                        =~= opening + spec_chunk_writes(pixels@));
                } else {
                    assert(spec_chunk_writes(rem) == seq![ActionModel::Write(w@)]);
                    assert(plan_view(plan@) + spec_chunk_writes(pixels@.skip(end as int))
                        =~= opening + spec_chunk_writes(pixels@));
                }
            }
            i = end;
        }
        proof {
            lemma_plan_view_push(plan@, BusAction::ReleaseBus);
        }
        plan.push(BusAction::ReleaseBus);
        assert(pixels@.skip(pixels@.len() as int) =~= Seq::<u8>::empty());
        assert(plan_view(plan@) =~= spec_burst_actions(pixels@));
    }
    plan
}

} // verus!

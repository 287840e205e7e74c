//! The command/timing protocol of the two display controllers.
//!
//! Every protocol operation is expressed as a plan: a sequence of primitive
//! bus operations (set a line, write bytes, sleep) or of protocol steps
//! (send a command, wait for the busy line). The shell that owns the SPI bus
//! and the GPIO lines executes plans in order; the plans themselves, and the
//! order of the steps of a frame commit, are verified here.

use vstd::prelude::*;

use crate::buffer::PixelBuffer;
use crate::packing::pack_spec;
use crate::transform::{rotate_grid, split_left, split_right};
use crate::SPLIT_COL;

verus! {

// EL133UF1 command bytes.
/// Panel Setting Register.
pub const CMD_PSR: u8 = 0x00;

/// Power Setting.
pub const CMD_PWR: u8 = 0x01;

/// Power Off.
pub const CMD_POF: u8 = 0x02;

/// Power On.
pub const CMD_PON: u8 = 0x04;

/// Booster Soft Start VDDN.
pub const CMD_BTST_N: u8 = 0x05;

/// Booster Soft Start VDDP.
pub const CMD_BTST_P: u8 = 0x06;

/// Data Transmission.
pub const CMD_DTM: u8 = 0x10;

/// Display Refresh.
pub const CMD_DRF: u8 = 0x12;

/// PLL Control.
pub const CMD_PLL: u8 = 0x30;

/// VCOM Data Interval.
pub const CMD_CDI: u8 = 0x50;

/// TCON Setting.
pub const CMD_TCON: u8 = 0x60;

/// Resolution Setting.
pub const CMD_TRES: u8 = 0x61;

/// Analog Block Control.
pub const CMD_ANTM: u8 = 0x74;

/// Gate ID.
pub const CMD_AGID: u8 = 0x86;

/// Buck/Boost VDDN.
pub const CMD_BUCK_BOOST_VDDN: u8 = 0xB0;

/// TFT VCOM Power.
pub const CMD_TFT_VCOM_POWER: u8 = 0xB1;

/// Enable Buffer.
pub const CMD_EN_BUF: u8 = 0xB6;

/// Boost VDDP Enable.
pub const CMD_BOOST_VDDP_EN: u8 = 0xB7;

/// Cascade Setting.
pub const CMD_CCSET: u8 = 0xE0;

/// Power Saving.
pub const CMD_PWS: u8 = 0xE3;

/// Undocumented vendor command.
pub const CMD_CMD66: u8 = 0xF0;

// Timing and transfer parameters.
/// Settle time on each edge of the reset pulse, in milliseconds.
pub const RESET_SETTLE_MS: u64 = 30;

/// Settle time after entering the command phase, in milliseconds.
pub const COMMAND_SETTLE_MS: u64 = 300;

/// Largest single bus transfer; longer payloads are written in chunks.
pub const CHUNK_SIZE: usize = 4096;

/// Interval between reads of the ready line while polling, in milliseconds.
pub const POLL_INTERVAL_MS: u64 = 100;

/// Busy budget before the initialization sequence, in milliseconds.
pub const INIT_BUSY_MS: u64 = 300;

/// Busy budget after power-on and after power-off, in milliseconds.
pub const POWER_BUSY_MS: u64 = 200;

/// Busy budget for the physical refresh, in milliseconds.
pub const REFRESH_BUSY_MS: u64 = 32000;

/// Which of the two controller chips a command is addressed to.
#[derive(Clone, Copy, Debug, PartialEq, Eq, Structural)]
pub enum ChipSelect {
    /// Only controller 0.
    CS0,
    /// Only controller 1.
    CS1,
    /// Both controllers at once.
    Both,
}

/// A discrete output line of the panel.
#[derive(Clone, Copy, Debug, PartialEq, Eq, Structural)]
pub enum Line {
    /// Chip select of controller 0 (asserted low).
    Cs0,
    /// Chip select of controller 1 (asserted low).
    Cs1,
    /// Mode line: low for the command phase, high for the data phase.
    Dc,
    /// Reset line (pulsed low to reset).
    Reset,
}

/// One primitive bus operation. The boolean of `SetLine` is the electrical
/// level to drive: `true` is high.
#[derive(Clone, Debug, PartialEq, Eq)]
pub enum BusOp {
    /// Drive a discrete line to a level.
    SetLine(Line, bool),
    /// Write bytes on the serial bus.
    Write(Vec<u8>),
    /// Sleep for the given number of milliseconds.
    SleepMs(u64),
}

/// The mathematical shape of a bus operation: `BusOp` with the written bytes
/// as a sequence.
#[verifier::ext_equal]
pub enum BusOpModel {
    /// Drive a discrete line to a level.
    SetLine(Line, bool),
    /// Write bytes on the serial bus.
    Write(Seq<u8>),
    /// Sleep for the given number of milliseconds.
    SleepMs(u64),
}

/// The model of one bus operation.
pub open spec fn op_model(op: BusOp) -> BusOpModel {
    match op {
        BusOp::SetLine(line, level) => BusOpModel::SetLine(line, level),
        BusOp::Write(bytes) => BusOpModel::Write(bytes@),
        BusOp::SleepMs(ms) => BusOpModel::SleepMs(ms),
    }
}

/// The model of a plan of bus operations.
pub open spec fn ops_model(ops: Seq<BusOp>) -> Seq<BusOpModel> {
    ops.map_values(|op: BusOp| op_model(op))
}

/// Appending one operation to a plan appends its model to the plan's model.
pub proof fn lemma_ops_model_push(ops: Seq<BusOp>, op: BusOp)
    ensures
        ops_model(ops.push(op)) == ops_model(ops).push(op_model(op)),
{
    assert(ops_model(ops.push(op)) =~= ops_model(ops).push(op_model(op)));
}

/// The reset pulse: drive the reset line low, wait, drive it high, wait.
pub open spec fn reset_ops() -> Seq<BusOpModel> {
    seq![
        BusOpModel::SetLine(Line::Reset, false),
        BusOpModel::SleepMs(RESET_SETTLE_MS),
        BusOpModel::SetLine(Line::Reset, true),
        BusOpModel::SleepMs(RESET_SETTLE_MS),
    ]
}

/// Plan the hardware reset of both chips: a low pulse on the reset line with
/// a settle delay on each edge. No data is exchanged.
pub fn plan_reset() -> (r: Vec<BusOp>)
    ensures
        ops_model(r@) == reset_ops(),
{
    let mut ops: Vec<BusOp> = Vec::new();
    ops.push(BusOp::SetLine(Line::Reset, false));
    ops.push(BusOp::SleepMs(RESET_SETTLE_MS));
    ops.push(BusOp::SetLine(Line::Reset, true));
    ops.push(BusOp::SleepMs(RESET_SETTLE_MS));
    proof {
        assert(ops_model(ops@) =~~= reset_ops());
    }
    ops
}

/// Asserting the chip select line(s) a command is addressed to: chip select
/// is active low.
pub open spec fn chip_select_ops(cs: ChipSelect) -> Seq<BusOpModel> {
    match cs {
        ChipSelect::CS0 => seq![BusOpModel::SetLine(Line::Cs0, false)],
        ChipSelect::CS1 => seq![BusOpModel::SetLine(Line::Cs1, false)],
        ChipSelect::Both => seq![
            BusOpModel::SetLine(Line::Cs0, false),
            BusOpModel::SetLine(Line::Cs1, false),
        ],
    }
}

/// The writes of one payload: successive chunks of at most `CHUNK_SIZE`
/// bytes, in payload order, so that together they write exactly the payload
/// as one continuous stream.
pub open spec fn chunk_writes(data: Seq<u8>) -> Seq<BusOpModel>
    decreases data.len(),
{
    if data.len() == 0 {
        Seq::empty()
    } else if data.len() <= CHUNK_SIZE {
        seq![BusOpModel::Write(data)]
    } else {
        seq![BusOpModel::Write(data.take(CHUNK_SIZE as int))] + chunk_writes(
            data.skip(CHUNK_SIZE as int),
        )
    }
}

/// The bytes a sequence of operations writes on the bus, in order.
pub open spec fn written_bytes(ops: Seq<BusOpModel>) -> Seq<u8>
    decreases ops.len(),
{
    if ops.len() == 0 {
        Seq::empty()
    } else {
        (match ops[0] {
            BusOpModel::Write(bytes) => bytes,
            _ => Seq::empty(),
        }) + written_bytes(ops.skip(1))
    }
}

/// Chunking is only a transfer-size concern: the chunk writes of a payload
/// are each at most `CHUNK_SIZE` bytes and together write exactly the
/// payload, as one continuous stream.
pub proof fn lemma_chunk_writes_concatenate(data: Seq<u8>)
    ensures
        written_bytes(chunk_writes(data)) == data,
        forall|i: int|
            0 <= i < chunk_writes(data).len() ==> ((#[trigger] chunk_writes(data)[i]) matches
            BusOpModel::Write(bytes) && bytes.len() <= CHUNK_SIZE),
    decreases data.len(),
{
    if data.len() == 0 {
        assert(written_bytes(chunk_writes(data)) =~= data);
    } else if data.len() <= CHUNK_SIZE {
        assert(chunk_writes(data) =~= seq![BusOpModel::Write(data)]);
        assert(chunk_writes(data).skip(1) =~= Seq::<BusOpModel>::empty());
        assert(written_bytes(Seq::<BusOpModel>::empty()) =~= Seq::<u8>::empty());
        assert(written_bytes(chunk_writes(data)) =~= data);
    } else {
        lemma_chunk_writes_concatenate(data.skip(CHUNK_SIZE as int));
        let head = seq![BusOpModel::Write(data.take(CHUNK_SIZE as int))];
        let tail = chunk_writes(data.skip(CHUNK_SIZE as int));
        assert((head + tail).skip(1) =~= tail);
        assert(written_bytes(head + tail) == data.take(CHUNK_SIZE as int) + written_bytes(tail));
        assert(written_bytes(chunk_writes(data)) =~= data);
    }
}

/// The data phase of a command: nothing for an empty payload, otherwise the
/// mode line high followed by the chunked payload writes.
pub open spec fn payload_ops(data: Seq<u8>) -> Seq<BusOpModel> {
    if data.len() == 0 {
        Seq::empty()
    } else {
        seq![BusOpModel::SetLine(Line::Dc, true)] + chunk_writes(data)
    }
}

/// The whole bus plan of one command: assert the addressed chip select
/// line(s), enter the command phase and settle, write the command byte, run
/// the data phase if the payload is non-empty, then unconditionally deassert
/// both chip selects and the mode line, leaving the bus idle.
pub open spec fn send_command_ops(cs: ChipSelect, cmd: u8, data: Seq<u8>) -> Seq<BusOpModel> {
    chip_select_ops(cs) + seq![
        BusOpModel::SetLine(Line::Dc, false),
        BusOpModel::SleepMs(COMMAND_SETTLE_MS),
        BusOpModel::Write(seq![cmd]),
    ] + payload_ops(data) + seq![
        BusOpModel::SetLine(Line::Cs0, true),
        BusOpModel::SetLine(Line::Cs1, true),
        BusOpModel::SetLine(Line::Dc, false),
    ]
}

/// Plan one command with an optional payload for the addressed chip(s).
pub fn plan_send_command(cs: ChipSelect, cmd: u8, data: &[u8]) -> (r: Vec<BusOp>)
    ensures
        ops_model(r@) == send_command_ops(cs, cmd, data@),
{
    let mut ops: Vec<BusOp> = Vec::new();
    match cs {
        ChipSelect::CS0 => ops.push(BusOp::SetLine(Line::Cs0, false)),
        ChipSelect::CS1 => ops.push(BusOp::SetLine(Line::Cs1, false)),
        ChipSelect::Both => {
            ops.push(BusOp::SetLine(Line::Cs0, false));
            ops.push(BusOp::SetLine(Line::Cs1, false));
        },
    }
    ops.push(BusOp::SetLine(Line::Dc, false));
    ops.push(BusOp::SleepMs(COMMAND_SETTLE_MS));
    ops.push(BusOp::Write(vec![cmd]));
    let ghost pre: Seq<BusOpModel> = ops_model(ops@);
    proof {
        assert(pre =~~= chip_select_ops(cs) + seq![
            BusOpModel::SetLine(Line::Dc, false),
            BusOpModel::SleepMs(COMMAND_SETTLE_MS),
            BusOpModel::Write(seq![cmd]),
        ]);
    }
    let len: usize = data.len();
    if len > 0 {
        ops.push(BusOp::SetLine(Line::Dc, true));
        let ghost mut built: Seq<BusOpModel> = Seq::empty();
        proof {
            assert(ops_model(ops@) =~~= pre + seq![BusOpModel::SetLine(Line::Dc, true)] + built);
            assert(data@.skip(0) =~= data@);
        }
        let mut start: usize = 0;
        while start < len
            invariant
                len == data@.len(),
                0 <= start <= len,
                ops_model(ops@) == pre + seq![BusOpModel::SetLine(Line::Dc, true)] + built,
                chunk_writes(data@) == built + chunk_writes(data@.skip(start as int)),
            decreases len - start,
        {
            let end: usize = if len - start > CHUNK_SIZE {
                start + CHUNK_SIZE
            } else {
                len
            };
            let chunk: Vec<u8> = vstd::slice::slice_to_vec(
                vstd::slice::slice_subrange(data, start, end),
            );
            let ghost prev: Seq<BusOp> = ops@;
            ops.push(BusOp::Write(chunk));
            proof {
                lemma_ops_model_push(prev, ops@[prev.len() as int]);
                let rem = data@.skip(start as int);
                if len - start > CHUNK_SIZE {
                    assert(rem.take(CHUNK_SIZE as int) =~= data@.subrange(
                        start as int,
                        end as int,
                    ));
                    assert(rem.skip(CHUNK_SIZE as int) =~= data@.skip(end as int));
                } else {
                    assert(rem =~= data@.subrange(start as int, end as int));
                    assert(chunk_writes(data@.skip(len as int)) =~~= Seq::<BusOpModel>::empty());
                }
                built = built + seq![
                    BusOpModel::Write(data@.subrange(start as int, end as int)),
                ];
                assert(ops_model(ops@) =~~= pre + seq![BusOpModel::SetLine(Line::Dc, true)]
                    + built);
                assert(chunk_writes(data@) =~~= built + chunk_writes(data@.skip(end as int)));
            }
            start = end;
        }
        proof {
            assert(chunk_writes(data@.skip(len as int)) =~~= Seq::<BusOpModel>::empty());
            assert(chunk_writes(data@) =~~= built);
            assert(ops_model(ops@) =~~= pre + payload_ops(data@));
        }
    } else {
        proof {
            assert(ops_model(ops@) =~~= pre + payload_ops(data@));
        }
    }
    let ghost p1: Seq<BusOp> = ops@;
    ops.push(BusOp::SetLine(Line::Cs0, true));
    proof {
        lemma_ops_model_push(p1, ops@[p1.len() as int]);
    }
    let ghost p2: Seq<BusOp> = ops@;
    ops.push(BusOp::SetLine(Line::Cs1, true));
    proof {
        lemma_ops_model_push(p2, ops@[p2.len() as int]);
    }
    let ghost p3: Seq<BusOp> = ops@;
    ops.push(BusOp::SetLine(Line::Dc, false));
    proof {
        lemma_ops_model_push(p3, ops@[p3.len() as int]);
        assert(ops_model(ops@) =~~= send_command_ops(cs, cmd, data@));
    }
    ops
}

/// How a busy wait is to be carried out, decided from the first read of the
/// ready line.
#[derive(Clone, Copy, Debug, PartialEq, Eq, Structural)]
pub enum WaitPlan {
    /// The line already read "not ready" on entry: no acknowledgment is
    /// available (the panel may be disconnected), so sleep the whole budget
    /// and report success without polling.
    SleepFull { duration_ms: u64 },
    /// The line read "ready": poll it at the given interval until it reads
    /// "ready" again or the budget elapses.
    Poll { interval_ms: u64, timeout_ms: u64 },
}

/// One verdict of the polling loop.
#[derive(Clone, Copy, Debug, PartialEq, Eq, Structural)]
pub enum PollVerdict {
    /// The line reads "ready": the wait is over.
    Done,
    /// The budget has elapsed without a "ready" reading: warn and proceed
    /// anyway. A busy timeout never aborts a frame commit.
    TimedOut,
    /// Keep waiting: sleep the interval and read the line again.
    SleepAndRetry { sleep_ms: u64 },
}

/// Decide how to wait on the busy line, from the level read at entry.
/// A wait always ends in success, whatever the hardware does.
pub fn wait_busy_plan(ready_at_entry: bool, timeout_ms: u64) -> (r: WaitPlan)
    ensures
        !ready_at_entry ==> r == (WaitPlan::SleepFull { duration_ms: timeout_ms }),
        ready_at_entry ==> r == (WaitPlan::Poll {
            interval_ms: POLL_INTERVAL_MS,
            timeout_ms,
        }),
{
    if !ready_at_entry {
        WaitPlan::SleepFull { duration_ms: timeout_ms }
    } else {
        WaitPlan::Poll { interval_ms: POLL_INTERVAL_MS, timeout_ms }
    }
}

/// Decide one round of the polling loop from the level just read and the
/// time elapsed so far.
pub fn wait_busy_poll(ready: bool, elapsed_ms: u64, timeout_ms: u64) -> (r: PollVerdict)
    ensures
        ready ==> r == PollVerdict::Done,
        !ready && elapsed_ms > timeout_ms ==> r == PollVerdict::TimedOut,
        !ready && elapsed_ms <= timeout_ms ==> r == (PollVerdict::SleepAndRetry {
            sleep_ms: POLL_INTERVAL_MS,
        }),
{
    if ready {
        PollVerdict::Done
    } else if elapsed_ms > timeout_ms {
        PollVerdict::TimedOut
    } else {
        PollVerdict::SleepAndRetry { sleep_ms: POLL_INTERVAL_MS }
    }
}

/// One step of a protocol sequence: a framed command or a busy wait.
#[derive(Clone, Debug, PartialEq, Eq)]
pub enum ProtocolStep {
    /// Send a command with a payload to the addressed chip(s).
    Send(ChipSelect, u8, Vec<u8>),
    /// Wait on the busy line with the given budget in milliseconds.
    WaitBusy(u64),
}

/// The mathematical shape of a protocol step: `ProtocolStep` with the
/// payload as a sequence.
#[verifier::ext_equal]
pub enum StepModel {
    /// Send a command with a payload to the addressed chip(s).
    Send(ChipSelect, u8, Seq<u8>),
    /// Wait on the busy line with the given budget in milliseconds.
    WaitBusy(u64),
}

/// The model of one protocol step.
pub open spec fn step_model(step: ProtocolStep) -> StepModel {
    match step {
        ProtocolStep::Send(cs, cmd, data) => StepModel::Send(cs, cmd, data@),
        ProtocolStep::WaitBusy(ms) => StepModel::WaitBusy(ms),
    }
}

/// The model of a protocol sequence.
pub open spec fn steps_model(steps: Seq<ProtocolStep>) -> Seq<StepModel> {
    steps.map_values(|step: ProtocolStep| step_model(step))
}

/// The vendor-mandated initialization sequence: one busy wait, then a fixed
/// ordered table of configuration commands, issued strictly in this order.
/// The register values are opaque vendor configuration, not derived logic.
pub open spec fn init_sequence() -> Seq<StepModel> {
    seq![
        StepModel::WaitBusy(INIT_BUSY_MS),
        StepModel::Send(
            ChipSelect::CS0,
            CMD_ANTM,
            seq![0xC0u8, 0x1C, 0x1C, 0xCC, 0xCC, 0xCC, 0x15, 0x15, 0x55],
        ),
        StepModel::Send(ChipSelect::Both, CMD_CMD66, seq![0x49u8, 0x55, 0x13, 0x5D, 0x05, 0x10]),
        StepModel::Send(ChipSelect::Both, CMD_PSR, seq![0xDFu8, 0x69]),
        StepModel::Send(ChipSelect::Both, CMD_PLL, seq![0x08u8]),
        StepModel::Send(ChipSelect::Both, CMD_CDI, seq![0xF7u8]),
        StepModel::Send(ChipSelect::Both, CMD_TCON, seq![0x03u8, 0x03]),
        StepModel::Send(ChipSelect::Both, CMD_AGID, seq![0x10u8]),
        StepModel::Send(ChipSelect::Both, CMD_PWS, seq![0x22u8]),
        StepModel::Send(ChipSelect::Both, CMD_CCSET, seq![0x01u8]),
        StepModel::Send(ChipSelect::Both, CMD_TRES, seq![0x04u8, 0xB0, 0x03, 0x20]),
        StepModel::Send(ChipSelect::CS0, CMD_PWR, seq![0x0Fu8, 0x00, 0x28, 0x2C, 0x28, 0x38]),
        StepModel::Send(ChipSelect::CS0, CMD_EN_BUF, seq![0x07u8]),
        StepModel::Send(ChipSelect::CS0, CMD_BTST_P, seq![0xD8u8, 0x18]),
        StepModel::Send(ChipSelect::CS0, CMD_BOOST_VDDP_EN, seq![0x01u8]),
        StepModel::Send(ChipSelect::CS0, CMD_BTST_N, seq![0xD8u8, 0x18]),
        StepModel::Send(ChipSelect::CS0, CMD_BUCK_BOOST_VDDN, seq![0x01u8]),
        StepModel::Send(ChipSelect::CS0, CMD_TFT_VCOM_POWER, seq![0x02u8]),
    ]
}

/// Plan the initialization of the panel: the busy wait and the vendor
/// configuration table of `init_sequence`, in order.
pub fn plan_initialize() -> (r: Vec<ProtocolStep>)
    ensures
        steps_model(r@) == init_sequence(),
{
    let steps: Vec<ProtocolStep> = vec![
        ProtocolStep::WaitBusy(INIT_BUSY_MS),
        ProtocolStep::Send(
            ChipSelect::CS0,
            CMD_ANTM,
            vec![0xC0u8, 0x1C, 0x1C, 0xCC, 0xCC, 0xCC, 0x15, 0x15, 0x55],
        ),
        ProtocolStep::Send(
            ChipSelect::Both,
            CMD_CMD66,
            vec![0x49u8, 0x55, 0x13, 0x5D, 0x05, 0x10],
        ),
        ProtocolStep::Send(ChipSelect::Both, CMD_PSR, vec![0xDFu8, 0x69]),
        ProtocolStep::Send(ChipSelect::Both, CMD_PLL, vec![0x08u8]),
        ProtocolStep::Send(ChipSelect::Both, CMD_CDI, vec![0xF7u8]),
        ProtocolStep::Send(ChipSelect::Both, CMD_TCON, vec![0x03u8, 0x03]),
        ProtocolStep::Send(ChipSelect::Both, CMD_AGID, vec![0x10u8]),
        ProtocolStep::Send(ChipSelect::Both, CMD_PWS, vec![0x22u8]),
        ProtocolStep::Send(ChipSelect::Both, CMD_CCSET, vec![0x01u8]),
        ProtocolStep::Send(ChipSelect::Both, CMD_TRES, vec![0x04u8, 0xB0, 0x03, 0x20]),
        ProtocolStep::Send(ChipSelect::CS0, CMD_PWR, vec![0x0Fu8, 0x00, 0x28, 0x2C, 0x28, 0x38]),
        ProtocolStep::Send(ChipSelect::CS0, CMD_EN_BUF, vec![0x07u8]),
        ProtocolStep::Send(ChipSelect::CS0, CMD_BTST_P, vec![0xD8u8, 0x18]),
        ProtocolStep::Send(ChipSelect::CS0, CMD_BOOST_VDDP_EN, vec![0x01u8]),
        ProtocolStep::Send(ChipSelect::CS0, CMD_BTST_N, vec![0xD8u8, 0x18]),
        ProtocolStep::Send(ChipSelect::CS0, CMD_BUCK_BOOST_VDDN, vec![0x01u8]),
        ProtocolStep::Send(ChipSelect::CS0, CMD_TFT_VCOM_POWER, vec![0x02u8]),
    ];
    proof {
        assert(steps_model(steps@) =~~= init_sequence());
    }
    steps
}

/// The step sequence of one frame commit: both payloads as data
/// transmissions (controller 0 first), power on, a short busy wait, display
/// refresh, a long busy wait for the physical refresh, power off, and a
/// final short busy wait — in exactly that order.
pub open spec fn commit_sequence(payload_a: Seq<u8>, payload_b: Seq<u8>) -> Seq<StepModel> {
    seq![
        StepModel::Send(ChipSelect::CS0, CMD_DTM, payload_a),
        StepModel::Send(ChipSelect::CS1, CMD_DTM, payload_b),
        StepModel::Send(ChipSelect::Both, CMD_PON, seq![]),
        StepModel::WaitBusy(POWER_BUSY_MS),
        StepModel::Send(ChipSelect::Both, CMD_DRF, seq![0x00u8]),
        StepModel::WaitBusy(REFRESH_BUSY_MS),
        StepModel::Send(ChipSelect::Both, CMD_POF, seq![0x00u8]),
        StepModel::WaitBusy(POWER_BUSY_MS),
    ]
}

/// Plan the commit of one frame from its two wire payloads.
pub fn plan_commit_frame(payload_a: Vec<u8>, payload_b: Vec<u8>) -> (r: Vec<ProtocolStep>)
    ensures
        steps_model(r@) == commit_sequence(payload_a@, payload_b@),
{
    let ghost ga: Seq<u8> = payload_a@;
    let ghost gb: Seq<u8> = payload_b@;
    let steps: Vec<ProtocolStep> = vec![
        ProtocolStep::Send(ChipSelect::CS0, CMD_DTM, payload_a),
        ProtocolStep::Send(ChipSelect::CS1, CMD_DTM, payload_b),
        ProtocolStep::Send(ChipSelect::Both, CMD_PON, vec![]),
        ProtocolStep::WaitBusy(POWER_BUSY_MS),
        ProtocolStep::Send(ChipSelect::Both, CMD_DRF, vec![0x00u8]),
        ProtocolStep::WaitBusy(REFRESH_BUSY_MS),
        ProtocolStep::Send(ChipSelect::Both, CMD_POF, vec![0x00u8]),
        ProtocolStep::WaitBusy(POWER_BUSY_MS),
    ];
    proof {
        assert(steps_model(steps@) =~~= commit_sequence(ga, gb));
    }
    steps
}

/// Plan the commit of the current frame of a buffer: compute both wire
/// payloads and sequence them through `commit_sequence`.
pub fn plan_show(buffer: &PixelBuffer) -> (r: Vec<ProtocolStep>)
    requires
        buffer.wf(),
        buffer.spec_height() >= SPLIT_COL,
    ensures
        steps_model(r@) == commit_sequence(
            pack_spec(
                split_left(
                    rotate_grid(buffer@, buffer.spec_width() as int, buffer.spec_height() as int),
                    buffer.spec_height() as int,
                    buffer.spec_width() as int,
                    SPLIT_COL as int,
                ),
            ),
            pack_spec(
                split_right(
                    rotate_grid(buffer@, buffer.spec_width() as int, buffer.spec_height() as int),
                    buffer.spec_height() as int,
                    buffer.spec_width() as int,
                    SPLIT_COL as int,
                ),
            ),
        ),
{
    let payloads = buffer.rotate_and_split();
    plan_commit_frame(payloads.0, payloads.1)
}

} // verus!

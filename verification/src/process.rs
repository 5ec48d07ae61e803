//! The making and sending of the shreds of one batch of entries, as a machine: each action is
//! carried out by the caller, whose answer brings the next action.
use crate::metrics::BroadcastShredBatchInfo;
use crate::run::{ProcessShredsReport, RunState, StandardBroadcastRun};
use crate::shred::{batch_starts_at_zero, extend_shared, DataShredHeader, Shred};
use crate::stats::{BatchTimings, Elapsed, ProcessShredsStats};
use crate::unfinished::{take_shreds_to_code, UnfinishedSlot, UnfinishedSlotInfo};
use std::sync::Arc;
use std::time::Instant;
use vstd::prelude::*;

verus! {

/// What is read of the bank whose entries are broadcast.
#[derive(Clone, Copy, Debug, PartialEq, Eq, Structural)]
pub struct BankState {
    pub slot: u64,
    pub parent_slot: u64,
    pub ticks_per_slot: u64,
    pub tick_height: u64,
    pub max_tick_height: u64,
}

/// A batch of entries that was received from the bank. The entries themselves stay with the caller.
#[derive(Clone, Copy, Debug, PartialEq, Eq, Structural)]
pub struct ReceiveResults {
    pub time_elapsed: Elapsed,
    pub bank: BankState,
    pub last_tick_height: u64,
}

/// What stays the same while a batch is processed.
#[derive(Clone, Copy, Debug)]
pub struct BatchContext {
    pub slot: u64,
    pub parent_slot: u64,
    pub reference_tick: u8,
    pub is_last_in_slot: bool,
    pub receive_elapsed: Elapsed,
    /// When the broadcast of the slot of the batch before this one started.
    pub old_broadcast_start: Option<Instant>,
    /// How many batches had been made of that slot.
    pub old_num_batches: usize,
}

/// Where a batch of shreds is sent.
#[derive(Clone, Copy, Debug, PartialEq, Eq, Structural)]
pub enum Channel {
    Socket,
    Blockstore,
}

/// Which shreds are sent.
#[derive(Clone, Copy, Debug, PartialEq, Eq, Structural)]
pub enum BatchKind {
    /// Those that close the interrupted slot.
    PrevSlot,
    Data,
    Coding,
}

/// How far the processing of a batch has come: the answer that it waits for.
#[derive(Debug)]
pub enum Phase {
    /// The shred that closes the interrupted slot.
    LastShred,
    /// The coding shreds of the interrupted slot, which `last` closes.
    PrevCoding { last: Shred },
    /// That the figures of the interrupted slot were submitted.
    PrevReport,
    /// What the ledger knows of the slot.
    SlotMeta,
    /// The data shreds of the entries.
    Shredding { fec_set_offset: u32 },
    /// That the first shred of the slot is stored.
    FirstShred,
    /// That a batch of shreds was sent.
    Sending { kind: BatchKind, to: Channel },
    /// The coding shreds of the batch.
    Coding,
    /// How long the steps of the batch took.
    Timings,
    /// That the figures of the finished slot were submitted.
    FinalReport,
    /// Nothing: all is done.
    Complete,
    /// Nothing: a receiver of shreds is gone.
    Aborted,
}

/// How the entries of a batch are to be turned into data shreds.
#[derive(Clone, Copy, Debug, PartialEq, Eq, Structural)]
pub struct ShreddingPlan {
    pub slot: u64,
    pub parent_slot: u64,
    pub reference_tick: u8,
    pub version: u16,
    pub is_slot_end: bool,
    pub next_shred_index: u32,
    pub fec_set_offset: u32,
    pub stats: ProcessShredsStats,
}

/// What the caller is to do next. `S` is a batch of shreds.
#[derive(Debug)]
pub enum Action<S> {
    /// Make, sign and serialize an empty data shred. Answer: [`Event::LastShred`].
    MakeLastShred(DataShredHeader),
    /// Make the coding shreds of `data_shreds`, adding to `stats` what it takes. Answer:
    /// [`Event::CodingShreds`].
    MakeCodingShreds { data_shreds: S, stats: ProcessShredsStats },
    /// Submit the figures of a slot. Answer: [`Event::Done`].
    SubmitReport(ProcessShredsReport),
    /// Read from the ledger how many shreds of the slot it has consumed. Answer:
    /// [`Event::SlotMeta`].
    ReadSlotMeta { slot: u64 },
    /// Turn the entries into data shreds. Answer: [`Event::DataShreds`].
    ShredEntries(ShreddingPlan),
    /// Store the first shred of the slot in the ledger. Answer: [`Event::Done`].
    StoreFirstShred(Shred),
    /// Send shreds. Answer: [`Event::Done`] or [`Event::SendFailed`].
    Send { to: Channel, shreds: S, batch_info: BroadcastShredBatchInfo },
    /// Tell how long the steps took. Answer: [`Event::Timings`].
    MeasureTimings,
    /// Nothing: the batch is processed.
    Complete,
    /// Nothing: the batch is given up.
    Abort,
}

/// The caller's answer to an action. `S` is a batch of shreds.
#[derive(Debug)]
pub enum Event<S> {
    /// The serialized shred.
    LastShred(Arc<Vec<u8>>),
    CodingShreds { shreds: S, stats: ProcessShredsStats },
    /// How many shreds the ledger has consumed of the slot, if it knows the slot.
    SlotMeta(Option<u64>),
    DataShreds { shreds: S, next_shred_index: u32, stats: ProcessShredsStats },
    Done,
    SendFailed,
    Timings(BatchTimings),
}

/// The processing of one batch.
#[derive(Debug)]
pub struct Processing {
    pub context: BatchContext,
    pub stats: ProcessShredsStats,
    /// The shreds that close the interrupted slot, if there is one.
    pub prev_slot_shreds: Arc<Vec<Shred>>,
    pub data_shreds: Arc<Vec<Shred>>,
    pub coding_shreds: Arc<Vec<Shred>>,
    pub phase: Phase,
}

/// What a [`Processing`] holds.
pub struct ProcessingState {
    pub context: BatchContext,
    pub stats: ProcessShredsStats,
    pub prev_slot_shreds: Seq<Shred>,
    pub data_shreds: Seq<Shred>,
    pub coding_shreds: Seq<Shred>,
    pub phase: Phase,
}

/// The broadcast, the processing of a batch, and what the caller is to do next.
pub struct Stage {
    pub run: RunState,
    pub processing: ProcessingState,
    pub action: Action<Seq<Shred>>,
}

impl View for Processing {
    type V = ProcessingState;

    open spec fn view(&self) -> ProcessingState {
        ProcessingState {
            context: self.context,
            stats: self.stats,
            prev_slot_shreds: self.prev_slot_shreds@,
            data_shreds: self.data_shreds@,
            coding_shreds: self.coding_shreds@,
            phase: self.phase,
        }
    }
}

impl View for Action<Arc<Vec<Shred>>> {
    type V = Action<Seq<Shred>>;

    open spec fn view(&self) -> Action<Seq<Shred>> {
        match *self {
            Action::MakeLastShred(header) => Action::MakeLastShred(header),
            Action::MakeCodingShreds { data_shreds, stats } => Action::MakeCodingShreds {
                data_shreds: data_shreds@,
                stats,
            },
            Action::SubmitReport(report) => Action::SubmitReport(report),
            Action::ReadSlotMeta { slot } => Action::ReadSlotMeta { slot },
            Action::ShredEntries(plan) => Action::ShredEntries(plan),
            Action::StoreFirstShred(shred) => Action::StoreFirstShred(shred),
            Action::Send { to, shreds, batch_info } => Action::Send {
                to,
                shreds: shreds@,
                batch_info,
            },
            Action::MeasureTimings => Action::MeasureTimings,
            Action::Complete => Action::Complete,
            Action::Abort => Action::Abort,
        }
    }
}

impl View for Event<Vec<Shred>> {
    type V = Event<Seq<Shred>>;

    open spec fn view(&self) -> Event<Seq<Shred>> {
        match *self {
            Event::LastShred(payload) => Event::LastShred(payload),
            Event::CodingShreds { shreds, stats } => Event::CodingShreds {
                shreds: shreds@,
                stats,
            },
            Event::SlotMeta(consumed) => Event::SlotMeta(consumed),
            Event::DataShreds { shreds, next_shred_index, stats } => Event::DataShreds {
                shreds: shreds@,
                next_shred_index,
                stats,
            },
            Event::Done => Event::Done,
            Event::SendFailed => Event::SendFailed,
            Event::Timings(timings) => Event::Timings(timings),
        }
    }
}

impl RunState {
    /// Whether a bank at `slot` opens a slot.
    pub open spec fn opens_slot(self, slot: u64) -> bool {
        match self.current_slot_and_parent {
            None => true,
            Some((current_slot, _)) => slot != current_slot,
        }
    }

    /// Whether the batches of shreds that a batch of entries of `slot` brings can be counted
    /// within the range of the counter: two of the slot, or one that closes the slot before.
    pub open spec fn can_count(self, slot: u64) -> bool {
        if self.opens_slot(slot) {
            self.unfinished is Some ==> self.num_batches < usize::MAX
        } else {
            self.num_batches <= usize::MAX - 2
        }
    }

    /// This state once a batch of `bank` has been received at `now`.
    pub open spec fn at_slot(self, bank: BankState, now: Instant) -> RunState {
        if self.opens_slot(bank.slot) {
            RunState {
                current_slot_and_parent: Some((bank.slot, bank.parent_slot)),
                slot_broadcast_start: Some(now),
                num_batches: 0,
                ..self
            }
        } else {
            self
        }
    }

    /// The information that goes with the data and the coding shreds of a batch, once they are
    /// counted in `num_batches`: the last batch of a slot tells how many batches the slot has.
    pub open spec fn batch_info(self, context: BatchContext) -> BroadcastShredBatchInfo {
        BroadcastShredBatchInfo {
            slot: context.slot,
            num_expected_batches: if context.is_last_in_slot {
                Some(self.num_batches)
            } else {
                None
            },
            slot_start_ts: self.slot_broadcast_start->0,
        }
    }
}

impl ProcessingState {
    /// The information that goes with the shreds that close the interrupted slot: they are one
    /// batch more than those of that slot so far, and its last.
    pub open spec fn closing_info(self) -> BroadcastShredBatchInfo {
        BroadcastShredBatchInfo {
            slot: self.prev_slot_shreds[0].slot,
            num_expected_batches: Some((self.context.old_num_batches + 1) as usize),
            slot_start_ts: self.context.old_broadcast_start->0,
        }
    }

    /// The figures of the batch.
    pub open spec fn batch_stats(self, timings: BatchTimings) -> ProcessShredsStats {
        ProcessShredsStats {
            shredding_elapsed: timings.shredding_elapsed,
            get_leader_schedule_elapsed: timings.get_leader_schedule_elapsed,
            receive_elapsed: self.context.receive_elapsed.micros() as u64,
            coding_send_elapsed: timings.coding_send_elapsed,
            ..self.stats
        }
    }

    /// Whether `event` answers the action that this processing has asked for.
    pub open spec fn awaits<S>(self, event: Event<S>) -> bool {
        match self.phase {
            Phase::LastShred => event is LastShred,
            Phase::PrevCoding { .. } => event is CodingShreds,
            Phase::PrevReport => event is Done,
            Phase::SlotMeta => event is SlotMeta,
            Phase::Shredding { .. } => event is DataShreds,
            Phase::FirstShred => event is Done,
            Phase::Sending { .. } => event is Done || event is SendFailed,
            Phase::Coding => event is CodingShreds,
            Phase::Timings => event is Timings,
            Phase::FinalReport => event is Done,
            Phase::Complete => false,
            Phase::Aborted => false,
        }
    }

    pub open spec fn at(self, phase: Phase) -> ProcessingState {
        ProcessingState { phase, ..self }
    }
}

/// Asks for the data shreds of the entries. Where shreds of the slot were made before, the next
/// shred follows them; else the ledger is asked how many shreds it has consumed of the slot.
pub open spec fn shred_entries(run: RunState, processing: ProcessingState) -> Stage {
    match run.unfinished {
        Some(u) => shred_entries_from(run, processing, u.next_shred_index, u.fec_set_offset),
        None => Stage {
            run,
            processing: processing.at(Phase::SlotMeta),
            action: Action::ReadSlotMeta { slot: processing.context.slot },
        },
    }
}

pub open spec fn shred_entries_from(
    run: RunState,
    processing: ProcessingState,
    next_shred_index: u32,
    fec_set_offset: u32,
) -> Stage {
    Stage {
        run,
        processing: processing.at(Phase::Shredding { fec_set_offset }),
        action: Action::ShredEntries(
            ShreddingPlan {
                slot: processing.context.slot,
                parent_slot: processing.context.parent_slot,
                reference_tick: processing.context.reference_tick,
                version: run.shred_version,
                is_slot_end: processing.context.is_last_in_slot,
                next_shred_index,
                fec_set_offset,
                stats: processing.stats,
            },
        ),
    }
}

/// Sends what closes the interrupted slot, if there is one, and else the data shreds.
pub open spec fn send_shreds(run: RunState, processing: ProcessingState) -> Stage {
    if processing.prev_slot_shreds.len() > 0 {
        Stage {
            run,
            processing: processing.at(
                Phase::Sending { kind: BatchKind::PrevSlot, to: Channel::Socket },
            ),
            action: Action::Send {
                to: Channel::Socket,
                shreds: processing.prev_slot_shreds,
                batch_info: processing.closing_info(),
            },
        }
    } else {
        send_data(run, processing)
    }
}

/// Counts two batches, one of data and one of coding shreds, and sends the data shreds.
pub open spec fn send_data(run: RunState, processing: ProcessingState) -> Stage {
    let counted = RunState { num_batches: (run.num_batches + 2) as usize, ..run };
    Stage {
        run: counted,
        processing: processing.at(Phase::Sending { kind: BatchKind::Data, to: Channel::Socket }),
        action: Action::Send {
            to: Channel::Socket,
            shreds: processing.data_shreds,
            batch_info: counted.batch_info(processing.context),
        },
    }
}

/// The start of the processing of a batch that was received at `now`.
pub open spec fn start(run: RunState, results: ReceiveResults, now: Instant) -> Stage {
    let at_slot = run.at_slot(results.bank, now);
    let processing = ProcessingState {
        context: BatchContext {
            slot: results.bank.slot,
            parent_slot: match at_slot.current_slot_and_parent {
                Some((_, parent_slot)) => parent_slot,
                None => 0,
            },
            reference_tick: (results.bank.tick_height % results.bank.ticks_per_slot % 0x100) as u8,
            is_last_in_slot: results.last_tick_height == results.bank.max_tick_height,
            receive_elapsed: if run.opens_slot(results.bank.slot) {
                Elapsed::spec_zero()
            } else {
                results.time_elapsed
            },
            old_broadcast_start: run.slot_broadcast_start,
            old_num_batches: run.num_batches,
        },
        stats: ProcessShredsStats::spec_zero(),
        prev_slot_shreds: Seq::empty(),
        data_shreds: Seq::empty(),
        coding_shreds: Seq::empty(),
        phase: Phase::LastShred,
    };
    if at_slot.is_interrupted() {
        Stage {
            run: at_slot,
            processing,
            action: Action::MakeLastShred(
                at_slot.closing_header((results.bank.ticks_per_slot % 0x100) as u8),
            ),
        }
    } else {
        shred_entries(at_slot, processing)
    }
}

/// What an answer brings.
pub open spec fn next(run: RunState, processing: ProcessingState, event: Event<Seq<Shred>>) -> Stage {
    match (processing.phase, event) {
        (Phase::LastShred, Event::LastShred(payload)) => {
            let u = run.unfinished->0;
            let shred = u.closing_shred(payload);
            let closed = UnfinishedSlot { buffer: u.buffer.push(shred), ..u };
            Stage {
                run: RunState { unfinished: Some(closed.without_coded(true)), ..run },
                processing: processing.at(Phase::PrevCoding { last: shred }),
                action: Action::MakeCodingShreds {
                    data_shreds: closed.to_code(true),
                    stats: processing.stats,
                },
            }
        },
        (Phase::PrevCoding { last }, Event::CodingShreds { shreds, stats }) => Stage {
            run: run.without_slot(),
            processing: ProcessingState {
                stats,
                prev_slot_shreds: seq![last] + shreds,
                phase: Phase::PrevReport,
                ..processing
            },
            action: Action::SubmitReport(run.report()),
        },
        (Phase::PrevReport, Event::Done) => shred_entries(run, processing),
        (Phase::SlotMeta, Event::SlotMeta(consumed)) => {
            let index = match consumed {
                Some(n) => (n % 0x1_0000_0000) as u32,
                None => 0,
            };
            shred_entries_from(run, processing, index, index)
        },
        (
            Phase::Shredding { fec_set_offset },
            Event::DataShreds { shreds, next_shred_index, stats },
        ) => {
            let buffered = match run.unfinished {
                Some(u) => u.buffer,
                None => Seq::empty(),
            };
            let run = RunState {
                unfinished: Some(
                    UnfinishedSlot {
                        next_shred_index,
                        slot: processing.context.slot,
                        parent: processing.context.parent_slot,
                        buffer: buffered + shreds,
                        fec_set_offset,
                    },
                ),
                ..run
            };
            let processing = ProcessingState { stats, data_shreds: shreds, ..processing };
            if crate::shred::starts_at_zero(shreds) {
                Stage {
                    run,
                    processing: processing.at(Phase::FirstShred),
                    action: Action::StoreFirstShred(shreds[0]),
                }
            } else {
                send_shreds(run, processing)
            }
        },
        (Phase::FirstShred, Event::Done) => send_shreds(run, processing),
        (Phase::Sending { kind, to: Channel::Socket }, Event::Done) => {
            let (shreds, batch_info) = match kind {
                BatchKind::PrevSlot => (processing.prev_slot_shreds, processing.closing_info()),
                BatchKind::Data => (processing.data_shreds, run.batch_info(processing.context)),
                BatchKind::Coding => (processing.coding_shreds, run.batch_info(processing.context)),
            };
            Stage {
                run,
                processing: processing.at(Phase::Sending { kind, to: Channel::Blockstore }),
                action: Action::Send { to: Channel::Blockstore, shreds, batch_info },
            }
        },
        (Phase::Sending { kind: BatchKind::PrevSlot, to: Channel::Blockstore }, Event::Done) =>
            send_data(run, processing),
        (Phase::Sending { kind: BatchKind::Data, to: Channel::Blockstore }, Event::Done) => {
            let u = run.unfinished->0;
            let is_slot_end = processing.context.is_last_in_slot;
            Stage {
                run: RunState { unfinished: Some(u.without_coded(is_slot_end)), ..run },
                processing: processing.at(Phase::Coding),
                action: Action::MakeCodingShreds {
                    data_shreds: u.to_code(is_slot_end),
                    stats: processing.stats,
                },
            }
        },
        (Phase::Coding, Event::CodingShreds { shreds, stats }) => Stage {
            run,
            processing: ProcessingState {
                stats,
                coding_shreds: shreds,
                phase: Phase::Sending { kind: BatchKind::Coding, to: Channel::Socket },
                ..processing
            },
            action: Action::Send {
                to: Channel::Socket,
                shreds,
                batch_info: run.batch_info(processing.context),
            },
        },
        (Phase::Sending { kind: BatchKind::Coding, to: Channel::Blockstore }, Event::Done) => Stage {
            run,
            processing: processing.at(Phase::Timings),
            action: Action::MeasureTimings,
        },
        (Phase::Timings, Event::Timings(timings)) => {
            let stats = processing.batch_stats(timings);
            let run = RunState {
                process_shreds_stats: run.process_shreds_stats.plus(stats),
                ..run
            };
            let processing = ProcessingState { stats, ..processing };
            if processing.context.is_last_in_slot {
                Stage {
                    run: run.without_slot(),
                    processing: processing.at(Phase::FinalReport),
                    action: Action::SubmitReport(run.report()),
                }
            } else {
                Stage {
                    run,
                    processing: processing.at(Phase::Complete),
                    action: Action::Complete,
                }
            }
        },
        (Phase::FinalReport, Event::Done) => Stage {
            run,
            processing: processing.at(Phase::Complete),
            action: Action::Complete,
        },
        // A receiver of shreds is gone.
        _ => Stage { run, processing: processing.at(Phase::Aborted), action: Action::Abort },
    }
}

/// Whether shreds of the slot of the batch were made.
pub open spec fn slot_is_under_way(run: RunState, context: BatchContext) -> bool {
    run.unfinished matches Some(u) && u.slot == context.slot && u.parent == context.parent_slot
}

/// What holds while a batch is processed.
pub open spec fn inv(run: RunState, processing: ProcessingState) -> bool {
    let context = processing.context;
    &&& run.current_slot_and_parent == Some((context.slot, context.parent_slot))
    &&& context.parent_slot <= context.slot
    &&& run.slot_broadcast_start is Some
    &&& context.receive_elapsed.wf()
    &&& processing.prev_slot_shreds.len() > 0 ==> context.old_broadcast_start is Some
        && context.old_num_batches < usize::MAX
    &&& match processing.phase {
        Phase::LastShred | Phase::PrevCoding { .. } => {
            &&& run.unfinished is Some
            &&& context.old_broadcast_start is Some
            &&& context.old_num_batches < usize::MAX
            &&& run.num_batches <= usize::MAX - 2
        },
        Phase::PrevReport | Phase::SlotMeta => {
            &&& run.unfinished is None
            &&& run.num_batches <= usize::MAX - 2
        },
        Phase::Shredding { .. } => {
            &&& run.unfinished is Some ==> slot_is_under_way(run, context)
            &&& run.num_batches <= usize::MAX - 2
        },
        Phase::FirstShred => {
            &&& slot_is_under_way(run, context)
            &&& run.num_batches <= usize::MAX - 2
        },
        Phase::Sending { kind, .. } => {
            &&& slot_is_under_way(run, context)
            &&& kind is PrevSlot ==> processing.prev_slot_shreds.len() > 0 && run.num_batches
                <= usize::MAX - 2
        },
        Phase::Coding | Phase::Timings => slot_is_under_way(run, context),
        Phase::FinalReport => run.unfinished is None,
        Phase::Complete | Phase::Aborted => run.unfinished is Some ==> slot_is_under_way(
            run,
            context,
        ),
    }
}

/// A batch that is processed or given up leaves the broadcast ready for the next batch.
pub proof fn lemma_ready_for_the_next_batch(run: RunState, processing: ProcessingState)
    requires
        inv(run, processing),
        processing.phase is Complete || processing.phase is Aborted,
    ensures
        run.wf(),
{
}

impl Processing {
    /// Whether `event` answers the action that this processing has asked for.
    pub fn expects(&self, event: &Event<Vec<Shred>>) -> (b: bool)
        ensures
            b == self@.awaits(event@),
    {
        match (&self.phase, event) {
            (Phase::LastShred, Event::LastShred(_)) => true,
            (Phase::PrevCoding { .. }, Event::CodingShreds { .. }) => true,
            (Phase::PrevReport, Event::Done) => true,
            (Phase::SlotMeta, Event::SlotMeta(_)) => true,
            (Phase::Shredding { .. }, Event::DataShreds { .. }) => true,
            (Phase::FirstShred, Event::Done) => true,
            (Phase::Sending { .. }, Event::Done) => true,
            (Phase::Sending { .. }, Event::SendFailed) => true,
            (Phase::Coding, Event::CodingShreds { .. }) => true,
            (Phase::Timings, Event::Timings(_)) => true,
            (Phase::FinalReport, Event::Done) => true,
            _ => false,
        }
    }

    /// The figures of the batch.
    pub fn batch_stats(&self, timings: &BatchTimings) -> (stats: ProcessShredsStats)
        requires
            self.context.receive_elapsed.wf(),
        ensures
            stats == self@.batch_stats(*timings),
    {
        let mut stats = self.stats;
        stats.shredding_elapsed = timings.shredding_elapsed;
        stats.get_leader_schedule_elapsed = timings.get_leader_schedule_elapsed;
        stats.receive_elapsed = self.context.receive_elapsed.as_us();
        stats.coding_send_elapsed = timings.coding_send_elapsed;
        stats
    }

    /// The information that goes with the shreds that close the interrupted slot.
    fn closing_info(&self) -> (info: BroadcastShredBatchInfo)
        requires
            self@.prev_slot_shreds.len() > 0,
            self.context.old_broadcast_start is Some,
            self.context.old_num_batches < usize::MAX,
        ensures
            info == self@.closing_info(),
    {
        BroadcastShredBatchInfo {
            slot: self.prev_slot_shreds[0].slot,
            num_expected_batches: Some(self.context.old_num_batches + 1),
            slot_start_ts: self.context.old_broadcast_start.expect(
                "Old broadcast start time for previous slot must exist if the previous slot was interrupted",
            ),
        }
    }
}

impl StandardBroadcastRun {
    /// The information that goes with the data and the coding shreds of a batch.
    fn batch_info(&self, context: &BatchContext) -> (info: BroadcastShredBatchInfo)
        requires
            self.slot_broadcast_start is Some,
        ensures
            info == self.state().batch_info(*context),
    {
        BroadcastShredBatchInfo {
            slot: context.slot,
            num_expected_batches: if context.is_last_in_slot {
                Some(self.num_batches)
            } else {
                None
            },
            slot_start_ts: self.slot_broadcast_start.expect(
                "Start timestamp must exist for a slot if we're broadcasting the slot",
            ),
        }
    }

    /// Asks for the data shreds of the entries.
    fn shred_entries(&self, processing: &mut Processing) -> (action: Action<Arc<Vec<Shred>>>)
        ensures
            (Stage { run: self.state(), processing: final(processing)@, action: action@ })
                == shred_entries(self.state(), old(processing)@),
    {
        match &self.unfinished_slot {
            Some(state) => self.shred_entries_from(
                processing,
                state.next_shred_index,
                state.fec_set_offset,
            ),
            None => {
                processing.phase = Phase::SlotMeta;
                Action::ReadSlotMeta { slot: processing.context.slot }
            },
        }
    }

    /// Asks for the data shreds of the entries, from `next_shred_index` on.
    fn shred_entries_from(
        &self,
        processing: &mut Processing,
        next_shred_index: u32,
        fec_set_offset: u32,
    ) -> (action: Action<Arc<Vec<Shred>>>)
        ensures
            (Stage { run: self.state(), processing: final(processing)@, action: action@ })
                == shred_entries_from(
                self.state(),
                old(processing)@,
                next_shred_index,
                fec_set_offset,
            ),
    {
        processing.phase = Phase::Shredding { fec_set_offset };
        Action::ShredEntries(
            ShreddingPlan {
                slot: processing.context.slot,
                parent_slot: processing.context.parent_slot,
                reference_tick: processing.context.reference_tick,
                version: self.shred_version,
                is_slot_end: processing.context.is_last_in_slot,
                next_shred_index,
                fec_set_offset,
                stats: processing.stats,
            },
        )
    }

    /// Sends what closes the interrupted slot, if there is one, and else the data shreds.
    fn send_shreds(&mut self, processing: &mut Processing) -> (action: Action<Arc<Vec<Shred>>>)
        requires
            old(self).slot_broadcast_start is Some,
            old(self).num_batches <= usize::MAX - 2,
            old(processing)@.prev_slot_shreds.len() > 0 ==> {
                &&& old(processing).context.old_broadcast_start is Some
                &&& old(processing).context.old_num_batches < usize::MAX
            },
        ensures
            (Stage { run: final(self).state(), processing: final(processing)@, action: action@ })
                == send_shreds(old(self).state(), old(processing)@),
            final(self).differs_in_state_only(old(self)),
    {
        // Broadcast the last shred of the interrupted slot if necessary.
        if !processing.prev_slot_shreds.is_empty() {
            processing.phase = Phase::Sending { kind: BatchKind::PrevSlot, to: Channel::Socket };
            Action::Send {
                to: Channel::Socket,
                shreds: processing.prev_slot_shreds.clone(),
                batch_info: processing.closing_info(),
            }
        } else {
            self.send_data(processing)
        }
    }

    /// Counts the batches of data and of coding shreds, and sends the data shreds.
    fn send_data(&mut self, processing: &mut Processing) -> (action: Action<Arc<Vec<Shred>>>)
        requires
            old(self).slot_broadcast_start is Some,
            old(self).num_batches <= usize::MAX - 2,
        ensures
            (Stage { run: final(self).state(), processing: final(processing)@, action: action@ })
                == send_data(old(self).state(), old(processing)@),
            final(self).differs_in_state_only(old(self)),
    {
        // Increment by two batches, one for the data batch, one for the coding batch.
        self.num_batches += 2;
        processing.phase = Phase::Sending { kind: BatchKind::Data, to: Channel::Socket };
        Action::Send {
            to: Channel::Socket,
            shreds: processing.data_shreds.clone(),
            batch_info: self.batch_info(&processing.context),
        }
    }

    /// Starts the processing of a batch that was received at `now`. The action is to be carried
    /// out, and its answer given to [`StandardBroadcastRun::step`].
    pub fn process_receive_results(
        &mut self,
        receive_results: &ReceiveResults,
        now: Instant,
    ) -> (started: (Processing, Action<Arc<Vec<Shred>>>))
        requires
            old(self).state().wf(),
            old(self).state().can_count(receive_results.bank.slot),
            old(self).state().opens_slot(receive_results.bank.slot)
                ==> receive_results.bank.parent_slot <= receive_results.bank.slot,
            receive_results.bank.ticks_per_slot > 0,
            receive_results.time_elapsed.wf(),
        ensures
            (Stage { run: final(self).state(), processing: started.0@, action: started.1@ })
                == start(old(self).state(), *receive_results, now),
            inv(final(self).state(), started.0@),
            final(self).differs_in_state_only(old(self)),
    {
        let bank: &BankState = &receive_results.bank;
        let mut receive_elapsed = receive_results.time_elapsed;
        let old_broadcast_start = self.slot_broadcast_start;
        let old_num_batches: usize = self.num_batches;
        let opens_slot: bool = match self.current_slot_and_parent {
            None => true,
            Some((current_slot, _)) => bank.slot != current_slot,
        };
        if opens_slot {
            self.slot_broadcast_start = Some(now);
            self.num_batches = 0;
            self.current_slot_and_parent = Some((bank.slot, bank.parent_slot));
            receive_elapsed = Elapsed::zero();
        }
        let (_, parent_slot) = self.current_slot_and_parent.unwrap();
        let tick: u64 = bank.tick_height % bank.ticks_per_slot;
        let max_ticks: u64 = bank.ticks_per_slot;
        assert(tick as u8 == tick % 0x100) by (bit_vector);
        assert(max_ticks as u8 == max_ticks % 0x100) by (bit_vector);
        let mut processing = Processing {
            context: BatchContext {
                slot: bank.slot,
                parent_slot,
                reference_tick: tick as u8,
                is_last_in_slot: receive_results.last_tick_height == bank.max_tick_height,
                receive_elapsed,
                old_broadcast_start,
                old_num_batches,
            },
            stats: ProcessShredsStats::zero(),
            prev_slot_shreds: Arc::new(Vec::new()),
            data_shreds: Arc::new(Vec::new()),
            coding_shreds: Arc::new(Vec::new()),
            phase: Phase::LastShred,
        };
        // Check if slot was interrupted.
        match self.finish_prev_slot(max_ticks as u8) {
            Some(header) => (processing, Action::MakeLastShred(header)),
            None => {
                let action = self.shred_entries(&mut processing);
                (processing, action)
            },
        }
    }

    /// Takes the answer to the last action of `processing`, and tells the next action.
    pub fn step(&mut self, processing: &mut Processing, event: Event<Vec<Shred>>) -> (action:
        Action<Arc<Vec<Shred>>>)
        requires
            inv(old(self).state(), old(processing)@),
            old(processing)@.awaits(event@),
            event matches Event::Timings(timings) ==> old(self).process_shreds_stats.spec_fits(
                old(processing)@.batch_stats(timings),
            ),
        ensures
            (Stage { run: final(self).state(), processing: final(processing)@, action: action@ })
                == next(old(self).state(), old(processing)@, event@),
            inv(final(self).state(), final(processing)@),
            final(self).differs_in_state_only(old(self)),
    {
        match event {
            Event::LastShred(payload) => self.close_prev_slot(processing, payload),
            Event::CodingShreds { shreds, stats } => self.coding_shreds_made(
                processing,
                shreds,
                stats,
            ),
            Event::SlotMeta(consumed) => {
                let index: u32 = match consumed {
                    Some(n) => {
                        assert(n as u32 == n % 0x1_0000_0000) by (bit_vector);
                        n as u32
                    },
                    None => 0,
                };
                self.shred_entries_from(processing, index, index)
            },
            Event::DataShreds { shreds, next_shred_index, stats } => self.data_shreds_made(
                processing,
                shreds,
                next_shred_index,
                stats,
            ),
            Event::Done => self.done(processing),
            Event::SendFailed => {
                processing.phase = Phase::Aborted;
                Action::Abort
            },
            Event::Timings(timings) => self.finish_batch(processing, timings),
        }
    }

    /// Buffers the shred that closes the interrupted slot, and asks for the coding shreds of all
    /// that is buffered.
    fn close_prev_slot(&mut self, processing: &mut Processing, payload: Arc<Vec<u8>>) -> (action:
        Action<Arc<Vec<Shred>>>)
        requires
            inv(old(self).state(), old(processing)@),
            old(processing).phase is LastShred,
        ensures
            (Stage { run: final(self).state(), processing: final(processing)@, action: action@ })
                == next(old(self).state(), old(processing)@, Event::LastShred(payload)),
            inv(final(self).state(), final(processing)@),
            final(self).differs_in_state_only(old(self)),
    {
        let state: &mut UnfinishedSlotInfo = self.unfinished_slot.as_mut().unwrap();
        let shred: Shred = state.closing_shred(payload);
        state.data_shreds_buffer.push(shred.share());
        let data_shreds: Vec<Shred> = take_shreds_to_code(&mut self.unfinished_slot, true);
        processing.phase = Phase::PrevCoding { last: shred };
        Action::MakeCodingShreds { data_shreds: Arc::new(data_shreds), stats: processing.stats }
    }

    /// Takes the coding shreds of the interrupted slot or of the batch.
    fn coding_shreds_made(
        &mut self,
        processing: &mut Processing,
        shreds: Vec<Shred>,
        stats: ProcessShredsStats,
    ) -> (action: Action<Arc<Vec<Shred>>>)
        requires
            inv(old(self).state(), old(processing)@),
            old(processing).phase is PrevCoding || old(processing).phase is Coding,
        ensures
            (Stage { run: final(self).state(), processing: final(processing)@, action: action@ })
                == next(
                old(self).state(),
                old(processing)@,
                Event::CodingShreds { shreds: shreds@, stats },
            ),
            inv(final(self).state(), final(processing)@),
            final(self).differs_in_state_only(old(self)),
    {
        processing.stats = stats;
        let closing: Option<Shred> = match &processing.phase {
            Phase::PrevCoding { last } => Some(last.share()),
            _ => None,
        };
        match closing {
            Some(last) => {
                let ghost coding = shreds@;
                let mut shreds = shreds;
                shreds.insert(0, last);
                assert(shreds@ =~= seq![last] + coding);
                processing.prev_slot_shreds = Arc::new(shreds);
                processing.phase = Phase::PrevReport;
                let report = self.report_and_reset_stats();
                self.unfinished_slot = None;
                Action::SubmitReport(report)
            },
            None => {
                let shreds: Arc<Vec<Shred>> = Arc::new(shreds);
                processing.coding_shreds = shreds.clone();
                processing.phase = Phase::Sending { kind: BatchKind::Coding, to: Channel::Socket };
                Action::Send {
                    to: Channel::Socket,
                    shreds,
                    batch_info: self.batch_info(&processing.context),
                }
            },
        }
    }

    /// Buffers the data shreds of the entries. The first shred of a slot is to be stored
    /// before the shreds are sent out over the wire.
    fn data_shreds_made(
        &mut self,
        processing: &mut Processing,
        shreds: Vec<Shred>,
        next_shred_index: u32,
        stats: ProcessShredsStats,
    ) -> (action: Action<Arc<Vec<Shred>>>)
        requires
            inv(old(self).state(), old(processing)@),
            old(processing).phase is Shredding,
        ensures
            (Stage { run: final(self).state(), processing: final(processing)@, action: action@ })
                == next(
                old(self).state(),
                old(processing)@,
                Event::DataShreds { shreds: shreds@, next_shred_index, stats },
            ),
            inv(final(self).state(), final(processing)@),
            final(self).differs_in_state_only(old(self)),
    {
        let fec_set_offset: u32 = match &processing.phase {
            Phase::Shredding { fec_set_offset } => *fec_set_offset,
            _ => 0,
        };
        let mut data_shreds_buffer: Vec<Shred> = match self.unfinished_slot.take() {
            Some(state) => state.data_shreds_buffer,
            None => Vec::new(),
        };
        extend_shared(&mut data_shreds_buffer, &shreds);
        self.unfinished_slot = Some(
            UnfinishedSlotInfo {
                next_shred_index,
                slot: processing.context.slot,
                parent: processing.context.parent_slot,
                data_shreds_buffer,
                fec_set_offset,
            },
        );
        processing.stats = stats;
        processing.data_shreds = Arc::new(shreds);
        if batch_starts_at_zero(&processing.data_shreds) {
            processing.phase = Phase::FirstShred;
            Action::StoreFirstShred(processing.data_shreds[0].share())
        } else {
            self.send_shreds(processing)
        }
    }

    /// Goes on after an action without a result.
    fn done(&mut self, processing: &mut Processing) -> (action: Action<Arc<Vec<Shred>>>)
        requires
            inv(old(self).state(), old(processing)@),
            old(processing)@.awaits(Event::<Seq<Shred>>::Done),
        ensures
            (Stage { run: final(self).state(), processing: final(processing)@, action: action@ })
                == next(old(self).state(), old(processing)@, Event::Done),
            inv(final(self).state(), final(processing)@),
            final(self).differs_in_state_only(old(self)),
    {
        let sending: Option<(BatchKind, Channel)> = match &processing.phase {
            Phase::Sending { kind, to } => Some((*kind, *to)),
            _ => None,
        };
        match sending {
            Some((kind, Channel::Socket)) => {
                let (shreds, batch_info): (Arc<Vec<Shred>>, BroadcastShredBatchInfo) = match kind {
                    BatchKind::PrevSlot => (
                        processing.prev_slot_shreds.clone(),
                        processing.closing_info(),
                    ),
                    BatchKind::Data => (
                        processing.data_shreds.clone(),
                        self.batch_info(&processing.context),
                    ),
                    BatchKind::Coding => (
                        processing.coding_shreds.clone(),
                        self.batch_info(&processing.context),
                    ),
                };
                processing.phase = Phase::Sending { kind, to: Channel::Blockstore };
                Action::Send { to: Channel::Blockstore, shreds, batch_info }
            },
            Some((BatchKind::PrevSlot, Channel::Blockstore)) => self.send_data(processing),
            Some((BatchKind::Data, Channel::Blockstore)) => {
                let data_shreds: Vec<Shred> = take_shreds_to_code(
                    &mut self.unfinished_slot,
                    processing.context.is_last_in_slot,
                );
                processing.phase = Phase::Coding;
                Action::MakeCodingShreds {
                    data_shreds: Arc::new(data_shreds),
                    stats: processing.stats,
                }
            },
            Some((BatchKind::Coding, Channel::Blockstore)) => {
                processing.phase = Phase::Timings;
                Action::MeasureTimings
            },
            None => match &processing.phase {
                Phase::PrevReport => self.shred_entries(processing),
                Phase::FirstShred => self.send_shreds(processing),
                _ => {
                    processing.phase = Phase::Complete;
                    Action::Complete
                },
            },
        }
    }

    /// Adds the figures of the batch to those of the slot, which is finished if the batch was its
    /// last.
    fn finish_batch(&mut self, processing: &mut Processing, timings: BatchTimings) -> (action:
        Action<Arc<Vec<Shred>>>)
        requires
            inv(old(self).state(), old(processing)@),
            old(processing).phase is Timings,
            old(self).process_shreds_stats.spec_fits(old(processing)@.batch_stats(timings)),
        ensures
            (Stage { run: final(self).state(), processing: final(processing)@, action: action@ })
                == next(old(self).state(), old(processing)@, Event::Timings(timings)),
            inv(final(self).state(), final(processing)@),
            final(self).differs_in_state_only(old(self)),
    {
        processing.stats = processing.batch_stats(&timings);
        self.process_shreds_stats.update(&processing.stats);
        if processing.context.is_last_in_slot {
            let report = self.report_and_reset_stats();
            self.unfinished_slot = None;
            processing.phase = Phase::FinalReport;
            Action::SubmitReport(report)
        } else {
            processing.phase = Phase::Complete;
            Action::Complete
        }
    }
}

} // verus!

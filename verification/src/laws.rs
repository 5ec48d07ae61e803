//! What holds of whole batches, and of a slot from its first batch to its last.
use crate::metrics::{BatchCounter, BroadcastShredBatchInfo, BroadcastStats};
use crate::process::{
    Action, BatchKind, Channel, Event, Phase, ProcessingState, ReceiveResults, Stage,
};
use crate::run::RunState;
use crate::shred::{Shred, MAX_DATA_SHREDS_PER_FEC_BLOCK};
use crate::stats::{BatchTimings, ProcessShredsStats};
use crate::unfinished::UnfinishedSlot;
use std::sync::Arc;
use std::time::Instant;
use vstd::prelude::*;

verus! {

/// How many answers the processing of a batch may still take.
pub open spec fn answers_left(phase: Phase) -> nat {
    match phase {
        Phase::LastShred => 15,
        Phase::PrevCoding { .. } => 14,
        Phase::PrevReport => 13,
        Phase::SlotMeta => 12,
        Phase::Shredding { .. } => 11,
        Phase::FirstShred => 10,
        Phase::Sending { kind: BatchKind::PrevSlot, to: Channel::Socket } => 9,
        Phase::Sending { kind: BatchKind::PrevSlot, to: Channel::Blockstore } => 8,
        Phase::Sending { kind: BatchKind::Data, to: Channel::Socket } => 7,
        Phase::Sending { kind: BatchKind::Data, to: Channel::Blockstore } => 6,
        Phase::Coding => 5,
        Phase::Sending { kind: BatchKind::Coding, to: Channel::Socket } => 4,
        Phase::Sending { kind: BatchKind::Coding, to: Channel::Blockstore } => 3,
        Phase::Timings => 2,
        Phase::FinalReport => 1,
        Phase::Complete => 0,
        Phase::Aborted => 0,
    }
}

/// Every answer brings the processing of a batch closer to its end.
pub proof fn lemma_every_answer_makes_progress(
    run: RunState,
    processing: ProcessingState,
    event: Event<Seq<Shred>>,
)
    requires
        processing.awaits(event),
    ensures
        answers_left(crate::process::next(run, processing, event).processing.phase) < answers_left(
            processing.phase,
        ),
{
}

/// A send that fails ends the batch, and changes nothing else: what is buffered and counted
/// stays for the next batch.
pub proof fn lemma_failed_send_gives_the_batch_up(run: RunState, processing: ProcessingState)
    requires
        processing.phase is Sending,
    ensures
        ({
            let stage = crate::process::next(run, processing, Event::SendFailed);
            &&& stage.run == run
            &&& stage.processing == processing.at(Phase::Aborted)
            &&& stage.action == Action::<Seq<Shred>>::Abort
        }),
{
}

/// No figures are held while no slot is under way: a batch that starts keeps it so.
pub proof fn lemma_start_leaves_no_stray_figures(
    run: RunState,
    results: ReceiveResults,
    now: Instant,
)
    requires
        run.figures_have_a_slot(),
    ensures
        crate::process::start(run, results, now).run.figures_have_a_slot(),
{
}

/// No figures are held while no slot is under way: every answer keeps it so, also one that gives
/// the batch up.
pub proof fn lemma_answers_leave_no_stray_figures(
    run: RunState,
    processing: ProcessingState,
    event: Event<Seq<Shred>>,
)
    requires
        crate::process::inv(run, processing),
        run.figures_have_a_slot(),
    ensures
        crate::process::next(run, processing, event).run.figures_have_a_slot(),
{
}

/// A batch of entries, and the answers to the actions of its processing, in which every
/// send succeeds.
pub struct Script {
    pub results: ReceiveResults,
    pub now: Instant,
    pub last_payload: Arc<Vec<u8>>,
    pub prev_coding: Seq<Shred>,
    pub prev_coding_stats: ProcessShredsStats,
    pub consumed: Option<u64>,
    pub data: Seq<Shred>,
    pub next_shred_index: u32,
    pub data_stats: ProcessShredsStats,
    pub coding: Seq<Shred>,
    pub coding_stats: ProcessShredsStats,
    pub timings: BatchTimings,
}

impl Script {
    /// The answer to the action of a stage.
    pub open spec fn answer(self, stage: Stage) -> Event<Seq<Shred>> {
        match stage.processing.phase {
            Phase::LastShred => Event::LastShred(self.last_payload),
            Phase::PrevCoding { .. } => Event::CodingShreds {
                shreds: self.prev_coding,
                stats: self.prev_coding_stats,
            },
            Phase::SlotMeta => Event::SlotMeta(self.consumed),
            Phase::Shredding { .. } => Event::DataShreds {
                shreds: self.data,
                next_shred_index: self.next_shred_index,
                stats: self.data_stats,
            },
            Phase::Coding => Event::CodingShreds { shreds: self.coding, stats: self.coding_stats },
            Phase::Timings => Event::Timings(self.timings),
            _ => Event::Done,
        }
    }

    /// The stage after the answer to the action of `stage`.
    pub open spec fn next(self, stage: Stage) -> Stage {
        crate::process::next(stage.run, stage.processing, self.answer(stage))
    }

    /// The actions of a batch from `stage` on, in order.
    pub open spec fn actions(self, stage: Stage) -> Seq<Action<Seq<Shred>>>
        decreases answers_left(stage.processing.phase),
    {
        if answers_left(self.next(stage).processing.phase) < answers_left(stage.processing.phase) {
            seq![stage.action] + self.actions(self.next(stage))
        } else {
            seq![stage.action]
        }
    }

    /// The last stage of the processing of a batch that has come to `stage`.
    pub open spec fn end(self, stage: Stage) -> Stage
        decreases answers_left(stage.processing.phase),
    {
        if answers_left(self.next(stage).processing.phase) < answers_left(stage.processing.phase) {
            self.end(self.next(stage))
        } else {
            stage
        }
    }

    /// What is sent to `to` from `stage` on, in order, each batch with its information.
    pub open spec fn sent(self, stage: Stage, to: Channel) -> Seq<
        (Seq<Shred>, BroadcastShredBatchInfo),
    >
        decreases answers_left(stage.processing.phase),
    {
        let now = match stage.action {
            Action::Send { to: channel, shreds, batch_info } => if channel == to {
                seq![(shreds, batch_info)]
            } else {
                Seq::empty()
            },
            _ => Seq::empty(),
        };
        if answers_left(self.next(stage).processing.phase) < answers_left(stage.processing.phase) {
            now + self.sent(self.next(stage), to)
        } else {
            now
        }
    }

    /// The data shreds of which coding shreds are made from `stage` on, call by call.
    pub open spec fn coded(self, stage: Stage) -> Seq<Seq<Shred>>
        decreases answers_left(stage.processing.phase),
    {
        let now = match stage.action {
            Action::MakeCodingShreds { data_shreds, .. } => seq![data_shreds],
            _ => Seq::empty(),
        };
        if answers_left(self.next(stage).processing.phase) < answers_left(stage.processing.phase) {
            now + self.coded(self.next(stage))
        } else {
            now
        }
    }

    /// The first stage of the batch.
    pub open spec fn first(self, run: RunState) -> Stage {
        crate::process::start(run, self.results, self.now)
    }

    pub open spec fn is_last_in_slot(self) -> bool {
        self.results.last_tick_height == self.results.bank.max_tick_height
    }

    /// What the batch leaves of the broadcast.
    pub open spec fn outcome(self, run: RunState) -> RunState {
        self.end(self.first(run)).run
    }

    /// Whether the batch may be received by a broadcast in the state `run`.
    pub open spec fn is_possible(self, run: RunState) -> bool {
        &&& run.wf()
        &&& run.can_count(self.results.bank.slot)
        &&& run.opens_slot(self.results.bank.slot) ==> self.results.bank.parent_slot
            <= self.results.bank.slot
    }

    /// The shred that closes the slot that the batch interrupts.
    pub open spec fn last_shred(self, run: RunState) -> Shred {
        run.unfinished->0.closing_shred(self.last_payload)
    }

    /// The data shreds that were buffered for the slot of the batch, and then those of the batch.
    pub open spec fn buffered(self, run: RunState) -> Seq<Shred> {
        let before = match run.unfinished {
            Some(u) => if u.slot == self.results.bank.slot {
                u.buffer
            } else {
                Seq::empty()
            },
            None => Seq::empty(),
        };
        before + self.data
    }

    /// The state in which the slot of the batch is: with two batches more.
    pub open spec fn counted(self, run: RunState) -> RunState {
        let at_slot = run.at_slot(self.results.bank, self.now);
        RunState { num_batches: (at_slot.num_batches + 2) as usize, ..at_slot }
    }

    /// The information that goes with the data and the coding shreds of the batch.
    pub open spec fn info(self, run: RunState) -> BroadcastShredBatchInfo {
        BroadcastShredBatchInfo {
            slot: self.results.bank.slot,
            num_expected_batches: if self.is_last_in_slot() {
                Some(self.counted(run).num_batches)
            } else {
                None
            },
            slot_start_ts: self.counted(run).slot_broadcast_start->0,
        }
    }

    /// What goes to each channel: what closes an interrupted slot, then the data shreds, then
    /// the coding shreds.
    pub open spec fn to_be_sent(self, run: RunState) -> Seq<(Seq<Shred>, BroadcastShredBatchInfo)> {
        let closing = if run.at_slot(self.results.bank, self.now).is_interrupted() {
            seq![
                (
                    seq![self.last_shred(run)] + self.prev_coding,
                    BroadcastShredBatchInfo {
                        slot: run.unfinished->0.slot,
                        num_expected_batches: Some((run.num_batches + 1) as usize),
                        slot_start_ts: run.slot_broadcast_start->0,
                    },
                ),
            ]
        } else {
            Seq::empty()
        };
        closing + seq![(self.data, self.info(run)), (self.coding, self.info(run))]
    }

    /// Where the erasure-coded sets of the slot of the batch begin: where they began for the
    /// shreds before, or with the first shred that the ledger has not consumed.
    pub open spec fn fec_set_offset(self, run: RunState) -> u32 {
        match run.unfinished {
            Some(u) if u.slot == self.results.bank.slot => u.fec_set_offset,
            _ => match self.consumed {
                Some(n) => (n % 0x1_0000_0000) as u32,
                None => 0,
            },
        }
    }

    /// The index that the first data shred of the batch is to have: the one after the shreds
    /// before, or that of the first shred that the ledger has not consumed.
    pub open spec fn first_index(self, run: RunState) -> u32 {
        match run.unfinished {
            Some(u) if u.slot == self.results.bank.slot => u.next_shred_index,
            _ => self.fec_set_offset(run),
        }
    }

    /// Whether the data shreds of the batch were given consecutive indices: the next index is as
    /// far from the first as there are shreds.
    pub open spec fn numbers_shreds_in_order(self, run: RunState) -> bool {
        self.next_shred_index == self.first_index(run) + self.data.len()
    }

    /// The slot of the batch with the data shreds of the batch buffered.
    pub open spec fn with_data(self, run: RunState) -> UnfinishedSlot {
        UnfinishedSlot {
            next_shred_index: self.next_shred_index,
            slot: self.results.bank.slot,
            parent: match run.at_slot(self.results.bank, self.now).current_slot_and_parent {
                Some((_, parent)) => parent,
                None => 0,
            },
            buffer: self.buffered(run),
            fec_set_offset: self.fec_set_offset(run),
        }
    }

    /// The data shreds of which coding shreds are made: all that an interrupted slot has left, with
    /// the shred that closes it, and then those of the slot of the batch that are to be coded.
    pub open spec fn to_be_coded(self, run: RunState) -> Seq<Seq<Shred>> {
        let closing = if run.at_slot(self.results.bank, self.now).is_interrupted() {
            seq![run.unfinished->0.buffer.push(self.last_shred(run))]
        } else {
            Seq::empty()
        };
        closing + seq![self.with_data(run).to_code(self.is_last_in_slot())]
    }

    /// The figures of the batch. The time that passed before the first batch of a slot does not
    /// count.
    pub open spec fn batch_stats(self, run: RunState) -> ProcessShredsStats {
        ProcessShredsStats {
            shredding_elapsed: self.timings.shredding_elapsed,
            receive_elapsed: if run.opens_slot(self.results.bank.slot) {
                0
            } else {
                self.results.time_elapsed.micros() as u64
            },
            get_leader_schedule_elapsed: self.timings.get_leader_schedule_elapsed,
            coding_send_elapsed: self.timings.coding_send_elapsed,
            ..self.coding_stats
        }
    }

    /// What the batch is to leave of the broadcast: nothing of a slot that it finishes, and of
    /// another slot what is not coded yet. The figures start anew after an
    /// interrupted and after a finished slot.
    pub open spec fn left(self, run: RunState) -> RunState {
        let is_interrupted = run.at_slot(self.results.bank, self.now).is_interrupted();
        RunState {
            unfinished: if self.is_last_in_slot() {
                None
            } else {
                Some(self.with_data(run).without_coded(false))
            },
            process_shreds_stats: if self.is_last_in_slot() {
                ProcessShredsStats::spec_zero()
            } else if is_interrupted {
                ProcessShredsStats::spec_zero().plus(self.batch_stats(run))
            } else {
                run.process_shreds_stats.plus(self.batch_stats(run))
            },
            ..self.counted(run)
        }
    }
}

/// What is sent and coded from `stage` on, and what is left.
spec fn yields(
    script: Script,
    stage: Stage,
    sent: Seq<(Seq<Shred>, BroadcastShredBatchInfo)>,
    coded: Seq<Seq<Shred>>,
    left: RunState,
) -> bool {
    &&& forall|to: Channel| #[trigger] script.sent(stage, to) == sent
    &&& script.coded(stage) == coded
    &&& script.end(stage).run == left
    &&& script.end(stage).processing.phase is Complete
    &&& script.end(stage).action is Complete
}

/// What is left of `run`, once the data shreds are buffered and the batches are counted.
spec fn settled(script: Script, run: RunState, processing: ProcessingState) -> RunState {
    let stats = ProcessingState { stats: script.coding_stats, ..processing }.batch_stats(
        script.timings,
    );
    let coded = RunState {
        process_shreds_stats: run.process_shreds_stats.plus(stats),
        unfinished: Some(run.unfinished->0.without_coded(processing.context.is_last_in_slot)),
        ..run
    };
    if processing.context.is_last_in_slot {
        coded.without_slot()
    } else {
        coded
    }
}

proof fn lemma_from_send_data(script: Script, run: RunState, processing: ProcessingState)
    ensures
        ({
            let stage = crate::process::send_data(run, processing);
            let info = stage.run.batch_info(processing.context);
            yields(
                script,
                stage,
                seq![(processing.data_shreds, info), (script.coding, info)],
                seq![run.unfinished->0.to_code(processing.context.is_last_in_slot)],
                settled(script, stage.run, processing),
            )
        }),
{
    let stage = crate::process::send_data(run, processing);
    let info = stage.run.batch_info(processing.context);
    let sent = seq![(processing.data_shreds, info), (script.coding, info)];
    reveal_with_fuel(Script::end, 8);
    assert forall|to: Channel| #[trigger] script.sent(stage, to) == sent by {
        reveal_with_fuel(Script::sent, 8);
        assert(script.sent(stage, to) =~= sent);
    }
    assert(script.coded(stage) == seq![
        run.unfinished->0.to_code(processing.context.is_last_in_slot),
    ]) by {
        reveal_with_fuel(Script::coded, 8);
        assert(script.coded(stage) =~= seq![
            run.unfinished->0.to_code(processing.context.is_last_in_slot),
        ]);
    }
}

proof fn lemma_from_send_shreds(script: Script, run: RunState, processing: ProcessingState)
    ensures
        ({
            let counted = crate::process::send_data(run, processing).run;
            let info = counted.batch_info(processing.context);
            let closing = if processing.prev_slot_shreds.len() > 0 {
                seq![(processing.prev_slot_shreds, processing.closing_info())]
            } else {
                Seq::empty()
            };
            yields(
                script,
                crate::process::send_shreds(run, processing),
                closing + seq![(processing.data_shreds, info), (script.coding, info)],
                seq![run.unfinished->0.to_code(processing.context.is_last_in_slot)],
                settled(script, counted, processing),
            )
        }),
{
    let stage = crate::process::send_shreds(run, processing);
    let info = crate::process::send_data(run, processing).run.batch_info(processing.context);
    let data = seq![(processing.data_shreds, info), (script.coding, info)];
    lemma_from_send_data(script, run, processing);
    if processing.prev_slot_shreds.len() > 0 {
        let stored = script.next(stage);
        lemma_from_send_data(script, run, stored.processing);
        assert(script.next(stored) == crate::process::send_data(run, stored.processing));
        assert forall|to: Channel| #[trigger] script.sent(stage, to) == seq![
            (processing.prev_slot_shreds, processing.closing_info()),
        ] + data by {
            reveal_with_fuel(Script::sent, 3);
            assert(script.sent(script.next(stored), to) == data);
            assert(script.sent(stage, to) =~= seq![
                (processing.prev_slot_shreds, processing.closing_info()),
            ] + data);
        }
        reveal_with_fuel(Script::end, 3);
        reveal_with_fuel(Script::coded, 3);
        assert(script.coded(stage) =~= script.coded(script.next(stored)));
    } else {
        assert(Seq::<(Seq<Shred>, BroadcastShredBatchInfo)>::empty() + data =~= data);
    }
}

/// The broadcast with the data shreds of the batch buffered.
spec fn with_data_buffered(
    script: Script,
    run: RunState,
    processing: ProcessingState,
    fec_set_offset: u32,
) -> RunState {
    let before = match run.unfinished {
        Some(u) => u.buffer,
        None => Seq::empty(),
    };
    RunState {
        unfinished: Some(
            UnfinishedSlot {
                next_shred_index: script.next_shred_index,
                slot: processing.context.slot,
                parent: processing.context.parent_slot,
                buffer: before + script.data,
                fec_set_offset,
            },
        ),
        ..run
    }
}

/// Goes from the entries to the end of the batch.
proof fn lemma_from_shred_entries(script: Script, run: RunState, processing: ProcessingState)
    ensures
        ({
            let fec_set_offset = match run.unfinished {
                Some(u) => u.fec_set_offset,
                None => match script.consumed {
                    Some(n) => (n % 0x1_0000_0000) as u32,
                    None => 0,
                },
            };
            let buffered = with_data_buffered(script, run, processing, fec_set_offset);
            let counted = crate::process::send_data(buffered, processing).run;
            let info = counted.batch_info(processing.context);
            let closing = if processing.prev_slot_shreds.len() > 0 {
                seq![(processing.prev_slot_shreds, processing.closing_info())]
            } else {
                Seq::empty()
            };
            yields(
                script,
                crate::process::shred_entries(run, processing),
                closing + seq![(script.data, info), (script.coding, info)],
                seq![buffered.unfinished->0.to_code(processing.context.is_last_in_slot)],
                settled(script, counted, processing),
            )
        }),
{
    let stage = crate::process::shred_entries(run, processing);
    let fec_set_offset = match run.unfinished {
        Some(u) => u.fec_set_offset,
        None => match script.consumed {
            Some(n) => (n % 0x1_0000_0000) as u32,
            None => 0,
        },
    };
    let buffered = with_data_buffered(script, run, processing, fec_set_offset);
    let counted = crate::process::send_data(buffered, processing).run;
    let info = counted.batch_info(processing.context);
    let shredding = if run.unfinished is Some {
        stage
    } else {
        script.next(stage)
    };
    let made = script.next(shredding);
    let sending = if made.processing.phase is FirstShred {
        script.next(made)
    } else {
        made
    };
    let at_send = ProcessingState {
        stats: script.data_stats,
        data_shreds: script.data,
        phase: sending.processing.phase,
        ..processing
    };
    assert(shredding.processing.phase == Phase::Shredding { fec_set_offset });
    assert(made.run.unfinished == buffered.unfinished || !(made.processing.phase is FirstShred));
    assert(sending == crate::process::send_shreds(buffered, at_send));
    lemma_from_send_shreds(script, buffered, at_send);
    reveal_with_fuel(Script::end, 4);
    assert forall|to: Channel| #[trigger] script.sent(stage, to) == script.sent(sending, to) by {
        reveal_with_fuel(Script::sent, 4);
        assert(script.sent(stage, to) =~= script.sent(sending, to));
    }
    assert(script.coded(stage) == script.coded(sending)) by {
        reveal_with_fuel(Script::coded, 4);
        assert(script.coded(stage) =~= script.coded(sending));
    }
}

/// A batch whose sends succeed, from the first stage to the last: the socket and the ledger get
/// the same shreds in the same order, first what closes an interrupted slot, then the data
/// shreds, then the coding shreds; every buffered shred that is due is coded; and what
/// is left is what [`Script::left`] says.
pub proof fn lemma_what_a_batch_does(script: Script, run: RunState)
    requires
        script.is_possible(run),
    ensures
        forall|to: Channel| #[trigger] script.sent(script.first(run), to) == script.to_be_sent(run),
        script.coded(script.first(run)) == script.to_be_coded(run),
        script.outcome(run) == script.left(run),
        script.outcome(run).wf(),
        script.end(script.first(run)).action is Complete,
{
    let stage = script.first(run);
    let at_slot = run.at_slot(script.results.bank, script.now);
    let slot = script.results.bank.slot;
    if at_slot.is_interrupted() {
        let coding = script.next(stage);
        let reported = script.next(coding);
        let entries = script.next(reported);
        lemma_from_shred_entries(script, reported.run, reported.processing);
        assert(entries == crate::process::shred_entries(reported.run, reported.processing));
        reveal_with_fuel(Script::end, 4);
        assert(coding.action == Action::MakeCodingShreds {
            data_shreds: run.unfinished->0.buffer.push(script.last_shred(run)),
            stats: stage.processing.stats,
        }) by {
            let u = run.unfinished->0;
            let closed = UnfinishedSlot { buffer: u.buffer.push(script.last_shred(run)), ..u };
            assert(closed.to_code(true) =~= closed.buffer);
        }
        assert(Seq::<Shred>::empty() + script.data =~= script.buffered(run));
        assert forall|to: Channel| #[trigger] script.sent(stage, to) == script.to_be_sent(run) by {
            reveal_with_fuel(Script::sent, 4);
            assert(script.sent(stage, to) =~= script.sent(entries, to));
        }
        assert(script.coded(stage) == script.to_be_coded(run)) by {
            reveal_with_fuel(Script::coded, 4);
            assert(script.coded(stage) =~= script.to_be_coded(run));
        }
    } else {
        lemma_from_shred_entries(script, at_slot, stage.processing);
        assert(stage == crate::process::shred_entries(at_slot, stage.processing));
        assert(script.coded(stage) =~= script.to_be_coded(run));
    }
}

/// No data shred is lost: those that were buffered and those of the batch are, in order, those
/// that are coded now and those that stay buffered. Before the end of a slot complete
/// erasure-coded sets are made and less than a set stays; at the end nothing stays.
pub proof fn lemma_no_data_shred_is_lost(script: Script, run: RunState)
    requires
        script.is_possible(run),
    ensures
        ({
            let coded = script.coded(script.first(run)).last();
            let kept = match script.outcome(run).unfinished {
                Some(u) => u.buffer,
                None => Seq::empty(),
            };
            &&& coded + kept == script.buffered(run)
            &&& script.is_last_in_slot() ==> kept.len() == 0 && script.outcome(run).unfinished
                is None
            &&& !script.is_last_in_slot() ==> {
                &&& coded.len() % MAX_DATA_SHREDS_PER_FEC_BLOCK as nat == 0
                &&& kept.len() < MAX_DATA_SHREDS_PER_FEC_BLOCK
            }
        }),
{
    lemma_what_a_batch_does(script, run);
    crate::unfinished::lemma_coding_keeps_every_shred(
        script.with_data(run),
        script.is_last_in_slot(),
    );
    crate::unfinished::lemma_coding_makes_complete_sets(script.with_data(run));
    assert(script.with_data(run).to_code(true) + Seq::<Shred>::empty() =~= script.with_data(
        run,
    ).to_code(true));
}

/// How much stays buffered follows from the indices: where the shreds of a batch are numbered in
/// order, the batch leaves as many data shreds in the buffer as follow the last complete
/// erasure-coded set. Before it the buffer may also hold complete sets, of a batch that was given
/// up before its coding shreds were made.
pub proof fn lemma_buffer_follows_the_indices(script: Script, run: RunState)
    requires
        script.is_possible(run),
        script.numbers_shreds_in_order(run),
        run.unfinished matches Some(u) ==> u.slot == script.results.bank.slot ==> {
            &&& u.fec_set_offset <= u.next_shred_index
            &&& u.buffer.len() as int % MAX_DATA_SHREDS_PER_FEC_BLOCK as int == (u.next_shred_index
                - u.fec_set_offset) % MAX_DATA_SHREDS_PER_FEC_BLOCK as int
        },
    ensures
        script.outcome(run).buffer_follows_indices(),
{
    lemma_what_a_batch_does(script, run);
}

/// An interrupted slot is closed completely: all its buffered data shreds are coded, with the
/// shred that closes it, which is the first that is sent.
pub proof fn lemma_interrupted_slot_is_closed(script: Script, run: RunState)
    requires
        script.is_possible(run),
        run.unfinished matches Some(u) && u.slot != script.results.bank.slot,
    ensures
        script.first(run).action is MakeLastShred,
        script.coded(script.first(run))[0] == run.unfinished->0.buffer.push(script.last_shred(run)),
        forall|to: Channel|
            {
                let closing = (#[trigger] script.sent(script.first(run), to))[0];
                &&& closing.0[0] == script.last_shred(run)
                &&& closing.0.skip(1) == script.prev_coding
                &&& closing.1.slot == run.unfinished->0.slot
                &&& closing.1.num_expected_batches == Some((run.num_batches + 1) as usize)
                &&& closing.1.slot_start_ts == run.slot_broadcast_start->0
            },
        script.outcome(run).unfinished matches Some(u) ==> u.slot == script.results.bank.slot,
{
    lemma_what_a_batch_does(script, run);
    assert((seq![script.last_shred(run)] + script.prev_coding).skip(1) =~= script.prev_coding);
}

/// The shreds of a slot go on from batch to batch: the next batch of the slot begins at the index
/// at which the one before ended, in the same erasure-coded sets.
pub proof fn lemma_shred_indices_go_on(script: Script, run: RunState, following: Script)
    requires
        script.is_possible(run),
        !script.is_last_in_slot(),
        following.results.bank.slot == script.results.bank.slot,
    ensures
        following.first(script.outcome(run)).action matches Action::ShredEntries(plan)
            && plan.next_shred_index == script.next_shred_index && plan.fec_set_offset
            == script.fec_set_offset(run) && plan.slot == script.results.bank.slot,
{
    lemma_what_a_batch_does(script, run);
}

/// Once shreds are sent, no shred is stored as the first of its slot.
proof fn lemma_nothing_is_stored_after_sending(script: Script, stage: Stage)
    requires
        answers_left(stage.processing.phase) < 10,
        !(stage.action is StoreFirstShred),
    ensures
        forall|i: int|
            0 <= i < script.actions(stage).len() ==> !((
            #[trigger] script.actions(stage)[i]) is StoreFirstShred),
    decreases answers_left(stage.processing.phase),
{
    if answers_left(script.next(stage).processing.phase) < answers_left(stage.processing.phase) {
        lemma_nothing_is_stored_after_sending(script, script.next(stage));
        assert forall|i: int| 0 <= i < script.actions(stage).len() implies !((
        #[trigger] script.actions(stage)[i]) is StoreFirstShred) by {
            if i > 0 {
                assert(script.actions(stage)[i] == script.actions(script.next(stage))[i - 1]);
            }
        }
    }
}

proof fn lemma_storing_comes_before_sending_from(script: Script, stage: Stage)
    requires
        stage.action is Send ==> stage.processing.phase is Sending,
    ensures
        forall|i: int, j: int|
            0 <= i < script.actions(stage).len() && 0 <= j < script.actions(stage).len() && (
            #[trigger] script.actions(stage)[i]) is StoreFirstShred && (
            #[trigger] script.actions(stage)[j]) is Send ==> i < j,
    decreases answers_left(stage.processing.phase),
{
    if answers_left(script.next(stage).processing.phase) < answers_left(stage.processing.phase) {
        let following = script.next(stage);
        lemma_storing_comes_before_sending_from(script, following);
        if stage.action is Send {
            lemma_nothing_is_stored_after_sending(script, stage);
        }
        assert forall|i: int, j: int|
            0 <= i < script.actions(stage).len() && 0 <= j < script.actions(stage).len() && (
            #[trigger] script.actions(stage)[i]) is StoreFirstShred && (
            #[trigger] script.actions(stage)[j]) is Send implies i < j by {
            if i > 0 {
                assert(script.actions(stage)[i] == script.actions(following)[i - 1]);
            }
            if j > 0 {
                assert(script.actions(stage)[j] == script.actions(following)[j - 1]);
            }
        }
    }
}

/// The shreds that `actions` store as the first of their slot, in order.
pub open spec fn stored_first(actions: Seq<Action<Seq<Shred>>>) -> Seq<Shred>
    decreases actions.len(),
{
    if actions.len() == 0 {
        Seq::empty()
    } else {
        let now = match actions[0] {
            Action::StoreFirstShred(shred) => seq![shred],
            _ => Seq::empty(),
        };
        now + stored_first(actions.drop_first())
    }
}

/// What the first action of `stage` stores comes before what the others store.
proof fn lemma_stored_first_unfolds(script: Script, stage: Stage)
    requires
        answers_left(script.next(stage).processing.phase) < answers_left(stage.processing.phase),
    ensures
        ({
            let rest = stored_first(script.actions(script.next(stage)));
            stored_first(script.actions(stage)) == match stage.action {
                Action::StoreFirstShred(shred) => seq![shred] + rest,
                _ => rest,
            }
        }),
{
    let rest = script.actions(script.next(stage));
    assert(script.actions(stage).drop_first() =~= rest);
    assert(Seq::<Shred>::empty() + stored_first(rest) =~= stored_first(rest));
}

/// Once shreds are sent, nothing is stored.
proof fn lemma_stored_first_after_sending(script: Script, stage: Stage)
    requires
        answers_left(stage.processing.phase) < 10,
        !(stage.action is StoreFirstShred),
    ensures
        stored_first(script.actions(stage)) == Seq::<Shred>::empty(),
    decreases answers_left(stage.processing.phase),
{
    if answers_left(script.next(stage).processing.phase) < answers_left(stage.processing.phase) {
        lemma_stored_first_after_sending(script, script.next(stage));
        lemma_stored_first_unfolds(script, stage);
    } else {
        assert(script.actions(stage).drop_first() =~= Seq::empty());
        assert(stored_first(Seq::empty()) == Seq::<Shred>::empty());
        assert(stored_first(script.actions(stage)) =~= Seq::<Shred>::empty());
    }
}

/// What a batch stores that has not come to its data shreds.
proof fn lemma_stored_first_from(script: Script, stage: Stage)
    requires
        answers_left(stage.processing.phase) > 10,
        !(stage.action is StoreFirstShred),
    ensures
        stored_first(script.actions(stage)) == crate::shred::stored_before_sending(script.data),
    decreases answers_left(stage.processing.phase),
{
    let following = script.next(stage);
    lemma_stored_first_unfolds(script, stage);
    if stage.processing.phase is Shredding {
        if crate::shred::starts_at_zero(script.data) {
            lemma_stored_first_unfolds(script, following);
            lemma_stored_first_after_sending(script, script.next(following));
            assert(stored_first(script.actions(stage)) =~= script.data.take(1));
        } else {
            lemma_stored_first_after_sending(script, following);
        }
    } else {
        lemma_stored_first_from(script, following);
    }
}

/// Each data shred of a batch is stored once, over both ways: what is stored before the batch is
/// sent is the first shred if it has index zero, and else nothing; what is stored when the data
/// batch that went to the ledger is recorded is the rest.
pub proof fn lemma_every_data_shred_of_a_batch_is_stored_once(script: Script, run: RunState)
    requires
        script.is_possible(run),
    ensures
        ({
            let before_sending = stored_first(script.actions(script.first(run)));
            let sent = script.sent(script.first(run), Channel::Blockstore);
            let recorded = crate::shred::stored_when_recorded(sent[sent.len() - 2].0);
            &&& before_sending == crate::shred::stored_before_sending(script.data)
            &&& before_sending + recorded == script.data
        }),
{
    lemma_stored_first_from(script, script.first(run));
    lemma_what_a_batch_does(script, run);
    assert(script.sent(script.first(run), Channel::Blockstore) == script.to_be_sent(run));
    crate::shred::lemma_every_data_shred_is_stored_once(script.data);
}

/// The first shred of a slot is stored before any shred of the batch is sent, so that the ledger
/// knows that the leader has started the block. Nothing else is stored so, and it once.
pub proof fn lemma_first_shred_is_stored_before_sending(script: Script, run: RunState)
    requires
        script.is_possible(run),
    ensures
        ({
            let actions = script.actions(script.first(run));
            &&& stored_first(actions) == crate::shred::stored_before_sending(script.data)
            &&& forall|i: int, j: int|
                0 <= i < actions.len() && 0 <= j < actions.len() && (
                #[trigger] actions[i]) is StoreFirstShred && (#[trigger] actions[j]) is Send
                    ==> i < j
        }),
{
    let stage = script.first(run);
    lemma_storing_comes_before_sending_from(script, stage);
    lemma_stored_first_from(script, stage);
}

/// The state after the batches of `scripts`, first to last.
pub open spec fn after(run: RunState, scripts: Seq<Script>) -> RunState
    decreases scripts.len(),
{
    if scripts.len() == 0 {
        run
    } else {
        scripts.last().outcome(after(run, scripts.drop_last()))
    }
}

/// The information of what the batches of `scripts` send to `to`, in order.
pub open spec fn infos(run: RunState, scripts: Seq<Script>, to: Channel) -> Seq<
    BroadcastShredBatchInfo,
>
    decreases scripts.len(),
{
    if scripts.len() == 0 {
        Seq::empty()
    } else {
        let before = after(run, scripts.drop_last());
        infos(run, scripts.drop_last(), to) + infos_of(scripts.last(), before, to)
    }
}

/// Whether `scripts` are the batches of `slot` from its first on, in a broadcast that comes from
/// another slot or from none: at most the last of them finishes the slot.
pub open spec fn are_batches_of(scripts: Seq<Script>, run: RunState, slot: u64) -> bool {
    &&& run.wf()
    &&& run.can_count(slot)
    &&& run.opens_slot(slot)
    &&& scripts.len() > 0
    &&& 2 * scripts.len() + 2 <= usize::MAX
    &&& scripts[0].results.bank.parent_slot <= slot
    &&& forall|i: int| 0 <= i < scripts.len() ==> (#[trigger] scripts[i]).results.bank.slot == slot
    &&& forall|i: int| 0 <= i < scripts.len() - 1 ==> !(#[trigger] scripts[i]).is_last_in_slot()
}

/// The information of the `2 * n` batches of shreds of a slot that was received in `n` batches
/// of entries: where the slot is finished, the last two tell their number.
pub open spec fn slot_infos(slot: u64, start: Instant, n: nat, is_finished: bool) -> Seq<
    BroadcastShredBatchInfo,
> {
    Seq::new(
        2 * n,
        |i: int|
            BroadcastShredBatchInfo {
                slot,
                num_expected_batches: if is_finished && i >= 2 * n - 2 {
                    Some((2 * n) as usize)
                } else {
                    None
                },
                slot_start_ts: start,
            },
    )
}

/// The information of what closes the slot that the first batch interrupts.
pub open spec fn closing_infos(script: Script, run: RunState) -> Seq<BroadcastShredBatchInfo> {
    if run.at_slot(script.results.bank, script.now).is_interrupted() {
        seq![script.to_be_sent(run)[0].1]
    } else {
        Seq::empty()
    }
}

/// The information of what the batch sends to `to`.
pub open spec fn infos_of(script: Script, run: RunState, to: Channel) -> Seq<
    BroadcastShredBatchInfo,
> {
    script.sent(script.first(run), to).map_values(
        |batch: (Seq<Shred>, BroadcastShredBatchInfo)| batch.1,
    )
}

proof fn lemma_batch_that_opens_a_slot(script: Script, run: RunState, to: Channel)
    requires
        script.is_possible(run),
        run.opens_slot(script.results.bank.slot),
    ensures
        ({
            let slot = script.results.bank.slot;
            let end = script.outcome(run);
            &&& infos_of(script, run, to) == closing_infos(script, run) + slot_infos(
                slot,
                script.now,
                1,
                script.is_last_in_slot(),
            )
            &&& end.wf()
            &&& end.num_batches == 2
            &&& end.slot_broadcast_start == Some(script.now)
            &&& end.current_slot_and_parent == Some((slot, script.results.bank.parent_slot))
            &&& end.unfinished is None <==> script.is_last_in_slot()
            &&& end.unfinished matches Some(u) ==> u.slot == slot
        }),
{
    lemma_what_a_batch_does(script, run);
    assert(script.sent(script.first(run), to) == script.to_be_sent(run));
    assert(infos_of(script, run, to) =~= closing_infos(script, run) + slot_infos(
        script.results.bank.slot,
        script.now,
        1,
        script.is_last_in_slot(),
    ));
}

proof fn lemma_batch_of_the_same_slot(script: Script, run: RunState, to: Channel)
    requires
        script.is_possible(run),
        !run.opens_slot(script.results.bank.slot),
    ensures
        ({
            let slot = script.results.bank.slot;
            let end = script.outcome(run);
            let info = BroadcastShredBatchInfo {
                slot,
                num_expected_batches: if script.is_last_in_slot() {
                    Some((run.num_batches + 2) as usize)
                } else {
                    None
                },
                slot_start_ts: run.slot_broadcast_start->0,
            };
            &&& infos_of(script, run, to) == seq![info, info]
            &&& end.wf()
            &&& end.num_batches == run.num_batches + 2
            &&& end.slot_broadcast_start == run.slot_broadcast_start
            &&& end.current_slot_and_parent == run.current_slot_and_parent
            &&& end.unfinished is None <==> script.is_last_in_slot()
            &&& end.unfinished matches Some(u) ==> u.slot == slot
        }),
{
    lemma_what_a_batch_does(script, run);
    assert(script.sent(script.first(run), to) == script.to_be_sent(run));
    assert(infos_of(script, run, to) =~= seq![script.info(run), script.info(run)]);
}

/// The batches of a slot but for the last are batches of the slot, and do not finish it.
pub(crate) proof fn lemma_earlier_batches(run: RunState, scripts: Seq<Script>, slot: u64)
    requires
        are_batches_of(scripts, run, slot),
        scripts.len() > 1,
    ensures
        are_batches_of(scripts.drop_last(), run, slot),
        !scripts.drop_last().last().is_last_in_slot(),
        scripts.drop_last()[0] == scripts[0],
{
    let earlier = scripts.drop_last();
    assert forall|i: int| 0 <= i < earlier.len() implies (
    #[trigger] earlier[i]).results.bank.slot == slot by {
        assert(earlier[i] == scripts[i]);
    }
    assert forall|i: int| 0 <= i < earlier.len() - 1 implies !(
    #[trigger] earlier[i]).is_last_in_slot() by {
        assert(earlier[i] == scripts[i]);
    }
    assert(earlier.last() == scripts[scripts.len() - 2]);
}

/// From the first batch of a slot on, each batch of entries brings two batches of shreds, and
/// the number that the last of them tell is the number that was sent, on either channel.
pub proof fn lemma_batches_of_a_slot(
    run: RunState,
    scripts: Seq<Script>,
    slot: u64,
    to: Channel,
)
    requires
        are_batches_of(scripts, run, slot),
    ensures
        ({
            let n = scripts.len();
            let is_finished = scripts.last().is_last_in_slot();
            let end = after(run, scripts);
            &&& infos(run, scripts, to) == closing_infos(scripts[0], run) + slot_infos(
                slot,
                scripts[0].now,
                n,
                is_finished,
            )
            &&& end.wf()
            &&& end.num_batches == 2 * n
            &&& end.slot_broadcast_start == Some(scripts[0].now)
            &&& end.current_slot_and_parent == Some((slot, scripts[0].results.bank.parent_slot))
            &&& end.unfinished is None <==> is_finished
            &&& end.unfinished matches Some(u) ==> u.slot == slot
        }),
    decreases scripts.len(),
{
    let last = scripts.last();
    let earlier = scripts.drop_last();
    let before = after(run, earlier);
    assert(scripts[scripts.len() - 1] == last);
    if scripts.len() == 1 {
        assert(before == run);
        lemma_batch_that_opens_a_slot(last, run, to);
        assert(infos(run, earlier, to) == Seq::<BroadcastShredBatchInfo>::empty());
        assert(infos(run, scripts, to) =~= infos_of(last, run, to));
    } else {
        lemma_earlier_batches(run, scripts, slot);
        lemma_batches_of_a_slot(run, earlier, slot, to);
        lemma_batch_of_the_same_slot(last, before, to);
        assert(infos(run, scripts, to) =~= infos(run, earlier, to) + infos_of(last, before, to));
        assert(infos(run, scripts, to) =~= closing_infos(scripts[0], run) + slot_infos(
            slot,
            scripts[0].now,
            scripts.len(),
            last.is_last_in_slot(),
        ));
    }
}

/// The information of what closes an interrupted slot that was received in `n` batches of
/// entries.
pub open spec fn interrupted_info(slot: u64, start: Instant, n: nat) -> BroadcastShredBatchInfo {
    BroadcastShredBatchInfo {
        slot,
        num_expected_batches: Some((2 * n + 1) as usize),
        slot_start_ts: start,
    }
}

/// A slot that another one interrupts has one batch of shreds more, which closes it. It comes
/// before those of the interrupting batch.
proof fn lemma_batches_of_an_interrupted_slot(
    run: RunState,
    scripts: Seq<Script>,
    slot: u64,
    interrupting: Script,
    to: Channel,
)
    requires
        are_batches_of(scripts, run, slot),
        !scripts.last().is_last_in_slot(),
        interrupting.results.bank.slot != slot,
        interrupting.results.bank.parent_slot <= interrupting.results.bank.slot,
    ensures
        infos(run, scripts.push(interrupting), to) == closing_infos(scripts[0], run) + slot_infos(
            slot,
            scripts[0].now,
            scripts.len(),
            false,
        ) + seq![interrupted_info(slot, scripts[0].now, scripts.len())] + slot_infos(
            interrupting.results.bank.slot,
            interrupting.now,
            1,
            interrupting.is_last_in_slot(),
        ),
{
    let before = after(run, scripts);
    lemma_batches_of_a_slot(run, scripts, slot, to);
    lemma_batch_that_opens_a_slot(interrupting, before, to);
    let all = scripts.push(interrupting);
    assert(all.drop_last() =~= scripts);
    assert(all.last() == interrupting);
    assert(closing_infos(interrupting, before) =~= seq![
        interrupted_info(slot, scripts[0].now, scripts.len()),
    ]);
    assert(infos(run, all, to) == infos(run, scripts, to) + infos_of(interrupting, before, to));
    assert(infos(run, all, to) =~= closing_infos(scripts[0], run) + slot_infos(
        slot,
        scripts[0].now,
        scripts.len(),
        false,
    ) + seq![interrupted_info(slot, scripts[0].now, scripts.len())] + slot_infos(
        interrupting.results.bank.slot,
        interrupting.now,
        1,
        interrupting.is_last_in_slot(),
    ));
}

/// Of `infos`, those of `slot`, in order.
pub open spec fn of_slot(infos: Seq<BroadcastShredBatchInfo>, slot: u64) -> Seq<
    BroadcastShredBatchInfo,
> {
    infos.filter(in_slot(slot))
}

pub open spec fn in_slot(slot: u64) -> spec_fn(BroadcastShredBatchInfo) -> bool {
    |info: BroadcastShredBatchInfo| info.slot == slot
}

proof fn lemma_all_of_slot(infos: Seq<BroadcastShredBatchInfo>, slot: u64)
    requires
        forall|i: int| 0 <= i < infos.len() ==> (#[trigger] infos[i]).slot == slot,
    ensures
        of_slot(infos, slot) == infos,
    decreases infos.len(),
{
    reveal(Seq::filter);
    if infos.len() > 0 {
        lemma_all_of_slot(infos.drop_last(), slot);
        assert(infos.drop_last().push(infos.last()) =~= infos);
    }
}

proof fn lemma_none_of_slot(infos: Seq<BroadcastShredBatchInfo>, slot: u64)
    requires
        forall|i: int| 0 <= i < infos.len() ==> (#[trigger] infos[i]).slot != slot,
    ensures
        of_slot(infos, slot) == Seq::<BroadcastShredBatchInfo>::empty(),
    decreases infos.len(),
{
    reveal(Seq::filter);
    if infos.len() > 0 {
        lemma_none_of_slot(infos.drop_last(), slot);
    }
}

/// On either channel, a slot that was received in `n` batches of entries has `2 * n` batches of
/// shreds. If it is finished, the last two of them tell that number; all others tell none.
pub proof fn lemma_number_told_is_number_sent(
    run: RunState,
    scripts: Seq<Script>,
    slot: u64,
    to: Channel,
)
    requires
        are_batches_of(scripts, run, slot),
    ensures
        of_slot(infos(run, scripts, to), slot) == slot_infos(
            slot,
            scripts[0].now,
            scripts.len(),
            scripts.last().is_last_in_slot(),
        ),
{
    let closing = closing_infos(scripts[0], run);
    let own = slot_infos(slot, scripts[0].now, scripts.len(), scripts.last().is_last_in_slot());
    lemma_batches_of_a_slot(run, scripts, slot, to);
    lemma_none_of_slot(closing, slot);
    lemma_all_of_slot(own, slot);
    Seq::filter_distributes_over_add(closing, own, in_slot(slot));
    assert(Seq::<BroadcastShredBatchInfo>::empty() + own =~= own);
}

/// On either channel, a slot that was received in `n` batches of entries and then interrupted has
/// `2 * n + 1` batches of shreds. The last of them, which closes it, tells that number; all others
/// tell none.
pub proof fn lemma_number_told_on_interruption_is_number_sent(
    run: RunState,
    scripts: Seq<Script>,
    slot: u64,
    interrupting: Script,
    to: Channel,
)
    requires
        are_batches_of(scripts, run, slot),
        !scripts.last().is_last_in_slot(),
        interrupting.results.bank.slot != slot,
        interrupting.results.bank.parent_slot <= interrupting.results.bank.slot,
    ensures
        of_slot(infos(run, scripts.push(interrupting), to), slot) == slot_infos(
            slot,
            scripts[0].now,
            scripts.len(),
            false,
        ).push(interrupted_info(slot, scripts[0].now, scripts.len())),
{
    let closing = closing_infos(scripts[0], run);
    let own = slot_infos(slot, scripts[0].now, scripts.len(), false);
    let last = seq![interrupted_info(slot, scripts[0].now, scripts.len())];
    let others = slot_infos(
        interrupting.results.bank.slot,
        interrupting.now,
        1,
        interrupting.is_last_in_slot(),
    );
    lemma_batches_of_an_interrupted_slot(run, scripts, slot, interrupting, to);
    lemma_none_of_slot(closing, slot);
    lemma_all_of_slot(own, slot);
    lemma_all_of_slot(last, slot);
    lemma_none_of_slot(others, slot);
    Seq::filter_distributes_over_add(closing, own, in_slot(slot));
    Seq::filter_distributes_over_add(closing + own, last, in_slot(slot));
    Seq::filter_distributes_over_add(closing + own + last, others, in_slot(slot));
    assert(of_slot(infos(run, scripts.push(interrupting), to), slot) =~= own.push(last[0]));
}

/// The data shreds of the batches of `scripts`, in order.
pub open spec fn data_of(scripts: Seq<Script>) -> Seq<Shred>
    decreases scripts.len(),
{
    if scripts.len() == 0 {
        Seq::empty()
    } else {
        data_of(scripts.drop_last()) + scripts.last().data
    }
}

/// The data shreds of which the batches of `scripts` make coding shreds, each for the slot that
/// it belongs to, in order.
pub open spec fn coded_of(run: RunState, scripts: Seq<Script>) -> Seq<Shred>
    decreases scripts.len(),
{
    if scripts.len() == 0 {
        Seq::empty()
    } else {
        let last = scripts.last();
        let before = after(run, scripts.drop_last());
        coded_of(run, scripts.drop_last()) + last.coded(last.first(before)).last()
    }
}

/// How many of the `total` data shreds of a slot are coded: all in complete erasure-coded sets,
/// and all of a finished slot.
pub open spec fn coded_total(total: nat, is_finished: bool) -> int {
    let set = MAX_DATA_SHREDS_PER_FEC_BLOCK as int;
    if is_finished {
        total as int
    } else {
        set * (total as int / set)
    }
}

/// What is coded of a slot does not depend on how its entries were batched: it is as many of the
/// slot's data shreds, from the first on, as fill complete erasure-coded sets, and all of them
/// once the slot is finished. The others stay buffered.
pub proof fn lemma_coding_does_not_depend_on_batching(
    run: RunState,
    scripts: Seq<Script>,
    slot: u64,
)
    requires
        are_batches_of(scripts, run, slot),
    ensures
        ({
            let data = data_of(scripts);
            let n = coded_total(data.len(), scripts.last().is_last_in_slot());
            &&& coded_of(run, scripts) == data.take(n)
            &&& after(run, scripts).unfinished matches Some(u) ==> u.buffer == data.skip(n)
        }),
    decreases scripts.len(),
{
    let last = scripts.last();
    let earlier = scripts.drop_last();
    let before = after(run, earlier);
    let is_finished = last.is_last_in_slot();
    let data = data_of(scripts);
    let n = coded_total(data.len(), is_finished);
    let m = coded_total(data_of(earlier).len(), false);
    assert(scripts[scripts.len() - 1] == last);
    if scripts.len() > 1 {
        lemma_earlier_batches(run, scripts, slot);
        lemma_coding_does_not_depend_on_batching(run, earlier, slot);
        lemma_batches_of_a_slot(run, earlier, slot, Channel::Socket);
    } else {
        assert(data_of(earlier) == Seq::<Shred>::empty());
    }
    lemma_what_a_batch_does(last, before);
    let buffered = last.buffered(before);
    assert(buffered =~= data_of(earlier).skip(m) + last.data);
    assert(n == m + crate::unfinished::coded_len(buffered.len() as int, is_finished));
    assert(last.coded(last.first(before)).last() == last.with_data(before).to_code(is_finished));
    assert(coded_of(run, earlier) =~= data_of(earlier).take(m));
    assert(coded_of(run, scripts) == coded_of(run, earlier) + buffered.take(n - m));
    assert(coded_of(run, scripts) =~= data.take(n));
    assert(after(run, scripts).unfinished matches Some(u) ==> u.buffer =~= data.skip(n));
}

/// Whether the data shreds of every batch of `scripts` were given consecutive indices.
pub open spec fn number_shreds_in_order(run: RunState, scripts: Seq<Script>) -> bool
    decreases scripts.len(),
{
    scripts.len() == 0 || {
        &&& number_shreds_in_order(run, scripts.drop_last())
        &&& scripts.last().numbers_shreds_in_order(after(run, scripts.drop_last()))
    }
}

/// After every batch of a slot whose shreds are numbered in order, the buffer holds as many data
/// shreds as the slot's indices go beyond its last complete erasure-coded set; and they go as far
/// as the slot has data shreds.
pub proof fn lemma_buffer_follows_the_indices_of_a_slot(
    run: RunState,
    scripts: Seq<Script>,
    slot: u64,
)
    requires
        are_batches_of(scripts, run, slot),
        number_shreds_in_order(run, scripts),
    ensures
        after(run, scripts).buffer_follows_indices(),
        after(run, scripts).unfinished matches Some(u) ==> u.next_shred_index - u.fec_set_offset
            == data_of(scripts).len(),
    decreases scripts.len(),
{
    let last = scripts.last();
    let earlier = scripts.drop_last();
    let before = after(run, earlier);
    assert(scripts[scripts.len() - 1] == last);
    if scripts.len() > 1 {
        lemma_earlier_batches(run, scripts, slot);
        lemma_batches_of_a_slot(run, earlier, slot, Channel::Socket);
        lemma_buffer_follows_the_indices_of_a_slot(run, earlier, slot);
    } else {
        assert(data_of(earlier) == Seq::<Shred>::empty());
    }
    lemma_buffer_follows_the_indices(last, before);
    lemma_what_a_batch_does(last, before);
}

/// All data shreds of an interrupted slot are coded, in order and each once, and then the shred
/// that closes it.
pub proof fn lemma_interrupted_slot_is_coded_whole(
    run: RunState,
    scripts: Seq<Script>,
    slot: u64,
    interrupting: Script,
)
    requires
        are_batches_of(scripts, run, slot),
        !scripts.last().is_last_in_slot(),
        interrupting.results.bank.slot != slot,
        interrupting.results.bank.parent_slot <= interrupting.results.bank.slot,
    ensures
        ({
            let before = after(run, scripts);
            coded_of(run, scripts) + interrupting.coded(interrupting.first(before))[0] == data_of(
                scripts,
            ).push(interrupting.last_shred(before))
        }),
{
    let before = after(run, scripts);
    lemma_coding_does_not_depend_on_batching(run, scripts, slot);
    lemma_batches_of_a_slot(run, scripts, slot, Channel::Socket);
    lemma_interrupted_slot_is_closed(interrupting, before);
    assert(coded_of(run, scripts) + interrupting.coded(interrupting.first(before))[0] =~= data_of(
        scripts,
    ).push(interrupting.last_shred(before)));
}

/// Each batch of shreds with what it took.
pub open spec fn with_stats<T>(stats: Seq<T>, infos: Seq<BroadcastShredBatchInfo>) -> Seq<
    (T, BroadcastShredBatchInfo),
> {
    Seq::new(infos.len(), |i: int| (stats[i], infos[i]))
}

/// Counts the batches of a slot that stand together.
proof fn lemma_batches_of_range<T>(
    batches: Seq<(T, BroadcastShredBatchInfo)>,
    slot: u64,
    from: int,
    to: int,
)
    requires
        0 <= from <= to <= batches.len(),
        forall|i: int|
            0 <= i < batches.len() ==> ((#[trigger] batches[i]).1.slot == slot <==> from <= i < to),
    ensures
        crate::metrics::batches_of(batches, slot) == to - from,
    decreases batches.len(),
{
    if batches.len() > 0 {
        let before = batches.drop_last();
        assert forall|i: int| 0 <= i < before.len() implies ((#[trigger] before[i]).1.slot == slot
            <==> from <= i < to) by {
            assert(before[i] == batches[i]);
        }
        assert(batches[batches.len() - 1] == batches.last());
        if to == batches.len() {
            lemma_batches_of_range(
                before,
                slot,
                if from == to {
                    from - 1
                } else {
                    from
                },
                to - 1,
            );
        } else {
            lemma_batches_of_range(before, slot, from, to);
        }
    }
}

/// Of a slot that is neither finished nor interrupted, the statistics of a channel have
/// counted two batches of shreds for each batch of entries.
pub proof fn lemma_batches_of_an_unfinished_slot_are_counted<T: BroadcastStats>(
    run: RunState,
    scripts: Seq<Script>,
    slot: u64,
    to: Channel,
    counters: Map<u64, BatchCounter<T>>,
    stats: Seq<T>,
)
    requires
        are_batches_of(scripts, run, slot),
        !scripts.last().is_last_in_slot(),
        !counters.contains_key(slot),
    ensures
        ({
            let batches = with_stats(stats, infos(run, scripts, to));
            let counted = crate::metrics::count_batches(counters, batches);
            counted.contains_key(slot) && counted[slot].num_batches == 2 * scripts.len()
        }),
{
    lemma_batches_of_a_slot(run, scripts, slot, to);
    let batches = with_stats(stats, infos(run, scripts, to));
    let closing = closing_infos(scripts[0], run);
    let n = scripts.len();
    lemma_batches_of_range(batches, slot, closing.len() as int, batches.len() as int);
    crate::metrics::lemma_slot_is_forgotten_when_all_batches_are_in(
        counters,
        batches,
        slot,
        (2 * n) as usize,
    );
}

/// Once a finished slot's batches are all in, the statistics of a channel have forgotten it.
pub proof fn lemma_finished_slot_is_forgotten<T: BroadcastStats>(
    run: RunState,
    scripts: Seq<Script>,
    slot: u64,
    to: Channel,
    counters: Map<u64, BatchCounter<T>>,
    stats: Seq<T>,
)
    requires
        are_batches_of(scripts, run, slot),
        scripts.last().is_last_in_slot(),
        !counters.contains_key(slot),
    ensures
        !crate::metrics::count_batches(
            counters,
            with_stats(stats, infos(run, scripts, to)),
        ).contains_key(slot),
{
    lemma_batches_of_a_slot(run, scripts, slot, to);
    let batches = with_stats(stats, infos(run, scripts, to));
    let closing = closing_infos(scripts[0], run);
    let n = scripts.len();
    lemma_batches_of_range(batches, slot, closing.len() as int, batches.len() as int);
    assert(crate::metrics::some_batch_tells(batches, slot)) by {
        let i = batches.len() - 1;
        assert(batches[i].1.slot == slot && batches[i].1.num_expected_batches is Some);
    }
    crate::metrics::lemma_slot_is_forgotten_when_all_batches_are_in(
        counters,
        batches,
        slot,
        (2 * n) as usize,
    );
}

/// Once an interrupted slot's batches are all in, with the one that closes it, the statistics of a
/// channel have forgotten it.
pub proof fn lemma_interrupted_slot_is_forgotten<T: BroadcastStats>(
    run: RunState,
    scripts: Seq<Script>,
    slot: u64,
    interrupting: Script,
    to: Channel,
    counters: Map<u64, BatchCounter<T>>,
    stats: Seq<T>,
)
    requires
        are_batches_of(scripts, run, slot),
        !scripts.last().is_last_in_slot(),
        interrupting.results.bank.slot != slot,
        interrupting.results.bank.parent_slot <= interrupting.results.bank.slot,
        !counters.contains_key(slot),
    ensures
        !crate::metrics::count_batches(
            counters,
            with_stats(stats, infos(run, scripts.push(interrupting), to)),
        ).contains_key(slot),
{
    let n = scripts.len();
    let first = closing_infos(scripts[0], run);
    let closing = interrupted_info(slot, scripts[0].now, n);
    let sent = infos(run, scripts.push(interrupting), to);
    lemma_batches_of_an_interrupted_slot(run, scripts, slot, interrupting, to);
    let batches = with_stats(stats, sent);
    let told = (first.len() + 2 * n) as int;
    lemma_batches_of_range(batches, slot, first.len() as int, told + 1);
    assert(crate::metrics::some_batch_tells(batches, slot)) by {
        assert(batches[told].1 == closing);
    }
    crate::metrics::lemma_slot_is_forgotten_when_all_batches_are_in(
        counters,
        batches,
        slot,
        (2 * n + 1) as usize,
    );
}

} // verus!

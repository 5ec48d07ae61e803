//! What a caller sees of a batch whose sends succeed: every action, in order, said of what was
//! received, of what was answered and of the state before the batch; and what follows for the
//! shreds, the plans and the reports of a slot.
use crate::laws::Script;
use crate::metrics::BroadcastShredBatchInfo;
use crate::process::{Action, Channel, Event, ProcessingState, ReceiveResults, ShreddingPlan};
use crate::run::{ProcessShredsReport, RunState};
use crate::shred::{DataShredHeader, Shred};
use crate::stats::ProcessShredsStats;
use std::sync::Arc;
use std::time::Instant;
use vstd::prelude::*;

verus! {

/// Figures that are all zero.
pub open spec fn no_figures() -> ProcessShredsStats {
    ProcessShredsStats {
        shredding_elapsed: 0,
        receive_elapsed: 0,
        serialize_elapsed: 0,
        gen_data_elapsed: 0,
        gen_coding_elapsed: 0,
        sign_coding_elapsed: 0,
        coding_send_elapsed: 0,
        get_leader_schedule_elapsed: 0,
    }
}

/// The sum of two figures, cut to the width of a figure.
pub open spec fn figure(a: u64, b: u64) -> u64 {
    (a + b) as u64
}

impl Script {
    /// Whether the batch is the first of its slot.
    pub open spec fn is_first_in_slot(self, run: RunState) -> bool {
        match run.current_slot_and_parent {
            None => true,
            Some((current_slot, _)) => current_slot != self.results.bank.slot,
        }
    }

    /// Whether shreds of another slot are unfinished when the batch comes.
    pub open spec fn interrupts(self, run: RunState) -> bool {
        match run.unfinished {
            Some(u) => u.slot != self.results.bank.slot,
            None => false,
        }
    }

    /// Whether shreds of the batch's slot are unfinished when the batch comes.
    pub open spec fn goes_on(self, run: RunState) -> bool {
        match run.unfinished {
            Some(u) => u.slot == self.results.bank.slot,
            None => false,
        }
    }

    /// Whether the batch ends its slot: its last tick is the last tick of the bank.
    pub open spec fn ends_slot(self) -> bool {
        self.results.last_tick_height == self.results.bank.max_tick_height
    }

    /// The parent of the slot: what the bank said when the slot began.
    pub open spec fn parent_slot(self, run: RunState) -> u64 {
        match run.current_slot_and_parent {
            Some((current_slot, parent)) if current_slot == self.results.bank.slot => parent,
            _ => self.results.bank.parent_slot,
        }
    }

    /// When the broadcast of the slot started.
    pub open spec fn slot_start(self, run: RunState) -> Instant {
        if self.is_first_in_slot(run) {
            self.now
        } else {
            run.slot_broadcast_start->0
        }
    }

    /// How many batches of shreds the slot has once those of this batch are sent.
    pub open spec fn batches_so_far(self, run: RunState) -> int {
        if self.is_first_in_slot(run) {
            2
        } else {
            run.num_batches + 2
        }
    }

    /// How many shreds of the slot the ledger says that it has consumed, cut to 32 bits.
    pub open spec fn consumed_shreds(self) -> u32 {
        match self.consumed {
            Some(n) => (n % 0x1_0000_0000) as u32,
            None => 0,
        }
    }

    /// The empty data shred that closes the slot which the batch interrupts.
    pub open spec fn shred_that_closes(self, run: RunState) -> Shred {
        Shred {
            slot: run.unfinished->0.slot,
            index: run.unfinished->0.next_shred_index,
            is_data: true,
            payload: self.last_payload,
        }
    }

    /// All data shreds of the slot that are not coded when the coding shreds are made.
    pub open spec fn not_coded_yet(self, run: RunState) -> Seq<Shred> {
        if self.goes_on(run) {
            run.unfinished->0.buffer + self.data
        } else {
            self.data
        }
    }

    /// How many of them are coded: those that fill sets of 32, and all at the end of the slot.
    pub open spec fn num_coded(self, run: RunState) -> int {
        let size = self.not_coded_yet(run).len() as int;
        if self.ends_slot() {
            size
        } else {
            32 * (size / 32)
        }
    }

    /// The microseconds that passed until the batch was received. Those before the first batch of
    /// a slot do not count.
    pub open spec fn receive_micros(self, run: RunState) -> u64 {
        let micros = self.results.time_elapsed.secs * 1_000_000
            + self.results.time_elapsed.subsec_nanos as int / 1_000;
        if self.is_first_in_slot(run) {
            0
        } else if micros <= u64::MAX {
            micros as u64
        } else {
            u64::MAX
        }
    }

    /// The figures of the slot before the batch. An interrupted slot takes its figures along.
    pub open spec fn figures_before(self, run: RunState) -> ProcessShredsStats {
        if self.interrupts(run) {
            no_figures()
        } else {
            run.process_shreds_stats
        }
    }

    /// The figures of the slot with those of the batch.
    pub open spec fn figures_after(self, run: RunState) -> ProcessShredsStats {
        let f = self.figures_before(run);
        ProcessShredsStats {
            shredding_elapsed: figure(f.shredding_elapsed, self.timings.shredding_elapsed),
            receive_elapsed: figure(f.receive_elapsed, self.receive_micros(run)),
            serialize_elapsed: figure(f.serialize_elapsed, self.coding_stats.serialize_elapsed),
            gen_data_elapsed: figure(f.gen_data_elapsed, self.coding_stats.gen_data_elapsed),
            gen_coding_elapsed: figure(f.gen_coding_elapsed, self.coding_stats.gen_coding_elapsed),
            sign_coding_elapsed: figure(
                f.sign_coding_elapsed,
                self.coding_stats.sign_coding_elapsed,
            ),
            coding_send_elapsed: figure(f.coding_send_elapsed, self.timings.coding_send_elapsed),
            get_leader_schedule_elapsed: figure(
                f.get_leader_schedule_elapsed,
                self.timings.get_leader_schedule_elapsed,
            ),
        }
    }

    /// First an interrupted slot is closed: its last shred is made, all that it has buffered is
    /// coded with that shred, and its figures are reported.
    pub open spec fn closing_actions(self, run: RunState) -> Seq<Action<Seq<Shred>>> {
        let u = run.unfinished->0;
        if self.interrupts(run) {
            seq![
                Action::MakeLastShred(
                    DataShredHeader {
                        slot: u.slot,
                        index: u.next_shred_index,
                        parent_offset: ((u.slot - u.parent) % 0x1_0000) as u16,
                        is_last_in_fec_set: true,
                        is_last_in_slot: true,
                        reference_tick: (self.results.bank.ticks_per_slot % 64) as u8,
                        version: run.shred_version,
                        fec_set_offset: u.fec_set_offset,
                    },
                ),
                Action::MakeCodingShreds {
                    data_shreds: u.buffer.push(self.shred_that_closes(run)),
                    stats: no_figures(),
                },
                Action::SubmitReport(
                    ProcessShredsReport {
                        slot: u.slot,
                        num_data_shreds: u.next_shred_index,
                        slot_broadcast_start: self.now,
                        stats: run.process_shreds_stats,
                    },
                ),
            ]
        } else {
            Seq::empty()
        }
    }

    /// The ledger is asked about a slot of which nothing is unfinished.
    pub open spec fn asking_actions(self, run: RunState) -> Seq<Action<Seq<Shred>>> {
        if self.goes_on(run) {
            Seq::empty()
        } else {
            seq![Action::ReadSlotMeta { slot: self.results.bank.slot }]
        }
    }

    /// Then the entries become data shreds.
    pub open spec fn shredding_actions(self, run: RunState) -> Seq<Action<Seq<Shred>>> {
        seq![
            Action::ShredEntries(
                ShreddingPlan {
                    slot: self.results.bank.slot,
                    parent_slot: self.parent_slot(run),
                    reference_tick: (self.results.bank.tick_height
                        % self.results.bank.ticks_per_slot % 0x100) as u8,
                    version: run.shred_version,
                    is_slot_end: self.ends_slot(),
                    next_shred_index: if self.goes_on(run) {
                        run.unfinished->0.next_shred_index
                    } else {
                        self.consumed_shreds()
                    },
                    fec_set_offset: if self.goes_on(run) {
                        run.unfinished->0.fec_set_offset
                    } else {
                        self.consumed_shreds()
                    },
                    stats: if self.interrupts(run) {
                        self.prev_coding_stats
                    } else {
                        no_figures()
                    },
                },
            ),
        ]
    }

    /// A shred of index zero that comes first is stored.
    pub open spec fn storing_actions(self) -> Seq<Action<Seq<Shred>>> {
        if self.data.len() > 0 && self.data[0].index == 0 {
            seq![Action::StoreFirstShred(self.data[0])]
        } else {
            Seq::empty()
        }
    }

    /// What closes an interrupted slot is sent. It is that slot's last batch of shreds.
    pub open spec fn closing_sends(self, run: RunState) -> Seq<Action<Seq<Shred>>> {
        let shreds = seq![self.shred_that_closes(run)] + self.prev_coding;
        let batch_info = BroadcastShredBatchInfo {
            slot: run.unfinished->0.slot,
            num_expected_batches: Some((run.num_batches + 1) as usize),
            slot_start_ts: run.slot_broadcast_start->0,
        };
        if self.interrupts(run) {
            seq![
                Action::Send { to: Channel::Socket, shreds, batch_info },
                Action::Send { to: Channel::Blockstore, shreds, batch_info },
            ]
        } else {
            Seq::empty()
        }
    }

    /// The data shreds are sent; coding shreds are made, and sent; and the time is taken.
    pub open spec fn sending_actions(self, run: RunState) -> Seq<Action<Seq<Shred>>> {
        let batch_info = BroadcastShredBatchInfo {
            slot: self.results.bank.slot,
            num_expected_batches: if self.ends_slot() {
                Some(self.batches_so_far(run) as usize)
            } else {
                None
            },
            slot_start_ts: self.slot_start(run),
        };
        seq![
            Action::Send { to: Channel::Socket, shreds: self.data, batch_info },
            Action::Send { to: Channel::Blockstore, shreds: self.data, batch_info },
            Action::MakeCodingShreds {
                data_shreds: self.not_coded_yet(run).take(self.num_coded(run)),
                stats: self.data_stats,
            },
            Action::Send { to: Channel::Socket, shreds: self.coding, batch_info },
            Action::Send { to: Channel::Blockstore, shreds: self.coding, batch_info },
            Action::MeasureTimings,
        ]
    }

    /// The figures of a slot that the batch ends are reported.
    pub open spec fn reporting_actions(self, run: RunState) -> Seq<Action<Seq<Shred>>> {
        if self.ends_slot() {
            seq![
                Action::SubmitReport(
                    ProcessShredsReport {
                        slot: self.results.bank.slot,
                        num_data_shreds: self.next_shred_index,
                        slot_broadcast_start: self.slot_start(run),
                        stats: self.figures_after(run),
                    },
                ),
            ]
        } else {
            Seq::empty()
        }
    }

    /// All actions of the batch.
    pub open spec fn trace(self, run: RunState) -> Seq<Action<Seq<Shred>>> {
        self.closing_actions(run) + self.asking_actions(run) + self.shredding_actions(run)
            + self.storing_actions() + self.closing_sends(run) + self.sending_actions(run)
            + self.reporting_actions(run) + seq![Action::Complete]
    }
}

proof fn lemma_trace_from_send_data(script: Script, run: RunState, processing: ProcessingState)
    ensures
        ({
            let stage = crate::process::send_data(run, processing);
            let info = stage.run.batch_info(processing.context);
            let stats = ProcessingState { stats: script.coding_stats, ..processing }.batch_stats(
                script.timings,
            );
            let end = RunState {
                process_shreds_stats: run.process_shreds_stats.plus(stats),
                ..stage.run
            };
            script.actions(stage) == seq![
                Action::Send {
                    to: Channel::Socket,
                    shreds: processing.data_shreds,
                    batch_info: info,
                },
                Action::Send {
                    to: Channel::Blockstore,
                    shreds: processing.data_shreds,
                    batch_info: info,
                },
                Action::MakeCodingShreds {
                    data_shreds: run.unfinished->0.to_code(processing.context.is_last_in_slot),
                    stats: processing.stats,
                },
                Action::Send { to: Channel::Socket, shreds: script.coding, batch_info: info },
                Action::Send { to: Channel::Blockstore, shreds: script.coding, batch_info: info },
                Action::MeasureTimings,
            ] + (if processing.context.is_last_in_slot {
                seq![Action::SubmitReport(end.report())]
            } else {
                Seq::empty()
            }) + seq![Action::Complete]
        }),
{
    reveal_with_fuel(Script::actions, 9);
}

proof fn lemma_trace_from_send_shreds(script: Script, run: RunState, processing: ProcessingState)
    ensures
        script.actions(crate::process::send_shreds(run, processing)) == (
        if processing.prev_slot_shreds.len() > 0 {
            seq![
                Action::Send {
                    to: Channel::Socket,
                    shreds: processing.prev_slot_shreds,
                    batch_info: processing.closing_info(),
                },
                Action::Send {
                    to: Channel::Blockstore,
                    shreds: processing.prev_slot_shreds,
                    batch_info: processing.closing_info(),
                },
            ]
        } else {
            Seq::empty()
        }) + script.actions(crate::process::send_data(run, processing)),
{
    let stage = crate::process::send_shreds(run, processing);
    let data = crate::process::send_data(run, processing);
    if processing.prev_slot_shreds.len() > 0 {
        let stored = script.next(stage);
        lemma_trace_from_send_data(script, run, stored.processing);
        lemma_trace_from_send_data(script, run, processing);
        assert(script.next(stored) == crate::process::send_data(run, stored.processing));
        assert(script.actions(script.next(stored)) == script.actions(data));
        reveal_with_fuel(Script::actions, 3);
    } else {
        assert(Seq::empty() + script.actions(data) =~= script.actions(data));
    }
}

/// The broadcast once the data shreds of the batch are buffered.
spec fn with_data_buffered(script: Script, run: RunState, processing: ProcessingState) -> RunState {
    RunState {
        unfinished: Some(
            crate::unfinished::UnfinishedSlot {
                next_shred_index: script.next_shred_index,
                slot: processing.context.slot,
                parent: processing.context.parent_slot,
                buffer: match run.unfinished {
                    Some(u) => u.buffer,
                    None => Seq::empty(),
                } + script.data,
                fec_set_offset: match run.unfinished {
                    Some(u) => u.fec_set_offset,
                    None => script.consumed_shreds(),
                },
            },
        ),
        ..run
    }
}

proof fn lemma_trace_from_shred_entries(script: Script, run: RunState, processing: ProcessingState)
    ensures
        ({
            let context = processing.context;
            let (index, offset) = match run.unfinished {
                Some(u) => (u.next_shred_index, u.fec_set_offset),
                None => (script.consumed_shreds(), script.consumed_shreds()),
            };
            let made = ProcessingState {
                stats: script.data_stats,
                data_shreds: script.data,
                ..processing
            };
            script.actions(crate::process::shred_entries(run, processing)) == (
            if run.unfinished is Some {
                Seq::empty()
            } else {
                seq![Action::ReadSlotMeta { slot: context.slot }]
            }) + seq![
                Action::ShredEntries(
                    ShreddingPlan {
                        slot: context.slot,
                        parent_slot: context.parent_slot,
                        reference_tick: context.reference_tick,
                        version: run.shred_version,
                        is_slot_end: context.is_last_in_slot,
                        next_shred_index: index,
                        fec_set_offset: offset,
                        stats: processing.stats,
                    },
                ),
            ] + script.storing_actions() + script.actions(
                crate::process::send_shreds(with_data_buffered(script, run, processing), made),
            )
        }),
{
    let stage = crate::process::shred_entries(run, processing);
    let buffered = with_data_buffered(script, run, processing);
    let shredding = if run.unfinished is Some {
        stage
    } else {
        script.next(stage)
    };
    let made = script.next(shredding);
    let sending = if made.processing.phase is FirstShred {
        script.next(made)
    } else {
        made
    };
    let at_send = ProcessingState {
        stats: script.data_stats,
        data_shreds: script.data,
        phase: sending.processing.phase,
        ..processing
    };
    let plain = ProcessingState {
        stats: script.data_stats,
        data_shreds: script.data,
        ..processing
    };
    assert(made.run.unfinished == buffered.unfinished || !(made.processing.phase is FirstShred));
    assert(sending == crate::process::send_shreds(buffered, at_send));
    assert(sending == crate::process::send_shreds(buffered, plain));
    reveal_with_fuel(Script::actions, 4);
}

/// The broadcast and the processing when the batch comes to its entries.
spec fn at_entries(script: Script, run: RunState) -> (RunState, ProcessingState) {
    let stage = script.first(run);
    if script.interrupts(run) {
        let reported = script.next(script.next(stage));
        (reported.run, reported.processing)
    } else {
        (stage.run, stage.processing)
    }
}

proof fn lemma_at_entries(script: Script, run: RunState)
    requires
        script.is_possible(run),
    ensures
        ({
            let (before, processing) = at_entries(script, run);
            let context = processing.context;
            &&& before == RunState {
                process_shreds_stats: script.figures_before(run),
                unfinished: if script.goes_on(run) {
                    run.unfinished
                } else {
                    None
                },
                current_slot_and_parent: Some((script.results.bank.slot, script.parent_slot(run))),
                slot_broadcast_start: Some(script.slot_start(run)),
                shred_version: run.shred_version,
                num_batches: (script.batches_so_far(run) - 2) as usize,
            }
            &&& context.slot == script.results.bank.slot
            &&& context.parent_slot == script.parent_slot(run)
            &&& context.reference_tick == (script.results.bank.tick_height
                % script.results.bank.ticks_per_slot % 0x100) as u8
            &&& context.is_last_in_slot == script.ends_slot()
            &&& context.receive_elapsed.micros() as u64 == script.receive_micros(run)
            &&& context.old_broadcast_start == run.slot_broadcast_start
            &&& context.old_num_batches == run.num_batches
            &&& processing.stats == if script.interrupts(run) {
                script.prev_coding_stats
            } else {
                no_figures()
            }
            &&& processing.prev_slot_shreds == if script.interrupts(run) {
                seq![script.shred_that_closes(run)] + script.prev_coding
            } else {
                Seq::empty()
            }
        }),
{
    lemma_saturating_twice(script);
}

/// An interrupted slot is closed, and the batch comes to its entries.
proof fn lemma_trace_to_entries(script: Script, run: RunState)
    requires
        script.is_possible(run),
        script.results.bank.ticks_per_slot > 0,
    ensures
        ({
            let (before, processing) = at_entries(script, run);
            script.actions(script.first(run)) == script.closing_actions(run) + script.actions(
                crate::process::shred_entries(before, processing),
            )
        }),
{
    let stage = script.first(run);
    let (before, processing) = at_entries(script, run);
    let entries = crate::process::shred_entries(before, processing);
    let ticks = script.results.bank.ticks_per_slot;
    assert(((ticks % 0x100) as u8) & 0x3f == (ticks % 64) as u8) by (bit_vector);
    if script.interrupts(run) {
        let u = run.unfinished->0;
        let closed = crate::unfinished::UnfinishedSlot {
            buffer: u.buffer.push(script.shred_that_closes(run)),
            ..u
        };
        assert(closed.to_code(true) =~= closed.buffer);
        let coding = script.next(stage);
        let reported = script.next(coding);
        assert(script.next(reported) == entries);
        assert(stage.action == script.closing_actions(run)[0]);
        assert(coding.action == script.closing_actions(run)[1]);
        assert(reported.action == script.closing_actions(run)[2]);
        assert(script.actions(reported) == seq![reported.action] + script.actions(entries));
        assert(script.actions(coding) == seq![coding.action] + script.actions(reported));
        assert(script.actions(stage) == seq![stage.action] + script.actions(coding));
        assert(script.actions(stage) =~= script.closing_actions(run) + script.actions(entries));
    } else {
        assert(stage == entries);
        assert(script.actions(stage) =~= script.closing_actions(run) + script.actions(entries));
    }
}

/// The processing when the data shreds are made.
spec fn at_sending(script: Script, run: RunState) -> (RunState, ProcessingState) {
    let (before, processing) = at_entries(script, run);
    (
        with_data_buffered(script, before, processing),
        ProcessingState { stats: script.data_stats, data_shreds: script.data, ..processing },
    )
}

proof fn lemma_trace_of_data(script: Script, run: RunState)
    requires
        script.is_possible(run),
    ensures
        ({
            let (buffered, made) = at_sending(script, run);
            script.actions(crate::process::send_data(buffered, made)) == script.sending_actions(run)
                + script.reporting_actions(run) + seq![Action::Complete]
        }),
{
    let (buffered, made) = at_sending(script, run);
    lemma_at_entries(script, run);
    lemma_trace_from_send_data(script, buffered, made);
    assert(buffered.unfinished->0.buffer =~= script.not_coded_yet(run));
    assert(buffered.unfinished->0.to_code(script.ends_slot()) =~= script.not_coded_yet(run).take(
        script.num_coded(run),
    ));
}

proof fn lemma_trace_of_sending(script: Script, run: RunState)
    requires
        script.is_possible(run),
    ensures
        ({
            let (buffered, made) = at_sending(script, run);
            script.actions(crate::process::send_shreds(buffered, made)) == script.closing_sends(run)
                + script.actions(crate::process::send_data(buffered, made))
        }),
{
    let (buffered, made) = at_sending(script, run);
    lemma_at_entries(script, run);
    lemma_trace_from_send_shreds(script, buffered, made);
}

proof fn lemma_trace_of_entries(script: Script, run: RunState)
    requires
        script.is_possible(run),
    ensures
        ({
            let (before, processing) = at_entries(script, run);
            let (buffered, made) = at_sending(script, run);
            script.actions(crate::process::shred_entries(before, processing))
                == script.asking_actions(run) + script.shredding_actions(run)
                + script.storing_actions() + script.actions(
                crate::process::send_shreds(buffered, made),
            )
        }),
{
    let (before, processing) = at_entries(script, run);
    lemma_at_entries(script, run);
    lemma_trace_from_shred_entries(script, before, processing);
}

proof fn lemma_flat<A>(
    a: Seq<A>,
    b: Seq<A>,
    c: Seq<A>,
    d: Seq<A>,
    e: Seq<A>,
    f: Seq<A>,
    g: Seq<A>,
    h: Seq<A>,
)
    ensures
        a + (b + c + d + (e + (f + g + h))) == a + b + c + d + e + f + g + h,
{
    assert(a + (b + c + d + (e + (f + g + h))) =~= a + b + c + d + e + f + g + h);
}

/// The caller sees exactly the actions of [`Script::trace`], in that order.
pub proof fn lemma_actions_of_a_batch(script: Script, run: RunState)
    requires
        script.is_possible(run),
        script.results.bank.ticks_per_slot > 0,
    ensures
        script.actions(script.first(run)) == script.trace(run),
{
    lemma_trace_to_entries(script, run);
    lemma_trace_of_entries(script, run);
    lemma_trace_of_sending(script, run);
    lemma_trace_of_data(script, run);
    lemma_flat(
        script.closing_actions(run),
        script.asking_actions(run),
        script.shredding_actions(run),
        script.storing_actions(),
        script.closing_sends(run),
        script.sending_actions(run),
        script.reporting_actions(run),
        seq![Action::Complete],
    );
}

/// Stopping at the largest figure twice is stopping once.
proof fn lemma_saturating_twice(script: Script)
    ensures
        script.results.time_elapsed.micros() == ({
            let micros = script.results.time_elapsed.secs * 1_000_000
                + script.results.time_elapsed.subsec_nanos as int / 1_000;
            if micros <= u64::MAX {
                micros
            } else {
                u64::MAX as int
            }
        }),
{
}

proof fn lemma_filter_none<A>(s: Seq<A>, pred: spec_fn(A) -> bool)
    requires
        forall|i: int| 0 <= i < s.len() ==> !pred(#[trigger] s[i]),
    ensures
        s.filter(pred) == Seq::<A>::empty(),
    decreases s.len(),
{
    reveal(Seq::filter);
    if s.len() > 0 {
        lemma_filter_none(s.drop_last(), pred);
    }
}

proof fn lemma_filter_all<A>(s: Seq<A>, pred: spec_fn(A) -> bool)
    requires
        forall|i: int| 0 <= i < s.len() ==> pred(#[trigger] s[i]),
    ensures
        s.filter(pred) == s,
    decreases s.len(),
{
    reveal(Seq::filter);
    if s.len() > 0 {
        lemma_filter_all(s.drop_last(), pred);
        assert(s.drop_last().push(s.last()) =~= s);
    }
}

proof fn lemma_filter_parts<A>(
    a: Seq<A>,
    b: Seq<A>,
    c: Seq<A>,
    d: Seq<A>,
    e: Seq<A>,
    f: Seq<A>,
    g: Seq<A>,
    h: Seq<A>,
    pred: spec_fn(A) -> bool,
)
    ensures
        (a + b + c + d + e + f + g + h).filter(pred) == a.filter(pred) + b.filter(pred) + c.filter(
            pred,
        ) + d.filter(pred) + e.filter(pred) + f.filter(pred) + g.filter(pred) + h.filter(pred),
{
    Seq::filter_distributes_over_add(a, b, pred);
    Seq::filter_distributes_over_add(a + b, c, pred);
    Seq::filter_distributes_over_add(a + b + c, d, pred);
    Seq::filter_distributes_over_add(a + b + c + d, e, pred);
    Seq::filter_distributes_over_add(a + b + c + d + e, f, pred);
    Seq::filter_distributes_over_add(a + b + c + d + e + f, g, pred);
    Seq::filter_distributes_over_add(a + b + c + d + e + f + g, h, pred);
}

pub open spec fn is_shredding() -> spec_fn(Action<Seq<Shred>>) -> bool {
    |action: Action<Seq<Shred>>| action is ShredEntries
}

pub open spec fn is_report() -> spec_fn(Action<Seq<Shred>>) -> bool {
    |action: Action<Seq<Shred>>| action is SubmitReport
}

proof fn lemma_shreddings(script: Script, run: RunState)
    requires
        script.is_possible(run),
        script.results.bank.ticks_per_slot > 0,
    ensures
        script.actions(script.first(run)).filter(is_shredding()) == script.shredding_actions(run),
{
    let pred = is_shredding();
    let end = seq![Action::<Seq<Shred>>::Complete];
    lemma_actions_of_a_batch(script, run);
    lemma_filter_parts(
        script.closing_actions(run),
        script.asking_actions(run),
        script.shredding_actions(run),
        script.storing_actions(),
        script.closing_sends(run),
        script.sending_actions(run),
        script.reporting_actions(run),
        end,
        pred,
    );
    lemma_filter_none(script.closing_actions(run), pred);
    lemma_filter_none(script.asking_actions(run), pred);
    lemma_filter_all(script.shredding_actions(run), pred);
    lemma_filter_none(script.storing_actions(), pred);
    lemma_filter_none(script.closing_sends(run), pred);
    lemma_filter_none(script.sending_actions(run), pred);
    lemma_filter_none(script.reporting_actions(run), pred);
    lemma_filter_none(end, pred);
    assert(script.actions(script.first(run)).filter(pred) =~= script.shredding_actions(run));
}

proof fn lemma_reports_of_closing(script: Script, run: RunState)
    ensures
        script.closing_actions(run).filter(is_report()) == if script.interrupts(run) {
            seq![script.closing_actions(run)[2]]
        } else {
            Seq::empty()
        },
{
    let pred = is_report();
    let closing = script.closing_actions(run);
    if script.interrupts(run) {
        let made = seq![closing[0], closing[1]];
        let reported = seq![closing[2]];
        assert(closing =~= made + reported);
        Seq::filter_distributes_over_add(made, reported, pred);
        lemma_filter_none(made, pred);
        lemma_filter_all(reported, pred);
        assert(closing.filter(pred) =~= reported);
    } else {
        lemma_filter_none(closing, pred);
    }
}

proof fn lemma_reports_of_parts(script: Script, run: RunState)
    ensures
        script.asking_actions(run).filter(is_report()) == Seq::<Action<Seq<Shred>>>::empty(),
        script.shredding_actions(run).filter(is_report()) == Seq::<Action<Seq<Shred>>>::empty(),
        script.storing_actions().filter(is_report()) == Seq::<Action<Seq<Shred>>>::empty(),
        script.closing_sends(run).filter(is_report()) == Seq::<Action<Seq<Shred>>>::empty(),
        script.sending_actions(run).filter(is_report()) == Seq::<Action<Seq<Shred>>>::empty(),
        script.reporting_actions(run).filter(is_report()) == script.reporting_actions(run),
        seq![Action::<Seq<Shred>>::Complete].filter(is_report()) == Seq::<
            Action<Seq<Shred>>,
        >::empty(),
{
    lemma_filter_none(script.asking_actions(run), is_report());
    lemma_filter_none(script.shredding_actions(run), is_report());
    lemma_filter_none(script.storing_actions(), is_report());
    lemma_filter_none(script.closing_sends(run), is_report());
    lemma_filter_none(script.sending_actions(run), is_report());
    lemma_filter_all(script.reporting_actions(run), is_report());
    lemma_filter_none(seq![Action::<Seq<Shred>>::Complete], is_report());
}

proof fn lemma_ends_remain<A>(a: Seq<A>, g: Seq<A>)
    ensures
        ({
            let none = Seq::<A>::empty();
            a + none + none + none + none + none + g + none == a + g
        }),
{
    let none = Seq::<A>::empty();
    assert(a + none + none + none + none + none + g + none =~= a + g);
}

proof fn lemma_reports(script: Script, run: RunState)
    requires
        script.is_possible(run),
        script.results.bank.ticks_per_slot > 0,
    ensures
        script.actions(script.first(run)).filter(is_report()) == (if script.interrupts(run) {
            seq![script.closing_actions(run)[2]]
        } else {
            Seq::empty()
        }) + script.reporting_actions(run),
{
    lemma_actions_of_a_batch(script, run);
    lemma_filter_parts(
        script.closing_actions(run),
        script.asking_actions(run),
        script.shredding_actions(run),
        script.storing_actions(),
        script.closing_sends(run),
        script.sending_actions(run),
        script.reporting_actions(run),
        seq![Action::Complete],
        is_report(),
    );
    lemma_reports_of_closing(script, run);
    lemma_reports_of_parts(script, run);
    lemma_ends_remain(
        script.closing_actions(run).filter(is_report()),
        script.reporting_actions(run),
    );
}

/// A batch begins by closing another slot if and only if shreds of another slot are unfinished.
/// The shred that closes it comes right after the slot's other shreds: it is made with the
/// slot's own number, next index and version, tells the slot's parent, and is marked as the last
/// of the slot. It is the very shred that is coded after all that was buffered, and sent first.
pub proof fn lemma_closing_shred_follows_its_slot(script: Script, run: RunState)
    requires
        script.is_possible(run),
        script.results.bank.ticks_per_slot > 0,
    ensures
        script.first(run).action is MakeLastShred <==> (run.unfinished matches Some(u)
            && u.slot != script.results.bank.slot),
        script.first(run).action matches Action::MakeLastShred(header) ==> {
            let u = run.unfinished->0;
            let closing = script.coded(script.first(run))[0].last();
            &&& header.slot == u.slot
            &&& header.index == u.next_shred_index
            &&& u.slot - u.parent <= 0xffff ==> header.slot - header.parent_offset == u.parent
            &&& (u.slot - u.parent - header.parent_offset) % 0x1_0000 == 0
            &&& header.is_last_in_fec_set
            &&& header.is_last_in_slot
            &&& header.version == run.shred_version
            &&& header.fec_set_offset == u.fec_set_offset
            &&& header.reference_tick < 64
            &&& (script.results.bank.ticks_per_slot - header.reference_tick) % 64 == 0
            &&& closing.slot == header.slot
            &&& closing.index == header.index
            &&& closing.is_data
            &&& closing.payload == script.last_payload
            &&& script.coded(script.first(run))[0].drop_last() == u.buffer
            &&& forall|to: Channel|
                (#[trigger] script.sent(script.first(run), to))[0].0[0] == closing
        },
{
    lemma_actions_of_a_batch(script, run);
    lemma_trace_to_entries(script, run);
    let stage = script.first(run);
    assert(script.actions(stage)[0] == stage.action);
    if script.interrupts(run) {
        crate::laws::lemma_interrupted_slot_is_closed(script, run);
        assert(script.trace(run)[0] == script.closing_actions(run)[0]);
        let u = run.unfinished->0;
        assert(u.buffer.push(script.last_shred(run)).drop_last() =~= u.buffer);
    } else {
        assert(script.trace(run)[0] == (script.asking_actions(run) + script.shredding_actions(
            run,
        ))[0]);
    }
}

/// The entries of every batch are turned into data shreds once. They are made for the bank's slot,
/// with the parent that the slot began with and the version of the broadcast; the last of
/// them is marked as the last of the slot if and only if the last tick of the batch is the last of
/// the bank, whatever was made of the slot before. Their indices go on after the slot's other
/// shreds, or begin after those that the ledger has consumed.
pub proof fn lemma_entries_are_shredded_once(script: Script, run: RunState)
    requires
        script.is_possible(run),
        script.results.bank.ticks_per_slot > 0,
    ensures
        ({
            let bank = script.results.bank;
            let shreddings = script.actions(script.first(run)).filter(is_shredding());
            &&& shreddings.len() == 1
            &&& shreddings[0] matches Action::ShredEntries(plan) && {
                &&& plan.slot == bank.slot
                &&& match run.current_slot_and_parent {
                    Some((slot, parent)) => plan.parent_slot == if slot == bank.slot {
                        parent
                    } else {
                        bank.parent_slot
                    },
                    None => plan.parent_slot == bank.parent_slot,
                }
                &&& plan.version == run.shred_version
                &&& plan.is_slot_end <==> script.results.last_tick_height == bank.max_tick_height
                &&& plan.reference_tick == bank.tick_height % bank.ticks_per_slot % 0x100
                &&& run.unfinished matches Some(u) ==> u.slot == bank.slot ==> plan.next_shred_index
                    == u.next_shred_index && plan.fec_set_offset == u.fec_set_offset
                &&& run.unfinished is None || run.unfinished->0.slot != bank.slot ==> {
                    &&& plan.fec_set_offset == plan.next_shred_index
                    &&& script.consumed is None ==> plan.next_shred_index == 0
                    &&& script.consumed matches Some(n) ==> (n - plan.next_shred_index)
                        % 0x1_0000_0000 == 0
                }
            }
        }),
{
    lemma_shreddings(script, run);
}

/// The reference tick tells how far the slot has come: it is the tick height of the bank, counted
/// from the last multiple of the ticks of a slot.
pub proof fn lemma_reference_tick_is_the_tick_within_the_slot(script: Script, run: RunState)
    requires
        script.is_possible(run),
        0 < script.results.bank.ticks_per_slot <= 256,
    ensures
        script.actions(script.first(run)).filter(is_shredding())[0] matches Action::ShredEntries(
            plan,
        ) && {
            &&& plan.reference_tick < script.results.bank.ticks_per_slot
            &&& (script.results.bank.tick_height - plan.reference_tick)
                % script.results.bank.ticks_per_slot as int == 0
        },
{
    lemma_shreddings(script, run);
    let height = script.results.bank.tick_height as int;
    let ticks = script.results.bank.ticks_per_slot as int;
    vstd::arithmetic::div_mod::lemma_fundamental_div_mod(height, ticks);
    vstd::arithmetic::div_mod::lemma_mod_multiples_basic(height / ticks, ticks);
    assert(height - height % ticks == (height / ticks) * ticks) by (nonlinear_arith)
        requires
            height == ticks * (height / ticks) + height % ticks,
    ;
}

/// From one tick to the next the reference tick goes up by one, and begins again at zero after the
/// last tick of a slot.
pub proof fn lemma_reference_tick_goes_up_with_the_tick_height(
    script: Script,
    run: RunState,
    following: Script,
    later: RunState,
)
    requires
        script.is_possible(run),
        following.is_possible(later),
        0 < script.results.bank.ticks_per_slot <= 256,
        following.results.bank.ticks_per_slot == script.results.bank.ticks_per_slot,
        following.results.bank.tick_height == script.results.bank.tick_height + 1,
    ensures
        ({
            let before = script.actions(script.first(run)).filter(is_shredding())[0];
            let after = following.actions(following.first(later)).filter(is_shredding())[0];
            before matches Action::ShredEntries(p) && after matches Action::ShredEntries(q)
                && q.reference_tick == if p.reference_tick + 1
                == script.results.bank.ticks_per_slot {
                0
            } else {
                p.reference_tick + 1
            }
        }),
{
    lemma_shreddings(script, run);
    lemma_shreddings(following, later);
    let height = script.results.bank.tick_height as int;
    let ticks = script.results.bank.ticks_per_slot as int;
    vstd::arithmetic::div_mod::lemma_fundamental_div_mod(height, ticks);
    if height % ticks + 1 == ticks {
        assert(height + 1 == (height / ticks + 1) * ticks) by (nonlinear_arith)
            requires
                height == ticks * (height / ticks) + height % ticks,
                height % ticks + 1 == ticks,
        ;
        vstd::arithmetic::div_mod::lemma_mod_multiples_basic(height / ticks + 1, ticks);
    } else {
        assert(height + 1 == (height / ticks) * ticks + (height % ticks + 1)) by (nonlinear_arith)
            requires
                height == ticks * (height / ticks) + height % ticks,
        ;
        vstd::arithmetic::div_mod::lemma_fundamental_div_mod_converse(
            height + 1,
            ticks,
            height / ticks,
            height % ticks + 1,
        );
    }
}

/// What a batch leaves: the slot of the bank is the current one, two batches of shreds more are
/// counted, and nothing is left of a slot that has ended. Of another slot there is left what
/// does not fill sets of 32, and its figures, those of the batch among them.
pub proof fn lemma_state_after_a_batch(script: Script, run: RunState)
    requires
        script.is_possible(run),
    ensures
        ({
            let end = script.outcome(run);
            &&& end.current_slot_and_parent == Some(
                (script.results.bank.slot, script.parent_slot(run)),
            )
            &&& end.slot_broadcast_start == Some(script.slot_start(run))
            &&& end.shred_version == run.shred_version
            &&& end.num_batches == script.batches_so_far(run)
            &&& script.ends_slot() ==> end.unfinished is None && end.process_shreds_stats
                == no_figures()
            &&& !script.ends_slot() ==> end.process_shreds_stats == script.figures_after(run)
            &&& !script.ends_slot() ==> (end.unfinished matches Some(u) && {
                &&& u.slot == script.results.bank.slot
                &&& u.parent == script.parent_slot(run)
                &&& u.next_shred_index == script.next_shred_index
                &&& u.fec_set_offset == if script.goes_on(run) {
                    run.unfinished->0.fec_set_offset
                } else {
                    script.consumed_shreds()
                }
                &&& u.buffer == script.not_coded_yet(run).skip(script.num_coded(run))
            })
        }),
{
    crate::laws::lemma_what_a_batch_does(script, run);
    lemma_saturating_twice(script);
    assert(script.buffered(run) =~= script.not_coded_yet(run));
}

/// The figures of a slot, added up without bound.
pub struct Totals {
    pub shredding: nat,
    pub receive: nat,
    pub serialize: nat,
    pub gen_data: nat,
    pub gen_coding: nat,
    pub sign_coding: nat,
    pub coding_send: nat,
    pub get_leader_schedule: nat,
}

impl Totals {
    /// Whether every total can be told in a figure.
    pub open spec fn fit(self) -> bool {
        &&& self.shredding <= u64::MAX
        &&& self.receive <= u64::MAX
        &&& self.serialize <= u64::MAX
        &&& self.gen_data <= u64::MAX
        &&& self.gen_coding <= u64::MAX
        &&& self.sign_coding <= u64::MAX
        &&& self.coding_send <= u64::MAX
        &&& self.get_leader_schedule <= u64::MAX
    }

    /// Whether `stats` tell these totals.
    pub open spec fn are_told_by(self, stats: ProcessShredsStats) -> bool {
        &&& stats.shredding_elapsed == self.shredding
        &&& stats.receive_elapsed == self.receive
        &&& stats.serialize_elapsed == self.serialize
        &&& stats.gen_data_elapsed == self.gen_data
        &&& stats.gen_coding_elapsed == self.gen_coding
        &&& stats.sign_coding_elapsed == self.sign_coding
        &&& stats.coding_send_elapsed == self.coding_send
        &&& stats.get_leader_schedule_elapsed == self.get_leader_schedule
    }
}

/// The sums over the batches of a slot, from its first on. Of the first batch all but the
/// time until it was received counts.
pub open spec fn totals(scripts: Seq<Script>) -> Totals
    decreases scripts.len(),
{
    if scripts.len() == 0 {
        Totals {
            shredding: 0,
            receive: 0,
            serialize: 0,
            gen_data: 0,
            gen_coding: 0,
            sign_coding: 0,
            coding_send: 0,
            get_leader_schedule: 0,
        }
    } else {
        let t = totals(scripts.drop_last());
        let batch = scripts.last();
        let elapsed = batch.results.time_elapsed;
        Totals {
            shredding: t.shredding + batch.timings.shredding_elapsed as nat,
            receive: t.receive + if scripts.len() == 1 {
                0nat
            } else {
                (elapsed.secs * 1_000_000 + elapsed.subsec_nanos as int / 1_000) as nat
            },
            serialize: t.serialize + batch.coding_stats.serialize_elapsed as nat,
            gen_data: t.gen_data + batch.coding_stats.gen_data_elapsed as nat,
            gen_coding: t.gen_coding + batch.coding_stats.gen_coding_elapsed as nat,
            sign_coding: t.sign_coding + batch.coding_stats.sign_coding_elapsed as nat,
            coding_send: t.coding_send + batch.timings.coding_send_elapsed as nat,
            get_leader_schedule: t.get_leader_schedule
                + batch.timings.get_leader_schedule_elapsed as nat,
        }
    }
}

/// The figures that the last of `scripts` leads to are the sums over all of them.
proof fn lemma_figures_are_totals(run: RunState, scripts: Seq<Script>, slot: u64)
    requires
        crate::laws::are_batches_of(scripts, run, slot),
        run.unfinished is None ==> run.process_shreds_stats == no_figures(),
        totals(scripts).fit(),
    ensures
        ({
            let before = crate::laws::after(run, scripts.drop_last());
            &&& scripts.last().is_possible(before)
            &&& totals(scripts).are_told_by(scripts.last().figures_after(before))
            &&& scripts.len() > 1 ==> !scripts.last().interrupts(before)
            &&& scripts.last().slot_start(before) == scripts[0].now
        }),
    decreases scripts.len(),
{
    let earlier = scripts.drop_last();
    let before = crate::laws::after(run, earlier);
    let last = scripts.last();
    assert(scripts[scripts.len() - 1] == last);
    if scripts.len() > 1 {
        crate::laws::lemma_earlier_batches(run, scripts, slot);
        crate::laws::lemma_batches_of_a_slot(run, earlier, slot, Channel::Socket);
        lemma_figures_are_totals(run, earlier, slot);
        lemma_state_after_a_batch(
            earlier.last(),
            crate::laws::after(run, earlier.drop_last()),
        );
    } else {
        assert(before == run);
        assert(totals(earlier) == totals(Seq::empty()));
    }
}

/// The figures of a slot that its last batch ends are reported by that batch, as its last report:
/// each is the sum over all batches of the slot. The report names the slot, the index after its
/// last data shred, and when its broadcast started.
pub proof fn lemma_report_of_a_finished_slot(run: RunState, scripts: Seq<Script>, slot: u64)
    requires
        crate::laws::are_batches_of(scripts, run, slot),
        scripts.last().ends_slot(),
        scripts.last().results.bank.ticks_per_slot > 0,
        run.unfinished is None ==> run.process_shreds_stats == no_figures(),
        totals(scripts).fit(),
    ensures
        ({
            let last = scripts.last();
            let before = crate::laws::after(run, scripts.drop_last());
            let reports = last.actions(last.first(before)).filter(is_report());
            &&& reports.len() > 0
            &&& scripts.len() > 1 ==> reports.len() == 1
            &&& reports.last() matches Action::SubmitReport(report) && {
                &&& report.slot == slot
                &&& report.num_data_shreds == last.next_shred_index
                &&& report.slot_broadcast_start == scripts[0].now
                &&& totals(scripts).are_told_by(report.stats)
            }
        }),
{
    let before = crate::laws::after(run, scripts.drop_last());
    assert(scripts[scripts.len() - 1] == scripts.last());
    lemma_figures_are_totals(run, scripts, slot);
    lemma_reports(scripts.last(), before);
}

/// The figures of an interrupted slot are reported by the batch that interrupts it, as its first
/// report: each is the sum over all batches of the slot. The report names the interrupted slot and
/// the index after its last data shred, and when the broadcast of the interrupting slot started.
pub proof fn lemma_report_of_an_interrupted_slot(
    run: RunState,
    scripts: Seq<Script>,
    slot: u64,
    interrupting: Script,
)
    requires
        crate::laws::are_batches_of(scripts, run, slot),
        !scripts.last().ends_slot(),
        interrupting.results.bank.slot != slot,
        interrupting.results.bank.parent_slot <= interrupting.results.bank.slot,
        interrupting.results.bank.ticks_per_slot > 0,
        run.unfinished is None ==> run.process_shreds_stats == no_figures(),
        totals(scripts).fit(),
    ensures
        ({
            let before = crate::laws::after(run, scripts);
            let reports = interrupting.actions(interrupting.first(before)).filter(is_report());
            &&& reports.len() == if interrupting.ends_slot() {
                2int
            } else {
                1int
            }
            &&& reports[0] matches Action::SubmitReport(report) && {
                &&& report.slot == slot
                &&& report.num_data_shreds == scripts.last().next_shred_index
                &&& report.slot_broadcast_start == interrupting.now
                &&& totals(scripts).are_told_by(report.stats)
            }
        }),
{
    let before = crate::laws::after(run, scripts);
    let earlier = crate::laws::after(run, scripts.drop_last());
    assert(scripts[scripts.len() - 1] == scripts.last());
    lemma_figures_are_totals(run, scripts, slot);
    crate::laws::lemma_batches_of_a_slot(run, scripts, slot, Channel::Socket);
    lemma_state_after_a_batch(scripts.last(), earlier);
    lemma_reports(interrupting, before);
}

/// A batch that neither ends its slot nor interrupts another one reports nothing.
pub proof fn lemma_no_report_within_a_slot(script: Script, run: RunState)
    requires
        script.is_possible(run),
        script.results.bank.ticks_per_slot > 0,
        script.results.last_tick_height != script.results.bank.max_tick_height,
        run.unfinished matches Some(u) ==> u.slot == script.results.bank.slot,
    ensures
        script.actions(script.first(run)).filter(is_report()).len() == 0,
{
    lemma_reports(script, run);
}

/// Whether `event` is an answer to `action`.
pub open spec fn is_answer<S>(action: Action<S>, event: Event<S>) -> bool {
    match action {
        Action::MakeLastShred(_) => event is LastShred,
        Action::MakeCodingShreds { .. } => event is CodingShreds,
        Action::SubmitReport(_) => event is Done,
        Action::ReadSlotMeta { .. } => event is SlotMeta,
        Action::ShredEntries(_) => event is DataShreds,
        Action::StoreFirstShred(_) => event is Done,
        Action::Send { .. } => event is Done || event is SendFailed,
        Action::MeasureTimings => event is Timings,
        Action::Complete => false,
        Action::Abort => false,
    }
}

/// A batch that starts waits for an answer to the action that it asks for, and for nothing else.
pub proof fn lemma_start_awaits_its_answer(
    run: RunState,
    results: ReceiveResults,
    now: Instant,
    event: Event<Seq<Shred>>,
)
    ensures
        ({
            let stage = crate::process::start(run, results, now);
            stage.processing.awaits(event) <==> is_answer(stage.action, event)
        }),
{
}

/// After every answer the batch waits for an answer to the action that it asks for, and for
/// nothing else.
pub proof fn lemma_every_stage_awaits_its_answer(
    run: RunState,
    processing: ProcessingState,
    event: Event<Seq<Shred>>,
    answer: Event<Seq<Shred>>,
)
    requires
        processing.awaits(event),
    ensures
        ({
            let stage = crate::process::next(run, processing, event);
            stage.processing.awaits(answer) <==> is_answer(stage.action, answer)
        }),
{
}

/// A batch may come as long as two more batches of shreds can be counted, and whenever a new slot
/// begins with nothing unfinished.
pub proof fn lemma_batches_can_be_counted(run: RunState, slot: u64)
    ensures
        run.num_batches <= usize::MAX - 2 ==> run.can_count(slot),
        run.unfinished is None && (run.current_slot_and_parent matches Some((current, _))
            ==> current != slot) ==> run.can_count(slot),
{
}

/// Whether `said` is of the same kind as `action`, with the same values and the same shreds.
pub open spec fn is_said_of(action: Action<Arc<Vec<Shred>>>, said: Action<Seq<Shred>>) -> bool {
    match (action, said) {
        (Action::MakeLastShred(a), Action::MakeLastShred(b)) => a == b,
        (
            Action::MakeCodingShreds { data_shreds: a, stats: s },
            Action::MakeCodingShreds { data_shreds: b, stats: t },
        ) => a@ == b && s == t,
        (Action::SubmitReport(a), Action::SubmitReport(b)) => a == b,
        (Action::ReadSlotMeta { slot: a }, Action::ReadSlotMeta { slot: b }) => a == b,
        (Action::ShredEntries(a), Action::ShredEntries(b)) => a == b,
        (Action::StoreFirstShred(a), Action::StoreFirstShred(b)) => a == b,
        (
            Action::Send { to: t, shreds: a, batch_info: i },
            Action::Send { to: u, shreds: b, batch_info: j },
        ) => t == u && a@ == b && i == j,
        (Action::MeasureTimings, Action::MeasureTimings) => true,
        (Action::Complete, Action::Complete) => true,
        (Action::Abort, Action::Abort) => true,
        _ => false,
    }
}

/// Whether `said` is of the same kind as `event`, with the same values and the same shreds.
pub open spec fn is_said_of_answer(event: Event<Vec<Shred>>, said: Event<Seq<Shred>>) -> bool {
    match (event, said) {
        (Event::LastShred(a), Event::LastShred(b)) => a == b,
        (
            Event::CodingShreds { shreds: a, stats: s },
            Event::CodingShreds { shreds: b, stats: t },
        ) => a@ == b && s == t,
        (Event::SlotMeta(a), Event::SlotMeta(b)) => a == b,
        (
            Event::DataShreds { shreds: a, next_shred_index: i, stats: s },
            Event::DataShreds { shreds: b, next_shred_index: j, stats: t },
        ) => a@ == b && i == j && s == t,
        (Event::Done, Event::Done) => true,
        (Event::SendFailed, Event::SendFailed) => true,
        (Event::Timings(a), Event::Timings(b)) => a == b,
        _ => false,
    }
}

/// What contracts say of actions and answers, they say of the very actions that the caller gets
/// and of the very answers that it gives.
pub proof fn lemma_contracts_speak_of_actions_and_answers(
    action: Action<Arc<Vec<Shred>>>,
    event: Event<Vec<Shred>>,
)
    ensures
        is_said_of(action, action@),
        is_said_of_answer(event, event@),
{
}

} // verus!

//! The state of a broadcast, and the steps of it that concern one thing at a time.
use crate::metrics::{
    BroadcastShredBatchInfo, BroadcastStats, InsertShredsStats, SlotBroadcastStats,
    TransmitShredsStats,
};
use crate::peers::{
    compare_and_swap, BroadcastPeerCache, ContactInfo, BROADCAST_PEER_UPDATE_INTERVAL_MS,
};
use crate::shred::{
    DataShredHeader, Shred, MAX_DATA_SHREDS_PER_FEC_BLOCK, SHRED_TICK_REFERENCE_MASK,
};
use crate::stats::{Elapsed, ProcessShredsStats};
use crate::unfinished::{UnfinishedSlot, UnfinishedSlotInfo};
use solana_sdk::signature::Keypair;
use std::sync::Arc;
use std::time::Instant;
use vstd::prelude::*;

verus! {

/// `solana_sdk::signature::Keypair`, carried and never looked into.
#[verifier::external_type_specification]
#[verifier::external_body]
pub struct ExKeypair(solana_sdk::signature::Keypair);

/// The broadcast of the slots that a leader produces. There is one value of it: the threads that
/// make, transmit and record shreds share it behind a lock, so that what one of them counts is
/// counted for all. For that reason it cannot be cloned.
pub struct StandardBroadcastRun {
    pub process_shreds_stats: ProcessShredsStats,
    pub transmit_shreds_stats: SlotBroadcastStats<TransmitShredsStats>,
    pub insert_shreds_stats: SlotBroadcastStats<InsertShredsStats>,
    pub unfinished_slot: Option<UnfinishedSlotInfo>,
    pub current_slot_and_parent: Option<(u64, u64)>,
    pub slot_broadcast_start: Option<Instant>,
    pub keypair: Arc<Keypair>,
    pub shred_version: u16,
    pub num_batches: usize,
    pub broadcast_peer_cache: BroadcastPeerCache,
    /// Milliseconds since the epoch.
    pub last_peer_update: u64,
}

/// What of a [`StandardBroadcastRun`] the making and sending of shreds reads and changes.
pub struct RunState {
    pub process_shreds_stats: ProcessShredsStats,
    pub unfinished: Option<UnfinishedSlot>,
    pub current_slot_and_parent: Option<(u64, u64)>,
    pub slot_broadcast_start: Option<Instant>,
    pub shred_version: u16,
    pub num_batches: usize,
}

/// The figures of a slot whose broadcast has ended.
#[derive(Clone, Copy, Debug)]
pub struct ProcessShredsReport {
    pub slot: u64,
    pub num_data_shreds: u32,
    /// When the broadcast of the current slot started: for a finished slot its own start, for an
    /// interrupted slot the start of the slot that interrupted it.
    pub slot_broadcast_start: Instant,
    pub stats: ProcessShredsStats,
}

impl RunState {
    /// What holds between two batches: shreds that were made belong to the current slot, which
    /// does not come before its parent, and of which it is known when its broadcast started.
    pub open spec fn wf(self) -> bool {
        &&& self.current_slot_and_parent matches Some((slot, parent)) ==> parent <= slot
            && self.slot_broadcast_start is Some
        &&& self.unfinished matches Some(u) ==> self.current_slot_and_parent == Some(
            (u.slot, u.parent),
        )
    }

    /// Whether figures are held only while a slot is under way.
    pub open spec fn figures_have_a_slot(self) -> bool {
        self.unfinished is None ==> self.process_shreds_stats == ProcessShredsStats::spec_zero()
    }

    /// Whether the buffer of the slot under way holds exactly the data shreds that follow the last
    /// complete erasure-coded set, counted from where the sets of the slot begin.
    pub open spec fn buffer_follows_indices(self) -> bool {
        self.unfinished matches Some(u) ==> {
            &&& u.fec_set_offset <= u.next_shred_index
            &&& u.buffer.len() == (u.next_shred_index - u.fec_set_offset)
                % MAX_DATA_SHREDS_PER_FEC_BLOCK as int
        }
    }

    /// Whether shreds were made of a slot that is not the current one.
    pub open spec fn is_interrupted(self) -> bool {
        match (self.unfinished, self.current_slot_and_parent) {
            (Some(u), Some((slot, _))) => u.slot != slot,
            _ => false,
        }
    }

    /// The header of the empty shred that closes an interrupted slot.
    pub open spec fn closing_header(self, max_ticks_in_slot: u8) -> DataShredHeader {
        let u = self.unfinished->0;
        DataShredHeader {
            slot: u.slot,
            index: u.next_shred_index,
            parent_offset: ((u.slot - u.parent) % 0x1_0000) as u16,
            is_last_in_fec_set: true,
            is_last_in_slot: true,
            reference_tick: max_ticks_in_slot & SHRED_TICK_REFERENCE_MASK,
            version: self.shred_version,
            fec_set_offset: u.fec_set_offset,
        }
    }

    /// The figures of the unfinished slot.
    pub open spec fn report(self) -> ProcessShredsReport {
        ProcessShredsReport {
            slot: self.unfinished->0.slot,
            num_data_shreds: self.unfinished->0.next_shred_index,
            slot_broadcast_start: self.slot_broadcast_start->0,
            stats: self.process_shreds_stats,
        }
    }

    /// This state without the unfinished slot and its figures.
    pub open spec fn without_slot(self) -> RunState {
        RunState {
            unfinished: None,
            process_shreds_stats: ProcessShredsStats::spec_zero(),
            ..self
        }
    }
}

impl StandardBroadcastRun {
    pub open spec fn state(&self) -> RunState {
        RunState {
            process_shreds_stats: self.process_shreds_stats,
            unfinished: crate::unfinished::unfinished_view(self.unfinished_slot),
            current_slot_and_parent: self.current_slot_and_parent,
            slot_broadcast_start: self.slot_broadcast_start,
            shred_version: self.shred_version,
            num_batches: self.num_batches,
        }
    }

    /// Whether `other` differs at most in what [`StandardBroadcastRun::state`] shows.
    pub open spec fn differs_in_state_only(&self, other: &StandardBroadcastRun) -> bool {
        &&& self.transmit_shreds_stats == other.transmit_shreds_stats
        &&& self.insert_shreds_stats == other.insert_shreds_stats
        &&& self.keypair == other.keypair
        &&& self.broadcast_peer_cache == other.broadcast_peer_cache
        &&& self.last_peer_update == other.last_peer_update
    }

    /// A broadcast that has not seen a slot yet.
    pub fn new(keypair: Arc<Keypair>, shred_version: u16) -> (run: StandardBroadcastRun)
        ensures
            run.state() == (RunState {
                process_shreds_stats: ProcessShredsStats::spec_zero(),
                unfinished: None,
                current_slot_and_parent: None,
                slot_broadcast_start: None,
                shred_version,
                num_batches: 0,
            }),
            run.state().wf(),
            run.state().figures_have_a_slot(),
            run.state().buffer_follows_indices(),
            run.keypair == keypair,
            run.transmit_shreds_stats@.dom() == Set::<u64>::empty(),
            run.insert_shreds_stats@.dom() == Set::<u64>::empty(),
            run.broadcast_peer_cache.peers@ == Seq::<ContactInfo>::empty(),
            run.broadcast_peer_cache.peers_and_stakes@ == Seq::<(u64, usize)>::empty(),
            run.last_peer_update == 0,
    {
        StandardBroadcastRun {
            process_shreds_stats: ProcessShredsStats::zero(),
            transmit_shreds_stats: SlotBroadcastStats::new(),
            insert_shreds_stats: SlotBroadcastStats::new(),
            unfinished_slot: None,
            current_slot_and_parent: None,
            slot_broadcast_start: None,
            keypair,
            shred_version,
            num_batches: 0,
            broadcast_peer_cache: BroadcastPeerCache::new(),
            last_peer_update: 0,
        }
    }

    /// If the current slot has changed while shreds of another slot were unfinished: the header of
    /// the empty shred that tells the last shred of that slot.
    pub fn finish_prev_slot(&self, max_ticks_in_slot: u8) -> (header: Option<DataShredHeader>)
        requires
            self.current_slot_and_parent is Some,
            self.state().is_interrupted() ==> self.state().unfinished->0.parent
                <= self.state().unfinished->0.slot,
        ensures
            header == (if self.state().is_interrupted() {
                Some(self.state().closing_header(max_ticks_in_slot))
            } else {
                None
            }),
            header is Some <==> (self.unfinished_slot matches Some(u)
                && self.current_slot_and_parent matches Some((current_slot, _)) && u.slot != current_slot),
            header matches Some(h) ==> {
                let u = self.unfinished_slot->0;
                &&& h.slot == u.slot
                &&& h.index == u.next_shred_index
                &&& u.slot - u.parent <= 0xffff ==> h.slot - h.parent_offset == u.parent
                &&& h.is_last_in_fec_set
                &&& h.is_last_in_slot
                &&& h.reference_tick == max_ticks_in_slot % 64
                &&& h.version == self.shred_version
                &&& h.fec_set_offset == u.fec_set_offset
            },
    {
        assert(max_ticks_in_slot & 0x3f == max_ticks_in_slot % 64) by (bit_vector);
        let (current_slot, _) = self.current_slot_and_parent.unwrap();
        match &self.unfinished_slot {
            None => None,
            Some(state) => if state.slot == current_slot {
                None
            } else {
                let parent_offset: u64 = state.slot - state.parent;
                assert(parent_offset as u16 == parent_offset % 0x1_0000) by (bit_vector);
                Some(
                    DataShredHeader {
                        slot: state.slot,
                        index: state.next_shred_index,
                        parent_offset: parent_offset as u16,
                        is_last_in_fec_set: true,
                        is_last_in_slot: true,
                        reference_tick: max_ticks_in_slot & SHRED_TICK_REFERENCE_MASK,
                        version: self.shred_version,
                        fec_set_offset: state.fec_set_offset,
                    },
                )
            },
        }
    }

    /// The figures of the unfinished slot; the totals then start again at zero.
    pub fn report_and_reset_stats(&mut self) -> (report: ProcessShredsReport)
        requires
            old(self).unfinished_slot is Some,
            old(self).slot_broadcast_start is Some,
        ensures
            report == old(self).state().report(),
            report.slot == old(self).unfinished_slot->0.slot,
            report.num_data_shreds == old(self).unfinished_slot->0.next_shred_index,
            report.slot_broadcast_start == old(self).slot_broadcast_start->0,
            report.stats == old(self).process_shreds_stats,
            final(self).process_shreds_stats == ProcessShredsStats::spec_zero(),
            *final(self) == (StandardBroadcastRun {
                process_shreds_stats: final(self).process_shreds_stats,
                ..*old(self)
            }),
    {
        let unfinished_slot: &UnfinishedSlotInfo = self.unfinished_slot.as_ref().unwrap();
        let report = ProcessShredsReport {
            slot: unfinished_slot.slot,
            num_data_shreds: unfinished_slot.next_shred_index,
            slot_broadcast_start: self.slot_broadcast_start.unwrap(),
            stats: self.process_shreds_stats,
        };
        self.process_shreds_stats.reset();
        report
    }

    /// Whether the peers are to be looked up at `now`, in milliseconds since the epoch: they are
    /// when the record of the last look-up is more than the interval old. The record itself
    /// stays as it is: the exchange stores nothing unless the record is `now`.
    pub fn peers_are_due(&mut self, now: u64) -> (due: bool)
        requires
            old(self).last_peer_update <= now,
        ensures
            due == (now - old(self).last_peer_update > BROADCAST_PEER_UPDATE_INTERVAL_MS),
            due <==> old(self).last_peer_update + 1000 < now,
            *final(self) == *old(self),
    {
        let last: u64 = self.last_peer_update;
        now - last > BROADCAST_PEER_UPDATE_INTERVAL_MS && compare_and_swap(
            &mut self.last_peer_update,
            now,
            last,
        ) == last
    }

    /// Keeps the peers of a look-up.
    pub fn set_peers(&mut self, peers: Vec<ContactInfo>, peers_and_stakes: Vec<(u64, usize)>)
        ensures
            *final(self) == (StandardBroadcastRun {
                broadcast_peer_cache: BroadcastPeerCache { peers, peers_and_stakes },
                ..*old(self)
            }),
    {
        self.broadcast_peer_cache.peers = peers;
        self.broadcast_peer_cache.peers_and_stakes = peers_and_stakes;
    }

    /// Counts a batch that took `elapsed` to be inserted, and returns the totals of its slot if
    /// the slot's batches are then all in. All shreds of the batch count, also a first one that
    /// was stored before the batch was sent.
    pub fn finish_insert(
        &mut self,
        elapsed: Elapsed,
        shreds: &Vec<Shred>,
        batch_info: &Option<BroadcastShredBatchInfo>,
    ) -> (totals: Option<InsertShredsStats>)
        requires
            elapsed.wf(),
            old(self).insert_shreds_stats.can_count(
                InsertShredsStats {
                    insert_shreds_elapsed: elapsed.micros() as u64,
                    num_shreds: shreds@.len() as usize,
                },
                *batch_info,
            ),
        ensures
            ({
                let new_stats = InsertShredsStats {
                    insert_shreds_elapsed: elapsed.micros() as u64,
                    num_shreds: shreds@.len() as usize,
                };
                old(self).insertion_counted(*final(self), new_stats, *batch_info, totals)
            }),
    {
        let new_stats = InsertShredsStats {
            insert_shreds_elapsed: elapsed.as_us(),
            num_shreds: shreds.len(),
        };
        self.update_insertion_metrics(&new_stats, batch_info)
    }

    /// What counting an inserted batch does.
    pub open spec fn insertion_counted(
        self,
        after: StandardBroadcastRun,
        new_stats: InsertShredsStats,
        batch_info: Option<BroadcastShredBatchInfo>,
        totals: Option<InsertShredsStats>,
    ) -> bool {
        &&& self.insert_shreds_stats.is_counted(
            after.insert_shreds_stats,
            new_stats,
            batch_info,
            totals,
        )
        &&& after == StandardBroadcastRun { insert_shreds_stats: after.insert_shreds_stats, ..self }
    }

    /// Counts an inserted batch.
    pub fn update_insertion_metrics(
        &mut self,
        new_insertion_shreds_stats: &InsertShredsStats,
        batch_info: &Option<BroadcastShredBatchInfo>,
    ) -> (totals: Option<InsertShredsStats>)
        requires
            old(self).insert_shreds_stats.can_count(*new_insertion_shreds_stats, *batch_info),
        ensures
            old(self).insertion_counted(
                *final(self),
                *new_insertion_shreds_stats,
                *batch_info,
                totals,
            ),
    {
        self.insert_shreds_stats.update(new_insertion_shreds_stats, batch_info)
    }

    /// Counts a batch that was sent to the peers, and returns the totals of its slot if the slot's
    /// batches are then all in. `sent` is what the sending itself measured; a batch whose sending
    /// failed has none, and is not counted.
    pub fn finish_broadcast(
        &mut self,
        sent: Option<TransmitShredsStats>,
        transmit_elapsed: u64,
        get_peers_elapsed: u64,
        shreds: &Vec<Shred>,
        batch_info: &Option<BroadcastShredBatchInfo>,
    ) -> (totals: Option<TransmitShredsStats>)
        requires
            sent matches Some(measured) ==> old(self).transmit_shreds_stats.can_count(
                measured.of_batch(transmit_elapsed, get_peers_elapsed, shreds@.len() as usize),
                *batch_info,
            ),
        ensures
            match sent {
                Some(measured) => old(self).transmission_counted(
                    *final(self),
                    measured.of_batch(transmit_elapsed, get_peers_elapsed, shreds@.len() as usize),
                    *batch_info,
                    totals,
                ),
                None => *final(self) == *old(self) && totals is None,
            },
    {
        match sent {
            Some(measured) => {
                let mut transmit_stats = measured;
                transmit_stats.transmit_elapsed = transmit_elapsed;
                transmit_stats.get_peers_elapsed = get_peers_elapsed;
                transmit_stats.num_shreds = shreds.len();
                self.update_transmit_metrics(&transmit_stats, batch_info)
            },
            None => None,
        }
    }

    /// What counting a transmitted batch does.
    pub open spec fn transmission_counted(
        self,
        after: StandardBroadcastRun,
        new_stats: TransmitShredsStats,
        batch_info: Option<BroadcastShredBatchInfo>,
        totals: Option<TransmitShredsStats>,
    ) -> bool {
        &&& self.transmit_shreds_stats.is_counted(
            after.transmit_shreds_stats,
            new_stats,
            batch_info,
            totals,
        )
        &&& after == StandardBroadcastRun {
            transmit_shreds_stats: after.transmit_shreds_stats,
            ..self
        }
    }

    /// Counts a transmitted batch.
    pub fn update_transmit_metrics(
        &mut self,
        new_transmit_shreds_stats: &TransmitShredsStats,
        batch_info: &Option<BroadcastShredBatchInfo>,
    ) -> (totals: Option<TransmitShredsStats>)
        requires
            old(self).transmit_shreds_stats.can_count(*new_transmit_shreds_stats, *batch_info),
        ensures
            old(self).transmission_counted(
                *final(self),
                *new_transmit_shreds_stats,
                *batch_info,
                totals,
            ),
    {
        self.transmit_shreds_stats.update(new_transmit_shreds_stats, batch_info)
    }
}

/// The state of a broadcast shows its fields as they are.
pub proof fn lemma_state_shows_the_fields(run: StandardBroadcastRun)
    ensures
        run.state().process_shreds_stats == run.process_shreds_stats,
        run.state().current_slot_and_parent == run.current_slot_and_parent,
        run.state().slot_broadcast_start == run.slot_broadcast_start,
        run.state().shred_version == run.shred_version,
        run.state().num_batches == run.num_batches,
        run.state().unfinished is Some <==> run.unfinished_slot is Some,
        run.unfinished_slot matches Some(info) ==> {
            let u = run.state().unfinished->0;
            &&& u.next_shred_index == info.next_shred_index
            &&& u.slot == info.slot
            &&& u.parent == info.parent
            &&& u.buffer == info.data_shreds_buffer@
            &&& u.fec_set_offset == info.fec_set_offset
        },
{
}

/// Making and sending shreds leaves the statistics, the key pair and the peers as they are.
pub proof fn lemma_what_is_not_state_stays(
    before: StandardBroadcastRun,
    after: StandardBroadcastRun,
)
    requires
        after.differs_in_state_only(&before),
    ensures
        after.transmit_shreds_stats == before.transmit_shreds_stats,
        after.insert_shreds_stats == before.insert_shreds_stats,
        after.keypair == before.keypair,
        after.broadcast_peer_cache == before.broadcast_peer_cache,
        after.last_peer_update == before.last_peer_update,
{
}

/// Counting an inserted batch changes the statistics of insertions, as counting does, and nothing
/// else of the broadcast.
pub proof fn lemma_insertions_are_counted_apart(
    before: StandardBroadcastRun,
    after: StandardBroadcastRun,
    new_stats: InsertShredsStats,
    batch_info: Option<BroadcastShredBatchInfo>,
    totals: Option<InsertShredsStats>,
)
    requires
        before.insertion_counted(after, new_stats, batch_info, totals),
    ensures
        before.insert_shreds_stats.is_counted(
            after.insert_shreds_stats,
            new_stats,
            batch_info,
            totals,
        ),
        after.transmit_shreds_stats == before.transmit_shreds_stats,
        after.process_shreds_stats == before.process_shreds_stats,
        after.unfinished_slot == before.unfinished_slot,
        after.current_slot_and_parent == before.current_slot_and_parent,
        after.slot_broadcast_start == before.slot_broadcast_start,
        after.keypair == before.keypair,
        after.shred_version == before.shred_version,
        after.num_batches == before.num_batches,
        after.broadcast_peer_cache == before.broadcast_peer_cache,
        after.last_peer_update == before.last_peer_update,
{
}

/// Counting a transmitted batch changes the statistics of transmissions, as counting does, and
/// nothing else of the broadcast.
pub proof fn lemma_transmissions_are_counted_apart(
    before: StandardBroadcastRun,
    after: StandardBroadcastRun,
    new_stats: TransmitShredsStats,
    batch_info: Option<BroadcastShredBatchInfo>,
    totals: Option<TransmitShredsStats>,
)
    requires
        before.transmission_counted(after, new_stats, batch_info, totals),
    ensures
        before.transmit_shreds_stats.is_counted(
            after.transmit_shreds_stats,
            new_stats,
            batch_info,
            totals,
        ),
        after.insert_shreds_stats == before.insert_shreds_stats,
        after.process_shreds_stats == before.process_shreds_stats,
        after.unfinished_slot == before.unfinished_slot,
        after.current_slot_and_parent == before.current_slot_and_parent,
        after.slot_broadcast_start == before.slot_broadcast_start,
        after.keypair == before.keypair,
        after.shred_version == before.shred_version,
        after.num_batches == before.num_batches,
        after.broadcast_peer_cache == before.broadcast_peer_cache,
        after.last_peer_update == before.last_peer_update,
{
}

} // verus!

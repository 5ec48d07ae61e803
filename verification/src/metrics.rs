//! Per-slot totals of what was transmitted and inserted, kept until a slot's last batch is in.
use std::collections::HashMap;
use std::time::Instant;
use vstd::prelude::*;

verus! {

broadcast use vstd::std_specs::hash::group_hash_axioms;

/// `std::time::Instant`, carried and never looked into.
#[verifier::external_type_specification]
#[verifier::external_body]
pub struct ExInstant(std::time::Instant);

/// What travels with a batch of shreds: the slot it belongs to, when the broadcast of that slot
/// started, and, on the batches that know it, how many batches the slot has in all.
#[derive(Clone, Copy, Debug)]
pub struct BroadcastShredBatchInfo {
    pub slot: u64,
    pub num_expected_batches: Option<usize>,
    pub slot_start_ts: Instant,
}

/// Totals that add up over the batches of a slot.
pub trait BroadcastStats: Sized {
    /// The totals of a slot without batches.
    spec fn none_yet() -> Self;

    /// Whether `new` can be added within the range of the fields.
    spec fn can_add(self, new: Self) -> bool;

    /// The sum, field by field.
    spec fn sum(self, new: Self) -> Self;

    fn start() -> (stats: Self)
        ensures
            stats == Self::none_yet(),
    ;

    fn fits(&self, new: &Self) -> (b: bool)
        ensures
            b == self.can_add(*new),
    ;

    fn update(&mut self, new: &Self)
        requires
            old(self).can_add(*new),
        ensures
            *final(self) == old(self).sum(*new),
    ;
}

/// What the insertion of shreds into the ledger took.
#[derive(Clone, Copy, Debug, PartialEq, Eq, Structural)]
pub struct InsertShredsStats {
    pub insert_shreds_elapsed: u64,
    pub num_shreds: usize,
}

impl BroadcastStats for InsertShredsStats {
    open spec fn none_yet() -> Self {
        InsertShredsStats { insert_shreds_elapsed: 0, num_shreds: 0 }
    }

    open spec fn can_add(self, new: Self) -> bool {
        &&& self.insert_shreds_elapsed + new.insert_shreds_elapsed <= u64::MAX
        &&& self.num_shreds + new.num_shreds <= usize::MAX
    }

    open spec fn sum(self, new: Self) -> Self {
        InsertShredsStats {
            insert_shreds_elapsed: (self.insert_shreds_elapsed + new.insert_shreds_elapsed) as u64,
            num_shreds: (self.num_shreds + new.num_shreds) as usize,
        }
    }

    fn start() -> (stats: Self) {
        InsertShredsStats { insert_shreds_elapsed: 0, num_shreds: 0 }
    }

    fn fits(&self, new: &Self) -> (b: bool) {
        self.insert_shreds_elapsed <= u64::MAX - new.insert_shreds_elapsed
            && self.num_shreds <= usize::MAX - new.num_shreds
    }

    fn update(&mut self, new: &Self) {
        self.insert_shreds_elapsed += new.insert_shreds_elapsed;
        self.num_shreds += new.num_shreds;
    }
}

/// What the transmission of shreds to the peers took.
#[derive(Clone, Copy, Debug, PartialEq, Eq, Structural)]
pub struct TransmitShredsStats {
    pub transmit_elapsed: u64,
    pub send_mmsg_elapsed: u64,
    pub get_peers_elapsed: u64,
    pub num_shreds: usize,
}

impl TransmitShredsStats {
    /// What the transmission of a batch took in all, where `self` is what the sending measured.
    pub open spec fn of_batch(
        self,
        transmit_elapsed: u64,
        get_peers_elapsed: u64,
        num_shreds: usize,
    ) -> TransmitShredsStats {
        TransmitShredsStats { transmit_elapsed, get_peers_elapsed, num_shreds, ..self }
    }
}

impl BroadcastStats for TransmitShredsStats {
    open spec fn none_yet() -> Self {
        TransmitShredsStats {
            transmit_elapsed: 0,
            send_mmsg_elapsed: 0,
            get_peers_elapsed: 0,
            num_shreds: 0,
        }
    }

    open spec fn can_add(self, new: Self) -> bool {
        &&& self.transmit_elapsed + new.transmit_elapsed <= u64::MAX
        &&& self.send_mmsg_elapsed + new.send_mmsg_elapsed <= u64::MAX
        &&& self.get_peers_elapsed + new.get_peers_elapsed <= u64::MAX
        &&& self.num_shreds + new.num_shreds <= usize::MAX
    }

    open spec fn sum(self, new: Self) -> Self {
        TransmitShredsStats {
            transmit_elapsed: (self.transmit_elapsed + new.transmit_elapsed) as u64,
            send_mmsg_elapsed: (self.send_mmsg_elapsed + new.send_mmsg_elapsed) as u64,
            get_peers_elapsed: (self.get_peers_elapsed + new.get_peers_elapsed) as u64,
            num_shreds: (self.num_shreds + new.num_shreds) as usize,
        }
    }

    fn start() -> (stats: Self) {
        TransmitShredsStats {
            transmit_elapsed: 0,
            send_mmsg_elapsed: 0,
            get_peers_elapsed: 0,
            num_shreds: 0,
        }
    }

    fn fits(&self, new: &Self) -> (b: bool) {
        self.transmit_elapsed <= u64::MAX - new.transmit_elapsed
            && self.send_mmsg_elapsed <= u64::MAX - new.send_mmsg_elapsed
            && self.get_peers_elapsed <= u64::MAX - new.get_peers_elapsed
            && self.num_shreds <= usize::MAX - new.num_shreds
    }

    fn update(&mut self, new: &Self) {
        self.transmit_elapsed += new.transmit_elapsed;
        self.send_mmsg_elapsed += new.send_mmsg_elapsed;
        self.get_peers_elapsed += new.get_peers_elapsed;
        self.num_shreds += new.num_shreds;
    }
}

/// The batches of one slot that were counted so far, and their totals.
#[derive(Clone, Debug)]
pub struct BatchCounter<T> {
    pub num_batches: usize,
    /// Known once a batch that tells it has been counted.
    pub num_expected_batches: Option<usize>,
    pub broadcast_shred_stats: T,
}

impl<T> BatchCounter<T> {
    /// How many batches were counted.
    pub fn num_batches(&self) -> (n: usize)
        ensures
            n == self.num_batches,
    {
        self.num_batches
    }
}

impl<T: BroadcastStats> BatchCounter<T> {
    /// The counter of a slot without batches.
    pub open spec fn none_yet() -> BatchCounter<T> {
        BatchCounter {
            num_batches: 0,
            num_expected_batches: None,
            broadcast_shred_stats: T::none_yet(),
        }
    }

    /// Whether one more batch can be counted within the range of the fields.
    pub open spec fn can_count(self, new_stats: T) -> bool {
        self.num_batches < usize::MAX && self.broadcast_shred_stats.can_add(new_stats)
    }

    /// This counter after one more batch.
    pub open spec fn count(self, new_stats: T, info: BroadcastShredBatchInfo) -> BatchCounter<T> {
        BatchCounter {
            num_batches: (self.num_batches + 1) as usize,
            num_expected_batches: if info.num_expected_batches is Some {
                info.num_expected_batches
            } else {
                self.num_expected_batches
            },
            broadcast_shred_stats: self.broadcast_shred_stats.sum(new_stats),
        }
    }

    /// Whether all batches of the slot have been counted.
    pub open spec fn all_in(self) -> bool {
        self.num_expected_batches == Some(self.num_batches)
    }
}

/// One batch counter per slot whose batches are not all in.
#[derive(Clone, Debug)]
pub struct SlotBroadcastStats<T> {
    counters: HashMap<u64, BatchCounter<T>>,
}

impl<T> View for SlotBroadcastStats<T> {
    type V = Map<u64, BatchCounter<T>>;

    closed spec fn view(&self) -> Map<u64, BatchCounter<T>> {
        self.counters@
    }
}

/// The counter that `counters` holds for `slot`, or that of a slot without batches.
pub open spec fn counter_of<T: BroadcastStats>(
    counters: Map<u64, BatchCounter<T>>,
    slot: u64,
) -> BatchCounter<T> {
    if counters.contains_key(slot) {
        counters[slot]
    } else {
        BatchCounter::none_yet()
    }
}

/// The counters after one more batch: a slot whose batches are all in is dropped.
pub open spec fn count_batch<T: BroadcastStats>(
    counters: Map<u64, BatchCounter<T>>,
    new_stats: T,
    info: BroadcastShredBatchInfo,
) -> Map<u64, BatchCounter<T>> {
    let counter = counter_of(counters, info.slot).count(new_stats, info);
    if counter.all_in() {
        counters.remove(info.slot)
    } else {
        counters.insert(info.slot, counter)
    }
}

impl<T: BroadcastStats> SlotBroadcastStats<T> {
    /// Statistics of no slot.
    pub fn new() -> (stats: SlotBroadcastStats<T>)
        ensures
            stats@ == Map::<u64, BatchCounter<T>>::empty(),
    {
        SlotBroadcastStats { counters: HashMap::new() }
    }

    /// The counter of `slot`, if some but not all of its batches are in.
    pub fn get(&self, slot: u64) -> (counter: Option<&BatchCounter<T>>)
        ensures
            match counter {
                Some(c) => self@.contains_key(slot) && *c == self@[slot],
                None => !self@.contains_key(slot),
            },
    {
        self.counters.get(&slot)
    }

    /// Whether a batch without information, or one that can be counted within the range of the
    /// fields.
    pub open spec fn can_count(self, new_stats: T, info: Option<BroadcastShredBatchInfo>) -> bool {
        info matches Some(i) ==> counter_of(self@, i.slot).can_count(new_stats)
    }

    /// Whether [`SlotBroadcastStats::update`] may be called.
    pub fn fits(&self, new_stats: &T, info: &Option<BroadcastShredBatchInfo>) -> (b: bool)
        ensures
            b == self.can_count(*new_stats, *info),
    {
        match info {
            None => true,
            Some(i) => match self.counters.get(&i.slot) {
                Some(c) => c.num_batches < usize::MAX && c.broadcast_shred_stats.fits(new_stats),
                None => T::start().fits(new_stats),
            },
        }
    }

    /// What counting a batch does: `after` is left, and `totals` come out.
    pub open spec fn is_counted(
        self,
        after: SlotBroadcastStats<T>,
        new_stats: T,
        info: Option<BroadcastShredBatchInfo>,
        totals: Option<T>,
    ) -> bool {
        match info {
            None => after@ == self@ && totals is None,
            Some(i) => {
                let counter = counter_of(self@, i.slot).count(new_stats, i);
                &&& after@ == count_batch(self@, new_stats, i)
                &&& totals == if counter.all_in() {
                    Some(counter.broadcast_shred_stats)
                } else {
                    None
                }
            },
        }
    }

    /// Counts a batch of the slot that `info` names, and returns the slot's totals if this was
    /// the last of its batches: the slot is then forgotten. Batches without information are not
    /// counted: they were not made by the broadcast of a slot.
    pub fn update(&mut self, new_stats: &T, info: &Option<BroadcastShredBatchInfo>) -> (totals:
        Option<T>)
        requires
            old(self).can_count(*new_stats, *info),
        ensures
            old(self).is_counted(*final(self), *new_stats, *info, totals),
    {
        match info {
            None => None,
            Some(i) => {
                let mut counter: BatchCounter<T> = match self.counters.remove(&i.slot) {
                    Some(c) => c,
                    None => BatchCounter {
                        num_batches: 0,
                        num_expected_batches: None,
                        broadcast_shred_stats: T::start(),
                    },
                };
                counter.broadcast_shred_stats.update(new_stats);
                counter.num_batches += 1;
                if i.num_expected_batches.is_some() {
                    counter.num_expected_batches = i.num_expected_batches;
                }
                let all_in: bool = match counter.num_expected_batches {
                    Some(expected) => expected == counter.num_batches,
                    None => false,
                };
                if all_in {
                    Some(counter.broadcast_shred_stats)
                } else {
                    self.counters.insert(i.slot, counter);
                    assert(self@ =~= count_batch(old(self)@, *new_stats, *i));
                    None
                }
            },
        }
    }
}

/// The counters after the batches of `batches`, first to last.
pub open spec fn count_batches<T: BroadcastStats>(
    counters: Map<u64, BatchCounter<T>>,
    batches: Seq<(T, BroadcastShredBatchInfo)>,
) -> Map<u64, BatchCounter<T>>
    decreases batches.len(),
{
    if batches.len() == 0 {
        counters
    } else {
        let (new_stats, info) = batches.last();
        count_batch(count_batches(counters, batches.drop_last()), new_stats, info)
    }
}

/// How many of `batches` belong to `slot`.
pub open spec fn batches_of<T>(batches: Seq<(T, BroadcastShredBatchInfo)>, slot: u64) -> nat
    decreases batches.len(),
{
    if batches.len() == 0 {
        0
    } else {
        batches_of(batches.drop_last(), slot) + if batches.last().1.slot == slot {
            1nat
        } else {
            0nat
        }
    }
}

/// Whether some batch of `slot` tells how many batches the slot has.
pub open spec fn some_batch_tells<T>(
    batches: Seq<(T, BroadcastShredBatchInfo)>,
    slot: u64,
) -> bool {
    exists|i: int|
        0 <= i < batches.len() && (#[trigger] batches[i]).1.slot == slot
            && batches[i].1.num_expected_batches is Some
}

/// Whether every batch of `slot` that tells how many batches the slot has tells `total`.
pub open spec fn batches_agree<T>(
    batches: Seq<(T, BroadcastShredBatchInfo)>,
    slot: u64,
    total: usize,
) -> bool {
    forall|i: int|
        0 <= i < batches.len() && (#[trigger] batches[i]).1.slot == slot
            && batches[i].1.num_expected_batches is Some
            ==> batches[i].1.num_expected_batches == Some(total)
}

/// However the batches of the slots mix, and whichever batch of `slot` tells the slot's number of
/// batches: while fewer than `total` batches of the slot are in, their number is kept; once
/// all are in and the number was told, the slot is forgotten.
pub proof fn lemma_slot_is_forgotten_when_all_batches_are_in<T: BroadcastStats>(
    counters: Map<u64, BatchCounter<T>>,
    batches: Seq<(T, BroadcastShredBatchInfo)>,
    slot: u64,
    total: usize,
)
    requires
        !counters.contains_key(slot),
        batches_agree(batches, slot, total),
        batches_of(batches, slot) <= total,
    ensures
        ({
            let n = batches_of(batches, slot);
            let after = count_batches(counters, batches);
            &&& after.contains_key(slot) <==> (0 < n && !(n == total && some_batch_tells(
                batches,
                slot,
            )))
            &&& after.contains_key(slot) ==> after[slot].num_batches == n
            &&& after.contains_key(slot) ==> after[slot].num_expected_batches == (
            if some_batch_tells(batches, slot) {
                Some(total)
            } else {
                None
            })
        }),
    decreases batches.len(),
{
    if batches.len() > 0 {
        let before = batches.drop_last();
        let last = batches.last();
        assert forall|i: int|
            0 <= i < before.len() && (#[trigger] before[i]).1.slot == slot
                && before[i].1.num_expected_batches is Some implies before[i].1.num_expected_batches
            == Some(total) by {
            assert(batches[i] == before[i]);
        }
        lemma_slot_is_forgotten_when_all_batches_are_in(counters, before, slot, total);
        assert(batches[batches.len() - 1] == last);
        if some_batch_tells(before, slot) {
            let i = choose|i: int|
                0 <= i < before.len() && (#[trigger] before[i]).1.slot == slot
                    && before[i].1.num_expected_batches is Some;
            assert(batches[i] == before[i]);
            assert(some_batch_tells(batches, slot));
        }
        if some_batch_tells(batches, slot) && !(last.1.slot == slot
            && last.1.num_expected_batches is Some) {
            let i = choose|i: int|
                0 <= i < batches.len() && (#[trigger] batches[i]).1.slot == slot
                    && batches[i].1.num_expected_batches is Some;
            assert(before[i] == batches[i]);
            assert(some_batch_tells(before, slot));
        }
        lemma_batches_of_is_positive(before, slot);
    }
}

/// A batch of `slot` that tells something is a batch of `slot`.
proof fn lemma_batches_of_is_positive<T>(batches: Seq<(T, BroadcastShredBatchInfo)>, slot: u64)
    ensures
        some_batch_tells(batches, slot) ==> batches_of(batches, slot) > 0,
    decreases batches.len(),
{
    if some_batch_tells(batches, slot) {
        let i = choose|i: int|
            0 <= i < batches.len() && (#[trigger] batches[i]).1.slot == slot
                && batches[i].1.num_expected_batches is Some;
        if i < batches.len() - 1 {
            assert(batches.drop_last()[i] == batches[i]);
            lemma_batches_of_is_positive(batches.drop_last(), slot);
        }
    }
}

/// The batches of other slots leave a slot's counter as it is.
pub proof fn lemma_other_slots_do_not_matter<T: BroadcastStats>(
    counters: Map<u64, BatchCounter<T>>,
    new_stats: T,
    info: BroadcastShredBatchInfo,
    slot: u64,
)
    requires
        info.slot != slot,
    ensures
        count_batch(counters, new_stats, info).contains_key(slot) == counters.contains_key(slot),
        counters.contains_key(slot) ==> count_batch(counters, new_stats, info)[slot]
            == counters[slot],
{
}

/// What insertions took adds up field by field, and can be added as long as both sums are in
/// range.
pub proof fn lemma_insertions_add_up(a: InsertShredsStats, b: InsertShredsStats)
    ensures
        a.can_add(b) <==> a.insert_shreds_elapsed <= u64::MAX - b.insert_shreds_elapsed
            && a.num_shreds <= usize::MAX - b.num_shreds,
        a.can_add(b) ==> a.sum(b).insert_shreds_elapsed - a.insert_shreds_elapsed
            == b.insert_shreds_elapsed && a.sum(b).num_shreds - a.num_shreds == b.num_shreds,
        InsertShredsStats::none_yet().can_add(a) && InsertShredsStats::none_yet().sum(a) == a,
{
}

/// What transmissions took adds up field by field, and can be added as long as all sums are in
/// range.
pub proof fn lemma_transmissions_add_up(a: TransmitShredsStats, b: TransmitShredsStats)
    ensures
        a.can_add(b) <==> {
            &&& a.transmit_elapsed <= u64::MAX - b.transmit_elapsed
            &&& a.send_mmsg_elapsed <= u64::MAX - b.send_mmsg_elapsed
            &&& a.get_peers_elapsed <= u64::MAX - b.get_peers_elapsed
            &&& a.num_shreds <= usize::MAX - b.num_shreds
        },
        a.can_add(b) ==> {
            &&& a.sum(b).transmit_elapsed - a.transmit_elapsed == b.transmit_elapsed
            &&& a.sum(b).send_mmsg_elapsed - a.send_mmsg_elapsed == b.send_mmsg_elapsed
            &&& a.sum(b).get_peers_elapsed - a.get_peers_elapsed == b.get_peers_elapsed
            &&& a.sum(b).num_shreds - a.num_shreds == b.num_shreds
        },
        TransmitShredsStats::none_yet().can_add(a) && TransmitShredsStats::none_yet().sum(a) == a,
{
}

/// What the sending measured is kept; the other figures of a batch are those that were given.
pub proof fn lemma_transmission_of_a_batch(
    sent: TransmitShredsStats,
    transmit_elapsed: u64,
    get_peers_elapsed: u64,
    num_shreds: usize,
)
    ensures
        ({
            let batch = sent.of_batch(transmit_elapsed, get_peers_elapsed, num_shreds);
            &&& batch.send_mmsg_elapsed == sent.send_mmsg_elapsed
            &&& batch.transmit_elapsed == transmit_elapsed
            &&& batch.get_peers_elapsed == get_peers_elapsed
            &&& batch.num_shreds == num_shreds
        }),
{
}

/// A batch can be counted as long as one more batch of its slot and its figures are in range.
pub proof fn lemma_batch_can_be_counted<T: BroadcastStats>(
    stats: SlotBroadcastStats<T>,
    new_stats: T,
    info: Option<BroadcastShredBatchInfo>,
)
    requires
        info matches Some(i) ==> if stats@.contains_key(i.slot) {
            stats@[i.slot].num_batches < usize::MAX
                && stats@[i.slot].broadcast_shred_stats.can_add(new_stats)
        } else {
            T::none_yet().can_add(new_stats)
        },
    ensures
        stats.can_count(new_stats, info),
{
}

/// Counting a batch without information does nothing. Counting a batch of a slot leaves the other
/// slots alone, adds one batch and its figures to the slot, and learns the number of batches that
/// it tells. If the slot's batches are then as many as was told, by this batch or else by one
/// before, the slot's totals come out and the slot is gone; and else nothing comes out.
pub proof fn lemma_what_counting_does<T: BroadcastStats>(
    before: SlotBroadcastStats<T>,
    after: SlotBroadcastStats<T>,
    new_stats: T,
    info: Option<BroadcastShredBatchInfo>,
    totals: Option<T>,
)
    requires
        before.can_count(new_stats, info),
        before.is_counted(after, new_stats, info, totals),
    ensures
        info is None ==> after@ == before@ && totals is None,
        info matches Some(i) ==> {
            let (num_batches, told_before, stats) = if before@.contains_key(i.slot) {
                (
                    before@[i.slot].num_batches as int,
                    before@[i.slot].num_expected_batches,
                    before@[i.slot].broadcast_shred_stats,
                )
            } else {
                (0int, None, T::none_yet())
            };
            let told = match i.num_expected_batches {
                Some(n) => Some(n),
                None => told_before,
            };
            let is_last = match told {
                Some(n) => n == num_batches + 1,
                None => false,
            };
            &&& forall|slot: u64|
                slot != i.slot ==> (#[trigger] after@.contains_key(slot)) == before@.contains_key(
                    slot,
                ) && (before@.contains_key(slot) ==> after@[slot] == before@[slot])
            &&& is_last ==> totals == Some(stats.sum(new_stats)) && !after@.contains_key(i.slot)
            &&& !is_last ==> {
                &&& totals is None
                &&& after@.contains_key(i.slot)
                &&& after@[i.slot].num_batches == num_batches + 1
                &&& after@[i.slot].num_expected_batches == told
                &&& after@[i.slot].broadcast_shred_stats == stats.sum(new_stats)
            }
        },
{
}

/// The figures of the batches of `slot` among `batches`, added one after the other.
pub open spec fn stats_of<T: BroadcastStats>(
    batches: Seq<(T, BroadcastShredBatchInfo)>,
    slot: u64,
) -> T
    decreases batches.len(),
{
    if batches.len() == 0 {
        T::none_yet()
    } else {
        let before = stats_of(batches.drop_last(), slot);
        if batches.last().1.slot == slot {
            before.sum(batches.last().0)
        } else {
            before
        }
    }
}

/// While fewer than all batches of a slot are in, its totals are those of its batches so far.
proof fn lemma_totals_so_far<T: BroadcastStats>(
    counters: Map<u64, BatchCounter<T>>,
    batches: Seq<(T, BroadcastShredBatchInfo)>,
    slot: u64,
    total: usize,
)
    requires
        !counters.contains_key(slot),
        batches_agree(batches, slot, total),
        batches_of(batches, slot) < total,
    ensures
        counter_of(count_batches(counters, batches), slot).broadcast_shred_stats == stats_of(
            batches,
            slot,
        ),
        counter_of(count_batches(counters, batches), slot).num_batches == batches_of(batches, slot),
    decreases batches.len(),
{
    lemma_slot_is_forgotten_when_all_batches_are_in(counters, batches, slot, total);
    lemma_batches_of_is_positive(batches, slot);
    if batches.len() > 0 {
        let before = batches.drop_last();
        assert forall|i: int|
            0 <= i < before.len() && (#[trigger] before[i]).1.slot == slot
                && before[i].1.num_expected_batches is Some implies before[i].1.num_expected_batches
            == Some(total) by {
            assert(batches[i] == before[i]);
        }
        lemma_totals_so_far(counters, before, slot, total);
    }
}

/// The totals that come out of a slot when its last batch is counted are those of all its
/// batches, however they mix with those of other slots.
pub proof fn lemma_totals_of_a_slot<T: BroadcastStats>(
    start: SlotBroadcastStats<T>,
    batches: Seq<(T, BroadcastShredBatchInfo)>,
    slot: u64,
    total: usize,
    before: SlotBroadcastStats<T>,
    last: (T, BroadcastShredBatchInfo),
    after: SlotBroadcastStats<T>,
    totals: Option<T>,
)
    requires
        !start@.contains_key(slot),
        before@ == count_batches(start@, batches),
        last.1.slot == slot,
        batches_agree(batches.push(last), slot, total),
        batches_of(batches, slot) + 1 == total,
        some_batch_tells(batches.push(last), slot),
        before.is_counted(after, last.0, Some(last.1), totals),
    ensures
        totals == Some(stats_of(batches.push(last), slot)),
        !after@.contains_key(slot),
{
    let all = batches.push(last);
    assert(all.drop_last() =~= batches);
    assert forall|i: int|
        0 <= i < batches.len() && (#[trigger] batches[i]).1.slot == slot
            && batches[i].1.num_expected_batches is Some implies batches[i].1.num_expected_batches
        == Some(total) by {
        assert(all[i] == batches[i]);
    }
    assert(all[all.len() - 1] == last);
    lemma_totals_so_far(start@, batches, slot, total);
    lemma_slot_is_forgotten_when_all_batches_are_in(start@, batches, slot, total);
    if last.1.num_expected_batches is None {
        let i = choose|i: int|
            0 <= i < all.len() && (#[trigger] all[i]).1.slot == slot
                && all[i].1.num_expected_batches is Some;
        assert(batches[i] == all[i]);
        assert(some_batch_tells(batches, slot));
        lemma_batches_of_is_positive(batches, slot);
    }
}

/// How many shreds the batches of `slot` had, and how many microseconds their insertion took.
pub open spec fn insertions_of(
    batches: Seq<(InsertShredsStats, BroadcastShredBatchInfo)>,
    slot: u64,
) -> (nat, nat)
    decreases batches.len(),
{
    if batches.len() == 0 {
        (0, 0)
    } else {
        let (num_shreds, elapsed) = insertions_of(batches.drop_last(), slot);
        if batches.last().1.slot == slot {
            (
                num_shreds + batches.last().0.num_shreds as nat,
                elapsed + batches.last().0.insert_shreds_elapsed as nat,
            )
        } else {
            (num_shreds, elapsed)
        }
    }
}

/// The totals of a slot's insertions are the sums over its batches.
pub proof fn lemma_totals_of_insertions_are_sums(
    batches: Seq<(InsertShredsStats, BroadcastShredBatchInfo)>,
    slot: u64,
)
    requires
        insertions_of(batches, slot).0 <= usize::MAX,
        insertions_of(batches, slot).1 <= u64::MAX,
    ensures
        stats_of(batches, slot).num_shreds == insertions_of(batches, slot).0,
        stats_of(batches, slot).insert_shreds_elapsed == insertions_of(batches, slot).1,
    decreases batches.len(),
{
    if batches.len() > 0 {
        lemma_totals_of_insertions_are_sums(batches.drop_last(), slot);
    }
}

/// How many shreds the batches of `slot` had, and how many microseconds their transmission, the
/// sending itself and the look-up of the peers took.
pub open spec fn transmissions_of(
    batches: Seq<(TransmitShredsStats, BroadcastShredBatchInfo)>,
    slot: u64,
) -> (nat, nat, nat, nat)
    decreases batches.len(),
{
    if batches.len() == 0 {
        (0, 0, 0, 0)
    } else {
        let (num_shreds, elapsed, mmsg, peers) = transmissions_of(batches.drop_last(), slot);
        if batches.last().1.slot == slot {
            (
                num_shreds + batches.last().0.num_shreds as nat,
                elapsed + batches.last().0.transmit_elapsed as nat,
                mmsg + batches.last().0.send_mmsg_elapsed as nat,
                peers + batches.last().0.get_peers_elapsed as nat,
            )
        } else {
            (num_shreds, elapsed, mmsg, peers)
        }
    }
}

/// The totals of a slot's transmissions are the sums over its batches.
pub proof fn lemma_totals_of_transmissions_are_sums(
    batches: Seq<(TransmitShredsStats, BroadcastShredBatchInfo)>,
    slot: u64,
)
    requires
        transmissions_of(batches, slot).0 <= usize::MAX,
        transmissions_of(batches, slot).1 <= u64::MAX,
        transmissions_of(batches, slot).2 <= u64::MAX,
        transmissions_of(batches, slot).3 <= u64::MAX,
    ensures
        stats_of(batches, slot).num_shreds == transmissions_of(batches, slot).0,
        stats_of(batches, slot).transmit_elapsed == transmissions_of(batches, slot).1,
        stats_of(batches, slot).send_mmsg_elapsed == transmissions_of(batches, slot).2,
        stats_of(batches, slot).get_peers_elapsed == transmissions_of(batches, slot).3,
    decreases batches.len(),
{
    if batches.len() > 0 {
        lemma_totals_of_transmissions_are_sums(batches.drop_last(), slot);
    }
}

} // verus!

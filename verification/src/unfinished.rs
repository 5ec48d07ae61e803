//! The slot that is being broadcast, with the data shreds that wait to be erasure coded.
use crate::shred::{Shred, MAX_DATA_SHREDS_PER_FEC_BLOCK};
use std::sync::Arc;
use vstd::prelude::*;

verus! {

/// A slot of which shreds were made, and of which more may follow.
#[derive(Clone, Debug)]
pub struct UnfinishedSlotInfo {
    pub next_shred_index: u32,
    pub slot: u64,
    pub parent: u64,
    /// Data shreds buffered to make larger erasure-coded sets.
    pub data_shreds_buffer: Vec<Shred>,
    /// The shred index at which the erasure-coded sets of the slot begin.
    pub fec_set_offset: u32,
}

/// What an [`UnfinishedSlotInfo`] holds.
#[verifier::ext_equal]
pub struct UnfinishedSlot {
    pub next_shred_index: u32,
    pub slot: u64,
    pub parent: u64,
    pub buffer: Seq<Shred>,
    pub fec_set_offset: u32,
}

impl View for UnfinishedSlotInfo {
    type V = UnfinishedSlot;

    open spec fn view(&self) -> UnfinishedSlot {
        UnfinishedSlot {
            next_shred_index: self.next_shred_index,
            slot: self.slot,
            parent: self.parent,
            buffer: self.data_shreds_buffer@,
            fec_set_offset: self.fec_set_offset,
        }
    }
}

/// What an optional [`UnfinishedSlotInfo`] holds.
pub open spec fn unfinished_view(unfinished_slot: Option<UnfinishedSlotInfo>) -> Option<
    UnfinishedSlot,
> {
    match unfinished_slot {
        Some(info) => Some(info@),
        None => None,
    }
}

/// How many of `size` buffered data shreds go into complete erasure-coded sets now: all of them
/// at the end of the slot, else the largest multiple of the set size.
pub open spec fn coded_len(size: int, is_slot_end: bool) -> int {
    if is_slot_end {
        size
    } else {
        size - size % MAX_DATA_SHREDS_PER_FEC_BLOCK as int
    }
}

impl UnfinishedSlot {
    /// The buffered data shreds that are to be coded now.
    pub open spec fn to_code(self, is_slot_end: bool) -> Seq<Shred> {
        self.buffer.take(coded_len(self.buffer.len() as int, is_slot_end))
    }

    /// The slot once they are taken out of the buffer.
    pub open spec fn without_coded(self, is_slot_end: bool) -> UnfinishedSlot {
        UnfinishedSlot {
            buffer: self.buffer.skip(coded_len(self.buffer.len() as int, is_slot_end)),
            ..self
        }
    }

    /// The empty data shred that closes the slot, where `payload` is that shred, serialized.
    pub open spec fn closing_shred(self, payload: Arc<Vec<u8>>) -> Shred {
        Shred { slot: self.slot, index: self.next_shred_index, is_data: true, payload }
    }
}

impl UnfinishedSlotInfo {
    /// The empty data shred that closes the slot, where `payload` is that shred, serialized.
    pub fn closing_shred(&self, payload: Arc<Vec<u8>>) -> (shred: Shred)
        ensures
            shred == self@.closing_shred(payload),
    {
        Shred { slot: self.slot, index: self.next_shred_index, is_data: true, payload }
    }
}

/// Takes out of the buffer the data shreds that are to be coded now, for
/// their coding shreds to be made.
pub fn take_shreds_to_code(
    unfinished_slot: &mut Option<UnfinishedSlotInfo>,
    is_slot_end: bool,
) -> (data_shreds: Vec<Shred>)
    ensures
        match unfinished_view(*old(unfinished_slot)) {
            None => {
                &&& data_shreds@ == Seq::<Shred>::empty()
                &&& unfinished_view(*final(unfinished_slot)) is None
            },
            Some(slot) => {
                &&& data_shreds@ == slot.to_code(is_slot_end)
                &&& unfinished_view(*final(unfinished_slot)) == Some(
                    slot.without_coded(is_slot_end),
                )
            },
        },
{
    match unfinished_slot {
        None => Vec::new(),
        Some(info) => {
            let ghost before = info@;
            let size: usize = info.data_shreds_buffer.len();
            // Consume a multiple of the set size, unless this is the slot end.
            let kept: usize = if is_slot_end {
                0
            } else {
                size % MAX_DATA_SHREDS_PER_FEC_BLOCK
            };
            let mut data_shreds: Vec<Shred> = info.data_shreds_buffer.split_off(size - kept);
            std::mem::swap(&mut data_shreds, &mut info.data_shreds_buffer);
            assert(data_shreds@ =~= before.to_code(is_slot_end));
            assert(info@ =~= before.without_coded(is_slot_end));
            data_shreds
        },
    }
}

/// Coding takes the buffered data shreds in order and loses none: those taken, then those left,
/// are those that were buffered.
pub proof fn lemma_coding_keeps_every_shred(slot: UnfinishedSlot, is_slot_end: bool)
    ensures
        slot.to_code(is_slot_end) + slot.without_coded(is_slot_end).buffer == slot.buffer,
{
    assert(slot.to_code(is_slot_end) + slot.without_coded(is_slot_end).buffer =~= slot.buffer);
}

/// Within a slot only complete erasure-coded sets are made, and less than a set stays
/// buffered. At the end of the slot nothing stays buffered.
pub proof fn lemma_coding_makes_complete_sets(slot: UnfinishedSlot)
    ensures
        slot.to_code(false).len() % MAX_DATA_SHREDS_PER_FEC_BLOCK as nat == 0,
        slot.without_coded(false).buffer.len() < MAX_DATA_SHREDS_PER_FEC_BLOCK,
        slot.to_code(true) == slot.buffer,
        slot.without_coded(true).buffer.len() == 0,
{
    assert(slot.to_code(true) =~= slot.buffer);
}

/// Coding takes shreds from the front of the buffer, in sets of 32 unless the slot ends, and
/// changes nothing of the slot but its buffer.
pub proof fn lemma_coding_takes_from_the_front(slot: UnfinishedSlot, is_slot_end: bool)
    ensures
        slot.to_code(is_slot_end).is_prefix_of(slot.buffer),
        is_slot_end ==> slot.to_code(is_slot_end).len() == slot.buffer.len(),
        !is_slot_end ==> slot.to_code(is_slot_end).len() == 32 * (slot.buffer.len() / 32),
        slot.to_code(is_slot_end).len() + slot.without_coded(is_slot_end).buffer.len()
            == slot.buffer.len(),
        forall|i: int|
            0 <= i < slot.without_coded(is_slot_end).buffer.len() ==> (
            #[trigger] slot.without_coded(is_slot_end).buffer[i]) == slot.buffer[i
                + slot.to_code(is_slot_end).len()],
        slot.without_coded(is_slot_end).next_shred_index == slot.next_shred_index,
        slot.without_coded(is_slot_end).slot == slot.slot,
        slot.without_coded(is_slot_end).parent == slot.parent,
        slot.without_coded(is_slot_end).fec_set_offset == slot.fec_set_offset,
{
}

/// The shred that closes a slot is a data shred of the slot and comes after all its others.
pub proof fn lemma_closing_shred_is_the_next_data_shred(
    slot: UnfinishedSlot,
    payload: Arc<Vec<u8>>,
)
    ensures
        slot.closing_shred(payload).slot == slot.slot,
        slot.closing_shred(payload).index == slot.next_shred_index,
        slot.closing_shred(payload).is_data,
        slot.closing_shred(payload).payload == payload,
{
}

} // verus!

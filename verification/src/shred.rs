//! Shreds as the broadcast stage sees them, and the rule by which the first shred of a slot is
//! stored ahead of the others.
use std::sync::Arc;
use vstd::prelude::*;

verus! {

/// The largest number of data shreds that one erasure-coded set holds.
pub const MAX_DATA_SHREDS_PER_FEC_BLOCK: usize = 32;

/// The bits of a data shred's flags that hold its reference tick.
pub const SHRED_TICK_REFERENCE_MASK: u8 = 0x3f;

/// A signed shred: the header values that the broadcast stage reads, and the serialized shred
/// they were read from. The payload is shared, not copied, between the holders of a shred.
#[derive(Clone, Debug)]
pub struct Shred {
    pub slot: u64,
    pub index: u32,
    pub is_data: bool,
    pub payload: Arc<Vec<u8>>,
}

impl Shred {
    /// A second holder of the same shred.
    pub fn share(&self) -> (shred: Shred)
        ensures
            shred == *self,
    {
        Shred {
            slot: self.slot,
            index: self.index,
            is_data: self.is_data,
            payload: self.payload.clone(),
        }
    }
}

/// The header of a data shred that carries no data. The index of the shred's erasure-coded set
/// follows from `index` and `fec_set_offset`.
#[derive(Clone, Copy, Debug, PartialEq, Eq, Structural)]
pub struct DataShredHeader {
    pub slot: u64,
    pub index: u32,
    pub parent_offset: u16,
    pub is_last_in_fec_set: bool,
    pub is_last_in_slot: bool,
    pub reference_tick: u8,
    pub version: u16,
    pub fec_set_offset: u32,
}

/// Whether a batch of shreds begins with the shred of index zero.
pub open spec fn starts_at_zero(shreds: Seq<Shred>) -> bool {
    shreds.len() > 0 && shreds[0].index == 0
}

/// The part of a data batch that is stored before the batch is sent out, so that the ledger
/// knows that the leader has started the block.
pub open spec fn stored_before_sending(shreds: Seq<Shred>) -> Seq<Shred> {
    if starts_at_zero(shreds) {
        shreds.take(1)
    } else {
        Seq::empty()
    }
}

/// The part of a batch that is stored when the batch is recorded.
pub open spec fn stored_when_recorded(shreds: Seq<Shred>) -> Seq<Shred> {
    if starts_at_zero(shreds) {
        shreds.skip(1)
    } else {
        shreds
    }
}

/// Executable form of [`starts_at_zero`].
pub fn batch_starts_at_zero(shreds: &Vec<Shred>) -> (b: bool)
    ensures
        b == starts_at_zero(shreds@),
        b <==> shreds@.len() > 0 && shreds@[0].index == 0,
{
    shreds.len() > 0 && shreds[0].index == 0
}

/// The shreds of a recorded batch that are still to be stored: all of them, but for a first
/// shred of index zero, which was stored before the batch was sent.
pub fn shreds_to_store(shreds: &Vec<Shred>) -> (rest: Vec<Shred>)
    ensures
        rest@ == stored_when_recorded(shreds@),
        shreds@.len() == 0 || shreds@[0].index != 0 ==> rest@ == shreds@,
        shreds@.len() > 0 && shreds@[0].index == 0 ==> seq![shreds@[0]] + rest@ == shreds@,
{
    proof {
        lemma_only_a_first_shred_of_index_zero_is_left_out(shreds@);
    }
    let from: usize = if batch_starts_at_zero(shreds) { 1 } else { 0 };
    let mut rest: Vec<Shred> = Vec::new();
    let mut i: usize = from;
    while i < shreds.len()
        invariant
            from <= i <= shreds@.len(),
            rest@ == shreds@.subrange(from as int, i as int),
        decreases shreds@.len() - i,
    {
        rest.push(shreds[i].share());
        i += 1;
        assert(rest@ =~= shreds@.subrange(from as int, i as int));
    }
    rest
}

/// Appends `shreds` to `buffer`, sharing each of them.
pub fn extend_shared(buffer: &mut Vec<Shred>, shreds: &Vec<Shred>)
    ensures
        final(buffer)@ == old(buffer)@ + shreds@,
{
    let mut i: usize = 0;
    while i < shreds.len()
        invariant
            0 <= i <= shreds@.len(),
            buffer@ == old(buffer)@ + shreds@.take(i as int),
        decreases shreds@.len() - i,
    {
        buffer.push(shreds[i].share());
        i += 1;
        assert(buffer@ =~= old(buffer)@ + shreds@.take(i as int));
    }
    assert(shreds@.take(shreds@.len() as int) =~= shreds@);
}

/// What is stored before a data batch is sent and what is stored when it is recorded are
/// together the batch, each shred once and in order.
pub proof fn lemma_every_data_shred_is_stored_once(shreds: Seq<Shred>)
    ensures
        stored_before_sending(shreds) + stored_when_recorded(shreds) == shreds,
{
    assert(stored_before_sending(shreds) + stored_when_recorded(shreds) =~= shreds);
}

/// When a batch is recorded, of data or of coding shreds, it is stored as it is, unless it begins
/// with a shred of index zero: then that shred, and no other, is left out.
pub proof fn lemma_only_a_first_shred_of_index_zero_is_left_out(shreds: Seq<Shred>)
    ensures
        shreds.len() == 0 || shreds[0].index != 0 ==> stored_when_recorded(shreds) == shreds,
        shreds.len() > 0 && shreds[0].index == 0 ==> seq![shreds[0]] + stored_when_recorded(shreds)
            == shreds,
{
    if shreds.len() > 0 && shreds[0].index == 0 {
        assert(seq![shreds[0]] + stored_when_recorded(shreds) =~= shreds);
    }
}

/// Before a data batch is sent, a first shred of index zero is stored, and nothing else ever is.
pub proof fn lemma_only_a_first_shred_of_index_zero_is_stored_early(shreds: Seq<Shred>)
    ensures
        shreds.len() == 0 || shreds[0].index != 0 ==> stored_before_sending(shreds).len() == 0,
        shreds.len() > 0 && shreds[0].index == 0 ==> stored_before_sending(shreds) == seq![
            shreds[0],
        ],
{
    if shreds.len() > 0 && shreds[0].index == 0 {
        assert(stored_before_sending(shreds) =~= seq![shreds[0]]);
    }
}

} // verus!

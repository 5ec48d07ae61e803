//! The peers that shreds are sent to, and when they are looked up again.
use vstd::prelude::*;

verus! {

/// How old, in milliseconds, the record of the last look-up must be for the peers to be looked
/// up again.
pub const BROADCAST_PEER_UPDATE_INTERVAL_MS: u64 = 1000;

/// A peer: its identity, and the address at which it takes shreds.
#[derive(Clone, Debug)]
pub struct ContactInfo {
    pub id: [u8; 32],
    pub tvu_ip: Vec<u8>,
    pub tvu_port: u16,
}

/// The peers of the last look-up, and the stake and the index in `peers` of each that takes part
/// in the broadcast.
#[derive(Clone, Debug)]
pub struct BroadcastPeerCache {
    pub peers: Vec<ContactInfo>,
    pub peers_and_stakes: Vec<(u64, usize)>,
}

impl BroadcastPeerCache {
    /// A cache of no peers.
    pub fn new() -> (cache: BroadcastPeerCache)
        ensures
            cache.peers@ == Seq::<ContactInfo>::empty(),
            cache.peers_and_stakes@ == Seq::<(u64, usize)>::empty(),
    {
        BroadcastPeerCache { peers: Vec::new(), peers_and_stakes: Vec::new() }
    }
}

/// Stores `new` in `cell` if it holds `current`, and returns what it held.
pub fn compare_and_swap(cell: &mut u64, current: u64, new: u64) -> (held: u64)
    ensures
        held == *old(cell),
        *final(cell) == (if *old(cell) == current {
            new
        } else {
            *old(cell)
        }),
{
    let held: u64 = *cell;
    if held == current {
        *cell = new;
    }
    held
}

} // verus!

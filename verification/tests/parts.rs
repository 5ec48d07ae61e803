//! The parts of a broadcast, one by one.
use solana_sdk::signature::Keypair;
use standard_broadcast::metrics::{
    BroadcastShredBatchInfo, BroadcastStats, InsertShredsStats, SlotBroadcastStats,
    TransmitShredsStats,
};
use standard_broadcast::peers::{compare_and_swap, BroadcastPeerCache, ContactInfo};
use standard_broadcast::process::{BankState, Event, ReceiveResults};
use standard_broadcast::run::StandardBroadcastRun;
use standard_broadcast::shred::{batch_starts_at_zero, extend_shared, shreds_to_store, Shred};
use standard_broadcast::stats::{Elapsed, ProcessShredsStats};
use standard_broadcast::unfinished::{take_shreds_to_code, UnfinishedSlotInfo};
use std::sync::Arc;
use std::time::Instant;

fn shreds(from: u32, to: u32) -> Vec<Shred> {
    (from..to)
        .map(|index| Shred { slot: 1, index, is_data: true, payload: Arc::new(vec![index as u8]) })
        .collect()
}

fn indices(shreds: &[Shred]) -> Vec<u32> {
    shreds.iter().map(|shred| shred.index).collect()
}

fn unfinished(shreds: Vec<Shred>) -> Option<UnfinishedSlotInfo> {
    Some(UnfinishedSlotInfo {
        next_shred_index: 100,
        slot: 1,
        parent: 0,
        data_shreds_buffer: shreds,
        fec_set_offset: 0,
    })
}

fn info(slot: u64, num_expected_batches: Option<usize>) -> Option<BroadcastShredBatchInfo> {
    Some(BroadcastShredBatchInfo { slot, num_expected_batches, slot_start_ts: Instant::now() })
}

#[test]
fn elapsed_in_microseconds() {
    assert_eq!(Elapsed { secs: 3, subsec_nanos: 0 }.as_us(), 3_000_000);
    assert_eq!(Elapsed { secs: 1, subsec_nanos: 999_999_999 }.as_us(), 1_999_999);
    assert_eq!(Elapsed { secs: 0, subsec_nanos: 999 }.as_us(), 0);
    assert_eq!(Elapsed { secs: u64::MAX, subsec_nanos: 1_000 }.as_us(), u64::MAX);
    assert_eq!(
        Elapsed { secs: u64::MAX / 1_000_000, subsec_nanos: 999_999_999 }.as_us(),
        u64::MAX
    );
    assert_eq!(Elapsed::zero().as_us(), 0);
}

#[test]
fn process_stats_add_up_and_reset() {
    let mut total = ProcessShredsStats::zero();
    let mut new = ProcessShredsStats::zero();
    new.shredding_elapsed = 1;
    new.receive_elapsed = 2;
    new.serialize_elapsed = 3;
    new.gen_data_elapsed = 4;
    new.gen_coding_elapsed = 5;
    new.sign_coding_elapsed = 6;
    new.coding_send_elapsed = 7;
    new.get_leader_schedule_elapsed = 8;
    total.update(&new);
    assert_eq!(total, new);
    total.update(&new);
    assert_eq!(total.shredding_elapsed, 2);
    assert_eq!(total.receive_elapsed, 4);
    assert_eq!(total.get_leader_schedule_elapsed, 16);
    assert!(total.fits(&new));
    new.gen_data_elapsed = u64::MAX;
    assert!(!total.fits(&new));
    total.reset();
    assert_eq!(total, ProcessShredsStats::zero());
}

#[test]
fn coding_takes_complete_sets() {
    let mut slot = unfinished(shreds(0, 70));
    let taken = take_shreds_to_code(&mut slot, false);
    assert_eq!(indices(&taken), (0..64).collect::<Vec<u32>>());
    assert_eq!(
        indices(&slot.as_ref().unwrap().data_shreds_buffer),
        (64..70).collect::<Vec<u32>>()
    );
    assert!(take_shreds_to_code(&mut slot, false).is_empty());
    assert_eq!(slot.as_ref().unwrap().data_shreds_buffer.len(), 6);
    let rest = take_shreds_to_code(&mut slot, true);
    assert_eq!(indices(&rest), (64..70).collect::<Vec<u32>>());
    assert!(slot.as_ref().unwrap().data_shreds_buffer.is_empty());
    assert_eq!(slot.as_ref().unwrap().next_shred_index, 100);
    slot = None;
    assert!(take_shreds_to_code(&mut slot, true).is_empty());
    assert!(slot.is_none());
}

#[test]
fn first_shred_is_not_stored_twice() {
    assert!(batch_starts_at_zero(&shreds(0, 3)));
    assert_eq!(indices(&shreds_to_store(&shreds(0, 3))), vec![1, 2]);
    assert!(!batch_starts_at_zero(&shreds(1, 3)));
    assert_eq!(indices(&shreds_to_store(&shreds(1, 3))), vec![1, 2]);
    assert!(!batch_starts_at_zero(&Vec::new()));
    assert!(shreds_to_store(&Vec::new()).is_empty());
}

#[test]
fn shreds_share_their_payload() {
    let mut buffer = shreds(0, 2);
    let more = shreds(2, 4);
    extend_shared(&mut buffer, &more);
    assert_eq!(indices(&buffer), vec![0, 1, 2, 3]);
    assert!(Arc::ptr_eq(&buffer[2].payload, &more[0].payload));
}

#[test]
fn slot_is_forgotten_when_its_batches_are_in() {
    let mut stats: SlotBroadcastStats<InsertShredsStats> = SlotBroadcastStats::new();
    let new = InsertShredsStats { insert_shreds_elapsed: 7, num_shreds: 2 };
    assert!(stats.get(4).is_none());
    assert_eq!(stats.update(&new, &info(4, None)), None);
    // A batch of another slot, and one that no slot was named for.
    assert_eq!(stats.update(&new, &info(5, Some(2))), None);
    assert_eq!(stats.update(&new, &None), None);
    // The number may be told before the last batch is in.
    assert_eq!(stats.update(&new, &info(4, Some(3))), None);
    assert_eq!(stats.get(4).unwrap().num_batches(), 2);
    assert_eq!(stats.get(4).unwrap().num_expected_batches, Some(3));
    let totals = stats.update(&new, &info(4, None));
    assert_eq!(totals, Some(InsertShredsStats { insert_shreds_elapsed: 21, num_shreds: 6 }));
    assert!(stats.get(4).is_none());
    assert_eq!(stats.get(5).unwrap().num_batches(), 1);
}

#[test]
fn counters_keep_their_range() {
    let mut stats: SlotBroadcastStats<TransmitShredsStats> = SlotBroadcastStats::new();
    let mut new = TransmitShredsStats::start();
    new.transmit_elapsed = u64::MAX;
    new.send_mmsg_elapsed = 1;
    assert!(stats.fits(&new, &info(1, None)));
    stats.update(&new, &info(1, None));
    assert!(!stats.fits(&new, &info(1, None)));
    assert!(stats.fits(&new, &info(2, None)));
    assert!(stats.fits(&new, &None));
    let other = InsertShredsStats { insert_shreds_elapsed: 0, num_shreds: usize::MAX };
    assert!(InsertShredsStats::start().fits(&other));
    assert!(!other.fits(&InsertShredsStats { insert_shreds_elapsed: 0, num_shreds: 1 }));
}

#[test]
fn peers_are_looked_up_after_the_interval() {
    let mut run = StandardBroadcastRun::new(Arc::new(Keypair::new()), 0);
    assert_eq!(run.last_peer_update, 0);
    assert!(!run.peers_are_due(1000));
    assert!(run.peers_are_due(1001));
    // The record stays, so the next look-up is due as well.
    assert_eq!(run.last_peer_update, 0);
    assert!(run.peers_are_due(1002));
    run.last_peer_update = 5000;
    assert!(!run.peers_are_due(6000));
    assert!(run.peers_are_due(6001));
    assert_eq!(run.last_peer_update, 5000);

    assert!(run.broadcast_peer_cache.peers.is_empty());
    let peer = ContactInfo { id: [3; 32], tvu_ip: vec![10, 0, 0, 1], tvu_port: 8002 };
    run.set_peers(vec![peer], vec![(50, 0)]);
    assert_eq!(run.broadcast_peer_cache.peers[0].tvu_port, 8002);
    assert_eq!(run.broadcast_peer_cache.peers_and_stakes, vec![(50, 0)]);
    assert!(BroadcastPeerCache::new().peers_and_stakes.is_empty());
}

#[test]
fn exchange_stores_only_over_the_expected_value() {
    let mut cell = 5;
    assert_eq!(compare_and_swap(&mut cell, 4, 9), 5);
    assert_eq!(cell, 5);
    assert_eq!(compare_and_swap(&mut cell, 5, 9), 5);
    assert_eq!(cell, 9);
}

#[test]
fn batches_are_measured() {
    let mut run = StandardBroadcastRun::new(Arc::new(Keypair::new()), 0);
    let elapsed = Elapsed { secs: 1, subsec_nanos: 2_500 };
    assert_eq!(run.finish_insert(elapsed, &shreds(0, 3), &info(8, None)), None);
    assert_eq!(
        run.insert_shreds_stats.get(8).unwrap().broadcast_shred_stats,
        InsertShredsStats { insert_shreds_elapsed: 1_000_002, num_shreds: 3 }
    );
    let mut sent = TransmitShredsStats::start();
    sent.send_mmsg_elapsed = 11;
    // A batch whose sending failed is not counted.
    assert_eq!(run.finish_broadcast(None, 12, 13, &shreds(0, 4), &info(8, Some(1))), None);
    assert!(run.transmit_shreds_stats.get(8).is_none());
    let totals = run.finish_broadcast(Some(sent), 12, 13, &shreds(0, 4), &info(8, Some(1)));
    assert_eq!(
        totals,
        Some(TransmitShredsStats {
            transmit_elapsed: 12,
            send_mmsg_elapsed: 11,
            get_peers_elapsed: 13,
            num_shreds: 4,
        })
    );
    assert!(run.transmit_shreds_stats.get(8).is_none());
}

#[test]
fn report_resets_the_figures() {
    let mut run = StandardBroadcastRun::new(Arc::new(Keypair::new()), 0);
    let start = Instant::now();
    run.slot_broadcast_start = Some(start);
    run.unfinished_slot = unfinished(Vec::new());
    run.process_shreds_stats.gen_data_elapsed = 17;
    let report = run.report_and_reset_stats();
    assert_eq!(report.slot, 1);
    assert_eq!(report.num_data_shreds, 100);
    assert_eq!(report.slot_broadcast_start, start);
    assert_eq!(report.stats.gen_data_elapsed, 17);
    assert_eq!(run.process_shreds_stats, ProcessShredsStats::zero());
    assert!(run.unfinished_slot.is_some());
}

#[test]
fn only_the_awaited_answer_is_expected() {
    let mut run = StandardBroadcastRun::new(Arc::new(Keypair::new()), 0);
    let bank = BankState {
        slot: 2,
        parent_slot: 1,
        ticks_per_slot: 64,
        tick_height: 65,
        max_tick_height: 192,
    };
    let results = ReceiveResults { time_elapsed: Elapsed::zero(), bank, last_tick_height: 65 };
    let (mut processing, _) = run.process_receive_results(&results, Instant::now());
    assert!(processing.expects(&Event::SlotMeta(None)));
    assert!(!processing.expects(&Event::Done));
    assert!(!processing.expects(&Event::SendFailed));
    run.step(&mut processing, Event::SlotMeta(Some(0x1_0000_0005)));
    let answer =
        Event::DataShreds { shreds: Vec::new(), next_shred_index: 5, stats: processing.stats };
    assert!(processing.expects(&answer));
    run.step(&mut processing, answer);
    // The count of consumed shreds is cut to 32 bits.
    assert_eq!(run.unfinished_slot.as_ref().unwrap().fec_set_offset, 5);
    assert!(processing.expects(&Event::Done));
    assert!(processing.expects(&Event::SendFailed));
}

//! Broadcasts of whole slots, with a ledger, a shredder and channels that live in memory.
use solana_sdk::signature::{Keypair, Signature, Signer};
use standard_broadcast::metrics::{BroadcastShredBatchInfo, BroadcastStats, TransmitShredsStats};
use standard_broadcast::peers::ContactInfo;
use standard_broadcast::process::{
    Action, BankState, Channel, Event, Phase, ReceiveResults, ShreddingPlan,
};
use standard_broadcast::run::{ProcessShredsReport, StandardBroadcastRun};
use standard_broadcast::shred::{shreds_to_store, DataShredHeader, Shred};
use standard_broadcast::stats::{BatchTimings, Elapsed, ProcessShredsStats};
use standard_broadcast::unfinished::UnfinishedSlotInfo;
use std::collections::{BTreeMap, VecDeque};
use std::sync::Arc;
use std::time::Instant;

/// The serialized size of a tick: the number of hashes, the hash, and no transactions.
const TICK_SIZE: usize = 48;
/// The serialized size of the number of entries.
const COUNT_SIZE: usize = 8;
/// How much data one data shred carries.
const SHRED_DATA_SIZE: usize = 1051;
const SIGNATURE_SIZE: usize = 64;
const LAST_IN_SLOT: u8 = 0x80;

type Tick = [u8; TICK_SIZE];
type Batch = (Arc<Vec<Shred>>, Option<BroadcastShredBatchInfo>);

fn create_ticks(num_ticks: u64) -> Vec<Tick> {
    (0..num_ticks)
        .map(|i| {
            let mut tick = [7u8; TICK_SIZE];
            tick[0..8].copy_from_slice(&i.to_le_bytes());
            tick
        })
        .collect()
}

fn max_ticks_per_n_shreds(num_shreds: u64) -> u64 {
    (SHRED_DATA_SIZE as u64 * num_shreds - COUNT_SIZE as u64) / TICK_SIZE as u64
}

fn signed(keypair: &Keypair, slot: u64, index: u32, is_data: bool, flags: u8, data: &[u8]) -> Shred {
    let mut message = vec![flags, is_data as u8];
    message.extend_from_slice(&slot.to_le_bytes());
    message.extend_from_slice(&index.to_le_bytes());
    message.extend_from_slice(data);
    let mut payload = keypair.sign_message(&message).as_ref().to_vec();
    payload.extend_from_slice(&message);
    Shred { slot, index, is_data, payload: Arc::new(payload) }
}

fn flags(shred: &Shred) -> u8 {
    shred.payload[SIGNATURE_SIZE]
}

fn data(shred: &Shred) -> &[u8] {
    &shred.payload[SIGNATURE_SIZE + 14..]
}

fn verify(shred: &Shred, keypair: &Keypair) -> bool {
    Signature::new(&shred.payload[..SIGNATURE_SIZE])
        .verify(keypair.pubkey().as_ref(), &shred.payload[SIGNATURE_SIZE..])
}

fn make_last_shred(keypair: &Keypair, header: &DataShredHeader) -> Arc<Vec<u8>> {
    assert!(header.is_last_in_fec_set);
    let flags = if header.is_last_in_slot { LAST_IN_SLOT } else { 0 };
    signed(keypair, header.slot, header.index, true, flags, &[]).payload
}

fn make_data_shreds(
    keypair: &Keypair,
    plan: &ShreddingPlan,
    entries: &[Tick],
) -> (Vec<Shred>, u32) {
    let mut bytes = (entries.len() as u64).to_le_bytes().to_vec();
    for entry in entries {
        bytes.extend_from_slice(entry);
    }
    let chunks: Vec<&[u8]> = bytes.chunks(SHRED_DATA_SIZE).collect();
    let mut index = plan.next_shred_index;
    let mut shreds = Vec::new();
    for (i, chunk) in chunks.iter().enumerate() {
        let is_last = plan.is_slot_end && i + 1 == chunks.len();
        let flags = if is_last { LAST_IN_SLOT } else { 0 };
        shreds.push(signed(keypair, plan.slot, index, true, flags, chunk));
        index += 1;
    }
    (shreds, index)
}

fn make_coding_shreds(keypair: &Keypair, data_shreds: &[Shred]) -> Vec<Shred> {
    data_shreds
        .iter()
        .map(|shred| {
            assert!(shred.is_data);
            signed(keypair, shred.slot, shred.index, false, 0, &[])
        })
        .collect()
}

#[derive(Default)]
struct Blockstore {
    shreds: BTreeMap<(u64, bool, u32), Shred>,
    insertions: usize,
}

impl Blockstore {
    fn insert_shreds(&mut self, shreds: Vec<Shred>) {
        for shred in shreds {
            self.insertions += 1;
            self.shreds.insert((shred.slot, shred.is_data, shred.index), shred);
        }
    }

    fn consumed(&self, slot: u64) -> Option<u64> {
        if !self.shreds.keys().any(|key| key.0 == slot) {
            return None;
        }
        let mut index = 0;
        while self.shreds.contains_key(&(slot, true, index)) {
            index += 1;
        }
        Some(index as u64)
    }

    fn is_full(&self, slot: u64) -> bool {
        match self.consumed(slot) {
            Some(consumed) if consumed > 0 => {
                flags(&self.shreds[&(slot, true, consumed as u32 - 1)]) & LAST_IN_SLOT != 0
            }
            _ => false,
        }
    }

    fn get_slot_entries(&self, slot: u64, start: u64) -> Vec<Tick> {
        let mut bytes = Vec::new();
        let mut index = start as u32;
        while let Some(shred) = self.shreds.get(&(slot, true, index)) {
            bytes.extend_from_slice(data(shred));
            index += 1;
        }
        let mut entries = Vec::new();
        let mut rest = &bytes[..];
        while rest.len() > COUNT_SIZE {
            let mut count = [0u8; COUNT_SIZE];
            count.copy_from_slice(&rest[..COUNT_SIZE]);
            rest = &rest[COUNT_SIZE..];
            for _ in 0..u64::from_le_bytes(count) {
                let mut tick = [0u8; TICK_SIZE];
                tick.copy_from_slice(&rest[..TICK_SIZE]);
                entries.push(tick);
                rest = &rest[TICK_SIZE..];
            }
        }
        entries
    }
}

/// What surrounds a broadcast.
#[derive(Default)]
struct World {
    blockstore: Blockstore,
    socket: VecDeque<Batch>,
    record: VecDeque<Batch>,
    reports: Vec<ProcessShredsReport>,
    plans: Vec<ShreddingPlan>,
    /// The indices of the data shreds of which coding shreds were made, call by call.
    coded: Vec<Vec<u32>>,
    /// How many more sends succeed, if not all.
    sends_left: Option<usize>,
}

impl World {
    fn send(&mut self, to: Channel, batch: Batch) -> bool {
        if let Some(left) = self.sends_left {
            if left == 0 {
                return false;
            }
            self.sends_left = Some(left - 1);
        }
        match to {
            Channel::Socket => self.socket.push_back(batch),
            Channel::Blockstore => self.record.push_back(batch),
        }
        true
    }

    /// Processes a batch of entries; false if a send failed.
    fn process(
        &mut self,
        run: &mut StandardBroadcastRun,
        entries: &[Tick],
        results: ReceiveResults,
    ) -> bool {
        let keypair = run.keypair.clone();
        let (mut processing, mut action) = run.process_receive_results(&results, Instant::now());
        loop {
            let event = match action {
                Action::MakeLastShred(header) => Event::LastShred(make_last_shred(&keypair, &header)),
                Action::MakeCodingShreds { data_shreds, stats } => {
                    self.coded.push(data_shreds.iter().map(|shred| shred.index).collect());
                    Event::CodingShreds { shreds: make_coding_shreds(&keypair, &data_shreds), stats }
                }
                Action::SubmitReport(report) => {
                    self.reports.push(report);
                    Event::Done
                }
                Action::ReadSlotMeta { slot } => Event::SlotMeta(self.blockstore.consumed(slot)),
                Action::ShredEntries(plan) => {
                    self.plans.push(plan);
                    let (shreds, next_shred_index) = make_data_shreds(&keypair, &plan, entries);
                    Event::DataShreds { shreds, next_shred_index, stats: plan.stats }
                }
                Action::StoreFirstShred(shred) => {
                    self.blockstore.insert_shreds(vec![shred]);
                    Event::Done
                }
                Action::Send { to, shreds, batch_info } => {
                    if self.send(to, (shreds, Some(batch_info))) {
                        Event::Done
                    } else {
                        Event::SendFailed
                    }
                }
                Action::MeasureTimings => {
                    let timings = BatchTimings {
                        shredding_elapsed: 1,
                        get_leader_schedule_elapsed: 2,
                        coding_send_elapsed: 3,
                    };
                    assert!(run.process_shreds_stats.fits(&processing.batch_stats(&timings)));
                    Event::Timings(timings)
                }
                Action::Complete => return true,
                Action::Abort => return false,
            };
            assert!(processing.expects(&event));
            action = run.step(&mut processing, event);
        }
    }

    fn transmit(&mut self, run: &mut StandardBroadcastRun) {
        if let Some((shreds, batch_info)) = self.socket.pop_front() {
            if run.peers_are_due(1_600_000_000_000) {
                let peer = ContactInfo { id: [1; 32], tvu_ip: vec![127, 0, 0, 1], tvu_port: 8001 };
                run.set_peers(vec![peer], vec![(10, 0)]);
            }
            run.finish_broadcast(Some(TransmitShredsStats::start()), 5, 6, &shreds, &batch_info);
        }
    }

    fn record(&mut self, run: &mut StandardBroadcastRun) {
        if let Some((shreds, batch_info)) = self.record.pop_front() {
            self.blockstore.insert_shreds(shreds_to_store(&shreds));
            let elapsed = Elapsed { secs: 0, subsec_nanos: 4_000 };
            run.finish_insert(elapsed, &shreds, &batch_info);
        }
    }

    fn test_process_receive_results(
        &mut self,
        run: &mut StandardBroadcastRun,
        entries: &[Tick],
        results: ReceiveResults,
    ) -> bool {
        if !self.process(run, entries, results) {
            return false;
        }
        //data
        self.transmit(run);
        self.record(run);
        //coding
        self.transmit(run);
        self.record(run);
        true
    }
}

fn bank(slot: u64, parent_slot: u64, ticks_per_slot: u64) -> BankState {
    BankState {
        slot,
        parent_slot,
        ticks_per_slot,
        tick_height: parent_slot * ticks_per_slot,
        max_tick_height: (slot + 1) * ticks_per_slot,
    }
}

fn receive_results(secs: u64, bank: BankState, last_tick_height: u64) -> ReceiveResults {
    ReceiveResults { time_elapsed: Elapsed { secs, subsec_nanos: 0 }, bank, last_tick_height }
}

fn setup(num_shreds_per_slot: u64) -> (World, u64, StandardBroadcastRun) {
    let ticks_per_slot = max_ticks_per_n_shreds(num_shreds_per_slot) + 1;
    let run = StandardBroadcastRun::new(Arc::new(Keypair::new()), 0);
    (World::default(), ticks_per_slot, run)
}

#[test]
fn test_interrupted_slot_last_shred() {
    let keypair = Arc::new(Keypair::new());
    let mut run = StandardBroadcastRun::new(keypair.clone(), 0);

    // Set up the slot to be interrupted
    let next_shred_index = 10;
    let slot = 1;
    let parent = 0;
    run.unfinished_slot = Some(UnfinishedSlotInfo {
        next_shred_index,
        slot,
        parent,
        data_shreds_buffer: Vec::default(),
        fec_set_offset: next_shred_index,
    });
    run.slot_broadcast_start = Some(Instant::now());

    // Set up a slot to interrupt the old slot
    run.current_slot_and_parent = Some((4, 2));

    // Slot 2 interrupted slot 1
    let header = run.finish_prev_slot(0).expect("Expected a shred that signals an interrupt");
    let payload = make_last_shred(&keypair, &header);
    let shred = run.unfinished_slot.as_ref().unwrap().closing_shred(payload);

    // Validate the shred
    assert_eq!(header.slot - u64::from(header.parent_offset), parent);
    assert_eq!(shred.slot, slot);
    assert_eq!(shred.index, next_shred_index);
    assert!(shred.is_data);
    assert!(verify(&shred, &keypair));
    assert!(header.is_last_in_slot);
    assert_eq!(header.fec_set_offset, next_shred_index);
    assert_eq!(header.reference_tick, 0);
    assert_eq!(header.version, 0);
}

#[test]
fn test_slot_interrupt() {
    // Setup
    let num_shreds_per_slot = 2;
    let (mut world, ticks_per_slot, mut run) = setup(num_shreds_per_slot);
    let bank0 = bank(0, 0, ticks_per_slot);

    // Insert 1 less than the number of ticks needed to finish the slot
    let ticks0 = create_ticks(ticks_per_slot - 1);
    let results = receive_results(3, bank0, (ticks0.len() - 1) as u64);

    // Step 1: Make an incomplete transmission for slot 0
    assert!(world.test_process_receive_results(&mut run, &ticks0, results));
    let unfinished_slot = run.unfinished_slot.as_ref().unwrap();
    assert_eq!(unfinished_slot.next_shred_index as u64, num_shreds_per_slot);
    assert_eq!(unfinished_slot.slot, 0);
    assert_eq!(unfinished_slot.parent, 0);
    // Make sure the slot is not complete
    assert!(!world.blockstore.is_full(0));
    let interrupted_slot = unfinished_slot.slot;
    // Modify the stats, should reset later
    run.process_shreds_stats.receive_elapsed = 10;
    // Broadcast stats should exist, and 2 batches should have been sent,
    // one for data, one for coding
    assert_eq!(run.transmit_shreds_stats.get(interrupted_slot).unwrap().num_batches(), 2);
    assert_eq!(run.insert_shreds_stats.get(interrupted_slot).unwrap().num_batches(), 2);
    // Try to fetch ticks from blockstore, nothing should break
    assert_eq!(world.blockstore.get_slot_entries(0, 0), ticks0);
    assert_eq!(
        world.blockstore.get_slot_entries(0, num_shreds_per_slot),
        Vec::<Tick>::new(),
    );

    // Step 2: Make a transmission for another bank that interrupts the transmission for
    // slot 0
    let bank2 = bank(2, 0, ticks_per_slot);
    // Interrupting the slot should cause the unfinished_slot and stats to reset
    let num_shreds = 1;
    assert!(num_shreds < num_shreds_per_slot);
    let ticks1 = create_ticks(max_ticks_per_n_shreds(num_shreds));
    let results = receive_results(2, bank2, (ticks1.len() - 1) as u64);
    assert!(world.test_process_receive_results(&mut run, &ticks1, results));
    let unfinished_slot = run.unfinished_slot.as_ref().unwrap();

    // The shred index should have reset to 0, which makes it possible for the
    // index < the previous shred index for slot 0
    assert_eq!(unfinished_slot.next_shred_index as u64, num_shreds);
    assert_eq!(unfinished_slot.slot, 2);
    assert_eq!(unfinished_slot.parent, 0);

    // Check that the stats were reset as well
    assert_eq!(run.process_shreds_stats.receive_elapsed, 0);

    // Broadcast stats for interrupted slot should be cleared
    assert!(run.transmit_shreds_stats.get(interrupted_slot).is_none());
    assert!(run.insert_shreds_stats.get(interrupted_slot).is_none());

    // Try to fetch the incomplete ticks from blockstore, should succeed
    assert_eq!(world.blockstore.get_slot_entries(0, 0), ticks0);
    assert_eq!(
        world.blockstore.get_slot_entries(0, num_shreds_per_slot),
        Vec::<Tick>::new(),
    );

    // The interrupted slot was reported, and its last shred closes it in the ledger.
    assert_eq!(world.reports.len(), 1);
    assert_eq!(world.reports[0].slot, 0);
    assert_eq!(world.reports[0].num_data_shreds as u64, num_shreds_per_slot);
    assert_eq!(world.reports[0].stats.receive_elapsed, 10);
    assert!(world.blockstore.is_full(0));
}

#[test]
fn test_buffer_data_shreds() {
    let num_shreds_per_slot = 2;
    let (mut world, ticks_per_slot, mut run) = setup(num_shreds_per_slot);
    let bank = bank(0, 0, ticks_per_slot);
    let mut last_tick_height = 0;
    let mut process_ticks = |world: &mut World, num_ticks: u64| {
        let ticks = create_ticks(num_ticks);
        last_tick_height += (ticks.len() - 1) as u64;
        let results = receive_results(1, bank, last_tick_height);
        assert!(world.process(&mut run, &ticks, results));
    };
    for i in 0..3 {
        process_ticks(&mut world, (i + 1) * 100);
    }
    let mut shreds = Vec::<Shred>::new();
    while let Some((recv_shreds, _)) = world.record.pop_front() {
        shreds.extend(recv_shreds.iter().cloned());
    }
    assert!(shreds.len() < 32, "shreds.len(): {}", shreds.len());
    assert!(shreds.iter().all(|shred| shred.is_data));
    process_ticks(&mut world, 75);
    while let Some((recv_shreds, _)) = world.record.pop_front() {
        shreds.extend(recv_shreds.iter().cloned());
    }
    assert!(shreds.len() > 64, "shreds.len(): {}", shreds.len());
    let num_coding_shreds = shreds.iter().filter(|shred| !shred.is_data).count();
    assert_eq!(num_coding_shreds, 32, "num coding shreds: {}", num_coding_shreds);
    // One data shred waits for the next set.
    assert_eq!(run.unfinished_slot.as_ref().unwrap().data_shreds_buffer.len(), 1);
    assert_eq!(run.unfinished_slot.as_ref().unwrap().data_shreds_buffer[0].index, 32);
}

#[test]
fn test_slot_finish() {
    // Setup
    let num_shreds_per_slot = 2;
    let (mut world, ticks_per_slot, mut run) = setup(num_shreds_per_slot);
    let bank0 = bank(0, 0, ticks_per_slot);

    // Insert complete slot of ticks needed to finish the slot
    let ticks = create_ticks(ticks_per_slot);
    let results = receive_results(3, bank0, ticks.len() as u64);

    assert!(world.test_process_receive_results(&mut run, &ticks, results));
    assert!(run.unfinished_slot.is_none());

    assert!(world.blockstore.is_full(0));
    assert_eq!(world.blockstore.get_slot_entries(0, 0), ticks);
    assert_eq!(world.reports.len(), 1);
    assert_eq!(world.reports[0].stats.shredding_elapsed, 1);
    assert_eq!(world.reports[0].stats.get_leader_schedule_elapsed, 2);
    assert_eq!(world.reports[0].stats.coding_send_elapsed, 3);
    assert_eq!(run.process_shreds_stats.shredding_elapsed, 0);
    assert!(run.transmit_shreds_stats.get(0).is_none());
    assert!(run.insert_shreds_stats.get(0).is_none());
}

#[test]
fn every_channel_gets_the_same_batches_in_order() {
    let (mut world, ticks_per_slot, mut run) = setup(2);
    let ticks = create_ticks(30);
    assert!(world.process(&mut run, &ticks, receive_results(1, bank(3, 1, ticks_per_slot), 1)));
    assert!(world.process(&mut run, &ticks, receive_results(1, bank(3, 1, ticks_per_slot), 2)));
    assert!(world.process(&mut run, &ticks, receive_results(1, bank(5, 3, ticks_per_slot), 264)));
    let infos: Vec<(u64, Option<usize>, usize)> = world
        .socket
        .iter()
        .map(|(shreds, info)| (info.unwrap().slot, info.unwrap().num_expected_batches, shreds.len()))
        .collect();
    // Two data shreds in each batch; slot 3 is closed by one data and five coding shreds.
    assert_eq!(
        infos,
        vec![
            (3, None, 2),
            (3, None, 0),
            (3, None, 2),
            (3, None, 0),
            (3, Some(5), 6),
            (5, Some(2), 2),
            (5, Some(2), 2),
        ]
    );
    let closing = &world.socket[4].0;
    assert!(closing[0].is_data && closing[0].index == 4 && closing[0].slot == 3);
    assert!(closing[1..].iter().all(|shred| !shred.is_data));
    let socket: Vec<Vec<u8>> = world
        .socket
        .iter()
        .flat_map(|(shreds, _)| shreds.iter().map(|shred| shred.payload.to_vec()))
        .collect();
    let record: Vec<Vec<u8>> = world
        .record
        .iter()
        .flat_map(|(shreds, _)| shreds.iter().map(|shred| shred.payload.to_vec()))
        .collect();
    assert_eq!(socket, record);
    // Indices go on within a slot and begin again with the next.
    let starts: Vec<u32> = world.plans.iter().map(|plan| plan.next_shred_index).collect();
    assert_eq!(starts, vec![0, 2, 0]);
}

/// The indices of the data shreds that are coded of a slot whose batches have so many data shreds.
fn coded_indices(batches: &[u64], is_finished: bool) -> Vec<u32> {
    let (_, _, mut run) = setup(2);
    let mut world = World::default();
    for (i, num_shreds) in batches.iter().enumerate() {
        let is_last = is_finished && i + 1 == batches.len();
        let last_tick_height = if is_last { 2_000 } else { 1 };
        let results = receive_results(1, bank(1, 0, 1_000), last_tick_height);
        let ticks = create_ticks(max_ticks_per_n_shreds(*num_shreds));
        assert!(world.process(&mut run, &ticks, results));
    }
    world.coded.iter().flatten().copied().collect()
}

#[test]
fn coding_does_not_depend_on_batching() {
    let two_sets: Vec<u32> = (0..64).collect();
    assert_eq!(coded_indices(&[70], false), two_sets);
    assert_eq!(coded_indices(&[10, 30, 1, 29], false), two_sets);
    assert_eq!(coded_indices(&[31], false), Vec::<u32>::new());
    let all: Vec<u32> = (0..70).collect();
    assert_eq!(coded_indices(&[70], true), all);
    assert_eq!(coded_indices(&[40, 5, 25], true), all);
}

#[test]
fn buffer_follows_the_indices() {
    let (mut world, _, mut run) = setup(2);
    // The sets of the slot begin at index three.
    let keypair = run.keypair.clone();
    let stored: Vec<Shred> =
        (0..3).map(|index| signed(&keypair, 1, index, true, 0, &[])).collect();
    world.blockstore.insert_shreds(stored);
    for (num_shreds, next_shred_index, left) in
        [(10, 13, 10), (21, 34, 31), (1, 35, 0), (70, 105, 6)]
    {
        let ticks = create_ticks(max_ticks_per_n_shreds(num_shreds));
        assert!(world.process(&mut run, &ticks, receive_results(1, bank(1, 0, 1_000), 1)));
        let unfinished_slot = run.unfinished_slot.as_ref().unwrap();
        assert_eq!(unfinished_slot.next_shred_index, next_shred_index);
        assert_eq!(unfinished_slot.fec_set_offset, 3);
        assert_eq!(unfinished_slot.data_shreds_buffer.len(), left);
    }
}

#[test]
fn every_data_shred_is_stored_once() {
    let (mut world, _, mut run) = setup(2);
    let ticks = create_ticks(max_ticks_per_n_shreds(5));
    for stored in [5, 10] {
        assert!(world.process(&mut run, &ticks, receive_results(1, bank(1, 0, 1_000), 1)));
        // The data batch, and an empty coding batch.
        world.record(&mut run);
        world.record(&mut run);
        assert_eq!(world.blockstore.insertions, stored);
        assert_eq!(world.blockstore.consumed(1), Some(stored as u64));
    }
}

#[test]
fn interrupted_slot_is_coded_whole() {
    let (mut world, _, mut run) = setup(2);
    let ticks = create_ticks(max_ticks_per_n_shreds(40));
    assert!(world.process(&mut run, &ticks, receive_results(1, bank(1, 0, 1_000), 1)));
    assert!(world.process(&mut run, &[], receive_results(1, bank(2, 1, 1_000), 1)));
    // 40 data shreds and the one that closes the slot; nothing of the interrupting slot.
    assert_eq!(world.coded[0], (0..32).collect::<Vec<u32>>());
    assert_eq!(world.coded[1], (32..41).collect::<Vec<u32>>());
    assert_eq!(world.coded[2], Vec::<u32>::new());
}

#[test]
fn figures_are_held_only_while_a_slot_is_under_way() {
    let (mut world, ticks_per_slot, mut run) = setup(2);
    let ticks = create_ticks(5);
    assert_eq!(run.process_shreds_stats, ProcessShredsStats::zero());
    assert!(world.process(&mut run, &ticks, receive_results(1, bank(1, 0, ticks_per_slot), 1)));
    assert_ne!(run.process_shreds_stats, ProcessShredsStats::zero());
    let last = receive_results(1, bank(1, 0, ticks_per_slot), 2 * ticks_per_slot);
    assert!(world.process(&mut run, &ticks, last));
    assert!(run.unfinished_slot.is_none());
    assert_eq!(run.process_shreds_stats, ProcessShredsStats::zero());
}

#[test]
fn failed_send_gives_the_batch_up() {
    let (mut world, ticks_per_slot, mut run) = setup(2);
    let ticks = create_ticks(30);
    let results = receive_results(1, bank(1, 0, ticks_per_slot), 1);
    // The data shreds reach the socket and not the ledger.
    world.sends_left = Some(1);
    assert!(!world.process(&mut run, &ticks, results));
    let unfinished_slot = run.unfinished_slot.as_ref().unwrap();
    assert_eq!(unfinished_slot.data_shreds_buffer.len(), 2);
    assert_eq!(unfinished_slot.next_shred_index, 2);
    assert_eq!(run.num_batches, 2);
    assert_eq!(run.process_shreds_stats.shredding_elapsed, 0);
    // The next batch goes on with what is buffered.
    world.sends_left = None;
    assert!(world.process(&mut run, &ticks, results));
    assert_eq!(run.unfinished_slot.as_ref().unwrap().data_shreds_buffer.len(), 4);
    assert_eq!(run.num_batches, 4);
    assert_eq!(world.plans[1].next_shred_index, 2);
}

#[test]
fn ledger_tells_where_a_slot_goes_on() {
    let (mut world, ticks_per_slot, mut run) = setup(2);
    let keypair = run.keypair.clone();
    let stored: Vec<Shred> =
        (0..3).map(|index| signed(&keypair, 7, index, true, 0, &[])).collect();
    world.blockstore.insert_shreds(stored);
    let results = receive_results(1, bank(7, 6, ticks_per_slot), 1);
    assert!(world.process(&mut run, &create_ticks(5), results));
    assert_eq!(world.plans[0].next_shred_index, 3);
    assert_eq!(world.plans[0].fec_set_offset, 3);
    assert_eq!(world.plans[0].parent_slot, 6);
    let unfinished_slot = run.unfinished_slot.as_ref().unwrap();
    assert_eq!(unfinished_slot.fec_set_offset, 3);
    assert_eq!(unfinished_slot.next_shred_index, 4);
    // A batch that does not begin with shred zero is stored when it is recorded.
    assert_eq!(world.blockstore.insertions, 3);
}

#[test]
fn first_shred_is_stored_before_it_is_sent() {
    let (mut world, ticks_per_slot, mut run) = setup(2);
    world.sends_left = Some(0);
    let results = receive_results(1, bank(1, 0, ticks_per_slot), 1);
    assert!(!world.process(&mut run, &create_ticks(30), results));
    assert_eq!(world.blockstore.insertions, 1);
    assert_eq!(world.blockstore.consumed(1), Some(1));
}

#[test]
fn receive_time_counts_from_the_second_batch_on() {
    let (mut world, ticks_per_slot, mut run) = setup(2);
    let results = receive_results(3, bank(1, 0, ticks_per_slot), 1);
    assert!(world.process(&mut run, &create_ticks(5), results));
    assert_eq!(run.process_shreds_stats.receive_elapsed, 0);
    assert!(world.process(&mut run, &create_ticks(5), results));
    assert_eq!(run.process_shreds_stats.receive_elapsed, 3_000_000);
    assert_eq!(run.process_shreds_stats.coding_send_elapsed, 6);
}

#[test]
fn ticks_are_cut_to_a_byte() {
    let keypair = Arc::new(Keypair::new());
    let mut run = StandardBroadcastRun::new(keypair, 9);
    let bank = BankState {
        slot: 70_001,
        parent_slot: 1,
        ticks_per_slot: 300,
        tick_height: 599,
        max_tick_height: 600,
    };
    let (processing, action) =
        run.process_receive_results(&receive_results(0, bank, 600), Instant::now());
    assert!(matches!(action, Action::ReadSlotMeta { slot: 70_001 }));
    assert!(matches!(processing.phase, Phase::SlotMeta));
    assert_eq!(processing.context.reference_tick, 43);
    assert!(processing.context.is_last_in_slot);
    assert_eq!(run.current_slot_and_parent, Some((70_001, 1)));

    run.unfinished_slot = Some(UnfinishedSlotInfo {
        next_shred_index: 6,
        slot: 70_000,
        parent: 1,
        data_shreds_buffer: Vec::new(),
        fec_set_offset: 2,
    });
    let header = run.finish_prev_slot(0xff).unwrap();
    assert_eq!(header.reference_tick, 0x3f);
    assert_eq!(u64::from(header.parent_offset), 69_999 % 65_536);
    assert_eq!(header.version, 9);
    assert_eq!(header.fec_set_offset, 2);
    run.current_slot_and_parent = Some((70_000, 1));
    assert!(run.finish_prev_slot(0xff).is_none());
    run.unfinished_slot = None;
    assert!(run.finish_prev_slot(0xff).is_none());
}

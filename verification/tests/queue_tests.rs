use spsc_queue::error::Error;
use spsc_queue::layout::{buffer_offset, calculate_buffer_size_in_items, is_power_of_two};
use spsc_queue::queue::{Consumer, Producer, SharedQueueHeader, SharedRegion};
use spsc_queue::HEADER_SIZE;

fn create_test_queue(buffer_len: usize) -> (Producer, Consumer, SharedRegion<u64>) {
    let region = SharedRegion::<u64>::create(buffer_len, 8, 8, 0).expect("Invalid buffer size");
    let producer = Producer::from_header(&region);
    let consumer = Consumer::from_header(&region);
    (producer, consumer, region)
}

#[test]
fn test_producer_consumer() {
    const ITEM_SIZE: usize = 8;
    const BUFFER_SIZE: usize = HEADER_SIZE + 1024 * ITEM_SIZE;
    let (mut producer, mut consumer, mut region) = create_test_queue(BUFFER_SIZE);

    let slot = producer.reserve().expect("Failed to reserve");
    region.write_slot(slot, 42);
    assert!(consumer.try_read().is_none()); // not committed yet
    producer.commit(&mut region);
    assert!(consumer.try_read().is_none()); // consumer has not synced yet
    consumer.sync(&region);
    let item = consumer.try_read().expect("Failed to read item");
    assert_eq!(region.read_slot(item), 42);
}

#[test]
fn header_size_matches_layout() {
    // two cache-line blocks for the cursors, one for the capacity word
    assert_eq!(HEADER_SIZE, 192);
}

#[test]
fn buffer_offset_rounds_header_up_to_alignment() {
    assert_eq!(buffer_offset(1), 192);
    assert_eq!(buffer_offset(8), 192);
    assert_eq!(buffer_offset(64), 192);
    assert_eq!(buffer_offset(128), 256);
}

#[test]
fn capacity_is_largest_fitting_power_of_two() {
    // 224 = 192 + 32 bytes: room for exactly four 8-byte slots
    assert_eq!(calculate_buffer_size_in_items(224, 8, 8), Ok(4));
    // five slots' room rounds down to four
    assert_eq!(calculate_buffer_size_in_items(232, 8, 8), Ok(4));
    // room for one slot only
    assert_eq!(calculate_buffer_size_in_items(200, 8, 8), Ok(1));
    // 1024 slots of 8 bytes behind the header
    assert_eq!(
        calculate_buffer_size_in_items(HEADER_SIZE + 1024 * 8, 8, 8),
        Ok(1024)
    );
}

#[test]
fn capacity_respects_alignment() {
    // alignment 64 leaves the header offset at 192
    assert_eq!(calculate_buffer_size_in_items(192 + 64, 64, 64), Ok(1));
    // alignment 128 pushes the buffer start to 256
    assert_eq!(
        calculate_buffer_size_in_items(256 + 128 * 2, 128, 128),
        Ok(2)
    );
    assert_eq!(
        calculate_buffer_size_in_items(192 + 128, 128, 128),
        Err(Error::InvalidBufferSize)
    );
}

#[test]
fn infeasible_sizes_are_rejected() {
    // smaller than the header
    assert_eq!(
        calculate_buffer_size_in_items(191, 8, 8),
        Err(Error::InvalidBufferSize)
    );
    // header fits but not one slot
    assert_eq!(
        calculate_buffer_size_in_items(199, 8, 8),
        Err(Error::InvalidBufferSize)
    );
    assert_eq!(
        calculate_buffer_size_in_items(0, 8, 8),
        Err(Error::InvalidBufferSize)
    );
}

#[test]
fn power_of_two_check() {
    assert!(is_power_of_two(1));
    assert!(is_power_of_two(2));
    assert!(is_power_of_two(1024));
    assert!(!is_power_of_two(0));
    assert!(!is_power_of_two(3));
    assert!(!is_power_of_two(1023));
}

#[test]
fn validate_rejects_bad_headers() {
    let good = SharedQueueHeader::initialize(4);
    assert_eq!(good.validate(224, 8), Ok(()));

    let mut zero = SharedQueueHeader::initialize(4);
    zero.buffer_size = 0;
    assert_eq!(zero.validate(224, 8), Err(Error::InvalidBufferSize));

    let mut odd = SharedQueueHeader::initialize(4);
    odd.buffer_size = 3;
    assert_eq!(odd.validate(224, 8), Err(Error::InvalidBufferSize));

    let too_big = SharedQueueHeader::initialize(8);
    assert_eq!(too_big.validate(224, 8), Err(Error::InvalidBufferSize));
}

#[test]
fn join_attaches_to_live_region() {
    let (mut producer, _consumer, mut region) = create_test_queue(224);
    let slot = producer.reserve().expect("Failed to reserve");
    region.write_slot(slot, 7);
    producer.commit(&mut region);

    // a late consumer seeds its caches from the header and sees the commit
    let mut late = Consumer::join(&region).expect("join failed");
    let item = late.try_read().expect("Failed to read item");
    assert_eq!(region.read_slot(item), 7);

    // a late producer picks up the published cursors as well
    let mut relaunched = Producer::join(&region).expect("join failed");
    assert!(relaunched.reserve().is_some());
}

#[test]
fn try_read_on_fresh_queue_is_empty() {
    let (_producer, mut consumer, region) = create_test_queue(224);
    assert!(consumer.try_read().is_none());
    consumer.sync(&region);
    assert!(consumer.try_read().is_none());
}

#[test]
fn full_after_capacity_reserves_and_free_after_finalize() {
    // capacity 4
    let (mut producer, mut consumer, mut region) = create_test_queue(224);

    for v in 0..4u64 {
        let slot = producer.reserve().expect("Failed to reserve");
        region.write_slot(slot, v);
        producer.commit(&mut region);
    }
    assert!(producer.reserve().is_none()); // full

    consumer.sync(&region);
    let item = consumer.try_read().expect("Failed to read item");
    assert_eq!(region.read_slot(item), 0);
    consumer.finalize(&mut region);

    producer.sync(&region);
    assert!(producer.reserve().is_some()); // one slot freed
    assert!(producer.reserve().is_none()); // and only one
}

#[test]
fn commit_then_sync_scenario() {
    // capacity = 4 slots of 8 bytes
    let (mut producer, mut consumer, mut region) = create_test_queue(224);

    let slot = producer.reserve().expect("Failed to reserve");
    region.write_slot(slot, 10);
    producer.commit(&mut region);
    let slot = producer.reserve().expect("Failed to reserve");
    region.write_slot(slot, 20);
    producer.commit(&mut region);

    consumer.sync(&region);
    let item = consumer.try_read().expect("Failed to read item");
    assert_eq!(region.read_slot(item), 10);
    let item = consumer.try_read().expect("Failed to read item");
    assert_eq!(region.read_slot(item), 20);
    assert!(consumer.try_read().is_none());

    consumer.finalize(&mut region);
    producer.sync(&region);

    // the two freed slots are reused
    let slot = producer.reserve().expect("Failed to reserve");
    region.write_slot(slot, 30);
    producer.commit(&mut region);
    let slot = producer.reserve().expect("Failed to reserve");
    region.write_slot(slot, 40);
    producer.commit(&mut region);
    // occupancy reaches 4 again: two more succeed, then full
    assert!(producer.reserve().is_some());
    assert!(producer.reserve().is_some());
    assert!(producer.reserve().is_none());
}

#[test]
fn fifo_order_survives_ring_wraparound() {
    // capacity 4; push the cursors through many turns of the ring
    let (mut producer, mut consumer, mut region) = create_test_queue(224);
    let mut next_write: u64 = 0;
    let mut next_read: u64 = 0;

    for _round in 0..10 {
        for _ in 0..3 {
            let slot = producer.reserve().expect("Failed to reserve");
            region.write_slot(slot, next_write);
            next_write += 1;
        }
        producer.commit(&mut region);
        consumer.sync(&region);
        for _ in 0..3 {
            let item = consumer.try_read().expect("Failed to read item");
            assert_eq!(region.read_slot(item), next_read);
            next_read += 1;
        }
        assert!(consumer.try_read().is_none());
        consumer.finalize(&mut region);
        producer.sync(&region);
    }
}

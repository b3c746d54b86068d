use venom_memory::layout::MAX_CMD_SIZE;
use venom_memory::mpsc_queue::{MpscConsumer, MpscProducer, MpscQueueHeader, SLOT_EMPTY, SLOT_READY};

#[test]
fn test_mpsc_basic() {
    let num_slots = 16;
    assert_eq!(MpscQueueHeader::size_for_slots(num_slots), 192 + 16 * 4160);
    let mut queue = MpscQueueHeader::init(num_slots);
    let producer = MpscProducer::new(1);
    let consumer = MpscConsumer::new();
    let cmd = b"test command";
    assert!(producer.try_push(&mut queue, cmd));
    let mut buf = [0u8; 256];
    let result = consumer.try_pop(&mut queue, &mut buf);
    assert!(result.is_some());
    let (client_id, len) = result.unwrap();
    assert_eq!(client_id, 1);
    assert_eq!(len, cmd.len());
    assert_eq!(&buf[..len], cmd);
}

#[test]
fn oversized_command_is_refused() {
    let mut queue = MpscQueueHeader::init(4);
    let producer = MpscProducer::new(3);
    let big = vec![1u8; MAX_CMD_SIZE + 1];
    assert!(!producer.try_push(&mut queue, &big));
    assert_eq!(queue.write_idx.0, 0);
    let fits = vec![2u8; MAX_CMD_SIZE];
    assert!(producer.try_push(&mut queue, &fits));
    let consumer = MpscConsumer::new();
    let mut buf = vec![0u8; MAX_CMD_SIZE];
    assert_eq!(consumer.pop(&mut queue, &mut buf), (3, MAX_CMD_SIZE));
    assert_eq!(buf, fits);
}

#[test]
fn fifo_order_across_wraparound() {
    let mut queue = MpscQueueHeader::init(3);
    let a = MpscProducer::new(1);
    let b = MpscProducer::new(2);
    let consumer = MpscConsumer::new();
    let mut buf = [0u8; 4];
    let mut expected = vec![(1u32, [255u8, 0])];
    assert!(a.try_push(&mut queue, &[255, 0]));
    for round in 0u8..20 {
        assert!(a.try_push(&mut queue, &[round, 0]));
        assert!(b.try_push(&mut queue, &[round, 1]));
        expected.push((1u32, [round, 0]));
        expected.push((2u32, [round, 1]));
        for _ in 0..2 {
            let (id, len) = consumer.pop(&mut queue, &mut buf);
            let (eid, edata) = expected.remove(0);
            assert_eq!((id, len), (eid, 2));
            assert_eq!(&buf[..2], &edata);
        }
    }
    while let Some((id, len)) = consumer.try_pop(&mut queue, &mut buf) {
        let (eid, edata) = expected.remove(0);
        assert_eq!((id, len), (eid, 2));
        assert_eq!(&buf[..2], &edata);
    }
    assert!(expected.is_empty());
    assert!(queue.slots.iter().all(|s| s.state == SLOT_EMPTY));
}

#[test]
fn short_buffer_gets_prefix_and_full_length() {
    let mut queue = MpscQueueHeader::init(2);
    let producer = MpscProducer::new(9);
    assert!(producer.try_push(&mut queue, b"abcdef"));
    assert_eq!(queue.slots[0].state, SLOT_READY);
    let consumer = MpscConsumer::new();
    let mut buf = [0u8; 2];
    assert_eq!(consumer.try_pop(&mut queue, &mut buf), Some((9, 6)));
    assert_eq!(&buf, b"ab");
    assert_eq!(queue.read_idx.0, 1);
}

#[test]
fn pop_with_spins_bounds_attempts() {
    let mut queue = MpscQueueHeader::init(2);
    let consumer = MpscConsumer::new();
    let mut buf = [0u8; 8];
    assert_eq!(consumer.pop_with_spins(&mut queue, &mut buf, 100), None);
    let producer = MpscProducer::new(4);
    producer.push(&mut queue, b"go");
    assert_eq!(consumer.pop_with_spins(&mut queue, &mut buf, 0), None);
    assert_eq!(consumer.pop_with_spins(&mut queue, &mut buf, 1), Some((4, 2)));
    assert_eq!(&buf[..2], b"go");
}

#[test]
fn full_queue_refuses_without_claiming() {
    let mut queue = MpscQueueHeader::init(1);
    let producer = MpscProducer::new(1);
    assert!(producer.try_push(&mut queue, b"x"));
    assert!(!producer.try_push(&mut queue, b"y"));
    assert!(!producer.try_push(&mut queue, b"y"));
    assert_eq!(queue.write_idx.0, 1);
}

#[test]
fn refused_push_leaves_every_slot() {
    let mut queue = MpscQueueHeader::init(2);
    let producer = MpscProducer::new(5);
    let big = vec![1u8; MAX_CMD_SIZE + 1];
    assert!(!producer.try_push(&mut queue, &big));
    assert!(queue.slots.iter().all(|s| s.state == SLOT_EMPTY && s.client_id == 0 && s.cmd_len == 0));
    assert!(producer.try_push(&mut queue, b"abc"));
    assert_eq!(queue.slots[0].state, SLOT_READY);
    assert_eq!(queue.slots[0].client_id, 5);
    assert_eq!(queue.slots[0].cmd_len, 3);
    assert_eq!(&queue.slots[0].cmd_data[..4], b"abc\0");
    assert_eq!(queue.slots[1].state, SLOT_EMPTY);
    assert_eq!(queue.write_idx.0, 1);
    let consumer = MpscConsumer::new();
    let mut buf = [0u8; 8];
    assert_eq!(consumer.try_pop(&mut queue, &mut buf), Some((5, 3)));
    assert_eq!(queue.slots[0].state, SLOT_EMPTY);
    assert_eq!(queue.slots[0].client_id, 5);
    assert_eq!(queue.read_idx.0, 1);
}

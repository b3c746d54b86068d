use venom_memory::seqlock::{SeqLockFrame, SeqLockHeader, SeqLockReader, SeqLockWriter};

#[test]
fn test_seqlock_basic() {
    let mut frame = SeqLockFrame::new(1024);
    let writer = SeqLockWriter::new();
    let reader = SeqLockReader::new();
    let test_data = b"Hello, SeqLock!";
    writer.write(&mut frame, test_data);
    let mut buf = [0u8; 64];
    let len = reader.read(&frame, &mut buf);
    assert_eq!(len, 64);
    assert_eq!(&buf[..test_data.len()], test_data);
}

#[test]
fn header_init_and_size() {
    let h = SeqLockHeader::init(333);
    assert_eq!(h.data_size(), 333);
    assert_eq!(h.sequence.0, 0);
}

#[test]
fn write_advances_sequence_by_two() {
    let mut frame = SeqLockFrame::new(16);
    let writer = SeqLockWriter::new();
    writer.write(&mut frame, b"abc");
    writer.write_with_len(&mut frame, b"abc");
    assert_eq!(frame.header.sequence.0, 4);
}

#[test]
fn overlong_write_is_truncated() {
    let mut frame = SeqLockFrame::new(8);
    let writer = SeqLockWriter::new();
    writer.write(&mut frame, b"0123456789");
    assert_eq!(frame.data, b"01234567".to_vec());
}

#[test]
fn short_write_keeps_tail() {
    let mut frame = SeqLockFrame::new(6);
    let writer = SeqLockWriter::new();
    writer.write(&mut frame, b"abcdef");
    writer.write(&mut frame, b"XY");
    assert_eq!(frame.data, b"XYcdef".to_vec());
}

#[test]
fn write_with_len_truncates_to_capacity() {
    let mut frame = SeqLockFrame::new(12);
    let writer = SeqLockWriter::new();
    let reader = SeqLockReader::new();
    writer.write_with_len(&mut frame, b"abcdefgh");
    assert_eq!(&frame.data[..8], &4u64.to_le_bytes());
    let mut buf = [0u8; 16];
    assert_eq!(reader.read_with_len(&frame, &mut buf), 4);
    assert_eq!(&buf[..4], b"abcd");
    assert_eq!(&buf[4..], &[0u8; 12]);
}

#[test]
fn read_with_len_reports_length_beyond_buffer() {
    let mut frame = SeqLockFrame::new(64);
    let writer = SeqLockWriter::new();
    let reader = SeqLockReader::new();
    writer.write_with_len(&mut frame, b"0123456789");
    let mut buf = [9u8; 4];
    assert_eq!(reader.read_with_len(&frame, &mut buf), 10);
    assert_eq!(&buf, b"0123");
}

#[test]
fn empty_write_with_len_reads_zero() {
    let mut frame = SeqLockFrame::new(16);
    let writer = SeqLockWriter::new();
    let reader = SeqLockReader::new();
    writer.write_with_len(&mut frame, b"");
    let mut buf = [7u8; 4];
    assert_eq!(reader.read_with_len(&frame, &mut buf), 0);
    assert_eq!(buf, [7u8; 4]);
}

#[test]
fn try_read_during_publish_is_none() {
    let mut frame = SeqLockFrame::new(8);
    let writer = SeqLockWriter::new();
    let reader = SeqLockReader::new();
    writer.begin_write(&mut frame);
    let mut buf = [5u8; 8];
    assert_eq!(reader.try_read(&frame, &mut buf), None);
    assert_eq!(reader.begin_read(&frame), None);
    assert_eq!(buf, [5u8; 8]);
    writer.end_write(&mut frame);
    assert_eq!(reader.try_read(&frame, &mut buf), Some(8));
    assert_eq!(reader.begin_read(&frame), Some(2));
}

#[test]
fn validate_fails_after_intervening_publish() {
    let mut frame = SeqLockFrame::new(8);
    let writer = SeqLockWriter::new();
    let reader = SeqLockReader::new();
    let seq1 = reader.begin_read(&frame).unwrap();
    writer.write(&mut frame, b"new");
    assert!(!reader.validate_read(&frame, seq1));
    let seq2 = reader.begin_read(&frame).unwrap();
    assert!(reader.validate_read(&frame, seq2));
}

#[test]
fn tear_freedom_uniform_frames() {
    let mut frame = SeqLockFrame::new(256);
    let writer = SeqLockWriter::new();
    let reader = SeqLockReader::new();
    let mut buf = [0u8; 256];
    for i in 0u32..10000 {
        let v = (i % 256) as u8;
        writer.begin_write(&mut frame);
        assert_eq!(reader.try_read(&frame, &mut buf), None);
        writer.end_write(&mut frame);
        writer.write(&mut frame, &[v; 256]);
        assert_eq!(reader.read(&frame, &mut buf), 256);
        assert!(buf.iter().all(|b| *b == v));
    }
}

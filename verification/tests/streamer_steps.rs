use android_mic::ring::RingBuffer;
use android_mic::streamer::{SendStatus, Streamer, TransportKind, WriteError};

#[test]
fn empty_consumer_step_is_ok_zero_udp() {
    let mut rb = RingBuffer::new(1024);
    let mut s = Streamer::new(TransportKind::Udp, 500);
    let wire = s.stage(&mut rb);
    assert!(wire.is_empty());
    assert_eq!(s.settle(SendStatus::Sent(0)), Ok(0));
}

#[test]
fn empty_consumer_step_is_ok_zero_tcp() {
    let mut rb = RingBuffer::new(1024);
    let mut s = Streamer::new(TransportKind::Tcp, 500);
    let wire = s.stage(&mut rb);
    assert!(wire.is_empty());
    assert_eq!(s.settle(SendStatus::Sent(0)), Ok(0));
}

#[test]
fn udp_overfull_step_reports_moved_and_lost() {
    let mut rb = RingBuffer::new(1024);
    assert_eq!(rb.write(&[3u8; 600]), 600);
    let mut s = Streamer::new(TransportKind::Udp, 500);
    let wire = s.stage(&mut rb);
    assert_eq!(wire.len(), 500);
    assert_eq!(
        s.settle(SendStatus::Sent(500)),
        Err(WriteError::BufferOverfilled(500, 100))
    );
    // the overflow was discarded, not held for the next step
    assert_eq!(rb.available(), 0);
    let wire2 = s.stage(&mut rb);
    assert!(wire2.is_empty());
}

#[test]
fn udp_dropped_send_loses_exactly_that_chunk() {
    let mut rb = RingBuffer::new(1024);
    assert_eq!(rb.write(&[1u8; 300]), 300);
    let mut s = Streamer::new(TransportKind::Udp, 500);
    let wire = s.stage(&mut rb);
    assert_eq!(wire.len(), 300);
    assert_eq!(
        s.settle(SendStatus::Dropped),
        Err(WriteError::BufferOverfilled(0, 300))
    );
    // a later chunk is unaffected by the earlier failure
    assert_eq!(rb.write(&[2u8; 200]), 200);
    let wire2 = s.stage(&mut rb);
    assert_eq!(wire2, vec![2u8; 200]);
    assert_eq!(s.settle(SendStatus::Sent(200)), Ok(200));
}

#[test]
fn tcp_short_write_is_retried_not_lost() {
    let mut rb = RingBuffer::new(1024);
    let bytes: Vec<u8> = (0..100).map(|i| i as u8).collect();
    assert_eq!(rb.write(&bytes), 100);
    let mut s = Streamer::new(TransportKind::Tcp, 1000);
    let wire = s.stage(&mut rb);
    assert_eq!(wire, bytes);
    // the transport takes only 60 of the 100 bytes: a short write
    assert_eq!(s.settle(SendStatus::Sent(60)), Ok(60));
    // the next step stages exactly the unwritten remainder, before new bytes
    let wire2 = s.stage(&mut rb);
    assert_eq!(wire2, bytes[60..].to_vec());
    assert_eq!(s.settle(SendStatus::Sent(40)), Ok(40));
    // across both steps all 100 bytes were reported moved, none lost
    let wire3 = s.stage(&mut rb);
    assert!(wire3.is_empty());
}

#[test]
fn tcp_stages_at_most_its_limit() {
    let mut rb = RingBuffer::new(1024);
    assert_eq!(rb.write(&[9u8; 50]), 50);
    let mut s = Streamer::new(TransportKind::Tcp, 10);
    let wire = s.stage(&mut rb);
    assert_eq!(wire, vec![9u8; 10]);
    assert_eq!(rb.available(), 40);
    assert_eq!(s.settle(SendStatus::Sent(10)), Ok(10));
}

#[test]
fn fatal_error_carries_its_cause() {
    let mut rb = RingBuffer::new(64);
    rb.write(&[1, 2, 3]);
    let mut s = Streamer::new(TransportKind::Udp, 16);
    let _ = s.stage(&mut rb);
    assert_eq!(
        s.settle(SendStatus::Fatal(Some(104))),
        Err(WriteError::Io(Some(104)))
    );
}

use android_mic::ring::RingBuffer;

#[test]
fn fifo_round_trip() {
    let mut rb = RingBuffer::new(16);
    assert_eq!(rb.write(&[1, 2, 3]), 3);
    assert_eq!(rb.write(&[4, 5]), 2);
    let out = rb.read(16);
    assert_eq!(out, vec![1, 2, 3, 4, 5]);
    let again = rb.read(16);
    assert_eq!(again, Vec::<u8>::new());
}

#[test]
fn reads_preserve_order_across_calls() {
    let mut rb = RingBuffer::new(32);
    assert_eq!(rb.write(&[1, 2, 3, 4, 5, 6, 7, 8, 9, 10]), 10);
    assert_eq!(rb.read(3), vec![1, 2, 3]);
    assert_eq!(rb.read(3), vec![4, 5, 6]);
    assert_eq!(rb.write(&[11, 12]), 2);
    assert_eq!(rb.read(32), vec![7, 8, 9, 10, 11, 12]);
}

#[test]
fn write_rejects_excess_without_blocking() {
    let mut rb = RingBuffer::new(4);
    assert_eq!(rb.write(&[1, 2, 3, 4, 5, 6]), 4);
    // the rejected bytes were not retained
    assert_eq!(rb.read(10), vec![1, 2, 3, 4]);
    assert_eq!(rb.available(), 0);
}

#[test]
fn writes_crossing_capacity_accept_at_most_capacity() {
    let capacity = 1024;
    let mut rb = RingBuffer::new(capacity);
    let block = [7u8; 1000];
    let mut accepted = Vec::new();
    for _ in 0..4 {
        accepted.push(rb.write(&block));
    }
    // the write that crosses the boundary gets only the remaining free space,
    // later writes get nothing
    assert_eq!(accepted, vec![1000, 24, 0, 0]);
    assert_eq!(accepted.iter().sum::<usize>(), capacity);
    assert_eq!(rb.read(2000).len(), capacity);
}

#[test]
fn capacity_and_available_report_state() {
    let mut rb = RingBuffer::new(8);
    assert_eq!(rb.capacity(), 8);
    assert_eq!(rb.available(), 0);
    rb.write(&[9, 9, 9]);
    assert_eq!(rb.available(), 3);
    assert_eq!(rb.capacity(), 8);
}

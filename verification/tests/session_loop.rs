use android_mic::session::{Session, SessionStats};
use android_mic::streamer::{SendStatus, TransportKind, WriteError};

#[test]
fn loss_accounting_balances_under_backpressure() {
    let mut s = Session::new(1024, TransportKind::Udp, 500);
    assert_eq!(s.feed(&[5u8; 600]), 600);
    assert_eq!(s.enqueued, 600);
    let wire = s.begin_step();
    assert_eq!(wire.len(), 500);
    let stop = s.finish_step(SendStatus::Sent(500));
    assert!(!stop);
    // every enqueued byte is accounted exactly once
    assert_eq!(s.stats.moved, 500);
    assert_eq!(s.stats.lost, 100);
    assert_eq!(s.stats.moved + s.stats.lost, s.enqueued);
    assert_eq!(s.stats.iterations, 1);
}

#[test]
fn accounting_balances_across_many_steps() {
    let mut s = Session::new(64, TransportKind::Udp, 16);
    let mut total_accepted: u64 = 0;
    for round in 0..10u8 {
        total_accepted += s.feed(&[round; 24]) as u64;
        let wire = s.begin_step();
        let status = if round % 3 == 2 {
            SendStatus::Dropped
        } else {
            SendStatus::Sent(wire.len())
        };
        assert!(!s.finish_step(status));
    }
    // drain what is still buffered
    let wire = s.begin_step();
    assert!(!s.finish_step(SendStatus::Sent(wire.len())));
    assert_eq!(s.enqueued, total_accepted);
    assert_eq!(s.stats.moved + s.stats.lost, s.enqueued);
}

#[test]
fn feed_samples_encodes_before_enqueueing() {
    let mut s = Session::new(1024, TransportKind::Tcp, 512);
    assert_eq!(s.feed_samples(&[1, -2]), 4);
    let wire = s.begin_step();
    assert_eq!(wire, vec![1, 0, 0xfe, 0xff]);
    assert!(!s.finish_step(SendStatus::Sent(4)));
    assert_eq!(s.stats.moved, 4);
}

#[test]
fn fatal_error_stops_the_loop_and_freezes_counters() {
    let mut s = Session::new(256, TransportKind::Tcp, 128);
    assert_eq!(s.feed(&[1u8; 100]), 100);
    let wire = s.begin_step();
    assert_eq!(wire.len(), 100);
    assert!(!s.finish_step(SendStatus::Sent(100)));
    s.feed(&[2u8; 50]);
    let _ = s.begin_step();
    let stop = s.finish_step(SendStatus::Fatal(Some(111)));
    assert!(stop);
    assert_eq!(s.stats.moved, 100);
    assert_eq!(s.stats.lost, 0);
    assert_eq!(s.stats.iterations, 1);
}

#[test]
fn stop_signal_exits_within_one_iteration() {
    // the drive loop polls its control channel once per iteration; the signal
    // arrives while iteration 2 is underway, so exactly 2 iterations complete
    let mut s = Session::new(256, TransportKind::Udp, 64);
    let stop_after: u64 = 2;
    let mut polls: u64 = 0;
    loop {
        let stop_seen = polls >= stop_after;
        polls += 1;
        if stop_seen {
            break;
        }
        s.feed(&[7u8; 8]);
        let wire = s.begin_step();
        let stop = s.finish_step(SendStatus::Sent(wire.len()));
        if stop {
            break;
        }
    }
    assert_eq!(s.stats.iterations, stop_after);
    assert_eq!(s.stats.moved, 16);
    assert_eq!(s.stats.lost, 0);
}

#[test]
fn stats_report_guards_degenerate_cases() {
    let zero = SessionStats::new();
    assert_eq!(zero.success_percent(), 100);
    assert_eq!(zero.avg_moved_per_iteration(), 0);
    assert_eq!(zero.avg_lost_per_iteration(), 0);

    let mut st = SessionStats::new();
    assert!(!st.record(&Ok(600)));
    assert!(!st.record(&Err(WriteError::BufferOverfilled(500, 100))));
    assert!(st.record(&Err(WriteError::Io(None))));
    assert_eq!(st.iterations, 2);
    assert_eq!(st.moved, 1100);
    assert_eq!(st.lost, 100);
    assert_eq!(st.success_percent(), 1100 * 100 / 1200);
    assert_eq!(st.avg_moved_per_iteration(), 550);
    assert_eq!(st.avg_lost_per_iteration(), 50);
}

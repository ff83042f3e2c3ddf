use shc_core::transfer::{plan_chunks, TransferProgress};

#[test]
fn zero_byte_payload_is_complete_at_once() {
    let p = TransferProgress::new(0);
    assert_eq!(p.transferred, 0);
    assert_eq!(p.total_size, 0);
    assert!(p.is_complete());
    // No chunks exist for it, so no progress report beyond completion.
    let plan = plan_chunks(0, 65536);
    assert_eq!(plan.len(), 0);
}

#[test]
fn ten_megabytes_in_64k_chunks_reports_every_step() {
    let total: u64 = 10 * 1024 * 1024;
    let chunk: u64 = 64 * 1024;
    let plan = plan_chunks(total, chunk);
    assert_eq!(plan.len(), 160);
    for len in plan.iter() {
        assert_eq!(*len, chunk);
    }
    let mut progress = TransferProgress::new(total);
    let mut expected: u64 = 0;
    for len in plan.iter() {
        let reported = progress.record_chunk(*len);
        expected += chunk;
        assert_eq!(reported, expected);
    }
    assert_eq!(progress.transferred, 10_485_760);
    assert!(progress.is_complete());
}

#[test]
fn uneven_tail_chunk_completes_exactly() {
    let plan = plan_chunks(100_001, 1000);
    assert_eq!(plan.len(), 101);
    assert_eq!(plan[99], 1000);
    assert_eq!(plan[100], 1);
    let mut progress = TransferProgress::new(100_001);
    let mut last: u64 = 0;
    for len in plan.iter() {
        let reported = progress.record_chunk(*len);
        // Monotonically non-decreasing, never past the total.
        assert!(reported >= last);
        assert!(reported <= 100_001);
        last = reported;
    }
    assert_eq!(last, 100_001);
    assert!(progress.is_complete());
}

#[test]
fn overreported_chunks_clamp_at_the_declared_total() {
    let mut progress = TransferProgress::new(10);
    assert_eq!(progress.record_chunk(25), 10);
    assert_eq!(progress.transferred, 10);
    assert!(progress.is_complete());
    // Further chunks cannot push it past 100%.
    assert_eq!(progress.record_chunk(u64::MAX), 10);
    assert_eq!(progress.transferred, 10);
}

#[test]
fn unknown_size_download_reports_no_positions() {
    // A download without a declared content length runs with total 0: every
    // arriving chunk clamps to 0, as the original progress accounting did.
    let mut progress = TransferProgress::new(0);
    assert_eq!(progress.record_chunk(4096), 0);
    assert!(progress.is_complete());
}

use ross_eeprom::paged_write::PagedWrite;
use ross_eeprom::paged_write::WriteChunk;
use ross_eeprom::paged_write::WriteOutcome;
use ross_eeprom::paged_write::plan_write_chunks;

#[test]
fn plan_misaligned_address_test() {
    // page size 8, address 3, buffer length 10: a 5-byte partial first page,
    // then the remaining 5 bytes from the boundary at address 8
    let chunks = plan_write_chunks(3, 10, 8);

    assert_eq!(
        chunks,
        vec![
            WriteChunk { address: 3, start: 0, end: 5 },
            WriteChunk { address: 8, start: 5, end: 10 },
        ]
    );
}

#[test]
fn plan_aligned_address_test() {
    // page size 8, address 8, buffer length 9: one full page, then 1 byte
    let chunks = plan_write_chunks(8, 9, 8);

    assert_eq!(
        chunks,
        vec![
            WriteChunk { address: 8, start: 0, end: 8 },
            WriteChunk { address: 16, start: 8, end: 9 },
        ]
    );
}

#[test]
fn plan_exact_page_fill_test() {
    // a buffer that exactly fills to a page boundary has no trailing empty chunk
    let chunks = plan_write_chunks(0, 8, 8);

    assert_eq!(chunks, vec![WriteChunk { address: 0, start: 0, end: 8 }]);
}

#[test]
fn plan_single_byte_aligned_test() {
    let chunks = plan_write_chunks(16, 1, 8);

    assert_eq!(chunks, vec![WriteChunk { address: 16, start: 0, end: 1 }]);
}

#[test]
fn plan_empty_buffer_test() {
    let chunks = plan_write_chunks(5, 0, 8);

    assert!(chunks.is_empty());
}

#[test]
fn plan_misaligned_spanning_pages_test() {
    // address 3, length 14: 5 bytes to the boundary, a full page, then 1 byte
    let chunks = plan_write_chunks(3, 14, 8);

    assert_eq!(
        chunks,
        vec![
            WriteChunk { address: 3, start: 0, end: 5 },
            WriteChunk { address: 8, start: 5, end: 13 },
            WriteChunk { address: 16, start: 13, end: 14 },
        ]
    );
}

#[test]
fn paged_write_session_test() {
    let mut write = PagedWrite::new(3, 10, 8);

    // first chunk pending
    let c0 = write.pending().unwrap();
    assert_eq!(c0, WriteChunk { address: 3, start: 0, end: 5 });
    assert_eq!(write.persisted_up_to(), 0);

    // a busy bus leaves the same chunk pending, with no settle delay
    let settle = write.record(WriteOutcome::Busy);
    assert!(!settle);
    assert_eq!(write.pending().unwrap(), c0);

    // an accepted write advances and asks for the settle delay
    let settle = write.record(WriteOutcome::Accepted);
    assert!(settle);
    assert_eq!(write.persisted_up_to(), 5);

    let c1 = write.pending().unwrap();
    assert_eq!(c1, WriteChunk { address: 8, start: 5, end: 10 });

    let settle = write.record(WriteOutcome::Accepted);
    assert!(settle);
    assert_eq!(write.persisted_up_to(), 10);
    assert!(write.pending().is_none());
    assert!(!write.has_failed());
}

#[test]
fn paged_write_failure_aborts_test() {
    let mut write = PagedWrite::new(8, 9, 8);

    let settle = write.record(WriteOutcome::Accepted);
    assert!(settle);
    assert_eq!(write.persisted_up_to(), 8);

    // a hard failure aborts; the first page stays persisted, the rest is not
    let settle = write.record(WriteOutcome::Failed);
    assert!(!settle);
    assert!(write.has_failed());
    assert!(write.pending().is_none());
    assert_eq!(write.persisted_up_to(), 8);
}

//! Bounded capture of a stream.

use mutation_probe::capture::{drain_capped, CappedTail, ReadOutcome, CAPTURE_CAP};

/// The reads by which a stream hands out its bytes, piece by piece, up to and
/// with the empty one at its end.
fn reads_of(data: &[u8], piece: usize) -> Vec<ReadOutcome> {
    let mut reads: Vec<ReadOutcome> = data
        .chunks(piece)
        .map(|c| ReadOutcome::Filled(c.to_vec()))
        .collect();
    reads.push(ReadOutcome::Filled(Vec::new()));
    reads
}

#[test]
fn capped_drain_keeps_the_tail() {
    let data: Vec<u8> = (0..100_000u32).flat_map(|i| i.to_le_bytes()).collect();
    let out = drain_capped(&reads_of(&data, 65536), 1024);
    assert_eq!(out.len(), 1024);
    assert_eq!(
        out[..],
        data[data.len() - 1024..],
        "the TAIL survives the cap"
    );
    let small = drain_capped(&reads_of(b"abc", 65536), 1024);
    assert_eq!(small, b"abc");
}

#[test]
fn the_tail_does_not_depend_on_the_size_of_the_reads() {
    let data: Vec<u8> = (0..=255u8).cycle().take(5000).collect();
    for piece in [1, 7, 64, 100, 4999, 5000] {
        let out = drain_capped(&reads_of(&data, piece), 100);
        assert_eq!(out[..], data[4900..], "reads of {piece}");
    }
}

#[test]
fn a_failed_or_empty_read_ends_the_stream() {
    let failed = vec![
        ReadOutcome::Filled(b"ab".to_vec()),
        ReadOutcome::Failed,
        ReadOutcome::Filled(b"cd".to_vec()),
    ];
    assert_eq!(drain_capped(&failed, 10), b"ab");
    let ended = vec![
        ReadOutcome::Filled(b"ab".to_vec()),
        ReadOutcome::Filled(Vec::new()),
        ReadOutcome::Filled(b"cd".to_vec()),
    ];
    assert_eq!(drain_capped(&ended, 10), b"ab");
    assert_eq!(drain_capped(&Vec::new(), 10), b"");
}

#[test]
fn caps_at_the_edges() {
    let data = b"abcdef";
    assert_eq!(drain_capped(&reads_of(data, 2), 0), b"");
    assert_eq!(drain_capped(&reads_of(data, 2), 1), b"f");
    assert_eq!(drain_capped(&reads_of(data, 2), 6), data);
    assert_eq!(drain_capped(&reads_of(data, 2), usize::MAX), data);
    assert_eq!(CAPTURE_CAP, 4194304);
}

#[test]
fn a_capture_is_fed_read_by_read() {
    let mut capture = CappedTail::new(3);
    assert!(capture.feed(&ReadOutcome::Filled(b"abcde".to_vec())));
    assert!(capture.feed(&ReadOutcome::Filled(b"fg".to_vec())));
    assert!(!capture.feed(&ReadOutcome::Filled(Vec::new())));
    assert!(!capture.feed(&ReadOutcome::Failed));
    assert_eq!(capture.finish(), b"efg");
}

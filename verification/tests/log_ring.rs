use battery_logic::log_ring::owned::Ring as OwnedRing;
use battery_logic::Ring;

fn ring(cap: usize) -> Ring {
    Ring::from_buf(Box::leak(vec![0u8; cap].into_boxed_slice()))
}

fn collect(r: &Ring) -> Vec<u8> {
    let (a, b) = r.slices();
    [a, b].concat()
}

#[test]
fn log_ring_fresh_ring_snapshot_is_empty() {
    let r = OwnedRing::new(16);
    assert_eq!(r.snapshot(), Vec::<u8>::new());
}

#[test]
fn log_ring_write_below_capacity_preserves_order() {
    let mut r = OwnedRing::new(16);
    r.write(b"hello");
    r.write(b" world");
    assert_eq!(r.snapshot(), b"hello world");
}

#[test]
fn log_ring_fill_exactly_to_capacity_marks_wrapped() {
    let mut r = OwnedRing::new(8);
    r.write(b"abcdefgh");
    assert_eq!(r.snapshot(), b"abcdefgh");
    r.write(b"X");
    assert_eq!(r.snapshot(), b"bcdefghX");
}

#[test]
fn log_ring_wrap_around_mid_write_orders_oldest_first() {
    let mut r = OwnedRing::new(8);
    r.write(b"123456");
    r.write(b"ABCDEF");
    assert_eq!(r.snapshot(), b"56ABCDEF");
}

#[test]
fn log_ring_oversized_write_keeps_only_last_capacity_bytes() {
    let mut r = OwnedRing::new(8);
    r.write(b"earlier");
    r.write(b"AAAAAAAAAAAAXXYYZZWQ");
    assert_eq!(r.snapshot(), b"XXYYZZWQ");
}

#[test]
fn log_ring_snapshot_after_full_wrap_is_in_chronological_order() {
    let mut r = OwnedRing::new(4);
    for &b in b"abcdefgh" {
        r.write(&[b]);
    }
    assert_eq!(r.snapshot(), b"efgh");
}

#[test]
fn log_ring_write_split_exactly_at_boundary() {
    let mut r = OwnedRing::new(8);
    r.write(b"abcd");
    r.write(b"efgh");
    assert_eq!(r.snapshot(), b"abcdefgh");
    r.write(b"i");
    assert_eq!(r.snapshot(), b"bcdefghi");
}

#[test]
fn tests_fresh_ring_snapshot_is_empty() {
    let r = ring(16);
    assert_eq!(collect(&r), Vec::<u8>::new());
}

#[test]
fn tests_write_below_capacity_preserves_order() {
    let mut r = ring(16);
    r.write(b"hello");
    r.write(b" world");
    assert_eq!(collect(&r), b"hello world");
}

#[test]
fn tests_fill_exactly_to_capacity_marks_wrapped() {
    let mut r = ring(8);
    r.write(b"abcdefgh");
    assert_eq!(collect(&r), b"abcdefgh");
    r.write(b"X");
    assert_eq!(collect(&r), b"bcdefghX");
}

#[test]
fn tests_wrap_around_mid_write_orders_oldest_first() {
    let mut r = ring(8);
    r.write(b"123456");
    r.write(b"ABCDEF");
    assert_eq!(collect(&r), b"56ABCDEF");
}

#[test]
fn tests_oversized_write_keeps_only_last_capacity_bytes() {
    let mut r = ring(8);
    r.write(b"earlier");
    r.write(b"AAAAAAAAAAAAXXYYZZWQ");
    assert_eq!(collect(&r), b"XXYYZZWQ");
}

#[test]
fn tests_snapshot_after_full_wrap_is_in_chronological_order() {
    let mut r = ring(4);
    for &b in b"abcdefgh" {
        r.write(&[b]);
    }
    assert_eq!(collect(&r), b"efgh");
}

#[test]
fn tests_write_split_exactly_at_boundary() {
    let mut r = ring(8);
    r.write(b"abcd");
    r.write(b"efgh");
    assert_eq!(collect(&r), b"abcdefgh");
    r.write(b"i");
    assert_eq!(collect(&r), b"bcdefghi");
}

#[test]
fn capacity_is_what_was_asked_for() {
    let mut r = OwnedRing::new(5);
    assert_eq!(r.capacity(), 5);
    r.write(b"abcdefg");
    assert_eq!(r.capacity(), 5);
    assert_eq!(r.snapshot(), b"cdefg");
}

#[test]
fn pieces_and_the_whole_give_the_same_ring() {
    let mut pieces = ring(6);
    let mut whole = ring(6);
    pieces.write(b"abc");
    pieces.write(b"");
    pieces.write(b"defgh");
    whole.write(b"abcdefgh");
    assert_eq!(collect(&pieces), collect(&whole));
    assert_eq!(collect(&whole), b"cdefgh");
}

#[test]
fn storage_starts_out_forgotten() {
    let r = Ring::from_buf(Box::leak(vec![b'x'; 4].into_boxed_slice()));
    assert_eq!(collect(&r), Vec::<u8>::new());
}

#[test]
fn writing_nothing_changes_nothing() {
    let mut r = ring(4);
    r.write(b"abcdef");
    r.write(b"");
    assert_eq!(collect(&r), b"cdef");
    let mut owned = OwnedRing::new(4);
    owned.write(b"abcdef");
    owned.write(b"");
    assert_eq!(owned.snapshot(), b"cdef");
}

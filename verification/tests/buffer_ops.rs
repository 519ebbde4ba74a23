use tcp_proxy::buffer::Buffer;
use tcp_proxy::buffer::BUFFER_SIZE;

#[test]
fn fill_then_pending() {
    let mut b = Buffer::new();
    assert!(b.is_empty());
    assert_eq!(b.len(), 0);
    b.fill(b"hello");
    assert_eq!(b.pending(), b"hello");
    assert_eq!(b.len(), 5);
    assert!(!b.is_empty());
}

#[test]
fn consume_partial_keeps_order() {
    let mut b = Buffer::new();
    b.fill(b"abcdef");
    b.consume(2);
    assert_eq!(b.pending(), b"cdef");
    b.consume(0);
    assert_eq!(b.pending(), b"cdef");
    b.consume(4);
    assert_eq!(b.pending(), b"");
    assert!(b.is_empty());
}

#[test]
fn fill_at_capacity() {
    let mut b = Buffer::new();
    let big = vec![7u8; BUFFER_SIZE];
    b.fill(&big);
    assert_eq!(b.len(), BUFFER_SIZE);
    b.consume(BUFFER_SIZE);
    assert!(b.is_empty());
    b.fill(b"x");
    assert_eq!(b.pending(), b"x");
}

#[test]
fn fill_empty_slice() {
    let mut b = Buffer::new();
    b.fill(b"");
    assert!(b.is_empty());
}

use multi_effect::ring_buffer::RingBuffer;

#[test]
fn new_buffer_reads_zero() {
    let b = RingBuffer::new(4, 0.0f32);
    assert_eq!(b.capacity(), 4);
    for k in 1..=4 {
        assert_eq!(b.read_at(k), 0.0);
    }
}

#[test]
fn read_after_write_gives_the_sample_back() {
    let mut b = RingBuffer::new(3, 0i32);
    b.write(7);
    assert_eq!(b.read_at(1), 7);
    assert_eq!(b.read_at(2), 0);
    b.write(8);
    assert_eq!(b.read_at(1), 8);
    assert_eq!(b.read_at(2), 7);
}

#[test]
fn oldest_sample_falls_off_after_wrapping() {
    let mut b = RingBuffer::new(3, 0i32);
    for x in 1..=5 {
        b.write(x);
    }
    assert_eq!(b.read_at(1), 5);
    assert_eq!(b.read_at(2), 4);
    assert_eq!(b.read_at(3), 3);
}

#[test]
fn clear_silences_everything() {
    let mut b = RingBuffer::new(2, 0.0f32);
    b.write(0.5);
    b.write(0.25);
    b.clear(0.0);
    assert_eq!(b.read_at(1), 0.0);
    assert_eq!(b.read_at(2), 0.0);
    b.write(1.0);
    assert_eq!(b.read_at(1), 1.0);
}

#[test]
fn single_slot_buffer_holds_the_last_write() {
    let mut b = RingBuffer::new(1, 0u8);
    b.write(3);
    b.write(4);
    assert_eq!(b.read_at(1), 4);
}

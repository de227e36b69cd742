use dilay::delay_line::DelayLine;
use dilay::ring::CircularBuffer;

#[test]
fn test_default() {
    #[allow(unused_mut, unused_variables)]
    let mut delay_line: DelayLine<f32> = Default::default();
}

#[test]
fn test_delay() {
    let mut delay_line: DelayLine<f32> = DelayLine::new(12, 12, 0.);
    assert_eq!(delay_line.add_and_read(1.), 0.);
}

#[test]
fn default_line_delays_by_one() {
    let mut delay_line: DelayLine<f32> = Default::default();
    assert_eq!(delay_line.capacity(), 1);
    assert_eq!(delay_line.delay_length(), 1);
    assert_eq!(delay_line.add_and_read(0.5), 0.);
    assert_eq!(delay_line.add_and_read(0.25), 0.5);
}

#[test]
fn ring_returns_value_pushed_capacity_calls_ago() {
    let mut ring: CircularBuffer<u64> = CircularBuffer::new(3, 0);
    let inputs = [1u64, 2, 3, 4, 5, 6, 7];
    let mut outputs = Vec::new();
    for v in inputs {
        outputs.push(ring.push_pop(v));
    }
    // The first `capacity` calls drain the initial fill; from call 3 on,
    // call k returns the value pushed on call k - 3.
    assert_eq!(outputs, vec![0, 0, 0, 1, 2, 3, 4]);
}

#[test]
fn reallocating_delay_returns_fill_until_elapsed() {
    let mut ring: CircularBuffer<f32> = CircularBuffer::new(12, 0.);
    // Pushing a sample and reading immediately returns silence: the delay
    // of one full turn has not elapsed yet.
    assert_eq!(ring.push_pop(1.), 0.);
    for _ in 0..11 {
        assert_eq!(ring.push_pop(0.), 0.);
    }
    // Call 12 returns the value pushed twelve calls earlier, on call 0.
    assert_eq!(ring.push_pop(0.), 1.);
}

#[test]
fn resize_single_slot_to_three() {
    let mut ring: CircularBuffer<u64> = CircularBuffer::new(1, 0);
    ring.push_pop(2);
    // A single-slot buffer holding 2, resized to 3 slots with fill 3,
    // reads back as 2, 3, 3.
    ring.resize(3, 3);
    assert_eq!(ring.capacity(), 3);
    assert_eq!(ring.push_pop(0), 2);
    assert_eq!(ring.push_pop(0), 3);
    assert_eq!(ring.push_pop(0), 3);
}

#[test]
fn resize_shrink_drops_oldest_first() {
    let mut ring: CircularBuffer<u64> = CircularBuffer::new(3, 0);
    ring.push_pop(1);
    ring.push_pop(2);
    ring.push_pop(3);
    // Window is [1, 2, 3], oldest first; shrinking to 2 slots keeps the
    // newest two in order.
    ring.resize(2, 0);
    assert_eq!(ring.push_pop(0), 2);
    assert_eq!(ring.push_pop(0), 3);
}

#[test]
fn resize_grow_preserves_reads() {
    let mut resized: CircularBuffer<u64> = CircularBuffer::new(2, 0);
    let mut untouched: CircularBuffer<u64> = CircularBuffer::new(2, 0);
    for v in [5u64, 6, 7] {
        resized.push_pop(v);
        untouched.push_pop(v);
    }
    resized.resize(5, 9);
    // The first two reads after growing equal what the unresized ring
    // would have read, in the same order.
    assert_eq!(resized.push_pop(0), untouched.push_pop(0));
    assert_eq!(resized.push_pop(0), untouched.push_pop(0));
    // The grown tail is fill, not stale data.
    assert_eq!(resized.push_pop(0), 9);
}

#[test]
fn offset_delay_roundtrip() {
    let mut line: DelayLine<u64> = DelayLine::new(8, 3, 0);
    let mut outputs = Vec::new();
    for k in 1u64..=7 {
        outputs.push(line.add_and_read(k));
    }
    // With an offset of 3, the sample written at call k returns at call
    // k + 3; the first three calls return the fill value.
    assert_eq!(outputs, vec![0, 0, 0, 1, 2, 3, 4]);
}

#[test]
fn offset_shrink_returns_fill_never_newer_data() {
    let mut line: DelayLine<u64> = DelayLine::new(8, 4, 0);
    line.add_and_read(1);
    line.add_and_read(2);
    // Samples 1 and 2 are in flight, due in two and three calls. Shrinking
    // the offset to 1 makes the next reads hit slots that were already
    // drained and refilled with silence — never data newer than the delay.
    line.set_sample_delay(1);
    assert_eq!(line.add_and_read(3), 0);
    assert_eq!(line.add_and_read(4), 3);
    assert_eq!(line.add_and_read(5), 4);
}

#[test]
fn offset_clamped_to_capacity() {
    let mut line: DelayLine<u64> = DelayLine::new(4, 99, 0);
    assert_eq!(line.delay_length(), 4);
    line.set_sample_delay(2);
    assert_eq!(line.delay_length(), 2);
    line.set_sample_delay(77);
    assert_eq!(line.delay_length(), 4);
}

use rust_sampler::fixed::{FRAC_ONE, SAMPLE_ONE};
use rust_sampler::ring_buffer::RingBuffer;

/// A sample value in the library's fixed-point scale.
fn s(x: f32) -> i32 {
    (x * SAMPLE_ONE as f32) as i32
}

/// A read position in Q16.
fn pos(x: f32) -> u64 {
    (x * FRAC_ONE as f32) as u64
}

#[test]
// Tests basic push, pop, and put functionality
fn test1() {
    let mut buffer = RingBuffer::<f32>::new(5);
    buffer.reset();
    assert_eq!(buffer.capacity(), 5);
    buffer.push(0.1);
    assert_eq!(buffer.peek(), 0.1);
    buffer.put(0.3);
    buffer.set_read_index(1);
    assert_eq!(buffer.pop(), 0.3);
    buffer.push(0.7);
    buffer.set_read_index(1);
    assert_eq!(buffer.pop(), 0.7);
    println!("Test 1 Passed!");
}

#[test]
// Tests getters and pushing and popping an incrementing value
fn test2() {
    let mut buffer = RingBuffer::<f32>::new(5);
    buffer.reset();
    for i in 0..4 {
        let value = i as f32 * 0.1;
        buffer.push(value);
        assert_eq!(buffer.get(i), value);
        assert_eq!(buffer.pop(), value);
        assert_eq!(buffer.get_read_index(), i + 1);
        assert_eq!(buffer.get_write_index(), i + 1);
    }
    assert_eq!(buffer.len(), 0);
    println!("Test 2 passed!");
}

#[test]
// Tests setters for values in and out of range
fn test3() {
    let mut buffer = RingBuffer::<f32>::new(5);
    buffer.reset();
    for i in 0..buffer.len() {
        buffer.set_read_index(i + 3);
        buffer.set_write_index(i + 4);
        buffer.put(0.1);
        if i > 0 {
            assert_eq!(buffer.peek(), 0.1);
        } else {
            assert_eq!(buffer.peek(), 0.0);
        }
        if i == 4 {
            assert_eq!(buffer.get(i), 0.1);
        } else {
            assert_eq!(buffer.get(i), 0.0);
        }
    }
    println!("Test 3 passed!");
}

#[test]
// Tests pushing with set + get for read and write index with int buffer and delay
fn test4() {
    let mut buffer = RingBuffer::<i32>::new(10);
    for i in 0..10 {
        buffer.push(i);
        if i == 0 {
            assert_eq!(buffer.peek(), i);
        } else if i < 5 {
            assert_eq!(buffer.peek(), Default::default());
        } else {
            assert_eq!(buffer.peek(), i - 5);
        }
        buffer.set_read_index(buffer.get_write_index() as usize + 5);
    }
    println!("Test 4 passed!");
}

#[test]
// Tests manual index setting and putting and peeking with int buffer
fn test5() {
    let mut buffer = RingBuffer::<i32>::new(10);
    buffer.reset();
    for i in 0..10 {
        buffer.set_write_index(i + 500);
        buffer.put(i as i32 + 500);
        assert_eq!(buffer.get_write_index(), (i + 500) % buffer.capacity());
        buffer.set_read_index(buffer.get_write_index() as usize);
        assert_eq!(buffer.peek(), i as i32 + 500);
    }
    println!("Test 5 passed!");
}

#[test]
fn frac_test() {
    let mut buffer = RingBuffer::<i32>::new(5);
    buffer.push(s(0.0));
    buffer.push(s(1.0));
    assert_eq!(buffer.get_frac(pos(0.5)), s(0.5));
    buffer.push(s(2.0));
    assert_eq!(buffer.get_frac(pos(1.5)), s(1.5));
    buffer.push(s(4.0));
    assert_eq!(buffer.get_frac(pos(2.5)), s(3.0));
}

#[test]
fn pop_frac_test() {
    let mut buffer = RingBuffer::<i32>::new(5);
    for i in 0..10 {
        buffer.push(s(i as f32));
        if i > 0 {
            assert_eq!(buffer.pop_frac(pos(0.5)), s(i as f32 - 0.5));
        }
    }
    buffer.reset();
    for i in 0..10 {
        if i > 2 {
            assert_eq!(buffer.pop_frac(pos(2.0)), s(i as f32 - 2.0))
        }
        buffer.push(s(i as f32));
    }
}

#[test]
fn whole_positions_read_like_get() {
    let mut buffer = RingBuffer::<i32>::new(7);
    for i in 0..7 {
        buffer.push(i * 1000 - 3000);
    }
    for n in 0..20u64 {
        assert_eq!(buffer.get_frac(n * FRAC_ONE), buffer.get(n as usize));
    }
}

#[test]
fn zero_lookback_reads_write_slot() {
    let mut buffer = RingBuffer::<i32>::new(4);
    for v in [11, 22, 33, 44, 55, 66] {
        buffer.push(v);
        let w = buffer.get_write_index();
        assert_eq!(buffer.pop_frac(0), buffer.get(w));
    }
    assert_eq!(buffer.pop_frac(0), 33);
}

#[test]
fn integer_reads_are_periodic() {
    let mut buffer = RingBuffer::<i32>::new(3);
    buffer.push(7);
    buffer.push(8);
    buffer.push(9);
    for offset in 0..10usize {
        assert_eq!(buffer.get(offset), buffer.get(offset + buffer.capacity()));
    }
    assert_eq!(buffer.get(4), 8);
}

#[test]
fn interpolation_between_negative_samples() {
    let mut buffer = RingBuffer::<i32>::new(2);
    buffer.push(-100);
    buffer.push(-300);
    // a quarter of the way from -100 to -300
    assert_eq!(buffer.get_frac(FRAC_ONE / 4), -150);
    // from the last slot back around to the first
    assert_eq!(buffer.get_frac(FRAC_ONE + FRAC_ONE / 2), -200);
}

#[test]
fn empty_buffer_is_silent() {
    let mut buffer = RingBuffer::<i32>::new(0);
    buffer.push(5);
    assert_eq!(buffer.capacity(), 0);
    assert_eq!(buffer.get(3), 0);
    assert_eq!(buffer.pop(), 0);
    assert_eq!(buffer.len(), 0);
    assert_eq!(buffer.get_frac(FRAC_ONE / 2), 0);
    assert_eq!(buffer.pop_frac(FRAC_ONE), 0);
    buffer.set_write_index(9);
    assert_eq!(buffer.get_write_index(), 0);
}

#[test]
fn len_counts_unread_values_across_the_wrap() {
    let mut buffer = RingBuffer::<i32>::new(4);
    buffer.set_read_index(3);
    buffer.set_write_index(1);
    assert_eq!(buffer.len(), 2);
    buffer.set_write_index(3);
    assert_eq!(buffer.len(), 0);
}

#[test]
fn resize_keeps_prefix_and_fills() {
    let mut buffer = RingBuffer::<i32>::new(2);
    buffer.push(1);
    buffer.push(2);
    buffer.resize(4, 9);
    assert_eq!(buffer.capacity(), 4);
    assert_eq!(buffer.get(1), 2);
    assert_eq!(buffer.get(2), 9);
    assert_eq!(buffer.get(3), 9);
    buffer.set_write_index(3);
    buffer.resize(2, 0);
    assert_eq!(buffer.get_write_index(), 1);
    assert_eq!(buffer.get(0), 1);
}

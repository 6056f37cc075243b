use compressor_core::ring_buffer::VariableRingBuffer;

fn window(ring: &VariableRingBuffer<f32>) -> Vec<f32> {
    let mut values = Vec::new();
    for i in 0..ring.size() {
        values.push(ring.get(i));
    }
    values
}

#[test]
fn test_ring() {
    let mut ring = VariableRingBuffer::new(10, 15, 0.0f32);
    for i in 0..35 {
        ring.push(i as f32)
    }
    for i in 0..ring.size() {
        println!("{}", ring.get(i));
    }
    println!("oldest {}", ring.oldest());
    println!("");
    ring.resize(15);
    for i in 100..200 {
        ring.push(i as f32)
    }
    println!("");
    for i in 0..ring.size() {
        println!("{}", ring.get(i));
    }
    println!("oldest {}", ring.oldest());
    ring.resize(8);
    for i in 200..300 {
        ring.push(i as f32)
    }
    println!("");
    for i in 0..ring.size() {
        println!("{}", ring.get(i));
    }
    println!("oldest {}", ring.oldest());
}

#[test]
fn ring_keeps_the_most_recent_values_across_resizes() {
    let mut ring = VariableRingBuffer::new(10, 15, 0.0f32);
    for i in 0..35 {
        ring.push(i as f32)
    }
    assert_eq!(ring.size(), 10);
    assert_eq!(
        window(&ring),
        vec![25.0, 26.0, 27.0, 28.0, 29.0, 30.0, 31.0, 32.0, 33.0, 34.0]
    );
    assert_eq!(ring.oldest(), 25.0);

    ring.resize(15);
    for i in 100..200 {
        ring.push(i as f32)
    }
    assert_eq!(ring.size(), 15);
    let expected: Vec<f32> = (185..200).map(|i| i as f32).collect();
    assert_eq!(window(&ring), expected);
    assert_eq!(ring.oldest(), 185.0);

    ring.resize(8);
    for i in 200..300 {
        ring.push(i as f32)
    }
    assert_eq!(ring.size(), 8);
    let expected: Vec<f32> = (292..300).map(|i| i as f32).collect();
    assert_eq!(window(&ring), expected);
    assert_eq!(ring.oldest(), 292.0);
}

#[test]
fn new_window_is_cleared() {
    let ring = VariableRingBuffer::new(4, 6, 0.0f32);
    assert_eq!(ring.size(), 4);
    assert_eq!(ring.max_size(), 6);
    assert_eq!(window(&ring), vec![0.0, 0.0, 0.0, 0.0]);
    assert_eq!(ring.oldest(), 0.0);
}

#[test]
fn new_clears_to_the_given_zero() {
    let ring = VariableRingBuffer::new(3, 3, -1i32);
    assert_eq!(ring.get(0), -1);
    assert_eq!(ring.get(1), -1);
    assert_eq!(ring.get(2), -1);
}

#[test]
fn new_cuts_the_window_to_the_capacity() {
    let ring = VariableRingBuffer::new(20, 6, 0u8);
    assert_eq!(ring.size(), 6);
    assert_eq!(ring.max_size(), 6);
}

#[test]
fn new_with_no_slots_is_empty() {
    let ring = VariableRingBuffer::new(0, 0, 0u8);
    assert_eq!(ring.size(), 0);
    assert_eq!(ring.max_size(), 0);
}

#[test]
fn push_overwrites_the_oldest_value() {
    let mut ring = VariableRingBuffer::new(3, 5, 0u32);
    ring.push(7);
    assert_eq!(ring.get(0), 0);
    assert_eq!(ring.get(1), 0);
    assert_eq!(ring.get(2), 7);
    ring.push(8);
    ring.push(9);
    assert_eq!(ring.oldest(), 7);
    assert_eq!(ring.get(0), 7);
    assert_eq!(ring.get(1), 8);
    assert_eq!(ring.get(2), 9);
    ring.push(10);
    assert_eq!(ring.oldest(), 8);
    assert_eq!(ring.get(2), 10);
    assert_eq!(ring.size(), 3);
}

#[test]
fn oldest_is_the_first_value_of_the_window() {
    let mut ring = VariableRingBuffer::new(4, 4, 0i64);
    for value in 1..=9 {
        ring.push(value);
        assert_eq!(ring.oldest(), ring.get(0));
    }
    assert_eq!(ring.oldest(), 6);
}

#[test]
fn window_of_one_holds_the_last_value() {
    let mut ring = VariableRingBuffer::new(1, 8, 0u16);
    ring.push(3);
    assert_eq!(ring.oldest(), 3);
    ring.push(4);
    assert_eq!(ring.oldest(), 4);
    assert_eq!(ring.get(0), 4);
}

#[test]
fn resize_clears_every_slot() {
    let mut ring = VariableRingBuffer::new(5, 8, 0.0f32);
    for i in 0..13 {
        ring.push(1.0 + i as f32);
    }
    ring.resize(7);
    assert_eq!(ring.size(), 7);
    for i in 0..7 {
        assert_eq!(ring.get(i), 0.0);
    }
    assert_eq!(ring.oldest(), 0.0);
}

#[test]
fn resize_to_the_same_size_still_clears() {
    let mut ring = VariableRingBuffer::new(3, 3, 0u32);
    ring.push(1);
    ring.push(2);
    ring.resize(3);
    assert_eq!(ring.get(0), 0);
    assert_eq!(ring.get(1), 0);
    assert_eq!(ring.get(2), 0);
}

#[test]
fn resize_cuts_the_size_to_the_capacity() {
    let mut ring = VariableRingBuffer::new(2, 5, 0u32);
    ring.resize(1000);
    assert_eq!(ring.size(), 5);
    assert_eq!(ring.max_size(), 5);
    ring.resize(0);
    assert_eq!(ring.size(), 0);
    assert_eq!(ring.max_size(), 5);
}

#[test]
fn resize_starts_the_window_over() {
    let mut ring = VariableRingBuffer::new(4, 4, 0u32);
    ring.push(1);
    ring.push(2);
    ring.push(3);
    ring.resize(2);
    ring.push(9);
    assert_eq!(ring.get(0), 0);
    assert_eq!(ring.get(1), 9);
    ring.push(10);
    ring.push(11);
    assert_eq!(ring.get(0), 10);
    assert_eq!(ring.get(1), 11);
}

#[test]
fn wrap_period_follows_the_size() {
    let mut ring = VariableRingBuffer::new(2, 6, 0u32);
    for value in 1..=5 {
        ring.push(value);
    }
    assert_eq!(ring.get(0), 4);
    assert_eq!(ring.get(1), 5);
    ring.resize(6);
    for value in 1..=5 {
        ring.push(value);
    }
    assert_eq!(ring.get(0), 0);
    for i in 1..6 {
        assert_eq!(ring.get(i), i as u32);
    }
}

#[test]
fn constant_input_fills_the_window() {
    let mut ring = VariableRingBuffer::new(6, 6, 0.0f32);
    for i in 0..4 {
        ring.push(i as f32);
    }
    for _ in 0..6 {
        ring.push(0.5);
    }
    for i in 0..6 {
        assert_eq!(ring.get(i), 0.5);
    }
}

#[test]
fn set_window_keeps_the_request_within_one_and_the_capacity() {
    let mut ring = VariableRingBuffer::new(4, 10, 0u32);
    assert!(ring.set_window(7));
    assert_eq!(ring.size(), 7);
    assert!(ring.set_window(0));
    assert_eq!(ring.size(), 1);
    assert!(ring.set_window(11));
    assert_eq!(ring.size(), 10);
    assert!(!ring.set_window(5000));
    assert_eq!(ring.size(), 10);
}

#[test]
fn set_window_clears_when_the_length_changes() {
    let mut ring = VariableRingBuffer::new(3, 10, 0u32);
    ring.push(1);
    ring.push(2);
    ring.push(3);
    assert!(ring.set_window(4));
    for i in 0..4 {
        assert_eq!(ring.get(i), 0);
    }
}

#[test]
fn set_window_twice_is_set_window_once() {
    let mut ring = VariableRingBuffer::new(3, 10, 0u32);
    assert!(ring.set_window(5));
    ring.push(1);
    ring.push(2);
    assert!(!ring.set_window(5));
    assert_eq!(ring.size(), 5);
    assert_eq!(ring.get(3), 1);
    assert_eq!(ring.get(4), 2);
    assert_eq!(ring.oldest(), 0);
}

#[test]
fn set_window_on_a_store_without_slots_stays_empty() {
    let mut ring = VariableRingBuffer::new(0, 0, 0u32);
    assert!(!ring.set_window(3));
    assert_eq!(ring.size(), 0);
}

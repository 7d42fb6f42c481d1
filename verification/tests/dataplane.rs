use fastlane::dataplane::{MultiQueueGenerator, RingBuffer};

#[test]
fn test_ring_buffer_push_pop() {
    let mut rb = RingBuffer::new(4);
    assert!(rb.push(1));
    assert!(rb.push(2));
    assert_eq!(rb.pop(), Some(1));
    assert_eq!(rb.pop(), Some(2));
    assert_eq!(rb.pop(), None);
}

#[test]
fn test_ring_buffer_full() {
    let mut rb = RingBuffer::new(2);
    assert!(rb.push(10));
    assert!(rb.push(20));
    assert!(!rb.push(30)); // Ring full
}

#[test]
fn test_multi_queue_send() {
    let mut mg = MultiQueueGenerator::new(4, 8);
    assert!(mg.send(0, 1));
    assert!(mg.send(3, 4));
    assert!(!mg.send(5, 5)); // Queue 5 out of range
}

#[test]
fn ring_is_fifo_across_wraparound() {
    let mut rb = RingBuffer::new(3);
    assert!(rb.push(1));
    assert!(rb.push(2));
    assert_eq!(rb.pop(), Some(1));
    assert!(rb.push(3));
    assert!(rb.push(4));
    assert!(!rb.push(5));
    assert_eq!(rb.pop(), Some(2));
    assert_eq!(rb.pop(), Some(3));
    assert_eq!(rb.pop(), Some(4));
    assert_eq!(rb.pop(), None);
}

#[test]
fn full_ring_unchanged_by_push() {
    let mut rb = RingBuffer::new(1);
    assert!(rb.push(7));
    assert!(!rb.push(8));
    assert_eq!(rb.pop(), Some(7));
    assert_eq!(rb.pop(), None);
}

#[test]
fn zero_capacity_ring_refuses() {
    let mut rb = RingBuffer::new(0);
    assert!(!rb.push(1));
    assert_eq!(rb.pop(), None);
}

#[test]
fn multi_queue_keeps_queues_apart() {
    let mut mg = MultiQueueGenerator::new(2, 1);
    assert!(mg.send(0, 11));
    assert!(!mg.send(0, 12));
    assert!(mg.send(1, 21));
    assert_eq!(mg.queues[0].pop(), Some(11));
    assert_eq!(mg.queues[1].pop(), Some(21));
    assert_eq!(mg.queues.len(), 2);
}

#[test]
fn ring_indices_move() {
    let mut rb = RingBuffer::new(2);
    assert!(rb.push(5));
    assert_eq!((rb.head, rb.tail, rb.len), (0, 1, 1));
    assert!(rb.push(6));
    assert_eq!((rb.head, rb.tail, rb.len), (0, 0, 2));
    assert_eq!(rb.entries, vec![5, 6]);
    assert!(!rb.push(7));
    assert_eq!((rb.head, rb.tail, rb.len), (0, 0, 2));
    assert_eq!(rb.pop(), Some(5));
    assert_eq!((rb.head, rb.tail, rb.len), (1, 0, 1));
}

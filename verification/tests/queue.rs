use framesync::{fifo_round_trip, push_under_pressure, DecoderInputQueue, Frame, FrameResult, StreamError};

fn frame(tag: u8) -> FrameResult {
    Ok(Frame { data: vec![tag, tag, tag], pts: tag as u64, dts: tag as u64 })
}

fn tag_of(r: &FrameResult) -> u8 {
    match r {
        Ok(f) => f.data[0],
        Err(_) => panic!("expected a frame"),
    }
}

#[test]
fn fifo_order_is_kept() {
    // Push N items in order, pop them in order: the sequences agree.
    let (mut queue, mut producer) = DecoderInputQueue::new(8);
    for tag in 0..8u8 {
        assert!(producer.push(frame(tag), 4).is_none());
    }
    for tag in 0..8u8 {
        let item = queue.next(4).expect("item must be available");
        assert_eq!(tag_of(&item), tag);
        match item {
            Ok(f) => {
                assert_eq!(f.data, vec![tag, tag, tag]);
                assert_eq!(f.pts, tag as u64);
                assert_eq!(f.dts, tag as u64);
            }
            Err(_) => panic!("expected a frame"),
        }
    }
    assert!(queue.next(4).is_none());
}

#[test]
fn fifo_order_with_capacity_one() {
    let (mut queue, mut producer) = DecoderInputQueue::new(1);
    for tag in 0..5u8 {
        assert!(producer.push(frame(tag), 4).is_none());
        let item = queue.next(4).expect("item must be available");
        assert_eq!(tag_of(&item), tag);
    }
}

#[test]
fn full_queue_hands_the_item_back_intact() {
    // Pushing C+1 items before any pop: the last push cannot complete, but
    // the rejected item comes back unchanged, and completes as soon as one
    // pop has freed a slot.  Nothing is lost or reordered.
    let (mut queue, mut producer) = DecoderInputQueue::new(2);
    assert!(producer.push(frame(0), 4).is_none());
    assert!(producer.push(frame(1), 4).is_none());
    let back = producer.push(frame(2), 64).expect("the queue must stay full");
    assert_eq!(tag_of(&back), 2);
    match &back {
        Ok(f) => assert_eq!(f.data, vec![2, 2, 2]),
        Err(_) => panic!("expected a frame"),
    }
    assert_eq!(tag_of(&queue.next(4).unwrap()), 0);
    assert!(producer.push(back, 4).is_none());
    assert_eq!(tag_of(&queue.next(4).unwrap()), 1);
    assert_eq!(tag_of(&queue.next(4).unwrap()), 2);
    assert!(queue.next(4).is_none());
}

#[test]
fn in_band_error_keeps_its_position() {
    let (mut queue, mut producer) = DecoderInputQueue::new(4);
    assert!(producer.push(frame(0), 4).is_none());
    assert!(producer
        .push(Err(StreamError { message: String::from("decode fault") }), 4)
        .is_none());
    assert!(producer.push(frame(1), 4).is_none());
    assert_eq!(tag_of(&queue.next(4).unwrap()), 0);
    match queue.next(4).unwrap() {
        Ok(_) => panic!("expected the in-band error here"),
        Err(e) => assert_eq!(e.message, "decode fault"),
    }
    assert_eq!(tag_of(&queue.next(4).unwrap()), 1);
}

#[test]
fn fifo_round_trip_returns_the_pushed_sequence() {
    let (mut queue, mut producer) = DecoderInputQueue::new(4);
    let items = vec![frame(1), frame(2), frame(3)];
    let out = fifo_round_trip(&mut producer, &mut queue, items);
    assert_eq!(out.len(), 3);
    for (k, item) in out.iter().enumerate() {
        assert_eq!(tag_of(item), k as u8 + 1);
    }
}

#[test]
fn paired_push_reports_fullness_exactly() {
    let (mut queue, mut producer) = DecoderInputQueue::new(2);
    assert!(producer.push_now(&queue, frame(0)).is_none());
    assert!(producer.push_now(&queue, frame(1)).is_none());
    let back = producer.push_now(&queue, frame(2)).expect("the queue is full");
    assert_eq!(tag_of(&back), 2);
    let oldest = push_under_pressure(&mut producer, &mut queue, back);
    assert_eq!(tag_of(&oldest), 0);
    assert_eq!(tag_of(&queue.next_now(&producer).expect("two items left")), 1);
    assert_eq!(tag_of(&queue.next_now(&producer).expect("one item left")), 2);
    assert!(queue.next_now(&producer).is_none());
}

#[test]
fn empty_queue_yields_nothing_without_error() {
    let (mut queue, _producer) = DecoderInputQueue::new(3);
    assert!(queue.next(8).is_none());
}

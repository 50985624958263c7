use rnet::CapacityError;
use rnet::FixedAccumulator;

#[test]
fn append_accumulates_in_order() {
    let mut acc = FixedAccumulator::new(8);
    assert_eq!(acc.capacity(), 8);
    assert_eq!(acc.remaining(), 0);
    assert!(acc.append(&[1, 2, 3]).is_ok());
    assert!(acc.append(&[4, 5]).is_ok());
    assert_eq!(acc.remaining(), 5);
    for i in 0..5 {
        assert_eq!(acc.byte_at(i), (i + 1) as u8);
    }
}

#[test]
fn append_up_to_capacity_succeeds() {
    let mut acc = FixedAccumulator::new(4);
    assert!(acc.append(&[9, 8, 7, 6]).is_ok());
    assert_eq!(acc.remaining(), 4);
    assert_eq!(acc.byte_at(3), 6);
}

#[test]
fn append_past_capacity_is_rejected_whole() {
    let mut acc = FixedAccumulator::new(8);
    assert!(acc.append(&[1, 2, 3, 4, 5]).is_ok());
    let r = acc.append(&[6, 7, 8, 9]);
    assert_eq!(r, Err(CapacityError));
    assert_eq!(acc.remaining(), 5);
    assert_eq!(acc.byte_at(0), 1);
    assert_eq!(acc.byte_at(4), 5);
    assert!(acc.append(&[6, 7, 8]).is_ok());
    assert_eq!(acc.remaining(), 8);
}

#[test]
fn consume_front_shifts_down() {
    let mut acc = FixedAccumulator::new(16);
    acc.append(&[10, 20, 30, 40]).unwrap();
    acc.consume_front(2);
    assert_eq!(acc.remaining(), 2);
    assert_eq!(acc.peek_front(), Some(30));
    assert_eq!(acc.byte_at(1), 40);
    acc.consume_front(2);
    assert_eq!(acc.remaining(), 0);
    assert_eq!(acc.peek_front(), None);
}

#[test]
fn consume_then_append_reuses_space() {
    let mut acc = FixedAccumulator::new(4);
    acc.append(&[1, 2, 3, 4]).unwrap();
    acc.consume_front(3);
    assert!(acc.append(&[5, 6, 7]).is_ok());
    assert_eq!(acc.remaining(), 4);
    assert_eq!(acc.byte_at(0), 4);
    assert_eq!(acc.byte_at(1), 5);
    assert_eq!(acc.byte_at(2), 6);
    assert_eq!(acc.byte_at(3), 7);
}

#[test]
fn peek_on_empty_is_none() {
    let acc = FixedAccumulator::new(4);
    assert_eq!(acc.peek_front(), None);
}

#[test]
fn zero_capacity_rejects_every_byte() {
    let mut acc = FixedAccumulator::new(0);
    assert_eq!(acc.append(&[1]), Err(CapacityError));
    assert!(acc.append(&[]).is_ok());
    assert_eq!(acc.remaining(), 0);
}

use rnet::FixedAccumulator;
use rnet::LengthPrefixedDecoder;
use rnet::SizedFrameDecoder;
use rnet::dispatch_frames;

#[test]
fn exact_multiple_of_frame_size_drains_the_buffer() {
    let mut acc = FixedAccumulator::new(64);
    let mut dec = SizedFrameDecoder::new(4);
    acc.append(&[1, 2, 3, 4, 5, 6, 7, 8, 9, 10, 11, 12]).unwrap();
    let n = dispatch_frames(&mut acc, &mut dec);
    assert_eq!(n, 3);
    assert_eq!(dec.frames_handled, 3);
    assert_eq!(acc.remaining(), 0);
    assert_eq!(dec.bytes_seen, vec![1, 2, 3, 4, 5, 6, 7, 8, 9, 10, 11, 12]);
}

#[test]
fn remainder_stays_pending() {
    let mut acc = FixedAccumulator::new(64);
    let mut dec = SizedFrameDecoder::new(4);
    acc.append(&[1, 2, 3, 4, 5, 6, 7, 8, 9, 10, 11, 12, 13, 14]).unwrap();
    let n = dispatch_frames(&mut acc, &mut dec);
    assert_eq!(n, 3);
    assert_eq!(acc.remaining(), 2);
    assert_eq!(acc.peek_front(), Some(13));
    assert_eq!(acc.byte_at(1), 14);
}

#[test]
fn chunked_feeding_matches_feeding_whole() {
    let bytes: Vec<u8> = (1..=11).collect();
    let mut whole = FixedAccumulator::new(64);
    let mut dec_whole = SizedFrameDecoder::new(3);
    whole.append(&bytes).unwrap();
    let n_whole = dispatch_frames(&mut whole, &mut dec_whole);

    let mut chunked = FixedAccumulator::new(64);
    let mut dec_chunked = SizedFrameDecoder::new(3);
    let mut n_chunked = 0;
    for chunk in bytes.chunks(4) {
        chunked.append(chunk).unwrap();
        n_chunked += dispatch_frames(&mut chunked, &mut dec_chunked);
    }
    assert_eq!(n_whole, 3);
    assert_eq!(n_chunked, n_whole);
    assert_eq!(chunked.remaining(), whole.remaining());
    assert_eq!(dec_chunked.bytes_seen, dec_whole.bytes_seen);
}

#[test]
fn frame_size_zero_is_never_ready() {
    let mut acc = FixedAccumulator::new(8);
    let mut dec = SizedFrameDecoder::new(0);
    acc.append(&[1, 2, 3]).unwrap();
    let n = dispatch_frames(&mut acc, &mut dec);
    assert_eq!(n, 0);
    assert_eq!(acc.remaining(), 3);
    assert_eq!(dec.frames_handled, 0);
}

#[test]
fn length_prefixed_frames_are_consumed_with_their_prefix() {
    let mut acc = FixedAccumulator::new(32);
    let mut dec = LengthPrefixedDecoder::new();
    acc.append(&[3, 101, 102, 103, 2, 104, 105]).unwrap();
    let n = dispatch_frames(&mut acc, &mut dec);
    assert_eq!(n, 2);
    assert_eq!(dec.frames_handled, 2);
    assert_eq!(acc.remaining(), 0);
    assert_eq!(dec.payload_bytes, vec![101, 102, 103, 104, 105]);
}

#[test]
fn length_prefixed_frame_waits_for_its_payload() {
    let mut acc = FixedAccumulator::new(32);
    let mut dec = LengthPrefixedDecoder::new();
    acc.append(&[2, 50]).unwrap();
    let n = dispatch_frames(&mut acc, &mut dec);
    assert_eq!(n, 0);
    assert_eq!(acc.remaining(), 2);
    acc.append(&[60]).unwrap();
    let n = dispatch_frames(&mut acc, &mut dec);
    assert_eq!(n, 1);
    assert_eq!(acc.remaining(), 0);
    assert_eq!(dec.payload_bytes, vec![50, 60]);
}

#[test]
fn single_byte_frames_drain_one_by_one() {
    let mut acc = FixedAccumulator::new(8);
    let mut dec = SizedFrameDecoder::new(1);
    acc.append(&[7, 8, 9]).unwrap();
    let n = dispatch_frames(&mut acc, &mut dec);
    assert_eq!(n, 3);
    assert_eq!(acc.remaining(), 0);
    assert_eq!(dec.bytes_seen, vec![7, 8, 9]);
}

#[test]
fn length_prefix_of_zero_is_an_empty_frame() {
    let mut acc = FixedAccumulator::new(8);
    let mut dec = LengthPrefixedDecoder::new();
    acc.append(&[0, 0, 1, 42]).unwrap();
    let n = dispatch_frames(&mut acc, &mut dec);
    assert_eq!(n, 3);
    assert_eq!(acc.remaining(), 0);
    assert_eq!(dec.payload_bytes, vec![42]);
}

use slitscan::frame_bytes;
use slitscan::pipe::{Reader, Relay};

/// Frames of three pixels.
const SIZE: (u32, u32) = (3, 1);

#[test]
fn a_frame_is_handed_over_once_it_is_whole() {
    let mut reader = Reader::new(SIZE);
    assert_eq!(reader.wanted(), 12);
    assert_eq!(reader.next(vec![1; 5]), Relay::More);
    assert_eq!(reader.wanted(), 7);
    assert_eq!(reader.next(vec![2; 1]), Relay::More);
    assert_eq!(
        reader.next(vec![3; 6]),
        Relay::Hand(vec![1, 1, 1, 1, 1, 2, 3, 3, 3, 3, 3, 3])
    );
    // The next one starts from nothing.
    assert_eq!(reader.wanted(), 12);
    assert_eq!(reader.next(vec![4; 12]), Relay::Hand(vec![4; 12]));
}

#[test]
fn a_stream_that_ends_inside_a_frame_hands_none_of_it_over() {
    let mut reader = Reader::new(SIZE);
    assert_eq!(reader.next(vec![1; 12]), Relay::Hand(vec![1; 12]));
    assert_eq!(reader.next(vec![2; 11]), Relay::More);
    assert_eq!(reader.next(vec![]), Relay::Stop);
    // At once, too, and as often as it is asked.
    assert_eq!(Reader::new(SIZE).next(vec![]), Relay::Stop);
    assert_eq!(reader.next(vec![]), Relay::Stop);
}

#[test]
fn a_stream_is_cut_into_the_same_frames_however_the_reads_fall() {
    let size = (5, 7);
    let bytes = frame_bytes(size);
    let stream: Vec<u8> = (0..bytes * 4 + 13).map(|i| (i * 7 % 251) as u8).collect();
    for most in [1, 3, 64, bytes - 1, bytes, bytes + 1, usize::MAX] {
        let mut reader = Reader::new(size);
        let mut at = 0;
        let mut frames = vec![];
        loop {
            let n = reader.wanted().min(most).min(stream.len() - at);
            match reader.next(stream[at..at + n].to_vec()) {
                Relay::More => {}
                Relay::Hand(frame) => frames.push(frame),
                Relay::Stop => break,
            }
            at += n;
        }
        assert_eq!(at, stream.len());
        assert_eq!(frames.len(), 4);
        for (k, frame) in frames.iter().enumerate() {
            assert_eq!(frame, &stream[k * bytes..(k + 1) * bytes]);
        }
    }
}

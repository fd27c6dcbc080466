use edge::buffer::{Buffer, Progress, ReadEvent, TransferError, WriteEvent, DEFAULT_BUF_SIZE};
use std::io;

/// Feeds `input` to the buffer in chunks of at most `step` bytes, with a refusal
/// before each chunk, then ends the data. Panics on any outcome but progress.
fn feed(buffer: &mut Buffer, input: &[u8], step: usize) -> Result<Progress, TransferError> {
    let mut at = 0;
    while at < input.len() {
        assert!(matches!(buffer.read_from(ReadEvent::WouldBlock), Ok(Progress::Blocked)));
        let window = buffer.window();
        assert!(window > 0);
        let n = step.min(window).min(input.len() - at);
        match buffer.read_from(ReadEvent::Data(input[at..at + n].to_vec())) {
            Ok(Progress::Again) => {}
            other => {
                assert_eq!(at + n, input.len());
                return other;
            }
        }
        at += n;
    }
    buffer.read_from(ReadEvent::Data(Vec::new()))
}

/// Drains the buffer into a sink that takes at most `step` bytes at a time and
/// refuses before each write.
fn drain(buffer: &mut Buffer, step: usize) -> Vec<u8> {
    let mut sink = Vec::new();
    loop {
        if buffer.is_empty() {
            assert!(matches!(buffer.write_to(WriteEvent::WouldBlock), Ok(Progress::Done)));
            return sink;
        }
        assert!(matches!(buffer.write_to(WriteEvent::WouldBlock), Ok(Progress::Blocked)));
        let n = step.min(buffer.pending().len());
        sink.extend_from_slice(&buffer.pending()[..n]);
        match buffer.write_to(WriteEvent::Written(n)) {
            Ok(Progress::Again) => {}
            Ok(Progress::Done) => return sink,
            other => panic!("unexpected outcome {:?}", other),
        }
    }
}

fn sample(len: usize) -> Vec<u8> {
    (0..len).map(|i| (i * 7 + 3) as u8).collect()
}

#[test]
fn new_buffer_is_empty_and_growable() {
    let mut b = Buffer::new();
    assert_eq!(b.len(), 0);
    assert!(b.is_empty());
    assert_eq!(b.window(), 4096);
    assert_eq!(DEFAULT_BUF_SIZE, 4096);
    assert!(matches!(b.read_from(ReadEvent::Data(vec![1, 2, 3])), Ok(Progress::Again)));
    assert_eq!(b.len(), 4096);
    assert!(matches!(b.read_from(ReadEvent::Data(vec![])), Ok(Progress::Done)));
    assert_eq!(b.as_ref(), &[1u8, 2, 3][..]);
}

#[test]
fn new_fixed_is_zero_filled() {
    let b = Buffer::new_fixed(5);
    assert_eq!(b.len(), 5);
    assert_eq!(b.as_ref(), &[0u8; 5][..]);
    assert!(!b.is_empty());
    assert_eq!(b.window(), 5);
    assert!(Buffer::new_fixed(0).is_empty());
}

#[test]
fn growable_buffer_doubles_when_full() {
    let mut b = Buffer::new();
    assert!(matches!(b.read_from(ReadEvent::Data(sample(4096))), Ok(Progress::Again)));
    assert_eq!(b.len(), 4096);
    assert_eq!(b.window(), 4096);
    assert!(matches!(b.read_from(ReadEvent::Data(sample(1))), Ok(Progress::Again)));
    assert_eq!(b.len(), 8192);
    assert_eq!(b.window(), 4095);
    assert!(matches!(b.read_from(ReadEvent::Data(sample(4095))), Ok(Progress::Again)));
    assert_eq!(b.window(), 8192);
    assert!(matches!(b.read_from(ReadEvent::WouldBlock), Ok(Progress::Blocked)));
    assert_eq!(b.len(), 16384);
    assert!(matches!(b.read_from(ReadEvent::Data(vec![])), Ok(Progress::Done)));
    assert_eq!(b.len(), 8192);
}

#[test]
fn growable_buffer_keeps_exactly_what_was_supplied() {
    let input = sample(10_000);
    for step in [1usize, 2, 3, 7, 100, 4095, 4096, 4097, 10_000] {
        let mut b = Buffer::new();
        assert!(matches!(feed(&mut b, &input, step), Ok(Progress::Done)));
        assert_eq!(b.as_ref(), &input[..]);
        assert_eq!(b.len(), input.len());
        assert!(b.is_empty());
    }
}

#[test]
fn growable_buffer_with_no_input_ends_empty() {
    let mut b = Buffer::new();
    assert!(matches!(feed(&mut b, &[], 1), Ok(Progress::Done)));
    assert_eq!(b.len(), 0);
}

#[test]
fn fixed_buffer_completes_when_full() {
    let input = sample(37);
    for step in [1usize, 2, 5, 36, 37, 100] {
        let mut b = Buffer::new_fixed(37);
        assert!(matches!(feed(&mut b, &input, step), Ok(Progress::Done)));
        assert_eq!(b.as_ref(), &input[..]);
        assert!(b.is_empty());
        assert_eq!(b.window(), 0);
    }
}

#[test]
fn fixed_buffer_reports_incomplete_message() {
    let mut b = Buffer::new_fixed(3);
    assert!(matches!(b.read_from(ReadEvent::Data(vec![7, 8])), Ok(Progress::Again)));
    match b.read_from(ReadEvent::Data(vec![])) {
        Err(TransferError::Incomplete { expected, got }) => {
            assert_eq!(expected, 3);
            assert_eq!(got, 2);
        }
        other => panic!("expected an incomplete transfer, got {:?}", other),
    }
    assert_eq!(b.as_ref(), &[7u8, 8, 0][..]);
}

#[test]
fn fixed_buffer_fed_too_little_fails_for_every_chunking() {
    let input = sample(20);
    for step in [1usize, 3, 19, 20] {
        let mut b = Buffer::new_fixed(21);
        match feed(&mut b, &input, step) {
            Err(TransferError::Incomplete { expected, got }) => {
                assert_eq!((expected, got), (21, 20));
            }
            other => panic!("expected an incomplete transfer, got {:?}", other),
        }
    }
}

#[test]
fn fixed_buffer_of_no_bytes_is_complete_at_once() {
    let mut b = Buffer::new_fixed(0);
    assert!(matches!(b.read_from(ReadEvent::Data(vec![])), Ok(Progress::Done)));
    assert_eq!(b.len(), 0);
}

#[test]
fn would_block_keeps_what_was_read() {
    let mut b = Buffer::new_fixed(4);
    assert!(matches!(b.read_from(ReadEvent::Data(vec![1, 2])), Ok(Progress::Again)));
    assert!(matches!(b.read_from(ReadEvent::WouldBlock), Ok(Progress::Blocked)));
    assert_eq!(b.as_ref(), &[1u8, 2, 0, 0][..]);
    assert_eq!(b.window(), 2);
    assert!(matches!(b.read_from(ReadEvent::Data(vec![3, 4])), Ok(Progress::Done)));
    assert_eq!(b.as_ref(), &[1u8, 2, 3, 4][..]);
}

#[test]
fn read_failure_is_handed_on() {
    let mut b = Buffer::new();
    let e = io::Error::new(io::ErrorKind::ConnectionReset, "reset");
    match b.read_from(ReadEvent::Failed(e)) {
        Err(TransferError::Io(e)) => assert_eq!(e.kind(), io::ErrorKind::ConnectionReset),
        other => panic!("expected the transport's error, got {:?}", other),
    }
}

#[test]
fn write_delivers_content_once_in_order() {
    let input = sample(1000);
    for step in [1usize, 2, 3, 999, 1000, 5000] {
        let mut b = Buffer::from(input.clone());
        assert_eq!(drain(&mut b, step), input);
        assert!(b.is_empty());
        assert_eq!(b.pending().len(), 0);
        assert_eq!(b.as_ref(), &input[..]);
    }
}

#[test]
fn write_to_drained_buffer_is_done() {
    let mut b = Buffer::new();
    assert!(matches!(b.write_to(WriteEvent::Written(0)), Ok(Progress::Done)));
    assert!(matches!(b.write_to(WriteEvent::WouldBlock), Ok(Progress::Done)));
}

#[test]
fn write_zero_is_an_error() {
    let mut b = Buffer::from(vec![1u8, 2, 3]);
    assert_eq!(b.pending(), &[1u8, 2, 3][..]);
    assert!(matches!(b.write_to(WriteEvent::Written(0)), Err(TransferError::WriteZero)));
    assert_eq!(b.pending(), &[1u8, 2, 3][..]);
}

#[test]
fn write_failure_is_handed_on() {
    let mut b = Buffer::from(vec![1u8]);
    let e = io::Error::new(io::ErrorKind::BrokenPipe, "gone");
    match b.write_to(WriteEvent::Failed(e)) {
        Err(TransferError::Io(e)) => assert_eq!(e.kind(), io::ErrorKind::BrokenPipe),
        other => panic!("expected the transport's error, got {:?}", other),
    }
}

#[test]
fn partial_write_moves_the_position() {
    let mut b = Buffer::from(vec![1u8, 2, 3, 4]);
    assert!(matches!(b.write_to(WriteEvent::Written(3)), Ok(Progress::Again)));
    assert_eq!(b.pending(), &[4u8][..]);
    assert!(matches!(b.write_to(WriteEvent::WouldBlock), Ok(Progress::Blocked)));
    assert!(matches!(b.write_to(WriteEvent::Written(1)), Ok(Progress::Done)));
    assert!(b.is_empty());
}

#[test]
fn take_hands_over_and_resets() {
    let mut b = Buffer::from(vec![9u8, 8, 7]);
    assert!(matches!(b.write_to(WriteEvent::Written(2)), Ok(Progress::Again)));
    assert_eq!(b.take(), vec![9u8, 8, 7]);
    assert_eq!(b.len(), 0);
    assert!(b.is_empty());
    assert_eq!(b.window(), 4096);
}

#[test]
fn set_capacity_extends_with_zeros_and_cuts() {
    let mut b = Buffer::from(vec![1u8, 2, 3]);
    b.set_capacity(5);
    assert_eq!(b.as_ref(), &[1u8, 2, 3, 0, 0][..]);
    b.set_capacity(2);
    assert_eq!(b.as_ref(), &[1u8, 2][..]);
}

#[test]
fn set_capacity_on_new_buffer_gives_room_to_read() {
    let mut b = Buffer::new();
    b.set_capacity(3);
    assert_eq!(b.window(), 3);
    assert!(matches!(b.read_from(ReadEvent::Data(vec![1, 2, 3])), Ok(Progress::Again)));
    assert_eq!(b.window(), 4093);
    assert!(matches!(b.read_from(ReadEvent::Data(vec![])), Ok(Progress::Done)));
    assert_eq!(b.as_ref(), &[1u8, 2, 3][..]);
}

#[test]
fn send_replaces_content() {
    let mut b = Buffer::new();
    b.send(vec![4u8, 5]);
    assert_eq!(b.as_ref(), &[4u8, 5][..]);
    assert_eq!(b.pending(), &[4u8, 5][..]);
}

#[test]
fn from_vec_is_growable_at_position_zero() {
    let mut b = Buffer::from(vec![1u8, 2]);
    assert_eq!(b.len(), 2);
    assert_eq!(b.window(), 2);
    assert!(matches!(b.read_from(ReadEvent::Data(vec![7, 7])), Ok(Progress::Again)));
    assert_eq!(b.as_ref(), &[7u8, 7][..]);
    assert_eq!(b.window(), 4094);
    assert_eq!(b.len(), 2);
}

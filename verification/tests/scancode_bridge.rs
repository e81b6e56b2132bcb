//! The interrupt-to-async bridge: queue capacity, ordering, and wakes.
use os_practice::keyboard::{add_scancode, ScancodeAdd, ScancodePoll, ScancodeStream,
    SCANCODE_QUEUE_CAP};

#[test]
fn overflow_drops_newest_and_keeps_fifo_order() {
    // Push 129 single bytes into the 128-capacity queue from (simulated)
    // interrupt context: exactly 128 are later readable, in order; the
    // 129th is dropped with a warning outcome, not a panic.
    let mut stream = ScancodeStream::new();
    assert_eq!(SCANCODE_QUEUE_CAP, 128);
    for i in 0..129u32 {
        let outcome = add_scancode(&mut stream, (i % 251) as u8);
        if i < 128 {
            assert!(matches!(outcome, ScancodeAdd::Queued(_)));
        } else {
            assert_eq!(outcome, ScancodeAdd::Dropped);
        }
    }
    for i in 0..128u32 {
        assert_eq!(stream.poll_next(0), ScancodePoll::Ready((i % 251) as u8));
    }
    assert_eq!(stream.poll_next(0), ScancodePoll::Pending);
}

#[test]
fn empty_poll_registers_waker() {
    let mut stream = ScancodeStream::new();
    // No data: the poll reports not-ready and registers the caller.
    assert_eq!(stream.poll_next(42), ScancodePoll::Pending);
    // The next successful push hands the registered waker back, once.
    assert_eq!(add_scancode(&mut stream, 0x9c), ScancodeAdd::Queued(Some(42)));
    assert_eq!(add_scancode(&mut stream, 0x9d), ScancodeAdd::Queued(None));
    assert_eq!(stream.poll_next(42), ScancodePoll::Ready(0x9c));
    assert_eq!(stream.poll_next(42), ScancodePoll::Ready(0x9d));
}

#[test]
fn fast_path_does_not_touch_waker() {
    let mut stream = ScancodeStream::new();
    assert_eq!(stream.poll_next(7), ScancodePoll::Pending);
    assert_eq!(add_scancode(&mut stream, 1), ScancodeAdd::Queued(Some(7)));
    assert_eq!(add_scancode(&mut stream, 2), ScancodeAdd::Queued(None));
    // A poll that finds data does not register anew ...
    assert_eq!(stream.poll_next(9), ScancodePoll::Ready(1));
    // ... so a push right after it finds no waker registered.
    assert_eq!(add_scancode(&mut stream, 3), ScancodeAdd::Queued(None));
}

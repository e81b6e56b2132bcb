//! Interrupt-to-async bridge: the scancode stream.
//!
//! A fixed-capacity lock-free byte queue carries scancodes from interrupt
//! context to the consumer, and a single-slot wake register carries the
//! consumer's interest back.  The producer never blocks and never
//! allocates: on overflow the newest byte is dropped and a warning outcome
//! is surfaced to the caller, never a panic.  The consumer first checks the
//! queue, then registers its waker and checks once more, closing the race
//! with a byte that arrives between check and registration.
use vstd::prelude::*;

verus! {

/// Fixed capacity of the scancode queue.
pub const SCANCODE_QUEUE_CAP: usize = 128;

/// Declares crossbeam_queue::ArrayQueue, the bounded lock-free queue that
/// carries bytes out of interrupt context and ready identifiers to the
/// executor; its contents are described only through the named views below.
#[verifier::external_type_specification]
#[verifier::external_body]
#[verifier::reject_recursive_types(T)]
pub struct ExArrayQueue<T>(crossbeam_queue::ArrayQueue<T>);

/// The bytes a scancode queue holds, oldest first.
pub uninterp spec fn queue_bytes(q: crossbeam_queue::ArrayQueue<u8>) -> Seq<u8>;

/// The fixed capacity a scancode queue was created with.
pub uninterp spec fn queue_bytes_cap(q: crossbeam_queue::ArrayQueue<u8>) -> nat;

/// Relies on crossbeam_queue::ArrayQueue::new: creates an empty bounded
/// queue of the given capacity (new panics on capacity zero).
#[verifier::external_body]
fn byte_queue_new(cap: usize) -> (q: crossbeam_queue::ArrayQueue<u8>)
    requires
        cap >= 1,
    ensures
        queue_bytes(q) == Seq::<u8>::empty(),
        queue_bytes_cap(q) == cap as nat,
{
    crossbeam_queue::ArrayQueue::new(cap)
}

/// Relies on crossbeam_queue::ArrayQueue::push: appends the value at the
/// back when the queue is not full, and hands the value back unqueued when
/// it is.  The call never blocks and never allocates.
#[verifier::external_body]
fn byte_queue_push(q: &mut crossbeam_queue::ArrayQueue<u8>, v: u8) -> (r: Result<(), u8>)
    ensures
        queue_bytes_cap(*final(q)) == queue_bytes_cap(*old(q)),
        r is Ok <==> queue_bytes(*old(q)).len() < queue_bytes_cap(*old(q)),
        r is Ok ==> queue_bytes(*final(q)) == queue_bytes(*old(q)).push(v),
        r is Err ==> queue_bytes(*final(q)) == queue_bytes(*old(q)) && (r matches Err(x) && x == v),
{
    q.push(v)
}

/// Relies on crossbeam_queue::ArrayQueue::pop: removes and returns the
/// oldest queued value, or returns nothing when the queue is empty.
#[verifier::external_body]
fn byte_queue_pop(q: &mut crossbeam_queue::ArrayQueue<u8>) -> (r: Option<u8>)
    ensures
        queue_bytes_cap(*final(q)) == queue_bytes_cap(*old(q)),
        queue_bytes(*old(q)).len() == 0 ==> r is None && queue_bytes(*final(q)) == queue_bytes(
            *old(q),
        ),
        queue_bytes(*old(q)).len() > 0 ==> r == Some(queue_bytes(*old(q))[0]) && queue_bytes(
            *final(q),
        ) == queue_bytes(*old(q)).drop_first(),
{
    q.pop()
}

/// The scancode stream: the queue filled from interrupt context plus the
/// single-slot wake register.  The wake callback is the identifier of the
/// task to re-enqueue, which is all the executor's wakers carry.
pub struct ScancodeStream {
    queue: crossbeam_queue::ArrayQueue<u8>,
    waker: Option<u64>,
}

/// What one poll of the stream reports: the oldest queued scancode, or
/// not-ready with the waker registered.
#[derive(Debug, Clone, Copy, PartialEq, Eq, Structural)]
pub enum ScancodePoll {
    Ready(u8),
    Pending,
}

/// The outcome the interrupt-context producer sees: the byte was queued
/// (carrying the waker to signal, if one was registered), or the queue was
/// full and the byte was dropped — a warning to log, never a panic.
#[derive(Debug, Clone, Copy, PartialEq, Eq, Structural)]
pub enum ScancodeAdd {
    Queued(Option<u64>),
    Dropped,
}

impl ScancodeStream {
    /// The queued scancodes, oldest first.
    pub closed spec fn scancodes(self) -> Seq<u8> {
        queue_bytes(self.queue)
    }

    /// The queue's fixed capacity.
    pub closed spec fn capacity(self) -> nat {
        queue_bytes_cap(self.queue)
    }

    /// The registered wake target, if any.
    pub closed spec fn registered_waker(self) -> Option<u64> {
        self.waker
    }

    /// An empty stream with the fixed scancode capacity and no waker
    /// registered.
    pub fn new() -> (r: ScancodeStream)
        ensures
            r.scancodes() == Seq::<u8>::empty(),
            r.capacity() == SCANCODE_QUEUE_CAP as nat,
            r.registered_waker() is None,
    {
        ScancodeStream { queue: byte_queue_new(SCANCODE_QUEUE_CAP), waker: None }
    }

    /// One poll step of the consumer.  Fast path: a queued byte is returned
    /// at once, oldest first, without touching the wake register.  Otherwise
    /// the caller's waker is registered and the queue is checked once more
    /// (closing the missed-wakeup race); if it is still empty the poll
    /// reports not-ready and the waker stays registered for the next
    /// arrival.
    pub fn poll_next(&mut self, waker_id: u64) -> (r: ScancodePoll)
        ensures
            final(self).capacity() == old(self).capacity(),
            old(self).scancodes().len() > 0 ==> r == ScancodePoll::Ready(old(self).scancodes()[0])
                && final(self).scancodes() == old(self).scancodes().drop_first() && final(self).registered_waker() == old(self).registered_waker(),
            old(self).scancodes().len() == 0 ==> r == ScancodePoll::Pending && final(self).scancodes() == old(self).scancodes()
                && final(self).registered_waker() == Some(waker_id),
    {
        if let Some(scan) = byte_queue_pop(&mut self.queue) {
            return ScancodePoll::Ready(scan);
        }
        self.waker = Some(waker_id);
        match byte_queue_pop(&mut self.queue) {
            Some(scan) => {
                self.waker = None;
                ScancodePoll::Ready(scan)
            },
            None => ScancodePoll::Pending,
        }
    }
}

/// Called by the keyboard interrupt handler with the byte read from the
/// device's data port.  Performs at most one non-blocking push and, only on
/// success, takes the registered waker and hands it to the caller to
/// signal.  On overflow the byte is dropped and `Dropped` is surfaced so
/// the caller can log a warning; the producer never blocks, allocates or
/// panics.
pub fn add_scancode(stream: &mut ScancodeStream, scan: u8) -> (r: ScancodeAdd)
    ensures
        final(stream).capacity() == old(stream).capacity(),
        old(stream).scancodes().len() < old(stream).capacity() ==> r == ScancodeAdd::Queued(
            old(stream).registered_waker(),
        ) && final(stream).scancodes() == old(stream).scancodes().push(scan)
            && final(stream).registered_waker() is None,
        old(stream).scancodes().len() >= old(stream).capacity() ==> r == ScancodeAdd::Dropped
            && final(stream).scancodes() == old(stream).scancodes()
            && final(stream).registered_waker() == old(stream).registered_waker(),
{
    match byte_queue_push(&mut stream.queue, scan) {
        Ok(_) => {
            let woken = stream.waker;
            stream.waker = None;
            ScancodeAdd::Queued(woken)
        },
        Err(_) => ScancodeAdd::Dropped,
    }
}

/// The scancode decoder the keypress task feeds: a PS/2 keyboard state
/// machine over scancode set 1 with the US 104-key layout.  The decoder
/// state is opaque; only the characters it hands out are observed.
#[verifier::external_body]
pub struct KeyboardDecoder {
    inner: pc_keyboard::PS2Keyboard<pc_keyboard::layouts::Us104Key, pc_keyboard::ScancodeSet1>,
}

/// Declares pc_keyboard::KeyEvent, the decoded key event a completed
/// scancode sequence yields; it is carried opaquely between the decoder
/// calls.
#[verifier::external_type_specification]
#[verifier::external_body]
pub struct ExKeyEvent(pc_keyboard::KeyEvent);

/// Relies on pc_keyboard::PS2Keyboard::new: a fresh decoder for scancode
/// set 1 and the US 104-key layout, with control characters left alone.
#[verifier::external_body]
pub(crate) fn keyboard_new() -> KeyboardDecoder {
    KeyboardDecoder {
        inner: pc_keyboard::PS2Keyboard::new(
            pc_keyboard::ScancodeSet1::new(),
            pc_keyboard::layouts::Us104Key,
            pc_keyboard::HandleControl::Ignore,
        ),
    }
}

/// Relies on pc_keyboard::PS2Keyboard::add_byte: advances the scancode
/// state machine by one byte; a completed key event is handed out, an
/// incomplete sequence or a protocol error is not.
#[verifier::external_body]
fn keyboard_add_byte(kb: &mut KeyboardDecoder, scan: u8) -> Option<pc_keyboard::KeyEvent> {
    match kb.inner.add_byte(scan) {
        Ok(ev) => ev,
        Err(_) => None,
    }
}

/// Relies on pc_keyboard::PS2Keyboard::process_keyevent: turns a key event
/// into the character it decodes to under the current modifier state; a key
/// without a printable character decodes to nothing.
#[verifier::external_body]
fn keyboard_process_event(kb: &mut KeyboardDecoder, ev: pc_keyboard::KeyEvent) -> Option<
    char,
> {
    match kb.inner.process_keyevent(ev) {
        Some(pc_keyboard::DecodedKey::Unicode(c)) => Some(c),
        Some(pc_keyboard::DecodedKey::RawKey(_)) => None,
        None => None,
    }
}

/// Feeds one scancode byte to the decoder and returns the printable
/// character it completes, if any.
pub(crate) fn decode_scancode(kb: &mut KeyboardDecoder, scan: u8) -> Option<char> {
    match keyboard_add_byte(kb, scan) {
        Some(ev) => keyboard_process_event(kb, ev),
        None => None,
    }
}

} // verus!

//! Tasks: uniquely-identified suspended computations.
//!
//! A task exposes one operation — advance, given the identifier that a wake
//! registration should carry; it reports done or not-done, and re-entry
//! resumes exactly where it last yielded.  Two computations live here: one
//! that resolves immediately to a fixed value, and the keypress printer,
//! which forever drains the scancode stream, decoding bytes to characters,
//! and suspends whenever the stream runs dry.
use crate::keyboard::{decode_scancode, keyboard_new, KeyboardDecoder, ScancodePoll,
    ScancodeStream};
use vstd::prelude::*;

pub mod exec;
pub mod simple_exec;

verus! {

/// The keypress-printing computation: a keyboard decoder plus the
/// characters decoded so far, in arrival order.
pub struct KeypressPrinter {
    kb: KeyboardDecoder,
    printed: Vec<char>,
}

/// What one advance step of a task reports.
#[derive(Debug, Clone, Copy, PartialEq, Eq, Structural)]
pub enum TaskPoll {
    Done,
    Pending,
}

impl KeypressPrinter {
    /// The characters decoded so far, oldest first.
    pub closed spec fn printed_view(self) -> Seq<char> {
        self.printed@
    }

    /// A fresh printer that has decoded nothing.
    pub fn new() -> (r: KeypressPrinter)
        ensures
            r.printed_view().len() == 0,
    {
        KeypressPrinter { kb: keyboard_new(), printed: Vec::new() }
    }

    /// The characters decoded so far.
    pub fn printed(&self) -> (r: &Vec<char>)
        ensures
            r@ == self.printed_view(),
    {
        &self.printed
    }

    /// Drains the stream: every queued scancode is consumed in arrival
    /// order and fed to the decoder, then the waker is registered and the
    /// step suspends.  The printer never finishes.
    pub fn poll(&mut self, stream: &mut ScancodeStream, waker_id: u64) -> (r: TaskPoll)
        ensures
            r == TaskPoll::Pending,
            final(stream).capacity() == old(stream).capacity(),
            final(stream).scancodes().len() == 0,
            final(stream).registered_waker() == Some(waker_id),
            old(self).printed_view().is_prefix_of(final(self).printed_view()),
            final(self).printed_view().len() <= old(self).printed_view().len() + old(
                stream,
            ).scancodes().len(),
    {
        loop
            invariant
                stream.capacity() == old(stream).capacity(),
                old(self).printed_view().is_prefix_of(self.printed_view()),
                self.printed_view().len() + stream.scancodes().len() <= old(
                    self,
                ).printed_view().len() + old(stream).scancodes().len(),
            decreases stream.scancodes().len(),
        {
            match stream.poll_next(waker_id) {
                ScancodePoll::Ready(scan) => {
                    match decode_scancode(&mut self.kb, scan) {
                        Some(c) => {
                            self.printed.push(c);
                        },
                        None => {},
                    }
                },
                ScancodePoll::Pending => {
                    return TaskPoll::Pending;
                },
            }
        }
    }
}

/// What a task computes when the executor advances it.
pub enum TaskBody {
    Immediate(u64),
    Keypresses(KeypressPrinter),
}

/// The characters the computation has decoded so far (empty for one that
/// does not read the stream).
pub open spec fn printed_of(b: TaskBody) -> Seq<char> {
    match b {
        TaskBody::Keypresses(kp) => kp.printed_view(),
        TaskBody::Immediate(_) => Seq::<char>::empty(),
    }
}

/// The keypress-printing task body: it forever awaits scancodes from the
/// bridge and collects the decoded characters for the display.
pub fn print_keypresses() -> (r: TaskBody)
    ensures
        r is Keypresses,
        printed_of(r).len() == 0,
{
    TaskBody::Keypresses(KeypressPrinter::new())
}

/// A uniquely-identified, suspended computation.  It is created on spawn,
/// owned by the executor's task table until it reports done, then
/// destroyed.
pub struct Task {
    pub id: u64,
    pub body: TaskBody,
}

impl Task {
    /// A task with the given identifier and computation.  Identifiers must
    /// be assigned monotonically by the creator; the executor treats a
    /// duplicate as a fatal error.
    pub fn new(id: u64, body: TaskBody) -> (r: Task)
        ensures
            r.id == id,
            r.body == body,
    {
        Task { id, body }
    }

    /// Advances the computation one step.  `waker_id` is the identifier
    /// that goes into any wake registration of this step; the executor
    /// supplies the identifier of the task itself, and a wake then
    /// re-enqueues it.
    /// An immediate task reports done at once and touches nothing; the
    /// keypress printer drains the stream, registers the waker and stays
    /// pending.
    pub fn poll(&mut self, stream: &mut ScancodeStream, waker_id: u64) -> (r: TaskPoll)
        ensures
            final(self).id == old(self).id,
            final(stream).capacity() == old(stream).capacity(),
            old(self).body is Immediate ==> r == TaskPoll::Done && *final(self) == *old(self)
                && *final(stream) == *old(stream),
            old(self).body is Keypresses ==> {
                &&& r == TaskPoll::Pending
                &&& final(self).body is Keypresses
                &&& final(stream).scancodes().len() == 0
                &&& final(stream).registered_waker() == Some(waker_id)
                &&& printed_of(old(self).body).is_prefix_of(printed_of(final(self).body))
                &&& printed_of(final(self).body).len() <= printed_of(old(self).body).len() + old(
                    stream,
                ).scancodes().len()
            },
    {
        match &mut self.body {
            TaskBody::Immediate(_) => TaskPoll::Done,
            TaskBody::Keypresses(kp) => kp.poll(stream, waker_id),
        }
    }
}

} // verus!

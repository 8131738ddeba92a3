//! The keyboard: the queue of scancodes between the interrupt handler and
//! the reader, and the decoding of scancodes into key events.

use vstd::prelude::*;
use crossbeam_queue::ArrayQueue;
use pc_keyboard::{DecodedKey, KeyCode};

verus! {

/// The number of scancodes that the queue holds.
pub const QUEUE_SIZE: usize = 100;

#[verifier::external_type_specification]
#[verifier::external_body]
#[verifier::reject_recursive_types(T)]
pub struct ExArrayQueue<T>(ArrayQueue<T>);

#[verifier::external_type_specification]
#[verifier::external_body]
pub struct ExKeyCode(KeyCode);

#[verifier::external_type_specification]
#[verifier::external_body]
pub struct ExDecodedKey(DecodedKey);

/// The scancodes that wait in a queue, the oldest first.
pub uninterp spec fn queue_items(queue: ArrayQueue<u8>) -> Seq<u8>;

/// The number of scancodes that a queue was made for.
pub uninterp spec fn queue_limit(queue: ArrayQueue<u8>) -> nat;

/// An empty queue for `capacity` scancodes, from `ArrayQueue::new` of the
/// crossbeam-queue crate. The crate does not make a queue for nothing.
#[verifier::external_body]
fn new_queue(capacity: usize) -> (queue: ArrayQueue<u8>)
    requires
        capacity > 0,
    ensures
        queue_items(queue) == Seq::<u8>::empty(),
        queue_limit(queue) == capacity,
{
    ArrayQueue::new(capacity)
}

/// Puts `byte` at the back of the queue, by `ArrayQueue::push` of the
/// crossbeam-queue crate. A full queue stays as it is and hands the byte back.
#[verifier::external_body]
fn offer(queue: &mut ArrayQueue<u8>, byte: u8) -> (r: Result<(), u8>)
    ensures
        queue_limit(*final(queue)) == queue_limit(*old(queue)),
        r is Ok <==> queue_items(*old(queue)).len() < queue_limit(*old(queue)),
        r is Ok ==> queue_items(*final(queue)) == queue_items(*old(queue)).push(byte),
        r is Err ==> r->Err_0 == byte && queue_items(*final(queue)) == queue_items(*old(queue)),
{
    queue.push(byte)
}

/// Takes the oldest byte from the queue, by `ArrayQueue::pop` of the
/// crossbeam-queue crate. An empty queue gives nothing.
#[verifier::external_body]
fn take(queue: &mut ArrayQueue<u8>) -> (r: Option<u8>)
    ensures
        queue_limit(*final(queue)) == queue_limit(*old(queue)),
        queue_items(*old(queue)).len() == 0 ==> r is None && queue_items(*final(queue))
            == queue_items(*old(queue)),
        queue_items(*old(queue)).len() > 0 ==> r == Some(queue_items(*old(queue))[0])
            && queue_items(*final(queue)) == queue_items(*old(queue)).drop_first(),
{
    queue.pop()
}

/// Tells the two kinds of key apart that the decoder of the pc-keyboard
/// crate gives: a key that stands for a character becomes `Char` with that
/// character, any other key becomes `SpecialKey` with its key code.
#[verifier::external_body]
fn key_of(decoded: DecodedKey) -> (event: KeyEvent) {
    match decoded {
        DecodedKey::Unicode(character) => KeyEvent::Char(character),
        DecodedKey::RawKey(code) => KeyEvent::SpecialKey(code),
    }
}

/// What the reader of the keyboard gets.
#[derive(Debug, Clone, Copy, PartialEq)]
pub enum KeyEvent {
    /// A key that stands for a character.
    Char(char),
    /// Any other key.
    SpecialKey(KeyCode),
}

/// The queue of scancodes: the interrupt handler puts them in, the reader
/// takes them out, first in, first out.
pub struct ScancodeQueue {
    queue: ArrayQueue<u8>,
}

impl View for ScancodeQueue {
    type V = Seq<u8>;

    closed spec fn view(&self) -> Seq<u8> {
        queue_items(self.queue)
    }
}

impl ScancodeQueue {
    /// The queue never holds more than it was made for.
    pub closed spec fn wf(&self) -> bool {
        queue_limit(self.queue) == QUEUE_SIZE && queue_items(self.queue).len() <= QUEUE_SIZE
    }

    /// An empty queue for 100 scancodes.
    pub fn new() -> (r: Self)
        ensures
            r.wf(),
            r@ == Seq::<u8>::empty(),
    {
        ScancodeQueue { queue: new_queue(QUEUE_SIZE) }
    }

    /// Puts a scancode into the queue. If the queue is full the scancode
    /// is dropped; the answer says whether it was taken.
    pub fn add_scancode(&mut self, scancode: u8) -> (taken: bool)
        requires
            old(self).wf(),
        ensures
            final(self).wf(),
            taken == (old(self)@.len() < QUEUE_SIZE),
            final(self)@ == (if taken {
                old(self)@.push(scancode)
            } else {
                old(self)@
            }),
    {
        match offer(&mut self.queue, scancode) {
            Ok(()) => true,
            Err(_) => false,
        }
    }

    /// Takes the oldest scancode out of the queue, if there is one.
    pub fn pop(&mut self) -> (r: Option<u8>)
        requires
            old(self).wf(),
        ensures
            final(self).wf(),
            r == (if old(self)@.len() > 0 {
                Some(old(self)@[0])
            } else {
                None
            }),
            final(self)@ == (if old(self)@.len() > 0 {
                old(self)@.drop_first()
            } else {
                old(self)@
            }),
    {
        take(&mut self.queue)
    }
}

/// What a poll of the keyboard gives.
#[derive(Debug, Clone, Copy, PartialEq, Eq)]
pub enum Poll {
    /// No scancode waits: the reader registers to be woken and comes back.
    Pending,
    /// The oldest scancode, taken from the queue, for the decoder.
    Ready(u8),
}

/// The reader's end of the keyboard.
pub struct KeyboardStream {
    queue: ScancodeQueue,
}

impl KeyboardStream {
    /// The scancodes that wait.
    pub closed spec fn waiting(&self) -> Seq<u8> {
        self.queue@
    }

    pub closed spec fn wf(&self) -> bool {
        self.queue.wf()
    }

    /// A keyboard with an empty queue.
    pub fn new() -> (r: Self)
        ensures
            r.wf(),
            r.waiting() == Seq::<u8>::empty(),
    {
        KeyboardStream { queue: ScancodeQueue::new() }
    }

    /// The interrupt handler's end: puts a scancode into the queue. A
    /// full queue drops it; the answer says whether the queue took it.
    pub fn add_scancode(&mut self, scancode: u8) -> (taken: bool)
        requires
            old(self).wf(),
        ensures
            final(self).wf(),
            taken == (old(self).waiting().len() < QUEUE_SIZE),
            final(self).waiting() == (if taken {
                old(self).waiting().push(scancode)
            } else {
                old(self).waiting()
            }),
    {
        self.queue.add_scancode(scancode)
    }

    /// Polls the keyboard: with no scancode waiting the answer is
    /// `Pending`; otherwise the oldest scancode leaves the queue.
    pub fn poll_next(&mut self) -> (r: Poll)
        requires
            old(self).wf(),
        ensures
            final(self).wf(),
            r == (if old(self).waiting().len() > 0 {
                Poll::Ready(old(self).waiting()[0])
            } else {
                Poll::Pending
            }),
            final(self).waiting() == (if old(self).waiting().len() > 0 {
                old(self).waiting().drop_first()
            } else {
                old(self).waiting()
            }),
    {
        match self.queue.pop() {
            Some(scancode) => Poll::Ready(scancode),
            None => Poll::Pending,
        }
    }
}

/// The key event for the reader that a key of the decoder stands for, if
/// the decoder gave a key.
pub fn decode_key(key: Option<DecodedKey>) -> (r: Option<KeyEvent>)
    ensures
        r is Some <==> key is Some,
{
    match key {
        Some(decoded) => Some(key_of(decoded)),
        None => None,
    }
}

/// Sets the keyboard up.
pub fn init() -> (r: KeyboardStream)
    ensures
        r.wf(),
        r.waiting() == Seq::<u8>::empty(),
{
    KeyboardStream::new()
}

} // verus!

//! The keyboard input path: scancodes from the keyboard interrupt go into a
//! bounded FIFO queue (`crossbeam_queue::ArrayQueue`) that is created once,
//! on first initialization; the shell takes them out, and a `pc_keyboard`
//! decoder with the US 104-key layout turns them into keys, which `key_char`
//! turns into the characters the shell reads.

use vstd::prelude::*;
use crossbeam_queue::ArrayQueue;
use pc_keyboard::layouts::Us104Key;
use pc_keyboard::{DecodedKey, HandleControl, KeyCode, Keyboard, ScancodeSet1};

verus! {

/// Capacity of the scancode queue.
pub const SCANCODE_QUEUE_CAPACITY: usize = 100;

/// Number of `KeyCode::Backspace` in `pc_keyboard`'s key code numbering.
pub const BACKSPACE_KEY_CODE: u8 = 30;

#[verifier::external_type_specification]
#[verifier::external_body]
#[verifier::reject_recursive_types(T)]
pub struct ExArrayQueue<T>(ArrayQueue<T>);

/// The bytes a queue holds, oldest first.
pub uninterp spec fn queue_contents(q: ArrayQueue<u8>) -> Seq<u8>;

/// The number of bytes a queue was made to hold.
pub uninterp spec fn queue_capacity(q: ArrayQueue<u8>) -> nat;

/// `ArrayQueue::new`: an empty queue that holds up to `cap` items. It panics
/// when `cap` is 0 or when `cap + 1` rounded up to a power of two does not fit
/// in the queue's index type, which `cap <= usize::MAX / 2` rules out.
#[verifier::external_body]
fn new_byte_queue(cap: usize) -> (q: ArrayQueue<u8>)
    requires
        0 < cap <= usize::MAX / 2,
    ensures
        queue_contents(q) == Seq::<u8>::empty(),
        queue_capacity(q) == cap,
{
    ArrayQueue::new(cap)
}

/// `ArrayQueue::push`: appends the byte when the queue is not full; a full
/// queue gives the byte back as the error and is left as it was.
#[verifier::external_body]
fn byte_queue_push(q: &mut ArrayQueue<u8>, value: u8) -> (r: Result<(), u8>)
    ensures
        queue_capacity(*final(q)) == queue_capacity(*old(q)),
        queue_contents(*old(q)).len() < queue_capacity(*old(q)) ==> r is Ok
            && queue_contents(*final(q)) == queue_contents(*old(q)).push(value),
        queue_contents(*old(q)).len() >= queue_capacity(*old(q)) ==> (r matches Err(v) && v == value)
            && queue_contents(*final(q)) == queue_contents(*old(q)),
{
    q.push(value)
}

/// `ArrayQueue::pop`: removes and returns the oldest byte, or `None` when the
/// queue is empty.
#[verifier::external_body]
fn byte_queue_pop(q: &mut ArrayQueue<u8>) -> (r: Option<u8>)
    ensures
        queue_capacity(*final(q)) == queue_capacity(*old(q)),
        queue_contents(*old(q)).len() == 0 ==> r is None && queue_contents(*final(q))
            == queue_contents(*old(q)),
        queue_contents(*old(q)).len() > 0 ==> r == Some(queue_contents(*old(q))[0])
            && queue_contents(*final(q)) == queue_contents(*old(q)).drop_first(),
{
    q.pop()
}

/// What `add_scancode` did with a scancode.
#[derive(Debug, Clone, Copy, PartialEq, Eq, Structural)]
pub enum ScancodeStatus {
    /// The scancode was queued.
    Queued,
    /// The queue was full: the scancode was dropped.
    QueueFull,
    /// The queue was not initialized yet: the scancode was dropped.
    Uninitialized,
}

/// The scancode queue, created on first initialization.
pub struct ScancodeQueue {
    queue: Option<ArrayQueue<u8>>,
}

impl View for ScancodeQueue {
    type V = Option<Seq<u8>>;

    /// `None` before initialization, then the queued scancodes, oldest first.
    closed spec fn view(&self) -> Option<Seq<u8>> {
        match self.queue {
            Some(q) => Some(queue_contents(q)),
            None => None,
        }
    }
}

/// The queue and the status after a scancode is added: queued when the queue
/// exists and holds fewer than its capacity, dropped otherwise.
pub open spec fn add_scancode_spec(q: Option<Seq<u8>>, scancode: u8) -> (Option<Seq<u8>>, ScancodeStatus) {
    match q {
        None => (None, ScancodeStatus::Uninitialized),
        Some(s) => if s.len() < SCANCODE_QUEUE_CAPACITY {
            (Some(s.push(scancode)), ScancodeStatus::Queued)
        } else {
            (Some(s), ScancodeStatus::QueueFull)
        },
    }
}

/// The queue after `init_keyboard`: created empty unless it exists already.
pub open spec fn init_keyboard_spec(q: Option<Seq<u8>>) -> Option<Seq<u8>> {
    match q {
        None => Some(Seq::<u8>::empty()),
        Some(s) => Some(s),
    }
}

/// A queue state within capacity.
pub open spec fn queue_within_capacity(q: Option<Seq<u8>>) -> bool {
    q matches Some(s) ==> s.len() <= SCANCODE_QUEUE_CAPACITY
}

/// The queue and the scancode after one is read: the oldest one, if any.
pub open spec fn read_scancode_spec(q: Option<Seq<u8>>) -> (Option<Seq<u8>>, Option<u8>) {
    match q {
        Some(s) => if s.len() > 0 {
            (Some(s.drop_first()), Some(s[0]))
        } else {
            (q, None)
        },
        None => (None, None),
    }
}

impl ScancodeQueue {
    #[verifier::type_invariant]
    spec fn inv(self) -> bool {
        self.queue matches Some(q) ==> queue_capacity(q) == SCANCODE_QUEUE_CAPACITY
            && queue_contents(q).len() <= SCANCODE_QUEUE_CAPACITY
    }

    /// A queue that is not initialized yet.
    pub fn new() -> (r: ScancodeQueue)
        ensures
            r@ == None::<Seq<u8>>,
    {
        ScancodeQueue { queue: None }
    }
}

/// Creates the scancode queue, empty, unless it exists already.
pub fn init_keyboard(queue: &mut ScancodeQueue)
    ensures
        final(queue)@ == init_keyboard_spec(old(queue)@),
        queue_within_capacity(final(queue)@),
{
    proof {
        use_type_invariant(&*queue);
    }
    if queue.queue.is_none() {
        queue.queue = Some(new_byte_queue(SCANCODE_QUEUE_CAPACITY));
    }
}

/// Queues a scancode from the keyboard interrupt; a full or uninitialized
/// queue drops it, and the status says which happened.
pub fn add_scancode(queue: &mut ScancodeQueue, scancode: u8) -> (r: ScancodeStatus)
    ensures
        (final(queue)@, r) == add_scancode_spec(old(queue)@, scancode),
        queue_within_capacity(final(queue)@),
{
    proof {
        use_type_invariant(&*queue);
    }
    let mut taken: Option<ArrayQueue<u8>> = None;
    core::mem::swap(&mut taken, &mut queue.queue);
    let status = match &mut taken {
        Some(q) => match byte_queue_push(q, scancode) {
            Ok(()) => ScancodeStatus::Queued,
            Err(_) => ScancodeStatus::QueueFull,
        },
        None => ScancodeStatus::Uninitialized,
    };
    queue.queue = taken;
    status
}

/// Takes the oldest scancode out of the queue, if there is one.
pub fn read_scancode(queue: &mut ScancodeQueue) -> (r: Option<u8>)
    ensures
        (final(queue)@, r) == read_scancode_spec(old(queue)@),
        queue_within_capacity(final(queue)@),
{
    proof {
        use_type_invariant(&*queue);
    }
    let mut taken: Option<ArrayQueue<u8>> = None;
    core::mem::swap(&mut taken, &mut queue.queue);
    let scancode = match &mut taken {
        Some(q) => byte_queue_pop(q),
        None => None,
    };
    queue.queue = taken;
    scancode
}

/// Scancodes come out in the order they went in: reading after adding to a
/// queue with room gives the oldest scancode, which is the added one when the
/// queue was empty, and reading before adding gives the same scancode.
pub proof fn lemma_scancode_fifo(s: Seq<u8>, scancode: u8)
    requires
        s.len() < SCANCODE_QUEUE_CAPACITY,
    ensures
        ({
            let (q1, st) = add_scancode_spec(Some(s), scancode);
            let (q2, r) = read_scancode_spec(q1);
            &&& st == ScancodeStatus::Queued
            &&& r == Some(if s.len() == 0 { scancode } else { s[0] })
            &&& (s.len() > 0 ==> (q2, r) == ({
                let (p1, r1) = read_scancode_spec(Some(s));
                (add_scancode_spec(p1, scancode).0, r1)
            }))
        }),
{
    if s.len() > 0 {
        assert(s.push(scancode).drop_first() =~= s.drop_first().push(scancode));
    }
}

/// A full queue drops the scancode and is left as it was.
pub proof fn lemma_full_queue_drops(s: Seq<u8>, scancode: u8)
    requires
        s.len() == SCANCODE_QUEUE_CAPACITY,
    ensures
        add_scancode_spec(Some(s), scancode) == (Some(s), ScancodeStatus::QueueFull),
{
}

/// A decoded key: a character, or the number of a key that has none.
#[derive(Debug, Clone, Copy, PartialEq, Eq, Structural)]
pub enum KeyInput {
    /// The key produced this character.
    Unicode(char),
    /// A key without a character, by its `pc_keyboard::KeyCode` number.
    RawKey(u8),
}

/// The number of `KeyCode::Backspace` (`KeyCode` is `#[repr(u8)]`; Backspace
/// is its 31st variant).
#[verifier::external_body]
fn backspace_key_code() -> (r: u8)
    ensures
        r == BACKSPACE_KEY_CODE,
{
    KeyCode::Backspace as u8
}

/// The character the shell gets for a decoded key: the character itself, the
/// backspace character for the Backspace key, and none for other keys.
pub open spec fn key_char_spec(input: KeyInput) -> Option<char> {
    match input {
        KeyInput::Unicode(c) => Some(c),
        KeyInput::RawKey(k) => if k == BACKSPACE_KEY_CODE {
            Some('\x08')
        } else {
            None
        },
    }
}

/// The character the shell gets for a decoded key (see `key_char_spec`).
pub fn key_char(input: KeyInput) -> (r: Option<char>)
    ensures
        r == key_char_spec(input),
{
    match input {
        KeyInput::Unicode(c) => Some(c),
        KeyInput::RawKey(k) => {
            if k == backspace_key_code() {
                Some('\x08')
            } else {
                None
            }
        },
    }
}

/// One call on the scancode queue.
#[derive(Debug, Clone, Copy, PartialEq, Eq, Structural)]
pub enum QueueCall {
    /// `init_keyboard`.
    Init,
    /// `add_scancode` with this scancode.
    Add(u8),
    /// `read_scancode`.
    Read,
}

/// The outcome of a sequence of calls on the scancode queue: the queue at
/// the end, the scancodes that `add_scancode` accepted, and the scancodes
/// that `read_scancode` returned, each in call order.
pub struct QueueRun {
    pub queue: Option<Seq<u8>>,
    pub accepted: Seq<u8>,
    pub read: Seq<u8>,
}

/// The scancodes a queue state holds; none before initialization.
pub open spec fn queued(q: Option<Seq<u8>>) -> Seq<u8> {
    match q {
        Some(s) => s,
        None => Seq::empty(),
    }
}

/// The outcome of the calls, made in order on the queue `q`, by the
/// contracts of `init_keyboard`, `add_scancode` and `read_scancode`.
pub open spec fn run_queue_calls(q: Option<Seq<u8>>, calls: Seq<QueueCall>) -> QueueRun
    decreases calls.len(),
{
    if calls.len() == 0 {
        QueueRun { queue: q, accepted: Seq::empty(), read: Seq::empty() }
    } else {
        let r = run_queue_calls(q, calls.drop_last());
        match calls.last() {
            QueueCall::Init => QueueRun { queue: init_keyboard_spec(r.queue), accepted: r.accepted, read: r.read },
            QueueCall::Add(scancode) => {
                let (q2, status) = add_scancode_spec(r.queue, scancode);
                QueueRun {
                    queue: q2,
                    accepted: if status == ScancodeStatus::Queued {
                        r.accepted.push(scancode)
                    } else {
                        r.accepted
                    },
                    read: r.read,
                }
            },
            QueueCall::Read => {
                let (q2, v) = read_scancode_spec(r.queue);
                QueueRun {
                    queue: q2,
                    accepted: r.accepted,
                    read: match v {
                        Some(x) => r.read.push(x),
                        None => r.read,
                    },
                }
            },
        }
    }
}

/// Over any sequence of `init_keyboard`, `add_scancode` and `read_scancode`
/// calls, the queue never holds more than its capacity, and the scancodes
/// come out first in, first out, each once: what was queued at the start,
/// followed by every accepted scancode, is exactly what was read, followed by
/// what is still queued. Dropped scancodes never come out.
pub proof fn lemma_queue_calls(q: Option<Seq<u8>>, calls: Seq<QueueCall>)
    requires
        queue_within_capacity(q),
    ensures
        queue_within_capacity(run_queue_calls(q, calls).queue),
        queued(q) + run_queue_calls(q, calls).accepted == run_queue_calls(q, calls).read + queued(
            run_queue_calls(q, calls).queue,
        ),
    decreases calls.len(),
{
    if calls.len() > 0 {
        lemma_queue_calls(q, calls.drop_last());
        let r = run_queue_calls(q, calls.drop_last());
        let c = queued(r.queue);
        assert(queued(q) + r.accepted == r.read + c);
        match calls.last() {
            QueueCall::Init => {
                assert(queued(init_keyboard_spec(r.queue)) =~= c);
            },
            QueueCall::Add(scancode) => {
                let (q2, status) = add_scancode_spec(r.queue, scancode);
                if status == ScancodeStatus::Queued {
                    assert(queued(q2) == c.push(scancode));
                    assert(queued(q) + r.accepted.push(scancode) =~= (queued(q) + r.accepted).push(
                        scancode,
                    ));
                    assert(r.read + c.push(scancode) =~= (r.read + c).push(scancode));
                }
            },
            QueueCall::Read => {
                let (q2, v) = read_scancode_spec(r.queue);
                if v is Some {
                    assert(r.read.push(c[0]) + c.drop_first() =~= r.read + c);
                }
            },
        }
    }
}

/// A `pc_keyboard` decoder for scancode set 1 with the US 104-key layout,
/// Ctrl handled as a plain modifier.
#[verifier::external_body]
struct Us104Decoder {
    keyboard: Keyboard<Us104Key, ScancodeSet1>,
}

/// The keyboard decoder, with the scancodes fed to it since it was made.
/// Its decoding state (a pending prefix of a multi-byte scancode, the
/// modifier keys held) is a function of those scancodes.
pub struct KeyDecoder {
    inner: Us104Decoder,
    history: Ghost<Seq<u8>>,
}

impl View for KeyDecoder {
    type V = Seq<u8>;

    /// The scancodes fed to the decoder, oldest first.
    closed spec fn view(&self) -> Seq<u8> {
        self.history@
    }
}

/// What the decoder gives for `scancode` when it has been fed `history`
/// since it was made: `Keyboard::add_byte`, and on a completed key event
/// `Keyboard::process_keyevent`, the key code given by its number; `None`
/// on a decoding error, on a scancode that completes no event, and on an
/// event that decodes to no key.
pub uninterp spec fn us104_key(history: Seq<u8>, scancode: u8) -> Option<KeyInput>;

/// `Keyboard::new(ScancodeSet1::new(), Us104Key, HandleControl::Ignore)`: a
/// decoder in its initial state, no scancode pending, no key held.
#[verifier::external_body]
fn new_us104_decoder() -> Us104Decoder {
    Us104Decoder { keyboard: Keyboard::new(ScancodeSet1::new(), Us104Key, HandleControl::Ignore) }
}

/// `Keyboard::add_byte`, then, on a completed key event,
/// `Keyboard::process_keyevent`: feeds one scancode to the decoder. The
/// result depends on the decoder's state, which `pc_keyboard` sets from the
/// scancodes fed to it since `Keyboard::new` and from nothing else; so it is
/// named by that history and the scancode, and the scancode joins the history.
#[verifier::external_body]
fn decoder_feed(decoder: &mut KeyDecoder, scancode: u8) -> (r: Option<KeyInput>)
    ensures
        final(decoder)@ == old(decoder)@.push(scancode),
        r == us104_key(old(decoder)@, scancode),
{
    match decoder.inner.keyboard.add_byte(scancode) {
        Ok(Some(event)) => match decoder.inner.keyboard.process_keyevent(event) {
            Some(DecodedKey::Unicode(c)) => Some(KeyInput::Unicode(c)),
            Some(DecodedKey::RawKey(k)) => Some(KeyInput::RawKey(k as u8)),
            None => None,
        },
        _ => None,
    }
}

impl KeyDecoder {
    /// A decoder in its initial state: nothing fed to it yet.
    pub fn new() -> (r: KeyDecoder)
        ensures
            r@ == Seq::<u8>::empty(),
    {
        KeyDecoder { inner: new_us104_decoder(), history: Ghost(Seq::empty()) }
    }
}

/// The character the shell gets from `scancode` fed to a decoder that has
/// been fed `history`: the character of the decoded key (see
/// `key_char_spec`), none when no key is decoded.
pub open spec fn decoded_char(history: Seq<u8>, scancode: u8) -> Option<char> {
    match us104_key(history, scancode) {
        Some(key) => key_char_spec(key),
        None => None,
    }
}

/// Feeds one scancode to the decoder and gives the character it completes,
/// if any (see `decoded_char`).
pub fn decode_scancode(decoder: &mut KeyDecoder, scancode: u8) -> (r: Option<char>)
    ensures
        final(decoder)@ == old(decoder)@.push(scancode),
        r == decoded_char(old(decoder)@, scancode),
{
    match decoder_feed(decoder, scancode) {
        Some(input) => key_char(input),
        None => None,
    }
}

/// Takes the oldest scancode out of the queue and feeds it to the decoder:
/// the character the shell gets from it, if any. An empty or uninitialized
/// queue gives `None` and leaves the queue and the decoder as they were.
pub fn next_char(queue: &mut ScancodeQueue, decoder: &mut KeyDecoder) -> (r: Option<char>)
    ensures
        final(queue)@ == read_scancode_spec(old(queue)@).0,
        queue_within_capacity(final(queue)@),
        match read_scancode_spec(old(queue)@).1 {
            Some(scancode) => r == decoded_char(old(decoder)@, scancode) && final(decoder)@ == old(
                decoder,
            )@.push(scancode),
            None => r is None && final(decoder)@ == old(decoder)@,
        },
{
    match read_scancode(queue) {
        Some(scancode) => decode_scancode(decoder, scancode),
        None => None,
    }
}

} // verus!

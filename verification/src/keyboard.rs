//! PS/2 keyboard: the scancode buffer between the interrupt handler and the
//! desktop loop, and the translation of set-1 scancodes to characters.
use vstd::prelude::*;
use crossbeam_queue::ArrayQueue;

verus! {

/// Number of scancodes the buffer holds before new ones are dropped.
pub const SCANCODE_CAPACITY: usize = 128;

#[verifier::external_type_specification]
#[verifier::external_body]
#[verifier::reject_recursive_types(T)]
pub struct ExArrayQueue<T>(ArrayQueue<T>);

/// The scancodes held by a queue, oldest first.
pub uninterp spec fn queue_items(q: ArrayQueue<u8>) -> Seq<u8>;

/// The capacity a queue was created with.
pub uninterp spec fn queue_capacity(q: ArrayQueue<u8>) -> nat;

/// Calls `crossbeam_queue::ArrayQueue::new(cap)`. Claimed: the queue starts
/// empty with capacity `cap`. The crate panics when `cap` is zero or when the
/// power of two above `cap` overflows its 64-bit index, which `requires` rules out.
#[verifier::external_body]
fn queue_new(cap: usize) -> (q: ArrayQueue<u8>)
    requires
        0 < cap < 0x8000_0000_0000_0000u64,
    ensures
        queue_items(q) == Seq::<u8>::empty(),
        queue_capacity(q) == cap,
{
    ArrayQueue::new(cap)
}

/// Calls `crossbeam_queue::ArrayQueue::push` through an exclusive reference, so
/// that no other thread acts on the queue meanwhile. Claimed: below capacity the
/// value is appended and `Ok(())` returned; at capacity the value comes back as
/// `Err` and the queue is unchanged.
#[verifier::external_body]
fn queue_push(q: &mut ArrayQueue<u8>, value: u8) -> (r: Result<(), u8>)
    ensures
        queue_capacity(*final(q)) == queue_capacity(*old(q)),
        queue_items(*old(q)).len() < queue_capacity(*old(q)) ==> {
            &&& r == Ok::<(), u8>(())
            &&& queue_items(*final(q)) == queue_items(*old(q)).push(value)
        },
        queue_items(*old(q)).len() >= queue_capacity(*old(q)) ==> {
            &&& r == Err::<(), u8>(value)
            &&& queue_items(*final(q)) == queue_items(*old(q))
        },
{
    q.push(value)
}

/// Calls `crossbeam_queue::ArrayQueue::pop` through an exclusive reference.
/// Claimed: an empty queue gives `None` and stays empty; otherwise the oldest
/// value is removed and returned.
#[verifier::external_body]
fn queue_pop(q: &mut ArrayQueue<u8>) -> (r: Option<u8>)
    ensures
        queue_capacity(*final(q)) == queue_capacity(*old(q)),
        queue_items(*old(q)).len() == 0 ==> {
            &&& r == None::<u8>
            &&& queue_items(*final(q)) == queue_items(*old(q))
        },
        queue_items(*old(q)).len() > 0 ==> {
            &&& r == Some(queue_items(*old(q))[0])
            &&& queue_items(*final(q)) == queue_items(*old(q)).drop_first()
        },
{
    q.pop()
}

/// The buffer after a scancode arrives: appended unless the buffer is full.
pub open spec fn buffer_after_push(s: Seq<u8>, scancode: u8) -> Seq<u8> {
    if s.len() < SCANCODE_CAPACITY {
        s.push(scancode)
    } else {
        s
    }
}

/// The scancode buffer; `None` until the keyboard has been initialised.
pub struct ScancodeQueue {
    queue: Option<ArrayQueue<u8>>,
}

impl View for ScancodeQueue {
    type V = Option<Seq<u8>>;

    closed spec fn view(&self) -> Option<Seq<u8>> {
        match self.queue {
            Some(q) => Some(queue_items(q)),
            None => None,
        }
    }
}

impl ScancodeQueue {
    /// The buffer, once created, has the fixed capacity and never holds more.
    pub closed spec fn wf(&self) -> bool {
        match self.queue {
            Some(q) => queue_capacity(q) == SCANCODE_CAPACITY && queue_items(q).len()
                <= SCANCODE_CAPACITY,
            None => true,
        }
    }

    /// A buffer that does not exist yet.
    pub fn new() -> (r: Self)
        ensures
            r.wf(),
            r@ == None::<Seq<u8>>,
    {
        ScancodeQueue { queue: None }
    }

    /// Creates the buffer, empty; a buffer created before is replaced.
    pub fn init(&mut self)
        ensures
            final(self).wf(),
            final(self)@ == Some(Seq::<u8>::empty()),
    {
        self.queue = Some(queue_new(SCANCODE_CAPACITY));
    }
}

/// Called by the interrupt handler: appends the scancode to the buffer; drops it
/// when the buffer is full or does not exist yet.
pub fn push_scancode(queue: &mut ScancodeQueue, scancode: u8)
    requires
        old(queue).wf(),
    ensures
        final(queue).wf(),
        final(queue)@ == match old(queue)@ {
            Some(s) => Some(buffer_after_push(s, scancode)),
            None => None,
        },
{
    let taken = queue.queue.take();
    match taken {
        Some(mut q) => {
            let _ = queue_push(&mut q, scancode);
            queue.queue = Some(q);
        },
        None => {},
    }
}

/// Called by the desktop loop: removes and returns the oldest scancode; `None`
/// when the buffer is empty or does not exist yet.
pub fn pop_scancode(queue: &mut ScancodeQueue) -> (r: Option<u8>)
    requires
        old(queue).wf(),
    ensures
        final(queue).wf(),
        match old(queue)@ {
            Some(s) => if s.len() == 0 {
                r == None::<u8> && final(queue)@ == old(queue)@
            } else {
                r == Some(s[0]) && final(queue)@ == Some(s.drop_first())
            },
            None => r == None::<u8> && final(queue)@ == None::<Seq<u8>>,
        },
{
    let taken = queue.queue.take();
    match taken {
        Some(mut q) => {
            let r = queue_pop(&mut q);
            queue.queue = Some(q);
            r
        },
        None => None,
    }
}

/// Scancodes leave the buffer in the order they arrived: for a buffer that is
/// neither empty nor full, taking the oldest scancode and then adding one gives
/// the same buffer as adding first and taking after, and the scancode taken is
/// the same; from an empty buffer, what was just added comes straight back out.
pub proof fn law_scancodes_first_in_first_out(s: Seq<u8>, x: u8)
    requires
        s.len() < SCANCODE_CAPACITY,
    ensures
        buffer_after_push(s, x).len() > 0,
        s.len() == 0 ==> buffer_after_push(s, x)[0] == x,
        s.len() > 0 ==> buffer_after_push(s, x)[0] == s[0],
        s.len() > 0 ==> buffer_after_push(s, x).drop_first() == buffer_after_push(
            s.drop_first(),
            x,
        ),
{
    if s.len() > 0 {
        assert(buffer_after_push(s, x).drop_first() =~= buffer_after_push(s.drop_first(), x));
    }
}

/// Scancodes that arrive while the buffer is full are lost, and the buffer never
/// grows beyond its capacity.
pub proof fn law_full_buffer_drops(s: Seq<u8>, x: u8)
    requires
        s.len() <= SCANCODE_CAPACITY,
    ensures
        buffer_after_push(s, x).len() <= SCANCODE_CAPACITY,
        s.len() == SCANCODE_CAPACITY ==> buffer_after_push(s, x) == s,
{
}

/// Scancodes of the US layout, set 1, that produce a character, and the
/// character produced without and with shift held.
pub open spec fn key_chars(scancode: u8) -> Option<(char, char)> {
    match scancode {
        0x1E => Some(('a', 'A')),
        0x30 => Some(('b', 'B')),
        0x2E => Some(('c', 'C')),
        0x20 => Some(('d', 'D')),
        0x12 => Some(('e', 'E')),
        0x21 => Some(('f', 'F')),
        0x22 => Some(('g', 'G')),
        0x23 => Some(('h', 'H')),
        0x17 => Some(('i', 'I')),
        0x24 => Some(('j', 'J')),
        0x25 => Some(('k', 'K')),
        0x26 => Some(('l', 'L')),
        0x32 => Some(('m', 'M')),
        0x31 => Some(('n', 'N')),
        0x18 => Some(('o', 'O')),
        0x19 => Some(('p', 'P')),
        0x10 => Some(('q', 'Q')),
        0x13 => Some(('r', 'R')),
        0x1F => Some(('s', 'S')),
        0x14 => Some(('t', 'T')),
        0x16 => Some(('u', 'U')),
        0x2F => Some(('v', 'V')),
        0x11 => Some(('w', 'W')),
        0x2D => Some(('x', 'X')),
        0x15 => Some(('y', 'Y')),
        0x2C => Some(('z', 'Z')),
        0x02 => Some(('1', '!')),
        0x03 => Some(('2', '@')),
        0x04 => Some(('3', '#')),
        0x05 => Some(('4', '$')),
        0x06 => Some(('5', '%')),
        0x07 => Some(('6', '^')),
        0x08 => Some(('7', '&')),
        0x09 => Some(('8', '*')),
        0x0A => Some(('9', '(')),
        0x0B => Some(('0', ')')),
        0x39 => Some((' ', ' ')),
        0x1C => Some(('\n', '\n')),
        0x0E => Some(('\x08', '\x08')),
        0x35 => Some(('/', '?')),
        _ => None,
    }
}

/// Press codes of the two shift keys.
pub open spec fn is_shift_press(scancode: u8) -> bool {
    scancode == 0x2A || scancode == 0x36
}

/// Release codes of the two shift keys.
pub open spec fn is_shift_release(scancode: u8) -> bool {
    scancode == 0xAA || scancode == 0xB6
}

/// Whether shift is held after a scancode.
pub open spec fn shift_after(shift: bool, scancode: u8) -> bool {
    if is_shift_press(scancode) {
        true
    } else if is_shift_release(scancode) {
        false
    } else {
        shift
    }
}

/// The character a scancode produces with the given shift state: shift
/// presses and releases produce none, a key of the layout its character,
/// shifted while shift is held, any other scancode none.
pub open spec fn key_result(shift: bool, scancode: u8) -> Option<char> {
    if is_shift_press(scancode) || is_shift_release(scancode) {
        None
    } else {
        match key_chars(scancode) {
            Some(pair) => Some(if shift { pair.1 } else { pair.0 }),
            None => None,
        }
    }
}

/// The keyboard's modifier state.
pub struct KeyboardState {
    pub shift_pressed: bool,
}

impl KeyboardState {
    /// No modifier held.
    pub fn new() -> (r: Self)
        ensures
            !r.shift_pressed,
    {
        KeyboardState { shift_pressed: false }
    }

    /// Translates one scancode: shift presses and releases update the shift
    /// state and give no character; a key of the layout gives its character,
    /// shifted while shift is held; any other scancode gives nothing.
    pub fn scancode_to_ascii(&mut self, scancode: u8) -> (r: Option<char>)
        ensures
            final(self).shift_pressed == shift_after(old(self).shift_pressed, scancode),
            r == key_result(old(self).shift_pressed, scancode),
    {
        let shift = self.shift_pressed;
        let pick = |lower: char, upper: char| -> (c: char)
            ensures
                c == (if shift { upper } else { lower }),
            {
                if shift {
                    upper
                } else {
                    lower
                }
            };
        match scancode {
            0x2A | 0x36 => {
                self.shift_pressed = true;
                None
            },
            0xAA | 0xB6 => {
                self.shift_pressed = false;
                None
            },
            0x1E => Some(pick('a', 'A')),
            0x30 => Some(pick('b', 'B')),
            0x2E => Some(pick('c', 'C')),
            0x20 => Some(pick('d', 'D')),
            0x12 => Some(pick('e', 'E')),
            0x21 => Some(pick('f', 'F')),
            0x22 => Some(pick('g', 'G')),
            0x23 => Some(pick('h', 'H')),
            0x17 => Some(pick('i', 'I')),
            0x24 => Some(pick('j', 'J')),
            0x25 => Some(pick('k', 'K')),
            0x26 => Some(pick('l', 'L')),
            0x32 => Some(pick('m', 'M')),
            0x31 => Some(pick('n', 'N')),
            0x18 => Some(pick('o', 'O')),
            0x19 => Some(pick('p', 'P')),
            0x10 => Some(pick('q', 'Q')),
            0x13 => Some(pick('r', 'R')),
            0x1F => Some(pick('s', 'S')),
            0x14 => Some(pick('t', 'T')),
            0x16 => Some(pick('u', 'U')),
            0x2F => Some(pick('v', 'V')),
            0x11 => Some(pick('w', 'W')),
            0x2D => Some(pick('x', 'X')),
            0x15 => Some(pick('y', 'Y')),
            0x2C => Some(pick('z', 'Z')),
            0x02 => Some(pick('1', '!')),
            0x03 => Some(pick('2', '@')),
            0x04 => Some(pick('3', '#')),
            0x05 => Some(pick('4', '$')),
            0x06 => Some(pick('5', '%')),
            0x07 => Some(pick('6', '^')),
            0x08 => Some(pick('7', '&')),
            0x09 => Some(pick('8', '*')),
            0x0A => Some(pick('9', '(')),
            0x0B => Some(pick('0', ')')),
            0x39 => Some(' '),
            0x1C => Some('\n'),
            0x0E => Some('\x08'),
            0x35 => Some(pick('/', '?')),
            _ => None,
        }
    }
}

/// Every character the translation produces is ASCII.
pub proof fn law_translation_is_ascii(scancode: u8)
    ensures
        match key_chars(scancode) {
            Some(pair) => (pair.0 as u32) < 128 && (pair.1 as u32) < 128,
            None => true,
        },
{
}

/// Shift capitalises letters: for every scancode that gives a lower-case
/// letter without shift, the same scancode gives the upper-case letter with
/// shift held, and pressing either shift key first holds shift.
pub proof fn law_shift_gives_upper_case(held: bool, scancode: u8)
    ensures
        shift_after(held, 0x2A) && shift_after(held, 0x36),
        match key_result(false, scancode) {
            Some(l) => ('a' <= l && l <= 'z') ==> match key_result(true, scancode) {
                Some(u) => u as u32 + 32 == l as u32,
                None => false,
            },
            None => true,
        },
{
}

/// Without shift a letter key gives a lower-case letter, and every key of the
/// layout gives a character both with and without shift.
pub proof fn law_unshifted_letters_are_lower_case(scancode: u8)
    ensures
        key_result(false, scancode) is Some <==> key_result(true, scancode) is Some,
        match key_result(true, scancode) {
            Some(u) => ('A' <= u && u <= 'Z') ==> match key_result(false, scancode) {
                Some(l) => l as u32 == u as u32 + 32,
                None => false,
            },
            None => true,
        },
{
}

/// The controller command byte with the keyboard interrupt (bit 0) enabled and
/// the keyboard clock (bit 4 clear means running) enabled.
pub fn keyboard_command_byte(status: u8) -> (r: u8)
    ensures
        r == (status | 0x01u8) & !0x10u8,
{
    let mut s = status;
    s = s | 0x01;
    s = s & !0x10u8;
    s
}

/// Status bit 1: the controller's input buffer is full, so it cannot take a
/// byte yet.
pub fn input_buffer_full(status: u8) -> (r: bool)
    ensures
        r == (status & 0x02u8 != 0),
{
    (status & 0x02) != 0
}

/// Status bit 0: the controller's output buffer holds a byte to read.
pub fn output_buffer_full(status: u8) -> (r: bool)
    ensures
        r == (status & 0x01u8 != 0),
{
    (status & 0x01) != 0
}

/// The reply with which the keyboard acknowledges a command.
pub const KEYBOARD_ACK: u8 = 0xFA;

} // verus!

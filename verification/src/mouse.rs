//! PS/2 mouse: reassembly of the three-byte movement packets, the cursor
//! position they move, and double-click detection.
use vstd::prelude::*;

verus! {

/// Rightmost cursor column the packets can reach.
pub const MAX_X: i32 = 1910;

/// Lowest cursor row the packets can reach.
pub const MAX_Y: i32 = 1070;

/// Ticks within which a second press counts as a double click.
pub const DOUBLE_CLICK_TICKS: u64 = 300;

/// Number of status polls before a wait for the controller gives up.
pub const WAIT_POLLS: u32 = 100_000;

/// Position and buttons of the mouse.
#[derive(Clone, Copy, Debug, PartialEq, Eq, Structural)]
pub struct MouseState {
    pub x: i32,
    pub y: i32,
    pub left_button: bool,
    pub right_button: bool,
}

/// `v` limited to `lo..=hi`.
pub open spec fn clamp(v: int, lo: int, hi: int) -> int {
    if v < lo {
        lo
    } else if v > hi {
        hi
    } else {
        v
    }
}

/// The cursor lies on the screen area the packets can reach.
pub open spec fn on_screen(s: MouseState) -> bool {
    0 <= s.x <= MAX_X && 0 <= s.y <= MAX_Y
}

/// Movement along one axis: the nine-bit two's-complement value whose low
/// byte is `low` and whose sign is `negative`.
pub open spec fn delta(low: u8, negative: bool) -> int {
    if negative {
        low as int - 256
    } else {
        low as int
    }
}

/// The state after a complete packet: packets flagging an overflow (bit 6 or 7
/// of the first byte) are ignored; otherwise the cursor moves by the packet's
/// deltas, y upwards, limited to the screen, and the left button takes bit 0.
pub open spec fn apply_packet(s: MouseState, flags: u8, dx: u8, dy: u8) -> MouseState {
    if flags & 0x40 != 0 || flags & 0x80 != 0 {
        s
    } else {
        MouseState {
            x: clamp(s.x + delta(dx, flags & 0x10 != 0), 0, MAX_X as int) as i32,
            y: clamp(s.y - delta(dy, flags & 0x20 != 0), 0, MAX_Y as int) as i32,
            left_button: flags & 0x01 != 0,
            right_button: s.right_button,
        }
    }
}

/// One byte through the packet reassembly: from the index of the byte
/// expected, the packet so far and the cursor state, to the same three after
/// the byte.
pub open spec fn mouse_step(phase: u8, packet: Seq<u8>, s: MouseState, byte: u8) -> (
    u8,
    Seq<u8>,
    MouseState,
) {
    if phase == 0 {
        if byte & 0x08 != 0 {
            (1u8, packet.update(0, byte), s)
        } else {
            (0u8, packet, s)
        }
    } else if phase == 1 {
        (2u8, packet.update(1, byte), s)
    } else if phase == 2 {
        (0u8, packet.update(2, byte), apply_packet(s, packet[0], packet[1], byte))
    } else {
        (0u8, packet, s)
    }
}

/// The mouse driver: cursor state, the packet being assembled, and the
/// double-click tracker.
pub struct MouseDriver {
    pub state: MouseState,
    /// Index of the packet byte expected next.
    pub packet_byte: u8,
    pub packet: [u8; 3],
    pub last_click_tick: u64,
    pub is_double_click: bool,
}

impl MouseDriver {
    /// The driver at boot: cursor in the middle of a 1920x1080 screen, no
    /// button held, waiting for the first byte of a packet.
    pub fn new() -> (r: Self)
        ensures
            r.state == (MouseState { x: 960, y: 540, left_button: false, right_button: false }),
            r.packet_byte == 0,
            r.packet@ == seq![0u8, 0u8, 0u8],
            r.last_click_tick == 0,
            !r.is_double_click,
    {
        MouseDriver {
            state: MouseState { x: 960, y: 540, left_button: false, right_button: false },
            packet_byte: 0,
            packet: [0u8, 0u8, 0u8],
            last_click_tick: 0,
            is_double_click: false,
        }
    }

    /// Takes one byte from the mouse. A first byte must have bit 3 set, else it
    /// is skipped to regain sync; the third byte completes the packet, which is
    /// then applied. An out-of-range byte index restarts the packet.
    pub fn handle_interrupt(&mut self, byte: u8)
        requires
            on_screen(old(self).state),
        ensures
            on_screen(final(self).state),
            final(self).last_click_tick == old(self).last_click_tick,
            final(self).is_double_click == old(self).is_double_click,
            (final(self).packet_byte, final(self).packet@, final(self).state) == mouse_step(
                old(self).packet_byte,
                old(self).packet@,
                old(self).state,
                byte,
            ),
    {
        match self.packet_byte {
            0 => {
                if byte & 0x08 != 0 {
                    self.packet[0] = byte;
                    self.packet_byte = 1;
                }
            },
            1 => {
                self.packet[1] = byte;
                self.packet_byte = 2;
            },
            2 => {
                self.packet[2] = byte;
                self.packet_byte = 0;
                self.process_packet();
            },
            _ => {
                self.packet_byte = 0;
            },
        }
    }

    /// Applies the assembled packet to the cursor state.
    fn process_packet(&mut self)
        requires
            on_screen(old(self).state),
        ensures
            final(self).state == apply_packet(
                old(self).state,
                old(self).packet[0],
                old(self).packet[1],
                old(self).packet[2],
            ),
            on_screen(final(self).state),
            final(self).packet == old(self).packet,
            final(self).packet_byte == old(self).packet_byte,
            final(self).last_click_tick == old(self).last_click_tick,
            final(self).is_double_click == old(self).is_double_click,
    {
        let flags = self.packet[0];
        if (flags & 0x40) != 0 || (flags & 0x80) != 0 {
            return ;
        }
        let mut x_delta = self.packet[1] as i32;
        let mut y_delta = self.packet[2] as i32;
        if (flags & 0x10) != 0 {
            x_delta -= 256;
        }
        if (flags & 0x20) != 0 {
            y_delta -= 256;
        }
        let new_x = self.state.x + x_delta;
        let new_y = self.state.y - y_delta;
        self.state.x = clamp_i32(new_x, 0, MAX_X);
        self.state.y = clamp_i32(new_y, 0, MAX_Y);
        self.state.left_button = (flags & 0x01) != 0;
    }

    /// The cursor position.
    pub fn get_mouse_pos(&self) -> (r: (i32, i32))
        ensures
            r == (self.state.x, self.state.y),
    {
        (self.state.x, self.state.y)
    }

    /// Whether the left button is held.
    pub fn is_left_pressed(&self) -> (r: bool)
        ensures
            r == self.state.left_button,
    {
        self.state.left_button
    }

    /// While the left button is held, a press within 300 ticks of the last one
    /// raises the double-click flag, and the press time is recorded; with the
    /// button up the flag is lowered.
    pub fn check_double_click(&mut self, current_ticks: u64)
        requires
            old(self).state.left_button ==> current_ticks >= old(self).last_click_tick,
        ensures
            final(self).state == old(self).state,
            final(self).packet == old(self).packet,
            final(self).packet_byte == old(self).packet_byte,
            old(self).state.left_button ==> {
                &&& final(self).last_click_tick == current_ticks
                &&& final(self).is_double_click == (current_ticks - old(self).last_click_tick
                    < DOUBLE_CLICK_TICKS || old(self).is_double_click)
            },
            !old(self).state.left_button ==> {
                &&& final(self).last_click_tick == old(self).last_click_tick
                &&& !final(self).is_double_click
            },
    {
        if self.is_left_pressed() {
            let delta = current_ticks - self.last_click_tick;
            if delta < DOUBLE_CLICK_TICKS {
                self.is_double_click = true;
            }
            self.last_click_tick = current_ticks;
        } else {
            self.is_double_click = false;
        }
    }

    /// After the hardware reset the driver waits for the first byte of a packet.
    pub fn reset(&mut self)
        ensures
            final(self).packet_byte == 0,
            final(self).state == old(self).state,
            final(self).packet == old(self).packet,
            final(self).last_click_tick == old(self).last_click_tick,
            final(self).is_double_click == old(self).is_double_click,
    {
        self.packet_byte = 0;
    }
}

/// `v` limited to `lo..=hi`.
fn clamp_i32(v: i32, lo: i32, hi: i32) -> (r: i32)
    requires
        lo <= hi,
    ensures
        r == clamp(v as int, lo as int, hi as int),
{
    if v < lo {
        lo
    } else if v > hi {
        hi
    } else {
        v
    }
}

/// Whatever the packets say, the cursor never leaves the screen.
pub proof fn law_cursor_stays_on_screen(s: MouseState, flags: u8, dx: u8, dy: u8)
    requires
        on_screen(s),
    ensures
        on_screen(apply_packet(s, flags, dx, dy)),
{
}

/// Three bytes make one packet: from the start of a packet, a synchronised
/// first byte and any two more bytes leave the cursor exactly where the packet
/// moves it, with the driver waiting for a new packet.
pub proof fn law_three_bytes_make_a_packet(
    packet: Seq<u8>,
    s: MouseState,
    b0: u8,
    b1: u8,
    b2: u8,
)
    requires
        packet.len() == 3,
        b0 & 0x08 != 0,
    ensures
        ({
            let first = mouse_step(0, packet, s, b0);
            let second = mouse_step(first.0, first.1, first.2, b1);
            let third = mouse_step(second.0, second.1, second.2, b2);
            third.0 == 0 && third.2 == apply_packet(s, b0, b1, b2)
        }),
{
}

/// A first byte without bit 3 set is skipped: the driver stays at the start
/// of a packet and the cursor does not move.
pub proof fn law_unsynchronised_byte_skipped(packet: Seq<u8>, s: MouseState, b: u8)
    requires
        b & 0x08 == 0,
    ensures
        mouse_step(0, packet, s, b) == (0u8, packet, s),
{
}

/// The left button is bit 0 of a packet's first byte and only that bit: after
/// a synchronised packet without overflow (first byte below 64, so neither
/// bit 6 nor bit 7 set), the left button is held exactly when the first byte
/// is odd, whatever the other button bits say, and the right button keeps its
/// state; a packet flagging an overflow changes nothing.
pub proof fn law_left_button_is_bit_zero(packet: Seq<u8>, s: MouseState, b0: u8, b1: u8, b2: u8)
    requires
        packet.len() == 3,
        b0 & 0x08 != 0,
    ensures
        ({
            let first = mouse_step(0, packet, s, b0);
            let second = mouse_step(first.0, first.1, first.2, b1);
            let after = mouse_step(second.0, second.1, second.2, b2).2;
            &&& b0 < 64 ==> (after.left_button <==> b0 % 2 == 1)
            &&& after.right_button == s.right_button
            &&& b0 >= 64 ==> after == s
        }),
{
    assert((b0 & 0x01u8 != 0) == (b0 % 2 == 1)) by (bit_vector);
    assert(b0 < 64 ==> b0 & 0x40u8 == 0 && b0 & 0x80u8 == 0) by (bit_vector);
    assert(b0 >= 64 ==> b0 & 0x40u8 != 0 || b0 & 0x80u8 != 0) by (bit_vector);
}

/// The controller command byte with the auxiliary (mouse) interrupt, bit 1,
/// enabled and the mouse clock, bit 5 clear means running, enabled.
pub fn mouse_command_byte(status: u8) -> (r: u8)
    ensures
        r == (status | 0x02u8) & !0x20u8,
{
    let mut s = status;
    s = s | 0x02;
    s = s & !0x20u8;
    s
}

/// What a bounded wait for the controller does after one status poll.
#[derive(Clone, Copy, Debug, PartialEq, Eq, Structural)]
pub enum WaitStep {
    /// The controller is ready: go on.
    Ready,
    /// Not ready yet: poll again.
    Poll,
    /// The polls ran out.
    TimedOut,
}

/// A wait for the PS/2 controller that gives up after `WAIT_POLLS` polls.
pub struct ControllerWait {
    pub remaining: u32,
}

impl ControllerWait {
    /// A fresh wait with the full number of polls.
    pub fn new() -> (r: Self)
        ensures
            r.remaining == WAIT_POLLS,
    {
        ControllerWait { remaining: WAIT_POLLS }
    }

    /// Takes the condition read from one status poll. While the condition does
    /// not hold and polls remain, one poll is used up and the wait goes on; a
    /// wait whose polls are used up has timed out, even if the condition holds
    /// on that last poll.
    pub fn poll(&mut self, ready: bool) -> (r: WaitStep)
        ensures
            !ready && old(self).remaining > 0 ==> r == WaitStep::Poll && final(self).remaining
                == old(self).remaining - 1,
            (ready || old(self).remaining == 0) ==> final(self).remaining == old(self).remaining,
            (ready || old(self).remaining == 0) && old(self).remaining == 0 ==> r
                == WaitStep::TimedOut,
            ready && old(self).remaining > 0 ==> r == WaitStep::Ready,
    {
        if !ready && self.remaining > 0 {
            self.remaining = self.remaining - 1;
            WaitStep::Poll
        } else if self.remaining == 0 {
            WaitStep::TimedOut
        } else {
            WaitStep::Ready
        }
    }
}

} // verus!

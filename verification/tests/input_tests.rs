use aether_kernel::keyboard::{
    input_buffer_full, keyboard_command_byte, output_buffer_full, pop_scancode, push_scancode,
    KeyboardState, ScancodeQueue, SCANCODE_CAPACITY,
};
use aether_kernel::mouse::{mouse_command_byte, ControllerWait, MouseDriver, MouseState, WaitStep};

#[test]
fn scancodes_come_out_in_order() {
    let mut q = ScancodeQueue::new();
    q.init();
    push_scancode(&mut q, 0x1E);
    push_scancode(&mut q, 0x30);
    assert_eq!(pop_scancode(&mut q), Some(0x1E));
    push_scancode(&mut q, 0x2E);
    assert_eq!(pop_scancode(&mut q), Some(0x30));
    assert_eq!(pop_scancode(&mut q), Some(0x2E));
    assert_eq!(pop_scancode(&mut q), None);
}

#[test]
fn scancodes_before_init_are_dropped() {
    let mut q = ScancodeQueue::new();
    push_scancode(&mut q, 0x1E);
    assert_eq!(pop_scancode(&mut q), None);
    q.init();
    assert_eq!(pop_scancode(&mut q), None);
}

#[test]
fn full_scancode_buffer_drops_new_codes() {
    let mut q = ScancodeQueue::new();
    q.init();
    for i in 0..SCANCODE_CAPACITY {
        push_scancode(&mut q, i as u8);
    }
    push_scancode(&mut q, 0xEE);
    for i in 0..SCANCODE_CAPACITY {
        assert_eq!(pop_scancode(&mut q), Some(i as u8));
    }
    assert_eq!(pop_scancode(&mut q), None);
}

#[test]
fn scancode_translation_letters_and_shift() {
    let mut kb = KeyboardState::new();
    assert_eq!(kb.scancode_to_ascii(0x1E), Some('a'));
    assert_eq!(kb.scancode_to_ascii(0x2A), None);
    assert!(kb.shift_pressed);
    assert_eq!(kb.scancode_to_ascii(0x1E), Some('A'));
    assert_eq!(kb.scancode_to_ascii(0x02), Some('!'));
    assert_eq!(kb.scancode_to_ascii(0x35), Some('?'));
    assert_eq!(kb.scancode_to_ascii(0xAA), None);
    assert!(!kb.shift_pressed);
    assert_eq!(kb.scancode_to_ascii(0x02), Some('1'));
    assert_eq!(kb.scancode_to_ascii(0x36), None);
    assert!(kb.shift_pressed);
    assert_eq!(kb.scancode_to_ascii(0xB6), None);
    assert!(!kb.shift_pressed);
}

#[test]
fn scancode_translation_special_keys() {
    let mut kb = KeyboardState::new();
    kb.shift_pressed = true;
    assert_eq!(kb.scancode_to_ascii(0x39), Some(' '));
    assert_eq!(kb.scancode_to_ascii(0x1C), Some('\n'));
    assert_eq!(kb.scancode_to_ascii(0x0E), Some('\x08'));
    assert_eq!(kb.scancode_to_ascii(0x0B), Some(')'));
    assert_eq!(kb.scancode_to_ascii(0x01), None);
    assert_eq!(kb.scancode_to_ascii(0x9E), None);
    assert!(kb.shift_pressed);
}

#[test]
fn every_translated_character_is_ascii() {
    for shift in [false, true] {
        for sc in 0..=255u8 {
            let mut kb = KeyboardState { shift_pressed: shift };
            if let Some(c) = kb.scancode_to_ascii(sc) {
                assert!(c.is_ascii());
            }
        }
    }
}

#[test]
fn keyboard_controller_bytes() {
    assert_eq!(keyboard_command_byte(0x10), 0x01);
    assert_eq!(keyboard_command_byte(0xFF), 0xEF);
    assert!(input_buffer_full(0x02));
    assert!(!input_buffer_full(0x01));
    assert!(output_buffer_full(0x01));
    assert!(!output_buffer_full(0x02));
}

fn feed(m: &mut MouseDriver, bytes: &[u8]) {
    for b in bytes {
        m.handle_interrupt(*b);
    }
}

#[test]
fn mouse_packet_moves_cursor() {
    let mut m = MouseDriver::new();
    assert_eq!(m.get_mouse_pos(), (960, 540));
    // Right 10, up 5, left button down.
    feed(&mut m, &[0x09, 10, 5]);
    assert_eq!(m.get_mouse_pos(), (970, 535));
    assert!(m.is_left_pressed());
    assert_eq!(m.packet_byte, 0);
}

#[test]
fn mouse_negative_deltas_sign_extend() {
    let mut m = MouseDriver::new();
    // x sign bit with 0xF6 = -10, y sign bit with 0xFB = -5 (moves down).
    feed(&mut m, &[0x08 | 0x10 | 0x20, 0xF6, 0xFB]);
    assert_eq!(m.get_mouse_pos(), (950, 545));
    assert!(!m.is_left_pressed());
}

#[test]
fn mouse_cursor_is_clamped_to_screen() {
    let mut m = MouseDriver::new();
    for _ in 0..20 {
        feed(&mut m, &[0x08, 255, 0]);
    }
    assert_eq!(m.get_mouse_pos(), (1910, 540));
    for _ in 0..20 {
        feed(&mut m, &[0x08 | 0x10, 0x00, 0]);
    }
    assert_eq!(m.get_mouse_pos().0, 0);
    for _ in 0..10 {
        feed(&mut m, &[0x08 | 0x20, 0, 0x00]);
    }
    assert_eq!(m.get_mouse_pos().1, 1070);
}

#[test]
fn mouse_skips_unsynchronised_byte() {
    let mut m = MouseDriver::new();
    m.handle_interrupt(0x01);
    assert_eq!(m.packet_byte, 0);
    feed(&mut m, &[0x08, 1, 1]);
    assert_eq!(m.get_mouse_pos(), (961, 539));
}

#[test]
fn mouse_overflow_packet_ignored() {
    let mut m = MouseDriver::new();
    feed(&mut m, &[0x08 | 0x40 | 0x01, 100, 100]);
    assert_eq!(m.get_mouse_pos(), (960, 540));
    assert!(!m.is_left_pressed());
    feed(&mut m, &[0x08 | 0x80, 100, 100]);
    assert_eq!(m.get_mouse_pos(), (960, 540));
}

#[test]
fn mouse_bad_index_restarts_packet() {
    let mut m = MouseDriver::new();
    m.packet_byte = 7;
    m.handle_interrupt(0x08);
    assert_eq!(m.packet_byte, 0);
    m.packet_byte = 2;
    m.reset();
    assert_eq!(m.packet_byte, 0);
}

#[test]
fn mouse_double_click_window() {
    let mut m = MouseDriver::new();
    m.state = MouseState { x: 10, y: 10, left_button: true, right_button: false };
    m.check_double_click(1000);
    assert!(!m.is_double_click);
    assert_eq!(m.last_click_tick, 1000);
    m.check_double_click(1200);
    assert!(m.is_double_click);
    m.state.left_button = false;
    m.check_double_click(1250);
    assert!(!m.is_double_click);
    assert_eq!(m.last_click_tick, 1200);
    m.state.left_button = true;
    m.check_double_click(1600);
    assert!(!m.is_double_click);
}

#[test]
fn mouse_controller_byte_and_wait() {
    assert_eq!(mouse_command_byte(0x20), 0x02);
    assert_eq!(mouse_command_byte(0x00), 0x02);
    let mut w = ControllerWait::new();
    assert_eq!(w.poll(false), WaitStep::Poll);
    assert_eq!(w.remaining, 99_999);
    assert_eq!(w.poll(true), WaitStep::Ready);
    let mut w = ControllerWait { remaining: 1 };
    assert_eq!(w.poll(false), WaitStep::Poll);
    assert_eq!(w.poll(false), WaitStep::TimedOut);
    assert_eq!(w.poll(true), WaitStep::TimedOut);
}

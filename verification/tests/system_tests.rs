use aether_kernel::cpu::{fpu_cr0, sse_cr4, KEYBOARD_VECTOR, MOUSE_VECTOR, TIMER_VECTOR};
use aether_kernel::hda::{
    is_audio_function_group, needs_pin_caps, route_verbs, subordinate_nodes, verb_command,
    widget_type, AfgScan, AfgSearch, BdlEntry, FunctionGroupScan, HdaController, VerbWait, VerbWaitStep,
};
use aether_kernel::process::{Scheduler, StackWrite, Task};
use aether_kernel::timer::{get_ticks, init, tick, TickCounter};
use aether_kernel::xhci::{
    controller_not_ready, is_halted, reset_in_progress, run_command, slots_config, stop_command,
    CapabilityRegisters, XhciController, XhciData,
};

#[test]
fn ticks_count_up() {
    let mut t = TickCounter::new();
    assert_eq!(get_ticks(&t), 0);
    tick(&mut t);
    tick(&mut t);
    assert_eq!(get_ticks(&t), 2);
}

#[test]
fn pit_program_for_1000_hz() {
    let p = init(1000);
    // 1193182 / 1000 = 1193 = 0x04A9.
    assert_eq!(p.command, 0x36);
    assert_eq!(p.low, 0xA9);
    assert_eq!(p.high, 0x04);
    let p = init(1);
    // 1193182 = 0x1234DE: the divisor's third byte is not sent.
    assert_eq!((p.low, p.high), (0xDE, 0x34));
}

#[test]
fn empty_task_is_inactive() {
    let t = Task::empty();
    assert_eq!(t, Task { id: 0, rsp: 0, active: false, fpu_state_addr: 0 });
}

#[test]
fn scheduler_round_robin() {
    let mut s = Scheduler::new();
    assert_eq!(s.schedule(), None);
    assert_eq!(s.current, 0);
    let writes = s.init_scheduler(0x1000, 0x2000, 0x10000, 0xDEAD);
    assert_eq!(s.schedule(), Some((1, 0)));
    assert_eq!(s.current, 1);
    assert_eq!(s.schedule(), Some((0, 1)));
    assert_eq!(s.schedule(), Some((1, 0)));
    assert_eq!(writes.len(), 7);
    assert_eq!(writes[0], StackWrite { addr: 0x10000 + 8192 - 8, value: 0xDEAD });
    for k in 1..7u64 {
        assert_eq!(writes[k as usize], StackWrite { addr: 0x10000 + 8192 - 8 * (k + 1), value: 0 });
    }
    assert_eq!(s.tasks[1].rsp, 0x10000 + 8192 - 56);
    assert!(s.tasks[0].active && s.tasks[1].active);
    assert_eq!(s.tasks[0].fpu_state_addr, 0x1000);
    assert_eq!(s.tasks[1].fpu_state_addr, 0x2000);
}

#[test]
fn scheduler_stays_when_next_inactive() {
    let mut s = Scheduler::new();
    s.init_scheduler(0x1000, 0x2000, 0x10000, 0xDEAD);
    s.tasks[1].active = false;
    assert_eq!(s.schedule(), None);
    assert_eq!(s.current, 0);
}

#[test]
fn control_registers_for_fpu_and_sse() {
    assert_eq!(fpu_cr0(0x8000_0015), 0x8000_0013);
    assert_eq!(fpu_cr0(0), 2);
    assert_eq!(sse_cr4(0x20), 0x620);
    assert_eq!((TIMER_VECTOR, KEYBOARD_VECTOR, MOUSE_VECTOR), (32, 33, 44));
}

#[test]
fn hda_verbs_and_parsing() {
    assert_eq!(verb_command(2, 0xF0009), 0x002F_0009);
    assert_eq!(subordinate_nodes(0x0002_0005), (2, 5));
    assert!(is_audio_function_group(0x0000_0101));
    assert!(!is_audio_function_group(0x0000_0002));
    assert_eq!(widget_type(0x0040_0000), 4);
    assert!(needs_pin_caps(0x0040_0000));
    assert!(!needs_pin_caps(0x0000_0000));
    let v = route_verbs(2, 3);
    assert_eq!(v, vec![(2, 0x70500), (3, 0x70500), (2, 0x70601), (2, 0x3907F), (3, 0x70740), (3, 0x3B07F)]);
}

#[test]
fn hda_output_path_search() {
    let mut s = AfgSearch::new();
    assert_eq!(s.route(), None);
    s.consider(2, 0x0000_0000, 0);
    s.consider(3, 0x0000_0000, 0);
    s.consider(4, 0x0040_0000, 0x0);
    s.consider(5, 0x0040_0000, 0x10);
    s.consider(6, 0x0040_0000, 0x10);
    assert_eq!((s.dac_node, s.pin_node), (2, 5));
    assert_eq!(s.route(), Some((2, 5)));
}

#[test]
fn hda_verb_wait_times_out() {
    let mut w = VerbWait::new();
    assert_eq!(w.poll(true), VerbWaitStep::Ready);
    let mut steps = 0;
    loop {
        match w.poll(false) {
            VerbWaitStep::Poll => steps += 1,
            VerbWaitStep::TimedOut => break,
            VerbWaitStep::Ready => unreachable!(),
        }
    }
    assert_eq!(steps, 100000);
}

#[test]
fn hda_stream_setup() {
    let hda = HdaController::new(0xF000_0000, 0xFFFF_8000_0000_0000usize, 0xFFFF_8000_0010_0000usize);
    let s = hda.stream_setup(0xFFFF_8000_0020_0000usize, 4096);
    assert_eq!(s.sd_base, 0xFFFF_8000_F000_0100usize);
    assert_eq!(s.bdl_entry, BdlEntry { address: 0x20_0000, length: 4096, flags: 1 });
    assert_eq!(s.bdl_phys, 0x10_0000);
    assert_eq!(s.control, 1 << 20);
    assert_eq!((s.cbl, s.lvi, s.format), (4096, 0, 0x11));
    assert_eq!(hda.gctl_addr(), 0xFFFF_8000_F000_0008usize);
    assert_eq!(hda.verb_registers().2, 0xFFFF_8000_F000_0068usize);
}

#[test]
fn xhci_ring_addresses() {
    let caps = CapabilityRegisters::new(0x20, 0x100, 0x0800_0040, 0, 0, 0, 0x3000, 0x2000, 0);
    let x = XhciController::new(0xFE00_0000, 0x1_0000_0000, 0x1_0050_0000, &caps);
    assert_eq!(x.op_regs(), 0x1_FE00_0020);
    let r = x.init_rings(&caps);
    assert_eq!(r.dcbaap, 0x50_0000);
    assert_eq!(r.crcr, 0x50_0801);
    assert_eq!(r.er_phys, 0x50_1800);
    assert_eq!(r.ste_phys, 0x50_2800);
    assert_eq!(r.ir0, 0x1_FE00_2020);
    let mut d = XhciData::zeroed();
    d.set_event_ring_segment(r.er_phys);
    assert_eq!(d.event_ring_ste, [0x50_1800, 256]);
    assert_eq!(slots_config(caps.hcs_params1), 0x40);
}

#[test]
fn xhci_command_bits() {
    assert_eq!(stop_command(0x5), 0x4);
    assert_eq!(run_command(0x4), 0x5);
    assert!(is_halted(0x1));
    assert!(reset_in_progress(0x2));
    assert!(!reset_in_progress(0x1));
    assert!(controller_not_ready(0x800));
    assert!(!controller_not_ready(0x7FF));
}

/// A codec answering from a table of (node, verb, response); 0 otherwise.
fn codec(table: &[(u32, u32, u32)], node: u32, verb: u32) -> u32 {
    table.iter().find(|e| e.0 == node && e.1 == verb).map(|e| e.2).unwrap_or(0)
}

#[test]
fn hda_function_group_scan_stops_at_first_audio_group() {
    // Groups at nodes 1, 2, 3; node 1 is a modem group, node 2 audio.
    let table = [(1, 0xF0005, 0x02), (2, 0xF0005, 0x101), (3, 0xF0005, 0x01)];
    let mut scan = FunctionGroupScan::new(0x0001_0003);
    let mut asked = Vec::new();
    while let Some((node, verb)) = scan.next_query() {
        asked.push((node, verb));
        scan.feed(codec(&table, node, verb));
    }
    assert_eq!(asked, vec![(1, 0xF0005), (2, 0xF0005)]);
    assert_eq!(scan.group(), Some(2));
    let mut none = FunctionGroupScan::new(0x0001_0001);
    assert_eq!(none.next_query(), Some((1, 0xF0005)));
    none.feed(0x02);
    assert_eq!(none.next_query(), None);
    assert_eq!(none.group(), None);
}

#[test]
fn hda_afg_scan_finds_first_dac_and_output_pin() {
    // Widgets 2..=7: 2 mixer, 3 DAC, 4 pin without output, 5 DAC,
    // 6 output pin, 7 output pin.
    let table = [
        (2, 0xF0009, 0x0020_0000),
        (3, 0xF0009, 0x0000_0000),
        (4, 0xF0009, 0x0040_0000),
        (4, 0xF000C, 0x0000_0020),
        (5, 0xF0009, 0x0000_0000),
        (6, 0xF0009, 0x0040_0000),
        (6, 0xF000C, 0x0000_0010),
        (7, 0xF0009, 0x0040_0000),
        (7, 0xF000C, 0x0000_0010),
    ];
    let mut scan = AfgScan::new(0x0002_0006);
    let mut asked = Vec::new();
    while let Some((node, verb)) = scan.next_query() {
        asked.push((node, verb));
        scan.feed(codec(&table, node, verb));
    }
    assert_eq!(
        asked,
        vec![
            (2, 0xF0009), (3, 0xF0009), (4, 0xF0009), (4, 0xF000C), (5, 0xF0009),
            (6, 0xF0009), (6, 0xF000C), (7, 0xF0009), (7, 0xF000C),
        ]
    );
    assert_eq!(scan.route(), Some((3, 6)));
    // No output pin: no route.
    let mut scan = AfgScan::new(0x0002_0002);
    while let Some((node, verb)) = scan.next_query() {
        scan.feed(codec(&table, node, verb));
    }
    assert_eq!(scan.route(), None);
    // No widgets at all.
    assert_eq!(AfgScan::new(0x0005_0000).next_query(), None);
}

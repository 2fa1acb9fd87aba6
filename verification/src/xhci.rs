//! xHCI (USB 3) host controller: the data structures handed to the
//! controller, their physical addresses, and the register values written to
//! reset, configure and start it. The register accesses are outside this
//! crate.
use vstd::prelude::*;

verus! {

/// Transfer request blocks per ring.
pub const TRBS_PER_RING: usize = 256;

/// Size in bytes of a transfer request block.
pub const TRB_SIZE: usize = 16;

/// Offset of the device context base address array in `XhciData`.
pub const DCBAA_OFFSET: usize = 0;

/// Offset of the command ring in `XhciData`.
pub const COMMAND_RING_OFFSET: usize = 2048;

/// Offset of the event ring in `XhciData`.
pub const EVENT_RING_OFFSET: usize = 6144;

/// Offset of the event ring segment table in `XhciData`.
pub const SEGMENT_TABLE_OFFSET: usize = 10240;

/// A transfer request block.
#[derive(Clone, Copy, Debug, PartialEq, Eq, Structural)]
pub struct Trb {
    pub data: u64,
    pub status: u32,
    pub control: u32,
}

/// The memory the controller reads: device context base addresses, command
/// ring, event ring and the one-entry event ring segment table, laid out at
/// the offsets above.
pub struct XhciData {
    pub dcbaa: [u64; 256],
    pub command_ring: [Trb; 256],
    pub event_ring: [Trb; 256],
    pub event_ring_ste: [u64; 2],
}

/// The capability registers at the controller's base.
pub struct CapabilityRegisters {
    pub cap_length: u8,
    pub reserved: u8,
    pub hci_version: u16,
    pub hcs_params1: u32,
    pub hcs_params2: u32,
    pub hcs_params3: u32,
    pub hcc_params1: u32,
    pub d_off: u32,
    pub r_off: u32,
    pub hcc_params2: u32,
}

/// The operational registers, `cap_length` bytes after the base.
pub struct OperationalRegisters {
    pub usb_cmd: u32,
    pub usb_sts: u32,
    pub page_size: u32,
    pub reserved1: [u32; 2],
    pub dn_ctrl: u32,
    pub crcr: u64,
    pub reserved2: [u32; 4],
    pub dcbaap: u64,
    pub config: u32,
}

impl CapabilityRegisters {
    /// Capability registers as read from the controller.
    pub fn new(
        cap_length: u8,
        hci_version: u16,
        hcs_params1: u32,
        hcs_params2: u32,
        hcs_params3: u32,
        hcc_params1: u32,
        d_off: u32,
        r_off: u32,
        hcc_params2: u32,
    ) -> (r: Self)
        ensures
            r.cap_length == cap_length,
            r.hci_version == hci_version,
            r.hcs_params1 == hcs_params1,
            r.hcs_params2 == hcs_params2,
            r.hcs_params3 == hcs_params3,
            r.hcc_params1 == hcc_params1,
            r.d_off == d_off,
            r.r_off == r_off,
            r.hcc_params2 == hcc_params2,
    {
        CapabilityRegisters {
            cap_length,
            reserved: 0,
            hci_version,
            hcs_params1,
            hcs_params2,
            hcs_params3,
            hcc_params1,
            d_off,
            r_off,
            hcc_params2,
        }
    }
}

impl XhciData {
    /// All structures zeroed.
    pub fn zeroed() -> (r: Self)
        ensures
            forall|i: int| 0 <= i < 256 ==> #[trigger] r.dcbaa[i] == 0,
            forall|i: int| 0 <= i < 256 ==> #[trigger] r.command_ring[i] == (Trb { data: 0, status: 0, control: 0 }),
            forall|i: int| 0 <= i < 256 ==> #[trigger] r.event_ring[i] == (Trb { data: 0, status: 0, control: 0 }),
            r.event_ring_ste[0] == 0,
            r.event_ring_ste[1] == 0,
    {
        let zero = Trb { data: 0, status: 0, control: 0 };
        XhciData {
            dcbaa: [0u64; 256],
            command_ring: [zero; 256],
            event_ring: [zero; 256],
            event_ring_ste: [0u64, 0u64],
        }
    }

    /// Fills the segment table's one entry: the event ring's physical address
    /// and its size in TRBs.
    pub fn set_event_ring_segment(&mut self, er_phys: u64)
        ensures
            final(self).event_ring_ste[0] == er_phys,
            final(self).event_ring_ste[1] == TRBS_PER_RING as u64,
            final(self).dcbaa == old(self).dcbaa,
            final(self).command_ring == old(self).command_ring,
            final(self).event_ring == old(self).event_ring,
    {
        self.event_ring_ste[0] = er_phys;
        self.event_ring_ste[1] = TRBS_PER_RING as u64;
    }
}

/// The physical addresses and register values that set up the rings.
#[derive(Clone, Copy, Debug, PartialEq, Eq, Structural)]
pub struct RingSetup {
    /// Written to DCBAAP.
    pub dcbaap: u64,
    /// Written to CRCR: command ring address with the ring cycle state set.
    pub crcr: u64,
    /// Physical address of the event ring.
    pub er_phys: u64,
    /// Physical address of the segment table.
    pub ste_phys: u64,
    /// Address of interrupter 0's register set.
    pub ir0: usize,
}

/// The controller: its registers and data in the higher-half direct map.
pub struct XhciController {
    base_addr: usize,
    hhdm_offset: usize,
    op_regs: usize,
    data: usize,
}

impl XhciController {
    /// Address of the capability registers.
    pub closed spec fn spec_base(&self) -> int {
        self.base_addr as int
    }

    /// Address of the operational registers.
    pub closed spec fn spec_op_regs(&self) -> int {
        self.op_regs as int
    }

    /// Direct-map address of the controller's data.
    pub closed spec fn spec_data(&self) -> int {
        self.data as int
    }

    /// Offset of the direct map.
    pub closed spec fn spec_hhdm(&self) -> int {
        self.hhdm_offset as int
    }

    /// The controller whose registers are at physical `phys_addr`, seen
    /// through the direct map at `hhdm_offset`, whose operational registers
    /// follow the capability registers by their length, with its data at
    /// `data_ptr`.
    pub fn new(phys_addr: usize, hhdm_offset: usize, data_ptr: usize, caps: &CapabilityRegisters) -> (r: Self)
        requires
            phys_addr + hhdm_offset + 255 <= usize::MAX,
        ensures
            r.spec_base() == phys_addr + hhdm_offset,
            r.spec_op_regs() == phys_addr + hhdm_offset + caps.cap_length,
            r.spec_data() == data_ptr,
            r.spec_hhdm() == hhdm_offset,
    {
        let virt_addr = phys_addr + hhdm_offset;
        let cap_len = caps.cap_length as usize;
        XhciController {
            base_addr: virt_addr,
            hhdm_offset,
            op_regs: virt_addr + cap_len,
            data: data_ptr,
        }
    }

    /// Address of the operational registers.
    pub fn op_regs(&self) -> (r: usize)
        ensures
            r == self.spec_op_regs(),
    {
        self.op_regs
    }

    /// The ring setup: the data's physical address is its direct-map address
    /// less the map's offset; each structure sits at its offset in the data;
    /// the command ring pointer carries the cycle bit; interrupter 0 lies
    /// 0x20 bytes into the runtime registers.
    pub fn init_rings(&self, caps: &CapabilityRegisters) -> (r: RingSetup)
        requires
            self.spec_data() >= self.spec_hhdm(),
            self.spec_data() - self.spec_hhdm() + SEGMENT_TABLE_OFFSET <= usize::MAX,
            self.spec_base() + caps.r_off + 0x20 <= usize::MAX,
        ensures
            ({
                let data_phys = self.spec_data() - self.spec_hhdm();
                &&& r.dcbaap == (data_phys + DCBAA_OFFSET) as u64
                &&& r.crcr == ((data_phys + COMMAND_RING_OFFSET) as u64) | 1u64
                &&& r.er_phys == (data_phys + EVENT_RING_OFFSET) as u64
                &&& r.ste_phys == (data_phys + SEGMENT_TABLE_OFFSET) as u64
                &&& r.ir0 == self.spec_base() + caps.r_off + 0x20
            }),
    {
        let data_phys = self.data - self.hhdm_offset;
        let runtime_off = caps.r_off as usize;
        RingSetup {
            dcbaap: (data_phys + DCBAA_OFFSET) as u64,
            crcr: ((data_phys + COMMAND_RING_OFFSET) as u64) | 1,
            er_phys: (data_phys + EVENT_RING_OFFSET) as u64,
            ste_phys: (data_phys + SEGMENT_TABLE_OFFSET) as u64,
            ir0: self.base_addr + runtime_off + 0x20,
        }
    }
}

/// The command register value that stops the controller (run bit cleared).
pub fn stop_command(usb_cmd: u32) -> (r: u32)
    ensures
        r == usb_cmd & !1u32,
{
    usb_cmd & !0x1
}

/// The command register value that resets the controller.
pub const RESET_COMMAND: u32 = 0x2;

/// The command register value that starts the controller (run bit set).
pub fn run_command(usb_cmd: u32) -> (r: u32)
    ensures
        r == usb_cmd | 1u32,
{
    usb_cmd | 0x1
}

/// The configuration register value: as many device slots enabled as the
/// controller has (bits 0-7 of HCSPARAMS1).
pub fn slots_config(hcs_params1: u32) -> (r: u32)
    ensures
        r == hcs_params1 & 0xFFu32,
{
    hcs_params1 & 0xFF
}

/// Status bit 0: the controller has halted.
pub fn is_halted(usb_sts: u32) -> (r: bool)
    ensures
        r == (usb_sts & 1u32 != 0),
{
    (usb_sts & 0x1) != 0
}

/// Command bit 1: a reset is still in progress.
pub fn reset_in_progress(usb_cmd: u32) -> (r: bool)
    ensures
        r == (usb_cmd & 2u32 != 0),
{
    (usb_cmd & 0x2) != 0
}

/// Status bit 11: the controller is not ready yet.
pub fn controller_not_ready(usb_sts: u32) -> (r: bool)
    ensures
        r == (usb_sts & 0x800u32 != 0),
{
    (usb_sts & 0x800) != 0
}

/// Stopping then starting the controller changes only the run bit: the
/// other command bits come back as they were.
pub proof fn law_stop_run_only_touch_run_bit(usb_cmd: u32)
    ensures
        (usb_cmd & !1u32) | 1u32 == usb_cmd | 1u32,
        ((usb_cmd | 1u32) & !1u32) == usb_cmd & !1u32,
{
    assert((usb_cmd & !1u32) | 1u32 == usb_cmd | 1u32) by (bit_vector);
    assert(((usb_cmd | 1u32) & !1u32) == usb_cmd & !1u32) by (bit_vector);
}

} // verus!

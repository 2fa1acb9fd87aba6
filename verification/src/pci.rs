//! PCI configuration space: addresses of configuration dwords, the 16-bit
//! halves of a dword, base address registers, and the bus scan.
//!
//! The port accesses are outside this crate; the scan is a state machine that
//! names the next configuration read and takes its result.
use vstd::prelude::*;

verus! {

/// A function found on the PCI bus.
#[derive(Clone, Copy, Debug, PartialEq, Eq, Structural)]
pub struct PciDevice {
    pub bus: u8,
    pub slot: u8,
    pub func: u8,
    pub vendor_id: u16,
    pub device_id: u16,
    pub class: u8,
    pub subclass: u8,
    pub prog_if: u8,
}

/// The value written to port 0xCF8 to select a configuration dword: enable
/// bit, bus, slot, function and the dword-aligned offset.
pub open spec fn config_address_spec(bus: u8, slot: u8, func: u8, offset: u8) -> u32 {
    ((bus as u32) << 16u32) | ((slot as u32) << 11u32) | ((func as u32) << 8u32) | (offset as u32
        & 0xFCu32) | 0x8000_0000u32
}

/// The 16-bit half of a configuration dword that `offset` selects: bit 1 of
/// the offset picks the upper half.
pub open spec fn half_of(dword: u32, offset: u8) -> u16 {
    (dword >> (((offset & 2u8) as u32) * 8u32)) as u16
}

/// The dword with the half that `offset` selects replaced by `value`.
pub open spec fn with_half(dword: u32, offset: u8, value: u16) -> u32 {
    if offset & 2u8 == 0 {
        (dword & 0xFFFF0000u32) | (value as u32)
    } else {
        (dword & 0x0000FFFFu32) | ((value as u32) << 16u32)
    }
}

/// The address held in BAR0, given BAR0 and BAR1: a 64-bit memory BAR (type
/// bits `0b10`) takes its upper half from BAR1; the low four flag bits are
/// masked off.
pub open spec fn bar0_address(bar0: u32, bar1: u32) -> u64 {
    if bar0 & 0b110u32 == 0b100u32 {
        ((bar1 as u64) << 32u64) | (bar0 as u64 & !0xFu64)
    } else {
        bar0 as u64 & !0xFu64
    }
}

impl PciDevice {
    /// The address of the configuration dword at `offset` of a function.
    pub fn config_address(bus: u8, slot: u8, func: u8, offset: u8) -> (r: u32)
        ensures
            r == config_address_spec(bus, slot, func, offset),
    {
        ((bus as u32) << 16) | ((slot as u32) << 11) | ((func as u32) << 8) | (offset as u32
            & 0xFC) | 0x8000_0000
    }

    /// The 16-bit configuration register at `offset`, taken from the dword read
    /// at that offset.
    pub fn read_config_u16(&self, dword: u32, offset: u8) -> (r: u16)
        ensures
            r == half_of(dword, offset),
    {
        assert(offset & 2u8 <= 2u8) by (bit_vector);
        (dword >> (((offset & 2) as u32) * 8)) as u16
    }

    /// The dword to write back so that the 16-bit register at `offset` becomes
    /// `value`, given the dword read at that offset.
    pub fn write_config_u16(&self, dword: u32, offset: u8, value: u16) -> (r: u32)
        ensures
            r == with_half(dword, offset, value),
    {
        let mut val = dword;
        if (offset & 2) == 0 {
            val = (val & 0xFFFF0000) | (value as u32);
        } else {
            val = (val & 0x0000FFFF) | ((value as u32) << 16);
        }
        val
    }

    /// Whether BAR0 is a 64-bit memory BAR, whose upper half is in BAR1.
    pub fn bar0_is_64bit(bar0: u32) -> (r: bool)
        ensures
            r == (bar0 & 0b110u32 == 0b100u32),
    {
        (bar0 & 0b110) == 0b100
    }

    /// The base address in BAR0, given the dwords at offsets 0x10 and 0x14;
    /// the second counts only for a 64-bit BAR.
    pub fn get_bar0(&self, bar0: u32, bar1: u32) -> (r: u64)
        ensures
            r == bar0_address(bar0, bar1),
    {
        if (bar0 & 0b110) == 0b100 {
            ((bar1 as u64) << 32) | (bar0 as u64 & !0xF)
        } else {
            bar0 as u64 & !0xF
        }
    }

    /// Whether the function is an xHCI (USB 3) controller: class 0x0C,
    /// subclass 0x03, programming interface 0x30.
    pub fn is_xhci(&self) -> (r: bool)
        ensures
            r == (self.class == 0x0C && self.subclass == 0x03 && self.prog_if == 0x30),
    {
        self.class == 0x0C && self.subclass == 0x03 && self.prog_if == 0x30
    }
}

/// Writing a 16-bit register and reading it back gives the value written,
/// and the other half of the dword is left as it was.
pub proof fn law_read_back_written_half(dword: u32, offset: u8, value: u16)
    ensures
        half_of(with_half(dword, offset, value), offset) == value,
        half_of(with_half(dword, offset, value), offset ^ 2u8) == half_of(dword, offset ^ 2u8),
{
    if offset & 2u8 == 0 {
        assert((offset ^ 2u8) & 2u8 == 2u8) by (bit_vector)
            requires
                offset & 2u8 == 0u8,
        ;
        assert(((((dword & 0xFFFF0000u32) | (value as u32)) >> 0u32) as u16) == value) by (
        bit_vector);
        assert(((((dword & 0xFFFF0000u32) | (value as u32)) >> 16u32) as u16) == ((dword
            >> 16u32) as u16)) by (bit_vector);
    } else {
        assert(offset & 2u8 == 2u8) by (bit_vector)
            requires
                offset & 2u8 != 0u8,
        ;
        assert((offset ^ 2u8) & 2u8 == 0u8) by (bit_vector)
            requires
                offset & 2u8 == 2u8,
        ;
        assert(((((dword & 0x0000FFFFu32) | ((value as u32) << 16u32)) >> 16u32) as u16)
            == value) by (bit_vector);
        assert(((((dword & 0x0000FFFFu32) | ((value as u32) << 16u32)) >> 0u32) as u16) == ((
        dword >> 0u32) as u16)) by (bit_vector);
    }
}

/// Distinct functions never share a configuration address: bus, slot and
/// function, and the dword offset, can be read back from the address.
pub proof fn law_config_address_fields(bus: u8, slot: u8, func: u8, offset: u8)
    requires
        slot < 32,
        func < 8,
    ensures
        (config_address_spec(bus, slot, func, offset) >> 16u32) & 0xFFu32 == bus as u32,
        (config_address_spec(bus, slot, func, offset) >> 11u32) & 0x1Fu32 == slot as u32,
        (config_address_spec(bus, slot, func, offset) >> 8u32) & 0x7u32 == func as u32,
        config_address_spec(bus, slot, func, offset) & 0xFFu32 == offset as u32 & 0xFCu32,
        config_address_spec(bus, slot, func, offset) & 0x8000_0000u32 != 0,
{
    let b = bus as u32;
    let s = slot as u32;
    let f = func as u32;
    let o = offset as u32;
    assert(((((b << 16u32) | (s << 11u32) | (f << 8u32) | (o & 0xFCu32) | 0x8000_0000u32)
        >> 16u32) & 0xFFu32 == b) && ((((b << 16u32) | (s << 11u32) | (f << 8u32) | (o
        & 0xFCu32) | 0x8000_0000u32) >> 11u32) & 0x1Fu32 == s) && ((((b << 16u32) | (s
        << 11u32) | (f << 8u32) | (o & 0xFCu32) | 0x8000_0000u32) >> 8u32) & 0x7u32 == f)
        && (((b << 16u32) | (s << 11u32) | (f << 8u32) | (o & 0xFCu32) | 0x8000_0000u32)
        & 0xFFu32 == o & 0xFCu32) && (((b << 16u32) | (s << 11u32) | (f << 8u32) | (o
        & 0xFCu32) | 0x8000_0000u32) & 0x8000_0000u32 != 0u32)) by (bit_vector)
        requires
            b < 256u32,
            s < 32u32,
            f < 8u32,
            o < 256u32,
    ;
}

/// Number of buses the scan visits.
pub const SCAN_BUSES: u8 = 255;

/// Slots per bus.
pub const SLOTS_PER_BUS: u8 = 32;

/// Functions per slot.
pub const FUNCTIONS_PER_SLOT: u8 = 8;

/// What the configuration space holds: the dword at each bus, slot, function
/// and offset.
pub type ConfigSpace = spec_fn(u8, u8, u8, u8) -> u32;

/// The vendor ID in the dword at offset 0.
pub open spec fn vendor_of(dword: u32) -> u16 {
    (dword & 0xFFFFu32) as u16
}

/// The function described by its vendor ID, the dword at offset 8 (class,
/// subclass, programming interface) and the dword at offset 0 (device ID).
pub open spec fn device_of(bus: u8, slot: u8, func: u8, vendor_id: u16, class_dword: u32, id_dword: u32) -> PciDevice {
    PciDevice {
        bus,
        slot,
        func,
        vendor_id,
        device_id: (id_dword >> 16u32) as u16,
        class: (class_dword >> 24u32) as u8,
        subclass: (class_dword >> 16u32) as u8,
        prog_if: (class_dword >> 8u32) as u8,
    }
}

/// The functions the scan finds from a position on, in scan order: buses
/// 0 to 254, slots 0 to 31, functions 0 to 7; an absent function 0 ends its
/// slot, an absent higher function is skipped, and a function 0 whose header
/// type lacks the multi-function bit ends its slot.
pub open spec fn scan_from(cfg: ConfigSpace, bus: nat, slot: nat, func: nat) -> Seq<PciDevice>
    decreases SCAN_BUSES - bus, SLOTS_PER_BUS - slot, FUNCTIONS_PER_SLOT - func,
{
    if bus >= SCAN_BUSES {
        Seq::empty()
    } else if slot >= SLOTS_PER_BUS {
        scan_from(cfg, bus + 1, 0, 0)
    } else if func >= FUNCTIONS_PER_SLOT {
        scan_from(cfg, bus, slot + 1, 0)
    } else if vendor_of(cfg(bus as u8, slot as u8, func as u8, 0)) == 0xFFFF {
        if func == 0 {
            scan_from(cfg, bus, slot + 1, 0)
        } else {
            scan_from(cfg, bus, slot, func + 1)
        }
    } else {
        seq![
            device_of(
                bus as u8,
                slot as u8,
                func as u8,
                vendor_of(cfg(bus as u8, slot as u8, func as u8, 0)),
                cfg(bus as u8, slot as u8, func as u8, 8),
                cfg(bus as u8, slot as u8, func as u8, 0),
            ),
        ] + after_function(cfg, bus, slot, func)
    }
}

/// What the scan finds after a present function.
pub open spec fn after_function(cfg: ConfigSpace, bus: nat, slot: nat, func: nat) -> Seq<
    PciDevice,
>
    decreases SCAN_BUSES - bus, SLOTS_PER_BUS - slot, FUNCTIONS_PER_SLOT - func, 1nat,
{
    if bus >= SCAN_BUSES || slot >= SLOTS_PER_BUS || func >= FUNCTIONS_PER_SLOT {
        Seq::empty()
    } else if func == 0 && ((cfg(bus as u8, slot as u8, 0, 0x0C) >> 16u32) as u8) & 0x80u8 == 0 {
        scan_from(cfg, bus, slot + 1, 0)
    } else {
        scan_from(cfg, bus, slot, func + 1)
    }
}

/// The configuration read the scan needs next.
#[derive(Clone, Copy, Debug, PartialEq, Eq, Structural)]
pub struct ConfigRead {
    pub bus: u8,
    pub slot: u8,
    pub func: u8,
    pub offset: u8,
}

/// Where the scan stands at the current function.
#[derive(Clone, Copy, Debug, PartialEq, Eq, Structural)]
pub enum ScanStage {
    /// Waiting for the dword at offset 0, for the vendor ID.
    Vendor,
    /// Waiting for the dword at offset 8: class, subclass, interface.
    Class,
    /// Waiting for the dword at offset 0 again, for the device ID.
    DeviceId,
    /// Waiting for function 0's dword at offset 0x0C, for the header type.
    HeaderType,
    /// Every bus has been visited.
    Done,
}

/// The bus scan in progress.
pub struct PciScan {
    bus: u8,
    slot: u8,
    func: u8,
    stage: ScanStage,
    vendor_id: u16,
    class_dword: u32,
    devices: Vec<PciDevice>,
}

impl PciScan {
    /// Positions stay on the bus; the header type is read for function 0 only.
    pub closed spec fn wf(&self) -> bool {
        &&& self.stage != ScanStage::Done ==> {
            &&& self.bus < SCAN_BUSES
            &&& self.slot < SLOTS_PER_BUS
            &&& self.func < FUNCTIONS_PER_SLOT
        }
        &&& self.stage == ScanStage::HeaderType ==> self.func == 0
    }

    /// The scan has visited every bus.
    pub closed spec fn is_done(&self) -> bool {
        self.stage == ScanStage::Done
    }

    /// The functions found so far.
    pub closed spec fn found(&self) -> Seq<PciDevice> {
        self.devices@
    }

    /// The read the scan asks for, if any.
    pub closed spec fn request(&self) -> Option<ConfigRead> {
        match self.stage {
            ScanStage::Vendor => Some(
                ConfigRead { bus: self.bus, slot: self.slot, func: self.func, offset: 0 },
            ),
            ScanStage::Class => Some(
                ConfigRead { bus: self.bus, slot: self.slot, func: self.func, offset: 8 },
            ),
            ScanStage::DeviceId => Some(
                ConfigRead { bus: self.bus, slot: self.slot, func: self.func, offset: 0 },
            ),
            ScanStage::HeaderType => Some(
                ConfigRead { bus: self.bus, slot: self.slot, func: 0, offset: 0x0C },
            ),
            ScanStage::Done => None,
        }
    }

    /// The functions the whole scan finds, given what the configuration space
    /// holds: those found so far, then those still ahead, where what was
    /// already read about the current function is taken as read.
    pub closed spec fn outcome(&self, cfg: ConfigSpace) -> Seq<PciDevice> {
        let b = self.bus as nat;
        let s = self.slot as nat;
        let f = self.func as nat;
        match self.stage {
            ScanStage::Vendor => self.devices@ + scan_from(cfg, b, s, f),
            ScanStage::Class => self.devices@ + seq![
                device_of(
                    self.bus,
                    self.slot,
                    self.func,
                    self.vendor_id,
                    cfg(self.bus, self.slot, self.func, 8),
                    cfg(self.bus, self.slot, self.func, 0),
                ),
            ] + after_function(cfg, b, s, f),
            ScanStage::DeviceId => self.devices@ + seq![
                device_of(
                    self.bus,
                    self.slot,
                    self.func,
                    self.vendor_id,
                    self.class_dword,
                    cfg(self.bus, self.slot, self.func, 0),
                ),
            ] + after_function(cfg, b, s, f),
            ScanStage::HeaderType => self.devices@ + after_function(cfg, b, s, f),
            ScanStage::Done => self.devices@,
        }
    }

    /// How far the scan has got, counting every read; it grows with each read.
    pub closed spec fn progress(&self) -> int {
        let position = ((self.bus as int) * SLOTS_PER_BUS + self.slot as int)
            * FUNCTIONS_PER_SLOT + self.func as int;
        match self.stage {
            ScanStage::Vendor => position * 4,
            ScanStage::Class => position * 4 + 1,
            ScanStage::DeviceId => position * 4 + 2,
            ScanStage::HeaderType => position * 4 + 3,
            ScanStage::Done => SCAN_BUSES as int * SLOTS_PER_BUS * FUNCTIONS_PER_SLOT * 4,
        }
    }

    /// A scan that starts at bus 0, slot 0, function 0 with nothing found; for
    /// any configuration space it will find exactly what `scan_from` lists.
    pub fn new() -> (r: Self)
        ensures
            r.wf(),
            !r.is_done(),
            r.found() == Seq::<PciDevice>::empty(),
            forall|cfg: ConfigSpace| #[trigger] r.outcome(cfg) == scan_from(cfg, 0, 0, 0),
    {
        let r = PciScan {
            bus: 0,
            slot: 0,
            func: 0,
            stage: ScanStage::Vendor,
            vendor_id: 0,
            class_dword: 0,
            devices: Vec::new(),
        };
        assert forall|cfg: ConfigSpace| #[trigger] r.outcome(cfg) == scan_from(cfg, 0, 0, 0) by {
            assert(r.devices@ + scan_from(cfg, 0, 0, 0) =~= scan_from(cfg, 0, 0, 0));
        }
        r
    }

    /// The read the scan needs next; `None` once every bus has been visited.
    pub fn next_read(&self) -> (r: Option<ConfigRead>)
        ensures
            r == self.request(),
            r is None <==> self.is_done(),
    {
        match self.stage {
            ScanStage::Vendor => Some(
                ConfigRead { bus: self.bus, slot: self.slot, func: self.func, offset: 0 },
            ),
            ScanStage::Class => Some(
                ConfigRead { bus: self.bus, slot: self.slot, func: self.func, offset: 8 },
            ),
            ScanStage::DeviceId => Some(
                ConfigRead { bus: self.bus, slot: self.slot, func: self.func, offset: 0 },
            ),
            ScanStage::HeaderType => Some(
                ConfigRead { bus: self.bus, slot: self.slot, func: 0, offset: 0x0C },
            ),
            ScanStage::Done => None,
        }
    }

    /// Moves on to the next slot, or bus, or ends the scan.
    fn next_slot(&mut self)
        requires
            old(self).bus < SCAN_BUSES,
            old(self).slot < SLOTS_PER_BUS,
        ensures
            final(self).wf(),
            final(self).devices@ == old(self).devices@,
            final(self).stage == ScanStage::Done || final(self).stage == ScanStage::Vendor,
            forall|cfg: ConfigSpace| #[trigger] final(self).outcome(cfg) == old(self).devices@
                + scan_from(cfg, old(self).bus as nat, old(self).slot as nat + 1, 0),
            final(self).progress() >= ((old(self).bus as int) * SLOTS_PER_BUS + old(self).slot
                as int + 1) * FUNCTIONS_PER_SLOT * 4,
    {
        self.func = 0;
        if self.slot + 1 < SLOTS_PER_BUS {
            self.slot = self.slot + 1;
            self.stage = ScanStage::Vendor;
        } else {
            self.slot = 0;
            if self.bus + 1 < SCAN_BUSES {
                self.bus = self.bus + 1;
                self.stage = ScanStage::Vendor;
            } else {
                self.stage = ScanStage::Done;
            }
        }
        proof {
            assert forall|cfg: ConfigSpace| #[trigger] self.outcome(cfg) == old(self).devices@
                + scan_from(cfg, old(self).bus as nat, old(self).slot as nat + 1, 0) by {
                let b = old(self).bus as nat;
                let s = old(self).slot as nat;
                if s + 1 >= SLOTS_PER_BUS {
                    assert(scan_from(cfg, b, s + 1, 0) == scan_from(cfg, b + 1, 0, 0));
                    if b + 1 >= SCAN_BUSES {
                        assert(scan_from(cfg, b + 1, 0, 0) == Seq::<PciDevice>::empty());
                        assert(old(self).devices@ + Seq::<PciDevice>::empty() =~= old(
                            self,
                        ).devices@);
                    }
                }
            }
        }
    }

    /// Moves on to the next function of the slot, or the next slot.
    fn next_func(&mut self)
        requires
            old(self).bus < SCAN_BUSES,
            old(self).slot < SLOTS_PER_BUS,
            old(self).func < FUNCTIONS_PER_SLOT,
        ensures
            final(self).wf(),
            final(self).devices@ == old(self).devices@,
            final(self).stage == ScanStage::Done || final(self).stage == ScanStage::Vendor,
            forall|cfg: ConfigSpace| #[trigger] final(self).outcome(cfg) == old(self).devices@
                + scan_from(cfg, old(self).bus as nat, old(self).slot as nat, old(self).func as nat
                + 1),
            final(self).progress() >= (((old(self).bus as int) * SLOTS_PER_BUS + old(self).slot
                as int) * FUNCTIONS_PER_SLOT + old(self).func as int + 1) * 4,
    {
        if self.func + 1 < FUNCTIONS_PER_SLOT {
            self.func = self.func + 1;
            self.stage = ScanStage::Vendor;
        } else {
            let ghost before = *self;
            self.next_slot();
            proof {
                assert forall|cfg: ConfigSpace| #[trigger] self.outcome(cfg) == before.devices@
                    + scan_from(cfg, before.bus as nat, before.slot as nat, before.func as nat + 1)
                    by {
                    assert(scan_from(cfg, before.bus as nat, before.slot as nat, before.func as nat
                        + 1) == scan_from(cfg, before.bus as nat, before.slot as nat + 1, 0));
                }
            }
        }
    }

    /// Takes the dword that the requested read returned and moves the scan
    /// on. When the dword is what the configuration space holds at the
    /// requested place, the scan's outcome for that configuration space is
    /// unchanged; and every read brings the scan closer to its end.
    pub fn feed(&mut self, value: u32)
        requires
            old(self).wf(),
            !old(self).is_done(),
        ensures
            final(self).wf(),
            final(self).progress() > old(self).progress(),
            final(self).progress() <= SCAN_BUSES as int * SLOTS_PER_BUS * FUNCTIONS_PER_SLOT * 4,
            forall|cfg: ConfigSpace|
                #![trigger final(self).outcome(cfg)]
                (old(self).request() matches Some(rq) && cfg(rq.bus, rq.slot, rq.func, rq.offset)
                    == value) ==> final(self).outcome(cfg) == old(self).outcome(cfg),
    {
        let ghost before = *self;
        match self.stage {
            ScanStage::Vendor => {
                let vendor_id = (value & 0xFFFF) as u16;
                if vendor_id == 0xFFFF {
                    if self.func == 0 {
                        self.next_slot();
                    } else {
                        self.next_func();
                    }
                } else {
                    self.vendor_id = vendor_id;
                    self.stage = ScanStage::Class;
                }
            },
            ScanStage::Class => {
                self.class_dword = value;
                self.stage = ScanStage::DeviceId;
            },
            ScanStage::DeviceId => {
                let header = self.class_dword;
                let device = PciDevice {
                    bus: self.bus,
                    slot: self.slot,
                    func: self.func,
                    vendor_id: self.vendor_id,
                    device_id: (value >> 16) as u16,
                    class: (header >> 24) as u8,
                    subclass: (header >> 16) as u8,
                    prog_if: (header >> 8) as u8,
                };
                self.devices.push(device);
                if self.func == 0 {
                    self.stage = ScanStage::HeaderType;
                } else {
                    self.next_func();
                }
            },
            ScanStage::HeaderType => {
                let header_type = (value >> 16) as u8;
                if (header_type & 0x80) == 0 {
                    self.next_slot();
                } else {
                    self.next_func();
                }
            },
            ScanStage::Done => {},
        }
        proof {
            assert forall|cfg: ConfigSpace|
                #![trigger self.outcome(cfg)]
                (before.request() matches Some(rq) && cfg(rq.bus, rq.slot, rq.func, rq.offset)
                    == value) implies self.outcome(cfg) == before.outcome(cfg) by {
                let b = before.bus as nat;
                let s = before.slot as nat;
                let f = before.func as nat;
                match before.stage {
                    ScanStage::Vendor => {
                        assert(cfg(before.bus, before.slot, before.func, 0) == value);
                        if vendor_of(value) != 0xFFFF {
                            assert(before.devices@ + scan_from(cfg, b, s, f) =~= before.devices@
                                + seq![
                                device_of(
                                    before.bus,
                                    before.slot,
                                    before.func,
                                    vendor_of(value),
                                    cfg(before.bus, before.slot, before.func, 8),
                                    cfg(before.bus, before.slot, before.func, 0),
                                ),
                            ] + after_function(cfg, b, s, f));
                        }
                    },
                    ScanStage::Class => {},
                    ScanStage::DeviceId => {
                        let dev = device_of(
                            before.bus,
                            before.slot,
                            before.func,
                            before.vendor_id,
                            before.class_dword,
                            value,
                        );
                        assert(self.devices@ == before.devices@.push(dev));
                        if before.func == 0 {
                            assert(before.devices@ + seq![dev] + after_function(cfg, b, s, f)
                                =~= before.devices@.push(dev) + after_function(cfg, b, s, f));
                        } else {
                            assert(after_function(cfg, b, s, f) == scan_from(cfg, b, s, f + 1));
                            assert(before.devices@ + seq![dev] + after_function(cfg, b, s, f)
                                =~= before.devices@.push(dev) + scan_from(cfg, b, s, f + 1));
                        }
                    },
                    ScanStage::HeaderType => {
                        assert(cfg(before.bus, before.slot, 0, 0x0C) == value);
                    },
                    ScanStage::Done => {},
                }
            }
        }
    }

    /// Whether every bus has been visited.
    pub fn done(&self) -> (r: bool)
        ensures
            r == self.is_done(),
    {
        match self.stage {
            ScanStage::Done => true,
            _ => false,
        }
    }

    /// The functions found; once the scan is done, for any configuration
    /// space whose dwords were the ones fed, these are exactly `scan_from`'s.
    pub fn into_devices(self) -> (r: Vec<PciDevice>)
        ensures
            r@ == self.found(),
            self.is_done() ==> forall|cfg: ConfigSpace| #[trigger] self.outcome(cfg) == r@,
    {
        self.devices
    }
}

/// The scan finds every present function once, in order: for a scan that
/// has ended, the functions found are the outcome it had from the start, which
/// for a fresh scan is `scan_from` from bus 0 (the contracts of `new`, `feed`
/// and `into_devices` carry the outcome from step to step).
pub proof fn law_scan_outcome_when_done(scan: PciScan, cfg: ConfigSpace)
    requires
        scan.is_done(),
    ensures
        scan.outcome(cfg) == scan.found(),
{
}

/// The function at (`bus`, `slot`, `func`) as the scan records it.
pub open spec fn function_at(cfg: ConfigSpace, bus: u8, slot: u8, func: u8) -> PciDevice {
    device_of(bus, slot, func, vendor_of(cfg(bus, slot, func, 0)), cfg(bus, slot, func, 8), cfg(bus, slot, func, 0))
}

/// The slot's function 0 is present and its header type has the
/// multi-function bit (bit 7) set.
pub open spec fn multi_function_slot(cfg: ConfigSpace, bus: u8, slot: u8) -> bool {
    &&& vendor_of(cfg(bus, slot, 0, 0)) != 0xFFFF
    &&& ((cfg(bus, slot, 0, 0x0C) >> 16u32) as u8) & 0x80u8 != 0
}

/// Within a multi-function slot, scanning from function `g` on reaches every
/// present function `f` at or above `g`.
proof fn lemma_slot_reaches(cfg: ConfigSpace, bus: u8, slot: u8, g: nat, f: u8)
    requires
        bus < SCAN_BUSES,
        slot < SLOTS_PER_BUS,
        g <= f < FUNCTIONS_PER_SLOT,
        multi_function_slot(cfg, bus, slot),
        vendor_of(cfg(bus, slot, f, 0)) != 0xFFFF,
    ensures
        scan_from(cfg, bus as nat, slot as nat, g).contains(function_at(cfg, bus, slot, f)),
    decreases f - g,
{
    let b = bus as nat;
    let s = slot as nat;
    assert((b as u8) == bus && (s as u8) == slot);
    let gu = g as u8;
    assert(gu as nat == g);
    if g == f {
        let seq = scan_from(cfg, b, s, g);
        assert(seq[0] == function_at(cfg, bus, slot, f));
    } else {
        lemma_slot_reaches(cfg, bus, slot, g + 1, f);
        let rest = scan_from(cfg, b, s, g + 1);
        let t = function_at(cfg, bus, slot, f);
        let i = choose|i: int| 0 <= i < rest.len() && rest[i] == t;
        if vendor_of(cfg(bus, slot, gu, 0)) == 0xFFFF {
            assert(g != 0);
            assert(scan_from(cfg, b, s, g) == rest);
        } else {
            assert(after_function(cfg, b, s, g) == rest);
            let seq = scan_from(cfg, b, s, g);
            assert(seq[i + 1] == t);
        }
    }
}

/// Everything the scan of a slot finds after function `g` is still found
/// from there: scanning from function `g` of a slot reaches whatever the scan
/// from the next slot reaches.
proof fn lemma_slot_passes_on(cfg: ConfigSpace, bus: nat, slot: nat, g: nat, t: PciDevice)
    requires
        bus < SCAN_BUSES,
        slot < SLOTS_PER_BUS,
        g <= FUNCTIONS_PER_SLOT,
        scan_from(cfg, bus, slot + 1, 0).contains(t),
    ensures
        scan_from(cfg, bus, slot, g).contains(t),
    decreases FUNCTIONS_PER_SLOT - g,
{
    let next = scan_from(cfg, bus, slot + 1, 0);
    if g < FUNCTIONS_PER_SLOT {
        lemma_slot_passes_on(cfg, bus, slot, g + 1, t);
        let rest = scan_from(cfg, bus, slot, g + 1);
        let i = choose|i: int| 0 <= i < rest.len() && rest[i] == t;
        let j = choose|j: int| 0 <= j < next.len() && next[j] == t;
        let seq = scan_from(cfg, bus, slot, g);
        if vendor_of(cfg(bus as u8, slot as u8, g as u8, 0)) == 0xFFFF {
            if g == 0 {
                assert(seq == next);
                assert(seq[j] == t);
            } else {
                assert(seq == rest);
                assert(seq[i] == t);
            }
        } else {
            if g == 0 && ((cfg(bus as u8, slot as u8, 0, 0x0C) >> 16u32) as u8) & 0x80u8 == 0 {
                assert(after_function(cfg, bus, slot, g) == next);
                assert(seq[j + 1] == t);
            } else {
                assert(after_function(cfg, bus, slot, g) == rest);
                assert(seq[i + 1] == t);
            }
        }
    } else {
        assert(scan_from(cfg, bus, slot, g) == next);
    }
}

/// Scanning from an earlier slot reaches whatever the scan from a later slot
/// reaches.
proof fn lemma_earlier_slot_reaches(cfg: ConfigSpace, b0: nat, s0: nat, bus: nat, slot: nat, t: PciDevice)
    requires
        bus < SCAN_BUSES,
        slot < SLOTS_PER_BUS,
        s0 <= SLOTS_PER_BUS,
        b0 < bus || (b0 == bus && s0 <= slot),
        scan_from(cfg, bus, slot, 0).contains(t),
    ensures
        scan_from(cfg, b0, s0, 0).contains(t),
    decreases bus - b0, SLOTS_PER_BUS - s0,
{
    if b0 == bus && s0 == slot {
    } else if s0 < SLOTS_PER_BUS {
        lemma_earlier_slot_reaches(cfg, b0, s0 + 1, bus, slot, t);
        lemma_slot_passes_on(cfg, b0, s0, 0, t);
    } else {
        lemma_earlier_slot_reaches(cfg, b0 + 1, 0, bus, slot, t);
        assert(scan_from(cfg, b0, s0, 0) == scan_from(cfg, b0 + 1, 0, 0));
    }
}

/// Every present function of a multi-function device is found: when function
/// 0 of a slot on a scanned bus is present with the multi-function bit set in
/// its header type, each present function of the slot, 0 to 7, is among the
/// devices the whole scan finds, with the IDs and class it reports.
pub proof fn law_every_function_found(cfg: ConfigSpace, bus: u8, slot: u8, func: u8)
    requires
        bus < SCAN_BUSES,
        slot < SLOTS_PER_BUS,
        func < FUNCTIONS_PER_SLOT,
        vendor_of(cfg(bus, slot, 0, 0)) != 0xFFFF,
        ((cfg(bus, slot, 0, 0x0C) >> 16u32) as u8) & 0x80u8 != 0,
        vendor_of(cfg(bus, slot, func, 0)) != 0xFFFF,
    ensures
        scan_from(cfg, 0, 0, 0).contains(
            device_of(
                bus,
                slot,
                func,
                vendor_of(cfg(bus, slot, func, 0)),
                cfg(bus, slot, func, 8),
                cfg(bus, slot, func, 0),
            ),
        ),
{
    lemma_slot_reaches(cfg, bus, slot, 0, func);
    lemma_earlier_slot_reaches(cfg, 0, 0, bus as nat, slot as nat, function_at(cfg, bus, slot, func));
}

} // verus!

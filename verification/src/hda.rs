//! Intel High Definition Audio: register addresses, codec verbs, the search
//! for an output path through the codec, and the playback stream setup. The
//! register accesses themselves are outside this crate.
use vstd::prelude::*;

verus! {

/// Polls of a busy or silent command interface before a verb is given up.
pub const VERB_TIMEOUT: u32 = 100000;

/// The response reported for a verb that timed out.
pub const VERB_FAILED: u32 = 0xFFFFFFFF;

/// Verb: get the subordinate node count.
pub const VERB_SUBORDINATE_NODES: u32 = 0xF0004;

/// Verb: get the function group type.
pub const VERB_FUNCTION_GROUP_TYPE: u32 = 0xF0005;

/// Verb: get the audio widget capabilities.
pub const VERB_WIDGET_CAPS: u32 = 0xF0009;

/// Verb: get the pin capabilities.
pub const VERB_PIN_CAPS: u32 = 0xF000C;

/// Verb: get the vendor ID.
pub const VERB_VENDOR_ID: u32 = 0xF0000;

/// Offset of output stream descriptor 0 from the controller base.
pub const STREAM_OFFSET: usize = 0x100;

/// A buffer descriptor list entry.
#[derive(Clone, Copy, Debug, PartialEq, Eq, Structural)]
pub struct BdlEntry {
    pub address: u64,
    pub length: u32,
    /// Bit 0: interrupt on completion.
    pub flags: u32,
}

/// The controller: its registers in the higher-half direct map and the
/// frame holding the buffer descriptor list.
pub struct HdaController {
    base: usize,
    hhdm: usize,
    bdl_virt: usize,
}

/// The command written to the immediate command register: node in bits 20
/// and up, verb below.
pub open spec fn verb_command_spec(node: u32, verb: u32) -> u32 {
    (node << 20u32) | verb
}

/// The first node and number of nodes in a subordinate-node-count response.
pub open spec fn subordinate_spec(resp: u32) -> (u32, u32) {
    ((resp >> 16u32) & 0xFFu32, resp & 0xFFu32)
}

/// The widget type in an audio widget capabilities response.
pub open spec fn widget_type_spec(caps: u32) -> u32 {
    (caps >> 20u32) & 0xFu32
}

/// The register writes, as (node, verb), that route a DAC to a pin: both
/// powered to D0, the DAC on stream 1 channel 0 with its amp unmuted, the pin
/// output enabled and unmuted.
pub open spec fn route_verbs_spec(dac: u32, pin: u32) -> Seq<(u32, u32)> {
    seq![
        (dac, 0x70500u32),
        (pin, 0x70500u32),
        (dac, 0x70601u32),
        (dac, 0x3907Fu32),
        (pin, 0x70740u32),
        (pin, 0x3B07Fu32),
    ]
}

/// Everything written to set up and start playback of one buffer.
#[derive(Clone, Copy, Debug, PartialEq, Eq, Structural)]
pub struct StreamSetup {
    /// Address of the stream descriptor registers.
    pub sd_base: usize,
    /// The single buffer descriptor.
    pub bdl_entry: BdlEntry,
    /// Physical address of the descriptor list.
    pub bdl_phys: u64,
    /// Stream control value: stream number 1.
    pub control: u32,
    /// Cyclic buffer length.
    pub cbl: u32,
    /// Last valid index: one entry.
    pub lvi: u16,
    /// Stream format: 48 kHz.
    pub format: u16,
}

impl HdaController {
    /// Address of the controller's registers.
    pub closed spec fn spec_base(&self) -> int {
        self.base as int
    }

    /// Offset of the higher-half direct map.
    pub closed spec fn spec_hhdm(&self) -> int {
        self.hhdm as int
    }

    /// Address of the buffer descriptor list.
    pub closed spec fn spec_bdl(&self) -> int {
        self.bdl_virt as int
    }

    /// The controller whose registers are at physical `bar0`, seen through
    /// the direct map at `hhdm`, with its descriptor list at `bdl_ptr`.
    pub fn new(bar0: usize, hhdm: usize, bdl_ptr: usize) -> (r: Self)
        requires
            bar0 + hhdm <= usize::MAX,
        ensures
            r.spec_base() == bar0 + hhdm,
            r.spec_hhdm() == hhdm,
            r.spec_bdl() == bdl_ptr,
    {
        HdaController { base: bar0 + hhdm, hhdm, bdl_virt: bdl_ptr }
    }

    /// Address of the controller's registers.
    pub fn base(&self) -> (r: usize)
        ensures
            r == self.spec_base(),
    {
        self.base
    }

    /// Offset of the higher-half direct map.
    pub fn hhdm(&self) -> (r: usize)
        ensures
            r == self.spec_hhdm(),
    {
        self.hhdm
    }

    /// Address of the buffer descriptor list.
    pub fn bdl(&self) -> (r: usize)
        ensures
            r == self.spec_bdl(),
    {
        self.bdl_virt
    }

    /// Address of the global control register.
    pub fn gctl_addr(&self) -> (r: usize)
        requires
            self.spec_base() + 0x08 <= usize::MAX,
        ensures
            r == self.spec_base() + 0x08,
    {
        self.base + 0x08
    }

    /// Addresses of the immediate command, response and status registers.
    pub fn verb_registers(&self) -> (r: (usize, usize, usize))
        requires
            self.spec_base() + 0x68 <= usize::MAX,
        ensures
            r == (
                (self.spec_base() + 0x60) as usize,
                (self.spec_base() + 0x64) as usize,
                (self.spec_base() + 0x68) as usize,
            ),
    {
        (self.base + 0x60, self.base + 0x64, self.base + 0x68)
    }

    /// Everything the stream registers receive to play the buffer of
    /// `data_len` bytes at `data_addr` (a direct-map address): one
    /// descriptor pointing at the buffer's physical address with interrupt on
    /// completion, the list's physical address, stream 1, the buffer length,
    /// one valid entry, and the 48 kHz format.
    pub fn stream_setup(&self, data_addr: usize, data_len: usize) -> (r: StreamSetup)
        requires
            self.spec_base() + STREAM_OFFSET <= usize::MAX,
            data_addr >= self.spec_hhdm(),
            self.spec_bdl() >= self.spec_hhdm(),
        ensures
            r.sd_base == self.spec_base() + STREAM_OFFSET,
            r.bdl_entry == (BdlEntry {
                address: (data_addr - self.spec_hhdm()) as u64,
                length: data_len as u32,
                flags: 1,
            }),
            r.bdl_phys == (self.spec_bdl() - self.spec_hhdm()) as u64,
            r.control == 1u32 << 20u32,
            r.cbl == data_len as u32,
            r.lvi == 0,
            r.format == 0x11,
    {
        let stream_off = 0x80 + (4 * 0x20);
        let sd_base = self.base + stream_off;
        let phys_data = data_addr - self.hhdm;
        let entry = BdlEntry { address: phys_data as u64, length: data_len as u32, flags: 0x1 };
        StreamSetup {
            sd_base,
            bdl_entry: entry,
            bdl_phys: (self.bdl_virt - self.hhdm) as u64,
            control: 1 << 20,
            cbl: data_len as u32,
            lvi: 0,
            format: 0x11,
        }
    }
}

/// The command word of a verb sent to a node.
pub fn verb_command(node: u32, verb: u32) -> (r: u32)
    ensures
        r == verb_command_spec(node, verb),
{
    (node << 20) | verb
}

/// The first node and the number of nodes in a subordinate-node-count
/// response.
pub fn subordinate_nodes(resp: u32) -> (r: (u32, u32))
    ensures
        r == subordinate_spec(resp),
{
    ((resp >> 16) & 0xFF, resp & 0xFF)
}

/// Whether a function-group-type response names an audio function group.
pub fn is_audio_function_group(resp: u32) -> (r: bool)
    ensures
        r == (resp & 0xFFu32 == 0x01),
{
    (resp & 0xFF) == 0x01
}

/// The widget type in an audio widget capabilities response.
pub fn widget_type(caps: u32) -> (r: u32)
    ensures
        r == widget_type_spec(caps),
{
    (caps >> 20) & 0xF
}

/// The (node, verb) writes that route `dac` to `pin`, in order.
pub fn route_verbs(dac: u32, pin: u32) -> (r: Vec<(u32, u32)>)
    ensures
        r@ == route_verbs_spec(dac, pin),
{
    let mut v: Vec<(u32, u32)> = Vec::new();
    v.push((dac, 0x70500));
    v.push((pin, 0x70500));
    v.push((dac, 0x70601));
    v.push((dac, 0x3907F));
    v.push((pin, 0x70740));
    v.push((pin, 0x3B07F));
    assert(v@ =~= route_verbs_spec(dac, pin));
    v
}

/// What a wait on the command interface does after one status poll.
#[derive(Clone, Copy, Debug, PartialEq, Eq, Structural)]
pub enum VerbWaitStep {
    /// The awaited condition holds.
    Ready,
    /// Poll again.
    Poll,
    /// The verb is given up; its response is `VERB_FAILED`.
    TimedOut,
}

/// A wait on the command interface with its count of fruitless polls.
pub struct VerbWait {
    pub polls: u32,
}

impl VerbWait {
    /// A wait with no poll yet.
    pub fn new() -> (r: Self)
        ensures
            r.polls == 0,
    {
        VerbWait { polls: 0 }
    }

    /// Takes whether the condition awaited (interface idle, or response
    /// valid) holds at this poll: when it does the wait is over; otherwise
    /// the poll is counted and the wait gives up once more than 100000 polls
    /// were fruitless.
    pub fn poll(&mut self, ready: bool) -> (r: VerbWaitStep)
        requires
            old(self).polls <= VERB_TIMEOUT,
        ensures
            ready ==> r == VerbWaitStep::Ready && final(self).polls == old(self).polls,
            !ready ==> final(self).polls == old(self).polls + 1,
            !ready ==> (r == VerbWaitStep::TimedOut <==> old(self).polls + 1 > VERB_TIMEOUT),
            !ready ==> (r == VerbWaitStep::Poll <==> old(self).polls + 1 <= VERB_TIMEOUT),
    {
        if ready {
            VerbWaitStep::Ready
        } else {
            self.polls = self.polls + 1;
            if self.polls > VERB_TIMEOUT {
                VerbWaitStep::TimedOut
            } else {
                VerbWaitStep::Poll
            }
        }
    }
}

/// The search of an audio function group's widgets for the first DAC and the
/// first output-capable pin; a node number of 0 means none found yet.
pub struct AfgSearch {
    pub dac_node: u32,
    pub pin_node: u32,
}

/// Whether a widget type is a pin complex, whose pin capabilities are then
/// read.
pub fn needs_pin_caps(caps: u32) -> (r: bool)
    ensures
        r == (widget_type_spec(caps) == 4),
{
    widget_type(caps) == 0x4
}

impl AfgSearch {
    /// Nothing found yet.
    pub fn new() -> (r: Self)
        ensures
            r.dac_node == 0,
            r.pin_node == 0,
    {
        AfgSearch { dac_node: 0, pin_node: 0 }
    }

    /// Takes node `nid` with its widget capabilities and, for a pin, its pin
    /// capabilities: an audio output becomes the DAC and a pin with the
    /// output bit (bit 4) the pin, each only while none is recorded.
    pub fn consider(&mut self, nid: u32, caps: u32, pin_caps: u32)
        ensures
            final(self).dac_node == (if widget_type_spec(caps) == 0 && old(self).dac_node == 0 {
                nid
            } else {
                old(self).dac_node
            }),
            final(self).pin_node == (if widget_type_spec(caps) == 4 && pin_caps & 0x10u32 != 0
                && old(self).pin_node == 0 {
                nid
            } else {
                old(self).pin_node
            }),
    {
        let w_type = widget_type(caps);
        if w_type == 0x0 {
            if self.dac_node == 0 {
                self.dac_node = nid;
            }
        } else if w_type == 0x4 {
            if (pin_caps & 0x10) != 0 {
                if self.pin_node == 0 {
                    self.pin_node = nid;
                }
            }
        }
    }

    /// The path to route, once both ends were found.
    pub fn route(&self) -> (r: Option<(u32, u32)>)
        ensures
            r == (if self.dac_node != 0 && self.pin_node != 0 {
                Some((self.dac_node, self.pin_node))
            } else {
                None::<(u32, u32)>
            }),
    {
        if self.dac_node != 0 && self.pin_node != 0 {
            Some((self.dac_node, self.pin_node))
        } else {
            None
        }
    }
}

/// What the codec answers: the response to each (node, verb) query.
pub type CodecResponses = spec_fn(u32, u32) -> u32;

/// Node `nid` answers that it is an audio function group.
pub open spec fn is_audio_group(resp: CodecResponses, nid: int) -> bool {
    resp(nid as u32, VERB_FUNCTION_GROUP_TYPE) & 0xFFu32 == 0x01
}

/// The first audio function group among nodes `nid` up to `end`, if any.
pub open spec fn first_audio_group(resp: CodecResponses, nid: int, end: int) -> Option<u32>
    decreases end - nid,
{
    if nid >= end {
        None
    } else if is_audio_group(resp, nid) {
        Some(nid as u32)
    } else {
        first_audio_group(resp, nid + 1, end)
    }
}

/// The function-group-type queries sent to nodes `nid` up to `end`, in
/// order, up to and including the first audio function group.
pub open spec fn group_queries(resp: CodecResponses, nid: int, end: int) -> Seq<(u32, u32)>
    decreases end - nid,
{
    if nid >= end {
        Seq::empty()
    } else if is_audio_group(resp, nid) {
        seq![(nid as u32, VERB_FUNCTION_GROUP_TYPE)]
    } else {
        seq![(nid as u32, VERB_FUNCTION_GROUP_TYPE)] + group_queries(resp, nid + 1, end)
    }
}

/// The search of the root node's function groups for the first audio
/// function group, one query at a time.
pub struct FunctionGroupScan {
    nid: u32,
    end: u32,
    found: Option<u32>,
}

impl FunctionGroupScan {
    /// The node next asked, the end of the range and the group found.
    pub closed spec fn wf(&self) -> bool {
        &&& self.end <= 510
        &&& self.nid <= self.end
    }

    /// An audio function group was found or every node was asked.
    pub closed spec fn is_done(&self) -> bool {
        self.found is Some || self.nid >= self.end
    }

    /// The (node, verb) query the scan needs answered next.
    pub closed spec fn request(&self) -> Option<(u32, u32)> {
        if self.is_done() {
            None
        } else {
            Some((self.nid, VERB_FUNCTION_GROUP_TYPE))
        }
    }

    /// The group the whole scan finds, given the codec's answers.
    pub closed spec fn outcome(&self, resp: CodecResponses) -> Option<u32> {
        match self.found {
            Some(g) => Some(g),
            None => first_audio_group(resp, self.nid as int, self.end as int),
        }
    }

    /// The queries still to be sent, in order, given the codec's answers.
    pub closed spec fn queries(&self, resp: CodecResponses) -> Seq<(u32, u32)> {
        match self.found {
            Some(_) => Seq::empty(),
            None => group_queries(resp, self.nid as int, self.end as int),
        }
    }

    /// How far the scan has got; it grows with each answer.
    pub closed spec fn progress(&self) -> int {
        match self.found {
            Some(_) => self.end as int + 1,
            None => self.nid as int,
        }
    }

    /// A scan of the nodes named by the root's subordinate-node-count
    /// response: for any codec it finds the first audio function group
    /// among them, asking each node in turn until it does.
    pub fn new(subordinate_resp: u32) -> (r: Self)
        ensures
            r.wf(),
            forall|resp: CodecResponses|
                #[trigger] r.outcome(resp) == first_audio_group(
                    resp,
                    subordinate_spec(subordinate_resp).0 as int,
                    subordinate_spec(subordinate_resp).0 + subordinate_spec(subordinate_resp).1,
                ),
            forall|resp: CodecResponses|
                #[trigger] r.queries(resp) == group_queries(
                    resp,
                    subordinate_spec(subordinate_resp).0 as int,
                    subordinate_spec(subordinate_resp).0 + subordinate_spec(subordinate_resp).1,
                ),
    {
        let (start, count) = subordinate_nodes(subordinate_resp);
        assert(start <= 0xFF && count <= 0xFF) by (bit_vector)
            requires
                start == (subordinate_resp >> 16u32) & 0xFFu32,
                count == subordinate_resp & 0xFFu32,
        ;
        FunctionGroupScan { nid: start, end: start + count, found: None }
    }

    /// The query the scan needs answered next; `None` once it is over.
    pub fn next_query(&self) -> (r: Option<(u32, u32)>)
        ensures
            r == self.request(),
            r is None <==> self.is_done(),
    {
        if self.found.is_some() || self.nid >= self.end {
            None
        } else {
            Some((self.nid, VERB_FUNCTION_GROUP_TYPE))
        }
    }

    /// Takes the answer to the pending query: an audio function group ends
    /// the scan, any other answer moves it to the next node. For every codec
    /// that gave this answer, the outcome stays the same, and the query is
    /// the first of those that were still to be sent.
    pub fn feed(&mut self, value: u32)
        requires
            old(self).wf(),
            !old(self).is_done(),
        ensures
            final(self).wf(),
            final(self).progress() > old(self).progress(),
            forall|resp: CodecResponses|
                #![trigger final(self).outcome(resp)]
                #![trigger final(self).queries(resp)]
                resp(old(self).request().unwrap().0, old(self).request().unwrap().1) == value ==> {
                    &&& final(self).outcome(resp) == old(self).outcome(resp)
                    &&& old(self).queries(resp) == seq![old(self).request().unwrap()]
                        + final(self).queries(resp)
                },
    {
        let ghost before = *self;
        if is_audio_function_group(value) {
            self.found = Some(self.nid);
        } else {
            self.nid = self.nid + 1;
        }
        assert forall|resp: CodecResponses|
            resp(before.request().unwrap().0, before.request().unwrap().1) == value implies {
                &&& self.outcome(resp) == before.outcome(resp)
                &&& before.queries(resp) == seq![before.request().unwrap()] + self.queries(resp)
            } by {
            assert(before.nid as int == (before.nid as u32) as int);
            if is_audio_group(resp, before.nid as int) {
                assert(group_queries(resp, before.nid as int, before.end as int) =~= seq![
                    (before.nid, VERB_FUNCTION_GROUP_TYPE),
                ]);
            }
        }
    }

    /// The audio function group found; once the scan is over, what the
    /// whole scan finds.
    pub fn group(&self) -> (r: Option<u32>)
        ensures
            self.is_done() ==> forall|resp: CodecResponses| #[trigger] self.outcome(resp) == r,
            !self.is_done() ==> r is None,
    {
        self.found
    }
}

/// Node `nid` is a DAC that can be routed: an audio output widget with a
/// node number other than 0.
pub open spec fn is_dac(resp: CodecResponses, nid: int) -> bool {
    nid != 0 && widget_type_spec(resp(nid as u32, VERB_WIDGET_CAPS)) == 0
}

/// Node `nid` is an output pin that can be routed: a pin complex whose pin
/// capabilities have the output bit, with a node number other than 0.
pub open spec fn is_output_pin(resp: CodecResponses, nid: int) -> bool {
    &&& nid != 0
    &&& widget_type_spec(resp(nid as u32, VERB_WIDGET_CAPS)) == 4
    &&& resp(nid as u32, VERB_PIN_CAPS) & 0x10u32 != 0
}

/// The first routable DAC among nodes `nid` up to `end`, or 0.
pub open spec fn first_dac(resp: CodecResponses, nid: int, end: int) -> u32
    decreases end - nid,
{
    if nid >= end {
        0
    } else if is_dac(resp, nid) {
        nid as u32
    } else {
        first_dac(resp, nid + 1, end)
    }
}

/// The first routable output pin among nodes `nid` up to `end`, or 0.
pub open spec fn first_pin(resp: CodecResponses, nid: int, end: int) -> u32
    decreases end - nid,
{
    if nid >= end {
        0
    } else if is_output_pin(resp, nid) {
        nid as u32
    } else {
        first_pin(resp, nid + 1, end)
    }
}

/// The route, when both a DAC and a pin were found (0 meaning none).
pub open spec fn route_of(dac: u32, pin: u32) -> Option<(u32, u32)> {
    if dac != 0 && pin != 0 {
        Some((dac, pin))
    } else {
        None
    }
}

/// The route an audio function group offers over the `count` widgets from
/// node `start`: its first DAC and its first output pin, if both exist.
pub open spec fn first_route(resp: CodecResponses, start: int, count: int) -> Option<(u32, u32)> {
    route_of(first_dac(resp, start, start + count), first_pin(resp, start, start + count))
}

/// The queries sent to widgets `nid` up to `end`, in order: each widget's
/// capabilities, and for a pin complex its pin capabilities right after.
pub open spec fn widget_queries(resp: CodecResponses, nid: int, end: int) -> Seq<(u32, u32)>
    decreases end - nid,
{
    if nid >= end {
        Seq::empty()
    } else if widget_type_spec(resp(nid as u32, VERB_WIDGET_CAPS)) == 4 {
        seq![(nid as u32, VERB_WIDGET_CAPS), (nid as u32, VERB_PIN_CAPS)] + widget_queries(
            resp,
            nid + 1,
            end,
        )
    } else {
        seq![(nid as u32, VERB_WIDGET_CAPS)] + widget_queries(resp, nid + 1, end)
    }
}

/// `a` unless it is 0, else `b`.
pub open spec fn found_or(a: u32, b: u32) -> u32 {
    if a != 0 {
        a
    } else {
        b
    }
}

/// Which query an audio function group scan waits on.
#[derive(Clone, Copy, Debug, PartialEq, Eq, Structural)]
pub enum AfgStage {
    /// The current widget's capabilities.
    Caps,
    /// The current pin complex's pin capabilities.
    PinCaps,
    /// Every widget was asked.
    Done,
}

/// The search of an audio function group's widgets for the first DAC and the
/// first output pin, one query at a time.
pub struct AfgScan {
    nid: u32,
    end: u32,
    stage: AfgStage,
    caps: u32,
    search: AfgSearch,
}

impl AfgScan {
    /// The widget asked lies in the group's range; a pin's capabilities are
    /// asked only of a pin complex.
    pub closed spec fn wf(&self) -> bool {
        &&& self.end <= 510
        &&& self.nid <= self.end
        &&& (self.stage == AfgStage::Done <==> self.nid == self.end)
        &&& self.stage == AfgStage::PinCaps ==> widget_type_spec(self.caps) == 4
    }

    /// Every widget was asked.
    pub closed spec fn is_done(&self) -> bool {
        self.stage == AfgStage::Done
    }

    /// The (node, verb) query the scan needs answered next.
    pub closed spec fn request(&self) -> Option<(u32, u32)> {
        match self.stage {
            AfgStage::Caps => Some((self.nid, VERB_WIDGET_CAPS)),
            AfgStage::PinCaps => Some((self.nid, VERB_PIN_CAPS)),
            AfgStage::Done => None,
        }
    }

    /// The route the whole scan finds, given the codec's answers: what was
    /// found so far, else what the widgets still ahead offer.
    pub closed spec fn outcome(&self, resp: CodecResponses) -> Option<(u32, u32)> {
        let dac = self.search.dac_node;
        let pin = self.search.pin_node;
        let n = self.nid as int;
        let e = self.end as int;
        match self.stage {
            AfgStage::Caps => route_of(found_or(dac, first_dac(resp, n, e)), found_or(pin, first_pin(resp, n, e))),
            AfgStage::PinCaps => route_of(
                found_or(dac, first_dac(resp, n + 1, e)),
                found_or(
                    pin,
                    if n != 0 && resp(self.nid, VERB_PIN_CAPS) & 0x10u32 != 0 {
                        self.nid
                    } else {
                        first_pin(resp, n + 1, e)
                    },
                ),
            ),
            AfgStage::Done => route_of(dac, pin),
        }
    }

    /// The queries still to be sent, in order, given the codec's answers.
    pub closed spec fn queries(&self, resp: CodecResponses) -> Seq<(u32, u32)> {
        match self.stage {
            AfgStage::Caps => widget_queries(resp, self.nid as int, self.end as int),
            AfgStage::PinCaps => seq![(self.nid, VERB_PIN_CAPS)] + widget_queries(
                resp,
                self.nid + 1,
                self.end as int,
            ),
            AfgStage::Done => Seq::empty(),
        }
    }

    /// How far the scan has got; it grows with each answer.
    pub closed spec fn progress(&self) -> int {
        match self.stage {
            AfgStage::Caps => 2 * self.nid,
            AfgStage::PinCaps => 2 * self.nid + 1,
            AfgStage::Done => 2 * self.end,
        }
    }

    /// A scan of the widgets named by the group's subordinate-node-count
    /// response: for any codec it finds the group's first DAC and first
    /// output pin, asking each widget its capabilities and each pin complex
    /// its pin capabilities, in node order.
    pub fn new(subordinate_resp: u32) -> (r: Self)
        ensures
            r.wf(),
            forall|resp: CodecResponses|
                #[trigger] r.outcome(resp) == first_route(
                    resp,
                    subordinate_spec(subordinate_resp).0 as int,
                    subordinate_spec(subordinate_resp).1 as int,
                ),
            forall|resp: CodecResponses|
                #[trigger] r.queries(resp) == widget_queries(
                    resp,
                    subordinate_spec(subordinate_resp).0 as int,
                    subordinate_spec(subordinate_resp).0 + subordinate_spec(subordinate_resp).1,
                ),
    {
        let (start, count) = subordinate_nodes(subordinate_resp);
        assert(start <= 0xFF && count <= 0xFF) by (bit_vector)
            requires
                start == (subordinate_resp >> 16u32) & 0xFFu32,
                count == subordinate_resp & 0xFFu32,
        ;
        let stage = if count == 0 {
            AfgStage::Done
        } else {
            AfgStage::Caps
        };
        let r = AfgScan { nid: start, end: start + count, stage, caps: 0, search: AfgSearch::new() };
        assert forall|resp: CodecResponses| #[trigger] r.outcome(resp) == first_route(resp, start as int, count as int) by {
            if count == 0 {
                assert(first_dac(resp, start as int, start as int) == 0);
                assert(first_pin(resp, start as int, start as int) == 0);
            }
        }
        assert forall|resp: CodecResponses| #[trigger] r.queries(resp) == widget_queries(resp, start as int, start + count) by {
            if count == 0 {
                assert(widget_queries(resp, start as int, start as int) =~= Seq::<(u32, u32)>::empty());
            }
        }
        r
    }

    /// The query the scan needs answered next; `None` once it is over.
    pub fn next_query(&self) -> (r: Option<(u32, u32)>)
        ensures
            r == self.request(),
            r is None <==> self.is_done(),
    {
        match self.stage {
            AfgStage::Caps => Some((self.nid, VERB_WIDGET_CAPS)),
            AfgStage::PinCaps => Some((self.nid, VERB_PIN_CAPS)),
            AfgStage::Done => None,
        }
    }

    /// Takes the answer to the pending query: a widget's capabilities move
    /// on to its pin capabilities when it is a pin complex, else to the next
    /// widget; a pin's capabilities move on to the next widget. For every
    /// codec that gave this answer, the outcome stays the same, and the query
    /// is the first of those that were still to be sent.
    pub fn feed(&mut self, value: u32)
        requires
            old(self).wf(),
            !old(self).is_done(),
        ensures
            final(self).wf(),
            final(self).progress() > old(self).progress(),
            forall|resp: CodecResponses|
                #![trigger final(self).outcome(resp)]
                #![trigger final(self).queries(resp)]
                resp(old(self).request().unwrap().0, old(self).request().unwrap().1) == value ==> {
                    &&& final(self).outcome(resp) == old(self).outcome(resp)
                    &&& old(self).queries(resp) == seq![old(self).request().unwrap()]
                        + final(self).queries(resp)
                },
    {
        let ghost before = *self;
        match self.stage {
            AfgStage::Caps => {
                if needs_pin_caps(value) {
                    self.caps = value;
                    self.stage = AfgStage::PinCaps;
                } else {
                    self.search.consider(self.nid, value, 0);
                    self.advance();
                }
            },
            AfgStage::PinCaps => {
                self.search.consider(self.nid, self.caps, value);
                self.advance();
            },
            AfgStage::Done => {},
        }
        assert forall|resp: CodecResponses|
            resp(before.request().unwrap().0, before.request().unwrap().1) == value implies {
                &&& self.outcome(resp) == before.outcome(resp)
                &&& before.queries(resp) == seq![before.request().unwrap()] + self.queries(resp)
            } by {
            let n = before.nid as int;
            let e = before.end as int;
            assert(n == (n as u32) as int);
            if before.stage == AfgStage::Caps {
                if widget_type_spec(value) == 4 {
                    assert(widget_queries(resp, n, e) =~= seq![(before.nid, VERB_WIDGET_CAPS)]
                        + (seq![(before.nid, VERB_PIN_CAPS)] + widget_queries(resp, n + 1, e)));
                } else {
                    assert(widget_queries(resp, n, e) =~= seq![(before.nid, VERB_WIDGET_CAPS)]
                        + widget_queries(resp, n + 1, e));
                    if n + 1 == e {
                        assert(widget_queries(resp, e, e) =~= Seq::<(u32, u32)>::empty());
                        assert(first_dac(resp, e, e) == 0);
                        assert(first_pin(resp, e, e) == 0);
                    }
                }
            } else {
                assert(before.queries(resp) =~= seq![before.request().unwrap()] + widget_queries(resp, n + 1, e));
                if n + 1 == e {
                    assert(widget_queries(resp, e, e) =~= Seq::<(u32, u32)>::empty());
                    assert(first_dac(resp, e, e) == 0);
                    assert(first_pin(resp, e, e) == 0);
                }
            }
        }
    }

    /// Moves to the next widget, or ends the scan after the last.
    fn advance(&mut self)
        requires
            old(self).nid < old(self).end <= 510,
        ensures
            final(self).nid == old(self).nid + 1,
            final(self).end == old(self).end,
            final(self).caps == old(self).caps,
            final(self).search == old(self).search,
            final(self).stage == (if old(self).nid + 1 == old(self).end {
                AfgStage::Done
            } else {
                AfgStage::Caps
            }),
    {
        self.nid = self.nid + 1;
        if self.nid == self.end {
            self.stage = AfgStage::Done;
        } else {
            self.stage = AfgStage::Caps;
        }
    }

    /// The (DAC, pin) pair to route; once the scan is over, what the whole
    /// scan finds.
    pub fn route(&self) -> (r: Option<(u32, u32)>)
        ensures
            self.is_done() ==> forall|resp: CodecResponses| #[trigger] self.outcome(resp) == r,
            r == route_of(self.found_dac(), self.found_pin()),
    {
        self.search.route()
    }

    /// The DAC found so far, or 0.
    pub closed spec fn found_dac(&self) -> u32 {
        self.search.dac_node
    }

    /// The output pin found so far, or 0.
    pub closed spec fn found_pin(&self) -> u32 {
        self.search.pin_node
    }
}

} // verus!

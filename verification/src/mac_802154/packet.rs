//! Bit-exact model of 802.15.4-style MAC frames: header, content and
//! payload, with verified encoding and decoding.

use vstd::prelude::*;

use crate::address::Address;
use crate::error::DecodeError;
use crate::wire::{
    push_u16_le, push_u64_le, read_u16_le, read_u64_le, u16_from_le, u16_le, u64_from_le, u64_le,
};

verus! {

/// Maximum payload carried by one MAC frame.
pub const MAX_PAYLOAD_LEN: usize = 256;

/// Frame type carried in the frame control field.
#[derive(Clone, Copy, Debug, PartialEq, Eq, Structural)]
pub enum FrameType {
    /// Superframe beacon broadcast by a coordinator.
    Beacon,
    /// Application data.
    Data,
    /// Software acknowledgement.
    Acknowledgement,
    /// MAC management command.
    MacCommand,
}

/// Frame version carried in the frame control field.
#[derive(Clone, Copy, Debug, PartialEq, Eq, Structural)]
pub enum FrameVersion {
    /// Original 2003 framing.
    Ieee802154_2003,
    /// 2006 framing, the version this stack produces.
    Ieee802154_2006,
    /// Current framing.
    Ieee802154,
}

/// MAC frame header: frame control flags, sequence number and addressing.
#[derive(Clone, Copy, Debug, PartialEq, Eq, Structural)]
pub struct Header {
    /// Frame type of the content that follows.
    pub frame_type: FrameType,
    /// More data is pending at the sender.
    pub frame_pending: bool,
    /// The receiver is asked to acknowledge this frame.
    pub ack_request: bool,
    /// The source PAN identifier is elided and equals the destination's.
    pub pan_id_compress: bool,
    /// The sequence number is suppressed (never set by this stack).
    pub seq_no_suppress: bool,
    /// Information elements follow the header (never set by this stack).
    pub ie_present: bool,
    /// Frame version.
    pub version: FrameVersion,
    /// Sequence number.
    pub seq: u8,
    /// Destination address.
    pub destination: Address,
    /// Source address.
    pub source: Address,
}

/// Beacon order / superframe order: an exponent 0..=14, or the value that
/// disables periodic beacons entirely.
#[derive(Clone, Copy, Debug, PartialEq, Eq, Structural)]
pub enum BeaconOrder {
    /// Beacon period = base duration times two to this order (0..=14).
    BeaconOrder(u8),
    /// Beacons are sent on demand only.
    OnDemand,
}

/// Superframe order: the active portion exponent, or inactive.
#[derive(Clone, Copy, Debug, PartialEq, Eq, Structural)]
pub enum SuperframeOrder {
    /// Active period = base duration times two to this order (0..=14).
    SuperframeOrder(u8),
    /// The whole superframe is inactive.
    Inactive,
}

/// Superframe specification broadcast in every beacon.
#[derive(Clone, Copy, Debug, PartialEq, Eq, Structural)]
pub struct SuperframeSpecification {
    /// Beacon order.
    pub beacon_order: BeaconOrder,
    /// Superframe order.
    pub superframe_order: SuperframeOrder,
    /// Last slot of the contention access period (0..=15).
    pub final_cap_slot: u8,
    /// Battery life extension flag.
    pub battery_life_extension: bool,
    /// The sender is the PAN coordinator.
    pub pan_coordinator: bool,
    /// The sender accepts association requests.
    pub association_permit: bool,
}

/// Beacon content; this stack always sends empty guaranteed-time-slot and
/// pending-address lists, encoded as one zero byte each.
#[derive(Clone, Copy, Debug, PartialEq, Eq, Structural)]
pub struct Beacon {
    /// Superframe specification of the sending coordinator.
    pub superframe_spec: SuperframeSpecification,
}

/// Device capabilities announced in an association request.
#[derive(Clone, Copy, Debug, PartialEq, Eq, Structural)]
pub struct CapabilityInformation {
    /// The device is a full-function device.
    pub full_function_device: bool,
    /// The device is mains powered.
    pub mains_power: bool,
    /// The receiver stays on while idle.
    pub idle_receive: bool,
    /// Frames are cryptographically protected (never set by this stack).
    pub frame_protection: bool,
    /// The coordinator is asked to allocate a short address.
    pub allocate_address: bool,
}

/// Outcome of an association request.
#[derive(Clone, Copy, Debug, PartialEq, Eq, Structural)]
pub enum AssociationStatus {
    /// Association granted.
    Successful,
    /// The PAN has no capacity left.
    NetworkAtCapacity,
    /// Access denied by policy.
    AccessDenied,
}

/// MAC management commands understood by this stack.
#[derive(Clone, Copy, Debug, PartialEq, Eq, Structural)]
pub enum Command {
    /// Ask a coordinator to join its PAN.
    AssociationRequest(CapabilityInformation),
    /// Grant or refuse a pending association; carries the allocated short
    /// address and the status.
    AssociationResponse(u16, AssociationStatus),
}

/// Frame content, discriminated by the header's frame type.
#[derive(Clone, Copy, Debug, PartialEq, Eq, Structural)]
pub enum FrameContent {
    /// Beacon fields.
    Beacon(Beacon),
    /// Data frame: the payload alone.
    Data,
    /// Acknowledgement frame: empty.
    Acknowledgement,
    /// Management command.
    Command(Command),
}

/// A MAC frame with owned storage: header, content, payload and footer.
#[derive(Debug, PartialEq)]
pub struct Packet {
    /// Frame header.
    pub header: Header,
    /// Frame content.
    pub content: FrameContent,
    /// Payload bytes, at most [`MAX_PAYLOAD_LEN`].
    pub payload: Vec<u8>,
    /// Frame check sequence placeholder; never written to the wire.
    pub footer: [u8; 2],
}

/// Mathematical model of a [`Packet`].
#[verifier::ext_equal]
pub struct PacketView {
    /// Frame header.
    pub header: Header,
    /// Frame content.
    pub content: FrameContent,
    /// Payload bytes.
    pub payload: Seq<u8>,
    /// Footer bytes.
    pub footer: Seq<u8>,
}

impl Clone for Packet {
    /// Cloning preserves every field of the packet.
    fn clone(&self) -> (r: Self)
        ensures
            r@ == self@,
    {
        let mut payload: Vec<u8> = Vec::new();
        let mut i: usize = 0;
        while i < self.payload.len()
            invariant
                i <= self.payload@.len(),
                payload@ == self.payload@.subrange(0, i as int),
            decreases self.payload@.len() - i,
        {
            payload.push(self.payload[i]);
            i += 1;
            proof {
                assert(payload@ =~= self.payload@.subrange(0, i as int));
            }
        }
        proof {
            assert(self.payload@.subrange(0, self.payload@.len() as int) =~= self.payload@);
        }
        let r = Packet { header: self.header, content: self.content, payload, footer: self.footer };
        proof {
            assert(r@ =~= self@);
        }
        r
    }
}

impl View for Packet {
    type V = PacketView;

    open spec fn view(&self) -> PacketView {
        PacketView {
            header: self.header,
            content: self.content,
            payload: self.payload@,
            footer: self.footer@,
        }
    }
}

// ---------------------------------------------------------------------------
// Encoding layout, as spec-level byte sequences.
// ---------------------------------------------------------------------------

/// Wire value of a frame type.
pub open spec fn frame_type_val(ft: FrameType) -> u8 {
    match ft {
        FrameType::Beacon => 0,
        FrameType::Data => 1,
        FrameType::Acknowledgement => 2,
        FrameType::MacCommand => 3,
    }
}

/// Wire value of a frame version.
pub open spec fn version_val(v: FrameVersion) -> u8 {
    match v {
        FrameVersion::Ieee802154_2003 => 0,
        FrameVersion::Ieee802154_2006 => 1,
        FrameVersion::Ieee802154 => 2,
    }
}

/// Wire value of an addressing mode.
pub open spec fn addr_mode_val(a: Address) -> u8 {
    match a {
        Address::Absent => 0,
        Address::Short(_, _) => 2,
        Address::Extended(_, _) => 3,
    }
}

/// 1 for true, 0 for false.
pub open spec fn bit_val(b: bool) -> u8 {
    if b {
        1
    } else {
        0
    }
}

/// Low byte of the frame control field: frame type and flags. The security
/// bit is always clear; this stack does not protect frames.
pub open spec fn fc_low(h: Header) -> u8 {
    (frame_type_val(h.frame_type) + bit_val(h.frame_pending) * 16 + bit_val(h.ack_request) * 32
        + bit_val(h.pan_id_compress) * 64) as u8
}

/// High byte of the frame control field: addressing modes and version.
pub open spec fn fc_high(h: Header) -> u8 {
    (bit_val(h.seq_no_suppress) + bit_val(h.ie_present) * 2 + addr_mode_val(h.destination) * 4
        + version_val(h.version) * 16 + addr_mode_val(h.source) * 64) as u8
}

/// Bytes of an address: PAN identifier then device address, little-endian.
pub open spec fn encoded_addr(a: Address) -> Seq<u8> {
    match a {
        Address::Absent => Seq::empty(),
        Address::Short(pan, s) => u16_le(pan) + u16_le(s),
        Address::Extended(pan, e) => u16_le(pan) + u64_le(e),
    }
}

/// Bytes of the source address; under PAN compression its PAN identifier is
/// elided.
pub open spec fn encoded_src(a: Address, compress: bool) -> Seq<u8> {
    if compress {
        match a {
            Address::Absent => Seq::empty(),
            Address::Short(_, s) => u16_le(s),
            Address::Extended(_, e) => u64_le(e),
        }
    } else {
        encoded_addr(a)
    }
}

/// Bytes of a frame header.
pub open spec fn encoded_header(h: Header) -> Seq<u8> {
    seq![fc_low(h), fc_high(h), h.seq] + encoded_addr(h.destination)
        + encoded_src(h.source, h.pan_id_compress)
}

/// Wire value of a beacon order.
pub open spec fn beacon_order_val(o: BeaconOrder) -> u8 {
    match o {
        BeaconOrder::BeaconOrder(v) => v,
        BeaconOrder::OnDemand => 15,
    }
}

/// Wire value of a superframe order.
pub open spec fn superframe_order_val(o: SuperframeOrder) -> u8 {
    match o {
        SuperframeOrder::SuperframeOrder(v) => v,
        SuperframeOrder::Inactive => 15,
    }
}

/// 16-bit wire value of a superframe specification.
pub open spec fn superframe_spec_val(s: SuperframeSpecification) -> u16 {
    (beacon_order_val(s.beacon_order) % 16 + superframe_order_val(s.superframe_order) % 16 * 16
        + s.final_cap_slot % 16 * 256 + bit_val(s.battery_life_extension) * 4096
        + bit_val(s.pan_coordinator) * 16384 + bit_val(s.association_permit) * 32768) as u16
}

/// Wire value of a capability information byte.
pub open spec fn capability_val(c: CapabilityInformation) -> u8 {
    (bit_val(c.full_function_device) * 2 + bit_val(c.mains_power) * 4 + bit_val(c.idle_receive)
        * 8 + bit_val(c.frame_protection) * 64 + bit_val(c.allocate_address) * 128) as u8
}

/// Wire value of an association status.
pub open spec fn status_val(s: AssociationStatus) -> u8 {
    match s {
        AssociationStatus::Successful => 0,
        AssociationStatus::NetworkAtCapacity => 1,
        AssociationStatus::AccessDenied => 2,
    }
}

/// Bytes of the frame content.
pub open spec fn encoded_content(c: FrameContent) -> Seq<u8> {
    match c {
        FrameContent::Beacon(b) => u16_le(superframe_spec_val(b.superframe_spec)) + seq![
            0u8,
            0u8,
        ],
        FrameContent::Data => Seq::empty(),
        FrameContent::Acknowledgement => Seq::empty(),
        FrameContent::Command(Command::AssociationRequest(cap)) => seq![1u8, capability_val(cap)],
        FrameContent::Command(Command::AssociationResponse(addr, st)) => seq![2u8] + u16_le(addr)
            + seq![status_val(st)],
    }
}

/// Bytes of a whole frame: header, content, then payload. The footer is
/// never written.
pub open spec fn encoded_packet(p: PacketView) -> Seq<u8> {
    encoded_header(p.header) + encoded_content(p.content) + p.payload
}

impl Packet {
    /// Every payload fits one MAC frame.
    pub open spec fn wf(&self) -> bool {
        self.payload@.len() <= MAX_PAYLOAD_LEN
    }

    /// Fetch the payload bytes.
    pub fn payload(&self) -> (r: &Vec<u8>)
        ensures
            r@ == self@.payload,
    {
        &self.payload
    }

    /// Replace the payload; fails if the bytes do not fit one frame.
    pub fn set_payload(&mut self, body: &Vec<u8>) -> (r: Result<(), ()>)
        ensures
            body@.len() <= MAX_PAYLOAD_LEN ==> r is Ok && final(self)@ == (PacketView {
                payload: body@,
                ..old(self)@
            }),
            body@.len() > MAX_PAYLOAD_LEN ==> r is Err && *final(self) == *old(self),
    {
        if body.len() > MAX_PAYLOAD_LEN {
            return Err(());
        }
        let mut copy: Vec<u8> = Vec::new();
        let mut i: usize = 0;
        while i < body.len()
            invariant
                i <= body@.len(),
                copy@ == body@.subrange(0, i as int),
            decreases body@.len() - i,
        {
            copy.push(body[i]);
            i += 1;
            proof {
                assert(copy@ =~= body@.subrange(0, i as int));
            }
        }
        self.payload = copy;
        proof {
            assert(body@.subrange(0, body@.len() as int) =~= body@);
        }
        Ok(())
    }

    /// The PAN identifier this frame is scoped to: the destination's if
    /// present, else the source's, else a reserved placeholder.
    pub open spec fn spec_pan_id(&self) -> u16 {
        match self.header.destination {
            Address::Short(pan, _) => pan,
            Address::Extended(pan, _) => pan,
            Address::Absent => match self.header.source {
                Address::Short(pan, _) => pan,
                Address::Extended(pan, _) => pan,
                Address::Absent => 0xFFFE,
            },
        }
    }

    /// Fetch the PAN identifier this frame is scoped to.
    pub fn pan_id(&self) -> (r: u16)
        ensures
            r == self.spec_pan_id(),
    {
        match self.header.destination {
            Address::Short(pan, _) => return pan,
            Address::Extended(pan, _) => return pan,
            Address::Absent => {},
        }
        match self.header.source {
            Address::Short(pan, _) => return pan,
            Address::Extended(pan, _) => return pan,
            Address::Absent => {},
        }
        0xFFFE
    }

    /// Whether this packet acknowledges `original`: an acknowledgement frame
    /// whose addressing mirrors it and whose sequence number matches.
    pub open spec fn spec_is_ack_for(&self, original: &Packet) -> bool {
        &&& self.header.frame_type == FrameType::Acknowledgement
        &&& self.header.source == original.header.destination
        &&& self.header.destination == original.header.source
        &&& self.header.seq == original.header.seq
        &&& self.content == FrameContent::Acknowledgement
    }

    /// Check whether this packet acknowledges `original`.
    pub fn is_ack_for(&self, original: &Packet) -> (r: bool)
        ensures
            r == self.spec_is_ack_for(original),
    {
        self.header.frame_type == FrameType::Acknowledgement && self.header.source
            == original.header.destination && self.header.destination == original.header.source
            && self.header.seq == original.header.seq && self.content
            == FrameContent::Acknowledgement
    }
}


/// A beacon's orders and final CAP slot fit their four-bit wire fields.
pub open spec fn beacon_wf(b: Beacon) -> bool {
    &&& match b.superframe_spec.beacon_order {
        BeaconOrder::BeaconOrder(v) => v <= 14,
        BeaconOrder::OnDemand => true,
    }
    &&& match b.superframe_spec.superframe_order {
        SuperframeOrder::SuperframeOrder(v) => v <= 14,
        SuperframeOrder::Inactive => true,
    }
    &&& b.superframe_spec.final_cap_slot <= 15
}

/// A packet this stack itself produces: content matching the frame type,
/// no PAN compression, a bounded payload and a zero footer.
pub open spec fn canonical(p: PacketView) -> bool {
    &&& !p.header.pan_id_compress
    &&& p.payload.len() <= MAX_PAYLOAD_LEN
    &&& p.footer == seq![0u8, 0u8]
    &&& match (p.header.frame_type, p.content) {
        (FrameType::Beacon, FrameContent::Beacon(b)) => beacon_wf(b),
        (FrameType::Data, FrameContent::Data) => true,
        (FrameType::Acknowledgement, FrameContent::Acknowledgement) => true,
        (FrameType::MacCommand, FrameContent::Command(_)) => true,
        _ => false,
    }
}

/// Append the wire bytes of an address.
fn push_addr(buf: &mut Vec<u8>, a: Address)
    ensures
        final(buf)@ == old(buf)@ + encoded_addr(a),
{
    match a {
        Address::Absent => {
            proof {
                assert(final(buf)@ =~= old(buf)@ + encoded_addr(a));
            }
        },
        Address::Short(pan, s) => {
            push_u16_le(buf, pan);
            push_u16_le(buf, s);
            proof {
                assert(final(buf)@ =~= old(buf)@ + encoded_addr(a));
            }
        },
        Address::Extended(pan, e) => {
            push_u16_le(buf, pan);
            push_u64_le(buf, e);
            proof {
                assert(final(buf)@ =~= old(buf)@ + encoded_addr(a));
            }
        },
    }
}

/// Append the wire bytes of the source address, eliding its PAN identifier
/// under PAN compression.
fn push_src(buf: &mut Vec<u8>, a: Address, compress: bool)
    ensures
        final(buf)@ == old(buf)@ + encoded_src(a, compress),
{
    if compress {
        match a {
            Address::Absent => {
                proof {
                    assert(final(buf)@ =~= old(buf)@ + encoded_src(a, compress));
                }
            },
            Address::Short(_, s) => {
                push_u16_le(buf, s);
            },
            Address::Extended(_, e) => {
                push_u64_le(buf, e);
            },
        }
    } else {
        push_addr(buf, a);
    }
}

impl Packet {
    /// Build a beacon frame: broadcast destination, no acknowledgement
    /// request, 2006 framing and an empty payload.
    pub fn beacon(source: Address, seq: u8, beacon: Beacon) -> (r: Packet)
        ensures
            r.header == (Header {
                frame_type: FrameType::Beacon,
                frame_pending: false,
                ack_request: false,
                pan_id_compress: false,
                seq_no_suppress: false,
                ie_present: false,
                version: FrameVersion::Ieee802154_2006,
                seq: seq,
                destination: Address::Short(
                    crate::address::PAN_BROADCAST,
                    crate::address::SHORT_BROADCAST,
                ),
                source: source,
            }),
            r.content == FrameContent::Beacon(beacon),
            r@.payload == Seq::<u8>::empty(),
            r.footer@ == seq![0u8, 0u8],
            canonical(r@) <==> beacon_wf(beacon),
    {
        let r = Packet {
            header: Header {
                frame_type: FrameType::Beacon,
                frame_pending: false,
                ack_request: false,
                pan_id_compress: false,
                seq_no_suppress: false,
                ie_present: false,
                version: FrameVersion::Ieee802154_2006,
                seq: seq,
                destination: Address::broadcast(),
                source: source,
            },
            content: FrameContent::Beacon(beacon),
            payload: Vec::new(),
            footer: [0u8, 0u8],
        };
        proof {
            assert(r.footer@ =~= seq![0u8, 0u8]);
        }
        r
    }

    /// Build a management command frame; commands always request an
    /// acknowledgement.
    pub fn command(dest: Address, source: Address, seq: u8, command: Command) -> (r: Packet)
        ensures
            r.header == (Header {
                frame_type: FrameType::MacCommand,
                frame_pending: false,
                ack_request: true,
                pan_id_compress: false,
                seq_no_suppress: false,
                ie_present: false,
                version: FrameVersion::Ieee802154_2006,
                seq: seq,
                destination: dest,
                source: source,
            }),
            r.content == FrameContent::Command(command),
            r@.payload == Seq::<u8>::empty(),
            r.footer@ == seq![0u8, 0u8],
            canonical(r@),
    {
        let r = Packet {
            header: Header {
                frame_type: FrameType::MacCommand,
                frame_pending: false,
                ack_request: true,
                pan_id_compress: false,
                seq_no_suppress: false,
                ie_present: false,
                version: FrameVersion::Ieee802154_2006,
                seq: seq,
                destination: dest,
                source: source,
            },
            content: FrameContent::Command(command),
            payload: Vec::new(),
            footer: [0u8, 0u8],
        };
        proof {
            assert(r.footer@ =~= seq![0u8, 0u8]);
        }
        r
    }

    /// Build a data frame carrying `data`, with the given acknowledgement
    /// request flag.
    pub fn data(dest: Address, source: Address, seq: u8, data: &Vec<u8>, ack: bool) -> (r: Packet)
        requires
            data@.len() <= MAX_PAYLOAD_LEN,
        ensures
            r.header == (Header {
                frame_type: FrameType::Data,
                frame_pending: false,
                ack_request: ack,
                pan_id_compress: false,
                seq_no_suppress: false,
                ie_present: false,
                version: FrameVersion::Ieee802154_2006,
                seq: seq,
                destination: dest,
                source: source,
            }),
            r.content == FrameContent::Data,
            r@.payload == data@,
            r.footer@ == seq![0u8, 0u8],
            canonical(r@),
    {
        let mut payload: Vec<u8> = Vec::new();
        let mut i: usize = 0;
        while i < data.len()
            invariant
                i <= data@.len(),
                payload@ == data@.subrange(0, i as int),
            decreases data@.len() - i,
        {
            payload.push(data[i]);
            i += 1;
            proof {
                assert(payload@ =~= data@.subrange(0, i as int));
            }
        }
        proof {
            assert(data@.subrange(0, data@.len() as int) =~= data@);
        }
        let r = Packet {
            header: Header {
                frame_type: FrameType::Data,
                frame_pending: false,
                ack_request: ack,
                pan_id_compress: false,
                seq_no_suppress: false,
                ie_present: false,
                version: FrameVersion::Ieee802154_2006,
                seq: seq,
                destination: dest,
                source: source,
            },
            content: FrameContent::Data,
            payload,
            footer: [0u8, 0u8],
        };
        proof {
            assert(r.footer@ =~= seq![0u8, 0u8]);
        }
        r
    }

    /// Build the acknowledgement for `request`: addressing swapped, the
    /// sequence number mirrored, and no acknowledgement requested in turn.
    pub fn ack(request: &Packet) -> (r: Packet)
        ensures
            r.header == (Header {
                frame_type: FrameType::Acknowledgement,
                frame_pending: false,
                ack_request: false,
                pan_id_compress: false,
                seq_no_suppress: false,
                ie_present: false,
                version: FrameVersion::Ieee802154_2006,
                seq: request.header.seq,
                destination: request.header.source,
                source: request.header.destination,
            }),
            r.content == FrameContent::Acknowledgement,
            r@.payload == Seq::<u8>::empty(),
            r.footer@ == seq![0u8, 0u8],
            canonical(r@),
            r.spec_is_ack_for(request),
    {
        let r = Packet {
            header: Header {
                frame_type: FrameType::Acknowledgement,
                frame_pending: false,
                ack_request: false,
                pan_id_compress: false,
                seq_no_suppress: false,
                ie_present: false,
                version: FrameVersion::Ieee802154_2006,
                seq: request.header.seq,
                destination: request.header.source,
                source: request.header.destination,
            },
            content: FrameContent::Acknowledgement,
            payload: Vec::new(),
            footer: [0u8, 0u8],
        };
        proof {
            assert(r.footer@ =~= seq![0u8, 0u8]);
        }
        r
    }

    /// Encode this frame to wire bytes; the footer is not written.
    pub fn encode(&self) -> (r: Vec<u8>)
        ensures
            r@ == encoded_packet(self@),
    {
        let mut buf: Vec<u8> = Vec::new();
        push_header(&mut buf, &self.header);
        push_content(&mut buf, &self.content);
        let ghost before_payload = buf@;
        let mut i: usize = 0;
        while i < self.payload.len()
            invariant
                i <= self.payload@.len(),
                buf@ == before_payload + self.payload@.subrange(0, i as int),
            decreases self.payload@.len() - i,
        {
            buf.push(self.payload[i]);
            i += 1;
            proof {
                assert(buf@ =~= before_payload + self.payload@.subrange(0, i as int));
            }
        }
        proof {
            assert(buf@ =~= encoded_packet(self@));
        }
        buf
    }
}

/// Compute the low frame control byte.
fn fc_low_byte(h: &Header) -> (r: u8)
    ensures
        r == fc_low(*h),
{
    let mut lo: u8 = match h.frame_type {
        FrameType::Beacon => 0,
        FrameType::Data => 1,
        FrameType::Acknowledgement => 2,
        FrameType::MacCommand => 3,
    };
    if h.frame_pending {
        lo += 16;
    }
    if h.ack_request {
        lo += 32;
    }
    if h.pan_id_compress {
        lo += 64;
    }
    lo
}

/// Compute the high frame control byte.
fn fc_high_byte(h: &Header) -> (r: u8)
    ensures
        r == fc_high(*h),
{
    let mut hi: u8 = 0;
    if h.seq_no_suppress {
        hi += 1;
    }
    if h.ie_present {
        hi += 2;
    }
    hi += match h.destination {
        Address::Absent => 0,
        Address::Short(_, _) => 8,
        Address::Extended(_, _) => 12,
    };
    hi += match h.version {
        FrameVersion::Ieee802154_2003 => 0,
        FrameVersion::Ieee802154_2006 => 16,
        FrameVersion::Ieee802154 => 32,
    };
    hi += match h.source {
        Address::Absent => 0,
        Address::Short(_, _) => 128,
        Address::Extended(_, _) => 192,
    };
    hi
}

/// Append the wire bytes of a frame header.
fn push_header(buf: &mut Vec<u8>, h: &Header)
    ensures
        final(buf)@ == old(buf)@ + encoded_header(*h),
{
    let lo = fc_low_byte(h);
    let hi = fc_high_byte(h);
    buf.push(lo);
    buf.push(hi);
    buf.push(h.seq);
    push_addr(buf, h.destination);
    push_src(buf, h.source, h.pan_id_compress);
    proof {
        assert(final(buf)@ =~= old(buf)@ + encoded_header(*h));
    }
}

/// Append the wire bytes of a frame content.
fn push_content(buf: &mut Vec<u8>, content: &FrameContent)
    ensures
        final(buf)@ == old(buf)@ + encoded_content(*content),
{
    match content {
        FrameContent::Beacon(b) => {
            push_u16_le(buf, superframe_spec_value(&b.superframe_spec));
            buf.push(0);
            buf.push(0);
            proof {
                assert(final(buf)@ =~= old(buf)@ + encoded_content(*content));
            }
        },
        FrameContent::Data => {
            proof {
                assert(final(buf)@ =~= old(buf)@ + encoded_content(*content));
            }
        },
        FrameContent::Acknowledgement => {
            proof {
                assert(final(buf)@ =~= old(buf)@ + encoded_content(*content));
            }
        },
        FrameContent::Command(Command::AssociationRequest(cap)) => {
            buf.push(1);
            let mut c: u8 = 0;
            if cap.full_function_device {
                c += 2;
            }
            if cap.mains_power {
                c += 4;
            }
            if cap.idle_receive {
                c += 8;
            }
            if cap.frame_protection {
                c += 64;
            }
            if cap.allocate_address {
                c += 128;
            }
            assert(c == capability_val(*cap));
            buf.push(c);
            proof {
                assert(final(buf)@ =~= old(buf)@ + encoded_content(*content));
            }
        },
        FrameContent::Command(Command::AssociationResponse(addr, st)) => {
            buf.push(2);
            push_u16_le(buf, *addr);
            let sv: u8 = match st {
                AssociationStatus::Successful => 0,
                AssociationStatus::NetworkAtCapacity => 1,
                AssociationStatus::AccessDenied => 2,
            };
            buf.push(sv);
            proof {
                assert(final(buf)@ =~= old(buf)@ + encoded_content(*content));
            }
        },
    }
}

/// Compute the 16-bit wire value of a superframe specification.
pub fn superframe_spec_value(s: &SuperframeSpecification) -> (r: u16)
    ensures
        r == superframe_spec_val(*s),
{
    let mut v: u16 = match s.beacon_order {
        BeaconOrder::BeaconOrder(o) => o as u16 % 16,
        BeaconOrder::OnDemand => 15,
    };
    v += match s.superframe_order {
        SuperframeOrder::SuperframeOrder(o) => o as u16 % 16 * 16,
        SuperframeOrder::Inactive => 240,
    };
    v += s.final_cap_slot as u16 % 16 * 256;
    if s.battery_life_extension {
        v += 4096;
    }
    if s.pan_coordinator {
        v += 16384;
    }
    if s.association_permit {
        v += 32768;
    }
    v
}



// ---------------------------------------------------------------------------
// Decoding, as spec-level functions mirrored by the executable decoder.
// ---------------------------------------------------------------------------

/// Decode an address at `off` with the given addressing mode; returns the
/// address and the offset just past it.
pub open spec fn decoded_addr(b: Seq<u8>, off: int, mode: u8) -> Result<(Address, int), DecodeError> {
    if mode == 0 {
        Ok((Address::Absent, off))
    } else if mode == 2 {
        if off + 4 <= b.len() {
            Ok(
                (
                    Address::Short(u16_from_le(b[off], b[off + 1]), u16_from_le(b[off + 2], b[off + 3])),
                    off + 4,
                ),
            )
        } else {
            Err(DecodeError::NotEnoughBytes)
        }
    } else if mode == 3 {
        if off + 10 <= b.len() {
            Ok(
                (
                    Address::Extended(
                        u16_from_le(b[off], b[off + 1]),
                        u64_from_le(b.subrange(off + 2, off + 10)),
                    ),
                    off + 10,
                ),
            )
        } else {
            Err(DecodeError::NotEnoughBytes)
        }
    } else {
        Err(DecodeError::InvalidAddressMode)
    }
}

/// Decode the source address; under PAN compression its PAN identifier is
/// taken from the destination.
pub open spec fn decoded_src(
    b: Seq<u8>,
    off: int,
    mode: u8,
    compress: bool,
    dest: Address,
) -> Result<(Address, int), DecodeError> {
    if !compress {
        decoded_addr(b, off, mode)
    } else if mode == 0 {
        Ok((Address::Absent, off))
    } else {
        match dest.spec_pan_id() {
            Option::None => Err(DecodeError::InvalidValue),
            Option::Some(pan) => if mode == 2 {
                if off + 2 <= b.len() {
                    Ok((Address::Short(pan, u16_from_le(b[off], b[off + 1])), off + 2))
                } else {
                    Err(DecodeError::NotEnoughBytes)
                }
            } else if mode == 3 {
                if off + 8 <= b.len() {
                    Ok((Address::Extended(pan, u64_from_le(b.subrange(off, off + 8))), off + 8))
                } else {
                    Err(DecodeError::NotEnoughBytes)
                }
            } else {
                Err(DecodeError::InvalidAddressMode)
            },
        }
    }
}

/// Decode a frame header from the start of `b`; returns the header and the
/// offset of the content. Frames with the security bit set or an unknown
/// version are refused.
pub open spec fn decoded_header(b: Seq<u8>) -> Result<(Header, int), DecodeError> {
    if b.len() < 3 {
        Err(DecodeError::NotEnoughBytes)
    } else {
        let lo = b[0];
        let hi = b[1];
        if lo % 8 > 3 {
            Err(DecodeError::InvalidFrameType)
        } else if lo / 8 % 2 == 1 {
            Err(DecodeError::InvalidValue)
        } else if hi / 16 % 4 == 3 {
            Err(DecodeError::InvalidValue)
        } else {
            let ft = if lo % 8 == 0 {
                FrameType::Beacon
            } else if lo % 8 == 1 {
                FrameType::Data
            } else if lo % 8 == 2 {
                FrameType::Acknowledgement
            } else {
                FrameType::MacCommand
            };
            let version = if hi / 16 % 4 == 0 {
                FrameVersion::Ieee802154_2003
            } else if hi / 16 % 4 == 1 {
                FrameVersion::Ieee802154_2006
            } else {
                FrameVersion::Ieee802154
            };
            match decoded_addr(b, 3, (hi / 4 % 4) as u8) {
                Err(e) => Err(e),
                Ok((dest, o2)) => match decoded_src(
                    b,
                    o2,
                    (hi / 64 % 4) as u8,
                    lo / 64 % 2 == 1,
                    dest,
                ) {
                    Err(e) => Err(e),
                    Ok((src, o3)) => Ok(
                        (
                            Header {
                                frame_type: ft,
                                frame_pending: lo / 16 % 2 == 1,
                                ack_request: lo / 32 % 2 == 1,
                                pan_id_compress: lo / 64 % 2 == 1,
                                seq_no_suppress: hi % 2 == 1,
                                ie_present: hi / 2 % 2 == 1,
                                version: version,
                                seq: b[2],
                                destination: dest,
                                source: src,
                            },
                            o3,
                        ),
                    ),
                },
            }
        }
    }
}

/// Superframe specification read back from its 16-bit wire value; the
/// reserved bit is ignored.
pub open spec fn decoded_superframe_spec(v: u16) -> SuperframeSpecification {
    SuperframeSpecification {
        beacon_order: if v % 16 == 15 {
            BeaconOrder::OnDemand
        } else {
            BeaconOrder::BeaconOrder((v % 16) as u8)
        },
        superframe_order: if v / 16 % 16 == 15 {
            SuperframeOrder::Inactive
        } else {
            SuperframeOrder::SuperframeOrder((v / 16 % 16) as u8)
        },
        final_cap_slot: (v / 256 % 16) as u8,
        battery_life_extension: v / 4096 % 2 == 1,
        pan_coordinator: v / 16384 % 2 == 1,
        association_permit: v / 32768 % 2 == 1,
    }
}

/// Capability information read back from its wire byte.
pub open spec fn decoded_capability(c: u8) -> CapabilityInformation {
    CapabilityInformation {
        full_function_device: c / 2 % 2 == 1,
        mains_power: c / 4 % 2 == 1,
        idle_receive: c / 8 % 2 == 1,
        frame_protection: c / 64 % 2 == 1,
        allocate_address: c / 128 % 2 == 1,
    }
}

/// Association status read back from its wire byte.
pub open spec fn decoded_status(v: u8) -> AssociationStatus
    recommends
        v <= 2,
{
    if v == 1 {
        AssociationStatus::NetworkAtCapacity
    } else if v == 2 {
        AssociationStatus::AccessDenied
    } else {
        AssociationStatus::Successful
    }
}

/// Decode the frame content from `b`, the bytes after the header; returns
/// the content and the number of bytes it used. A beacon's
/// guaranteed-time-slot and pending-address lists are measured and
/// skipped — this stack reads only the superframe specification —
/// while commands this stack does not understand are refused.
pub open spec fn decoded_content(b: Seq<u8>, ft: FrameType) -> Result<
    (FrameContent, int),
    DecodeError,
> {
    match ft {
        FrameType::Beacon => {
            if b.len() < 4 {
                Err(DecodeError::NotEnoughBytes)
            } else {
                let gts_count = b[2] % 8;
                let gts_len: int = if gts_count == 0 {
                    1
                } else {
                    2 + 3 * gts_count
                };
                if 2 + gts_len >= b.len() {
                    Err(DecodeError::NotEnoughBytes)
                } else {
                    let pb = b[2 + gts_len];
                    let total = 2 + gts_len + 1 + 2 * (pb % 8) + 8 * (pb / 16 % 8);
                    if total > b.len() {
                        Err(DecodeError::NotEnoughBytes)
                    } else {
                        Ok(
                            (
                                FrameContent::Beacon(
                                    Beacon {
                                        superframe_spec: decoded_superframe_spec(
                                            u16_from_le(b[0], b[1]),
                                        ),
                                    },
                                ),
                                total,
                            ),
                        )
                    }
                }
            }
        },
        FrameType::Data => Ok((FrameContent::Data, 0)),
        FrameType::Acknowledgement => Ok((FrameContent::Acknowledgement, 0)),
        FrameType::MacCommand => {
            if b.len() < 1 {
                Err(DecodeError::NotEnoughBytes)
            } else if b[0] == 1 {
                if b.len() < 2 {
                    Err(DecodeError::NotEnoughBytes)
                } else if b[1] % 2 != 0 || b[1] / 16 % 4 != 0 {
                    Err(DecodeError::InvalidValue)
                } else {
                    Ok((FrameContent::Command(Command::AssociationRequest(decoded_capability(b[1]))), 2))
                }
            } else if b[0] == 2 {
                if b.len() < 4 {
                    Err(DecodeError::NotEnoughBytes)
                } else if b[3] > 2 {
                    Err(DecodeError::InvalidValue)
                } else {
                    Ok(
                        (
                            FrameContent::Command(
                                Command::AssociationResponse(
                                    u16_from_le(b[1], b[2]),
                                    decoded_status(b[3]),
                                ),
                            ),
                            4,
                        ),
                    )
                }
            } else {
                Err(DecodeError::InvalidCommand)
            }
        },
    }
}

/// Decode a whole frame. With `contains_footer` the last two bytes are the
/// footer; otherwise the footer reads as zero.
pub open spec fn decoded_packet(b: Seq<u8>, contains_footer: bool) -> Result<
    PacketView,
    DecodeError,
> {
    match decoded_header(b) {
        Err(e) => Err(e),
        Ok((h, ho)) => {
            if contains_footer && b.len() < ho + 2 {
                Err(DecodeError::NotEnoughBytes)
            } else {
                let end = if contains_footer {
                    b.len() - 2
                } else {
                    b.len() as int
                };
                let body = b.subrange(ho, end);
                match decoded_content(body, h.frame_type) {
                    Err(e) => Err(e),
                    Ok((c, co)) => {
                        let payload = body.subrange(co, body.len() as int);
                        if payload.len() > MAX_PAYLOAD_LEN {
                            Err(DecodeError::NotEnoughBytes)
                        } else {
                            Ok(
                                PacketView {
                                    header: h,
                                    content: c,
                                    payload: payload,
                                    footer: if contains_footer {
                                        b.subrange(b.len() - 2, b.len() as int)
                                    } else {
                                        seq![0u8, 0u8]
                                    },
                                },
                            )
                        }
                    },
                }
            }
        },
    }
}


/// Decode an address field at `off` with the given mode.
fn decode_addr(buf: &Vec<u8>, off: usize, mode: u8) -> (r: Result<(Address, usize), DecodeError>)
    requires
        off <= buf@.len(),
    ensures
        match r {
            Ok((a, o2)) => decoded_addr(buf@, off as int, mode) == Ok::<_, DecodeError>(
                (a, o2 as int),
            ) && off <= o2 <= buf@.len(),
            Err(e) => decoded_addr(buf@, off as int, mode) == Err::<(Address, int), _>(e),
        },
{
    if mode == 0 {
        Ok((Address::Absent, off))
    } else if mode == 2 {
        if buf.len() - off >= 4 {
            let pan = read_u16_le(buf, off);
            let sa = read_u16_le(buf, off + 2);
            Ok((Address::Short(pan, sa), off + 4))
        } else {
            Err(DecodeError::NotEnoughBytes)
        }
    } else if mode == 3 {
        if buf.len() - off >= 10 {
            let pan = read_u16_le(buf, off);
            let ea = read_u64_le(buf, off + 2);
            Ok((Address::Extended(pan, ea), off + 10))
        } else {
            Err(DecodeError::NotEnoughBytes)
        }
    } else {
        Err(DecodeError::InvalidAddressMode)
    }
}

/// Decode the source address field, resolving PAN compression against the
/// destination.
fn decode_src(buf: &Vec<u8>, off: usize, mode: u8, compress: bool, dest: Address) -> (r: Result<
    (Address, usize),
    DecodeError,
>)
    requires
        off <= buf@.len(),
    ensures
        match r {
            Ok((a, o2)) => decoded_src(buf@, off as int, mode, compress, dest) == Ok::<
                _,
                DecodeError,
            >((a, o2 as int)) && off <= o2 <= buf@.len(),
            Err(e) => decoded_src(buf@, off as int, mode, compress, dest) == Err::<
                (Address, int),
                _,
            >(e),
        },
{
    if !compress {
        decode_addr(buf, off, mode)
    } else if mode == 0 {
        Ok((Address::Absent, off))
    } else {
        match dest.pan_id() {
            Option::None => Err(DecodeError::InvalidValue),
            Option::Some(pan) => {
                if mode == 2 {
                    if buf.len() - off >= 2 {
                        let sa = read_u16_le(buf, off);
                        Ok((Address::Short(pan, sa), off + 2))
                    } else {
                        Err(DecodeError::NotEnoughBytes)
                    }
                } else if mode == 3 {
                    if buf.len() - off >= 8 {
                        let ea = read_u64_le(buf, off);
                        Ok((Address::Extended(pan, ea), off + 8))
                    } else {
                        Err(DecodeError::NotEnoughBytes)
                    }
                } else {
                    Err(DecodeError::InvalidAddressMode)
                }
            },
        }
    }
}

/// Decode a frame header from the start of the buffer.
fn decode_header(buf: &Vec<u8>) -> (r: Result<(Header, usize), DecodeError>)
    ensures
        match r {
            Ok((h, o2)) => decoded_header(buf@) == Ok::<_, DecodeError>((h, o2 as int)) && o2
                <= buf@.len(),
            Err(e) => decoded_header(buf@) == Err::<(Header, int), _>(e),
        },
{
    if buf.len() < 3 {
        return Err(DecodeError::NotEnoughBytes);
    }
    let lo = buf[0];
    let hi = buf[1];
    if lo % 8 > 3 {
        return Err(DecodeError::InvalidFrameType);
    }
    if lo / 8 % 2 == 1 {
        return Err(DecodeError::InvalidValue);
    }
    if hi / 16 % 4 == 3 {
        return Err(DecodeError::InvalidValue);
    }
    let ft = if lo % 8 == 0 {
        FrameType::Beacon
    } else if lo % 8 == 1 {
        FrameType::Data
    } else if lo % 8 == 2 {
        FrameType::Acknowledgement
    } else {
        FrameType::MacCommand
    };
    let version = if hi / 16 % 4 == 0 {
        FrameVersion::Ieee802154_2003
    } else if hi / 16 % 4 == 1 {
        FrameVersion::Ieee802154_2006
    } else {
        FrameVersion::Ieee802154
    };
    let compress = lo / 64 % 2 == 1;
    let (dest, o2) = match decode_addr(buf, 3, hi / 4 % 4) {
        Ok(v) => v,
        Err(e) => {
            return Err(e);
        },
    };
    let (src, o3) = match decode_src(buf, o2, hi / 64 % 4, compress, dest) {
        Ok(v) => v,
        Err(e) => {
            return Err(e);
        },
    };
    Ok(
        (
            Header {
                frame_type: ft,
                frame_pending: lo / 16 % 2 == 1,
                ack_request: lo / 32 % 2 == 1,
                pan_id_compress: compress,
                seq_no_suppress: hi % 2 == 1,
                ie_present: hi / 2 % 2 == 1,
                version,
                seq: buf[2],
                destination: dest,
                source: src,
            },
            o3,
        ),
    )
}

/// Decode the frame content between `off` and `end`; returns the content
/// and the offset just past it.
fn decode_content(buf: &Vec<u8>, off: usize, end: usize, ft: FrameType) -> (r: Result<
    (FrameContent, usize),
    DecodeError,
>)
    requires
        off <= end <= buf@.len(),
    ensures
        match r {
            Ok((c, o2)) => decoded_content(buf@.subrange(off as int, end as int), ft) == Ok::<
                _,
                DecodeError,
            >((c, o2 - off)) && off <= o2 <= end,
            Err(e) => decoded_content(buf@.subrange(off as int, end as int), ft) == Err::<
                (FrameContent, int),
                _,
            >(e),
        },
{
    let ghost body = buf@.subrange(off as int, end as int);
    match ft {
        FrameType::Beacon => {
            if end - off < 4 {
                return Err(DecodeError::NotEnoughBytes);
            }
            proof {
                assert(body[2] == buf@[off + 2]);
            }
            let gts_count = buf[off + 2] % 8;
            let gts_len: usize = if gts_count == 0 {
                1
            } else {
                2 + 3 * gts_count as usize
            };
            if end - off <= 2 + gts_len {
                return Err(DecodeError::NotEnoughBytes);
            }
            proof {
                assert(body[2 + gts_len] == buf@[off + 2 + gts_len]);
            }
            let pb = buf[off + 2 + gts_len];
            let total: usize = 2 + gts_len + 1 + 2 * (pb % 8) as usize + 8 * (pb / 16 % 8) as usize;
            if total > end - off {
                return Err(DecodeError::NotEnoughBytes);
            }
            let v = read_u16_le(buf, off);
            let bo = v % 16;
            let so = v / 16 % 16;
            let spec_field = SuperframeSpecification {
                beacon_order: if bo == 15 {
                    BeaconOrder::OnDemand
                } else {
                    BeaconOrder::BeaconOrder(bo as u8)
                },
                superframe_order: if so == 15 {
                    SuperframeOrder::Inactive
                } else {
                    SuperframeOrder::SuperframeOrder(so as u8)
                },
                final_cap_slot: (v / 256 % 16) as u8,
                battery_life_extension: v / 4096 % 2 == 1,
                pan_coordinator: v / 16384 % 2 == 1,
                association_permit: v / 32768 % 2 == 1,
            };
            proof {
                assert(body[0] == buf@[off as int]);
                assert(body[1] == buf@[off + 1]);
            }
            Ok((FrameContent::Beacon(Beacon { superframe_spec: spec_field }), off + total))
        },
        FrameType::Data => Ok((FrameContent::Data, off)),
        FrameType::Acknowledgement => Ok((FrameContent::Acknowledgement, off)),
        FrameType::MacCommand => {
            if end - off < 1 {
                return Err(DecodeError::NotEnoughBytes);
            }
            proof {
                assert(body[0] == buf@[off as int]);
            }
            let id = buf[off];
            if id == 1 {
                if end - off < 2 {
                    return Err(DecodeError::NotEnoughBytes);
                }
                proof {
                    assert(body[1] == buf@[off + 1]);
                }
                let c = buf[off + 1];
                if c % 2 != 0 || c / 16 % 4 != 0 {
                    return Err(DecodeError::InvalidValue);
                }
                let cap = CapabilityInformation {
                    full_function_device: c / 2 % 2 == 1,
                    mains_power: c / 4 % 2 == 1,
                    idle_receive: c / 8 % 2 == 1,
                    frame_protection: c / 64 % 2 == 1,
                    allocate_address: c / 128 % 2 == 1,
                };
                Ok((FrameContent::Command(Command::AssociationRequest(cap)), off + 2))
            } else if id == 2 {
                if end - off < 4 {
                    return Err(DecodeError::NotEnoughBytes);
                }
                proof {
                    assert(body[1] == buf@[off + 1]);
                    assert(body[2] == buf@[off + 2]);
                    assert(body[3] == buf@[off + 3]);
                }
                let sv = buf[off + 3];
                if sv > 2 {
                    return Err(DecodeError::InvalidValue);
                }
                let addr = read_u16_le(buf, off + 1);
                let status = if sv == 1 {
                    AssociationStatus::NetworkAtCapacity
                } else if sv == 2 {
                    AssociationStatus::AccessDenied
                } else {
                    AssociationStatus::Successful
                };
                Ok((FrameContent::Command(Command::AssociationResponse(addr, status)), off + 4))
            } else {
                Err(DecodeError::InvalidCommand)
            }
        },
    }
}

impl Packet {
    /// Decode a frame from raw bytes; with `contains_footer` the last two
    /// bytes are taken as the footer.
    #[verifier::rlimit(100)]
    pub fn decode(buf: &Vec<u8>, contains_footer: bool) -> (r: Result<Packet, DecodeError>)
        ensures
            match r {
                Ok(p) => decoded_packet(buf@, contains_footer) == Ok::<_, DecodeError>(p@)
                    && p.wf(),
                Err(e) => decoded_packet(buf@, contains_footer) == Err::<PacketView, _>(e),
            },
    {
        let (header, ho) = match decode_header(buf) {
            Ok(v) => v,
            Err(e) => {
                return Err(e);
            },
        };
        if contains_footer && buf.len() - ho < 2 {
            return Err(DecodeError::NotEnoughBytes);
        }
        let end = if contains_footer {
            buf.len() - 2
        } else {
            buf.len()
        };
        let ghost body = buf@.subrange(ho as int, end as int);
        let (content, co) = match decode_content(buf, ho, end, header.frame_type) {
            Ok(v) => v,
            Err(e) => {
                return Err(e);
            },
        };
        if end - co > MAX_PAYLOAD_LEN {
            proof {
                assert(body.subrange(co - ho, body.len() as int).len() > MAX_PAYLOAD_LEN);
            }
            return Err(DecodeError::NotEnoughBytes);
        }
        let mut payload: Vec<u8> = Vec::new();
        let mut i: usize = co;
        while i < end
            invariant
                co <= i <= end <= buf@.len(),
                payload@ == buf@.subrange(co as int, i as int),
            decreases end - i,
        {
            payload.push(buf[i]);
            i += 1;
            proof {
                assert(payload@ =~= buf@.subrange(co as int, i as int));
            }
        }
        let mut footer: [u8; 2] = [0u8, 0u8];
        if contains_footer {
            footer = [buf[end], buf[end + 1]];
        }
        let r = Packet { header, content, payload, footer };
        proof {
            assert(body.subrange(co - ho, body.len() as int) =~= buf@.subrange(
                co as int,
                end as int,
            ));
            if contains_footer {
                assert(r.footer@ =~= buf@.subrange(buf@.len() - 2, buf@.len() as int));
            } else {
                assert(r.footer@ =~= seq![0u8, 0u8]);
            }
            assert(decoded_packet(buf@, contains_footer) == Ok::<_, DecodeError>(r@));
        }
        Ok(r)
    }
}


// ---------------------------------------------------------------------------
// Round trip: decoding an encoded frame yields the frame back.
// ---------------------------------------------------------------------------

/// Decoding an encoded address, embedded at `off` in a longer buffer,
/// yields the address back.
proof fn lemma_addr_roundtrip(b: Seq<u8>, off: int, a: Address)
    requires
        0 <= off,
        off + encoded_addr(a).len() <= b.len(),
        b.subrange(off, off + encoded_addr(a).len()) == encoded_addr(a),
    ensures
        decoded_addr(b, off, addr_mode_val(a)) == Ok::<_, DecodeError>(
            (a, off + encoded_addr(a).len()),
        ),
{
    let ea = encoded_addr(a);
    match a {
        Address::Absent => {},
        Address::Short(pan, sa) => {
            assert(b[off] == ea[0]);
            assert(b[off + 1] == ea[1]);
            assert(b[off + 2] == ea[2]);
            assert(b[off + 3] == ea[3]);
            crate::wire::lemma_u16_le_roundtrip(pan);
            crate::wire::lemma_u16_le_roundtrip(sa);
        },
        Address::Extended(pan, ext) => {
            assert(b[off] == ea[0]);
            assert(b[off + 1] == ea[1]);
            crate::wire::lemma_u16_le_roundtrip(pan);
            assert(b.subrange(off + 2, off + 10) =~= ea.subrange(2, 10));
            assert(ea.subrange(2, 10) =~= u64_le(ext));
            crate::wire::lemma_u64_le_roundtrip(ext);
        },
    }
}

/// The flag bits of the low frame control byte read back as written.
proof fn lemma_fc_low_fields(h: Header)
    ensures
        fc_low(h) % 8 == frame_type_val(h.frame_type),
        fc_low(h) / 8 % 2 == 0,
        fc_low(h) / 16 % 2 == bit_val(h.frame_pending),
        fc_low(h) / 32 % 2 == bit_val(h.ack_request),
        fc_low(h) / 64 % 2 == bit_val(h.pan_id_compress),
{
}

/// The mode and version bits of the high frame control byte read back as
/// written.
proof fn lemma_fc_high_fields(h: Header)
    ensures
        fc_high(h) % 2 == bit_val(h.seq_no_suppress),
        fc_high(h) / 2 % 2 == bit_val(h.ie_present),
        fc_high(h) / 4 % 4 == addr_mode_val(h.destination),
        fc_high(h) / 16 % 4 == version_val(h.version),
        fc_high(h) / 64 % 4 == addr_mode_val(h.source),
{
}

/// Decoding an encoded header, followed by arbitrary further bytes, yields
/// the header back, as long as the source PAN identifier was not elided.
#[verifier::rlimit(100)]
proof fn lemma_header_roundtrip(h: Header, rest: Seq<u8>)
    requires
        !h.pan_id_compress,
    ensures
        decoded_header(encoded_header(h) + rest) == Ok::<_, DecodeError>(
            (h, encoded_header(h).len() as int),
        ),
{
    let eh = encoded_header(h);
    let b = eh + rest;
    let lo = fc_low(h);
    let hi = fc_high(h);
    assert(b.len() >= 3);
    assert(b[0] == lo);
    assert(b[1] == hi);
    assert(b[2] == h.seq);

    lemma_fc_low_fields(h);
    lemma_fc_high_fields(h);
    assert(lo % 8 <= 3);
    assert(hi / 16 % 4 != 3);

    let ed = encoded_addr(h.destination);
    let es = encoded_addr(h.source);
    assert(b.subrange(3, 3 + ed.len() as int) =~= ed);
    lemma_addr_roundtrip(b, 3, h.destination);
    let o2: int = 3 + ed.len() as int;
    assert(b.subrange(o2, o2 + es.len() as int) =~= es);
    lemma_addr_roundtrip(b, o2, h.source);
    assert(decoded_header(b) == Ok::<_, DecodeError>((h, eh.len() as int)));
}

/// The superframe specification reads back from its wire value when its
/// four-bit fields are in range.
#[verifier::rlimit(100)]
proof fn lemma_superframe_spec_roundtrip(sf: SuperframeSpecification)
    requires
        match sf.beacon_order {
            BeaconOrder::BeaconOrder(v) => v <= 14,
            BeaconOrder::OnDemand => true,
        },
        match sf.superframe_order {
            SuperframeOrder::SuperframeOrder(v) => v <= 14,
            SuperframeOrder::Inactive => true,
        },
        sf.final_cap_slot <= 15,
    ensures
        decoded_superframe_spec(superframe_spec_val(sf)) == sf,
{
    let bo = beacon_order_val(sf.beacon_order) % 16;
    let so = superframe_order_val(sf.superframe_order) % 16;
    let cap = sf.final_cap_slot % 16;
    let ble = bit_val(sf.battery_life_extension) as int;
    let pc = bit_val(sf.pan_coordinator) as int;
    let ap = bit_val(sf.association_permit) as int;
    let total: int = bo + so * 16 + cap * 256 + ble * 4096 + pc * 16384 + ap * 32768;
    let v = superframe_spec_val(sf);
    assert(total < 65536);
    assert(v == total);
    assert(total == bo + 16 * (so + cap * 16 + ble * 256 + pc * 1024 + ap * 2048));
    assert(v % 16 == bo);
    assert(v / 16 == so + 16 * (cap + ble * 16 + pc * 64 + ap * 128));
    assert(v / 16 % 16 == so);
    assert(v / 256 == cap + 16 * (ble + pc * 4 + ap * 8));
    assert(v / 256 % 16 == cap);
    assert(v / 4096 == ble + 2 * (pc * 2 + ap * 4));
    assert(v / 4096 % 2 == ble);
    assert(v / 16384 == pc + 2 * ap);
    assert(v / 16384 % 2 == pc);
    assert(v / 32768 == ap);
    assert(v / 32768 % 2 == ap);
    assert(cap == sf.final_cap_slot);
}

/// The capability byte reads back to the capabilities it encodes.
proof fn lemma_capability_roundtrip(cap: CapabilityInformation)
    ensures
        capability_val(cap) % 2 == 0,
        capability_val(cap) / 16 % 4 == 0,
        decoded_capability(capability_val(cap)) == cap,
{
}

/// Decoding an encoded frame content, followed by the payload bytes, yields
/// the content back.
#[verifier::rlimit(100)]
proof fn lemma_content_roundtrip(c: FrameContent, ft: FrameType, rest: Seq<u8>)
    requires
        match (ft, c) {
            (FrameType::Beacon, FrameContent::Beacon(b)) => beacon_wf(b),
            (FrameType::Data, FrameContent::Data) => true,
            (FrameType::Acknowledgement, FrameContent::Acknowledgement) => true,
            (FrameType::MacCommand, FrameContent::Command(_)) => true,
            _ => false,
        },
    ensures
        decoded_content(encoded_content(c) + rest, ft) == Ok::<_, DecodeError>(
            (c, encoded_content(c).len() as int),
        ),
{
    let ec = encoded_content(c);
    let b = ec + rest;
    match c {
        FrameContent::Beacon(bc) => {
            let v = superframe_spec_val(bc.superframe_spec);
            assert(b[0] == u16_le(v)[0]);
            assert(b[1] == u16_le(v)[1]);
            assert(b[2] == 0);
            assert(b[3] == 0);
            assert(b[2] % 8 == 0);
            assert(b[3] % 8 == 0 && b[3] / 16 % 8 == 0);
            crate::wire::lemma_u16_le_roundtrip(v);
            lemma_superframe_spec_roundtrip(bc.superframe_spec);
        },
        FrameContent::Data => {},
        FrameContent::Acknowledgement => {},
        FrameContent::Command(Command::AssociationRequest(cap)) => {
            let cv = capability_val(cap);
            assert(b[0] == 1);
            assert(b[1] == cv);
            lemma_capability_roundtrip(cap);
        },
        FrameContent::Command(Command::AssociationResponse(addr, st)) => {
            assert(b[0] == 2);
            assert(b[1] == u16_le(addr)[0]);
            assert(b[2] == u16_le(addr)[1]);
            assert(b[3] == status_val(st));
            crate::wire::lemma_u16_le_roundtrip(addr);
            assert(status_val(st) <= 2);
            assert(decoded_status(status_val(st)) == st);
        },
    }
}

/// Round trip for every frame this stack produces: decoding an encoded
/// canonical packet yields the packet back, footer included, since the
/// footer of a canonical packet is zero and is never written to the wire.
/// The frames built by [`Packet::beacon`], [`Packet::command`],
/// [`Packet::data`] and [`Packet::ack`] are all canonical.
#[verifier::rlimit(100)]
pub proof fn lemma_packet_roundtrip(p: PacketView)
    requires
        canonical(p),
    ensures
        decoded_packet(encoded_packet(p), false) == Ok::<_, DecodeError>(p),
{
    let eh = encoded_header(p.header);
    let ec = encoded_content(p.content);
    let b = encoded_packet(p);
    assert(b =~= eh + (ec + p.payload));
    lemma_header_roundtrip(p.header, ec + p.payload);
    assert(decoded_header(b) == Ok::<_, DecodeError>((p.header, eh.len() as int)));
    let body = b.subrange(eh.len() as int, b.len() as int);
    assert(body =~= ec + p.payload);
    lemma_content_roundtrip(p.content, p.header.frame_type, p.payload);
    assert(decoded_content(body, p.header.frame_type) == Ok::<_, DecodeError>(
        (p.content, ec.len() as int),
    ));
    assert(body.subrange(ec.len() as int, body.len() as int) =~= p.payload);
    match decoded_packet(b, false) {
        Ok(q) => {
            assert(q =~= p);
        },
        Err(_) => {
            assert(false);
        },
    }
}


/// The PAN identifier a frame is scoped to, over its model: the
/// destination's if present, else the source's, else a reserved
/// placeholder.
pub open spec fn view_pan_id(pv: PacketView) -> u16 {
    match pv.header.destination {
        Address::Short(pan, _) => pan,
        Address::Extended(pan, _) => pan,
        Address::Absent => match pv.header.source {
            Address::Short(pan, _) => pan,
            Address::Extended(pan, _) => pan,
            Address::Absent => 0xFFFE,
        },
    }
}

/// The model of the acknowledgement frame answering `pv`: addressing
/// swapped, sequence number mirrored, empty payload.
pub open spec fn ack_view_of(pv: PacketView) -> PacketView {
    PacketView {
        header: Header {
            frame_type: FrameType::Acknowledgement,
            frame_pending: false,
            ack_request: false,
            pan_id_compress: false,
            seq_no_suppress: false,
            ie_present: false,
            version: FrameVersion::Ieee802154_2006,
            seq: pv.header.seq,
            destination: pv.header.source,
            source: pv.header.destination,
        },
        content: FrameContent::Acknowledgement,
        payload: Seq::empty(),
        footer: seq![0u8, 0u8],
    }
}

/// Whether the frame modelled by `pv` acknowledges the frame modelled by
/// `q`: an acknowledgement whose addressing mirrors it and whose
/// sequence number matches.
pub open spec fn view_is_ack_for(pv: PacketView, q: PacketView) -> bool {
    &&& pv.header.frame_type == FrameType::Acknowledgement
    &&& pv.header.source == q.header.destination
    &&& pv.header.destination == q.header.source
    &&& pv.header.seq == q.header.seq
    &&& pv.content == FrameContent::Acknowledgement
}


} // verus!

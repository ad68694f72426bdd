//! 6LoWPAN header codecs: dispatch classification, mesh, HC1 and
//! fragmentation headers, and link-local IPv6 address derivation.

use vstd::prelude::*;

use crate::address::Address;
use crate::error::DecodeError;
use crate::wire::{push_u16_be, push_u16_le, push_u64_le, read_u16_be, read_u16_le, read_u64_le, u16_be, u16_from_be, u16_from_le, u16_le, u64_from_le, u64_le};

verus! {

/// The two low bits of the first payload byte classify the header.
pub const HEADER_TYPE_MASK: u8 = 0b0000_0011;

/// The remaining bits of the first payload byte.
pub const HEADER_DISPATCH_MASK: u8 = 0b1111_1100;

/// Header classes carried in the two low bits of the dispatch byte.
#[derive(Clone, Copy, Debug, PartialEq, Eq, Structural)]
pub enum HeaderType {
    /// Not a LoWPAN frame; the packet is discarded.
    Nalp,
    /// LoWPAN payload headers.
    Lowpan,
    /// Mesh header.
    Mesh,
    /// Fragmentation header.
    Frag,
}

/// Wire value of a header type, in the two low bits.
pub open spec fn header_type_val(t: HeaderType) -> u8 {
    match t {
        HeaderType::Nalp => 0b00,
        HeaderType::Lowpan => 0b01,
        HeaderType::Mesh => 0b10,
        HeaderType::Frag => 0b11,
    }
}

/// Dispatch values of the LoWPAN payload headers.
#[derive(Clone, Copy, Debug, PartialEq, Eq, Structural)]
pub enum DispatchBits {
    /// Not a LoWPAN frame.
    Nalp,
    /// Uncompressed IPv6 header follows.
    Ipv6,
    /// HC1-compressed IPv6 header follows.
    Hc1,
    /// BC0 broadcast header follows.
    Bc0,
    /// Escape: a further dispatch byte follows.
    Esc,
    /// Mesh header.
    Mesh,
    /// First fragment header.
    Frag1,
    /// Subsequent fragment header.
    FragN,
}

/// Wire value of a dispatch.
pub open spec fn dispatch_bits_val(d: DispatchBits) -> u8 {
    match d {
        DispatchBits::Nalp => 0b0000_0000,
        DispatchBits::Ipv6 => 0b0100_0001,
        DispatchBits::Hc1 => 0b0100_0010,
        DispatchBits::Bc0 => 0b0101_0000,
        DispatchBits::Esc => 0b0111_1111,
        DispatchBits::Mesh => 0b1000_0000,
        DispatchBits::Frag1 => 0b1100_0000,
        DispatchBits::FragN => 0b1110_0000,
    }
}

impl DispatchBits {
    /// Fetch the wire value of this dispatch.
    pub fn value(&self) -> (r: u8)
        ensures
            r == dispatch_bits_val(*self),
    {
        match self {
            DispatchBits::Nalp => 0b0000_0000,
            DispatchBits::Ipv6 => 0b0100_0001,
            DispatchBits::Hc1 => 0b0100_0010,
            DispatchBits::Bc0 => 0b0101_0000,
            DispatchBits::Esc => 0b0111_1111,
            DispatchBits::Mesh => 0b1000_0000,
            DispatchBits::Frag1 => 0b1100_0000,
            DispatchBits::FragN => 0b1110_0000,
        }
    }
}

/// Discriminates first fragments from subsequent ones in the header's
/// kind bit.
#[derive(Clone, Copy, Debug, PartialEq, Eq, Structural)]
pub enum FragHeaderKind {
    /// First fragment: carries no offset.
    Frag1,
    /// Subsequent fragment: carries the offset byte.
    FragN,
}

/// Fragmentation header: an 11-bit datagram size, a correlation tag, and
/// for every fragment but the first an offset in units of eight octets.
#[derive(Clone, Copy, Debug, PartialEq, Eq, Structural)]
pub struct FragHeader {
    /// Total datagram size before fragmentation (11 bits on the wire).
    pub datagram_size: u16,
    /// Tag correlating the fragments of one datagram.
    pub datagram_tag: u16,
    /// Offset of this fragment in units of eight octets; absent on the
    /// first fragment.
    pub datagram_offset: Option<u8>,
}

impl FragHeader {
    /// The datagram size fits its 11-bit wire field.
    pub open spec fn wf(&self) -> bool {
        self.datagram_size < 2048
    }
}

/// Bytes of a fragmentation header: the fragmentation type and kind bits
/// with the high three size bits in byte zero, the low eight size bits in
/// byte one, the tag big-endian, and the offset byte for later fragments.
pub open spec fn encoded_frag_header(h: FragHeader) -> Seq<u8> {
    seq![
        (3 + (if h.datagram_offset is Some {
            4int
        } else {
            0int
        }) + (h.datagram_size / 256 % 8) * 32) as u8,
        (h.datagram_size % 256) as u8,
    ] + u16_be(h.datagram_tag) + (match h.datagram_offset {
        Option::Some(o) => seq![o],
        Option::None => Seq::empty(),
    })
}

/// Fragmentation header read back from `b`; returns the header and the
/// number of bytes it used.
pub open spec fn decoded_frag_header(b: Seq<u8>) -> Result<(FragHeader, int), DecodeError> {
    if b.len() < 4 {
        Err(DecodeError::NotEnoughBytes)
    } else if b[0] % 4 != 3 {
        Err(DecodeError::InvalidValue)
    } else if b[0] / 8 % 4 != 0 {
        Err(DecodeError::InvalidValue)
    } else {
        let size = (b[0] / 32 * 256 + b[1]) as u16;
        let tag = u16_from_be(b[2], b[3]);
        if b[0] / 4 % 2 == 1 {
            if b.len() < 5 {
                Err(DecodeError::NotEnoughBytes)
            } else {
                Ok(
                    (
                        FragHeader {
                            datagram_size: size,
                            datagram_tag: tag,
                            datagram_offset: Option::Some(b[4]),
                        },
                        5,
                    ),
                )
            }
        } else {
            Ok(
                (
                    FragHeader {
                        datagram_size: size,
                        datagram_tag: tag,
                        datagram_offset: Option::None,
                    },
                    4,
                ),
            )
        }
    }
}

impl FragHeader {
    /// Append this header's wire bytes; returns how many were written.
    pub fn encode(&self, buf: &mut Vec<u8>) -> (n: usize)
        ensures
            final(buf)@ == old(buf)@ + encoded_frag_header(*self),
            n == encoded_frag_header(*self).len(),
    {
        let mut b0: u8 = 3;
        if self.datagram_offset.is_some() {
            b0 += 4;
        }
        b0 += (self.datagram_size / 256 % 8) as u8 * 32;
        buf.push(b0);
        buf.push((self.datagram_size % 256) as u8);
        push_u16_be(buf, self.datagram_tag);
        match self.datagram_offset {
            Option::Some(o) => {
                buf.push(o);
                proof {
                    assert(final(buf)@ =~= old(buf)@ + encoded_frag_header(*self));
                }
                5
            },
            Option::None => {
                proof {
                    assert(final(buf)@ =~= old(buf)@ + encoded_frag_header(*self));
                }
                4
            },
        }
    }

    /// Decode a fragmentation header from the start of `buf`.
    pub fn decode(buf: &Vec<u8>) -> (r: Result<(FragHeader, usize), DecodeError>)
        ensures
            match r {
                Ok((h, n)) => decoded_frag_header(buf@) == Ok::<_, DecodeError>((h, n as int))
                    && n <= buf@.len() && h.wf(),
                Err(e) => decoded_frag_header(buf@) == Err::<(FragHeader, int), _>(e),
            },
    {
        if buf.len() < 4 {
            return Err(DecodeError::NotEnoughBytes);
        }
        let b0 = buf[0];
        if b0 % 4 != 3 {
            return Err(DecodeError::InvalidValue);
        }
        if b0 / 8 % 4 != 0 {
            return Err(DecodeError::InvalidValue);
        }
        let size = b0 as u16 / 32 * 256 + buf[1] as u16;
        let tag = read_u16_be(buf, 2);
        if b0 / 4 % 2 == 1 {
            if buf.len() < 5 {
                return Err(DecodeError::NotEnoughBytes);
            }
            Ok(
                (
                    FragHeader {
                        datagram_size: size,
                        datagram_tag: tag,
                        datagram_offset: Option::Some(buf[4]),
                    },
                    5,
                ),
            )
        } else {
            Ok(
                (
                    FragHeader { datagram_size: size, datagram_tag: tag, datagram_offset: Option::None },
                    4,
                ),
            )
        }
    }
}

/// Decoding an encoded fragmentation header, with any trailing bytes,
/// yields the header back: the round trip of the fragmentation codec.
pub proof fn lemma_frag_header_roundtrip(h: FragHeader, rest: Seq<u8>)
    requires
        h.wf(),
    ensures
        decoded_frag_header(encoded_frag_header(h) + rest) == Ok::<_, DecodeError>(
            (h, encoded_frag_header(h).len() as int),
        ),
{
    let e = encoded_frag_header(h);
    let b = e + rest;
    let k: u8 = if h.datagram_offset is Some {
        4
    } else {
        0
    };
    let hi = (h.datagram_size / 256 % 8) as u8;
    assert(b[0] == (3 + k + hi * 32) as u8);
    assert(b[1] == (h.datagram_size % 256) as u8);
    assert(b[2] == u16_be(h.datagram_tag)[0]);
    assert(b[3] == u16_be(h.datagram_tag)[1]);
    crate::wire::lemma_u16_be_roundtrip(h.datagram_tag);
    assert(b[0] % 4 == 3);
    assert(b[0] / 8 % 4 == 0);
    assert(b[0] / 32 == hi);
    assert(h.datagram_size / 256 % 8 == h.datagram_size / 256) by {
        assert(h.datagram_size / 256 < 8);
    }
    assert(b[0] / 32 * 256 + b[1] == h.datagram_size);
    match h.datagram_offset {
        Option::Some(o) => {
            assert(b[0] / 4 % 2 == 1);
            assert(b[4] == o);
        },
        Option::None => {
            assert(b[0] / 4 % 2 == 0);
        },
    }
}


/// Mesh header: hops left plus origin and final addresses, each short or
/// extended. The type bits share byte zero with the short-address flags
/// for the origin and the final address and with the hop count.
#[derive(Clone, Copy, Debug, PartialEq, Eq, Structural)]
pub struct MeshHeader {
    /// Remaining hop budget (four bits on the wire).
    pub hops_left: u8,
    /// Address of the datagram's originator.
    pub origin_addr: Address,
    /// Address of the datagram's final destination.
    pub final_addr: Address,
}

/// Bytes of a mesh address: the device address alone, without its PAN.
pub open spec fn encoded_mesh_addr(a: Address) -> Seq<u8> {
    match a {
        Address::Absent => Seq::empty(),
        Address::Short(_, sa) => u16_le(sa),
        Address::Extended(_, e) => u64_le(e),
    }
}

impl MeshHeader {
    /// Both addresses are concrete and the hop count fits its four bits.
    /// PAN identifiers do not travel in a mesh header, so only headers
    /// whose addresses carry PAN zero read back unchanged.
    pub open spec fn wf(&self) -> bool {
        &&& self.hops_left <= 15
        &&& match self.origin_addr {
            Address::Absent => false,
            Address::Short(pan, _) => pan == 0,
            Address::Extended(pan, _) => pan == 0,
        }
        &&& match self.final_addr {
            Address::Absent => false,
            Address::Short(pan, _) => pan == 0,
            Address::Extended(pan, _) => pan == 0,
        }
    }
}

/// Bytes of a mesh header.
pub open spec fn encoded_mesh(h: MeshHeader) -> Seq<u8> {
    seq![
        (2 + (if h.origin_addr is Short {
            4int
        } else {
            0int
        }) + (if h.final_addr is Short {
            8int
        } else {
            0int
        }) + (h.hops_left % 16) * 16) as u8,
    ] + encoded_mesh_addr(h.origin_addr) + encoded_mesh_addr(h.final_addr)
}

/// Mesh address read back from `b` at `off`: short or extended by the
/// flag, with PAN zero.
pub open spec fn decoded_mesh_addr(b: Seq<u8>, off: int, short: bool) -> Result<
    (Address, int),
    DecodeError,
> {
    if short {
        if off + 2 <= b.len() {
            Ok((Address::Short(0, u16_from_le(b[off], b[off + 1])), off + 2))
        } else {
            Err(DecodeError::NotEnoughBytes)
        }
    } else {
        if off + 8 <= b.len() {
            Ok((Address::Extended(0, u64_from_le(b.subrange(off, off + 8))), off + 8))
        } else {
            Err(DecodeError::NotEnoughBytes)
        }
    }
}

/// Mesh header read back from the start of `b`; returns the header and
/// the number of bytes used.
pub open spec fn decoded_mesh(b: Seq<u8>) -> Result<(MeshHeader, int), DecodeError> {
    if b.len() < 1 {
        Err(DecodeError::NotEnoughBytes)
    } else if b[0] % 4 != 2 {
        Err(DecodeError::InvalidValue)
    } else {
        let hops = (b[0] / 16) as u8;
        match decoded_mesh_addr(b, 1, b[0] / 4 % 2 == 1) {
            Err(e) => Err(e),
            Ok((origin, o2)) => match decoded_mesh_addr(b, o2, b[0] / 8 % 2 == 1) {
                Err(e) => Err(e),
                Ok((fin, o3)) => Ok(
                    (MeshHeader { hops_left: hops, origin_addr: origin, final_addr: fin }, o3),
                ),
            },
        }
    }
}

/// Decode a mesh address at `off`.
fn decode_mesh_addr(buf: &Vec<u8>, off: usize, short: bool) -> (r: Result<
    (Address, usize),
    DecodeError,
>)
    requires
        off <= buf@.len(),
    ensures
        match r {
            Ok((a, o2)) => decoded_mesh_addr(buf@, off as int, short) == Ok::<_, DecodeError>(
                (a, o2 as int),
            ) && off <= o2 <= buf@.len(),
            Err(e) => decoded_mesh_addr(buf@, off as int, short) == Err::<(Address, int), _>(e),
        },
{
    if short {
        if buf.len() - off >= 2 {
            let sa = read_u16_le(buf, off);
            Ok((Address::Short(0, sa), off + 2))
        } else {
            Err(DecodeError::NotEnoughBytes)
        }
    } else {
        if buf.len() - off >= 8 {
            let e = read_u64_le(buf, off);
            Ok((Address::Extended(0, e), off + 8))
        } else {
            Err(DecodeError::NotEnoughBytes)
        }
    }
}

impl MeshHeader {
    /// Append this header's wire bytes; returns how many were written.
    /// Absent addresses cannot travel in a mesh header.
    pub fn encode(&self, buf: &mut Vec<u8>) -> (n: usize)
        requires
            !(self.origin_addr is Absent),
            !(self.final_addr is Absent),
        ensures
            final(buf)@ == old(buf)@ + encoded_mesh(*self),
            n == encoded_mesh(*self).len(),
    {
        let mut b0: u8 = 2;
        if matches!(self.origin_addr, Address::Short(_, _)) {
            b0 += 4;
        }
        if matches!(self.final_addr, Address::Short(_, _)) {
            b0 += 8;
        }
        b0 += self.hops_left % 16 * 16;
        buf.push(b0);
        let mut n: usize = 1;
        match self.origin_addr {
            Address::Short(_, sa) => {
                push_u16_le(buf, sa);
                n += 2;
            },
            Address::Extended(_, e) => {
                push_u64_le(buf, e);
                n += 8;
            },
            Address::Absent => {},
        }
        match self.final_addr {
            Address::Short(_, sa) => {
                push_u16_le(buf, sa);
                n += 2;
            },
            Address::Extended(_, e) => {
                push_u64_le(buf, e);
                n += 8;
            },
            Address::Absent => {},
        }
        proof {
            assert(final(buf)@ =~= old(buf)@ + encoded_mesh(*self));
        }
        n
    }

    /// Decode a mesh header from the start of `buf`.
    pub fn decode(buf: &Vec<u8>) -> (r: Result<(MeshHeader, usize), DecodeError>)
        ensures
            match r {
                Ok((h, n)) => decoded_mesh(buf@) == Ok::<_, DecodeError>((h, n as int)) && n
                    <= buf@.len(),
                Err(e) => decoded_mesh(buf@) == Err::<(MeshHeader, int), _>(e),
            },
    {
        if buf.len() < 1 {
            return Err(DecodeError::NotEnoughBytes);
        }
        let b0 = buf[0];
        if b0 % 4 != 2 {
            return Err(DecodeError::InvalidValue);
        }
        let hops = b0 / 16;
        let (origin, o2) = match decode_mesh_addr(buf, 1, b0 / 4 % 2 == 1) {
            Ok(v) => v,
            Err(e) => {
                return Err(e);
            },
        };
        let (fin, o3) = match decode_mesh_addr(buf, o2, b0 / 8 % 2 == 1) {
            Ok(v) => v,
            Err(e) => {
                return Err(e);
            },
        };
        Ok((MeshHeader { hops_left: hops, origin_addr: origin, final_addr: fin }, o3))
    }
}

/// Decoding an encoded mesh header, with any trailing bytes, yields the
/// header back.
#[verifier::rlimit(100)]
pub proof fn lemma_mesh_roundtrip(h: MeshHeader, rest: Seq<u8>)
    requires
        h.wf(),
    ensures
        decoded_mesh(encoded_mesh(h) + rest) == Ok::<_, DecodeError>(
            (h, encoded_mesh(h).len() as int),
        ),
{
    let e = encoded_mesh(h);
    let b = e + rest;
    let vo: int = if h.origin_addr is Short {
        4
    } else {
        0
    };
    let vf: int = if h.final_addr is Short {
        8
    } else {
        0
    };
    assert(b[0] == (2 + vo + vf + (h.hops_left % 16) * 16) as u8);
    assert(b[0] % 4 == 2);
    assert(b[0] / 4 % 2 == 1 <==> h.origin_addr is Short);
    assert(b[0] / 8 % 2 == 1 <==> h.final_addr is Short);
    assert(b[0] / 16 == h.hops_left % 16);
    assert(h.hops_left % 16 == h.hops_left);
    let eo = encoded_mesh_addr(h.origin_addr);
    let ef = encoded_mesh_addr(h.final_addr);
    match h.origin_addr {
        Address::Short(_, sa) => {
            assert(b[1] == eo[0]);
            assert(b[2] == eo[1]);
            crate::wire::lemma_u16_le_roundtrip(sa);
        },
        Address::Extended(_, ext) => {
            assert(b.subrange(1, 9) =~= u64_le(ext));
            crate::wire::lemma_u64_le_roundtrip(ext);
        },
        Address::Absent => {},
    }
    let o2: int = 1 + eo.len() as int;
    match h.final_addr {
        Address::Short(_, sa) => {
            assert(b[o2] == ef[0]);
            assert(b[o2 + 1] == ef[1]);
            crate::wire::lemma_u16_le_roundtrip(sa);
        },
        Address::Extended(_, ext) => {
            assert(b.subrange(o2, o2 + 8) =~= u64_le(ext));
            crate::wire::lemma_u64_le_roundtrip(ext);
        },
        Address::Absent => {},
    }
}

/// HC1 compression flags: every field of the compressed IPv6 header
/// elided, as this stack always writes.
pub const HC1_COMPRESS_ALL: u8 = 0b0001_1111;

/// HC1-compressed IPv6 header: the compression flags and the hop limit.
/// Compression itself is out of this stack's scope; the header is carried
/// and reproduced but never interpreted.
#[derive(Clone, Copy, Debug, PartialEq, Eq, Structural)]
pub struct Hc1Header {
    /// Compression flag byte.
    pub flags: u8,
    /// IPv6 hop limit, always carried inline.
    pub hop_limit: u8,
}

/// Bytes of an HC1 header as this stack writes it: the HC1 dispatch, the
/// all-compressed flag byte, and the hop limit.
pub open spec fn encoded_hc1(h: Hc1Header) -> Seq<u8> {
    seq![0b0100_0010u8, HC1_COMPRESS_ALL, h.hop_limit]
}

/// HC1 header read back from `b`: flags from byte one, hop limit from
/// byte two.
pub open spec fn decoded_hc1(b: Seq<u8>) -> Result<(Hc1Header, int), DecodeError> {
    if b.len() < 3 {
        Err(DecodeError::NotEnoughBytes)
    } else {
        Ok((Hc1Header { flags: b[1], hop_limit: b[2] }, 3))
    }
}

impl Hc1Header {
    /// Append this header's wire bytes; returns how many were written.
    pub fn encode(&self, buf: &mut Vec<u8>) -> (n: usize)
        ensures
            final(buf)@ == old(buf)@ + encoded_hc1(*self),
            n == encoded_hc1(*self).len(),
    {
        buf.push(0b0100_0010);
        buf.push(HC1_COMPRESS_ALL);
        buf.push(self.hop_limit);
        proof {
            assert(final(buf)@ =~= old(buf)@ + encoded_hc1(*self));
        }
        3
    }

    /// Decode an HC1 header from the start of `buf`.
    pub fn decode(buf: &Vec<u8>) -> (r: Result<(Hc1Header, usize), DecodeError>)
        ensures
            match r {
                Ok((h, n)) => decoded_hc1(buf@) == Ok::<_, DecodeError>((h, n as int)) && n
                    <= buf@.len(),
                Err(e) => decoded_hc1(buf@) == Err::<(Hc1Header, int), _>(e),
            },
    {
        if buf.len() < 3 {
            return Err(DecodeError::NotEnoughBytes);
        }
        Ok((Hc1Header { flags: buf[1], hop_limit: buf[2] }, 3))
    }
}

/// BC0 broadcast header marker; its sequence byte is not yet carried.
#[derive(Clone, Copy, Debug, PartialEq, Eq, Structural)]
pub struct BroadcastHeader {}

/// The 6LoWPAN headers in front of a payload: optional HC1, mesh,
/// broadcast and fragmentation headers.
#[derive(Clone, Copy, Debug, PartialEq, Eq, Structural)]
pub struct Header {
    /// HC1 compressed IPv6 header, if present.
    pub hc1: Option<Hc1Header>,
    /// Mesh header, if present.
    pub mesh: Option<MeshHeader>,
    /// BC0 broadcast header, if present; never encoded.
    pub bcast: Option<BroadcastHeader>,
    /// Fragmentation header, if present.
    pub frag: Option<FragHeader>,
}

impl Header {
    /// A header with every part absent.
    pub fn empty() -> (r: Header)
        ensures
            r == (Header {
                hc1: Option::None,
                mesh: Option::None,
                bcast: Option::None,
                frag: Option::None,
            }),
    {
        Header { hc1: Option::None, mesh: Option::None, bcast: Option::None, frag: Option::None }
    }

    /// Adopt from `h` every part this header does not carry yet; parts
    /// already present stay as they are. Fragments may arrive out of
    /// order, and the first fragment's headers must not be lost when a
    /// later one arrives before it.
    pub fn merge(&mut self, h: &Header)
        ensures
            final(self).mesh == (if old(self).mesh is None {
                h.mesh
            } else {
                old(self).mesh
            }),
            final(self).bcast == (if old(self).bcast is None {
                h.bcast
            } else {
                old(self).bcast
            }),
            final(self).frag == (if old(self).frag is None {
                h.frag
            } else {
                old(self).frag
            }),
            final(self).hc1 == (if old(self).hc1 is None {
                h.hc1
            } else {
                old(self).hc1
            }),
    {
        if self.mesh.is_none() {
            self.mesh = h.mesh;
        }
        if self.bcast.is_none() {
            self.bcast = h.bcast;
        }
        if self.frag.is_none() {
            self.frag = h.frag;
        }
        if self.hc1.is_none() {
            self.hc1 = h.hc1;
        }
    }
}

impl Default for Header {
    /// The default header has every part absent.
    fn default() -> (r: Header)
        ensures
            r == (Header {
                hc1: Option::None,
                mesh: Option::None,
                bcast: Option::None,
                frag: Option::None,
            }),
    {
        Header::empty()
    }
}

/// Bytes of the whole 6LoWPAN header block: mesh, then fragmentation,
/// then HC1; the broadcast header is not yet encoded.
pub open spec fn encoded_header_block(h: Header) -> Seq<u8> {
    (match h.mesh {
        Option::Some(m) => encoded_mesh(m),
        Option::None => Seq::empty(),
    }) + (match h.frag {
        Option::Some(f) => encoded_frag_header(f),
        Option::None => Seq::empty(),
    }) + (match h.hc1 {
        Option::Some(c) => encoded_hc1(c),
        Option::None => Seq::empty(),
    })
}

/// Header block read back from `b`: a leading mesh header if its type
/// bits announce one, then a fragmentation header likewise. A first byte
/// outside the LoWPAN space yields an empty header over the whole
/// payload; HC1 parsing is out of scope and leaves `hc1` absent.
pub open spec fn decoded_header_block(b: Seq<u8>) -> Result<(Header, int), DecodeError> {
    if b.len() < 1 {
        Err(DecodeError::NotEnoughBytes)
    } else if b[0] % 4 == 0 {
        Ok(
            (
                Header {
                    hc1: Option::None,
                    mesh: Option::None,
                    bcast: Option::None,
                    frag: Option::None,
                },
                0,
            ),
        )
    } else {
        let mesh_step: Result<(Option<MeshHeader>, int), DecodeError> = if b[0] % 4 == 2 {
            match decoded_mesh(b) {
                Err(e) => Err(e),
                Ok((m, n)) => Ok((Option::Some(m), n)),
            }
        } else {
            Ok((Option::None, 0))
        };
        match mesh_step {
            Err(e) => Err(e),
            Ok((mesh, o1)) => {
                let frag_step: Result<(Option<FragHeader>, int), DecodeError> = if o1 < b.len()
                    && b[o1] % 4 == 3 {
                    match decoded_frag_header(b.subrange(o1, b.len() as int)) {
                        Err(e) => Err(e),
                        Ok((f, n)) => Ok((Option::Some(f), o1 + n)),
                    }
                } else {
                    Ok((Option::None, o1))
                };
                match frag_step {
                    Err(e) => Err(e),
                    Ok((frag, o2)) => Ok(
                        (Header { hc1: Option::None, mesh, bcast: Option::None, frag }, o2),
                    ),
                }
            },
        }
    }
}

/// Decode a fragmentation header at `off`.
fn decode_frag_at(buf: &Vec<u8>, off: usize) -> (r: Result<(FragHeader, usize), DecodeError>)
    requires
        off <= buf@.len(),
    ensures
        match r {
            Ok((h, n)) => decoded_frag_header(buf@.subrange(off as int, buf@.len() as int))
                == Ok::<_, DecodeError>((h, n as int)) && off + n <= buf@.len() && h.wf(),
            Err(e) => decoded_frag_header(buf@.subrange(off as int, buf@.len() as int)) == Err::<
                (FragHeader, int),
                _,
            >(e),
        },
{
    let ghost tail = buf@.subrange(off as int, buf@.len() as int);
    if buf.len() - off < 4 {
        return Err(DecodeError::NotEnoughBytes);
    }
    proof {
        assert(tail[0] == buf@[off as int]);
        assert(tail[1] == buf@[off + 1]);
        assert(tail[2] == buf@[off + 2]);
        assert(tail[3] == buf@[off + 3]);
    }
    let b0 = buf[off];
    if b0 % 4 != 3 {
        return Err(DecodeError::InvalidValue);
    }
    if b0 / 8 % 4 != 0 {
        return Err(DecodeError::InvalidValue);
    }
    let size = b0 as u16 / 32 * 256 + buf[off + 1] as u16;
    let tag = read_u16_be(buf, off + 2);
    if b0 / 4 % 2 == 1 {
        if buf.len() - off < 5 {
            return Err(DecodeError::NotEnoughBytes);
        }
        proof {
            assert(tail[4] == buf@[off + 4]);
        }
        Ok(
            (
                FragHeader {
                    datagram_size: size,
                    datagram_tag: tag,
                    datagram_offset: Option::Some(buf[off + 4]),
                },
                5,
            ),
        )
    } else {
        Ok(
            (
                FragHeader { datagram_size: size, datagram_tag: tag, datagram_offset: Option::None },
                4,
            ),
        )
    }
}

impl Header {
    /// Append the wire bytes of this header block; returns how many were
    /// written. Mesh headers with an absent address cannot be encoded.
    pub fn encode(&self, buf: &mut Vec<u8>) -> (n: usize)
        requires
            match self.mesh {
                Option::Some(m) => !(m.origin_addr is Absent) && !(m.final_addr is Absent),
                Option::None => true,
            },
        ensures
            final(buf)@ == old(buf)@ + encoded_header_block(*self),
            n == encoded_header_block(*self).len(),
    {
        let mut n: usize = 0;
        match &self.mesh {
            Option::Some(m) => {
                n += m.encode(buf);
            },
            Option::None => {},
        }
        match &self.frag {
            Option::Some(f) => {
                n += f.encode(buf);
            },
            Option::None => {},
        }
        match &self.hc1 {
            Option::Some(c) => {
                n += c.encode(buf);
            },
            Option::None => {},
        }
        proof {
            assert(final(buf)@ =~= old(buf)@ + encoded_header_block(*self));
        }
        n
    }

    /// Decode the header block from the start of `buf`; returns the
    /// header and the offset where the payload begins.
    pub fn decode(buf: &Vec<u8>) -> (r: Result<(Header, usize), DecodeError>)
        ensures
            match r {
                Ok((h, n)) => decoded_header_block(buf@) == Ok::<_, DecodeError>((h, n as int))
                    && n <= buf@.len() && header_encodable(h) && (h.frag matches Some(f)
                    ==> f.wf()),
                Err(e) => decoded_header_block(buf@) == Err::<(Header, int), _>(e),
            },
    {
        if buf.len() < 1 {
            return Err(DecodeError::NotEnoughBytes);
        }
        if buf[0] % 4 == 0 {
            return Ok((Header::empty(), 0));
        }
        let mut mesh: Option<MeshHeader> = Option::None;
        let mut off: usize = 0;
        if buf[0] % 4 == 2 {
            match MeshHeader::decode(buf) {
                Ok((m, n)) => {
                    mesh = Option::Some(m);
                    off = n;
                },
                Err(e) => {
                    return Err(e);
                },
            }
        }
        let mut frag: Option<FragHeader> = Option::None;
        if off < buf.len() {
            if buf[off] % 4 == 3 {
                match decode_frag_at(buf, off) {
                    Ok((f, n)) => {
                        frag = Option::Some(f);
                        off += n;
                    },
                    Err(e) => {
                        return Err(e);
                    },
                }
            }
        }
        Ok((Header { hc1: Option::None, mesh, bcast: Option::None, frag }, off))
    }
}

/// Decoding an encoded header block yields it back, for the blocks this
/// stack itself writes: no HC1 and no broadcast part, a well-formed mesh
/// part if any, and a well-formed fragmentation part if any. The bytes
/// after the block must not themselves read as a fragmentation header
/// when the block carries none, so the block is taken alone here.
#[verifier::rlimit(100)]
pub proof fn lemma_header_block_roundtrip(h: Header, rest: Seq<u8>)
    requires
        h.hc1 is None,
        h.bcast is None,
        match h.mesh {
            Option::Some(m) => m.wf(),
            Option::None => true,
        },
        match h.frag {
            Option::Some(f) => f.wf(),
            Option::None => true,
        },
        h.mesh is Some || h.frag is Some,
        h.frag is None ==> rest.len() == 0 || rest[0] % 4 != 3,
    ensures
        decoded_header_block(encoded_header_block(h) + rest) == Ok::<_, DecodeError>(
            (h, encoded_header_block(h).len() as int),
        ),
{
    let e = encoded_header_block(h);
    let b = e + rest;
    match h.mesh {
        Option::Some(m) => {
            let em = encoded_mesh(m);
            assert(b[0] == em[0]);
            assert(b[0] % 4 == 2);
            assert(b.subrange(0, em.len() as int) =~= em);
            lemma_mesh_prefix(m, b);
            let o1 = em.len() as int;
            match h.frag {
                Option::Some(f) => {
                    let ef = encoded_frag_header(f);
                    assert(b.subrange(o1, b.len() as int) =~= ef + rest);
                    assert(b[o1] == ef[0]);
                    assert(b[o1] % 4 == 3);
                    lemma_frag_header_roundtrip(f, rest);
                },
                Option::None => {
                    if o1 < b.len() {
                        assert(b[o1] == rest[0]);
                    }
                },
            }
        },
        Option::None => {
            match h.frag {
                Option::Some(f) => {
                    let ef = encoded_frag_header(f);
                    assert(b[0] == ef[0]);
                    assert(b[0] % 4 == 3);
                    assert(b.subrange(0, b.len() as int) =~= ef + rest);
                    lemma_frag_header_roundtrip(f, rest);
                },
                Option::None => {},
            }
        },
    }
}

/// A mesh header at the head of a longer buffer decodes to itself.
proof fn lemma_mesh_prefix(m: MeshHeader, b: Seq<u8>)
    requires
        m.wf(),
        b.len() >= encoded_mesh(m).len(),
        b.subrange(0, encoded_mesh(m).len() as int) == encoded_mesh(m),
    ensures
        decoded_mesh(b) == Ok::<_, DecodeError>((m, encoded_mesh(m).len() as int)),
{
    let em = encoded_mesh(m);
    let rest = b.subrange(em.len() as int, b.len() as int);
    assert(b =~= em + rest);
    lemma_mesh_roundtrip(m, rest);
}



/// EUI-64 interface identifier derived from a link-layer address.
#[derive(Clone, Copy, Debug, PartialEq, Eq, Structural)]
pub struct Eui64(pub u64);

impl Eui64 {
    /// Interface identifier from a PAN identifier and short address: the
    /// PAN in bytes two and three, the short address in bytes six and
    /// seven, little-endian within each pair.
    pub fn from_short_addr(pan: u16, short: u16) -> (r: Eui64)
        ensures
            r.0 == (pan % 256) * 0x1_0000 + (pan / 256) * 0x100_0000 + (short % 256)
                * 0x1_0000_0000_0000 + (short / 256) * 0x100_0000_0000_0000,
    {
        Eui64(
            (pan as u64 % 256) * 0x1_0000 + (pan as u64 / 256) * 0x100_0000 + (short as u64 % 256)
                * 0x1_0000_0000_0000 + (short as u64 / 256) * 0x100_0000_0000_0000,
        )
    }

    /// Interface identifier from an extended address: its low bytes with
    /// the fixed pattern bytes spliced into positions three and four.
    pub fn from_extended(ext: u64) -> (r: Eui64)
        ensures
            r.0 == ext % 0x100 + (ext / 0x100 % 0x100) * 0x100 + (ext / 0x1_0000 % 0x100)
                * 0x1_0000 + 0xFF * 0x100_0000 + 0xFE * 0x1_0000_0000 + (ext / 0x100_0000 % 0x100)
                * 0x100_0000_0000 + (ext / 0x1_0000_0000 % 0x100) * 0x1_0000_0000_0000 + (ext
                / 0x1_0000_0000_0000 % 0x100) * 0x100_0000_0000_0000,
    {
        Eui64(
            ext % 0x100 + (ext / 0x100 % 0x100) * 0x100 + (ext / 0x1_0000 % 0x100) * 0x1_0000
                + 0xFF * 0x100_0000 + 0xFE * 0x1_0000_0000 + (ext / 0x100_0000 % 0x100)
                * 0x100_0000_0000 + (ext / 0x1_0000_0000 % 0x100) * 0x1_0000_0000_0000 + (ext
                / 0x1_0000_0000_0000 % 0x100) * 0x100_0000_0000_0000,
        )
    }
}

/// A 128-bit IPv6 address as raw bytes.
#[derive(Clone, Debug, PartialEq, Eq)]
pub struct V6Addr(pub [u8; 16]);

/// Hexadecimal digit character for a value below sixteen.
pub open spec fn hex_char(d: int) -> char {
    if d == 0 {
        '0'
    } else if d == 1 {
        '1'
    } else if d == 2 {
        '2'
    } else if d == 3 {
        '3'
    } else if d == 4 {
        '4'
    } else if d == 5 {
        '5'
    } else if d == 6 {
        '6'
    } else if d == 7 {
        '7'
    } else if d == 8 {
        '8'
    } else if d == 9 {
        '9'
    } else if d == 10 {
        'a'
    } else if d == 11 {
        'b'
    } else if d == 12 {
        'c'
    } else if d == 13 {
        'd'
    } else if d == 14 {
        'e'
    } else {
        'f'
    }
}

/// Four hexadecimal digits of a 16-bit group.
pub open spec fn hex_group(o: int) -> Seq<char> {
    seq![
        hex_char(o / 4096 % 16),
        hex_char(o / 256 % 16),
        hex_char(o / 16 % 16),
        hex_char(o % 16),
    ]
}

/// Textual form of the address bytes from group `i` on: groups are read
/// from overlapping byte pairs, zero groups compress into one empty
/// separator, and the `compress` flag says whether a compression run is
/// open.
pub open spec fn v6_chars(b: Seq<u8>, i: int, compress: bool) -> Seq<char>
    recommends
        b.len() == 16,
        0 <= i <= 8,
    decreases 8 - i,
{
    if i < 0 || i >= 8 {
        Seq::empty()
    } else {
        let o = b[i] * 256 + b[i + 1];
        if o == 0 && !compress && i < 7 {
            seq![':'] + v6_chars(b, i + 1, true)
        } else if o == 0 && compress {
            v6_chars(b, i + 1, true)
        } else if o != 0 && compress {
            seq![':'] + hex_group(o) + v6_chars(b, i + 1, false)
        } else if i == 0 {
            hex_group(o) + v6_chars(b, 1, false)
        } else {
            seq![':'] + hex_group(o) + v6_chars(b, i + 1, false)
        }
    }
}

/// Append one hexadecimal digit character.
fn push_hex_digit(out: &mut String, d: u8)
    requires
        d < 16,
    ensures
        final(out)@ == old(out)@ + seq![hex_char(d as int)],
{
    match d {
        0 => {
            proof {
                reveal_strlit("0");
            }
            out.append("0");
        },
        1 => {
            proof {
                reveal_strlit("1");
            }
            out.append("1");
        },
        2 => {
            proof {
                reveal_strlit("2");
            }
            out.append("2");
        },
        3 => {
            proof {
                reveal_strlit("3");
            }
            out.append("3");
        },
        4 => {
            proof {
                reveal_strlit("4");
            }
            out.append("4");
        },
        5 => {
            proof {
                reveal_strlit("5");
            }
            out.append("5");
        },
        6 => {
            proof {
                reveal_strlit("6");
            }
            out.append("6");
        },
        7 => {
            proof {
                reveal_strlit("7");
            }
            out.append("7");
        },
        8 => {
            proof {
                reveal_strlit("8");
            }
            out.append("8");
        },
        9 => {
            proof {
                reveal_strlit("9");
            }
            out.append("9");
        },
        10 => {
            proof {
                reveal_strlit("a");
            }
            out.append("a");
        },
        11 => {
            proof {
                reveal_strlit("b");
            }
            out.append("b");
        },
        12 => {
            proof {
                reveal_strlit("c");
            }
            out.append("c");
        },
        13 => {
            proof {
                reveal_strlit("d");
            }
            out.append("d");
        },
        14 => {
            proof {
                reveal_strlit("e");
            }
            out.append("e");
        },
        _ => {
            proof {
                reveal_strlit("f");
            }
            out.append("f");
        },
    }
    proof {
        assert(final(out)@ =~= old(out)@ + seq![hex_char(d as int)]);
    }
}

/// Append the group separator.
fn push_colon(out: &mut String)
    ensures
        final(out)@ == old(out)@ + seq![':'],
{
    proof {
        reveal_strlit(":");
    }
    out.append(":");
    proof {
        assert(final(out)@ =~= old(out)@ + seq![':']);
    }
}

/// Append the four hexadecimal digits of a group.
fn push_hex_group(out: &mut String, o: u16)
    ensures
        final(out)@ == old(out)@ + hex_group(o as int),
{
    push_hex_digit(out, (o / 4096 % 16) as u8);
    push_hex_digit(out, (o / 256 % 16) as u8);
    push_hex_digit(out, (o / 16 % 16) as u8);
    push_hex_digit(out, (o % 16) as u8);
    proof {
        assert(final(out)@ =~= old(out)@ + hex_group(o as int));
    }
}

impl V6Addr {
    /// Link-local IPv6 address from an EUI-64: the link-local pattern in
    /// the leading bytes, the identifier bytes spliced in after them.
    pub fn from_eui64(eui: Eui64) -> (r: V6Addr)
        ensures
            r.0@ == seq![0xFAu8, 0x03u8, 0u8, 0u8] + u64_le(eui.0) + seq![0u8, 0u8, 0u8, 0u8],
    {
        let e = eui.0;
        let r = V6Addr(
            [
                0xFA,
                0x03,
                0,
                0,
                (e % 256) as u8,
                ((e / 0x100) % 256) as u8,
                ((e / 0x1_0000) % 256) as u8,
                ((e / 0x100_0000) % 256) as u8,
                ((e / 0x1_0000_0000) % 256) as u8,
                ((e / 0x100_0000_0000) % 256) as u8,
                ((e / 0x1_0000_0000_0000) % 256) as u8,
                ((e / 0x100_0000_0000_0000) % 256) as u8,
                0,
                0,
                0,
                0,
            ],
        );
        proof {
            assert(r.0@ =~= seq![0xFAu8, 0x03u8, 0u8, 0u8] + u64_le(eui.0) + seq![
                0u8,
                0u8,
                0u8,
                0u8,
            ]);
        }
        r
    }

    /// Render the address with zero-run compression over the eight
    /// leading overlapping byte-pair groups.
    pub fn display(&self) -> (r: String)
        ensures
            r@ == v6_chars(self.0@, 0, false),
    {
        let mut out = String::new();
        let mut compress = false;
        let mut i: usize = 0;
        while i < 8
            invariant
                0 <= i <= 8,
                v6_chars(self.0@, 0, false) == out@ + v6_chars(self.0@, i as int, compress),
            decreases 8 - i,
        {
            let o: u16 = self.0[i] as u16 * 256 + self.0[i + 1] as u16;
            if o == 0 && !compress && i < 7 {
                compress = true;
                push_colon(&mut out);
            } else if o == 0 && compress {
            } else if o != 0 && compress {
                compress = false;
                push_colon(&mut out);
                push_hex_group(&mut out, o);
            } else if i == 0 {
                push_hex_group(&mut out, o);
            } else {
                push_colon(&mut out);
                push_hex_group(&mut out, o);
            }
            i += 1;
        }
        out
    }
}



/// A header block whose mesh part, if any, can be written to the wire:
/// mesh headers cannot carry absent addresses.
pub open spec fn header_encodable(h: Header) -> bool {
    match h.mesh {
        Option::Some(m) => !(m.origin_addr is Absent) && !(m.final_addr is Absent),
        Option::None => true,
    }
}

/// The header block never spans more than the mesh, fragmentation and
/// HC1 parts at their largest.
pub proof fn lemma_header_block_len(h: Header)
    ensures
        encoded_header_block(h).len() <= 25,
{
}


} // verus!

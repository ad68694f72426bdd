//! Datagram fragmentation and reassembly: four fixed slots, each holding
//! one datagram being split for transmission or rebuilt from received
//! fragments tracked by a completion bitmask.

use vstd::arithmetic::power2::{
    lemma2_to64, lemma_pow2_pos, lemma_pow2_strictly_increases, lemma_pow2_unfold, pow2,
};
use vstd::prelude::*;

use crate::address::Address;
use crate::sixlo::headers::{header_encodable, FragHeader, Header};
use crate::sixlo::{SixLoError, IPV6_MTU};
use crate::wire::pow2_u32;
use crate::Ts;

verus! {

/// Size of one fragment's payload; a multiple of eight so that offsets
/// can travel in units of eight octets.
pub const MAX_FRAG_SIZE: usize = 64;

/// Number of fragmentation slots.
pub const FRAG_SLOTS: usize = 4;

/// State of one fragmentation slot.
#[derive(Clone, Copy, Debug, PartialEq, Eq, Structural)]
pub enum FragState {
    /// The slot is unused.
    Free,
    /// The slot holds a datagram being transmitted fragment by fragment.
    Tx,
    /// The slot collects incoming fragments of one datagram.
    Rx,
    /// The slot holds a complete datagram awaiting delivery upward.
    Done,
}

/// Fragmentation timeouts.
#[derive(Clone, Copy, Debug, PartialEq, Eq, Structural)]
pub struct FragConfig {
    /// How long a reassembly may stay incomplete before its slot is freed.
    pub frag_rx_timeout_ms: Ts,
    /// How long a transmission may take before its slot is freed.
    pub frag_tx_timeout_ms: Ts,
}

impl Default for FragConfig {
    /// Ten seconds for either direction.
    fn default() -> (r: FragConfig)
        ensures
            r == (FragConfig { frag_rx_timeout_ms: 10_000, frag_tx_timeout_ms: 10_000 }),
    {
        FragConfig { frag_rx_timeout_ms: 10_000, frag_tx_timeout_ms: 10_000 }
    }
}

/// Number of fragments a datagram of `len` bytes splits into.
pub open spec fn spec_num_frags(len: int) -> int {
    (len + MAX_FRAG_SIZE - 1) / (MAX_FRAG_SIZE as int)
}

/// The completion bitmask value at which every fragment has arrived: one
/// bit for each of the datagram's fragments.
pub open spec fn full_mask(len: int) -> int {
    pow2(spec_num_frags(len) as nat) - 1
}

/// A completion bitmask with bit `i` set: unchanged when the bit already
/// stands, raised by two to the `i` otherwise.
pub open spec fn mask_with_bit(mask: u32, i: nat) -> int {
    if (mask as int) / (pow2(i) as int) % 2 == 0 {
        mask + pow2(i)
    } else {
        mask as int
    }
}

/// One fragmentation slot: a datagram buffer with the bookkeeping to
/// split it into fragments or rebuild it from them.
#[derive(Debug)]
pub struct FragBuffer {
    /// What the slot currently holds.
    pub state: FragState,
    /// Headers of the datagram; the fragmentation part is kept cleared.
    pub header: Header,
    /// Peer address: destination when transmitting, source when receiving.
    pub addr: Address,
    /// Tag correlating this datagram's fragments.
    pub tag: u16,
    /// Total datagram length in bytes.
    pub len: usize,
    /// Completion bitmask: one bit per received fragment index.
    pub mask: u32,
    /// Absolute expiry time, or zero for none.
    pub timeout: Ts,
    /// Transmit cursor, in bytes from the start of the datagram.
    pub offset: usize,
    /// Datagram bytes.
    pub buff: Vec<u8>,
}

impl FragBuffer {
    /// The buffer always spans a full MTU, the datagram fits it, and a
    /// reassembling slot is never already complete.
    pub open spec fn wf(&self) -> bool {
        &&& self.buff@.len() == IPV6_MTU
        &&& self.len <= IPV6_MTU
        &&& self.mask < pow2(21)
        &&& header_encodable(self.header)
        &&& self.state == FragState::Tx ==> self.offset % MAX_FRAG_SIZE == 0 && self.offset
            <= self.len
        &&& self.state == FragState::Rx ==> 1 <= self.len && self.mask != full_mask(
            self.len as int,
        )
    }

    /// An empty, free slot.
    pub fn empty() -> (r: FragBuffer)
        ensures
            r.wf(),
            r.state == FragState::Free,
            r.len == 0,
            r.mask == 0,
            r.offset == 0,
            r.timeout == 0,
    {
        let mut buff: Vec<u8> = Vec::new();
        let mut i: usize = 0;
        while i < IPV6_MTU
            invariant
                i <= IPV6_MTU,
                buff@.len() == i,
            decreases IPV6_MTU - i,
        {
            buff.push(0);
            i += 1;
        }
        proof {
            lemma_pow2_pos(21);
        }
        FragBuffer {
            state: FragState::Free,
            header: Header::empty(),
            addr: Address::Absent,
            tag: 0,
            len: 0,
            mask: 0,
            timeout: 0,
            offset: 0,
            buff,
        }
    }

    /// Number of fragments this slot's datagram splits into.
    pub fn num_frags(&self) -> (r: usize)
        requires
            self.len <= IPV6_MTU,
        ensures
            r == spec_num_frags(self.len as int),
    {
        let n = self.len / MAX_FRAG_SIZE;
        if self.len % MAX_FRAG_SIZE != 0 {
            n + 1
        } else {
            n
        }
    }

    /// Start transmitting `data` to `dest`: the slot holds a copy of the
    /// datagram with the cursor at its start. The header's fragmentation
    /// part is cleared; each emitted fragment gets its own.
    pub fn init_tx(dest: Address, header: Header, tag: u16, data: &Vec<u8>) -> (r: FragBuffer)
        requires
            data@.len() <= IPV6_MTU,
            header_encodable(header),
        ensures
            r.wf(),
            r.state == FragState::Tx,
            r.addr == dest,
            r.tag == tag,
            r.len == data@.len(),
            r.offset == 0,
            r.mask == 0,
            r.timeout == 0,
            r.header == (Header { frag: Option::None, ..header }),
            r.buff@.subrange(0, data@.len() as int) == data@,
    {
        let mut buff: Vec<u8> = Vec::new();
        let mut i: usize = 0;
        while i < data.len()
            invariant
                i <= data@.len(),
                buff@ == data@.subrange(0, i as int),
            decreases data@.len() - i,
        {
            buff.push(data[i]);
            i += 1;
            proof {
                assert(buff@ =~= data@.subrange(0, i as int));
            }
        }
        while i < IPV6_MTU
            invariant
                data@.len() <= i <= IPV6_MTU,
                buff@.len() == i,
                buff@.subrange(0, data@.len() as int) == data@,
            decreases IPV6_MTU - i,
        {
            buff.push(0);
            i += 1;
            proof {
                assert(buff@.subrange(0, data@.len() as int) =~= data@);
            }
        }
        proof {
            lemma_pow2_pos(21);
        }
        let r = FragBuffer {
            state: FragState::Tx,
            header: Header { frag: Option::None, ..header },
            addr: dest,
            tag,
            len: data.len(),
            mask: 0,
            timeout: 0,
            offset: 0,
            buff,
        };
        proof {
            assert(r.buff@.subrange(0, data@.len() as int) =~= data@);
        }
        r
    }

    /// Hold a complete datagram for delivery, as received in one piece.
    pub fn init_done(source: Address, header: &Header, data: &Vec<u8>) -> (r: FragBuffer)
        requires
            data@.len() <= IPV6_MTU,
            header_encodable(*header),
        ensures
            r.wf(),
            r.state == FragState::Done,
            r.addr == source,
            r.tag == 0,
            r.len == data@.len(),
            r.timeout == 0,
            r.header == *header,
            r.buff@.subrange(0, data@.len() as int) == data@,
    {
        let mut r = Self::init_tx(source, *header, 0, data);
        r.state = FragState::Done;
        r.header = *header;
        r
    }

    /// The fragment header and byte range of fragment `index`: the first
    /// fragment carries the full headers of the datagram plus a
    /// fragmentation part without an offset; later fragments carry a
    /// fragmentation part alone, with the offset in units of eight octets.
    pub open spec fn spec_frag(&self, index: int) -> (Header, int, int) {
        let offset = index * MAX_FRAG_SIZE;
        let header = if index == 0 {
            Header {
                frag: Option::Some(
                    FragHeader {
                        datagram_size: self.len as u16,
                        datagram_offset: Option::None,
                        datagram_tag: self.tag,
                    },
                ),
                ..self.header
            }
        } else {
            Header {
                hc1: Option::None,
                mesh: Option::None,
                bcast: Option::None,
                frag: Option::Some(
                    FragHeader {
                        datagram_size: self.len as u16,
                        datagram_offset: Option::Some((offset / 8) as u8),
                        datagram_tag: self.tag,
                    },
                ),
            }
        };
        let flen = if self.len - offset < MAX_FRAG_SIZE {
            self.len - offset
        } else {
            MAX_FRAG_SIZE as int
        };
        (header, offset, flen)
    }

    /// Compute the fragment header and byte range of fragment `index`.
    pub fn frag(&self, index: usize) -> (r: (Header, usize, usize))
        requires
            self.len <= IPV6_MTU,
            index * MAX_FRAG_SIZE <= self.len,
        ensures
            (r.0, r.1 as int, r.2 as int) == self.spec_frag(index as int),
    {
        let offset = index * MAX_FRAG_SIZE;
        let header = if index == 0 {
            Header {
                frag: Option::Some(
                    FragHeader {
                        datagram_size: self.len as u16,
                        datagram_offset: Option::None,
                        datagram_tag: self.tag,
                    },
                ),
                ..self.header
            }
        } else {
            Header {
                hc1: Option::None,
                mesh: Option::None,
                bcast: Option::None,
                frag: Option::Some(
                    FragHeader {
                        datagram_size: self.len as u16,
                        datagram_offset: Option::Some((offset / 8) as u8),
                        datagram_tag: self.tag,
                    },
                ),
            }
        };
        let remainder = self.len - offset;
        let flen = if MAX_FRAG_SIZE < remainder {
            MAX_FRAG_SIZE
        } else {
            remainder
        };
        (header, offset, flen)
    }

    /// Emit the next fragment of a transmitting slot and advance the
    /// cursor; the slot frees itself once the cursor passes the datagram
    /// end, which happens on exactly the `ceil(len / MAX_FRAG_SIZE)`-th
    /// emission for a non-empty datagram.
    pub fn next_frag(&mut self) -> (r: Option<(Header, usize, usize)>)
        requires
            old(self).wf(),
        ensures
            final(self).wf(),
            old(self).state != FragState::Tx ==> r is None && *final(self) == *old(self),
            old(self).state == FragState::Tx ==> {
                &&& final(self).offset == old(self).offset + MAX_FRAG_SIZE
                &&& final(self).state == (if old(self).offset + MAX_FRAG_SIZE >= old(self).len {
                    FragState::Free
                } else {
                    FragState::Tx
                })
                &&& (r matches Some(f) && (f.0, f.1 as int, f.2 as int) == old(self).spec_frag(
                    old(self).offset as int / MAX_FRAG_SIZE as int,
                ))
                &&& final(self).len == old(self).len
                &&& final(self).addr == old(self).addr
                &&& final(self).tag == old(self).tag
                &&& final(self).header == old(self).header
                &&& final(self).buff == old(self).buff
                &&& final(self).timeout == old(self).timeout
            },
    {
        if !matches!(self.state, FragState::Tx) {
            return Option::None;
        }
        let r = self.frag(self.offset / MAX_FRAG_SIZE);
        self.offset += MAX_FRAG_SIZE;
        if self.offset >= self.len {
            self.state = FragState::Free;
        }
        Option::Some(r)
    }

    /// Copy out the fragment byte range produced by [`Self::frag`].
    pub fn frag_data(&self, offset: usize, len: usize) -> (r: Vec<u8>)
        requires
            offset + len <= self.buff@.len(),
        ensures
            r@ == self.buff@.subrange(offset as int, offset + len),
    {
        let mut out: Vec<u8> = Vec::new();
        let mut i: usize = 0;
        let n = self.buff.len();
        while i < len
            invariant
                i <= len,
                offset + len <= n == self.buff@.len(),
                out@ == self.buff@.subrange(offset as int, offset + i),
            decreases len - i,
        {
            assert(offset + i < n);
            out.push(self.buff[offset + i]);
            i += 1;
            proof {
                assert(out@ =~= self.buff@.subrange(offset as int, offset + i));
            }
        }
        out
    }

    /// Copy out the whole reassembled datagram.
    pub fn data(&self) -> (r: Vec<u8>)
        requires
            self.len <= self.buff@.len(),
        ensures
            r@ == self.buff@.subrange(0, self.len as int),
    {
        self.frag_data(0, self.len)
    }
}


/// The byte offset a fragment's headers place it at: eight times the
/// offset field, or zero for a first fragment or none at all.
pub open spec fn frag_byte_offset(h: Header) -> int {
    match h.frag {
        Option::Some(fh) => match fh.datagram_offset {
            Option::Some(o) => o * 8,
            Option::None => 0,
        },
        Option::None => 0,
    }
}

/// `b` with `d` written at offset `off`.
pub open spec fn spliced(b: Seq<u8>, off: int, d: Seq<u8>) -> Seq<u8>
    recommends
        0 <= off,
        off + d.len() <= b.len(),
{
    b.subrange(0, off) + d + b.subrange(off + d.len(), b.len() as int)
}

/// Adding a clear bit keeps a mask below its width bound.
proof fn lemma_set_bit_bounded(mask: int, i: nat, bound: nat)
    requires
        0 <= mask < pow2(bound),
        i < bound,
        mask / (pow2(i) as int) % 2 == 0,
    ensures
        mask + pow2(i) < pow2(bound),
{
    let p = pow2(i) as int;
    lemma_pow2_pos(i);
    let q = mask / p;
    let r = mask % p;
    vstd::arithmetic::div_mod::lemma_fundamental_div_mod(mask, p);
    vstd::arithmetic::power2::lemma_pow2_adds(i, (bound - i) as nat);
    let m = pow2((bound - i) as nat) as int;
    assert(mask < p * m);
    assert(0 <= r < p) by {
        vstd::arithmetic::div_mod::lemma_remainder_lower(mask, p);
        vstd::arithmetic::div_mod::lemma_remainder_upper(mask, p);
    }
    assert(q < m) by (nonlinear_arith)
        requires
            mask == p * q + r,
            0 <= r < p,
            mask < p * m,
            p > 0,
    ;
    lemma_pow2_unfold((bound - i) as nat);
    assert(m % 2 == 0);
    assert(q % 2 == 0);
    assert(q + 2 <= m);
    assert(mask + p == p * (q + 1) + r) by (nonlinear_arith)
        requires
            mask == p * q + r,
    ;
    assert(p * (q + 1) + r < p * (q + 2)) by (nonlinear_arith)
        requires
            0 <= r < p,
    ;
    assert(p * (q + 2) <= p * m) by (nonlinear_arith)
        requires
            q + 2 <= m,
            p > 0,
    ;
}

impl FragBuffer {
    /// Apply one received fragment to a reassembling slot: merge its
    /// headers, copy its bytes at the offset its fragmentation header
    /// names, and record its index in the completion bitmask. The return
    /// value, and the transition to [`FragState::Done`], come exactly
    /// when the bitmask reaches one bit per fragment of the datagram.
    /// A fragment whose bytes would overrun the buffer is dropped, with
    /// only the headers merged.
    pub fn update_rx(&mut self, header: &Header, data: &Vec<u8>) -> (done: bool)
        requires
            old(self).wf(),
            old(self).state == FragState::Rx,
            header.frag matches Some(fh) && fh.datagram_tag == old(self).tag,
            header_encodable(*header),
        ensures
            final(self).wf(),
            final(self).len == old(self).len,
            final(self).addr == old(self).addr,
            final(self).tag == old(self).tag,
            final(self).timeout == old(self).timeout,
            final(self).offset == (if frag_byte_offset(*header) + data@.len() <= IPV6_MTU {
                frag_byte_offset(*header)
            } else {
                old(self).offset as int
            }),
            done == (final(self).mask == full_mask(old(self).len as int)),
            final(self).state == (if done {
                FragState::Done
            } else {
                FragState::Rx
            }),
            final(self).header == (Header {
                frag: Option::None,
                ..(Header {
                    mesh: if old(self).header.mesh is None {
                        header.mesh
                    } else {
                        old(self).header.mesh
                    },
                    bcast: if old(self).header.bcast is None {
                        header.bcast
                    } else {
                        old(self).header.bcast
                    },
                    frag: old(self).header.frag,
                    hc1: if old(self).header.hc1 is None {
                        header.hc1
                    } else {
                        old(self).header.hc1
                    },
                })
            }),
            frag_byte_offset(*header) + data@.len() <= IPV6_MTU ==> final(self).buff@ == spliced(
                old(self).buff@,
                frag_byte_offset(*header),
                data@,
            ) && final(self).mask == mask_with_bit(
                old(self).mask,
                (frag_byte_offset(*header) / (MAX_FRAG_SIZE as int)) as nat,
            ),
            frag_byte_offset(*header) + data@.len() > IPV6_MTU ==> final(self).buff@ == old(
                self,
            ).buff@ && final(self).mask == old(self).mask,
    {
        self.header.merge(header);
        self.header.frag = Option::None;

        let foff: usize = match &header.frag {
            Option::Some(fh) => match fh.datagram_offset {
                Option::Some(o) => o as usize * 8,
                Option::None => 0,
            },
            Option::None => 0,
        };
        if foff > IPV6_MTU || data.len() > IPV6_MTU - foff {
            proof {
                assert(self.mask != full_mask(self.len as int));
            }
            return false;
        }

        let mut j: usize = 0;
        let ghost buff0 = self.buff@;
        let ghost pre = *self;
        while j < data.len()
            invariant
                j <= data@.len(),
                foff + data@.len() <= IPV6_MTU,
                buff0.len() == IPV6_MTU,
                self.buff@.len() == IPV6_MTU,
                self.buff@ == buff0.subrange(0, foff as int) + data@.subrange(0, j as int)
                    + buff0.subrange(foff + j, IPV6_MTU as int),
                self.state == pre.state,
                self.header == pre.header,
                self.addr == pre.addr,
                self.tag == pre.tag,
                self.len == pre.len,
                self.mask == pre.mask,
                self.timeout == pre.timeout,
                self.offset == pre.offset,
            decreases data@.len() - j,
        {
            self.buff.set(foff + j, data[j]);
            j += 1;
            proof {
                assert(self.buff@ =~= buff0.subrange(0, foff as int) + data@.subrange(0, j as int)
                    + buff0.subrange(foff + j, IPV6_MTU as int));
            }
        }
        proof {
            assert(data@.subrange(0, data@.len() as int) =~= data@);
            assert(self.buff@ =~= spliced(buff0, foff as int, data@));
            assert(self.mask == old(self).mask);
            assert(self.len == old(self).len);
        }
        self.offset = foff;

        let index = foff / MAX_FRAG_SIZE;
        proof {
            assert(index < 21);
        }
        let p = pow2_u32(index);
        proof {
            lemma_pow2_pos(index as nat);
        }
        if self.mask / p % 2 == 0 {
            proof {
                assert(self.mask < pow2(21));
                lemma_set_bit_bounded(self.mask as int, index as nat, 21);
                lemma_pow2_strictly_increases(21, 32);
                lemma2_to64();
            }
            self.mask = self.mask + p;
        }

        let nf = self.num_frags();
        proof {
            lemma_pow2_pos(nf as nat);
        }
        let check = pow2_u32(nf) - 1;
        if self.mask == check {
            self.state = FragState::Done;
            true
        } else {
            false
        }
    }

    /// Start reassembling from a first-seen fragment of a datagram from
    /// `source`. The datagram size must be positive and fit the MTU; the
    /// caller checks both before allocating a slot.
    pub fn init_rx(source: Address, header: &Header, data: &Vec<u8>) -> (r: FragBuffer)
        requires
            header.frag matches Some(fh) && 1 <= fh.datagram_size <= IPV6_MTU,
            header_encodable(*header),
        ensures
            r.wf(),
            r.state == (if r.mask == full_mask(r.len as int) {
                FragState::Done
            } else {
                FragState::Rx
            }),
            r.addr == source,
            r.tag == header.frag.unwrap().datagram_tag,
            r.len == header.frag.unwrap().datagram_size,
            r.timeout == 0,
            r.header == (Header { frag: Option::None, ..*header }),
            frag_byte_offset(*header) + data@.len() <= IPV6_MTU ==> r.mask == mask_with_bit(
                0,
                (frag_byte_offset(*header) / (MAX_FRAG_SIZE as int)) as nat,
            ) && r.buff@.subrange(
                frag_byte_offset(*header),
                frag_byte_offset(*header) + data@.len(),
            ) == data@,
    {
        let fh_tag;
        let fh_size;
        match &header.frag {
            Option::Some(fh) => {
                fh_tag = fh.datagram_tag;
                fh_size = fh.datagram_size;
            },
            Option::None => {
                proof {
                    assert(false);
                }
                fh_tag = 0;
                fh_size = 0;
            },
        }
        let mut r = FragBuffer::empty();
        r.state = FragState::Rx;
        r.header = *header;
        r.addr = source;
        r.tag = fh_tag;
        r.len = fh_size as usize;
        proof {
            let nf = spec_num_frags(r.len as int);
            assert(1 <= nf <= 20);
            lemma_pow2_pos(21);
            lemma_pow2_strictly_increases(0, nf as nat);
            lemma2_to64();
            assert(full_mask(r.len as int) >= 1);
            assert(r.wf());
        }
        let done = r.update_rx(header, data);
        let _ = done;
        r
    }
}



/// Options steering [`Frag::poll`].
#[derive(Clone, Copy, Debug, PartialEq, Eq, Structural)]
pub struct PollOptions {
    /// Whether a fragment may be emitted at all.
    pub can_tx: bool,
    /// Only emit fragments for this destination; absent means any.
    pub tx_addr: Address,
}

impl Default for PollOptions {
    /// Transmission allowed, to any destination.
    fn default() -> (r: PollOptions)
        ensures
            r == (PollOptions { can_tx: true, tx_addr: Address::Absent }),
    {
        PollOptions { can_tx: true, tx_addr: Address::Absent }
    }
}

/// A slot after the timeout pass at `now`: an occupied slot whose expiry
/// time has passed is freed, every other slot is untouched.
pub open spec fn expired_slot(b: FragBuffer, now: Ts) -> FragBuffer {
    if b.state != FragState::Free && b.timeout != 0 && now > b.timeout {
        FragBuffer { state: FragState::Free, ..b }
    } else {
        b
    }
}

/// All slots after the timeout pass at `now`.
pub open spec fn expired(bufs: Seq<FragBuffer>, now: Ts) -> Seq<FragBuffer> {
    Seq::new(bufs.len(), |i: int| expired_slot(bufs[i], now))
}

/// Whether slot `b` is the reassembly collecting fragments of the
/// datagram tagged `tag` from `src`.
pub open spec fn rx_slot_matches(b: FragBuffer, src: Address, tag: u16) -> bool {
    b.state == FragState::Rx && b.tag == tag && b.addr == src
}

/// Whether `opts` lets a fragment of slot `b` out.
pub open spec fn slot_eligible(b: FragBuffer, opts: PollOptions) -> bool {
    &&& b.state == FragState::Tx
    &&& opts.can_tx
    &&& (opts.tx_addr == Address::Absent || opts.tx_addr == b.addr)
}

/// Fragmentation manager: four slots shared between outgoing datagrams
/// being split and incoming ones being reassembled.
#[derive(Debug)]
pub struct Frag {
    /// Timeouts applied to newly filled slots.
    pub config: FragConfig,
    /// Tag handed to the next outgoing datagram; wraps around.
    pub tag: u16,
    /// The slots.
    pub buffs: Vec<FragBuffer>,
}

impl Frag {
    /// All four slots present and each internally consistent.
    pub open spec fn wf(&self) -> bool {
        &&& self.buffs@.len() == FRAG_SLOTS
        &&& forall|i: int| #![trigger self.buffs@[i]] 0 <= i < FRAG_SLOTS ==> self.buffs@[i].wf()
    }

    /// The slots, for contracts.
    pub open spec fn slots(&self) -> Seq<FragBuffer> {
        self.buffs@
    }

    /// The tag the next outgoing datagram will carry.
    pub open spec fn spec_tag(&self) -> u16 {
        self.tag
    }

    /// Create a fragmentation manager with every slot free.
    pub fn new(config: FragConfig) -> (r: Frag)
        ensures
            r.wf(),
            r.spec_tag() == 0,
            forall|i: int|
                #![trigger r.slots()[i]]
                0 <= i < FRAG_SLOTS ==> r.slots()[i].state == FragState::Free,
    {
        let mut buffs: Vec<FragBuffer> = Vec::new();
        let mut i: usize = 0;
        while i < FRAG_SLOTS
            invariant
                i <= FRAG_SLOTS,
                buffs@.len() == i,
                forall|j: int|
                    #![trigger buffs@[j]]
                    0 <= j < i ==> buffs@[j].wf() && buffs@[j].state == FragState::Free,
            decreases FRAG_SLOTS - i,
        {
            buffs.push(FragBuffer::empty());
            i += 1;
        }
        Frag { config, tag: 0, buffs }
    }

    /// Queue a datagram for fragmented transmission to `dest`: the first
    /// free slot takes a copy of it, armed with the transmit timeout, and
    /// the tag counter advances. With no free slot the datagram is
    /// refused as back-pressure.
    pub fn transmit<E>(&mut self, now_ms: Ts, dest: Address, hdr: Header, d: &Vec<u8>) -> (r:
        Result<(), SixLoError<E>>)
        requires
            old(self).wf(),
            d@.len() <= IPV6_MTU,
            crate::sixlo::headers::header_encodable(hdr),
        ensures
            final(self).wf(),
            final(self).config == old(self).config,
            r is Ok <==> exists|i: int|
                0 <= i < FRAG_SLOTS && #[trigger] old(self).slots()[i].state == FragState::Free,
            r is Err ==> *final(self) == *old(self) && (r matches Err(e) && e
                == SixLoError::<E>::NoTxFragSlots),
            r is Ok ==> final(self).spec_tag() == old(self).spec_tag().wrapping_add(1)
                && exists|i: int|
                {
                    &&& 0 <= i < FRAG_SLOTS
                    &&& #[trigger] old(self).slots()[i].state == FragState::Free
                    &&& forall|j: int|
                        #![trigger old(self).slots()[j]]
                        0 <= j < i ==> old(self).slots()[j].state != FragState::Free
                    &&& final(self).slots() == old(self).slots().update(
                        i,
                        final(self).slots()[i],
                    )
                    &&& final(self).slots()[i].state == FragState::Tx
                    &&& final(self).slots()[i].addr == dest
                    &&& final(self).slots()[i].tag == old(self).spec_tag()
                    &&& final(self).slots()[i].len == d@.len()
                    &&& final(self).slots()[i].offset == 0
                    &&& final(self).slots()[i].mask == 0
                    &&& final(self).slots()[i].header == (Header { frag: Option::None, ..hdr })
                    &&& final(self).slots()[i].timeout == crate::wire::sat_add(
                        now_ms,
                        old(self).config.frag_tx_timeout_ms,
                    )
                    &&& final(self).slots()[i].buff@.subrange(0, d@.len() as int) == d@
                },
    {
        let mut i: usize = 0;
        while i < FRAG_SLOTS
            invariant
                i <= FRAG_SLOTS,
                self.wf(),
                forall|j: int|
                    #![trigger self.slots()[j]]
                    0 <= j < i ==> self.slots()[j].state != FragState::Free,
                *self == *old(self),
                d@.len() <= IPV6_MTU,
                crate::sixlo::headers::header_encodable(hdr),

            decreases FRAG_SLOTS - i,
        {
            if matches!(self.buffs[i].state, FragState::Free) {
                let mut slot = FragBuffer::init_tx(dest, hdr, self.tag, d);
                slot.timeout = crate::wire::saturating_add(now_ms, self.config.frag_tx_timeout_ms);
                let old_slot = self.buffs.remove(i);
                let _ = old_slot;
                self.buffs.insert(i, slot);
                self.tag = self.tag.wrapping_add(1);
                proof {
                    assert(final(self).slots() =~= old(self).slots().update(
                        i as int,
                        final(self).slots()[i as int],
                    ));
                }
                return Ok(());
            }
            i += 1;
        }
        Err(SixLoError::NoTxFragSlots)
    }

    /// Deliver the next complete datagram, freeing its slot: the peer
    /// address, its headers, and the datagram bytes.
    pub fn pop(&mut self) -> (r: Option<(Address, Header, Vec<u8>)>)
        requires
            old(self).wf(),
        ensures
            final(self).wf(),
            final(self).config == old(self).config,
            final(self).spec_tag() == old(self).spec_tag(),
            r is None ==> *final(self) == *old(self) && forall|i: int|
                #![trigger old(self).slots()[i]]
                0 <= i < FRAG_SLOTS ==> old(self).slots()[i].state != FragState::Done,
            r matches Some((a, h, d)) ==> exists|i: int|
                {
                    &&& 0 <= i < FRAG_SLOTS
                    &&& #[trigger] old(self).slots()[i].state == FragState::Done
                    &&& forall|j: int|
                        #![trigger old(self).slots()[j]]
                        0 <= j < i ==> old(self).slots()[j].state != FragState::Done
                    &&& a == old(self).slots()[i].addr
                    &&& h == old(self).slots()[i].header
                    &&& d@ == old(self).slots()[i].buff@.subrange(
                        0,
                        old(self).slots()[i].len as int,
                    )
                    &&& final(self).slots() == old(self).slots().update(
                        i,
                        FragBuffer { state: FragState::Free, ..old(self).slots()[i] },
                    )
                },
    {
        let mut i: usize = 0;
        while i < FRAG_SLOTS
            invariant
                i <= FRAG_SLOTS,
                self.wf(),
                *self == *old(self),
                forall|j: int|
                    #![trigger self.slots()[j]]
                    0 <= j < i ==> self.slots()[j].state != FragState::Done,
            decreases FRAG_SLOTS - i,
        {
            if matches!(self.buffs[i].state, FragState::Done) {
                proof {
                    assert(self.buffs@[i as int].wf());
                }
                let mut slot = self.buffs.remove(i);
                slot.state = FragState::Free;
                let addr = slot.addr;
                let header = slot.header;
                let d = slot.data();
                self.buffs.insert(i, slot);
                proof {
                    assert(final(self).slots() =~= old(self).slots().update(
                        i as int,
                        FragBuffer { state: FragState::Free, ..old(self).slots()[i as int] },
                    ));
                }
                return Option::Some((addr, header, d));
            }
            i += 1;
        }
        Option::None
    }
}



impl Frag {
    /// File `fb` into the first free slot; with none left the caller gets
    /// back-pressure.
    fn push<E>(&mut self, fb: FragBuffer) -> (r: Result<usize, SixLoError<E>>)
        requires
            old(self).wf(),
            fb.wf(),
        ensures
            final(self).wf(),
            final(self).config == old(self).config,
            final(self).spec_tag() == old(self).spec_tag(),
            r is Ok <==> exists|i: int|
                #![trigger old(self).slots()[i]]
                0 <= i < FRAG_SLOTS && old(self).slots()[i].state == FragState::Free,
            r matches Err(e) ==> *final(self) == *old(self) && e == SixLoError::<
                E,
            >::NoTxFragSlots,
            r matches Ok(i) ==> 0 <= i < FRAG_SLOTS && old(self).slots()[i as int].state
                == FragState::Free && (forall|j: int|
                #![trigger old(self).slots()[j]]
                0 <= j < i ==> old(self).slots()[j].state != FragState::Free)
                && final(self).slots() == old(self).slots().update(i as int, fb),
    {
        let mut i: usize = 0;
        while i < FRAG_SLOTS
            invariant
                i <= FRAG_SLOTS,
                self.wf(),
                *self == *old(self),
                fb.wf(),
                forall|j: int|
                    #![trigger self.slots()[j]]
                    0 <= j < i ==> self.slots()[j].state != FragState::Free,
            decreases FRAG_SLOTS - i,
        {
            if matches!(self.buffs[i].state, FragState::Free) {
                let old_slot = self.buffs.remove(i);
                let _ = old_slot;
                self.buffs.insert(i, fb);
                proof {
                    assert(final(self).slots() =~= old(self).slots().update(i as int, fb));
                }
                return Ok(i);
            }
            i += 1;
        }
        Err(SixLoError::NoTxFragSlots)
    }

    /// Take in one received fragment, or a whole unfragmented datagram,
    /// from `src`. An unfragmented datagram fills a slot already
    /// complete. A fragment joins the reassembly matching its source and
    /// tag, or starts a new one armed with the receive timeout; a
    /// fragment announcing an empty or over-MTU datagram is dropped.
    /// With every slot taken the datagram is refused as back-pressure.
    pub fn receive<E>(&mut self, now_ms: Ts, src: Address, hdr: &Header, d: &Vec<u8>) -> (r:
        Result<(), SixLoError<E>>)
        requires
            old(self).wf(),
            d@.len() <= IPV6_MTU,
            crate::sixlo::headers::header_encodable(*hdr),
        ensures
            final(self).wf(),
            final(self).config == old(self).config,
            final(self).spec_tag() == old(self).spec_tag(),
            r matches Err(e) ==> *final(self) == *old(self) && e == SixLoError::<
                E,
            >::NoTxFragSlots,
            hdr.frag is None && r is Ok ==> exists|i: int|
                #![trigger old(self).slots()[i]]
                {
                    &&& 0 <= i < FRAG_SLOTS
                    &&& old(self).slots()[i].state == FragState::Free
                    &&& final(self).slots() == old(self).slots().update(
                        i,
                        final(self).slots()[i],
                    )
                    &&& final(self).slots()[i].state == FragState::Done
                    &&& final(self).slots()[i].addr == src
                    &&& final(self).slots()[i].header == *hdr
                    &&& final(self).slots()[i].len == d@.len()
                    &&& final(self).slots()[i].buff@.subrange(0, d@.len() as int) == d@
                },
            hdr.frag is None ==> (r is Ok <==> exists|i: int|
                #![trigger old(self).slots()[i]]
                0 <= i < FRAG_SLOTS && old(self).slots()[i].state == FragState::Free),
            hdr.frag matches Some(fh) && (fh.datagram_size == 0 || fh.datagram_size > IPV6_MTU)
                ==> r is Ok && *final(self) == *old(self),
            hdr.frag matches Some(fh) && 1 <= fh.datagram_size <= IPV6_MTU && (exists|i: int|
                #![trigger old(self).slots()[i]]
                0 <= i < FRAG_SLOTS && rx_slot_matches(old(self).slots()[i], src, fh.datagram_tag))
                ==> r is Ok && exists|i: int|
                #![trigger old(self).slots()[i]]
                {
                    &&& 0 <= i < FRAG_SLOTS
                    &&& rx_slot_matches(old(self).slots()[i], src, hdr.frag.unwrap().datagram_tag)
                    &&& forall|j: int|
                        #![trigger old(self).slots()[j]]
                        0 <= j < i ==> !rx_slot_matches(old(self).slots()[j], src, hdr.frag.unwrap().datagram_tag)
                    &&& final(self).slots() == old(self).slots().update(
                        i,
                        final(self).slots()[i],
                    )
                    &&& final(self).slots()[i].len == old(self).slots()[i].len
                    &&& final(self).slots()[i].addr == src
                    &&& final(self).slots()[i].tag == hdr.frag.unwrap().datagram_tag
                    &&& final(self).slots()[i].timeout == old(self).slots()[i].timeout
                    &&& final(self).slots()[i].state == (if final(self).slots()[i].mask
                        == full_mask(old(self).slots()[i].len as int) {
                        FragState::Done
                    } else {
                        FragState::Rx
                    })
                    &&& frag_byte_offset(*hdr) + d@.len() <= IPV6_MTU ==> final(self).slots()[
                        i
                    ].mask == mask_with_bit(
                        old(self).slots()[i].mask,
                        (frag_byte_offset(*hdr) / (MAX_FRAG_SIZE as int)) as nat,
                    ) && final(self).slots()[i].buff@ == spliced(
                        old(self).slots()[i].buff@,
                        frag_byte_offset(*hdr),
                        d@,
                    )
                },
            hdr.frag matches Some(fh) && 1 <= fh.datagram_size <= IPV6_MTU && (forall|i: int|
                #![trigger old(self).slots()[i]]
                0 <= i < FRAG_SLOTS ==> !rx_slot_matches(
                    old(self).slots()[i],
                    src,
                    fh.datagram_tag,
                )) ==> {
                &&& (r is Ok <==> exists|i: int|
                    #![trigger old(self).slots()[i]]
                    0 <= i < FRAG_SLOTS && old(self).slots()[i].state == FragState::Free)
                &&& r is Ok ==> exists|i: int|
                    #![trigger old(self).slots()[i]]
                    {
                        &&& 0 <= i < FRAG_SLOTS
                        &&& old(self).slots()[i].state == FragState::Free
                        &&& forall|j: int|
                            #![trigger old(self).slots()[j]]
                            0 <= j < i ==> old(self).slots()[j].state != FragState::Free
                        &&& final(self).slots() == old(self).slots().update(
                            i,
                            final(self).slots()[i],
                        )
                        &&& final(self).slots()[i].addr == src
                        &&& final(self).slots()[i].tag == hdr.frag.unwrap().datagram_tag
                        &&& final(self).slots()[i].len == hdr.frag.unwrap().datagram_size
                        &&& final(self).slots()[i].timeout == crate::wire::sat_add(
                            now_ms,
                            old(self).config.frag_rx_timeout_ms,
                        )
                        &&& final(self).slots()[i].state == (if final(self).slots()[i].mask
                            == full_mask(hdr.frag.unwrap().datagram_size as int) {
                            FragState::Done
                        } else {
                            FragState::Rx
                        })
                        &&& frag_byte_offset(*hdr) + d@.len() <= IPV6_MTU
                            ==> final(self).slots()[i].mask == mask_with_bit(
                            0,
                            (frag_byte_offset(*hdr) / (MAX_FRAG_SIZE as int)) as nat,
                        ) && final(self).slots()[i].buff@.subrange(
                            frag_byte_offset(*hdr),
                            frag_byte_offset(*hdr) + d@.len(),
                        ) == d@
                    }
            },
    {
        let has_frag = hdr.frag.is_some();
        if !has_frag {
            let fb = FragBuffer::init_done(src, hdr, d);
            return match self.push(fb) {
                Ok(_) => Ok(()),
                Err(e) => Err(e),
            };
        }
        let (fh_tag, fh_size) = match &hdr.frag {
            Option::Some(fh) => (fh.datagram_tag, fh.datagram_size),
            Option::None => {
                proof {
                    assert(false);
                }
                (0u16, 0u16)
            },
        };
        if fh_size == 0 || fh_size as usize > IPV6_MTU {
            // An empty or oversized announced datagram can never complete;
            // drop the fragment rather than tie a slot to it.
            return Ok(());
        }

        // Merge into an existing reassembly for this source and tag.
        let mut i: usize = 0;
        while i < FRAG_SLOTS
            invariant
                i <= FRAG_SLOTS,
                self.wf(),
                *self == *old(self),
                hdr.frag matches Some(fh) && fh.datagram_tag == fh_tag && fh.datagram_size
                    == fh_size,
                1 <= fh_size <= IPV6_MTU,
                crate::sixlo::headers::header_encodable(*hdr),
                d@.len() <= IPV6_MTU,
                forall|j: int|
                    #![trigger self.slots()[j]]
                    0 <= j < i ==> !rx_slot_matches(self.slots()[j], src, fh_tag),
            decreases FRAG_SLOTS - i,
        {
            let matches_slot = matches!(self.buffs[i].state, FragState::Rx) && self.buffs[i].tag
                == fh_tag && self.buffs[i].addr == src;
            if matches_slot {
                proof {
                    assert(self.buffs@[i as int].wf());
                }
                let mut slot = self.buffs.remove(i);
                let done = slot.update_rx(hdr, d);
                let _ = done;
                self.buffs.insert(i, slot);
                proof {
                    assert(forall|j: int|
                        #![trigger final(self).buffs@[j]]
                        0 <= j < FRAG_SLOTS ==> final(self).buffs@[j].wf());
                }
                return Ok(());
            }
            i += 1;
        }

        // First fragment seen of a new datagram: start a reassembly.
        let mut fb = FragBuffer::init_rx(src, hdr, d);
        fb.timeout = crate::wire::saturating_add(now_ms, self.config.frag_rx_timeout_ms);
        match self.push(fb) {
            Ok(_) => Ok(()),
            Err(e) => Err(e),
        }
    }

    /// Free every expired slot, then emit the next fragment of a
    /// transmitting slot that passes `opts`: its destination, the headers
    /// of this fragment, and the fragment bytes. The emitting slot's
    /// cursor advances; past the datagram end the slot frees itself.
    pub fn poll(&mut self, now_ms: Ts, opts: PollOptions) -> (r: Option<(Address, Header, Vec<u8>)>)
        requires
            old(self).wf(),
        ensures
            final(self).wf(),
            final(self).config == old(self).config,
            final(self).spec_tag() == old(self).spec_tag(),
            r is None ==> final(self).slots() == expired(old(self).slots(), now_ms) && forall|
                i: int,
            |
                #![trigger expired(old(self).slots(), now_ms)[i]]
                0 <= i < FRAG_SLOTS ==> !slot_eligible(
                    expired(old(self).slots(), now_ms)[i],
                    opts,
                ),
            r matches Some((a, h, d)) ==> exists|i: int|
                #![trigger expired(old(self).slots(), now_ms)[i]]
                {
                    let mid = expired(old(self).slots(), now_ms);
                    let slot = mid[i];
                    let frag = slot.spec_frag(slot.offset as int / MAX_FRAG_SIZE as int);
                    &&& 0 <= i < FRAG_SLOTS
                    &&& slot_eligible(slot, opts)
                    &&& a == slot.addr
                    &&& h == frag.0
                    &&& d@ == slot.buff@.subrange(frag.1, frag.1 + frag.2)
                    &&& d@.len() <= MAX_FRAG_SIZE
                    &&& final(self).slots() == mid.update(i, final(self).slots()[i])
                    &&& final(self).slots()[i].offset == slot.offset + MAX_FRAG_SIZE
                    &&& final(self).slots()[i].timeout == slot.timeout
                    &&& final(self).slots()[i].state == (if slot.offset + MAX_FRAG_SIZE
                        >= slot.len {
                        FragState::Free
                    } else {
                        FragState::Tx
                    })
                },
            r matches Some((a, h, d)) ==> crate::sixlo::headers::header_encodable(h) && d@.len()
                <= MAX_FRAG_SIZE,
    {
        let ghost orig = self.buffs@;

        // Timeout pass: free every slot whose expiry has passed.
        let mut i: usize = 0;
        while i < FRAG_SLOTS
            invariant
                i <= FRAG_SLOTS,
                self.wf(),
                self.config == old(self).config,
                self.tag == old(self).tag,
                orig == old(self).buffs@,
                self.buffs@.len() == FRAG_SLOTS,
                forall|j: int|
                    #![trigger self.buffs@[j]]
                    0 <= j < i ==> self.buffs@[j] == expired_slot(orig[j], now_ms),
                forall|j: int|
                    #![trigger self.buffs@[j]]
                    i <= j < FRAG_SLOTS ==> self.buffs@[j] == orig[j],
            decreases FRAG_SLOTS - i,
        {
            let expired_now = !matches!(self.buffs[i].state, FragState::Free) && self.buffs[i].timeout
                != 0 && now_ms > self.buffs[i].timeout;
            if expired_now {
                let mut slot = self.buffs.remove(i);
                slot.state = FragState::Free;
                self.buffs.insert(i, slot);
            }
            i += 1;
        }
        proof {
            assert(self.buffs@ =~= expired(old(self).slots(), now_ms));
        }

        // Emission pass: advance the first eligible transmitting slot.
        let ghost mid = self.buffs@;
        let mut i: usize = 0;
        while i < FRAG_SLOTS
            invariant
                i <= FRAG_SLOTS,
                self.wf(),
                self.config == old(self).config,
                self.tag == old(self).tag,
                mid == expired(old(self).slots(), now_ms),
                self.buffs@ == mid,
                forall|j: int| #![trigger mid[j]] 0 <= j < i ==> !slot_eligible(mid[j], opts),
            decreases FRAG_SLOTS - i,
        {
            let eligible = matches!(self.buffs[i].state, FragState::Tx) && opts.can_tx && (matches!(
                opts.tx_addr,
                Address::Absent,
            ) || opts.tx_addr == self.buffs[i].addr);
            if eligible {
                proof {
                    assert(self.buffs@[i as int].wf());
                    assert(expired(old(self).slots(), now_ms)[i as int] == expired_slot(
                        old(self).slots()[i as int],
                        now_ms,
                    ));
                    assert(self.buffs@[i as int].offset % MAX_FRAG_SIZE == 0);
                    assert(self.buffs@[i as int].offset <= self.buffs@[i as int].len);
                }
                let mut slot = self.buffs.remove(i);
                let addr = slot.addr;
                let ghost pre_slot = slot;
                let frag = match slot.next_frag() {
                    Option::Some(f) => f,
                    Option::None => {
                        proof {
                            assert(false);
                        }
                        (Header::empty(), 0usize, 0usize)
                    },
                };
                let (h, off, flen) = frag;
                let d = slot.frag_data(off, flen);
                self.buffs.insert(i, slot);
                proof {
                    assert(final(self).slots() =~= mid.update(i as int, final(self).slots()[i as int]));
                }
                return Option::Some((addr, h, d));
            }
            i += 1;
        }
        Option::None
    }
}

/// A transmitting slot is freed by exactly the `ceil(len / MAX_FRAG_SIZE)`-th
/// fragment emission: after `k` emissions the cursor stands at
/// `k * MAX_FRAG_SIZE`, each emission advances it one fragment, and the
/// emission that frees the slot is the one taking the cursor to or past
/// the datagram end, which for a non-empty datagram is emission number
/// `ceil(len / MAX_FRAG_SIZE)` precisely.
pub proof fn lemma_tx_slot_frees_at_ceil(len: int, k: int)
    requires
        1 <= len,
        0 <= k,
    ensures
        (k + 1) * MAX_FRAG_SIZE >= len <==> k + 1 >= spec_num_frags(len),
        (k + 1) * MAX_FRAG_SIZE >= len && k * MAX_FRAG_SIZE < len <==> k + 1 == spec_num_frags(
            len,
        ),
{
    let m = MAX_FRAG_SIZE as int;
    assert((k + 1) * m == k * m + m) by (nonlinear_arith);
    assert(spec_num_frags(len) == (len + m - 1) / m);
    assert((k + 1) * m >= len <==> k + 1 >= (len + m - 1) / m) by (nonlinear_arith)
        requires
            m == 64,
            1 <= len,
            0 <= k,
    ;
    assert(k * m < len <==> k < (len + m - 1) / m) by (nonlinear_arith)
        requires
            m == 64,
            1 <= len,
            0 <= k,
    ;
}


} // verus!

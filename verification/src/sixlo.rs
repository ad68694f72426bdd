//! 6LoWPAN adaptation layer: header codecs, datagram fragmentation and
//! the stack orchestrator joining them to the MAC.

pub mod frag;
pub mod headers;

use vstd::prelude::*;

use crate::address::Address;
use crate::mac_802154::packet::MAX_PAYLOAD_LEN;
use crate::sixlo::frag::{Frag, PollOptions};
use crate::sixlo::headers::{header_encodable, lemma_header_block_len, Header};
use crate::{Mac, Ts};

verus! {

/// Largest datagram the stack carries: the IPv6 minimum MTU.
pub const IPV6_MTU: usize = 1280;

/// Default fragment payload size.
pub const DEFAULT_FRAG_SIZE: usize = 64;

/// Errors of the 6LoWPAN layer; `M` is the MAC's error type.
#[derive(Clone, Copy, Debug, PartialEq, Eq, Structural)]
pub enum SixLoError<M> {
    /// The MAC below failed.
    Mac(M),
    /// No free fragmentation slot for a new datagram.
    NoTxFragSlots,
}

/// 6LoWPAN layer configuration.
#[derive(Clone, Copy, Debug, PartialEq, Eq, Structural)]
pub struct SixLoConfig {
    /// Fragmentation timeouts.
    pub frag: frag::FragConfig,
}

impl Default for SixLoConfig {
    /// Default fragmentation timeouts.
    fn default() -> (r: SixLoConfig)
        ensures
            r == (SixLoConfig { frag: frag::FragConfig { frag_rx_timeout_ms: 10_000, frag_tx_timeout_ms: 10_000 } }),
    {
        SixLoConfig { frag: frag::FragConfig { frag_rx_timeout_ms: 10_000, frag_tx_timeout_ms: 10_000 } }
    }
}


/// 6LoWPAN stack: a thin orchestrator joining the MAC below to the
/// fragmentation manager, driven by a periodic tick.
pub struct SixLo<M> {
    /// Layer configuration.
    pub cfg: SixLoConfig,
    /// The MAC below.
    pub mac: M,
    /// This node's own MAC address.
    pub mac_addr: Address,
    /// Fragmentation manager.
    pub frag: Frag,
}

impl<M: Mac> SixLo<M> {
    /// The MAC's own invariant and the fragmentation slots' hold.
    pub open spec fn wf(&self) -> bool {
        &&& self.mac.inv()
        &&& self.frag.wf()
    }

    /// Create a 6LoWPAN stack over `mac` with this node's address.
    pub fn new(mac: M, addr: Address, cfg: SixLoConfig) -> (r: SixLo<M>)
        requires
            mac.inv(),
        ensures
            r.wf(),
            r.mac_addr == addr,
            r.cfg == cfg,
    {
        let frag = Frag::new(frag::FragConfig {
            frag_rx_timeout_ms: cfg.frag.frag_rx_timeout_ms,
            frag_tx_timeout_ms: cfg.frag.frag_tx_timeout_ms,
        });
        SixLo { cfg, mac, mac_addr: addr, frag }
    }

    /// Borrow the MAC below.
    pub fn mac(&self) -> (r: &M)
        ensures
            r == &self.mac,
    {
        &self.mac
    }

    /// Take in one payload received by the MAC: strip the 6LoWPAN
    /// headers and hand the fragment, or whole datagram, to reassembly.
    /// Payloads that do not parse are dropped.
    fn handle_rx(&mut self, now_ms: Ts, source: Address, data: &Vec<u8>) -> (r: Result<
        (),
        SixLoError<M::Error>,
    >)
        requires
            old(self).wf(),
            data@.len() <= MAX_PAYLOAD_LEN,
        ensures
            final(self).wf(),
            final(self).mac == old(self).mac,
            r matches Err(e) ==> e == SixLoError::<M::Error>::NoTxFragSlots,
    {
        let (hdr, offset) = match Header::decode(data) {
            Ok(v) => v,
            Err(_e) => {
                return Ok(());
            },
        };
        let mut payload: Vec<u8> = Vec::new();
        let mut i: usize = offset;
        let n = data.len();
        while i < n
            invariant
                offset <= i <= n == data@.len(),
                payload@ == data@.subrange(offset as int, i as int),
            decreases n - i,
        {
            payload.push(data[i]);
            i += 1;
            proof {
                assert(payload@ =~= data@.subrange(offset as int, i as int));
            }
        }
        self.frag.receive(now_ms, source, &hdr, &payload)
    }

    /// One cooperative step at `now_ms`: advance the MAC, take in
    /// anything it received, and emit the next pending fragment when the
    /// MAC can take one, asking for an acknowledgement on unicast
    /// destinations. MAC errors propagate; a full fragmentation table
    /// drops the received datagram's slot request.
    pub fn tick(&mut self, now_ms: Ts) -> (r: Result<(), SixLoError<M::Error>>)
        requires
            old(self).wf(),
        ensures
            final(self).wf(),
            r matches Err(e) ==> e is Mac,
            r is Ok ==> forall|i: int|
                #![trigger final(self).frag.slots()[i]]
                0 <= i < frag::FRAG_SLOTS ==> (final(self).frag.slots()[i].state
                    != frag::FragState::Free ==> !(final(self).frag.slots()[i].timeout != 0
                    && now_ms > final(self).frag.slots()[i].timeout)),
    {
        match self.mac.tick() {
            Ok(()) => {},
            Err(e) => {
                return Err(SixLoError::Mac(e));
            },
        }

        // Take in a received payload, if any.
        let mut buff: Vec<u8> = Vec::new();
        match self.mac.receive(&mut buff) {
            Ok(Option::Some((_n, info))) => {
                match self.handle_rx(now_ms, info.source, &buff) {
                    Ok(()) => {},
                    Err(_e) => {
                        // No slot left for the datagram: drop it and go on.
                    },
                }
            },
            Ok(Option::None) => {},
            Err(e) => {
                return Err(SixLoError::Mac(e));
            },
        }

        // Emit the next fragment when the MAC can take one.
        let can_tx = match self.mac.can_transmit() {
            Ok(can_tx) => can_tx,
            Err(e) => {
                return Err(SixLoError::Mac(e));
            },
        };
        let opts = PollOptions { can_tx, tx_addr: Address::Absent };
        match self.frag.poll(now_ms, opts) {
            Option::Some((dest, hdr, data)) => {
                let ack = dest.is_unicast();
                let mut out: Vec<u8> = Vec::new();
                proof {
                    lemma_header_block_len(hdr);
                }
                let n = hdr.encode(&mut out);
                let _ = n;
                let mut i: usize = 0;
                let dn = data.len();
                let ghost head = out@;
                while i < dn
                    invariant
                        i <= dn == data@.len(),
                        out@ == head + data@.subrange(0, i as int),
                    decreases dn - i,
                {
                    out.push(data[i]);
                    i += 1;
                    proof {
                        assert(out@ =~= head + data@.subrange(0, i as int));
                    }
                }
                proof {
                    assert(out@.len() <= MAX_PAYLOAD_LEN);
                }
                match self.mac.transmit(dest, &out, ack) {
                    Ok(()) => {},
                    Err(e) => {
                        return Err(SixLoError::Mac(e));
                    },
                }
            },
            Option::None => {},
        }
        Ok(())
    }

    /// Queue a datagram for `dest`: one that fits a single MAC payload
    /// goes straight to the MAC behind an empty header block, a longer
    /// one enters the fragmentation manager; unicast destinations are
    /// asked to acknowledge.
    pub fn transmit(&mut self, now_ms: Ts, dest: Address, data: &Vec<u8>) -> (r: Result<
        (),
        SixLoError<M::Error>,
    >)
        requires
            old(self).wf(),
        ensures
            final(self).wf(),
            data@.len() > IPV6_MTU ==> *final(self) == *old(self) && r == Err::<
                (),
                SixLoError<M::Error>,
            >(SixLoError::NoTxFragSlots),
            data@.len() < MAX_PAYLOAD_LEN ==> final(self).frag == old(self).frag && match r {
                Ok(()) => final(self).mac.tx_queue() == old(self).mac.tx_queue().push(
                    final(self).mac.tx_queue().last(),
                ) && final(self).mac.tx_queue().last().payload == data@ && final(self).mac.tx_queue().last().header.destination == dest && final(self).mac.tx_queue().last().header.ack_request == dest.spec_is_unicast(),
                Err(e) => e is Mac && final(self).mac.tx_queue() == old(self).mac.tx_queue(),
            },
            MAX_PAYLOAD_LEN <= data@.len() <= IPV6_MTU ==> {
                &&& final(self).mac == old(self).mac
                &&& (r is Ok <==> exists|i: int|
                    #![trigger old(self).frag.slots()[i]]
                    0 <= i < frag::FRAG_SLOTS && old(self).frag.slots()[i].state
                        == frag::FragState::Free)
                &&& (r matches Err(e) ==> final(self).frag == old(self).frag && e
                    == SixLoError::<M::Error>::NoTxFragSlots)
                &&& r is Ok ==> final(self).frag.spec_tag() == old(self).frag.spec_tag().wrapping_add(1) && exists|i: int|
                    #![trigger old(self).frag.slots()[i]]
                    {
                        &&& 0 <= i < frag::FRAG_SLOTS
                        &&& old(self).frag.slots()[i].state == frag::FragState::Free
                        &&& final(self).frag.slots() == old(self).frag.slots().update(
                            i,
                            final(self).frag.slots()[i],
                        )
                        &&& final(self).frag.slots()[i].state == frag::FragState::Tx
                        &&& final(self).frag.slots()[i].addr == dest
                        &&& final(self).frag.slots()[i].len == data@.len()
                        &&& final(self).frag.slots()[i].offset == 0
                        &&& final(self).frag.slots()[i].mask == 0
                        &&& final(self).frag.slots()[i].buff@.subrange(0, data@.len() as int)
                            == data@
                    }
            },
    {
        if data.len() > IPV6_MTU {
            // Too large for the reassembly buffers on any peer: refused
            // outright, before a slot could be tied to it.
            return Err(SixLoError::NoTxFragSlots);
        }
        let header = Header::empty();
        let ack = dest.is_unicast();
        if data.len() < MAX_PAYLOAD_LEN {
            // Fits one MAC frame: the empty header block adds no bytes.
            let mut out: Vec<u8> = Vec::new();
            let n = header.encode(&mut out);
            let _ = n;
            let mut i: usize = 0;
            let dn = data.len();
            while i < dn
                invariant
                    i <= dn == data@.len(),
                    dn < MAX_PAYLOAD_LEN,
                    out@ == data@.subrange(0, i as int),
                decreases dn - i,
            {
                out.push(data[i]);
                i += 1;
                proof {
                    assert(out@ =~= data@.subrange(0, i as int));
                }
            }
            match self.mac.transmit(dest, &out, ack) {
                Ok(()) => Ok(()),
                Err(e) => Err(SixLoError::Mac(e)),
            }
        } else {
            self.frag.transmit(now_ms, dest, header, data)
        }
    }

    /// Deliver the next reassembled datagram into `buff`, replacing its
    /// contents, together with its source address and headers.
    pub fn receive(&mut self, now_ms: Ts, buff: &mut Vec<u8>) -> (r: Result<
        Option<(usize, Address, Header)>,
        SixLoError<M::Error>,
    >)
        requires
            old(self).wf(),
        ensures
            final(self).wf(),
            final(self).mac == old(self).mac,
            r is Ok,
            r == Ok::<Option<(usize, Address, Header)>, SixLoError<M::Error>>(
                Option::<(usize, Address, Header)>::None,
            ) ==> *final(self) == *old(self) && *final(buff) == *old(buff) && forall|i: int|
                #![trigger old(self).frag.slots()[i]]
                0 <= i < frag::FRAG_SLOTS ==> old(self).frag.slots()[i].state
                    != frag::FragState::Done,
            r matches Ok(Some((n, a, h))) ==> final(buff)@.len() == n && n <= IPV6_MTU && exists|
                i: int,
            |
                #![trigger old(self).frag.slots()[i]]
                {
                    &&& 0 <= i < frag::FRAG_SLOTS
                    &&& old(self).frag.slots()[i].state == frag::FragState::Done
                    &&& forall|j: int|
                        #![trigger old(self).frag.slots()[j]]
                        0 <= j < i ==> old(self).frag.slots()[j].state != frag::FragState::Done
                    &&& a == old(self).frag.slots()[i].addr
                    &&& h == old(self).frag.slots()[i].header
                    &&& final(buff)@ == old(self).frag.slots()[i].buff@.subrange(
                        0,
                        old(self).frag.slots()[i].len as int,
                    )
                    &&& final(self).frag.slots() == old(self).frag.slots().update(
                        i,
                        frag::FragBuffer {
                            state: frag::FragState::Free,
                            ..old(self).frag.slots()[i]
                        },
                    )
                },
    {
        let _ = now_ms;
        match self.frag.pop() {
            Option::Some((a, h, d)) => {
                buff.clear();
                let mut i: usize = 0;
                let dn = d.len();
                proof {
                    assert(exists|j: int|
                        #![trigger old(self).frag.slots()[j]]
                        0 <= j < frag::FRAG_SLOTS && d@ == old(self).frag.slots()[j].buff@
                            .subrange(0, old(self).frag.slots()[j].len as int));
                }
                while i < dn
                    invariant
                        i <= dn == d@.len(),
                        buff@ == d@.subrange(0, i as int),
                    decreases dn - i,
                {
                    buff.push(d[i]);
                    i += 1;
                    proof {
                        assert(buff@ =~= d@.subrange(0, i as int));
                    }
                }
                proof {
                    assert(buff@ =~= d@);
                }
                Ok(Option::Some((buff.len(), a, h)))
            },
            Option::None => Ok(Option::None),
        }
    }
}


} // verus!

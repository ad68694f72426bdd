//! IEEE 802.15.4-style MAC: frame codec, configuration, slot bookkeeping,
//! and the beacon/association/CSMA engine.

pub mod config;
pub mod packet;
pub mod slot;

use vstd::prelude::*;

use crate::address::Address;
use crate::base::{Base, BaseState};
use crate::error::CoreError;
use crate::mac_802154::config::Config;
use crate::mac_802154::packet::{
    canonical, Beacon, CapabilityInformation, Command, FrameContent, FrameType, Packet,
    MAX_PAYLOAD_LEN,
};
use crate::wire::saturating_add;
use crate::queue::BoundedQueue;
use crate::timer::Timer;
use crate::wire::pow2_u32;
use crate::{Mac as MacIf, MacState, Radio, RawPacket, RxInfo};

verus! {

/// Statistics counters kept by the MAC engine.
#[derive(Clone, Copy, Debug, PartialEq, Eq, Structural)]
pub struct MacStats {
    /// CSMA transmissions that missed their scheduled slot.
    pub deadline_miss_tx: u32,
    /// Acknowledgements transmitted after their deadline.
    pub deadline_miss_ack: u32,
    /// Transmissions abandoned because clear-channel assessment kept failing.
    pub csma_cca_fail: u32,
    /// Transmissions dropped after the retry limit.
    pub tx_fail: u32,
    /// Synchronisation losses after too many missed beacons.
    pub sync_fail: u32,
    /// Received frames dropped because they did not decode.
    pub decode_error: u32,
}

impl MacStats {
    /// All counters zero.
    pub open spec fn spec_zero() -> MacStats {
        MacStats {
            deadline_miss_tx: 0,
            deadline_miss_ack: 0,
            csma_cca_fail: 0,
            tx_fail: 0,
            sync_fail: 0,
            decode_error: 0,
        }
    }

    /// Fresh statistics with every counter at zero.
    pub fn new() -> (r: MacStats)
        ensures
            r == MacStats::spec_zero(),
    {
        MacStats {
            deadline_miss_tx: 0,
            deadline_miss_ack: 0,
            csma_cca_fail: 0,
            tx_fail: 0,
            sync_fail: 0,
            decode_error: 0,
        }
    }
}

/// Retry bookkeeping attached to each queued outgoing packet.
#[derive(Clone, Copy, Debug, PartialEq, Eq, Structural)]
pub struct TxState {
    /// Whether the packet still awaits transmission.
    pub pending: bool,
    /// Transmission attempts made so far.
    pub retries: u8,
}

impl TxState {
    /// Initial bookkeeping for a freshly queued packet.
    pub fn start() -> (r: TxState)
        ensures
            r == (TxState { pending: true, retries: 0 }),
    {
        TxState { pending: true, retries: 0 }
    }
}


/// Beacon synchronisation state.
#[derive(Clone, Copy, Debug, PartialEq, Eq, Structural)]
pub enum SyncState {
    /// No beacon source adopted.
    Unsynced,
    /// Synchronised to the beacons of this parent.
    Synced(Address),
}

impl SyncState {
    /// Whether a beacon source has been adopted.
    pub fn is_synced(&self) -> (r: bool)
        ensures
            r == (*self is Synced),
    {
        match self {
            SyncState::Synced(_) => true,
            SyncState::Unsynced => false,
        }
    }
}

/// Association state.
#[derive(Clone, Copy, Debug, PartialEq, Eq, Structural)]
pub enum AssocState {
    /// Not associated with any PAN.
    Unassociated,
    /// An association request to this parent awaits its answer until the
    /// given expiry time.
    Pending(Address, u64),
    /// Associated with this PAN.
    Associated(u16),
}

impl AssocState {
    /// Whether an association stands.
    pub fn is_associated(&self) -> (r: bool)
        ensures
            r == (*self is Associated),
    {
        match self {
            AssocState::Associated(_) => true,
            _ => false,
        }
    }
}

/// CSMA-CA transmission state. A pending attempt always concerns the
/// packet at the head of the transmit queue.
#[derive(Clone, Copy, Debug, PartialEq, Eq, Structural)]
pub enum CsmaState {
    /// No transmission attempt running.
    Idle,
    /// A transmission attempt for the queue head awaits its slot.
    Pending {
        /// Absolute slot number chosen for the transmission; zero means
        /// the attempt must be rescheduled at the next superframe start.
        tx_slot: u64,
        /// Backoff rounds consumed so far.
        retries: u64,
    },
}

/// Pending software acknowledgement.
#[derive(Debug)]
pub enum AckState {
    /// No acknowledgement owed.
    Idle,
    /// This acknowledgement frame is due at the given time.
    Pending {
        /// The acknowledgement frame to transmit.
        packet: Packet,
        /// Earliest transmission time, giving the peer turn-around time.
        tx_time: u64,
    },
}

/// A queued outgoing packet is one this node built itself: well-formed,
/// canonical on the wire, and scoped to the configured PAN.
pub open spec fn queued_tx_ok(p: Packet, pan: u16) -> bool {
    &&& p.wf()
    &&& canonical(p@)
    &&& p.header.source.spec_pan_id() == Option::<u16>::Some(pan)
}

/// A byte string this engine may hand to the radio: it decodes to a MAC
/// frame that either is an acknowledgement — which mirrors the foreign
/// addressing of the frame it answers — or carries the engine's own PAN
/// as its source PAN.
pub open spec fn sent_ok(bytes: Seq<u8>, pan: u16) -> bool {
    match crate::mac_802154::packet::decoded_packet(bytes, false) {
        Ok(pv) => pv.header.frame_type == FrameType::Acknowledgement
            || pv.header.source.spec_pan_id() == Option::<u16>::Some(pan),
        Err(_) => false,
    }
}

/// The transmit log grew only by byte strings the engine may send: the
/// old log is a prefix and every new entry satisfies [`sent_ok`].
pub open spec fn tx_log_ok(old_log: Seq<Seq<u8>>, new_log: Seq<Seq<u8>>, pan: u16) -> bool {
    &&& old_log.is_prefix_of(new_log)
    &&& forall|i: int|
        old_log.len() <= i < new_log.len() ==> sent_ok(#[trigger] new_log[i], pan)
}

/// A counter raised by one, saturating at its maximum.
pub open spec fn bumped(c: u32) -> u32 {
    if c < u32::MAX {
        (c + 1) as u32
    } else {
        c
    }
}

/// An eight-bit counter raised by one, saturating at its maximum.
pub open spec fn bumped8(c: u8) -> u8 {
    if c < u8::MAX {
        (c + 1) as u8
    } else {
        c
    }
}

/// A 64-bit counter raised by one, saturating at its maximum.
pub open spec fn bumped64(c: u64) -> u64 {
    if c < u64::MAX {
        (c + 1) as u64
    } else {
        c
    }
}

/// The synchronisation offset after a parent beacon arriving at `now`
/// against an expectation of `next_beacon` in superframes of `sd`
/// milliseconds: half the deviation is applied when it stays under a
/// tenth of a superframe, larger deviations are ignored.
pub open spec fn corrected_offset(offset: u64, next_beacon: u64, now: u64, sd: u64) -> u64
    recommends
        sd >= 1,
{
    if now >= next_beacon {
        if (now - next_beacon) % (sd as int) < sd / 10 {
            crate::wire::sat_add(offset, (((now - next_beacon) % (sd as int)) / 2) as u64)
        } else {
            offset
        }
    } else {
        if (next_beacon - now) % (sd as int) < sd / 10 {
            if offset >= ((next_beacon - now) % (sd as int)) / 2 {
                (offset - ((next_beacon - now) % (sd as int)) / 2) as u64
            } else {
                0
            }
        } else {
            offset
        }
    }
}

/// Extension by allowed entries composes: a log extended twice over
/// allowed entries is an allowed extension of the first log.
pub proof fn lemma_tx_log_ok_trans(a: Seq<Seq<u8>>, b: Seq<Seq<u8>>, c: Seq<Seq<u8>>, pan: u16)
    requires
        tx_log_ok(a, b, pan),
        tx_log_ok(b, c, pan),
    ensures
        tx_log_ok(a, c, pan),
{
    assert(a =~= c.subrange(0, a.len() as int));
    assert forall|i: int| a.len() <= i < c.len() implies sent_ok(#[trigger] c[i], pan) by {
        if i < b.len() {
            assert(c[i] == b[i]);
        }
    }
}

/// No statistics counter of `b` is below its counterpart in `a`.
pub open spec fn stats_le(a: MacStats, b: MacStats) -> bool {
    &&& a.deadline_miss_tx <= b.deadline_miss_tx
    &&& a.deadline_miss_ack <= b.deadline_miss_ack
    &&& a.csma_cca_fail <= b.csma_cca_fail
    &&& a.tx_fail <= b.tx_fail
    &&& a.sync_fail <= b.sync_fail
    &&& a.decode_error <= b.decode_error
}

/// 802.15.4-style MAC engine: beacon synchronisation, association,
/// CSMA-CA transmission with software acknowledgements, and bounded
/// receive and transmit queues, driven by a periodic tick.
pub struct Mac<R, T> {
    /// This node's extended address.
    pub address: u64,
    /// Short address, once one is assigned.
    pub short_addr: Option<u16>,
    /// Configuration, immutable after construction.
    pub config: Config,
    /// Radio base below this engine.
    pub base: Base<R>,
    /// Monotonic clock.
    pub timer: T,
    /// Sequence number for the next locally originated frame.
    pub seq: u8,
    /// Offset aligning the local clock to the parent's superframes.
    pub sync_offset: u64,
    /// Absolute slot number seen by the previous tick.
    pub last_asn: u64,
    /// When the next beacon is due, or zero when none is.
    pub next_beacon: u64,
    /// Beacons missed in a row.
    pub beacon_miss_count: u32,
    /// Beacon synchronisation state.
    pub sync_state: SyncState,
    /// Association state.
    pub assoc_state: AssocState,
    /// CSMA-CA transmission state.
    pub csma_state: CsmaState,
    /// Pending software acknowledgement.
    pub ack_state: AckState,
    /// Seeded generator state for CSMA backoff draws.
    pub rng_state: u32,
    /// Statistics counters.
    pub stats: MacStats,
    /// Received data frames awaiting the layer above.
    pub rx_buff: BoundedQueue<(RxInfo, Packet)>,
    /// Outgoing frames awaiting transmission, with retry bookkeeping.
    pub tx_buff: BoundedQueue<(TxState, Packet)>,
}

impl<R: Radio, T: Timer> Mac<R, T> {
    /// Configuration valid, queues within bounds, every queued outgoing
    /// frame locally built and PAN-scoped, and a pending CSMA attempt
    /// always referring to an existing queue head.
    pub open spec fn wf(&self) -> bool {
        &&& self.config.wf()
        &&& self.rx_buff.wf()
        &&& self.tx_buff.wf()
        &&& forall|i: int|
            #![trigger self.tx_buff@[i]]
            0 <= i < self.tx_buff@.len() ==> queued_tx_ok(self.tx_buff@[i].1, self.config.pan_id)
        &&& forall|i: int|
            #![trigger self.rx_buff@[i]]
            0 <= i < self.rx_buff@.len() ==> self.rx_buff@[i].1.wf()
        &&& self.csma_state is Pending ==> self.tx_buff@.len() > 0
        &&& match self.ack_state {
            AckState::Pending { packet, tx_time } => packet.wf() && canonical(packet@)
                && packet.header.frame_type == FrameType::Acknowledgement,
            AckState::Idle => true,
        }
    }

    /// This node's own address: the short address when one is assigned,
    /// else the extended address, always on the configured PAN.
    pub open spec fn spec_addr(&self) -> Address {
        match self.short_addr {
            Option::Some(s) => Address::Short(self.config.pan_id, s),
            Option::None => Address::Extended(self.config.pan_id, self.address),
        }
    }

    /// Fetch this node's own address.
    pub fn addr(&self) -> (r: Address)
        ensures
            r == self.spec_addr(),
            r.spec_pan_id() == Option::<u16>::Some(self.config.pan_id),
    {
        match self.short_addr {
            Option::Some(s) => Address::Short(self.config.pan_id, s),
            Option::None => Address::Extended(self.config.pan_id, self.address),
        }
    }

    /// Hand out the sequence number for the next locally originated
    /// frame and advance the counter: consecutive locally originated
    /// frames carry consecutive sequence numbers modulo 256. Every
    /// frame-building path draws its number here.
    pub fn next_seq(&mut self) -> (r: u8)
        ensures
            r == old(self).seq,
            final(self).seq == (old(self).seq + 1) % 256,
            *final(self) == (Mac { seq: final(self).seq, ..*old(self) }),
    {
        let s = self.seq;
        self.seq = self.seq.wrapping_add(1);
        s
    }

    /// Re-seed the backoff generator; tests use a fixed seed for
    /// deterministic backoff.
    pub fn seed_random(&mut self, seed: u32)
        ensures
            *final(self) == (Mac { rng_state: seed, ..*old(self) }),
    {
        self.rng_state = seed;
    }

    /// Draw the next value of the seeded linear congruential generator.
    fn next_random(&mut self) -> (r: u32)
        ensures
            *final(self) == (Mac { rng_state: final(self).rng_state, ..*old(self) }),
            r == final(self).rng_state,
    {
        self.rng_state = self.rng_state.wrapping_mul(1664525).wrapping_add(1013904223);
        self.rng_state
    }

    /// Draw a uniform backoff of at least one and less than two to the
    /// exponent `be` slots.
    fn draw_backoff(&mut self, be: u8) -> (r: u64)
        requires
            1 <= be <= 15,
        ensures
            *final(self) == (Mac { rng_state: final(self).rng_state, ..*old(self) }),
            1 <= r < vstd::arithmetic::power2::pow2(be as nat),
    {
        proof {
            vstd::arithmetic::power2::lemma2_to64();
            vstd::arithmetic::power2::lemma_pow2_strictly_increases(0, be as nat);
        }
        let span = pow2_u32(be as usize) - 1;
        let v = self.next_random();
        (v % span) as u64 + 1
    }

    /// Fetch the statistics counters.
    pub fn stats(&self) -> (r: MacStats)
        ensures
            r == self.stats,
    {
        self.stats
    }

    /// Create a MAC with the given address, configuration, radio and
    /// clock: counters and queues empty, the clock's current reading
    /// taken as the superframe origin, a coordinator already associated
    /// with its own PAN and its first beacon scheduled one superframe
    /// ahead, and the radio armed to receive.
    pub fn new(address: u64, config: Config, radio: R, timer: T) -> (r: Result<
        Mac<R, T>,
        CoreError<R::Error>,
    >)
        requires
            config.wf(),
        ensures
            match r {
                Ok(m) => {
                    &&& m.wf()
                    &&& m.address == address
                    &&& m.config == config
                    &&& m.seq == 0
                    &&& m.short_addr is None
                    &&& m.rx_buff@ == Seq::<(RxInfo, Packet)>::empty()
                    &&& m.tx_buff@ == Seq::<(TxState, Packet)>::empty()
                    &&& m.csma_state is Idle
                    &&& m.ack_state is Idle
                    &&& m.sync_state is Unsynced
                    &&& m.assoc_state == (if config.pan_coordinator {
                        AssocState::Associated(config.pan_id)
                    } else {
                        AssocState::Unassociated
                    })
                    &&& m.stats == MacStats::spec_zero()
                    &&& m.base.state == crate::base::BaseState::Listening
                    &&& m.base.tx_log@ == Seq::<Seq<u8>>::empty()
                    &&& m.next_beacon == (if config.pan_coordinator {
                        crate::wire::sat_add(
                            m.sync_offset,
                            config.spec_superframe_duration() as u64,
                        )
                    } else {
                        0
                    })
                },
                Err(e) => e is Radio || e is Busy,
            },
    {
        let base = match Base::new(radio) {
            Ok(b) => b,
            Err(e) => {
                return Err(e);
            },
        };
        let mut s = Mac {
            address,
            short_addr: Option::None,
            config,
            base,
            timer,
            seq: 0,
            sync_offset: 0,
            last_asn: 0,
            next_beacon: 0,
            beacon_miss_count: 0,
            sync_state: SyncState::Unsynced,
            assoc_state: AssocState::Unassociated,
            csma_state: CsmaState::Idle,
            ack_state: AckState::Idle,
            rng_state: 0x6c61_7069,
            stats: MacStats::new(),
            rx_buff: BoundedQueue::new(),
            tx_buff: BoundedQueue::new(),
        };
        let now = s.timer.ticks_ms();
        s.sync_offset = now;
        if s.config.pan_coordinator {
            let sd = s.config.superframe_duration();
            s.next_beacon = saturating_add(now, sd as u64);
            s.assoc_state = AssocState::Associated(s.config.pan_id);
        }
        match s.base.receive(now) {
            Ok(()) => {},
            Err(e) => {
                return Err(e);
            },
        }
        Ok(s)
    }
}



impl<R: Radio, T: Timer> Mac<R, T> {
    /// Whether the engine asks the layers above to hold back: a
    /// transmission attempt or acknowledgement is in flight, no
    /// association stands, or the transmit queue is full.
    pub open spec fn spec_busy(&self) -> bool {
        ||| !(self.csma_state is Idle)
        ||| !(self.ack_state is Idle)
        ||| !(self.assoc_state is Associated)
        ||| self.tx_buff@.len() >= crate::queue::QUEUE_CAP
    }

    /// Check whether the engine asks the layers above to hold back.
    pub fn busy(&mut self) -> (r: Result<bool, CoreError<R::Error>>)
        ensures
            *final(self) == *old(self),
            r == Ok::<_, CoreError<R::Error>>(old(self).spec_busy()),
    {
        let b = !matches!(self.csma_state, CsmaState::Idle) || !matches!(
            self.ack_state,
            AckState::Idle,
        ) || !matches!(self.assoc_state, AssocState::Associated(_)) || self.tx_buff.is_full();
        Ok(b)
    }

    /// Whether the transmit queue has a free slot.
    pub fn can_transmit(&self) -> (r: Result<bool, CoreError<R::Error>>)
        ensures
            r == Ok::<_, CoreError<R::Error>>(self.tx_buff@.len() < crate::queue::QUEUE_CAP),
    {
        Ok(!self.tx_buff.is_full())
    }

    /// The data frame this engine queues for `dest` with payload `data`:
    /// its own address as source, its current sequence number, the given
    /// acknowledgement request, and no other header flag set.
    pub open spec fn spec_data_frame(
        &self,
        dest: Address,
        data: Seq<u8>,
        ack: bool,
    ) -> crate::mac_802154::packet::PacketView {
        crate::mac_802154::packet::PacketView {
            header: crate::mac_802154::packet::Header {
                frame_type: FrameType::Data,
                frame_pending: false,
                ack_request: ack,
                pan_id_compress: false,
                seq_no_suppress: false,
                ie_present: false,
                version: crate::mac_802154::packet::FrameVersion::Ieee802154_2006,
                seq: self.seq,
                destination: dest,
                source: self.spec_addr(),
            },
            content: FrameContent::Data,
            payload: data,
            footer: seq![0u8, 0u8],
        }
    }

    /// Queue `data` for transmission to `dest` in a data frame from this
    /// node's own address, carrying the next sequence number and the
    /// given acknowledgement request; a full queue refuses it as
    /// back-pressure, consuming nothing.
    pub fn transmit(&mut self, dest: Address, data: &Vec<u8>, ack: bool) -> (r: Result<
        (),
        CoreError<R::Error>,
    >)
        requires
            old(self).wf(),
            data@.len() <= MAX_PAYLOAD_LEN,
        ensures
            final(self).wf(),
            old(self).tx_buff@.len() >= crate::queue::QUEUE_CAP ==> r == Err::<(), _>(CoreError::<
                R::Error,
            >::BufferFull) && *final(self) == *old(self),
            old(self).tx_buff@.len() < crate::queue::QUEUE_CAP ==> {
                &&& r is Ok
                &&& final(self).seq == (old(self).seq + 1) % 256
                &&& final(self).tx_buff@.len() == old(self).tx_buff@.len() + 1
                &&& final(self).tx_buff@ == old(self).tx_buff@.push(
                    final(self).tx_buff@.last(),
                )
                &&& final(self).tx_buff@.last().0 == (TxState { pending: true, retries: 0 })
                &&& final(self).tx_buff@.last().1@ == old(self).spec_data_frame(dest, data@, ack)
                &&& final(self).rx_buff == old(self).rx_buff
                &&& final(self).csma_state == old(self).csma_state
                &&& final(self).assoc_state == old(self).assoc_state
            },
    {
        if self.tx_buff.is_full() {
            return Err(CoreError::BufferFull);
        }
        let source = self.addr();
        let seq = self.next_seq();
        let packet = Packet::data(dest, source, seq, data, ack);
        proof {
            assert(packet@ =~= old(self).spec_data_frame(dest, data@, ack));
        }
        match self.tx_buff.enqueue((TxState::start(), packet)) {
            Ok(()) => {},
            Err(_) => {},
        }
        Ok(())
    }

    /// Deliver the next received payload, replacing the contents of
    /// `data`, together with the source address and RSSI it arrived
    /// with; the queue entry is consumed.
    pub fn receive(&mut self, data: &mut Vec<u8>) -> (r: Result<
        Option<(usize, RxInfo)>,
        CoreError<R::Error>,
    >)
        requires
            old(self).wf(),
        ensures
            final(self).wf(),
            old(self).rx_buff@.len() == 0 ==> r == Ok::<_, CoreError<R::Error>>(
                Option::<(usize, RxInfo)>::None,
            ) && *final(self) == *old(self) && *final(data) == *old(data),
            old(self).rx_buff@.len() > 0 ==> {
                &&& final(self).rx_buff@ == old(self).rx_buff@.subrange(
                    1,
                    old(self).rx_buff@.len() as int,
                )
                &&& r matches Ok(Some((n, info))) && info == old(self).rx_buff@[0].0
                    && final(data)@ == old(self).rx_buff@[0].1@.payload && n == final(data)@.len()
                    && n <= MAX_PAYLOAD_LEN
                &&& final(self).tx_buff == old(self).tx_buff
                &&& final(self).seq == old(self).seq
            },
    {
        let rx = match self.rx_buff.dequeue() {
            Option::Some(rx) => rx,
            Option::None => {
                return Ok(Option::None);
            },
        };
        let (info, packet) = rx;
        let payload = packet.payload();
        data.clear();
        let mut i: usize = 0;
        while i < payload.len()
            invariant
                i <= payload@.len(),
                data@ == payload@.subrange(0, i as int),
            decreases payload@.len() - i,
        {
            data.push(payload[i]);
            i += 1;
            proof {
                assert(data@ =~= payload@.subrange(0, i as int));
            }
        }
        proof {
            assert(payload@.subrange(0, payload@.len() as int) =~= payload@);
            assert(old(self).rx_buff@[0].1.wf());
        }
        Ok(Option::Some((data.len(), info)))
    }
}



impl<R: Radio, T: Timer> Mac<R, T> {
    /// No beacon work is owed: no slot boundary was crossed, or no
    /// beacon is expected yet.
    pub open spec fn beacon_idle(&self, now_ms: u64, asn: u64) -> bool {
        ||| asn == self.last_asn
        ||| self.next_beacon == 0
        ||| self.next_beacon > now_ms
    }

    /// The expected beacon is overdue past the tolerated slip.
    pub open spec fn beacon_overdue(&self, now_ms: u64) -> bool {
        crate::wire::sat_add(self.next_beacon, self.config.mac_deadline as u64) < now_ms
    }

    /// This beacon miss is one too many: synchronisation will drop.
    pub open spec fn beacon_desync(&self, now_ms: u64) -> bool {
        &&& self.sync_state is Synced
        &&& self.beacon_overdue(now_ms)
        &&& bumped(self.beacon_miss_count) > self.config.max_beacon_misses
    }

    /// The beacon frame this engine broadcasts: its own address and
    /// current sequence number, the configuration's superframe
    /// specification, empty lists, to the short broadcast address.
    pub open spec fn spec_beacon_frame(&self) -> crate::mac_802154::packet::PacketView {
        self.spec_beacon_frame_with_seq(self.seq)
    }

    /// The same beacon frame under an explicit sequence number.
    pub open spec fn spec_beacon_frame_with_seq(&self, sq: u8) -> crate::mac_802154::packet::PacketView {
        crate::mac_802154::packet::PacketView {
            header: crate::mac_802154::packet::Header {
                frame_type: FrameType::Beacon,
                frame_pending: false,
                ack_request: false,
                pan_id_compress: false,
                seq_no_suppress: false,
                ie_present: false,
                version: crate::mac_802154::packet::FrameVersion::Ieee802154_2006,
                seq: sq,
                destination: Address::Short(
                    crate::address::PAN_BROADCAST,
                    crate::address::SHORT_BROADCAST,
                ),
                source: self.spec_addr(),
            },
            content: FrameContent::Beacon(
                Beacon {
                    superframe_spec: crate::mac_802154::packet::SuperframeSpecification {
                        beacon_order: self.config.mac_beacon_order,
                        superframe_order: self.config.mac_superframe_order,
                        pan_coordinator: self.config.pan_coordinator,
                        battery_life_extension: false,
                        association_permit: true,
                        final_cap_slot: 0,
                    },
                },
            ),
            payload: Seq::empty(),
            footer: seq![0u8, 0u8],
        }
    }

    /// Beacon-slot work at a superframe start: a due beacon is broadcast
    /// by a coordinator or listened for by anyone else, and a beacon
    /// overdue past the deadline counts as missed, dropping
    /// synchronisation once too many misses accumulate.
    fn tick_beacon(&mut self, now_ms: u64, asn: u64) -> (r: Result<(), CoreError<R::Error>>)
        requires
            old(self).wf(),
        ensures
            final(self).wf(),
            final(self).config == old(self).config,
            final(self).address == old(self).address,
            final(self).short_addr == old(self).short_addr,
            final(self).tx_buff == old(self).tx_buff,
            final(self).rx_buff == old(self).rx_buff,
            final(self).csma_state == old(self).csma_state,
            final(self).assoc_state == old(self).assoc_state,
            final(self).ack_state == old(self).ack_state,
            final(self).last_asn == old(self).last_asn,
            final(self).stats == old(self).stats,
            tx_log_ok(old(self).base.tx_log@, final(self).base.tx_log@, old(self).config.pan_id),
            r matches Err(e) ==> e is Radio || e is Busy,
            old(self).beacon_idle(now_ms, asn) ==> *final(self) == *old(self) && r is Ok,
            !old(self).beacon_idle(now_ms, asn) && old(self).beacon_desync(now_ms) ==> r is Ok
                && *final(self) == (Mac {
                sync_state: SyncState::Unsynced,
                next_beacon: 0,
                beacon_miss_count: bumped(old(self).beacon_miss_count),
                ..*old(self)
            }),
            !old(self).beacon_idle(now_ms, asn) && !old(self).beacon_desync(now_ms) ==> {
                &&& final(self).beacon_miss_count == (
                if old(self).sync_state is Synced && old(self).beacon_overdue(now_ms) {
                    bumped(old(self).beacon_miss_count)
                } else {
                    old(self).beacon_miss_count
                })
                &&& final(self).sync_state == old(self).sync_state
                &&& final(self).sync_offset == old(self).sync_offset
                &&& old(self).config.pan_coordinator ==> match r {
                    Ok(()) => final(self).base.tx_log@ == old(self).base.tx_log@.push(
                        crate::mac_802154::packet::encoded_packet(old(self).spec_beacon_frame()),
                    ) && final(self).next_beacon == crate::wire::sat_add(
                        old(self).next_beacon,
                        old(self).config.spec_superframe_duration() as u64,
                    ) && final(self).seq == (old(self).seq + 1) % 256,
                    Err(e) => e is Radio || e is Busy,
                }
                &&& !old(self).config.pan_coordinator ==> final(self).next_beacon == old(self).next_beacon && final(self).seq == old(self).seq && final(self).base.tx_log
                    == old(self).base.tx_log && (r is Ok ==> final(self).base.state
                    == BaseState::Listening)
            },
    {
        // No slot boundary crossed, or no beacon expected yet.
        if self.last_asn == asn {
            return Ok(());
        }
        if self.next_beacon == 0 || self.next_beacon > now_ms {
            return Ok(());
        }

        // The beacon is overdue past the deadline: count the miss, and
        // drop synchronisation after too many.
        if saturating_add(self.next_beacon, self.config.mac_deadline as u64) < now_ms {
            if matches!(self.sync_state, SyncState::Synced(_)) {
                self.beacon_miss_count = self.beacon_miss_count.saturating_add(1);
                if self.beacon_miss_count > self.config.max_beacon_misses {
                    self.sync_state = SyncState::Unsynced;
                    self.next_beacon = 0;
                    return Ok(());
                }
            }
        }

        if self.config.pan_coordinator {
            // Broadcast the beacon and re-arm for the next superframe.
            let spec_field = self.config.superframe_spec();
            let source = self.addr();
            let seq = self.next_seq();
            let packet = Packet::beacon(source, seq, Beacon { superframe_spec: spec_field });
            let bytes = packet.encode();
            proof {
                assert(packet@ =~= old(self).spec_beacon_frame());
                crate::mac_802154::packet::lemma_packet_roundtrip(packet@);
            }
            match self.base.transmit(now_ms, &bytes) {
                Ok(()) => {},
                Err(e) => {
                    return Err(e);
                },
            }
            let sd = self.config.superframe_duration();
            self.next_beacon = saturating_add(self.next_beacon, sd as u64);
        } else {
            // Make sure the receiver is armed for the expected beacon;
            // the beacon's receipt re-arms the expectation, and the
            // deadline check above counts the miss otherwise.
            if !matches!(self.base.state(), BaseState::Listening) {
                match self.base.receive(now_ms) {
                    Ok(()) => {},
                    Err(e) => {
                        return Err(e);
                    },
                }
            }
        }
        Ok(())
    }

    /// Decide a clear-channel assessment from a sampled RSSI: the
    /// channel counts as busy strictly above the clearance threshold.
    /// The sample itself is the radio's to give; this decision is exact
    /// for every value of it.
    pub fn channel_busy(&self, rssi: i16) -> (r: bool)
        ensures
            r == (rssi > self.config.channel_clear_threshold),
    {
        rssi > self.config.channel_clear_threshold
    }

    /// The tick stands at a superframe start it has not served yet: the
    /// slot number advanced and the slot is the superframe's first.
    pub open spec fn cap_schedule(&self, now_ms: u64, asn: u64) -> bool {
        asn != self.last_asn && self.config.spec_rsn(now_ms, self.sync_offset) == 0
    }

    /// Backoff exponent of a fresh transmission attempt: the minimum,
    /// clamped to two under battery life extension.
    pub open spec fn spec_first_be(&self) -> u8 {
        if self.config.battery_life_extension && self.config.min_be > 2 {
            2
        } else {
            self.config.min_be
        }
    }

    /// Backoff exponent after `retries` failed rounds: the minimum grown
    /// by the rounds, capped at the maximum.
    pub open spec fn spec_grown_be(&self, retries: u64) -> u8 {
        if crate::wire::sat_add(self.config.min_be as u64, retries) >= self.config.max_be as u64 {
            self.config.max_be
        } else {
            crate::wire::sat_add(self.config.min_be as u64, retries) as u8
        }
    }

    /// Contention-access-period work: at each superframe start a failed
    /// attempt is rescheduled with a grown backoff or abandoned, and a
    /// fresh attempt is scheduled for the queue head; in later slots the
    /// pending attempt assesses the channel before its slot, transmits
    /// in its slot, and counts a deadline miss past it.
    fn tick_cap(&mut self, now_ms: u64, asn: u64) -> (r: Result<(), CoreError<R::Error>>)
        requires
            old(self).wf(),
        ensures
            final(self).wf(),
            final(self).config == old(self).config,
            final(self).address == old(self).address,
            final(self).short_addr == old(self).short_addr,
            final(self).rx_buff == old(self).rx_buff,
            final(self).assoc_state == old(self).assoc_state,
            final(self).seq == old(self).seq,
            final(self).sync_state == old(self).sync_state,
            final(self).sync_offset == old(self).sync_offset,
            final(self).next_beacon == old(self).next_beacon,
            final(self).beacon_miss_count == old(self).beacon_miss_count,
            final(self).last_asn == old(self).last_asn,
            final(self).ack_state == old(self).ack_state,
            tx_log_ok(old(self).base.tx_log@, final(self).base.tx_log@, old(self).config.pan_id),
            stats_le(old(self).stats, final(self).stats),
            r matches Err(e) ==> e is Radio || e is Busy,
            old(self).cap_schedule(now_ms, asn) ==> r is Ok && final(self).base.tx_log == old(self).base.tx_log && match old(self).csma_state {
                CsmaState::Pending { tx_slot, retries } => {
                    if retries >= old(self).config.csma_max_backoffs as u64 {
                        // Backoff budget exhausted: the head is abandoned.
                        &&& final(self).csma_state is Idle
                        &&& final(self).stats == (MacStats {
                            csma_cca_fail: bumped(old(self).stats.csma_cca_fail),
                            ..old(self).stats
                        })
                        &&& final(self).tx_buff@ == old(self).tx_buff@.subrange(
                            1,
                            old(self).tx_buff@.len() as int,
                        )
                    } else if tx_slot == 0 {
                        // Rescheduled with a grown backoff.
                        &&& final(self).tx_buff == old(self).tx_buff
                        &&& final(self).stats == old(self).stats
                        &&& exists|b: u64|
                            1 <= b < vstd::arithmetic::power2::pow2(
                                old(self).spec_grown_be(retries) as nat,
                            ) && final(self).csma_state == (CsmaState::Pending {
                                tx_slot: #[trigger] crate::wire::sat_add(asn, b),
                                retries: bumped64(retries),
                            })
                    } else {
                        *final(self) == *old(self)
                    }
                },
                CsmaState::Idle => {
                    if old(self).tx_buff@.len() == 0 {
                        *final(self) == *old(self)
                    } else if old(self).tx_buff@[0].0.retries > old(self).config.max_retries {
                        // Retry limit exceeded: the head is dropped.
                        &&& final(self).csma_state is Idle
                        &&& final(self).stats == (MacStats {
                            tx_fail: bumped(old(self).stats.tx_fail),
                            ..old(self).stats
                        })
                        &&& final(self).tx_buff@ == old(self).tx_buff@.subrange(
                            1,
                            old(self).tx_buff@.len() as int,
                        )
                    } else {
                        // A fresh attempt is scheduled for the head, whose
                        // retry counter advances.
                        &&& final(self).stats == old(self).stats
                        &&& final(self).tx_buff@.len() == old(self).tx_buff@.len()
                        &&& final(self).tx_buff@[0].1@ == old(self).tx_buff@[0].1@
                        &&& final(self).tx_buff@[0].0.retries == bumped8(
                            old(self).tx_buff@[0].0.retries,
                        )
                        &&& forall|j: int|
                            #![trigger final(self).tx_buff@[j]]
                            1 <= j < old(self).tx_buff@.len() ==> final(self).tx_buff@[j] == old(self).tx_buff@[j]
                        &&& exists|b: u64|
                            1 <= b < vstd::arithmetic::power2::pow2(
                                old(self).spec_first_be() as nat,
                            ) && final(self).csma_state == (CsmaState::Pending {
                                tx_slot: #[trigger] crate::wire::sat_add(asn, b),
                                retries: 0,
                            })
                    }
                },
            },
            !old(self).cap_schedule(now_ms, asn) ==> match old(self).csma_state {
                CsmaState::Idle => *final(self) == *old(self) && r is Ok,
                CsmaState::Pending { tx_slot, retries } => {
                    if asn < tx_slot {
                        // Clear-channel assessment: a busy channel zeroes
                        // the slot and counts a round.
                        &&& final(self).tx_buff == old(self).tx_buff
                        &&& final(self).stats == old(self).stats
                        &&& final(self).base.tx_log == old(self).base.tx_log
                        &&& match r {
                            Ok(()) => final(self).csma_state == old(self).csma_state
                                || final(self).csma_state == (CsmaState::Pending {
                                tx_slot: 0,
                                retries: bumped64(retries),
                            }),
                            Err(e) => (e is Radio || e is Busy) && final(self).csma_state == old(self).csma_state,
                        }
                    } else if asn == tx_slot {
                        // The chosen slot: the head's encoding goes to the
                        // radio; without an acknowledgement request the
                        // head completes at once.
                        &&& final(self).stats == old(self).stats
                        &&& match r {
                            Ok(()) => {
                                &&& final(self).csma_state is Idle
                                &&& final(self).base.tx_log@ == old(self).base.tx_log@.push(
                                    crate::mac_802154::packet::encoded_packet(
                                        old(self).tx_buff@[0].1@,
                                    ),
                                )
                                &&& (old(self).tx_buff@[0].1.header.ack_request
                                    ==> final(self).tx_buff == old(self).tx_buff)
                                &&& (!old(self).tx_buff@[0].1.header.ack_request
                                    ==> final(self).tx_buff@ == old(self).tx_buff@.subrange(
                                    1,
                                    old(self).tx_buff@.len() as int,
                                ))
                            },
                            Err(e) => (e is Radio || e is Busy) && final(self).csma_state
                                == old(self).csma_state && final(self).tx_buff == old(self).tx_buff
                                && final(self).base.tx_log == old(self).base.tx_log,
                        }
                    } else if tx_slot != 0 {
                        // The slot went by unserved.
                        r is Ok && *final(self) == (Mac {
                            csma_state: CsmaState::Pending {
                                tx_slot: 0,
                                retries: bumped64(retries),
                            },
                            stats: MacStats {
                                deadline_miss_tx: bumped(old(self).stats.deadline_miss_tx),
                                ..old(self).stats
                            },
                            ..*old(self)
                        })
                    } else {
                        r is Ok && *final(self) == *old(self)
                    }
                },
            },
    {
        let rsn = self.config.calculate_rsn(now_ms, self.sync_offset);

        if asn != self.last_asn && rsn == 0 {
            match self.csma_state {
                CsmaState::Pending { tx_slot, retries } => {
                    if retries >= self.config.csma_max_backoffs as u64 {
                        // Backoff budget exhausted: abandon the packet.
                        self.stats.csma_cca_fail = self.stats.csma_cca_fail.saturating_add(1);
                        self.csma_state = CsmaState::Idle;
                        let _ = self.tx_buff.dequeue();
                    } else if tx_slot == 0 {
                        // Reschedule with a backoff grown by the retries.
                        let grown: u64 = saturating_add(self.config.min_be as u64, retries);
                        let be: u8 = if grown >= self.config.max_be as u64 {
                            self.config.max_be
                        } else {
                            grown as u8
                        };
                        let backoff = self.draw_backoff(be);
                        self.csma_state = CsmaState::Pending {
                            tx_slot: saturating_add(asn, backoff),
                            retries: saturating_add(retries, 1),
                        };
                    }
                },
                CsmaState::Idle => {
                    let head = match self.tx_buff.peek() {
                        Option::Some(head) => (head.0, head.1.header.seq),
                        Option::None => {
                            return Ok(());
                        },
                    };
                    let (tx_state, _head_seq) = head;
                    if tx_state.retries > self.config.max_retries {
                        // Retry limit exceeded: drop the packet.
                        self.stats.tx_fail = self.stats.tx_fail.saturating_add(1);
                        let _ = self.tx_buff.dequeue();
                        return Ok(());
                    }
                    // Count the attempt on the head entry and schedule it.
                    let new_head = match self.tx_buff.peek() {
                        Option::Some(h) => {
                            let st = h.0;
                            let cloned = h.1.clone();
                            (
                                TxState {
                                    pending: st.pending,
                                    retries: st.retries.saturating_add(1),
                                },
                                cloned,
                            )
                        },
                        Option::None => {
                            proof {
                                assert(false);
                            }
                            return Ok(());
                        },
                    };
                    proof {
                        assert(queued_tx_ok(old(self).tx_buff@[0].1, old(self).config.pan_id));
                        assert(new_head.1@ == old(self).tx_buff@[0].1@);
                        assert(new_head.1.header == old(self).tx_buff@[0].1.header);
                        assert(queued_tx_ok(new_head.1, old(self).config.pan_id));
                    }
                    self.tx_buff.set_head(new_head);
                    let be: u8 = if self.config.battery_life_extension && self.config.min_be > 2 {
                        2
                    } else {
                        self.config.min_be
                    };
                    let backoff = self.draw_backoff(be);
                    self.csma_state = CsmaState::Pending {
                        tx_slot: saturating_add(asn, backoff),
                        retries: 0,
                    };
                    proof {
                        assert(forall|j: int|
                            #![trigger final(self).tx_buff@[j]]
                            0 <= j < final(self).tx_buff@.len() ==> queued_tx_ok(
                                final(self).tx_buff@[j].1,
                                final(self).config.pan_id,
                            ));
                    }
                },
            }
            return Ok(());
        }

        match self.csma_state {
            CsmaState::Pending { tx_slot, retries } => {
                if asn < tx_slot {
                    // Assess the channel ahead of the chosen slot.
                    let rssi = match self.base.rssi(now_ms) {
                        Ok(rssi) => rssi,
                        Err(e) => {
                            return Err(e);
                        },
                    };
                    if self.channel_busy(rssi) {
                        self.csma_state = CsmaState::Pending {
                            tx_slot: 0,
                            retries: saturating_add(retries, 1),
                        };
                    }
                } else if asn == tx_slot {
                    // The chosen slot: transmit the queue head.
                    let bytes;
                    let head_ack;
                    match self.tx_buff.peek() {
                        Option::Some(head) => {
                            bytes = head.1.encode();
                            head_ack = head.1.header.ack_request;
                            proof {
                                assert(queued_tx_ok(old(self).tx_buff@[0].1, old(self).config.pan_id));
                                crate::mac_802154::packet::lemma_packet_roundtrip(head.1@);
                            }
                        },
                        Option::None => {
                            proof {
                                assert(false);
                            }
                            return Ok(());
                        },
                    }
                    match self.base.transmit(now_ms, &bytes) {
                        Ok(()) => {},
                        Err(e) => {
                            return Err(e);
                        },
                    }
                    self.csma_state = CsmaState::Idle;
                    if !head_ack {
                        // No acknowledgement expected: the packet is done.
                        let _ = self.tx_buff.dequeue();
                    }
                } else if tx_slot != 0 {
                    // The slot went by unserved: count the miss and
                    // reschedule.
                    self.stats.deadline_miss_tx = self.stats.deadline_miss_tx.saturating_add(1);
                    self.csma_state = CsmaState::Pending {
                        tx_slot: 0,
                        retries: saturating_add(retries, 1),
                    };
                }
            },
            CsmaState::Idle => {},
        }
        Ok(())
    }
}



impl<R: Radio, T: Timer> Mac<R, T> {
    /// Whether a received frame passes the PAN filter: the broadcast
    /// PAN always passes, and while associated only the associated PAN
    /// passes besides it.
    pub open spec fn pan_filter_ok(&self, pv: crate::mac_802154::packet::PacketView) -> bool {
        ||| crate::mac_802154::packet::view_pan_id(pv) == crate::address::PAN_BROADCAST
        ||| match self.assoc_state {
            AssocState::Associated(id) => crate::mac_802154::packet::view_pan_id(pv) == id,
            _ => true,
        }
    }

    /// Whether a destination address names this node: the short
    /// broadcast, its assigned short address, or its extended address.
    pub open spec fn spec_addressed_here(&self, dest: Address) -> bool {
        match dest {
            Address::Short(_, sa) => sa == crate::address::SHORT_BROADCAST || match self
                .short_addr {
                Option::Some(mine) => sa == mine,
                Option::None => false,
            },
            Address::Extended(_, ea) => ea == self.address,
            Address::Absent => false,
        }
    }

    /// The association response a coordinator answers a request from
    /// `dest` with: the no-assignment short address and a success
    /// status, under the engine's current sequence number.
    pub open spec fn spec_assoc_response_frame(&self, dest: Address) -> crate::mac_802154::packet::PacketView {
        crate::mac_802154::packet::PacketView {
            header: crate::mac_802154::packet::Header {
                frame_type: FrameType::MacCommand,
                frame_pending: false,
                ack_request: true,
                pan_id_compress: false,
                seq_no_suppress: false,
                ie_present: false,
                version: crate::mac_802154::packet::FrameVersion::Ieee802154_2006,
                seq: self.seq,
                destination: dest,
                source: self.spec_addr(),
            },
            content: FrameContent::Command(
                Command::AssociationResponse(
                    0xFFFE,
                    crate::mac_802154::packet::AssociationStatus::Successful,
                ),
            ),
            payload: Seq::empty(),
            footer: seq![0u8, 0u8],
        }
    }

    /// The association request this engine addresses to `parent`: its
    /// own capabilities under the current sequence number, with an
    /// acknowledgement requested.
    pub open spec fn spec_assoc_request_frame(&self, parent: Address) -> crate::mac_802154::packet::PacketView {
        crate::mac_802154::packet::PacketView {
            header: crate::mac_802154::packet::Header {
                frame_type: FrameType::MacCommand,
                frame_pending: false,
                ack_request: true,
                pan_id_compress: false,
                seq_no_suppress: false,
                ie_present: false,
                version: crate::mac_802154::packet::FrameVersion::Ieee802154_2006,
                seq: self.seq,
                destination: parent,
                source: self.spec_addr(),
            },
            content: FrameContent::Command(
                Command::AssociationRequest(
                    CapabilityInformation {
                        full_function_device: true,
                        mains_power: false,
                        idle_receive: false,
                        frame_protection: false,
                        allocate_address: true,
                    },
                ),
            ),
            payload: Seq::empty(),
            footer: seq![0u8, 0u8],
        }
    }

    /// Handle one raw packet from the radio: decode it, filter it by PAN
    /// and address, arm an acknowledgement where one is requested, and
    /// dispatch it by frame type. Malformed frames are counted and
    /// dropped; nothing here raises an error.
    fn handle_received(&mut self, now: u64, rx: RawPacket) -> (r: Result<(), CoreError<R::Error>>)
        requires
            old(self).wf(),
        ensures
            final(self).wf(),
            final(self).config == old(self).config,
            final(self).address == old(self).address,
            final(self).short_addr == old(self).short_addr,
            final(self).base == old(self).base,
            final(self).last_asn == old(self).last_asn,
            stats_le(old(self).stats, final(self).stats),
            r is Ok,
            match crate::mac_802154::packet::decoded_packet(rx.buf@, false) {
                Err(_) => *final(self) == (Mac {
                    stats: MacStats {
                        decode_error: bumped(old(self).stats.decode_error),
                        ..old(self).stats
                    },
                    ..*old(self)
                }),
                Ok(pv) => {
                    let filters_ok = old(self).pan_filter_ok(pv) && old(self).spec_addressed_here(
                        pv.header.destination,
                    );
                    &&& !filters_ok ==> *final(self) == *old(self)
                    &&& filters_ok ==> {
                        &&& final(self).stats == old(self).stats
                        &&& (pv.header.ack_request ==> (final(self).ack_state matches
                            AckState::Pending { packet, tx_time } && packet@
                            == crate::mac_802154::packet::ack_view_of(pv) && tx_time
                            == crate::wire::sat_add(now, old(self).config.ack_delay)))
                        &&& (!pv.header.ack_request ==> final(self).ack_state == old(self).ack_state)
                        &&& match pv.content {
                            FrameContent::Beacon(_) => {
                                &&& final(self).tx_buff == old(self).tx_buff
                                &&& final(self).rx_buff == old(self).rx_buff
                                &&& final(self).seq == old(self).seq
                                &&& final(self).assoc_state == old(self).assoc_state
                                &&& final(self).csma_state == old(self).csma_state
                                &&& old(self).config.pan_coordinator ==> final(self).sync_state
                                    == old(self).sync_state && final(self).sync_offset == old(self).sync_offset && final(self).next_beacon == old(self).next_beacon
                                    && final(self).beacon_miss_count == old(self).beacon_miss_count
                                &&& !old(self).config.pan_coordinator ==> match old(self).sync_state {
                                    SyncState::Unsynced => {
                                        &&& final(self).sync_state == SyncState::Synced(
                                            pv.header.source,
                                        )
                                        &&& final(self).sync_offset == now
                                        &&& final(self).next_beacon == crate::wire::sat_add(
                                            now,
                                            old(self).config.spec_superframe_duration() as u64,
                                        )
                                        &&& final(self).beacon_miss_count == 0
                                    },
                                    SyncState::Synced(parent) => if pv.header.source == parent {
                                        &&& final(self).sync_state == old(self).sync_state
                                        &&& final(self).next_beacon == crate::wire::sat_add(
                                            now,
                                            old(self).config.spec_superframe_duration() as u64,
                                        )
                                        &&& final(self).beacon_miss_count == 0
                                        &&& final(self).sync_offset == corrected_offset(
                                            old(self).sync_offset,
                                            old(self).next_beacon,
                                            now,
                                            old(self).config.spec_superframe_duration() as u64,
                                        )
                                    } else {
                                        &&& final(self).sync_state == old(self).sync_state
                                        &&& final(self).sync_offset == old(self).sync_offset
                                        &&& final(self).next_beacon == old(self).next_beacon
                                        &&& final(self).beacon_miss_count == old(self).beacon_miss_count
                                    },
                                }
                            },
                            FrameContent::Data => {
                                &&& final(self).tx_buff == old(self).tx_buff
                                &&& final(self).seq == old(self).seq
                                &&& final(self).sync_state == old(self).sync_state
                                &&& final(self).sync_offset == old(self).sync_offset
                                &&& final(self).next_beacon == old(self).next_beacon
                                &&& final(self).beacon_miss_count == old(self).beacon_miss_count
                                &&& final(self).assoc_state == old(self).assoc_state
                                &&& final(self).csma_state == old(self).csma_state
                                &&& old(self).rx_buff@.len() < crate::queue::QUEUE_CAP ==> {
                                    &&& final(self).rx_buff@.len() == old(self).rx_buff@.len() + 1
                                    &&& final(self).rx_buff@.subrange(
                                        0,
                                        old(self).rx_buff@.len() as int,
                                    ) == old(self).rx_buff@
                                    &&& final(self).rx_buff@.last().0 == (RxInfo {
                                        source: pv.header.source,
                                        rssi: rx.rssi,
                                    })
                                    &&& final(self).rx_buff@.last().1@ == pv
                                }
                                &&& old(self).rx_buff@.len() >= crate::queue::QUEUE_CAP ==> final(self).rx_buff@ == old(self).rx_buff@
                            },
                            FrameContent::Acknowledgement => {
                                &&& final(self).rx_buff == old(self).rx_buff
                                &&& final(self).seq == old(self).seq
                                &&& final(self).sync_state == old(self).sync_state
                                &&& final(self).sync_offset == old(self).sync_offset
                                &&& final(self).next_beacon == old(self).next_beacon
                                &&& final(self).beacon_miss_count == old(self).beacon_miss_count
                                &&& final(self).assoc_state == old(self).assoc_state
                                &&& if old(self).tx_buff@.len() > 0
                                    && crate::mac_802154::packet::view_is_ack_for(
                                    pv,
                                    old(self).tx_buff@[0].1@,
                                ) {
                                    final(self).tx_buff@ == old(self).tx_buff@.subrange(
                                        1,
                                        old(self).tx_buff@.len() as int,
                                    ) && final(self).csma_state is Idle
                                } else {
                                    final(self).tx_buff@ == old(self).tx_buff@ && final(self).csma_state == old(self).csma_state
                                }
                            },
                            FrameContent::Command(Command::AssociationRequest(_)) => {
                                &&& final(self).rx_buff == old(self).rx_buff
                                &&& final(self).sync_state == old(self).sync_state
                                &&& final(self).sync_offset == old(self).sync_offset
                                &&& final(self).next_beacon == old(self).next_beacon
                                &&& final(self).beacon_miss_count == old(self).beacon_miss_count
                                &&& final(self).assoc_state == old(self).assoc_state
                                &&& final(self).csma_state == old(self).csma_state
                                &&& !old(self).config.pan_coordinator ==> final(self).tx_buff
                                    == old(self).tx_buff && final(self).seq == old(self).seq
                                &&& old(self).config.pan_coordinator ==> {
                                    &&& final(self).seq == (old(self).seq + 1) % 256
                                    &&& old(self).tx_buff@.len() < crate::queue::QUEUE_CAP ==> {
                                        &&& final(self).tx_buff@.len() == old(self).tx_buff@.len() + 1
                                        &&& final(self).tx_buff@.subrange(
                                            0,
                                            old(self).tx_buff@.len() as int,
                                        ) == old(self).tx_buff@
                                        &&& final(self).tx_buff@.last().1@ == old(self).spec_assoc_response_frame(pv.header.source)
                                        &&& final(self).tx_buff@.last().0 == (TxState {
                                            pending: true,
                                            retries: 0,
                                        })
                                    }
                                    &&& old(self).tx_buff@.len() >= crate::queue::QUEUE_CAP
                                        ==> final(self).tx_buff@ == old(self).tx_buff@
                                }
                            },
                            FrameContent::Command(Command::AssociationResponse(_, status)) => {
                                &&& final(self).rx_buff == old(self).rx_buff
                                &&& final(self).tx_buff == old(self).tx_buff
                                &&& final(self).seq == old(self).seq
                                &&& final(self).sync_state == old(self).sync_state
                                &&& final(self).sync_offset == old(self).sync_offset
                                &&& final(self).next_beacon == old(self).next_beacon
                                &&& final(self).beacon_miss_count == old(self).beacon_miss_count
                                &&& final(self).csma_state == old(self).csma_state
                                &&& {
                                    let awaited = match old(self).assoc_state {
                                        AssocState::Pending(parent, _) => pv.header.source
                                            == parent,
                                        _ => false,
                                    };
                                    &&& !awaited ==> final(self).assoc_state == old(self).assoc_state
                                    &&& awaited && status
                                        == crate::mac_802154::packet::AssociationStatus::Successful
                                        ==> final(self).assoc_state == (
                                    match pv.header.source.spec_pan_id() {
                                        Option::Some(p) => AssocState::Associated(p),
                                        Option::None => AssocState::Unassociated,
                                    })
                                    &&& awaited && status
                                        != crate::mac_802154::packet::AssociationStatus::Successful
                                        ==> final(self).assoc_state == AssocState::Unassociated
                                }
                            },
                        }
                    }
                },
            },
    {
        // Decode; a malformed frame is counted and dropped.
        let p = match Packet::decode(rx.data(), false) {
            Ok(p) => p,
            Err(_e) => {
                self.stats.decode_error = self.stats.decode_error.saturating_add(1);
                return Ok(());
            },
        };

        // Filter by PAN: when associated, only the broadcast PAN and the
        // associated PAN pass.
        let pan = p.pan_id();
        if pan != crate::address::PAN_BROADCAST {
            match self.assoc_state {
                AssocState::Associated(id) => {
                    if pan != id {
                        return Ok(());
                    }
                },
                _ => {},
            }
        }

        // Filter by destination: broadcast, our short address, or our
        // extended address.
        let addressed_here = match (p.header.destination, self.short_addr) {
            (Address::Short(_, sa), _) if sa == crate::address::SHORT_BROADCAST => true,
            (Address::Short(_, sa), Option::Some(mine)) => sa == mine,
            (Address::Extended(_, ea), _) => ea == self.address,
            _ => false,
        };
        if !addressed_here {
            return Ok(());
        }

        // Arm the acknowledgement the sender asked for.
        if p.header.ack_request {
            let ack = Packet::ack(&p);
            proof {
                assert(ack@ =~= crate::mac_802154::packet::ack_view_of(p@));
            }
            self.ack_state = AckState::Pending {
                packet: ack,
                tx_time: saturating_add(now, self.config.ack_delay),
            };
        }

        match &p.content {
            FrameContent::Beacon(_b) => {
                if self.config.pan_coordinator {
                    // A coordinator keeps its own schedule.
                } else if matches!(self.sync_state, SyncState::Unsynced) {
                    // Adopt the sender as the synchronisation parent.
                    self.sync_state = SyncState::Synced(p.header.source);
                    self.sync_offset = now;
                    let sd = self.config.superframe_duration();
                    self.next_beacon = saturating_add(now, sd as u64);
                    self.beacon_miss_count = 0;
                } else {
                    let parent = match self.sync_state {
                        SyncState::Synced(parent) => parent,
                        SyncState::Unsynced => Address::Absent,
                    };
                    if p.header.source == parent {
                        // Correct drift by half the deviation from the
                        // expected beacon time, ignoring deviations of a
                        // tenth of a superframe or more.
                        let sd = self.config.superframe_duration() as u64;
                        if now >= self.next_beacon {
                            let delta = (now - self.next_beacon) % sd;
                            if delta < sd / 10 {
                                self.sync_offset = saturating_add(self.sync_offset, delta / 2);
                            }
                        } else {
                            let delta = (self.next_beacon - now) % sd;
                            if delta < sd / 10 {
                                self.sync_offset = self.sync_offset.saturating_sub(delta / 2);
                            }
                        }
                        self.next_beacon = saturating_add(now, sd);
                        self.beacon_miss_count = 0;
                    }
                }
            },
            FrameContent::Command(Command::AssociationRequest(_req)) => {
                // Only a coordinator answers association requests; the
                // no-assignment short address and a success status go back.
                if self.config.pan_coordinator {
                    let source = self.addr();
                    let seq = self.next_seq();
                    let resp = Packet::command(
                        p.header.source,
                        source,
                        seq,
                        Command::AssociationResponse(
                            0xFFFE,
                            crate::mac_802154::packet::AssociationStatus::Successful,
                        ),
                    );
                    proof {
                        assert(resp@ =~= old(self).spec_assoc_response_frame(p.header.source));
                    }
                    let _ = self.tx_buff.enqueue((TxState::start(), resp));
                }
            },
            FrameContent::Command(Command::AssociationResponse(_short, status)) => {
                // Only an answer from the awaited parent counts.
                let awaited = match self.assoc_state {
                    AssocState::Pending(parent, _) => p.header.source == parent,
                    _ => false,
                };
                if awaited {
                    if matches!(
                        status,
                        crate::mac_802154::packet::AssociationStatus::Successful,
                    ) {
                        match p.header.source.pan_id() {
                            Option::Some(parent_pan) => {
                                self.assoc_state = AssocState::Associated(parent_pan);
                            },
                            Option::None => {
                                self.assoc_state = AssocState::Unassociated;
                            },
                        }
                    } else {
                        self.assoc_state = AssocState::Unassociated;
                    }
                }
            },
            FrameContent::Acknowledgement => {
                // An acknowledgement of the queue head completes it; the
                // pending transmission attempt, if any, was for that
                // packet and ends with it.
                let acks_head = match self.tx_buff.peek() {
                    Option::Some(head) => p.is_ack_for(&head.1),
                    Option::None => false,
                };
                if acks_head {
                    let _ = self.tx_buff.dequeue();
                    self.csma_state = CsmaState::Idle;
                }
            },
            FrameContent::Data => {
                // Hand the payload up; a full queue drops it.
                let info = RxInfo { source: p.header.source, rssi: rx.rssi };
                let _ = self.rx_buff.enqueue((info, p));
            },
        }
        Ok(())
    }

    /// Transmit the pending acknowledgement once its time has come,
    /// counting it as late past the deadline: exactly its encoding is
    /// handed to the radio and the pending state clears.
    fn tick_ack(&mut self, now_ms: u64) -> (r: Result<(), CoreError<R::Error>>)
        requires
            old(self).wf(),
        ensures
            final(self).wf(),
            final(self).config == old(self).config,
            final(self).address == old(self).address,
            final(self).short_addr == old(self).short_addr,
            final(self).sync_state == old(self).sync_state,
            final(self).sync_offset == old(self).sync_offset,
            final(self).next_beacon == old(self).next_beacon,
            final(self).beacon_miss_count == old(self).beacon_miss_count,
            final(self).last_asn == old(self).last_asn,
            final(self).assoc_state == old(self).assoc_state,
            final(self).csma_state == old(self).csma_state,
            final(self).tx_buff == old(self).tx_buff,
            final(self).rx_buff == old(self).rx_buff,
            final(self).seq == old(self).seq,
            tx_log_ok(old(self).base.tx_log@, final(self).base.tx_log@, old(self).config.pan_id),
            stats_le(old(self).stats, final(self).stats),
            old(self).ack_state is Idle ==> *final(self) == *old(self) && r is Ok,
            match old(self).ack_state {
                AckState::Idle => true,
                AckState::Pending { packet, tx_time } => if now_ms < tx_time {
                    *final(self) == *old(self) && r is Ok
                } else {
                    match r {
                        Ok(()) => {
                            &&& final(self).ack_state is Idle
                            &&& final(self).base.tx_log@ == old(self).base.tx_log@.push(
                                crate::mac_802154::packet::encoded_packet(packet@),
                            )
                            &&& final(self).stats == (MacStats {
                                deadline_miss_ack: if now_ms > crate::wire::sat_add(
                                    tx_time,
                                    old(self).config.mac_deadline as u64,
                                ) {
                                    bumped(old(self).stats.deadline_miss_ack)
                                } else {
                                    old(self).stats.deadline_miss_ack
                                },
                                ..old(self).stats
                            })
                            &&& final(self).tx_buff == old(self).tx_buff
                            &&& final(self).rx_buff == old(self).rx_buff
                            &&& final(self).seq == old(self).seq
                            &&& final(self).sync_state == old(self).sync_state
                            &&& final(self).assoc_state == old(self).assoc_state
                            &&& final(self).csma_state == old(self).csma_state
                            &&& final(self).config == old(self).config
                        },
                        Err(e) => e is Radio || e is Busy,
                    }
                },
            },
    {
        let ack_due = match &self.ack_state {
            AckState::Pending { packet: _, tx_time } => *tx_time <= now_ms,
            AckState::Idle => false,
        };
        if !ack_due {
            return Ok(());
        }
        let bytes;
        let overdue;
        match &self.ack_state {
            AckState::Pending { packet, tx_time } => {
                bytes = packet.encode();
                overdue = now_ms > saturating_add(*tx_time, self.config.mac_deadline as u64);
                proof {
                    crate::mac_802154::packet::lemma_packet_roundtrip(packet@);
                }
            },
            AckState::Idle => {
                proof {
                    assert(false);
                }
                return Ok(());
            },
        }
        if overdue {
            self.stats.deadline_miss_ack = self.stats.deadline_miss_ack.saturating_add(1);
        }
        match self.base.transmit(now_ms, &bytes) {
            Ok(()) => {},
            Err(e) => {
                return Err(e);
            },
        }
        self.ack_state = AckState::Idle;
        Ok(())
    }

    /// Reconcile association with synchronisation: a freshly
    /// synchronised, unassociated engine asks its parent for
    /// association and waits for the answer until a deadline; an unmet
    /// deadline drops the wait; losing synchronisation while associated
    /// drops the association and counts the loss.
    fn reconcile(&mut self, now_ms: u64, last_sync: SyncState)
        requires
            old(self).wf(),
        ensures
            final(self).wf(),
            final(self).config == old(self).config,
            final(self).address == old(self).address,
            final(self).short_addr == old(self).short_addr,
            final(self).base == old(self).base,
            final(self).sync_state == old(self).sync_state,
            final(self).sync_offset == old(self).sync_offset,
            final(self).next_beacon == old(self).next_beacon,
            final(self).beacon_miss_count == old(self).beacon_miss_count,
            final(self).last_asn == old(self).last_asn,
            final(self).ack_state == old(self).ack_state,
            final(self).csma_state == old(self).csma_state,
            final(self).rx_buff == old(self).rx_buff,
            stats_le(old(self).stats, final(self).stats),
            match (old(self).sync_state, old(self).assoc_state) {
                (SyncState::Synced(parent), AssocState::Unassociated) => {
                    &&& final(self).assoc_state == AssocState::Pending(
                        parent,
                        crate::wire::sat_add(now_ms, old(self).config.assoc_timeout),
                    )
                    &&& final(self).seq == (old(self).seq + 1) % 256
                    &&& final(self).stats == old(self).stats
                    &&& old(self).tx_buff@.len() < crate::queue::QUEUE_CAP ==> {
                        &&& final(self).tx_buff@.len() == old(self).tx_buff@.len() + 1
                        &&& final(self).tx_buff@.subrange(0, old(self).tx_buff@.len() as int)
                            == old(self).tx_buff@
                        &&& final(self).tx_buff@.last().1@ == old(self).spec_assoc_request_frame(
                            parent,
                        )
                        &&& final(self).tx_buff@.last().0 == (TxState {
                            pending: true,
                            retries: 0,
                        })
                    }
                    &&& old(self).tx_buff@.len() >= crate::queue::QUEUE_CAP ==> final(self).tx_buff@ == old(self).tx_buff@
                },
                (SyncState::Synced(_), AssocState::Pending(par, expiry)) => {
                    &&& final(self).tx_buff == old(self).tx_buff
                    &&& final(self).seq == old(self).seq
                    &&& final(self).stats == old(self).stats
                    &&& final(self).assoc_state == (if now_ms > expiry {
                        AssocState::Unassociated
                    } else {
                        AssocState::Pending(par, expiry)
                    })
                },
                (SyncState::Unsynced, AssocState::Associated(pan)) => {
                    &&& final(self).tx_buff == old(self).tx_buff
                    &&& final(self).seq == old(self).seq
                    &&& if last_sync is Unsynced {
                        final(self).assoc_state == AssocState::Associated(pan) && final(self).stats == old(self).stats
                    } else {
                        final(self).assoc_state is Unassociated && final(self).stats
                            == (MacStats {
                            sync_fail: bumped(old(self).stats.sync_fail),
                            ..old(self).stats
                        })
                    }
                },
                _ => *final(self) == *old(self),
            },
    {
        match (self.sync_state, self.assoc_state) {
            (SyncState::Synced(parent), AssocState::Unassociated) => {
                // Freshly synchronised: ask the parent for association.
                let caps = CapabilityInformation {
                    allocate_address: true,
                    frame_protection: false,
                    full_function_device: true,
                    mains_power: false,
                    idle_receive: false,
                };
                let source = self.addr();
                let seq = self.next_seq();
                let assoc = Packet::command(
                    parent,
                    source,
                    seq,
                    Command::AssociationRequest(caps),
                );
                proof {
                    assert(assoc@ =~= old(self).spec_assoc_request_frame(parent));
                }
                let _ = self.tx_buff.enqueue((TxState::start(), assoc));
                self.assoc_state = AssocState::Pending(
                    parent,
                    saturating_add(now_ms, self.config.assoc_timeout),
                );
            },
            (SyncState::Synced(_parent), AssocState::Pending(_assoc_parent, expiry)) => {
                if now_ms > expiry {
                    self.assoc_state = AssocState::Unassociated;
                }
            },
            (SyncState::Unsynced, AssocState::Associated(_pan)) => {
                if !matches!(last_sync, SyncState::Unsynced) {
                    self.stats.sync_fail = self.stats.sync_fail.saturating_add(1);
                    self.assoc_state = AssocState::Unassociated;
                }
            },
            _ => {},
        }
    }

    /// One cooperative step of the whole engine at the clock's current
    /// time: the clock is read once and the step runs at that reading.
    pub fn tick(&mut self) -> (r: Result<(), CoreError<R::Error>>)
        requires
            old(self).wf(),
        ensures
            final(self).wf(),
            final(self).config == old(self).config,
            final(self).address == old(self).address,
            final(self).short_addr == old(self).short_addr,
            tx_log_ok(old(self).base.tx_log@, final(self).base.tx_log@, old(self).config.pan_id),
            stats_le(old(self).stats, final(self).stats),
            r matches Err(e) ==> e is Radio || e is Busy,
    {
        let now_ms = self.timer.ticks_ms();
        self.tick_at(now_ms)
    }

    /// One cooperative step of the whole engine at `now_ms`: poll the
    /// radio and handle anything received, run the beacon slot at
    /// superframe starts, send a due acknowledgement, run the contention
    /// access period, and reconcile the association state machine with
    /// synchronisation. The served slot is recorded so that the next
    /// step treats it as already begun. Lifecycle conditions are
    /// absorbed; only the radio raises errors.
    #[verifier::rlimit(100)]
    pub fn tick_at(&mut self, now_ms: u64) -> (r: Result<(), CoreError<R::Error>>)
        requires
            old(self).wf(),
        ensures
            final(self).wf(),
            final(self).config == old(self).config,
            final(self).address == old(self).address,
            final(self).short_addr == old(self).short_addr,
            tx_log_ok(old(self).base.tx_log@, final(self).base.tx_log@, old(self).config.pan_id),
            stats_le(old(self).stats, final(self).stats),
            r is Ok ==> final(self).last_asn == old(self).config.spec_asn(
                now_ms,
                old(self).sync_offset,
            ),
            r matches Err(e) ==> e is Radio || e is Busy,
            r is Ok && old(self).config.pan_coordinator && old(self).config.spec_rsn(
                now_ms,
                old(self).sync_offset,
            ) == 0 && !old(self).beacon_idle(
                now_ms,
                old(self).config.spec_asn(now_ms, old(self).sync_offset),
            ) && !old(self).beacon_desync(now_ms) ==> final(self).next_beacon
                == crate::wire::sat_add(
                old(self).next_beacon,
                old(self).config.spec_superframe_duration() as u64,
            ) && exists|j: int, sq: u8|
                #![trigger final(self).base.tx_log@[j], old(self).spec_beacon_frame_with_seq(sq)]
                old(self).base.tx_log@.len() <= j < final(self).base.tx_log@.len() && final(self).base.tx_log@[j] == crate::mac_802154::packet::encoded_packet(
                    old(self).spec_beacon_frame_with_seq(sq),
                ),
            r is Ok ==> match old(self).ack_state {
                AckState::Idle => true,
                AckState::Pending { packet, tx_time } => now_ms >= tx_time ==> {
                    ||| exists|j: int|
                        old(self).base.tx_log@.len() <= j < final(self).base.tx_log@.len()
                            && #[trigger] final(self).base.tx_log@[j]
                            == crate::mac_802154::packet::encoded_packet(packet@)
                    ||| (final(self).ack_state matches AckState::Pending { packet: p2, tx_time: t2 }
                        && t2 == crate::wire::sat_add(now_ms, old(self).config.ack_delay))
                    ||| (crate::wire::sat_add(now_ms, old(self).config.ack_delay) <= now_ms
                        && final(self).ack_state is Idle)
                },
            },
            r is Ok ==> match old(self).sync_state {
                SyncState::Unsynced => true,
                SyncState::Synced(parent) => old(self).assoc_state is Unassociated ==> final(self).assoc_state == AssocState::Pending(
                    parent,
                    crate::wire::sat_add(now_ms, old(self).config.assoc_timeout),
                ) || (final(self).sync_state is Unsynced && final(self).assoc_state is Unassociated),
            },
            r is Ok ==> match old(self).assoc_state {
                AssocState::Pending(par, expiry) => now_ms > expiry ==> final(self).assoc_state
                    != AssocState::Pending(par, expiry) || final(self).sync_state is Unsynced,
                _ => true,
            },
            r is Ok && old(self).sync_state is Synced && old(self).assoc_state is Associated ==> (
            final(self).sync_state is Synced && final(self).assoc_state == old(self).assoc_state)
                || (final(self).sync_state is Unsynced && final(self).assoc_state is Unassociated
                && final(self).stats.sync_fail == bumped(old(self).stats.sync_fail)),
    {
        let ghost log0 = self.base.tx_log@;
        let ghost pan = self.config.pan_id;
        let last_sync_state = self.sync_state;

        let asn = self.config.calculate_asn(now_ms, self.sync_offset);
        let rsn = self.config.calculate_rsn(now_ms, self.sync_offset);

        // Poll the radio; handle a completed reception.
        match self.base.tick(now_ms) {
            Ok(Option::Some(rx)) => {
                match self.handle_received(now_ms, rx) {
                    Ok(()) => {},
                    Err(e) => {
                        return Err(e);
                    },
                }
            },
            Ok(Option::None) => {},
            Err(e) => {
                return Err(e);
            },
        }
        let ghost log1 = self.base.tx_log@;
        let ghost stats1 = self.stats;
        let ghost mid_rx = *self;
        proof {
            assert(log1 == log0);
        }

        // The first slot of each superframe carries the beacon.
        if rsn == 0 {
            match self.tick_beacon(now_ms, asn) {
                Ok(()) => {},
                Err(e) => {
                    proof {
                        lemma_tx_log_ok_trans(log0, log1, self.base.tx_log@, pan);
                    }
                    return Err(e);
                },
            }
        }
        let ghost log2 = self.base.tx_log@;
        let ghost mid_beacon = *self;
        proof {
            lemma_tx_log_ok_trans(log0, log1, log2, pan);
        }

        // Transmit a due acknowledgement, counting late ones.
        match self.tick_ack(now_ms) {
            Ok(()) => {},
            Err(e) => {
                proof {
                    lemma_tx_log_ok_trans(log0, log2, self.base.tx_log@, pan);
                }
                return Err(e);
            },
        }
        let ghost log3 = self.base.tx_log@;
        let ghost mid_ack = *self;
        proof {
            lemma_tx_log_ok_trans(log0, log2, log3, pan);
        }

        // Contention access period.
        match self.tick_cap(now_ms, asn) {
            Ok(()) => {},
            Err(e) => {
                proof {
                    lemma_tx_log_ok_trans(log0, log3, self.base.tx_log@, pan);
                }
                return Err(e);
            },
        }
        proof {
            lemma_tx_log_ok_trans(log0, log3, self.base.tx_log@, pan);
        }

        // Reconcile association with synchronisation.
        self.reconcile(now_ms, last_sync_state);

        proof {
            // A coordinator's due beacon went out in the beacon step: the
            // reception handler leaves a coordinator's schedule fields
            // alone, so the step saw the entry conditions unchanged, and
            // the beacon it logged survives as the later steps only
            // append.
            if old(self).config.pan_coordinator && old(self).config.spec_rsn(
                now_ms,
                old(self).sync_offset,
            ) == 0 && !old(self).beacon_idle(now_ms, asn) && !old(self).beacon_desync(now_ms) {
                assert(mid_rx.next_beacon == old(self).next_beacon);
                assert(mid_rx.sync_state == old(self).sync_state);
                assert(mid_rx.beacon_miss_count == old(self).beacon_miss_count);
                assert(mid_rx.last_asn == old(self).last_asn);
                assert(mid_rx.config == old(self).config);
                assert(!mid_rx.beacon_idle(now_ms, asn));
                assert(!mid_rx.beacon_desync(now_ms));
                assert(log2 == log1.push(
                    crate::mac_802154::packet::encoded_packet(mid_rx.spec_beacon_frame()),
                ));
                assert(mid_rx.spec_beacon_frame() =~= old(self).spec_beacon_frame_with_seq(
                    mid_rx.seq,
                ));
                assert(log2 =~= log3.subrange(0, log2.len() as int));
                assert(log3 =~= self.base.tx_log@.subrange(0, log3.len() as int));
                assert(self.base.tx_log@[log1.len() as int]
                    == crate::mac_802154::packet::encoded_packet(
                    old(self).spec_beacon_frame_with_seq(mid_rx.seq),
                ));
                assert(log1.len() >= log0.len());
            }

            // The due acknowledgement was either transmitted by the
            // acknowledgement step or superseded by one freshly armed for
            // the frame received this very tick.
            match old(self).ack_state {
                AckState::Idle => {},
                AckState::Pending { packet, tx_time } => {
                    if now_ms >= tx_time {
                        match mid_beacon.ack_state {
                            AckState::Idle => {},
                            AckState::Pending { packet: pm, tx_time: tm } => {
                                if now_ms >= tm {
                                    assert(log3 == log2.push(
                                        crate::mac_802154::packet::encoded_packet(pm@),
                                    ));
                                    assert(log3 =~= self.base.tx_log@.subrange(
                                        0,
                                        log3.len() as int,
                                    ));
                                    assert(self.base.tx_log@[log2.len() as int]
                                        == crate::mac_802154::packet::encoded_packet(pm@));
                                    assert(log2.len() >= log0.len());
                                }
                            },
                        }
                    }
                },
            }
        }
        self.last_asn = asn;
        Ok(())
    }
}

impl<R: Radio, T: Timer> MacIf for Mac<R, T> {
    type Error = CoreError<R::Error>;

    /// The engine's invariant.
    open spec fn inv(&self) -> bool {
        self.wf()
    }

    /// The models of the queued outbound frames.
    open spec fn tx_queue(&self) -> Seq<crate::mac_802154::packet::PacketView> {
        self.tx_buff@.map_values(|e: (TxState, Packet)| e.1@)
    }

    /// Connection state: associated to the parent, synchronised to it,
    /// or disconnected.
    fn state(&self) -> (r: Result<MacState, CoreError<R::Error>>)
        ensures
            r == Ok::<_, CoreError<R::Error>>(
                match self.sync_state {
                    SyncState::Synced(parent) => if self.assoc_state is Associated {
                        MacState::Associated(parent)
                    } else {
                        MacState::Synced(parent)
                    },
                    SyncState::Unsynced => MacState::Disconnected,
                },
            ),
    {
        match self.sync_state {
            SyncState::Synced(parent) => {
                if matches!(self.assoc_state, AssocState::Associated(_)) {
                    Ok(MacState::Associated(parent))
                } else {
                    Ok(MacState::Synced(parent))
                }
            },
            SyncState::Unsynced => Ok(MacState::Disconnected),
        }
    }

    fn tick(&mut self) -> (r: Result<(), CoreError<R::Error>>) {
        self.tick()
    }

    fn busy(&mut self) -> (r: Result<bool, CoreError<R::Error>>) {
        self.busy()
    }

    fn can_transmit(&self) -> (r: Result<bool, CoreError<R::Error>>) {
        self.can_transmit()
    }

    fn transmit(&mut self, dest: Address, data: &Vec<u8>, ack: bool) -> (r: Result<
        (),
        CoreError<R::Error>,
    >) {
        let r = self.transmit(dest, data, ack);
        proof {
            if r is Ok {
                assert(MacIf::tx_queue(self) =~= MacIf::tx_queue(&*old(self)).push(
                    self.tx_buff@.last().1@,
                ));
            } else {
                assert(MacIf::tx_queue(self) =~= MacIf::tx_queue(&*old(self)));
            }
        }
        r
    }

    fn receive(&mut self, data: &mut Vec<u8>) -> (r: Result<
        Option<(usize, RxInfo)>,
        CoreError<R::Error>,
    >) {
        self.receive(data)
    }
}



/// The queues never outgrow their capacity: in every well-formed engine
/// state — established at construction and preserved by every operation
/// — the receive and transmit queues hold at most sixteen entries each.
pub proof fn lemma_queue_bounds<R: Radio, T: Timer>(m: &Mac<R, T>)
    requires
        m.wf(),
    ensures
        m.tx_buff@.len() <= 16,
        m.rx_buff@.len() <= 16,
{
}

/// Outbound PAN scoping: in every well-formed engine state, each frame
/// waiting in the transmit queue carries the configured PAN as its
/// source PAN. While the engine is associated to its configured PAN —
/// as a coordinator always is, and as a device is whenever its parent
/// answered from that PAN — every queued outbound frame therefore
/// carries the associated PAN. Acknowledgement frames mirror the
/// addressing of the frame they answer and are outside this statement,
/// as are associations to a PAN other than the configured one.
pub proof fn lemma_outbound_pan_scoped<R: Radio, T: Timer>(m: &Mac<R, T>, p: u16)
    requires
        m.wf(),
        m.assoc_state == AssocState::Associated(p),
        p == m.config.pan_id,
    ensures
        forall|i: int|
            #![trigger m.tx_buff@[i]]
            0 <= i < m.tx_buff@.len() ==> m.tx_buff@[i].1.header.source.spec_pan_id()
                == Option::<u16>::Some(p),
{
    assert forall|i: int| 0 <= i < m.tx_buff@.len() implies #[trigger] m.tx_buff@[
        i
    ].1.header.source.spec_pan_id() == Option::<u16>::Some(p) by {
        assert(queued_tx_ok(m.tx_buff@[i].1, m.config.pan_id));
    }
}


} // verus!

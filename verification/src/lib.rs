//! Low-power wide-area network stack: an IEEE 802.15.4-style MAC with
//! beacon-synchronised superframes, CSMA-CA and software acknowledgements,
//! and a 6LoWPAN adaptation layer with datagram fragmentation, all driven
//! cooperatively from a single periodic tick.

use vstd::prelude::*;

pub mod address;
pub mod base;
pub mod error;
pub mod mac_802154;
pub mod queue;
pub mod sixlo;
pub mod timer;
pub mod wire;

verus! {

/// Timestamps are 64-bit milliseconds from an arbitrary monotonic epoch.
pub type Ts = u64;

/// Capacity of a raw radio packet buffer in bytes.
pub const RAW_PACKET_LEN: usize = 256;

/// Statically bounded packet buffer with the received signal strength.
#[derive(Clone, Debug)]
pub struct RawPacket {
    /// Packet bytes; never longer than [`RAW_PACKET_LEN`].
    pub buf: Vec<u8>,
    /// Receive RSSI in dBm.
    pub rssi: i16,
}

impl RawPacket {
    /// All raw packets fit the fixed radio buffer.
    pub open spec fn wf(&self) -> bool {
        self.buf@.len() <= RAW_PACKET_LEN
    }

    /// Fetch the packet bytes.
    pub fn data(&self) -> (r: &Vec<u8>)
        ensures
            r@ == self.buf@,
    {
        &self.buf
    }
}


/// Information delivered alongside a received payload.
#[derive(Clone, Copy, Debug, PartialEq, Eq, Structural)]
pub struct RxInfo {
    /// Source address of the frame.
    pub source: crate::address::Address,
    /// Receive RSSI in dBm.
    pub rssi: i16,
}

/// Connection state a MAC reports to the layers above it.
#[derive(Clone, Copy, Debug, PartialEq, Eq, Structural)]
pub enum MacState {
    /// Neither synchronised nor associated.
    Disconnected,
    /// Synchronised to a parent's beacons.
    Synced(crate::address::Address),
    /// Associated with a parent.
    Associated(crate::address::Address),
}

/// What a MAC error reveals to the layers above it.
pub trait MacError {
    /// Whether the error signals queue exhaustion, the back-pressure case.
    fn queue_full(&self) -> bool;
}

/// Radio capability this stack drives: non-blocking start and poll
/// operations. Implementations live with the host; the stack asks
/// nothing of their results beyond their types, and its own guarantees
/// hold for every behaviour of the radio.
pub trait Radio {
    /// Driver-specific error type.
    type Error;

    /// Put the radio to sleep.
    fn set_sleep(&mut self) -> Result<(), Self::Error>;

    /// Begin transmitting `data`; completion is polled.
    fn start_transmit(&mut self, data: &Vec<u8>) -> Result<(), Self::Error>;

    /// Whether the running transmission has completed.
    fn check_transmit(&mut self) -> Result<bool, Self::Error>;

    /// Enter receive mode.
    fn start_receive(&mut self) -> Result<(), Self::Error>;

    /// Whether a packet has been received; `restart` re-arms the
    /// receiver afterwards.
    fn check_receive(&mut self, restart: bool) -> Result<bool, Self::Error>;

    /// Fetch the received packet; it fits the fixed radio buffer.
    fn get_received(&mut self) -> (r: Result<RawPacket, Self::Error>)
        ensures
            r matches Ok(p) ==> p.wf(),
    ;

    /// Sample the channel RSSI in dBm.
    fn poll_rssi(&mut self) -> Result<i16, Self::Error>;
}

/// Network interface a MAC offers to the layers above it. Every
/// implementation names its own invariant, which each operation
/// preserves and the layers above keep standing.
pub trait Mac {
    /// The MAC's error type.
    type Error;

    /// The implementation's internal invariant.
    spec fn inv(&self) -> bool;

    /// Models of the outbound frames queued below, oldest first.
    spec fn tx_queue(&self) -> Seq<crate::mac_802154::packet::PacketView>;

    /// Fetch the connection state.
    fn state(&self) -> Result<MacState, Self::Error>
        requires
            self.inv(),
    ;

    /// Advance the MAC's state machines; called periodically.
    fn tick(&mut self) -> (r: Result<(), Self::Error>)
        requires
            old(self).inv(),
        ensures
            final(self).inv(),
    ;

    /// Whether the MAC asks the layers above to hold back new work.
    fn busy(&mut self) -> (r: Result<bool, Self::Error>)
        requires
            old(self).inv(),
        ensures
            final(self).inv(),
    ;

    /// Whether the transmit queue has a free slot.
    fn can_transmit(&self) -> Result<bool, Self::Error>
        requires
            self.inv(),
    ;

    /// Queue `data` for transmission to `dest`, requesting an
    /// acknowledgement if `ack`: on success exactly that payload joins
    /// the tail of the outbound queue, else the queue is unchanged.
    fn transmit(&mut self, dest: crate::address::Address, data: &Vec<u8>, ack: bool) -> (r: Result<
        (),
        Self::Error,
    >)
        requires
            old(self).inv(),
            data@.len() <= crate::mac_802154::packet::MAX_PAYLOAD_LEN,
        ensures
            final(self).inv(),
            r is Ok ==> final(self).tx_queue() == old(self).tx_queue().push(
                final(self).tx_queue().last(),
            ) && final(self).tx_queue().last().payload == data@ && final(self).tx_queue().last().header.destination == dest && final(self).tx_queue().last().header.ack_request == ack,
            r is Err ==> final(self).tx_queue() == old(self).tx_queue(),
    ;

    /// Deliver the next received payload into `data`, replacing its
    /// contents, together with its receive information.
    fn receive(&mut self, data: &mut Vec<u8>) -> (r: Result<Option<(usize, RxInfo)>, Self::Error>)
        requires
            old(self).inv(),
        ensures
            final(self).inv(),
            r matches Ok(Some((n, info))) ==> final(data)@.len() == n && n
                <= crate::mac_802154::packet::MAX_PAYLOAD_LEN,
    ;
}


} // verus!

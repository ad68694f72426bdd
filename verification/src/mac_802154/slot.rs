//! Slot timing vocabulary for scheduled transmit and receive windows.

use vstd::prelude::*;

use crate::Ts;

verus! {

/// Timing of one slot: deadlines and turn-around delays within it.
#[derive(Clone, Copy, Debug, PartialEq, Eq, Structural)]
pub struct SlotConfig {
    /// Total slot time.
    pub slot_len: Ts,
    /// State transfer deadline.
    pub deadline: Ts,
    /// Delay from slot start to enabling receive mode.
    pub rx_delay: Ts,
    /// Timeout for receiving in a slot, where the radio can signal an
    /// ongoing reception.
    pub rx_timeout: Option<Ts>,
    /// Delay from receive completion to sending an acknowledgement.
    pub rx_ack_delay: Ts,
    /// Delay from slot start to enabling transmit mode.
    pub tx_delay: Ts,
    /// Delay from transmit completion to awaiting an acknowledgement.
    pub tx_ack_delay: Ts,
    /// Timeout for the acknowledgement after a transmission.
    pub tx_ack_timeout: Ts,
}

/// What a slot is for.
#[derive(Clone, Copy, Debug, PartialEq, Eq, Structural)]
pub enum Kind {
    /// A transmit slot.
    Tx,
    /// A receive slot.
    Rx,
}

/// Progress within a slot.
#[derive(Clone, Copy, Debug, PartialEq, Eq, Structural)]
pub enum State {
    /// Slot entered, nothing started.
    Start,
    /// Receiving.
    Rx,
    /// Transmitting.
    Tx,
    /// Awaiting the acknowledgement of a transmission.
    RxAck,
    /// Sending the acknowledgement of a reception.
    TxAck,
}

/// Operation a slot schedule asks the radio for next.
#[derive(Clone, Copy, Debug, PartialEq, Eq, Structural)]
pub enum Op {
    /// Wait until the given time.
    Wait(Ts),
    /// Assess the channel.
    Cca,
    /// Enter receive mode.
    StartRx,
    /// Enter transmit mode.
    StartTx,
}

} // verus!

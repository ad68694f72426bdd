//! IEEE 802.15.4-style addressing: PAN identifiers together with short
//! (16-bit) or extended (64-bit) device addresses.

use vstd::prelude::*;

verus! {

/// The short address reserved for broadcast.
pub const SHORT_BROADCAST: u16 = 0xFFFF;

/// The extended address reserved for broadcast.
pub const EXTENDED_BROADCAST: u64 = 0xFFFF_FFFF_FFFF_FFFF;

/// The PAN identifier reserved for broadcast.
pub const PAN_BROADCAST: u16 = 0xFFFF;

/// A MAC address: absent, or a PAN identifier paired with either a 16-bit
/// short address or a 64-bit extended address.
#[derive(Clone, Copy, Debug, PartialEq, Eq, Structural)]
pub enum Address {
    /// No address present.
    Absent,
    /// PAN identifier and short address.
    Short(u16, u16),
    /// PAN identifier and extended address.
    Extended(u16, u64),
}

impl Address {
    /// The short broadcast address on the broadcast PAN.
    pub fn broadcast() -> (r: Address)
        ensures
            r == Address::Short(PAN_BROADCAST, SHORT_BROADCAST),
    {
        Address::Short(PAN_BROADCAST, SHORT_BROADCAST)
    }

    /// The PAN identifier carried by this address, if any.
    pub open spec fn spec_pan_id(self) -> Option<u16> {
        match self {
            Address::Absent => Option::None,
            Address::Short(pan, _) => Option::Some(pan),
            Address::Extended(pan, _) => Option::Some(pan),
        }
    }

    /// Fetch the PAN identifier carried by this address, if any.
    pub fn pan_id(&self) -> (r: Option<u16>)
        ensures
            r == self.spec_pan_id(),
    {
        match self {
            Address::Absent => Option::None,
            Address::Short(pan, _) => Option::Some(*pan),
            Address::Extended(pan, _) => Option::Some(*pan),
        }
    }

    /// Whether this address is a unicast destination: a concrete short or
    /// extended address that is not the respective broadcast value.
    pub open spec fn spec_is_unicast(self) -> bool {
        match self {
            Address::Absent => false,
            Address::Short(_, s) => s != SHORT_BROADCAST,
            Address::Extended(_, e) => e != EXTENDED_BROADCAST,
        }
    }

    /// Whether this address is a unicast destination, determining whether
    /// transmissions to it request an acknowledgement.
    pub fn is_unicast(&self) -> (r: bool)
        ensures
            r == self.spec_is_unicast(),
    {
        match self {
            Address::Absent => false,
            Address::Short(_, s) => *s != SHORT_BROADCAST,
            Address::Extended(_, e) => *e != EXTENDED_BROADCAST,
        }
    }
}

} // verus!

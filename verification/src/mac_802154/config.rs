//! MAC engine configuration and slot arithmetic.

use vstd::arithmetic::power2::{lemma2_to64, lemma_pow2_pos, lemma_pow2_unfold, pow2};
use vstd::prelude::*;

use crate::wire::{sat_add, saturating_add};
use crate::mac_802154::packet::{BeaconOrder, SuperframeOrder, SuperframeSpecification};

verus! {

/// MAC engine configuration; immutable after construction.
#[derive(Clone, Copy, Debug, PartialEq, Eq, Structural)]
pub struct Config {
    /// Whether this node coordinates the PAN, broadcasting beacons.
    pub pan_coordinator: bool,
    /// PAN this node belongs to or coordinates.
    pub pan_id: u16,
    /// Base superframe duration in milliseconds.
    pub base_superframe_duration: u32,
    /// Beacon order: the beacon period is the base superframe duration
    /// times two to this order.
    pub mac_beacon_order: BeaconOrder,
    /// Superframe order: how much of the superframe is active.
    pub mac_superframe_order: SuperframeOrder,
    /// Base slot duration in milliseconds.
    pub base_slot_duration: u32,
    /// Missed beacons tolerated before synchronisation is dropped.
    pub max_beacon_misses: u32,
    /// Timeout for association requests in milliseconds.
    pub assoc_timeout: u64,
    /// Battery life extension: clamps the initial backoff exponent.
    pub battery_life_extension: bool,
    /// Retries before a queued packet is dropped.
    pub max_retries: u8,
    /// Delay between packet receipt and its acknowledgement.
    pub ack_delay: u64,
    /// Minimum backoff exponent.
    pub min_be: u8,
    /// Maximum backoff exponent.
    pub max_be: u8,
    /// RSSI above which the channel counts as occupied, in dBm.
    pub channel_clear_threshold: i16,
    /// Clear-channel assessments tolerated before a transmission is
    /// abandoned.
    pub csma_max_backoffs: u8,
    /// Tolerated schedule slip for MAC deadlines, in milliseconds.
    pub mac_deadline: u32,
}

impl Config {
    /// The slot arithmetic stays within its types: a periodic beacon
    /// order whose superframe duration fits, a positive slot no longer
    /// than the superframe, and backoff exponents within the backoff
    /// formula's range. The on-demand beacon order is excluded outright:
    /// it makes the superframe duration zero, so no slot or superframe
    /// number can be computed under it, and this engine runs
    /// beacon-synchronised superframes only.
    pub open spec fn wf(&self) -> bool {
        &&& match self.mac_beacon_order {
            BeaconOrder::BeaconOrder(o) => o <= 14 && self.base_superframe_duration * pow2(
                o as nat,
            ) <= u32::MAX,
            BeaconOrder::OnDemand => false,
        }
        &&& match self.mac_superframe_order {
            SuperframeOrder::SuperframeOrder(o) => o <= 14,
            SuperframeOrder::Inactive => true,
        }
        &&& 1 <= self.base_slot_duration <= self.base_superframe_duration
        &&& 1 <= self.min_be <= self.max_be <= 15
    }

    /// Milliseconds per superframe.
    pub open spec fn spec_superframe_duration(&self) -> u32
        recommends
            self.wf(),
    {
        match self.mac_beacon_order {
            BeaconOrder::BeaconOrder(o) => (self.base_superframe_duration * pow2(o as nat)) as u32,
            BeaconOrder::OnDemand => 0,
        }
    }

    /// Compute the milliseconds per superframe.
    pub fn superframe_duration(&self) -> (r: u32)
        requires
            self.wf(),
        ensures
            r == self.spec_superframe_duration(),
            r >= self.base_superframe_duration >= 1,
    {
        let o: u8 = match self.mac_beacon_order {
            BeaconOrder::BeaconOrder(o) => o,
            BeaconOrder::OnDemand => 0,
        };
        let mut m: u32 = self.base_superframe_duration;
        let mut i: u8 = 0;
        proof {
            lemma2_to64();
            assert(pow2(0) == 1);
        }
        while i < o
            invariant
                i <= o <= 14,
                self.wf(),
                self.mac_beacon_order == BeaconOrder::BeaconOrder(o),
                m == self.base_superframe_duration * pow2(i as nat),
            decreases o - i,
        {
            proof {
                lemma_pow2_unfold((i + 1) as nat);
                if i + 1 < o {
                    vstd::arithmetic::power2::lemma_pow2_strictly_increases(
                        (i + 1) as nat,
                        o as nat,
                    );
                }
                assert(self.base_superframe_duration * pow2((i + 1) as nat)
                    <= self.base_superframe_duration * pow2(o as nat)) by (nonlinear_arith)
                    requires
                        pow2((i + 1) as nat) <= pow2(o as nat),
                        self.base_superframe_duration >= 0,
                ;
                assert(self.base_superframe_duration * pow2((i + 1) as nat)
                    == self.base_superframe_duration * pow2(i as nat) * 2) by (nonlinear_arith)
                    requires
                        pow2((i + 1) as nat) == 2 * pow2(i as nat),
                ;
            }
            m = m * 2;
            i += 1;
        }
        proof {
            lemma_pow2_pos(o as nat);
            assert(self.base_superframe_duration * pow2(o as nat)
                >= self.base_superframe_duration * 1) by (nonlinear_arith)
                requires
                    pow2(o as nat) >= 1,
                    self.base_superframe_duration >= 0,
            ;
        }
        m
    }

    /// The superframe specification beacons broadcast for this
    /// configuration: the two orders, the coordinator flag, association
    /// permitted, and a zero final CAP slot.
    pub fn superframe_spec(&self) -> (r: SuperframeSpecification)
        ensures
            r == (SuperframeSpecification {
                beacon_order: self.mac_beacon_order,
                superframe_order: self.mac_superframe_order,
                pan_coordinator: self.pan_coordinator,
                battery_life_extension: false,
                association_permit: true,
                final_cap_slot: 0,
            }),
    {
        SuperframeSpecification {
            beacon_order: self.mac_beacon_order,
            superframe_order: self.mac_superframe_order,
            pan_coordinator: self.pan_coordinator,
            battery_life_extension: false,
            association_permit: true,
            final_cap_slot: 0,
        }
    }

    /// Base slots per base superframe.
    pub open spec fn spec_slots_per_slotframe(&self) -> u64
        recommends
            self.wf(),
    {
        (self.base_superframe_duration / self.base_slot_duration) as u64
    }

    /// Compute the base slots per base superframe.
    pub fn slots_per_slotframe(&self) -> (r: u64)
        requires
            self.wf(),
        ensures
            r == self.spec_slots_per_slotframe(),
            r >= 1,
    {
        proof {
            assert(self.base_superframe_duration / self.base_slot_duration >= 1)
                by (nonlinear_arith)
                requires
                    1 <= self.base_slot_duration <= self.base_superframe_duration,
            ;
        }
        (self.base_superframe_duration / self.base_slot_duration) as u64
    }

    /// Superframe number at `now` under `offset`; time sums saturate.
    pub open spec fn spec_sfn(&self, now: u64, offset: u64) -> u64
        recommends
            self.wf(),
    {
        (sat_add(now, offset) / self.spec_superframe_duration() as u64) as u64
    }

    /// Absolute slot number at `now` under `offset`; time sums saturate.
    pub open spec fn spec_asn(&self, now: u64, offset: u64) -> u64
        recommends
            self.wf(),
    {
        (sat_add(now, offset) / self.base_slot_duration as u64) as u64
    }

    /// Relative slot number within the superframe at `now`.
    pub open spec fn spec_rsn(&self, now: u64, offset: u64) -> u64
        recommends
            self.wf(),
    {
        (self.spec_asn(now, offset) % self.spec_slots_per_slotframe()) as u64
    }

    /// Compute the superframe number at `now` under `offset`.
    pub fn calculate_sfn(&self, now: u64, offset: u64) -> (r: u64)
        requires
            self.wf(),
        ensures
            r == self.spec_sfn(now, offset),
    {
        let shifted = saturating_add(now, offset);
        let sd = self.superframe_duration();
        shifted / sd as u64
    }

    /// Compute the absolute slot number at `now` under `offset`.
    pub fn calculate_asn(&self, now: u64, offset: u64) -> (r: u64)
        requires
            self.wf(),
        ensures
            r == self.spec_asn(now, offset),
    {
        let shifted = saturating_add(now, offset);
        shifted / self.base_slot_duration as u64
    }

    /// Compute the relative slot number within the superframe at `now`.
    pub fn calculate_rsn(&self, now: u64, offset: u64) -> (r: u64)
        requires
            self.wf(),
        ensures
            r == self.spec_rsn(now, offset),
    {
        self.calculate_asn(now, offset) % self.slots_per_slotframe()
    }
}

impl Default for Config {
    /// One-second base superframes of ten slots with a doubled beacon
    /// period, a ten-second association timeout, five retries, and the
    /// standard CSMA parameters.
    fn default() -> (r: Config)
        ensures
            r == default_config(),
            r.wf(),
    {
        proof {
            lemma2_to64();
        }
        Config {
            pan_coordinator: false,
            pan_id: 0x0100,
            base_superframe_duration: 1000,
            base_slot_duration: 100,
            mac_beacon_order: BeaconOrder::BeaconOrder(1),
            mac_superframe_order: SuperframeOrder::SuperframeOrder(0),
            mac_deadline: 10,
            max_beacon_misses: 10,
            assoc_timeout: 10 * 1000,
            battery_life_extension: true,
            max_retries: 5,
            ack_delay: 50,
            min_be: 2,
            max_be: 5,
            csma_max_backoffs: 3,
            channel_clear_threshold: -50,
        }
    }
}

/// The default configuration values.
pub open spec fn default_config() -> Config {
    Config {
        pan_coordinator: false,
        pan_id: 0x0100,
        base_superframe_duration: 1000,
        base_slot_duration: 100,
        mac_beacon_order: BeaconOrder::BeaconOrder(1),
        mac_superframe_order: SuperframeOrder::SuperframeOrder(0),
        mac_deadline: 10,
        max_beacon_misses: 10,
        assoc_timeout: (10 * 1000) as u64,
        battery_life_extension: true,
        max_retries: 5,
        ack_delay: 50,
        min_be: 2,
        max_be: 5,
        csma_max_backoffs: 3,
        channel_clear_threshold: (-50) as i16,
    }
}

} // verus!

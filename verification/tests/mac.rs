//! MAC engine: beacon cadence, synchronisation, CSMA backoff, software
//! acknowledgements, and queue behaviour.

use std::cell::Cell;
use std::rc::Rc;

use lpwan::address::Address;
use lpwan::error::CoreError;
use lpwan::mac_802154::config::Config;
use lpwan::mac_802154::packet::{Beacon, FrameContent, Packet};
use lpwan::mac_802154::{AssocState, Mac, SyncState};
use lpwan::timer::Timer;
use lpwan::{Radio, RawPacket};

/// Scripted radio: queued receptions, a transmit log, and a fixed RSSI.
struct MockRadio {
    rx: Vec<Vec<u8>>,
    tx: Vec<Vec<u8>>,
    rssi: i16,
}

impl MockRadio {
    fn new(rssi: i16) -> MockRadio {
        MockRadio {
            rx: Vec::new(),
            tx: Vec::new(),
            rssi,
        }
    }
}

impl Radio for MockRadio {
    type Error = ();

    fn set_sleep(&mut self) -> Result<(), ()> {
        Ok(())
    }

    fn start_transmit(&mut self, data: &Vec<u8>) -> Result<(), ()> {
        self.tx.push(data.clone());
        Ok(())
    }

    fn check_transmit(&mut self) -> Result<bool, ()> {
        Ok(true)
    }

    fn start_receive(&mut self) -> Result<(), ()> {
        Ok(())
    }

    fn check_receive(&mut self, _restart: bool) -> Result<bool, ()> {
        Ok(!self.rx.is_empty())
    }

    fn get_received(&mut self) -> Result<RawPacket, ()> {
        let buf = self.rx.remove(0);
        Ok(RawPacket { buf, rssi: self.rssi })
    }

    fn poll_rssi(&mut self) -> Result<i16, ()> {
        Ok(self.rssi)
    }
}

/// Clock handle shared between the test and the engine.
#[derive(Clone)]
struct MockTimer(Rc<Cell<u64>>);

impl MockTimer {
    fn new() -> MockTimer {
        MockTimer(Rc::new(Cell::new(0)))
    }

    fn set_ms(&self, ms: u64) {
        self.0.set(ms);
    }
}

impl Timer for MockTimer {
    fn ticks_ms(&self) -> u64 {
        self.0.get()
    }

    fn ticks_us(&self) -> u64 {
        self.0.get() * 1000
    }
}

#[test]
fn beacon_tx() {
    let radio = MockRadio::new(-100);
    let timer = MockTimer::new();

    let mac_addr: u64 = 0xabcd;
    let mac_cfg = Config {
        pan_coordinator: true,
        ..Default::default()
    };
    let sd = 2000u64; // base 1000 ms, beacon order 1

    let mut mac = Mac::new(mac_addr, mac_cfg, radio, timer.clone()).unwrap();
    mac.tick().unwrap();

    for n in 0..2u64 {
        // Advance through the superframe without reaching the beacon.
        for i in 0..(sd / 100 - 1) {
            timer.set_ms(n * sd + i * 100);
            mac.tick().unwrap();
        }

        // The beacon goes out exactly at the beacon interval.
        timer.set_ms((n + 1) * sd);
        let expected = Packet::beacon(
            Address::Extended(mac_cfg.pan_id, mac_addr),
            n as u8,
            Beacon {
                superframe_spec: mac_cfg.superframe_spec(),
            },
        );
        mac.tick().unwrap();
        assert_eq!(mac.base.radio.tx.len(), (n + 1) as usize);
        assert_eq!(mac.base.radio.tx[n as usize], expected.encode());

        // Complete the beacon transmission.
        mac.tick().unwrap();
    }

    // Each broadcast beacon announced the coordinator flag.
    for bytes in &mac.base.radio.tx {
        let p = Packet::decode(bytes, false).unwrap();
        match p.content {
            FrameContent::Beacon(b) => assert!(b.superframe_spec.pan_coordinator),
            _ => panic!("expected a beacon"),
        }
    }
}

#[test]
fn beacon_rx_sync() {
    let radio = MockRadio::new(-100);
    let timer = MockTimer::new();

    let mac_addr: u64 = 0xabcd;
    let mac_cfg = Config {
        pan_coordinator: false,
        ..Default::default()
    };
    let coord_addr = Address::Extended(mac_cfg.pan_id, 0x1122);

    let mut mac = Mac::new(mac_addr, mac_cfg, radio, timer.clone()).unwrap();
    mac.tick().unwrap();

    timer.set_ms(100);

    // Receive a beacon from the coordinator.
    let beacon = Packet::beacon(
        coord_addr,
        0,
        Beacon {
            superframe_spec: mac_cfg.superframe_spec(),
        },
    );
    mac.base.radio.rx.push(beacon.encode());
    mac.tick().unwrap();

    // Synchronised to the sender, next beacon one superframe ahead.
    assert_eq!(mac.sync_state, SyncState::Synced(coord_addr));
    assert_eq!(mac.next_beacon, 2000 + timer.ticks_ms());
    assert_eq!(mac.sync_offset, 100);
}

#[test]
fn beacon_rx_next() {
    let radio = MockRadio::new(-100);
    let timer = MockTimer::new();

    let mac_addr: u64 = 0xabcd;
    let mac_cfg = Config {
        pan_coordinator: false,
        ..Default::default()
    };
    let coord_addr = Address::Extended(mac_cfg.pan_id, 0x1122);

    let mut mac = Mac::new(mac_addr, mac_cfg, radio, timer.clone()).unwrap();
    mac.tick().unwrap();
    mac.base.sleep().unwrap();

    // Already synchronised and expecting a beacon.
    mac.sync_state = SyncState::Synced(coord_addr);
    mac.next_beacon = 2000;

    // At the expected time the receiver is re-armed.
    timer.set_ms(2003);
    mac.tick().unwrap();

    // Receive the expected beacon.
    let beacon = Packet::beacon(
        coord_addr,
        0,
        Beacon {
            superframe_spec: mac_cfg.superframe_spec(),
        },
    );
    mac.base.radio.rx.push(beacon.encode());
    mac.tick().unwrap();

    // Still synchronised, next beacon re-armed from the receipt time.
    assert_eq!(mac.sync_state, SyncState::Synced(coord_addr));
    assert_eq!(mac.next_beacon, 2000 + timer.ticks_ms());
}

#[test]
fn csma_busy_channel() {
    // The channel reads -20 dBm, above the -50 dBm clearance threshold:
    // every clear-channel assessment fails, and after the third backoff
    // the transmission is abandoned.
    let radio = MockRadio::new(-20);
    let timer = MockTimer::new();
    let mut mac = Mac::new(0xaaaa, Config::default(), radio, timer.clone()).unwrap();
    mac.seed_random(2);

    mac.transmit(Address::Extended(0x0100, 0xbbbb), &vec![1, 2, 3], true)
        .unwrap();

    for step in 0..60u64 {
        timer.set_ms(step * 100);
        mac.tick().unwrap();
    }

    assert_eq!(mac.stats().csma_cca_fail, 1);
    assert!(mac.tx_buff.peek().is_none());
    // Nothing was handed to the radio.
    assert_eq!(mac.base.radio.tx.len(), 0);
}

#[test]
fn ack_round_trip() {
    // X transmits to Y with an acknowledgement requested; Y's MAC arms
    // the acknowledgement and sends it after the turn-around delay; X
    // completes the queued packet without a failure.
    let x_timer = MockTimer::new();
    let y_timer = MockTimer::new();
    let mut x = Mac::new(0xaaaa, Config::default(), MockRadio::new(-100), x_timer.clone()).unwrap();
    let mut y = Mac::new(0xbbbb, Config::default(), MockRadio::new(-100), y_timer.clone()).unwrap();
    x.seed_random(2);

    x.transmit(Address::Extended(0x0100, 0xbbbb), &vec![5, 6, 7], true)
        .unwrap();

    // Drive X until the data frame leaves its radio.
    let mut t = 0u64;
    while x.base.radio.tx.is_empty() {
        t += 100;
        assert!(t < 10_000);
        x_timer.set_ms(t);
        x.tick().unwrap();
    }
    let frame = x.base.radio.tx.remove(0);
    // The packet stays queued awaiting its acknowledgement.
    assert!(x.tx_buff.peek().is_some());

    // Y receives the frame and arms the acknowledgement.
    y_timer.set_ms(t);
    y.base.radio.rx.push(frame);
    y.tick().unwrap();
    assert!(matches!(y.ack_state, lpwan::mac_802154::AckState::Pending { .. }));

    // After the 50 ms delay the acknowledgement goes out.
    y_timer.set_ms(t + 60);
    y.tick().unwrap();
    assert_eq!(y.base.radio.tx.len(), 1);
    let ack_bytes = y.base.radio.tx.remove(0);

    // X receives it within the timeout: the queue head completes. The
    // first tick completes X's own transmission; the second fetches the
    // acknowledgement.
    x_timer.set_ms(t + 70);
    x.base.radio.rx.push(ack_bytes);
    x.tick().unwrap();
    x.tick().unwrap();
    assert!(x.tx_buff.peek().is_none());
    assert_eq!(x.stats().tx_fail, 0);

    // Y delivered the payload upward.
    let mut buf = Vec::new();
    let rx = y.receive(&mut buf).unwrap().unwrap();
    assert_eq!(buf, vec![5, 6, 7]);
    assert_eq!(rx.1.source, Address::Extended(0x0100, 0xaaaa));
}

#[test]
fn tx_queue_full() {
    // The transmit queue takes sixteen packets and refuses the
    // seventeenth as back-pressure.
    let timer = MockTimer::new();
    let mut mac = Mac::new(0xaaaa, Config::default(), MockRadio::new(-100), timer).unwrap();
    let dest = Address::Extended(0x0100, 0xbbbb);
    for _ in 0..16 {
        mac.transmit(dest, &vec![0], false).unwrap();
    }
    assert_eq!(
        mac.transmit(dest, &vec![0], false),
        Err(CoreError::BufferFull)
    );
    assert_eq!(mac.can_transmit(), Ok(false));
    assert_eq!(mac.busy(), Ok(true));
}

#[test]
fn seq_increments() {
    // Locally originated frames carry consecutive sequence numbers.
    let timer = MockTimer::new();
    let mut mac = Mac::new(0xaaaa, Config::default(), MockRadio::new(-100), timer).unwrap();
    let dest = Address::Extended(0x0100, 0xbbbb);
    assert_eq!(mac.seq, 0);
    mac.transmit(dest, &vec![1], false).unwrap();
    assert_eq!(mac.seq, 1);
    mac.transmit(dest, &vec![2], false).unwrap();
    assert_eq!(mac.seq, 2);
    // The head still carries the first number.
    assert_eq!(mac.tx_buff.peek().unwrap().1.header.seq, 0);
}

#[test]
fn association_handshake() {
    // A coordinator and a device: the device synchronises on the
    // beacon, asks for association, and the coordinator's successful
    // answer associates it to the coordinator's PAN.
    let c_timer = MockTimer::new();
    let d_timer = MockTimer::new();
    let coord_cfg = Config {
        pan_coordinator: true,
        ..Default::default()
    };
    let mut coord = Mac::new(0xcccc, coord_cfg, MockRadio::new(-100), c_timer.clone()).unwrap();
    let mut dev = Mac::new(0xdddd, Config::default(), MockRadio::new(-100), d_timer.clone()).unwrap();
    dev.seed_random(2);
    coord.seed_random(7);

    assert_eq!(coord.assoc_state, AssocState::Associated(0x0100));
    assert_eq!(dev.assoc_state, AssocState::Unassociated);

    // The coordinator's beacon reaches the device.
    c_timer.set_ms(2000);
    coord.tick().unwrap();
    let beacon = coord.base.radio.tx.remove(0);
    d_timer.set_ms(2000);
    dev.base.radio.rx.push(beacon);
    dev.tick().unwrap();
    assert!(matches!(dev.sync_state, SyncState::Synced(_)));
    assert!(matches!(dev.assoc_state, AssocState::Pending(_, _)));

    // The device's association request goes out via CSMA.
    let mut t = 2000u64;
    while dev.base.radio.tx.is_empty() {
        t += 100;
        assert!(t < 20_000);
        d_timer.set_ms(t);
        dev.tick().unwrap();
    }
    let request = dev.base.radio.tx.remove(0);

    // The coordinator answers with a successful association response;
    // its radio also carries beacons and the acknowledgement of the
    // request, which are skipped.
    c_timer.set_ms(t);
    coord.base.radio.rx.push(request);
    coord.tick().unwrap();
    let mut ct = t;
    let mut response = None;
    while response.is_none() {
        ct += 100;
        assert!(ct < 60_000);
        c_timer.set_ms(ct);
        coord.tick().unwrap();
        while !coord.base.radio.tx.is_empty() {
            let bytes = coord.base.radio.tx.remove(0);
            if matches!(
                Packet::decode(&bytes, false).unwrap().content,
                FrameContent::Command(_)
            ) {
                response = Some(bytes);
            }
        }
    }
    let response = response.unwrap();

    // The device honours the answer from its pending parent. The first
    // tick completes the device's own transmission; the second fetches
    // the response.
    d_timer.set_ms(ct);
    dev.base.radio.rx.push(response);
    dev.tick().unwrap();
    dev.tick().unwrap();
    assert_eq!(dev.assoc_state, AssocState::Associated(0x0100));
}

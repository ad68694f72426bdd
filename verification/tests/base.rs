//! Radio base state machine driven by a scripted mock radio.

use lpwan::base::{Base, BaseState};
use lpwan::{Radio, RawPacket};

/// Scripted radio: queued receptions, a transmit log, a script of
/// transmit-completion answers, and a fixed RSSI reading.
struct MockRadio {
    rx: Vec<Vec<u8>>,
    tx: Vec<Vec<u8>>,
    tx_done: Vec<bool>,
    rssi: i16,
}

impl MockRadio {
    fn new() -> MockRadio {
        MockRadio {
            rx: Vec::new(),
            tx: Vec::new(),
            tx_done: Vec::new(),
            rssi: -100,
        }
    }
}

impl Radio for MockRadio {
    type Error = ();

    fn set_sleep(&mut self) -> Result<(), ()> {
        Ok(())
    }

    fn start_transmit(&mut self, data: &Vec<u8>) -> Result<(), ()> {
        self.tx.push(data.clone());
        Ok(())
    }

    fn check_transmit(&mut self) -> Result<bool, ()> {
        if self.tx_done.is_empty() {
            Ok(true)
        } else {
            Ok(self.tx_done.remove(0))
        }
    }

    fn start_receive(&mut self) -> Result<(), ()> {
        Ok(())
    }

    fn check_receive(&mut self, _restart: bool) -> Result<bool, ()> {
        Ok(!self.rx.is_empty())
    }

    fn get_received(&mut self) -> Result<RawPacket, ()> {
        let buf = self.rx.remove(0);
        Ok(RawPacket { buf, rssi: self.rssi })
    }

    fn poll_rssi(&mut self) -> Result<i16, ()> {
        Ok(self.rssi)
    }
}

#[test]
fn init() {
    let radio = MockRadio::new();
    let base = Base::new(radio).unwrap();
    assert_eq!(base.state(), BaseState::Idle);
}

#[test]
fn receive() {
    let mut ts = 0;
    let radio = MockRadio::new();
    let mut base = Base::new(radio).unwrap();
    assert_eq!(base.state(), BaseState::Idle);

    // Start receive mode.
    base.receive(ts).unwrap();
    ts += 1;

    // No reception yet.
    let rx = base.tick(ts).unwrap();
    assert!(rx.is_none());
    assert_eq!(base.state(), BaseState::Listening);
    ts += 1;

    // A packet arrives.
    base.radio.rx.push(vec![0x00, 0x11, 0x22, 0x33]);
    let rx = base.tick(ts).unwrap();

    // Back to listening with the packet delivered.
    assert_eq!(base.state(), BaseState::Listening);
    assert_eq!(rx.is_some(), true);
    assert_eq!(rx.unwrap().data(), &vec![0x00, 0x11, 0x22, 0x33]);
}

#[test]
fn transmit() {
    let mut ts = 0;
    let mut radio = MockRadio::new();
    radio.tx_done = vec![false, true];
    let mut base = Base::new(radio).unwrap();
    assert_eq!(base.state(), BaseState::Idle);

    // Start a transmission.
    base.transmit(ts, &vec![0x00, 0x11, 0x22]).unwrap();
    assert_eq!(base.radio.tx, vec![vec![0x00, 0x11, 0x22]]);
    ts += 1;

    // Transmission not complete yet.
    base.tick(ts).unwrap();
    assert_eq!(base.state(), BaseState::Transmitting);
    ts += 1;

    // Complete: the base re-enters listening.
    let _rx = base.tick(ts).unwrap();
    assert_eq!(base.state(), BaseState::Listening);
}

#[test]
fn busy_refusals() {
    let mut radio = MockRadio::new();
    radio.tx_done = vec![false];
    let mut base = Base::new(radio).unwrap();
    base.transmit(0, &vec![1, 2, 3]).unwrap();
    base.tick(1).unwrap();
    // While transmitting, every operation is refused as busy.
    assert!(matches!(
        base.transmit(2, &vec![4]),
        Err(lpwan::error::CoreError::Busy)
    ));
    assert!(matches!(base.receive(2), Err(lpwan::error::CoreError::Busy)));
    assert!(matches!(base.sleep(), Err(lpwan::error::CoreError::Busy)));
    assert!(matches!(base.rssi(2), Err(lpwan::error::CoreError::Busy)));
}

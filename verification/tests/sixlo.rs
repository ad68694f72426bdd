//! 6LoWPAN stack over the real MAC engine.

use std::cell::Cell;
use std::rc::Rc;

use lpwan::address::Address;
use lpwan::mac_802154::config::Config;
use lpwan::mac_802154::Mac;
use lpwan::sixlo::{SixLo, SixLoConfig};
use lpwan::timer::Timer;
use lpwan::{Radio, RawPacket};

struct MockRadio {
    rx: Vec<Vec<u8>>,
    tx: Vec<Vec<u8>>,
    rssi: i16,
}

impl MockRadio {
    fn new() -> MockRadio {
        MockRadio {
            rx: Vec::new(),
            tx: Vec::new(),
            rssi: -100,
        }
    }
}

impl Radio for MockRadio {
    type Error = ();

    fn set_sleep(&mut self) -> Result<(), ()> {
        Ok(())
    }

    fn start_transmit(&mut self, data: &Vec<u8>) -> Result<(), ()> {
        self.tx.push(data.clone());
        Ok(())
    }

    fn check_transmit(&mut self) -> Result<bool, ()> {
        Ok(true)
    }

    fn start_receive(&mut self) -> Result<(), ()> {
        Ok(())
    }

    fn check_receive(&mut self, _restart: bool) -> Result<bool, ()> {
        Ok(!self.rx.is_empty())
    }

    fn get_received(&mut self) -> Result<RawPacket, ()> {
        let buf = self.rx.remove(0);
        Ok(RawPacket { buf, rssi: self.rssi })
    }

    fn poll_rssi(&mut self) -> Result<i16, ()> {
        Ok(self.rssi)
    }
}

#[derive(Clone)]
struct MockTimer(Rc<Cell<u64>>);

impl Timer for MockTimer {
    fn ticks_ms(&self) -> u64 {
        self.0.get()
    }

    fn ticks_us(&self) -> u64 {
        self.0.get() * 1000
    }
}

#[test]
fn test_frag_defrag() {}

#[test]
fn mod_test_frag_defrag() {}

#[test]
fn sixlo_small_datagram_direct() {
    // A datagram that fits one MAC payload goes straight to the MAC,
    // with no fragmentation header on the wire: the first byte of the
    // payload is the datagram's own.
    let timer = MockTimer(Rc::new(Cell::new(0)));
    let addr = Address::Extended(0x0100, 0xaaaa);
    let mac = Mac::new(0xaaaa, Config::default(), MockRadio::new(), timer.clone()).unwrap();
    let mut sixlo = SixLo::new(mac, addr, SixLoConfig::default());

    let mut datagram = vec![0u8; 20];
    for i in 0..datagram.len() {
        datagram[i] = i as u8;
    }
    sixlo
        .transmit(0, Address::Extended(0x0100, 0xbbbb), &datagram)
        .unwrap();

    // The MAC queue head carries the datagram as its whole payload;
    // its dispatch bits are not a fragmentation header's.
    let head = sixlo.mac.tx_buff.peek().unwrap();
    assert_eq!(head.1.payload(), &datagram);
    assert_ne!(head.1.payload()[0] & 0b11, 0b11);
}

#[test]
fn sixlo_fragmented_datagram() {
    // A 300-byte datagram cannot ride one MAC payload: it goes through
    // the fragmentation manager, and each tick hands the MAC at most
    // one fragment.
    let timer = MockTimer(Rc::new(Cell::new(0)));
    let addr = Address::Extended(0x0100, 0xaaaa);
    let mac = Mac::new(0xaaaa, Config::default(), MockRadio::new(), timer.clone()).unwrap();
    let mut sixlo = SixLo::new(mac, addr, SixLoConfig::default());

    let mut datagram = vec![0u8; 300];
    for i in 0..datagram.len() {
        datagram[i] = i as u8;
    }
    sixlo
        .transmit(0, Address::Extended(0x0100, 0xbbbb), &datagram)
        .unwrap();

    // Nothing reaches the MAC before a tick.
    assert!(sixlo.mac.tx_buff.peek().is_none());

    // Five ticks hand over the five fragments.
    for i in 0..5u64 {
        timer.0.set(i);
        sixlo.tick(i).unwrap();
    }
    let mut count = 0;
    while sixlo.mac.tx_buff.peek().is_some() {
        let head = sixlo.mac.tx_buff.peek().unwrap().1.clone();
        // Every fragment's payload starts with a fragmentation header.
        assert_eq!(head.payload()[0] & 0b11, 0b11);
        // Pop by completing: simpler to drain through the queue itself.
        let _ = sixlo.mac.tx_buff.dequeue();
        count += 1;
    }
    assert_eq!(count, 5);
}

#[test]
fn sixlo_receive_reassembles() {
    // Fragments arriving from the MAC reassemble into the datagram.
    let timer = MockTimer(Rc::new(Cell::new(0)));
    let a_addr = Address::Extended(0x0100, 0xaaaa);
    let b_addr = Address::Extended(0x0100, 0xbbbb);

    let mac_a = Mac::new(0xaaaa, Config::default(), MockRadio::new(), timer.clone()).unwrap();
    let mut a = SixLo::new(mac_a, a_addr, SixLoConfig::default());
    let mac_b = Mac::new(0xbbbb, Config::default(), MockRadio::new(), timer.clone()).unwrap();
    let mut b = SixLo::new(mac_b, b_addr, SixLoConfig::default());

    let mut datagram = vec![0u8; 300];
    for i in 0..datagram.len() {
        datagram[i] = i as u8;
    }
    a.transmit(0, b_addr, &datagram).unwrap();

    // Carry each fragment from A's MAC queue into B's radio as a full
    // MAC frame, letting B's tick strip and reassemble it.
    for i in 0..5u64 {
        a.tick(i).unwrap();
        let frame = a.mac.tx_buff.dequeue().unwrap().1;
        b.mac.base.radio.rx.push(frame.encode());
        b.tick(i).unwrap();
        b.tick(i).unwrap();
    }

    let mut buf = Vec::new();
    let (n, src, _hdr) = b.receive(5, &mut buf).unwrap().unwrap();
    assert_eq!(n, 300);
    assert_eq!(buf, datagram);
    assert_eq!(src, a_addr);
}

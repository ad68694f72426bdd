//! Fragmentation: splitting, reassembly in and out of order, slot
//! management, and the fragment-count accounting.

use lpwan::address::Address;
use lpwan::sixlo::frag::{Frag, FragBuffer, FragConfig, FragState, PollOptions, MAX_FRAG_SIZE};
use lpwan::sixlo::headers::{FragHeader, Header};

fn pattern(len: usize) -> Vec<u8> {
    let mut tx = vec![0u8; len];
    for i in 0..tx.len() {
        tx[i] = i as u8;
    }
    tx
}

#[test]
fn frag_fragment() {
    // Set up 200 bytes to transmit.
    let tx = pattern(200);

    // Set up a fragmentation buffer.
    let mut frag_buff = FragBuffer::init_tx(Address::Absent, Header::default(), 0, &tx);

    // Poll for fragments.
    let nf = frag_buff.num_frags();
    for j in 0..nf {
        let (header, offset, len) = frag_buff.next_frag().unwrap();

        if j == 0 {
            // First fragment: the size and no offset.
            assert_eq!(
                header.frag,
                Some(FragHeader {
                    datagram_size: tx.len() as u16,
                    datagram_tag: 0,
                    datagram_offset: None,
                })
            );
            assert_eq!(offset, 0);
            assert_eq!(len, MAX_FRAG_SIZE);
        } else {
            // Later fragments: the same size plus offsets.
            assert_eq!(
                header.frag,
                Some(FragHeader {
                    datagram_size: tx.len() as u16,
                    datagram_tag: 0,
                    datagram_offset: Some((j * 64 / 8) as u8),
                })
            );
            assert_eq!(offset, j * 64);
            assert_eq!(len, MAX_FRAG_SIZE.min(tx.len() - j * MAX_FRAG_SIZE));
        }
    }

    assert_eq!(frag_buff.next_frag(), None);
}

#[test]
fn frag_defragment() {
    // Set up 200 bytes to transmit.
    let tx = pattern(200);

    // Set up a fragmentation buffer.
    let mut frag_buff = FragBuffer::init_tx(Address::Absent, Header::default(), 12, &tx);

    let (h1, o, l) = frag_buff.next_frag().unwrap();

    // Set up a defragmentation buffer from the first fragment.
    let mut defrag_buff = FragBuffer::init_rx(Address::Absent, &h1, &frag_buff.frag_data(o, l));

    // Transfer the remaining fragments.
    while let Some((h, o, l)) = frag_buff.next_frag() {
        defrag_buff.update_rx(&h, &frag_buff.frag_data(o, l));
    }

    // The reassembly completed with the original bytes.
    assert_eq!(defrag_buff.state, FragState::Done);
    assert_eq!(frag_buff.data(), defrag_buff.data());
}

#[test]
fn frag_buffer() {
    // Set up 200 bytes to transmit between two managers.
    let tx = pattern(200);

    let addr_a = Address::Short(1, 1);
    let addr_b = Address::Short(1, 2);

    let mut frag_mgr_a = Frag::new(FragConfig::default());
    let mut frag_mgr_b = Frag::new(FragConfig::default());

    let mut now_ms = 0;

    // Start the datagram transmission.
    let h = Header::default();
    frag_mgr_a
        .transmit::<()>(now_ms, addr_b, h.clone(), &tx)
        .unwrap();

    // Poll for fragments to transmit and deliver each.
    let mut frag_rx = false;
    while let Some((_a, h1, d1)) = frag_mgr_a.poll(now_ms, PollOptions::default()) {
        frag_mgr_b.receive::<()>(now_ms, addr_a, &h1, &d1).unwrap();

        // Poll for the complete datagram.
        if let Some((_a, h2, d2)) = frag_mgr_b.pop() {
            assert_eq!(h, h2);
            assert_eq!(tx, d2);
            frag_rx = true;
        }

        now_ms += 1;
    }

    assert!(frag_rx);
}

#[test]
fn frag_manager() {
    // As above, with the transfer counted: 200 bytes take exactly four
    // 64-byte fragments.
    let tx = pattern(200);

    let addr_a = Address::Short(1, 1);
    let addr_b = Address::Short(1, 2);

    let mut frag_mgr_a = Frag::new(FragConfig::default());
    let mut frag_mgr_b = Frag::new(FragConfig::default());

    frag_mgr_a.transmit::<()>(0, addr_b, Header::default(), &tx).unwrap();

    let mut polls = 0;
    while let Some((_a, h1, d1)) = frag_mgr_a.poll(0, PollOptions::default()) {
        polls += 1;
        frag_mgr_b.receive::<()>(0, addr_a, &h1, &d1).unwrap();
    }
    assert_eq!(polls, 4);

    let (_a, _h, d) = frag_mgr_b.pop().unwrap();
    assert_eq!(d, tx);
}

#[test]
fn frag_buffer_passthrough() {
    // A datagram short enough for one fragment still crosses whole.
    let tx = pattern(20);

    let addr_a = Address::Short(1, 1);
    let addr_b = Address::Short(1, 2);

    let mut frag_mgr_a = Frag::new(FragConfig::default());
    let mut frag_mgr_b = Frag::new(FragConfig::default());

    let now_ms = 0;

    let h = Header::default();
    frag_mgr_a
        .transmit::<()>(now_ms, addr_b, h.clone(), &tx)
        .unwrap();

    // One fragment out, one in.
    let (_a, h1, d1) = frag_mgr_a.poll(now_ms, PollOptions::default()).unwrap();
    frag_mgr_b.receive::<()>(now_ms, addr_a, &h1, &d1).unwrap();

    // The complete datagram comes back out.
    let (_a, h2, d2) = frag_mgr_b.pop().unwrap();
    assert_eq!(h, h2);
    assert_eq!(tx, d2);
}

#[test]
fn frag_no_free_slots() {
    // Four datagrams fill the slots; the fifth is refused.
    let dest = Address::Short(1, 2);
    let mut mgr = Frag::new(FragConfig::default());
    for _ in 0..4 {
        mgr.transmit::<()>(0, dest, Header::default(), &pattern(100))
            .unwrap();
    }
    assert_eq!(
        mgr.transmit::<()>(0, dest, Header::default(), &pattern(100)),
        Err(lpwan::sixlo::SixLoError::NoTxFragSlots)
    );
}

#[test]
fn frag_slot_timeout() {
    // A stalled transmission frees its slot once its timeout passes.
    let dest = Address::Short(1, 2);
    let mut mgr = Frag::new(FragConfig::default());
    mgr.transmit::<()>(0, dest, Header::default(), &pattern(100))
        .unwrap();
    // Poll without permission to transmit: nothing moves.
    let opts = PollOptions {
        can_tx: false,
        tx_addr: Address::Absent,
    };
    assert!(mgr.poll(5_000, opts).is_none());
    // Past the ten-second timeout the slot is freed, so a new datagram
    // can take it even with all others filled.
    assert!(mgr.poll(10_001, opts).is_none());
    for _ in 0..4 {
        mgr.transmit::<()>(10_001, dest, Header::default(), &pattern(100))
            .unwrap();
    }
}

#[test]
fn frag_out_of_order_reassembly() {
    // Deliver the fragments back to front; the first fragment's headers
    // still win and the datagram completes.
    let tx = pattern(200);
    let addr_a = Address::Short(1, 1);

    let mut frag_buff = FragBuffer::init_tx(Address::Absent, Header::default(), 5, &tx);
    let mut frags = Vec::new();
    while let Some((h, o, l)) = frag_buff.next_frag() {
        frags.push((h, frag_buff.frag_data(o, l)));
    }
    frags.reverse();

    let mut mgr = Frag::new(FragConfig::default());
    for (h, d) in &frags {
        mgr.receive::<()>(0, addr_a, h, d).unwrap();
    }
    let (_a, h2, d2) = mgr.pop().unwrap();
    assert_eq!(h2, Header::default());
    assert_eq!(d2, tx);
}

#[test]
fn frag_full_mtu_datagram() {
    // The largest datagram the stack carries: a full 1280-byte IPv6 MTU,
    // twenty fragments, reassembled byte for byte.
    let tx = pattern(1280);
    let addr_a = Address::Short(1, 1);
    let addr_b = Address::Short(1, 2);

    let mut a = Frag::new(FragConfig::default());
    let mut b = Frag::new(FragConfig::default());
    a.transmit::<()>(0, addr_b, Header::default(), &tx).unwrap();

    let mut polls = 0;
    while let Some((_d, h, d)) = a.poll(0, PollOptions::default()) {
        polls += 1;
        b.receive::<()>(0, addr_a, &h, &d).unwrap();
    }
    assert_eq!(polls, 20);
    let (_a, _h, d) = b.pop().unwrap();
    assert_eq!(d, tx);
}

#[test]
fn frag_exact_multiple_len() {
    // A datagram of exactly one fragment size is emitted in a single
    // poll and the slot frees itself with it.
    let tx = pattern(64);
    let mut buf = FragBuffer::init_tx(Address::Absent, Header::default(), 0, &tx);
    let (h, o, l) = buf.next_frag().unwrap();
    assert_eq!((o, l), (0, 64));
    assert_eq!(h.frag.unwrap().datagram_offset, None);
    assert_eq!(buf.state, FragState::Free);
    assert_eq!(buf.next_frag(), None);
}

#[test]
fn frag_overrun_fragment_dropped() {
    // A fragment whose offset would write past the buffer is dropped:
    // the bitmask does not move and the slot stays incomplete.
    let tx = pattern(128);
    let mut sender = FragBuffer::init_tx(Address::Absent, Header::default(), 1, &tx);
    let (h1, o, l) = sender.next_frag().unwrap();
    let mut rx = FragBuffer::init_rx(Address::Absent, &h1, &sender.frag_data(o, l));
    let mask_before = rx.mask;

    let bogus = Header {
        frag: Some(FragHeader {
            datagram_size: 128,
            datagram_tag: 1,
            datagram_offset: Some(200), // 1600 bytes: past the MTU buffer
        }),
        ..Header::default()
    };
    let done = rx.update_rx(&bogus, &pattern(64));
    assert!(!done);
    assert_eq!(rx.mask, mask_before);
    assert_eq!(rx.state, FragState::Rx);
}

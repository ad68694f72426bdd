//! Slot timing vocabulary.

use lpwan::mac_802154::slot::{Kind, Op, State};

#[test]
fn test_slot_beacon() {}

#[test]
fn test_slot_cca() {
    // Start of slot, wait for the receive delay.

    // Start receiving.

    // Wait for the transmit timeout, sample the RSSI.

    // Sleep the radio.
}

#[test]
fn test_slot_tsch_tx() {
    // Start of slot, wait for the transmit delay.

    // Start transmitting and await completion.

    // Wait for the acknowledgement delay, start receiving.

    // Await the acknowledgement, then sleep the radio.
}

#[test]
fn test_slot_tsch_rx() {
    // Start of slot, wait for the receive delay.

    // Start receiving and await completion.

    // Wait for the acknowledgement delay, transmit the acknowledgement.

    // Await completion, then sleep the radio.
}

#[test]
fn slot_vocabulary() {
    assert_ne!(Kind::Tx, Kind::Rx);
    assert_ne!(State::Start, State::Tx);
    assert!(matches!(Op::Wait(5), Op::Wait(5)));
}

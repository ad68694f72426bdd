//! MAC frame codec: construction, round trips and error cases.

use lpwan::address::Address;
use lpwan::error::DecodeError;
use lpwan::mac_802154::packet::{
    AssociationStatus, Beacon, BeaconOrder, CapabilityInformation, Command, FrameContent,
    FrameType, Packet, SuperframeOrder, SuperframeSpecification,
};

fn spec() -> SuperframeSpecification {
    SuperframeSpecification {
        beacon_order: BeaconOrder::BeaconOrder(1),
        superframe_order: SuperframeOrder::SuperframeOrder(0),
        final_cap_slot: 0,
        battery_life_extension: false,
        pan_coordinator: true,
        association_permit: true,
    }
}

#[test]
fn data_roundtrip() {
    let p = Packet::data(
        Address::Short(0x0100, 0x0002),
        Address::Extended(0x0100, 0xAABB_CCDD_EEFF_0011),
        7,
        &vec![1, 2, 3, 4, 5],
        true,
    );
    let bytes = p.encode();
    let q = Packet::decode(&bytes, false).unwrap();
    assert_eq!(p, q);
    assert_eq!(q.payload(), &vec![1, 2, 3, 4, 5]);
    assert_eq!(q.header.frame_type, FrameType::Data);
    assert!(q.header.ack_request);
}

#[test]
fn beacon_roundtrip() {
    let p = Packet::beacon(
        Address::Extended(0x0100, 0x1122),
        0,
        Beacon {
            superframe_spec: spec(),
        },
    );
    let bytes = p.encode();
    let q = Packet::decode(&bytes, false).unwrap();
    assert_eq!(p, q);
    // Beacons go to the short broadcast address.
    assert_eq!(q.header.destination, Address::Short(0xFFFF, 0xFFFF));
    match q.content {
        FrameContent::Beacon(b) => assert_eq!(b.superframe_spec, spec()),
        _ => panic!("not a beacon"),
    }
}

#[test]
fn command_roundtrip() {
    let req = Packet::command(
        Address::Extended(0x0100, 0x1122),
        Address::Extended(0x0100, 0x3344),
        3,
        Command::AssociationRequest(CapabilityInformation {
            full_function_device: true,
            mains_power: false,
            idle_receive: false,
            frame_protection: false,
            allocate_address: true,
        }),
    );
    let q = Packet::decode(&req.encode(), false).unwrap();
    assert_eq!(req, q);

    let resp = Packet::command(
        Address::Extended(0x0100, 0x3344),
        Address::Extended(0x0100, 0x1122),
        4,
        Command::AssociationResponse(0xFFFE, AssociationStatus::Successful),
    );
    let q = Packet::decode(&resp.encode(), false).unwrap();
    assert_eq!(resp, q);
}

#[test]
fn ack_roundtrip() {
    let p = Packet::data(
        Address::Short(0x0100, 0x0002),
        Address::Short(0x0100, 0x0001),
        9,
        &vec![42],
        true,
    );
    let a = Packet::ack(&p);
    assert!(a.is_ack_for(&p));
    assert_eq!(a.header.seq, 9);
    assert_eq!(a.header.source, p.header.destination);
    assert_eq!(a.header.destination, p.header.source);
    let q = Packet::decode(&a.encode(), false).unwrap();
    assert_eq!(a, q);
    assert!(q.is_ack_for(&p));
}

#[test]
fn decode_errors() {
    // Too short for a header.
    assert_eq!(
        Packet::decode(&vec![0x01, 0x10], false),
        Err(DecodeError::NotEnoughBytes)
    );
    // Frame type out of range.
    assert_eq!(
        Packet::decode(&vec![0x04, 0x10, 0], false),
        Err(DecodeError::InvalidFrameType)
    );
    // Security bit set.
    assert_eq!(
        Packet::decode(&vec![0x09, 0x10, 0], false),
        Err(DecodeError::InvalidValue)
    );
    // Reserved destination addressing mode.
    assert_eq!(
        Packet::decode(&vec![0x01, 0x14, 0], false),
        Err(DecodeError::InvalidAddressMode)
    );
    // A command nobody understands.
    let mut cmd = Packet::command(
        Address::Short(1, 2),
        Address::Short(1, 3),
        0,
        Command::AssociationRequest(CapabilityInformation {
            full_function_device: false,
            mains_power: false,
            idle_receive: false,
            frame_protection: false,
            allocate_address: false,
        }),
    )
    .encode();
    let n = cmd.len();
    cmd[n - 2] = 0x07;
    assert_eq!(Packet::decode(&cmd, false), Err(DecodeError::InvalidCommand));
}

#[test]
fn pan_id_of_frames() {
    let p = Packet::data(
        Address::Short(0x0123, 0x0002),
        Address::Extended(0x0456, 0x1),
        0,
        &Vec::new(),
        false,
    );
    // The destination's PAN scopes the frame.
    assert_eq!(p.pan_id(), 0x0123);
    let b = Packet::beacon(Address::Extended(0x0456, 0x1), 0, Beacon { superframe_spec: spec() });
    // A beacon's destination is the broadcast PAN.
    assert_eq!(b.pan_id(), 0xFFFF);
}

#[test]
fn footer_decoding() {
    let p = Packet::data(
        Address::Short(1, 2),
        Address::Short(1, 3),
        0,
        &vec![9, 9],
        false,
    );
    let mut bytes = p.encode();
    bytes.push(0xDE);
    bytes.push(0xAD);
    let q = Packet::decode(&bytes, true).unwrap();
    assert_eq!(q.footer, [0xDE, 0xAD]);
    assert_eq!(q.payload(), &vec![9, 9]);
}

#[test]
fn beacon_with_populated_lists() {
    // A beacon from a standard coordinator may carry pending addresses;
    // the decoder measures and skips them, reading the superframe
    // specification all the same.
    let p = Packet::beacon(
        Address::Extended(0x0100, 0x1122),
        0,
        Beacon {
            superframe_spec: spec(),
        },
    );
    let mut bytes = p.encode();
    let n = bytes.len();
    // One pending short address follows the (empty) GTS field.
    bytes[n - 1] = 1;
    bytes.push(0x34);
    bytes.push(0x12);
    let q = Packet::decode(&bytes, false).unwrap();
    match q.content {
        FrameContent::Beacon(b) => assert_eq!(b.superframe_spec, spec()),
        _ => panic!("not a beacon"),
    }
    assert!(q.payload().is_empty());
    assert_eq!(q.header, p.header);
}

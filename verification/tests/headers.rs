//! 6LoWPAN header codecs: round trips, exact wire bytes, and the
//! link-local address rendering.

use lpwan::address::Address;
use lpwan::error::DecodeError;
use lpwan::sixlo::headers::{
    DispatchBits, Eui64, FragHeader, Hc1Header, Header, MeshHeader, V6Addr,
};

#[test]
fn frag_header() {
    let fh = FragHeader {
        datagram_tag: 14,
        datagram_size: 100,
        datagram_offset: Some(8),
    };

    // Encode and decode the header.
    let mut buff: Vec<u8> = Vec::new();
    let n = fh.encode(&mut buff);
    let (fh2, n2) = FragHeader::decode(&buff).unwrap();

    // The objects match.
    assert_eq!(fh, fh2);
    assert_eq!(n, n2);
}

#[test]
fn frag_header_bytes() {
    // Fragmentation type bits low, kind bit for a later fragment, the
    // size split across the first two bytes, the tag big-endian, then
    // the offset byte.
    let fh = FragHeader {
        datagram_size: 0x34A,
        datagram_tag: 0x0102,
        datagram_offset: Some(25),
    };
    let mut buff: Vec<u8> = Vec::new();
    let n = fh.encode(&mut buff);
    assert_eq!(n, 5);
    assert_eq!(buff, vec![0b0110_0111, 0x4A, 0x01, 0x02, 25]);

    // A first fragment: no kind bit and no offset byte.
    let fh1 = FragHeader {
        datagram_size: 100,
        datagram_tag: 14,
        datagram_offset: None,
    };
    let mut buff1: Vec<u8> = Vec::new();
    let n1 = fh1.encode(&mut buff1);
    assert_eq!(n1, 4);
    assert_eq!(buff1, vec![0b0000_0011, 100, 0, 14]);
}

#[test]
fn frag_header_decode_errors() {
    // Too short.
    assert_eq!(
        FragHeader::decode(&vec![3, 0]),
        Err(DecodeError::NotEnoughBytes)
    );
    // Not a fragmentation header.
    assert_eq!(
        FragHeader::decode(&vec![0b10, 0, 0, 0]),
        Err(DecodeError::InvalidValue)
    );
    // A later fragment missing its offset byte.
    assert_eq!(
        FragHeader::decode(&vec![0b111, 100, 0, 14]),
        Err(DecodeError::NotEnoughBytes)
    );
}

#[test]
fn mesh_header_roundtrip() {
    let h = MeshHeader {
        hops_left: 7,
        origin_addr: Address::Short(0, 0x1234),
        final_addr: Address::Extended(0, 0x1122_3344_5566_7788),
    };
    let mut buff: Vec<u8> = Vec::new();
    let n = h.encode(&mut buff);
    assert_eq!(n, 1 + 2 + 8);
    let (h2, n2) = MeshHeader::decode(&buff).unwrap();
    assert_eq!(h, h2);
    assert_eq!(n, n2);
}

#[test]
fn hc1_header() {
    let h = Hc1Header {
        flags: lpwan::sixlo::headers::HC1_COMPRESS_ALL,
        hop_limit: 64,
    };
    let mut buff: Vec<u8> = Vec::new();
    let n = h.encode(&mut buff);
    assert_eq!(n, 3);
    let (h2, n2) = Hc1Header::decode(&buff).unwrap();
    assert_eq!(h, h2);
    assert_eq!(n2, 3);
}

#[test]
fn header_block_roundtrip() {
    // A block of mesh plus fragmentation headers reads back unchanged.
    let h = Header {
        hc1: None,
        mesh: Some(MeshHeader {
            hops_left: 3,
            origin_addr: Address::Short(0, 1),
            final_addr: Address::Short(0, 2),
        }),
        bcast: None,
        frag: Some(FragHeader {
            datagram_size: 200,
            datagram_tag: 9,
            datagram_offset: None,
        }),
    };
    let mut buff: Vec<u8> = Vec::new();
    let n = h.encode(&mut buff);
    let (h2, n2) = Header::decode(&buff).unwrap();
    assert_eq!(h, h2);
    assert_eq!(n, n2);
}

#[test]
fn header_block_passthrough() {
    // A first byte outside the LoWPAN space reads as an empty header
    // over the whole payload.
    let (h, n) = Header::decode(&vec![0x00, 0xAA, 0xBB]).unwrap();
    assert_eq!(h, Header::default());
    assert_eq!(n, 0);
    // An empty buffer does not decode.
    assert_eq!(
        Header::decode(&Vec::new()),
        Err(DecodeError::NotEnoughBytes)
    );
}

#[test]
fn dispatch_values() {
    assert_eq!(DispatchBits::Ipv6.value(), 0b0100_0001);
    assert_eq!(DispatchBits::Hc1.value(), 0b0100_0010);
    assert_eq!(DispatchBits::Bc0.value(), 0b0101_0000);
    assert_eq!(DispatchBits::Esc.value(), 0b0111_1111);
    assert_eq!(DispatchBits::Mesh.value(), 0b1000_0000);
    assert_eq!(DispatchBits::Frag1.value(), 0b1100_0000);
    assert_eq!(DispatchBits::FragN.value(), 0b1110_0000);
}

#[test]
fn fmt_addr_v6() {
    let addr = V6Addr::from_eui64(Eui64::from_short_addr(16, 24));
    assert_eq!(addr.display(), "fa03:0300::0010:1000:0000");
}

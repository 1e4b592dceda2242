use wg_2024::network::SourceRoutingHeader;
use wg_2024::packet::fragmentation::{assembly, disassembly, fragment_packets, fragments_of_session};
use wg_2024::packet::message::{Message, Serializable, TextRequest};
use wg_2024::packet::{
    Ack, FloodRequest, FloodResponse, Fragment, Nack, NackType, NodeType, Packet, PacketType,
    FRAGMENT_DSIZE,
};

fn header() -> SourceRoutingHeader {
    SourceRoutingHeader::initialize(vec![1, 2, 3])
}

#[test]
fn fragment_new_measures_the_text_in_the_buffer() {
    let mut data = [0u8; FRAGMENT_DSIZE];
    data[..5].copy_from_slice(b"hello");
    let fragment = Fragment::new(1, 2, data);
    assert_eq!(fragment.fragment_index, 1);
    assert_eq!(fragment.total_n_fragments, 2);
    assert_eq!(fragment.length, 5);
    assert_eq!(fragment.data, data);
    assert_eq!(Fragment::new(0, 1, [0u8; FRAGMENT_DSIZE]).length, 0);
    assert_eq!(Fragment::new(0, 1, [9u8; FRAGMENT_DSIZE]).length, 128);
    data[2] = 0;
    assert_eq!(Fragment::new(0, 1, data).length, 2);
}

#[test]
fn fragment_from_string_pads_with_zeros() {
    let fragment = Fragment::from_string(0, 1, "Hello, World!".to_string());
    assert_eq!(fragment.length, 13);
    assert_eq!(&fragment.data[..13], b"Hello, World!");
    assert!(fragment.data[13..].iter().all(|b| *b == 0));
    assert_eq!(fragment.bytes(), b"Hello, World!".to_vec());
    let empty = Fragment::from_string(0, 1, String::new());
    assert_eq!(empty.length, 0);
    assert_eq!(empty.data, [0u8; FRAGMENT_DSIZE]);
    assert_eq!(empty.bytes(), Vec::<u8>::new());
}

#[test]
fn fragment_from_string_cuts_at_the_capacity() {
    let long = "x".repeat(200);
    let fragment = Fragment::from_string(2, 3, long);
    assert_eq!(fragment.length, 128);
    assert_eq!(fragment.data, [b'x'; FRAGMENT_DSIZE]);
    assert_eq!(fragment.bytes(), vec![b'x'; 128]);
    let exact = Fragment::from_bytes(0, 1, &[7u8; 128]);
    assert_eq!(exact.length, 128);
    assert_eq!(exact.bytes(), vec![7u8; 128]);
    let sharp = Fragment::from_string(0, 1, "è".to_string());
    assert_eq!(sharp.bytes(), vec![0xc3, 0xa8]);
}

#[test]
fn fragment_bytes_never_read_past_the_buffer() {
    let odd = Fragment { fragment_index: 0, total_n_fragments: 1, length: 200, data: [1; FRAGMENT_DSIZE] };
    assert_eq!(odd.bytes().len(), 128);
}

#[test]
fn packet_constructors_keep_what_they_are_given() {
    let fragment = Fragment::from_string(4, 9, "abc".to_string());
    let packet = Packet::new_fragment(header(), 11, fragment);
    assert_eq!(packet.routing_header, header());
    assert_eq!(packet.session_id, 11);
    assert_eq!(packet.pack_type, PacketType::MsgFragment(fragment));
    assert_eq!(packet.get_fragment_index(), 4);

    let ack = Packet::new_ack(header(), 12, 6);
    assert_eq!(ack.pack_type, PacketType::Ack(Ack { fragment_index: 6 }));
    assert_eq!(ack.session_id, 12);
    assert_eq!(ack.get_fragment_index(), 0);

    let nack = Nack { fragment_index: 6, nack_type: NackType::Dropped };
    let packet = Packet::new_nack(header(), 13, nack);
    assert_eq!(packet.pack_type, PacketType::Nack(nack));
    assert_eq!(packet.get_fragment_index(), 0);

    let request = FloodRequest::initialize(1, 2, NodeType::Client);
    let packet = Packet::new_flood_request(header(), 14, request.clone());
    assert_eq!(packet.pack_type, PacketType::FloodRequest(request));
    assert_eq!(packet.routing_header, header());

    let response = FloodResponse { flood_id: 3, path_trace: vec![(1, NodeType::Server)] };
    let packet = Packet::new_flood_response(header(), 15, response.clone());
    assert_eq!(packet.pack_type, PacketType::FloodResponse(response));
    assert_eq!(packet.clone(), packet);
}

#[test]
fn flood_request_grows_its_trace() {
    let empty = FloodRequest::new(1, 9);
    assert_eq!(empty.flood_id, 1);
    assert_eq!(empty.initiator_id, 9);
    assert!(empty.path_trace.is_empty());
    let mut request = FloodRequest::initialize(1, 9, NodeType::Server);
    assert_eq!(request.path_trace, vec![(9, NodeType::Server)]);
    request.increment(2, NodeType::Drone);
    assert_eq!(request.path_trace, vec![(9, NodeType::Server), (2, NodeType::Drone)]);
    let more = request.get_incremented(3, NodeType::Client);
    assert_eq!(request.path_trace.len(), 2);
    assert_eq!(
        more.path_trace,
        vec![(9, NodeType::Server), (2, NodeType::Drone), (3, NodeType::Client)]
    );
    assert_eq!(more.flood_id, 1);
    assert_eq!(more.initiator_id, 9);
}

#[test]
fn flood_response_goes_back_along_the_trace() {
    let mut request = FloodRequest::initialize(5, 1, NodeType::Client);
    request.increment(2, NodeType::Drone);
    request.increment(3, NodeType::Server);
    let response = request.generate_response(44);
    assert_eq!(response.session_id, 44);
    assert_eq!(response.routing_header, SourceRoutingHeader::initialize(vec![3, 2, 1]));
    assert_eq!(
        response.pack_type,
        PacketType::FloodResponse(FloodResponse {
            flood_id: 5,
            path_trace: request.path_trace.clone()
        })
    );
}

#[test]
fn flood_response_reaches_the_initiator_of_a_cut_trace() {
    let request = FloodRequest::new(1, 1).get_incremented(2, NodeType::Client);
    let response = request.generate_response(1);
    assert_eq!(response.routing_header, SourceRoutingHeader::initialize(vec![2, 1]));
    let mut cut = FloodRequest::new(8, 7);
    cut.increment(4, NodeType::Drone);
    cut.increment(5, NodeType::Drone);
    assert_eq!(
        cut.generate_response(0).routing_header,
        SourceRoutingHeader::initialize(vec![5, 4, 7])
    );
    let none = FloodRequest::new(8, 7).generate_response(0);
    assert_eq!(none.routing_header, SourceRoutingHeader::empty_route());
}

#[test]
fn fragments_are_written_with_their_bytes_in_hex() {
    let small = Fragment::from_string(0, 1, "Hello, World!".to_string());
    assert_eq!(
        small.to_string(),
        "Fragment { index: 1 out of 1, data: 0x48656c6c6f2c20576f726c6421 }"
    );
    let big = Fragment::from_string(
        0,
        1,
        "Nell mezzo del cammin di nostra vita, mi ritrovai per una selva oscura".to_string(),
    );
    assert_eq!(
        big.to_string(),
        "Fragment { index: 1 out of 1, data: 0x4e656c6c206d657a7a6f2064656c2063616d6d69... + other 50 bytes }"
    );
    let nineteen = Fragment::from_bytes(2, 7, &[0xab; 19]);
    assert_eq!(
        nineteen.to_string(),
        format!("Fragment {{ index: 3 out of 7, data: 0x{} }}", "ab".repeat(19))
    );
    let twenty = Fragment::from_bytes(2, 7, &[0x0f; 20]);
    assert_eq!(
        twenty.to_string(),
        format!("Fragment {{ index: 3 out of 7, data: 0x{}... + other 0 bytes }}", "0f".repeat(20))
    );
    let empty = Fragment::from_bytes(u64::MAX - 1, u64::MAX, &[]);
    assert_eq!(
        empty.to_string(),
        "Fragment { index: 18446744073709551615 out of 18446744073709551615, data: 0x }"
    );
}

#[test]
fn reports_are_written_as_their_fields() {
    assert_eq!(Ack { fragment_index: 12 }.to_string(), "Ack(12)");
    for nack_type in [
        NackType::ErrorInRouting(3),
        NackType::DestinationIsDrone,
        NackType::Dropped,
        NackType::UnexpectedRecipient(255),
    ] {
        let nack = Nack { fragment_index: 40, nack_type };
        assert_eq!(nack.to_string(), format!("{:?}", nack));
    }
    assert_eq!(
        Nack { fragment_index: 0, nack_type: NackType::ErrorInRouting(9) }.to_string(),
        "Nack { fragment_index: 0, nack_type: ErrorInRouting(9) }"
    );
}

#[test]
fn floods_are_written_as_their_fields() {
    let empty = FloodRequest::new(1, 1);
    assert_eq!(empty.to_string(), "FloodRequest { flood_id: 1, initiator_id: 1, path_trace: [] }");
    let mut request = FloodRequest::initialize(77, 10, NodeType::Client);
    request.increment(2, NodeType::Drone);
    request.increment(3, NodeType::Server);
    assert_eq!(request.to_string(), format!("{:?}", request));
    assert_eq!(
        request.to_string(),
        "FloodRequest { flood_id: 77, initiator_id: 10, path_trace: [(10, Client), (2, Drone), (3, Server)] }"
    );
    let response = FloodResponse { flood_id: 77, path_trace: request.path_trace.clone() };
    assert_eq!(response.to_string(), format!("{:?}", response));
    assert_eq!(
        FloodResponse { flood_id: 0, path_trace: vec![(1, NodeType::Drone)] }.to_string(),
        "FloodResponse { flood_id: 0, path_trace: [(1, Drone)] }"
    );
}

#[test]
fn packets_are_written_with_route_and_payload() {
    let mut route = header();
    route.increase_hop_index();
    let packet = Packet::new_ack(route.clone(), 1, 4);
    assert_eq!(packet.to_string(), "Packet(1) { routing_header: [ 1 ->(2)-> 3 ], pack_type Ack(4) }");
    assert_eq!(packet.pack_type.to_string(), "Ack(4)");
    let packet = Packet::new_fragment(route.clone(), 9, Fragment::from_string(0, 1, "hi".to_string()));
    assert_eq!(
        packet.to_string(),
        "Packet(9) { routing_header: [ 1 ->(2)-> 3 ], pack_type Fragment { index: 1 out of 1, data: 0x6869 } }"
    );
    let packet = Packet::new_nack(route.clone(), 9, Nack { fragment_index: 1, nack_type: NackType::Dropped });
    assert_eq!(
        packet.to_string(),
        "Packet(9) { routing_header: [ 1 ->(2)-> 3 ], pack_type Nack { fragment_index: 1, nack_type: Dropped } }"
    );
    let request = FloodRequest::initialize(2, 1, NodeType::Client);
    let packet = Packet::new_flood_request(SourceRoutingHeader::empty_route(), 3, request.clone());
    assert_eq!(
        packet.to_string(),
        "Packet(3) { routing_header: [  ], pack_type FloodRequest { flood_id: 2, initiator_id: 1, path_trace: [(1, Client)] } }"
    );
    let packet = request.generate_response(3);
    assert_eq!(
        packet.to_string(),
        "Packet(3) { routing_header: [ (1) ], pack_type FloodResponse { flood_id: 2, path_trace: [(1, Client)] } }"
    );
}

fn message(len: usize) -> Vec<u8> {
    (0..len).map(|i| (i % 251) as u8 + 1).collect()
}

#[test]
fn disassembly_cuts_at_every_128_bytes() {
    for (len, count) in [(0usize, 1usize), (1, 1), (127, 1), (128, 1), (129, 2), (256, 2), (300, 3)] {
        let bytes = message(len);
        let fragments = disassembly(&bytes);
        assert_eq!(fragments.len(), count);
        for (i, fragment) in fragments.iter().enumerate() {
            assert_eq!(fragment.fragment_index, i as u64);
            assert_eq!(fragment.total_n_fragments, count as u64);
            let end = (128 * (i + 1)).min(len);
            assert_eq!(fragment.bytes(), bytes[128 * i..end].to_vec());
            assert!(fragment.data[end - 128 * i..].iter().all(|b| *b == 0));
        }
    }
    assert_eq!(disassembly(&message(300))[2].length, 44);
}

#[test]
fn assembly_gives_the_message_back() {
    for len in [0usize, 1, 128, 129, 500, 1024] {
        let bytes = message(len);
        assert_eq!(assembly(&disassembly(&bytes)), Some(bytes));
    }
}

#[test]
fn assembly_takes_fragments_in_any_order() {
    let bytes = message(600);
    let mut fragments = disassembly(&bytes);
    fragments.reverse();
    fragments.swap(0, 2);
    assert_eq!(assembly(&fragments), Some(bytes));
}

#[test]
fn assembly_needs_every_fragment_once() {
    let bytes = message(600);
    let fragments = disassembly(&bytes);
    assert_eq!(assembly(&Vec::new()), None);
    let mut missing = fragments.clone();
    missing.remove(1);
    assert_eq!(assembly(&missing), None);
    let mut twice = fragments.clone();
    twice[1] = twice[0];
    assert_eq!(assembly(&twice), None);
    let mut extra = fragments.clone();
    extra.push(fragments[0]);
    assert_eq!(assembly(&extra), None);
    let mut other_message = fragments.clone();
    other_message[3].total_n_fragments = 6;
    assert_eq!(assembly(&other_message), None);
}

#[test]
fn fragment_packets_share_route_and_session() {
    let bytes = message(300);
    let mut route = header();
    route.increase_hop_index();
    let packets = fragment_packets(&route, 21, &bytes);
    assert_eq!(packets.len(), 3);
    for (i, packet) in packets.iter().enumerate() {
        assert_eq!(packet.routing_header, route);
        assert_eq!(packet.session_id, 21);
        assert_eq!(packet.get_fragment_index(), i as u64);
    }
    let mut received = fragment_packets(&route, 22, &message(10));
    received.extend(packets.into_iter().rev());
    received.push(Packet::new_ack(route.clone(), 21, 0));
    let fragments = fragments_of_session(&received, 21);
    assert_eq!(fragments.len(), 3);
    assert_eq!(fragments[0].fragment_index, 2);
    assert_eq!(assembly(&fragments), Some(bytes));
    assert_eq!(assembly(&fragments_of_session(&received, 22)), Some(message(10)));
    assert!(fragments_of_session(&received, 23).is_empty());
}

#[test]
fn text_request_is_written_and_read() {
    assert_eq!(TextRequest::TextList.serialize(), "TextList");
    assert_eq!(TextRequest::Text(0).serialize(), "Text(0)");
    assert_eq!(TextRequest::Text(1234567890).serialize(), "Text(1234567890)");
    assert_eq!(TextRequest::Text(u64::MAX).serialize(), "Text(18446744073709551615)");
    for request in [TextRequest::TextList, TextRequest::Text(0), TextRequest::Text(42), TextRequest::Text(u64::MAX)] {
        assert_eq!(TextRequest::deserialize(request.serialize()), Ok(request));
    }
}

#[test]
fn text_request_is_read_as_leniently_as_it_was() {
    let read = |text: &str| TextRequest::deserialize(text.to_string());
    assert_eq!(read("TextList"), Ok(TextRequest::TextList));
    assert_eq!(read("Text(5)"), Ok(TextRequest::Text(5)));
    assert_eq!(read("5"), Ok(TextRequest::Text(5)));
    assert_eq!(read("+5"), Ok(TextRequest::Text(5)));
    assert_eq!(read("007"), Ok(TextRequest::Text(7)));
    assert_eq!(read("Text(Text(7)))"), Ok(TextRequest::Text(7)));
    assert_eq!(read("Text(+7"), Ok(TextRequest::Text(7)));
    assert_eq!(read("18446744073709551615"), Ok(TextRequest::Text(u64::MAX)));
    for bad in [
        "", "Text()", "Text(", ")", "+", "-5", "Text(5) ", " Text(5)", "text(5)", "Text(5)x", "5.0",
        "TextList ", "Text(TextList)", "18446744073709551616", "99999999999999999999999", "Text(1)2)",
        "٣",
    ] {
        assert_eq!(read(bad), Err("Failed to deserialize TextRequest".to_string()), "{bad:?}");
    }
}

#[test]
fn message_is_cut_into_packets() {
    let message = Message::new(header(), 1, 31, TextRequest::Text(17));
    assert_eq!(message.routing_header, header());
    assert_eq!(message.message_data.source_id, 1);
    assert_eq!(message.message_data.session_id, 31);
    assert_eq!(message.message_data.content, TextRequest::Text(17));
    let packets = message.disassembly();
    assert_eq!(packets.len(), 1);
    assert_eq!(packets[0].session_id, 31);
    assert_eq!(packets[0].routing_header, header());
    let bytes = assembly(&fragments_of_session(&packets, 31)).unwrap();
    assert_eq!(
        TextRequest::deserialize(String::from_utf8(bytes).unwrap()),
        Ok(TextRequest::Text(17))
    );
}

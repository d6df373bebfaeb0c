use flypath::network::{
    pad, Ack, FloodRequest, Fragment, Nack, NackType, NodeType, Packet, PacketType,
    SourceRoutingHeader, FRAGMENT_DSIZE,
};

#[test]
fn routes_and_their_cursor() {
    let route = SourceRoutingHeader::with_first_hop(vec![10, 1, 2]);
    assert_eq!(route, SourceRoutingHeader { hop_index: 1, hops: vec![10, 1, 2] });
    assert_eq!(route.current_hop(), Some(1));
    assert_eq!(route.next_hop(), Some(2));
    let route = SourceRoutingHeader::initialize(vec![10, 1, 2]);
    assert_eq!(route.hop_index, 0);
    assert_eq!(route.current_hop(), Some(10));
    assert_eq!(route.next_hop(), Some(1));
    let route = SourceRoutingHeader::new(vec![10, 1, 2], 2);
    assert_eq!(route.current_hop(), Some(2));
    assert_eq!(route.next_hop(), None);
    let route = SourceRoutingHeader::new(vec![10, 1, 2], 3);
    assert_eq!(route.current_hop(), None);
    assert_eq!(route.next_hop(), None);
    let route = SourceRoutingHeader::new(vec![10], usize::MAX);
    assert_eq!(route.current_hop(), None);
    assert_eq!(route.next_hop(), None);
    let route = SourceRoutingHeader::empty_route();
    assert_eq!(route, SourceRoutingHeader { hop_index: 0, hops: vec![] });
    assert_eq!(route.current_hop(), None);
    assert_eq!(route.next_hop(), None);
}

#[test]
fn fragments_from_text_and_from_bytes() {
    assert_eq!(FRAGMENT_DSIZE, 128);
    let fragment = Fragment::from_string(1, 1, "heyy".to_string());
    let mut data = [0; 128];
    data[..4].copy_from_slice(b"heyy");
    assert_eq!(fragment, Fragment { fragment_index: 1, total_n_fragments: 1, length: 4, data });
    let long = Fragment::from_string(2, 3, "z".repeat(300));
    assert_eq!(
        long,
        Fragment { fragment_index: 2, total_n_fragments: 3, length: 128, data: [b'z'; 128] }
    );
    assert_eq!(
        Fragment::new(5, 6, [7; 128]),
        Fragment { fragment_index: 5, total_n_fragments: 6, length: 128, data: [7; 128] }
    );
    assert_eq!(pad(&[]), [0; 128]);
    assert_eq!(pad(&[3; 200]), [3; 128]);
}

#[test]
fn packets_of_every_kind_and_their_copies() {
    let route = || SourceRoutingHeader::with_first_hop(vec![1, 2]);
    let fragment = Fragment::new(5, 6, [7; 128]);
    let packets = vec![
        Packet::new_fragment(route(), 3, fragment),
        Packet::new_ack(route(), 3, 5),
        Packet::new_nack(route(), 3, Nack { fragment_index: 5, nack_type: NackType::Dropped }),
        Packet::new_flood_request(route(), 3, FloodRequest::initialize(1, 1, NodeType::Server)),
        FloodRequest::initialize(1, 1, NodeType::Server).generate_response(3),
    ];
    assert_eq!(packets[0].pack_type, PacketType::MsgFragment(fragment));
    assert_eq!(packets[1].pack_type, PacketType::Ack(Ack { fragment_index: 5 }));
    assert_eq!(packets[4].routing_header, SourceRoutingHeader::initialize(vec![1]));
    for packet in &packets {
        assert_eq!(packet.session_id, 3);
        assert_eq!(&packet.clone(), packet);
    }
    assert_ne!(packets[0], packets[1]);
}

#[test]
fn get_incremented_leaves_the_request_as_it_is() {
    let request = FloodRequest::initialize(1, 10, NodeType::Client);
    let longer = request.get_incremented(4, NodeType::Drone);
    assert_eq!(request.path_trace, vec![(10, NodeType::Client)]);
    assert_eq!(longer.path_trace, vec![(10, NodeType::Client), (4, NodeType::Drone)]);
    assert_eq!(longer.flood_id, 1);
    assert_eq!(longer.initiator_id, 10);
}

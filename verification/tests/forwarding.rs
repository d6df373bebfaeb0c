use crossbeam_channel::{unbounded, Receiver, Sender};
use flypath::controller::{Action, DroneEvent};
use flypath::flypath::FlyPath;
use flypath::lottery::{draw_ticket, DropRate, LOTTERY_TICKETS};
use flypath::network::{
    Fragment, Nack, NackType, NodeId, Packet, PacketType, SourceRoutingHeader,
};
use std::collections::HashMap;

type Drone = FlyPath<Sender<Packet>>;

/// Carries out what the node asks for, on its channels and on `controller`.
fn perform(drone: &mut Drone, actions: Vec<Action>, controller: &Sender<DroneEvent>) {
    let done = drone.perform(actions, controller, &|packet| packet, &|event| event);
    assert!(done.reached);
}

/// The node 1 with the neighbours 2, a drone, and 3, a client.
fn setup_test_drone(pdr: DropRate) -> (Drone, Receiver<Packet>, Receiver<Packet>) {
    let (drone_packet_send, test_packet_recv) = unbounded();
    let (client_sender, client_reciver) = unbounded();
    let mut packet_send = HashMap::new();
    packet_send.insert(2, drone_packet_send);
    packet_send.insert(3, client_sender);
    (FlyPath::new(1, packet_send, pdr), test_packet_recv, client_reciver)
}

/// The node `id` with one channel for each of `neighbors`.
fn drone_with(id: NodeId, neighbors: &[NodeId], pdr: DropRate) -> (Drone, Vec<Receiver<Packet>>) {
    let mut packet_send = HashMap::new();
    let mut receivers = Vec::new();
    for neighbor in neighbors {
        let (sender, receiver) = unbounded();
        packet_send.insert(*neighbor, sender);
        receivers.push(receiver);
    }
    (FlyPath::new(id, packet_send, pdr), receivers)
}

fn fragment_packet(hops: Vec<NodeId>, hop_index: usize) -> Packet {
    Packet {
        pack_type: PacketType::MsgFragment(Fragment {
            fragment_index: 1,
            total_n_fragments: 1,
            length: 128,
            data: [1; 128],
        }),
        routing_header: SourceRoutingHeader { hop_index, hops },
        session_id: 1,
    }
}

fn nack_packet(hops: Vec<NodeId>, hop_index: usize, nack_type: NackType) -> Packet {
    Packet {
        pack_type: PacketType::Nack(Nack { fragment_index: 1, nack_type }),
        routing_header: SourceRoutingHeader { hop_index, hops },
        session_id: 1,
    }
}

#[test]
fn test_default_nack_unexpected_recipient() {
    let (mut drone, _test_packet_recv, client_reciver) = setup_test_drone(DropRate::never());
    let packet = fragment_packet(vec![3, 2, 1], 1);
    let (controller, events) = unbounded();
    let actions = drone.packet_handler(packet);
    perform(&mut drone, actions, &controller);
    if let PacketType::Nack(nack) = client_reciver.try_recv().unwrap().pack_type {
        assert_eq!(nack.nack_type, NackType::UnexpectedRecipient(drone.id));
    } else {
        panic!("the client got no nack");
    }
}

#[test]
fn test_default_destination_is_drone() {
    let (mut drone, _test_packet_recv, client_reciver) = setup_test_drone(DropRate::never());
    let packet = fragment_packet(vec![3, 1], 1);
    let (controller, events) = unbounded();
    let actions = drone.packet_handler(packet);
    perform(&mut drone, actions, &controller);
    if let PacketType::Nack(nack) = client_reciver.try_recv().unwrap().pack_type {
        assert_eq!(nack.nack_type, NackType::DestinationIsDrone);
    } else {
        panic!("the client got no nack");
    }
}

#[test]
fn test_deafult_error_in_routing() {
    let (mut drone, _test_packet_recv, client_reciver) = setup_test_drone(DropRate::never());
    let packet = fragment_packet(vec![3, 1, 4], 1);
    let (controller, events) = unbounded();
    let actions = drone.packet_handler(packet);
    perform(&mut drone, actions, &controller);
    if let PacketType::Nack(nack) = client_reciver.try_recv().unwrap().pack_type {
        assert_eq!(nack.nack_type, NackType::ErrorInRouting(4));
    } else {
        panic!("the client got no nack");
    }
}

#[test]
fn test_default_forward_to_drone_panicked() {
    let (mut drone, test_packet_recv, client_reciver) = setup_test_drone(DropRate::never());
    let packet = fragment_packet(vec![3, 1, 2], 1);
    drop(test_packet_recv);
    let (controller, events) = unbounded();
    let actions = drone.packet_handler(packet);
    perform(&mut drone, actions, &controller);
    if let PacketType::Nack(nack) = client_reciver.try_recv().unwrap().pack_type {
        assert_eq!(nack.nack_type, NackType::ErrorInRouting(2));
    } else {
        panic!("the client got no nack");
    }
    assert!(!drone.packet_send.contains_key(&2));
    assert!(drone.packet_send.contains_key(&3));
    assert!(events.is_empty());
}

#[test]
fn forwarding_success_moves_the_cursor_and_reports_the_fragment() {
    let (mut drone, receivers) = drone_with(11, &[1, 12], DropRate::never());
    let packet = fragment_packet(vec![1, 11, 12, 21], 1);
    let (controller, events) = unbounded();
    let actions = drone.packet_handler(packet);
    assert_eq!(
        actions,
        vec![Action::Forward { to: 12, packet: fragment_packet(vec![1, 11, 12, 21], 2) }]
    );
    perform(&mut drone, actions, &controller);
    assert_eq!(receivers[1].try_recv().unwrap(), fragment_packet(vec![1, 11, 12, 21], 2));
    assert!(receivers[1].try_recv().is_err());
    assert!(receivers[0].try_recv().is_err());
    assert_eq!(
        events.try_iter().collect::<Vec<_>>(),
        vec![DroneEvent::PacketSent(fragment_packet(vec![1, 11, 12, 21], 2))]
    );
}

#[test]
fn mandatory_drop_sends_a_nack_back_and_reports_the_fragment() {
    let (mut drone, receivers) = drone_with(11, &[1, 12], DropRate::always());
    let packet = fragment_packet(vec![1, 11, 12, 21], 1);
    let (controller, events) = unbounded();
    let actions = drone.packet_handler(packet);
    perform(&mut drone, actions, &controller);
    assert_eq!(receivers[0].try_recv().unwrap(), nack_packet(vec![11, 1], 1, NackType::Dropped));
    assert!(receivers[0].try_recv().is_err());
    assert!(receivers[1].try_recv().is_err());
    assert_eq!(
        events.try_iter().collect::<Vec<_>>(),
        vec![DroneEvent::PacketDropped(fragment_packet(vec![1, 11, 12, 21], 1))]
    );
}

#[test]
fn the_nack_starts_at_the_node_with_the_cursor_at_zero() {
    let (drone, _receivers) = drone_with(11, &[12], DropRate::never());
    let packet = fragment_packet(vec![1, 11, 12, 21], 1);
    // The client 1 is no neighbour, so the nack is handed to the controller as it was made.
    assert_eq!(
        drone.send_nack(&packet, NackType::Dropped),
        vec![
            Action::Notify(DroneEvent::ControllerShortcut(nack_packet(
                vec![11, 1],
                0,
                NackType::Dropped
            ))),
            Action::Notify(DroneEvent::PacketDropped(fragment_packet(vec![1, 11, 12, 21], 1))),
        ]
    );
}

#[test]
fn chain_with_two_hops_where_the_second_drops() {
    let (mut first, first_receivers) = drone_with(11, &[1, 12], DropRate::never());
    let (mut second, second_receivers) = drone_with(12, &[11, 21], DropRate::always());
    let (first_controller, first_events) = unbounded();
    let (second_controller, second_events) = unbounded();

    let actions = first.packet_handler(fragment_packet(vec![1, 11, 12, 21], 1));
    perform(&mut first, actions, &first_controller);
    let at_second = first_receivers[1].try_recv().unwrap();
    assert_eq!(at_second, fragment_packet(vec![1, 11, 12, 21], 2));

    let actions = second.packet_handler(at_second);
    perform(&mut second, actions, &second_controller);
    assert!(second_receivers[1].try_recv().is_err());
    let back_at_first = second_receivers[0].try_recv().unwrap();
    assert_eq!(back_at_first, nack_packet(vec![12, 11, 1], 1, NackType::Dropped));

    let actions = first.packet_handler(back_at_first);
    perform(&mut first, actions, &first_controller);
    assert_eq!(
        first_receivers[0].try_recv().unwrap(),
        nack_packet(vec![12, 11, 1], 2, NackType::Dropped)
    );
    assert!(first_receivers[0].try_recv().is_err());
    assert_eq!(
        first_events.try_iter().collect::<Vec<_>>(),
        vec![DroneEvent::PacketSent(fragment_packet(vec![1, 11, 12, 21], 2))]
    );
    assert_eq!(
        second_events.try_iter().collect::<Vec<_>>(),
        vec![DroneEvent::PacketDropped(fragment_packet(vec![1, 11, 12, 21], 2))]
    );
}

#[test]
fn unexpected_recipient_is_answered_on_the_previous_hop() {
    let (mut drone, _test_packet_recv, client_reciver) = setup_test_drone(DropRate::never());
    let actions = drone.packet_handler(fragment_packet(vec![3, 2, 1], 1));
    assert_eq!(
        actions,
        vec![Action::Forward {
            to: 3,
            packet: nack_packet(vec![1, 3], 1, NackType::UnexpectedRecipient(1))
        }]
    );
    let (controller, events) = unbounded();
    perform(&mut drone, actions, &controller);
    assert_eq!(
        client_reciver.try_recv().unwrap(),
        nack_packet(vec![1, 3], 1, NackType::UnexpectedRecipient(1))
    );
    assert!(events.is_empty());
}

#[test]
fn terminal_at_drone_is_answered_on_the_previous_hop() {
    let (mut drone, _test_packet_recv, _client_reciver) = setup_test_drone(DropRate::never());
    assert_eq!(
        drone.packet_handler(fragment_packet(vec![3, 1], 1)),
        vec![Action::Forward {
            to: 3,
            packet: nack_packet(vec![1, 3], 1, NackType::DestinationIsDrone)
        }]
    );
}

#[test]
fn validate_packet_names_each_reason() {
    let (drone, _test_packet_recv, _client_reciver) = setup_test_drone(DropRate::never());
    assert_eq!(
        drone.validate_packet(&fragment_packet(vec![3, 2, 1], 1)),
        Some(NackType::UnexpectedRecipient(1))
    );
    assert_eq!(
        drone.validate_packet(&fragment_packet(vec![3, 1], 1)),
        Some(NackType::DestinationIsDrone)
    );
    assert_eq!(
        drone.validate_packet(&fragment_packet(vec![3, 1, 4], 1)),
        Some(NackType::ErrorInRouting(4))
    );
    assert_eq!(drone.validate_packet(&fragment_packet(vec![3, 1, 2], 1)), None);
    // An exhausted route has no current hop: nothing is asked of the packet.
    assert_eq!(drone.validate_packet(&fragment_packet(vec![3, 1, 2], 3)), None);
    assert_eq!(drone.validate_packet(&fragment_packet(vec![], 0)), None);
}

#[test]
fn reverse_hops_is_the_passed_hops_and_the_node_in_reverse() {
    let (drone, _test_packet_recv, _client_reciver) = setup_test_drone(DropRate::never());
    assert_eq!(drone.reverse_hops(&fragment_packet(vec![5, 4, 1, 2], 2)), vec![1, 4, 5]);
    assert_eq!(drone.reverse_hops(&fragment_packet(vec![3, 2, 1], 1)), vec![1, 3]);
    assert_eq!(drone.reverse_hops(&fragment_packet(vec![1, 2], 0)), vec![1]);
    assert_eq!(drone.reverse_hops(&fragment_packet(vec![3, 4], 2)), vec![1, 4, 3]);
    assert_eq!(drone.reverse_hops(&fragment_packet(vec![3, 4], 9)), vec![1, 4, 3]);
    assert_eq!(drone.reverse_hops(&fragment_packet(vec![], 0)), vec![1]);
}

#[test]
fn round_trip_over_three_hops() {
    // Route [c, n, d] = [7, 1, 9]: whatever the reason, the nack of the node 1 goes [1, 7].
    let (drone, _receivers) = drone_with(1, &[7], DropRate::never());
    let packet = fragment_packet(vec![7, 1, 9], 1);
    for nack_type in [
        NackType::DestinationIsDrone,
        NackType::ErrorInRouting(9),
        NackType::UnexpectedRecipient(1),
    ] {
        assert_eq!(
            drone.send_nack(&packet, nack_type),
            vec![Action::Forward { to: 7, packet: nack_packet(vec![1, 7], 1, nack_type) }]
        );
    }
}

#[test]
fn invalid_non_fragments_go_to_the_controller() {
    let (mut drone, test_packet_recv, client_reciver) = setup_test_drone(DropRate::always());
    let ack = Packet::new_ack(SourceRoutingHeader::new(vec![3, 1, 4], 1), 7, 5);
    assert_eq!(
        drone.packet_handler(ack.clone()),
        vec![Action::Notify(DroneEvent::ControllerShortcut(ack))]
    );
    let nack = nack_packet(vec![3, 1], 1, NackType::DestinationIsDrone);
    assert_eq!(
        drone.packet_handler(nack.clone()),
        vec![Action::Notify(DroneEvent::ControllerShortcut(nack))]
    );
    let nack = nack_packet(vec![3, 2, 1], 1, NackType::Dropped);
    assert_eq!(
        drone.packet_handler(nack.clone()),
        vec![Action::Notify(DroneEvent::ControllerShortcut(nack))]
    );
    assert!(test_packet_recv.try_recv().is_err());
    assert!(client_reciver.try_recv().is_err());
}

#[test]
fn valid_non_fragments_are_forwarded_without_lottery_and_without_event() {
    let (mut drone, test_packet_recv, _client_reciver) = setup_test_drone(DropRate::always());
    let ack = Packet::new_ack(SourceRoutingHeader::new(vec![3, 1, 2], 1), 7, 5);
    let (controller, events) = unbounded();
    let actions = drone.packet_handler(ack);
    perform(&mut drone, actions, &controller);
    assert_eq!(
        test_packet_recv.try_recv().unwrap(),
        Packet::new_ack(SourceRoutingHeader::new(vec![3, 1, 2], 2), 7, 5)
    );
    assert!(events.is_empty());
}

#[test]
fn a_failed_send_of_a_non_fragment_goes_to_the_controller() {
    let (mut drone, test_packet_recv, _client_reciver) = setup_test_drone(DropRate::never());
    drop(test_packet_recv);
    let ack = Packet::new_ack(SourceRoutingHeader::new(vec![3, 1, 2], 1), 7, 5);
    let (controller, events) = unbounded();
    let actions = drone.packet_handler(ack.clone());
    perform(&mut drone, actions, &controller);
    assert_eq!(events.try_iter().collect::<Vec<_>>(), vec![DroneEvent::ControllerShortcut(ack)]);
    assert!(!drone.packet_send.contains_key(&2));
}

#[test]
fn a_nack_that_cannot_go_back_is_handed_to_the_controller() {
    let (mut drone, test_packet_recv, client_reciver) = setup_test_drone(DropRate::never());
    drop(test_packet_recv);
    drop(client_reciver);
    let (controller, events) = unbounded();
    let actions = drone.packet_handler(fragment_packet(vec![3, 1, 2], 1));
    perform(&mut drone, actions, &controller);
    assert_eq!(
        events.try_iter().collect::<Vec<_>>(),
        vec![DroneEvent::ControllerShortcut(nack_packet(
            vec![1, 3],
            0,
            NackType::ErrorInRouting(2)
        ))]
    );
    assert!(drone.packet_send.is_empty());
}

#[test]
fn a_fragment_at_the_first_hop_has_its_nack_handed_to_the_controller() {
    let (mut drone, _test_packet_recv, _client_reciver) = setup_test_drone(DropRate::always());
    let packet = fragment_packet(vec![1, 2], 0);
    assert_eq!(
        drone.packet_handler(packet.clone()),
        vec![
            Action::Notify(DroneEvent::ControllerShortcut(nack_packet(
                vec![1],
                0,
                NackType::Dropped
            ))),
            Action::Notify(DroneEvent::PacketDropped(packet)),
        ]
    );
}

#[test]
fn a_packet_with_an_exhausted_route_is_ignored() {
    let (mut drone, _test_packet_recv, _client_reciver) = setup_test_drone(DropRate::always());
    assert!(drone.packet_handler(fragment_packet(vec![3, 1], 2)).is_empty());
    assert!(drone
        .packet_handler(Packet::new_ack(SourceRoutingHeader::empty_route(), 1, 1))
        .is_empty());
}

#[test]
fn the_ticket_decides_between_forward_and_drop() {
    let (mut drone, _test_packet_recv, _client_reciver) = setup_test_drone(DropRate::new(100));
    let dropped = drone.packet_handler_with_ticket(fragment_packet(vec![3, 1, 2], 1), 99);
    assert_eq!(
        dropped,
        vec![
            Action::Forward { to: 3, packet: nack_packet(vec![1, 3], 1, NackType::Dropped) },
            Action::Notify(DroneEvent::PacketDropped(fragment_packet(vec![3, 1, 2], 1))),
        ]
    );
    let kept = drone.packet_handler_with_ticket(fragment_packet(vec![3, 1, 2], 1), 100);
    assert_eq!(kept, vec![Action::Forward { to: 2, packet: fragment_packet(vec![3, 1, 2], 2) }]);
}

#[test]
fn drop_rates_and_tickets() {
    assert_eq!(LOTTERY_TICKETS, 8388608);
    assert_eq!(DropRate::never().losing_tickets, 0);
    assert_eq!(DropRate::always().losing_tickets, 8388608);
    assert!(!DropRate::never().is_dropped(0));
    assert!(DropRate::always().is_dropped(8388607));
    assert!(DropRate::new(5).is_dropped(4));
    assert!(!DropRate::new(5).is_dropped(5));
    // A rate above the scale stands for no more than certainty.
    assert!(DropRate::new(u32::MAX).is_dropped(8388607));
    for _ in 0..1000 {
        assert!(draw_ticket() < LOTTERY_TICKETS);
    }
}

#[test]
fn after_send_reports_only_fragments() {
    let (mut drone, _test_packet_recv, _client_reciver) = setup_test_drone(DropRate::never());
    let fragment = fragment_packet(vec![3, 1, 2], 2);
    assert_eq!(
        drone.after_send(2, fragment.clone(), true),
        vec![Action::Notify(DroneEvent::PacketSent(fragment))]
    );
    let ack = Packet::new_ack(SourceRoutingHeader::new(vec![3, 1, 2], 2), 7, 5);
    assert!(drone.after_send(2, ack, true).is_empty());
    assert_eq!(drone.packet_send.len(), 2);
}

/// The fragment that the client 1 sends to the server 21 over the drones 11
/// and 12.
fn create_sample_packet() -> Packet {
    fragment_packet(vec![1, 11, 12, 21], 1)
}

#[test]
fn test_generic_gragment_forward() {
    // Client 1 and drone 12 are the neighbours of the drone 11, which drops nothing.
    let (mut drone, receivers) = drone_with(11, &[12, 1], DropRate::never());
    let (controller, _events) = unbounded();
    let mut msg = create_sample_packet();

    let actions = drone.packet_handler(msg.clone());
    perform(&mut drone, actions, &controller);
    msg.routing_header.hop_index = 2;

    // The drone 12 gets the fragment.
    assert_eq!(receivers[0].try_recv().unwrap(), msg);
}

#[test]
fn test_generic_fragment_drop() {
    // Client 1 and drone 12 are the neighbours of the drone 11, which drops everything.
    let (mut drone, receivers) = drone_with(11, &[12, 1], DropRate::always());
    let (controller, events) = unbounded();
    let msg = create_sample_packet();

    let actions = drone.packet_handler(msg.clone());
    perform(&mut drone, actions, &controller);

    let nack_packet = Packet {
        pack_type: PacketType::Nack(Nack { fragment_index: 1, nack_type: NackType::Dropped }),
        routing_header: SourceRoutingHeader { hop_index: 1, hops: vec![11, 1] },
        session_id: 1,
    };
    // The client gets the nack, the drone 12 nothing, the controller the report.
    assert_eq!(receivers[1].try_recv().unwrap(), nack_packet);
    assert!(receivers[0].try_recv().is_err());
    assert_eq!(events.try_recv().unwrap(), DroneEvent::PacketDropped(msg));
}

#[test]
fn test_generic_chain_fragment_drop() {
    // Client 1 - drone 11 - drone 12 - server 21; only the drone 12 drops.
    let (mut d, d_out) = drone_with(11, &[12, 1], DropRate::never());
    let (mut d2, d2_out) = drone_with(12, &[11, 21], DropRate::always());
    let (controller, _events) = unbounded();

    let actions = d.packet_handler(create_sample_packet());
    perform(&mut d, actions, &controller);
    let actions = d2.packet_handler(d_out[0].try_recv().unwrap());
    perform(&mut d2, actions, &controller);
    let actions = d.packet_handler(d2_out[0].try_recv().unwrap());
    perform(&mut d, actions, &controller);

    // The server gets nothing, the client the nack of the drone 12.
    assert!(d2_out[1].try_recv().is_err());
    assert_eq!(
        d_out[1].try_recv().unwrap(),
        Packet {
            pack_type: PacketType::Nack(Nack { fragment_index: 1, nack_type: NackType::Dropped }),
            routing_header: SourceRoutingHeader { hop_index: 2, hops: vec![12, 11, 1] },
            session_id: 1,
        }
    );
    assert!(d_out[1].try_recv().is_err());
}

#[test]
fn test_generic_chain_fragment_ack() {
    // Client 1 - drone 11 - drone 12 - server 21; no drone drops.
    let (mut d, d_out) = drone_with(11, &[12, 1], DropRate::never());
    let (mut d2, d2_out) = drone_with(12, &[11, 21], DropRate::never());
    let (controller, _events) = unbounded();
    let mut msg = create_sample_packet();

    let actions = d.packet_handler(msg.clone());
    perform(&mut d, actions, &controller);
    let actions = d2.packet_handler(d_out[0].try_recv().unwrap());
    perform(&mut d2, actions, &controller);

    // The server gets the fragment.
    msg.routing_header.hop_index = 3;
    assert_eq!(d2_out[1].try_recv().unwrap(), msg);
    // No drone has sent anything back on its own.
    assert!(d_out[1].try_recv().is_err());
    assert!(d2_out[0].try_recv().is_err());

    // The server acknowledges, and the acknowledgement travels back.
    let mut ack = Packet::new_ack(SourceRoutingHeader::with_first_hop(vec![21, 12, 11, 1]), 1, 1);
    let actions = d2.packet_handler(ack.clone());
    perform(&mut d2, actions, &controller);
    let actions = d.packet_handler(d2_out[0].try_recv().unwrap());
    perform(&mut d, actions, &controller);
    ack.routing_header.hop_index = 3;
    assert_eq!(d_out[1].try_recv().unwrap(), ack);
}

#[test]
fn the_forwarding_path_does_not_validate() {
    let (mut drone, _test_packet_recv, _client_reciver) = setup_test_drone(DropRate::always());
    // The next hop is a neighbour: the packet goes there, whatever node stands at the cursor.
    assert_eq!(
        drone.send_packet(fragment_packet(vec![3, 77, 2], 1)),
        vec![Action::Forward { to: 2, packet: fragment_packet(vec![3, 77, 2], 2) }]
    );
    assert_eq!(
        drone.after_send(2, fragment_packet(vec![3, 77, 2], 2), true),
        vec![Action::Notify(DroneEvent::PacketSent(fragment_packet(vec![3, 77, 2], 2)))]
    );
    assert_eq!(
        drone.send_packet(Packet::new_ack(SourceRoutingHeader::new(vec![3, 1, 2], 1), 7, 5)),
        vec![Action::Forward {
            to: 2,
            packet: Packet::new_ack(SourceRoutingHeader::new(vec![3, 1, 2], 2), 7, 5),
        }]
    );
    // The next hop is no neighbour: the packet is answered, the cursor being where it was.
    assert_eq!(
        drone.send_packet(fragment_packet(vec![3, 1, 4], 1)),
        vec![Action::Forward {
            to: 3,
            packet: nack_packet(vec![1, 3], 1, NackType::ErrorInRouting(4)),
        }]
    );
    let ack = Packet::new_ack(SourceRoutingHeader::new(vec![3, 1, 4], 1), 7, 5);
    assert_eq!(
        drone.send_packet(ack.clone()),
        vec![Action::Notify(DroneEvent::ControllerShortcut(ack))]
    );
    // There is no next hop: nothing is sent.
    assert!(drone.send_packet(fragment_packet(vec![3, 1], 1)).is_empty());
    assert!(drone.send_packet(fragment_packet(vec![3, 1], 2)).is_empty());
    assert!(drone.send_packet(fragment_packet(vec![], usize::MAX)).is_empty());
    // A running node validates before it takes the forwarding path.
    assert_eq!(
        drone.packet_handler(Packet::new_ack(SourceRoutingHeader::new(vec![3, 77, 2], 1), 7, 5)),
        vec![Action::Notify(DroneEvent::ControllerShortcut(Packet::new_ack(
            SourceRoutingHeader::new(vec![3, 77, 2], 1),
            7,
            5
        )))]
    );
}

//! Laws of the node, proved of its model. The executable node meets them
//! because each of its steps is verified to compute what the model says.
use crate::controller::{ActionView, CommandView, DroneEventView, InputView};
use crate::lottery::LOTTERY_TICKETS;
use crate::model::{
    all_node_ids, fan_out, is_flood_target, LifecycleState, NodeModel,
};
use crate::network::{
    trace_ids, FloodRequestView, FloodResponseView, Nack, NackType, NodeId, NodeType,
    PacketTypeView, PacketView, Route,
};
use crate::transport::{
    answers_after, carried_out, first_answer, head_run, lemma_carried_out_alone, reported, turned,
    Effect, Outcome, Run, Turned,
};
use vstd::prelude::*;

verus! {

/// The negative acknowledgement that the node `id` writes for the fragment
/// `fragment_index` carried by `packet`: it names the reason, belongs to the
/// packet's session, and its route leads from the node back over the hops
/// that the packet has passed.
pub open spec fn nack_from(
    id: NodeId,
    packet: PacketView,
    fragment_index: u64,
    nack_type: NackType,
) -> PacketView {
    let route = packet.routing_header;
    let passed = if route.hop_index <= route.hops.len() {
        route.hop_index as int
    } else {
        route.hops.len() as int
    };
    PacketView {
        routing_header: Route { hops: route.hops.take(passed).push(id).reverse(), hop_index: 0 },
        session_id: packet.session_id,
        pack_type: PacketTypeView::Nack(Nack { fragment_index, nack_type }),
    }
}

/// Where a packet that a node with these neighbours made ends up: on the
/// channel of the second hop of its route, with the cursor on that hop, if
/// that hop is a neighbour; else with the controller, as it was made.
pub open spec fn delivered_or_shortcut(neighbors: Set<NodeId>, made: PacketView) -> Seq<
    ActionView,
> {
    let hops = made.routing_header.hops;
    if hops.len() >= 2 && neighbors.contains(hops[1]) {
        seq![
            ActionView::Forward {
                to: hops[1],
                packet: PacketView { routing_header: Route { hops, hop_index: 1 }, ..made },
            },
        ]
    } else {
        seq![ActionView::Notify(DroneEventView::ControllerShortcut(made))]
    }
}

/// A packet that a node made and that starts at the node itself is sent on or
/// handed to the controller as [`delivered_or_shortcut`] says.
pub proof fn lemma_hand_over(node: NodeModel, made: PacketView)
    requires
        made.routing_header.hop_index == 0,
        made.routing_header.hops.len() >= 1,
        made.routing_header.hops[0] == node.id,
    ensures
        node.hand_over(made) == delivered_or_shortcut(node.neighbors, made),
        !(made.pack_type is MsgFragment) && !(made.pack_type is FloodRequest)
            && made.routing_header.hops.len() >= 2 ==> node.send_packet(made)
            == delivered_or_shortcut(node.neighbors, made),
{
}

/// The negative acknowledgement of the model is the one that
/// [`nack_from`] describes, and its route starts at the node.
pub proof fn lemma_nack_packet(
    node: NodeModel,
    packet: PacketView,
    fragment_index: u64,
    nack_type: NackType,
)
    ensures
        node.nack_packet(packet, fragment_index, nack_type) == nack_from(
            node.id,
            packet,
            fragment_index,
            nack_type,
        ),
        nack_from(node.id, packet, fragment_index, nack_type).routing_header.hops.len() >= 1,
        nack_from(node.id, packet, fragment_index, nack_type).routing_header.hops[0] == node.id,
        node.hand_over(node.nack_packet(packet, fragment_index, nack_type))
            == delivered_or_shortcut(
            node.neighbors,
            nack_from(node.id, packet, fragment_index, nack_type),
        ),
{
    lemma_hand_over(node, nack_from(node.id, packet, fragment_index, nack_type));
}

/// No packet that fails validation is lost. A running node that finds a
/// reason why an inbound packet cannot travel on, the packet being no flood
/// request, keeps its state and
/// - answers a fragment with exactly one negative acknowledgement that names
///   that reason: it is sent to the hop from which the fragment came, or
///   handed to the controller if that hop is no neighbour or the fragment
///   has passed no hop;
/// - hands any other packet to the controller, unchanged.
///
/// A crashing node does not validate, so the law speaks of a running node.
pub proof fn law_invalid_packet_is_answered(node: NodeModel, packet: PacketView, ticket: u32)
    requires
        node.state is Running,
        !(packet.pack_type is FloodRequest),
        node.validate(packet.routing_header) is Some,
    ensures
        node.packet_handler(packet, ticket).0 == node,
        packet.pack_type matches PacketTypeView::MsgFragment(fragment) ==> node.packet_handler(
            packet,
            ticket,
        ).1 == delivered_or_shortcut(
            node.neighbors,
            nack_from(
                node.id,
                packet,
                fragment.fragment_index,
                node.validate(packet.routing_header)->0,
            ),
        ),
        !(packet.pack_type is MsgFragment) ==> node.packet_handler(packet, ticket).1 == seq![
            ActionView::Notify(DroneEventView::ControllerShortcut(packet)),
        ],
{
    let reason = node.validate(packet.routing_header)->0;
    assert(reason != NackType::Dropped);
    if let PacketTypeView::MsgFragment(fragment) = packet.pack_type {
        lemma_nack_packet(node, packet, fragment.fragment_index, reason);
    }
}

/// The negative acknowledgement for a fragment that came from a neighbour
/// goes back to that neighbour: if the hop before the cursor is a neighbour
/// of the node, the acknowledgement is sent on that neighbour's channel, its
/// route being the passed hops and the node in reverse, with the cursor on
/// that neighbour.
pub proof fn law_nack_goes_to_previous_hop(
    node: NodeModel,
    packet: PacketView,
    fragment_index: u64,
    nack_type: NackType,
)
    requires
        1 <= packet.routing_header.hop_index <= packet.routing_header.hops.len(),
        node.neighbors.contains(packet.routing_header.hops[packet.routing_header.hop_index - 1]),
    ensures
        delivered_or_shortcut(
            node.neighbors,
            nack_from(node.id, packet, fragment_index, nack_type),
        ) == seq![
            ActionView::Forward {
                to: packet.routing_header.hops[packet.routing_header.hop_index - 1],
                packet: PacketView {
                    routing_header: Route {
                        hops: packet.routing_header.hops.take(
                            packet.routing_header.hop_index as int,
                        ).push(node.id).reverse(),
                        hop_index: 1,
                    },
                    session_id: packet.session_id,
                    pack_type: PacketTypeView::Nack(Nack { fragment_index, nack_type }),
                },
            },
        ],
{
}

/// A fragment that can travel on and cannot be dropped is forwarded as it
/// came. A running node whose drop rate is zero sends a valid fragment to the
/// next hop of its route, unchanged but for the cursor, which has moved one
/// hop on; it sends nothing else and keeps its state. Once the send has
/// succeeded, the node reports exactly that packet to the controller as sent,
/// and nothing else.
pub proof fn law_fragment_is_forwarded_at_rate_zero(
    node: NodeModel,
    packet: PacketView,
    ticket: u32,
)
    requires
        node.state is Running,
        packet.pack_type is MsgFragment,
        node.accepts(packet.routing_header),
        node.pdr.losing_tickets == 0,
    ensures
        ({
            let route = packet.routing_header;
            let next_hop = route.hops[route.hop_index as int + 1];
            let forwarded = PacketView {
                routing_header: Route { hops: route.hops, hop_index: route.hop_index + 1 },
                ..packet
            };
            &&& node.packet_handler(packet, ticket) == (
                node,
                seq![ActionView::Forward { to: next_hop, packet: forwarded }],
            )
            &&& node.after_send(next_hop, forwarded, true) == (
                node,
                seq![ActionView::Notify(DroneEventView::PacketSent(forwarded))],
            )
        }),
{
}

/// A neighbour whose channel is closed is forgotten, and the fragment that
/// was meant for it is answered. When the send of a forwarded fragment has
/// failed, the node takes the neighbour out of its table and answers the
/// fragment, with the cursor back on the node, with exactly one negative
/// acknowledgement of kind `ErrorInRouting` that names the neighbour: it is
/// sent to the hop from which the fragment came, or handed to the controller
/// if that hop is no neighbour any more.
pub proof fn law_failed_send_is_answered(node: NodeModel, packet: PacketView)
    requires
        packet.pack_type is MsgFragment,
        node.accepts(packet.routing_header),
    ensures
        ({
            let next_hop = packet.routing_header.next_hop()->0;
            let without = NodeModel { neighbors: node.neighbors.remove(next_hop), ..node };
            node.after_send(next_hop, packet.advanced(), false) == (
                without,
                delivered_or_shortcut(
                    without.neighbors,
                    nack_from(
                        node.id,
                        packet,
                        packet.pack_type->MsgFragment_0.fragment_index,
                        NackType::ErrorInRouting(next_hop),
                    ),
                ),
            )
        }),
{
    let next_hop = packet.routing_header.next_hop()->0;
    let without = NodeModel { neighbors: node.neighbors.remove(next_hop), ..node };
    assert(packet.advanced().retreated() == packet);
    lemma_nack_packet(
        without,
        packet,
        packet.pack_type->MsgFragment_0.fragment_index,
        NackType::ErrorInRouting(next_hop),
    );
}

/// A fragment that can travel on and must be dropped is not forwarded. A
/// running node whose drop rate is one answers a valid fragment with exactly
/// one negative acknowledgement of kind `Dropped`, sent to the hop from which
/// the fragment came (or handed to the controller if that hop is no
/// neighbour), and then reports the fragment, as it came, to the controller
/// as dropped. It asks for nothing else, so nothing goes to the next hop, and
/// it keeps its state.
pub proof fn law_fragment_is_dropped_at_rate_one(node: NodeModel, packet: PacketView, ticket: u32)
    requires
        node.state is Running,
        packet.pack_type is MsgFragment,
        node.accepts(packet.routing_header),
        node.pdr.losing_tickets >= LOTTERY_TICKETS,
        ticket < LOTTERY_TICKETS,
    ensures
        node.packet_handler(packet, ticket) == (
            node,
            delivered_or_shortcut(
                node.neighbors,
                nack_from(
                    node.id,
                    packet,
                    packet.pack_type->MsgFragment_0.fragment_index,
                    NackType::Dropped,
                ),
            ).push(ActionView::Notify(DroneEventView::PacketDropped(packet))),
        ),
        forall|i: int|
            0 <= i < node.packet_handler(packet, ticket).1.len() ==> !(
            #[trigger] node.packet_handler(packet, ticket).1[i] matches ActionView::Forward {
                packet: sent,
                ..
            } && sent.pack_type is MsgFragment),
{
    lemma_nack_packet(
        node,
        packet,
        packet.pack_type->MsgFragment_0.fragment_index,
        NackType::Dropped,
    );
}

/// Among the first `upto` node identifiers, the ones that a flood request is
/// passed on to come in ascending order, and they are the neighbours other
/// than `prior`.
proof fn lemma_flood_targets_upto(neighbors: Set<NodeId>, prior: NodeId, upto: int)
    requires
        0 <= upto <= 256,
    ensures
        ({
            let targets = all_node_ids().take(upto).filter(is_flood_target(neighbors, prior));
            &&& forall|i: int|
                0 <= i < targets.len() ==> (#[trigger] targets[i]) < upto && neighbors.contains(
                    targets[i],
                ) && targets[i] != prior
            &&& forall|i: int, j: int| 0 <= i < j < targets.len() ==> targets[i] < targets[j]
            &&& forall|id: NodeId|
                id < upto && neighbors.contains(id) && id != prior ==> targets.contains(id)
        }),
    decreases upto,
{
    reveal(Seq::filter);
    let wanted = is_flood_target(neighbors, prior);
    if upto > 0 {
        let before = all_node_ids().take(upto - 1);
        let now = all_node_ids().take(upto);
        let id = (upto - 1) as NodeId;
        lemma_flood_targets_upto(neighbors, prior, upto - 1);
        assert(now.drop_last() =~= before);
        assert(now.last() == id);
        let targets = now.filter(wanted);
        let earlier = before.filter(wanted);
        if wanted(id) {
            assert(targets == earlier.push(id));
            assert forall|other: NodeId|
                other < upto && neighbors.contains(other) && other != prior implies targets.contains(
                other,
            ) by {
                if other == id {
                    assert(targets[targets.len() - 1] == id);
                } else {
                    assert(earlier.contains(other));
                    let at = choose|at: int| 0 <= at < earlier.len() && earlier[at] == other;
                    assert(targets[at] == other);
                }
            }
        } else {
            assert(targets == earlier);
        }
    }
}

/// A flood request is passed on to each neighbour but the one it came from,
/// once to each: the targets are in strictly ascending order, and a node is
/// among them exactly if it is a neighbour other than `prior`.
pub proof fn law_flood_targets(node: NodeModel, prior: NodeId)
    ensures
        forall|i: int, j: int|
            0 <= i < j < node.flood_targets(prior).len() ==> node.flood_targets(prior)[i]
                < node.flood_targets(prior)[j],
        forall|id: NodeId|
            node.flood_targets(prior).contains(id) <==> node.neighbors.contains(id) && id != prior,
{
    lemma_flood_targets_upto(node.neighbors, prior, 256);
    assert(all_node_ids().take(256) =~= all_node_ids());
}

/// Of two equal flood requests only the first is passed on. A running node
/// with more than one neighbour that has not passed this flood on before
/// sends the first request, with itself added to the trace, to every
/// neighbour but the one the request came from, which is at least one, and
/// remembers the flood. The second request is not passed on: the node asks
/// for a single action, which carries a flood response with the trace of the
/// request and the node itself. The response travels that trace backwards: it
/// is sent to the node the request came from, with the cursor on that node,
/// or handed to the controller if that node is no neighbour.
pub proof fn law_second_flood_request_is_answered(
    node: NodeModel,
    packet: PacketView,
    first_ticket: u32,
    second_ticket: u32,
)
    requires
        node.state is Running,
        packet.pack_type is FloodRequest,
        packet.pack_type->FloodRequest_0.path_trace.len() > 0,
        node.neighbors.finite(),
        node.neighbors.len() > 1,
        !node.seen_floods.contains(
            (
                packet.pack_type->FloodRequest_0.flood_id,
                packet.pack_type->FloodRequest_0.initiator_id,
            ),
        ),
    ensures
        ({
            let request = packet.pack_type->FloodRequest_0;
            let prior = request.path_trace.last().0;
            let trace = request.path_trace.push((node.id, NodeType::Drone));
            let passed_on = PacketView {
                pack_type: PacketTypeView::FloodRequest(
                    FloodRequestView { path_trace: trace, ..request },
                ),
                ..packet
            };
            let response = PacketView {
                routing_header: Route { hops: trace_ids(trace).reverse(), hop_index: 0 },
                session_id: packet.session_id,
                pack_type: PacketTypeView::FloodResponse(
                    FloodResponseView { flood_id: request.flood_id, path_trace: trace },
                ),
            };
            let (after_first, first) = node.packet_handler(packet, first_ticket);
            let (after_second, second) = after_first.packet_handler(packet, second_ticket);
            &&& after_first == NodeModel {
                seen_floods: node.seen_floods.insert((request.flood_id, request.initiator_id)),
                ..node
            }
            &&& first == fan_out(node.flood_targets(prior), passed_on)
            &&& first.len() >= 1
            &&& after_second == after_first
            &&& second == delivered_or_shortcut(node.neighbors, response)
            &&& response.routing_header.hops.len() >= 2
            &&& response.routing_header.hops[0] == node.id
            &&& response.routing_header.hops[1] == prior
        }),
{
    let request = packet.pack_type->FloodRequest_0;
    let prior = request.path_trace.last().0;
    let trace = request.path_trace.push((node.id, NodeType::Drone));
    let response = PacketView {
        routing_header: Route { hops: trace_ids(trace).reverse(), hop_index: 0 },
        session_id: packet.session_id,
        pack_type: PacketTypeView::FloodResponse(
            FloodResponseView { flood_id: request.flood_id, path_trace: trace },
        ),
    };
    let (after_first, first) = node.packet_handler(packet, first_ticket);
    assert(request.incremented(node.id, NodeType::Drone).response(packet.session_id) == response);
    lemma_hand_over(after_first, response);
    // A neighbour other than the one the request came from exists.
    if forall|id: NodeId| node.neighbors.contains(id) ==> id == prior {
        assert(node.neighbors.subset_of(set![prior]));
        vstd::set_lib::lemma_len_subset(node.neighbors, set![prior]);
        assert(false);
    }
    let other = choose|id: NodeId| node.neighbors.contains(id) && id != prior;
    law_flood_targets(node, prior);
    assert(node.flood_targets(prior).contains(other));
}

/// The crash command ends normal operation, for good. The command handler
/// leaves it alone: it is the node's loop that acts on it, and it changes
/// nothing of a running node but its state, which becomes `Crashing`. A
/// crashing node takes no command, and no packet changes its state: whatever
/// comes, it stays as it is but for the news that no packet can come any
/// more. It waits for packets alone, goes on while packets can come, and ends
/// when the last packet sender has hung up.
pub proof fn law_crash_is_terminal(node: NodeModel, input: InputView, ticket: u32)
    ensures
        node.command_handler(CommandView::Crash) == node,
        node.step(InputView::Command(CommandView::Crash), ticket).0 == (NodeModel {
            state: LifecycleState::Crashing,
            ..node
        }),
        node.step(InputView::Command(CommandView::Crash), ticket).1 == Seq::<ActionView>::empty(),
        node.state is Crashing ==> node.awaits() is Packets,
        node.state is Crashing ==> node.step(input, ticket).0 == (NodeModel {
            packets_closed: node.packets_closed || input is PacketsClosed,
            ..node
        }),
        node.state is Crashing ==> (node.step(input, ticket).2 <==> input is Packet
            || !node.packets_closed && !(input is PacketsClosed)),
        node.state is Crashing && !(input is Packet) ==> node.step(input, ticket).1
            == Seq::<ActionView>::empty(),
{
}

/// A crashing node still forwards what must not be lost, and refuses
/// fragments. Of the packets that reach it after the crash command,
/// - an acknowledgement, a negative acknowledgement or a flood response
///   whose next hop is a neighbour is sent to that hop, once, unchanged but
///   for the cursor, which has moved one hop on, whatever node the route
///   names at the cursor; if the next hop is no neighbour, the packet is
///   handed to the controller, unchanged; if the route has no next hop, the
///   packet is ignored;
/// - a fragment is answered with exactly one negative acknowledgement of kind
///   `ErrorInRouting` that names the node itself, sent to the hop from which
///   the fragment came or handed to the controller if that hop is no
///   neighbour;
/// - a flood request is discarded.
///
/// So no action of a crashing node forwards a fragment or a flood request.
pub proof fn law_crashing_node_drains(node: NodeModel, packet: PacketView, ticket: u32)
    requires
        node.state is Crashing,
    ensures
        node.packet_handler(packet, ticket).0 == node,
        (packet.pack_type is Ack || packet.pack_type is Nack || packet.pack_type is FloodResponse)
            ==> node.packet_handler(packet, ticket).1 == match packet.routing_header.next_hop() {
            Some(next) => if node.neighbors.contains(next) {
                seq![
                    ActionView::Forward {
                        to: next,
                        packet: PacketView {
                            routing_header: Route {
                                hops: packet.routing_header.hops,
                                hop_index: packet.routing_header.hop_index + 1,
                            },
                            ..packet
                        },
                    },
                ]
            } else {
                seq![ActionView::Notify(DroneEventView::ControllerShortcut(packet))]
            },
            None => Seq::empty(),
        },
        packet.pack_type matches PacketTypeView::MsgFragment(fragment) ==> node.packet_handler(
            packet,
            ticket,
        ).1 == delivered_or_shortcut(
            node.neighbors,
            nack_from(
                node.id,
                packet,
                fragment.fragment_index,
                NackType::ErrorInRouting(node.id),
            ),
        ),
        packet.pack_type is FloodRequest ==> node.packet_handler(packet, ticket).1 == Seq::<
            ActionView,
        >::empty(),
        forall|i: int|
            0 <= i < node.packet_handler(packet, ticket).1.len() ==> !(
            #[trigger] node.packet_handler(packet, ticket).1[i] matches ActionView::Forward {
                packet: sent,
                ..
            } && (sent.pack_type is MsgFragment || sent.pack_type is FloodRequest)),
{
    if let PacketTypeView::MsgFragment(fragment) = packet.pack_type {
        lemma_nack_packet(
            node,
            packet,
            fragment.fragment_index,
            NackType::ErrorInRouting(node.id),
        );
    }
}

/// The state of a node after the turns that took `inputs` one after the
/// other, each with the ticket that a packet drew in the drop lottery.
pub open spec fn after_inputs(node: NodeModel, inputs: Seq<(InputView, u32)>) -> NodeModel
    decreases inputs.len(),
{
    if inputs.len() == 0 {
        node
    } else {
        after_inputs(node.step(inputs[0].0, inputs[0].1).0, inputs.drop_first())
    }
}

/// What a node asks for in the turns that take `inputs` one after the
/// other, all in a row.
pub open spec fn asked_in_turn(node: NodeModel, inputs: Seq<(InputView, u32)>) -> Seq<ActionView>
    decreases inputs.len(),
{
    if inputs.len() == 0 {
        Seq::empty()
    } else {
        node.step(inputs[0].0, inputs[0].1).1 + asked_in_turn(
            node.step(inputs[0].0, inputs[0].1).0,
            inputs.drop_first(),
        )
    }
}

/// Whatever comes after the crash, and however much of it, nothing of it is
/// taken: a crashing node that is handed any number of commands, packets and
/// news of closed channels, in any order, is in the end as it was, but for
/// the news that no packet can come any more. No command after the crash
/// adds or removes a neighbour or replaces the drop rate, and each packet
/// meets the same crashing node, which treats it as
/// [`law_crashing_node_drains`] says.
pub proof fn law_nothing_is_taken_after_the_crash(node: NodeModel, inputs: Seq<(InputView, u32)>)
    requires
        node.state is Crashing,
    ensures
        after_inputs(node, inputs) == (NodeModel {
            packets_closed: after_inputs(node, inputs).packets_closed,
            ..node
        }),
        node.packets_closed ==> after_inputs(node, inputs).packets_closed,
    decreases inputs.len(),
{
    if inputs.len() > 0 {
        law_nothing_is_taken_after_the_crash(
            node.step(inputs[0].0, inputs[0].1).0,
            inputs.drop_first(),
        );
    }
}

/// The crash command, and then anything: a running node that is handed the
/// crash command and after it any number of inputs is crashing in the end,
/// with the neighbours, the drop rate and the floods that it had when the
/// crash command came.
pub proof fn law_crash_and_then_anything(
    node: NodeModel,
    ticket: u32,
    inputs: Seq<(InputView, u32)>,
)
    ensures
        after_inputs(node, seq![(InputView::Command(CommandView::Crash), ticket)] + inputs) == (
        NodeModel {
            state: LifecycleState::Crashing,
            packets_closed: after_inputs(
                node,
                seq![(InputView::Command(CommandView::Crash), ticket)] + inputs,
            ).packets_closed,
            ..node
        }),
{
    let all = seq![(InputView::Command(CommandView::Crash), ticket)] + inputs;
    let crashing = node.step(all[0].0, all[0].1).0;
    assert(all.drop_first() =~= inputs);
    law_nothing_is_taken_after_the_crash(crashing, inputs);
}

/// Whether `input` hands over an acknowledgement, a negative acknowledgement
/// or a flood response whose next hop is a neighbour of `node`.
pub open spec fn is_signal_for_a_neighbor(node: NodeModel, input: InputView) -> bool {
    input matches InputView::Packet(packet) && (packet.pack_type is Ack || packet.pack_type is Nack
        || packet.pack_type is FloodResponse) && packet.routing_header.next_hop() is Some
        && node.neighbors.contains(packet.routing_header.next_hop()->0)
}

/// The action that sends the packet of `input` to the next hop of its route,
/// unchanged but for the cursor, which has moved one hop on.
pub open spec fn forward_of(input: InputView) -> ActionView
    recommends
        input is Packet,
{
    let packet = input->Packet_0;
    ActionView::Forward {
        to: packet.routing_header.next_hop()->0,
        packet: PacketView {
            routing_header: Route {
                hops: packet.routing_header.hops,
                hop_index: packet.routing_header.hop_index + 1,
            },
            ..packet
        },
    }
}

/// A crashing node forwards each signal once, in the order of arrival. When
/// a crashing node is handed any number of acknowledgements, negative
/// acknowledgements and flood responses, each with a neighbour as its next
/// hop, it asks for as many sends as there are packets and for nothing else:
/// the one for the first packet first, the one for the last last, each to the
/// next hop of its packet with the cursor moved one hop on. None is left out
/// and none comes twice, and no event is asked for.
pub proof fn law_signals_are_forwarded_in_order(node: NodeModel, inputs: Seq<(InputView, u32)>)
    requires
        node.state is Crashing,
        forall|i: int|
            0 <= i < inputs.len() ==> is_signal_for_a_neighbor(node, (#[trigger] inputs[i]).0),
    ensures
        asked_in_turn(node, inputs) == Seq::new(inputs.len(), |i: int| forward_of(inputs[i].0)),
        after_inputs(node, inputs) == node,
    decreases inputs.len(),
{
    if inputs.len() > 0 {
        let rest = inputs.drop_first();
        assert(is_signal_for_a_neighbor(node, inputs[0].0));
        law_crashing_node_drains(node, inputs[0].0->Packet_0, inputs[0].1);
        assert forall|i: int| 0 <= i < rest.len() implies is_signal_for_a_neighbor(
            node,
            (#[trigger] rest[i]).0,
        ) by {
            assert(rest[i] == inputs[i + 1]);
        }
        law_signals_are_forwarded_in_order(node, rest);
        assert(asked_in_turn(node, inputs) =~= Seq::new(
            inputs.len(),
            |i: int| forward_of(inputs[i].0),
        ));
    } else {
        assert(asked_in_turn(node, inputs) =~= Seq::new(
            inputs.len(),
            |i: int| forward_of(inputs[i].0),
        ));
    }
}

/// On the channels, a signal that is sent and taken costs nothing more: when
/// a packet that is no fragment is to go to a neighbour and the channel takes
/// it, that one send is all that happens. No event goes to the controller,
/// and the node stays as it is.
pub proof fn law_signal_on_the_channel(
    node: NodeModel,
    to: NodeId,
    packet: PacketView,
    answers: Seq<bool>,
    pick: nat,
)
    requires
        !(packet.pack_type is MsgFragment),
        node.neighbors.contains(to),
        first_answer(answers),
    ensures
        head_run(node, ActionView::Forward { to, packet }, answers, pick) == (Run {
            node,
            effects: seq![Effect::Sent { to, packet, delivered: true }],
            reached: true,
        }),
{
    let sent = seq![Effect::Sent { to, packet, delivered: true }];
    assert(node.after_send(to, packet, true).1 =~= Seq::<ActionView>::empty());
    assert(sent + Seq::<Effect>::empty() =~= sent);
}

/// How the turns go that take `inputs` one after the other, when `pick`
/// chooses the comments of a themed mode and the channels give `answers`,
/// one for each send: the sends of all turns in a row, up to the turn that is
/// the last.
pub open spec fn turns(
    node: NodeModel,
    inputs: Seq<(InputView, u32)>,
    pick: nat,
    answers: Seq<bool>,
) -> Turned
    decreases inputs.len(),
{
    if inputs.len() == 0 {
        Turned { node, effects: Seq::empty(), outcome: Outcome::Proceed }
    } else {
        let first = turned(node, inputs[0].0, inputs[0].1, pick, answers);
        if first.outcome is Proceed {
            let others = turns(
                first.node,
                inputs.drop_first(),
                pick,
                answers_after(answers, first.effects.len()),
            );
            Turned {
                node: others.node,
                effects: first.effects + others.effects,
                outcome: others.outcome,
            }
        } else {
            first
        }
    }
}

/// The send that puts the packet of `input` on the channel of the next hop
/// of its route, unchanged but for the cursor, which has moved one hop on,
/// and that the channel takes.
pub open spec fn sent_on(input: InputView) -> Effect
    recommends
        input is Packet,
{
    let packet = input->Packet_0;
    Effect::Sent {
        to: packet.routing_header.next_hop()->0,
        packet: PacketView {
            routing_header: Route {
                hops: packet.routing_header.hops,
                hop_index: packet.routing_header.hop_index + 1,
            },
            ..packet
        },
        delivered: true,
    }
}

/// On the channels, a crashing node passes on every signal, once, in the
/// order of arrival. When a crashing node is handed any number of
/// acknowledgements, negative acknowledgements and flood responses, each with
/// a neighbour as its next hop, and the channels take what is sent, then
/// there are as many sends as packets and no others: the first packet first,
/// the last last, each on the channel of its next hop with the cursor moved
/// one hop on. None is lost and none comes twice, no event goes to the
/// controller, the node goes on, and it is in the end as it was.
pub proof fn law_signals_reach_their_neighbors(
    node: NodeModel,
    inputs: Seq<(InputView, u32)>,
    pick: nat,
    answers: Seq<bool>,
)
    requires
        node.state is Crashing,
        forall|i: int|
            0 <= i < inputs.len() ==> is_signal_for_a_neighbor(node, (#[trigger] inputs[i]).0),
        inputs.len() <= answers.len(),
        forall|i: int| 0 <= i < inputs.len() ==> answers[i],
    ensures
        turns(node, inputs, pick, answers) == (Turned {
            node,
            effects: Seq::new(inputs.len(), |i: int| sent_on(inputs[i].0)),
            outcome: Outcome::Proceed,
        }),
    decreases inputs.len(),
{
    let sends = Seq::new(inputs.len(), |i: int| sent_on(inputs[i].0));
    if inputs.len() > 0 {
        let rest = inputs.drop_first();
        let packet = inputs[0].0->Packet_0;
        let action = forward_of(inputs[0].0);
        assert(is_signal_for_a_neighbor(node, inputs[0].0));
        law_crashing_node_drains(node, packet, inputs[0].1);
        assert(node.packet_handler(packet, inputs[0].1).1 =~= seq![action]);
        law_signal_on_the_channel(
            node,
            packet.routing_header.next_hop()->0,
            packet.advanced(),
            answers,
            pick,
        );
        lemma_carried_out_alone(node, action, answers, pick);
        let first = turned(node, inputs[0].0, inputs[0].1, pick, answers);
        assert(first == (Turned {
            node,
            effects: seq![sent_on(inputs[0].0)],
            outcome: Outcome::Proceed,
        }));
        let left = answers_after(answers, 1);
        assert forall|i: int| 0 <= i < rest.len() implies is_signal_for_a_neighbor(
            node,
            (#[trigger] rest[i]).0,
        ) by {
            assert(rest[i] == inputs[i + 1]);
        }
        assert forall|i: int| 0 <= i < rest.len() implies left[i] by {
            assert(left[i] == answers[i + 1]);
        }
        law_signals_reach_their_neighbors(node, rest, pick, left);
        assert(turns(node, inputs, pick, answers).effects =~= sends);
    } else {
        assert(turns(node, inputs, pick, answers).effects =~= sends);
    }
}

/// The forwarding path sends a packet on and reports a fragment. Whatever
/// the state of the node and whatever node the route names at the cursor, a
/// packet whose next hop is a neighbour is sent to that hop, unchanged but
/// for the cursor, which has moved one hop on, and nothing else is asked for.
/// Once the send has succeeded, the node asks for exactly one event if the
/// packet is a fragment, which reports the packet as it was sent, and for
/// nothing if it is not. On the channels, in the default mode, with a channel
/// that takes the fragment: the fragment is sent, then `PacketSent` goes to
/// the controller, and no other event does.
pub proof fn law_forwarding_path(node: NodeModel, packet: PacketView, answers: Seq<bool>, pick: nat)
    requires
        packet.routing_header.next_hop() is Some,
        node.neighbors.contains(packet.routing_header.next_hop()->0),
    ensures
        ({
            let next_hop = packet.routing_header.next_hop()->0;
            let forwarded = PacketView {
                routing_header: Route {
                    hops: packet.routing_header.hops,
                    hop_index: packet.routing_header.hop_index + 1,
                },
                ..packet
            };
            &&& node.send_packet(packet) == seq![
                ActionView::Forward { to: next_hop, packet: forwarded },
            ]
            &&& node.after_send(next_hop, forwarded, true) == (
                node,
                if packet.pack_type is MsgFragment {
                    seq![ActionView::Notify(DroneEventView::PacketSent(forwarded))]
                } else {
                    Seq::empty()
                },
            )
            &&& packet.pack_type is MsgFragment && node.mode is Default && first_answer(answers)
                ==> carried_out(node, node.send_packet(packet), answers, pick) == (Run {
                node,
                effects: seq![
                    Effect::Sent { to: next_hop, packet: forwarded, delivered: true },
                    Effect::Reported {
                        event: DroneEventView::PacketSent(forwarded),
                        delivered: first_answer(answers.skip(1)),
                    },
                ],
                reached: first_answer(answers.skip(1)),
            })
        }),
{
    let next_hop = packet.routing_header.next_hop()->0;
    let forwarded = packet.advanced();
    if packet.pack_type is MsgFragment && node.mode is Default && first_answer(answers) {
        let event = DroneEventView::PacketSent(forwarded);
        let report = reported(node, event, answers.skip(1), pick);
        let sent = Effect::Sent { to: next_hop, packet: forwarded, delivered: true };
        lemma_carried_out_alone(node, ActionView::Notify(event), answers.skip(1), pick);
        assert(node.after_send(next_hop, forwarded, true).1 =~= seq![ActionView::Notify(event)]);
        assert(answers_after(answers, 1) == answers.skip(1));
        lemma_carried_out_alone(
            node,
            ActionView::Forward { to: next_hop, packet: forwarded },
            answers,
            pick,
        );
        assert(seq![sent] + report.effects =~= seq![sent, report.effects[0]]);
    }
}

/// A crashing node refuses a fragment, whatever the fragment and the drop
/// rate. When the fragment has passed a hop and that hop is a neighbour, the
/// node asks for one send and nothing else: on the channel of that neighbour,
/// a negative acknowledgement of kind `ErrorInRouting` that names the node
/// itself and the fragment's index, with the cursor on that neighbour. Its
/// route is the passed hops and then the node, in reverse; where the fragment
/// stands at the node, that is the fragment's route up to and with the
/// cursor, in reverse. On the channels, if the neighbour's channel takes the
/// acknowledgement, that one send is all: the fragment goes nowhere and no
/// event goes to the controller.
pub proof fn law_crashing_node_refuses_a_fragment(
    node: NodeModel,
    packet: PacketView,
    ticket: u32,
    answers: Seq<bool>,
    pick: nat,
)
    requires
        node.state is Crashing,
        packet.pack_type is MsgFragment,
        1 <= packet.routing_header.hop_index <= packet.routing_header.hops.len(),
        node.neighbors.contains(packet.routing_header.hops[packet.routing_header.hop_index - 1]),
    ensures
        ({
            let route = packet.routing_header;
            let previous_hop = route.hops[route.hop_index - 1];
            let nack = PacketView {
                routing_header: Route {
                    hops: route.hops.take(route.hop_index as int).push(node.id).reverse(),
                    hop_index: 1,
                },
                session_id: packet.session_id,
                pack_type: PacketTypeView::Nack(
                    Nack {
                        fragment_index: packet.pack_type->MsgFragment_0.fragment_index,
                        nack_type: NackType::ErrorInRouting(node.id),
                    },
                ),
            };
            &&& node.packet_handler(packet, ticket) == (
                node,
                seq![ActionView::Forward { to: previous_hop, packet: nack }],
            )
            &&& route.current_hop() == Some(node.id) ==> nack.routing_header.hops
                == route.hops.subrange(0, route.hop_index as int + 1).reverse()
            &&& first_answer(answers) ==> turned(
                node,
                InputView::Packet(packet),
                ticket,
                pick,
                answers,
            ) == (Turned {
                node,
                effects: seq![Effect::Sent { to: previous_hop, packet: nack, delivered: true }],
                outcome: Outcome::Proceed,
            })
        }),
{
    let route = packet.routing_header;
    let previous_hop = route.hops[route.hop_index - 1];
    let fragment_index = packet.pack_type->MsgFragment_0.fragment_index;
    let reason = NackType::ErrorInRouting(node.id);
    let nack = PacketView {
        routing_header: Route {
            hops: route.hops.take(route.hop_index as int).push(node.id).reverse(),
            hop_index: 1,
        },
        session_id: packet.session_id,
        pack_type: PacketTypeView::Nack(Nack { fragment_index, nack_type: reason }),
    };
    law_crashing_node_drains(node, packet, ticket);
    law_nack_goes_to_previous_hop(node, packet, fragment_index, reason);
    if route.current_hop() == Some(node.id) {
        law_nack_round_trip(node, packet, fragment_index, reason);
    }
    if first_answer(answers) {
        let action = ActionView::Forward { to: previous_hop, packet: nack };
        assert(node.packet_handler(packet, ticket).1 =~= seq![action]);
        law_signal_on_the_channel(node, previous_hop, nack, answers, pick);
        lemma_carried_out_alone(node, action, answers, pick);
    }
}

/// A negative acknowledgement finds its way back. For a fragment that stands
/// at the node, the acknowledgement that the node writes, whatever the
/// reason, starts with the cursor at zero on a route that is the fragment's
/// route up to and with the node, in reverse; it names the fragment's index
/// and belongs to its session.
pub proof fn law_nack_round_trip(
    node: NodeModel,
    packet: PacketView,
    fragment_index: u64,
    nack_type: NackType,
)
    requires
        packet.routing_header.current_hop() == Some(node.id),
    ensures
        node.nack_packet(packet, fragment_index, nack_type) == (PacketView {
            routing_header: Route {
                hops: packet.routing_header.hops.subrange(
                    0,
                    packet.routing_header.hop_index as int + 1,
                ).reverse(),
                hop_index: 0,
            },
            session_id: packet.session_id,
            pack_type: PacketTypeView::Nack(Nack { fragment_index, nack_type }),
        }),
{
    let route = packet.routing_header;
    let upto = route.hop_index as int;
    assert(route.hops.take(upto).push(node.id) =~= route.hops.subrange(0, upto + 1));
}

/// For a fragment on the route from a client over the node to an endpoint,
/// the negative acknowledgement that the node writes, whatever the reason,
/// starts with the cursor at zero on the route that is the node and then the
/// client, and names the fragment's index.
pub proof fn law_nack_round_trip_over_three_hops(
    node: NodeModel,
    client: NodeId,
    endpoint: NodeId,
    packet: PacketView,
    fragment_index: u64,
    nack_type: NackType,
)
    requires
        packet.routing_header == (Route { hops: seq![client, node.id, endpoint], hop_index: 1 }),
    ensures
        node.nack_packet(packet, fragment_index, nack_type) == (PacketView {
            routing_header: Route { hops: seq![node.id, client], hop_index: 0 },
            session_id: packet.session_id,
            pack_type: PacketTypeView::Nack(Nack { fragment_index, nack_type }),
        }),
{
    law_nack_round_trip(node, packet, fragment_index, nack_type);
    assert(packet.routing_header.hops.subrange(0, 2).reverse() =~= seq![node.id, client]);
}

/// The floods a node has passed on are never forgotten, and a node never
/// changes its identifier: whatever the input, every flood that was in the
/// registry before a turn is in it after the turn.
pub proof fn law_seen_floods_grow(node: NodeModel, input: InputView, ticket: u32)
    ensures
        node.seen_floods.subset_of(node.step(input, ticket).0.seen_floods),
        node.step(input, ticket).0.id == node.id,
{
}

/// On the channels, a fragment that can travel on and cannot be dropped
/// reaches the next hop as it came. When a running node whose drop rate is
/// zero is handed a valid fragment and the channel of the next hop takes what
/// is sent, the first send of the turn puts the fragment on that channel,
/// unchanged but for the cursor, which has moved one hop on. Then the node
/// reports exactly that packet to the controller as sent, after the comment
/// of a themed mode if there is one. Nothing else is sent, and the node keeps
/// its state.
pub proof fn law_fragment_reaches_the_next_hop(
    node: NodeModel,
    packet: PacketView,
    ticket: u32,
    pick: nat,
    answers: Seq<bool>,
)
    requires
        node.state is Running,
        packet.pack_type is MsgFragment,
        node.accepts(packet.routing_header),
        node.pdr.losing_tickets == 0,
        first_answer(answers),
    ensures
        ({
            let route = packet.routing_header;
            let next_hop = route.hops[route.hop_index as int + 1];
            let forwarded = PacketView {
                routing_header: Route { hops: route.hops, hop_index: route.hop_index + 1 },
                ..packet
            };
            let report = reported(
                node,
                DroneEventView::PacketSent(forwarded),
                answers.skip(1),
                pick,
            );
            turned(node, InputView::Packet(packet), ticket, pick, answers) == (Turned {
                node,
                effects: seq![Effect::Sent { to: next_hop, packet: forwarded, delivered: true }]
                    + report.effects,
                outcome: if report.reached {
                    Outcome::Proceed
                } else {
                    Outcome::ControllerLost
                },
            })
        }),
{
    let route = packet.routing_header;
    let next_hop = route.hops[route.hop_index as int + 1];
    let forwarded = PacketView {
        routing_header: Route { hops: route.hops, hop_index: route.hop_index + 1 },
        ..packet
    };
    law_fragment_is_forwarded_at_rate_zero(node, packet, ticket);
    let asked = seq![ActionView::Forward { to: next_hop, packet: forwarded }];
    let event = DroneEventView::PacketSent(forwarded);
    let report = reported(node, event, answers.skip(1), pick);
    lemma_carried_out_alone(node, ActionView::Notify(event), answers.skip(1), pick);
    assert(node.packet_handler(packet, ticket).1 =~= asked);
    assert(node.after_send(next_hop, forwarded, true).1 =~= seq![ActionView::Notify(event)]);
    assert(answers_after(answers, 1) == answers.skip(1));
    let first = head_run(node, asked[0], answers, pick);
    let sent = seq![Effect::Sent { to: next_hop, packet: forwarded, delivered: true }];
    assert(first == (Run { node, effects: sent + report.effects, reached: report.reached }));
    lemma_carried_out_alone(node, asked[0], answers, pick);
}

/// On the channels, a fragment that must be dropped goes back as a negative
/// acknowledgement. When a running node whose drop rate is one is handed a
/// valid fragment that came from a neighbour, and the channel of that
/// neighbour takes what is sent, the first send of the turn puts on that
/// channel the negative acknowledgement of kind `Dropped` for the fragment,
/// with the cursor on that neighbour. Then the node reports the fragment, as
/// it came, to the controller as dropped, after the comment of a themed mode
/// if there is one. Nothing else is sent: nothing reaches the next hop.
pub proof fn law_dropped_fragment_goes_back(
    node: NodeModel,
    packet: PacketView,
    ticket: u32,
    pick: nat,
    answers: Seq<bool>,
)
    requires
        node.state is Running,
        packet.pack_type is MsgFragment,
        node.accepts(packet.routing_header),
        node.pdr.losing_tickets >= LOTTERY_TICKETS,
        ticket < LOTTERY_TICKETS,
        packet.routing_header.hop_index >= 1,
        node.neighbors.contains(packet.routing_header.hops[packet.routing_header.hop_index - 1]),
        first_answer(answers),
    ensures
        ({
            let route = packet.routing_header;
            let previous_hop = route.hops[route.hop_index - 1];
            let nack = PacketView {
                routing_header: Route {
                    hops: route.hops.take(route.hop_index as int).push(node.id).reverse(),
                    hop_index: 1,
                },
                session_id: packet.session_id,
                pack_type: PacketTypeView::Nack(
                    Nack {
                        fragment_index: packet.pack_type->MsgFragment_0.fragment_index,
                        nack_type: NackType::Dropped,
                    },
                ),
            };
            let report = reported(
                node,
                DroneEventView::PacketDropped(packet),
                answers.skip(1),
                pick,
            );
            turned(node, InputView::Packet(packet), ticket, pick, answers) == (Turned {
                node,
                effects: seq![Effect::Sent { to: previous_hop, packet: nack, delivered: true }]
                    + report.effects,
                outcome: if report.reached {
                    Outcome::Proceed
                } else {
                    Outcome::ControllerLost
                },
            })
        }),
{
    let route = packet.routing_header;
    let previous_hop = route.hops[route.hop_index - 1];
    let fragment_index = packet.pack_type->MsgFragment_0.fragment_index;
    let nack = PacketView {
        routing_header: Route {
            hops: route.hops.take(route.hop_index as int).push(node.id).reverse(),
            hop_index: 1,
        },
        session_id: packet.session_id,
        pack_type: PacketTypeView::Nack(Nack { fragment_index, nack_type: NackType::Dropped }),
    };
    law_fragment_is_dropped_at_rate_one(node, packet, ticket);
    law_nack_goes_to_previous_hop(node, packet, fragment_index, NackType::Dropped);
    let event = DroneEventView::PacketDropped(packet);
    let asked = seq![
        ActionView::Forward { to: previous_hop, packet: nack },
        ActionView::Notify(event),
    ];
    assert(node.packet_handler(packet, ticket).1 =~= asked);
    assert(asked.drop_first() =~= seq![ActionView::Notify(event)]);
    assert(seq![ActionView::Notify(event)].drop_first() =~= Seq::<ActionView>::empty());
    let report = reported(node, event, answers.skip(1), pick);
    let sent = seq![Effect::Sent { to: previous_hop, packet: nack, delivered: true }];
    let first = head_run(node, asked[0], answers, pick);
    assert(first == (Run { node, effects: sent, reached: true })) by {
        assert(node.after_send(previous_hop, nack, true).1 =~= Seq::<ActionView>::empty());
        assert(sent + Seq::<Effect>::empty() =~= sent);
    }
    lemma_carried_out_alone(node, ActionView::Notify(event), answers.skip(1), pick);
}

/// On the channels, a packet that cannot be routed and must not be lost
/// reaches the controller. When a running node is handed an acknowledgement,
/// a negative acknowledgement or a flood response that fails validation, the
/// one send of the turn puts the packet, unchanged, on the channel of the
/// controller as a shortcut, without comment. The node keeps its state, and
/// goes on if the controller took the packet.
pub proof fn law_unroutable_packet_reaches_the_controller(
    node: NodeModel,
    packet: PacketView,
    ticket: u32,
    pick: nat,
    answers: Seq<bool>,
)
    requires
        node.state is Running,
        packet.pack_type is Ack || packet.pack_type is Nack || packet.pack_type is FloodResponse,
        node.validate(packet.routing_header) is Some,
    ensures
        turned(node, InputView::Packet(packet), ticket, pick, answers) == (Turned {
            node,
            effects: seq![
                Effect::Reported {
                    event: DroneEventView::ControllerShortcut(packet),
                    delivered: first_answer(answers),
                },
            ],
            outcome: if first_answer(answers) {
                Outcome::Proceed
            } else {
                Outcome::ControllerLost
            },
        }),
{
    law_invalid_packet_is_answered(node, packet, ticket);
    lemma_carried_out_alone(
        node,
        ActionView::Notify(DroneEventView::ControllerShortcut(packet)),
        answers,
        pick,
    );
}

} // verus!

//! The mathematical model of a node: its state and, for every input, the
//! state that follows and the actions the node asks for. The executable node
//! is verified against these functions, and the laws of the node are proved
//! of them.
use crate::controller::{ActionView, CommandView, DroneEventView, InputView};
use crate::lottery::DropRate;
use crate::messages::{command_name, event_name, Messages};
use crate::modes::FlyPathModes;
use crate::network::{
    FloodRequestView, Nack, NackType, NodeId, NodeType, PacketTypeView, PacketView, Route,
};
use vstd::prelude::*;

verus! {

/// Whether a node works normally or only drains its inbox before it ends.
#[derive(Debug, Clone, Copy, PartialEq, Eq, Structural, Hash)]
pub enum LifecycleState {
    Running,
    /// Entered on the crash command and never left.
    Crashing,
}

/// The state of a node.
pub struct NodeModel {
    pub id: NodeId,
    /// The neighbours the node has a channel to.
    pub neighbors: Set<NodeId>,
    pub pdr: DropRate,
    /// The floods the node has passed on, each by its identifier and its
    /// initiator.
    pub seen_floods: Set<(u64, NodeId)>,
    pub state: LifecycleState,
    /// Whether every sender of packets has hung up.
    pub packets_closed: bool,
    pub mode: FlyPathModes,
    /// The messages the node sends along in a themed mode.
    pub messages: Messages,
}

/// Every node identifier, in ascending order.
pub open spec fn all_node_ids() -> Seq<NodeId> {
    Seq::new(256, |i: int| i as NodeId)
}

/// One action that forwards `packet` for each of `targets`, in their order.
pub open spec fn fan_out(targets: Seq<NodeId>, packet: PacketView) -> Seq<ActionView> {
    Seq::new(targets.len(), |i: int| ActionView::Forward { to: targets[i], packet })
}

/// The single action that hands `packet` to the controller for delivery.
pub open spec fn shortcut(packet: PacketView) -> Seq<ActionView> {
    seq![ActionView::Notify(DroneEventView::ControllerShortcut(packet))]
}

/// The single action that sends `packet` to the next hop of its route.
pub open spec fn pass_on(packet: PacketView) -> Seq<ActionView>
    recommends
        packet.routing_header.next_hop() is Some,
{
    seq![
        ActionView::Forward {
            to: packet.routing_header.next_hop()->0,
            packet: packet.advanced(),
        },
    ]
}

/// Whether a flood request that came from `prior` is passed on to a node, for
/// a node with these neighbours.
pub open spec fn is_flood_target(neighbors: Set<NodeId>, prior: NodeId) -> spec_fn(NodeId) -> bool {
    |id: NodeId| neighbors.contains(id) && id != prior
}

impl NodeModel {
    /// Why a packet that stands at this node cannot travel on, if it cannot.
    /// A packet whose route is exhausted has no such reason: nothing is
    /// asked of it.
    pub open spec fn validate(self, route: Route) -> Option<NackType> {
        match route.current_hop() {
            None => None,
            Some(hop) => if hop != self.id {
                Some(NackType::UnexpectedRecipient(self.id))
            } else {
                match route.next_hop() {
                    None => Some(NackType::DestinationIsDrone),
                    Some(next) => if self.neighbors.contains(next) {
                        None
                    } else {
                        Some(NackType::ErrorInRouting(next))
                    },
                }
            },
        }
    }

    /// Whether a packet with this route stands at this node and can travel
    /// on to a neighbour.
    pub open spec fn accepts(self, route: Route) -> bool {
        route.current_hop() is Some && self.validate(route) is None
    }

    /// The way back from this node to the source of a route: the hops before
    /// the cursor, then this node, all in reverse.
    pub open spec fn reverse_hops(self, route: Route) -> Seq<NodeId> {
        let passed = if route.hop_index <= route.hops.len() {
            route.hop_index as int
        } else {
            route.hops.len() as int
        };
        route.hops.take(passed).push(self.id).reverse()
    }

    /// The negative acknowledgement for the fragment `fragment_index` that
    /// `packet` carries, at the start of its way back.
    pub open spec fn nack_packet(
        self,
        packet: PacketView,
        fragment_index: u64,
        nack_type: NackType,
    ) -> PacketView {
        PacketView {
            routing_header: Route { hops: self.reverse_hops(packet.routing_header), hop_index: 0 },
            session_id: packet.session_id,
            pack_type: PacketTypeView::Nack(Nack { fragment_index, nack_type }),
        }
    }

    /// What becomes of a packet that this node made: it goes to the next hop
    /// of its route, or to the controller where that hop cannot be reached.
    pub open spec fn hand_over(self, packet: PacketView) -> Seq<ActionView> {
        if self.accepts(packet.routing_header) {
            pass_on(packet)
        } else {
            shortcut(packet)
        }
    }

    /// What the node does about a packet that cannot travel on, for the
    /// reason `nack_type`. A fragment is answered by a negative
    /// acknowledgement on its way back, and a dropped one is reported to the
    /// controller as well. Any other packet but a flood request is handed to
    /// the controller.
    pub open spec fn send_nack(self, packet: PacketView, nack_type: NackType) -> Seq<ActionView> {
        match packet.pack_type {
            PacketTypeView::FloodRequest(_) => Seq::empty(),
            PacketTypeView::MsgFragment(fragment) => {
                let nack = self.nack_packet(packet, fragment.fragment_index, nack_type);
                if nack_type == NackType::Dropped {
                    self.hand_over(nack).push(
                        ActionView::Notify(DroneEventView::PacketDropped(packet)),
                    )
                } else {
                    self.hand_over(nack)
                }
            },
            _ => shortcut(packet),
        }
    }

    /// The forwarding path: a packet goes to the next hop of its route if
    /// that hop is a neighbour, and is answered with `ErrorInRouting` as
    /// [`Self::send_nack`] says if it is none. A packet without a next hop is
    /// ignored. Whether the packet stands at this node is not asked here.
    pub open spec fn send_packet(self, packet: PacketView) -> Seq<ActionView> {
        match packet.routing_header.next_hop() {
            None => Seq::empty(),
            Some(next) => if self.neighbors.contains(next) {
                pass_on(packet)
            } else {
                self.send_nack(packet, NackType::ErrorInRouting(next))
            },
        }
    }

    /// What a running node does with a packet that is no flood request and
    /// drew `ticket` in the drop lottery: a packet whose route is exhausted
    /// is ignored; one that fails validation is answered; a valid fragment
    /// that loses the lottery is answered as dropped; any other valid packet
    /// goes the forwarding path.
    pub open spec fn relay(self, packet: PacketView, ticket: u32) -> Seq<ActionView> {
        match packet.routing_header.current_hop() {
            None => Seq::empty(),
            Some(_) => match self.validate(packet.routing_header) {
                Some(nack_type) => self.send_nack(packet, nack_type),
                None => if packet.pack_type is MsgFragment && self.pdr.drops(ticket) {
                    self.send_nack(packet, NackType::Dropped)
                } else {
                    self.send_packet(packet)
                },
            },
        }
    }

    /// The neighbours a flood request that came from `prior` is passed on
    /// to, in ascending order.
    pub open spec fn flood_targets(self, prior: NodeId) -> Seq<NodeId> {
        all_node_ids().filter(is_flood_target(self.neighbors, prior))
    }

    /// What a running node does with the flood request that `packet`
    /// carries, and the state that follows.
    pub open spec fn flood(self, packet: PacketView, request: FloodRequestView) -> (
        NodeModel,
        Seq<ActionView>,
    ) {
        let updated = request.incremented(self.id, NodeType::Drone);
        let key = (request.flood_id, request.initiator_id);
        if request.path_trace.len() == 0 {
            (self, Seq::empty())
        } else if !self.seen_floods.contains(key) && self.neighbors.len() > 1 {
            (
                NodeModel { seen_floods: self.seen_floods.insert(key), ..self },
                fan_out(
                    self.flood_targets(request.path_trace.last().0),
                    PacketView { pack_type: PacketTypeView::FloodRequest(updated), ..packet },
                ),
            )
        } else {
            (self, self.send_packet(updated.response(packet.session_id)))
        }
    }

    /// What a crashing node does with a packet from its inbox: a fragment is
    /// answered, for this node cannot be reached any more; a flood request
    /// is discarded; any other packet goes the forwarding path as it is,
    /// without validation.
    pub open spec fn drain(self, packet: PacketView) -> Seq<ActionView> {
        match packet.pack_type {
            PacketTypeView::MsgFragment(_) => self.send_nack(
                packet,
                NackType::ErrorInRouting(self.id),
            ),
            PacketTypeView::FloodRequest(_) => Seq::empty(),
            _ => self.send_packet(packet),
        }
    }

    /// What the node does with a packet from its inbox that drew `ticket` in
    /// the drop lottery, and the state that follows.
    pub open spec fn packet_handler(self, packet: PacketView, ticket: u32) -> (
        NodeModel,
        Seq<ActionView>,
    ) {
        match self.state {
            LifecycleState::Crashing => (self, self.drain(packet)),
            LifecycleState::Running => match packet.pack_type {
                PacketTypeView::FloodRequest(request) => self.flood(packet, request),
                _ => (self, self.relay(packet, ticket)),
            },
        }
    }

    /// The state that follows when the command handler is given a command.
    /// A crashing node takes no command. The crash command is not the
    /// handler's to carry out: it leaves the node as it is, and the node's
    /// loop acts on it, see [`Self::commanded`].
    pub open spec fn command_handler(self, command: CommandView) -> NodeModel {
        match self.state {
            LifecycleState::Crashing => self,
            LifecycleState::Running => match command {
                CommandView::AddSender(id) => NodeModel {
                    neighbors: self.neighbors.insert(id),
                    ..self
                },
                CommandView::RemoveSender(id) => NodeModel {
                    neighbors: self.neighbors.remove(id),
                    ..self
                },
                CommandView::SetPacketDropRate(pdr) => NodeModel { pdr, ..self },
                CommandView::Crash => self,
            },
        }
    }

    /// The state that follows a command in the node's loop: the crash
    /// command ends normal operation, and any other command goes to the
    /// command handler.
    pub open spec fn commanded(self, command: CommandView) -> NodeModel {
        if command is Crash {
            NodeModel { state: LifecycleState::Crashing, ..self }
        } else {
            self.command_handler(command)
        }
    }

    /// What the node does once `packet` was sent to the neighbour `to`, and
    /// the state that follows. A fragment that went out is reported to the
    /// controller. A neighbour whose channel is closed is forgotten, and the
    /// packet is answered as one that cannot travel on. A flood request is
    /// sent without care for the outcome.
    pub open spec fn after_send(self, to: NodeId, packet: PacketView, delivered: bool) -> (
        NodeModel,
        Seq<ActionView>,
    ) {
        if packet.pack_type is FloodRequest {
            (self, Seq::empty())
        } else if delivered {
            if packet.pack_type is MsgFragment {
                (self, seq![ActionView::Notify(DroneEventView::PacketSent(packet))])
            } else {
                (self, Seq::empty())
            }
        } else {
            let without = NodeModel { neighbors: self.neighbors.remove(to), ..self };
            (without, without.send_nack(packet.retreated(), NackType::ErrorInRouting(to)))
        }
    }

    /// The event with which the node comments on the event or command
    /// `name`, where `pick` chooses among the messages of the mode: `None`
    /// if the mode has no message for it or the chosen one does not fit into
    /// a fragment.
    pub open spec fn comment_on(self, name: Seq<char>, pick: nat) -> Option<DroneEventView> {
        self.messages.comment(self.mode, name, self.id, pick)
    }

    /// The event with which the node comments on a command before it carries
    /// it out.
    pub open spec fn comment_on_command(self, command: CommandView, pick: nat) -> Option<
        DroneEventView,
    > {
        self.comment_on(command_name(command), pick)
    }

    /// The event with which the node comments on an event before it reports
    /// it. A packet that is handed to the controller goes without comment.
    pub open spec fn comment_on_event(self, event: DroneEventView, pick: nat) -> Option<
        DroneEventView,
    > {
        if event is ControllerShortcut {
            None
        } else {
            self.comment_on(event_name(event), pick)
        }
    }

    /// Whether the node listens to the controller.
    pub open spec fn takes_commands(self) -> bool {
        self.state is Running
    }

    /// What the node waits for next.
    pub open spec fn awaits(self) -> Awaits {
        if self.state is Crashing {
            Awaits::Packets
        } else if self.packets_closed {
            Awaits::Commands
        } else {
            Awaits::CommandsThenPackets
        }
    }

    /// Whether the node has come to its end: it is crashing and no packet
    /// can come any more.
    pub open spec fn is_over(self) -> bool {
        self.state is Crashing && self.packets_closed
    }

    /// One turn of the node's loop: the state that follows an input, the
    /// actions the node asks for, and whether the node goes on. A running
    /// node ends when the controller hangs up and goes on without packet
    /// senders. A crashing node ends when the last packet sender has hung
    /// up, which may have been before the crash, and does not notice the
    /// controller.
    pub open spec fn step(self, input: InputView, ticket: u32) -> (
        NodeModel,
        Seq<ActionView>,
        bool,
    ) {
        match input {
            InputView::Command(command) => (
                self.commanded(command),
                Seq::empty(),
                !self.commanded(command).is_over(),
            ),
            InputView::Packet(packet) => (
                self.packet_handler(packet, ticket).0,
                self.packet_handler(packet, ticket).1,
                true,
            ),
            InputView::CommandsClosed => (
                self,
                Seq::empty(),
                self.state is Crashing && !self.is_over(),
            ),
            InputView::PacketsClosed => (
                NodeModel { packets_closed: true, ..self },
                Seq::empty(),
                self.state is Running,
            ),
        }
    }
}

/// What a node waits for.
#[derive(Debug, Clone, Copy, PartialEq, Eq, Structural, Hash)]
pub enum Awaits {
    /// A command or a packet; where both are there, the command goes first.
    CommandsThenPackets,
    /// A command: no packet can come any more.
    Commands,
    /// A packet: the node takes no command any more.
    Packets,
}

} // verus!

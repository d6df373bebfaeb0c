//! The node itself: the state it keeps and the steps it takes.
use crate::controller::{
    action_views, Action, ActionView, DroneCommand, DroneEvent, DroneEventView, Input, Reaction,
};
use crate::flood::SeenFloods;
use crate::lottery::{draw_pick, draw_ticket, DropRate, LOTTERY_TICKETS};
use crate::messages::{event_view, Messages};
use crate::model::{
    all_node_ids, fan_out, is_flood_target, Awaits, LifecycleState, NodeModel,
};
use crate::modes::FlyPathModes;
use crate::network::{Nack, NackType, NodeId, NodeType, Packet, PacketType, SourceRoutingHeader};
use std::collections::HashMap;
use vstd::prelude::*;

verus! {

/// A forwarding node. `C` is the channel on which packets are sent to a
/// neighbour: the node keeps one for each neighbour and never looks inside.
#[derive(Debug)]
pub struct FlyPath<C> {
    pub id: NodeId,
    /// The neighbours, each with the channel that leads to it.
    pub packet_send: HashMap<NodeId, C>,
    pub pdr: DropRate,
    /// The floods that the node has passed on.
    pub seen_floods: SeenFloods,
    pub state: LifecycleState,
    /// Whether every sender of packets has hung up.
    pub packets_closed: bool,
    pub mode: FlyPathModes,
    /// The messages the node sends along in a themed mode.
    pub messages: Messages,
}

impl<C> View for FlyPath<C> {
    type V = NodeModel;

    open spec fn view(&self) -> NodeModel {
        NodeModel {
            id: self.id,
            neighbors: self.packet_send@.dom(),
            pdr: self.pdr,
            seen_floods: self.seen_floods@,
            state: self.state,
            packets_closed: self.packets_closed,
            mode: self.mode,
            messages: self.messages,
        }
    }
}

impl<C> FlyPath<C> {
    /// A running node in the default mode that has passed on no flood yet.
    pub fn new(id: NodeId, packet_send: HashMap<NodeId, C>, pdr: DropRate) -> (res: Self)
        ensures
            res.packet_send == packet_send,
            res.id == id,
            res.pdr == pdr,
            res.seen_floods@ == Set::<(u64, NodeId)>::empty(),
            res.state is Running,
            !res.packets_closed,
            res.mode is Default,
            res.messages.spicy@.len() == 0,
            res.messages.brainrot@.len() == 0,
    {
        FlyPath {
            id,
            packet_send,
            pdr,
            seen_floods: SeenFloods::new(),
            state: LifecycleState::Running,
            packets_closed: false,
            mode: FlyPathModes::Default,
            messages: Messages::empty(),
        }
    }

    /// A running node in `mode` that has passed on no flood yet and sends
    /// along the given messages.
    pub fn new_with_mode(
        mode: FlyPathModes,
        id: NodeId,
        packet_send: HashMap<NodeId, C>,
        pdr: DropRate,
        messages: Messages,
    ) -> (res: Self)
        ensures
            res.packet_send == packet_send,
            res@ == (NodeModel {
                id,
                neighbors: packet_send@.dom(),
                pdr,
                seen_floods: Set::empty(),
                state: LifecycleState::Running,
                packets_closed: false,
                mode,
                messages,
            }),
    {
        FlyPath {
            id,
            packet_send,
            pdr,
            seen_floods: SeenFloods::new(),
            state: LifecycleState::Running,
            packets_closed: false,
            mode,
            messages,
        }
    }

    /// The event with which the node comments on the event or command
    /// `name`, where `pick` chooses among the messages of the mode.
    pub fn comment_at(&self, name: &str, pick: usize) -> (res: Option<DroneEvent>)
        ensures
            event_view(res) == self@.comment_on(name@, pick as nat),
    {
        self.messages.comment_at(&self.mode, name, self.id, pick)
    }

    /// The event with which the node comments on `command` before it carries
    /// it out, where `pick` chooses among the messages of the mode.
    pub fn command_comment_at(&self, command: &DroneCommand<C>, pick: usize) -> (res: Option<
        DroneEvent,
    >)
        ensures
            event_view(res) == self@.comment_on_command(command@, pick as nat),
    {
        self.comment_at(Messages::drone_command_to_string(command), pick)
    }

    /// The event with which the node comments on `event` before it reports
    /// it, where `pick` chooses among the messages of the mode.
    pub fn event_comment_at(&self, event: &DroneEvent, pick: usize) -> (res: Option<DroneEvent>)
        ensures
            event_view(res) == self@.comment_on_event(event@, pick as nat),
    {
        match event {
            DroneEvent::ControllerShortcut(_) => None,
            _ => self.comment_at(Messages::drone_event_to_string(event), pick),
        }
    }

    /// The event with which the node comments on the event or command
    /// `name`, with a message of the mode chosen at random.
    pub fn flypath_message(&self, name: &str) -> (res: Option<DroneEvent>)
        ensures
            exists|pick: nat| event_view(res) == #[trigger] self@.comment_on(name@, pick),
    {
        let pick = draw_pick();
        let res = self.comment_at(name, pick);
        proof {
            assert(event_view(res) == self@.comment_on(name@, pick as nat));
        }
        res
    }

    /// The event with which the node comments on `command` before it carries
    /// it out, with a message of the mode chosen at random.
    pub fn command_flypath_message(&self, command: &DroneCommand<C>) -> (res: Option<DroneEvent>)
        ensures
            exists|pick: nat|
                event_view(res) == #[trigger] self@.comment_on_command(command@, pick),
    {
        let pick = draw_pick();
        let res = self.command_comment_at(command, pick);
        proof {
            assert(event_view(res) == self@.comment_on_command(command@, pick as nat));
        }
        res
    }

    /// The event with which the node comments on `event` before it reports
    /// it, with a message of the mode chosen at random.
    pub fn event_flypath_message(&self, event: &DroneEvent) -> (res: Option<DroneEvent>)
        ensures
            exists|pick: nat| event_view(res) == #[trigger] self@.comment_on_event(event@, pick),
    {
        let pick = draw_pick();
        let res = self.event_comment_at(event, pick);
        proof {
            assert(event_view(res) == self@.comment_on_event(event@, pick as nat));
        }
        res
    }

    /// Why `packet`, which stands at this node, cannot travel on: `None` if
    /// it can, and also if its route is exhausted.
    pub fn validate_packet(&self, packet: &Packet) -> (res: Option<NackType>)
        ensures
            res == self@.validate(packet@.routing_header),
    {
        broadcast use vstd::std_specs::hash::group_hash_axioms;

        match packet.routing_header.current_hop() {
            None => None,
            Some(current_hop) => {
                if current_hop != self.id {
                    Some(NackType::UnexpectedRecipient(self.id))
                } else {
                    match packet.routing_header.next_hop() {
                        None => Some(NackType::DestinationIsDrone),
                        Some(next_hop) => {
                            if self.packet_send.contains_key(&next_hop) {
                                None
                            } else {
                                Some(NackType::ErrorInRouting(next_hop))
                            }
                        },
                    }
                }
            },
        }
    }

    /// The way back from this node to the source of `packet`.
    pub fn reverse_hops(&self, packet: &Packet) -> (res: Vec<NodeId>)
        ensures
            res@ == self@.reverse_hops(packet@.routing_header),
    {
        let hops = &packet.routing_header.hops;
        let passed: usize = if packet.routing_header.hop_index <= hops.len() {
            packet.routing_header.hop_index
        } else {
            hops.len()
        };
        let ghost target = hops@.take(passed as int).push(self.id).reverse();
        let mut res: Vec<NodeId> = Vec::new();
        res.push(self.id);
        let mut done: usize = 0;
        while done < passed
            invariant
                done <= passed <= hops.len(),
                target == hops@.take(passed as int).push(self.id).reverse(),
                res@ == target.take(done + 1),
            decreases passed - done,
        {
            res.push(hops[passed - 1 - done]);
            done += 1;
            proof {
                assert(res@ =~= target.take(done + 1));
            }
        }
        proof {
            assert(res@ =~= target);
        }
        res
    }

    /// Sends a packet that this node made to the next hop of its route, or
    /// hands it to the controller where that hop cannot be reached.
    fn hand_over(&self, packet: Packet) -> (actions: Vec<Action>)
        ensures
            action_views(actions@) == self@.hand_over(packet@),
    {
        let mut packet = packet;
        let mut actions: Vec<Action> = Vec::new();
        let ghost offered = packet@;
        let next_hop = packet.routing_header.next_hop();
        let valid = packet.routing_header.current_hop().is_some() && self.validate_packet(
            &packet,
        ).is_none();
        match next_hop {
            Some(to) if valid => {
                assert(packet.routing_header.hop_index + 1 < packet.routing_header.hops.len());
                packet.routing_header.hop_index = packet.routing_header.hop_index + 1;
                actions.push(Action::Forward { to, packet });
            },
            _ => {
                actions.push(Action::Notify(DroneEvent::ControllerShortcut(packet)));
            },
        }
        proof {
            assert(action_views(actions@) =~= self@.hand_over(offered));
        }
        actions
    }

    /// Answers `packet`, which cannot travel on for the reason `nack_type`:
    /// a fragment by a negative acknowledgement on its way back, and by a
    /// report to the controller if it was dropped; any other packet but a
    /// flood request by handing it to the controller.
    pub fn send_nack(&self, packet: &Packet, nack_type: NackType) -> (actions: Vec<Action>)
        ensures
            action_views(actions@) == self@.send_nack(packet@, nack_type),
    {
        match &packet.pack_type {
            PacketType::FloodRequest(_) => {
                let actions: Vec<Action> = Vec::new();
                proof {
                    assert(action_views(actions@) =~= self@.send_nack(packet@, nack_type));
                }
                actions
            },
            PacketType::MsgFragment(fragment) => {
                let routing_header = SourceRoutingHeader::initialize(self.reverse_hops(packet));
                let nack = Nack { fragment_index: fragment.fragment_index, nack_type };
                let mut actions = self.hand_over(
                    Packet::new_nack(routing_header, packet.session_id, nack),
                );
                let ghost handed = actions@;
                match nack_type {
                    NackType::Dropped => {
                        actions.push(Action::Notify(DroneEvent::PacketDropped(packet.clone())));
                        proof {
                            assert(action_views(actions@) =~= action_views(handed).push(
                                actions@.last()@,
                            ));
                        }
                    },
                    _ => {},
                }
                actions
            },
            _ => {
                let mut actions: Vec<Action> = Vec::new();
                actions.push(Action::Notify(DroneEvent::ControllerShortcut(packet.clone())));
                proof {
                    assert(action_views(actions@) =~= self@.send_nack(packet@, nack_type));
                }
                actions
            },
        }
    }

    /// The forwarding path: moves the cursor of `packet` one hop on and
    /// sends the packet to that hop, if it is a neighbour. If it is none, the
    /// packet is answered with `ErrorInRouting` as [`Self::send_nack`] does,
    /// the cursor being where it was. A packet without a next hop is ignored.
    /// Whether the packet stands at this node is not asked here: that is
    /// [`Self::validate_packet`].
    pub fn send_packet(&self, packet: Packet) -> (actions: Vec<Action>)
        ensures
            action_views(actions@) == self@.send_packet(packet@),
    {
        broadcast use vstd::std_specs::hash::group_hash_axioms;

        let mut packet = packet;
        let ghost offered = packet@;
        match packet.routing_header.next_hop() {
            None => {
                let actions: Vec<Action> = Vec::new();
                proof {
                    assert(action_views(actions@) =~= self@.send_packet(offered));
                }
                actions
            },
            Some(to) => {
                if self.packet_send.contains_key(&to) {
                    let mut actions: Vec<Action> = Vec::new();
                    assert(packet.routing_header.hop_index + 1 < packet.routing_header.hops.len());
                    packet.routing_header.hop_index = packet.routing_header.hop_index + 1;
                    actions.push(Action::Forward { to, packet });
                    proof {
                        assert(action_views(actions@) =~= self@.send_packet(offered));
                    }
                    actions
                } else {
                    self.send_nack(&packet, NackType::ErrorInRouting(to))
                }
            },
        }
    }

    /// What a running node does with a packet that is no flood request and
    /// drew `ticket` in the drop lottery.
    fn relay(&self, packet: Packet, ticket: u32) -> (actions: Vec<Action>)
        ensures
            action_views(actions@) == self@.relay(packet@, ticket),
    {
        if packet.routing_header.current_hop().is_none() {
            let actions: Vec<Action> = Vec::new();
            proof {
                assert(action_views(actions@) =~= Seq::<ActionView>::empty());
            }
            return actions;
        }
        match self.validate_packet(&packet) {
            Some(nack_type) => self.send_nack(&packet, nack_type),
            None => {
                let is_fragment = match &packet.pack_type {
                    PacketType::MsgFragment(_) => true,
                    _ => false,
                };
                if is_fragment && self.pdr.is_dropped(ticket) {
                    self.send_nack(&packet, NackType::Dropped)
                } else {
                    self.send_packet(packet)
                }
            },
        }
    }

    /// One action that forwards a copy of `packet` for each neighbour but
    /// `prior`, in ascending order.
    fn fan_out(&self, prior: NodeId, packet: &Packet) -> (actions: Vec<Action>)
        ensures
            action_views(actions@) == fan_out(self@.flood_targets(prior), packet@),
    {
        broadcast use vstd::std_specs::hash::group_hash_axioms;

        let ghost wanted = is_flood_target(self@.neighbors, prior);
        let mut actions: Vec<Action> = Vec::new();
        let mut next: usize = 0;
        proof {
            reveal(Seq::filter);
            assert(all_node_ids().take(0).filter(wanted) =~= Seq::<NodeId>::empty());
            assert(action_views(actions@) =~= fan_out(Seq::<NodeId>::empty(), packet@));
        }
        while next < 256
            invariant
                next <= 256,
                wanted == is_flood_target(self@.neighbors, prior),
                action_views(actions@) == fan_out(
                    all_node_ids().take(next as int).filter(wanted),
                    packet@,
                ),
            decreases 256 - next,
        {
            let id: NodeId = next as NodeId;
            let ghost before = all_node_ids().take(next as int);
            let ghost after = all_node_ids().take(next + 1);
            let ghost done = actions@;
            proof {
                reveal(Seq::filter);
                assert(after.drop_last() =~= before);
                assert(after.last() == id);
            }
            if id != prior && self.packet_send.contains_key(&id) {
                actions.push(Action::Forward { to: id, packet: packet.clone() });
                proof {
                    let targets = before.filter(wanted);
                    assert(after.filter(wanted) == targets.push(id));
                    assert(action_views(done).len() == fan_out(targets, packet@).len());
                    assert forall|i: int| 0 <= i < actions@.len() implies action_views(
                        actions@,
                    )[i] == fan_out(targets.push(id), packet@)[i] by {
                        if i < done.len() {
                            assert(actions@[i] == done[i]);
                            assert(action_views(done)[i] == fan_out(targets, packet@)[i]);
                        }
                    }
                    assert(action_views(actions@) =~= fan_out(after.filter(wanted), packet@));
                }
            } else {
                proof {
                    assert(after.filter(wanted) == before.filter(wanted));
                }
            }
            next += 1;
        }
        proof {
            assert(all_node_ids().take(256) =~= all_node_ids());
        }
        actions
    }

    /// What a running node does with a flood request.
    fn flood(&mut self, packet: Packet) -> (actions: Vec<Action>)
        requires
            packet.pack_type is FloodRequest,
        ensures
            final(self)@ == old(self)@.flood(packet@, packet@.pack_type->FloodRequest_0).0,
            action_views(actions@) == old(self)@.flood(
                packet@,
                packet@.pack_type->FloodRequest_0,
            ).1,
            final(self).packet_send == old(self).packet_send,
    {
        broadcast use vstd::std_specs::hash::group_hash_axioms;

        let Packet { routing_header, session_id, pack_type } = packet;
        match pack_type {
            PacketType::FloodRequest(request) => {
                let updated = request.get_incremented(self.id, NodeType::Drone);
                let last = request.path_trace.len();
                if last == 0 {
                    let actions: Vec<Action> = Vec::new();
                    proof {
                        assert(action_views(actions@) =~= Seq::<ActionView>::empty());
                    }
                    return actions;
                }
                let prior = request.path_trace[last - 1].0;
                if !self.seen_floods.contains(request.flood_id, request.initiator_id)
                    && self.packet_send.len() > 1 {
                    let passed_on = Packet {
                        routing_header,
                        session_id,
                        pack_type: PacketType::FloodRequest(updated),
                    };
                    let actions = self.fan_out(prior, &passed_on);
                    self.seen_floods.insert(request.flood_id, request.initiator_id);
                    actions
                } else {
                    self.send_packet(updated.generate_response(session_id))
                }
            },
            _ => Vec::new(),
        }
    }

    /// What a crashing node does with a packet from its inbox: a fragment is
    /// answered, for this node cannot be reached any more; a flood request
    /// is discarded; any other packet goes the forwarding path as it is,
    /// without validation.
    pub fn gentle_crash(&self, packet: Packet) -> (actions: Vec<Action>)
        ensures
            action_views(actions@) == self@.drain(packet@),
    {
        match &packet.pack_type {
            PacketType::MsgFragment(_) => self.send_nack(
                &packet,
                NackType::ErrorInRouting(self.id),
            ),
            PacketType::FloodRequest(_) => {
                let actions: Vec<Action> = Vec::new();
                proof {
                    assert(action_views(actions@) =~= Seq::<ActionView>::empty());
                }
                actions
            },
            _ => self.send_packet(packet),
        }
    }

    /// What the node does with a packet from its inbox that drew `ticket` in
    /// the drop lottery.
    pub fn packet_handler_with_ticket(&mut self, packet: Packet, ticket: u32) -> (actions: Vec<
        Action,
    >)
        ensures
            final(self)@ == old(self)@.packet_handler(packet@, ticket).0,
            action_views(actions@) == old(self)@.packet_handler(packet@, ticket).1,
            final(self).packet_send == old(self).packet_send,
    {
        match self.state {
            LifecycleState::Crashing => self.gentle_crash(packet),
            LifecycleState::Running => {
                let is_flood_request = match &packet.pack_type {
                    PacketType::FloodRequest(_) => true,
                    _ => false,
                };
                if is_flood_request {
                    self.flood(packet)
                } else {
                    self.relay(packet, ticket)
                }
            },
        }
    }

    /// What the node does with a packet from its inbox. The node draws the
    /// packet's ticket in the drop lottery itself, so the result is that of
    /// [`Self::packet_handler_with_ticket`] for one of the tickets.
    pub fn packet_handler(&mut self, packet: Packet) -> (actions: Vec<Action>)
        ensures
            exists|ticket: u32|
                ticket < LOTTERY_TICKETS && final(self)@ == (#[trigger] old(self)@.packet_handler(
                    packet@,
                    ticket,
                )).0 && action_views(actions@) == old(self)@.packet_handler(packet@, ticket).1,
            final(self).packet_send == old(self).packet_send,
    {
        let in_lottery = match (&self.state, &packet.pack_type) {
            (LifecycleState::Running, PacketType::MsgFragment(_)) => true,
            _ => false,
        };
        if in_lottery {
            let ticket = draw_ticket();
            self.packet_handler_with_ticket(packet, ticket)
        } else {
            self.packet_handler_with_ticket(packet, 0)
        }
    }

    /// Carries out a command of the controller. A crashing node takes none.
    /// The crash command is not carried out here: the handler leaves the node
    /// as it is, and the node's loop acts on it, see [`Self::take_command`].
    pub fn command_handler(&mut self, command: DroneCommand<C>)
        ensures
            final(self)@ == old(self)@.command_handler(command@),
            command is Crash ==> final(self)@ == old(self)@,
            final(self).packet_send@ == table_after(
                old(self).packet_send@,
                old(self).state,
                command,
            ),
    {
        broadcast use vstd::std_specs::hash::group_hash_axioms;

        match self.state {
            LifecycleState::Crashing => {},
            LifecycleState::Running => {
                match command {
                    DroneCommand::AddSender(id, sender) => {
                        self.packet_send.insert(id, sender);
                        proof {
                            assert(self.packet_send@.dom() =~= old(self).packet_send@.dom().insert(
                                id,
                            ));
                        }
                    },
                    DroneCommand::RemoveSender(id) => {
                        self.packet_send.remove(&id);
                        proof {
                            assert(self.packet_send@.dom() =~= old(self).packet_send@.dom().remove(
                                id,
                            ));
                        }
                    },
                    DroneCommand::SetPacketDropRate(pdr) => {
                        self.pdr = pdr;
                    },
                    DroneCommand::Crash => {},
                }
            },
        }
    }

    /// Takes a command in the node's loop: the crash command ends normal
    /// operation, and any other command goes to the command handler.
    pub fn take_command(&mut self, command: DroneCommand<C>)
        ensures
            final(self)@ == old(self)@.commanded(command@),
            final(self).packet_send@ == table_after(
                old(self).packet_send@,
                old(self).state,
                command,
            ),
    {
        match command {
            DroneCommand::Crash => {
                self.state = LifecycleState::Crashing;
            },
            _ => self.command_handler(command),
        }
    }

    /// What the node does once `packet` was sent to the neighbour `to`;
    /// `delivered` says whether the channel took the packet.
    pub fn after_send(&mut self, to: NodeId, packet: Packet, delivered: bool) -> (actions: Vec<
        Action,
    >)
        ensures
            final(self)@ == old(self)@.after_send(to, packet@, delivered).0,
            action_views(actions@) == old(self)@.after_send(to, packet@, delivered).1,
            final(self).packet_send@ == if delivered || packet.pack_type is FloodRequest {
                old(self).packet_send@
            } else {
                old(self).packet_send@.remove(to)
            },
    {
        broadcast use vstd::std_specs::hash::group_hash_axioms;

        let mut packet = packet;
        let ghost offered = packet@;
        let mut actions: Vec<Action> = Vec::new();
        match &packet.pack_type {
            PacketType::FloodRequest(_) => {
                proof {
                    assert(action_views(actions@) =~= Seq::<ActionView>::empty());
                }
                return actions;
            },
            PacketType::MsgFragment(_) => {
                if delivered {
                    actions.push(Action::Notify(DroneEvent::PacketSent(packet)));
                    proof {
                        assert(action_views(actions@) =~= seq![
                            ActionView::Notify(DroneEventView::PacketSent(offered)),
                        ]);
                    }
                    return actions;
                }
            },
            _ => {
                if delivered {
                    proof {
                        assert(action_views(actions@) =~= Seq::<ActionView>::empty());
                    }
                    return actions;
                }
            },
        }
        self.packet_send.remove(&to);
        proof {
            assert(self.packet_send@.dom() =~= old(self).packet_send@.dom().remove(to));
        }
        if packet.routing_header.hop_index > 0 {
            packet.routing_header.hop_index = packet.routing_header.hop_index - 1;
        }
        self.send_nack(&packet, NackType::ErrorInRouting(to))
    }

    /// Whether the node listens to the controller.
    pub fn takes_commands(&self) -> (res: bool)
        ensures
            res == self@.takes_commands(),
    {
        match self.state {
            LifecycleState::Running => true,
            LifecycleState::Crashing => false,
        }
    }

    /// What the node waits for next: the program around the node waits for
    /// just that and hands it to the node.
    pub fn awaits(&self) -> (res: Awaits)
        ensures
            res == self@.awaits(),
    {
        match self.state {
            LifecycleState::Crashing => Awaits::Packets,
            LifecycleState::Running => if self.packets_closed {
                Awaits::Commands
            } else {
                Awaits::CommandsThenPackets
            },
        }
    }

    /// Whether the node has come to its end.
    pub fn is_over(&self) -> (res: bool)
        ensures
            res == self@.is_over(),
    {
        !self.takes_commands() && self.packets_closed
    }

    /// One turn of the node's loop, with the lottery ticket that a packet
    /// draws.
    pub fn step_with_ticket(&mut self, input: Input<C>, ticket: u32) -> (reaction: Reaction)
        ensures
            final(self)@ == old(self)@.step(input@, ticket).0,
            action_views(reaction.actions@) == old(self)@.step(input@, ticket).1,
            reaction.proceed == old(self)@.step(input@, ticket).2,
            final(self).packet_send@ == match input {
                Input::Command(command) => table_after(
                    old(self).packet_send@,
                    old(self).state,
                    command,
                ),
                _ => old(self).packet_send@,
            },
    {
        match input {
            Input::Command(command) => {
                self.take_command(command);
                let actions: Vec<Action> = Vec::new();
                proof {
                    assert(action_views(actions@) =~= Seq::<ActionView>::empty());
                }
                Reaction { actions, proceed: !self.is_over() }
            },
            Input::Packet(packet) => {
                let actions = self.packet_handler_with_ticket(packet, ticket);
                Reaction { actions, proceed: true }
            },
            Input::CommandsClosed => {
                let actions: Vec<Action> = Vec::new();
                proof {
                    assert(action_views(actions@) =~= Seq::<ActionView>::empty());
                }
                Reaction { actions, proceed: !self.takes_commands() && !self.is_over() }
            },
            Input::PacketsClosed => {
                let actions: Vec<Action> = Vec::new();
                proof {
                    assert(action_views(actions@) =~= Seq::<ActionView>::empty());
                }
                self.packets_closed = true;
                Reaction { actions, proceed: self.takes_commands() }
            },
        }
    }

    /// One turn of the node's loop. The node draws the lottery ticket
    /// itself, so the result is that of [`Self::step_with_ticket`] for one
    /// of the tickets.
    pub fn step(&mut self, input: Input<C>) -> (reaction: Reaction)
        ensures
            exists|ticket: u32|
                ticket < LOTTERY_TICKETS && final(self)@ == (#[trigger] old(self)@.step(
                    input@,
                    ticket,
                )).0 && action_views(reaction.actions@) == old(self)@.step(input@, ticket).1
                    && reaction.proceed == old(self)@.step(input@, ticket).2,
            final(self).packet_send@ == match input {
                Input::Command(command) => table_after(
                    old(self).packet_send@,
                    old(self).state,
                    command,
                ),
                _ => old(self).packet_send@,
            },
    {
        let ghost offered = input@;
        match input {
            Input::Packet(packet) => {
                let actions = self.packet_handler(packet);
                proof {
                    let ticket = choose|ticket: u32|
                        ticket < LOTTERY_TICKETS && self@ == (#[trigger] old(self)@.packet_handler(
                            packet@,
                            ticket,
                        )).0 && action_views(actions@) == old(self)@.packet_handler(
                            packet@,
                            ticket,
                        ).1;
                    assert(old(self)@.step(offered, ticket).0 == self@);
                }
                Reaction { actions, proceed: true }
            },
            _ => self.step_with_ticket(input, 0),
        }
    }
}

/// The table of neighbours that follows a command, for a node in `state`.
pub open spec fn table_after<C>(
    table: Map<NodeId, C>,
    state: LifecycleState,
    command: DroneCommand<C>,
) -> Map<NodeId, C> {
    match (state, command) {
        (LifecycleState::Running, DroneCommand::AddSender(id, sender)) => table.insert(id, sender),
        (LifecycleState::Running, DroneCommand::RemoveSender(id)) => table.remove(id),
        _ => table,
    }
}

} // verus!

//! What the node exchanges with its controller and with the program around
//! it: commands, events, inputs and the actions the node asks for.
use crate::lottery::DropRate;
use crate::network::{NodeId, Packet, PacketView};
use vstd::prelude::*;

verus! {

/// What the node reports to the controller.
#[derive(Debug, PartialEq, Eq, Hash)]
pub enum DroneEvent {
    /// A fragment was forwarded to the next hop.
    PacketSent(Packet),
    /// A fragment lost the drop lottery.
    PacketDropped(Packet),
    /// A packet that the node cannot route and that must not be lost: the
    /// controller delivers it.
    ControllerShortcut(Packet),
}

/// Mathematical view of a [`DroneEvent`].
pub enum DroneEventView {
    PacketSent(PacketView),
    PacketDropped(PacketView),
    ControllerShortcut(PacketView),
}

impl View for DroneEvent {
    type V = DroneEventView;

    open spec fn view(&self) -> DroneEventView {
        match self {
            DroneEvent::PacketSent(packet) => DroneEventView::PacketSent(packet@),
            DroneEvent::PacketDropped(packet) => DroneEventView::PacketDropped(packet@),
            DroneEvent::ControllerShortcut(packet) => DroneEventView::ControllerShortcut(packet@),
        }
    }
}

impl Clone for DroneEvent {
    fn clone(&self) -> (res: Self)
        ensures
            res@ == self@,
    {
        match self {
            DroneEvent::PacketSent(packet) => DroneEvent::PacketSent(packet.clone()),
            DroneEvent::PacketDropped(packet) => DroneEvent::PacketDropped(packet.clone()),
            DroneEvent::ControllerShortcut(packet) => DroneEvent::ControllerShortcut(
                packet.clone(),
            ),
        }
    }
}

/// What the controller tells the node. `C` is the channel on which packets
/// are sent to a neighbour; the node stores it and never looks inside.
#[derive(Debug)]
pub enum DroneCommand<C> {
    /// Adds a neighbour, or replaces the channel of one.
    AddSender(NodeId, C),
    /// Removes a neighbour.
    RemoveSender(NodeId),
    /// Replaces the drop rate.
    SetPacketDropRate(DropRate),
    /// Ends normal operation: from now on the node only drains its inbox.
    Crash,
}

/// A [`DroneCommand`] without the channel it carries.
pub enum CommandView {
    AddSender(NodeId),
    RemoveSender(NodeId),
    SetPacketDropRate(DropRate),
    Crash,
}

impl<C> View for DroneCommand<C> {
    type V = CommandView;

    open spec fn view(&self) -> CommandView {
        match self {
            DroneCommand::AddSender(id, _) => CommandView::AddSender(*id),
            DroneCommand::RemoveSender(id) => CommandView::RemoveSender(*id),
            DroneCommand::SetPacketDropRate(pdr) => CommandView::SetPacketDropRate(*pdr),
            DroneCommand::Crash => CommandView::Crash,
        }
    }
}

/// What the node asks for. The actions are carried out in order; after each
/// [`Action::Forward`] the node is told how the send went, and what it asks
/// for then is carried out before the next action.
#[derive(Debug, PartialEq, Eq, Hash)]
pub enum Action {
    /// Send `packet` on the channel of the neighbour `to`.
    Forward { to: NodeId, packet: Packet },
    /// Send the event to the controller.
    Notify(DroneEvent),
}

/// Mathematical view of an [`Action`].
pub enum ActionView {
    Forward { to: NodeId, packet: PacketView },
    Notify(DroneEventView),
}

impl View for Action {
    type V = ActionView;

    open spec fn view(&self) -> ActionView {
        match self {
            Action::Forward { to, packet } => ActionView::Forward { to: *to, packet: packet@ },
            Action::Notify(event) => ActionView::Notify(event@),
        }
    }
}

/// The views of a list of actions, in order.
pub open spec fn action_views(actions: Seq<Action>) -> Seq<ActionView> {
    Seq::new(actions.len(), |i: int| actions[i]@)
}

/// What is handed to the node: a message from one of its two inboxes, or the
/// news that one of them is closed for good.
#[derive(Debug)]
pub enum Input<C> {
    Command(DroneCommand<C>),
    Packet(Packet),
    /// The controller has hung up.
    CommandsClosed,
    /// Every sender of packets has hung up.
    PacketsClosed,
}

/// Mathematical view of an [`Input`].
pub enum InputView {
    Command(CommandView),
    Packet(PacketView),
    CommandsClosed,
    PacketsClosed,
}

impl<C> View for Input<C> {
    type V = InputView;

    open spec fn view(&self) -> InputView {
        match self {
            Input::Command(command) => InputView::Command(command@),
            Input::Packet(packet) => InputView::Packet(packet@),
            Input::CommandsClosed => InputView::CommandsClosed,
            Input::PacketsClosed => InputView::PacketsClosed,
        }
    }
}

/// What the node answers to an [`Input`].
#[derive(Debug, PartialEq, Eq)]
pub struct Reaction {
    /// What the node asks for, in order.
    pub actions: Vec<Action>,
    /// Whether the node goes on.
    pub proceed: bool,
}

} // verus!

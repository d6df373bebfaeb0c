//! Carrying out what the node asks for, on the channels of the mesh.
use crate::controller::{
    action_views, Action, ActionView, DroneEvent, DroneEventView, Input, InputView,
};
use crate::flypath::{table_after, FlyPath};
use crate::lottery::{draw_pick, draw_ticket, LOTTERY_TICKETS};
use crate::model::NodeModel;
use crate::modes::FlyPathModes;
use crate::network::{NodeId, Packet, PacketView};
use crossbeam_channel::Sender;
use vstd::prelude::*;

verus! {

/// The sending side of a channel of `crossbeam_channel`. Nothing is known of
/// what is inside.
#[verifier::external_type_specification]
#[verifier::external_body]
#[verifier::reject_recursive_types(T)]
pub struct ExSender<T>(Sender<T>);

/// Calls `crossbeam_channel::Sender::send`, which waits while a bounded
/// channel is full and fails once every receiver of the channel is gone. The
/// result says whether the channel took the message; nothing is claimed of
/// it, for it depends on what the other side does.
#[verifier::external_body]
fn send_on<T>(sender: &Sender<T>, message: T) -> (delivered: bool) {
    sender.send(message).is_ok()
}

/// One send on a channel, and whether the channel took what was sent.
pub enum Effect {
    /// A packet was sent on the channel of the neighbour `to`.
    Sent { to: NodeId, packet: PacketView, delivered: bool },
    /// An event was sent on the channel of the controller.
    Reported { event: DroneEventView, delivered: bool },
}

impl Effect {
    /// Whether the channel took what was sent.
    pub open spec fn delivered(self) -> bool {
        match self {
            Effect::Sent { delivered, .. } => delivered,
            Effect::Reported { delivered, .. } => delivered,
        }
    }
}

/// What the channels answered to a list of sends, in order.
pub open spec fn answers_of(effects: Seq<Effect>) -> Seq<bool> {
    Seq::new(effects.len(), |i: int| effects[i].delivered())
}

/// How carrying out a list of actions went.
pub struct Run {
    /// The state of the node at the end.
    pub node: NodeModel,
    /// The sends that were made, in order.
    pub effects: Seq<Effect>,
    /// Whether the controller took every event. If not, the node must not go
    /// on, and the sends end with the one that failed.
    pub reached: bool,
}

/// How many sends of packets an action can lead to, one after the other: a
/// fragment that cannot be sent is answered by a negative acknowledgement,
/// which is sent in its turn.
pub open spec fn action_rank(action: ActionView) -> nat {
    match action {
        ActionView::Forward { packet, .. } => if packet.pack_type is MsgFragment {
            2
        } else {
            1
        },
        ActionView::Notify(_) => 0,
    }
}

/// The greatest rank among `actions`.
pub open spec fn rank(actions: Seq<ActionView>) -> nat
    decreases actions.len(),
{
    if actions.len() == 0 {
        0
    } else if action_rank(actions[0]) >= rank(actions.drop_first()) {
        action_rank(actions[0])
    } else {
        rank(actions.drop_first())
    }
}

/// What the node asks for after a send has a lower rank than the send.
pub proof fn lemma_after_send_ranks_lower(
    node: NodeModel,
    to: NodeId,
    packet: PacketView,
    delivered: bool,
)
    ensures
        rank(node.after_send(to, packet, delivered).1) < action_rank(
            ActionView::Forward { to, packet },
        ),
{
    let asked = node.after_send(to, packet, delivered).1;
    reveal_with_fuel(rank, 3);
    if asked.len() == 2 {
        assert(asked.drop_first().len() == 1);
        assert(asked.drop_first().drop_first().len() == 0);
    } else if asked.len() == 1 {
        assert(asked.drop_first().len() == 0);
    }
}

/// The first answer, where a missing answer counts as a refusal.
pub open spec fn first_answer(answers: Seq<bool>) -> bool {
    answers.len() > 0 && answers[0]
}

/// The answers that are left once `used` of them have been taken.
pub open spec fn answers_after(answers: Seq<bool>, used: nat) -> Seq<bool> {
    if used <= answers.len() {
        answers.skip(used as int)
    } else {
        Seq::empty()
    }
}

/// How reporting `event` to the controller goes when the channels give
/// `answers`: in a themed mode the comment on which `pick` falls is sent
/// first, and the event only if the controller took the comment.
pub open spec fn reported(
    node: NodeModel,
    event: DroneEventView,
    answers: Seq<bool>,
    pick: nat,
) -> Run {
    match node.comment_on_event(event, pick) {
        Some(comment) => {
            let said = Effect::Reported { event: comment, delivered: first_answer(answers) };
            let told = Effect::Reported {
                event,
                delivered: first_answer(answers_after(answers, 1)),
            };
            if said.delivered() {
                Run { node, effects: seq![said, told], reached: told.delivered() }
            } else {
                Run { node, effects: seq![said], reached: false }
            }
        },
        None => {
            let told = Effect::Reported { event, delivered: first_answer(answers) };
            Run { node, effects: seq![told], reached: told.delivered() }
        },
    }
}

/// How carrying out one action goes, with all that follows from it, when
/// the channels give `answers`, one for each send, and `pick` chooses the
/// comments of a themed mode. A packet for a node that is no neighbour is
/// not sent and counts as not delivered. After a packet the node is told how
/// the send went, and what it asks for then is carried out at once.
pub open spec fn head_run(node: NodeModel, action: ActionView, answers: Seq<bool>, pick: nat) -> Run
    decreases action_rank(action), 0nat,
{
    match action {
        ActionView::Notify(event) => reported(node, event, answers, pick),
        ActionView::Forward { to, packet } => {
            let sent = node.neighbors.contains(to);
            let delivered = sent && first_answer(answers);
            let tried = if sent {
                seq![Effect::Sent { to, packet, delivered }]
            } else {
                Seq::empty()
            };
            let (told, more) = node.after_send(to, packet, delivered);
            proof {
                lemma_after_send_ranks_lower(node, to, packet, delivered);
            }
            let follow = carried_out(told, more, answers_after(answers, tried.len()), pick);
            Run { node: follow.node, effects: tried + follow.effects, reached: follow.reached }
        },
    }
}

/// How carrying out `actions` goes when the channels give `answers`, one for
/// each send, and `pick` chooses the comments of a themed mode. The actions
/// are taken in order, each with all that follows from it. Once the
/// controller has refused an event, nothing more is done.
pub open spec fn carried_out(
    node: NodeModel,
    actions: Seq<ActionView>,
    answers: Seq<bool>,
    pick: nat,
) -> Run
    decreases rank(actions), actions.len() + 1,
{
    if actions.len() == 0 {
        Run { node, effects: Seq::empty(), reached: true }
    } else {
        let first = head_run(node, actions[0], answers, pick);
        if first.reached {
            let others = carried_out(
                first.node,
                actions.drop_first(),
                answers_after(answers, first.effects.len()),
                pick,
            );
            Run {
                node: others.node,
                effects: first.effects + others.effects,
                reached: others.reached,
            }
        } else {
            first
        }
    }
}

/// Carrying out a single action is carrying it out with all that follows
/// from it.
pub proof fn lemma_carried_out_alone(
    node: NodeModel,
    action: ActionView,
    answers: Seq<bool>,
    pick: nat,
)
    ensures
        carried_out(node, seq![action], answers, pick) == head_run(node, action, answers, pick),
{
    let first = head_run(node, action, answers, pick);
    assert(seq![action].drop_first() =~= Seq::<ActionView>::empty());
    assert(first.effects + Seq::<Effect>::empty() =~= first.effects);
    reveal_with_fuel(carried_out, 2);
}

/// One action with what follows, and then the others: the sends and the
/// answers of both in a row.
proof fn lemma_first_then_others(
    start: NodeModel,
    asked: Seq<ActionView>,
    pick: nat,
    first: Run,
    others: Run,
)
    requires
        asked.len() > 0,
        first.reached,
        forall|later: Seq<bool>|
            #[trigger] head_run(start, asked[0], answers_of(first.effects) + later, pick) == first,
        forall|later: Seq<bool>|
            #[trigger] carried_out(
                first.node,
                asked.drop_first(),
                answers_of(others.effects) + later,
                pick,
            ) == others,
    ensures
        forall|later: Seq<bool>|
            #[trigger] carried_out(
                start,
                asked,
                answers_of(first.effects + others.effects) + later,
                pick,
            ) == (Run {
                node: others.node,
                effects: first.effects + others.effects,
                reached: others.reached,
            }),
{
    assert forall|later: Seq<bool>|
        #[trigger] carried_out(
            start,
            asked,
            answers_of(first.effects + others.effects) + later,
            pick,
        ) == (Run {
            node: others.node,
            effects: first.effects + others.effects,
            reached: others.reached,
        }) by {
        let answers = answers_of(first.effects + others.effects) + later;
        let left = answers_of(others.effects) + later;
        assert(answers =~= answers_of(first.effects) + left);
        assert(head_run(start, asked[0], answers_of(first.effects) + left, pick) == first);
        assert(answers_after(answers, first.effects.len()) =~= left);
        assert(carried_out(first.node, asked.drop_first(), left, pick) == others);
    }
}

/// One action with what follows, when the controller refuses an event:
/// nothing comes after it.
proof fn lemma_first_and_no_more(start: NodeModel, asked: Seq<ActionView>, pick: nat, first: Run)
    requires
        asked.len() > 0,
        !first.reached,
        forall|later: Seq<bool>|
            #[trigger] head_run(start, asked[0], answers_of(first.effects) + later, pick) == first,
    ensures
        forall|later: Seq<bool>|
            #[trigger] carried_out(start, asked, answers_of(first.effects) + later, pick) == first,
{
    assert forall|later: Seq<bool>|
        #[trigger] carried_out(start, asked, answers_of(first.effects) + later, pick) == first by {
        assert(head_run(start, asked[0], answers_of(first.effects) + later, pick) == first);
    }
}

/// A packet that was sent or not, and then what the node asks for after the
/// send: the sends and the answers of both in a row.
proof fn lemma_send_then_follow(
    start: NodeModel,
    to: NodeId,
    packet: PacketView,
    delivered: bool,
    tried: Seq<Effect>,
    pick: nat,
    follow: Run,
)
    requires
        delivered ==> start.neighbors.contains(to),
        tried == if start.neighbors.contains(to) {
            seq![Effect::Sent { to, packet, delivered }]
        } else {
            Seq::empty()
        },
        forall|later: Seq<bool>|
            #[trigger] carried_out(
                start.after_send(to, packet, delivered).0,
                start.after_send(to, packet, delivered).1,
                answers_of(follow.effects) + later,
                pick,
            ) == follow,
    ensures
        forall|later: Seq<bool>|
            #[trigger] head_run(
                start,
                ActionView::Forward { to, packet },
                answers_of(tried + follow.effects) + later,
                pick,
            ) == (Run {
                node: follow.node,
                effects: tried + follow.effects,
                reached: follow.reached,
            }),
{
    let action = ActionView::Forward { to, packet };
    assert forall|later: Seq<bool>|
        #[trigger] head_run(start, action, answers_of(tried + follow.effects) + later, pick) == (Run {
            node: follow.node,
            effects: tried + follow.effects,
            reached: follow.reached,
        }) by {
        let answers = answers_of(tried + follow.effects) + later;
        let left = answers_of(follow.effects) + later;
        if start.neighbors.contains(to) {
            assert(answers[0] == delivered);
            assert(answers_after(answers, 1) =~= left);
        } else {
            assert(tried + follow.effects =~= follow.effects);
            assert(answers_after(answers, 0) =~= left);
        }
        assert(carried_out(
            start.after_send(to, packet, delivered).0,
            start.after_send(to, packet, delivered).1,
            left,
            pick,
        ) == follow);
    }
}

/// Whether the table `after` holds nothing but entries of `before`.
pub open spec fn has_lost_entries_only<C>(after: Map<NodeId, C>, before: Map<NodeId, C>) -> bool {
    forall|id: NodeId| #[trigger]
        after.contains_key(id) ==> before.contains_key(id) && after[id] == before[id]
}

/// How a turn of the node's loop ends.
#[derive(Debug, Clone, Copy, PartialEq, Eq, Structural, Hash)]
pub enum Outcome {
    /// The node goes on.
    Proceed,
    /// The node has come to its end.
    Stop,
    /// The controller cannot be reached: the node must not go on.
    ControllerLost,
}

/// How a turn of the node's loop went.
pub struct Turned {
    /// The state of the node at the end.
    pub node: NodeModel,
    /// The sends that were made, in order.
    pub effects: Seq<Effect>,
    pub outcome: Outcome,
}

/// How a turn of the node's loop goes when a packet draws `ticket` in the
/// drop lottery, `pick` chooses the comments of a themed mode, and the
/// channels give `answers`, one for each send. A running node in a themed
/// mode comments on a command before it carries it out, and does not carry
/// it out if the controller refuses the comment. What the node asks for
/// after a packet is carried out as [`carried_out`] says. The turn is the
/// last if the controller cannot be reached or the node has come to its end.
pub open spec fn turned(
    node: NodeModel,
    input: InputView,
    ticket: u32,
    pick: nat,
    answers: Seq<bool>,
) -> Turned {
    match input {
        InputView::Command(command) => {
            let comment = if node.state is Running {
                node.comment_on_command(command, pick)
            } else {
                None
            };
            match comment {
                Some(comment) => {
                    let taken = first_answer(answers);
                    Turned {
                        node: if taken {
                            node.commanded(command)
                        } else {
                            node
                        },
                        effects: seq![Effect::Reported { event: comment, delivered: taken }],
                        outcome: if !taken {
                            Outcome::ControllerLost
                        } else if node.commanded(command).is_over() {
                            Outcome::Stop
                        } else {
                            Outcome::Proceed
                        },
                    }
                },
                None => Turned {
                    node: node.commanded(command),
                    effects: Seq::empty(),
                    outcome: if node.commanded(command).is_over() {
                        Outcome::Stop
                    } else {
                        Outcome::Proceed
                    },
                },
            }
        },
        _ => {
            let (next, actions, proceed) = node.step(input, ticket);
            let run = carried_out(next, actions, answers, pick);
            Turned {
                node: run.node,
                effects: run.effects,
                outcome: if !run.reached {
                    Outcome::ControllerLost
                } else if proceed {
                    Outcome::Proceed
                } else {
                    Outcome::Stop
                },
            }
        },
    }
}

/// Whether `run` is how carrying out `actions` goes when the channels
/// answer as `run` records, whatever they would have answered to more sends.
pub open spec fn is_run(node: NodeModel, actions: Seq<ActionView>, pick: nat, run: Run) -> bool {
    forall|later: Seq<bool>|
        #[trigger] carried_out(node, actions, answers_of(run.effects) + later, pick) == run
}

/// Whether `turn` is how a turn of the node's loop goes when the channels
/// answer as `turn` records, whatever they would have answered to more sends.
pub open spec fn is_turn(
    node: NodeModel,
    input: InputView,
    ticket: u32,
    pick: nat,
    turn: Turned,
) -> bool {
    forall|later: Seq<bool>|
        #[trigger] turned(node, input, ticket, pick, answers_of(turn.effects) + later) == turn
}

/// How carrying out a list of actions went.
pub struct Performance {
    /// Whether the controller took every event. If not, the node must not go
    /// on.
    pub reached: bool,
    /// The sends that were made, in order.
    pub effects: Ghost<Seq<Effect>>,
}

impl Performance {
    /// The run that ended in the state `node`.
    pub open spec fn run(self, node: NodeModel) -> Run {
        Run { node, effects: self.effects@, reached: self.reached }
    }
}

/// How a turn of the node's loop went.
pub struct Turn {
    pub outcome: Outcome,
    /// The sends that were made, in order.
    pub effects: Ghost<Seq<Effect>>,
}

impl Turn {
    /// The turn that ended in the state `node`.
    pub open spec fn turned(self, node: NodeModel) -> Turned {
        Turned { node, effects: self.effects@, outcome: self.outcome }
    }
}

impl<P> FlyPath<Sender<P>> {
    /// A number with which to choose the comments of a turn: drawn at random
    /// in a themed mode, and zero in the default mode, which has no comments
    /// to choose from.
    fn pick_for_comments(&self) -> (pick: usize)
        ensures
            self.mode is Default ==> pick == 0,
            pick < usize::MAX,
    {
        match self.mode {
            FlyPathModes::Default => 0,
            _ => draw_pick(),
        }
    }

    /// How a turn ends in which a command was carried out.
    fn outcome_of_command(&self) -> (outcome: Outcome)
        ensures
            outcome == if self@.is_over() {
                Outcome::Stop
            } else {
                Outcome::Proceed
            },
    {
        if self.is_over() {
            Outcome::Stop
        } else {
            Outcome::Proceed
        }
    }

    /// Reports `event` on `controller_send`, in the form that `event_to_wire`
    /// gives it; in a themed mode the comment on which `pick` falls goes
    /// first.
    fn report<E, G: Fn(DroneEvent) -> E>(
        &self,
        event: DroneEvent,
        pick: usize,
        controller_send: &Sender<E>,
        event_to_wire: &G,
    ) -> (done: Performance)
        requires
            forall|event: DroneEvent| call_requires(*event_to_wire, (event,)),
        ensures
            forall|later: Seq<bool>|
                #[trigger] reported(
                    self@,
                    event@,
                    answers_of(done.effects@) + later,
                    pick as nat,
                ) == done.run(self@),
    {
        let ghost mut effects: Seq<Effect> = Seq::empty();
        match self.event_comment_at(&event, pick) {
            Some(comment) => {
                let ghost said = comment@;
                let taken = send_on(controller_send, event_to_wire(comment));
                proof {
                    effects = effects.push(Effect::Reported { event: said, delivered: taken });
                }
                if !taken {
                    proof {
                        assert forall|later: Seq<bool>|
                            #[trigger] reported(
                                self@,
                                event@,
                                answers_of(effects) + later,
                                pick as nat,
                            ) == (Run { node: self@, effects, reached: false }) by {
                            let answers = answers_of(effects) + later;
                            assert(answers[0] == taken);
                            assert(reported(self@, event@, answers, pick as nat).effects
                                =~= effects);
                        }
                    }
                    return Performance { reached: false, effects: Ghost(effects) };
                }
            },
            None => {},
        }
        let ghost told = event@;
        let ghost before = effects;
        let taken = send_on(controller_send, event_to_wire(event));
        proof {
            effects = effects.push(Effect::Reported { event: told, delivered: taken });
            assert forall|later: Seq<bool>|
                #[trigger] reported(self@, told, answers_of(effects) + later, pick as nat) == (Run {
                    node: self@,
                    effects,
                    reached: taken,
                }) by {
                let answers = answers_of(effects) + later;
                assert(answers[0] == effects[0].delivered());
                if before.len() == 1 {
                    assert(answers_after(answers, 1)[0] == taken);
                }
                assert(reported(self@, told, answers, pick as nat).effects =~= effects);
            }
        }
        Performance { reached: taken, effects: Ghost(effects) }
    }

    /// Carries out one action, with all that follows from it.
    fn perform_one<E, F: Fn(Packet) -> P, G: Fn(DroneEvent) -> E>(
        &mut self,
        action: Action,
        pick: usize,
        controller_send: &Sender<E>,
        packet_to_wire: &F,
        event_to_wire: &G,
    ) -> (done: Performance)
        requires
            forall|packet: Packet| call_requires(*packet_to_wire, (packet,)),
            forall|event: DroneEvent| call_requires(*event_to_wire, (event,)),
        ensures
            forall|later: Seq<bool>|
                #[trigger] head_run(
                    old(self)@,
                    action@,
                    answers_of(done.effects@) + later,
                    pick as nat,
                ) == done.run(final(self)@),
            has_lost_entries_only(final(self).packet_send@, old(self).packet_send@),
        decreases action_rank(action@), 0nat,
    {
        broadcast use vstd::std_specs::hash::group_hash_axioms;

        match action {
            Action::Notify(event) => {
                let ghost told = event@;
                let done = self.report(event, pick, controller_send, event_to_wire);
                proof {
                    assert forall|later: Seq<bool>|
                        #[trigger] head_run(
                            self@,
                            ActionView::Notify(told),
                            answers_of(done.effects@) + later,
                            pick as nat,
                        ) == done.run(self@) by {
                        assert(reported(
                            self@,
                            told,
                            answers_of(done.effects@) + later,
                            pick as nat,
                        ) == done.run(self@));
                    }
                }
                done
            },
            Action::Forward { to, packet } => {
                let ghost offered = packet@;
                let (sent, delivered) = match self.packet_send.get(&to) {
                    Some(sender) => (true, send_on(sender, packet_to_wire(packet.clone()))),
                    None => (false, false),
                };
                let ghost tried = if sent {
                    seq![Effect::Sent { to, packet: offered, delivered }]
                } else {
                    Seq::empty()
                };
                proof {
                    lemma_after_send_ranks_lower(old(self)@, to, offered, delivered);
                }
                let more = self.after_send(to, packet, delivered);
                let ghost table = self.packet_send@;
                let follow = self.perform_with_pick(
                    more,
                    pick,
                    controller_send,
                    packet_to_wire,
                    event_to_wire,
                );
                proof {
                    assert(has_lost_entries_only(table, old(self).packet_send@));
                    lemma_send_then_follow(
                        old(self)@,
                        to,
                        offered,
                        delivered,
                        tried,
                        pick as nat,
                        follow.run(self@),
                    );
                }
                Performance { reached: follow.reached, effects: Ghost(tried + follow.effects@) }
            },
        }
    }

    /// Carries out `actions` in order, where `pick` chooses the comments of
    /// a themed mode: packets go onto the channels of the neighbours, events
    /// onto `controller_send`, each in the form that `packet_to_wire` and
    /// `event_to_wire` give it. After each send of a packet the node is told
    /// how it went, and what it asks for then is carried out before the next
    /// action.
    ///
    /// The result says whether the controller took every event: as soon as it
    /// does not, nothing more is done, and the node must not go on. It also
    /// holds, for the proof, the sends that were made. They, and the state of
    /// the node at the end, are what [`carried_out`] says for the answers
    /// that the channels gave.
    pub fn perform_with_pick<E, F: Fn(Packet) -> P, G: Fn(DroneEvent) -> E>(
        &mut self,
        actions: Vec<Action>,
        pick: usize,
        controller_send: &Sender<E>,
        packet_to_wire: &F,
        event_to_wire: &G,
    ) -> (done: Performance)
        requires
            forall|packet: Packet| call_requires(*packet_to_wire, (packet,)),
            forall|event: DroneEvent| call_requires(*event_to_wire, (event,)),
        ensures
            is_run(old(self)@, action_views(actions@), pick as nat, done.run(final(self)@)),
            has_lost_entries_only(final(self).packet_send@, old(self).packet_send@),
        decreases rank(action_views(actions@)), actions@.len() + 1,
    {
        let ghost asked = action_views(actions@);
        if actions.len() == 0 {
            return Performance { reached: true, effects: Ghost(Seq::empty()) };
        }
        let mut rest = actions;
        let action = rest.remove(0);
        proof {
            assert(action_views(rest@) =~= asked.drop_first());
            assert(asked[0] == action@);
        }
        let first = self.perform_one(action, pick, controller_send, packet_to_wire, event_to_wire);
        let ghost between = self@;
        let ghost table = self.packet_send@;
        if !first.reached {
            proof {
                lemma_first_and_no_more(old(self)@, asked, pick as nat, first.run(between));
            }
            return first;
        }
        let others = self.perform_with_pick(
            rest,
            pick,
            controller_send,
            packet_to_wire,
            event_to_wire,
        );
        proof {
            assert(has_lost_entries_only(table, old(self).packet_send@));
            lemma_first_then_others(
                old(self)@,
                asked,
                pick as nat,
                first.run(between),
                others.run(self@),
            );
        }
        Performance { reached: others.reached, effects: Ghost(first.effects@ + others.effects@) }
    }

    /// Carries out `actions` as [`Self::perform_with_pick`] does, with the
    /// comments of a themed mode chosen at random.
    pub fn perform<E, F: Fn(Packet) -> P, G: Fn(DroneEvent) -> E>(
        &mut self,
        actions: Vec<Action>,
        controller_send: &Sender<E>,
        packet_to_wire: &F,
        event_to_wire: &G,
    ) -> (done: Performance)
        requires
            forall|packet: Packet| call_requires(*packet_to_wire, (packet,)),
            forall|event: DroneEvent| call_requires(*event_to_wire, (event,)),
        ensures
            exists|pick: nat| #[trigger]
                is_run(old(self)@, action_views(actions@), pick, done.run(final(self)@)),
            has_lost_entries_only(final(self).packet_send@, old(self).packet_send@),
    {
        let pick = self.pick_for_comments();
        let done = self.perform_with_pick(
            actions,
            pick,
            controller_send,
            packet_to_wire,
            event_to_wire,
        );
        proof {
            assert(is_run(old(self)@, action_views(actions@), pick as nat, done.run(self@)));
        }
        done
    }

    /// One turn of the node's loop, from the input to the last send, where a
    /// packet draws `ticket` in the drop lottery and `pick` chooses the
    /// comments of a themed mode. Packets go onto the channels of the
    /// neighbours, events onto `controller_send`, each in the form that
    /// `packet_to_wire` and `event_to_wire` give it.
    ///
    /// The result says how the turn ended. It also holds, for the proof, the
    /// sends that were made. They, and the state of the node at the end, are
    /// what [`turned`] says for the answers that the channels gave.
    pub fn turn_with<E, F: Fn(Packet) -> P, G: Fn(DroneEvent) -> E>(
        &mut self,
        input: Input<Sender<P>>,
        ticket: u32,
        pick: usize,
        controller_send: &Sender<E>,
        packet_to_wire: &F,
        event_to_wire: &G,
    ) -> (done: Turn)
        requires
            forall|packet: Packet| call_requires(*packet_to_wire, (packet,)),
            forall|event: DroneEvent| call_requires(*event_to_wire, (event,)),
        ensures
            is_turn(old(self)@, input@, ticket, pick as nat, done.turned(final(self)@)),
            match input {
                Input::Command(command) => final(self).packet_send@ == if done.outcome
                    is ControllerLost {
                    old(self).packet_send@
                } else {
                    table_after(old(self).packet_send@, old(self).state, command)
                },
                _ => has_lost_entries_only(final(self).packet_send@, old(self).packet_send@),
            },
    {
        let ghost offered = input@;
        match input {
            Input::Command(command) => {
                let comment = if self.takes_commands() {
                    self.command_comment_at(&command, pick)
                } else {
                    None
                };
                match comment {
                    Some(comment) => {
                        let ghost said = comment@;
                        let taken = send_on(controller_send, event_to_wire(comment));
                        let ghost effects = seq![Effect::Reported { event: said, delivered: taken }];
                        proof {
                            assert forall|later: Seq<bool>|
                                (#[trigger] turned(
                                    old(self)@,
                                    offered,
                                    ticket,
                                    pick as nat,
                                    answers_of(effects) + later,
                                )).effects =~= effects by {
                                assert((answers_of(effects) + later)[0] == taken);
                            }
                        }
                        if taken {
                            self.take_command(command);
                            Turn { outcome: self.outcome_of_command(), effects: Ghost(effects) }
                        } else {
                            Turn { outcome: Outcome::ControllerLost, effects: Ghost(effects) }
                        }
                    },
                    None => {
                        self.take_command(command);
                        Turn { outcome: self.outcome_of_command(), effects: Ghost(Seq::empty()) }
                    },
                }
            },
            _ => {
                let reaction = self.step_with_ticket(input, ticket);
                let done = self.perform_with_pick(
                    reaction.actions,
                    pick,
                    controller_send,
                    packet_to_wire,
                    event_to_wire,
                );
                let outcome = if !done.reached {
                    Outcome::ControllerLost
                } else if reaction.proceed {
                    Outcome::Proceed
                } else {
                    Outcome::Stop
                };
                Turn { outcome, effects: done.effects }
            },
        }
    }

    /// One turn of the node's loop as [`Self::turn_with`] takes it, with a
    /// ticket that the node draws in the drop lottery and comments chosen at
    /// random.
    pub fn turn<E, F: Fn(Packet) -> P, G: Fn(DroneEvent) -> E>(
        &mut self,
        input: Input<Sender<P>>,
        controller_send: &Sender<E>,
        packet_to_wire: &F,
        event_to_wire: &G,
    ) -> (done: Turn)
        requires
            forall|packet: Packet| call_requires(*packet_to_wire, (packet,)),
            forall|event: DroneEvent| call_requires(*event_to_wire, (event,)),
        ensures
            exists|ticket: u32, pick: nat|
                ticket < LOTTERY_TICKETS && #[trigger] is_turn(
                    old(self)@,
                    input@,
                    ticket,
                    pick,
                    done.turned(final(self)@),
                ),
            match input {
                Input::Command(command) => final(self).packet_send@ == if done.outcome
                    is ControllerLost {
                    old(self).packet_send@
                } else {
                    table_after(old(self).packet_send@, old(self).state, command)
                },
                _ => has_lost_entries_only(final(self).packet_send@, old(self).packet_send@),
            },
    {
        let ticket = match &input {
            Input::Packet(_) => draw_ticket(),
            _ => 0,
        };
        let pick = self.pick_for_comments();
        let done = self.turn_with(
            input,
            ticket,
            pick,
            controller_send,
            packet_to_wire,
            event_to_wire,
        );
        proof {
            assert(is_turn(old(self)@, input@, ticket, pick as nat, done.turned(self@)));
        }
        done
    }
}

} // verus!

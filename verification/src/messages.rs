//! The messages with which a node in a themed mode comments on what it
//! does, and the events that carry them to the controller.
use crate::controller::{CommandView, DroneCommand, DroneEvent, DroneEventView};
use crate::lottery::random_below;
use crate::modes::FlyPathModes;
use crate::network::{
    pad, padded, Fragment, FragmentView, NodeId, Packet, PacketType, PacketTypeView, PacketView,
    Route, SourceRoutingHeader, FRAGMENT_DSIZE,
};
use vstd::prelude::*;
use vstd::utf8::{decode_utf8, encode_utf8, valid_utf8};

verus! {

/// The messages for one event or command.
#[derive(Debug, PartialEq, Eq)]
pub struct EventMessages {
    /// The name of the event or command.
    pub event: String,
    pub messages: Vec<String>,
}

/// The messages of one theme.
#[derive(Debug, PartialEq, Eq)]
pub struct ThemeMessages {
    /// The name of the theme.
    pub theme: String,
    pub events: Vec<EventMessages>,
}

/// All messages a node can send: those of the spicy mode, by theme and by
/// event or command, and those of the mode of a node gone mad, by event or
/// command. Names are case-sensitive. Where a name occurs twice in a list,
/// the first entry counts.
#[derive(Debug, PartialEq, Eq)]
pub struct Messages {
    pub spicy: Vec<ThemeMessages>,
    pub brainrot: Vec<EventMessages>,
}

/// The texts of a list of strings.
pub open spec fn texts(messages: Seq<String>) -> Seq<Seq<char>> {
    Seq::new(messages.len(), |i: int| messages[i]@)
}

/// The first entry for the event or command `name`.
pub open spec fn find_event(events: Seq<EventMessages>, name: Seq<char>) -> Option<EventMessages>
    decreases events.len(),
{
    if events.len() == 0 {
        None
    } else if events[0].event@ == name {
        Some(events[0])
    } else {
        find_event(events.drop_first(), name)
    }
}

/// The first entry for the theme `name`.
pub open spec fn find_theme(themes: Seq<ThemeMessages>, name: Seq<char>) -> Option<ThemeMessages>
    decreases themes.len(),
{
    if themes.len() == 0 {
        None
    } else if themes[0].theme@ == name {
        Some(themes[0])
    } else {
        find_theme(themes.drop_first(), name)
    }
}

/// The texts of the entry for `name`, if there is an entry and it holds a
/// message.
pub open spec fn event_texts(events: Seq<EventMessages>, name: Seq<char>) -> Option<
    Seq<Seq<char>>,
> {
    match find_event(events, name) {
        Some(entry) => if entry.messages@.len() > 0 {
            Some(texts(entry.messages@))
        } else {
            None
        },
        None => None,
    }
}

/// Whether no event or command is named twice among the entries.
pub open spec fn events_named_once(events: Seq<EventMessages>) -> bool {
    forall|i: int, j: int|
        0 <= i < j < events.len() ==> (#[trigger] events[i]).event@ != (#[trigger] events[j]).event@
}

/// Whether no theme is named twice among the entries.
pub open spec fn themes_named_once(themes: Seq<ThemeMessages>) -> bool {
    forall|i: int, j: int|
        0 <= i < j < themes.len() ==> (#[trigger] themes[i]).theme@ != (#[trigger] themes[j]).theme@
}

/// The entries as a map from the name of an event or command to the texts
/// of its messages.
pub open spec fn event_map(events: Seq<EventMessages>) -> Map<Seq<char>, Seq<Seq<char>>> {
    Map::new(
        |name: Seq<char>|
            exists|i: int| 0 <= i < events.len() && (#[trigger] events[i]).event@ == name,
        |name: Seq<char>|
            texts(
                events[choose|i: int|
                    0 <= i < events.len() && (#[trigger] events[i]).event@ == name].messages@,
            ),
    )
}

/// The entries as a map from the name of a theme to the map of its events
/// and commands.
pub open spec fn theme_map(themes: Seq<ThemeMessages>) -> Map<
    Seq<char>,
    Map<Seq<char>, Seq<Seq<char>>>,
> {
    Map::new(
        |name: Seq<char>|
            exists|i: int| 0 <= i < themes.len() && (#[trigger] themes[i]).theme@ == name,
        |name: Seq<char>|
            event_map(
                themes[choose|i: int|
                    0 <= i < themes.len() && (#[trigger] themes[i]).theme@ == name].events@,
            ),
    )
}

/// What a map of events and commands holds under `name`, if it holds a
/// message there.
pub open spec fn texts_under(map: Map<Seq<char>, Seq<Seq<char>>>, name: Seq<char>) -> Option<
    Seq<Seq<char>>,
> {
    if map.contains_key(name) && map[name].len() > 0 {
        Some(map[name])
    } else {
        None
    }
}

/// The first entry for a name is an entry with that name, and where there is
/// none, no entry has the name.
pub proof fn lemma_find_event(events: Seq<EventMessages>, name: Seq<char>)
    ensures
        match find_event(events, name) {
            Some(entry) => exists|i: int|
                0 <= i < events.len() && #[trigger] events[i] == entry && entry.event@ == name,
            None => forall|i: int| 0 <= i < events.len() ==> (#[trigger] events[i]).event@ != name,
        },
    decreases events.len(),
{
    if events.len() > 0 && events[0].event@ != name {
        let rest = events.drop_first();
        lemma_find_event(rest, name);
        match find_event(rest, name) {
            Some(entry) => {
                let i = choose|i: int|
                    0 <= i < rest.len() && #[trigger] rest[i] == entry && entry.event@ == name;
                assert(events[i + 1] == entry);
            },
            None => {
                assert forall|i: int| 0 <= i < events.len() implies (#[trigger] events[i]).event@
                    != name by {
                    if i > 0 {
                        assert(rest[i - 1] == events[i]);
                    }
                }
            },
        }
    } else if events.len() > 0 {
        assert(events[0] == events[0]);
    }
}

/// The first entry for a theme is an entry with that name, and where there is
/// none, no entry has the name.
pub proof fn lemma_find_theme(themes: Seq<ThemeMessages>, name: Seq<char>)
    ensures
        match find_theme(themes, name) {
            Some(entry) => exists|i: int|
                0 <= i < themes.len() && #[trigger] themes[i] == entry && entry.theme@ == name,
            None => forall|i: int| 0 <= i < themes.len() ==> (#[trigger] themes[i]).theme@ != name,
        },
    decreases themes.len(),
{
    if themes.len() > 0 && themes[0].theme@ != name {
        let rest = themes.drop_first();
        lemma_find_theme(rest, name);
        match find_theme(rest, name) {
            Some(entry) => {
                let i = choose|i: int|
                    0 <= i < rest.len() && #[trigger] rest[i] == entry && entry.theme@ == name;
                assert(themes[i + 1] == entry);
            },
            None => {
                assert forall|i: int| 0 <= i < themes.len() implies (#[trigger] themes[i]).theme@
                    != name by {
                    if i > 0 {
                        assert(rest[i - 1] == themes[i]);
                    }
                }
            },
        }
    } else if themes.len() > 0 {
        assert(themes[0] == themes[0]);
    }
}

/// Where no name occurs twice, the texts of the first entry for a name are
/// what the map of the entries holds under that name.
pub proof fn lemma_event_texts_are_the_maps(events: Seq<EventMessages>, name: Seq<char>)
    requires
        events_named_once(events),
    ensures
        event_texts(events, name) == texts_under(event_map(events), name),
{
    lemma_find_event(events, name);
    match find_event(events, name) {
        Some(entry) => {
            let first = choose|i: int|
                0 <= i < events.len() && #[trigger] events[i] == entry && entry.event@ == name;
            let chosen = choose|i: int|
                0 <= i < events.len() && (#[trigger] events[i]).event@ == name;
            assert(events[first].event@ == name);
            assert(events[chosen].event@ == name);
            assert(chosen == first);
            assert(texts(entry.messages@).len() == entry.messages@.len());
        },
        None => {},
    }
}

/// What the error says when a message does not fit into a fragment.
pub open spec fn too_long() -> Seq<char> {
    "Failed to generate a message: Too Long"@
}

/// The event that carries `text` from the node `node_id` to the controller.
/// It has the form of a fragment that was sent and is told apart from one by
/// values that no fragment on the mesh has: the greatest session and fragment
/// index, a count of zero fragments, and a route that holds the sender alone
/// with the cursor as far on as it goes. The payload is the text in UTF-8,
/// filled up with zeros.
pub open spec fn flypath_event(text: Seq<char>, node_id: NodeId) -> DroneEventView
    recommends
        encode_utf8(text).len() <= 128,
{
    let bytes = encode_utf8(text);
    DroneEventView::PacketSent(
        PacketView {
            routing_header: Route { hops: seq![node_id], hop_index: usize::MAX as nat },
            session_id: u64::MAX,
            pack_type: PacketTypeView::MsgFragment(
                FragmentView {
                    fragment_index: u64::MAX,
                    total_n_fragments: 0,
                    length: bytes.len() as u8,
                    data: padded(bytes),
                },
            ),
        },
    )
}

/// What `String::from_utf8_lossy` makes of bytes that are not valid UTF-8.
pub uninterp spec fn utf8_lossy(bytes: Seq<u8>) -> Seq<char>;

/// The text that bytes stand for: what they encode if they are valid UTF-8,
/// else what the lossy conversion makes of them.
pub open spec fn lossy_text(bytes: Seq<u8>) -> Seq<char> {
    if valid_utf8(bytes) {
        decode_utf8(bytes)
    } else {
        utf8_lossy(bytes)
    }
}

/// The sender and the text of an event that carries a message, and `None`
/// for any other event: see [`flypath_event`] for the marks of such an event.
pub open spec fn flypath_message(event: DroneEventView) -> Option<(NodeId, Seq<char>)> {
    match event {
        DroneEventView::PacketSent(packet) => match packet.pack_type {
            PacketTypeView::MsgFragment(fragment) => if packet.session_id == u64::MAX
                && packet.routing_header.hop_index == usize::MAX
                && packet.routing_header.hops.len() == 1 && fragment.fragment_index == u64::MAX
                && fragment.total_n_fragments == 0 && fragment.length <= fragment.data.len() {
                Some(
                    (
                        packet.routing_header.hops[0],
                        lossy_text(fragment.data.take(fragment.length as int)),
                    ),
                )
            } else {
                None
            },
            _ => None,
        },
        _ => None,
    }
}

/// The view of an event that may be missing.
pub open spec fn event_view(event: Option<DroneEvent>) -> Option<DroneEventView> {
    match event {
        Some(event) => Some(event@),
        None => None,
    }
}

/// The name under which the messages for an event are filed.
pub open spec fn event_name(event: DroneEventView) -> Seq<char> {
    match event {
        DroneEventView::PacketSent(_) => "PacketSent"@,
        DroneEventView::PacketDropped(_) => "PacketDropped"@,
        DroneEventView::ControllerShortcut(_) => "ControllerShortcut"@,
    }
}

/// The name under which the messages for a command are filed.
pub open spec fn command_name(command: CommandView) -> Seq<char> {
    match command {
        CommandView::AddSender(_) => "AddSender"@,
        CommandView::RemoveSender(_) => "RemoveSender"@,
        CommandView::SetPacketDropRate(_) => "SetPacketDropRate"@,
        CommandView::Crash => "Crash"@,
    }
}

/// A copy of a list of strings.
fn copy_strings(strings: &Vec<String>) -> (res: Vec<String>)
    ensures
        res@ == strings@,
{
    let mut res: Vec<String> = Vec::new();
    let mut i: usize = 0;
    while i < strings.len()
        invariant
            i <= strings.len(),
            res@ == strings@.take(i as int),
        decreases strings.len() - i,
    {
        res.push(strings[i].clone());
        proof {
            assert(strings@.take(i + 1) =~= strings@.take(i as int).push(strings@[i as int]));
        }
        i += 1;
    }
    proof {
        assert(strings@.take(strings.len() as int) =~= strings@);
    }
    res
}

/// The first entry for the event or command `name`.
fn first_event<'a>(events: &'a Vec<EventMessages>, name: &str) -> (res: Option<&'a EventMessages>)
    ensures
        match res {
            Some(entry) => find_event(events@, name@) == Some(*entry),
            None => find_event(events@, name@) is None,
        },
{
    let wanted = name.to_owned();
    let mut i: usize = 0;
    proof {
        assert(events@.skip(0) =~= events@);
    }
    while i < events.len()
        invariant
            i <= events.len(),
            wanted@ == name@,
            find_event(events@, name@) == find_event(events@.skip(i as int), name@),
        decreases events.len() - i,
    {
        proof {
            assert(events@.skip(i as int)[0] == events@[i as int]);
            assert(events@.skip(i as int).drop_first() =~= events@.skip(i + 1));
        }
        if events[i].event == wanted {
            return Some(&events[i]);
        }
        i += 1;
    }
    None
}

/// The first entry for the theme `name`.
fn first_theme<'a>(themes: &'a Vec<ThemeMessages>, name: &str) -> (res: Option<&'a ThemeMessages>)
    ensures
        match res {
            Some(entry) => find_theme(themes@, name@) == Some(*entry),
            None => find_theme(themes@, name@) is None,
        },
{
    let wanted = name.to_owned();
    let mut i: usize = 0;
    proof {
        assert(themes@.skip(0) =~= themes@);
    }
    while i < themes.len()
        invariant
            i <= themes.len(),
            wanted@ == name@,
            find_theme(themes@, name@) == find_theme(themes@.skip(i as int), name@),
        decreases themes.len() - i,
    {
        proof {
            assert(themes@.skip(i as int)[0] == themes@[i as int]);
            assert(themes@.skip(i as int).drop_first() =~= themes@.skip(i + 1));
        }
        if themes[i].theme == wanted {
            return Some(&themes[i]);
        }
        i += 1;
    }
    None
}

/// A copy of the messages of the entry for `name`, if there is an entry and
/// it holds a message.
fn copy_event_messages(events: &Vec<EventMessages>, name: &str) -> (res: Option<Vec<String>>)
    ensures
        match res {
            Some(messages) => messages@.len() > 0 && event_texts(events@, name@) == Some(
                texts(messages@),
            ),
            None => event_texts(events@, name@) is None,
        },
{
    match first_event(events, name) {
        Some(entry) => {
            if entry.messages.len() > 0 {
                Some(copy_strings(&entry.messages))
            } else {
                None
            }
        },
        None => None,
    }
}

impl Messages {
    /// No messages at all.
    pub fn empty() -> (res: Self)
        ensures
            res.spicy@.len() == 0,
            res.brainrot@.len() == 0,
            res.names_once(),
            forall|mode: FlyPathModes, name: Seq<char>| res.messages_for(mode, name) is None,
    {
        Messages { spicy: Vec::new(), brainrot: Vec::new() }
    }

    /// Whether every name stands for one entry, as in a map: no theme is
    /// named twice, and no event or command is named twice in a theme or
    /// among the messages of a node gone mad. Messages that were read from a
    /// file are so.
    pub open spec fn names_once(&self) -> bool {
        &&& themes_named_once(self.spicy@)
        &&& forall|i: int|
            0 <= i < self.spicy@.len() ==> events_named_once((#[trigger] self.spicy@[i]).events@)
        &&& events_named_once(self.brainrot@)
    }

    /// What is found for the event or command `name` in `mode` by looking it
    /// up in the maps of the messages: under the name of the theme and then
    /// under `name` in the spicy mode, under `name` in the mode of a node
    /// gone mad; nothing if there is no such entry or it holds no message.
    pub open spec fn looked_up(&self, mode: FlyPathModes, name: Seq<char>) -> Option<
        Seq<Seq<char>>,
    > {
        match mode {
            FlyPathModes::Default => None,
            FlyPathModes::Spicy(theme) => if theme_map(self.spicy@).contains_key(theme.name()) {
                texts_under(theme_map(self.spicy@)[theme.name()], name)
            } else {
                None
            },
            FlyPathModes::BrainRot => texts_under(event_map(self.brainrot@), name),
        }
    }

    /// Where every name stands for one entry, the messages for an event or
    /// command are what looking it up in the maps finds.
    pub proof fn law_messages_are_looked_up(&self, mode: FlyPathModes, name: Seq<char>)
        requires
            self.names_once(),
        ensures
            self.messages_for(mode, name) == self.looked_up(mode, name),
    {
        match mode {
            FlyPathModes::Default => {},
            FlyPathModes::BrainRot => {
                lemma_event_texts_are_the_maps(self.brainrot@, name);
            },
            FlyPathModes::Spicy(theme) => {
                let themes = self.spicy@;
                lemma_find_theme(themes, theme.name());
                match find_theme(themes, theme.name()) {
                    Some(entry) => {
                        let first = choose|i: int|
                            0 <= i < themes.len() && #[trigger] themes[i] == entry && entry.theme@
                                == theme.name();
                        let chosen = choose|i: int|
                            0 <= i < themes.len() && (#[trigger] themes[i]).theme@ == theme.name();
                        assert(themes[first].theme@ == theme.name());
                        assert(themes[chosen].theme@ == theme.name());
                        assert(chosen == first);
                        lemma_event_texts_are_the_maps(entry.events@, name);
                    },
                    None => {},
                }
            },
        }
    }

    /// The texts of the messages for the event or command `name` in `mode`,
    /// if there are any.
    pub open spec fn messages_for(&self, mode: FlyPathModes, name: Seq<char>) -> Option<
        Seq<Seq<char>>,
    > {
        match mode {
            FlyPathModes::Default => None,
            FlyPathModes::Spicy(theme) => match find_theme(self.spicy@, theme.name()) {
                Some(entry) => event_texts(entry.events@, name),
                None => None,
            },
            FlyPathModes::BrainRot => event_texts(self.brainrot@, name),
        }
    }

    /// A copy of the messages for an event or command in `mode`: `None` if
    /// there are none.
    pub fn get_messages_for_mode(&self, mode: &FlyPathModes, event_or_command: &str) -> (res:
        Option<Vec<String>>)
        ensures
            match res {
                Some(messages) => messages@.len() > 0 && self.messages_for(
                    *mode,
                    event_or_command@,
                ) == Some(texts(messages@)),
                None => self.messages_for(*mode, event_or_command@) is None,
            },
            self.names_once() ==> match res {
                Some(messages) => self.looked_up(*mode, event_or_command@) == Some(
                    texts(messages@),
                ),
                None => self.looked_up(*mode, event_or_command@) is None,
            },
    {
        proof {
            if self.names_once() {
                self.law_messages_are_looked_up(*mode, event_or_command@);
            }
        }
        match mode {
            FlyPathModes::Spicy(theme) => match first_theme(&self.spicy, theme.as_str()) {
                Some(entry) => copy_event_messages(&entry.events, event_or_command),
                None => None,
            },
            FlyPathModes::BrainRot => copy_event_messages(&self.brainrot, event_or_command),
            FlyPathModes::Default => None,
        }
    }

    /// The text of the message for the event or command `name` in `mode` on
    /// which the number `pick` falls, if there are messages: the count goes
    /// round the messages as often as it takes.
    pub open spec fn message_at(&self, mode: FlyPathModes, name: Seq<char>, pick: nat) -> Option<
        Seq<char>,
    > {
        match self.messages_for(mode, name) {
            Some(messages) => Some(messages[(pick % messages.len()) as int]),
            None => None,
        }
    }

    /// The event that carries to the controller, from the node `node_id`,
    /// the message on which `pick` falls: `None` if there are no messages or
    /// this one does not fit into a fragment.
    pub open spec fn comment(
        &self,
        mode: FlyPathModes,
        name: Seq<char>,
        node_id: NodeId,
        pick: nat,
    ) -> Option<DroneEventView> {
        match self.message_at(mode, name, pick) {
            Some(text) => if encode_utf8(text).len() <= 128 {
                Some(flypath_event(text, node_id))
            } else {
                None
            },
            None => None,
        }
    }

    /// The message for an event or command in `mode` on which the number
    /// `pick` falls: `None` if there are no messages.
    pub fn get_message_at(&self, mode: &FlyPathModes, event_or_command: &str, pick: usize) -> (res:
        Option<String>)
        ensures
            match res {
                Some(message) => self.message_at(*mode, event_or_command@, pick as nat) == Some(
                    message@,
                ),
                None => self.message_at(*mode, event_or_command@, pick as nat) is None,
            },
    {
        match self.get_messages_for_mode(mode, event_or_command) {
            Some(messages) => {
                let index = pick % messages.len();
                let message = messages[index].clone();
                proof {
                    assert(texts(messages@)[index as int] == message@);
                }
                Some(message)
            },
            None => None,
        }
    }

    /// The event that carries to the controller, from the node `node_id`,
    /// the message for an event or command in `mode` on which the number
    /// `pick` falls: `None` if there are no messages or this one does not fit
    /// into a fragment.
    pub fn comment_at(
        &self,
        mode: &FlyPathModes,
        event_or_command: &str,
        node_id: NodeId,
        pick: usize,
    ) -> (res: Option<DroneEvent>)
        ensures
            event_view(res) == self.comment(*mode, event_or_command@, node_id, pick as nat),
    {
        match self.get_message_at(mode, event_or_command, pick) {
            Some(message) => match event_with_message(message.as_str(), node_id) {
                Ok(event) => Some(event),
                Err(_) => None,
            },
            None => None,
        }
    }

    /// One of the messages for an event or command in `mode`, chosen at
    /// random: `None` if there are none.
    pub fn get_rand_message(&self, mode: &FlyPathModes, event_or_command: &str) -> (res: Option<
        String,
    >)
        ensures
            match res {
                Some(message) => self.messages_for(*mode, event_or_command@) is Some
                    && self.messages_for(*mode, event_or_command@)->0.contains(message@),
                None => self.messages_for(*mode, event_or_command@) is None,
            },
    {
        match self.get_messages_for_mode(mode, event_or_command) {
            Some(messages) => {
                let index = random_below(messages.len());
                let message = messages[index].clone();
                proof {
                    assert(texts(messages@)[index as int] == message@);
                }
                Some(message)
            },
            None => None,
        }
    }

    /// The event that carries to the controller one of the messages for an
    /// event or command in `mode`, chosen at random, from the node `nodeId`:
    /// `Ok(None)` if there are no messages, and the error of
    /// [`event_with_message`] if the chosen message does not fit.
    pub fn generate_droneEvent_to_controller(
        &self,
        mode: &FlyPathModes,
        event_or_command: &str,
        nodeId: NodeId,
    ) -> (res: Result<Option<DroneEvent>, String>)
        ensures
            match self.messages_for(*mode, event_or_command@) {
                None => res matches Ok(None),
                Some(messages) => exists|i: int|
                    0 <= i < messages.len() && carries(res, #[trigger] messages[i], nodeId),
            },
    {
        match self.get_rand_message(mode, event_or_command) {
            Some(message) => {
                match event_with_message(message.as_str(), nodeId) {
                    Ok(event) => Ok(Some(event)),
                    Err(why) => Err(why),
                }
            },
            None => Ok(None),
        }
    }

    /// The name under which the messages for an event are filed.
    pub fn drone_event_to_string(event: &DroneEvent) -> (res: &'static str)
        ensures
            res@ == event_name(event@),
    {
        match event {
            DroneEvent::PacketSent(_) => "PacketSent",
            DroneEvent::PacketDropped(_) => "PacketDropped",
            DroneEvent::ControllerShortcut(_) => "ControllerShortcut",
        }
    }

    /// The name under which the messages for a command are filed.
    pub fn drone_command_to_string<C>(command: &DroneCommand<C>) -> (res: &'static str)
        ensures
            res@ == command_name(command@),
    {
        match command {
            DroneCommand::AddSender(_, _) => "AddSender",
            DroneCommand::RemoveSender(_) => "RemoveSender",
            DroneCommand::SetPacketDropRate(_) => "SetPacketDropRate",
            DroneCommand::Crash => "Crash",
        }
    }
}

/// Whether `res` is what becomes of the message `text` on its way from the
/// node `node_id` to the controller: the event that carries it, or the error
/// that says it is too long for a fragment.
pub open spec fn carries(
    res: Result<Option<DroneEvent>, String>,
    text: Seq<char>,
    node_id: NodeId,
) -> bool {
    if encode_utf8(text).len() <= 128 {
        res matches Ok(Some(event)) && event@ == flypath_event(text, node_id)
    } else {
        res matches Err(why) && why@ == too_long()
    }
}

/// The event that carries `message` from the node `node_id` to the
/// controller, or an error if the message, in UTF-8, is longer than the
/// payload of a fragment.
pub fn event_with_message(message: &str, node_id: NodeId) -> (res: Result<DroneEvent, String>)
    ensures
        match res {
            Ok(event) => encode_utf8(message@).len() <= 128 && event@ == flypath_event(
                message@,
                node_id,
            ),
            Err(why) => encode_utf8(message@).len() > 128 && why@ == too_long(),
        },
{
    let bytes = message.as_bytes();
    if bytes.len() > FRAGMENT_DSIZE {
        return Err("Failed to generate a message: Too Long".to_owned());
    }
    let fragment = Fragment {
        fragment_index: u64::MAX,
        total_n_fragments: 0,
        length: bytes.len() as u8,
        data: pad(bytes),
    };
    let mut hops: Vec<NodeId> = Vec::new();
    hops.push(node_id);
    let packet = Packet {
        routing_header: SourceRoutingHeader { hop_index: usize::MAX, hops },
        session_id: u64::MAX,
        pack_type: PacketType::MsgFragment(fragment),
    };
    proof {
        assert(hops@ =~= seq![node_id]);
    }
    Ok(DroneEvent::PacketSent(packet))
}

/// Calls `String::from_utf8_lossy` and takes the string out of what it
/// returns. The contract claims what the documentation of that function
/// says of valid UTF-8, that the text that the bytes encode comes back
/// unchanged, and gives the result for any other bytes a name.
#[verifier::external_body]
fn string_from_utf8_lossy(bytes: &Vec<u8>) -> (res: String)
    ensures
        valid_utf8(bytes@) ==> res@ == decode_utf8(bytes@),
        !valid_utf8(bytes@) ==> res@ == utf8_lossy(bytes@),
{
    String::from_utf8_lossy(bytes).into_owned()
}

/// The sender and the text of an event that carries a message to the
/// controller, and `None` for any other event.
pub fn extract_flypath_message(event: &DroneEvent) -> (res: Option<(NodeId, String)>)
    ensures
        match res {
            Some((node_id, text)) => flypath_message(event@) == Some((node_id, text@)),
            None => flypath_message(event@) is None,
        },
{
    match event {
        DroneEvent::PacketSent(packet) => match &packet.pack_type {
            PacketType::MsgFragment(fragment) => {
                let length = fragment.length as usize;
                if packet.session_id == u64::MAX && packet.routing_header.hop_index == usize::MAX
                    && packet.routing_header.hops.len() == 1 && fragment.fragment_index
                    == u64::MAX && fragment.total_n_fragments == 0 && length <= FRAGMENT_DSIZE {
                    let mut bytes: Vec<u8> = Vec::new();
                    let mut i: usize = 0;
                    while i < length
                        invariant
                            i <= length <= 128,
                            bytes@ == fragment.data@.take(i as int),
                        decreases length - i,
                    {
                        bytes.push(fragment.data[i]);
                        proof {
                            assert(bytes@ =~= fragment.data@.take(i + 1));
                        }
                        i += 1;
                    }
                    Some((packet.routing_header.hops[0], string_from_utf8_lossy(&bytes)))
                } else {
                    None
                }
            },
            _ => None,
        },
        _ => None,
    }
}

/// A message comes out of its event as it went in: the event that carries a
/// text that fits into a fragment yields the sender and that text.
pub proof fn law_message_round_trip(text: Seq<char>, node_id: NodeId)
    requires
        encode_utf8(text).len() <= 128,
    ensures
        flypath_message(flypath_event(text, node_id)) == Some((node_id, text)),
{
    let bytes = encode_utf8(text);
    let fragment = flypath_event(text, node_id)->PacketSent_0.pack_type->MsgFragment_0;
    assert(fragment.data.take(fragment.length as int) =~= bytes);
    vstd::utf8::encode_utf8_valid_utf8(text);
    vstd::utf8::encode_utf8_decode_utf8(text);
}

} // verus!

use flypath::controller::{DroneCommand, DroneEvent};
use flypath::flypath::FlyPath;
use flypath::lottery::DropRate;
use flypath::messages::{
    event_with_message, extract_flypath_message, EventMessages, Messages, ThemeMessages,
};
use flypath::modes::{FlyPathModes, FlyPathThemes};
use flypath::network::{Fragment, NodeId, Packet, PacketType, SourceRoutingHeader};
use std::collections::HashMap;

fn entry(event: &str, messages: &[&str]) -> EventMessages {
    EventMessages {
        event: event.to_string(),
        messages: messages.iter().map(|message| message.to_string()).collect(),
    }
}

fn batman(crash: &[&str]) -> Messages {
    Messages {
        spicy: vec![ThemeMessages { theme: "Batman".to_string(), events: vec![entry("Crash", crash)] }],
        brainrot: vec![],
    }
}

fn crash_name() -> &'static str {
    Messages::drone_command_to_string(&DroneCommand::<()>::Crash)
}

#[test]
fn test_get_rand_messages() {
    // Case: Randomness verification
    {
        let messages = Messages {
            spicy: vec![
                ThemeMessages {
                    theme: "Batman".to_string(),
                    events: vec![entry("Crash", &["Mister Freeze", "Talia al Ghul"])],
                },
                ThemeMessages { theme: "Rocket".to_string(), events: vec![entry("Crash", &[])] },
            ],
            brainrot: vec![entry("Crash", &["feafie", "feaff"])],
        };
        let mode = &FlyPathModes::Spicy(FlyPathThemes::Batman);
        let event_or_command = crash_name();
        let mut seen_messages = std::collections::HashSet::new();

        for _ in 0..100 {
            if let Some(rand_message) = messages.get_rand_message(mode, event_or_command) {
                seen_messages.insert(rand_message);
            }
        }

        let expected_messages = vec!["Mister Freeze", "Talia al Ghul"];
        for message in &expected_messages {
            assert!(
                seen_messages.contains(*message),
                "Expected to see '{}' in random selections, but it was missing",
                message
            );
        }
        assert_eq!(seen_messages.len(), 2);
    }

    // Case: Single message
    {
        let messages = batman(&["SingleMessage"]);
        let mode = &FlyPathModes::Spicy(FlyPathThemes::Batman);
        let rand_message = messages.get_rand_message(mode, crash_name()).unwrap();
        assert_eq!(
            "SingleMessage", rand_message,
            "Expected the only available message to be returned, but got '{}'",
            rand_message
        );
    }

    // Case: No message
    {
        let messages = batman(&[]);
        let mode = &FlyPathModes::Spicy(FlyPathThemes::Batman);
        let rand_message = messages.get_rand_message(mode, crash_name());
        assert!(
            rand_message.is_none(),
            "Expected no message to be returned, but got '{:?}'",
            rand_message
        );
    }
}

#[test]
fn test_generate_nodeEvent_to_controller() {
    // Case: Valid Test
    {
        let messages = batman(&["singlemessage", "secondmessage"]);
        let mode = &FlyPathModes::Spicy(FlyPathThemes::Batman);
        let result = messages.generate_droneEvent_to_controller(mode, crash_name(), 1);
        assert!(
            result.as_ref().is_ok_and(|x| x.is_some()),
            "Expected to find a message and generate a DroneEvent, but got '{:?}'",
            result
        );
    }

    // Case: Message Too Long
    {
        let messages = batman(&["129CharLongStringFillFillFillFillFillFillFillFillFillFillFillFillFillFillFillFillFillFillFillFillFillFillFillFillFillFillFillFill"]);
        let mode = &FlyPathModes::Spicy(FlyPathThemes::Batman);
        let result = messages.generate_droneEvent_to_controller(mode, crash_name(), 1);
        assert!(result.unwrap_err().contains("Failed to generate a message: Too Long"));
    }

    // Case: No Message
    {
        let messages = batman(&[]);
        let mode = &FlyPathModes::Spicy(FlyPathThemes::Batman);
        let result = messages.generate_droneEvent_to_controller(mode, crash_name(), 1);
        assert!(
            result.as_ref().is_ok_and(|x| x.is_none()),
            "Expected to find a message and generate a DroneEvent, but got '{:?}'",
            result
        );
    }
}

#[test]
fn test_extract_flypath_message() {
    // Case: FlyPath DroneEvent
    {
        let messages = batman(&["singlemessage"]);
        let mode = &FlyPathModes::Spicy(FlyPathThemes::Batman);
        let drone_event =
            messages.generate_droneEvent_to_controller(mode, crash_name(), 1).unwrap().unwrap();

        let result = extract_flypath_message(&drone_event);
        let expect: Option<(NodeId, String)> = Some((1, "singlemessage".to_string()));
        assert_eq!(result, expect);
    }

    // Case: Normal DroneEvent
    {
        let mut data = [0; 128];
        for byte in data.iter_mut().take(13) {
            *byte = 1;
        }
        let normal_event = DroneEvent::PacketSent(Packet {
            pack_type: PacketType::MsgFragment(Fragment {
                fragment_index: u64::MAX - 1,
                total_n_fragments: u64::MAX,
                length: 13,
                data,
            }),
            routing_header: SourceRoutingHeader { hop_index: 2, hops: vec![1, 2, 3] },
            session_id: 1,
        });

        let result = extract_flypath_message(&normal_event);
        assert!(result.is_none(), "Expect to find None but got {:?}", result)
    }
}

#[test]
fn the_event_that_carries_a_message_has_its_marks() {
    let event = event_with_message("hé!", 9).unwrap();
    let mut data = [0; 128];
    data[..4].copy_from_slice("hé!".as_bytes());
    assert_eq!(
        event,
        DroneEvent::PacketSent(Packet {
            pack_type: PacketType::MsgFragment(Fragment {
                fragment_index: u64::MAX,
                total_n_fragments: 0,
                length: 4,
                data,
            }),
            routing_header: SourceRoutingHeader { hop_index: usize::MAX, hops: vec![9] },
            session_id: u64::MAX,
        })
    );
    assert_eq!(extract_flypath_message(&event), Some((9, "hé!".to_string())));
}

#[test]
fn a_message_fits_up_to_the_payload_of_a_fragment() {
    let fits = "x".repeat(128);
    let event = event_with_message(&fits, 3).unwrap();
    assert_eq!(extract_flypath_message(&event), Some((3, fits)));
    assert_eq!(
        event_with_message(&"x".repeat(129), 3),
        Err("Failed to generate a message: Too Long".to_string())
    );
    // Length counts bytes, not characters.
    assert!(event_with_message(&"é".repeat(64), 3).is_ok());
    assert!(event_with_message(&"é".repeat(65), 3).is_err());
    assert_eq!(extract_flypath_message(&event_with_message("", 3).unwrap()), Some((3, String::new())));
}

fn marked(length: u8, data: [u8; 128]) -> Packet {
    Packet {
        pack_type: PacketType::MsgFragment(Fragment {
            fragment_index: u64::MAX,
            total_n_fragments: 0,
            length,
            data,
        }),
        routing_header: SourceRoutingHeader { hop_index: usize::MAX, hops: vec![4] },
        session_id: u64::MAX,
    }
}

#[test]
fn extract_tells_messages_from_other_events() {
    let mut data = [0; 128];
    data[0] = b'o';
    data[1] = b'k';
    assert_eq!(
        extract_flypath_message(&DroneEvent::PacketSent(marked(2, data))),
        Some((4, "ok".to_string()))
    );
    assert_eq!(extract_flypath_message(&DroneEvent::PacketDropped(marked(2, data))), None);
    assert_eq!(extract_flypath_message(&DroneEvent::ControllerShortcut(marked(2, data))), None);
    assert_eq!(extract_flypath_message(&DroneEvent::PacketSent(marked(129, data))), None);

    let mut other = marked(2, data);
    other.session_id = 0;
    assert_eq!(extract_flypath_message(&DroneEvent::PacketSent(other)), None);
    let mut other = marked(2, data);
    other.routing_header.hop_index = 0;
    assert_eq!(extract_flypath_message(&DroneEvent::PacketSent(other)), None);
    let mut other = marked(2, data);
    other.routing_header.hops = vec![4, 5];
    assert_eq!(extract_flypath_message(&DroneEvent::PacketSent(other)), None);
    let mut other = marked(2, data);
    other.routing_header.hops = vec![];
    assert_eq!(extract_flypath_message(&DroneEvent::PacketSent(other)), None);
    let mut other = marked(2, data);
    other.pack_type = PacketType::MsgFragment(Fragment {
        fragment_index: u64::MAX,
        total_n_fragments: 1,
        length: 2,
        data,
    });
    assert_eq!(extract_flypath_message(&DroneEvent::PacketSent(other)), None);
    let mut other = marked(2, data);
    other.pack_type = PacketType::MsgFragment(Fragment {
        fragment_index: 5,
        total_n_fragments: 0,
        length: 2,
        data,
    });
    assert_eq!(extract_flypath_message(&DroneEvent::PacketSent(other)), None);
    let ack = Packet::new_ack(SourceRoutingHeader::new(vec![4], usize::MAX), u64::MAX, u64::MAX);
    assert_eq!(extract_flypath_message(&DroneEvent::PacketSent(ack)), None);
}

#[test]
fn extract_replaces_bytes_that_are_no_text() {
    let mut data = [0; 128];
    data[0] = b'a';
    data[1] = 0xff;
    data[2] = b'b';
    assert_eq!(
        extract_flypath_message(&DroneEvent::PacketSent(marked(3, data))),
        Some((4, "a\u{fffd}b".to_string()))
    );
}

#[test]
fn get_messages_for_mode_finds_the_first_entry() {
    let messages = Messages {
        spicy: vec![
            ThemeMessages {
                theme: "Pingu".to_string(),
                events: vec![entry("Crash", &["noot"]), entry("PacketSent", &[])],
            },
            ThemeMessages {
                theme: "DarkSoul".to_string(),
                events: vec![
                    entry("PacketSent", &["you forwarded"]),
                    entry("PacketSent", &["hidden"]),
                    entry("Crash", &["you died", "again"]),
                ],
            },
            ThemeMessages { theme: "Pingu".to_string(), events: vec![entry("Crash", &["hidden"])] },
        ],
        brainrot: vec![entry("Crash", &["skibidi"]), entry("NoCrash", &[])],
    };
    let dark_souls = FlyPathModes::Spicy(FlyPathThemes::DarkSouls);
    let pingu = FlyPathModes::Spicy(FlyPathThemes::Pingu);
    assert_eq!(
        messages.get_messages_for_mode(&dark_souls, "Crash"),
        Some(vec!["you died".to_string(), "again".to_string()])
    );
    assert_eq!(
        messages.get_messages_for_mode(&dark_souls, "PacketSent"),
        Some(vec!["you forwarded".to_string()])
    );
    assert_eq!(messages.get_messages_for_mode(&pingu, "Crash"), Some(vec!["noot".to_string()]));
    assert_eq!(messages.get_messages_for_mode(&pingu, "PacketSent"), None);
    assert_eq!(messages.get_messages_for_mode(&pingu, "crash"), None);
    assert_eq!(messages.get_messages_for_mode(&pingu, "AddSender"), None);
    assert_eq!(
        messages.get_messages_for_mode(&FlyPathModes::Spicy(FlyPathThemes::Batman), "Crash"),
        None
    );
    assert_eq!(
        messages.get_messages_for_mode(&FlyPathModes::BrainRot, "Crash"),
        Some(vec!["skibidi".to_string()])
    );
    assert_eq!(messages.get_messages_for_mode(&FlyPathModes::BrainRot, "NoCrash"), None);
    assert_eq!(messages.get_messages_for_mode(&FlyPathModes::Default, "Crash"), None);
    assert_eq!(Messages::empty().get_messages_for_mode(&pingu, "Crash"), None);
}

#[test]
fn themes_events_and_commands_have_their_names() {
    assert_eq!(FlyPathThemes::Batman.to_string(), "Batman");
    assert_eq!(FlyPathThemes::Rocket.to_string(), "Rocket");
    assert_eq!(FlyPathThemes::Quackable.to_string(), "Quackable");
    assert_eq!(FlyPathThemes::HarryPotter.to_string(), "HarryPotter");
    assert_eq!(FlyPathThemes::DarkSouls.to_string(), "DarkSoul");
    assert_eq!(FlyPathThemes::Bloodborne.to_string(), "Bloodborne");
    assert_eq!(FlyPathThemes::Pingu.as_str(), "Pingu");

    let packet = Packet::new_ack(SourceRoutingHeader::empty_route(), 0, 0);
    assert_eq!(Messages::drone_event_to_string(&DroneEvent::PacketSent(packet.clone())), "PacketSent");
    assert_eq!(
        Messages::drone_event_to_string(&DroneEvent::PacketDropped(packet.clone())),
        "PacketDropped"
    );
    assert_eq!(
        Messages::drone_event_to_string(&DroneEvent::ControllerShortcut(packet)),
        "ControllerShortcut"
    );
    assert_eq!(Messages::drone_command_to_string(&DroneCommand::AddSender(1, ())), "AddSender");
    assert_eq!(Messages::drone_command_to_string(&DroneCommand::<()>::RemoveSender(1)), "RemoveSender");
    assert_eq!(
        Messages::drone_command_to_string(&DroneCommand::<()>::SetPacketDropRate(DropRate::never())),
        "SetPacketDropRate"
    );
    assert_eq!(Messages::drone_command_to_string(&DroneCommand::<()>::Crash), "Crash");
}

#[test]
fn a_themed_node_comments_on_commands_and_events() {
    let messages = Messages {
        spicy: vec![ThemeMessages {
            theme: "Rocket".to_string(),
            events: vec![
                entry("Crash", &["boom"]),
                entry("PacketDropped", &["oops"]),
                entry("ControllerShortcut", &["never said"]),
                entry("AddSender", &[&"x".repeat(200)]),
            ],
        }],
        brainrot: vec![entry("NoCrash", &["phew"])],
    };
    let drone: FlyPath<()> = FlyPath::new_with_mode(
        FlyPathModes::Spicy(FlyPathThemes::Rocket),
        6,
        HashMap::new(),
        DropRate::never(),
        messages,
    );
    let packet = Packet::new_ack(SourceRoutingHeader::empty_route(), 0, 0);

    let said = drone.command_flypath_message(&DroneCommand::Crash).unwrap();
    assert_eq!(extract_flypath_message(&said), Some((6, "boom".to_string())));
    let said = drone.event_flypath_message(&DroneEvent::PacketDropped(packet.clone())).unwrap();
    assert_eq!(extract_flypath_message(&said), Some((6, "oops".to_string())));
    assert_eq!(drone.event_flypath_message(&DroneEvent::PacketSent(packet.clone())), None);
    assert_eq!(drone.event_flypath_message(&DroneEvent::ControllerShortcut(packet)), None);
    assert_eq!(drone.command_flypath_message(&DroneCommand::RemoveSender(1)), None);
    // A message that does not fit is not sent.
    assert_eq!(drone.command_flypath_message(&DroneCommand::AddSender(1, ())), None);
    assert_eq!(drone.flypath_message("NoCrash"), None);
}

#[test]
fn a_node_gone_mad_and_a_default_node() {
    let messages = || Messages {
        spicy: vec![ThemeMessages { theme: "Rocket".to_string(), events: vec![entry("Crash", &["boom"])] }],
        brainrot: vec![entry("NoCrash", &["phew"])],
    };
    let mad: FlyPath<()> = FlyPath::new_with_mode(
        FlyPathModes::BrainRot,
        8,
        HashMap::new(),
        DropRate::never(),
        messages(),
    );
    let said = mad.flypath_message("NoCrash").unwrap();
    assert_eq!(extract_flypath_message(&said), Some((8, "phew".to_string())));
    assert_eq!(mad.command_flypath_message(&DroneCommand::Crash), None);

    let plain: FlyPath<()> = FlyPath::new_with_mode(
        FlyPathModes::Default,
        8,
        HashMap::new(),
        DropRate::never(),
        messages(),
    );
    assert_eq!(plain.flypath_message("NoCrash"), None);
    assert_eq!(plain.command_flypath_message(&DroneCommand::Crash), None);

    let fresh: FlyPath<()> = FlyPath::new(8, HashMap::new(), DropRate::never());
    assert_eq!(fresh.mode, FlyPathModes::Default);
    assert!(fresh.messages.spicy.is_empty() && fresh.messages.brainrot.is_empty());
    assert_eq!(fresh.command_flypath_message(&DroneCommand::Crash), None);
}

#[test]
fn the_pick_goes_round_the_messages() {
    let messages = batman(&["zero", "one", "two"]);
    let mode = FlyPathModes::Spicy(FlyPathThemes::Batman);
    assert_eq!(messages.get_message_at(&mode, "Crash", 0), Some("zero".to_string()));
    assert_eq!(messages.get_message_at(&mode, "Crash", 2), Some("two".to_string()));
    assert_eq!(messages.get_message_at(&mode, "Crash", 3), Some("zero".to_string()));
    assert_eq!(messages.get_message_at(&mode, "Crash", 10), Some("one".to_string()));
    assert_eq!(messages.get_message_at(&mode, "PacketSent", 0), None);
    assert_eq!(messages.get_message_at(&FlyPathModes::Default, "Crash", 0), None);

    let said = messages.comment_at(&mode, "Crash", 4, 7).unwrap();
    assert_eq!(extract_flypath_message(&said), Some((4, "one".to_string())));
    assert_eq!(messages.comment_at(&mode, "AddSender", 4, 7), None);
    let long = "x".repeat(129);
    let mixed = batman(&["fits", &long]);
    assert!(mixed.comment_at(&mode, "Crash", 4, 0).is_some());
    assert_eq!(mixed.comment_at(&mode, "Crash", 4, 1), None);
}

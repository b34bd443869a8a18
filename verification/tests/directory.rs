use globalchat::directory::{destinations, is_eligible};
use globalchat::model::{reserved_name, Author, Channel, IncomingMessage};

fn channel(id: u64, name: Option<&str>) -> Channel {
    Channel { id, guild_id: Some(1), name: name.map(|n| n.to_string()) }
}

fn message(channel_id: u64, is_bot: bool) -> IncomingMessage {
    IncomingMessage {
        id: 1,
        channel_id,
        author: Author {
            id: 2,
            display_name: "carol".to_string(),
            avatar_hash: None,
            legacy_discriminator: 0,
        },
        content: "hello".to_string(),
        attachments: Vec::new(),
        is_bot,
    }
}

#[test]
fn the_reserved_name_is_globalchat_rs() {
    assert_eq!(reserved_name(), "globalchat-rs");
}

#[test]
fn a_channel_is_a_relay_channel_by_exact_name() {
    assert!(channel(1, Some("globalchat-rs")).is_relay());
    assert!(!channel(1, Some("globalchat")).is_relay());
    assert!(!channel(1, Some("globalchat-rs ")).is_relay());
    assert!(!channel(1, Some("GlobalChat-RS")).is_relay());
    assert!(!channel(1, Some("")).is_relay());
    assert!(!channel(1, None).is_relay());
}

#[test]
fn a_message_of_a_person_in_a_relay_channel_is_eligible() {
    let source = channel(5, Some("globalchat-rs"));
    assert!(is_eligible(&message(5, false), Some(&source)));
}

#[test]
fn a_message_of_a_bot_is_not_eligible() {
    let source = channel(5, Some("globalchat-rs"));
    assert!(!is_eligible(&message(5, true), Some(&source)));
}

#[test]
fn a_message_from_another_channel_is_not_eligible() {
    let source = channel(5, Some("general"));
    assert!(!is_eligible(&message(5, false), Some(&source)));
    let nameless = channel(5, None);
    assert!(!is_eligible(&message(5, false), Some(&nameless)));
}

#[test]
fn a_message_from_an_unknown_channel_is_not_eligible() {
    assert!(!is_eligible(&message(5, false), None));
    assert!(!is_eligible(&message(5, true), None));
}

#[test]
fn destinations_are_the_other_relay_channels_in_directory_order() {
    let channels = vec![
        channel(9, Some("globalchat-rs")),
        channel(3, Some("general")),
        channel(5, Some("globalchat-rs")),
        channel(7, None),
        channel(2, Some("globalchat-rs")),
        channel(4, Some("globalchat-rs-2")),
    ];
    assert_eq!(destinations(&channels, 5), vec![9, 2]);
    assert_eq!(destinations(&channels, 9), vec![5, 2]);
    assert_eq!(destinations(&channels, 1), vec![9, 5, 2]);
}

#[test]
fn destinations_of_an_empty_directory_are_none() {
    assert_eq!(destinations(&Vec::new(), 5), Vec::<u64>::new());
    assert_eq!(destinations(&vec![channel(5, Some("globalchat-rs"))], 5), Vec::<u64>::new());
}

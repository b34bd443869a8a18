use globalchat::engine::{Action, Event, Outcome, Phase, Relay};
use globalchat::model::{Author, Channel, IncomingMessage, RelayedMessage, Webhook};
use globalchat::store::{create_message, get_messages, MessageTable};

fn relay_channel(id: u64) -> Channel {
    Channel { id, guild_id: Some(id + 1000), name: Some("globalchat-rs".to_string()) }
}

fn plain_message() -> IncomingMessage {
    IncomingMessage {
        id: 100,
        channel_id: 1,
        author: Author {
            id: 7,
            display_name: "alice".to_string(),
            avatar_hash: None,
            legacy_discriminator: 0,
        },
        content: "hi".to_string(),
        attachments: Vec::new(),
        is_bot: false,
    }
}

fn created_webhook(id: u64, channel_id: u64) -> Webhook {
    Webhook {
        id,
        channel_id,
        name: Some("globalchat-rs".to_string()),
        token: Some(format!("token-{}", id)),
    }
}

#[test]
fn two_destinations_without_webhooks_get_one_webhook_one_copy_one_row_each() {
    let source = relay_channel(1);
    let (relay, action) = Relay::begin(plain_message(), Some(&source));
    assert_eq!(action, Action::EnumerateChannels);
    assert_eq!(relay.payload().content, "hi");
    assert_eq!(relay.payload().username, "alice");
    assert_eq!(relay.payload().avatar_url, "https://cdn.discordapp.com/avatars/7/0.png");
    assert!(!relay.payload().mentions_allowed);
    assert!(relay.payload().wait_for_message);

    let channels = vec![relay_channel(1), relay_channel(2), relay_channel(3)];
    let (relay, action) = relay.handle_event(Event::ChannelsEnumerated { channels });
    assert_eq!(action, Action::ListWebhooks { channel_id: 2 });

    let (relay, action) = relay.handle_event(Event::WebhooksListed { webhooks: Vec::new() });
    assert_eq!(
        action,
        Action::CreateWebhook { channel_id: 2, name: "globalchat-rs".to_string() }
    );
    let (relay, action) =
        relay.handle_event(Event::WebhookCreated { webhook: created_webhook(20, 2) });
    assert_eq!(
        action,
        Action::ExecuteWebhook { channel_id: 2, webhook_id: 20, token: "token-20".to_string() }
    );
    let (relay, action) = relay.handle_event(Event::MessageDispatched { message_id: 201 });
    assert_eq!(
        action,
        Action::RecordMapping {
            row: RelayedMessage {
                original_message_id: 100,
                relayed_message_id: 201,
                destination_channel_id: 2,
            }
        }
    );
    let (relay, action) = relay.handle_event(Event::MappingRecorded);
    assert_eq!(action, Action::ListWebhooks { channel_id: 3 });

    let (relay, action) = relay.handle_event(Event::WebhooksListed { webhooks: Vec::new() });
    assert_eq!(
        action,
        Action::CreateWebhook { channel_id: 3, name: "globalchat-rs".to_string() }
    );
    let (relay, action) =
        relay.handle_event(Event::WebhookCreated { webhook: created_webhook(30, 3) });
    assert_eq!(
        action,
        Action::ExecuteWebhook { channel_id: 3, webhook_id: 30, token: "token-30".to_string() }
    );
    let (relay, action) = relay.handle_event(Event::MessageDispatched { message_id: 301 });
    assert_eq!(
        action,
        Action::RecordMapping {
            row: RelayedMessage {
                original_message_id: 100,
                relayed_message_id: 301,
                destination_channel_id: 3,
            }
        }
    );
    let (relay, action) = relay.handle_event(Event::MappingRecorded);
    assert_eq!(action, Action::Finish);
    assert_eq!(relay.phase(), Phase::Completed);
    assert!(relay.is_finished());
    assert_eq!(relay.destinations(), &vec![2, 3]);
    assert_eq!(
        relay.outcomes(),
        &vec![
            Outcome::Delivered { relayed_message_id: 201 },
            Outcome::Delivered { relayed_message_id: 301 }
        ]
    );
}

#[test]
fn no_other_relay_channel_means_nothing_is_asked_of_any_webhook() {
    let source = relay_channel(1);
    let (relay, action) = Relay::begin(plain_message(), Some(&source));
    assert_eq!(action, Action::EnumerateChannels);
    let channels = vec![
        relay_channel(1),
        Channel { id: 5, guild_id: Some(9), name: Some("general".to_string()) },
        Channel { id: 6, guild_id: None, name: None },
    ];
    let (relay, action) = relay.handle_event(Event::ChannelsEnumerated { channels });
    assert_eq!(action, Action::Finish);
    assert_eq!(relay.phase(), Phase::Completed);
    assert!(relay.destinations().is_empty());
    assert!(relay.outcomes().is_empty());
}

/// Drives a relay with a driver whose every request succeeds but those on the
/// channels in `failing`, and writes the rows asked for to `table`.
fn drive(message: IncomingMessage, rooms: &[u64], failing: &[u64], table: &mut MessageTable) -> Relay {
    let source = relay_channel(message.channel_id);
    let (mut relay, mut action) = Relay::begin(message, Some(&source));
    let mut steps = 0;
    loop {
        steps += 1;
        assert!(steps < 1000, "the relay does not end");
        let event = match action {
            Action::Finish => return relay,
            Action::Reject => panic!("an answer was set aside"),
            Action::FetchAttachment { .. } => Event::AttachmentFetched { bytes: vec![0] },
            Action::EnumerateChannels => Event::ChannelsEnumerated {
                channels: rooms.iter().map(|id| relay_channel(*id)).collect(),
            },
            Action::ListWebhooks { channel_id } if failing.contains(&channel_id) => Event::Failed,
            Action::ListWebhooks { .. } => Event::WebhooksListed { webhooks: Vec::new() },
            Action::CreateWebhook { channel_id, .. } => {
                Event::WebhookCreated { webhook: created_webhook(channel_id * 10, channel_id) }
            }
            Action::ExecuteWebhook { channel_id, .. } => {
                Event::MessageDispatched { message_id: channel_id * 100 + 1 }
            }
            Action::RecordMapping { row } => {
                create_message(
                    table,
                    row.original_message_id,
                    row.relayed_message_id,
                    row.destination_channel_id,
                );
                Event::MappingRecorded
            }
        };
        (relay, action) = relay.handle_event(event);
    }
}

#[test]
fn lookup_after_a_relay_finds_its_deliveries_and_leaves_other_messages_alone() {
    let mut table = MessageTable::new();
    create_message(&mut table, 50, 5001, 2);
    let relay = drive(plain_message(), &[1, 2, 3, 4, 5], &[3], &mut table);
    assert_eq!(relay.phase(), Phase::Completed);
    assert_eq!(relay.destinations(), &vec![2, 3, 4, 5]);
    assert_eq!(relay.outcomes().len(), 4);
    assert_eq!(get_messages(&table, 100), vec![(201, 2), (401, 4), (501, 5)]);
    assert_eq!(get_messages(&table, 50), vec![(5001, 2)]);
}

#[test]
fn every_relay_ends_when_each_request_is_answered() {
    for rooms in [vec![], vec![1], vec![1, 2], vec![9, 8, 7, 1, 6]] {
        for failing in [vec![], vec![2], vec![9, 6], vec![9, 8, 7, 6]] {
            let mut table = MessageTable::new();
            let relay = drive(plain_message(), &rooms, &failing, &mut table);
            assert!(relay.is_finished());
            let expected: Vec<u64> = rooms.iter().copied().filter(|id| *id != 1).collect();
            assert_eq!(relay.destinations(), &expected);
            assert_eq!(relay.outcomes().len(), expected.len());
            let delivered: Vec<(u64, u64)> = expected
                .iter()
                .filter(|id| !failing.contains(id))
                .map(|id| (id * 100 + 1, *id))
                .collect();
            assert_eq!(get_messages(&table, 100), delivered);
        }
    }
}

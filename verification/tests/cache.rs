use globalchat::cache::{begin, enumerate, lookup};
use globalchat::engine::{Action, Phase};
use globalchat::model::{Author, IncomingMessage};
use twilight_cache_inmemory::InMemoryCache;
use twilight_model::channel::{Channel, ChannelType};
use twilight_model::gateway::payload::incoming::{ChannelCreate, ChannelDelete};
use twilight_model::id::Id;

fn platform_channel(id: u64, guild_id: Option<u64>, name: Option<&str>) -> Channel {
    Channel {
        application_id: None,
        applied_tags: None,
        available_tags: None,
        bitrate: None,
        default_auto_archive_duration: None,
        default_forum_layout: None,
        default_reaction_emoji: None,
        default_sort_order: None,
        default_thread_rate_limit_per_user: None,
        flags: None,
        guild_id: guild_id.map(Id::new),
        icon: None,
        id: Id::new(id),
        invitable: None,
        kind: ChannelType::GuildText,
        last_message_id: None,
        last_pin_timestamp: None,
        managed: None,
        member: None,
        member_count: None,
        message_count: None,
        name: name.map(|n| n.to_string()),
        newly_created: None,
        nsfw: None,
        owner_id: None,
        parent_id: None,
        permission_overwrites: None,
        position: None,
        rate_limit_per_user: None,
        recipients: None,
        rtc_region: None,
        thread_metadata: None,
        topic: None,
        user_limit: None,
        video_quality_mode: None,
    }
}

fn filled_cache() -> InMemoryCache {
    let cache = InMemoryCache::new();
    cache.update(&ChannelCreate(platform_channel(1, Some(10), Some("globalchat-rs"))));
    cache.update(&ChannelCreate(platform_channel(2, Some(20), Some("globalchat-rs"))));
    cache.update(&ChannelCreate(platform_channel(3, Some(30), Some("general"))));
    cache.update(&ChannelCreate(platform_channel(4, None, None)));
    cache
}

fn message(channel_id: u64) -> IncomingMessage {
    IncomingMessage {
        id: 100,
        channel_id,
        author: Author {
            id: 7,
            display_name: "erin".to_string(),
            avatar_hash: None,
            legacy_discriminator: 0,
        },
        content: "hi".to_string(),
        attachments: Vec::new(),
        is_bot: false,
    }
}

#[test]
fn lookup_copies_id_guild_and_name_of_a_cached_channel() {
    let cache = filled_cache();
    let found = lookup(&cache, 2).expect("channel 2 is cached");
    assert_eq!(found.id, 2);
    assert_eq!(found.guild_id, Some(20));
    assert_eq!(found.name, Some("globalchat-rs".to_string()));
    let bare = lookup(&cache, 4).expect("channel 4 is cached");
    assert_eq!(bare.id, 4);
    assert_eq!(bare.guild_id, None);
    assert_eq!(bare.name, None);
}

#[test]
fn lookup_finds_nothing_for_an_unknown_id_or_zero() {
    let cache = filled_cache();
    assert_eq!(lookup(&cache, 99), None);
    assert_eq!(lookup(&cache, 0), None);
    assert_eq!(lookup(&InMemoryCache::new(), 1), None);
}

#[test]
fn lookup_follows_the_cache() {
    let cache = filled_cache();
    assert!(lookup(&cache, 3).is_some());
    cache.update(&ChannelDelete(platform_channel(3, Some(30), Some("general"))));
    assert_eq!(lookup(&cache, 3), None);
    cache.update(&ChannelCreate(platform_channel(3, Some(30), Some("globalchat-rs"))));
    assert_eq!(lookup(&cache, 3).and_then(|c| c.name), Some("globalchat-rs".to_string()));
}

#[test]
fn a_relay_begun_from_the_cache_knows_its_source() {
    let cache = filled_cache();
    let (relay, action) = begin(&cache, message(1));
    assert_eq!(action, Action::EnumerateChannels);
    assert_eq!(relay.phase(), Phase::Enumerating);
    let (relay, action) = begin(&cache, message(3));
    assert_eq!(action, Action::Finish);
    assert_eq!(relay.phase(), Phase::Ignored);
    let (relay, action) = begin(&cache, message(99));
    assert_eq!(action, Action::Finish);
    assert_eq!(relay.phase(), Phase::Ignored);
    let (relay, action) = begin(&cache, message(0));
    assert_eq!(action, Action::Finish);
    assert_eq!(relay.phase(), Phase::Ignored);
}

#[test]
fn enumeration_from_the_cache_finds_the_other_rooms() {
    let cache = filled_cache();
    cache.update(&ChannelCreate(platform_channel(5, Some(50), Some("globalchat-rs"))));
    let (relay, _) = begin(&cache, message(1));
    let (relay, action) = enumerate(&cache, relay);
    let mut found = relay.destinations().clone();
    found.sort();
    assert_eq!(found, vec![2, 5]);
    assert_eq!(action, Action::ListWebhooks { channel_id: relay.destinations()[0] });
    assert_eq!(relay.phase(), Phase::Listing);
}

#[test]
fn enumeration_without_another_room_completes_the_relay() {
    let cache = InMemoryCache::new();
    cache.update(&ChannelCreate(platform_channel(1, Some(10), Some("globalchat-rs"))));
    cache.update(&ChannelCreate(platform_channel(3, Some(30), Some("general"))));
    let (relay, _) = begin(&cache, message(1));
    let (relay, action) = enumerate(&cache, relay);
    assert_eq!(action, Action::Finish);
    assert_eq!(relay.phase(), Phase::Completed);
    assert!(relay.destinations().is_empty());
}

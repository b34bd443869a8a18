//! The channel directory as `twilight_cache_inmemory` keeps it.
//!
//! The cache is filled from the gateway's events while relays read it, so two
//! reads may differ. The functions here read it once and say what holds of
//! whatever they found; the relay takes what was read as a plain value.

use crate::engine::{begin_spec, Action, Event, EventView, Relay};
use crate::model::{Channel, ChannelView, IncomingMessage};
use twilight_cache_inmemory::InMemoryCache;
use twilight_model::id::Id;
use vstd::prelude::*;

verus! {

#[verifier::external_type_specification]
#[verifier::external_body]
pub struct ExInMemoryCache(InMemoryCache);

/// Reads one channel with `InMemoryCache::channel` and copies its id, guild
/// id and name. The cache files every channel under the channel's own id, so
/// a channel that is found has the id that was asked for. Whether one is
/// found depends on what the cache holds at that moment, of which nothing is
/// claimed. `Id::new` panics on zero, which is left out.
#[verifier::external_body]
fn cached_channel(cache: &InMemoryCache, channel_id: u64) -> (found: Option<Channel>)
    requires
        channel_id != 0,
    ensures
        found matches Some(channel) ==> channel.id == channel_id,
{
    cache.channel(Id::new(channel_id)).map(
        |channel| Channel {
            id: channel.id.get(),
            guild_id: channel.guild_id.map(Id::get),
            name: channel.name.clone(),
        },
    )
}

/// Reads every channel with `InMemoryCache::iter` and `channels`, and copies
/// the id, guild id and name of each. Which channels come, and in which
/// order, depends on what the cache holds at that moment: nothing is claimed
/// of the result.
#[verifier::external_body]
fn cached_channels(cache: &InMemoryCache) -> (channels: Vec<Channel>) {
    cache.iter().channels().map(
        |channel| Channel {
            id: channel.id.get(),
            guild_id: channel.guild_id.map(Id::get),
            name: channel.name.clone(),
        },
    ).collect()
}

/// Looks a channel up by its id. No channel has the id zero.
pub fn lookup(cache: &InMemoryCache, channel_id: u64) -> (found: Option<Channel>)
    ensures
        channel_id == 0 ==> found is None,
        found matches Some(channel) ==> channel.id == channel_id,
{
    if channel_id == 0 {
        None
    } else {
        cached_channel(cache, channel_id)
    }
}

/// Starts the relay of `message`, with its source channel looked up in the
/// cache: the relay starts as [`Relay::begin`] starts it for some channel of
/// the message's channel id, or for none.
pub fn begin(cache: &InMemoryCache, message: IncomingMessage) -> (out: (Relay, Action))
    ensures
        exists|source: Option<ChannelView>|
            {
                &&& (out.0@, out.1@) == #[trigger] begin_spec(message@, source)
                &&& source matches Some(channel) ==> channel.id == message.channel_id
            },
        out.0@.wf(),
{
    let source = lookup(cache, message.channel_id);
    let ghost seen = source.deep_view();
    let out = match &source {
        Some(channel) => Relay::begin(message, Some(channel)),
        None => Relay::begin(message, None),
    };
    assert((out.0@, out.1@) == begin_spec(message@, seen));
    out
}

/// Answers a relay that asked for the directory's channels with those that
/// the cache holds: the relay goes on as [`Relay::handle_event`] takes it for
/// some listing of channels.
pub fn enumerate(cache: &InMemoryCache, relay: Relay) -> (out: (Relay, Action))
    ensures
        exists|channels: Seq<ChannelView>|
            (out.0@, out.1@) == #[trigger] relay@.step(EventView::ChannelsEnumerated { channels }),
        out.0@.wf(),
{
    let channels = cached_channels(cache);
    let ghost seen = channels.deep_view();
    let out = relay.handle_event(Event::ChannelsEnumerated { channels });
    assert((out.0@, out.1@) == relay@.step(EventView::ChannelsEnumerated { channels: seen }));
    out
}

} // verus!

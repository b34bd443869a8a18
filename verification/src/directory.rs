//! What the relay reads from the channel directory: whether a message
//! qualifies for relaying, and which channels it is relayed to.

use crate::model::{Channel, ChannelView, IncomingMessage, IncomingMessageView};
use vstd::prelude::*;

verus! {

/// A message qualifies when its author is no bot or webhook and its source
/// channel is known and carries the reserved relay name.
pub open spec fn eligible(message: IncomingMessageView, source: Option<ChannelView>) -> bool {
    &&& !message.is_bot
    &&& source matches Some(channel) && channel.is_relay()
}

/// Decides whether a message qualifies for relaying. `source` is what the
/// directory holds for the message's channel, `None` where it is unknown.
pub fn is_eligible(message: &IncomingMessage, source: Option<&Channel>) -> (b: bool)
    ensures
        b == eligible(message@, source.deep_view()),
{
    if message.is_bot {
        return false;
    }
    match source {
        Some(channel) => channel.is_relay(),
        None => false,
    }
}

/// A relay destination for a message from `source_id`: a channel of the
/// reserved name other than the source itself.
pub open spec fn is_destination(channel: ChannelView, source_id: u64) -> bool {
    channel.is_relay() && channel.id != source_id
}

/// [`is_destination`] as a predicate on channels.
pub open spec fn destination_filter(source_id: u64) -> spec_fn(ChannelView) -> bool {
    |channel: ChannelView| is_destination(channel, source_id)
}

/// The id of a channel, as a function on channels.
pub open spec fn channel_id() -> spec_fn(ChannelView) -> u64 {
    |channel: ChannelView| channel.id
}

/// The ids of the relay destinations among `channels`, in directory order.
pub open spec fn destinations_of(channels: Seq<ChannelView>, source_id: u64) -> Seq<u64> {
    channels.filter(destination_filter(source_id)).map_values(channel_id())
}

/// Enumerates the relay destinations for a message from `source_id`.
pub fn destinations(channels: &Vec<Channel>, source_id: u64) -> (ids: Vec<u64>)
    ensures
        ids@ == destinations_of(channels.deep_view(), source_id),
{
    let ghost all = channels.deep_view();
    let mut ids: Vec<u64> = Vec::new();
    let mut i: usize = 0;
    proof {
        reveal(Seq::filter);
        assert(all.take(0).filter(destination_filter(source_id)) =~= Seq::empty());
    }
    while i < channels.len()
        invariant
            i <= channels.len(),
            all == channels.deep_view(),
            ids@ == destinations_of(all.take(i as int), source_id),
        decreases channels.len() - i,
    {
        let channel = &channels[i];
        let keep = channel.is_relay() && channel.id != source_id;
        proof {
            let before = all.take(i as int);
            assert(all.take(i + 1) =~= before.push(channel@));
            before.lemma_filter_push(channel@, destination_filter(source_id));
            if keep {
                assert(before.push(channel@).filter(destination_filter(source_id)).map_values(
                    channel_id(),
                ) =~= destinations_of(before, source_id).push(channel.id));
            }
        }
        if keep {
            ids.push(channel.id);
        }
        i += 1;
    }
    proof {
        assert(all.take(i as int) =~= all);
    }
    ids
}

/// Every destination is the id of a listed channel of the reserved name, and
/// none is the source.
pub proof fn lemma_destinations_are_other_relay_channels(
    channels: Seq<ChannelView>,
    source_id: u64,
    k: int,
)
    requires
        0 <= k < destinations_of(channels, source_id).len(),
    ensures
        destinations_of(channels, source_id)[k] != source_id,
        exists|j: int|
            0 <= j < channels.len() && (#[trigger] channels[j]).is_relay() && channels[j].id
                == destinations_of(channels, source_id)[k],
{
    let kept = channels.filter(destination_filter(source_id));
    channels.lemma_filter_pred(destination_filter(source_id), k);
    assert(kept.contains(kept[k]));
    channels.lemma_filter_contains_rev(destination_filter(source_id), kept[k]);
    let j = choose|j: int| 0 <= j < channels.len() && channels[j] == kept[k];
    assert(channels[j].is_relay());
}

/// Every listed channel of the reserved name other than the source is
/// among the destinations.
pub proof fn lemma_destinations_are_complete(channels: Seq<ChannelView>, source_id: u64, j: int)
    requires
        0 <= j < channels.len(),
        is_destination(channels[j], source_id),
    ensures
        destinations_of(channels, source_id).contains(channels[j].id),
{
    let kept = channels.filter(destination_filter(source_id));
    channels.lemma_filter_contains(destination_filter(source_id), j);
    let k = choose|k: int| 0 <= k < kept.len() && kept[k] == channels[j];
    assert(destinations_of(channels, source_id)[k] == channels[j].id);
}

/// Whether no two of `channels` share an id.
pub open spec fn distinct_ids(channels: Seq<ChannelView>) -> bool {
    forall|i: int, j: int|
        0 <= i < j < channels.len() ==> (#[trigger] channels[i]).id != (#[trigger] channels[j]).id
}

/// Whether no value occurs twice in `ids`.
pub open spec fn distinct(ids: Seq<u64>) -> bool {
    forall|i: int, j: int| 0 <= i < j < ids.len() ==> #[trigger] ids[i] != #[trigger] ids[j]
}

/// Channels of distinct ids give distinct destinations.
pub proof fn lemma_destinations_are_distinct(channels: Seq<ChannelView>, source_id: u64)
    requires
        distinct_ids(channels),
    ensures
        distinct(destinations_of(channels, source_id)),
    decreases channels.len(),
{
    let found = destinations_of(channels, source_id);
    if channels.len() == 0 {
        reveal(Seq::filter);
        assert(channels.filter(destination_filter(source_id)) =~= Seq::empty());
    } else {
        let earlier = channels.drop_last();
        let last = channels.last();
        let before = destinations_of(earlier, source_id);
        assert(channels =~= earlier.push(last));
        assert(distinct_ids(earlier)) by {
            assert forall|i: int, j: int| 0 <= i < j < earlier.len() implies (
            #[trigger] earlier[i]).id != (#[trigger] earlier[j]).id by {
                assert(earlier[i] == channels[i] && earlier[j] == channels[j]);
            }
        }
        lemma_destinations_are_distinct(earlier, source_id);
        earlier.lemma_filter_push(last, destination_filter(source_id));
        if is_destination(last, source_id) {
            assert(found =~= before.push(last.id));
            assert forall|i: int, j: int| 0 <= i < j < found.len() implies #[trigger] found[i]
                != #[trigger] found[j] by {
                if j == before.len() {
                    lemma_destinations_are_other_relay_channels(earlier, source_id, i);
                    let k = choose|k: int|
                        0 <= k < earlier.len() && (#[trigger] earlier[k]).is_relay() && earlier[k].id
                            == before[i];
                    assert(channels[k].id != channels[channels.len() - 1].id);
                } else {
                    assert(found[i] == before[i] && found[j] == before[j]);
                }
            }
        } else {
            assert(found =~= before);
        }
    }
}

} // verus!

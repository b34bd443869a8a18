//! What holds of every relay, whatever its driver reports.
//!
//! A relay is followed from its start through any sequence of events:
//! [`run`] is the state it reaches, [`answers`] the actions it gives on the
//! way. The laws speak of the requests found among those actions.

use crate::directory::{
    destinations_of, distinct, distinct_ids, eligible, lemma_destinations_are_distinct,
    lemma_destinations_are_other_relay_channels,
};
use crate::engine::{begin_spec, ActionView, EventView, Outcome, Phase, RelayView};
use crate::model::{relay_name, ChannelView, IncomingMessageView, RelayedMessage};
use crate::store::{
    copy_and_channel, lemma_lookup_is_append_only, lemma_lookup_of_own_rows, lookup_all,
};
use crate::webhook::{first_relay, lemma_first_relay_from};
use vstd::prelude::*;

verus! {

/// The state that a relay reaches from `start` by handling `events` in turn.
pub open spec fn run(start: RelayView, events: Seq<EventView>) -> RelayView
    decreases events.len(),
{
    if events.len() == 0 {
        start
    } else {
        run(start, events.drop_last()).step(events.last()).0
    }
}

/// The actions that a relay gives in answer to `events`, handled in turn
/// from `start`.
pub open spec fn answers(start: RelayView, events: Seq<EventView>) -> Seq<ActionView>
    decreases events.len(),
{
    if events.len() == 0 {
        Seq::empty()
    } else {
        answers(start, events.drop_last()).push(
            run(start, events.drop_last()).step(events.last()).1,
        )
    }
}

/// The destinations whose webhooks `actions` ask to list, in order.
pub open spec fn listing_targets(actions: Seq<ActionView>) -> Seq<u64>
    decreases actions.len(),
{
    if actions.len() == 0 {
        Seq::empty()
    } else {
        let earlier = listing_targets(actions.drop_last());
        match actions.last() {
            ActionView::ListWebhooks { channel_id } => earlier.push(channel_id),
            _ => earlier,
        }
    }
}

/// The destinations that `actions` ask to post to, in order.
pub open spec fn dispatch_targets(actions: Seq<ActionView>) -> Seq<u64>
    decreases actions.len(),
{
    if actions.len() == 0 {
        Seq::empty()
    } else {
        let earlier = dispatch_targets(actions.drop_last());
        match actions.last() {
            ActionView::ExecuteWebhook { channel_id, .. } => earlier.push(channel_id),
            _ => earlier,
        }
    }
}

/// The mapping rows that `actions` ask to store, in order.
pub open spec fn recorded_rows(actions: Seq<ActionView>) -> Seq<RelayedMessage>
    decreases actions.len(),
{
    if actions.len() == 0 {
        Seq::empty()
    } else {
        let earlier = recorded_rows(actions.drop_last());
        match actions.last() {
            ActionView::RecordMapping { row } => earlier.push(row),
            _ => earlier,
        }
    }
}

/// Whether `actions` ask anything of the platform or the store: a download,
/// a directory read, a webhook listed, created or posted through, a row
/// stored.
pub open spec fn asks_nothing(actions: Seq<ActionView>) -> bool {
    forall|i: int|
        0 <= i < actions.len() ==> (#[trigger] actions[i]) is Finish || actions[i] is Reject
}

/// The destinations, among the first `outcomes.len()`, to which posting was
/// tried.
pub open spec fn dispatched_among(destinations: Seq<u64>, outcomes: Seq<Outcome>) -> Seq<u64>
    decreases outcomes.len(),
{
    if outcomes.len() == 0 {
        Seq::empty()
    } else {
        let earlier = dispatched_among(destinations, outcomes.drop_last());
        if outcomes.last().reached_dispatch() {
            earlier.push(destinations[outcomes.len() - 1])
        } else {
            earlier
        }
    }
}

/// One row for each of the first `outcomes.len()` destinations that a copy
/// was posted to, and none for the others.
pub open spec fn rows_among(
    original_message_id: u64,
    destinations: Seq<u64>,
    outcomes: Seq<Outcome>,
) -> Seq<RelayedMessage>
    decreases outcomes.len(),
{
    if outcomes.len() == 0 {
        Seq::empty()
    } else {
        let earlier = rows_among(original_message_id, destinations, outcomes.drop_last());
        match outcomes.last().relayed_id() {
            Some(relayed_message_id) => earlier.push(
                RelayedMessage {
                    original_message_id,
                    relayed_message_id,
                    destination_channel_id: destinations[outcomes.len() - 1],
                },
            ),
            None => earlier,
        }
    }
}

/// Whether the relay is at work on a destination.
pub open spec fn at_work(state: RelayView) -> bool {
    state.phase is Listing || state.phase is Creating || state.phase is Dispatching
        || state.phase is Recording
}

/// How many destinations the relay has turned to so far.
pub open spec fn begun(state: RelayView) -> int {
    if at_work(state) {
        state.outcomes.len() as int + 1
    } else {
        state.outcomes.len() as int
    }
}

/// The destinations that the relay has tried to post to so far.
pub open spec fn dispatched(state: RelayView) -> Seq<u64> {
    let earlier = dispatched_among(state.destinations, state.outcomes);
    if state.phase is Dispatching || state.phase is Recording {
        earlier.push(state.target())
    } else {
        earlier
    }
}

/// The rows that the relay has asked to store so far.
pub open spec fn rows(state: RelayView) -> Seq<RelayedMessage> {
    let earlier = rows_among(state.message.id, state.destinations, state.outcomes);
    match state.phase {
        Phase::Recording { relayed_message_id } => earlier.push(state.row_for(relayed_message_id)),
        _ => earlier,
    }
}

proof fn lemma_extend_listing(actions: Seq<ActionView>, action: ActionView)
    ensures
        listing_targets(actions.push(action)) == match action {
            ActionView::ListWebhooks { channel_id } => listing_targets(actions).push(channel_id),
            _ => listing_targets(actions),
        },
        dispatch_targets(actions.push(action)) == match action {
            ActionView::ExecuteWebhook { channel_id, .. } => dispatch_targets(actions).push(
                channel_id,
            ),
            _ => dispatch_targets(actions),
        },
        recorded_rows(actions.push(action)) == match action {
            ActionView::RecordMapping { row } => recorded_rows(actions).push(row),
            _ => recorded_rows(actions),
        },
{
    assert(actions.push(action).drop_last() =~= actions);
}

proof fn lemma_extend_outcomes(
    original_message_id: u64,
    destinations: Seq<u64>,
    outcomes: Seq<Outcome>,
    outcome: Outcome,
)
    ensures
        dispatched_among(destinations, outcomes.push(outcome)) == if outcome.reached_dispatch() {
            dispatched_among(destinations, outcomes).push(destinations[outcomes.len() as int])
        } else {
            dispatched_among(destinations, outcomes)
        },
        rows_among(original_message_id, destinations, outcomes.push(outcome))
            == match outcome.relayed_id() {
            Some(relayed_message_id) => rows_among(
                original_message_id,
                destinations,
                outcomes,
            ).push(
                RelayedMessage {
                    original_message_id,
                    relayed_message_id,
                    destination_channel_id: destinations[outcomes.len() as int],
                },
            ),
            None => rows_among(original_message_id, destinations, outcomes),
        },
{
    assert(outcomes.push(outcome).drop_last() =~= outcomes);
}

/// One transition keeps the state well formed and the message as it was,
/// and the books in step with the action given.
proof fn lemma_step(state: RelayView, event: EventView)
    requires
        state.wf(),
    ensures
        ({
            let (next, action) = state.step(event);
            &&& next.wf()
            &&& next.message == state.message
            &&& !(state.phase is Enumerating) ==> next.destinations == state.destinations
            &&& state.finished() ==> next == state && action is Reject
            &&& !(state.phase is Fetching || state.phase is Enumerating) ==> !(next.phase
                is Fetching || next.phase is Enumerating)
            &&& next.destinations.take(begun(next)) == match action {
                ActionView::ListWebhooks { channel_id } => state.destinations.take(
                    begun(state),
                ).push(channel_id),
                _ => state.destinations.take(begun(state)),
            }
            &&& dispatched(next) == match action {
                ActionView::ExecuteWebhook { channel_id, .. } => dispatched(state).push(channel_id),
                _ => dispatched(state),
            }
            &&& rows(next) == match action {
                ActionView::RecordMapping { row } => rows(state).push(row),
                _ => rows(state),
            }
        }),
{
    let (next, action) = state.step(event);
    match (state.phase, event) {
        (Phase::Fetching, EventView::AttachmentFetched { bytes }) => {
            assert(next.destinations.take(0) =~= state.destinations.take(0));
        },
        (Phase::Enumerating, EventView::ChannelsEnumerated { channels }) => {
            let found = destinations_of(channels, state.message.channel_id);
            assert forall|i: int| 0 <= i < found.len() implies (#[trigger] found[i])
                != state.message.channel_id by {
                lemma_destinations_are_other_relay_channels(channels, state.message.channel_id, i);
            }
            assert(state.outcomes.len() == 0);
            assert(state.destinations.take(0) =~= Seq::<u64>::empty());
            if found.len() > 0 {
                assert(found.take(1) =~= Seq::<u64>::empty().push(found[0]));
            } else {
                assert(found.take(0) =~= Seq::<u64>::empty());
            }
        },
        (Phase::Listing, EventView::Failed)
        | (Phase::Creating, EventView::Failed)
        | (Phase::Dispatching, EventView::Failed)
        | (Phase::Recording { .. }, EventView::Failed)
        | (Phase::Recording { .. }, EventView::MappingRecorded) => {
            let outcome = next.outcomes.last();
            assert(next.outcomes == state.outcomes.push(outcome));
            lemma_extend_outcomes(state.message.id, state.destinations, state.outcomes, outcome);
            let n = state.outcomes.len() as int;
            if n + 1 < state.destinations.len() {
                assert(state.destinations.take(n + 2) =~= state.destinations.take(n + 1).push(
                    state.destinations[n + 1],
                ));
            }
        },
        _ => {},
    }
}

/// Handling events one after the other keeps the books of [`lemma_step`]
/// over the whole run.
proof fn lemma_run(start: RelayView, events: Seq<EventView>)
    requires
        start.wf(),
    ensures
        ({
            let end = run(start, events);
            let given = answers(start, events);
            &&& end.wf()
            &&& given.len() == events.len()
            &&& end.message == start.message
            &&& !(start.phase is Fetching || start.phase is Enumerating) ==> {
                &&& end.destinations == start.destinations
                &&& !(end.phase is Fetching || end.phase is Enumerating)
            }
            &&& start.finished() ==> end == start && asks_nothing(given)
            &&& end.destinations.take(begun(end)) == start.destinations.take(begun(start))
                + listing_targets(given)
            &&& dispatched(end) == dispatched(start) + dispatch_targets(given)
            &&& rows(end) == rows(start) + recorded_rows(given)
        }),
    decreases events.len(),
{
    let given = answers(start, events);
    if events.len() == 0 {
        assert(start.destinations.take(begun(start)) + listing_targets(given)
            =~= start.destinations.take(begun(start)));
        assert(dispatched(start) + dispatch_targets(given) =~= dispatched(start));
        assert(rows(start) + recorded_rows(given) =~= rows(start));
    } else {
        let earlier = events.drop_last();
        let middle = run(start, earlier);
        let so_far = answers(start, earlier);
        lemma_run(start, earlier);
        lemma_step(middle, events.last());
        let (end, action) = middle.step(events.last());
        lemma_extend_listing(so_far, action);
        assert(given == so_far.push(action));
        assert(start.destinations.take(begun(start)) + listing_targets(given)
            =~= end.destinations.take(begun(end)));
        assert(dispatched(start) + dispatch_targets(given) =~= dispatched(end));
        assert(rows(start) + recorded_rows(given) =~= rows(end));
        if start.finished() {
            assert forall|i: int| 0 <= i < given.len() implies (#[trigger] given[i]) is Finish
                || given[i] is Reject by {
                if i < so_far.len() {
                    assert(given[i] == so_far[i]);
                }
            }
        }
    }
}

/// A run over `first` and then `second` is the run over `second` from where
/// the run over `first` ends.
proof fn lemma_run_split(start: RelayView, first: Seq<EventView>, second: Seq<EventView>)
    ensures
        run(start, first + second) == run(run(start, first), second),
        answers(start, first + second) == answers(start, first) + answers(
            run(start, first),
            second,
        ),
    decreases second.len(),
{
    if second.len() == 0 {
        assert(first + second =~= first);
        assert(answers(start, first) + answers(run(start, first), second) =~= answers(
            start,
            first,
        ));
    } else {
        lemma_run_split(start, first, second.drop_last());
        assert((first + second).drop_last() =~= first + second.drop_last());
        assert((first + second).last() == second.last());
        assert(answers(start, first + second) =~= answers(start, first) + answers(
            run(start, first),
            second,
        ));
    }
}

/// Every destination posted to is one that the relay has turned to.
proof fn lemma_dispatched_within(state: RelayView, k: int)
    requires
        state.wf(),
        0 <= k < dispatched(state).len(),
    ensures
        exists|i: int| 0 <= i < state.destinations.len() && dispatched(state)[k] == #[trigger] state.destinations[i],
{
    if state.phase is Dispatching || state.phase is Recording {
        let earlier = dispatched_among(state.destinations, state.outcomes);
        if k == earlier.len() {
            assert(dispatched(state)[k] == state.destinations[state.outcomes.len() as int]);
        } else {
            lemma_dispatched_among_within(state.destinations, state.outcomes, k);
        }
    } else {
        lemma_dispatched_among_within(state.destinations, state.outcomes, k);
    }
}

proof fn lemma_dispatched_among_within(destinations: Seq<u64>, outcomes: Seq<Outcome>, k: int)
    requires
        outcomes.len() <= destinations.len(),
        0 <= k < dispatched_among(destinations, outcomes).len(),
    ensures
        exists|i: int|
            0 <= i < outcomes.len() && dispatched_among(destinations, outcomes)[k]
                == #[trigger] destinations[i],
    decreases outcomes.len(),
{
    let earlier = dispatched_among(destinations, outcomes.drop_last());
    if k < earlier.len() {
        lemma_dispatched_among_within(destinations, outcomes.drop_last(), k);
        let i = choose|i: int|
            0 <= i < outcomes.drop_last().len() && earlier[k] == #[trigger] destinations[i];
        assert(dispatched_among(destinations, outcomes)[k] == destinations[i]);
    } else {
        assert(dispatched_among(destinations, outcomes)[k] == destinations[outcomes.len() - 1]);
    }
}

/// Where posting was tried on each of the first `outcomes.len()`
/// destinations, those tried are exactly these destinations.
proof fn lemma_dispatched_among_all(destinations: Seq<u64>, outcomes: Seq<Outcome>)
    requires
        outcomes.len() <= destinations.len(),
        forall|i: int| 0 <= i < outcomes.len() ==> (#[trigger] outcomes[i]).reached_dispatch(),
    ensures
        dispatched_among(destinations, outcomes) == destinations.take(outcomes.len() as int),
    decreases outcomes.len(),
{
    if outcomes.len() > 0 {
        lemma_dispatched_among_all(destinations, outcomes.drop_last());
        assert(outcomes.last() == outcomes[outcomes.len() - 1]);
        assert(destinations.take(outcomes.len() as int) =~= destinations.take(
            outcomes.len() - 1,
        ).push(destinations[outcomes.len() - 1]));
    } else {
        assert(destinations.take(0) =~= Seq::<u64>::empty());
    }
}

/// A message that does not qualify starts a relay that has ended, and that
/// answers whatever it is told by setting it aside.
proof fn lemma_ignored(
    message: IncomingMessageView,
    source: Option<ChannelView>,
    events: Seq<EventView>,
)
    requires
        !eligible(message, source),
    ensures
        begin_spec(message, source).0.phase is Ignored,
        begin_spec(message, source).1 is Finish,
        run(begin_spec(message, source).0, events) == begin_spec(message, source).0,
        asks_nothing(answers(begin_spec(message, source).0, events)),
{
    lemma_run(begin_spec(message, source).0, events);
}

/// No message from a channel that is unknown to the directory, or that does
/// not carry the reserved name, is relayed: its relay ends as it starts, and
/// asks for no download, no listing, no webhook and no post, whatever it is
/// told afterwards.
pub proof fn law_message_from_foreign_channel_is_not_relayed(
    message: IncomingMessageView,
    source: Option<ChannelView>,
    events: Seq<EventView>,
)
    requires
        source matches Some(channel) ==> !channel.is_relay(),
    ensures
        begin_spec(message, source).0.finished(),
        begin_spec(message, source).1 is Finish,
        asks_nothing(answers(begin_spec(message, source).0, events)),
        dispatch_targets(answers(begin_spec(message, source).0, events)).len() == 0,
{
    lemma_ignored(message, source, events);
    lemma_asks_nothing_posts_nothing(answers(begin_spec(message, source).0, events));
}

/// No message written by a bot or a webhook is relayed: its relay ends as it
/// starts, and asks for no download, no listing, no webhook and no post,
/// whatever it is told afterwards.
pub proof fn law_message_from_bot_is_not_relayed(
    message: IncomingMessageView,
    source: Option<ChannelView>,
    events: Seq<EventView>,
)
    requires
        message.is_bot,
    ensures
        begin_spec(message, source).0.finished(),
        begin_spec(message, source).1 is Finish,
        asks_nothing(answers(begin_spec(message, source).0, events)),
        dispatch_targets(answers(begin_spec(message, source).0, events)).len() == 0,
{
    lemma_ignored(message, source, events);
    lemma_asks_nothing_posts_nothing(answers(begin_spec(message, source).0, events));
}

proof fn lemma_asks_nothing_posts_nothing(actions: Seq<ActionView>)
    requires
        asks_nothing(actions),
    ensures
        listing_targets(actions).len() == 0,
        dispatch_targets(actions).len() == 0,
        recorded_rows(actions).len() == 0,
    decreases actions.len(),
{
    if actions.len() > 0 {
        assert(actions.last() == actions[actions.len() - 1]);
        lemma_asks_nothing_posts_nothing(actions.drop_last());
    }
}

/// A relay that is told of the directory's channels and runs to its end has
/// turned to each destination exactly once, in directory order, whatever
/// failed on the way: the webhooks listed are those of the channels of the
/// reserved name other than the source, one listing each. Posting was tried
/// on those of them where a webhook was found or created, and so on all of
/// them where no listing and no creation failed. The source is never posted
/// to.
pub proof fn law_each_destination_is_attempted_once(
    message: IncomingMessageView,
    source: Option<ChannelView>,
    before: Seq<EventView>,
    channels: Seq<ChannelView>,
    after: Seq<EventView>,
)
    requires
        run(begin_spec(message, source).0, before).phase is Enumerating,
        run(
            begin_spec(message, source).0,
            before + seq![EventView::ChannelsEnumerated { channels }] + after,
        ).phase is Completed,
    ensures
        ({
            let start = begin_spec(message, source).0;
            let events = before + seq![EventView::ChannelsEnumerated { channels }] + after;
            let end = run(start, events);
            let given = answers(start, events);
            let found = destinations_of(channels, message.channel_id);
            &&& end.destinations == found
            &&& end.outcomes.len() == found.len()
            &&& listing_targets(given) == found
            &&& dispatch_targets(given) == dispatched_among(found, end.outcomes)
            &&& (forall|i: int|
                0 <= i < end.outcomes.len() ==> (#[trigger] end.outcomes[i]).reached_dispatch())
                ==> dispatch_targets(given) == found
            &&& !listing_targets(given).contains(message.channel_id)
            &&& !dispatch_targets(given).contains(message.channel_id)
        }),
{
    let start = begin_spec(message, source).0;
    let told = EventView::ChannelsEnumerated { channels };
    let events = before + seq![told] + after;
    let found = destinations_of(channels, message.channel_id);
    lemma_begin(message, source);
    lemma_run(start, before);
    let at_directory = run(start, before);
    lemma_run_split(start, before, seq![told]);
    let listed = run(start, before + seq![told]);
    assert(seq![told].drop_last() =~= Seq::<EventView>::empty());
    assert(listed == at_directory.step(told).0);
    lemma_step(at_directory, told);
    lemma_run_split(start, before + seq![told], after);
    lemma_run(listed, after);
    lemma_run(start, events);
    let end = run(start, events);
    let given = answers(start, events);
    assert(end.destinations == found);
    assert(begun(start) == 0);
    assert(found.take(found.len() as int) =~= found);
    assert(start.destinations.take(0) + listing_targets(given) =~= listing_targets(given));
    assert(dispatched(start) + dispatch_targets(given) =~= dispatch_targets(given));
    if forall|i: int|
        0 <= i < end.outcomes.len() ==> (#[trigger] end.outcomes[i]).reached_dispatch() {
        lemma_dispatched_among_all(found, end.outcomes);
    }
    assert forall|k: int| 0 <= k < dispatch_targets(given).len() implies dispatch_targets(
        given,
    )[k] != message.channel_id by {
        lemma_dispatched_within(end, k);
    }
}

/// A relay starts well formed, with nothing begun.
proof fn lemma_begin(message: IncomingMessageView, source: Option<ChannelView>)
    ensures
        begin_spec(message, source).0.wf(),
        begin_spec(message, source).0.message == message,
        begin_spec(message, source).0.outcomes.len() == 0,
        begin_spec(message, source).0.destinations.len() == 0,
        !at_work(begin_spec(message, source).0),
        dispatched(begin_spec(message, source).0).len() == 0,
        rows(begin_spec(message, source).0).len() == 0,
        !(begin_spec(message, source).1 is ListWebhooks),
        !(begin_spec(message, source).1 is CreateWebhook),
        !(begin_spec(message, source).1 is ExecuteWebhook),
        !(begin_spec(message, source).1 is RecordMapping),
{
}

/// A failure on one destination ends the work on that destination alone:
/// the outcomes of the destinations before it stand, the failure is noted as
/// its own outcome, and the relay turns to the destination after it, or ends
/// where there is none left.
pub proof fn law_failure_stays_with_its_destination(state: RelayView)
    requires
        state.wf(),
        at_work(state),
    ensures
        ({
            let (next, action) = state.step(EventView::Failed);
            let reached = state.outcomes.len() as int;
            &&& next.destinations == state.destinations
            &&& next.outcomes.len() == reached + 1
            &&& next.outcomes.take(reached) == state.outcomes
            &&& match state.phase {
                Phase::Recording { relayed_message_id } => next.outcomes[reached]
                    == Outcome::DeliveredUnrecorded { relayed_message_id },
                _ => next.outcomes[reached] is Failed,
            }
            &&& if reached + 1 < state.destinations.len() {
                &&& next.phase is Listing
                &&& action == ActionView::ListWebhooks {
                    channel_id: state.destinations[reached + 1],
                }
            } else {
                &&& next.phase is Completed
                &&& action is Finish
            }
        }),
{
    let (next, action) = state.step(EventView::Failed);
    assert(next.outcomes.take(state.outcomes.len() as int) =~= state.outcomes);
}

/// A webhook is created only in answer to a listing that holds none of the
/// reserved name, on the destination that was listed and under the reserved
/// name; a listing that holds one is answered by posting through the first
/// such. While the creation is outstanding no second one is asked for.
pub proof fn law_webhook_is_created_only_where_none_is_listed(state: RelayView, event: EventView)
    requires
        state.wf(),
    ensures
        state.step(event).1 is CreateWebhook <==> state.phase is Listing && match event {
            EventView::WebhooksListed { webhooks } => forall|i: int|
                0 <= i < webhooks.len() ==> !(#[trigger] webhooks[i]).is_relay(),
            _ => false,
        },
        match state.step(event).1 {
            ActionView::CreateWebhook { channel_id, name } => {
                &&& channel_id == state.target()
                &&& name == relay_name()
                &&& state.step(event).0.phase is Creating
            },
            _ => true,
        },
        state.phase is Listing ==> match event {
            EventView::WebhooksListed { webhooks } => match first_relay(webhooks) {
                Some(i) => {
                    &&& 0 <= i < webhooks.len()
                    &&& webhooks[i].is_relay()
                    &&& forall|j: int| 0 <= j < i ==> !(#[trigger] webhooks[j]).is_relay()
                    &&& state.step(event).1 == ActionView::ExecuteWebhook {
                        channel_id: state.target(),
                        webhook_id: webhooks[i].id,
                        token: webhooks[i].posting_token(),
                    }
                },
                None => true,
            },
            _ => true,
        },
{
    if let EventView::WebhooksListed { webhooks } = event {
        lemma_first_relay_from(webhooks, 0);
    }
}

/// The rows that a relay asks to store are those of its deliveries: one row
/// `(original id, copy id, destination)` for each destination that a copy
/// was posted to, in order, and none for a destination where posting failed
/// or was never tried. No row names the source channel.
pub proof fn law_one_row_for_each_delivery(
    message: IncomingMessageView,
    source: Option<ChannelView>,
    events: Seq<EventView>,
)
    ensures
        ({
            let start = begin_spec(message, source).0;
            let end = run(start, events);
            let stored = recorded_rows(answers(start, events));
            &&& stored == rows(end)
            &&& end.finished() ==> stored == rows_among(message.id, end.destinations, end.outcomes)
            &&& forall|k: int|
                0 <= k < stored.len() ==> {
                    &&& (#[trigger] stored[k]).original_message_id == message.id
                    &&& stored[k].destination_channel_id != message.channel_id
                }
        }),
{
    let start = begin_spec(message, source).0;
    lemma_begin(message, source);
    lemma_run(start, events);
    let end = run(start, events);
    let stored = recorded_rows(answers(start, events));
    assert(rows(start) + stored =~= stored);
    assert forall|k: int| 0 <= k < stored.len() implies {
        &&& (#[trigger] stored[k]).original_message_id == message.id
        &&& stored[k].destination_channel_id != message.channel_id
    } by {
        lemma_rows_within(end, k);
    }
}

proof fn lemma_rows_within(state: RelayView, k: int)
    requires
        state.wf(),
        0 <= k < rows(state).len(),
    ensures
        rows(state)[k].original_message_id == state.message.id,
        exists|i: int|
            0 <= i < state.destinations.len() && rows(state)[k].destination_channel_id
                == #[trigger] state.destinations[i],
{
    let earlier = rows_among(state.message.id, state.destinations, state.outcomes);
    if k < earlier.len() {
        lemma_rows_among_within(state.message.id, state.destinations, state.outcomes, k);
    } else {
        assert(rows(state)[k].destination_channel_id
            == state.destinations[state.outcomes.len() as int]);
    }
}

proof fn lemma_rows_among_within(
    original_message_id: u64,
    destinations: Seq<u64>,
    outcomes: Seq<Outcome>,
    k: int,
)
    requires
        outcomes.len() <= destinations.len(),
        0 <= k < rows_among(original_message_id, destinations, outcomes).len(),
    ensures
        rows_among(original_message_id, destinations, outcomes)[k].original_message_id
            == original_message_id,
        exists|i: int|
            0 <= i < outcomes.len() && rows_among(
                original_message_id,
                destinations,
                outcomes,
            )[k].destination_channel_id == #[trigger] destinations[i],
    decreases outcomes.len(),
{
    let earlier = rows_among(original_message_id, destinations, outcomes.drop_last());
    if k < earlier.len() {
        lemma_rows_among_within(original_message_id, destinations, outcomes.drop_last(), k);
        let i = choose|i: int|
            0 <= i < outcomes.drop_last().len() && earlier[k].destination_channel_id
                == #[trigger] destinations[i];
        assert(rows_among(original_message_id, destinations, outcomes)[k].destination_channel_id
            == destinations[i]);
    } else {
        assert(rows_among(original_message_id, destinations, outcomes)[k].destination_channel_id
            == destinations[outcomes.len() - 1]);
    }
}

/// Once the rows that a relay asks for are written to a table that held none
/// of its message, a lookup of the message gives the copy and the channel of
/// each delivery, in order, and nothing else; the lookup of any other message
/// gives what it gave before.
pub proof fn law_lookup_finds_the_deliveries(
    message: IncomingMessageView,
    source: Option<ChannelView>,
    events: Seq<EventView>,
    table: Seq<RelayedMessage>,
)
    requires
        lookup_all(table, message.id).len() == 0,
    ensures
        ({
            let stored = recorded_rows(answers(begin_spec(message, source).0, events));
            &&& lookup_all(table + stored, message.id) == stored.map_values(copy_and_channel())
            &&& forall|other: u64|
                other != message.id ==> #[trigger] lookup_all(table + stored, other) == lookup_all(
                    table,
                    other,
                )
        }),
{
    let stored = recorded_rows(answers(begin_spec(message, source).0, events));
    law_one_row_for_each_delivery(message, source, events);
    lemma_lookup_of_own_rows(stored, message.id);
    lemma_lookup_is_append_only(table, stored, message.id);
    assert(lookup_all(table, message.id) + lookup_all(stored, message.id) =~= lookup_all(
        stored,
        message.id,
    ));
    assert forall|other: u64| other != message.id implies #[trigger] lookup_all(
        table + stored,
        other,
    ) == lookup_all(table, other) by {
        lemma_lookup_is_append_only(table, stored, other);
        assert(lookup_all(stored, other).len() == 0);
        assert(lookup_all(table, other) + lookup_all(stored, other) =~= lookup_all(table, other));
    }
}

/// The destinations of rows kept for the first `outcomes.len()` of distinct
/// destinations are positions of strictly earlier destinations, and so
/// distinct themselves.
proof fn lemma_rows_among_distinct(
    original_message_id: u64,
    destinations: Seq<u64>,
    outcomes: Seq<Outcome>,
)
    requires
        outcomes.len() <= destinations.len(),
        distinct(destinations),
    ensures
        forall|a: int, b: int|
            0 <= a < b < rows_among(original_message_id, destinations, outcomes).len() ==> (
            #[trigger] rows_among(
                original_message_id,
                destinations,
                outcomes,
            )[a]).destination_channel_id != (#[trigger] rows_among(
                original_message_id,
                destinations,
                outcomes,
            )[b]).destination_channel_id,
    decreases outcomes.len(),
{
    let kept = rows_among(original_message_id, destinations, outcomes);
    if outcomes.len() > 0 {
        let earlier = rows_among(original_message_id, destinations, outcomes.drop_last());
        lemma_rows_among_distinct(original_message_id, destinations, outcomes.drop_last());
        assert forall|a: int, b: int| 0 <= a < b < kept.len() implies (
        #[trigger] kept[a]).destination_channel_id != (#[trigger] kept[b]).destination_channel_id by {
            if b < earlier.len() {
                assert(kept[a] == earlier[a] && kept[b] == earlier[b]);
            } else {
                lemma_rows_among_within(
                    original_message_id,
                    destinations,
                    outcomes.drop_last(),
                    a,
                );
                let i = choose|i: int|
                    0 <= i < outcomes.drop_last().len() && earlier[a].destination_channel_id
                        == #[trigger] destinations[i];
                assert(kept[a] == earlier[a]);
                assert(kept[b].destination_channel_id == destinations[outcomes.len() - 1]);
                assert(destinations[i] != destinations[outcomes.len() - 1]);
            }
        }
    }
}

/// Where the directory lists no channel twice, no destination gets two rows
/// for one message: the rows that a relay asks to store name pairwise
/// different channels, whatever its driver reports after the listing.
pub proof fn law_at_most_one_row_for_each_destination(
    message: IncomingMessageView,
    source: Option<ChannelView>,
    before: Seq<EventView>,
    channels: Seq<ChannelView>,
    after: Seq<EventView>,
)
    requires
        run(begin_spec(message, source).0, before).phase is Enumerating,
        distinct_ids(channels),
    ensures
        ({
            let events = before + seq![EventView::ChannelsEnumerated { channels }] + after;
            let stored = recorded_rows(answers(begin_spec(message, source).0, events));
            forall|a: int, b: int|
                0 <= a < b < stored.len() ==> (#[trigger] stored[a]).destination_channel_id != (
                #[trigger] stored[b]).destination_channel_id
        }),
{
    let start = begin_spec(message, source).0;
    let told = EventView::ChannelsEnumerated { channels };
    let events = before + seq![told] + after;
    let found = destinations_of(channels, message.channel_id);
    lemma_begin(message, source);
    lemma_run(start, before);
    let at_directory = run(start, before);
    lemma_run_split(start, before, seq![told]);
    let listed = run(start, before + seq![told]);
    assert(seq![told].drop_last() =~= Seq::<EventView>::empty());
    assert(listed == at_directory.step(told).0);
    lemma_step(at_directory, told);
    lemma_run_split(start, before + seq![told], after);
    lemma_run(listed, after);
    let end = run(start, events);
    assert(end.destinations == found);
    law_one_row_for_each_delivery(message, source, events);
    let stored = recorded_rows(answers(start, events));
    lemma_destinations_are_distinct(channels, message.channel_id);
    lemma_rows_among_distinct(message.id, end.destinations, end.outcomes);
    let kept = rows_among(message.id, end.destinations, end.outcomes);
    assert forall|a: int, b: int| 0 <= a < b < stored.len() implies (
    #[trigger] stored[a]).destination_channel_id != (#[trigger] stored[b]).destination_channel_id by {
        if b < kept.len() {
            assert(stored[a] == kept[a] && stored[b] == kept[b]);
        } else {
            lemma_rows_among_within(message.id, end.destinations, end.outcomes, a);
            let i = choose|i: int|
                0 <= i < end.outcomes.len() && kept[a].destination_channel_id
                    == #[trigger] end.destinations[i];
            assert(stored[a] == kept[a]);
            assert(stored[b].destination_channel_id == end.destinations[end.outcomes.len() as int]);
            assert(end.destinations[i] != end.destinations[end.outcomes.len() as int]);
        }
    }
}

/// A relay that ended before anything was sent has sent nothing: where an
/// attachment could not be fetched, or the directory could not be read, no
/// webhook was listed, created or posted through and no row was asked for,
/// nor will be, whatever the driver reports.
pub proof fn law_aborted_relay_sent_nothing(
    message: IncomingMessageView,
    source: Option<ChannelView>,
    events: Seq<EventView>,
)
    requires
        run(begin_spec(message, source).0, events).phase is Aborted,
    ensures
        ({
            let given = answers(begin_spec(message, source).0, events);
            &&& listing_targets(given).len() == 0
            &&& dispatch_targets(given).len() == 0
            &&& recorded_rows(given).len() == 0
            &&& forall|i: int| 0 <= i < given.len() ==> !(#[trigger] given[i] is CreateWebhook)
        }),
{
    let start = begin_spec(message, source).0;
    lemma_begin(message, source);
    lemma_run(start, events);
    lemma_no_creation_before_enumeration(start, events);
}

/// Until the directory's channels are in, no webhook is asked to be created.
proof fn lemma_no_creation_before_enumeration(start: RelayView, events: Seq<EventView>)
    requires
        start.wf(),
        start.destinations.len() == 0,
    ensures
        run(start, events).destinations.len() == 0 ==> forall|i: int|
            0 <= i < events.len() ==> !(#[trigger] answers(start, events)[i] is CreateWebhook),
    decreases events.len(),
{
    if events.len() > 0 {
        let earlier = events.drop_last();
        let middle = run(start, earlier);
        lemma_run(start, earlier);
        lemma_step(middle, events.last());
        lemma_no_creation_before_enumeration(start, earlier);
        if run(start, events).destinations.len() == 0 {
            assert(middle.destinations.len() == 0);
            assert forall|i: int| 0 <= i < events.len() implies !(#[trigger] answers(
                start,
                events,
            )[i] is CreateWebhook) by {
                if i < earlier.len() {
                    assert(answers(start, events)[i] == answers(start, earlier)[i]);
                }
            }
        }
    }
}

/// Where every attachment is fetched, the payload carries them all, in the
/// message's order, each under its own id and file name and with the bytes
/// that were reported for it; the downloads were asked for in that order,
/// each of its own URL, and the directory is asked for next.
pub proof fn law_attachments_keep_their_order(
    message: IncomingMessageView,
    source: Option<ChannelView>,
    contents: Seq<Seq<u8>>,
)
    requires
        eligible(message, source),
        contents.len() == message.attachments.len(),
    ensures
        ({
            let start = begin_spec(message, source);
            let events = contents.map_values(
                |bytes: Seq<u8>| EventView::AttachmentFetched { bytes },
            );
            let end = run(start.0, events);
            let asked = seq![start.1] + answers(start.0, events);
            &&& end.phase is Enumerating
            &&& end.payload().attachments.len() == message.attachments.len()
            &&& forall|i: int|
                0 <= i < message.attachments.len() ==> {
                    &&& (#[trigger] end.payload().attachments[i]).id == message.attachments[i].id
                    &&& end.payload().attachments[i].filename == message.attachments[i].filename
                    &&& end.payload().attachments[i].bytes == contents[i]
                    &&& asked[i] == ActionView::FetchAttachment { url: message.attachments[i].url }
                }
            &&& asked.last() is EnumerateChannels
        }),
{
    lemma_fetching(message, source, contents, contents.len() as int);
    assert(contents.take(contents.len() as int) =~= contents);
}

/// The state of a relay after the first `done` attachments came in.
proof fn lemma_fetching(
    message: IncomingMessageView,
    source: Option<ChannelView>,
    contents: Seq<Seq<u8>>,
    done: int,
)
    requires
        eligible(message, source),
        contents.len() == message.attachments.len(),
        0 <= done <= contents.len(),
    ensures
        ({
            let start = begin_spec(message, source);
            let events = contents.take(done).map_values(
                |bytes: Seq<u8>| EventView::AttachmentFetched { bytes },
            );
            let end = run(start.0, events);
            let asked = seq![start.1] + answers(start.0, events);
            &&& end.wf()
            &&& end.message == message
            &&& end.fetched.len() == done
            &&& asked.len() == done + 1
            &&& end.phase == if done < contents.len() {
                Phase::Fetching
            } else {
                Phase::Enumerating
            }
            &&& forall|i: int|
                0 <= i < done ==> {
                    &&& (#[trigger] end.fetched[i]).id == message.attachments[i].id
                    &&& end.fetched[i].filename == message.attachments[i].filename
                    &&& end.fetched[i].bytes == contents[i]
                    &&& asked[i] == ActionView::FetchAttachment { url: message.attachments[i].url }
                }
            &&& asked[done] == if done < contents.len() {
                ActionView::FetchAttachment { url: message.attachments[done].url }
            } else {
                ActionView::EnumerateChannels
            }
        }),
    decreases done,
{
    let start = begin_spec(message, source);
    let wrap = |bytes: Seq<u8>| EventView::AttachmentFetched { bytes };
    let events = contents.take(done).map_values(wrap);
    lemma_begin(message, source);
    if done == 0 {
        assert(events =~= Seq::<EventView>::empty());
    } else {
        lemma_fetching(message, source, contents, done - 1);
        let earlier = contents.take(done - 1).map_values(wrap);
        assert(events.drop_last() =~= earlier);
        assert(events.last() == EventView::AttachmentFetched { bytes: contents[done - 1] });
        let middle = run(start.0, earlier);
        lemma_step(middle, events.last());
        let end = run(start.0, events);
        let asked = seq![start.1] + answers(start.0, events);
        let before = seq![start.1] + answers(start.0, earlier);
        assert(asked =~= before.push(middle.step(events.last()).1));
        assert forall|i: int| 0 <= i < done implies {
            &&& (#[trigger] end.fetched[i]).id == message.attachments[i].id
            &&& end.fetched[i].filename == message.attachments[i].filename
            &&& end.fetched[i].bytes == contents[i]
            &&& asked[i] == ActionView::FetchAttachment { url: message.attachments[i].url }
        } by {
            if i < done - 1 {
                assert(end.fetched[i] == middle.fetched[i]);
                assert(asked[i] == before[i]);
            } else {
                assert(asked[i] == before[i]);
            }
        }
    }
}

/// How much of its work a relay has before it, counted so that every answer
/// it takes brings it nearer its end: the attachments still to fetch and the
/// directory still to read, then four requests for each destination left.
pub open spec fn remaining(state: RelayView) -> (nat, nat) {
    let left = (state.destinations.len() - state.outcomes.len()) as nat;
    match state.phase {
        Phase::Fetching => (
            (state.message.attachments.len() - state.fetched.len() + 1) as nat,
            0,
        ),
        Phase::Enumerating => (1, 0),
        Phase::Listing => (0, 4 * left),
        Phase::Creating => (0, (4 * left - 1) as nat),
        Phase::Dispatching => (0, (4 * left - 2) as nat),
        Phase::Recording { .. } => (0, (4 * left - 3) as nat),
        Phase::Ignored | Phase::Aborted | Phase::Completed => (0, 0),
    }
}

/// Every event either is set aside, leaving the relay as it stood, or
/// brings the relay nearer its end: a relay whose requests are all answered
/// ends after finitely many of them. An event is set aside exactly where it
/// is no answer to the request that is outstanding.
pub proof fn law_every_answer_brings_the_end_nearer(state: RelayView, event: EventView)
    requires
        state.wf(),
    ensures
        ({
            let (next, action) = state.step(event);
            if action is Reject {
                next == state
            } else {
                &&& !state.finished()
                &&& remaining(next).0 < remaining(state).0 || (remaining(next).0 == remaining(
                    state,
                ).0 && remaining(next).1 < remaining(state).1)
            }
        }),
        state.step(EventView::Failed).1 is Reject <==> state.finished(),
{
    lemma_step(state, event);
}

} // verus!

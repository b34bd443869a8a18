//! The fan-out relay engine.
//!
//! A [`Relay`] carries one incoming message through its relay. It does no
//! network or database work itself: it asks for it, one [`Action`] at a time,
//! and is told what came of it, one [`Event`] at a time. [`Relay::begin`]
//! gives the first action; [`Relay::handle_event`] takes the answer to the
//! outstanding action and gives the next one, until it says
//! [`Action::Finish`].
//!
//! The attachments are fetched first, in order, and a failure there ends the
//! relay before anything is sent. The destinations are then worked off one
//! after the other: webhooks listed, a webhook created where none of the
//! reserved name is listed, the message posted, the mapping row stored. A
//! failure ends the work on that destination only.

use crate::directory::{
    destinations_of, eligible, is_eligible, lemma_destinations_are_other_relay_channels,
};
use crate::identity::{derive_identity, identity_of};
use crate::model::{
    Channel, ChannelView, FetchedAttachment, FetchedAttachmentView, IncomingMessage,
    IncomingMessageView, OutgoingMessage, OutgoingMessageView, RelayedMessage, Webhook,
    WebhookView,
};
use crate::webhook::{get_webhook, resolve, WebhookPlan, WebhookPlanView};
use vstd::prelude::*;

verus! {

/// The request on which the work on a destination failed.
#[derive(Clone, Copy, Debug, PartialEq, Eq, Structural)]
pub enum Stage {
    ListWebhooks,
    CreateWebhook,
    Dispatch,
}

/// How the work on one destination ended.
#[derive(Clone, Copy, Debug, PartialEq, Eq, Structural)]
pub enum Outcome {
    /// The copy was posted and its mapping row stored.
    Delivered { relayed_message_id: u64 },
    /// The copy was posted, but its mapping row could not be stored.
    DeliveredUnrecorded { relayed_message_id: u64 },
    /// Nothing was posted: the request of this stage failed.
    Failed { stage: Stage },
}

impl Outcome {
    /// Whether the message was posted to the destination, or posting was at
    /// least tried.
    pub open spec fn reached_dispatch(self) -> bool {
        match self {
            Outcome::Delivered { .. } => true,
            Outcome::DeliveredUnrecorded { .. } => true,
            Outcome::Failed { stage } => stage == Stage::Dispatch,
        }
    }

    /// The id of the posted copy, where one was posted.
    pub open spec fn relayed_id(self) -> Option<u64> {
        match self {
            Outcome::Delivered { relayed_message_id } => Some(relayed_message_id),
            Outcome::DeliveredUnrecorded { relayed_message_id } => Some(relayed_message_id),
            Outcome::Failed { .. } => None,
        }
    }
}

/// Where a relay stands: which answer it waits for, or how it ended.
#[derive(Clone, Copy, Debug, PartialEq, Eq, Structural)]
pub enum Phase {
    /// Waiting for the bytes of the next attachment.
    Fetching,
    /// Waiting for the channels of the directory.
    Enumerating,
    /// Waiting for the webhooks of the current destination.
    Listing,
    /// Waiting for the webhook created on the current destination.
    Creating,
    /// Waiting for the copy posted to the current destination.
    Dispatching,
    /// Waiting for the mapping row of the current destination to be stored.
    Recording { relayed_message_id: u64 },
    /// Ended at once: the message did not qualify.
    Ignored,
    /// Ended before anything was sent: an attachment could not be fetched,
    /// or the directory could not be read.
    Aborted,
    /// Ended after every destination was worked off.
    Completed,
}

/// What the driver reports back to a relay.
#[derive(Debug, PartialEq, Eq)]
pub enum Event {
    /// The attachment asked for was downloaded.
    AttachmentFetched { bytes: Vec<u8> },
    /// The directory holds these channels.
    ChannelsEnumerated { channels: Vec<Channel> },
    /// The destination has these webhooks.
    WebhooksListed { webhooks: Vec<Webhook> },
    /// The webhook asked for was created.
    WebhookCreated { webhook: Webhook },
    /// The copy was posted and has this id.
    MessageDispatched { message_id: u64 },
    /// The mapping row was stored.
    MappingRecorded,
    /// The outstanding request failed.
    Failed,
}

/// [`Event`] as a mathematical value.
pub enum EventView {
    AttachmentFetched { bytes: Seq<u8> },
    ChannelsEnumerated { channels: Seq<ChannelView> },
    WebhooksListed { webhooks: Seq<WebhookView> },
    WebhookCreated { webhook: WebhookView },
    MessageDispatched { message_id: u64 },
    MappingRecorded,
    Failed,
}

impl DeepView for Event {
    type V = EventView;

    open spec fn deep_view(&self) -> EventView {
        match self {
            Event::AttachmentFetched { bytes } => EventView::AttachmentFetched { bytes: bytes@ },
            Event::ChannelsEnumerated { channels } => EventView::ChannelsEnumerated {
                channels: channels.deep_view(),
            },
            Event::WebhooksListed { webhooks } => EventView::WebhooksListed {
                webhooks: webhooks.deep_view(),
            },
            Event::WebhookCreated { webhook } => EventView::WebhookCreated { webhook: webhook@ },
            Event::MessageDispatched { message_id } => EventView::MessageDispatched {
                message_id: *message_id,
            },
            Event::MappingRecorded => EventView::MappingRecorded,
            Event::Failed => EventView::Failed,
        }
    }
}

impl View for Event {
    type V = EventView;

    open spec fn view(&self) -> EventView {
        self.deep_view()
    }
}

/// What a relay asks its driver to do next.
#[derive(Debug, PartialEq, Eq)]
pub enum Action {
    /// Download the attachment hosted at `url`.
    FetchAttachment { url: String },
    /// Read the channels of the directory.
    EnumerateChannels,
    /// List the webhooks of a destination.
    ListWebhooks { channel_id: u64 },
    /// Create a webhook of this name on a destination.
    CreateWebhook { channel_id: u64, name: String },
    /// Post the relay's payload through a webhook of a destination.
    ExecuteWebhook { channel_id: u64, webhook_id: u64, token: String },
    /// Store a mapping row.
    RecordMapping { row: RelayedMessage },
    /// Nothing is left to do.
    Finish,
    /// The event answers no outstanding request and was set aside; the
    /// relay stands where it stood.
    Reject,
}

/// [`Action`] as a mathematical value.
pub enum ActionView {
    FetchAttachment { url: Seq<char> },
    EnumerateChannels,
    ListWebhooks { channel_id: u64 },
    CreateWebhook { channel_id: u64, name: Seq<char> },
    ExecuteWebhook { channel_id: u64, webhook_id: u64, token: Seq<char> },
    RecordMapping { row: RelayedMessage },
    Finish,
    Reject,
}

impl DeepView for Action {
    type V = ActionView;

    open spec fn deep_view(&self) -> ActionView {
        match self {
            Action::FetchAttachment { url } => ActionView::FetchAttachment { url: url@ },
            Action::EnumerateChannels => ActionView::EnumerateChannels,
            Action::ListWebhooks { channel_id } => ActionView::ListWebhooks {
                channel_id: *channel_id,
            },
            Action::CreateWebhook { channel_id, name } => ActionView::CreateWebhook {
                channel_id: *channel_id,
                name: name@,
            },
            Action::ExecuteWebhook { channel_id, webhook_id, token } => ActionView::ExecuteWebhook {
                channel_id: *channel_id,
                webhook_id: *webhook_id,
                token: token@,
            },
            Action::RecordMapping { row } => ActionView::RecordMapping { row: *row },
            Action::Finish => ActionView::Finish,
            Action::Reject => ActionView::Reject,
        }
    }
}

impl View for Action {
    type V = ActionView;

    open spec fn view(&self) -> ActionView {
        self.deep_view()
    }
}

/// The state of a relay, as a mathematical value.
#[verifier::ext_equal]
pub struct RelayView {
    /// The message being relayed.
    pub message: IncomingMessageView,
    /// The attachments fetched so far, in the message's order.
    pub fetched: Seq<FetchedAttachmentView>,
    /// The destinations, in directory order; empty until enumerated.
    pub destinations: Seq<u64>,
    /// The outcome of each destination worked off, in the same order.
    pub outcomes: Seq<Outcome>,
    pub phase: Phase,
}

impl RelayView {
    /// What holds of every state that a relay can be in.
    pub open spec fn wf(self) -> bool {
        &&& self.fetched.len() <= self.message.attachments.len()
        &&& forall|i: int|
            0 <= i < self.fetched.len() ==> {
                &&& (#[trigger] self.fetched[i]).id == self.message.attachments[i].id
                &&& self.fetched[i].filename == self.message.attachments[i].filename
            }
        &&& forall|i: int|
            0 <= i < self.destinations.len() ==> (#[trigger] self.destinations[i])
                != self.message.channel_id
        &&& self.outcomes.len() <= self.destinations.len()
        &&& match self.phase {
            Phase::Ignored => self.fetched.len() == 0 && self.destinations.len() == 0,
            Phase::Fetching => {
                &&& self.fetched.len() < self.message.attachments.len()
                &&& self.destinations.len() == 0
            },
            Phase::Aborted => self.destinations.len() == 0,
            Phase::Enumerating => {
                &&& self.fetched.len() == self.message.attachments.len()
                &&& self.destinations.len() == 0
            },
            Phase::Listing | Phase::Creating | Phase::Dispatching | Phase::Recording { .. } => {
                &&& self.fetched.len() == self.message.attachments.len()
                &&& self.outcomes.len() < self.destinations.len()
            },
            Phase::Completed => {
                &&& self.fetched.len() == self.message.attachments.len()
                &&& self.outcomes.len() == self.destinations.len()
            },
        }
    }

    /// Whether the relay has ended.
    pub open spec fn finished(self) -> bool {
        self.phase is Ignored || self.phase is Aborted || self.phase is Completed
    }

    /// The destination being worked on.
    pub open spec fn target(self) -> u64
        recommends
            self.outcomes.len() < self.destinations.len(),
    {
        self.destinations[self.outcomes.len() as int]
    }

    /// What is posted to every destination: the text as it came, under the
    /// author's name and avatar, with the fetched attachments, with every
    /// kind of mention switched off, and asking for the posted message back.
    pub open spec fn payload(self) -> OutgoingMessageView {
        OutgoingMessageView {
            content: self.message.content,
            username: identity_of(self.message.author).display_name,
            avatar_url: identity_of(self.message.author).avatar_url,
            attachments: self.fetched,
            mentions_allowed: false,
            wait_for_message: true,
        }
    }

    /// The state after the bytes of the next attachment came in.
    pub open spec fn store_fetched(self, bytes: Seq<u8>) -> RelayView {
        let source = self.message.attachments[self.fetched.len() as int];
        RelayView {
            fetched: self.fetched.push(
                FetchedAttachmentView { id: source.id, filename: source.filename, bytes },
            ),
            ..self
        }
    }

    /// Asks for the next attachment, or for the directory once every
    /// attachment is there.
    pub open spec fn fetch_or_enumerate(self) -> (RelayView, ActionView) {
        if self.fetched.len() < self.message.attachments.len() {
            (
                RelayView { phase: Phase::Fetching, ..self },
                ActionView::FetchAttachment {
                    url: self.message.attachments[self.fetched.len() as int].url,
                },
            )
        } else {
            (RelayView { phase: Phase::Enumerating, ..self }, ActionView::EnumerateChannels)
        }
    }

    /// Turns to the next destination, or ends once every destination has
    /// its outcome.
    pub open spec fn attempt_or_complete(self) -> (RelayView, ActionView) {
        if self.outcomes.len() < self.destinations.len() {
            (
                RelayView { phase: Phase::Listing, ..self },
                ActionView::ListWebhooks { channel_id: self.target() },
            )
        } else {
            (RelayView { phase: Phase::Completed, ..self }, ActionView::Finish)
        }
    }

    /// Notes the outcome of the current destination and moves on.
    pub open spec fn conclude(self, outcome: Outcome) -> (RelayView, ActionView) {
        RelayView { outcomes: self.outcomes.push(outcome), ..self }.attempt_or_complete()
    }

    /// Posts through `webhook` to the current destination.
    pub open spec fn dispatch_through(self, webhook: WebhookView) -> (RelayView, ActionView) {
        (
            RelayView { phase: Phase::Dispatching, ..self },
            ActionView::ExecuteWebhook {
                channel_id: self.target(),
                webhook_id: webhook.id,
                token: webhook.posting_token(),
            },
        )
    }

    /// The mapping row for a copy posted to the current destination.
    pub open spec fn row_for(self, relayed_message_id: u64) -> RelayedMessage {
        RelayedMessage {
            original_message_id: self.message.id,
            relayed_message_id,
            destination_channel_id: self.target(),
        }
    }

    /// The transition of the relay: the state and the action that follow
    /// from a state and an event.
    pub open spec fn step(self, event: EventView) -> (RelayView, ActionView) {
        match (self.phase, event) {
            (Phase::Fetching, EventView::AttachmentFetched { bytes }) => self.store_fetched(
                bytes,
            ).fetch_or_enumerate(),
            (Phase::Fetching, EventView::Failed) => (
                RelayView { phase: Phase::Aborted, ..self },
                ActionView::Finish,
            ),
            (Phase::Enumerating, EventView::ChannelsEnumerated { channels }) => RelayView {
                destinations: destinations_of(channels, self.message.channel_id),
                ..self
            }.attempt_or_complete(),
            (Phase::Enumerating, EventView::Failed) => (
                RelayView { phase: Phase::Aborted, ..self },
                ActionView::Finish,
            ),
            (Phase::Listing, EventView::WebhooksListed { webhooks }) => match resolve(
                self.target(),
                webhooks,
            ) {
                WebhookPlanView::Use { webhook } => self.dispatch_through(webhook),
                WebhookPlanView::Create { channel_id, name } => (
                    RelayView { phase: Phase::Creating, ..self },
                    ActionView::CreateWebhook { channel_id, name },
                ),
            },
            (Phase::Listing, EventView::Failed) => self.conclude(
                Outcome::Failed { stage: Stage::ListWebhooks },
            ),
            (Phase::Creating, EventView::WebhookCreated { webhook }) => self.dispatch_through(
                webhook,
            ),
            (Phase::Creating, EventView::Failed) => self.conclude(
                Outcome::Failed { stage: Stage::CreateWebhook },
            ),
            (Phase::Dispatching, EventView::MessageDispatched { message_id }) => (
                RelayView { phase: Phase::Recording { relayed_message_id: message_id }, ..self },
                ActionView::RecordMapping { row: self.row_for(message_id) },
            ),
            (Phase::Dispatching, EventView::Failed) => self.conclude(
                Outcome::Failed { stage: Stage::Dispatch },
            ),
            (Phase::Recording { relayed_message_id }, EventView::MappingRecorded) => self.conclude(
                Outcome::Delivered { relayed_message_id },
            ),
            (Phase::Recording { relayed_message_id }, EventView::Failed) => self.conclude(
                Outcome::DeliveredUnrecorded { relayed_message_id },
            ),
            _ => (self, ActionView::Reject),
        }
    }
}

/// The state in which the relay of a message starts, and its first action.
/// A message that does not qualify is ignored: its relay starts ended.
pub open spec fn begin_spec(message: IncomingMessageView, source: Option<ChannelView>) -> (
    RelayView,
    ActionView,
) {
    let start = RelayView {
        message,
        fetched: Seq::empty(),
        destinations: Seq::empty(),
        outcomes: Seq::empty(),
        phase: Phase::Ignored,
    };
    if eligible(message, source) {
        start.fetch_or_enumerate()
    } else {
        (start, ActionView::Finish)
    }
}

/// The relay of one incoming message.
pub struct Relay {
    message: IncomingMessage,
    payload: OutgoingMessage,
    destinations: Vec<u64>,
    outcomes: Vec<Outcome>,
    phase: Phase,
}

impl View for Relay {
    type V = RelayView;

    closed spec fn view(&self) -> RelayView {
        RelayView {
            message: self.message@,
            fetched: self.payload.attachments.deep_view(),
            destinations: self.destinations@,
            outcomes: self.outcomes@,
            phase: self.phase,
        }
    }
}

impl Relay {
    #[verifier::type_invariant]
    spec fn inv(self) -> bool {
        &&& self@.wf()
        &&& self.payload@ == self@.payload()
    }

    /// Starts the relay of `message`. `source` is what the directory holds
    /// for the message's channel, `None` where it is unknown.
    pub fn begin(message: IncomingMessage, source: Option<&Channel>) -> (out: (Relay, Action))
        ensures
            (out.0@, out.1@) == begin_spec(message@, source.deep_view()),
            out.0@.wf(),
    {
        let qualifies = is_eligible(&message, source);
        let identity = derive_identity(&message.author);
        let payload = OutgoingMessage {
            content: message.content.clone(),
            username: identity.display_name,
            avatar_url: identity.avatar_url,
            attachments: Vec::new(),
            mentions_allowed: false,
            wait_for_message: true,
        };
        assert(payload.attachments.deep_view() =~= Seq::empty());
        if qualifies {
            Self::fetch_or_enumerate(message, payload)
        } else {
            let relay = Relay {
                message,
                payload,
                destinations: Vec::new(),
                outcomes: Vec::new(),
                phase: Phase::Ignored,
            };
            (relay, Action::Finish)
        }
    }

    /// Gives the relay the answer to its outstanding request and gets the
    /// next request in return.
    pub fn handle_event(self, event: Event) -> (out: (Relay, Action))
        ensures
            (out.0@, out.1@) == self@.step(event@),
            out.0@.wf(),
    {
        proof {
            use_type_invariant(&self);
        }
        let ghost before = self@;
        let Relay { message, payload, destinations, outcomes, phase } = self;
        match (phase, event) {
            (Phase::Fetching, Event::AttachmentFetched { bytes }) => {
                let mut payload = payload;
                let source = &message.attachments[payload.attachments.len()];
                let fetched = FetchedAttachment {
                    id: source.id,
                    filename: source.filename.clone(),
                    bytes,
                };
                payload.attachments.push(fetched);
                assert(payload.attachments.deep_view() =~= before.store_fetched(bytes@).fetched);
                Self::fetch_or_enumerate(message, payload)
            },
            (Phase::Fetching, Event::Failed) => {
                let relay = Relay { message, payload, destinations, outcomes, phase: Phase::Aborted };
                (relay, Action::Finish)
            },
            (Phase::Enumerating, Event::ChannelsEnumerated { channels }) => {
                let found = crate::directory::destinations(&channels, message.channel_id);
                proof {
                    assert forall|i: int| 0 <= i < found@.len() implies (#[trigger] found@[i])
                        != message.channel_id by {
                        lemma_destinations_are_other_relay_channels(
                            channels.deep_view(),
                            message.channel_id,
                            i,
                        );
                    }
                }
                Self::attempt_or_complete(message, payload, found, outcomes)
            },
            (Phase::Enumerating, Event::Failed) => {
                let relay = Relay { message, payload, destinations, outcomes, phase: Phase::Aborted };
                (relay, Action::Finish)
            },
            (Phase::Listing, Event::WebhooksListed { webhooks }) => {
                let channel_id = destinations[outcomes.len()];
                match get_webhook(channel_id, webhooks) {
                    WebhookPlan::Use { webhook } => Self::dispatch_through(
                        message,
                        payload,
                        destinations,
                        outcomes,
                        &webhook,
                    ),
                    WebhookPlan::Create { channel_id, name } => {
                        let relay = Relay {
                            message,
                            payload,
                            destinations,
                            outcomes,
                            phase: Phase::Creating,
                        };
                        (relay, Action::CreateWebhook { channel_id, name })
                    },
                }
            },
            (Phase::Listing, Event::Failed) => Self::conclude(
                message,
                payload,
                destinations,
                outcomes,
                Outcome::Failed { stage: Stage::ListWebhooks },
            ),
            (Phase::Creating, Event::WebhookCreated { webhook }) => Self::dispatch_through(
                message,
                payload,
                destinations,
                outcomes,
                &webhook,
            ),
            (Phase::Creating, Event::Failed) => Self::conclude(
                message,
                payload,
                destinations,
                outcomes,
                Outcome::Failed { stage: Stage::CreateWebhook },
            ),
            (Phase::Dispatching, Event::MessageDispatched { message_id }) => {
                let row = RelayedMessage {
                    original_message_id: message.id,
                    relayed_message_id: message_id,
                    destination_channel_id: destinations[outcomes.len()],
                };
                let relay = Relay {
                    message,
                    payload,
                    destinations,
                    outcomes,
                    phase: Phase::Recording { relayed_message_id: message_id },
                };
                (relay, Action::RecordMapping { row })
            },
            (Phase::Dispatching, Event::Failed) => Self::conclude(
                message,
                payload,
                destinations,
                outcomes,
                Outcome::Failed { stage: Stage::Dispatch },
            ),
            (Phase::Recording { relayed_message_id }, Event::MappingRecorded) => Self::conclude(
                message,
                payload,
                destinations,
                outcomes,
                Outcome::Delivered { relayed_message_id },
            ),
            (Phase::Recording { relayed_message_id }, Event::Failed) => Self::conclude(
                message,
                payload,
                destinations,
                outcomes,
                Outcome::DeliveredUnrecorded { relayed_message_id },
            ),
            (phase, _) => {
                let relay = Relay { message, payload, destinations, outcomes, phase };
                (relay, Action::Reject)
            },
        }
    }

    /// The state of a relay made of these parts, before its phase is set.
    spec fn assembled(
        message: IncomingMessage,
        payload: OutgoingMessage,
        destinations: Seq<u64>,
        outcomes: Seq<Outcome>,
    ) -> RelayView {
        RelayView {
            message: message@,
            fetched: payload.attachments.deep_view(),
            destinations,
            outcomes,
            phase: Phase::Listing,
        }
    }

    fn fetch_or_enumerate(message: IncomingMessage, payload: OutgoingMessage) -> (out: (
        Relay,
        Action,
    ))
        requires
            ({
                let state = Self::assembled(message, payload, Seq::empty(), Seq::empty());
                &&& payload@ == state.payload()
                &&& state.fetch_or_enumerate().0.wf()
            }),
        ensures
            (out.0@, out.1@) == Self::assembled(
                message,
                payload,
                Seq::empty(),
                Seq::empty(),
            ).fetch_or_enumerate(),
            out.0@.wf(),
    {
        let next = payload.attachments.len();
        if next < message.attachments.len() {
            let url = message.attachments[next].url.clone();
            let relay = Relay {
                message,
                payload,
                destinations: Vec::new(),
                outcomes: Vec::new(),
                phase: Phase::Fetching,
            };
            (relay, Action::FetchAttachment { url })
        } else {
            let relay = Relay {
                message,
                payload,
                destinations: Vec::new(),
                outcomes: Vec::new(),
                phase: Phase::Enumerating,
            };
            (relay, Action::EnumerateChannels)
        }
    }

    fn attempt_or_complete(
        message: IncomingMessage,
        payload: OutgoingMessage,
        destinations: Vec<u64>,
        outcomes: Vec<Outcome>,
    ) -> (out: (Relay, Action))
        requires
            ({
                let state = Self::assembled(message, payload, destinations@, outcomes@);
                &&& payload@ == state.payload()
                &&& state.attempt_or_complete().0.wf()
            }),
        ensures
            (out.0@, out.1@) == Self::assembled(message, payload, destinations@, outcomes@).attempt_or_complete(),
            out.0@.wf(),
    {
        if outcomes.len() < destinations.len() {
            let channel_id = destinations[outcomes.len()];
            let relay = Relay { message, payload, destinations, outcomes, phase: Phase::Listing };
            (relay, Action::ListWebhooks { channel_id })
        } else {
            let relay = Relay { message, payload, destinations, outcomes, phase: Phase::Completed };
            (relay, Action::Finish)
        }
    }

    fn conclude(
        message: IncomingMessage,
        payload: OutgoingMessage,
        destinations: Vec<u64>,
        outcomes: Vec<Outcome>,
        outcome: Outcome,
    ) -> (out: (Relay, Action))
        requires
            ({
                let state = Self::assembled(message, payload, destinations@, outcomes@);
                &&& payload@ == state.payload()
                &&& state.wf()
            }),
        ensures
            (out.0@, out.1@) == Self::assembled(message, payload, destinations@, outcomes@).conclude(outcome),
            out.0@.wf(),
    {
        let mut outcomes = outcomes;
        outcomes.push(outcome);
        Self::attempt_or_complete(message, payload, destinations, outcomes)
    }

    fn dispatch_through(
        message: IncomingMessage,
        payload: OutgoingMessage,
        destinations: Vec<u64>,
        outcomes: Vec<Outcome>,
        webhook: &Webhook,
    ) -> (out: (Relay, Action))
        requires
            ({
                let state = Self::assembled(message, payload, destinations@, outcomes@);
                &&& payload@ == state.payload()
                &&& state.wf()
            }),
        ensures
            (out.0@, out.1@) == Self::assembled(message, payload, destinations@, outcomes@).dispatch_through(webhook@),
            out.0@.wf(),
    {
        let channel_id = destinations[outcomes.len()];
        let token = webhook.posting_token();
        let relay = Relay { message, payload, destinations, outcomes, phase: Phase::Dispatching };
        (relay, Action::ExecuteWebhook { channel_id, webhook_id: webhook.id, token })
    }

    /// Where the relay stands.
    pub fn phase(&self) -> (phase: Phase)
        ensures
            phase == self@.phase,
    {
        self.phase
    }

    /// Whether the relay has ended.
    pub fn is_finished(&self) -> (b: bool)
        ensures
            b == self@.finished(),
    {
        match self.phase {
            Phase::Ignored | Phase::Aborted | Phase::Completed => true,
            _ => false,
        }
    }

    /// The message being relayed.
    pub fn message(&self) -> (message: &IncomingMessage)
        ensures
            message@ == self@.message,
    {
        &self.message
    }

    /// What is to be posted to every destination.
    pub fn payload(&self) -> (payload: &OutgoingMessage)
        ensures
            payload@ == self@.payload(),
    {
        proof {
            use_type_invariant(self);
        }
        &self.payload
    }

    /// The destinations, in the order in which they are worked off.
    pub fn destinations(&self) -> (ids: &Vec<u64>)
        ensures
            ids@ == self@.destinations,
    {
        &self.destinations
    }

    /// The outcome of each destination worked off so far.
    pub fn outcomes(&self) -> (outcomes: &Vec<Outcome>)
        ensures
            outcomes@ == self@.outcomes,
    {
        &self.outcomes
    }
}

} // verus!

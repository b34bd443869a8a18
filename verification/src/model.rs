//! The data that the relay reads and produces, each type with its
//! mathematical view.
//!
//! Identifiers are the platform's 64-bit snowflakes, held as `u64`. Strings are
//! viewed as `Seq<char>`, byte buffers as `Seq<u8>`.

use vstd::prelude::*;

verus! {

/// The name that marks a channel as part of the shared room, and that the
/// relay gives to the webhooks it provisions.
pub open spec fn relay_name() -> Seq<char> {
    "globalchat-rs"@
}

/// The reserved relay name as an owned string.
pub fn reserved_name() -> (name: String)
    ensures
        name@ == relay_name(),
{
    String::from_str("globalchat-rs")
}

/// A channel as the directory knows it.
#[derive(Debug, PartialEq, Eq)]
pub struct Channel {
    pub id: u64,
    pub guild_id: Option<u64>,
    pub name: Option<String>,
}

/// [`Channel`] as a mathematical value.
pub struct ChannelView {
    pub id: u64,
    pub guild_id: Option<u64>,
    pub name: Option<Seq<char>>,
}

impl DeepView for Channel {
    type V = ChannelView;

    open spec fn deep_view(&self) -> ChannelView {
        ChannelView { id: self.id, guild_id: self.guild_id, name: self.name.deep_view() }
    }
}

impl View for Channel {
    type V = ChannelView;

    open spec fn view(&self) -> ChannelView {
        self.deep_view()
    }
}

impl ChannelView {
    /// Whether the channel carries the reserved relay name.
    pub open spec fn is_relay(self) -> bool {
        self.name == Some(relay_name())
    }
}

impl Channel {
    /// Whether the channel carries the reserved relay name.
    pub fn is_relay(&self) -> (b: bool)
        ensures
            b == self@.is_relay(),
    {
        match &self.name {
            Some(name) => {
                let reserved = reserved_name();
                *name == reserved
            },
            None => false,
        }
    }
}

/// A webhook installed on a channel. The token is a secret and may be
/// absent from what the platform lists.
#[derive(Debug, PartialEq, Eq)]
pub struct Webhook {
    pub id: u64,
    pub channel_id: u64,
    pub name: Option<String>,
    pub token: Option<String>,
}

/// [`Webhook`] as a mathematical value.
pub struct WebhookView {
    pub id: u64,
    pub channel_id: u64,
    pub name: Option<Seq<char>>,
    pub token: Option<Seq<char>>,
}

impl DeepView for Webhook {
    type V = WebhookView;

    open spec fn deep_view(&self) -> WebhookView {
        WebhookView {
            id: self.id,
            channel_id: self.channel_id,
            name: self.name.deep_view(),
            token: self.token.deep_view(),
        }
    }
}

impl View for Webhook {
    type V = WebhookView;

    open spec fn view(&self) -> WebhookView {
        self.deep_view()
    }
}

impl WebhookView {
    /// Whether the webhook carries the reserved relay name.
    pub open spec fn is_relay(self) -> bool {
        self.name == Some(relay_name())
    }

    /// The token to post with: the webhook's own, or the empty string where
    /// the platform gave none.
    pub open spec fn posting_token(self) -> Seq<char> {
        match self.token {
            Some(token) => token,
            None => Seq::empty(),
        }
    }
}

impl Webhook {
    /// Whether the webhook carries the reserved relay name.
    pub fn is_relay(&self) -> (b: bool)
        ensures
            b == self@.is_relay(),
    {
        match &self.name {
            Some(name) => {
                let reserved = reserved_name();
                *name == reserved
            },
            None => false,
        }
    }

    /// The token to post with: the webhook's own, or the empty string where
    /// the platform gave none.
    pub fn posting_token(&self) -> (token: String)
        ensures
            token@ == self@.posting_token(),
    {
        match &self.token {
            Some(token) => token.clone(),
            None => String::new(),
        }
    }
}

/// An avatar image hash in the platform's packed form: sixteen bytes and
/// whether the image is animated.
#[derive(Clone, Copy, Debug, PartialEq, Eq)]
pub struct AvatarHash {
    pub bytes: [u8; 16],
    pub animated: bool,
}

/// The author of a message.
#[derive(Debug, PartialEq, Eq)]
pub struct Author {
    pub id: u64,
    pub display_name: String,
    pub avatar_hash: Option<AvatarHash>,
    pub legacy_discriminator: u16,
}

/// [`Author`] as a mathematical value.
pub struct AuthorView {
    pub id: u64,
    pub display_name: Seq<char>,
    pub avatar_hash: Option<AvatarHash>,
    pub legacy_discriminator: u16,
}

impl DeepView for Author {
    type V = AuthorView;

    open spec fn deep_view(&self) -> AuthorView {
        AuthorView {
            id: self.id,
            display_name: self.display_name@,
            avatar_hash: self.avatar_hash,
            legacy_discriminator: self.legacy_discriminator,
        }
    }
}

impl View for Author {
    type V = AuthorView;

    open spec fn view(&self) -> AuthorView {
        self.deep_view()
    }
}

/// A file attached to an incoming message, hosted by the platform.
#[derive(Debug, PartialEq, Eq)]
pub struct Attachment {
    pub id: u64,
    pub filename: String,
    pub url: String,
}

/// [`Attachment`] as a mathematical value.
pub struct AttachmentView {
    pub id: u64,
    pub filename: Seq<char>,
    pub url: Seq<char>,
}

impl DeepView for Attachment {
    type V = AttachmentView;

    open spec fn deep_view(&self) -> AttachmentView {
        AttachmentView { id: self.id, filename: self.filename@, url: self.url@ }
    }
}

impl View for Attachment {
    type V = AttachmentView;

    open spec fn view(&self) -> AttachmentView {
        self.deep_view()
    }
}

/// An attachment whose bytes were downloaded, ready to be uploaded again.
#[derive(Debug, PartialEq, Eq)]
pub struct FetchedAttachment {
    pub id: u64,
    pub filename: String,
    pub bytes: Vec<u8>,
}

/// [`FetchedAttachment`] as a mathematical value.
pub struct FetchedAttachmentView {
    pub id: u64,
    pub filename: Seq<char>,
    pub bytes: Seq<u8>,
}

impl DeepView for FetchedAttachment {
    type V = FetchedAttachmentView;

    open spec fn deep_view(&self) -> FetchedAttachmentView {
        FetchedAttachmentView { id: self.id, filename: self.filename@, bytes: self.bytes@ }
    }
}

impl View for FetchedAttachment {
    type V = FetchedAttachmentView;

    open spec fn view(&self) -> FetchedAttachmentView {
        self.deep_view()
    }
}

/// A message as the event source delivers it.
#[derive(Debug, PartialEq, Eq)]
pub struct IncomingMessage {
    pub id: u64,
    pub channel_id: u64,
    pub author: Author,
    pub content: String,
    pub attachments: Vec<Attachment>,
    pub is_bot: bool,
}

/// [`IncomingMessage`] as a mathematical value.
pub struct IncomingMessageView {
    pub id: u64,
    pub channel_id: u64,
    pub author: AuthorView,
    pub content: Seq<char>,
    pub attachments: Seq<AttachmentView>,
    pub is_bot: bool,
}

impl DeepView for IncomingMessage {
    type V = IncomingMessageView;

    open spec fn deep_view(&self) -> IncomingMessageView {
        IncomingMessageView {
            id: self.id,
            channel_id: self.channel_id,
            author: self.author@,
            content: self.content@,
            attachments: self.attachments.deep_view(),
            is_bot: self.is_bot,
        }
    }
}

impl View for IncomingMessage {
    type V = IncomingMessageView;

    open spec fn view(&self) -> IncomingMessageView {
        self.deep_view()
    }
}

/// The name and avatar under which a relayed copy is shown.
#[derive(Debug, PartialEq, Eq)]
pub struct IdentitySnapshot {
    pub display_name: String,
    pub avatar_url: String,
}

/// [`IdentitySnapshot`] as a mathematical value.
pub struct IdentitySnapshotView {
    pub display_name: Seq<char>,
    pub avatar_url: Seq<char>,
}

impl DeepView for IdentitySnapshot {
    type V = IdentitySnapshotView;

    open spec fn deep_view(&self) -> IdentitySnapshotView {
        IdentitySnapshotView { display_name: self.display_name@, avatar_url: self.avatar_url@ }
    }
}

impl View for IdentitySnapshot {
    type V = IdentitySnapshotView;

    open spec fn view(&self) -> IdentitySnapshotView {
        self.deep_view()
    }
}

/// What is posted through a destination's webhook.
#[derive(Debug, PartialEq, Eq)]
pub struct OutgoingMessage {
    pub content: String,
    pub username: String,
    pub avatar_url: String,
    pub attachments: Vec<FetchedAttachment>,
    /// Whether any mention in the content may notify anyone.
    pub mentions_allowed: bool,
    /// Whether the platform is asked to answer with the created message.
    pub wait_for_message: bool,
}

/// [`OutgoingMessage`] as a mathematical value.
pub struct OutgoingMessageView {
    pub content: Seq<char>,
    pub username: Seq<char>,
    pub avatar_url: Seq<char>,
    pub attachments: Seq<FetchedAttachmentView>,
    pub mentions_allowed: bool,
    pub wait_for_message: bool,
}

impl DeepView for OutgoingMessage {
    type V = OutgoingMessageView;

    open spec fn deep_view(&self) -> OutgoingMessageView {
        OutgoingMessageView {
            content: self.content@,
            username: self.username@,
            avatar_url: self.avatar_url@,
            attachments: self.attachments.deep_view(),
            mentions_allowed: self.mentions_allowed,
            wait_for_message: self.wait_for_message,
        }
    }
}

impl View for OutgoingMessage {
    type V = OutgoingMessageView;

    open spec fn view(&self) -> OutgoingMessageView {
        self.deep_view()
    }
}

/// One row of the relay mapping: the copy `relayed_message_id` of the message
/// `original_message_id` was delivered to `destination_channel_id`.
#[derive(Clone, Copy, Debug, PartialEq, Eq, Structural)]
pub struct RelayedMessage {
    pub original_message_id: u64,
    pub relayed_message_id: u64,
    pub destination_channel_id: u64,
}

} // verus!

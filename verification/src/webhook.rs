//! Webhook resolution for a destination channel: use the relay webhook that
//! is already installed, or ask for one to be created.
//!
//! Resolution looks at one listing. Two relays that resolve the same channel
//! at once may both find none and both create one; later resolutions then
//! take whichever of the two the platform lists first.

use crate::model::{relay_name, reserved_name, Webhook, WebhookView};
use vstd::prelude::*;

verus! {

/// What resolution of a destination's webhook comes to.
#[derive(Debug, PartialEq, Eq)]
pub enum WebhookPlan {
    /// Post through this webhook, which the channel already has.
    Use { webhook: Webhook },
    /// The channel has no relay webhook: create one under this name.
    Create { channel_id: u64, name: String },
}

/// [`WebhookPlan`] as a mathematical value.
pub enum WebhookPlanView {
    Use { webhook: WebhookView },
    Create { channel_id: u64, name: Seq<char> },
}

impl DeepView for WebhookPlan {
    type V = WebhookPlanView;

    open spec fn deep_view(&self) -> WebhookPlanView {
        match self {
            WebhookPlan::Use { webhook } => WebhookPlanView::Use { webhook: webhook@ },
            WebhookPlan::Create { channel_id, name } => WebhookPlanView::Create {
                channel_id: *channel_id,
                name: name@,
            },
        }
    }
}

impl View for WebhookPlan {
    type V = WebhookPlanView;

    open spec fn view(&self) -> WebhookPlanView {
        self.deep_view()
    }
}

/// The position at or after `start` of the first webhook of the reserved
/// name, if there is one.
pub open spec fn first_relay_from(webhooks: Seq<WebhookView>, start: int) -> Option<int>
    decreases webhooks.len() - start,
{
    if start < 0 || start >= webhooks.len() {
        None
    } else if webhooks[start].is_relay() {
        Some(start)
    } else {
        first_relay_from(webhooks, start + 1)
    }
}

/// The position of the first webhook of the reserved name, if there is one.
pub open spec fn first_relay(webhooks: Seq<WebhookView>) -> Option<int> {
    first_relay_from(webhooks, 0)
}

/// What resolution makes of a listing of the webhooks of `channel_id`.
pub open spec fn resolve(channel_id: u64, webhooks: Seq<WebhookView>) -> WebhookPlanView {
    match first_relay(webhooks) {
        Some(i) => WebhookPlanView::Use { webhook: webhooks[i] },
        None => WebhookPlanView::Create { channel_id, name: relay_name() },
    }
}

/// [`first_relay_from`] finds a webhook of the reserved name that no other
/// precedes from `start` on, and finds none only where there is none.
pub proof fn lemma_first_relay_from(webhooks: Seq<WebhookView>, start: int)
    requires
        0 <= start,
    ensures
        match first_relay_from(webhooks, start) {
            Some(i) => {
                &&& start <= i < webhooks.len()
                &&& webhooks[i].is_relay()
                &&& forall|j: int| start <= j < i ==> !(#[trigger] webhooks[j]).is_relay()
            },
            None => forall|j: int|
                start <= j < webhooks.len() ==> !(#[trigger] webhooks[j]).is_relay(),
        },
    decreases webhooks.len() - start,
{
    if start < webhooks.len() && !webhooks[start].is_relay() {
        lemma_first_relay_from(webhooks, start + 1);
    }
}

/// Resolves the relay webhook of a destination from the webhooks that the
/// platform lists for it: the first of the reserved name is used as it is;
/// where there is none, one is to be created under that name.
pub fn get_webhook(channel_id: u64, webhooks: Vec<Webhook>) -> (plan: WebhookPlan)
    ensures
        plan@ == resolve(channel_id, webhooks.deep_view()),
        match plan@ {
            WebhookPlanView::Use { webhook } => exists|i: int|
                {
                    &&& 0 <= i < webhooks.deep_view().len()
                    &&& webhook == #[trigger] webhooks.deep_view()[i]
                    &&& webhook.is_relay()
                    &&& forall|j: int| 0 <= j < i ==> !(#[trigger] webhooks.deep_view()[j]).is_relay()
                },
            WebhookPlanView::Create { channel_id: on, name } => {
                &&& on == channel_id
                &&& name == relay_name()
                &&& forall|j: int|
                    0 <= j < webhooks.deep_view().len() ==> !(#[trigger] webhooks.deep_view()[j])
                        .is_relay()
            },
        },
{
    let ghost listed = webhooks.deep_view();
    let mut i: usize = 0;
    while i < webhooks.len()
        invariant
            i <= webhooks.len(),
            listed == webhooks.deep_view(),
            first_relay(listed) == first_relay_from(listed, i as int),
        decreases webhooks.len() - i,
    {
        if webhooks[i].is_relay() {
            let mut list = webhooks;
            let webhook = list.swap_remove(i);
            proof {
                lemma_first_relay_from(listed, 0);
                assert(webhook@ == listed[i as int]);
            }
            return WebhookPlan::Use { webhook };
        }
        i += 1;
    }
    proof {
        lemma_first_relay_from(listed, 0);
    }
    WebhookPlan::Create { channel_id, name: reserved_name() }
}

} // verus!

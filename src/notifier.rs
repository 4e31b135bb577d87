//! Webhook delivery of pending notifications: what to send and where, and
//! the record of each attempt.
use vstd::prelude::*;

use crate::protocol::{NotifyBlock, NotifyPayload};
use crate::settings::Settings;
use crate::store::{get_opt, NotifyView, Store};

verus! {

/// What the notifier does next for one notification.
pub enum NotifyDecision {
    /// It was delivered already: nothing is sent again.
    AlreadyDelivered,
    /// Post `payload` to `url`.
    Send { payload: NotifyPayload, url: String },
}

#[derive(Debug, Clone, Copy, PartialEq, Eq)]
pub enum NotifyError {
    /// No notification is stored under the id.
    NotFound,
    /// The topic has no webhook configured; the notification stays pending.
    NoWebhook,
}

/// The decision for a stored notification `n` whose topic has webhook `url`.
pub open spec fn decision_spec(n: Option<NotifyView>, url: Option<Seq<char>>) -> Result<
    Option<Seq<char>>,
    NotifyError,
> {
    match n {
        None => Err(NotifyError::NotFound),
        Some(v) => if v.success {
            Ok(None)
        } else {
            match url {
                None => Err(NotifyError::NoWebhook),
                Some(u) => Ok(Some(u)),
            }
        },
    }
}

/// The row after one delivery attempt that answered `status`.
pub open spec fn after_attempt(n: NotifyView, status: u32) -> NotifyView {
    NotifyView {
        success: status == 200,
        retries: if n.retries < u64::MAX {
            (n.retries + 1) as u64
        } else {
            u64::MAX
        },
        ..n
    }
}

/// Decides what to do for the notification `data_id`.
pub fn check_webhook(store: &Store, settings: &Settings, data_id: &str) -> (r: Result<
    NotifyDecision,
    NotifyError,
>)
    requires
        store.wf(),
    ensures
        ({
            let n = get_opt(store.notifies@, data_id@);
            let url = match n {
                Some(v) => match settings.topic_spec(v.topic) {
                    Some(t) => t.webhook,
                    None => None,
                },
                None => None,
            };
            match r {
                Ok(NotifyDecision::AlreadyDelivered) => decision_spec(n, url) == Ok::<
                    Option<Seq<char>>,
                    NotifyError,
                >(None),
                Ok(NotifyDecision::Send { payload, url: u }) => {
                    &&& decision_spec(n, url) == Ok::<Option<Seq<char>>, NotifyError>(Some(u@))
                    &&& payload.block.data_id@ == data_id@
                    &&& payload.block.block_num == n.unwrap().block_num
                    &&& payload.block.trx_id@ == n.unwrap().trx_id
                },
                Err(e) => decision_spec(n, url) == Err::<Option<Seq<char>>, NotifyError>(e),
            }
        }),
{
    let (block_num, trx_id, topic, success) = match store.notifies.get(data_id) {
        Some(n) => (n.block_num, n.trx_id.clone(), n.topic.clone(), n.success),
        None => return Err(NotifyError::NotFound),
    };
    if success {
        return Ok(NotifyDecision::AlreadyDelivered);
    }
    match settings.get_webhook_by_topic(topic.as_str()) {
        Some(url) => Ok(
            NotifyDecision::Send {
                payload: NotifyPayload {
                    block: NotifyBlock { data_id: String::from_str(data_id), block_num, trx_id },
                },
                url,
            },
        ),
        None => Err(NotifyError::NoWebhook),
    }
}

/// Records one delivery attempt for `data_id` that the webhook answered
/// with `status`: delivered exactly when it is 200, and one more attempt
/// counted either way.
pub fn record_delivery(store: &mut Store, data_id: &str, status: u32) -> (r: bool)
    requires
        old(store).wf(),
    ensures
        final(store).wf(),
        r == old(store).notifies@.contains_key(data_id@),
        final(store).notifies@ == if r {
            old(store).notifies@.insert(data_id@, after_attempt(old(store).notifies@[data_id@], status))
        } else {
            old(store).notifies@
        },
        final(store).trxs@ == old(store).trxs@,
        final(store).users@ == old(store).users@,
        final(store).posts@ == old(store).posts@,
        final(store).contents@ == old(store).contents@,
        final(store).last_status@ == old(store).last_status@,
{
    store.update_notify_status(data_id, status == 200)
}

/// The row after one delivery attempt that got no answer at all.
pub open spec fn after_lost_attempt(n: NotifyView) -> NotifyView {
    NotifyView {
        success: false,
        retries: if n.retries < u64::MAX {
            (n.retries + 1) as u64
        } else {
            u64::MAX
        },
        ..n
    }
}

/// Records one delivery attempt for `data_id` that failed in transport (a
/// timeout, a refused connection): not delivered, and one more attempt
/// counted.
pub fn record_failed_delivery(store: &mut Store, data_id: &str) -> (r: bool)
    requires
        old(store).wf(),
    ensures
        final(store).wf(),
        r == old(store).notifies@.contains_key(data_id@),
        final(store).notifies@ == if r {
            old(store).notifies@.insert(data_id@, after_lost_attempt(old(store).notifies@[data_id@]))
        } else {
            old(store).notifies@
        },
        final(store).trxs@ == old(store).trxs@,
        final(store).users@ == old(store).users@,
        final(store).posts@ == old(store).posts@,
        final(store).contents@ == old(store).contents@,
        final(store).last_status@ == old(store).last_status@,
{
    store.update_notify_status(data_id, false)
}

/// Three failed deliveries leave a notification undelivered with three
/// more attempts counted; a successful one after them marks it delivered,
/// and from then on nothing is sent for it.
pub proof fn lemma_retry_accounting(n: NotifyView, fail1: u32, fail2: u32, fail3: u32, url: Option<Seq<char>>)
    requires
        fail1 != 200,
        fail2 != 200,
        fail3 != 200,
        n.retries + 4 <= u64::MAX,
    ensures
        !after_attempt(after_attempt(after_attempt(n, fail1), fail2), fail3).success,
        after_attempt(after_attempt(after_attempt(n, fail1), fail2), fail3).retries == n.retries + 3,
        after_attempt(after_attempt(after_attempt(after_attempt(n, fail1), fail2), fail3), 200).success,
        after_attempt(after_attempt(after_attempt(after_attempt(n, fail1), fail2), fail3), 200).retries
            == n.retries + 4,
        decision_spec(
            Some(after_attempt(after_attempt(after_attempt(after_attempt(n, fail1), fail2), fail3), 200)),
            url,
        ) == Ok::<Option<Seq<char>>, NotifyError>(None),
{
}

} // verus!

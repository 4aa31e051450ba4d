//! Ordered dispatch of decoded events to the application's scheduler.
//!
//! The surrounding application runs the single consumer loop over the
//! decoder's output; for each event it calls [`dispatch_event`], which
//! invokes exactly one callback. On a `Subscribed` event the carried
//! identity is written into the shared session *before* the callback runs,
//! so a call issued synchronously from the callback already observes the new
//! identity.

use crate::client::SchedulerClient;
use crate::messages::{Event, EventV, FrameworkID};
use crate::scheduler::Scheduler;
use vstd::prelude::*;

verus! {

/// Dispatches one event to the scheduler, in the caller's order. Returns the
/// identity that was written into the session: exactly the one a
/// `Subscribed` event carried, nothing for any other event.
pub fn dispatch_event<S: Scheduler>(
    scheduler: &mut S,
    client: &SchedulerClient,
    event: &Event,
) -> (written: Option<FrameworkID>)
    requires
        client.wf(),
    ensures
        match event@ {
            EventV::Subscribed { framework_id, .. } => written matches Some(f) && f@
                == framework_id,
            _ => written is None,
        },
{
    match event {
        Event::Subscribed { framework_id, heartbeat_interval_seconds } => {
            let stored = framework_id.duplicate();
            client.session.set_framework_id(Some(stored.duplicate()));
            scheduler.subscribed(client, framework_id, *heartbeat_interval_seconds);
            Some(stored)
        },
        Event::Offers { offers } => {
            scheduler.offers(client, offers);
            None
        },
        Event::InverseOffers { inverse_offers } => {
            scheduler.inverse_offers(client, inverse_offers);
            None
        },
        Event::Rescind { offer_id } => {
            scheduler.rescind(client, offer_id);
            None
        },
        Event::Update { status } => {
            scheduler.update(client, status);
            None
        },
        Event::Message { agent_id, executor_id, data } => {
            scheduler.message(client, agent_id, executor_id, data);
            None
        },
        Event::Failure { agent_id, executor_id, exit_status } => {
            scheduler.failure(client, agent_id, executor_id, *exit_status);
            None
        },
        Event::Error { message } => {
            scheduler.error(client, message);
            None
        },
        Event::Heartbeat => {
            scheduler.heartbeat(client);
            None
        },
        Event::Unknown => {
            scheduler.unknown(client);
            None
        },
    }
}

/// Dispatches the disconnect notification: the stream saw a terminal
/// failure, and the application observes it here, never the decoder's
/// internals.
pub fn dispatch_disconnect<S: Scheduler>(scheduler: &mut S) {
    scheduler.disconnected();
}

} // verus!

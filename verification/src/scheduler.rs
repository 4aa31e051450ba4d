//! The application-facing callback interface and the client configuration.

use crate::client::SchedulerClient;
use crate::messages::{
    AgentID, ExecutorID, FrameworkID, InverseOffer, Offer, OfferID, TaskStatus,
};
use vstd::prelude::*;

verus! {

/// The scheduler-implementation interface: one method per event kind, a
/// default handler for kinds this client does not know, and a disconnect
/// notification. Implemented by the application; the router calls exactly
/// one method per event, strictly in arrival order, never two concurrently.
/// Every method may issue further calls through the client it is handed.
pub trait Scheduler {
    fn subscribed(
        &mut self,
        client: &SchedulerClient,
        framework_id: &FrameworkID,
        heartbeat_interval_seconds: Option<u64>,
    );

    fn offers(&mut self, client: &SchedulerClient, offers: &Vec<Offer>);

    fn inverse_offers(&mut self, client: &SchedulerClient, inverse_offers: &Vec<InverseOffer>);

    fn rescind(&mut self, client: &SchedulerClient, offer_id: &OfferID);

    fn update(&mut self, client: &SchedulerClient, status: &TaskStatus);

    fn message(
        &mut self,
        client: &SchedulerClient,
        agent_id: &AgentID,
        executor_id: &ExecutorID,
        data: &Vec<u8>,
    );

    fn failure(
        &mut self,
        client: &SchedulerClient,
        agent_id: &Option<AgentID>,
        executor_id: &Option<ExecutorID>,
        exit_status: Option<u64>,
    );

    fn error(&mut self, client: &SchedulerClient, message: &Vec<u8>);

    fn heartbeat(&mut self, client: &SchedulerClient);

    /// The default handler: called for event kinds unknown to this client,
    /// so that forward-compatible streams never abort dispatch.
    fn unknown(&mut self, client: &SchedulerClient);

    /// The stream signalled a terminal failure; a reconnect will follow.
    fn disconnected(&mut self);
}

/// Configuration of one running client. Timeouts are in whole seconds.
pub struct SchedulerConf {
    pub master_url: String,
    pub user: String,
    pub name: String,
    pub framework_timeout_seconds: u64,
    pub implicit_acknowledgements: bool,
    pub framework_id: Option<FrameworkID>,
}

} // verus!

//! The two message families of the protocol, modelled with plain values.
//!
//! Identifiers are opaque byte values assigned by the master; they are held
//! as raw bytes. Each executable type has a ghost mirror (`...V`) over `Seq`
//! that contracts and the wire-format specification speak of.

use vstd::prelude::*;

verus! {

// ---------------------------------------------------------------------------
// View helpers: one named function per element type, so that every contract
// speaks of the same mapping when it lifts a vector of records to its ghost
// mirror.
// ---------------------------------------------------------------------------

pub open spec fn view_events(s: Seq<Event>) -> Seq<EventV> {
    s.map_values(|e: Event| e@)
}

pub open spec fn view_offers(s: Seq<Offer>) -> Seq<OfferV> {
    s.map_values(|o: Offer| o@)
}

pub open spec fn view_inverse_offers(s: Seq<InverseOffer>) -> Seq<InverseOfferV> {
    s.map_values(|o: InverseOffer| o@)
}

pub open spec fn view_offer_ids(s: Seq<OfferID>) -> Seq<Seq<u8>> {
    s.map_values(|o: OfferID| o@)
}

pub open spec fn view_operations(s: Seq<Operation>) -> Seq<OperationV> {
    s.map_values(|o: Operation| o@)
}

pub open spec fn view_task_infos(s: Seq<TaskInfo>) -> Seq<TaskInfoV> {
    s.map_values(|t: TaskInfo| t@)
}

pub open spec fn view_resources(s: Seq<Resource>) -> Seq<ResourceV> {
    s.map_values(|r: Resource| r@)
}

pub open spec fn view_task_refs(s: Seq<TaskRef>) -> Seq<TaskRefV> {
    s.map_values(|t: TaskRef| t@)
}

pub open spec fn view_requests(s: Seq<ResourceRequest>) -> Seq<ResourceRequestV> {
    s.map_values(|r: ResourceRequest| r@)
}

// ---------------------------------------------------------------------------
// Identifiers
// ---------------------------------------------------------------------------

/// The opaque identity the master assigns to this framework on subscription.
#[derive(Clone, Debug, PartialEq, Eq)]
pub struct FrameworkID {
    pub value: Vec<u8>,
}

/// Identifies one agent (worker node) of the cluster.
#[derive(Clone, Debug, PartialEq, Eq)]
pub struct AgentID {
    pub value: Vec<u8>,
}

/// Identifies one executor on an agent.
#[derive(Clone, Debug, PartialEq, Eq)]
pub struct ExecutorID {
    pub value: Vec<u8>,
}

/// Identifies one resource offer.
#[derive(Clone, Debug, PartialEq, Eq)]
pub struct OfferID {
    pub value: Vec<u8>,
}

/// Identifies one task.
#[derive(Clone, Debug, PartialEq, Eq)]
pub struct TaskID {
    pub value: Vec<u8>,
}

impl View for FrameworkID {
    type V = Seq<u8>;

    open spec fn view(&self) -> Seq<u8> {
        self.value@
    }
}

impl View for AgentID {
    type V = Seq<u8>;

    open spec fn view(&self) -> Seq<u8> {
        self.value@
    }
}

impl View for ExecutorID {
    type V = Seq<u8>;

    open spec fn view(&self) -> Seq<u8> {
        self.value@
    }
}

impl View for OfferID {
    type V = Seq<u8>;

    open spec fn view(&self) -> Seq<u8> {
        self.value@
    }
}

impl View for TaskID {
    type V = Seq<u8>;

    open spec fn view(&self) -> Seq<u8> {
        self.value@
    }
}

impl FrameworkID {
    /// A copy whose bytes are known to equal the original's.
    pub fn duplicate(&self) -> (r: FrameworkID)
        ensures
            r@ == self@,
    {
        FrameworkID { value: vstd::slice::slice_to_vec(self.value.as_slice()) }
    }
}

impl AgentID {
    /// A copy whose bytes are known to equal the original's.
    pub fn duplicate(&self) -> (r: AgentID)
        ensures
            r@ == self@,
    {
        AgentID { value: vstd::slice::slice_to_vec(self.value.as_slice()) }
    }
}

impl ExecutorID {
    /// A copy whose bytes are known to equal the original's.
    pub fn duplicate(&self) -> (r: ExecutorID)
        ensures
            r@ == self@,
    {
        ExecutorID { value: vstd::slice::slice_to_vec(self.value.as_slice()) }
    }
}

impl OfferID {
    /// A copy whose bytes are known to equal the original's.
    pub fn duplicate(&self) -> (r: OfferID)
        ensures
            r@ == self@,
    {
        OfferID { value: vstd::slice::slice_to_vec(self.value.as_slice()) }
    }
}

impl TaskID {
    /// A copy whose bytes are known to equal the original's.
    pub fn duplicate(&self) -> (r: TaskID)
        ensures
            r@ == self@,
    {
        TaskID { value: vstd::slice::slice_to_vec(self.value.as_slice()) }
    }
}

/// Lifts an optional viewable value to its ghost mirror.
pub open spec fn view_opt<T: View>(o: Option<T>) -> Option<<T as View>::V> {
    match o {
        Some(x) => Some(x@),
        None => None,
    }
}

// ---------------------------------------------------------------------------
// Domain records (only the fields the client routes on)
// ---------------------------------------------------------------------------

/// One resource offer, reduced to the fields a client needs to route it.
#[derive(Clone, Debug, PartialEq, Eq)]
pub struct Offer {
    pub id: OfferID,
    pub agent_id: AgentID,
}

#[verifier::ext_equal]
pub struct OfferV {
    pub id: Seq<u8>,
    pub agent_id: Seq<u8>,
}

impl View for Offer {
    type V = OfferV;

    open spec fn view(&self) -> OfferV {
        OfferV { id: self.id@, agent_id: self.agent_id@ }
    }
}

/// An inverse offer: a request to give resources back.
#[derive(Clone, Debug, PartialEq, Eq)]
pub struct InverseOffer {
    pub id: OfferID,
    pub agent_id: AgentID,
}

#[verifier::ext_equal]
pub struct InverseOfferV {
    pub id: Seq<u8>,
    pub agent_id: Seq<u8>,
}

impl View for InverseOffer {
    type V = InverseOfferV;

    open spec fn view(&self) -> InverseOfferV {
        InverseOfferV { id: self.id@, agent_id: self.agent_id@ }
    }
}

/// A task status update. `state` is the numeric state code of the schema;
/// `uuid` is the acknowledgement token the master expects to be echoed.
#[derive(Clone, Debug, PartialEq, Eq)]
pub struct TaskStatus {
    pub task_id: TaskID,
    pub state: u64,
    pub agent_id: AgentID,
    pub uuid: Vec<u8>,
}

#[verifier::ext_equal]
pub struct TaskStatusV {
    pub task_id: Seq<u8>,
    pub state: u64,
    pub agent_id: Seq<u8>,
    pub uuid: Seq<u8>,
}

impl View for TaskStatus {
    type V = TaskStatusV;

    open spec fn view(&self) -> TaskStatusV {
        TaskStatusV {
            task_id: self.task_id@,
            state: self.state,
            agent_id: self.agent_id@,
            uuid: self.uuid@,
        }
    }
}

/// Description of a framework, sent with `Subscribe`. The failover timeout
/// is carried in whole seconds.
#[derive(Clone, Debug, PartialEq, Eq)]
pub struct FrameworkInfo {
    pub user: Vec<u8>,
    pub name: Vec<u8>,
    pub failover_timeout_seconds: u64,
    pub id: Option<FrameworkID>,
}

#[verifier::ext_equal]
pub struct FrameworkInfoV {
    pub user: Seq<u8>,
    pub name: Seq<u8>,
    pub failover_timeout_seconds: u64,
    pub id: Option<Seq<u8>>,
}

impl View for FrameworkInfo {
    type V = FrameworkInfoV;

    open spec fn view(&self) -> FrameworkInfoV {
        FrameworkInfoV {
            user: self.user@,
            name: self.name@,
            failover_timeout_seconds: self.failover_timeout_seconds,
            id: match self.id {
                Some(ref f) => Some(f@),
                None => None,
            },
        }
    }
}

/// Offer filters: how long declined resources stay away, in whole seconds.
#[derive(Clone, Copy, Debug, PartialEq, Eq, Structural)]
pub struct Filters {
    pub refuse_seconds: u64,
}

/// One resource of a task description. The scalar quantity is carried as the
/// raw bit pattern of the schema's numeric value; the library never
/// interprets it, only the application does.
#[derive(Clone, Debug, PartialEq, Eq)]
pub struct Resource {
    pub name: Vec<u8>,
    pub role: Vec<u8>,
    pub scalar_bits: u64,
}

#[verifier::ext_equal]
pub struct ResourceV {
    pub name: Seq<u8>,
    pub role: Seq<u8>,
    pub scalar_bits: u64,
}

impl View for Resource {
    type V = ResourceV;

    open spec fn view(&self) -> ResourceV {
        ResourceV { name: self.name@, role: self.role@, scalar_bits: self.scalar_bits }
    }
}

/// The command an executor runs for a task.
#[derive(Clone, Debug, PartialEq, Eq)]
pub struct CommandInfo {
    pub value: Vec<u8>,
}

impl View for CommandInfo {
    type V = Seq<u8>;

    open spec fn view(&self) -> Seq<u8> {
        self.value@
    }
}

/// The container image a task runs in.
#[derive(Clone, Debug, PartialEq, Eq)]
pub struct ContainerInfo {
    pub image: Vec<u8>,
}

impl View for ContainerInfo {
    type V = Seq<u8>;

    open spec fn view(&self) -> Seq<u8> {
        self.image@
    }
}

/// Description of one task to launch.
#[derive(Clone, Debug, PartialEq, Eq)]
pub struct TaskInfo {
    pub name: Vec<u8>,
    pub task_id: TaskID,
    pub agent_id: AgentID,
    pub command: CommandInfo,
    pub container: Option<ContainerInfo>,
    pub resources: Vec<Resource>,
}

#[verifier::ext_equal]
pub struct TaskInfoV {
    pub name: Seq<u8>,
    pub task_id: Seq<u8>,
    pub agent_id: Seq<u8>,
    pub command: Seq<u8>,
    pub container: Option<Seq<u8>>,
    pub resources: Seq<ResourceV>,
}

impl View for TaskInfo {
    type V = TaskInfoV;

    open spec fn view(&self) -> TaskInfoV {
        TaskInfoV {
            name: self.name@,
            task_id: self.task_id@,
            agent_id: self.agent_id@,
            command: self.command@,
            container: match self.container {
                Some(ref c) => Some(c@),
                None => None,
            },
            resources: view_resources(self.resources@),
        }
    }
}

/// One offer operation. Only launching tasks is modelled; that is the one
/// operation this client issues.
#[derive(Clone, Debug, PartialEq, Eq)]
pub enum Operation {
    Launch { task_infos: Vec<TaskInfo> },
}

#[verifier::ext_equal]
pub enum OperationV {
    Launch { task_infos: Seq<TaskInfoV> },
}

impl View for Operation {
    type V = OperationV;

    open spec fn view(&self) -> OperationV {
        match self {
            Operation::Launch { task_infos } => OperationV::Launch {
                task_infos: view_task_infos(task_infos@),
            },
        }
    }
}

/// One task whose state is to be reconciled.
#[derive(Clone, Debug, PartialEq, Eq)]
pub struct TaskRef {
    pub task_id: TaskID,
    pub agent_id: Option<AgentID>,
}

#[verifier::ext_equal]
pub struct TaskRefV {
    pub task_id: Seq<u8>,
    pub agent_id: Option<Seq<u8>>,
}

impl View for TaskRef {
    type V = TaskRefV;

    open spec fn view(&self) -> TaskRefV {
        TaskRefV {
            task_id: self.task_id@,
            agent_id: match self.agent_id {
                Some(ref a) => Some(a@),
                None => None,
            },
        }
    }
}

/// A resource request addressed to one agent.
#[derive(Clone, Debug, PartialEq, Eq)]
pub struct ResourceRequest {
    pub agent_id: AgentID,
    pub resources: Vec<Resource>,
}

#[verifier::ext_equal]
pub struct ResourceRequestV {
    pub agent_id: Seq<u8>,
    pub resources: Seq<ResourceV>,
}

impl View for ResourceRequest {
    type V = ResourceRequestV;

    open spec fn view(&self) -> ResourceRequestV {
        ResourceRequestV {
            agent_id: self.agent_id@,
            resources: view_resources(self.resources@),
        }
    }
}

// ---------------------------------------------------------------------------
// Event: inbound notifications
// ---------------------------------------------------------------------------

/// One notification delivered by the master over the subscribe stream.
/// Exactly one payload is active per instance; `Unknown` is the
/// forward-compatibility catch-all for kinds this client does not know.
#[derive(Clone, Debug, PartialEq, Eq)]
pub enum Event {
    Subscribed { framework_id: FrameworkID, heartbeat_interval_seconds: Option<u64> },
    Offers { offers: Vec<Offer> },
    InverseOffers { inverse_offers: Vec<InverseOffer> },
    Rescind { offer_id: OfferID },
    Update { status: TaskStatus },
    Message { agent_id: AgentID, executor_id: ExecutorID, data: Vec<u8> },
    Failure { agent_id: Option<AgentID>, executor_id: Option<ExecutorID>, exit_status: Option<u64> },
    Error { message: Vec<u8> },
    Heartbeat,
    Unknown,
}

#[verifier::ext_equal]
pub enum EventV {
    Subscribed { framework_id: Seq<u8>, heartbeat_interval_seconds: Option<u64> },
    Offers { offers: Seq<OfferV> },
    InverseOffers { inverse_offers: Seq<InverseOfferV> },
    Rescind { offer_id: Seq<u8> },
    Update { status: TaskStatusV },
    Message { agent_id: Seq<u8>, executor_id: Seq<u8>, data: Seq<u8> },
    Failure { agent_id: Option<Seq<u8>>, executor_id: Option<Seq<u8>>, exit_status: Option<u64> },
    Error { message: Seq<u8> },
    Heartbeat,
    Unknown,
}

impl View for Event {
    type V = EventV;

    open spec fn view(&self) -> EventV {
        match self {
            Event::Subscribed { framework_id, heartbeat_interval_seconds } => EventV::Subscribed {
                framework_id: framework_id@,
                heartbeat_interval_seconds: *heartbeat_interval_seconds,
            },
            Event::Offers { offers } => EventV::Offers {
                offers: view_offers(offers@),
            },
            Event::InverseOffers { inverse_offers } => EventV::InverseOffers {
                inverse_offers: view_inverse_offers(inverse_offers@),
            },
            Event::Rescind { offer_id } => EventV::Rescind { offer_id: offer_id@ },
            Event::Update { status } => EventV::Update { status: status@ },
            Event::Message { agent_id, executor_id, data } => EventV::Message {
                agent_id: agent_id@,
                executor_id: executor_id@,
                data: data@,
            },
            Event::Failure { agent_id, executor_id, exit_status } => EventV::Failure {
                agent_id: match agent_id {
                    Some(a) => Some(a@),
                    None => None,
                },
                executor_id: match executor_id {
                    Some(e) => Some(e@),
                    None => None,
                },
                exit_status: *exit_status,
            },
            Event::Error { message } => EventV::Error { message: message@ },
            Event::Heartbeat => EventV::Heartbeat,
            Event::Unknown => EventV::Unknown,
        }
    }
}

// ---------------------------------------------------------------------------
// Call: outbound commands
// ---------------------------------------------------------------------------

/// The payload of one outbound command.
#[derive(Clone, Debug, PartialEq, Eq)]
pub enum CallKind {
    Subscribe { framework_info: FrameworkInfo, force: bool },
    Teardown,
    Accept { offer_ids: Vec<OfferID>, operations: Vec<Operation>, filters: Option<Filters> },
    Decline { offer_ids: Vec<OfferID>, filters: Option<Filters> },
    Revive,
    Kill { task_id: TaskID, agent_id: Option<AgentID> },
    Shutdown { executor_id: ExecutorID, agent_id: AgentID },
    Acknowledge { agent_id: AgentID, task_id: TaskID, uuid: Vec<u8> },
    Reconcile { tasks: Vec<TaskRef> },
    Message { agent_id: AgentID, executor_id: ExecutorID, data: Vec<u8> },
    Request { requests: Vec<ResourceRequest> },
    Suppress,
}

#[verifier::ext_equal]
pub enum CallKindV {
    Subscribe { framework_info: FrameworkInfoV, force: bool },
    Teardown,
    Accept { offer_ids: Seq<Seq<u8>>, operations: Seq<OperationV>, filters: Option<Filters> },
    Decline { offer_ids: Seq<Seq<u8>>, filters: Option<Filters> },
    Revive,
    Kill { task_id: Seq<u8>, agent_id: Option<Seq<u8>> },
    Shutdown { executor_id: Seq<u8>, agent_id: Seq<u8> },
    Acknowledge { agent_id: Seq<u8>, task_id: Seq<u8>, uuid: Seq<u8> },
    Reconcile { tasks: Seq<TaskRefV> },
    Message { agent_id: Seq<u8>, executor_id: Seq<u8>, data: Seq<u8> },
    Request { requests: Seq<ResourceRequestV> },
    Suppress,
}

impl View for CallKind {
    type V = CallKindV;

    open spec fn view(&self) -> CallKindV {
        match self {
            CallKind::Subscribe { framework_info, force } => CallKindV::Subscribe {
                framework_info: framework_info@,
                force: *force,
            },
            CallKind::Teardown => CallKindV::Teardown,
            CallKind::Accept { offer_ids, operations, filters } => CallKindV::Accept {
                offer_ids: view_offer_ids(offer_ids@),
                operations: view_operations(operations@),
                filters: *filters,
            },
            CallKind::Decline { offer_ids, filters } => CallKindV::Decline {
                offer_ids: view_offer_ids(offer_ids@),
                filters: *filters,
            },
            CallKind::Revive => CallKindV::Revive,
            CallKind::Kill { task_id, agent_id } => CallKindV::Kill {
                task_id: task_id@,
                agent_id: match agent_id {
                    Some(a) => Some(a@),
                    None => None,
                },
            },
            CallKind::Shutdown { executor_id, agent_id } => CallKindV::Shutdown {
                executor_id: executor_id@,
                agent_id: agent_id@,
            },
            CallKind::Acknowledge { agent_id, task_id, uuid } => CallKindV::Acknowledge {
                agent_id: agent_id@,
                task_id: task_id@,
                uuid: uuid@,
            },
            CallKind::Reconcile { tasks } => CallKindV::Reconcile {
                tasks: view_task_refs(tasks@),
            },
            CallKind::Message { agent_id, executor_id, data } => CallKindV::Message {
                agent_id: agent_id@,
                executor_id: executor_id@,
                data: data@,
            },
            CallKind::Request { requests } => CallKindV::Request {
                requests: view_requests(requests@),
            },
            CallKind::Suppress => CallKindV::Suppress,
        }
    }
}

/// One outbound command: a payload plus the framework identity stamped onto
/// it. Every call except the very first `Subscribe` must carry the current
/// identity; the stamping is done by the dispatcher, never by callers.
#[derive(Clone, Debug, PartialEq, Eq)]
pub struct Call {
    pub framework_id: Option<FrameworkID>,
    pub kind: CallKind,
}

#[verifier::ext_equal]
pub struct CallV {
    pub framework_id: Option<Seq<u8>>,
    pub kind: CallKindV,
}

impl View for Call {
    type V = CallV;

    open spec fn view(&self) -> CallV {
        CallV {
            framework_id: match self.framework_id {
                Some(ref f) => Some(f@),
                None => None,
            },
            kind: self.kind@,
        }
    }
}

} // verus!

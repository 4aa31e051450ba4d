//! The outbound call path.
//!
//! Each operation builds one call from its arguments, validates that the
//! identifiers the protocol requires are non-empty, stamps the call with
//! whatever framework identity the shared session holds, and returns the
//! call's wire encoding. The surrounding application posts those bytes to
//! `<master url>/api/v1/scheduler` with the headers of
//! [`crate::util::protobuf_headers`].
//!
//! The session read is concurrent, so the contracts say: the result is the
//! encoding of the intended payload stamped with *some* complete identity
//! value the session held — never a torn one. What stamping does to the
//! bytes is pinned exactly by [`lemma_identity_propagation`].

use crate::errors::ValidationError;
use crate::messages::{
    view_offer_ids, view_operations, view_requests, view_task_refs, view_opt, AgentID, Call,
    CallKind, CallKindV, CallV, ExecutorID, Filters, FrameworkID, FrameworkInfo, FrameworkInfoV,
    OfferID, Operation, ResourceRequest, TaskID, TaskRef, TaskRefV,
};
use crate::session::Session;
use crate::wire::take_opt_bytes;
use crate::wire_call::{enc_call, enc_call_kind, encode_call};
use vstd::prelude::*;
use vstd::string::StringExecFns;

verus! {

/// A call payload stamped with an identity.
pub open spec fn stamped(k: CallKindV, fid: Option<Seq<u8>>) -> CallV {
    CallV { framework_id: fid, kind: k }
}

/// The given bytes are the encoding of this payload under some complete
/// identity stamp.
pub open spec fn stamped_encoding(body: Seq<u8>, k: CallKindV) -> bool {
    exists|fid: Option<Seq<u8>>| body == #[trigger] enc_call(stamped(k, fid))
}

/// How a subscribe call's framework description looks after stamping: a
/// known identity replaces the description's own, none leaves it unchanged.
pub open spec fn subscribe_info(f: FrameworkInfoV, fid: Option<Seq<u8>>) -> FrameworkInfoV {
    match fid {
        Some(x) => FrameworkInfoV {
            user: f.user,
            name: f.name,
            failover_timeout_seconds: f.failover_timeout_seconds,
            id: Some(x),
        },
        None => f,
    }
}

/// Identity propagation (law): the wire form of a stamped call begins with
/// exactly the stamped identity — parsing the stamp back off the encoding
/// yields the identity that was stamped, whatever the payload.
pub proof fn lemma_identity_propagation(k: CallKindV, fid: Option<Seq<u8>>)
    requires
        fid matches Some(f) ==> f.len() <= u64::MAX,
    ensures
        take_opt_bytes(enc_call(stamped(k, fid))) == Some((fid, enc_call_kind(k))),
{
    crate::wire::lemma_take_opt_bytes(fid, enc_call_kind(k));
}

/// The client handle: the scheduler endpoint and the shared session. Shared
/// across any number of calling contexts by reference; the session's locks
/// make concurrent use safe.
pub struct SchedulerClient {
    pub url: String,
    pub session: Session,
}

impl SchedulerClient {
    /// Validity of the handle: the session's locks admit every value, so any
    /// context may read or write them.
    pub open spec fn wf(&self) -> bool {
        self.session.wf()
    }
}

impl SchedulerClient {
    /// A client for the master at `url`; the endpoint path is appended. A
    /// previously known framework identity may be carried in for failover.
    pub fn new(url: String, framework_id: Option<FrameworkID>) -> (r: SchedulerClient)
        ensures
            r.wf(),
            r.url@ == url@ + "/api/v1/scheduler"@,
    {
        SchedulerClient { url: url.concat("/api/v1/scheduler"), session: Session::new(framework_id) }
    }

    /// The identity the session currently holds, if any.
    pub fn get_framework_id(&self) -> Option<FrameworkID>
        requires
            self.wf(),
    {
        self.session.get_framework_id()
    }

    /// Reads the session identity and encodes the payload stamped with it.
    fn finish(&self, kind: CallKind) -> (r: Vec<u8>)
        requires
            self.wf(),
        ensures
            stamped_encoding(r@, kind@),
    {
        let fid = self.session.get_framework_id();
        let ghost gfid = view_opt(fid);
        let call = Call { framework_id: fid, kind };
        let body = encode_call(&call);
        proof {
            assert(call@ == stamped(call@.kind, gfid));
            assert(body@ == enc_call(stamped(kind@, gfid)));
        }
        body
    }

    /// Builds and encodes the subscribe call. A known identity both replaces
    /// the framework description's own and stamps the call, so the master
    /// recognizes a rejoining framework; the stream token is cleared, since a
    /// new subscribe starts a new stream session.
    pub fn subscribe(&self, framework_info: FrameworkInfo, force: bool) -> (r: Vec<u8>)
        requires
            self.wf(),
        ensures
            exists|fid: Option<Seq<u8>>|
                r@ == #[trigger] enc_call(
                    stamped(
                        CallKindV::Subscribe {
                            framework_info: subscribe_info(framework_info@, fid),
                            force,
                        },
                        fid,
                    ),
                ),
    {
        let ghost f0 = framework_info@;
        let mut framework_info = framework_info;
        self.session.set_stream_token(None);
        let fid = self.session.get_framework_id();
        let ghost gfid = view_opt(fid);
        match &fid {
            Some(f) => {
                framework_info.id = Some(f.duplicate());
            },
            None => {},
        }
        proof {
            assert(framework_info@ =~= subscribe_info(f0, gfid));
        }
        let call = Call {
            framework_id: fid,
            kind: CallKind::Subscribe { framework_info, force },
        };
        let body = encode_call(&call);
        proof {
            assert(body@ == enc_call(
                stamped(
                    CallKindV::Subscribe { framework_info: subscribe_info(f0, gfid), force },
                    gfid,
                ),
            ));
        }
        body
    }

    /// Encodes a teardown call.
    pub fn teardown(&self) -> (r: Vec<u8>)
        requires
            self.wf(),
        ensures
            stamped_encoding(r@, CallKindV::Teardown),
    {
        self.finish(CallKind::Teardown)
    }

    /// Encodes an accept call for the given offers, operations and filters.
    pub fn accept(
        &self,
        offer_ids: Vec<OfferID>,
        operations: Vec<Operation>,
        filters: Option<Filters>,
    ) -> (r: Vec<u8>)
        requires
            self.wf(),
        ensures
            stamped_encoding(
                r@,
                CallKindV::Accept {
                    offer_ids: view_offer_ids(offer_ids@),
                    operations: view_operations(operations@),
                    filters,
                },
            ),
    {
        self.finish(CallKind::Accept { offer_ids, operations, filters })
    }

    /// Encodes an accept call that launches the given tasks on the given
    /// offers.
    pub fn launch(
        &self,
        offer_ids: Vec<OfferID>,
        tasks: Vec<crate::messages::TaskInfo>,
        filters: Option<Filters>,
    ) -> (r: Vec<u8>)
        requires
            self.wf(),
        ensures
            stamped_encoding(
                r@,
                CallKindV::Accept {
                    offer_ids: view_offer_ids(offer_ids@),
                    operations: seq![
                        crate::messages::OperationV::Launch {
                            task_infos: crate::messages::view_task_infos(tasks@),
                        },
                    ],
                    filters,
                },
            ),
    {
        let operation = crate::util::launch_operation(tasks);
        let ghost opv = operation@;
        let ops = vec![operation];
        proof {
            assert(view_operations(ops@) =~= seq![opv]);
        }
        self.accept(offer_ids, ops, filters)
    }

    /// Encodes a decline call.
    pub fn decline(&self, offer_ids: Vec<OfferID>, filters: Option<Filters>) -> (r: Vec<u8>)
        requires
            self.wf(),
        ensures
            stamped_encoding(
                r@,
                CallKindV::Decline { offer_ids: view_offer_ids(offer_ids@), filters },
            ),
    {
        self.finish(CallKind::Decline { offer_ids, filters })
    }

    /// Encodes a revive call.
    pub fn revive(&self) -> (r: Vec<u8>)
        requires
            self.wf(),
        ensures
            stamped_encoding(r@, CallKindV::Revive),
    {
        self.finish(CallKind::Revive)
    }

    /// Encodes a kill call; the task identity must be non-empty.
    pub fn kill(&self, task_id: TaskID, agent_id: Option<AgentID>) -> (r: Result<
        Vec<u8>,
        ValidationError,
    >)
        requires
            self.wf(),
        ensures
            task_id@.len() == 0 <==> r == Err::<Vec<u8>, ValidationError>(
                ValidationError::EmptyTaskId,
            ),
            task_id@.len() > 0 ==> (r matches Ok(body) && stamped_encoding(
                body@,
                CallKindV::Kill { task_id: task_id@, agent_id: view_opt(agent_id) },
            )),
    {
        if task_id.value.len() == 0 {
            return Err(ValidationError::EmptyTaskId);
        }
        Ok(self.finish(CallKind::Kill { task_id, agent_id }))
    }

    /// Encodes a shutdown call; both identities must be non-empty.
    pub fn shutdown(&self, executor_id: ExecutorID, agent_id: AgentID) -> (r: Result<
        Vec<u8>,
        ValidationError,
    >)
        requires
            self.wf(),
        ensures
            executor_id@.len() == 0 ==> r == Err::<Vec<u8>, ValidationError>(
                ValidationError::EmptyExecutorId,
            ),
            executor_id@.len() > 0 && agent_id@.len() == 0 ==> r == Err::<Vec<u8>, ValidationError>(
                ValidationError::EmptyAgentId,
            ),
            executor_id@.len() > 0 && agent_id@.len() > 0 ==> (r matches Ok(body)
                && stamped_encoding(
                body@,
                CallKindV::Shutdown { executor_id: executor_id@, agent_id: agent_id@ },
            )),
    {
        if executor_id.value.len() == 0 {
            return Err(ValidationError::EmptyExecutorId);
        }
        if agent_id.value.len() == 0 {
            return Err(ValidationError::EmptyAgentId);
        }
        Ok(self.finish(CallKind::Shutdown { executor_id, agent_id }))
    }

    /// Encodes an acknowledge call; the identities and the status token must
    /// be non-empty.
    pub fn acknowledge(&self, agent_id: AgentID, task_id: TaskID, uuid: Vec<u8>) -> (r: Result<
        Vec<u8>,
        ValidationError,
    >)
        requires
            self.wf(),
        ensures
            agent_id@.len() == 0 ==> r == Err::<Vec<u8>, ValidationError>(
                ValidationError::EmptyAgentId,
            ),
            agent_id@.len() > 0 && task_id@.len() == 0 ==> r == Err::<Vec<u8>, ValidationError>(
                ValidationError::EmptyTaskId,
            ),
            agent_id@.len() > 0 && task_id@.len() > 0 && uuid@.len() == 0 ==> r == Err::<
                Vec<u8>,
                ValidationError,
            >(ValidationError::EmptyUuid),
            agent_id@.len() > 0 && task_id@.len() > 0 && uuid@.len() > 0 ==> (r matches Ok(body)
                && stamped_encoding(
                body@,
                CallKindV::Acknowledge { agent_id: agent_id@, task_id: task_id@, uuid: uuid@ },
            )),
    {
        if agent_id.value.len() == 0 {
            return Err(ValidationError::EmptyAgentId);
        }
        if task_id.value.len() == 0 {
            return Err(ValidationError::EmptyTaskId);
        }
        if uuid.len() == 0 {
            return Err(ValidationError::EmptyUuid);
        }
        Ok(self.finish(CallKind::Acknowledge { agent_id, task_id, uuid }))
    }

    /// Encodes a reconcile call for one task.
    pub fn reconcile_task(&self, task_id: TaskID, agent_id: Option<AgentID>) -> (r: Result<
        Vec<u8>,
        ValidationError,
    >)
        requires
            self.wf(),
        ensures
            task_id@.len() == 0 <==> r == Err::<Vec<u8>, ValidationError>(
                ValidationError::EmptyTaskId,
            ),
            task_id@.len() > 0 ==> (r matches Ok(body) && stamped_encoding(
                body@,
                CallKindV::Reconcile {
                    tasks: seq![TaskRefV { task_id: task_id@, agent_id: view_opt(agent_id) }],
                },
            )),
    {
        let ghost tv = TaskRefV { task_id: task_id@, agent_id: view_opt(agent_id) };
        let task = TaskRef { task_id, agent_id };
        let tasks = vec![task];
        proof {
            assert(view_task_refs(tasks@) =~= seq![tv]);
        }
        self.reconcile(tasks)
    }

    /// Encodes a reconcile call; every named task identity must be
    /// non-empty. An empty task list asks the master to reconcile
    /// everything.
    #[verifier::loop_isolation(false)]
    pub fn reconcile(&self, tasks: Vec<TaskRef>) -> (r: Result<Vec<u8>, ValidationError>)
        requires
            self.wf(),
        ensures
            (exists|i: int|
                0 <= i < tasks@.len() && #[trigger] view_task_refs(tasks@)[i].task_id.len() == 0)
                <==> r == Err::<Vec<u8>, ValidationError>(ValidationError::EmptyTaskId),
            (forall|i: int|
                0 <= i < tasks@.len() ==> #[trigger] view_task_refs(tasks@)[i].task_id.len() > 0)
                ==> (r matches Ok(body) && stamped_encoding(
                body@,
                CallKindV::Reconcile { tasks: view_task_refs(tasks@) },
            )),
    {
        let n = tasks.len();
        let mut i: usize = 0;
        while i < n
            invariant
                i <= n,
                forall|j: int| 0 <= j < i ==> #[trigger] view_task_refs(tasks@)[j].task_id.len() > 0,
            decreases n - i,
        {
            if tasks[i].task_id.value.len() == 0 {
                proof {
                    assert(view_task_refs(tasks@)[i as int].task_id.len() == 0);
                }
                return Err(ValidationError::EmptyTaskId);
            }
            proof {
                assert(view_task_refs(tasks@)[i as int].task_id.len() > 0);
            }
            i = i + 1;
        }
        Ok(self.finish(CallKind::Reconcile { tasks }))
    }

    /// Encodes a message call; both identities must be non-empty.
    pub fn message(&self, agent_id: AgentID, executor_id: ExecutorID, data: Vec<u8>) -> (r: Result<
        Vec<u8>,
        ValidationError,
    >)
        requires
            self.wf(),
        ensures
            agent_id@.len() == 0 ==> r == Err::<Vec<u8>, ValidationError>(
                ValidationError::EmptyAgentId,
            ),
            agent_id@.len() > 0 && executor_id@.len() == 0 ==> r == Err::<Vec<u8>, ValidationError>(
                ValidationError::EmptyExecutorId,
            ),
            agent_id@.len() > 0 && executor_id@.len() > 0 ==> (r matches Ok(body)
                && stamped_encoding(
                body@,
                CallKindV::Message {
                    agent_id: agent_id@,
                    executor_id: executor_id@,
                    data: data@,
                },
            )),
    {
        if agent_id.value.len() == 0 {
            return Err(ValidationError::EmptyAgentId);
        }
        if executor_id.value.len() == 0 {
            return Err(ValidationError::EmptyExecutorId);
        }
        Ok(self.finish(CallKind::Message { agent_id, executor_id, data }))
    }

    /// Encodes a request call.
    pub fn request(&self, requests: Vec<ResourceRequest>) -> (r: Vec<u8>)
        requires
            self.wf(),
        ensures
            stamped_encoding(r@, CallKindV::Request { requests: view_requests(requests@) }),
    {
        self.finish(CallKind::Request { requests })
    }

    /// Encodes a suppress call.
    pub fn suppress(&self) -> (r: Vec<u8>)
        requires
            self.wf(),
        ensures
            stamped_encoding(r@, CallKindV::Suppress),
    {
        self.finish(CallKind::Suppress)
    }
}

} // verus!

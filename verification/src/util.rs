//! Builders for the protocol's records, and the request headers.

use crate::messages::{
    view_resources, view_task_infos, AgentID, CommandInfo, ContainerInfo, FrameworkID,
    FrameworkInfo, FrameworkInfoV, Operation, OperationV, Resource, TaskID, TaskInfo, TaskInfoV,
};
use vstd::prelude::*;
use vstd::string::StringSliceAdditionalSpecFns;
use vstd::slice::slice_to_vec;

verus! {

/// Wraps an identifier string as a framework identity.
pub fn framework_id(id: &str) -> (r: FrameworkID)
    ensures
        r@ == id.spec_bytes(),
{
    FrameworkID { value: slice_to_vec(id.as_bytes()) }
}

/// Wraps an identifier string as a task identity.
pub fn task_id(id: &str) -> (r: TaskID)
    ensures
        r@ == id.spec_bytes(),
{
    TaskID { value: slice_to_vec(id.as_bytes()) }
}

/// Wraps an identifier string as an agent identity.
pub fn agent_id(id: &str) -> (r: AgentID)
    ensures
        r@ == id.spec_bytes(),
{
    AgentID { value: slice_to_vec(id.as_bytes()) }
}

/// A framework description without an assigned identity; the failover
/// timeout is in whole seconds.
pub fn framework_info(user: &str, name: &str, failover_timeout_seconds: u64) -> (r: FrameworkInfo)
    ensures
        r@ == (FrameworkInfoV {
            user: user.spec_bytes(),
            name: name.spec_bytes(),
            failover_timeout_seconds,
            id: None,
        }),
{
    FrameworkInfo {
        user: slice_to_vec(user.as_bytes()),
        name: slice_to_vec(name.as_bytes()),
        failover_timeout_seconds,
        id: None,
    }
}

/// A task description running a plain command.
pub fn task_info(
    name: &str,
    task_id: &TaskID,
    agent_id: &AgentID,
    command: &CommandInfo,
    resources: Vec<Resource>,
) -> (r: TaskInfo)
    ensures
        r@ == (TaskInfoV {
            name: name.spec_bytes(),
            task_id: task_id@,
            agent_id: agent_id@,
            command: command@,
            container: None,
            resources: view_resources(resources@),
        }),
{
    TaskInfo {
        name: slice_to_vec(name.as_bytes()),
        task_id: task_id.duplicate(),
        agent_id: agent_id.duplicate(),
        command: CommandInfo { value: slice_to_vec(command.value.as_slice()) },
        container: None,
        resources,
    }
}

/// A task description running a command inside a container image.
pub fn task_info_for_container(
    name: &str,
    task_id: &TaskID,
    agent_id: &AgentID,
    command: &CommandInfo,
    container: &ContainerInfo,
    resources: Vec<Resource>,
) -> (r: TaskInfo)
    ensures
        r@ == (TaskInfoV {
            name: name.spec_bytes(),
            task_id: task_id@,
            agent_id: agent_id@,
            command: command@,
            container: Some(container@),
            resources: view_resources(resources@),
        }),
{
    TaskInfo {
        name: slice_to_vec(name.as_bytes()),
        task_id: task_id.duplicate(),
        agent_id: agent_id.duplicate(),
        command: CommandInfo { value: slice_to_vec(command.value.as_slice()) },
        container: Some(ContainerInfo { image: slice_to_vec(container.image.as_slice()) }),
        resources,
    }
}

/// The launch operation carrying the given task descriptions.
pub fn launch_operation(task_infos: Vec<TaskInfo>) -> (r: Operation)
    ensures
        r@ == (OperationV::Launch { task_infos: view_task_infos(task_infos@) }),
{
    Operation::Launch { task_infos }
}

/// The request headers of every outbound call: an accept header and a
/// content type naming the binary schema encoding, and — once a stream
/// session token is held — the session header echoing it.
pub fn protobuf_headers(stream_id: &str) -> (r: Vec<(String, String)>)
    ensures
        stream_id@.len() == 0 ==> r@.len() == 2,
        stream_id@.len() > 0 ==> r@.len() == 3 && r@[2].0@ == "Mesos-Stream-Id"@ && r@[2].1@
            == stream_id@,
        r@[0].0@ == "Accept"@,
        r@[0].1@ == "text/html, application/x-protobuf"@,
        r@[1].0@ == "Content-Type"@,
        r@[1].1@ == "application/x-protobuf"@,
{
    let mut headers: Vec<(String, String)> = Vec::new();
    headers.push(
        ("Accept".to_owned(), "text/html, application/x-protobuf".to_owned()),
    );
    headers.push(("Content-Type".to_owned(), "application/x-protobuf".to_owned()));
    if !stream_id.is_empty() {
        headers.push(("Mesos-Stream-Id".to_owned(), stream_id.to_owned()));
    }
    headers
}

} // verus!

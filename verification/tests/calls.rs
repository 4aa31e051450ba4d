use mesos::errors::ValidationError;
use mesos::messages::{
    AgentID, Call, CallKind, ExecutorID, Filters, FrameworkID, OfferID, TaskID, TaskRef,
};
use mesos::util::{
    agent_id, framework_id, framework_info, launch_operation, protobuf_headers, task_id,
};
use mesos::wire_call::encode_call;
use mesos::SchedulerClient;

fn client() -> SchedulerClient {
    SchedulerClient::new("http://master:5050".to_string(), None)
}

#[test]
fn client_url_gets_the_scheduler_endpoint() {
    let c = client();
    assert_eq!(c.url, "http://master:5050/api/v1/scheduler");
}

#[test]
fn teardown_without_identity_is_two_exact_bytes() {
    let c = client();
    let body = c.teardown();
    // no identity stamp (one flag byte), then the teardown tag
    assert_eq!(body, vec![0, 2]);
}

#[test]
fn kill_with_empty_task_id_is_rejected() {
    let c = client();
    let r = c.kill(TaskID { value: vec![] }, None);
    assert_eq!(r, Err(ValidationError::EmptyTaskId));
}

#[test]
fn shutdown_validates_both_identifiers() {
    let c = client();
    assert_eq!(
        c.shutdown(ExecutorID { value: vec![] }, agent_id("A1")),
        Err(ValidationError::EmptyExecutorId)
    );
    assert_eq!(
        c.shutdown(ExecutorID { value: b"E1".to_vec() }, AgentID { value: vec![] }),
        Err(ValidationError::EmptyAgentId)
    );
    assert!(c.shutdown(ExecutorID { value: b"E1".to_vec() }, agent_id("A1")).is_ok());
}

#[test]
fn acknowledge_requires_a_status_uuid() {
    let c = client();
    assert_eq!(
        c.acknowledge(agent_id("A1"), task_id("T1"), vec![]),
        Err(ValidationError::EmptyUuid)
    );
    assert!(c.acknowledge(agent_id("A1"), task_id("T1"), vec![7]).is_ok());
}

#[test]
fn message_validates_identifiers() {
    let c = client();
    assert_eq!(
        c.message(AgentID { value: vec![] }, ExecutorID { value: b"E1".to_vec() }, vec![1]),
        Err(ValidationError::EmptyAgentId)
    );
    assert_eq!(
        c.message(agent_id("A1"), ExecutorID { value: vec![] }, vec![1]),
        Err(ValidationError::EmptyExecutorId)
    );
    assert!(c.message(agent_id("A1"), ExecutorID { value: b"E1".to_vec() }, vec![]).is_ok());
}

#[test]
fn reconcile_rejects_an_empty_task_identity_anywhere_in_the_list() {
    let c = client();
    let tasks = vec![
        TaskRef { task_id: task_id("T1"), agent_id: None },
        TaskRef { task_id: TaskID { value: vec![] }, agent_id: Some(agent_id("A1")) },
    ];
    assert_eq!(c.reconcile(tasks), Err(ValidationError::EmptyTaskId));
    // the empty list is legal: it asks the master to reconcile everything
    assert!(c.reconcile(vec![]).is_ok());
}

#[test]
fn reconcile_task_wraps_one_task() {
    let c = client();
    let body = c.reconcile_task(task_id("T1"), Some(agent_id("A1"))).unwrap();
    let expected = encode_call(&Call {
        framework_id: None,
        kind: CallKind::Reconcile {
            tasks: vec![TaskRef { task_id: task_id("T1"), agent_id: Some(agent_id("A1")) }],
        },
    });
    assert_eq!(body, expected);
}

#[test]
fn kill_serializes_the_session_identity() {
    let c = client();
    c.session.set_framework_id(Some(framework_id("F1")));
    let body = c.kill(task_id("T1"), None).unwrap();
    let expected = encode_call(&Call {
        framework_id: Some(framework_id("F1")),
        kind: CallKind::Kill { task_id: task_id("T1"), agent_id: None },
    });
    assert_eq!(body, expected);
    // the stamp leads the encoding: present flag, length 2, then the bytes
    assert_eq!(&body[..11], &[1, 2, 0, 0, 0, 0, 0, 0, 0, b'F', b'1']);
}

#[test]
fn every_call_kind_carries_the_identity_once_set() {
    let c = client();
    c.session.set_framework_id(Some(framework_id("F9")));
    let stamp = [1u8, 2, 0, 0, 0, 0, 0, 0, 0, b'F', b'9'];
    let bodies = vec![
        c.teardown(),
        c.accept(vec![OfferID { value: b"O1".to_vec() }], vec![], None),
        c.decline(vec![OfferID { value: b"O1".to_vec() }], Some(Filters { refuse_seconds: 5 })),
        c.revive(),
        c.kill(task_id("T1"), None).unwrap(),
        c.shutdown(ExecutorID { value: b"E1".to_vec() }, agent_id("A1")).unwrap(),
        c.acknowledge(agent_id("A1"), task_id("T1"), vec![7]).unwrap(),
        c.reconcile(vec![]).unwrap(),
        c.message(agent_id("A1"), ExecutorID { value: b"E1".to_vec() }, vec![]).unwrap(),
        c.request(vec![]),
        c.suppress(),
    ];
    for body in bodies {
        assert_eq!(&body[..11], &stamp);
    }
}

#[test]
fn subscribe_stamps_the_known_identity_into_the_description() {
    let c = client();
    c.session.set_framework_id(Some(framework_id("F1")));
    let info = framework_info("root", "analytics", 60);
    let body = c.subscribe(info, false);

    let mut stamped_info = framework_info("root", "analytics", 60);
    stamped_info.id = Some(framework_id("F1"));
    let expected = encode_call(&Call {
        framework_id: Some(framework_id("F1")),
        kind: CallKind::Subscribe { framework_info: stamped_info, force: false },
    });
    assert_eq!(body, expected);
}

#[test]
fn first_subscribe_carries_no_identity() {
    let c = client();
    let info = framework_info("root", "analytics", 60);
    let body = c.subscribe(info, false);
    let expected = encode_call(&Call {
        framework_id: None,
        kind: CallKind::Subscribe {
            framework_info: framework_info("root", "analytics", 60),
            force: false,
        },
    });
    assert_eq!(body, expected);
}

#[test]
fn subscribe_clears_the_stream_token() {
    let c = client();
    c.session.set_stream_token(Some(b"stream-1".to_vec()));
    let _ = c.subscribe(framework_info("root", "analytics", 60), false);
    assert_eq!(c.session.get_stream_token(), None);
}

#[test]
fn launch_wraps_tasks_in_one_launch_operation() {
    let c = client();
    let body = c.launch(vec![OfferID { value: b"O1".to_vec() }], vec![], None);
    let expected = encode_call(&Call {
        framework_id: None,
        kind: CallKind::Accept {
            offer_ids: vec![OfferID { value: b"O1".to_vec() }],
            operations: vec![launch_operation(vec![])],
            filters: None,
        },
    });
    assert_eq!(body, expected);
}

#[test]
fn headers_without_a_token_are_two_pairs() {
    let headers = protobuf_headers("");
    assert_eq!(headers.len(), 2);
    assert_eq!(headers[0].0, "Accept");
    assert_eq!(headers[0].1, "text/html, application/x-protobuf");
    assert_eq!(headers[1].0, "Content-Type");
    assert_eq!(headers[1].1, "application/x-protobuf");
}

#[test]
fn headers_echo_the_stream_token() {
    let headers = protobuf_headers("stream-7");
    assert_eq!(headers.len(), 3);
    assert_eq!(headers[2].0, "Mesos-Stream-Id");
    assert_eq!(headers[2].1, "stream-7");
}

#[test]
fn builders_fill_the_declared_fields() {
    let f = framework_info("root", "analytics", 60);
    assert_eq!(f.user, b"root".to_vec());
    assert_eq!(f.name, b"analytics".to_vec());
    assert_eq!(f.failover_timeout_seconds, 60);
    assert_eq!(f.id, None);
    assert_eq!(framework_id("F1").value, b"F1".to_vec());
    assert_eq!(task_id("T1").value, b"T1".to_vec());
}

use mesos::backoff::{
    on_connection_end, Backoff, ConnectionOutcome, RunnerAction, BACKOFF_CEILING_MS,
    BACKOFF_INITIAL_MS,
};
use mesos::messages::{AgentID, Event, FrameworkID, Offer, OfferID};
use mesos::router::{dispatch_disconnect, dispatch_event};
use mesos::{Scheduler, SchedulerClient};

struct RecordingScheduler {
    calls: Vec<String>,
}

impl Scheduler for RecordingScheduler {
    fn subscribed(
        &mut self,
        _client: &SchedulerClient,
        framework_id: &FrameworkID,
        _heartbeat_interval_seconds: Option<u64>,
    ) {
        self.calls.push(format!("subscribed:{}", String::from_utf8_lossy(&framework_id.value)));
    }

    fn offers(&mut self, _client: &SchedulerClient, offers: &Vec<mesos::messages::Offer>) {
        self.calls.push(format!("offers:{}", offers.len()));
    }

    fn inverse_offers(
        &mut self,
        _client: &SchedulerClient,
        inverse_offers: &Vec<mesos::messages::InverseOffer>,
    ) {
        self.calls.push(format!("inverse_offers:{}", inverse_offers.len()));
    }

    fn rescind(&mut self, _client: &SchedulerClient, _offer_id: &OfferID) {
        self.calls.push("rescind".to_string());
    }

    fn update(&mut self, _client: &SchedulerClient, status: &mesos::messages::TaskStatus) {
        self.calls.push(format!("update:{}", status.state));
    }

    fn message(
        &mut self,
        _client: &SchedulerClient,
        _agent_id: &AgentID,
        _executor_id: &mesos::messages::ExecutorID,
        data: &Vec<u8>,
    ) {
        self.calls.push(format!("message:{}", data.len()));
    }

    fn failure(
        &mut self,
        _client: &SchedulerClient,
        _agent_id: &Option<AgentID>,
        _executor_id: &Option<mesos::messages::ExecutorID>,
        _exit_status: Option<u64>,
    ) {
        self.calls.push("failure".to_string());
    }

    fn error(&mut self, _client: &SchedulerClient, message: &Vec<u8>) {
        self.calls.push(format!("error:{}", String::from_utf8_lossy(message)));
    }

    fn heartbeat(&mut self, _client: &SchedulerClient) {
        self.calls.push("heartbeat".to_string());
    }

    fn unknown(&mut self, _client: &SchedulerClient) {
        self.calls.push("unknown".to_string());
    }

    fn disconnected(&mut self) {
        self.calls.push("disconnected".to_string());
    }
}

fn fid(s: &str) -> FrameworkID {
    FrameworkID { value: s.as_bytes().to_vec() }
}

#[test]
fn backoff_delays_are_non_decreasing_and_capped() {
    let mut b = Backoff::new();
    let mut last: u64 = 0;
    for _ in 0..12 {
        let d = b.on_failure();
        assert!(d >= last);
        assert!(d <= BACKOFF_CEILING_MS);
        last = d;
    }
    assert_eq!(last, BACKOFF_CEILING_MS);
}

#[test]
fn backoff_resets_after_subscribed() {
    let mut b = Backoff::new();
    let _ = b.on_failure();
    let _ = b.on_failure();
    let _ = b.on_failure();
    b.on_subscribed();
    assert_eq!(b.on_failure(), BACKOFF_INITIAL_MS);
}

#[test]
fn backoff_doubles_exactly_until_the_ceiling() {
    let mut b = Backoff::new();
    assert_eq!(b.on_failure(), 1000);
    assert_eq!(b.on_failure(), 2000);
    assert_eq!(b.on_failure(), 4000);
    assert_eq!(b.on_failure(), 8000);
    assert_eq!(b.on_failure(), 16000);
    assert_eq!(b.on_failure(), 32000);
    assert_eq!(b.on_failure(), 60000);
    assert_eq!(b.on_failure(), 60000);
}

#[test]
fn jitter_stays_within_half_the_delay() {
    for seed in [0u64, 1, 7, u64::MAX] {
        let d = Backoff::jittered(1000, seed);
        assert!((1000..=1500).contains(&d));
    }
}

#[test]
fn connection_end_honours_shutdown() {
    let mut b = Backoff::new();
    let action = on_connection_end(&mut b, ConnectionOutcome::Failed, true);
    assert_eq!(action, RunnerAction::Stop);
}

#[test]
fn connection_end_after_subscribed_reconnects_with_initial_delay() {
    let mut b = Backoff::new();
    let _ = b.on_failure();
    let _ = b.on_failure();
    let action = on_connection_end(&mut b, ConnectionOutcome::SubscribedReceived, false);
    assert_eq!(action, RunnerAction::ReconnectAfter { delay_ms: BACKOFF_INITIAL_MS });
}

#[test]
fn connection_end_after_failure_backs_off() {
    let mut b = Backoff::new();
    let a1 = on_connection_end(&mut b, ConnectionOutcome::Failed, false);
    let a2 = on_connection_end(&mut b, ConnectionOutcome::Failed, false);
    assert_eq!(a1, RunnerAction::ReconnectAfter { delay_ms: 1000 });
    assert_eq!(a2, RunnerAction::ReconnectAfter { delay_ms: 2000 });
}

#[test]
fn dispatch_writes_the_identity_before_the_callback() {
    let client = SchedulerClient::new("http://master:5050".to_string(), None);
    let mut sched = RecordingScheduler { calls: vec![] };
    let event = Event::Subscribed { framework_id: fid("F1"), heartbeat_interval_seconds: None };
    let written = dispatch_event(&mut sched, &client, &event);
    assert_eq!(written, Some(fid("F1")));
    assert_eq!(client.get_framework_id(), Some(fid("F1")));
    assert_eq!(sched.calls, vec!["subscribed:F1".to_string()]);
}

#[test]
fn identity_propagates_from_dispatch_to_the_next_call() {
    let client = SchedulerClient::new("http://master:5050".to_string(), None);
    let mut sched = RecordingScheduler { calls: vec![] };
    let event = Event::Subscribed { framework_id: fid("F1"), heartbeat_interval_seconds: None };
    let _ = dispatch_event(&mut sched, &client, &event);
    let body = client
        .kill(mesos::messages::TaskID { value: b"T1".to_vec() }, None)
        .unwrap();
    // the encoding starts with the stamped identity "F1"
    assert_eq!(&body[..11], &[1, 2, 0, 0, 0, 0, 0, 0, 0, b'F', b'1']);
}

#[test]
fn dispatch_preserves_event_order() {
    let client = SchedulerClient::new("http://master:5050".to_string(), None);
    let mut sched = RecordingScheduler { calls: vec![] };
    let events = vec![
        Event::Subscribed { framework_id: fid("F1"), heartbeat_interval_seconds: Some(15) },
        Event::Offers {
            offers: vec![Offer {
                id: OfferID { value: b"O1".to_vec() },
                agent_id: AgentID { value: b"A1".to_vec() },
            }],
        },
        Event::Heartbeat,
        Event::Unknown,
        Event::Error { message: b"bad".to_vec() },
    ];
    for e in events.iter() {
        let _ = dispatch_event(&mut sched, &client, e);
    }
    dispatch_disconnect(&mut sched);
    assert_eq!(
        sched.calls,
        vec![
            "subscribed:F1".to_string(),
            "offers:1".to_string(),
            "heartbeat".to_string(),
            "unknown".to_string(),
            "error:bad".to_string(),
            "disconnected".to_string(),
        ]
    );
}

#[test]
fn non_subscribed_events_do_not_touch_the_identity() {
    let client = SchedulerClient::new("http://master:5050".to_string(), None);
    let mut sched = RecordingScheduler { calls: vec![] };
    let written = dispatch_event(&mut sched, &client, &Event::Heartbeat);
    assert_eq!(written, None);
    assert_eq!(client.get_framework_id(), None);
}

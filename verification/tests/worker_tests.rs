use pidgeon::retry::{
    check_slave, classify_attempt, ConnectError, Destination, IpAddress, Params, ReadError,
    RetryState, SocketAddress,
};
use pidgeon::worker::{
    absorb_outcomes, flatten_result, retain_unmarked, spans_to_issue, Carrier, FlatError, Metrics,
    RequestKind, SimpleSpan, Storage, Task, TaskRequest,
};

fn destination() -> Destination {
    Destination {
        address: SocketAddress {
            ip: IpAddress::V4(0xC0A8_0101),
            port: 502,
        },
        slave: Some(3),
    }
}

fn storage_with(spans: usize) -> Storage {
    Storage {
        id: 1,
        destination: destination(),
        spans: (0..spans)
            .map(|i| SimpleSpan {
                address: i as u16 * 10,
                quantity: 2,
            })
            .collect(),
        partial: (0..spans).map(|_| None).collect(),
    }
}

#[test]
fn partial_progress_completes_on_second_pass() {
    // first pass: span one succeeds, span two times out
    let mut storage = storage_with(2);
    let idxs = spans_to_issue(&storage);
    assert_eq!(idxs, vec![0, 1]);
    let outcomes = vec![
        Ok(vec![1, 2]),
        Err(vec![ReadError::Timeout("deadline".to_string())]),
    ];
    let (complete, errors) = absorb_outcomes(&mut storage, &idxs, outcomes);
    assert!(complete.is_none());
    assert_eq!(errors.len(), 1);
    assert_eq!(storage.partial[0], Some(vec![1, 2]));
    assert_eq!(storage.partial[1], None);

    // second pass: only the unfinished span is issued
    let idxs = spans_to_issue(&storage);
    assert_eq!(idxs, vec![1]);
    let outcomes = vec![Ok(vec![3])];
    let (complete, errors) = absorb_outcomes(&mut storage, &idxs, outcomes);
    assert!(errors.is_empty());
    // the reply carries both span responses, in span order
    assert_eq!(complete, Some(vec![vec![1, 2], vec![3]]));
}

#[test]
fn prepopulated_slots_are_not_reissued() {
    let mut storage = storage_with(3);
    storage.partial[1] = Some(vec![9]);
    assert_eq!(spans_to_issue(&storage), vec![0, 2]);
}

#[test]
fn retry_exhaustion_returns_every_timeout() {
    let params = Params::new(50, 10, 3);
    let mut state = RetryState::start();
    let mut attempts = 0;
    while state.wants_attempt(&params) {
        attempts += 1;
        state.absorb(Err(ReadError::Timeout("black hole".to_string())));
    }
    assert_eq!(attempts, 3);
    let result = state.finish();
    let errors = result.expect_err("no attempt succeeded");
    assert_eq!(errors.len(), 3);
    assert!(errors
        .iter()
        .all(|e| matches!(e, ReadError::Timeout(_))));
}

#[test]
fn retry_stops_on_first_response() {
    let params = Params::new(50, 10, 3);
    let mut state = RetryState::start();
    assert!(state.wants_attempt(&params));
    state.absorb(Err(ReadError::Connection("refused".to_string())));
    assert!(state.wants_attempt(&params));
    state.absorb(Ok(vec![7]));
    assert!(!state.wants_attempt(&params));
    assert_eq!(state.finish(), Ok(vec![7]));
}

#[test]
fn requests_route_by_kind() {
    let mut task = Task::new(Params::new(1000, 10, 3));
    let spans = vec![SimpleSpan {
        address: 0,
        quantity: 1,
    }];
    task.handle_request(TaskRequest::Carrier(Carrier::new(
        destination(),
        &spans,
        RequestKind::Oneshot,
    )));
    task.handle_request(TaskRequest::Carrier(Carrier::new(
        destination(),
        &spans,
        RequestKind::Stream,
    )));
    assert_eq!(task.oneshots.len(), 1);
    assert_eq!(task.streams.len(), 1);
    assert!(!task.terminate);
    assert_eq!(task.streams[0].partial, vec![None]);

    task.handle_request(TaskRequest::Terminate);
    assert!(task.terminate);
    task.drop_streams();
    assert!(task.streams.is_empty());
    assert_eq!(task.oneshots.len(), 1);
}

#[test]
fn stream_reset_clears_progress() {
    let mut task = Task::new(Params::new(1000, 10, 3));
    let spans = vec![
        SimpleSpan {
            address: 0,
            quantity: 1,
        },
        SimpleSpan {
            address: 5,
            quantity: 2,
        },
    ];
    task.handle_request(TaskRequest::Carrier(Carrier::new(
        destination(),
        &spans,
        RequestKind::Stream,
    )));
    task.streams[0].partial[0] = Some(vec![1]);
    task.reset_stream(0);
    assert_eq!(task.streams[0].partial, vec![None, None]);
}

#[test]
fn retain_drops_marked_storages() {
    let mut a = storage_with(1);
    a.id = 10;
    let mut b = storage_with(1);
    b.id = 20;
    let mut c = storage_with(1);
    c.id = 30;
    let kept = retain_unmarked(vec![a, b, c], &vec![20]);
    let ids: Vec<u128> = kept.iter().map(|s| s.id).collect();
    assert_eq!(ids, vec![10, 30]);
}

#[test]
fn tune_keeps_the_floors() {
    let mut task = Task::new(Params::new(0, 0, 0));
    let metrics = Metrics::new();
    task.tune(&metrics);
    assert!(task.params.retries >= 1);
    assert!(task.params.timeout_ms >= 1);
}

#[test]
fn tune_backs_off_on_errors() {
    let mut task = Task::new(Params::new(1000, 10, 3));
    let mut metrics = Metrics::new();
    metrics.record(
        destination(),
        vec![ReadError::Timeout("deadline".to_string())],
    );
    assert!(metrics.has_errors());
    task.tune(&metrics);
    assert_eq!(task.params.timeout_ms, 2000);
    assert_eq!(task.params.backoff_ms, 20);
    assert_eq!(task.params.retries, 3);
}

#[test]
fn tune_relaxes_on_a_clean_pass() {
    let mut task = Task::new(Params::new(1000, 10, 3));
    let metrics = Metrics::new();
    assert!(!metrics.has_errors());
    task.tune(&metrics);
    assert_eq!(task.params.timeout_ms, 500);
    assert_eq!(task.params.backoff_ms, 5);
}

#[test]
fn metrics_group_by_destination() {
    let mut metrics = Metrics::new();
    let d = destination();
    metrics.record(d, vec![ReadError::Timeout("one".to_string())]);
    metrics.record(d, vec![ReadError::Connection("two".to_string())]);
    assert_eq!(metrics.errors.len(), 1);
    assert_eq!(metrics.errors[0].1.len(), 2);
}

#[test]
fn classify_attempt_maps_layers() {
    assert_eq!(classify_attempt(Ok(Ok(vec![1]))), Ok(vec![1]));
    assert_eq!(
        classify_attempt(Ok(Err("io".to_string()))),
        Err(ReadError::Connection("io".to_string()))
    );
    assert_eq!(
        classify_attempt(Err("elapsed".to_string())),
        Err(ReadError::Timeout("elapsed".to_string()))
    );
}

#[test]
fn slave_ids_outside_the_device_range_are_refused() {
    let mut d = destination();
    d.slave = Some(0);
    assert_eq!(check_slave(&d), Err(ConnectError::Slave));
    d.slave = Some(248);
    assert_eq!(check_slave(&d), Err(ConnectError::Slave));
    d.slave = Some(247);
    assert_eq!(check_slave(&d), Ok(()));
    d.slave = None;
    assert_eq!(check_slave(&d), Ok(()));
}

#[test]
fn network_reads_count_slots_plus_failures() {
    // three spans, one pre-populated: the first pass issues two reads and
    // one fails, the second issues the one unfinished read
    let mut storage = storage_with(3);
    storage.partial[0] = Some(vec![0]);
    let mut issued = 0;
    let mut failures = 0;

    let idxs = spans_to_issue(&storage);
    issued += idxs.len();
    let outcomes = vec![
        Ok(vec![1]),
        Err(vec![ReadError::Timeout("deadline".to_string())]),
    ];
    failures += 1;
    let (complete, _) = absorb_outcomes(&mut storage, &idxs, outcomes);
    assert!(complete.is_none());

    let idxs = spans_to_issue(&storage);
    issued += idxs.len();
    let (complete, _) = absorb_outcomes(&mut storage, &idxs, vec![Ok(vec![2])]);
    assert!(complete.is_some());

    // (slots not pre-populated) + (failed issues)
    assert_eq!(issued, 2 + failures);
}

#[test]
fn flatten_result_keeps_either_error() {
    let ok: Result<Result<u8, u8>, u8> = Ok(Ok(1));
    assert_eq!(flatten_result(ok), Ok(1));
    let inner: Result<Result<u8, u8>, u8> = Ok(Err(2));
    assert_eq!(flatten_result(inner), Err(FlatError::Inner(2)));
    let outer: Result<Result<u8, u8>, u8> = Err(3);
    assert_eq!(flatten_result(outer), Err(FlatError::Outer(3)));
}

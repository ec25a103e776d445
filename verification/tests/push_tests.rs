use pidgeon::cloud::Response;
use pidgeon::push::{
    append_measurements, batch_last_id, last_successful_log, log_for_outcome, push_attempt,
    select_batch, Process, StoreModel, BATCH_LIMIT,
};
use pidgeon::store::{Log, LogKind, LogStatus, Measurement};

fn row(id: i64) -> Measurement {
    Measurement {
        id,
        source: "meter-1".to_string(),
        timestamp_ms: 1000 + id,
        data: "{}".to_string(),
    }
}

fn ok_response() -> Option<Response> {
    Some(Response {
        success: true,
        text: "stored".to_string(),
    })
}

fn rejected_response() -> Option<Response> {
    Some(Response {
        success: false,
        text: "rejected".to_string(),
    })
}

#[test]
fn push_log_progression() {
    let mut store = StoreModel {
        measurements: (1..=5).map(row).collect(),
        logs: Vec::new(),
    };

    // first push succeeds: log {last=5, Success}
    let batch = push_attempt(&mut store, 10, ok_response());
    assert_eq!(batch.len(), 5);
    assert_eq!(store.logs.len(), 1);
    assert_eq!(store.logs[0].last, 5);
    assert_eq!(store.logs[0].status, LogStatus::Success);
    assert_eq!(store.logs[0].kind, LogKind::Push);

    // two more rows arrive; the second push fails: log {last=7, Failure}
    append_measurements(&mut store, vec![row(6), row(7)]);
    let batch = push_attempt(&mut store, 20, None);
    assert_eq!(batch.iter().map(|m| m.id).collect::<Vec<_>>(), vec![6, 7]);
    assert_eq!(store.logs[1].last, 7);
    assert_eq!(store.logs[1].status, LogStatus::Failure);

    // the third push succeeds and carries only the unpushed rows
    let batch = push_attempt(&mut store, 30, ok_response());
    assert_eq!(batch.iter().map(|m| m.id).collect::<Vec<_>>(), vec![6, 7]);
    assert_eq!(store.logs[2].last, 7);
    assert_eq!(store.logs[2].status, LogStatus::Success);

    // the persisted watermarks never go backwards
    let lasts: Vec<i64> = store.logs.iter().map(|l| l.last).collect();
    assert_eq!(lasts, vec![5, 7, 7]);

    // nothing left: no attempt is made, no log is written
    let batch = push_attempt(&mut store, 40, ok_response());
    assert!(batch.is_empty());
    assert_eq!(store.logs.len(), 3);
}

#[test]
fn failed_pushes_refetch_the_same_rows() {
    let mut store = StoreModel {
        measurements: (1..=3).map(row).collect(),
        logs: Vec::new(),
    };
    let first = push_attempt(&mut store, 10, rejected_response());
    let second = push_attempt(&mut store, 20, rejected_response());
    assert_eq!(
        first.iter().map(|m| m.id).collect::<Vec<_>>(),
        second.iter().map(|m| m.id).collect::<Vec<_>>()
    );
    let lasts: Vec<i64> = store.logs.iter().map(|l| l.last).collect();
    assert_eq!(lasts, vec![3, 3]);
}

#[test]
fn watermark_reads_the_most_recent_success_of_the_kind() {
    let log = |last, kind, status| Log {
        id: 0,
        timestamp_ms: 0,
        last,
        kind,
        status,
        response: String::new(),
    };
    let logs = vec![
        log(5, LogKind::Push, LogStatus::Success),
        log(9, LogKind::Update, LogStatus::Success),
        log(7, LogKind::Push, LogStatus::Failure),
    ];
    assert_eq!(last_successful_log(&logs, LogKind::Push), 5);
    assert_eq!(last_successful_log(&logs, LogKind::Update), 9);
    assert_eq!(last_successful_log(&Vec::new(), LogKind::Push), 0);
}

#[test]
fn select_batch_honours_watermark_and_limit() {
    let rows: Vec<Measurement> = (1..=10).map(row).collect();
    let batch = select_batch(&rows, 4, 3);
    assert_eq!(batch.iter().map(|m| m.id).collect::<Vec<_>>(), vec![5, 6, 7]);
    let batch = select_batch(&rows, 10, 3);
    assert!(batch.is_empty());
    let batch = select_batch(&rows, 0, BATCH_LIMIT);
    assert_eq!(batch.len(), 10);
}

#[test]
fn batch_last_id_is_the_maximum() {
    let rows = vec![row(3), row(9), row(5)];
    assert_eq!(batch_last_id(&rows), Some(9));
    assert_eq!(batch_last_id(&Vec::new()), None);
}

#[test]
fn logs_judge_outcomes() {
    let success = log_for_outcome(1, 5, LogKind::Push, ok_response());
    assert_eq!(success.status, LogStatus::Success);
    assert_eq!(success.response, "stored");
    let rejected = log_for_outcome(2, 5, LogKind::Push, rejected_response());
    assert_eq!(rejected.status, LogStatus::Failure);
    assert_eq!(rejected.response, "rejected");
    let lost = log_for_outcome(3, 5, LogKind::Update, None);
    assert_eq!(lost.status, LogStatus::Failure);
    assert_eq!(lost.response, "connection error");
    assert_eq!(lost.kind, LogKind::Update);
}

#[test]
fn process_uses_the_fixed_batch_limit() {
    assert_eq!(Process::new().batch_limit, 1000);
}

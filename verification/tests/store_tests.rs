use shift_clock::config::Deployment;
use shift_clock::json::Json;
use shift_clock::protocol::KvWrite;
use shift_clock::rows::{DeploymentRow, EventRow, SignalRow, StepRow, WorkflowRow};
use shift_clock::store::{row_to_deployment, row_to_workflow, row_with_command, Store, StoreError};
use shift_clock::tables::Change;

fn empty() -> Store {
    Store::open(vec![], vec![], vec![], vec![], vec![], vec![], vec![])
}

fn text(s: &str) -> Json {
    Json::Str(s.to_string())
}

fn dep(name: &str) -> Deployment {
    Deployment {
        name: name.to_string(),
        cmd: vec!["python3".to_string(), "flows/\"x\" ü.py".to_string()],
        cron: Some("*/5 * * * *".to_string()),
        timezone: None,
        params: vec![("source".to_string(), text("dev"))],
        catchup: "none".to_string(),
        overlap: "skip".to_string(),
        enabled: true,
        retries: 3,
        concurrency: 2,
    }
}

fn write(key: &str, n: i128) -> KvWrite {
    KvWrite { key: key.to_string(), value: Json::Int(n) }
}

#[test]
fn deployment_is_read_back() {
    let mut s = empty();
    s.upsert_deployment(&dep("etl"));
    assert_eq!(s.get_deployment("etl"), Ok(Some(dep("etl"))));
    assert_eq!(s.get_deployment("other"), Ok(None));
}

#[test]
fn deployment_command_is_json_text() {
    let mut s = empty();
    s.upsert_deployment(&dep("etl"));
    let changes = s.take_changes();
    assert_eq!(changes.len(), 1);
    match &changes[0] {
        Change::Deployment(r) => {
            assert_eq!(r.cmd, "[\"python3\",\"flows/\\\"x\\\" ü.py\"]");
            assert_eq!(r.enabled, 1);
            assert_eq!(r.retries, 3);
        }
        _ => panic!("not a deployment"),
    }
    assert!(s.take_changes().is_empty());
}

#[test]
fn deployments_are_sorted_and_replaced() {
    let mut s = empty();
    for n in ["report", "etl", "hello"] {
        s.upsert_deployment(&dep(n));
    }
    let mut d = dep("etl");
    d.enabled = false;
    s.upsert_deployment(&d);
    let names: Vec<String> = s.list_deployments().unwrap().into_iter().map(|d| d.name).collect();
    assert_eq!(names, ["etl", "hello", "report"]);
    assert!(!s.get_deployment("etl").unwrap().unwrap().enabled);
}

fn bad_row(cmd: &str, params: Option<Json>) -> DeploymentRow {
    DeploymentRow {
        name: "x".to_string(),
        cmd: cmd.to_string(),
        cron: None,
        timezone: None,
        params,
        catchup: "none".to_string(),
        overlap: "skip".to_string(),
        enabled: 7,
        retries: 4294967297,
        concurrency: -1,
    }
}

#[test]
fn deployment_rows_that_cannot_be_read() {
    let r = bad_row("not json", Some(Json::Obj(vec![])));
    assert_eq!(row_to_deployment(&r), Err(StoreError::Decode));
    let r = bad_row("[\"a\", 1]", Some(Json::Obj(vec![])));
    assert_eq!(row_to_deployment(&r), Err(StoreError::Decode));
    let r = bad_row("[\"a\"]", Some(Json::Null));
    assert_eq!(row_to_deployment(&r), Err(StoreError::Decode));
    let r = bad_row("[\"a\"]", None);
    assert_eq!(row_to_deployment(&r), Err(StoreError::Decode));
    let mut s = Store::open(vec![r], vec![], vec![], vec![], vec![], vec![], vec![]);
    assert_eq!(s.get_deployment("x"), Err(StoreError::Decode));
    assert_eq!(s.list_deployments(), Err(StoreError::Decode));
    assert!(s.take_changes().is_empty());
}

#[test]
fn deployment_numbers_are_truncated() {
    let r = bad_row("[\"a\"]", Some(Json::Obj(vec![])));
    let d = row_to_deployment(&r).unwrap();
    assert!(d.enabled);
    assert_eq!(d.retries, 1);
    assert_eq!(d.concurrency, u32::MAX);
    assert_eq!(row_with_command(&r, None), None);
    assert_eq!(row_with_command(&r, Some(vec!["b".to_string()])).unwrap().cmd, ["b"]);
}

#[test]
fn store_errors_in_words() {
    assert_eq!(StoreError::Duplicate.message(), "UNIQUE constraint failed: workflows.id");
    assert_eq!(StoreError::Full.message(), "database or disk is full");
    assert_eq!(StoreError::Decode.message(), "a stored deployment cannot be read");
}

#[test]
fn workflow_is_created_once() {
    let mut s = empty();
    let input = Json::Obj(vec![("a".to_string(), Json::Int(1))]);
    assert_eq!(s.create_workflow("w-1", "etl", "manual", &input, "v1", "t0"), Ok(()));
    assert_eq!(
        s.create_workflow("w-1", "etl", "cron", &Json::Null, "v2", "t1"),
        Err(StoreError::Duplicate)
    );
    let w = s.get_workflow("w-1").unwrap();
    assert_eq!(w.status, "running");
    assert_eq!(w.trigger, "manual");
    assert_eq!(w.input, input);
    assert_eq!(w.version, "v1");
    assert_eq!(w.attempts, 0);
    assert_eq!(w.created_at, "t0");
    assert_eq!(w.output, None);
    assert_eq!(w.finished_at, None);
    assert_eq!(s.get_workflow("w-2"), None);
}

#[test]
fn park_and_resume() {
    let mut s = empty();
    s.create_workflow("w-1", "etl", "manual", &Json::Null, "", "t0").unwrap();
    s.park_workflow("w-1", Some(50), "t1");
    let w = s.get_workflow("w-1").unwrap();
    assert_eq!(w.status, "sleeping");
    assert_eq!(w.wake_at, Some(50));
    assert_eq!(s.list_sleeping_due(49).len(), 0);
    assert_eq!(s.list_sleeping_due(50).len(), 1);
    assert_eq!(s.list_running().len(), 0);
    s.set_running("w-1", "t2");
    let w = s.get_workflow("w-1").unwrap();
    assert_eq!(w.status, "running");
    assert_eq!(w.wake_at, None);
    s.park_workflow("w-1", None, "t3");
    assert_eq!(s.get_workflow("w-1").unwrap().status, "waiting");
    assert_eq!(s.list_sleeping_due(i64::MAX).len(), 0);
    s.park_workflow("w-9", None, "t3");
    assert_eq!(s.get_workflow("w-9"), None);
}

#[test]
fn finish_and_attempts() {
    let mut s = empty();
    s.create_workflow("w-1", "etl", "manual", &Json::Null, "", "t0").unwrap();
    s.finish_workflow("w-1", "success", Some(Json::Int(7)), None, "t1");
    let w = s.get_workflow("w-1").unwrap();
    assert_eq!(w.output, Some(Json::Int(7)));
    assert_eq!(w.finished_at, Some("t1".to_string()));
    s.finish_workflow("w-1", "failed", None, Some("boom".to_string()), "t2");
    let w = s.get_workflow("w-1").unwrap();
    assert_eq!((w.status.as_str(), w.output, w.error), ("failed", None, Some("boom".to_string())));
    assert_eq!(s.mark_attempt("w-1", "t3"), Ok(()));
    let w = s.get_workflow("w-1").unwrap();
    assert_eq!((w.status.as_str(), w.attempts, w.finished_at), ("running", 1, None));
    assert_eq!(w.error, Some("boom".to_string()));
    assert_eq!(s.mark_attempt("w-9", "t3"), Ok(()));
}

fn workflow_row(id: &str, created: &str, status: &str, attempts: i64) -> WorkflowRow {
    WorkflowRow {
        id: id.to_string(),
        deployment: "etl".to_string(),
        trigger: "cron".to_string(),
        status: status.to_string(),
        input: None,
        output: Some(None),
        error: None,
        attempts,
        wake_at: None,
        version: String::new(),
        created_at: created.to_string(),
        updated_at: created.to_string(),
        finished_at: None,
    }
}

#[test]
fn attempts_run_out() {
    let rows = vec![workflow_row("w-1", "t0", "running", i64::MAX)];
    let mut s = Store::open(vec![], rows, vec![], vec![], vec![], vec![], vec![]);
    assert_eq!(s.mark_attempt("w-1", "t1"), Err(StoreError::Full));
    assert_eq!(s.get_workflow("w-1").unwrap().attempts, i64::MAX);
}

#[test]
fn workflow_rows_with_unreadable_json() {
    let w = row_to_workflow(&workflow_row("w-1", "t0", "running", 2));
    assert_eq!(w.input, Json::Null);
    assert_eq!(w.output, None);
    assert_eq!(w.attempts, 2);
}

#[test]
fn listings_are_sorted() {
    let rows = vec![
        workflow_row("a", "2026-01-02", "running", 0),
        workflow_row("b", "2026-01-03", "success", 0),
        workflow_row("c", "2026-01-01", "running", 0),
        workflow_row("d", "2026-01-02", "running", 0),
    ];
    let s = Store::open(vec![], rows, vec![], vec![], vec![], vec![], vec![]);
    let ids = |l: i64| -> Vec<String> { s.list_workflows(l).into_iter().map(|w| w.id).collect() };
    assert_eq!(ids(50), ["b", "d", "a", "c"]);
    assert_eq!(ids(2), ["b", "d"]);
    assert_eq!(ids(0).len(), 0);
    assert_eq!(ids(-1), ["b", "d", "a", "c"]);
    let running: Vec<String> = s.list_running().into_iter().map(|w| w.id).collect();
    assert_eq!(running, ["c", "a", "d"]);
    assert_eq!(s.count_running("etl"), 3);
    assert_eq!(s.count_running("other"), 0);
}

#[test]
fn signals_are_consumed_once_oldest_first() {
    let mut s = empty();
    s.add_signal("w-1", "go", &Json::Int(1), "t0").unwrap();
    s.add_signal("w-1", "stop", &Json::Int(2), "t1").unwrap();
    s.add_signal("w-1", "go", &Json::Int(3), "t2").unwrap();
    s.add_signal("w-2", "go", &Json::Int(4), "t3").unwrap();
    let list = |s: &Store| -> Vec<(String, Json)> { s.unconsumed_signals("w-1") };
    assert_eq!(list(&s).len(), 3);
    s.consume_signal("w-1", "go");
    assert_eq!(
        list(&s),
        vec![("stop".to_string(), Json::Int(2)), ("go".to_string(), Json::Int(3))]
    );
    s.consume_signal("w-1", "go");
    s.consume_signal("w-1", "go");
    assert_eq!(list(&s), vec![("stop".to_string(), Json::Int(2))]);
    assert_eq!(s.unconsumed_signals("w-2").len(), 1);
}

#[test]
fn signal_ids_run_out() {
    let row = SignalRow {
        id: i64::MAX,
        workflow_id: "w-1".to_string(),
        name: "go".to_string(),
        payload: None,
        consumed: 0,
        created_at: "t".to_string(),
    };
    let mut s = Store::open(vec![], vec![], vec![], vec![row], vec![], vec![], vec![]);
    assert_eq!(s.add_signal("w-1", "go", &Json::Null, "t"), Err(StoreError::Full));
    assert_eq!(s.unconsumed_signals("w-1"), vec![("go".to_string(), Json::Null)]);
}

#[test]
fn step_output_survives_a_restart() {
    let mut s = empty();
    s.upsert_step("w-1", 0, "one", "started", None, None, None, "t0");
    assert_eq!(s.get_journal("w-1")[&0].status, "started");
    assert_eq!(s.get_journal("w-1")[&0].output, Json::Null);
    s.upsert_step("w-1", 0, "one", "success", Some(Json::Int(5)), None, Some(12), "t1");
    s.upsert_step("w-1", 0, "one", "skipped", None, None, Some(0), "t2");
    let j = s.get_journal("w-1");
    assert_eq!(j[&0].status, "skipped");
    assert_eq!(j[&0].output, Json::Int(5));
    s.upsert_step("w-1", 0, "one", "failed", None, Some("e".to_string()), None, "t3");
    let v = s.list_steps("w-1");
    assert_eq!(v[0].duration_ms, Some(0));
    assert_eq!(v[0].error, Some("e".to_string()));
    match s.take_changes().pop() {
        Some(Change::Step(r)) => {
            assert_eq!(r.started_at, "t0");
            assert_eq!(r.finished_at, Some("t3".to_string()));
            assert_eq!(r.output, Some(Some(Json::Int(5))));
        }
        _ => panic!("not a step"),
    }
}

#[test]
fn commit_lands_whole() {
    let mut s = empty();
    s.upsert_step("w-1", 2, "pay", "failed", None, Some("first try".to_string()), None, "t0");
    s.take_changes();
    let writes = vec![write("total", 100), write("last", 1), write("total", 200)];
    s.commit_step_tx("w-1", 2, "charge", &text("ok"), 30, &writes, "t1");
    let changes = s.take_changes();
    assert_eq!(changes.len(), 4);
    match &changes[0] {
        Change::Step(r) => {
            assert_eq!(r.status, "success");
            assert_eq!(r.step_name, "charge");
            assert_eq!(r.error, Some("first try".to_string()));
            assert_eq!(r.started_at, "t0");
            assert_eq!(r.duration_ms, Some(30));
        }
        _ => panic!("the step comes first"),
    }
    assert_eq!(
        s.get_state("w-1"),
        vec![("last".to_string(), Json::Int(1)), ("total".to_string(), Json::Int(200))]
    );
    assert_eq!(s.get_state("w-2"), vec![]);
    assert_eq!(s.get_journal("w-1")[&2].output, text("ok"));
    s.commit_step_tx("w-1", 3, "new", &Json::Null, 1, &vec![], "t2");
    assert_eq!(s.list_steps("w-1").len(), 2);
    assert_eq!(s.list_steps("w-1")[1].error, None);
}

fn step_row(seq: i64, output: Option<Option<Json>>) -> StepRow {
    StepRow {
        workflow_id: "w-1".to_string(),
        step_seq: seq,
        step_name: "s".to_string(),
        status: "success".to_string(),
        output,
        error: None,
        duration_ms: None,
        started_at: "t".to_string(),
        finished_at: None,
    }
}

#[test]
fn steps_are_sorted_by_number() {
    let rows = vec![
        step_row(10, Some(None)),
        step_row(2, None),
        step_row(4294967298, Some(Some(Json::Int(1)))),
    ];
    let s = Store::open(vec![], vec![], vec![], vec![], rows, vec![], vec![]);
    let seqs: Vec<i64> = s.list_steps("w-1").iter().map(|v| v.seq).collect();
    assert_eq!(seqs, [2, 10, 4294967298]);
    let j = s.get_journal("w-1");
    assert_eq!(j.len(), 2);
    assert_eq!(j[&10].output, Json::Null);
    assert_eq!(j[&2].output, Json::Int(1));
}

#[test]
fn events_and_logs_are_numbered() {
    let mut s = empty();
    assert_eq!(s.record_event("w-1", "a", &Json::Null, "t0"), Ok((1, "t0".to_string())));
    assert_eq!(s.record_event("w-2", "b", &Json::Null, "t1"), Ok((2, "t1".to_string())));
    assert_eq!(s.record_event("w-1", "c", &Json::Int(9), "t2"), Ok((3, "t2".to_string())));
    assert_eq!(s.record_log("w-1", "stdout", "hi", "t3"), Ok((1, "t3".to_string())));
    assert_eq!(
        s.get_events("w-1"),
        vec![
            (1, "t0".to_string(), "a".to_string(), Json::Null),
            (3, "t2".to_string(), "c".to_string(), Json::Int(9)),
        ]
    );
    assert_eq!(s.get_logs("w-1")[0].line, "hi");
    assert_eq!(s.get_logs("w-2").len(), 0);
}

#[test]
fn event_ids_run_out() {
    let row = EventRow {
        id: i64::MAX,
        workflow_id: "w-1".to_string(),
        ts: "t".to_string(),
        kind: "a".to_string(),
        payload: Some(Json::Int(1)),
    };
    let mut s = Store::open(vec![], vec![], vec![], vec![], vec![], vec![row], vec![]);
    assert_eq!(s.record_event("w-1", "b", &Json::Null, "t"), Err(StoreError::Full));
    assert_eq!(s.get_events("w-1").len(), 1);
    assert!(s.take_changes().is_empty());
}

#[test]
fn changes_rebuild_the_tables() {
    let mut s = empty();
    s.create_workflow("w-1", "etl", "manual", &Json::Null, "v", "t0").unwrap();
    s.park_workflow("w-1", Some(9), "t1");
    s.add_signal("w-1", "go", &Json::Int(1), "t2").unwrap();
    s.consume_signal("w-1", "go");
    let mut rows: Vec<WorkflowRow> = vec![];
    let mut signals: Vec<SignalRow> = vec![];
    for c in s.take_changes() {
        match c {
            Change::Workflow(r) => {
                rows.retain(|x| x.id != r.id);
                rows.push(r);
            }
            Change::Signal(r) => signals.push(r),
            Change::Consumed(id) => {
                for x in signals.iter_mut() {
                    if x.id == id {
                        x.consumed = 1;
                    }
                }
            }
            _ => panic!("nothing else was done"),
        }
    }
    let t = Store::open(vec![], rows, vec![], signals, vec![], vec![], vec![]);
    assert_eq!(t.get_workflow("w-1"), s.get_workflow("w-1"));
    assert_eq!(t.unconsumed_signals("w-1"), vec![]);
}

use std::collections::hash_map::DefaultHasher;
use std::hash::{Hash, Hasher};

use shift_clock::config::Deployment;
use shift_clock::json::Json;
use shift_clock::protocol::{FlowMsg, KvWrite};
use shift_clock::rows::EventRow;
use shift_clock::store::{Store, StoreError};
use shift_clock::worker::{
    ack, after_line, version_of, ExecResult, Heard, Terminal, TriggerError, Worker, Written,
};

const TOKEN: &str = "0123456789abcdef0123456789abcdef";

fn dep(name: &str) -> Deployment {
    Deployment {
        name: name.to_string(),
        cmd: vec!["python3".to_string(), "flows/etl.py".to_string()],
        cron: None,
        timezone: None,
        params: vec![
            ("source".to_string(), text("dev")),
            ("n".to_string(), Json::Int(1)),
        ],
        catchup: "none".to_string(),
        overlap: "skip".to_string(),
        enabled: true,
        retries: 1,
        concurrency: 0,
    }
}

fn text(s: &str) -> Json {
    Json::Str(s.to_string())
}

fn worker() -> Worker {
    let mut s = Store::open(vec![], vec![], vec![], vec![], vec![], vec![], vec![]);
    s.upsert_deployment(&dep("etl"));
    Worker::new(s, "/flows".to_string())
}

fn started(id: &str) -> Worker {
    let mut w = worker();
    let r = w.trigger_with(dep("etl"), "manual", Json::Null, Some(id.to_string()), TOKEN, "t0");
    assert_eq!(r, Ok(id.to_string()));
    w
}

fn event_type(w: &mut Worker) -> Vec<String> {
    w.take_sent().iter().map(|e| e.payload.text_at("type", "?")).collect()
}

#[test]
fn version_is_the_hash_of_the_command() {
    let cmd: Vec<String> = vec!["bash".into(), "-c".into(), "echo ünïcode; date".into()];
    let mut h = DefaultHasher::new();
    cmd.hash(&mut h);
    assert_eq!(version_of(&cmd), format!("{:x}", h.finish()));
    let none: Vec<String> = vec![];
    let mut h = DefaultHasher::new();
    none.hash(&mut h);
    assert_eq!(version_of(&none), format!("{:x}", h.finish()));
}

#[test]
fn version_tells_commands_apart() {
    let a: Vec<String> = vec!["ab".into(), "c".into()];
    let b: Vec<String> = vec!["a".into(), "bc".into()];
    assert_ne!(version_of(&a), version_of(&b));
    assert_eq!(version_of(&a), version_of(&a));
}

#[test]
fn fresh_ids_have_a_token() {
    let mut w = worker();
    let mut d = dep("etl");
    d.overlap = "concurrent".to_string();
    let a = w.trigger(d.copy(), "manual", Json::Null, None, "t0").unwrap();
    let b = w.trigger(d, "manual", Json::Null, None, "t0").unwrap();
    assert!(a.starts_with("w-") && a.len() == 10);
    assert!(a[2..].chars().all(|c| c.is_ascii_digit() || ('a'..='f').contains(&c)));
    assert_ne!(a, b);
}

#[test]
fn trigger_starts_a_workflow() {
    let mut w = worker();
    let extra = Json::Obj(vec![("n".to_string(), Json::Int(2)), ("x".to_string(), Json::Null)]);
    let id = w.trigger_with(dep("etl"), "manual", extra, None, TOKEN, "t0").unwrap();
    assert_eq!(id, "w-01234567");
    assert!(w.is_active("etl"));
    let launches = w.take_launches();
    assert_eq!(launches.len(), 1);
    assert_eq!(launches[0].workflow_id, "w-01234567");
    assert_eq!(
        launches[0].input,
        Json::Obj(vec![
            ("source".to_string(), text("dev")),
            ("n".to_string(), Json::Int(2)),
            ("x".to_string(), Json::Null),
        ])
    );
    let wf = w.store.get_workflow("w-01234567").unwrap();
    assert_eq!(wf.version, version_of(&dep("etl").cmd));
    assert_eq!(wf.input, launches[0].input);
    assert!(w.take_launches().is_empty());
}

#[test]
fn submit_is_idempotent() {
    let mut w = started("nightly");
    w.take_launches();
    let r = w.trigger_with(dep("etl"), "manual", Json::Null, Some("nightly".into()), TOKEN, "t1");
    assert_eq!(r, Ok("nightly".to_string()));
    assert!(w.take_launches().is_empty());
    assert_eq!(w.store.list_workflows(50).len(), 1);
}

#[test]
fn concurrency_is_capped() {
    let mut w = worker();
    let mut d = dep("etl");
    d.overlap = "concurrent".to_string();
    d.concurrency = 2;
    for id in ["a", "b"] {
        let r = w.trigger_with(d.copy(), "manual", Json::Null, Some(id.into()), TOKEN, "t0");
        assert_eq!(r, Ok(id.to_string()));
    }
    let r = w.trigger_with(d.copy(), "manual", Json::Null, Some("c".into()), TOKEN, "t0");
    assert_eq!(r, Err(TriggerError::Limit));
    assert_eq!(TriggerError::Limit.message(&d), "concurrency limit 2 reached for 'etl'");
    assert_eq!(w.store.count_running("etl"), 2);
    w.store.finish_workflow("a", "success", None, None, "t1");
    let r = w.trigger_with(d, "manual", Json::Null, Some("c".into()), TOKEN, "t0");
    assert_eq!(r, Ok("c".to_string()));
}

#[test]
fn overlap_is_skipped() {
    let mut w = started("a");
    let r = w.trigger_with(dep("etl"), "manual", Json::Null, None, TOKEN, "t1");
    assert_eq!(r, Err(TriggerError::Overlap));
    assert_eq!(
        TriggerError::Overlap.message(&dep("etl")),
        "overlap=skip: 'etl' already has an active workflow"
    );
    w.release("etl", "a", None, "t2");
    assert!(!w.is_active("etl"));
    assert!(w.trigger_with(dep("etl"), "manual", Json::Null, None, TOKEN, "t3").is_ok());
}

#[test]
fn a_token_that_is_taken_is_refused() {
    let mut w = worker();
    let mut d = dep("etl");
    d.overlap = "concurrent".to_string();
    assert!(w.trigger_with(d.copy(), "manual", Json::Null, None, TOKEN, "t0").is_ok());
    let r = w.trigger_with(d.copy(), "manual", Json::Null, None, TOKEN, "t0");
    assert_eq!(r, Err(TriggerError::Store(StoreError::Duplicate)));
    assert_eq!(
        TriggerError::Store(StoreError::Duplicate).message(&d),
        "UNIQUE constraint failed: workflows.id"
    );
}

#[test]
fn step_results_are_journaled_before_the_answer() {
    let mut w = started("a");
    let msg = FlowMsg::StepResult {
        seq: 3,
        name: "one".to_string(),
        duration_ms: 210,
        output: Json::Int(42),
        writes: vec![],
    };
    let (a, t) = w.handle_line("a", "{}", Some(msg), None, "t1");
    assert_eq!(a, Some(ack(3)));
    assert_eq!(a.unwrap().kind, "ack");
    assert_eq!(t, None);
    let (journal, _) = w.dispatch("a");
    assert_eq!(journal[&3].status, "success");
    assert_eq!(journal[&3].output, Json::Int(42));
    let sent = w.take_sent();
    assert_eq!(sent.len(), 1);
    assert_eq!(sent[0].kind, "event");
    assert_eq!(sent[0].seq, 1);
    assert_eq!(
        sent[0].payload,
        Json::Obj(vec![
            ("type".to_string(), text("step_success")),
            ("seq".to_string(), Json::Int(3)),
            ("task".to_string(), text("one")),
            ("duration_ms".to_string(), Json::Int(210)),
        ])
    );
}

#[test]
fn durable_writes_land_with_their_step() {
    let mut w = started("a");
    let msg = FlowMsg::StepResult {
        seq: 0,
        name: "charge".to_string(),
        duration_ms: 5,
        output: Json::Bool(true),
        writes: vec![KvWrite { key: "total".to_string(), value: Json::Int(100) }],
    };
    let (a, _) = w.handle_line("a", "{}", Some(msg), None, "t1");
    assert_eq!(a, Some(ack(0)));
    let sent = w.take_sent();
    assert_eq!(sent[0].payload.int_at("writes"), 1);
    let (journal, signals) = w.dispatch("a");
    let ctx = w.context("a", &Json::Null, journal, signals);
    assert_eq!(ctx.state, vec![("total".to_string(), Json::Int(100))]);
    assert_eq!(ctx.journal[&0].output, Json::Bool(true));
}

#[test]
fn signals_are_consumed_and_journaled() {
    let mut w = started("a");
    w.store.add_signal("a", "approve", &text("sam"), "t1").unwrap();
    let (j, s) = w.dispatch("a");
    let ctx = w.context("a", &Json::Null, j, s);
    assert_eq!(ctx.signals[0].name, "approve");
    let msg = FlowMsg::SignalConsume { seq: 1, name: "approve".to_string(), payload: text("sam") };
    let (a, t) = w.handle_line("a", "{}", Some(msg), Some(Terminal::Failure), "t2");
    assert_eq!(a, Some(ack(1)));
    assert_eq!(t, Some(Terminal::Failure));
    assert_eq!(w.dispatch("a").1, vec![]);
    assert_eq!(w.store.list_steps("a")[0].name, "signal:approve");
    assert_eq!(w.dispatch("a").0[&1].output, text("sam"));
}

#[test]
fn messages_without_an_answer() {
    let mut w = started("a");
    let start = FlowMsg::StepStart { seq: 0, name: "one".to_string(), attempt: 1 };
    assert_eq!(w.handle_line("a", "x", Some(start), None, "t1"), (None, None));
    assert_eq!(w.store.list_steps("a")[0].status, "started");
    let fail = FlowMsg::StepFailure {
        seq: 0,
        name: "one".to_string(),
        duration_ms: 9,
        error: "boom".to_string(),
    };
    w.handle_line("a", "x", Some(fail), None, "t2");
    let st = w.store.list_steps("a").remove(0);
    assert_eq!((st.status.as_str(), st.error, st.duration_ms), ("failed", Some("boom".into()), Some(9)));
    let skip = FlowMsg::StepSkipped { seq: 0, name: "one".to_string(), reason: "journal".into() };
    w.handle_line("a", "x", Some(skip), None, "t3");
    assert_eq!(w.store.list_steps("a")[0].duration_ms, Some(0));
    let begin = FlowMsg::WorkflowStart { name: None };
    w.handle_line("a", "x", Some(begin), None, "t4");
    let retry = FlowMsg::StepRetry {
        seq: 0,
        name: "one".into(),
        attempt: 1,
        next_attempt: 2,
        delay_ms: 5,
        error: "e".into(),
    };
    w.handle_line("a", "x", Some(retry), None, "t5");
    let log = FlowMsg::Log { level: "info".into(), message: "m".into(), step: None };
    w.handle_line("a", "x", Some(log), None, "t6");
    assert_eq!(
        event_type(&mut w),
        ["step_start", "step_failure", "step_skipped", "workflow_start", "step_retry", "log"]
    );
}

#[test]
fn how_an_execution_ends() {
    let mut w = started("a");
    let ok = FlowMsg::WorkflowSuccess { output: Json::Null };
    assert_eq!(w.handle_line("a", "x", Some(ok), None, "t"), (None, Some(Terminal::Success(Json::Null))));
    let bad = FlowMsg::WorkflowFailure { error: "e".to_string() };
    assert_eq!(
        w.handle_line("a", "x", Some(bad), Some(Terminal::Success(Json::Null)), "t"),
        (None, Some(Terminal::Failure))
    );
    let park = FlowMsg::WorkflowPark { wake_at: Some(7) };
    assert_eq!(
        w.handle_line("a", "x", Some(park), None, "t"),
        (None, Some(Terminal::Parked(Some(7))))
    );
    assert_eq!(event_type(&mut w), ["workflow_success", "workflow_failure", "workflow_park"]);
}

#[test]
fn lines_that_are_no_message() {
    let mut w = started("a");
    assert_eq!(w.handle_line("a", "  \t", None, Some(Terminal::Success(Json::Null)), "t"), (None, Some(Terminal::Success(Json::Null))));
    assert!(w.take_sent().is_empty());
    w.handle_line("a", "plain text", None, None, "t");
    let sent = w.take_sent();
    assert_eq!(sent[0].kind, "log");
    assert_eq!(sent[0].payload.text_at("stream", ""), "sdk");
    assert_eq!(w.store.get_logs("a")[0].line, "plain text");
}

#[test]
fn supervision_of_ended_executions() {
    let cases = [
        (Some(Terminal::Success(Json::Null)), false, "success", None),
        (Some(Terminal::Failure), true, "failed", Some("workflow reported failure")),
        (Some(Terminal::Parked(Some(5))), true, "sleeping", None),
        (Some(Terminal::Parked(None)), true, "waiting", None),
        (None, true, "success", None),
    ];
    for (terminal, exit_ok, status, error) in cases {
        let mut w = started("a");
        let r = w.supervise(&dep("etl"), "a", ExecResult { terminal, exit_ok }, "t1");
        assert_eq!(r, Ok(false));
        let wf = w.store.get_workflow("a").unwrap();
        assert_eq!(wf.status, status);
        assert_eq!(wf.error.as_deref(), error);
    }
}

#[test]
fn crashes_are_retried_as_often_as_said() {
    let mut w = started("a");
    w.take_sent();
    let crash = || ExecResult { terminal: None, exit_ok: false };
    assert_eq!(w.supervise(&dep("etl"), "a", crash(), "t1"), Ok(true));
    assert_eq!(w.store.get_workflow("a").unwrap().attempts, 1);
    let sent = w.take_sent();
    assert_eq!(sent[0].payload.text_at("type", ""), "workflow_resume");
    assert_eq!(sent[0].payload.int_at("attempt"), 1);
    assert_eq!(w.supervise(&dep("etl"), "a", crash(), "t2"), Ok(false));
    let wf = w.store.get_workflow("a").unwrap();
    assert_eq!((wf.status.as_str(), wf.error.as_deref()), ("failed", Some("crashed")));
}

#[test]
fn broken_supervision_fails_the_workflow() {
    let mut w = started("a");
    w.release("etl", "a", Some("empty cmd".to_string()), "t1");
    let wf = w.store.get_workflow("a").unwrap();
    assert_eq!((wf.status.as_str(), wf.error.as_deref()), ("failed", Some("empty cmd")));
    assert!(!w.is_active("etl"));
}

#[test]
fn recovery_resumes_what_was_running() {
    let mut w = started("a");
    w.store.create_workflow("b", "gone", "cron", &Json::Null, "", "t1").unwrap();
    w.store.create_workflow("c", "etl", "cron", &Json::Null, "other", "t2").unwrap();
    w.store.create_workflow("d", "etl", "cron", &Json::Int(8), "", "t3").unwrap();
    w.store.create_workflow("e", "etl", "cron", &Json::Null, "", "t4").unwrap();
    w.store.finish_workflow("e", "success", None, None, "t5");
    w.take_launches();
    assert_eq!(w.recover("t6"), 4);
    let ids: Vec<String> = w.take_launches().into_iter().map(|l| l.workflow_id).collect();
    assert_eq!(ids, ["a", "d"]);
    assert_eq!(
        w.store.get_workflow("b").unwrap().error.as_deref(),
        Some("deployment removed")
    );
    assert_eq!(
        w.store.get_workflow("c").unwrap().error.as_deref(),
        Some("version mismatch: deployment command changed since submission")
    );
    assert_eq!(event_type(&mut w), ["workflow_recovered", "workflow_recovered"]);
    assert_eq!(w.store.get_workflow("e").unwrap().status, "success");
}

#[test]
fn sleepers_wake_when_due_and_free() {
    let mut w = started("a");
    w.store.park_workflow("a", Some(100), "t1");
    w.take_launches();
    w.resume_due(100, "t2");
    assert!(w.take_launches().is_empty());
    w.release("etl", "a", None, "t3");
    w.resume_due(99, "t4");
    assert!(w.take_launches().is_empty());
    w.resume_due(100, "t5");
    assert_eq!(w.take_launches().len(), 1);
    assert_eq!(w.store.get_workflow("a").unwrap().status, "running");
    assert_eq!(event_type(&mut w), ["workflow_wake"]);
}

#[test]
fn signals_wake_those_that_wait() {
    let mut w = started("a");
    w.take_launches();
    w.notify_signal("a", "t1");
    assert!(w.take_launches().is_empty());
    w.store.park_workflow("a", None, "t2");
    w.release("etl", "a", None, "t2");
    w.notify_signal("unknown", "t3");
    w.notify_signal("a", "t3");
    assert_eq!(w.take_launches()[0].workflow_id, "a");
    assert_eq!(event_type(&mut w), ["workflow_signalled"]);
}

#[test]
fn signals_wake_also_while_the_deployment_is_active() {
    for wake_at in [None, Some(9)] {
        let mut w = started("a");
        w.take_launches();
        w.store.park_workflow("a", wake_at, "t2");
        assert!(w.is_active("etl"));
        w.notify_signal("a", "t3");
        assert_eq!(w.take_launches()[0].workflow_id, "a");
        assert_eq!(w.store.get_workflow("a").unwrap().status, "running");
        assert_eq!(event_type(&mut w), ["workflow_signalled"]);
        w.store.finish_workflow("a", "success", None, None, "t4");
        w.notify_signal("a", "t5");
        assert!(w.take_launches().is_empty());
    }
}

#[test]
fn what_a_workflow_returns_is_kept() {
    let mut w = started("a");
    let value = Json::Obj(vec![("rows".to_string(), Json::Int(3))]);
    let done = FlowMsg::WorkflowSuccess { output: value.copy() };
    let (_, terminal) = w.handle_line("a", "x", Some(done), None, "t1");
    assert_eq!(terminal, Some(Terminal::Success(value.copy())));
    let res = ExecResult { terminal, exit_ok: true };
    assert_eq!(w.supervise(&dep("etl"), "a", res, "t2"), Ok(false));
    let wf = w.store.get_workflow("a").unwrap();
    assert_eq!((wf.status.as_str(), wf.output, wf.error), ("success", Some(value), None));
    let mut w = started("b");
    let res = ExecResult { terminal: None, exit_ok: true };
    w.supervise(&dep("etl"), "b", res, "t2").unwrap();
    assert_eq!(w.store.get_workflow("b").unwrap().output, None);
}

#[test]
fn a_replayed_step_stays_done() {
    let mut w = started("a");
    let result = FlowMsg::StepResult {
        seq: 0,
        name: "one".to_string(),
        duration_ms: 4,
        output: Json::Int(7),
        writes: vec![],
    };
    w.handle_line("a", "x", Some(result), None, "t1");
    for reason in ["journal", "target"] {
        let skip =
            FlowMsg::StepSkipped { seq: 0, name: "one".to_string(), reason: reason.to_string() };
        w.handle_line("a", "x", Some(skip), None, "t2");
        let j = w.dispatch("a").0;
        assert_eq!((j[&0].status.as_str(), &j[&0].output), ("success", &Json::Int(7)));
    }
    let skip = FlowMsg::StepSkipped { seq: 1, name: "two".to_string(), reason: "target".into() };
    w.handle_line("a", "x", Some(skip), None, "t3");
    assert_eq!(w.dispatch("a").0[&1].status, "skipped");
}

#[test]
fn events_that_cannot_be_recorded_are_told_all_the_same() {
    let row = EventRow {
        id: i64::MAX,
        workflow_id: "z".to_string(),
        ts: "t".to_string(),
        kind: "k".to_string(),
        payload: None,
    };
    let s = Store::open(vec![], vec![], vec![], vec![], vec![], vec![row], vec![]);
    let mut w = Worker::new(s, "/".to_string());
    let msg = FlowMsg::WorkflowStart { name: Some("n".to_string()) };
    w.handle_line("a", "x", Some(msg), None, "t9");
    let sent = w.take_sent();
    assert_eq!((sent[0].seq, sent[0].ts.as_str()), (0, "t9"));
    let crash = ExecResult { terminal: None, exit_ok: false };
    assert_eq!(w.supervise(&dep("etl"), "a", crash, "t"), Err(StoreError::Full));
}

#[test]
fn a_deployment_is_released_unless_dispatched_again() {
    let crash = || ExecResult { terminal: None, exit_ok: false };
    let mut w = started("a");
    assert_eq!(w.conclude(&dep("etl"), "a", crash(), "t1"), Ok(true));
    assert!(w.is_active("etl"));
    assert_eq!(w.conclude(&dep("etl"), "a", crash(), "t2"), Ok(false));
    assert!(!w.is_active("etl"));
    assert_eq!(w.store.get_workflow("a").unwrap().error.as_deref(), Some("crashed"));
    let mut w = started("b");
    let park = ExecResult { terminal: Some(Terminal::Parked(None)), exit_ok: true };
    assert_eq!(w.conclude(&dep("etl"), "b", park, "t1"), Ok(false));
    assert!(!w.is_active("etl"));
    assert_eq!(w.store.get_workflow("b").unwrap().status, "waiting");
}

#[test]
fn a_refusing_store_fails_the_workflow() {
    let row = EventRow {
        id: i64::MAX,
        workflow_id: "z".to_string(),
        ts: "t".to_string(),
        kind: "k".to_string(),
        payload: None,
    };
    let mut s = Store::open(vec![], vec![], vec![], vec![], vec![], vec![row], vec![]);
    s.upsert_deployment(&dep("etl"));
    let mut w = Worker::new(s, "/".to_string());
    w.trigger_with(dep("etl"), "manual", Json::Null, Some("a".into()), TOKEN, "t0").unwrap();
    let crash = ExecResult { terminal: None, exit_ok: false };
    assert_eq!(w.conclude(&dep("etl"), "a", crash, "t"), Err(StoreError::Full));
    assert!(!w.is_active("etl"));
    let wf = w.store.get_workflow("a").unwrap();
    assert_eq!((wf.status.as_str(), wf.error.as_deref()), ("failed", Some("database or disk is full")));
}

#[test]
fn what_is_written_is_told_and_started() {
    let mut w = started("a");
    w.emit_log("a", "stdout", "hi", "t1");
    let (sent, launches) = w.settle(vec![], Written::Durable);
    assert_eq!((sent.len(), launches.len()), (1, 1));
    assert!(w.is_active("etl"));
    assert!(w.store.get_workflow("a").is_some());
    let (sent, launches) = w.settle(vec![], Written::Durable);
    assert!(sent.is_empty() && launches.is_empty());
}

#[test]
fn what_cannot_be_written_is_undone() {
    let empty = || Store::open(vec![], vec![], vec![], vec![], vec![], vec![], vec![]);
    let mut w = started("a");
    let (sent, launches) = w.settle(vec![], Written::Reloaded(empty()));
    assert!(sent.is_empty() && launches.is_empty());
    assert!(!w.is_active("etl"));
    assert!(w.store.get_workflow("a").is_none());
    let mut w = started("a");
    let (sent, launches) = w.settle(vec!["other".to_string()], Written::Lost);
    assert!(sent.is_empty() && launches.is_empty());
    assert!(!w.is_active("etl") && w.is_active("other"));
    assert!(w.take_launches().is_empty());
}

#[test]
fn there_is_no_answer_without_a_write() {
    assert_eq!(
        after_line(Some(Terminal::Failure), None),
        Heard { answer: None, terminal: Some(Terminal::Failure), listen: false }
    );
    assert_eq!(
        after_line(None, Some((Some(ack(3)), Some(Terminal::Parked(None))))),
        Heard { answer: Some(ack(3)), terminal: Some(Terminal::Parked(None)), listen: true }
    );
}

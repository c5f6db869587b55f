use shift_clock::api::{default_limit, is_for, ApiError, AppState};
use shift_clock::config::Deployment;
use shift_clock::json::Json;
use shift_clock::protocol::FlowMsg;
use shift_clock::rows::{DeploymentRow, SignalRow, WorkflowRow};
use shift_clock::store::Store;
use shift_clock::worker::Worker;

const TOKEN: &str = "0123456789abcdef0123456789abcdef";

fn text(s: &str) -> Json {
    Json::Str(s.to_string())
}

fn obj(m: Vec<(&str, Json)>) -> Json {
    Json::Obj(m.into_iter().map(|(k, v)| (k.to_string(), v)).collect())
}

fn dep(name: &str) -> Deployment {
    Deployment {
        name: name.to_string(),
        cmd: vec!["sh".to_string(), "-c".to_string()],
        cron: None,
        timezone: Some("UTC".to_string()),
        params: vec![("a".to_string(), Json::Int(1))],
        catchup: "none".to_string(),
        overlap: "skip".to_string(),
        enabled: true,
        retries: 2,
        concurrency: 0,
    }
}

fn state() -> AppState {
    let mut s = Store::open(vec![], vec![], vec![], vec![], vec![], vec![], vec![]);
    s.upsert_deployment(&dep("etl"));
    AppState { worker: Worker::new(s, "/".to_string()) }
}

fn running(id: &str) -> AppState {
    let mut a = state();
    let r = a.trigger_flow_with("etl", Json::Null, Some(id.to_string()), TOKEN, "t0");
    assert_eq!(r, Ok(obj(vec![("workflow_id", text(id))])));
    a
}

fn refused(code: u16, msg: &str) -> Result<Json, ApiError> {
    Err(ApiError { code, msg: msg.to_string() })
}

#[test]
fn deployments_as_clients_see_them() {
    let a = state();
    assert_eq!(
        a.list_flows(),
        Ok(obj(vec![(
            "flows",
            Json::Arr(vec![obj(vec![
                ("name", text("etl")),
                ("cmd", Json::Arr(vec![text("sh"), text("-c")])),
                ("cron", Json::Null),
                ("timezone", text("UTC")),
                ("params", obj(vec![("a", Json::Int(1))])),
                ("catchup", text("none")),
                ("overlap", text("skip")),
                ("enabled", Json::Bool(true)),
                ("retries", Json::Int(2)),
                ("concurrency", Json::Int(0)),
            ])])
        )]))
    );
}

#[test]
fn submissions_and_their_refusals() {
    let mut a = state();
    assert_eq!(
        a.trigger_flow_with("nope", Json::Null, None, TOKEN, "t"),
        refused(404, "no such flow 'nope'")
    );
    let r = a.trigger_flow("etl", Json::Null, None, "t").unwrap();
    assert!(r.text_at("workflow_id", "").starts_with("w-"));
    assert_eq!(
        a.trigger_flow_with("etl", Json::Null, None, TOKEN, "t"),
        refused(409, "overlap=skip: 'etl' already has an active workflow")
    );
    assert_eq!(a.worker.take_launches().len(), 1);
}

#[test]
fn unreadable_deployments_are_an_error_of_the_server() {
    let row = DeploymentRow {
        name: "x".to_string(),
        cmd: "{}".to_string(),
        cron: None,
        timezone: None,
        params: Some(Json::Obj(vec![])),
        catchup: String::new(),
        overlap: String::new(),
        enabled: 1,
        retries: 0,
        concurrency: 0,
    };
    let store = Store::open(vec![row], vec![], vec![], vec![], vec![], vec![], vec![]);
    let mut a = AppState { worker: Worker::new(store, "/".to_string()) };
    let e = refused(500, "a stored deployment cannot be read");
    assert_eq!(a.list_flows(), e);
    assert_eq!(a.trigger_flow_with("x", Json::Null, None, TOKEN, "t"), e);
}

#[test]
fn a_workflow_with_its_steps() {
    let mut a = running("w");
    let msg = FlowMsg::StepResult {
        seq: 0,
        name: "one".to_string(),
        duration_ms: 12,
        output: Json::Null,
        writes: vec![],
    };
    a.worker.handle_line("w", "x", Some(msg), None, "t1");
    assert_eq!(
        a.get_workflow("w"),
        Ok(obj(vec![
            (
                "workflow",
                obj(vec![
                    ("id", text("w")),
                    ("deployment", text("etl")),
                    ("trigger", text("manual")),
                    ("status", text("running")),
                    ("output", Json::Null),
                    ("error", Json::Null),
                    ("attempts", Json::Int(0)),
                    ("wake_at", Json::Null),
                    ("created_at", text("t0")),
                    ("finished_at", Json::Null),
                ])
            ),
            (
                "steps",
                Json::Arr(vec![obj(vec![
                    ("seq", Json::Int(0)),
                    ("name", text("one")),
                    ("status", text("success")),
                    ("duration_ms", Json::Int(12)),
                    ("error", Json::Null),
                ])])
            ),
        ]))
    );
    assert_eq!(a.get_workflow("v"), refused(404, "no such workflow 'v'"));
}

#[test]
fn the_state_of_a_workflow() {
    let mut a = running("w");
    let writes = vec![shift_clock::protocol::KvWrite { key: "k".into(), value: Json::Int(1) }];
    a.worker.store.commit_step_tx("w", 0, "s", &Json::Null, 0, &writes, "t");
    assert_eq!(a.query_state("w"), Ok(obj(vec![("state", obj(vec![("k", Json::Int(1))]))])));
    assert_eq!(a.query_state("v"), refused(404, "no such workflow 'v'"));
}

#[test]
fn signals_are_added_and_wake() {
    let mut a = running("w");
    a.worker.store.park_workflow("w", None, "t");
    a.worker.release("etl", "w", None, "t");
    a.worker.take_launches();
    assert_eq!(
        a.send_signal("w", "go", &Json::Int(1), "t1"),
        Ok(obj(vec![("ok", Json::Bool(true))]))
    );
    assert_eq!(a.worker.take_launches().len(), 1);
    assert_eq!(a.worker.store.unconsumed_signals("w").len(), 1);
    assert_eq!(a.send_signal("v", "go", &Json::Null, "t"), refused(404, "no such workflow 'v'"));
}

#[test]
fn signals_that_cannot_be_stored() {
    let row = SignalRow {
        id: i64::MAX,
        workflow_id: "w".to_string(),
        name: "go".to_string(),
        payload: None,
        consumed: 0,
        created_at: "t".to_string(),
    };
    let wf = WorkflowRow {
        id: "w".to_string(),
        deployment: "d".to_string(),
        trigger: "cron".to_string(),
        status: "waiting".to_string(),
        input: None,
        output: None,
        error: None,
        attempts: 0,
        wake_at: None,
        version: String::new(),
        created_at: "t".to_string(),
        updated_at: "t".to_string(),
        finished_at: None,
    };
    let store = Store::open(vec![], vec![wf], vec![], vec![row], vec![], vec![], vec![]);
    let mut a = AppState { worker: Worker::new(store, "/".to_string()) };
    assert_eq!(
        a.send_signal("w", "go", &Json::Null, "t"),
        refused(500, "database or disk is full")
    );
}

#[test]
fn events_logs_and_listings() {
    let mut a = running("w");
    a.worker.handle_line("w", "x", Some(FlowMsg::WorkflowStart { name: None }), None, "t1");
    a.worker.emit_log("w", "stdout", "hi", "t2");
    assert_eq!(
        a.get_events("w"),
        obj(vec![(
            "events",
            Json::Arr(vec![obj(vec![
                ("seq", Json::Int(1)),
                ("ts", text("t1")),
                ("type", text("workflow_start")),
                ("payload", obj(vec![("type", text("workflow_start")), ("name", Json::Null)])),
            ])])
        )])
    );
    assert_eq!(
        a.get_logs("w"),
        obj(vec![(
            "logs",
            Json::Arr(vec![obj(vec![
                ("ts", text("t2")),
                ("stream", text("stdout")),
                ("line", text("hi")),
            ])])
        )])
    );
    let listed = a.list_workflows(default_limit());
    assert_eq!(listed.items_at("workflows").len(), 1);
    assert_eq!(a.list_workflows(0).items_at("workflows").len(), 0);
    assert_eq!(default_limit(), 50);
}

#[test]
fn a_follower_gets_the_backlog_first() {
    let mut a = running("w");
    a.worker.handle_line("w", "x", Some(FlowMsg::WorkflowStart { name: None }), None, "t1");
    a.worker.emit_log("w", "stdout", "one", "t2");
    a.worker.emit_log("w", "stderr", "two", "t3");
    a.worker.emit_log("v", "stdout", "other", "t4");
    a.worker.handle_line("w", "x", Some(FlowMsg::WorkflowFailure { error: "e".to_string() }), None, "t5");
    let b = a.backlog("w");
    let seen: Vec<(&str, i64, &str)> = b.iter().map(|e| (e.ts.as_str(), e.seq, e.kind.as_str())).collect();
    assert_eq!(
        seen,
        vec![("t1", 1, "event"), ("t2", 0, "log"), ("t3", 0, "log"), ("t5", 2, "event")]
    );
    assert_eq!(b[2].payload, obj(vec![("stream", text("stderr")), ("line", text("two"))]));
    assert!(is_for(&b[0], "w") && !is_for(&b[0], "v"));
}

#[test]
fn errors_have_a_body() {
    let e = ApiError::conflict("busy".to_string());
    assert_eq!((e.code, e.body()), (409, obj(vec![("error", text("busy"))])));
    assert_eq!(ApiError::not_found("x".to_string()).code, 404);
    let e = ApiError::unwritten("locked".to_string());
    assert_eq!((e.code, e.body()), (500, obj(vec![("error", text("locked"))])));
}

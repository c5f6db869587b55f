use shift_clock::cli::{
    format_envelope, logs, name_of, oneshot_banner, oneshot_envelope, oneshot_over, parse_params,
    query, run_oneshot, run_oneshot_with, show, signal, summary, workflows,
};
use shift_clock::client::{
    items_reply, query_reply, signal_reply, trigger_reply, Client, SseBuffer,
};
use shift_clock::config::{Deployment, Manifest};
use shift_clock::json::Json;
use shift_clock::protocol::Envelope;
use shift_clock::store::StepView;

const TOKEN: &str = "0123456789abcdef0123456789abcdef";

fn text(s: &str) -> Json {
    Json::Str(s.to_string())
}

fn obj(m: Vec<(&str, Json)>) -> Json {
    Json::Obj(m.into_iter().map(|(k, v)| (k.to_string(), v)).collect())
}

fn env(kind: &str, payload: Json) -> Envelope {
    Envelope {
        workflow_id: "w".to_string(),
        seq: 1,
        ts: "t".to_string(),
        kind: kind.to_string(),
        payload,
    }
}

fn said(m: Vec<(&str, Json)>) -> String {
    format_envelope(&env("event", obj(m)))
}

#[test]
fn parameters_are_key_value_pairs() {
    let pairs: Vec<String> =
        ["a=1", "nothing", "b=x=y", "a=2", "=e"].iter().map(|s| s.to_string()).collect();
    assert_eq!(
        parse_params(&pairs),
        obj(vec![("a", text("2")), ("b", text("x=y")), ("", text("e"))])
    );
    assert_eq!(parse_params(&vec![]), Json::Obj(vec![]));
}

#[test]
fn envelopes_in_words() {
    let line = obj(vec![("stream", text("stdout")), ("line", text("hi"))]);
    assert_eq!(format_envelope(&env("log", line)), "  │ [stdout] hi");
    assert_eq!(format_envelope(&env("log", Json::Null)), "  │ [out] ");
    assert_eq!(said(vec![("type", text("workflow_start"))]), "▶ workflow start");
    assert_eq!(said(vec![("type", text("workflow_success"))]), "✔ workflow SUCCESS");
    assert_eq!(
        said(vec![("type", text("workflow_failure")), ("error", text("boom"))]),
        "✗ workflow FAILURE: boom"
    );
    assert_eq!(
        said(vec![("type", text("workflow_resume")), ("attempt", Json::Int(2))]),
        "↻ resume (attempt 2)"
    );
    assert_eq!(
        said(vec![("type", text("workflow_recovered"))]),
        "⟳ recovered — resuming after daemon restart"
    );
    assert_eq!(
        said(vec![("type", text("workflow_park")), ("wake_at", Json::Real(5))]),
        "⏸ parked (sleeping) — process unloaded"
    );
    assert_eq!(
        said(vec![("type", text("workflow_park")), ("wake_at", Json::Null)]),
        "⏸ parked (waiting for signal) — process unloaded"
    );
    assert_eq!(said(vec![("type", text("workflow_wake"))]), "⏰ woke — re-dispatched at wake time");
    assert_eq!(
        said(vec![("type", text("workflow_signalled"))]),
        "✉ signal received — re-dispatched"
    );
    assert_eq!(said(vec![("type", text("odd"))]), "  · odd");
    assert_eq!(said(vec![]), "  · event");
}

#[test]
fn steps_in_words() {
    let step = |ty: &str, more: Vec<(&str, Json)>| {
        let mut m = vec![("type", text(ty)), ("seq", Json::Int(3)), ("name", text("one"))];
        m.extend(more);
        said(m)
    };
    assert_eq!(step("step_start", vec![("attempt", Json::Int(1))]), "  ● #3 one start (attempt 1)");
    assert_eq!(step("step_success", vec![("duration_ms", Json::Int(210))]), "  ✔ #3 one ok (210ms)");
    assert_eq!(step("step_skipped", vec![("reason", text("journal"))]), "  ⤼ #3 one skipped (journal)");
    assert_eq!(
        step("step_retry", vec![("next_attempt", Json::Int(2)), ("error", text("e"))]),
        "  ↻ #3 one retry -> attempt 2 (e)"
    );
    assert_eq!(step("step_failure", vec![("error", text("e"))]), "  ✗ #3 one failed: e");
    assert_eq!(said(vec![("type", text("log")), ("message", text("m"))]), "  │ m");
    assert_eq!(name_of(&obj(vec![("task", text("t"))])), "t");
    assert_eq!(name_of(&obj(vec![("name", Json::Null), ("task", text("t"))])), "");
}

#[test]
fn the_timeline_is_sorted_by_time() {
    let events = vec![
        obj(vec![("seq", Json::Int(2)), ("ts", text("b")), ("payload", Json::Int(1))]),
        obj(vec![("seq", Json::Int(1)), ("ts", text("b"))]),
        obj(vec![("seq", Json::Int(3)), ("ts", text("a"))]),
    ];
    let lines = vec![obj(vec![("ts", text("b")), ("line", text("l"))])];
    let r = logs("w", &events, &lines);
    let seen: Vec<(String, i64, String)> =
        r.iter().map(|e| (e.ts.clone(), e.seq, e.kind.clone())).collect();
    assert_eq!(
        seen,
        vec![
            ("a".to_string(), 3, "event".to_string()),
            ("b".to_string(), 0, "log".to_string()),
            ("b".to_string(), 1, "event".to_string()),
            ("b".to_string(), 2, "event".to_string()),
        ]
    );
    assert_eq!(r[3].payload, Json::Int(1));
    assert_eq!(r[0].payload, Json::Null);
    assert_eq!(r[1].payload, lines[0]);
}

#[test]
fn a_workflow_is_shown() {
    let d = obj(vec![
        (
            "workflow",
            obj(vec![
                ("id", text("w-1")),
                ("deployment", text("etl")),
                ("status", text("sleeping")),
                ("trigger", text("cron")),
                ("attempts", Json::Int(2)),
                ("wake_at", Json::Real(77)),
                ("created_at", text("c")),
                ("finished_at", text("f")),
                ("error", text("e")),
            ]),
        ),
        (
            "steps",
            Json::Arr(vec![
                obj(vec![
                    ("seq", Json::Int(0)),
                    ("name", text("one")),
                    ("status", text("success")),
                    ("duration_ms", Json::Int(5)),
                ]),
                obj(vec![("name", text("a name of twenty chr"))]),
            ]),
        ),
    ]);
    assert_eq!(
        show(&d, "1700000000.5"),
        [
            "workflow w-1",
            "  flow      etl",
            "  status    sleeping",
            "  trigger   cron",
            "  attempts  2",
            "  wake_at   1700000000.5 (epoch)",
            "  created   c",
            "  finished  f",
            "  error     e",
            "  steps:",
            "    #0   one                success   5ms",
            "    #0   a name of twenty chr           —",
        ]
    );
    assert_eq!(show(&Json::Null, "").len(), 7);
}

#[test]
fn workflows_are_listed() {
    let w = obj(vec![
        ("id", text("w-1")),
        ("deployment", text("etl")),
        ("status", text("running")),
        ("trigger", text("manual")),
        ("attempts", Json::Int(1)),
        ("created_at", text("now")),
    ]);
    assert_eq!(
        workflows(&vec![w]),
        [
            "ID           FLOW               STATUS    TRIGGER  ATT  CREATED",
            "w-1          etl                running   manual   1    now",
        ]
    );
}

#[test]
fn short_answers() {
    assert_eq!(
        shift_clock::cli::trigger("etl", "w-1"),
        ["triggered etl -> w-1", "watch:  shift-clock logs w-1 -f"]
    );
    assert_eq!(signal("w-1", "go"), "signalled w-1 <- go");
    let state = obj(vec![("a", Json::Int(1))]);
    assert_eq!(query(&state, Some("a".to_string())), (Json::Int(1), false));
    assert_eq!(query(&state, Some("b".to_string())), (Json::Null, false));
    assert_eq!(query(&state, None), (obj(vec![("a", Json::Int(1))]), true));
}

fn dep(name: &str) -> Deployment {
    Deployment {
        name: name.to_string(),
        cmd: vec!["true".to_string()],
        cron: None,
        timezone: None,
        params: vec![],
        catchup: "none".to_string(),
        overlap: "skip".to_string(),
        enabled: false,
        retries: 0,
        concurrency: 1,
    }
}

#[test]
fn a_single_workflow_starts() {
    let m = Manifest { flows: vec![dep("a"), dep("b")] };
    let (mut w, id) =
        run_oneshot_with(&m, "flows.toml", "b", Json::Null, "/r", TOKEN, "t").unwrap();
    assert_eq!(id, "w-01234567");
    assert_eq!(w.take_launches()[0].dep.name, "b");
    assert_eq!(w.store.list_deployments().unwrap().len(), 1);
    let (w, id) = run_oneshot(&m, "flows.toml", "a", Json::Null, "/r", "t").unwrap();
    assert!(w.store.get_workflow(&id).is_some());
    assert_eq!(
        run_oneshot_with(&m, "flows.toml", "c", Json::Null, "/r", TOKEN, "t").err().unwrap(),
        "no workflow named 'c' in flows.toml"
    );
    assert_eq!(oneshot_banner("a"), "running 'a' (one-shot)…\n");
}

#[test]
fn a_single_workflow_is_followed() {
    let end = env("event", obj(vec![("type", text("workflow_failure")), ("error", text("e"))]));
    assert_eq!(
        oneshot_envelope(&end, "w"),
        Some(("✗ workflow FAILURE: e".to_string(), true))
    );
    assert_eq!(oneshot_envelope(&end, "v"), None);
    let ok = env("event", obj(vec![("type", text("workflow_success"))]));
    assert!(oneshot_envelope(&ok, "w").unwrap().1);
    let log = env("log", obj(vec![("type", text("workflow_success"))]));
    assert!(!oneshot_envelope(&log, "w").unwrap().1);
    let m = Manifest { flows: vec![dep("a")] };
    let (mut w, id) = run_oneshot(&m, "f", "a", Json::Null, "/r", "t").unwrap();
    assert!(!oneshot_over(&w.store.get_workflow(&id)));
    assert!(!oneshot_over(&None));
    w.store.finish_workflow(&id, "success", None, None, "t");
    assert!(oneshot_over(&w.store.get_workflow(&id)));
}

#[test]
fn the_summary_of_a_single_workflow() {
    let m = Manifest { flows: vec![dep("a")] };
    let (mut w, _) = run_oneshot_with(&m, "f", "a", Json::Null, "/r", TOKEN, "t").unwrap();
    let steps = vec![
        StepView {
            seq: 0,
            name: "one".to_string(),
            status: "skipped".to_string(),
            duration_ms: Some(0),
            error: None,
        },
        StepView {
            seq: 12,
            name: "two".to_string(),
            status: "success".to_string(),
            duration_ms: None,
            error: None,
        },
    ];
    let wf = w.store.get_workflow("w-01234567").unwrap();
    let (lines, ok) = summary(&wf, &steps);
    assert!(!ok);
    assert_eq!(
        lines,
        [
            "\n── summary ─────────────────────────",
            "workflow w-01234567  status=running  attempts=0",
            "  #0   one              skipped   0ms (resumed from journal)",
            "  #12  two              success   —",
        ]
    );
    w.store.finish_workflow("w-01234567", "success", None, None, "t");
    assert!(summary(&w.store.get_workflow("w-01234567").unwrap(), &steps).1);
}

#[test]
fn where_requests_go() {
    assert_eq!(Client::new("127.0.0.1:8080/").base, "http://127.0.0.1:8080");
    let c = Client::new("https://box//");
    assert_eq!(c.base, "https://box");
    assert_eq!(c.list_flows(), "https://box/flows");
    assert_eq!(c.list_workflows(-1), "https://box/workflows?limit=-1");
    assert_eq!(c.get_workflow("w"), "https://box/workflows/w");
    assert_eq!(c.get_logs("w"), "https://box/workflows/w/logs");
    assert_eq!(c.get_events("w"), "https://box/workflows/w/events");
    assert_eq!(c.query("w"), "https://box/workflows/w/state");
    assert_eq!(c.stream("w"), "https://box/workflows/w/stream");
    assert_eq!(
        c.trigger("etl", Json::Null, Some("k".to_string())),
        (
            "https://box/flows/etl/trigger".to_string(),
            obj(vec![("params", Json::Null), ("id", text("k"))])
        )
    );
    assert_eq!(c.trigger("etl", Json::Int(1), None).1, obj(vec![("params", Json::Int(1))]));
    assert_eq!(
        c.signal("w", "go", Json::Int(2)),
        (
            "https://box/workflows/w/signals".to_string(),
            obj(vec![("name", text("go")), ("payload", Json::Int(2))])
        )
    );
}

#[test]
fn what_answers_mean() {
    let ok = obj(vec![("workflow_id", text("w"))]);
    let no = obj(vec![("error", text("busy"))]);
    assert_eq!(trigger_reply(true, &ok), Ok("w".to_string()));
    assert_eq!(trigger_reply(true, &Json::Null), Ok(String::new()));
    assert_eq!(trigger_reply(false, &no), Err("busy".to_string()));
    assert_eq!(trigger_reply(false, &Json::Null), Err("trigger failed".to_string()));
    assert_eq!(signal_reply(true, &Json::Null), Ok(()));
    assert_eq!(signal_reply(false, &Json::Null), Err("signal failed".to_string()));
    assert_eq!(query_reply(true, &obj(vec![("state", Json::Int(1))])), Ok(Json::Int(1)));
    assert_eq!(query_reply(true, &Json::Null), Ok(Json::Null));
    assert_eq!(query_reply(false, &no), Err("busy".to_string()));
    assert_eq!(query_reply(false, &Json::Null), Err("query failed".to_string()));
    let list = obj(vec![("flows", Json::Arr(vec![Json::Int(1)]))]);
    assert_eq!(items_reply(&list, "flows"), vec![Json::Int(1)]);
    assert_eq!(items_reply(&list, "runs"), vec![]);
}

#[test]
fn streams_are_cut_into_frames() {
    let whole = "data: {\"a\":1}\n\n: note\n\nevent: x\r\ndata:{\"b\"\ndata:  :2}\n\ndata: rest";
    let mut b = SseBuffer::new();
    assert_eq!(b.feed(whole), ["{\"a\":1}", "{\"b\":2}"]);
    assert_eq!(b.rest, "data: rest");
    let mut c = SseBuffer::new();
    let mut got: Vec<String> = vec![];
    for ch in whole.chars() {
        got.extend(c.feed(&ch.to_string()));
    }
    assert_eq!(got, ["{\"a\":1}", "{\"b\":2}"]);
    assert_eq!(c.rest, "data: rest");
    assert_eq!(c.feed("\r"), Vec::<String>::new());
    assert_eq!(c.feed("\n\n"), ["rest\r"]);
}

#[test]
fn the_payload_of_a_signal() {
    assert_eq!(shift_clock::cli::signal_payload(Some(Json::Int(3)), "3"), Json::Int(3));
    assert_eq!(
        shift_clock::cli::signal_payload(None, "yes please"),
        Json::Str("yes please".to_string())
    );
}

use shift_clock::clock::Stamp;
use shift_clock::json::Json;
use shift_clock::tui::{
    cron_at, detail_body, draw_runs, draw_scheduled, flow_line, job_body, merged_activity,
    firing_line, marked, next_fire, poll_due, run_line, scheduled_line, scheduled_page,
    shown_params, state_dot, state_style, status_line, tab_index, AppUi, Press, Tab, Tone,
    UiAction,
};

fn text(s: &str) -> Json {
    Json::Str(s.to_string())
}

fn obj(m: Vec<(&str, Json)>) -> Json {
    Json::Obj(m.into_iter().map(|(k, v)| (k.to_string(), v)).collect())
}

fn run(id: &str, deployment: &str, status: &str) -> Json {
    obj(vec![("id", text(id)), ("deployment", text(deployment)), ("status", text(status))])
}

#[test]
fn keys_switch_pages_and_quit() {
    let mut ui = AppUi::new();
    assert_eq!(ui.tab, Tab::Runs);
    assert_eq!(ui.press(Press::Tab), UiAction::Stay);
    assert_eq!(ui.tab, Tab::Scheduled);
    ui.press(Press::BackTab);
    assert_eq!(ui.tab, Tab::Runs);
    for k in [Press::Char('l'), Press::Char('h'), Press::Left, Press::Right] {
        ui.press(k);
    }
    assert_eq!(ui.tab, Tab::Runs);
    ui.press(Press::Char('2'));
    assert_eq!((ui.tab, tab_index(ui.tab)), (Tab::Scheduled, 1));
    ui.press(Press::Char('1'));
    assert_eq!((ui.tab, tab_index(ui.tab)), (Tab::Runs, 0));
    assert_eq!(ui.press(Press::Char('q')), UiAction::Quit);
    assert_eq!(ui.press(Press::Esc), UiAction::Quit);
    assert_eq!(ui.press(Press::Char('r')), UiAction::Refresh);
    assert_eq!(ui.press(Press::Char('z')), UiAction::Stay);
    assert_eq!(ui.press(Press::Other), UiAction::Stay);
}

#[test]
fn the_selection_stays_in_range() {
    let mut ui = AppUi::new();
    assert_eq!(ui.press(Press::Down), UiAction::Stay);
    assert_eq!(ui.press(Press::Up), UiAction::Detail);
    assert!(ui.refresh(Ok(vec![run("a", "e", ""), run("b", "e", "")]), "12:00:00"));
    assert_eq!(ui.status, "2 run(s) · updated 12:00:00");
    assert_eq!(ui.press(Press::Down), UiAction::Detail);
    assert_eq!(ui.press(Press::Char('j')), UiAction::Detail);
    assert_eq!(ui.selected, 1);
    assert_eq!(ui.detail_id().as_deref(), Some("b"));
    ui.refresh(Ok(vec![run("a", "e", "")]), "t");
    assert_eq!(ui.selected, 0);
    ui.press(Press::Char('k'));
    assert_eq!(ui.selected, 0);
    ui.refresh_flows(vec![Json::Null, Json::Null, Json::Null]);
    ui.press(Press::Tab);
    for _ in 0..5 {
        assert_eq!(ui.press(Press::Down), UiAction::Stay);
    }
    assert_eq!(ui.flow_selected, 2);
    ui.refresh_flows(vec![Json::Null]);
    assert_eq!(ui.flow_selected, 0);
}

#[test]
fn errors_are_shown_and_details_forgotten() {
    let mut ui = AppUi::new();
    assert!(!ui.refresh(Err("down".to_string()), "t"));
    assert_eq!(ui.status, "error: down");
    ui.refresh_detail(Some(Json::Null), vec![Json::Null], vec![Json::Null]);
    assert_eq!(ui.detail_id(), None);
    assert_eq!((ui.detail, ui.logs.len(), ui.events.len()), (None, 0, 0));
}

#[test]
fn marks_and_tones() {
    let all = [
        ("success", "●", Tone::Good),
        ("failed", "✗", Tone::Bad),
        ("running", "◐", Tone::Busy),
        ("sleeping", "⏸", Tone::Parked),
        ("waiting", "⏸", Tone::Parked),
        ("odd", "·", Tone::Plain),
    ];
    for (state, dot, tone) in all {
        assert_eq!(state_dot(state), dot);
        assert_eq!(state_style(state), tone);
    }
    assert_eq!(
        run_line(&run("w-1", "etl", "running")),
        ("◐ w-1  etl  running".to_string(), Tone::Busy)
    );
}

#[test]
fn the_last_line() {
    let mut ui = AppUi::new();
    assert_eq!(
        status_line(&ui),
        " shift-clock · connecting… · [Tab] scheduled  [↑/↓] select run  [r] refresh  [q] quit"
    );
    ui.press(Press::Tab);
    assert!(status_line(&ui).ends_with("[Tab] runs  [↑/↓] select job  [r] refresh  [q] quit"));
}

#[test]
fn the_detail_of_a_workflow() {
    let d = obj(vec![
        (
            "workflow",
            obj(vec![
                ("deployment", text("etl")),
                ("id", text("w-1")),
                ("status", text("running")),
                ("trigger", text("cron")),
                ("attempts", Json::Int(1)),
            ]),
        ),
        (
            "steps",
            Json::Arr(vec![obj(vec![
                ("seq", Json::Int(0)),
                ("name", text("one")),
                ("status", text("success")),
                ("duration_ms", Json::Int(7)),
            ])]),
        ),
    ]);
    let feed: Vec<String> = (0..20).map(|i| format!("line {}", i)).collect();
    let body = detail_body(&Some(d), &feed);
    assert!(body.starts_with(
        "flow     etl\nworkflow w-1\nstatus   running\ntrigger  cron\nattempts 1\n\nsteps:\n  #0   one              success   7ms\n\nactivity:\nline 4\nline 5\n"
    ));
    assert!(body.ends_with("line 19\n"));
    assert_eq!(detail_body(&None, &feed), "no run selected");
    assert_eq!(draw_runs(&AppUi::new()), "no run selected");
}

#[test]
fn activity_is_one_timeline() {
    let events = vec![obj(vec![
        ("seq", Json::Int(1)),
        ("ts", text("b")),
        ("payload", obj(vec![("type", text("workflow_start"))])),
    ])];
    let lines = vec![obj(vec![("ts", text("a")), ("stream", text("stdout")), ("line", text("hi"))])];
    assert_eq!(merged_activity(&events, &lines), ["  │ [stdout] hi", "▶ workflow start"]);
}

#[test]
fn the_line_of_a_deployment() {
    let on = obj(vec![("name", text("etl")), ("cron", text("* * * * *"))]);
    assert_eq!(
        flow_line(&on, "12:00"),
        ("⏱ etl          * * * * *   next 12:00".to_string(), true)
    );
    let off =
        obj(vec![("name", text("etl")), ("cron", text("* * * * *")), ("enabled", Json::Bool(false))]);
    assert_eq!(
        flow_line(&off, "12:00"),
        ("⏱ etl          * * * * *   (disabled)".to_string(), false)
    );
    let manual = obj(vec![("name", text("etl")), ("cron", Json::Null)]);
    assert_eq!(flow_line(&manual, ""), ("⏱ etl          manual only".to_string(), false));
    assert_eq!(cron_at(&on).as_deref(), Some("* * * * *"));
    assert_eq!(cron_at(&manual), None);
}

#[test]
fn the_detail_of_a_deployment() {
    let fl = obj(vec![
        ("name", text("etl")),
        ("cmd", Json::Arr(vec![text("python3"), Json::Int(1), text("a.py")])),
        ("cron", text("0 * * * *")),
        ("catchup", text("none")),
        ("overlap", text("skip")),
        ("params", obj(vec![("a", Json::Int(1))])),
    ]);
    let mut runs: Vec<Json> = vec![run("x", "other", "failed")];
    for _ in 0..10 {
        runs.push(run("w", "etl", "success"));
    }
    let body = job_body(&fl, "13:00", "{\"a\":1}", &runs);
    let line = "  ● success           \n";
    assert_eq!(
        body,
        format!(
            "job      etl\ncommand  python3 a.py\ncron     0 * * * *\nnext     13:00\nenabled  true\ncatchup  none\noverlap  skip\nparams   {{\"a\":1}}\n\nrecent runs:\n{}",
            line.repeat(8)
        )
    );
    let bare = obj(vec![("name", text("b")), ("enabled", Json::Bool(false)), ("params", obj(vec![]))]);
    assert_eq!(
        job_body(&bare, "", "", &runs),
        "job      b\ncommand  \ncron     — (manual only)\nenabled  false\ncatchup  \noverlap  \n\nrecent runs:\n  (none yet)\n"
    );
    let mut ui = AppUi::new();
    assert_eq!(draw_scheduled(&ui, "", ""), "no job selected");
    ui.refresh_flows(vec![bare]);
    assert!(draw_scheduled(&ui, "", "").starts_with("job      b\n"));
}

#[test]
fn when_an_expression_fires_next() {
    let noon = Stamp { secs: 1_709_208_000, nanos: 0, offset: 0 };
    assert_eq!(next_fire("0 12 * * *", &noon), "12:00");
    assert_eq!(firing_line(&Some(Stamp { offset: 3900, ..noon })), "13:05");
    assert_eq!(firing_line(&None), "—");
    assert_eq!(next_fire("bad", &noon), "—");
    let t = next_fire("5 * * * *", &noon);
    assert!(t.len() == 5 && t.ends_with(":05"));
    assert_eq!(next_fire("0 0 31 2 *", &noon), "—");
}

#[test]
fn the_scheduled_page_at_an_instant() {
    let noon = Stamp { secs: 1_709_208_000, nanos: 0, offset: 0 };
    let job = obj(vec![
        ("name", text("etl")),
        ("cron", text("0 12 * * *")),
        ("params", obj(vec![("a", Json::Int(1))])),
    ]);
    let manual = obj(vec![("name", text("m"))]);
    assert_eq!(
        scheduled_line(&job, &noon),
        ("⏱ etl          0 12 * * *  next 12:00".to_string(), true)
    );
    assert_eq!(scheduled_line(&manual, &noon), ("⏱ m            manual only".to_string(), false));
    let mut ui = AppUi::new();
    assert_eq!(scheduled_page(&ui, &noon, ""), "no job selected");
    assert_eq!(shown_params(&ui), None);
    ui.refresh_flows(vec![manual, job]);
    assert!(scheduled_page(&ui, &noon, "").contains("manual only"));
    assert_eq!(shown_params(&ui), None);
    ui.press(Press::Char('2'));
    ui.press(Press::Down);
    let page = scheduled_page(&ui, &noon, "{\"a\":1}");
    assert!(page.contains("\ncron     0 12 * * *\nnext     12:00\n"));
    assert!(page.contains("\nparams   {\"a\":1}\n"));
    assert_eq!(shown_params(&ui), Some(obj(vec![("a", Json::Int(1))])));
}

#[test]
fn when_the_dashboard_asks_again() {
    assert!(poll_due(None));
    assert!(!poll_due(Some(999)));
    assert!(poll_due(Some(1000)));
    assert_eq!((marked(3, 0), marked(0, 1)), (None, Some(0)));
}

//! What the subcommands print, and the run of a single workflow without a daemon.

use vstd::prelude::*;
use crate::api::time_keys;
use crate::config::{called, DeploymentV, Manifest};
use crate::json::{members, no_members, object, set_member, with_member, Json, JsonV, Members};
use crate::order::{
    indices, is_order, is_sorted_by, key_views, lemma_key_views_push, order_by, pick,
};
use crate::protocol::{Envelope, EnvelopeV};
use crate::store::{
    argv_text_of, StepView, StepViewV, Store, Workflow, WorkflowV,
};
use crate::tables::{StoreV, Tables};
use crate::text::{
    decimal, decimal_of, first_where, lemma_first_where, lemma_first_where_is, lemma_take_step,
    lemma_views_push, opt, pad, padded, split_first, split_once, str_eq, views,
};
use crate::worker::{is_token, token, Worker, WorkerV};

verus! {

// ---------------------------------------------------------------------------
// Parameters
// ---------------------------------------------------------------------------

/// The members that parameters of the form `key=value` set; others set none.
pub open spec fn params_of(pairs: Seq<Seq<char>>) -> Members
    decreases pairs.len(),
{
    if pairs.len() == 0 {
        Seq::empty()
    } else {
        let before = params_of(pairs.drop_last());
        match split_first(pairs.last(), '=') {
            Some((k, v)) => with_member(before, k, JsonV::Str(v)),
            None => before,
        }
    }
}

/// The object that parameters of the form `key=value` make.
pub fn parse_params(pairs: &Vec<String>) -> (r: Json)
    ensures
        r@ == JsonV::Obj(params_of(views(pairs@))),
{
    let ghost all = views(pairs@);
    let mut m = no_members();
    let mut i: usize = 0;
    assert(all.take(0) =~= Seq::<Seq<char>>::empty());
    while i < pairs.len()
        invariant
            i <= pairs@.len(),
            all == views(pairs@),
            members(m@) == params_of(all.take(i as int)),
        decreases pairs@.len() - i,
    {
        proof {
            assert(all.take(i + 1).drop_last() =~= all.take(i as int));
            assert(all.take(i + 1).last() == all[i as int]);
        }
        if let Some((k, v)) = split_once(pairs[i].as_str(), '=') {
            set_member(&mut m, k, Json::Str(v));
        }
        i = i + 1;
    }
    assert(all.take(all.len() as int) =~= all);
    object(m)
}

// ---------------------------------------------------------------------------
// Short answers
// ---------------------------------------------------------------------------

/// What `trigger` prints.
pub fn trigger(name: &str, id: &str) -> (r: Vec<String>)
    ensures
        views(r@) == seq![
            "triggered "@ + name@ + " -> "@ + id@,
            "watch:  shift-clock logs "@ + id@ + " -f"@,
        ],
{
    let mut a = "triggered ".to_string();
    a.append(name);
    a.append(" -> ");
    a.append(id);
    let mut b = "watch:  shift-clock logs ".to_string();
    b.append(id);
    b.append(" -f");
    let ghost x = a@;
    let ghost y = b@;
    let mut r: Vec<String> = Vec::new();
    r.push(a);
    r.push(b);
    assert(views(r@) =~= seq![x, y]);
    r
}

/// The payload of a signal: the JSON value that its text denotes, else the text itself.
pub fn signal_payload(parsed: Option<Json>, text: &str) -> (r: Json)
    ensures
        r@ == match opt(parsed) {
            Some(j) => j,
            None => JsonV::Str(text@),
        },
{
    match parsed {
        Some(j) => j,
        None => Json::Str(text.to_string()),
    }
}

/// What `signal` prints.
pub fn signal(id: &str, name: &str) -> (r: String)
    ensures
        r@ == "signalled "@ + id@ + " <- "@ + name@,
{
    let mut s = "signalled ".to_string();
    s.append(id);
    s.append(" <- ");
    s.append(name);
    s
}

/// What `query` prints of the durable state of a workflow, as JSON: the item of a
/// key, on one line, or null; without a key all of it, over several lines.
pub fn query(state: &Json, key: Option<String>) -> (r: (Json, bool))
    ensures
        match opt(key) {
            Some(k) => r.0@ == state@.at(k) && !r.1,
            None => r.0@ == state@ && r.1,
        },
{
    match key {
        Some(k) => match state.get(k.as_str()) {
            Some(v) => (v.copy(), false),
            None => (Json::Null, false),
        },
        None => (state.copy(), true),
    }
}

// ---------------------------------------------------------------------------
// Showing a workflow
// ---------------------------------------------------------------------------

/// A duration in words.
pub open spec fn duration_text(ms: Option<int>) -> Seq<char> {
    match ms {
        Some(n) => decimal_of(n) + "ms"@,
        None => "—"@,
    }
}

pub(crate) fn duration(ms: Option<i64>) -> (r: String)
    ensures
        r@ == duration_text(
            match ms {
                Some(n) => Some(n as int),
                None => None,
            },
        ),
{
    match ms {
        Some(n) => {
            let mut s = decimal(n);
            s.append("ms");
            s
        },
        None => "—".to_string(),
    }
}

/// A step as `show` prints it.
pub open spec fn step_line(st: JsonV) -> Seq<char> {
    "    #"@ + padded(decimal_of(st.field_int("seq"@)), 3) + " "@ + padded(
        st.field_text("name"@, ""@),
        18,
    ) + " "@ + padded(st.field_text("status"@, ""@), 9) + " "@ + duration_text(
        st.at("duration_ms"@).integer(),
    )
}

fn show_step(st: &Json) -> (r: String)
    ensures
        r@ == step_line(st@),
{
    let mut s = "    #".to_string();
    s.append(pad(decimal(st.int_at("seq")).as_str(), 3).as_str());
    s.append(" ");
    s.append(pad(st.text_at("name", "").as_str(), 18).as_str());
    s.append(" ");
    s.append(pad(st.text_at("status", "").as_str(), 9).as_str());
    s.append(" ");
    let ms = match st.get("duration_ms") {
        Some(v) => v.as_i64(),
        None => None,
    };
    s.append(duration(ms).as_str());
    s
}

/// The lines of `show` above the steps, given the text of the instant at which the
/// workflow wakes.
pub open spec fn show_head(w: JsonV, wake: Seq<char>) -> Seq<Seq<char>> {
    let top = seq![
        "workflow "@ + w.field_text("id"@, ""@),
        "  flow      "@ + w.field_text("deployment"@, ""@),
        "  status    "@ + w.field_text("status"@, ""@),
        "  trigger   "@ + w.field_text("trigger"@, ""@),
        "  attempts  "@ + decimal_of(w.field_int("attempts"@)),
    ];
    let a = if w.at("wake_at"@).is_number() {
        top.push("  wake_at   "@ + wake + " (epoch)"@)
    } else {
        top
    };
    let b = a.push("  created   "@ + w.field_text("created_at"@, ""@));
    let c = match w.at("finished_at"@).string() {
        Some(t) => b.push("  finished  "@ + t),
        None => b,
    };
    let d = match w.at("error"@).string() {
        Some(e) => c.push("  error     "@ + e),
        None => c,
    };
    d.push("  steps:"@)
}

/// The lines of `show`.
pub open spec fn show_text(d: JsonV, wake: Seq<char>) -> Seq<Seq<char>> {
    let steps = d.at("steps"@).items();
    show_head(d.at("workflow"@), wake) + Seq::new(steps.len(), |i: int| step_line(steps[i]))
}

fn line_of(label: &str, value: &str) -> (r: String)
    ensures
        r@ == label@ + value@,
{
    let mut s = label.to_string();
    s.append(value);
    s
}

/// What `show` prints of the answer of the control plane, line by line, given the
/// text of the number that the answer has for the instant at which the workflow
/// wakes.
pub fn show(d: &Json, wake: &str) -> (r: Vec<String>)
    ensures
        views(r@) == show_text(d@, wake@),
{
    broadcast use lemma_views_push;

    let nothing = Json::Null;
    let w = match d.get("workflow") {
        Some(w) => w,
        None => &nothing,
    };
    assert(w@ == d@.at("workflow"@));
    let mut r: Vec<String> = Vec::new();
    r.push(line_of("workflow ", w.text_at("id", "").as_str()));
    r.push(line_of("  flow      ", w.text_at("deployment", "").as_str()));
    r.push(line_of("  status    ", w.text_at("status", "").as_str()));
    r.push(line_of("  trigger   ", w.text_at("trigger", "").as_str()));
    r.push(line_of("  attempts  ", decimal(w.int_at("attempts")).as_str()));
    let wakes = match w.get("wake_at") {
        Some(v) => v.number(),
        None => false,
    };
    if wakes {
        let mut s = "  wake_at   ".to_string();
        s.append(wake);
        s.append(" (epoch)");
        r.push(s);
    }
    r.push(line_of("  created   ", w.text_at("created_at", "").as_str()));
    if let Some(v) = w.get("finished_at") {
        if let Some(t) = v.as_str() {
            r.push(line_of("  finished  ", t.as_str()));
        }
    }
    if let Some(v) = w.get("error") {
        if let Some(e) = v.as_str() {
            r.push(line_of("  error     ", e.as_str()));
        }
    }
    r.push("  steps:".to_string());
    let ghost head = show_head(w@, wake@);
    assert(views(r@) =~= head);
    let steps = d.items_at("steps");
    let ghost shown = Seq::new(steps@.len(), |i: int| step_line(views(steps@)[i]));
    let mut i: usize = 0;
    assert(head + shown.take(0) =~= head);
    while i < steps.len()
        invariant
            i <= steps@.len(),
            shown == Seq::new(steps@.len(), |i: int| step_line(views(steps@)[i])),
            views(r@) == head + shown.take(i as int),
        decreases steps@.len() - i,
    {
        proof {
            lemma_take_step(shown, i as int);
            assert((head + shown.take(i as int)).push(shown[i as int]) =~= head + shown.take(
                i as int,
            ).push(shown[i as int]));
        }
        r.push(show_step(&steps[i]));
        i = i + 1;
    }
    assert(shown.take(steps@.len() as int) =~= shown);
    r
}

/// A workflow as `workflows` prints it.
pub open spec fn workflow_line(w: JsonV) -> Seq<char> {
    padded(w.field_text("id"@, ""@), 12) + " "@ + padded(w.field_text("deployment"@, ""@), 18)
        + " "@ + padded(w.field_text("status"@, ""@), 9) + " "@ + padded(
        w.field_text("trigger"@, ""@),
        8,
    ) + " "@ + padded(decimal_of(w.field_int("attempts"@)), 4) + " "@ + w.field_text(
        "created_at"@,
        ""@,
    )
}

/// The heading of `workflows`.
pub open spec fn workflows_heading() -> Seq<char> {
    padded("ID"@, 12) + " "@ + padded("FLOW"@, 18) + " "@ + padded("STATUS"@, 9) + " "@ + padded(
        "TRIGGER"@,
        8,
    ) + " "@ + padded("ATT"@, 4) + " CREATED"@
}

/// What `workflows` prints, line by line.
pub fn workflows(list: &Vec<Json>) -> (r: Vec<String>)
    ensures
        views(r@) == seq![workflows_heading()] + Seq::new(
            list@.len(),
            |i: int| workflow_line(views(list@)[i]),
        ),
{
    broadcast use lemma_views_push;

    let mut h = pad("ID", 12);
    h.append(" ");
    h.append(pad("FLOW", 18).as_str());
    h.append(" ");
    h.append(pad("STATUS", 9).as_str());
    h.append(" ");
    h.append(pad("TRIGGER", 8).as_str());
    h.append(" ");
    h.append(pad("ATT", 4).as_str());
    h.append(" CREATED");
    let ghost head = seq![workflows_heading()];
    let ghost shown = Seq::new(list@.len(), |i: int| workflow_line(views(list@)[i]));
    let mut r: Vec<String> = Vec::new();
    r.push(h);
    let mut i: usize = 0;
    assert(views(r@) =~= head + shown.take(0));
    while i < list.len()
        invariant
            i <= list@.len(),
            shown == Seq::new(list@.len(), |i: int| workflow_line(views(list@)[i])),
            views(r@) == head + shown.take(i as int),
        decreases list@.len() - i,
    {
        proof {
            lemma_take_step(shown, i as int);
            assert((head + shown.take(i as int)).push(shown[i as int]) =~= head + shown.take(
                i as int,
            ).push(shown[i as int]));
        }
        let w = &list[i];
        let mut s = pad(w.text_at("id", "").as_str(), 12);
        s.append(" ");
        s.append(pad(w.text_at("deployment", "").as_str(), 18).as_str());
        s.append(" ");
        s.append(pad(w.text_at("status", "").as_str(), 9).as_str());
        s.append(" ");
        s.append(pad(w.text_at("trigger", "").as_str(), 8).as_str());
        s.append(" ");
        s.append(pad(decimal(w.int_at("attempts")).as_str(), 4).as_str());
        s.append(" ");
        s.append(w.text_at("created_at", "").as_str());
        assert(s@ == workflow_line(views(list@)[i as int]));
        r.push(s);
        i = i + 1;
    }
    assert(shown.take(list@.len() as int) =~= shown);
    r
}

// ---------------------------------------------------------------------------
// The merged timeline
// ---------------------------------------------------------------------------

/// An event of the control plane as an envelope.
pub open spec fn event_of(id: Seq<char>, e: JsonV) -> EnvelopeV {
    EnvelopeV {
        workflow_id: id,
        seq: e.field_int("seq"@) as i64,
        ts: e.field_text("ts"@, ""@),
        kind: "event"@,
        payload: e.at("payload"@),
    }
}

/// A log line of the control plane as an envelope.
pub open spec fn log_of(id: Seq<char>, l: JsonV) -> EnvelopeV {
    EnvelopeV {
        workflow_id: id,
        seq: 0,
        ts: l.field_text("ts"@, ""@),
        kind: "log"@,
        payload: l,
    }
}

/// The events and the log lines of a workflow.
pub open spec fn entries(id: Seq<char>, es: Seq<JsonV>, ls: Seq<JsonV>) -> Seq<EnvelopeV> {
    Seq::new(es.len(), |i: int| event_of(id, es[i])) + Seq::new(
        ls.len(),
        |i: int| log_of(id, ls[i]),
    )
}

/// Whether `r` is the merged timeline of events and log lines.
pub open spec fn is_timeline(
    id: Seq<char>,
    es: Seq<JsonV>,
    ls: Seq<JsonV>,
    r: Seq<EnvelopeV>,
) -> bool {
    let all = entries(id, es, ls);
    is_sorted_by(all, time_keys(all), r)
}

/// The merged timeline of a workflow: its events and its log lines, sorted by time,
/// and then by number.
pub fn logs(id: &str, events: &Vec<Json>, lines: &Vec<Json>) -> (r: Vec<Envelope>)
    ensures
        is_timeline(id@, views(events@), views(lines@), views(r@)),
{
    broadcast use {lemma_key_views_push, lemma_views_push};

    let ghost es = views(events@);
    let ghost ls = views(lines@);
    let ghost all = entries(id@, es, ls);
    let mut list: Vec<Envelope> = Vec::new();
    let mut keys: Vec<(String, i64)> = Vec::new();
    let mut i: usize = 0;
    assert(key_views(keys@) =~= time_keys(all).take(0));
    assert(views(list@) =~= all.take(0));
    while i < events.len()
        invariant
            i <= events@.len(),
            es == views(events@),
            all == entries(id@, es, ls),
            views(list@) == all.take(i as int),
            key_views(keys@) == time_keys(all).take(i as int),
        decreases events@.len() - i,
    {
        proof {
            lemma_take_step(all, i as int);
            lemma_take_step(time_keys(all), i as int);
        }
        let e = &events[i];
        assert(all[i as int] == event_of(id@, es[i as int]));
        let env = Envelope {
            workflow_id: id.to_string(),
            seq: e.int_at("seq"),
            ts: e.text_at("ts", ""),
            kind: "event".to_string(),
            payload: match e.get("payload") {
                Some(p) => p.copy(),
                None => Json::Null,
            },
        };
        assert(env@ == all[i as int]);
        keys.push((env.ts.clone(), env.seq));
        list.push(env);
        i = i + 1;
    }
    let mut k: usize = 0;
    while k < lines.len()
        invariant
            k <= lines@.len(),
            ls == views(lines@),
            all == entries(id@, es, ls),
            views(list@) == all.take(es.len() + k),
            key_views(keys@) == time_keys(all).take(es.len() + k),
        decreases lines@.len() - k,
    {
        proof {
            lemma_take_step(all, es.len() + k);
            lemma_take_step(time_keys(all), es.len() + k);
        }
        let l = &lines[k];
        assert(all[es.len() + k] == log_of(id@, ls[k as int]));
        let env = Envelope {
            workflow_id: id.to_string(),
            seq: 0,
            ts: l.text_at("ts", ""),
            kind: "log".to_string(),
            payload: l.copy(),
        };
        assert(env@ == all[es.len() + k]);
        keys.push((env.ts.clone(), 0));
        list.push(env);
        k = k + 1;
    }
    assert(all.take(all.len() as int) =~= all);
    assert(time_keys(all).take(all.len() as int) =~= time_keys(all));
    let o = order_by(&keys);
    let mut r: Vec<Envelope> = Vec::new();
    let mut a: usize = 0;
    while a < o.len()
        invariant
            a <= o@.len(),
            all == views(list@),
            is_order(time_keys(all), indices(o@)),
            views(r@) == pick(all, indices(o@)).take(a as int),
        decreases o@.len() - a,
    {
        proof {
            lemma_take_step(pick(all, indices(o@)), a as int);
            assert(0 <= indices(o@)[a as int] < all.len());
        }
        let n: usize = o[a];
        r.push(list[n].copy());
        a = a + 1;
    }
    assert(pick(all, indices(o@)).take(o@.len() as int) =~= pick(all, indices(o@)));
    r
}

// ---------------------------------------------------------------------------
// Envelopes in words
// ---------------------------------------------------------------------------

/// The name of the step that an event speaks of.
pub open spec fn step_name(p: JsonV) -> Seq<char> {
    match p.field("name"@) {
        Some(v) => match v.string() {
            Some(s) => s,
            None => ""@,
        },
        None => p.field_text("task"@, ""@),
    }
}

/// The name of the step that an event speaks of.
pub fn name_of(p: &Json) -> (r: String)
    ensures
        r@ == step_name(p@),
{
    match p.get("name") {
        Some(v) => match v.as_str() {
            Some(s) => s.clone(),
            None => "".to_string(),
        },
        None => p.text_at("task", ""),
    }
}

/// The number and the name of the step that an event speaks of, behind a mark.
pub open spec fn step_text(mark: Seq<char>, p: JsonV) -> Seq<char> {
    mark + decimal_of(p.field_int("seq"@)) + " "@ + step_name(p)
}

fn step_words(mark: &str, p: &Json) -> (r: String)
    ensures
        r@ == step_text(mark@, p@),
{
    let mut s = mark.to_string();
    s.append(decimal(p.int_at("seq")).as_str());
    s.append(" ");
    s.append(name_of(p).as_str());
    s
}

/// An event in words.
pub open spec fn event_text(ty: Seq<char>, p: JsonV) -> Seq<char> {
    if ty == "workflow_start"@ {
        "▶ workflow start"@
    } else if ty == "workflow_success"@ {
        "✔ workflow SUCCESS"@
    } else if ty == "workflow_failure"@ {
        "✗ workflow FAILURE: "@ + p.field_text("error"@, ""@)
    } else if ty == "workflow_resume"@ {
        "↻ resume (attempt "@ + decimal_of(p.field_int("attempt"@)) + ")"@
    } else if ty == "workflow_recovered"@ {
        "⟳ recovered — resuming after daemon restart"@
    } else if ty == "workflow_park"@ {
        if p.at("wake_at"@).is_number() {
            "⏸ parked (sleeping) — process unloaded"@
        } else {
            "⏸ parked (waiting for signal) — process unloaded"@
        }
    } else if ty == "workflow_wake"@ {
        "⏰ woke — re-dispatched at wake time"@
    } else if ty == "workflow_signalled"@ {
        "✉ signal received — re-dispatched"@
    } else if ty == "step_start"@ {
        step_text("  ● #"@, p) + " start (attempt "@ + decimal_of(p.field_int("attempt"@)) + ")"@
    } else if ty == "step_success"@ {
        step_text("  ✔ #"@, p) + " ok ("@ + decimal_of(p.field_int("duration_ms"@)) + "ms)"@
    } else if ty == "step_skipped"@ {
        step_text("  ⤼ #"@, p) + " skipped ("@ + p.field_text("reason"@, ""@) + ")"@
    } else if ty == "step_retry"@ {
        step_text("  ↻ #"@, p) + " retry -> attempt "@ + decimal_of(p.field_int("next_attempt"@))
            + " ("@ + p.field_text("error"@, ""@) + ")"@
    } else if ty == "step_failure"@ {
        step_text("  ✗ #"@, p) + " failed: "@ + p.field_text("error"@, ""@)
    } else if ty == "log"@ {
        "  │ "@ + p.field_text("message"@, ""@)
    } else {
        "  · "@ + ty
    }
}

/// What clients receive, in words.
pub open spec fn envelope_text(env: EnvelopeV) -> Seq<char> {
    let p = env.payload;
    if env.kind == "log"@ {
        "  │ ["@ + p.field_text("stream"@, "out"@) + "] "@ + p.field_text("line"@, ""@)
    } else {
        event_text(p.field_text("type"@, "event"@), p)
    }
}

fn event_words(ty: &str, p: &Json) -> (r: String)
    ensures
        r@ == event_text(ty@, p@),
{
    if str_eq(ty, "workflow_start") {
        "▶ workflow start".to_string()
    } else if str_eq(ty, "workflow_success") {
        "✔ workflow SUCCESS".to_string()
    } else if str_eq(ty, "workflow_failure") {
        line_of("✗ workflow FAILURE: ", p.text_at("error", "").as_str())
    } else if str_eq(ty, "workflow_resume") {
        let mut s = line_of("↻ resume (attempt ", decimal(p.int_at("attempt")).as_str());
        s.append(")");
        s
    } else if str_eq(ty, "workflow_recovered") {
        "⟳ recovered — resuming after daemon restart".to_string()
    } else if str_eq(ty, "workflow_park") {
        let wakes = match p.get("wake_at") {
            Some(v) => v.number(),
            None => false,
        };
        if wakes {
            "⏸ parked (sleeping) — process unloaded".to_string()
        } else {
            "⏸ parked (waiting for signal) — process unloaded".to_string()
        }
    } else if str_eq(ty, "workflow_wake") {
        "⏰ woke — re-dispatched at wake time".to_string()
    } else if str_eq(ty, "workflow_signalled") {
        "✉ signal received — re-dispatched".to_string()
    } else if str_eq(ty, "step_start") {
        let mut s = step_words("  ● #", p);
        s.append(" start (attempt ");
        s.append(decimal(p.int_at("attempt")).as_str());
        s.append(")");
        s
    } else if str_eq(ty, "step_success") {
        let mut s = step_words("  ✔ #", p);
        s.append(" ok (");
        s.append(decimal(p.int_at("duration_ms")).as_str());
        s.append("ms)");
        s
    } else if str_eq(ty, "step_skipped") {
        let mut s = step_words("  ⤼ #", p);
        s.append(" skipped (");
        s.append(p.text_at("reason", "").as_str());
        s.append(")");
        s
    } else if str_eq(ty, "step_retry") {
        let mut s = step_words("  ↻ #", p);
        s.append(" retry -> attempt ");
        s.append(decimal(p.int_at("next_attempt")).as_str());
        s.append(" (");
        s.append(p.text_at("error", "").as_str());
        s.append(")");
        s
    } else if str_eq(ty, "step_failure") {
        let mut s = step_words("  ✗ #", p);
        s.append(" failed: ");
        s.append(p.text_at("error", "").as_str());
        s
    } else if str_eq(ty, "log") {
        line_of("  │ ", p.text_at("message", "").as_str())
    } else {
        line_of("  · ", ty)
    }
}

/// What clients receive, in words.
pub fn format_envelope(env: &Envelope) -> (r: String)
    ensures
        r@ == envelope_text(env@),
{
    let p = &env.payload;
    if str_eq(env.kind.as_str(), "log") {
        let mut s = "  │ [".to_string();
        s.append(p.text_at("stream", "out").as_str());
        s.append("] ");
        s.append(p.text_at("line", "").as_str());
        return s;
    }
    event_words(p.text_at("type", "event").as_str(), p)
}

// ---------------------------------------------------------------------------
// One workflow without a daemon
// ---------------------------------------------------------------------------

/// The worker of a single workflow before it is submitted: its store has the
/// deployment and nothing else.
pub open spec fn oneshot_worker(root: Seq<char>, dep: DeploymentV, cmd: Seq<char>) -> WorkerV {
    WorkerV {
        store: (StoreV { tables: Tables::empty(), changes: Seq::empty() }).deployed(dep, cmd),
        root,
        active: Set::empty(),
        sent: Seq::empty(),
        launches: Seq::empty(),
    }
}

/// The deployment of a name in a manifest.
pub open spec fn flow_of(flows: Seq<DeploymentV>, name: Seq<char>) -> Option<DeploymentV> {
    let i = first_where(flows, called(name));
    if i < flows.len() {
        Some(flows[i])
    } else {
        None
    }
}

/// Starts a single workflow on a store of its own: the worker that has it to start,
/// and its id. Fails where the manifest has no workflow of that name.
pub fn run_oneshot(
    manifest: &Manifest,
    path: &str,
    name: &str,
    params: Json,
    root: &str,
    now: &str,
) -> (r: Result<(Worker, String), String>)
    ensures
        exists|t: Seq<char>|
            is_token(t) && #[trigger] is_oneshot(
                views(manifest.flows@),
                path@,
                name@,
                params@,
                root@,
                t,
                now@,
                oneshot_result(r),
            ),
{
    let t = token();
    run_oneshot_with(manifest, path, name, params, root, t.as_str(), now)
}

/// The value of what a single workflow is started as.
pub open spec fn oneshot_result(r: Result<(Worker, String), String>) -> Result<
    (WorkerV, Seq<char>),
    Seq<char>,
> {
    match r {
        Ok(p) => Ok((p.0@, p.1@)),
        Err(e) => Err(e@),
    }
}

/// Whether the start of a single workflow, with a token for its id, comes to `r`.
pub open spec fn is_oneshot(
    flows: Seq<DeploymentV>,
    path: Seq<char>,
    name: Seq<char>,
    params: JsonV,
    root: Seq<char>,
    token: Seq<char>,
    now: Seq<char>,
    r: Result<(WorkerV, Seq<char>), Seq<char>>,
) -> bool {
    match flow_of(flows, name) {
        None => r == Err::<(WorkerV, Seq<char>), Seq<char>>(
            "no workflow named '"@ + name + "' in "@ + path,
        ),
        Some(dep) => {
            let (w, id) = oneshot_worker(root, dep, argv_text_of(dep.cmd)).triggered(
                dep,
                "manual"@,
                params,
                None,
                token,
                now,
            );
            match id {
                Ok(id) => r == Ok::<(WorkerV, Seq<char>), Seq<char>>((w, id)),
                Err(e) => r == Err::<(WorkerV, Seq<char>), Seq<char>>(e.message_of(dep)),
            }
        },
    }
}

/// Starts a single workflow on a store of its own, with a token for its id.
pub fn run_oneshot_with(
    manifest: &Manifest,
    path: &str,
    name: &str,
    params: Json,
    root: &str,
    token: &str,
    now: &str,
) -> (r: Result<(Worker, String), String>)
    requires
        is_token(token@),
    ensures
        is_oneshot(
            views(manifest.flows@),
            path@,
            name@,
            params@,
            root@,
            token@,
            now@,
            oneshot_result(r),
        ),
{
    proof {
        lemma_first_where(views(manifest.flows@), called(name@));
    }
    let dep = match manifest.find(name) {
        Some(d) => d.copy(),
        None => {
            proof {
                lemma_first_where_is(
                    views(manifest.flows@),
                    called(name@),
                    manifest.flows@.len() as int,
                );
            }
            let mut s = "no workflow named '".to_string();
            s.append(name);
            s.append("' in ");
            s.append(path);
            return Err(s);
        },
    };
    let mut store = Store::open(
        Vec::new(),
        Vec::new(),
        Vec::new(),
        Vec::new(),
        Vec::new(),
        Vec::new(),
        Vec::new(),
    );
    assert(store@ =~~= (StoreV { tables: Tables::empty(), changes: Seq::empty() }));
    store.upsert_deployment(&dep);
    let mut worker = Worker::new(store, root.to_string());
    let shown = dep.copy();
    match worker.trigger_with(dep, "manual", params, None, token, now) {
        Ok(id) => Ok((worker, id)),
        Err(e) => Err(e.message(&shown)),
    }
}

/// What is said before a single workflow runs.
pub fn oneshot_banner(name: &str) -> (r: String)
    ensures
        r@ == "running '"@ + name@ + "' (one-shot)…\n"@,
{
    let mut s = "running '".to_string();
    s.append(name);
    s.append("' (one-shot)…\n");
    s
}

/// Whether an envelope tells that its workflow has ended.
pub open spec fn tells_end(env: EnvelopeV) -> bool {
    env.kind == "event"@ && (env.payload.at("type"@).string() == Some("workflow_success"@)
        || env.payload.at("type"@).string() == Some("workflow_failure"@))
}

/// What to print of an envelope while a single workflow runs, and whether it is the
/// last: nothing of another workflow's.
pub fn oneshot_envelope(env: &Envelope, id: &str) -> (r: Option<(String, bool)>)
    ensures
        match r {
            Some(p) => env@.workflow_id == id@ && p.0@ == envelope_text(env@) && p.1 == tells_end(
                env@,
            ),
            None => env@.workflow_id != id@,
        },
{
    if !str_eq(env.workflow_id.as_str(), id) {
        return None;
    }
    let done = str_eq(env.kind.as_str(), "event") && match env.payload.get("type") {
        Some(v) => match v.as_str() {
            Some(s) => str_eq(s.as_str(), "workflow_success") || str_eq(
                s.as_str(),
                "workflow_failure",
            ),
            None => false,
        },
        None => false,
    };
    Some((format_envelope(env), done))
}

/// Whether a single workflow is over, as far as the store knows.
pub fn oneshot_over(wf: &Option<Workflow>) -> (r: bool)
    ensures
        r == match opt(*wf) {
            Some(w) => w.status != "running"@,
            None => false,
        },
{
    match wf {
        Some(w) => !str_eq(w.status.as_str(), "running"),
        None => false,
    }
}

/// A step in the summary of a single workflow.
pub open spec fn summary_line(st: StepViewV) -> Seq<char> {
    "  #"@ + padded(decimal_of(st.seq as int), 3) + " "@ + padded(st.name, 16) + " "@ + padded(
        st.status,
        9,
    ) + " "@ + duration_text(
        match st.duration_ms {
            Some(n) => Some(n as int),
            None => None,
        },
    ) + if st.status == "skipped"@ {
        " (resumed from journal)"@
    } else {
        ""@
    }
}

/// The summary of a single workflow.
pub open spec fn summary_text(wf: WorkflowV, steps: Seq<StepViewV>) -> Seq<Seq<char>> {
    seq![
        "\n── summary ─────────────────────────"@,
        "workflow "@ + wf.id + "  status="@ + wf.status + "  attempts="@ + decimal_of(
            wf.attempts as int,
        ),
    ] + Seq::new(steps.len(), |i: int| summary_line(steps[i]))
}

/// The summary of a single workflow, line by line, and whether it succeeded.
pub fn summary(wf: &Workflow, steps: &Vec<StepView>) -> (r: (Vec<String>, bool))
    ensures
        views(r.0@) == summary_text(wf@, views(steps@)),
        r.1 == (wf@.status == "success"@),
{
    broadcast use lemma_views_push;

    let mut a = "workflow ".to_string();
    a.append(wf.id.as_str());
    a.append("  status=");
    a.append(wf.status.as_str());
    a.append("  attempts=");
    a.append(decimal(wf.attempts).as_str());
    let mut r: Vec<String> = Vec::new();
    r.push("\n── summary ─────────────────────────".to_string());
    r.push(a);
    let ghost head = views(r@);
    let ghost shown = Seq::new(steps@.len(), |i: int| summary_line(views(steps@)[i]));
    assert(head =~= summary_text(wf@, Seq::empty()));
    let mut i: usize = 0;
    assert(views(r@) =~= head + shown.take(0));
    while i < steps.len()
        invariant
            i <= steps@.len(),
            shown == Seq::new(steps@.len(), |i: int| summary_line(views(steps@)[i])),
            views(r@) == head + shown.take(i as int),
        decreases steps@.len() - i,
    {
        proof {
            lemma_take_step(shown, i as int);
            assert((head + shown.take(i as int)).push(shown[i as int]) =~= head + shown.take(
                i as int,
            ).push(shown[i as int]));
        }
        let st = &steps[i];
        let mut s = "  #".to_string();
        s.append(pad(decimal(st.seq).as_str(), 3).as_str());
        s.append(" ");
        s.append(pad(st.name.as_str(), 16).as_str());
        s.append(" ");
        s.append(pad(st.status.as_str(), 9).as_str());
        s.append(" ");
        s.append(duration(st.duration_ms).as_str());
        if str_eq(st.status.as_str(), "skipped") {
            s.append(" (resumed from journal)");
        } else {
            s.append("");
        }
        assert(s@ == shown[i as int]);
        r.push(s);
        i = i + 1;
    }
    assert(shown.take(steps@.len() as int) =~= shown);
    (r, str_eq(wf.status.as_str(), "success"))
}

// ---------------------------------------------------------------------------
// Laws
// ---------------------------------------------------------------------------

/// A single workflow of a manifest always starts: nothing on its own store stands in
/// its way.
pub proof fn law_oneshot_starts(
    root: Seq<char>,
    dep: DeploymentV,
    cmd: Seq<char>,
    params: JsonV,
    token: Seq<char>,
    now: Seq<char>,
)
    ensures
        oneshot_worker(root, dep, cmd).triggered(dep, "manual"@, params, None, token, now).1 is Ok,
{
    let w = oneshot_worker(root, dep, cmd);
    assert(w.store.tables.workflows =~= Seq::empty());
    reveal(Seq::filter);
}

} // verus!

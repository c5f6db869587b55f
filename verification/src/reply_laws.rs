//! What clients are told: the values that replies hold, and the lists that they get.

use vstd::prelude::*;
use crate::api::{
    backlog_of, deployment_json, deployments_json, event_json, events_json, flow_triggered,
    is_backlog, knows, log_json, logs_json, step_json, steps_json, time_keys, workflow_json,
    workflows_json, wrapped,
};
use crate::cli::{entries, event_of, is_timeline, log_of, params_of};
use crate::config::DeploymentV;
use crate::journal_laws::{shown_events, shown_logs};
use crate::json::{lemma_with_member_lookup, lookup, named, JsonV, Members};
use crate::laws::is_keyed;
use crate::order::{is_order, pick};
use crate::protocol::EnvelopeV;
use crate::rows::WorkflowRowV;
use crate::store::{LogLineV, StepViewV, WorkflowV};
use crate::tables::{
    created_keys, deployment_of, is_listing, workflow_of, workflows_of, EventItem, Tables,
};
use crate::text::{first_where, lemma_first_where, lemma_first_where_is, lex_less};
use crate::worker::WorkerV;

verus! {

// ---------------------------------------------------------------------------
// Values
// ---------------------------------------------------------------------------

proof fn lemma_member(m: Members, k: int)
    requires
        0 <= k < m.len(),
        forall|j: int| 0 <= j < k ==> (#[trigger] m[j]).0 != m[k].0,
    ensures
        JsonV::Obj(m).field(m[k].0) == Some(m[k].1),
{
    let p = named(m[k].0);
    assert forall|j: int| 0 <= j < k implies !p(#[trigger] m[j]) by {
        assert(m[j].0 != m[k].0);
    }
    lemma_first_where_is(m, p, k);
}

/// A member of an object is the first of its name.
pub proof fn law_member_is_the_first(m: Members, k: int)
    requires
        0 <= k < m.len(),
        forall|j: int| 0 <= j < k ==> (#[trigger] m[j]).0 != m[k].0,
    ensures
        lookup(m, m[k].0) == Some(m[k].1),
{
    lemma_member(m, k);
}

/// A name that an object does not have has no value.
pub proof fn law_missing_member_is_none(m: Members, name: Seq<char>)
    requires
        forall|j: int| 0 <= j < m.len() ==> (#[trigger] m[j]).0 != name,
    ensures
        lookup(m, name) is None,
        JsonV::Obj(m).field(name) is None,
{
    let p = named(name);
    assert forall|j: int| 0 <= j < m.len() implies !p(#[trigger] m[j]) by {
        assert(m[j].0 != name);
    }
    lemma_first_where_is(m, p, m.len() as int);
}

proof fn lemma_workflow_names()
    ensures
        "id"@.len() == 2,
        "deployment"@.len() == 10,
        "trigger"@.len() == 7,
        "status"@.len() == 6,
        "output"@.len() == 6,
        "error"@.len() == 5,
        "attempts"@.len() == 8,
        "wake_at"@.len() == 7,
        "created_at"@.len() == 10,
        "finished_at"@.len() == 11,
        "trigger"@ != "wake_at"@,
        "status"@ != "output"@,
        "deployment"@ != "created_at"@,
{
    reveal_strlit("id");
    reveal_strlit("deployment");
    reveal_strlit("trigger");
    reveal_strlit("status");
    reveal_strlit("output");
    reveal_strlit("error");
    reveal_strlit("attempts");
    reveal_strlit("wake_at");
    reveal_strlit("created_at");
    reveal_strlit("finished_at");
    assert("trigger"@[0] != "wake_at"@[0]);
    assert("status"@[0] != "output"@[0]);
    assert("deployment"@[0] != "created_at"@[0]);
}

/// A reply has of a workflow what is known of it: its id, its deployment, what started it,
/// its status, what it returned, why it failed, how often it was dispatched again, until
/// when it sleeps, and when it was submitted and ended. What is not known is null.
pub proof fn law_workflow_reply(w: WorkflowV)
    ensures
        ({
            let j = workflow_json(w);
            &&& j.field("id"@) == Some(JsonV::Str(w.id))
            &&& j.field("deployment"@) == Some(JsonV::Str(w.deployment))
            &&& j.field("trigger"@) == Some(JsonV::Str(w.trigger))
            &&& j.field("status"@) == Some(JsonV::Str(w.status))
            &&& j.field("output"@) == Some(
                match w.output {
                    Some(v) => v,
                    None => JsonV::Null,
                },
            )
            &&& j.field("error"@) == Some(
                match w.error {
                    Some(e) => JsonV::Str(e),
                    None => JsonV::Null,
                },
            )
            &&& j.field("attempts"@) == Some(JsonV::Int(w.attempts as int))
            &&& j.field("wake_at"@) == Some(
                match w.wake_at {
                    Some(k) => JsonV::Real(k as int),
                    None => JsonV::Null,
                },
            )
            &&& j.field("created_at"@) == Some(JsonV::Str(w.created_at))
            &&& j.field("finished_at"@) == Some(
                match w.finished_at {
                    Some(e) => JsonV::Str(e),
                    None => JsonV::Null,
                },
            )
        }),
{
    lemma_workflow_names();
    let m = workflow_json(w)->Obj_0;
    lemma_member(m, 0);
    lemma_member(m, 1);
    lemma_member(m, 2);
    lemma_member(m, 3);
    lemma_member(m, 4);
    lemma_member(m, 5);
    lemma_member(m, 6);
    lemma_member(m, 7);
    lemma_member(m, 8);
    lemma_member(m, 9);
}

proof fn lemma_deployment_names()
    ensures
        "name"@.len() == 4,
        "cmd"@.len() == 3,
        "cron"@.len() == 4,
        "timezone"@.len() == 8,
        "params"@.len() == 6,
        "catchup"@.len() == 7,
        "overlap"@.len() == 7,
        "enabled"@.len() == 7,
        "retries"@.len() == 7,
        "concurrency"@.len() == 11,
        "name"@ != "cron"@,
        "catchup"@ != "overlap"@,
        "catchup"@ != "enabled"@,
        "catchup"@ != "retries"@,
        "overlap"@ != "enabled"@,
        "overlap"@ != "retries"@,
        "enabled"@ != "retries"@,
{
    reveal_strlit("name");
    reveal_strlit("cmd");
    reveal_strlit("cron");
    reveal_strlit("timezone");
    reveal_strlit("params");
    reveal_strlit("catchup");
    reveal_strlit("overlap");
    reveal_strlit("enabled");
    reveal_strlit("retries");
    reveal_strlit("concurrency");
    assert("name"@[0] != "cron"@[0]);
    assert("catchup"@[0] != "overlap"@[0]);
    assert("catchup"@[0] != "enabled"@[0]);
    assert("catchup"@[0] != "retries"@[0]);
    assert("overlap"@[0] != "enabled"@[0]);
    assert("overlap"@[0] != "retries"@[0]);
    assert("enabled"@[0] != "retries"@[0]);
}

/// A reply has of a deployment what it was declared with.
pub proof fn law_deployment_reply(d: DeploymentV, i: int)
    ensures
        ({
            let j = deployment_json(d);
            &&& j.field("name"@) == Some(JsonV::Str(d.name))
            &&& j.field("cmd"@) matches Some(JsonV::Arr(v)) && v.len() == d.cmd.len() && (0 <= i
                < d.cmd.len() ==> v[i] == JsonV::Str(d.cmd[i]))
            &&& j.field("cron"@) == Some(
                match d.cron {
                    Some(e) => JsonV::Str(e),
                    None => JsonV::Null,
                },
            )
            &&& j.field("timezone"@) == Some(
                match d.timezone {
                    Some(e) => JsonV::Str(e),
                    None => JsonV::Null,
                },
            )
            &&& j.field("params"@) == Some(JsonV::Obj(d.params))
            &&& j.field("catchup"@) == Some(JsonV::Str(d.catchup))
            &&& j.field("overlap"@) == Some(JsonV::Str(d.overlap))
            &&& j.field("enabled"@) == Some(JsonV::Bool(d.enabled))
            &&& j.field("retries"@) == Some(JsonV::Int(d.retries as int))
            &&& j.field("concurrency"@) == Some(JsonV::Int(d.concurrency as int))
        }),
{
    lemma_deployment_names();
    let m = deployment_json(d)->Obj_0;
    lemma_member(m, 0);
    lemma_member(m, 1);
    lemma_member(m, 2);
    lemma_member(m, 3);
    lemma_member(m, 4);
    lemma_member(m, 5);
    lemma_member(m, 6);
    lemma_member(m, 7);
    lemma_member(m, 8);
    lemma_member(m, 9);
}

proof fn lemma_step_names()
    ensures
        "seq"@.len() == 3,
        "name"@.len() == 4,
        "status"@.len() == 6,
        "duration_ms"@.len() == 11,
        "error"@.len() == 5,
        "ts"@.len() == 2,
        "stream"@.len() == 6,
        "line"@.len() == 4,
        "type"@.len() == 4,
        "payload"@.len() == 7,
{
    reveal_strlit("seq");
    reveal_strlit("name");
    reveal_strlit("status");
    reveal_strlit("duration_ms");
    reveal_strlit("error");
    reveal_strlit("ts");
    reveal_strlit("stream");
    reveal_strlit("line");
    reveal_strlit("type");
    reveal_strlit("payload");
}

/// A reply has of a step, a log line and an event what is known of them.
pub proof fn law_step_log_and_event_replies(s: StepViewV, l: LogLineV, e: EventItem)
    ensures
        step_json(s).field("seq"@) == Some(JsonV::Int(s.seq as int)),
        step_json(s).field("name"@) == Some(JsonV::Str(s.name)),
        step_json(s).field("status"@) == Some(JsonV::Str(s.status)),
        step_json(s).field("duration_ms"@) == Some(
            match s.duration_ms {
                Some(k) => JsonV::Int(k as int),
                None => JsonV::Null,
            },
        ),
        step_json(s).field("error"@) == Some(
            match s.error {
                Some(x) => JsonV::Str(x),
                None => JsonV::Null,
            },
        ),
        log_json(l).field("ts"@) == Some(JsonV::Str(l.ts)),
        log_json(l).field("stream"@) == Some(JsonV::Str(l.stream)),
        log_json(l).field("line"@) == Some(JsonV::Str(l.line)),
        event_json(e).field("seq"@) == Some(JsonV::Int(e.0 as int)),
        event_json(e).field("ts"@) == Some(JsonV::Str(e.1)),
        event_json(e).field("type"@) == Some(JsonV::Str(e.2)),
        event_json(e).field("payload"@) == Some(e.3),
{
    lemma_step_names();
    let m = step_json(s)->Obj_0;
    lemma_member(m, 0);
    lemma_member(m, 1);
    lemma_member(m, 2);
    lemma_member(m, 3);
    lemma_member(m, 4);
    let n = log_json(l)->Obj_0;
    lemma_member(n, 0);
    lemma_member(n, 1);
    lemma_member(n, 2);
    let o = event_json(e)->Obj_0;
    lemma_member(o, 0);
    lemma_member(o, 1);
    lemma_member(o, 2);
    lemma_member(o, 3);
}

/// A reply that lists things has each of them, in order.
pub proof fn law_lists_have_each(
    ds: Seq<DeploymentV>,
    ws: Seq<WorkflowV>,
    ss: Seq<StepViewV>,
    ls: Seq<LogLineV>,
    es: Seq<EventItem>,
    i: int,
)
    ensures
        deployments_json(ds) matches JsonV::Arr(v) && v.len() == ds.len() && (0 <= i < ds.len()
            ==> v[i] == deployment_json(ds[i])),
        workflows_json(ws) matches JsonV::Arr(v) && v.len() == ws.len() && (0 <= i < ws.len()
            ==> v[i] == workflow_json(ws[i])),
        steps_json(ss) matches JsonV::Arr(v) && v.len() == ss.len() && (0 <= i < ss.len() ==> v[i]
            == step_json(ss[i])),
        logs_json(ls) matches JsonV::Arr(v) && v.len() == ls.len() && (0 <= i < ls.len() ==> v[i]
            == log_json(ls[i])),
        events_json(es) matches JsonV::Arr(v) && v.len() == es.len() && (0 <= i < es.len() ==> v[i]
            == event_json(es[i])),
{
}

/// A workflow can be asked for if there is one of that id, whatever became of it.
pub proof fn law_every_workflow_can_be_asked_for(w: WorkerV, id: Seq<char>)
    ensures
        knows(w, id) <==> exists|j: int|
            0 <= j < w.store.tables.workflows.len() && (
            #[trigger] w.store.tables.workflows[j]).id == id,
{
    let rows = w.store.tables.workflows;
    let p = crate::tables::workflow_with(id);
    lemma_first_where(rows, p);
    let i = first_where(rows, p);
    if i < rows.len() {
        assert(p(rows[i]));
        assert(rows[i].id == id);
    } else if exists|j: int| 0 <= j < rows.len() && (#[trigger] rows[j]).id == id {
        let j = choose|j: int| 0 <= j < rows.len() && (#[trigger] rows[j]).id == id;
        assert(!p(rows[j]));
    }
}

/// A reply has what it holds under the name of that.
pub proof fn law_reply_is_named(name: Seq<char>, j: JsonV)
    ensures
        wrapped(name, j).field(name) == Some(j),
{
    lemma_member(seq![(name, j)], 0);
}

// ---------------------------------------------------------------------------
// Submission over HTTP
// ---------------------------------------------------------------------------

/// A submission of a flow that is not there is answered as not found, and changes nothing.
pub proof fn law_unknown_flow_is_refused(
    w: WorkerV,
    name: Seq<char>,
    params: JsonV,
    id: Option<Seq<char>>,
    token: Seq<char>,
    now: Seq<char>,
)
    requires
        forall|j: int|
            0 <= j < w.store.tables.deployments.len() ==> (
            #[trigger] w.store.tables.deployments[j]).name != name,
    ensures
        flow_triggered(w, name, params, id, token, now).0 == w,
        flow_triggered(w, name, params, id, token, now).1 matches Err(e) && e.code == 404,
{
    let p = crate::tables::deployment_named(name);
    let rows = w.store.tables.deployments;
    assert forall|j: int| 0 <= j < rows.len() implies !p(#[trigger] rows[j]) by {
        assert(rows[j].name != name);
    }
    lemma_first_where_is(rows, p, rows.len() as int);
}

/// A submission that is accepted is answered with the id of its workflow, and one that is
/// refused with a conflict; what it does is what a manual submission of that deployment
/// does.
pub proof fn law_submission_is_answered(
    w: WorkerV,
    j: int,
    dep: DeploymentV,
    params: JsonV,
    id: Option<Seq<char>>,
    token: Seq<char>,
    now: Seq<char>,
)
    requires
        is_keyed(w.store.tables),
        0 <= j < w.store.tables.deployments.len(),
        deployment_of(w.store.tables.deployments[j]) == Some(dep),
    ensures
        ({
            let name = w.store.tables.deployments[j].name;
            let (v, reply) = flow_triggered(w, name, params, id, token, now);
            let (u, r) = w.triggered(dep, "manual"@, params, id, token, now);
            &&& v == u
            &&& match r {
                Ok(wid) => reply matches Ok(x) && x.field("workflow_id"@) == Some(JsonV::Str(wid)),
                Err(_) => reply matches Err(e) && e.code == 409,
            }
        }),
{
    let rows = w.store.tables.deployments;
    let p = crate::tables::deployment_named(rows[j].name);
    assert forall|k: int| 0 <= k < j implies !p(#[trigger] rows[k]) by {
        assert(rows[k].name != rows[j].name);
    }
    lemma_first_where_is(rows, p, j);
    let r = w.triggered(dep, "manual"@, params, id, token, now).1;
    if let Ok(wid) = r {
        lemma_member(seq![("workflow_id"@, JsonV::Str(wid))], 0);
    }
}

// ---------------------------------------------------------------------------
// Lists
// ---------------------------------------------------------------------------

proof fn lemma_picked<T>(s: Seq<T>, keys: Seq<crate::order::Key>, o: Seq<int>, i: int) -> (a: int)
    requires
        is_order(keys, o),
        keys.len() == s.len(),
        0 <= i < s.len(),
    ensures
        0 <= a < pick(s, o).len(),
        pick(s, o)[a] == s[i],
        o[a] == i,
{
    assert(o.contains(i));
    choose|a: int| 0 <= a < o.len() && o[a] == i
}

/// The listing of workflows has as many as there are, but no more than the limit; youngest
/// first. Each is that of a row, and one that is left out is not younger than one that is
/// listed.
pub proof fn law_listing_is_the_youngest(
    rows: Seq<WorkflowRowV>,
    limit: int,
    ws: Seq<WorkflowV>,
    a: int,
    b: int,
    i: int,
)
    requires
        is_listing(rows, limit, ws),
    ensures
        ws.len() == if limit < 0 || limit > rows.len() {
            rows.len() as int
        } else {
            limit
        },
        0 <= a < b < ws.len() ==> !lex_less(ws[a].created_at, ws[b].created_at),
        0 <= a < ws.len() ==> exists|j: int|
            0 <= j < rows.len() && workflow_of(#[trigger] rows[j]) == ws[a],
        0 <= i < rows.len() && 0 <= a < ws.len() && !ws.contains(workflow_of(rows[i])) ==> !lex_less(
            ws[a].created_at,
            rows[i].created_at,
        ),
{
    let all = workflows_of(rows);
    let keys = created_keys(all);
    let n = if limit < 0 || limit > rows.len() {
        rows.len() as int
    } else {
        limit
    };
    let s = choose|s: Seq<WorkflowV>| #[trigger]
        crate::order::is_sorted_by(all, keys, s) && ws == s.reverse().take(n);
    let o = choose|o: Seq<int>| is_order(keys, o) && s == #[trigger] pick(all, o);
    assert(s.len() == rows.len());
    if 0 <= a < ws.len() {
        let x = s.len() - 1 - a;
        assert(ws[a] == s[x]);
        assert(0 <= o[x] < keys.len());
        assert(workflow_of(rows[o[x]]) == ws[a]);
        if a < b < ws.len() {
            let y = s.len() - 1 - b;
            assert(ws[b] == s[y]);
            assert(0 <= o[y] < keys.len());
            crate::order::lemma_before_differs(keys, o[y], o[x]);
        }
        if 0 <= i < rows.len() && !ws.contains(workflow_of(rows[i])) {
            let k = lemma_picked(all, keys, o, i);
            if k >= s.len() - n {
                assert(ws[s.len() - 1 - k] == workflow_of(rows[i]));
            }
            crate::order::lemma_before_differs(keys, o[k], o[x]);
        }
    }
}

/// A client that follows a workflow is sent every event and every log line that is known of
/// it, each once, as they are shown, in the order of their times, and of their numbers at
/// one time.
pub proof fn law_backlog_is_a_timeline(
    t: Tables,
    id: Seq<char>,
    r: Seq<EnvelopeV>,
    a: int,
    b: int,
    i: int,
)
    requires
        is_backlog(id, shown_events(t, id), shown_logs(t, id), r),
    ensures
        r.len() == shown_events(t, id).len() + shown_logs(t, id).len(),
        0 <= a < b < r.len() ==> !lex_less(r[b].ts, r[a].ts) && (r[a].ts == r[b].ts ==> r[a].seq
            <= r[b].seq),
        0 <= a < r.len() ==> r[a].workflow_id == id,
        0 <= i < shown_events(t, id).len() ==> exists|k: int|
            0 <= k < r.len() && is_event_envelope(#[trigger] r[k], shown_events(t, id)[i]),
        0 <= i < shown_logs(t, id).len() ==> exists|k: int|
            0 <= k < r.len() && is_log_envelope(#[trigger] r[k], shown_logs(t, id)[i]),
{
    let es = shown_events(t, id);
    let ls = shown_logs(t, id);
    let all = backlog_of(id, es, ls);
    let keys = time_keys(all);
    let o = choose|o: Seq<int>| is_order(keys, o) && r == #[trigger] pick(all, o);
    if 0 <= a < r.len() {
        assert(0 <= o[a] < keys.len());
    }
    if 0 <= a < b < r.len() {
        assert(0 <= o[b] < keys.len());
        crate::order::lemma_before_differs(keys, o[a], o[b]);
    }
    if 0 <= i < es.len() {
        let k = lemma_picked(all, keys, o, i);
        assert(is_event_envelope(r[k], es[i]));
    }
    if 0 <= i < ls.len() {
        let k = lemma_picked(all, keys, o, es.len() + i);
        assert(is_log_envelope(r[k], ls[i]));
    }
}

/// Whether an envelope tells an event.
pub open spec fn is_event_envelope(e: EnvelopeV, item: EventItem) -> bool {
    e.kind == "event"@ && e.seq == item.0 && e.ts == item.1 && e.payload == item.3
}

/// Whether an envelope tells a log line.
pub open spec fn is_log_envelope(e: EnvelopeV, l: LogLineV) -> bool {
    e.kind == "log"@ && e.ts == l.ts && e.payload == JsonV::Obj(
        seq![("stream"@, JsonV::Str(l.stream)), ("line"@, JsonV::Str(l.line))],
    )
}

/// The merged timeline has every event and every log line that was read, each once, in the
/// order of their times, and of their numbers at one time.
pub proof fn law_timeline_has_everything(
    id: Seq<char>,
    es: Seq<JsonV>,
    ls: Seq<JsonV>,
    r: Seq<EnvelopeV>,
    a: int,
    b: int,
    i: int,
)
    requires
        is_timeline(id, es, ls, r),
    ensures
        r.len() == es.len() + ls.len(),
        0 <= a < b < r.len() ==> !lex_less(r[b].ts, r[a].ts) && (r[a].ts == r[b].ts ==> r[a].seq
            <= r[b].seq),
        0 <= a < r.len() ==> r[a].workflow_id == id,
        0 <= i < es.len() ==> exists|k: int|
            0 <= k < r.len() && (#[trigger] r[k]).kind == "event"@ && r[k].ts == es[i].field_text(
                "ts"@,
                ""@,
            ) && r[k].payload == es[i].at("payload"@),
        0 <= i < ls.len() ==> exists|k: int|
            0 <= k < r.len() && (#[trigger] r[k]).kind == "log"@ && r[k].ts == ls[i].field_text(
                "ts"@,
                ""@,
            ) && r[k].payload == ls[i],
{
    let all = entries(id, es, ls);
    let keys = time_keys(all);
    let o = choose|o: Seq<int>| is_order(keys, o) && r == #[trigger] pick(all, o);
    if 0 <= a < r.len() {
        assert(0 <= o[a] < keys.len());
    }
    if 0 <= a < b < r.len() {
        assert(0 <= o[b] < keys.len());
        crate::order::lemma_before_differs(keys, o[a], o[b]);
    }
    if 0 <= i < es.len() {
        let k = lemma_picked(all, keys, o, i);
        assert(r[k] == event_of(id, es[i]));
    }
    if 0 <= i < ls.len() {
        let k = lemma_picked(all, keys, o, es.len() + i);
        assert(r[k] == log_of(id, ls[i]));
    }
}

// ---------------------------------------------------------------------------
// Parameters
// ---------------------------------------------------------------------------

/// A parameter that is given on the command line as a name, an equals sign and a value is
/// handed on as that text under that name, over what was given before; the others stay. What
/// has no equals sign is passed over.
pub proof fn law_parameters_are_named(
    pairs: Seq<Seq<char>>,
    k: Seq<char>,
    v: Seq<char>,
    other: Seq<char>,
)
    requires
        forall|i: int| 0 <= i < k.len() ==> #[trigger] k[i] != '=',
    ensures
        lookup(params_of(pairs.push(k + seq!['='] + v)), other) == if other == k {
            Some(JsonV::Str(v))
        } else {
            lookup(params_of(pairs), other)
        },
        params_of(pairs.push(k)) == params_of(pairs),
        params_of(Seq::empty()).len() == 0,
{
    crate::cron_laws::law_cut_at_the_first(k, '=', v);
    let t = k + seq!['='] + v;
    assert(pairs.push(t).drop_last() =~= pairs);
    assert(pairs.push(k).drop_last() =~= pairs);
    lemma_with_member_lookup(params_of(pairs), k, JsonV::Str(v), other);
}

} // verus!

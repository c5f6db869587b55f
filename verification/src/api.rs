//! The control plane: what each request of a client is answered.

use vstd::prelude::*;
use crate::config::{Deployment, DeploymentV};
use crate::json::{
    copy_members, lemma_arr_view, lemma_obj_view, members, no_members, object, opt_text,
    opt_text_of, push_member, text_value, Json, JsonV, Members,
};
use crate::laws::{
    comes_from, law_other_changes_are_told, lemma_comes_from_self, lemma_comes_from_trans,
};
use crate::order::{
    indices, is_order, is_sorted_by, key_views, lemma_key_views_push, order_by, pick, Key,
};
use crate::protocol::{opt_real, opt_real_of, Envelope, EnvelopeV};
use crate::rows::DeploymentRowV;
use crate::store::{LogLine, LogLineV, StepView, StepViewV, StoreError, Workflow, WorkflowV};
use crate::tables::{
    deployment_of, event_items, events_of, is_decoded, is_listing, is_state, is_step_list, log_lines,
    logs_of, name_keys, EventItem,
};
use crate::text::{lemma_take_step, lemma_views_push, opt, str_eq, views};
use crate::worker::{is_token, token, Worker, WorkerV};
use crate::workflow_laws::{law_trigger_is_told, law_waking_is_told};

verus! {

// ---------------------------------------------------------------------------
// Errors
// ---------------------------------------------------------------------------

/// An answer that refuses a request: its status code and its message.
#[derive(Debug, PartialEq)]
pub struct ApiError {
    pub code: u16,
    pub msg: String,
}

/// The mathematical value of an [`ApiError`].
#[verifier::ext_equal]
pub struct ApiErrorV {
    pub code: u16,
    pub msg: Seq<char>,
}

impl View for ApiError {
    type V = ApiErrorV;

    open spec fn view(&self) -> ApiErrorV {
        ApiErrorV { code: self.code, msg: self.msg@ }
    }
}

impl ApiErrorV {
    /// There is no workflow of that id.
    pub open spec fn no_workflow(id: Seq<char>) -> ApiErrorV {
        ApiErrorV { code: 404, msg: "no such workflow '"@ + id + "'"@ }
    }

    /// There is no deployment of that name.
    pub open spec fn no_flow(name: Seq<char>) -> ApiErrorV {
        ApiErrorV { code: 404, msg: "no such flow '"@ + name + "'"@ }
    }

    /// The store refuses.
    pub open spec fn store(e: StoreError) -> ApiErrorV {
        ApiErrorV { code: 500, msg: e.message_of() }
    }
}

impl ApiError {
    /// What is asked for is not there.
    pub fn not_found(msg: String) -> (r: ApiError)
        ensures
            r.code == 404,
            r.msg@ == msg@,
    {
        ApiError { code: 404, msg }
    }

    /// What is asked for cannot be done now.
    pub fn conflict(msg: String) -> (r: ApiError)
        ensures
            r.code == 409,
            r.msg@ == msg@,
    {
        ApiError { code: 409, msg }
    }

    /// The store refuses.
    pub fn internal(e: StoreError) -> (r: ApiError)
        ensures
            r@ == ApiErrorV::store(e),
    {
        ApiError { code: 500, msg: e.message() }
    }

    /// What was done could not be written.
    pub fn unwritten(msg: String) -> (r: ApiError)
        ensures
            r.code == 500,
            r.msg@ == msg@,
    {
        ApiError { code: 500, msg }
    }

    fn no_workflow(id: &str) -> (r: ApiError)
        ensures
            r@ == ApiErrorV::no_workflow(id@),
    {
        let mut s = "no such workflow '".to_string();
        s.append(id);
        s.append("'");
        ApiError::not_found(s)
    }

    fn no_flow(name: &str) -> (r: ApiError)
        ensures
            r@ == ApiErrorV::no_flow(name@),
    {
        let mut s = "no such flow '".to_string();
        s.append(name);
        s.append("'");
        ApiError::not_found(s)
    }

    /// The body of the answer.
    pub fn body(&self) -> (r: Json)
        ensures
            r@ == JsonV::Obj(seq![("error"@, JsonV::Str(self.msg@))]),
    {
        let mut m = no_members();
        push_member(&mut m, "error", text_value(self.msg.as_str()));
        let r = object(m);
        assert(r@->Obj_0 =~= seq![("error"@, JsonV::Str(self.msg@))]);
        r
    }
}

/// The value of an answer: its body, or why it is refused.
pub open spec fn reply(r: Result<Json, ApiError>) -> Result<JsonV, ApiErrorV> {
    match r {
        Ok(j) => Ok(j@),
        Err(e) => Err(e@),
    }
}

// ---------------------------------------------------------------------------
// Values as JSON
// ---------------------------------------------------------------------------

/// A list of texts.
pub open spec fn texts_json(v: Seq<Seq<char>>) -> JsonV {
    JsonV::Arr(Seq::new(v.len(), |i: int| JsonV::Str(v[i])))
}

/// A whole number that may be absent.
pub open spec fn opt_int_of(n: Option<i64>) -> JsonV {
    match n {
        Some(k) => JsonV::Int(k as int),
        None => JsonV::Null,
    }
}

/// A value that may be absent.
pub open spec fn opt_json_of(j: Option<JsonV>) -> JsonV {
    match j {
        Some(v) => v,
        None => JsonV::Null,
    }
}

/// A deployment as clients see it.
pub open spec fn deployment_json(d: DeploymentV) -> JsonV {
    JsonV::Obj(
        seq![
            ("name"@, JsonV::Str(d.name)),
            ("cmd"@, texts_json(d.cmd)),
            ("cron"@, opt_text_of(d.cron)),
            ("timezone"@, opt_text_of(d.timezone)),
            ("params"@, JsonV::Obj(d.params)),
            ("catchup"@, JsonV::Str(d.catchup)),
            ("overlap"@, JsonV::Str(d.overlap)),
            ("enabled"@, JsonV::Bool(d.enabled)),
            ("retries"@, JsonV::Int(d.retries as int)),
            ("concurrency"@, JsonV::Int(d.concurrency as int)),
        ],
    )
}

/// A workflow as clients see it: without its input and its version.
pub open spec fn workflow_json(w: WorkflowV) -> JsonV {
    JsonV::Obj(
        seq![
            ("id"@, JsonV::Str(w.id)),
            ("deployment"@, JsonV::Str(w.deployment)),
            ("trigger"@, JsonV::Str(w.trigger)),
            ("status"@, JsonV::Str(w.status)),
            ("output"@, opt_json_of(w.output)),
            ("error"@, opt_text_of(w.error)),
            ("attempts"@, JsonV::Int(w.attempts as int)),
            ("wake_at"@, opt_real_of(w.wake_at)),
            ("created_at"@, JsonV::Str(w.created_at)),
            ("finished_at"@, opt_text_of(w.finished_at)),
        ],
    )
}

/// A step as clients see it.
pub open spec fn step_json(s: StepViewV) -> JsonV {
    JsonV::Obj(
        seq![
            ("seq"@, JsonV::Int(s.seq as int)),
            ("name"@, JsonV::Str(s.name)),
            ("status"@, JsonV::Str(s.status)),
            ("duration_ms"@, opt_int_of(s.duration_ms)),
            ("error"@, opt_text_of(s.error)),
        ],
    )
}

/// A log line as clients see it.
pub open spec fn log_json(l: LogLineV) -> JsonV {
    JsonV::Obj(
        seq![
            ("ts"@, JsonV::Str(l.ts)),
            ("stream"@, JsonV::Str(l.stream)),
            ("line"@, JsonV::Str(l.line)),
        ],
    )
}

/// An event as clients see it.
pub open spec fn event_json(e: EventItem) -> JsonV {
    JsonV::Obj(
        seq![
            ("seq"@, JsonV::Int(e.0 as int)),
            ("ts"@, JsonV::Str(e.1)),
            ("type"@, JsonV::Str(e.2)),
            ("payload"@, e.3),
        ],
    )
}

/// An object with one member.
pub open spec fn wrapped(name: Seq<char>, j: JsonV) -> JsonV {
    JsonV::Obj(seq![(name, j)])
}

fn wrap(name: &str, j: Json) -> (r: Json)
    ensures
        r@ == wrapped(name@, j@),
{
    let ghost v = j@;
    let mut m = no_members();
    push_member(&mut m, name, j);
    let r = object(m);
    assert(r@->Obj_0 =~= seq![(name@, v)]);
    r
}

fn opt_int(n: &Option<i64>) -> (r: Json)
    ensures
        r@ == opt_int_of(*n),
{
    match n {
        Some(k) => Json::Int(*k as i128),
        None => Json::Null,
    }
}

fn opt_value(j: &Option<Json>) -> (r: Json)
    ensures
        r@ == opt_json_of(opt(*j)),
{
    match j {
        Some(v) => v.copy(),
        None => Json::Null,
    }
}

fn texts_value(v: &Vec<String>) -> (r: Json)
    ensures
        r@ == texts_json(views(v@)),
{
    broadcast use {lemma_arr_view, lemma_views_push};

    let ghost all = texts_json(views(v@))->Arr_0;
    let mut out: Vec<Json> = Vec::new();
    let mut i: usize = 0;
    while i < v.len()
        invariant
            i <= v@.len(),
            all == texts_json(views(v@))->Arr_0,
            views(out@) == all.take(i as int),
        decreases v@.len() - i,
    {
        proof {
            lemma_take_step(all, i as int);
        }
        out.push(text_value(v[i].as_str()));
        i = i + 1;
    }
    assert(all.take(all.len() as int) =~= all);
    Json::Arr(out)
}

fn deployment_value(d: &Deployment) -> (r: Json)
    ensures
        r@ == deployment_json(d@),
{
    broadcast use lemma_obj_view;

    let mut m = no_members();
    push_member(&mut m, "name", text_value(d.name.as_str()));
    push_member(&mut m, "cmd", texts_value(&d.cmd));
    push_member(&mut m, "cron", opt_text(&d.cron));
    push_member(&mut m, "timezone", opt_text(&d.timezone));
    push_member(&mut m, "params", Json::Obj(copy_members(&d.params)));
    push_member(&mut m, "catchup", text_value(d.catchup.as_str()));
    push_member(&mut m, "overlap", text_value(d.overlap.as_str()));
    push_member(&mut m, "enabled", Json::Bool(d.enabled));
    push_member(&mut m, "retries", Json::Int(d.retries as i128));
    push_member(&mut m, "concurrency", Json::Int(d.concurrency as i128));
    assert(members(m@) =~= deployment_json(d@)->Obj_0);
    object(m)
}

fn workflow_value(w: &Workflow) -> (r: Json)
    ensures
        r@ == workflow_json(w@),
{
    let mut m = no_members();
    push_member(&mut m, "id", text_value(w.id.as_str()));
    push_member(&mut m, "deployment", text_value(w.deployment.as_str()));
    push_member(&mut m, "trigger", text_value(w.trigger.as_str()));
    push_member(&mut m, "status", text_value(w.status.as_str()));
    push_member(&mut m, "output", opt_value(&w.output));
    push_member(&mut m, "error", opt_text(&w.error));
    push_member(&mut m, "attempts", Json::Int(w.attempts as i128));
    push_member(&mut m, "wake_at", opt_real(&w.wake_at));
    push_member(&mut m, "created_at", text_value(w.created_at.as_str()));
    push_member(&mut m, "finished_at", opt_text(&w.finished_at));
    assert(members(m@) =~= workflow_json(w@)->Obj_0);
    object(m)
}

fn step_value(s: &StepView) -> (r: Json)
    ensures
        r@ == step_json(s@),
{
    let mut m = no_members();
    push_member(&mut m, "seq", Json::Int(s.seq as i128));
    push_member(&mut m, "name", text_value(s.name.as_str()));
    push_member(&mut m, "status", text_value(s.status.as_str()));
    push_member(&mut m, "duration_ms", opt_int(&s.duration_ms));
    push_member(&mut m, "error", opt_text(&s.error));
    assert(members(m@) =~= step_json(s@)->Obj_0);
    object(m)
}

fn log_value(l: &LogLine) -> (r: Json)
    ensures
        r@ == log_json(l@),
{
    let mut m = no_members();
    push_member(&mut m, "ts", text_value(l.ts.as_str()));
    push_member(&mut m, "stream", text_value(l.stream.as_str()));
    push_member(&mut m, "line", text_value(l.line.as_str()));
    assert(members(m@) =~= log_json(l@)->Obj_0);
    object(m)
}

fn event_value(e: &(i64, String, String, Json)) -> (r: Json)
    ensures
        r@ == event_json(e@),
{
    let mut m = no_members();
    push_member(&mut m, "seq", Json::Int(e.0 as i128));
    push_member(&mut m, "ts", text_value(e.1.as_str()));
    push_member(&mut m, "type", text_value(e.2.as_str()));
    push_member(&mut m, "payload", e.3.copy());
    assert(members(m@) =~= event_json(e@)->Obj_0);
    object(m)
}

/// Deployments as clients see them.
pub open spec fn deployments_json(ds: Seq<DeploymentV>) -> JsonV {
    JsonV::Arr(Seq::new(ds.len(), |i: int| deployment_json(ds[i])))
}

/// Workflows as clients see them.
pub open spec fn workflows_json(ws: Seq<WorkflowV>) -> JsonV {
    JsonV::Arr(Seq::new(ws.len(), |i: int| workflow_json(ws[i])))
}

/// Steps as clients see them.
pub open spec fn steps_json(ss: Seq<StepViewV>) -> JsonV {
    JsonV::Arr(Seq::new(ss.len(), |i: int| step_json(ss[i])))
}

/// Log lines as clients see them.
pub open spec fn logs_json(ls: Seq<LogLineV>) -> JsonV {
    JsonV::Arr(Seq::new(ls.len(), |i: int| log_json(ls[i])))
}

/// Events as clients see them.
pub open spec fn events_json(es: Seq<EventItem>) -> JsonV {
    JsonV::Arr(Seq::new(es.len(), |i: int| event_json(es[i])))
}

fn deployments_value(v: &Vec<Deployment>) -> (r: Json)
    ensures
        r@ == deployments_json(views(v@)),
{
    broadcast use {lemma_arr_view, lemma_views_push};

    let ghost all = deployments_json(views(v@))->Arr_0;
    let mut out: Vec<Json> = Vec::new();
    let mut i: usize = 0;
    while i < v.len()
        invariant
            i <= v@.len(),
            all == deployments_json(views(v@))->Arr_0,
            views(out@) == all.take(i as int),
        decreases v@.len() - i,
    {
        proof {
            lemma_take_step(all, i as int);
        }
        out.push(deployment_value(&v[i]));
        i = i + 1;
    }
    assert(all.take(all.len() as int) =~= all);
    Json::Arr(out)
}

fn workflows_value(v: &Vec<Workflow>) -> (r: Json)
    ensures
        r@ == workflows_json(views(v@)),
{
    broadcast use {lemma_arr_view, lemma_views_push};

    let ghost all = workflows_json(views(v@))->Arr_0;
    let mut out: Vec<Json> = Vec::new();
    let mut i: usize = 0;
    while i < v.len()
        invariant
            i <= v@.len(),
            all == workflows_json(views(v@))->Arr_0,
            views(out@) == all.take(i as int),
        decreases v@.len() - i,
    {
        proof {
            lemma_take_step(all, i as int);
        }
        out.push(workflow_value(&v[i]));
        i = i + 1;
    }
    assert(all.take(all.len() as int) =~= all);
    Json::Arr(out)
}

fn steps_value(v: &Vec<StepView>) -> (r: Json)
    ensures
        r@ == steps_json(views(v@)),
{
    broadcast use {lemma_arr_view, lemma_views_push};

    let ghost all = steps_json(views(v@))->Arr_0;
    let mut out: Vec<Json> = Vec::new();
    let mut i: usize = 0;
    while i < v.len()
        invariant
            i <= v@.len(),
            all == steps_json(views(v@))->Arr_0,
            views(out@) == all.take(i as int),
        decreases v@.len() - i,
    {
        proof {
            lemma_take_step(all, i as int);
        }
        out.push(step_value(&v[i]));
        i = i + 1;
    }
    assert(all.take(all.len() as int) =~= all);
    Json::Arr(out)
}

fn logs_value(v: &Vec<LogLine>) -> (r: Json)
    ensures
        r@ == logs_json(views(v@)),
{
    broadcast use {lemma_arr_view, lemma_views_push};

    let ghost all = logs_json(views(v@))->Arr_0;
    let mut out: Vec<Json> = Vec::new();
    let mut i: usize = 0;
    while i < v.len()
        invariant
            i <= v@.len(),
            all == logs_json(views(v@))->Arr_0,
            views(out@) == all.take(i as int),
        decreases v@.len() - i,
    {
        proof {
            lemma_take_step(all, i as int);
        }
        out.push(log_value(&v[i]));
        i = i + 1;
    }
    assert(all.take(all.len() as int) =~= all);
    Json::Arr(out)
}

fn events_value(v: &Vec<(i64, String, String, Json)>) -> (r: Json)
    ensures
        r@ == events_json(views(v@)),
{
    broadcast use {lemma_arr_view, lemma_views_push};

    let ghost all = events_json(views(v@))->Arr_0;
    let mut out: Vec<Json> = Vec::new();
    let mut i: usize = 0;
    while i < v.len()
        invariant
            i <= v@.len(),
            all == events_json(views(v@))->Arr_0,
            views(out@) == all.take(i as int),
        decreases v@.len() - i,
    {
        proof {
            lemma_take_step(all, i as int);
        }
        out.push(event_value(&v[i]));
        i = i + 1;
    }
    assert(all.take(all.len() as int) =~= all);
    Json::Arr(out)
}

// ---------------------------------------------------------------------------
// The requests
// ---------------------------------------------------------------------------

/// How many workflows a listing shows that names no limit.
pub fn default_limit() -> (r: i64)
    ensures
        r == 50,
{
    50
}

/// Whether a workflow is known.
pub open spec fn knows(w: WorkerV, id: Seq<char>) -> bool {
    w.store.tables.workflow(id) is Some
}

/// The state behind the control plane.
pub struct AppState {
    pub worker: Worker,
}

impl View for AppState {
    type V = WorkerV;

    open spec fn view(&self) -> WorkerV {
        self.worker@
    }
}

impl AppState {
    /// The durable state of a workflow, whether it runs, is parked or has ended.
    pub fn query_state(&self, id: &str) -> (r: Result<Json, ApiError>)
        ensures
            if knows(self@, id@) {
                exists|m: Members|
                    #[trigger] is_state(self@.store.tables.kv, id@, m) && reply(r) == Ok::<
                        JsonV,
                        ApiErrorV,
                    >(wrapped("state"@, JsonV::Obj(m)))
            } else {
                reply(r) == Err::<JsonV, ApiErrorV>(ApiErrorV::no_workflow(id@))
            },
    {
        broadcast use lemma_obj_view;

        if self.worker.store.get_workflow(id).is_none() {
            return Err(ApiError::no_workflow(id));
        }
        let state = self.worker.store.get_state(id);
        assert(is_state(self@.store.tables.kv, id@, members(state@)));
        Ok(wrap("state", Json::Obj(state)))
    }

    /// All deployments, sorted by name.
    pub fn list_flows(&self) -> (r: Result<Json, ApiError>)
        ensures
            match reply(r) {
                Ok(j) => exists|rows: Seq<DeploymentRowV>, ds: Seq<DeploymentV>|
                    #![trigger is_decoded(rows, ds)]
                    is_sorted_by(
                        self@.store.tables.deployments,
                        name_keys(self@.store.tables.deployments),
                        rows,
                    ) && is_decoded(rows, ds) && j == wrapped("flows"@, deployments_json(ds)),
                Err(e) => e == ApiErrorV::store(StoreError::Decode) && exists|i: int|
                    0 <= i < self@.store.tables.deployments.len() && deployment_of(
                        #[trigger] self@.store.tables.deployments[i],
                    ) is None,
            },
    {
        match self.worker.store.list_deployments() {
            Ok(ds) => {
                proof {
                    let all = self@.store.tables.deployments;
                    let rows = choose|rows: Seq<DeploymentRowV>|
                        #[trigger] is_sorted_by(all, name_keys(all), rows) && is_decoded(
                            rows,
                            views(ds@),
                        );
                    assert(is_decoded(rows, views(ds@)));
                }
                Ok(wrap("flows", deployments_value(&ds)))
            },
            Err(e) => {
                proof {
                    let all = self@.store.tables.deployments;
                    let i = choose|i: int|
                        0 <= i < all.len() && deployment_of(#[trigger] all[i]) is None;
                    assert(deployment_of(self@.store.tables.deployments[i]) is None);
                }
                Err(ApiError::internal(e))
            },
        }
    }

    /// Submits a workflow of a deployment, and tells its id. A workflow without an id
    /// gets a fresh one.
    pub fn trigger_flow(
        &mut self,
        name: &str,
        params: Json,
        id: Option<String>,
        now: &str,
    ) -> (r: Result<Json, ApiError>)
        ensures
            exists|t: Seq<char>|
                is_token(t) && (final(self)@, reply(r)) == #[trigger] flow_triggered(
                    old(self)@,
                    name@,
                    params@,
                    opt(id),
                    t,
                    now@,
                ),
    {
        let t = token();
        self.trigger_flow_with(name, params, id, t.as_str(), now)
    }

    /// Submits a workflow of a deployment that gets the id of a token if it has none.
    pub fn trigger_flow_with(
        &mut self,
        name: &str,
        params: Json,
        id: Option<String>,
        token: &str,
        now: &str,
    ) -> (r: Result<Json, ApiError>)
        requires
            is_token(token@),
        ensures
            (final(self)@, reply(r)) == flow_triggered(
                old(self)@,
                name@,
                params@,
                opt(id),
                token@,
                now@,
            ),
    {
        let dep = match self.worker.store.get_deployment(name) {
            Ok(Some(d)) => d,
            Ok(None) => {
                return Err(ApiError::no_flow(name));
            },
            Err(e) => {
                return Err(ApiError::internal(e));
            },
        };
        let shown = dep.copy();
        match self.worker.trigger_with(dep, "manual", params, id, token, now) {
            Ok(wid) => Ok(wrap("workflow_id", text_value(wid.as_str()))),
            Err(e) => Err(ApiError::conflict(e.message(&shown))),
        }
    }

    /// Sends a signal to a workflow, and wakes it if it waits.
    pub fn send_signal(&mut self, id: &str, name: &str, payload: &Json, now: &str) -> (r: Result<
        Json,
        ApiError,
    >)
        ensures
            (final(self)@, reply(r)) == signal_sent(old(self)@, id@, name@, payload@, now@),
    {
        if self.worker.store.get_workflow(id).is_none() {
            return Err(ApiError::no_workflow(id));
        }
        match self.worker.store.add_signal(id, name, payload, now) {
            Ok(_) => {},
            Err(e) => {
                return Err(ApiError::internal(e));
            },
        }
        self.worker.notify_signal(id, now);
        Ok(wrap("ok", Json::Bool(true)))
    }

    /// The youngest workflows, youngest first.
    pub fn list_workflows(&self, limit: i64) -> (r: Json)
        ensures
            exists|ws: Seq<WorkflowV>|
                #[trigger] is_listing(self@.store.tables.workflows, limit as int, ws) && r@
                    == wrapped("workflows"@, workflows_json(ws)),
    {
        let ws = self.worker.store.list_workflows(limit);
        assert(is_listing(self@.store.tables.workflows, limit as int, views(ws@)));
        wrap("workflows", workflows_value(&ws))
    }

    /// A workflow with its steps.
    pub fn get_workflow(&self, id: &str) -> (r: Result<Json, ApiError>)
        ensures
            match self@.store.tables.get_workflow(id@) {
                Some(w) => exists|ss: Seq<StepViewV>|
                    #[trigger] is_step_list(self@.store.tables.steps, id@, ss) && reply(r) == Ok::<
                        JsonV,
                        ApiErrorV,
                    >(
                        JsonV::Obj(
                            seq![("workflow"@, workflow_json(w)), ("steps"@, steps_json(ss))],
                        ),
                    ),
                None => reply(r) == Err::<JsonV, ApiErrorV>(ApiErrorV::no_workflow(id@)),
            },
    {
        let wf = match self.worker.store.get_workflow(id) {
            Some(w) => w,
            None => {
                return Err(ApiError::no_workflow(id));
            },
        };
        let steps = self.worker.store.list_steps(id);
        let ghost ss = views(steps@);
        let mut m = no_members();
        push_member(&mut m, "workflow", workflow_value(&wf));
        push_member(&mut m, "steps", steps_value(&steps));
        assert(members(m@) =~= seq![("workflow"@, workflow_json(wf@)), ("steps"@, steps_json(ss))]);
        assert(is_step_list(self@.store.tables.steps, id@, ss));
        Ok(object(m))
    }

    /// The events of a workflow, oldest first.
    pub fn get_events(&self, id: &str) -> (r: Json)
        ensures
            r@ == wrapped(
                "events"@,
                events_json(event_items(self@.store.tables.events.filter(events_of(id@)))),
            ),
    {
        wrap("events", events_value(&self.worker.store.get_events(id)))
    }

    /// The log lines of a workflow, oldest first.
    pub fn get_logs(&self, id: &str) -> (r: Json)
        ensures
            r@ == wrapped(
                "logs"@,
                logs_json(log_lines(self@.store.tables.logs.filter(logs_of(id@)))),
            ),
    {
        wrap("logs", logs_value(&self.worker.store.get_logs(id)))
    }

    /// What a client that follows a workflow is sent before anything new: its events
    /// and log lines, merged into one timeline. A log line has the number zero there.
    pub fn backlog(&self, id: &str) -> (r: Vec<Envelope>)
        ensures
            is_backlog(
                id@,
                event_items(self@.store.tables.events.filter(events_of(id@))),
                log_lines(self@.store.tables.logs.filter(logs_of(id@))),
                views(r@),
            ),
    {
        broadcast use {lemma_key_views_push, lemma_views_push};

        let events = self.worker.store.get_events(id);
        let logs = self.worker.store.get_logs(id);
        let ghost es = views(events@);
        let ghost ls = views(logs@);
        let ghost all = backlog_of(id@, es, ls);
        let mut list: Vec<Envelope> = Vec::new();
        let mut keys: Vec<(String, i64)> = Vec::new();
        let mut i: usize = 0;
        assert(key_views(keys@) =~= time_keys(all).take(0));
        assert(views(list@) =~= all.take(0));
        while i < events.len()
            invariant
                i <= events@.len(),
                es == views(events@),
                all == backlog_of(id@, es, ls),
                views(list@) == all.take(i as int),
                key_views(keys@) == time_keys(all).take(i as int),
            decreases events@.len() - i,
        {
            proof {
                lemma_take_step(all, i as int);
                lemma_take_step(time_keys(all), i as int);
            }
            let e = &events[i];
            assert(all[i as int] == event_envelope(id@, es[i as int]));
            list.push(
                Envelope {
                    workflow_id: id.to_string(),
                    seq: e.0,
                    ts: e.1.clone(),
                    kind: "event".to_string(),
                    payload: e.3.copy(),
                },
            );
            keys.push((e.1.clone(), e.0));
            i = i + 1;
        }
        let mut k: usize = 0;
        while k < logs.len()
            invariant
                k <= logs@.len(),
                ls == views(logs@),
                all == backlog_of(id@, es, ls),
                views(list@) == all.take(es.len() + k),
                key_views(keys@) == time_keys(all).take(es.len() + k),
            decreases logs@.len() - k,
        {
            proof {
                lemma_take_step(all, es.len() + k);
                lemma_take_step(time_keys(all), es.len() + k);
            }
            let l = &logs[k];
            assert(all[es.len() + k] == log_envelope(id@, ls[k as int]));
            let mut m = no_members();
            push_member(&mut m, "stream", text_value(l.stream.as_str()));
            push_member(&mut m, "line", text_value(l.line.as_str()));
            assert(members(m@) =~= log_envelope(id@, ls[k as int]).payload->Obj_0);
            list.push(
                Envelope {
                    workflow_id: id.to_string(),
                    seq: 0,
                    ts: l.ts.clone(),
                    kind: "log".to_string(),
                    payload: object(m),
                },
            );
            keys.push((l.ts.clone(), 0));
            k = k + 1;
        }
        assert(all.take(all.len() as int) =~= all);
        assert(time_keys(all).take(all.len() as int) =~= time_keys(all));
        let o = order_by(&keys);
        let mut r: Vec<Envelope> = Vec::new();
        let mut a: usize = 0;
        while a < o.len()
            invariant
                a <= o@.len(),
                all == views(list@),
                is_order(time_keys(all), indices(o@)),
                views(r@) == pick(all, indices(o@)).take(a as int),
            decreases o@.len() - a,
        {
            proof {
                lemma_take_step(pick(all, indices(o@)), a as int);
                assert(0 <= indices(o@)[a as int] < all.len());
            }
            let n: usize = o[a];
            r.push(list[n].copy());
            a = a + 1;
        }
        assert(pick(all, indices(o@)).take(o@.len() as int) =~= pick(all, indices(o@)));
        r
    }
}

/// What the submission of a workflow of a deployment comes to.
pub open spec fn flow_triggered(
    w: WorkerV,
    name: Seq<char>,
    params: JsonV,
    id: Option<Seq<char>>,
    token: Seq<char>,
    now: Seq<char>,
) -> (WorkerV, Result<JsonV, ApiErrorV>) {
    match w.store.tables.deployment(name) {
        None => (w, Err(ApiErrorV::no_flow(name))),
        Some(row) => match deployment_of(row) {
            None => (w, Err(ApiErrorV::store(StoreError::Decode))),
            Some(dep) => {
                let (v, r) = w.triggered(dep, "manual"@, params, id, token, now);
                (
                    v,
                    match r {
                        Ok(wid) => Ok(wrapped("workflow_id"@, JsonV::Str(wid))),
                        Err(e) => Err(ApiErrorV { code: 409, msg: e.message_of(dep) }),
                    },
                )
            },
        },
    }
}

/// What a signal comes to.
pub open spec fn signal_sent(
    w: WorkerV,
    id: Seq<char>,
    name: Seq<char>,
    payload: JsonV,
    now: Seq<char>,
) -> (WorkerV, Result<JsonV, ApiErrorV>) {
    if !knows(w, id) {
        (w, Err(ApiErrorV::no_workflow(id)))
    } else {
        match w.store.tables.next_signal() {
            None => (w, Err(ApiErrorV::store(StoreError::Full))),
            Some(k) => (
                w.with_store(w.store.signalled(k, id, name, payload, now)).signalled(id, now),
                Ok(wrapped("ok"@, JsonV::Bool(true))),
            ),
        }
    }
}

/// An event as it is sent to a client that follows its workflow.
pub open spec fn event_envelope(id: Seq<char>, e: EventItem) -> EnvelopeV {
    EnvelopeV { workflow_id: id, seq: e.0, ts: e.1, kind: "event"@, payload: e.3 }
}

/// A log line as it is sent to a client that follows its workflow.
pub open spec fn log_envelope(id: Seq<char>, l: LogLineV) -> EnvelopeV {
    EnvelopeV {
        workflow_id: id,
        seq: 0,
        ts: l.ts,
        kind: "log"@,
        payload: JsonV::Obj(
            seq![("stream"@, JsonV::Str(l.stream)), ("line"@, JsonV::Str(l.line))],
        ),
    }
}

/// The events and the log lines of a workflow.
pub open spec fn backlog_of(id: Seq<char>, es: Seq<EventItem>, ls: Seq<LogLineV>) -> Seq<EnvelopeV> {
    Seq::new(es.len(), |i: int| event_envelope(id, es[i])) + Seq::new(
        ls.len(),
        |i: int| log_envelope(id, ls[i]),
    )
}

/// The keys by which envelopes are sorted by time, and then by number.
pub open spec fn time_keys(s: Seq<EnvelopeV>) -> Seq<Key> {
    Seq::new(s.len(), |i: int| (s[i].ts, s[i].seq))
}

/// Whether `r` are the events and the log lines of a workflow, sorted by time, and
/// then by number.
pub open spec fn is_backlog(
    id: Seq<char>,
    es: Seq<EventItem>,
    ls: Seq<LogLineV>,
    r: Seq<EnvelopeV>,
) -> bool {
    let all = backlog_of(id, es, ls);
    is_sorted_by(all, time_keys(all), r)
}

/// Whether a client that follows a workflow is sent what the worker tells.
pub fn is_for(env: &Envelope, id: &str) -> (r: bool)
    ensures
        r == (env@.workflow_id == id@),
{
    str_eq(env.workflow_id.as_str(), id)
}

// ---------------------------------------------------------------------------
// Laws
// ---------------------------------------------------------------------------

/// A request for a workflow that is not there changes nothing.
pub proof fn law_unknown_is_refused(
    w: WorkerV,
    id: Seq<char>,
    name: Seq<char>,
    payload: JsonV,
    now: Seq<char>,
)
    requires
        !knows(w, id),
    ensures
        signal_sent(w, id, name, payload, now) == (
            w,
            Err::<JsonV, ApiErrorV>(ApiErrorV::no_workflow(id)),
        ),
{
}

/// Everything that a request does is told as changes.
pub proof fn law_request_is_told(
    w: WorkerV,
    name: Seq<char>,
    params: JsonV,
    id: Option<Seq<char>>,
    token: Seq<char>,
    wid: Seq<char>,
    payload: JsonV,
    now: Seq<char>,
)
    ensures
        comes_from(w.store, flow_triggered(w, name, params, id, token, now).0.store),
        comes_from(w.store, signal_sent(w, wid, name, payload, now).0.store),
{
    lemma_comes_from_self(w.store);
    if let Some(row) = w.store.tables.deployment(name) {
        if let Some(dep) = deployment_of(row) {
            law_trigger_is_told(w, dep, "manual"@, params, id, token, now);
        }
    }
    if let Some(k) = w.store.tables.next_signal() {
        law_other_changes_are_told(
            w.store,
            arbitrary(),
            arbitrary(),
            wid,
            name,
            payload,
            name,
            name,
            now,
        );
        let v = w.with_store(w.store.signalled(k, wid, name, payload, now));
        law_waking_is_told(v, Seq::empty(), wid, now);
        lemma_comes_from_trans(w.store, v.store, v.signalled(wid, now).store);
    }
}

/// A submission that is refused is answered with a conflict, and starts nothing.
pub proof fn law_refused_is_conflict(
    w: WorkerV,
    name: Seq<char>,
    params: JsonV,
    id: Option<Seq<char>>,
    token: Seq<char>,
    now: Seq<char>,
)
    requires
        w.store.tables.deployment(name) matches Some(row) && deployment_of(row) matches Some(dep)
            && w.triggered(dep, "manual"@, params, id, token, now).1 is Err,
    ensures
        flow_triggered(w, name, params, id, token, now).1 matches Err(e) && e.code == 409,
        flow_triggered(w, name, params, id, token, now).0.launches == w.launches,
        flow_triggered(w, name, params, id, token, now).0.store == w.store,
{
}

} // verus!

//! The durable tables and every operation on them.

use std::collections::HashMap;
use vstd::prelude::*;
use crate::config::Deployment;
use crate::json::{
    copy_members, copy_opt_json, lemma_obj_view, members, no_members, opt_opt, push_member, Json,
    JsonV,
};
use crate::order::{indices, is_order, is_sorted_by, key_views, lemma_key_views_push, order_by, pick};
use crate::protocol::{journal_view, KvWrite};
use crate::rows::{
    DeploymentRow, DeploymentRowV, EventRow, KvRow, LogRow, SignalRow, StepRow, WorkflowRow,
};
use crate::tables::{
    created_keys, deployment_named, deployment_of, deployment_row, deployment_with, event_items,
    events_of, id_after, is_decoded, is_due, is_listing, is_running, is_running_list, is_state,
    is_step_list, journal_of, json_if_any, json_or_null, kv_of, kv_with, log_lines, logs_of,
    member_keys, name_keys, pending_signal, running_of, seq_keys, signal_members, signal_with,
    state_members, step_view_of, step_views, step_with, steps_of, unconsumed, workflow_of,
    workflow_with, workflows_of, Change, ChangeV, StoreV, Tables,
};
use crate::text::{
    copy_opt, first_where, lemma_filter_take, lemma_first_where_is,
    lemma_take_step, lemma_views_push, lemma_views_update, opt, str_eq, views,
};

verus! {

/// A workflow as the worker and the clients see it.
#[derive(Debug, PartialEq)]
pub struct Workflow {
    pub id: String,
    pub deployment: String,
    pub trigger: String,
    /// `running`, `sleeping`, `waiting`, `success` or `failed`.
    pub status: String,
    pub input: Json,
    pub output: Option<Json>,
    pub error: Option<String>,
    pub attempts: i64,
    /// When a sleeping workflow is due, as a key that orders as the instant does.
    pub wake_at: Option<i64>,
    /// The fingerprint of the command that it was submitted with.
    pub version: String,
    pub created_at: String,
    pub finished_at: Option<String>,
}

/// The mathematical value of a [`Workflow`].
#[verifier::ext_equal]
pub struct WorkflowV {
    pub id: Seq<char>,
    pub deployment: Seq<char>,
    pub trigger: Seq<char>,
    pub status: Seq<char>,
    pub input: JsonV,
    pub output: Option<JsonV>,
    pub error: Option<Seq<char>>,
    pub attempts: i64,
    pub wake_at: Option<i64>,
    pub version: Seq<char>,
    pub created_at: Seq<char>,
    pub finished_at: Option<Seq<char>>,
}

impl View for Workflow {
    type V = WorkflowV;

    open spec fn view(&self) -> WorkflowV {
        WorkflowV {
            id: self.id@,
            deployment: self.deployment@,
            trigger: self.trigger@,
            status: self.status@,
            input: self.input@,
            output: opt(self.output),
            error: opt(self.error),
            attempts: self.attempts,
            wake_at: self.wake_at,
            version: self.version@,
            created_at: self.created_at@,
            finished_at: opt(self.finished_at),
        }
    }
}

impl Workflow {
    /// A value equal to this one.
    pub fn copy(&self) -> (r: Workflow)
        ensures
            r@ == self@,
    {
        Workflow {
            id: self.id.clone(),
            deployment: self.deployment.clone(),
            trigger: self.trigger.clone(),
            status: self.status.clone(),
            input: self.input.copy(),
            output: copy_opt_json(&self.output),
            error: copy_opt(&self.error),
            attempts: self.attempts,
            wake_at: self.wake_at,
            version: self.version.clone(),
            created_at: self.created_at.clone(),
            finished_at: copy_opt(&self.finished_at),
        }
    }
}

/// A journal entry as a workflow receives it.
#[derive(Debug, PartialEq)]
pub struct StepRecord {
    pub status: String,
    pub output: Json,
}

/// The mathematical value of a [`StepRecord`].
#[verifier::ext_equal]
pub struct StepRecordV {
    pub status: Seq<char>,
    pub output: JsonV,
}

impl View for StepRecord {
    type V = StepRecordV;

    open spec fn view(&self) -> StepRecordV {
        StepRecordV {
            status: self.status@,
            output: self.output@,
        }
    }
}

impl StepRecord {
    /// A value equal to this one.
    pub fn copy(&self) -> (r: StepRecord)
        ensures
            r@ == self@,
    {
        StepRecord {
            status: self.status.clone(),
            output: self.output.copy(),
        }
    }
}

/// A step for display.
#[derive(Debug, PartialEq)]
pub struct StepView {
    pub seq: i64,
    pub name: String,
    pub status: String,
    pub duration_ms: Option<i64>,
    pub error: Option<String>,
}

/// The mathematical value of a [`StepView`].
#[verifier::ext_equal]
pub struct StepViewV {
    pub seq: i64,
    pub name: Seq<char>,
    pub status: Seq<char>,
    pub duration_ms: Option<i64>,
    pub error: Option<Seq<char>>,
}

impl View for StepView {
    type V = StepViewV;

    open spec fn view(&self) -> StepViewV {
        StepViewV {
            seq: self.seq,
            name: self.name@,
            status: self.status@,
            duration_ms: self.duration_ms,
            error: opt(self.error),
        }
    }
}

impl StepView {
    /// A value equal to this one.
    pub fn copy(&self) -> (r: StepView)
        ensures
            r@ == self@,
    {
        StepView {
            seq: self.seq,
            name: self.name.clone(),
            status: self.status.clone(),
            duration_ms: self.duration_ms,
            error: copy_opt(&self.error),
        }
    }
}

/// A line of a workflow's output.
#[derive(Debug, PartialEq)]
pub struct LogLine {
    pub ts: String,
    pub stream: String,
    pub line: String,
}

/// The mathematical value of a [`LogLine`].
#[verifier::ext_equal]
pub struct LogLineV {
    pub ts: Seq<char>,
    pub stream: Seq<char>,
    pub line: Seq<char>,
}

impl View for LogLine {
    type V = LogLineV;

    open spec fn view(&self) -> LogLineV {
        LogLineV {
            ts: self.ts@,
            stream: self.stream@,
            line: self.line@,
        }
    }
}

impl LogLine {
    /// A value equal to this one.
    pub fn copy(&self) -> (r: LogLine)
        ensures
            r@ == self@,
    {
        LogLine {
            ts: self.ts.clone(),
            stream: self.stream.clone(),
            line: self.line.clone(),
        }
    }
}

/// Why an operation on the store is refused.
#[derive(Clone, Copy, Debug, PartialEq, Eq, Structural)]
pub enum StoreError {
    /// A workflow of that id exists.
    Duplicate,
    /// A row does not hold a deployment.
    Decode,
    /// There is no further id, or no further attempt can be counted.
    Full,
}

impl StoreError {
    /// The error in words.
    pub open spec fn message_of(self) -> Seq<char> {
        match self {
            StoreError::Duplicate => "UNIQUE constraint failed: workflows.id"@,
            StoreError::Decode => "a stored deployment cannot be read"@,
            StoreError::Full => "database or disk is full"@,
        }
    }

    /// The error in words.
    pub fn message(&self) -> (r: String)
        ensures
            r@ == self.message_of(),
    {
        match self {
            StoreError::Duplicate => "UNIQUE constraint failed: workflows.id".to_string(),
            StoreError::Decode => "a stored deployment cannot be read".to_string(),
            StoreError::Full => "database or disk is full".to_string(),
        }
    }
}

// ---------------------------------------------------------------------------
// The text of a command
// ---------------------------------------------------------------------------

/// The error of `serde_json`.
#[verifier::external_type_specification]
#[verifier::external_body]
pub struct ExJsonError(serde_json::Error);

/// The JSON text of a list of strings.
pub uninterp spec fn argv_text_of(argv: Seq<Seq<char>>) -> Seq<char>;

/// The list of strings that a JSON text denotes.
pub uninterp spec fn argv_of_text(text: Seq<char>) -> Option<Seq<Seq<char>>>;

/// Calls `serde_json::to_string` on a list of strings, which never fails.
///
/// The text depends on the list alone, and denotes that list.
#[verifier::external_body]
fn argv_text(argv: &Vec<String>) -> (r: String)
    ensures
        r@ == argv_text_of(views(argv@)),
        argv_of_text(r@) == Some(views(argv@)),
{
    serde_json::to_string(argv).unwrap()
}

/// Calls `serde_json::from_str` for a list of strings.
///
/// Whether the text denotes one, and which, depends on the text alone.
#[verifier::external_body]
fn parse_argv(text: &str) -> (r: Result<Vec<String>, serde_json::Error>)
    ensures
        match r {
            Ok(v) => argv_of_text(text@) == Some(views(v@)),
            Err(_) => argv_of_text(text@) is None,
        },
{
    serde_json::from_str(text)
}

// ---------------------------------------------------------------------------
// From rows to values
// ---------------------------------------------------------------------------

fn value_or_null(j: &Option<Json>) -> (r: Json)
    ensures
        r@ == json_or_null(opt(*j)),
{
    match j {
        Some(v) => v.copy(),
        None => Json::Null,
    }
}

fn value_if_any(j: &Option<Option<Json>>) -> (r: Option<Json>)
    ensures
        opt(r) == json_if_any(opt_opt(*j)),
{
    match j {
        Some(v) => copy_opt_json(v),
        None => None,
    }
}

/// The workflow that a row stands for.
pub fn row_to_workflow(r: &WorkflowRow) -> (w: Workflow)
    ensures
        w@ == workflow_of(r@),
{
    Workflow {
        id: r.id.clone(),
        deployment: r.deployment.clone(),
        trigger: r.trigger.clone(),
        status: r.status.clone(),
        input: value_or_null(&r.input),
        output: value_if_any(&r.output),
        error: copy_opt(&r.error),
        attempts: r.attempts,
        wake_at: r.wake_at,
        version: r.version.clone(),
        created_at: r.created_at.clone(),
        finished_at: copy_opt(&r.finished_at),
    }
}

/// The deployment that a row stands for, given the command that its text denotes.
pub fn row_with_command(r: &DeploymentRow, cmd: Option<Vec<String>>) -> (d: Option<Deployment>)
    ensures
        opt(d) == deployment_with(
            r@,
            match cmd {
                Some(v) => Some(views(v@)),
                None => None,
            },
        ),
{
    broadcast use lemma_obj_view;

    match (cmd, &r.params) {
        (Some(cmd), Some(Json::Obj(params))) => Some(
            Deployment {
                name: r.name.clone(),
                cmd,
                cron: copy_opt(&r.cron),
                timezone: copy_opt(&r.timezone),
                params: copy_members(params),
                catchup: r.catchup.clone(),
                overlap: r.overlap.clone(),
                enabled: r.enabled != 0,
                retries: r.retries as u32,
                concurrency: r.concurrency as u32,
            },
        ),
        _ => None,
    }
}

/// The deployment that a row stands for.
pub fn row_to_deployment(r: &DeploymentRow) -> (d: Result<Deployment, StoreError>)
    ensures
        match d {
            Ok(x) => deployment_of(r@) == Some(x@),
            Err(e) => deployment_of(r@) is None && e == StoreError::Decode,
        },
{
    let cmd = match parse_argv(r.cmd.as_str()) {
        Ok(v) => Some(v),
        Err(_) => None,
    };
    match row_with_command(r, cmd) {
        Some(x) => Ok(x),
        None => Err(StoreError::Decode),
    }
}

// ---------------------------------------------------------------------------
// The store
// ---------------------------------------------------------------------------

/// The durable tables, with the changes of them that the database has not been
/// told of.
pub struct Store {
    deployments: Vec<DeploymentRow>,
    workflows: Vec<WorkflowRow>,
    kv: Vec<KvRow>,
    signals: Vec<SignalRow>,
    steps: Vec<StepRow>,
    events: Vec<EventRow>,
    logs: Vec<LogRow>,
    changes: Vec<Change>,
}

impl View for Store {
    type V = StoreV;

    closed spec fn view(&self) -> StoreV {
        StoreV {
            tables: Tables {
                deployments: views(self.deployments@),
                workflows: views(self.workflows@),
                kv: views(self.kv@),
                signals: views(self.signals@),
                steps: views(self.steps@),
                events: views(self.events@),
                logs: views(self.logs@),
            },
            changes: views(self.changes@),
        }
    }
}

impl Store {
    /// The store that holds the given rows.
    pub fn open(
        deployments: Vec<DeploymentRow>,
        workflows: Vec<WorkflowRow>,
        kv: Vec<KvRow>,
        signals: Vec<SignalRow>,
        steps: Vec<StepRow>,
        events: Vec<EventRow>,
        logs: Vec<LogRow>,
    ) -> (r: Store)
        ensures
            r@.changes == Seq::<ChangeV>::empty(),
            r@.tables == (Tables {
                deployments: views(deployments@),
                workflows: views(workflows@),
                kv: views(kv@),
                signals: views(signals@),
                steps: views(steps@),
                events: views(events@),
                logs: views(logs@),
            }),
    {
        let r = Store {
            deployments,
            workflows,
            kv,
            signals,
            steps,
            events,
            logs,
            changes: Vec::new(),
        };
        assert(r@.changes =~= Seq::<ChangeV>::empty());
        r
    }

    /// Hands out the changes that the database has not been told of, oldest first.
    pub fn take_changes(&mut self) -> (r: Vec<Change>)
        ensures
            views(r@) == old(self)@.changes,
            final(self)@ == (StoreV { changes: Seq::empty(), ..old(self)@ }),
    {
        let mut r: Vec<Change> = Vec::new();
        std::mem::swap(&mut r, &mut self.changes);
        assert(self@.changes =~= Seq::<ChangeV>::empty());
        r
    }

    fn find_deployment(&self, name: &String) -> (r: usize)
        ensures
            r == first_where(self@.tables.deployments, deployment_named(name@)),
            r <= self.deployments@.len(),
    {
        let mut i: usize = 0;
        while i < self.deployments.len() && self.deployments[i].name != *name
            invariant
                i <= self.deployments@.len(),
                forall|j: int| 0 <= j < i ==> (#[trigger] self.deployments@[j]).name@ != name@,
            decreases self.deployments@.len() - i,
        {
            i = i + 1;
        }
        proof {
            lemma_first_where_is(self@.tables.deployments, deployment_named(name@), i as int);
        }
        i
    }

    fn find_workflow(&self, id: &String) -> (r: usize)
        ensures
            r == first_where(self@.tables.workflows, workflow_with(id@)),
            r <= self.workflows@.len(),
    {
        let mut i: usize = 0;
        while i < self.workflows.len() && self.workflows[i].id != *id
            invariant
                i <= self.workflows@.len(),
                forall|j: int| 0 <= j < i ==> (#[trigger] self.workflows@[j]).id@ != id@,
            decreases self.workflows@.len() - i,
        {
            i = i + 1;
        }
        proof {
            lemma_first_where_is(self@.tables.workflows, workflow_with(id@), i as int);
        }
        i
    }

    fn find_kv(&self, id: &String, key: &String) -> (r: usize)
        ensures
            r == first_where(self@.tables.kv, kv_with(id@, key@)),
            r <= self.kv@.len(),
    {
        let mut i: usize = 0;
        while i < self.kv.len() && !(self.kv[i].workflow_id == *id && self.kv[i].key == *key)
            invariant
                i <= self.kv@.len(),
                forall|j: int|
                    0 <= j < i ==> !((#[trigger] self.kv@[j]).workflow_id@ == id@ && self.kv@[j].key@
                        == key@),
            decreases self.kv@.len() - i,
        {
            i = i + 1;
        }
        proof {
            lemma_first_where_is(self@.tables.kv, kv_with(id@, key@), i as int);
        }
        i
    }

    fn find_step(&self, id: &String, seq: i64) -> (r: usize)
        ensures
            r == first_where(self@.tables.steps, step_with(id@, seq)),
            r <= self.steps@.len(),
    {
        let mut i: usize = 0;
        while i < self.steps.len() && !(self.steps[i].workflow_id == *id && self.steps[i].step_seq
            == seq)
            invariant
                i <= self.steps@.len(),
                forall|j: int|
                    0 <= j < i ==> !((#[trigger] self.steps@[j]).workflow_id@ == id@
                        && self.steps@[j].step_seq == seq),
            decreases self.steps@.len() - i,
        {
            i = i + 1;
        }
        proof {
            lemma_first_where_is(self@.tables.steps, step_with(id@, seq), i as int);
        }
        i
    }

    fn find_signal(&self, id: i64) -> (r: usize)
        ensures
            r == first_where(self@.tables.signals, signal_with(id)),
            r <= self.signals@.len(),
    {
        let mut i: usize = 0;
        while i < self.signals.len() && self.signals[i].id != id
            invariant
                i <= self.signals@.len(),
                forall|j: int| 0 <= j < i ==> (#[trigger] self.signals@[j]).id != id,
            decreases self.signals@.len() - i,
        {
            i = i + 1;
        }
        proof {
            lemma_first_where_is(self@.tables.signals, signal_with(id), i as int);
        }
        i
    }

    fn find_pending(&self, id: &String, name: &String) -> (r: usize)
        ensures
            r == first_where(self@.tables.signals, pending_signal(id@, name@)),
            r <= self.signals@.len(),
    {
        let mut i: usize = 0;
        while i < self.signals.len() && !(self.signals[i].workflow_id == *id && self.signals[i].name
            == *name && self.signals[i].consumed == 0)
            invariant
                i <= self.signals@.len(),
                forall|j: int|
                    0 <= j < i ==> !((#[trigger] self.signals@[j]).workflow_id@ == id@
                        && self.signals@[j].name@ == name@ && self.signals@[j].consumed == 0),
            decreases self.signals@.len() - i,
        {
            i = i + 1;
        }
        proof {
            lemma_first_where_is(self@.tables.signals, pending_signal(id@, name@), i as int);
        }
        i
    }

    fn put_deployment(&mut self, r: DeploymentRow)
        ensures
            final(self)@ == old(self)@.put(ChangeV::Deployment(r@)),
    {
        broadcast use {lemma_views_push, lemma_views_update};

        let i = self.find_deployment(&r.name);
        let row = r.copy();
        if i < self.deployments.len() {
            self.deployments.set(i, row);
        } else {
            self.deployments.push(row);
        }
        self.changes.push(Change::Deployment(r));
    }

    fn put_workflow(&mut self, r: WorkflowRow)
        ensures
            final(self)@ == old(self)@.put(ChangeV::Workflow(r@)),
    {
        broadcast use {lemma_views_push, lemma_views_update};

        let i = self.find_workflow(&r.id);
        let row = r.copy();
        if i < self.workflows.len() {
            self.workflows.set(i, row);
        } else {
            self.workflows.push(row);
        }
        self.changes.push(Change::Workflow(r));
    }

    fn put_kv(&mut self, r: KvRow)
        ensures
            final(self)@ == old(self)@.put(ChangeV::Kv(r@)),
    {
        broadcast use {lemma_views_push, lemma_views_update};

        let i = self.find_kv(&r.workflow_id, &r.key);
        let row = r.copy();
        if i < self.kv.len() {
            self.kv.set(i, row);
        } else {
            self.kv.push(row);
        }
        self.changes.push(Change::Kv(r));
    }

    fn put_step(&mut self, r: StepRow)
        ensures
            final(self)@ == old(self)@.put(ChangeV::Step(r@)),
    {
        broadcast use {lemma_views_push, lemma_views_update};

        let i = self.find_step(&r.workflow_id, r.step_seq);
        let row = r.copy();
        if i < self.steps.len() {
            self.steps.set(i, row);
        } else {
            self.steps.push(row);
        }
        self.changes.push(Change::Step(r));
    }

    fn put_signal(&mut self, r: SignalRow)
        ensures
            final(self)@ == old(self)@.put(ChangeV::Signal(r@)),
    {
        broadcast use {lemma_key_views_push, lemma_views_push};

        self.signals.push(r.copy());
        self.changes.push(Change::Signal(r));
    }

    fn put_consumed(&mut self, id: i64)
        ensures
            final(self)@ == old(self)@.put(ChangeV::Consumed(id)),
    {
        broadcast use {lemma_views_push, lemma_views_update};

        let i = self.find_signal(id);
        if i < self.signals.len() {
            let mut row = self.signals[i].copy();
            row.consumed = 1;
            self.signals.set(i, row);
        }
        self.changes.push(Change::Consumed(id));
    }

    fn put_event(&mut self, r: EventRow)
        ensures
            final(self)@ == old(self)@.put(ChangeV::Event(r@)),
    {
        broadcast use {lemma_key_views_push, lemma_views_push};

        self.events.push(r.copy());
        self.changes.push(Change::Event(r));
    }

    fn put_log(&mut self, r: LogRow)
        ensures
            final(self)@ == old(self)@.put(ChangeV::Log(r@)),
    {
        broadcast use {lemma_key_views_push, lemma_views_push};

        self.logs.push(r.copy());
        self.changes.push(Change::Log(r));
    }

    // -- deployments --------------------------------------------------------

    /// Writes a deployment over the one of its name, or adds it.
    pub fn upsert_deployment(&mut self, d: &Deployment)
        ensures
            final(self)@ == old(self)@.deployed(d@, argv_text_of(d@.cmd)),
            argv_of_text(argv_text_of(d@.cmd)) == Some(d@.cmd),
    {
        self.deploy(d, argv_text(&d.cmd));
    }

    /// Writes a deployment whose command has the given text.
    pub fn deploy(&mut self, d: &Deployment, cmd: String)
        ensures
            final(self)@ == old(self)@.deployed(d@, cmd@),
    {
        broadcast use lemma_obj_view;

        let row = DeploymentRow {
            name: d.name.clone(),
            cmd,
            cron: copy_opt(&d.cron),
            timezone: copy_opt(&d.timezone),
            params: Some(Json::Obj(copy_members(&d.params))),
            catchup: d.catchup.clone(),
            overlap: d.overlap.clone(),
            enabled: if d.enabled {
                1
            } else {
                0
            },
            retries: d.retries as i64,
            concurrency: d.concurrency as i64,
        };
        assert(row@ == deployment_row(d@, row.cmd@));
        self.put_deployment(row);
    }

    /// The deployment of a name. Fails where its row does not hold one.
    pub fn get_deployment(&self, name: &str) -> (r: Result<Option<Deployment>, StoreError>)
        ensures
            match self@.tables.deployment(name@) {
                Some(row) => match r {
                    Ok(d) => d is Some && deployment_of(row) == opt(d),
                    Err(e) => deployment_of(row) is None && e == StoreError::Decode,
                },
                None => r matches Ok(d) && d is None,
            },
    {
        let i = self.find_deployment(&name.to_string());
        if i < self.deployments.len() {
            match row_to_deployment(&self.deployments[i]) {
                Ok(d) => Ok(Some(d)),
                Err(e) => Err(e),
            }
        } else {
            Ok(None)
        }
    }

    /// All deployments, sorted by name. Fails where a row does not hold one.
    pub fn list_deployments(&self) -> (r: Result<Vec<Deployment>, StoreError>)
        ensures
            match r {
                Ok(ds) => exists|rows: Seq<DeploymentRowV>|
                    #[trigger] is_sorted_by(
                        self@.tables.deployments,
                        name_keys(self@.tables.deployments),
                        rows,
                    ) && is_decoded(rows, views(ds@)),
                Err(e) => e == StoreError::Decode && exists|i: int|
                    0 <= i < self@.tables.deployments.len() && deployment_of(
                        #[trigger] self@.tables.deployments[i],
                    ) is None,
            },
    {
        broadcast use {lemma_key_views_push, lemma_views_push};

        let ghost all = self@.tables.deployments;
        let mut keys: Vec<(String, i64)> = Vec::new();
        let mut i: usize = 0;
        while i < self.deployments.len()
            invariant
                i <= self.deployments@.len(),
                all == views(self.deployments@),
                key_views(keys@) == name_keys(all).take(i as int),
            decreases self.deployments@.len() - i,
        {
            keys.push((self.deployments[i].name.clone(), 0));
            proof {
                lemma_take_step(name_keys(all), i as int);
            }
            i = i + 1;
        }
        assert(name_keys(all).take(all.len() as int) =~= name_keys(all));
        let o = order_by(&keys);
        let ghost rows = pick(all, indices(o@));
        let mut ds: Vec<Deployment> = Vec::new();
        let mut a: usize = 0;
        while a < o.len()
            invariant
                a <= o@.len(),
                all == self@.tables.deployments,
                is_order(name_keys(all), indices(o@)),
                rows == pick(all, indices(o@)),
                is_decoded(rows.take(a as int), views(ds@)),
            decreases o@.len() - a,
        {
            assert(0 <= indices(o@)[a as int] < all.len());
            let k: usize = o[a];
            match row_to_deployment(&self.deployments[k]) {
                Ok(d) => {
                    ds.push(d);
                },
                Err(e) => {
                    assert(deployment_of(self@.tables.deployments[k as int]) is None);
                    return Err(e);
                },
            }
            a = a + 1;
            assert forall|j: int| 0 <= j < a implies deployment_of(
                #[trigger] rows.take(a as int)[j],
            ) == Some(views(ds@)[j]) by {
                if j < a - 1 {
                    assert(rows.take(a - 1)[j] == rows.take(a as int)[j]);
                }
            }
        }
        assert(rows.take(rows.len() as int) =~= rows);
        assert(is_sorted_by(all, name_keys(all), rows));
        Ok(ds)
    }

    // -- workflows ----------------------------------------------------------

    /// Adds a workflow, running for the first time. Fails where there is one of
    /// that id.
    pub fn create_workflow(
        &mut self,
        id: &str,
        deployment: &str,
        trigger: &str,
        input: &Json,
        version: &str,
        now: &str,
    ) -> (r: Result<(), StoreError>)
        ensures
            match r {
                Ok(_) => old(self)@.tables.workflow(id@) is None && final(self)@
                    == old(self)@.created(id@, deployment@, trigger@, input@, version@, now@),
                Err(e) => old(self)@.tables.workflow(id@) is Some && e == StoreError::Duplicate
                    && final(self)@ == old(self)@,
            },
    {
        let key = id.to_string();
        if self.find_workflow(&key) < self.workflows.len() {
            return Err(StoreError::Duplicate);
        }
        self.put_workflow(
            WorkflowRow {
                id: key,
                deployment: deployment.to_string(),
                trigger: trigger.to_string(),
                status: "running".to_string(),
                input: Some(input.copy()),
                output: None,
                error: None,
                attempts: 0,
                wake_at: None,
                version: version.to_string(),
                created_at: now.to_string(),
                updated_at: now.to_string(),
                finished_at: None,
            },
        );
        Ok(())
    }

    /// Parks a workflow: asleep until an instant, or waiting for a signal.
    pub fn park_workflow(&mut self, id: &str, wake_at: Option<i64>, now: &str)
        ensures
            final(self)@ == old(self)@.parked(id@, wake_at, now@),
    {
        let i = self.find_workflow(&id.to_string());
        if i < self.workflows.len() {
            let mut row = self.workflows[i].copy();
            row.status =
            if wake_at.is_some() {
                "sleeping".to_string()
            } else {
                "waiting".to_string()
            };
            row.wake_at = wake_at;
            row.updated_at = now.to_string();
            self.put_workflow(row);
        }
    }

    /// Makes a parked workflow run again. The attempt is not counted.
    pub fn set_running(&mut self, id: &str, now: &str)
        ensures
            final(self)@ == old(self)@.set_running(id@, now@),
    {
        let i = self.find_workflow(&id.to_string());
        if i < self.workflows.len() {
            let mut row = self.workflows[i].copy();
            row.status = "running".to_string();
            row.wake_at = None;
            row.updated_at = now.to_string();
            self.put_workflow(row);
        }
    }

    /// The sleeping workflows whose instant has come.
    pub fn list_sleeping_due(&self, now: i64) -> (r: Vec<Workflow>)
        ensures
            views(r@) == workflows_of(self@.tables.workflows.filter(is_due(now))),
    {
        broadcast use {lemma_key_views_push, lemma_views_push};

        let ghost all = self@.tables.workflows;
        let sleeping = "sleeping".to_string();
        let mut r: Vec<Workflow> = Vec::new();
        let mut i: usize = 0;
        assert(all.take(0) =~= Seq::empty());
        assert(views(r@) =~= workflows_of(all.take(0).filter(is_due(now)))) by {
            reveal(Seq::filter);
        }
        while i < self.workflows.len()
            invariant
                i <= self.workflows@.len(),
                all == views(self.workflows@),
                sleeping@ == "sleeping"@,
                views(r@) == workflows_of(all.take(i as int).filter(is_due(now))),
            decreases self.workflows@.len() - i,
        {
            proof {
                lemma_filter_take(all, is_due(now), i as int);
            }
            let ghost part = all.take(i as int).filter(is_due(now));
            let row = &self.workflows[i];
            let due = match row.wake_at {
                Some(k) => k <= now,
                None => false,
            };
            if due && row.status == sleeping {
                r.push(row_to_workflow(row));
                assert(workflows_of(part.push(all[i as int])) =~= workflows_of(part).push(
                    workflow_of(all[i as int]),
                ));
            }
            i = i + 1;
        }
        assert(all.take(all.len() as int) =~= all);
        r
    }

    /// How many workflows of a deployment run.
    pub fn count_running(&self, deployment: &str) -> (r: usize)
        ensures
            r == self@.tables.workflows.filter(running_of(deployment@)).len(),
    {
        let ghost all = self@.tables.workflows;
        let ghost p = running_of(deployment@);
        let name = deployment.to_string();
        let running = "running".to_string();
        let mut r: usize = 0;
        let mut i: usize = 0;
        assert(all.take(0) =~= Seq::empty());
        assert(all.take(0).filter(p).len() == 0) by {
            reveal(Seq::filter);
        }
        while i < self.workflows.len()
            invariant
                r <= i <= self.workflows@.len(),
                all == views(self.workflows@),
                p == running_of(deployment@),
                running@ == "running"@,
                name@ == deployment@,
                r == all.take(i as int).filter(p).len(),
            decreases self.workflows@.len() - i,
        {
            proof {
                lemma_filter_take(all, p, i as int);
            }
            if self.workflows[i].deployment == name && self.workflows[i].status == running {
                r = r + 1;
            }
            i = i + 1;
        }
        assert(all.take(all.len() as int) =~= all);
        r
    }

    /// Ends a workflow.
    pub fn finish_workflow(
        &mut self,
        id: &str,
        status: &str,
        output: Option<Json>,
        error: Option<String>,
        now: &str,
    )
        ensures
            final(self)@ == old(self)@.finished(id@, status@, opt(output), opt(error), now@),
    {
        let i = self.find_workflow(&id.to_string());
        if i < self.workflows.len() {
            let mut row = self.workflows[i].copy();
            row.status = status.to_string();
            row.output =
            match output {
                Some(j) => Some(Some(j)),
                None => None,
            };
            row.error = error;
            row.updated_at = now.to_string();
            row.finished_at = Some(now.to_string());
            self.put_workflow(row);
        }
    }

    /// Makes a workflow run again and counts the attempt. Fails where no further
    /// attempt can be counted.
    pub fn mark_attempt(&mut self, id: &str, now: &str) -> (r: Result<(), StoreError>)
        ensures
            final(self)@ == old(self)@.attempted(id@, now@),
            match r {
                Ok(_) => !old(self)@.tables.exhausted(id@),
                Err(e) => old(self)@.tables.exhausted(id@) && e == StoreError::Full,
            },
    {
        let i = self.find_workflow(&id.to_string());
        if i < self.workflows.len() {
            let mut row = self.workflows[i].copy();
            if row.attempts == i64::MAX {
                return Err(StoreError::Full);
            }
            row.status = "running".to_string();
            row.attempts = row.attempts + 1;
            row.updated_at = now.to_string();
            row.finished_at = None;
            self.put_workflow(row);
        }
        Ok(())
    }

    /// The workflow of an id.
    pub fn get_workflow(&self, id: &str) -> (r: Option<Workflow>)
        ensures
            opt(r) == self@.tables.get_workflow(id@),
    {
        let i = self.find_workflow(&id.to_string());
        if i < self.workflows.len() {
            Some(row_to_workflow(&self.workflows[i]))
        } else {
            None
        }
    }

    /// The youngest workflows, youngest first, and of two of one age the one that
    /// was added later. A negative limit is none.
    pub fn list_workflows(&self, limit: i64) -> (r: Vec<Workflow>)
        ensures
            is_listing(self@.tables.workflows, limit as int, views(r@)),
    {
        broadcast use {lemma_key_views_push, lemma_views_push};

        let ghost all = self@.tables.workflows;
        let mut list: Vec<Workflow> = Vec::new();
        let mut i: usize = 0;
        while i < self.workflows.len()
            invariant
                i <= self.workflows@.len(),
                all == views(self.workflows@),
                views(list@) == workflows_of(all.take(i as int)),
            decreases self.workflows@.len() - i,
        {
            proof {
                lemma_take_step(all, i as int);
                let part = all.take(i as int);
                assert(workflows_of(part.push(all[i as int])) =~= workflows_of(part).push(
                    workflow_of(all[i as int]),
                ));
            }
            list.push(row_to_workflow(&self.workflows[i]));
            i = i + 1;
        }
        assert(all.take(all.len() as int) =~= all);
        let sorted = sort_by_age(&list);
        let ghost s = views(sorted@);
        let n: usize = if limit < 0 || limit as u64 >= sorted.len() as u64 {
            sorted.len()
        } else {
            limit as usize
        };
        let mut r: Vec<Workflow> = Vec::new();
        let mut k: usize = 0;
        while k < n
            invariant
                k <= n <= sorted@.len(),
                s == views(sorted@),
                views(r@) == s.reverse().take(k as int),
            decreases n - k,
        {
            r.push(sorted[sorted.len() - 1 - k].copy());
            proof {
                lemma_take_step(s.reverse(), k as int);
            }
            k = k + 1;
        }
        assert(is_sorted_by(workflows_of(all), created_keys(workflows_of(all)), s));
        r
    }

    /// The workflows that run, oldest first.
    pub fn list_running(&self) -> (r: Vec<Workflow>)
        ensures
            is_running_list(self@.tables.workflows, views(r@)),
    {
        broadcast use {lemma_key_views_push, lemma_views_push};

        let ghost all = self@.tables.workflows;
        let ghost p = is_running();
        let running = "running".to_string();
        let mut list: Vec<Workflow> = Vec::new();
        let mut i: usize = 0;
        assert(all.take(0) =~= Seq::empty());
        assert(views(list@) =~= workflows_of(all.take(0).filter(p))) by {
            reveal(Seq::filter);
        }
        while i < self.workflows.len()
            invariant
                i <= self.workflows@.len(),
                all == views(self.workflows@),
                p == is_running(),
                running@ == "running"@,
                views(list@) == workflows_of(all.take(i as int).filter(p)),
            decreases self.workflows@.len() - i,
        {
            proof {
                lemma_filter_take(all, p, i as int);
            }
            let ghost part = all.take(i as int).filter(p);
            if self.workflows[i].status == running {
                list.push(row_to_workflow(&self.workflows[i]));
                assert(workflows_of(part.push(all[i as int])) =~= workflows_of(part).push(
                    workflow_of(all[i as int]),
                ));
            }
            i = i + 1;
        }
        assert(all.take(all.len() as int) =~= all);
        sort_by_age(&list)
    }

    // -- signals ------------------------------------------------------------

    /// Adds a signal. Fails where there is no further id.
    pub fn add_signal(&mut self, id: &str, name: &str, payload: &Json, now: &str) -> (r: Result<
        (),
        StoreError,
    >)
        ensures
            match r {
                Ok(_) => old(self)@.tables.next_signal() is Some && final(self)@
                    == old(self)@.signalled(
                    old(self)@.tables.next_signal().unwrap(),
                    id@,
                    name@,
                    payload@,
                    now@,
                ),
                Err(e) => old(self)@.tables.next_signal() is None && e == StoreError::Full
                    && final(self)@ == old(self)@,
            },
    {
        let n = self.signals.len();
        let last = if n > 0 {
            Some(self.signals[n - 1].id)
        } else {
            None
        };
        match following(last) {
            Some(k) => {
                self.put_signal(
                    SignalRow {
                        id: k,
                        workflow_id: id.to_string(),
                        name: name.to_string(),
                        payload: Some(payload.copy()),
                        consumed: 0,
                        created_at: now.to_string(),
                    },
                );
                Ok(())
            },
            None => Err(StoreError::Full),
        }
    }

    /// The signals that a workflow has not consumed, oldest first.
    pub fn unconsumed_signals(&self, id: &str) -> (r: Vec<(String, Json)>)
        ensures
            members(r@) == signal_members(self@.tables.signals.filter(unconsumed(id@))),
    {
        let ghost all = self@.tables.signals;
        let ghost p = unconsumed(id@);
        let key = id.to_string();
        let mut r: Vec<(String, Json)> = no_members();
        let mut i: usize = 0;
        assert(all.take(0) =~= Seq::empty());
        assert(members(r@) =~= signal_members(all.take(0).filter(p))) by {
            reveal(Seq::filter);
        }
        while i < self.signals.len()
            invariant
                i <= self.signals@.len(),
                all == views(self.signals@),
                p == unconsumed(id@),
                key@ == id@,
                members(r@) == signal_members(all.take(i as int).filter(p)),
            decreases self.signals@.len() - i,
        {
            proof {
                lemma_filter_take(all, p, i as int);
            }
            let ghost part = all.take(i as int).filter(p);
            let row = &self.signals[i];
            if row.workflow_id == key && row.consumed == 0 {
                push_member(&mut r, row.name.as_str(), value_or_null(&row.payload));
                assert(signal_members(part.push(all[i as int])) =~= signal_members(part).push(
                    (all[i as int].name, json_or_null(all[i as int].payload)),
                ));
            }
            i = i + 1;
        }
        assert(all.take(all.len() as int) =~= all);
        r
    }

    /// Marks the oldest unconsumed signal of a name consumed.
    pub fn consume_signal(&mut self, id: &str, name: &str)
        ensures
            final(self)@ == old(self)@.consumed(id@, name@),
    {
        let i = self.find_pending(&id.to_string(), &name.to_string());
        if i < self.signals.len() {
            let k: i64 = self.signals[i].id;
            self.put_consumed(k);
        }
    }

    // -- step journal -------------------------------------------------------

    /// Whether the journal has a step as done.
    pub fn is_done(&self, id: &str, seq: i64) -> (r: bool)
        ensures
            r == self@.tables.is_done(id@, seq),
    {
        let i = self.find_step(&id.to_string(), seq);
        i < self.steps.len() && str_eq(self.steps[i].status.as_str(), "success")
    }

    /// Writes a step over what the journal has of it. An output or a duration that
    /// is not given is kept.
    pub fn upsert_step(
        &mut self,
        id: &str,
        seq: i64,
        name: &str,
        status: &str,
        output: Option<Json>,
        error: Option<String>,
        duration_ms: Option<i64>,
        now: &str,
    )
        ensures
            final(self)@ == old(self)@.step_put(
                id@,
                seq,
                name@,
                status@,
                opt(output),
                opt(error),
                duration_ms,
                now@,
            ),
    {
        let key = id.to_string();
        let finished_at = if str_eq(status, "started") {
            None
        } else {
            Some(now.to_string())
        };
        let given = match output {
            Some(j) => Some(Some(j)),
            None => None,
        };
        let i = self.find_step(&key, seq);
        if i < self.steps.len() {
            let mut row = self.steps[i].copy();
            row.step_name = name.to_string();
            row.status = status.to_string();
            if given.is_some() {
                row.output = given;
            }
            row.error = error;
            if duration_ms.is_some() {
                row.duration_ms = duration_ms;
            }
            row.finished_at = finished_at;
            self.put_step(row);
        } else {
            self.put_step(
                StepRow {
                    workflow_id: key,
                    step_seq: seq,
                    step_name: name.to_string(),
                    status: status.to_string(),
                    output: given,
                    error,
                    duration_ms,
                    started_at: now.to_string(),
                    finished_at,
                },
            );
        }
    }

    /// Writes a step as done, together with its durable writes. The changes stand
    /// side by side, so the database takes all of them in one transaction.
    pub fn commit_step_tx(
        &mut self,
        id: &str,
        seq: i64,
        name: &str,
        output: &Json,
        duration_ms: i64,
        writes: &Vec<KvWrite>,
        now: &str,
    )
        ensures
            final(self)@ == old(self)@.committed(
                id@,
                seq,
                name@,
                output@,
                duration_ms,
                views(writes@),
                now@,
            ),
    {
        let key = id.to_string();
        let i = self.find_step(&key, seq);
        if i < self.steps.len() {
            let mut row = self.steps[i].copy();
            row.step_name = name.to_string();
            row.status = "success".to_string();
            row.output = Some(Some(output.copy()));
            row.duration_ms = Some(duration_ms);
            row.finished_at = Some(now.to_string());
            self.put_step(row);
        } else {
            self.put_step(
                StepRow {
                    workflow_id: key,
                    step_seq: seq,
                    step_name: name.to_string(),
                    status: "success".to_string(),
                    output: Some(Some(output.copy())),
                    error: None,
                    duration_ms: Some(duration_ms),
                    started_at: now.to_string(),
                    finished_at: Some(now.to_string()),
                },
            );
        }
        let ghost mid = self@;
        let mut k: usize = 0;
        assert(views(writes@).take(0) =~= Seq::empty());
        while k < writes.len()
            invariant
                k <= writes@.len(),
                self@ == mid.kv_put(id@, views(writes@).take(k as int)),
            decreases writes@.len() - k,
        {
            self.put_kv(
                KvRow {
                    workflow_id: id.to_string(),
                    key: writes[k].key.clone(),
                    value: Some(writes[k].value.copy()),
                },
            );
            proof {
                let all = views(writes@);
                assert(all.take(k + 1).drop_last() =~= all.take(k as int));
                assert(all.take(k + 1).last() == all[k as int]);
            }
            k = k + 1;
        }
        assert(views(writes@).take(writes@.len() as int) =~= views(writes@));
    }

    /// The published state of a workflow, sorted by key.
    pub fn get_state(&self, id: &str) -> (r: Vec<(String, Json)>)
        ensures
            is_state(self@.tables.kv, id@, members(r@)),
    {
        broadcast use lemma_key_views_push;

        let ghost all = self@.tables.kv;
        let ghost p = kv_of(id@);
        let wanted = id.to_string();
        let mut list: Vec<(String, Json)> = no_members();
        let mut keys: Vec<(String, i64)> = Vec::new();
        let mut i: usize = 0;
        assert(all.take(0) =~= Seq::empty());
        assert(members(list@) =~= state_members(all.take(0).filter(p))) by {
            reveal(Seq::filter);
        }
        assert(key_views(keys@) =~= member_keys(members(list@)));
        while i < self.kv.len()
            invariant
                i <= self.kv@.len(),
                all == views(self.kv@),
                p == kv_of(id@),
                wanted@ == id@,
                members(list@) == state_members(all.take(i as int).filter(p)),
                key_views(keys@) == member_keys(members(list@)),
            decreases self.kv@.len() - i,
        {
            proof {
                lemma_filter_take(all, p, i as int);
            }
            let ghost part = all.take(i as int).filter(p);
            let row = &self.kv[i];
            if row.workflow_id == wanted {
                proof {
                    let ms = members(list@);
                    let m = (all[i as int].key, json_or_null(all[i as int].value));
                    assert(member_keys(ms.push(m)) =~= member_keys(ms).push((m.0, 0i64)));
                }
                keys.push((row.key.clone(), 0));
                push_member(&mut list, row.key.as_str(), value_or_null(&row.value));
                assert(state_members(part.push(all[i as int])) =~= state_members(part).push(
                    (all[i as int].key, json_or_null(all[i as int].value)),
                ));
            }
            i = i + 1;
        }
        assert(all.take(all.len() as int) =~= all);
        let o = order_by(&keys);
        let ghost ms = members(list@);
        let mut r: Vec<(String, Json)> = no_members();
        let mut a: usize = 0;
        while a < o.len()
            invariant
                a <= o@.len(),
                ms == members(list@),
                is_order(member_keys(ms), indices(o@)),
                members(r@) == pick(ms, indices(o@)).take(a as int),
            decreases o@.len() - a,
        {
            assert(0 <= indices(o@)[a as int] < ms.len());
            let k: usize = o[a];
            push_member(&mut r, list[k].0.as_str(), list[k].1.copy());
            proof {
                lemma_take_step(pick(ms, indices(o@)), a as int);
            }
            a = a + 1;
        }
        assert(pick(ms, indices(o@)).take(o@.len() as int) =~= pick(ms, indices(o@)));
        r
    }

    /// The journal of a workflow: what each step came to, by sequence number.
    pub fn get_journal(&self, id: &str) -> (r: HashMap<u32, StepRecord>)
        ensures
            journal_view(r@) == journal_of(self@.tables.steps, id@),
    {
        let ghost all = self@.tables.steps;
        let wanted = id.to_string();
        let mut r: HashMap<u32, StepRecord> = HashMap::new();
        let mut i: usize = 0;
        assert(journal_view(r@) =~= journal_of(all.take(0), id@));
        while i < self.steps.len()
            invariant
                i <= self.steps@.len(),
                all == views(self.steps@),
                wanted@ == id@,
                journal_view(r@) == journal_of(all.take(i as int), id@),
            decreases self.steps@.len() - i,
        {
            proof {
                assert(all.take(i + 1).drop_last() =~= all.take(i as int));
                assert(all.take(i + 1).last() == all[i as int]);
            }
            let row = &self.steps[i];
            if row.workflow_id == wanted {
                let ghost before = r@;
                let record = StepRecord {
                    status: row.status.clone(),
                    output: match &row.output {
                        Some(j) => value_or_null(j),
                        None => Json::Null,
                    },
                };
                let ghost v = record;
                r.insert(row.step_seq as u32, record);
                assert(journal_view(r@) =~= journal_view(before).insert(row.step_seq as u32, v@));
            }
            i = i + 1;
        }
        assert(all.take(all.len() as int) =~= all);
        r
    }

    /// The steps of a workflow, sorted by sequence number.
    pub fn list_steps(&self, id: &str) -> (r: Vec<StepView>)
        ensures
            is_step_list(self@.tables.steps, id@, views(r@)),
    {
        broadcast use {lemma_key_views_push, lemma_views_push};

        let ghost all = self@.tables.steps;
        let ghost p = steps_of(id@);
        let wanted = id.to_string();
        let mut list: Vec<StepView> = Vec::new();
        let mut keys: Vec<(String, i64)> = Vec::new();
        let mut i: usize = 0;
        assert(all.take(0) =~= Seq::empty());
        assert(views(list@) =~= step_views(all.take(0).filter(p))) by {
            reveal(Seq::filter);
        }
        assert(key_views(keys@) =~= seq_keys(views(list@)));
        while i < self.steps.len()
            invariant
                i <= self.steps@.len(),
                all == views(self.steps@),
                p == steps_of(id@),
                wanted@ == id@,
                views(list@) == step_views(all.take(i as int).filter(p)),
                key_views(keys@) == seq_keys(views(list@)),
            decreases self.steps@.len() - i,
        {
            proof {
                lemma_filter_take(all, p, i as int);
            }
            let ghost part = all.take(i as int).filter(p);
            let row = &self.steps[i];
            if row.workflow_id == wanted {
                let empty = String::new();
                proof {
                    let ss = views(list@);
                    let x = step_view_of(all[i as int]);
                    assert(empty@ =~= Seq::empty());
                    assert(seq_keys(ss.push(x)) =~= seq_keys(ss).push((Seq::empty(), x.seq)));
                }
                keys.push((empty, row.step_seq));
                let item = StepView {
                    seq: row.step_seq,
                    name: row.step_name.clone(),
                    status: row.status.clone(),
                    duration_ms: row.duration_ms,
                    error: copy_opt(&row.error),
                };
                let ghost ss = views(list@);
                let ghost x = step_view_of(all[i as int]);
                let ghost ks = key_views(keys@);
                assert(ks =~= seq_keys(ss).push((Seq::empty(), x.seq)));
                list.push(item);
                assert(views(list@) =~= ss.push(x));
                assert(step_views(part.push(all[i as int])) =~= step_views(part).push(
                    step_view_of(all[i as int]),
                ));
            }
            i = i + 1;
        }
        assert(all.take(all.len() as int) =~= all);
        let o = order_by(&keys);
        let ghost ss = views(list@);
        let mut r: Vec<StepView> = Vec::new();
        let mut a: usize = 0;
        while a < o.len()
            invariant
                a <= o@.len(),
                ss == views(list@),
                is_order(seq_keys(ss), indices(o@)),
                views(r@) == pick(ss, indices(o@)).take(a as int),
            decreases o@.len() - a,
        {
            assert(0 <= indices(o@)[a as int] < ss.len());
            let k: usize = o[a];
            r.push(list[k].copy());
            proof {
                lemma_take_step(pick(ss, indices(o@)), a as int);
            }
            a = a + 1;
        }
        assert(pick(ss, indices(o@)).take(o@.len() as int) =~= pick(ss, indices(o@)));
        r
    }

    // -- events and logs ----------------------------------------------------

    /// Adds an event, and tells its id and its time. Fails where there is no
    /// further id.
    pub fn record_event(&mut self, id: &str, kind: &str, payload: &Json, now: &str) -> (r: Result<
        (i64, String),
        StoreError,
    >)
        ensures
            final(self)@ == old(self)@.event_added(id@, kind@, payload@, now@),
            match r {
                Ok(p) => old(self)@.tables.next_event() == Some(p.0) && p.1@ == now@,
                Err(e) => old(self)@.tables.next_event() is None && e == StoreError::Full,
            },
    {
        let n = self.events.len();
        let last = if n > 0 {
            Some(self.events[n - 1].id)
        } else {
            None
        };
        match following(last) {
            Some(k) => {
                self.put_event(
                    EventRow {
                        id: k,
                        workflow_id: id.to_string(),
                        ts: now.to_string(),
                        kind: kind.to_string(),
                        payload: Some(payload.copy()),
                    },
                );
                Ok((k, now.to_string()))
            },
            None => Err(StoreError::Full),
        }
    }

    /// Adds a log line, and tells its id and its time. Fails where there is no
    /// further id.
    pub fn record_log(&mut self, id: &str, stream: &str, line: &str, now: &str) -> (r: Result<
        (i64, String),
        StoreError,
    >)
        ensures
            final(self)@ == old(self)@.log_added(id@, stream@, line@, now@),
            match r {
                Ok(p) => old(self)@.tables.next_log() == Some(p.0) && p.1@ == now@,
                Err(e) => old(self)@.tables.next_log() is None && e == StoreError::Full,
            },
    {
        let n = self.logs.len();
        let last = if n > 0 {
            Some(self.logs[n - 1].id)
        } else {
            None
        };
        match following(last) {
            Some(k) => {
                self.put_log(
                    LogRow {
                        id: k,
                        workflow_id: id.to_string(),
                        ts: now.to_string(),
                        stream: stream.to_string(),
                        line: line.to_string(),
                    },
                );
                Ok((k, now.to_string()))
            },
            None => Err(StoreError::Full),
        }
    }

    /// The log lines of a workflow, oldest first.
    pub fn get_logs(&self, id: &str) -> (r: Vec<LogLine>)
        ensures
            views(r@) == log_lines(self@.tables.logs.filter(logs_of(id@))),
    {
        broadcast use {lemma_key_views_push, lemma_views_push};

        let ghost all = self@.tables.logs;
        let ghost p = logs_of(id@);
        let wanted = id.to_string();
        let mut r: Vec<LogLine> = Vec::new();
        let mut i: usize = 0;
        assert(all.take(0) =~= Seq::empty());
        assert(views(r@) =~= log_lines(all.take(0).filter(p))) by {
            reveal(Seq::filter);
        }
        while i < self.logs.len()
            invariant
                i <= self.logs@.len(),
                all == views(self.logs@),
                p == logs_of(id@),
                wanted@ == id@,
                views(r@) == log_lines(all.take(i as int).filter(p)),
            decreases self.logs@.len() - i,
        {
            proof {
                lemma_filter_take(all, p, i as int);
            }
            let ghost part = all.take(i as int).filter(p);
            let ghost x = all[i as int];
            let row = &self.logs[i];
            if row.workflow_id == wanted {
                r.push(
                    LogLine {
                        ts: row.ts.clone(),
                        stream: row.stream.clone(),
                        line: row.line.clone(),
                    },
                );
                assert(log_lines(part.push(x)) =~= log_lines(part).push(
                    LogLineV { ts: x.ts, stream: x.stream, line: x.line },
                ));
            }
            i = i + 1;
        }
        assert(all.take(all.len() as int) =~= all);
        r
    }

    /// The events of a workflow, oldest first: id, time, kind and payload.
    pub fn get_events(&self, id: &str) -> (r: Vec<(i64, String, String, Json)>)
        ensures
            views(r@) == event_items(self@.tables.events.filter(events_of(id@))),
    {
        broadcast use {lemma_key_views_push, lemma_views_push};

        let ghost all = self@.tables.events;
        let ghost p = events_of(id@);
        let wanted = id.to_string();
        let mut r: Vec<(i64, String, String, Json)> = Vec::new();
        let mut i: usize = 0;
        assert(all.take(0) =~= Seq::empty());
        assert(views(r@) =~= event_items(all.take(0).filter(p))) by {
            reveal(Seq::filter);
        }
        while i < self.events.len()
            invariant
                i <= self.events@.len(),
                all == views(self.events@),
                p == events_of(id@),
                wanted@ == id@,
                views(r@) == event_items(all.take(i as int).filter(p)),
            decreases self.events@.len() - i,
        {
            proof {
                lemma_filter_take(all, p, i as int);
            }
            let ghost part = all.take(i as int).filter(p);
            let ghost x = all[i as int];
            let row = &self.events[i];
            if row.workflow_id == wanted {
                r.push((row.id, row.ts.clone(), row.kind.clone(), value_or_null(&row.payload)));
                assert(event_items(part.push(x)) =~= event_items(part).push(
                    (x.id, x.ts, x.kind, json_or_null(x.payload)),
                ));
            }
            i = i + 1;
        }
        assert(all.take(all.len() as int) =~= all);
        r
    }
}

/// The id after `last`.
fn following(last: Option<i64>) -> (r: Option<i64>)
    ensures
        r == id_after(last),
{
    match last {
        None => Some(1),
        Some(n) => if n < i64::MAX {
            Some(n + 1)
        } else {
            None
        },
    }
}

/// Workflows sorted by age, oldest first.
fn sort_by_age(list: &Vec<Workflow>) -> (r: Vec<Workflow>)
    ensures
        is_sorted_by(views(list@), created_keys(views(list@)), views(r@)),
        r@.len() == list@.len(),
{
    broadcast use {lemma_key_views_push, lemma_views_push};

    let ghost all = views(list@);
    let mut keys: Vec<(String, i64)> = Vec::new();
    let mut i: usize = 0;
    while i < list.len()
        invariant
            i <= list@.len(),
            all == views(list@),
            key_views(keys@) == created_keys(all).take(i as int),
        decreases list@.len() - i,
    {
        keys.push((list[i].created_at.clone(), 0));
        proof {
            lemma_take_step(created_keys(all), i as int);
        }
        i = i + 1;
    }
    assert(created_keys(all).take(all.len() as int) =~= created_keys(all));
    let o = order_by(&keys);
    let mut r: Vec<Workflow> = Vec::new();
    let mut a: usize = 0;
    while a < o.len()
        invariant
            a <= o@.len(),
            all == views(list@),
            is_order(created_keys(all), indices(o@)),
            views(r@) == pick(all, indices(o@)).take(a as int),
        decreases o@.len() - a,
    {
        assert(0 <= indices(o@)[a as int] < all.len());
        let k: usize = o[a];
        r.push(list[k].copy());
        proof {
            lemma_take_step(pick(all, indices(o@)), a as int);
        }
        a = a + 1;
    }
    assert(pick(all, indices(o@)).take(o@.len() as int) =~= pick(all, indices(o@)));
    assert(views(r@).len() == all.len());
    r
}

} // verus!

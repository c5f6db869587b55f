//! The durable tables, the changes of them, and what each operation does.

use vstd::prelude::*;
use crate::config::DeploymentV;
use crate::json::{JsonV, Members};
use crate::order::{is_sorted_by, Key};
use crate::protocol::KvWriteV;
use crate::rows::{
    DeploymentRow, DeploymentRowV, EventRow, EventRowV, KvRow, KvRowV, LogRow, LogRowV, SignalRow,
    SignalRowV, StepRow, StepRowV, WorkflowRow, WorkflowRowV,
};
use crate::store::{argv_of_text, LogLineV, StepRecordV, StepViewV, WorkflowV};
use crate::text::first_where;

verus! {

// ---------------------------------------------------------------------------
// Tables and changes
// ---------------------------------------------------------------------------

/// The contents of the durable tables, each in the order in which its rows were
/// added.
#[verifier::ext_equal]
pub struct Tables {
    pub deployments: Seq<DeploymentRowV>,
    pub workflows: Seq<WorkflowRowV>,
    pub kv: Seq<KvRowV>,
    pub signals: Seq<SignalRowV>,
    pub steps: Seq<StepRowV>,
    pub events: Seq<EventRowV>,
    pub logs: Seq<LogRowV>,
}

/// One change of the tables, as the database is told of it.
#[derive(Debug, PartialEq)]
pub enum Change {
    /// Write a deployment over the one of its name, or add it.
    Deployment(DeploymentRow),
    /// Write a workflow over the one of its id, or add it.
    Workflow(WorkflowRow),
    /// Write an item of durable state over the one of its key, or add it.
    Kv(KvRow),
    /// Write a step over the one of its sequence number, or add it.
    Step(StepRow),
    /// Add a signal.
    Signal(SignalRow),
    /// Mark the signal of this id consumed.
    Consumed(i64),
    /// Add an event.
    Event(EventRow),
    /// Add a log line.
    Log(LogRow),
}

/// The mathematical value of a [`Change`].
#[verifier::ext_equal]
pub enum ChangeV {
    Deployment(DeploymentRowV),
    Workflow(WorkflowRowV),
    Kv(KvRowV),
    Step(StepRowV),
    Signal(SignalRowV),
    Consumed(i64),
    Event(EventRowV),
    Log(LogRowV),
}

impl View for Change {
    type V = ChangeV;

    open spec fn view(&self) -> ChangeV {
        match self {
            Change::Deployment(r) => ChangeV::Deployment(r@),
            Change::Workflow(r) => ChangeV::Workflow(r@),
            Change::Kv(r) => ChangeV::Kv(r@),
            Change::Step(r) => ChangeV::Step(r@),
            Change::Signal(r) => ChangeV::Signal(r@),
            Change::Consumed(id) => ChangeV::Consumed(*id),
            Change::Event(r) => ChangeV::Event(r@),
            Change::Log(r) => ChangeV::Log(r@),
        }
    }
}

/// Recognises the deployment of a name.
pub open spec fn deployment_named(name: Seq<char>) -> spec_fn(DeploymentRowV) -> bool {
    |r: DeploymentRowV| r.name == name
}

/// Recognises the workflow of an id.
pub open spec fn workflow_with(id: Seq<char>) -> spec_fn(WorkflowRowV) -> bool {
    |r: WorkflowRowV| r.id == id
}

/// Recognises the item of state of a workflow and a key.
pub open spec fn kv_with(id: Seq<char>, key: Seq<char>) -> spec_fn(KvRowV) -> bool {
    |r: KvRowV| r.workflow_id == id && r.key == key
}

/// Recognises the step of a workflow and a sequence number.
pub open spec fn step_with(id: Seq<char>, seq: i64) -> spec_fn(StepRowV) -> bool {
    |r: StepRowV| r.workflow_id == id && r.step_seq == seq
}

/// Recognises the signal of an id.
pub open spec fn signal_with(id: i64) -> spec_fn(SignalRowV) -> bool {
    |r: SignalRowV| r.id == id
}

/// Recognises the signals of a name that a workflow has not consumed.
pub open spec fn pending_signal(id: Seq<char>, name: Seq<char>) -> spec_fn(SignalRowV) -> bool {
    |r: SignalRowV| r.workflow_id == id && r.name == name && r.consumed == 0
}

/// The table with `r` in the place of the first row that `p` recognises, or added.
pub open spec fn put_row<T>(s: Seq<T>, p: spec_fn(T) -> bool, r: T) -> Seq<T> {
    let i = first_where(s, p);
    if i < s.len() {
        s.update(i, r)
    } else {
        s.push(r)
    }
}

/// The first row that `p` recognises.
pub open spec fn find_row<T>(s: Seq<T>, p: spec_fn(T) -> bool) -> Option<T> {
    let i = first_where(s, p);
    if i < s.len() {
        Some(s[i])
    } else {
        None
    }
}

impl Tables {
    /// The tables without a row.
    pub open spec fn empty() -> Tables {
        Tables {
            deployments: Seq::empty(),
            workflows: Seq::empty(),
            kv: Seq::empty(),
            signals: Seq::empty(),
            steps: Seq::empty(),
            events: Seq::empty(),
            logs: Seq::empty(),
        }
    }

    /// The tables after one change.
    pub open spec fn apply(self, c: ChangeV) -> Tables {
        match c {
            ChangeV::Deployment(r) => Tables {
                deployments: put_row(self.deployments, deployment_named(r.name), r),
                ..self
            },
            ChangeV::Workflow(r) => Tables {
                workflows: put_row(self.workflows, workflow_with(r.id), r),
                ..self
            },
            ChangeV::Kv(r) => Tables {
                kv: put_row(self.kv, kv_with(r.workflow_id, r.key), r),
                ..self
            },
            ChangeV::Step(r) => Tables {
                steps: put_row(self.steps, step_with(r.workflow_id, r.step_seq), r),
                ..self
            },
            ChangeV::Signal(r) => Tables { signals: self.signals.push(r), ..self },
            ChangeV::Consumed(id) => {
                let i = first_where(self.signals, signal_with(id));
                if i < self.signals.len() {
                    Tables {
                        signals: self.signals.update(
                            i,
                            SignalRowV { consumed: 1, ..self.signals[i] },
                        ),
                        ..self
                    }
                } else {
                    self
                }
            },
            ChangeV::Event(r) => Tables { events: self.events.push(r), ..self },
            ChangeV::Log(r) => Tables { logs: self.logs.push(r), ..self },
        }
    }

    /// The tables after several changes, one after the other.
    pub open spec fn replay(self, cs: Seq<ChangeV>) -> Tables
        decreases cs.len(),
    {
        if cs.len() == 0 {
            self
        } else {
            self.replay(cs.drop_last()).apply(cs.last())
        }
    }

    /// The workflow of an id.
    pub open spec fn workflow(self, id: Seq<char>) -> Option<WorkflowRowV> {
        find_row(self.workflows, workflow_with(id))
    }

    /// The step of a workflow and a sequence number.
    pub open spec fn step(self, id: Seq<char>, seq: i64) -> Option<StepRowV> {
        find_row(self.steps, step_with(id, seq))
    }

    /// Whether the journal has a step as done.
    pub open spec fn is_done(self, id: Seq<char>, seq: i64) -> bool {
        self.step(id, seq) matches Some(r) && r.status == "success"@
    }

    /// The item of state of a workflow and a key.
    pub open spec fn state(self, id: Seq<char>, key: Seq<char>) -> Option<KvRowV> {
        find_row(self.kv, kv_with(id, key))
    }

    /// The deployment of a name.
    pub open spec fn deployment(self, name: Seq<char>) -> Option<DeploymentRowV> {
        find_row(self.deployments, deployment_named(name))
    }
}

/// The tables, and the changes of them that the database has not been told of.
#[verifier::ext_equal]
pub struct StoreV {
    pub tables: Tables,
    pub changes: Seq<ChangeV>,
}

// ---------------------------------------------------------------------------
// Rows and what they stand for
// ---------------------------------------------------------------------------

/// The JSON value of a column: null where its text is not JSON.
pub open spec fn json_or_null(j: Option<JsonV>) -> JsonV {
    match j {
        Some(v) => v,
        None => JsonV::Null,
    }
}

/// The JSON value of a column that may be absent.
pub open spec fn json_if_any(j: Option<Option<JsonV>>) -> Option<JsonV> {
    match j {
        Some(v) => v,
        None => None,
    }
}

/// The workflow that a row stands for.
pub open spec fn workflow_of(r: WorkflowRowV) -> WorkflowV {
    WorkflowV {
        id: r.id,
        deployment: r.deployment,
        trigger: r.trigger,
        status: r.status,
        input: json_or_null(r.input),
        output: json_if_any(r.output),
        error: r.error,
        attempts: r.attempts,
        wake_at: r.wake_at,
        version: r.version,
        created_at: r.created_at,
        finished_at: r.finished_at,
    }
}

/// The deployment that a row stands for, given the command that its text denotes.
pub open spec fn deployment_with(r: DeploymentRowV, cmd: Option<Seq<Seq<char>>>) -> Option<
    DeploymentV,
> {
    match (cmd, r.params) {
        (Some(cmd), Some(JsonV::Obj(params))) => Some(
            DeploymentV {
                name: r.name,
                cmd,
                cron: r.cron,
                timezone: r.timezone,
                params,
                catchup: r.catchup,
                overlap: r.overlap,
                enabled: r.enabled != 0,
                retries: r.retries as u32,
                concurrency: r.concurrency as u32,
            },
        ),
        _ => None,
    }
}

/// The deployment that a row stands for, if its command is a list of strings and
/// its parameters are an object.
pub open spec fn deployment_of(r: DeploymentRowV) -> Option<DeploymentV> {
    deployment_with(r, argv_of_text(r.cmd))
}

/// The row of a deployment, given the text of its command.
pub open spec fn deployment_row(d: DeploymentV, cmd: Seq<char>) -> DeploymentRowV {
    DeploymentRowV {
        name: d.name,
        cmd,
        cron: d.cron,
        timezone: d.timezone,
        params: Some(JsonV::Obj(d.params)),
        catchup: d.catchup,
        overlap: d.overlap,
        enabled: if d.enabled {
            1
        } else {
            0
        },
        retries: d.retries as i64,
        concurrency: d.concurrency as i64,
    }
}

/// What the journal tells a workflow of a step.
pub open spec fn record_of(r: StepRowV) -> StepRecordV {
    StepRecordV { status: r.status, output: json_or_null(json_if_any(r.output)) }
}

/// A step for display.
pub open spec fn step_view_of(r: StepRowV) -> StepViewV {
    StepViewV {
        seq: r.step_seq,
        name: r.step_name,
        status: r.status,
        duration_ms: r.duration_ms,
        error: r.error,
    }
}

/// The journal of a workflow. Of two steps whose sequence numbers are one as
/// unsigned 32-bit numbers, the later row counts.
pub open spec fn journal_of(rows: Seq<StepRowV>, id: Seq<char>) -> Map<u32, StepRecordV>
    decreases rows.len(),
{
    if rows.len() == 0 {
        Map::empty()
    } else {
        let m = journal_of(rows.drop_last(), id);
        let r = rows.last();
        if r.workflow_id == id {
            m.insert(r.step_seq as u32, record_of(r))
        } else {
            m
        }
    }
}

/// An event for display: its id, its time, its kind and its payload.
pub type EventItem = (i64, Seq<char>, Seq<char>, JsonV);

/// The rows that belong to a workflow.
pub open spec fn kv_of(id: Seq<char>) -> spec_fn(KvRowV) -> bool {
    |r: KvRowV| r.workflow_id == id
}

pub open spec fn steps_of(id: Seq<char>) -> spec_fn(StepRowV) -> bool {
    |r: StepRowV| r.workflow_id == id
}

pub open spec fn events_of(id: Seq<char>) -> spec_fn(EventRowV) -> bool {
    |r: EventRowV| r.workflow_id == id
}

pub open spec fn logs_of(id: Seq<char>) -> spec_fn(LogRowV) -> bool {
    |r: LogRowV| r.workflow_id == id
}

/// Recognises the signals that a workflow has not consumed.
pub open spec fn unconsumed(id: Seq<char>) -> spec_fn(SignalRowV) -> bool {
    |r: SignalRowV| r.workflow_id == id && r.consumed == 0
}

/// Recognises the workflows that run.
pub open spec fn is_running() -> spec_fn(WorkflowRowV) -> bool {
    |r: WorkflowRowV| r.status == "running"@
}

/// Recognises the running workflows of a deployment.
pub open spec fn running_of(deployment: Seq<char>) -> spec_fn(WorkflowRowV) -> bool {
    |r: WorkflowRowV| r.deployment == deployment && r.status == "running"@
}

/// Recognises the sleeping workflows that are due at `now`.
pub open spec fn is_due(now: i64) -> spec_fn(WorkflowRowV) -> bool {
    |r: WorkflowRowV|
        r.status == "sleeping"@ && match r.wake_at {
            Some(k) => k <= now,
            None => false,
        }
}

/// The workflows that rows stand for.
pub open spec fn workflows_of(rows: Seq<WorkflowRowV>) -> Seq<WorkflowV> {
    Seq::new(rows.len(), |i: int| workflow_of(rows[i]))
}

/// The keys by which workflows are sorted by age.
pub open spec fn created_keys(ws: Seq<WorkflowV>) -> Seq<Key> {
    Seq::new(ws.len(), |i: int| (ws[i].created_at, 0i64))
}

/// The members that rows of state stand for.
pub open spec fn state_members(rows: Seq<KvRowV>) -> Members {
    Seq::new(rows.len(), |i: int| (rows[i].key, json_or_null(rows[i].value)))
}

/// The keys by which members are sorted by name.
pub open spec fn member_keys(m: Members) -> Seq<Key> {
    Seq::new(m.len(), |i: int| (m[i].0, 0i64))
}

/// The steps that rows stand for, for display.
pub open spec fn step_views(rows: Seq<StepRowV>) -> Seq<StepViewV> {
    Seq::new(rows.len(), |i: int| step_view_of(rows[i]))
}

/// The keys by which steps are sorted by sequence number.
pub open spec fn seq_keys(s: Seq<StepViewV>) -> Seq<Key> {
    Seq::new(s.len(), |i: int| (Seq::<char>::empty(), s[i].seq))
}

/// The keys by which deployments are sorted by name.
pub open spec fn name_keys(rows: Seq<DeploymentRowV>) -> Seq<Key> {
    Seq::new(rows.len(), |i: int| (rows[i].name, 0i64))
}

/// The signals that rows stand for: name and payload.
pub open spec fn signal_members(rows: Seq<SignalRowV>) -> Members {
    Seq::new(rows.len(), |i: int| (rows[i].name, json_or_null(rows[i].payload)))
}

/// The log lines that rows stand for.
pub open spec fn log_lines(rows: Seq<LogRowV>) -> Seq<LogLineV> {
    Seq::new(
        rows.len(),
        |i: int| LogLineV { ts: rows[i].ts, stream: rows[i].stream, line: rows[i].line },
    )
}

/// The events that rows stand for.
pub open spec fn event_items(rows: Seq<EventRowV>) -> Seq<EventItem> {
    Seq::new(
        rows.len(),
        |i: int| (rows[i].id, rows[i].ts, rows[i].kind, json_or_null(rows[i].payload)),
    )
}

/// The id of the next row of a table whose last row has the id `last`.
pub open spec fn id_after(last: Option<i64>) -> Option<i64> {
    match last {
        None => Some(1i64),
        Some(n) => if n < i64::MAX {
            Some((n + 1) as i64)
        } else {
            None
        },
    }
}

impl Tables {
    /// The id of the next event.
    pub open spec fn next_event(self) -> Option<i64> {
        id_after(
            if self.events.len() > 0 {
                Some(self.events.last().id)
            } else {
                None
            },
        )
    }

    /// The id of the next log line.
    pub open spec fn next_log(self) -> Option<i64> {
        id_after(
            if self.logs.len() > 0 {
                Some(self.logs.last().id)
            } else {
                None
            },
        )
    }

    /// The id of the next signal.
    pub open spec fn next_signal(self) -> Option<i64> {
        id_after(
            if self.signals.len() > 0 {
                Some(self.signals.last().id)
            } else {
                None
            },
        )
    }
}

/// Whether `ds` are the deployments that the rows stand for.
pub open spec fn is_decoded(rows: Seq<DeploymentRowV>, ds: Seq<DeploymentV>) -> bool {
    &&& ds.len() == rows.len()
    &&& forall|i: int| 0 <= i < rows.len() ==> deployment_of(#[trigger] rows[i]) == Some(ds[i])
}

/// Whether `ws` are the youngest workflows, youngest first, as many as the limit
/// admits. A negative limit admits all.
pub open spec fn is_listing(rows: Seq<WorkflowRowV>, limit: int, ws: Seq<WorkflowV>) -> bool {
    let all = workflows_of(rows);
    let n = if limit < 0 || limit > rows.len() {
        rows.len() as int
    } else {
        limit
    };
    exists|s: Seq<WorkflowV>|
        #[trigger] is_sorted_by(all, created_keys(all), s) && ws == s.reverse().take(n)
}

/// Whether `ws` are the workflows that run, oldest first.
pub open spec fn is_running_list(rows: Seq<WorkflowRowV>, ws: Seq<WorkflowV>) -> bool {
    let all = workflows_of(rows.filter(is_running()));
    is_sorted_by(all, created_keys(all), ws)
}

/// Whether `m` is the published state of a workflow, sorted by key.
pub open spec fn is_state(rows: Seq<KvRowV>, id: Seq<char>, m: Members) -> bool {
    let all = state_members(rows.filter(kv_of(id)));
    is_sorted_by(all, member_keys(all), m)
}

/// Whether `s` are the steps of a workflow, sorted by sequence number.
pub open spec fn is_step_list(rows: Seq<StepRowV>, id: Seq<char>, s: Seq<StepViewV>) -> bool {
    let all = step_views(rows.filter(steps_of(id)));
    is_sorted_by(all, seq_keys(all), s)
}

impl Tables {
    /// The workflow of an id, as clients see it.
    pub open spec fn get_workflow(self, id: Seq<char>) -> Option<WorkflowV> {
        match self.workflow(id) {
            Some(r) => Some(workflow_of(r)),
            None => None,
        }
    }

    /// Whether no further attempt of a workflow can be counted.
    pub open spec fn exhausted(self, id: Seq<char>) -> bool {
        match self.workflow(id) {
            Some(r) => r.attempts == i64::MAX,
            None => false,
        }
    }
}

// ---------------------------------------------------------------------------
// What the operations do
// ---------------------------------------------------------------------------

impl StoreV {
    /// The store after one change.
    pub open spec fn put(self, c: ChangeV) -> StoreV {
        StoreV { tables: self.tables.apply(c), changes: self.changes.push(c) }
    }

    /// The store with a new workflow, running for the first time.
    pub open spec fn created(
        self,
        id: Seq<char>,
        deployment: Seq<char>,
        trigger: Seq<char>,
        input: JsonV,
        version: Seq<char>,
        now: Seq<char>,
    ) -> StoreV {
        self.put(
            ChangeV::Workflow(
                WorkflowRowV {
                    id,
                    deployment,
                    trigger,
                    status: "running"@,
                    input: Some(input),
                    output: None,
                    error: None,
                    attempts: 0,
                    wake_at: None,
                    version,
                    created_at: now,
                    updated_at: now,
                    finished_at: None,
                },
            ),
        )
    }

    /// The store with a workflow parked: asleep until an instant, or waiting for a
    /// signal.
    pub open spec fn parked(self, id: Seq<char>, wake_at: Option<i64>, now: Seq<char>) -> StoreV {
        match self.tables.workflow(id) {
            Some(r) => self.put(
                ChangeV::Workflow(
                    WorkflowRowV {
                        status: if wake_at is Some {
                            "sleeping"@
                        } else {
                            "waiting"@
                        },
                        wake_at,
                        updated_at: now,
                        ..r
                    },
                ),
            ),
            None => self,
        }
    }

    /// The store with a parked workflow running again.
    pub open spec fn set_running(self, id: Seq<char>, now: Seq<char>) -> StoreV {
        match self.tables.workflow(id) {
            Some(r) => self.put(
                ChangeV::Workflow(
                    WorkflowRowV { status: "running"@, wake_at: None, updated_at: now, ..r },
                ),
            ),
            None => self,
        }
    }

    /// The store with a workflow ended.
    pub open spec fn finished(
        self,
        id: Seq<char>,
        status: Seq<char>,
        output: Option<JsonV>,
        error: Option<Seq<char>>,
        now: Seq<char>,
    ) -> StoreV {
        match self.tables.workflow(id) {
            Some(r) => self.put(
                ChangeV::Workflow(
                    WorkflowRowV {
                        status,
                        output: match output {
                            Some(j) => Some(Some(j)),
                            None => None,
                        },
                        error,
                        updated_at: now,
                        finished_at: Some(now),
                        ..r
                    },
                ),
            ),
            None => self,
        }
    }

    /// The store with a workflow running again and the attempt counted.
    pub open spec fn attempted(self, id: Seq<char>, now: Seq<char>) -> StoreV {
        match self.tables.workflow(id) {
            Some(r) => if r.attempts < i64::MAX {
                self.put(
                    ChangeV::Workflow(
                        WorkflowRowV {
                            status: "running"@,
                            attempts: (r.attempts + 1) as i64,
                            updated_at: now,
                            finished_at: None,
                            ..r
                        },
                    ),
                )
            } else {
                self
            },
            None => self,
        }
    }

    /// The store with a step written over what the journal has of it. An output or
    /// a duration that is not given is kept.
    pub open spec fn step_put(
        self,
        id: Seq<char>,
        seq: i64,
        name: Seq<char>,
        status: Seq<char>,
        output: Option<JsonV>,
        error: Option<Seq<char>>,
        duration_ms: Option<i64>,
        now: Seq<char>,
    ) -> StoreV {
        let finished_at = if status == "started"@ {
            None
        } else {
            Some(now)
        };
        let given = match output {
            Some(j) => Some(Some(j)),
            None => None,
        };
        self.put(
            ChangeV::Step(
                match self.tables.step(id, seq) {
                    Some(r) => StepRowV {
                        step_name: name,
                        status,
                        output: if given is Some {
                            given
                        } else {
                            r.output
                        },
                        error,
                        duration_ms: if duration_ms is Some {
                            duration_ms
                        } else {
                            r.duration_ms
                        },
                        finished_at,
                        ..r
                    },
                    None => StepRowV {
                        workflow_id: id,
                        step_seq: seq,
                        step_name: name,
                        status,
                        output: given,
                        error,
                        duration_ms,
                        started_at: now,
                        finished_at,
                    },
                },
            ),
        )
    }

    /// The store with the items of durable state written, one after the other.
    pub open spec fn kv_put(self, id: Seq<char>, writes: Seq<KvWriteV>) -> StoreV
        decreases writes.len(),
    {
        if writes.len() == 0 {
            self
        } else {
            let w = writes.last();
            self.kv_put(id, writes.drop_last()).put(
                ChangeV::Kv(KvRowV { workflow_id: id, key: w.key, value: Some(w.value) }),
            )
        }
    }

    /// The row of a step that is done. An error that the journal has of the step is
    /// kept.
    pub open spec fn committed_row(
        self,
        id: Seq<char>,
        seq: i64,
        name: Seq<char>,
        output: JsonV,
        duration_ms: i64,
        now: Seq<char>,
    ) -> StepRowV {
        match self.tables.step(id, seq) {
            Some(r) => StepRowV {
                step_name: name,
                status: "success"@,
                output: Some(Some(output)),
                duration_ms: Some(duration_ms),
                finished_at: Some(now),
                ..r
            },
            None => StepRowV {
                workflow_id: id,
                step_seq: seq,
                step_name: name,
                status: "success"@,
                output: Some(Some(output)),
                error: None,
                duration_ms: Some(duration_ms),
                started_at: now,
                finished_at: Some(now),
            },
        }
    }

    /// The store with a step done and its durable writes made.
    pub open spec fn committed(
        self,
        id: Seq<char>,
        seq: i64,
        name: Seq<char>,
        output: JsonV,
        duration_ms: i64,
        writes: Seq<KvWriteV>,
        now: Seq<char>,
    ) -> StoreV {
        self.put(
            ChangeV::Step(self.committed_row(id, seq, name, output, duration_ms, now)),
        ).kv_put(id, writes)
    }

    /// The store with a deployment written over the one of its name.
    pub open spec fn deployed(self, d: DeploymentV, cmd: Seq<char>) -> StoreV {
        self.put(ChangeV::Deployment(deployment_row(d, cmd)))
    }

    /// The store with a signal added.
    pub open spec fn signalled(
        self,
        signal: i64,
        id: Seq<char>,
        name: Seq<char>,
        payload: JsonV,
        now: Seq<char>,
    ) -> StoreV {
        self.put(
            ChangeV::Signal(
                SignalRowV {
                    id: signal,
                    workflow_id: id,
                    name,
                    payload: Some(payload),
                    consumed: 0,
                    created_at: now,
                },
            ),
        )
    }

    /// The store with the oldest unconsumed signal of a name consumed.
    pub open spec fn consumed(self, id: Seq<char>, name: Seq<char>) -> StoreV {
        match find_row(self.tables.signals, pending_signal(id, name)) {
            Some(r) => self.put(ChangeV::Consumed(r.id)),
            None => self,
        }
    }

    /// The store with an event added, if there is an id for it.
    pub open spec fn event_added(
        self,
        id: Seq<char>,
        kind: Seq<char>,
        payload: JsonV,
        now: Seq<char>,
    ) -> StoreV {
        match self.tables.next_event() {
            Some(n) => self.put(
                ChangeV::Event(
                    EventRowV { id: n, workflow_id: id, ts: now, kind, payload: Some(payload) },
                ),
            ),
            None => self,
        }
    }

    /// The store with a log line added, if there is an id for it.
    pub open spec fn log_added(
        self,
        id: Seq<char>,
        stream: Seq<char>,
        line: Seq<char>,
        now: Seq<char>,
    ) -> StoreV {
        match self.tables.next_log() {
            Some(n) => self.put(
                ChangeV::Log(LogRowV { id: n, workflow_id: id, ts: now, stream, line }),
            ),
            None => self,
        }
    }
}

} // verus!

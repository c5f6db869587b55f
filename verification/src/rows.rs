//! The rows of the durable tables.
//!
//! A column that holds JSON text is carried decoded; it is `None` where the
//! text is not JSON.

use vstd::prelude::*;
use crate::json::{copy_opt_json, copy_opt_opt, opt_opt, Json, JsonV};
use crate::text::{copy_opt, opt};

verus! {

/// A row of the table of deployments, keyed by `name`.
#[derive(Debug, PartialEq)]
pub struct DeploymentRow {
    pub name: String,
    /// The command, a JSON array of strings.
    pub cmd: String,
    pub cron: Option<String>,
    pub timezone: Option<String>,
    pub params: Option<Json>,
    pub catchup: String,
    pub overlap: String,
    pub enabled: i64,
    pub retries: i64,
    pub concurrency: i64,
}

/// The mathematical value of a [`DeploymentRow`].
#[verifier::ext_equal]
pub struct DeploymentRowV {
    pub name: Seq<char>,
    pub cmd: Seq<char>,
    pub cron: Option<Seq<char>>,
    pub timezone: Option<Seq<char>>,
    pub params: Option<JsonV>,
    pub catchup: Seq<char>,
    pub overlap: Seq<char>,
    pub enabled: i64,
    pub retries: i64,
    pub concurrency: i64,
}

impl View for DeploymentRow {
    type V = DeploymentRowV;

    open spec fn view(&self) -> DeploymentRowV {
        DeploymentRowV {
            name: self.name@,
            cmd: self.cmd@,
            cron: opt(self.cron),
            timezone: opt(self.timezone),
            params: opt(self.params),
            catchup: self.catchup@,
            overlap: self.overlap@,
            enabled: self.enabled,
            retries: self.retries,
            concurrency: self.concurrency,
        }
    }
}

impl DeploymentRow {
    /// A value equal to this one.
    pub fn copy(&self) -> (r: DeploymentRow)
        ensures
            r@ == self@,
    {
        DeploymentRow {
            name: self.name.clone(),
            cmd: self.cmd.clone(),
            cron: copy_opt(&self.cron),
            timezone: copy_opt(&self.timezone),
            params: copy_opt_json(&self.params),
            catchup: self.catchup.clone(),
            overlap: self.overlap.clone(),
            enabled: self.enabled,
            retries: self.retries,
            concurrency: self.concurrency,
        }
    }
}

/// A row of the table of workflows, keyed by `id`.
#[derive(Debug, PartialEq)]
pub struct WorkflowRow {
    pub id: String,
    pub deployment: String,
    pub trigger: String,
    pub status: String,
    pub input: Option<Json>,
    pub output: Option<Option<Json>>,
    pub error: Option<String>,
    pub attempts: i64,
    pub wake_at: Option<i64>,
    pub version: String,
    pub created_at: String,
    pub updated_at: String,
    pub finished_at: Option<String>,
}

/// The mathematical value of a [`WorkflowRow`].
#[verifier::ext_equal]
pub struct WorkflowRowV {
    pub id: Seq<char>,
    pub deployment: Seq<char>,
    pub trigger: Seq<char>,
    pub status: Seq<char>,
    pub input: Option<JsonV>,
    pub output: Option<Option<JsonV>>,
    pub error: Option<Seq<char>>,
    pub attempts: i64,
    pub wake_at: Option<i64>,
    pub version: Seq<char>,
    pub created_at: Seq<char>,
    pub updated_at: Seq<char>,
    pub finished_at: Option<Seq<char>>,
}

impl View for WorkflowRow {
    type V = WorkflowRowV;

    open spec fn view(&self) -> WorkflowRowV {
        WorkflowRowV {
            id: self.id@,
            deployment: self.deployment@,
            trigger: self.trigger@,
            status: self.status@,
            input: opt(self.input),
            output: opt_opt(self.output),
            error: opt(self.error),
            attempts: self.attempts,
            wake_at: self.wake_at,
            version: self.version@,
            created_at: self.created_at@,
            updated_at: self.updated_at@,
            finished_at: opt(self.finished_at),
        }
    }
}

impl WorkflowRow {
    /// A value equal to this one.
    pub fn copy(&self) -> (r: WorkflowRow)
        ensures
            r@ == self@,
    {
        WorkflowRow {
            id: self.id.clone(),
            deployment: self.deployment.clone(),
            trigger: self.trigger.clone(),
            status: self.status.clone(),
            input: copy_opt_json(&self.input),
            output: copy_opt_opt(&self.output),
            error: copy_opt(&self.error),
            attempts: self.attempts,
            wake_at: self.wake_at,
            version: self.version.clone(),
            created_at: self.created_at.clone(),
            updated_at: self.updated_at.clone(),
            finished_at: copy_opt(&self.finished_at),
        }
    }
}

/// A row of the table of durable state, keyed by `workflow_id` and `key`.
#[derive(Debug, PartialEq)]
pub struct KvRow {
    pub workflow_id: String,
    pub key: String,
    pub value: Option<Json>,
}

/// The mathematical value of a [`KvRow`].
#[verifier::ext_equal]
pub struct KvRowV {
    pub workflow_id: Seq<char>,
    pub key: Seq<char>,
    pub value: Option<JsonV>,
}

impl View for KvRow {
    type V = KvRowV;

    open spec fn view(&self) -> KvRowV {
        KvRowV {
            workflow_id: self.workflow_id@,
            key: self.key@,
            value: opt(self.value),
        }
    }
}

impl KvRow {
    /// A value equal to this one.
    pub fn copy(&self) -> (r: KvRow)
        ensures
            r@ == self@,
    {
        KvRow {
            workflow_id: self.workflow_id.clone(),
            key: self.key.clone(),
            value: copy_opt_json(&self.value),
        }
    }
}

/// A row of the table of signals, keyed by `id`.
#[derive(Debug, PartialEq)]
pub struct SignalRow {
    pub id: i64,
    pub workflow_id: String,
    pub name: String,
    pub payload: Option<Json>,
    pub consumed: i64,
    pub created_at: String,
}

/// The mathematical value of a [`SignalRow`].
#[verifier::ext_equal]
pub struct SignalRowV {
    pub id: i64,
    pub workflow_id: Seq<char>,
    pub name: Seq<char>,
    pub payload: Option<JsonV>,
    pub consumed: i64,
    pub created_at: Seq<char>,
}

impl View for SignalRow {
    type V = SignalRowV;

    open spec fn view(&self) -> SignalRowV {
        SignalRowV {
            id: self.id,
            workflow_id: self.workflow_id@,
            name: self.name@,
            payload: opt(self.payload),
            consumed: self.consumed,
            created_at: self.created_at@,
        }
    }
}

impl SignalRow {
    /// A value equal to this one.
    pub fn copy(&self) -> (r: SignalRow)
        ensures
            r@ == self@,
    {
        SignalRow {
            id: self.id,
            workflow_id: self.workflow_id.clone(),
            name: self.name.clone(),
            payload: copy_opt_json(&self.payload),
            consumed: self.consumed,
            created_at: self.created_at.clone(),
        }
    }
}

/// A row of the step journal, keyed by `workflow_id` and `step_seq`.
#[derive(Debug, PartialEq)]
pub struct StepRow {
    pub workflow_id: String,
    pub step_seq: i64,
    pub step_name: String,
    pub status: String,
    pub output: Option<Option<Json>>,
    pub error: Option<String>,
    pub duration_ms: Option<i64>,
    pub started_at: String,
    pub finished_at: Option<String>,
}

/// The mathematical value of a [`StepRow`].
#[verifier::ext_equal]
pub struct StepRowV {
    pub workflow_id: Seq<char>,
    pub step_seq: i64,
    pub step_name: Seq<char>,
    pub status: Seq<char>,
    pub output: Option<Option<JsonV>>,
    pub error: Option<Seq<char>>,
    pub duration_ms: Option<i64>,
    pub started_at: Seq<char>,
    pub finished_at: Option<Seq<char>>,
}

impl View for StepRow {
    type V = StepRowV;

    open spec fn view(&self) -> StepRowV {
        StepRowV {
            workflow_id: self.workflow_id@,
            step_seq: self.step_seq,
            step_name: self.step_name@,
            status: self.status@,
            output: opt_opt(self.output),
            error: opt(self.error),
            duration_ms: self.duration_ms,
            started_at: self.started_at@,
            finished_at: opt(self.finished_at),
        }
    }
}

impl StepRow {
    /// A value equal to this one.
    pub fn copy(&self) -> (r: StepRow)
        ensures
            r@ == self@,
    {
        StepRow {
            workflow_id: self.workflow_id.clone(),
            step_seq: self.step_seq,
            step_name: self.step_name.clone(),
            status: self.status.clone(),
            output: copy_opt_opt(&self.output),
            error: copy_opt(&self.error),
            duration_ms: self.duration_ms,
            started_at: self.started_at.clone(),
            finished_at: copy_opt(&self.finished_at),
        }
    }
}

/// A row of the table of events, keyed by `id`.
#[derive(Debug, PartialEq)]
pub struct EventRow {
    pub id: i64,
    pub workflow_id: String,
    pub ts: String,
    pub kind: String,
    pub payload: Option<Json>,
}

/// The mathematical value of a [`EventRow`].
#[verifier::ext_equal]
pub struct EventRowV {
    pub id: i64,
    pub workflow_id: Seq<char>,
    pub ts: Seq<char>,
    pub kind: Seq<char>,
    pub payload: Option<JsonV>,
}

impl View for EventRow {
    type V = EventRowV;

    open spec fn view(&self) -> EventRowV {
        EventRowV {
            id: self.id,
            workflow_id: self.workflow_id@,
            ts: self.ts@,
            kind: self.kind@,
            payload: opt(self.payload),
        }
    }
}

impl EventRow {
    /// A value equal to this one.
    pub fn copy(&self) -> (r: EventRow)
        ensures
            r@ == self@,
    {
        EventRow {
            id: self.id,
            workflow_id: self.workflow_id.clone(),
            ts: self.ts.clone(),
            kind: self.kind.clone(),
            payload: copy_opt_json(&self.payload),
        }
    }
}

/// A row of the table of log lines, keyed by `id`.
#[derive(Debug, PartialEq)]
pub struct LogRow {
    pub id: i64,
    pub workflow_id: String,
    pub ts: String,
    pub stream: String,
    pub line: String,
}

/// The mathematical value of a [`LogRow`].
#[verifier::ext_equal]
pub struct LogRowV {
    pub id: i64,
    pub workflow_id: Seq<char>,
    pub ts: Seq<char>,
    pub stream: Seq<char>,
    pub line: Seq<char>,
}

impl View for LogRow {
    type V = LogRowV;

    open spec fn view(&self) -> LogRowV {
        LogRowV {
            id: self.id,
            workflow_id: self.workflow_id@,
            ts: self.ts@,
            stream: self.stream@,
            line: self.line@,
        }
    }
}

impl LogRow {
    /// A value equal to this one.
    pub fn copy(&self) -> (r: LogRow)
        ensures
            r@ == self@,
    {
        LogRow {
            id: self.id,
            workflow_id: self.workflow_id.clone(),
            ts: self.ts.clone(),
            stream: self.stream.clone(),
            line: self.line.clone(),
        }
    }
}

} // verus!

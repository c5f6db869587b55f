//! The worker: submits workflows, follows what their processes say, journals
//! their steps, and parks, resumes and retries them.

use std::collections::hash_map::DefaultHasher;
use std::collections::HashMap;
use std::hash::Hasher;
use vstd::bytes::{spec_u64_to_le_bytes, u64_to_le_bytes};
use vstd::prelude::*;
use vstd::std_specs::hash::DefaultHasherAdditionalSpecFns;
use vstd::utf8::encode_utf8;
use crate::config::{Deployment, DeploymentV};
use crate::json::{
    copy_members, lemma_obj_view, members, merge, merge_of, no_members, object, push_member,
    text_value, Json, JsonV, Members,
};
use crate::protocol::{
    journal_view, opt_real, opt_real_of, Ack, Context, Envelope, EnvelopeV, FlowMsg,
    FlowMsgV, KvWrite, SignalDelivery, SignalDeliveryV,
};
use crate::store::{Store, StepRecord, StoreError, Workflow, WorkflowV};
use crate::tables::{
    deployment_of, is_due, is_running_list, is_state, journal_of, running_of, signal_members,
    unconsumed, workflows_of, StoreV,
};
use crate::text::{
    blank, chars_of, decimal_of, decimal_u64, hex, hex_of, is_blank, lemma_take_step,
    lemma_views_push, opt, str_eq,
    string_of, views,
};

verus! {

// ---------------------------------------------------------------------------
// Versions and ids
// ---------------------------------------------------------------------------

/// What is hashed of a command: the number of its words, and each word with a
/// byte behind it that no word can hold.
pub open spec fn hashed(cmd: Seq<Seq<char>>) -> Seq<Seq<u8>>
    decreases cmd.len(),
{
    if cmd.len() == 0 {
        Seq::empty()
    } else {
        hashed(cmd.drop_last()).push(encode_utf8(cmd.last())).push(seq![0xffu8])
    }
}

/// The fingerprint of a command.
pub open spec fn version(cmd: Seq<Seq<char>>) -> Seq<char> {
    hex_of(
        DefaultHasher::spec_finish(
            seq![spec_u64_to_le_bytes(cmd.len() as u64)] + hashed(cmd),
        ) as nat,
    )
}

/// A short, stable fingerprint of a command: the version of a workflow's code.
pub fn version_of(cmd: &Vec<String>) -> (r: String)
    ensures
        r@ == version(views(cmd@)),
{
    let ghost words = views(cmd@);
    let mut h = DefaultHasher::new();
    let n = u64_to_le_bytes(cmd.len() as u64);
    h.write(n.as_slice());
    let ghost first = seq![spec_u64_to_le_bytes(cmd@.len() as u64)];
    let mut i: usize = 0;
    assert(h@ =~= first + hashed(words.take(0)));
    while i < cmd.len()
        invariant
            i <= cmd@.len(),
            words == views(cmd@),
            h@ == first + hashed(words.take(i as int)),
        decreases cmd@.len() - i,
    {
        proof {
            assert(words.take(i + 1).drop_last() =~= words.take(i as int));
            assert(words.take(i + 1).last() == words[i as int]);
        }
        let ghost before = hashed(words.take(i as int));
        h.write(cmd[i].as_str().as_bytes());
        let mut end: Vec<u8> = Vec::new();
        end.push(0xff);
        h.write(end.as_slice());
        assert(end@ =~= seq![0xffu8]);
        assert(h@ =~= first + before.push(encode_utf8(words[i as int])).push(seq![0xffu8]));
        i = i + 1;
    }
    assert(words.take(words.len() as int) =~= words);
    hex(h.finish())
}

/// The digits of a lower-case hexadecimal number.
pub open spec fn is_hex_digit(c: char) -> bool {
    '0' <= c <= '9' || 'a' <= c <= 'f'
}

/// Whether a text can be a fresh identifier: 32 hexadecimal digits.
pub open spec fn is_token(s: Seq<char>) -> bool {
    s.len() == 32 && forall|i: int| 0 <= i < s.len() ==> is_hex_digit(#[trigger] s[i])
}

/// Calls `uuid::Uuid::new_v4`, and `to_string` on its `simple` form.
///
/// Which identifier comes is left to chance. The simple form of any is 32
/// lower-case hexadecimal digits.
#[verifier::external_body]
pub(crate) fn token() -> (r: String)
    ensures
        is_token(r@),
{
    uuid::Uuid::new_v4().simple().to_string()
}

/// The id of a workflow that was submitted without one.
pub open spec fn fresh_id(token: Seq<char>) -> Seq<char> {
    "w-"@ + token.take(8)
}

// ---------------------------------------------------------------------------
// The state of the worker
// ---------------------------------------------------------------------------

/// A workflow whose process is to be started and supervised.
#[derive(Debug, PartialEq)]
pub struct Launch {
    pub dep: Deployment,
    pub workflow_id: String,
    pub input: Json,
}

/// The mathematical value of a [`Launch`].
#[verifier::ext_equal]
pub struct LaunchV {
    pub dep: DeploymentV,
    pub workflow_id: Seq<char>,
    pub input: JsonV,
}

impl View for Launch {
    type V = LaunchV;

    open spec fn view(&self) -> LaunchV {
        LaunchV { dep: self.dep@, workflow_id: self.workflow_id@, input: self.input@ }
    }
}

/// How one execution of a workflow ended, as far as its process said so.
#[derive(Debug, PartialEq)]
pub enum Terminal {
    /// With what the workflow returns.
    Success(Json),
    Failure,
    /// Until an instant, or, without one, until a signal.
    Parked(Option<i64>),
}

/// How one execution of a workflow ended.
pub enum TerminalV {
    Success(JsonV),
    Failure,
    Parked(Option<i64>),
}

impl View for Terminal {
    type V = TerminalV;

    open spec fn view(&self) -> TerminalV {
        match self {
            Terminal::Success(output) => TerminalV::Success(output@),
            Terminal::Failure => TerminalV::Failure,
            Terminal::Parked(wake_at) => TerminalV::Parked(*wake_at),
        }
    }
}

impl Terminal {
    /// A value equal to this one.
    pub fn copy(&self) -> (r: Terminal)
        ensures
            r@ == self@,
    {
        match self {
            Terminal::Success(output) => Terminal::Success(output.copy()),
            Terminal::Failure => Terminal::Failure,
            Terminal::Parked(wake_at) => Terminal::Parked(*wake_at),
        }
    }
}

/// One execution of a workflow: what its process said, and whether it ended well.
#[derive(Debug)]
pub struct ExecResult {
    pub terminal: Option<Terminal>,
    pub exit_ok: bool,
}

/// One execution of a workflow.
pub struct ExecResultV {
    pub terminal: Option<TerminalV>,
    pub exit_ok: bool,
}

impl View for ExecResult {
    type V = ExecResultV;

    open spec fn view(&self) -> ExecResultV {
        ExecResultV { terminal: opt(self.terminal), exit_ok: self.exit_ok }
    }
}

/// What became of a change in the database.
pub enum Written {
    /// It is there.
    Durable,
    /// It is not there. What is there instead.
    Reloaded(Store),
    /// It is not there, and what is there could not be read.
    Lost,
}

/// What became of a change in the database.
pub enum WrittenV {
    Durable,
    Reloaded(StoreV),
    Lost,
}

impl View for Written {
    type V = WrittenV;

    open spec fn view(&self) -> WrittenV {
        match self {
            Written::Durable => WrittenV::Durable,
            Written::Reloaded(store) => WrittenV::Reloaded(store@),
            Written::Lost => WrittenV::Lost,
        }
    }
}

/// What follows a line of a workflow's process.
#[derive(Debug, PartialEq)]
pub struct Heard {
    /// What the process is answered.
    pub answer: Option<Ack>,
    /// How the execution ends, as far as that is known.
    pub terminal: Option<Terminal>,
    /// Whether it is listened to any further.
    pub listen: bool,
}

/// What follows a line of a workflow's process, given how the execution would have ended
/// before it and what was made of it. `None` means that it could not be written: then
/// there is no answer, the line counts for nothing, and the process is heard no further.
pub fn after_line(
    before: Option<Terminal>,
    heard: Option<(Option<Ack>, Option<Terminal>)>,
) -> (r: Heard)
    ensures
        match heard {
            Some((answer, terminal)) => r.answer == answer && r.terminal == terminal && r.listen,
            None => r.answer is None && r.terminal == before && !r.listen,
        },
{
    match heard {
        Some((answer, terminal)) => Heard { answer, terminal, listen: true },
        None => Heard { answer: None, terminal: before, listen: false },
    }
}

/// Why a workflow is not started.
#[derive(Clone, Copy, Debug, PartialEq, Eq, Structural)]
pub enum TriggerError {
    /// As many workflows of the deployment run as may.
    Limit,
    /// A workflow of the deployment is active.
    Overlap,
    /// The store refuses it.
    Store(StoreError),
}

impl TriggerError {
    /// The error in words, for a deployment.
    pub open spec fn message_of(self, dep: DeploymentV) -> Seq<char> {
        match self {
            TriggerError::Limit => "concurrency limit "@ + decimal_of(dep.concurrency as int)
                + " reached for '"@ + dep.name + "'"@,
            TriggerError::Overlap => "overlap=skip: '"@ + dep.name
                + "' already has an active workflow"@,
            TriggerError::Store(e) => e.message_of(),
        }
    }

    /// The error in words, for a deployment.
    pub fn message(&self, dep: &Deployment) -> (r: String)
        ensures
            r@ == self.message_of(dep@),
    {
        match self {
            TriggerError::Limit => {
                let mut s = "concurrency limit ".to_string();
                s.append(decimal_u64(dep.concurrency as u64).as_str());
                s.append(" reached for '");
                s.append(dep.name.as_str());
                s.append("'");
                s
            },
            TriggerError::Overlap => {
                let mut s = "overlap=skip: '".to_string();
                s.append(dep.name.as_str());
                s.append("' already has an active workflow");
                s
            },
            TriggerError::Store(e) => e.message(),
        }
    }
}

/// The worker: the store, the deployments with an active workflow, what clients
/// are to be told, and the workflows to be started.
#[verifier::ext_equal]
pub struct WorkerV {
    pub store: StoreV,
    pub root: Seq<char>,
    pub active: Set<Seq<char>>,
    pub sent: Seq<EnvelopeV>,
    pub launches: Seq<LaunchV>,
}

/// An object with one member, its type.
pub open spec fn typed(kind: Seq<char>) -> JsonV {
    JsonV::Obj(seq![("type"@, JsonV::Str(kind))])
}

/// What clients are told of a step that succeeded.
pub open spec fn step_success(seq: u32, name: Seq<char>, duration_ms: u64) -> Members {
    seq![
        ("type"@, JsonV::Str("step_success"@)),
        ("seq"@, JsonV::Int(seq as int)),
        ("task"@, JsonV::Str(name)),
        ("duration_ms"@, JsonV::Int(duration_ms as int)),
    ]
}

impl WorkerV {
    /// With another store.
    pub open spec fn with_store(self, store: StoreV) -> WorkerV {
        WorkerV { store, ..self }
    }

    /// With one more thing to tell clients.
    pub open spec fn told(self, e: EnvelopeV) -> WorkerV {
        WorkerV { sent: self.sent.push(e), ..self }
    }

    /// With an event recorded and told. One that could not be recorded is told
    /// under the number zero.
    pub open spec fn noted(
        self,
        id: Seq<char>,
        kind: Seq<char>,
        payload: JsonV,
        now: Seq<char>,
    ) -> WorkerV {
        let seq = match self.store.tables.next_event() {
            Some(n) => n,
            None => 0,
        };
        self.with_store(self.store.event_added(id, kind, payload, now)).told(
            EnvelopeV { workflow_id: id, seq, ts: now, kind: "event"@, payload },
        )
    }

    /// With a log line recorded and told.
    pub open spec fn logged(
        self,
        id: Seq<char>,
        stream: Seq<char>,
        line: Seq<char>,
        now: Seq<char>,
    ) -> WorkerV {
        let seq = match self.store.tables.next_log() {
            Some(n) => n,
            None => 0,
        };
        let payload = JsonV::Obj(
            seq![("stream"@, JsonV::Str(stream)), ("line"@, JsonV::Str(line))],
        );
        self.with_store(self.store.log_added(id, stream, line, now)).told(
            EnvelopeV { workflow_id: id, seq, ts: now, kind: "log"@, payload },
        )
    }

    /// With a workflow to be started, of a deployment that is active from now on.
    pub open spec fn launched(self, dep: DeploymentV, id: Seq<char>, input: JsonV) -> WorkerV {
        WorkerV {
            launches: self.launches.push(LaunchV { dep, workflow_id: id, input }),
            ..self
        }
    }

    /// With an active deployment.
    pub open spec fn activated(self, name: Seq<char>) -> WorkerV {
        WorkerV { active: self.active.insert(name), ..self }
    }

    /// Whether as many workflows of a deployment run as may.
    pub open spec fn is_full(self, dep: DeploymentV) -> bool {
        dep.concurrency > 0 && self.store.tables.workflows.filter(running_of(dep.name)).len()
            >= dep.concurrency
    }

    /// Whether a deployment lets no second workflow run, and one is active.
    pub open spec fn is_blocked(self, dep: DeploymentV) -> bool {
        dep.overlap == "skip"@ && self.active.contains(dep.name)
    }

    /// What a submission comes to: a workflow of that id is returned as it is;
    /// else the limits of the deployment are heeded, and a new one is started.
    pub open spec fn triggered(
        self,
        dep: DeploymentV,
        trigger: Seq<char>,
        extra: JsonV,
        id: Option<Seq<char>>,
        token: Seq<char>,
        now: Seq<char>,
    ) -> (WorkerV, Result<Seq<char>, TriggerError>) {
        let known = match id {
            Some(wid) => self.store.tables.workflow(wid) is Some,
            None => false,
        };
        if known {
            (self, Ok(id.unwrap()))
        } else if self.is_full(dep) {
            (self, Err(TriggerError::Limit))
        } else if self.is_blocked(dep) {
            (self, Err(TriggerError::Overlap))
        } else {
            let wid = match id {
                Some(wid) => wid,
                None => fresh_id(token),
            };
            let input = merge_of(JsonV::Obj(dep.params), extra);
            let w = self.activated(dep.name);
            if self.store.tables.workflow(wid) is Some {
                (w, Err(TriggerError::Store(StoreError::Duplicate)))
            } else {
                (
                    w.with_store(
                        self.store.created(wid, dep.name, trigger, input, version(dep.cmd), now),
                    ).launched(dep, wid, input),
                    Ok(wid),
                )
            }
        }
    }

    /// The deployment of a name, if there is one that can be read.
    pub open spec fn deployment(self, name: Seq<char>) -> Option<DeploymentV> {
        match self.store.tables.deployment(name) {
            Some(row) => deployment_of(row),
            None => None,
        }
    }

    /// With a workflow ended before it could be resumed.
    pub open spec fn failed(self, id: Seq<char>, reason: Seq<char>, now: Seq<char>) -> WorkerV {
        self.with_store(self.store.finished(id, "failed"@, None, Some(reason), now))
    }

    /// With a workflow dispatched again. One whose deployment is gone, or has another
    /// command than when it was submitted, is ended.
    pub open spec fn resumed(self, wf: WorkflowV, event: Seq<char>, now: Seq<char>) -> WorkerV {
        match self.deployment(wf.deployment) {
            None => self.failed(wf.id, "deployment removed"@, now),
            Some(dep) => if wf.version.len() > 0 && version(dep.cmd) != wf.version {
                self.failed(
                    wf.id,
                    "version mismatch: deployment command changed since submission"@,
                    now,
                )
            } else {
                let w = self.activated(dep.name);
                w.with_store(w.store.set_running(wf.id, now)).noted(
                    wf.id,
                    event,
                    typed(event),
                    now,
                ).launched(dep, wf.id, wf.input)
            },
        }
    }

    /// With several workflows dispatched again, one after the other.
    pub open spec fn resumed_all(
        self,
        ws: Seq<WorkflowV>,
        event: Seq<char>,
        now: Seq<char>,
    ) -> WorkerV
        decreases ws.len(),
    {
        if ws.len() == 0 {
            self
        } else {
            self.resumed_all(ws.drop_last(), event, now).resumed(ws.last(), event, now)
        }
    }

    /// With those of several workflows woken whose deployment is not active when
    /// their turn comes.
    pub open spec fn woken(self, ws: Seq<WorkflowV>, now: Seq<char>) -> WorkerV
        decreases ws.len(),
    {
        if ws.len() == 0 {
            self
        } else {
            let w = self.woken(ws.drop_last(), now);
            if w.active.contains(ws.last().deployment) {
                w
            } else {
                w.resumed(ws.last(), "workflow_wake"@, now)
            }
        }
    }

    /// With a workflow woken that waits or sleeps, now that it has a signal.
    pub open spec fn signalled(self, id: Seq<char>, now: Seq<char>) -> WorkerV {
        match self.store.tables.get_workflow(id) {
            Some(wf) => if wf.status == "waiting"@ || wf.status == "sleeping"@ {
                self.resumed(wf, "workflow_signalled"@, now)
            } else {
                self
            },
            None => self,
        }
    }

    /// With a step journaled as done and told.
    pub open spec fn journaled(
        self,
        id: Seq<char>,
        seq: u32,
        name: Seq<char>,
        output: JsonV,
        duration_ms: u64,
        now: Seq<char>,
    ) -> WorkerV {
        self.with_store(
            self.store.step_put(
                id,
                seq as i64,
                name,
                "success"@,
                Some(output),
                None,
                Some(duration_ms as i64),
                now,
            ),
        ).noted(id, "step_success"@, JsonV::Obj(step_success(seq, name, duration_ms)), now)
    }

    /// As what the journal has a step that is skipped: one that is done stays done.
    pub open spec fn skip_status(self, id: Seq<char>, seq: u32) -> Seq<char> {
        if self.store.tables.is_done(id, seq as i64) {
            "success"@
        } else {
            "skipped"@
        }
    }

    /// With what a message changes in the journal.
    pub open spec fn stepped(self, id: Seq<char>, msg: FlowMsgV, now: Seq<char>) -> WorkerV {
        match msg {
            FlowMsgV::StepStart { seq, name, .. } => self.with_store(
                self.store.step_put(id, seq as i64, name, "started"@, None, None, None, now),
            ),
            FlowMsgV::StepSkipped { seq, name, .. } => self.with_store(
                self.store.step_put(
                    id,
                    seq as i64,
                    name,
                    self.skip_status(id, seq),
                    None,
                    None,
                    Some(0),
                    now,
                ),
            ),
            FlowMsgV::StepFailure { seq, name, duration_ms, error } => self.with_store(
                self.store.step_put(
                    id,
                    seq as i64,
                    name,
                    "failed"@,
                    None,
                    Some(error),
                    Some(duration_ms as i64),
                    now,
                ),
            ),
            _ => self,
        }
    }

    /// With a message that asks for no answer taken in.
    pub open spec fn applied(self, id: Seq<char>, msg: FlowMsgV, now: Seq<char>) -> WorkerV {
        self.stepped(id, msg, now).noted(id, msg.kind(), msg.json(), now)
    }

    /// With a message taken in.
    pub open spec fn heard(self, id: Seq<char>, msg: FlowMsgV, now: Seq<char>) -> WorkerV {
        match msg {
            FlowMsgV::StepResult { seq, name, duration_ms, output, writes } => if writes.len()
                == 0 {
                self.journaled(id, seq, name, output, duration_ms, now)
            } else {
                self.with_store(
                    self.store.committed(
                        id,
                        seq as i64,
                        name,
                        output,
                        duration_ms as i64,
                        writes,
                        now,
                    ),
                ).noted(
                    id,
                    "step_success"@,
                    JsonV::Obj(
                        step_success(seq, name, duration_ms).push(
                            ("writes"@, JsonV::Int(writes.len() as int)),
                        ),
                    ),
                    now,
                )
            },
            FlowMsgV::SignalConsume { seq, name, payload } => self.with_store(
                self.store.consumed(id, name),
            ).journaled(id, seq, "signal:"@ + name, payload, 0, now),
            FlowMsgV::WorkflowPark { wake_at } => self.noted(
                id,
                "workflow_park"@,
                JsonV::Obj(
                    seq![
                        ("type"@, JsonV::Str("workflow_park"@)),
                        ("wake_at"@, opt_real_of(wake_at)),
                    ],
                ),
                now,
            ),
            _ => self.applied(id, msg, now),
        }
    }

    /// With a line of a workflow's process taken in: a blank one is nothing, and one
    /// that is no message is a log line.
    pub open spec fn line_heard(
        self,
        id: Seq<char>,
        line: Seq<char>,
        msg: Option<FlowMsgV>,
        now: Seq<char>,
    ) -> WorkerV {
        if is_blank(line) {
            self
        } else {
            match msg {
                Some(m) => self.heard(id, m, now),
                None => self.logged(id, "sdk"@, line, now),
            }
        }
    }

    /// What an execution of a workflow comes to: whether it is dispatched again.
    pub open spec fn supervised(
        self,
        dep: DeploymentV,
        id: Seq<char>,
        res: ExecResultV,
        now: Seq<char>,
    ) -> (WorkerV, Result<bool, StoreError>) {
        let done = |status: Seq<char>, output: Option<JsonV>, error: Option<Seq<char>>|
            (
                self.with_store(self.store.finished(id, status, output, error, now)),
                Ok::<bool, StoreError>(false),
            );
        match res.terminal {
            Some(TerminalV::Success(output)) => done("success"@, Some(output), None),
            Some(TerminalV::Failure) => done("failed"@, None, Some("workflow reported failure"@)),
            Some(TerminalV::Parked(wake_at)) => (
                self.with_store(self.store.parked(id, wake_at, now)),
                Ok(false),
            ),
            None => {
                let attempts = self.attempts(id);
                if res.exit_ok {
                    done("success"@, None, None)
                } else if (attempts as u32) < dep.retries {
                    let w = self.with_store(self.store.attempted(id, now));
                    let payload = JsonV::Obj(
                        seq![
                            ("type"@, JsonV::Str("workflow_resume"@)),
                            ("attempt"@, JsonV::Int(attempts + 1)),
                        ],
                    );
                    if w.store.tables.next_event() is Some {
                        (w.noted(id, "workflow_resume"@, payload, now), Ok(true))
                    } else {
                        (w, Err(StoreError::Full))
                    }
                } else {
                    done("failed"@, None, Some("crashed"@))
                }
            },
        }
    }

    /// What an execution of a workflow comes to, and with its deployment released unless
    /// it is dispatched again. Where the store refuses, the workflow has failed for that.
    pub open spec fn concluded(
        self,
        dep: DeploymentV,
        id: Seq<char>,
        res: ExecResultV,
        now: Seq<char>,
    ) -> (WorkerV, Result<bool, StoreError>) {
        let (w, again) = self.supervised(dep, id, res, now);
        match again {
            Ok(true) => (w, again),
            Ok(false) => (w.released(dep.name, id, None, now), again),
            Err(e) => (w.released(dep.name, id, Some(e.message_of()), now), again),
        }
    }

    /// With a change settled, given which deployments were active before it and what
    /// became of it in the database; with what is told and what is started. What could
    /// not be written is undone, and nobody hears of it.
    pub open spec fn settled(self, active: Set<Seq<char>>, written: WrittenV) -> (
        WorkerV,
        Seq<EnvelopeV>,
        Seq<LaunchV>,
    ) {
        let quiet = WorkerV { sent: Seq::empty(), launches: Seq::empty(), ..self };
        match written {
            WrittenV::Durable => (quiet, self.sent, self.launches),
            WrittenV::Reloaded(store) => (
                WorkerV { store, active, ..quiet },
                Seq::empty(),
                Seq::empty(),
            ),
            WrittenV::Lost => (WorkerV { active, ..quiet }, Seq::empty(), Seq::empty()),
        }
    }

    /// How often a workflow was dispatched again.
    pub open spec fn attempts(self, id: Seq<char>) -> i64 {
        match self.store.tables.workflow(id) {
            Some(r) => r.attempts,
            None => 0,
        }
    }

    /// With the supervision of a workflow over. A reason why it broke off ends the
    /// workflow.
    pub open spec fn released(
        self,
        name: Seq<char>,
        id: Seq<char>,
        error: Option<Seq<char>>,
        now: Seq<char>,
    ) -> WorkerV {
        let w = match error {
            Some(e) => self.failed(id, e, now),
            None => self,
        };
        WorkerV { active: w.active.remove(name), ..w }
    }
}

/// The answer that a message asks for.
pub open spec fn answer(msg: FlowMsgV) -> Option<u32> {
    match msg {
        FlowMsgV::StepResult { seq, .. } => Some(seq),
        FlowMsgV::SignalConsume { seq, .. } => Some(seq),
        _ => None,
    }
}

/// What a message says of how the execution ends.
pub open spec fn ending(msg: FlowMsgV) -> Option<TerminalV> {
    match msg {
        FlowMsgV::WorkflowSuccess { output } => Some(TerminalV::Success(output)),
        FlowMsgV::WorkflowFailure { .. } => Some(TerminalV::Failure),
        FlowMsgV::WorkflowPark { wake_at } => Some(TerminalV::Parked(wake_at)),
        _ => None,
    }
}

/// The signals of a workflow as they are delivered.
pub open spec fn deliveries(m: Members) -> Seq<SignalDeliveryV> {
    Seq::new(m.len(), |i: int| SignalDeliveryV { name: m[i].0, payload: m[i].1 })
}

// ---------------------------------------------------------------------------
// The worker
// ---------------------------------------------------------------------------

/// The worker.
pub struct Worker {
    pub store: Store,
    /// Where the flows stand.
    pub root: String,
    /// The deployments with an active workflow.
    pub active: Vec<String>,
    /// What clients are to be told.
    pub sent: Vec<Envelope>,
    /// The workflows to be started.
    pub launches: Vec<Launch>,
}

impl View for Worker {
    type V = WorkerV;

    open spec fn view(&self) -> WorkerV {
        WorkerV {
            store: self.store@,
            root: self.root@,
            active: views(self.active@).to_set(),
            sent: views(self.sent@),
            launches: views(self.launches@),
        }
    }
}

fn contains(v: &Vec<String>, name: &str) -> (r: bool)
    ensures
        r == views(v@).to_set().contains(name@),
{
    let key = name.to_string();
    let mut i: usize = 0;
    while i < v.len()
        invariant
            i <= v@.len(),
            key@ == name@,
            forall|j: int| 0 <= j < i ==> (#[trigger] v@[j])@ != name@,
        decreases v@.len() - i,
    {
        if v[i] == key {
            assert(views(v@)[i as int] == name@);
            return true;
        }
        i = i + 1;
    }
    assert(!views(v@).contains(name@));
    false
}

fn insert(v: &mut Vec<String>, name: &str)
    ensures
        views(final(v)@).to_set() == views(old(v)@).to_set().insert(name@),
{
    broadcast use {lemma_views_push, Seq::lemma_push_to_set_commute};

    if contains(v, name) {
        assert(views(v@).to_set().insert(name@) =~= views(v@).to_set());
    } else {
        v.push(name.to_string());
    }
}

fn without(v: &Vec<String>, name: &str) -> (r: Vec<String>)
    ensures
        views(r@).to_set() == views(v@).to_set().remove(name@),
{
    broadcast use lemma_views_push;

    let ghost all = views(v@);
    let key = name.to_string();
    let mut r: Vec<String> = Vec::new();
    let mut i: usize = 0;
    assert(views(r@).to_set() =~= all.take(0).to_set().remove(name@));
    while i < v.len()
        invariant
            i <= v@.len(),
            all == views(v@),
            key@ == name@,
            views(r@).to_set() == all.take(i as int).to_set().remove(name@),
        decreases v@.len() - i,
    {
        proof {
            lemma_take_step(all, i as int);
        }
        let ghost before = all.take(i as int).to_set();
        proof {
            all.take(i as int).lemma_push_to_set_commute(all[i as int]);
        }
        if v[i] != key {
            let ghost kept = views(r@);
            r.push(v[i].clone());
            proof {
                kept.lemma_push_to_set_commute(all[i as int]);
                assert(views(r@) == kept.push(all[i as int]));
                assert(views(r@).to_set() == kept.to_set().insert(all[i as int]));
            }
            assert(before.insert(all[i as int]).remove(name@) =~= before.remove(name@).insert(
                all[i as int],
            ));
        } else {
            assert(before.insert(name@).remove(name@) =~= before.remove(name@));
        }
        i = i + 1;
    }
    assert(all.take(all.len() as int) =~= all);
    r
}

/// An object with one member, its type.
fn typed_value(kind: &str) -> (r: Json)
    ensures
        r@ == typed(kind@),
{
    let mut m = no_members();
    push_member(&mut m, "type", text_value(kind));
    let r = object(m);
    assert(r@->Obj_0 =~= typed(kind@)->Obj_0);
    r
}

fn step_success_members(seq: u32, name: &str, duration_ms: u64) -> (m: Vec<(String, Json)>)
    ensures
        members(m@) == step_success(seq, name@, duration_ms),
{
    let mut m = no_members();
    push_member(&mut m, "type", text_value("step_success"));
    push_member(&mut m, "seq", Json::Int(seq as i128));
    push_member(&mut m, "task", text_value(name));
    push_member(&mut m, "duration_ms", Json::Int(duration_ms as i128));
    assert(members(m@) =~= step_success(seq, name@, duration_ms));
    m
}

impl Worker {
    /// A worker on a store, whose flows stand under `root`.
    pub fn new(store: Store, root: String) -> (r: Worker)
        ensures
            r@ == (WorkerV {
                store: store@,
                root: root@,
                active: Set::empty(),
                sent: Seq::empty(),
                launches: Seq::empty(),
            }),
    {
        let r = Worker {
            store,
            root,
            active: Vec::new(),
            sent: Vec::new(),
            launches: Vec::new(),
        };
        assert(r@.active =~= Set::<Seq<char>>::empty());
        r
    }

    /// Whether a deployment has an active workflow.
    pub fn is_active(&self, name: &str) -> (r: bool)
        ensures
            r == self@.active.contains(name@),
    {
        contains(&self.active, name)
    }

    /// Hands out what clients are to be told, oldest first.
    pub fn take_sent(&mut self) -> (r: Vec<Envelope>)
        ensures
            views(r@) == old(self)@.sent,
            final(self)@ == (WorkerV { sent: Seq::empty(), ..old(self)@ }),
    {
        let mut r: Vec<Envelope> = Vec::new();
        std::mem::swap(&mut r, &mut self.sent);
        assert(self@.sent =~= Seq::<EnvelopeV>::empty());
        r
    }

    /// Hands out the workflows to be started, oldest first.
    pub fn take_launches(&mut self) -> (r: Vec<Launch>)
        ensures
            views(r@) == old(self)@.launches,
            final(self)@ == (WorkerV { launches: Seq::empty(), ..old(self)@ }),
    {
        let mut r: Vec<Launch> = Vec::new();
        std::mem::swap(&mut r, &mut self.launches);
        assert(self@.launches =~= Seq::<LaunchV>::empty());
        r
    }

    /// Submits a workflow. An id makes that idempotent: where a workflow has it, the
    /// id is returned and nothing is done. Without one the workflow gets a fresh id.
    pub fn trigger(
        &mut self,
        dep: Deployment,
        trigger: &str,
        extra_input: Json,
        id: Option<String>,
        now: &str,
    ) -> (r: Result<String, TriggerError>)
        ensures
            exists|t: Seq<char>|
                is_token(t) && (
                    final(self)@,
                    match r {
                        Ok(s) => Ok::<Seq<char>, TriggerError>(s@),
                        Err(e) => Err(e),
                    },
                ) == #[trigger] old(self)@.triggered(
                    dep@,
                    trigger@,
                    extra_input@,
                    opt(id),
                    t,
                    now@,
                ),
    {
        let t = token();
        self.trigger_with(dep, trigger, extra_input, id, t.as_str(), now)
    }

    /// Submits a workflow that gets the id of a token if it has none.
    pub fn trigger_with(
        &mut self,
        dep: Deployment,
        trigger: &str,
        extra_input: Json,
        id: Option<String>,
        token: &str,
        now: &str,
    ) -> (r: Result<String, TriggerError>)
        requires
            is_token(token@),
        ensures
            (
                final(self)@,
                match r {
                    Ok(s) => Ok::<Seq<char>, TriggerError>(s@),
                    Err(e) => Err(e),
                },
            ) == old(self)@.triggered(dep@, trigger@, extra_input@, opt(id), token@, now@),
    {
        broadcast use lemma_obj_view;

        let known = match &id {
            Some(wid) => self.store.get_workflow(wid.as_str()).is_some(),
            None => false,
        };
        if known {
            if let Some(wid) = id {
                return Ok(wid);
            }
        }
        if dep.concurrency > 0 && self.store.count_running(dep.name.as_str()) as u64
            >= dep.concurrency as u64 {
            return Err(TriggerError::Limit);
        }
        if str_eq(dep.overlap.as_str(), "skip") && self.is_active(dep.name.as_str()) {
            return Err(TriggerError::Overlap);
        }
        insert(&mut self.active, dep.name.as_str());
        let mut input = Json::Obj(copy_members(&dep.params));
        assert(input@ == JsonV::Obj(dep@.params));
        merge(&mut input, extra_input);
        let wid = match id {
            Some(wid) => wid,
            None => {
                let mut s = "w-".to_string();
                let v = chars_of(token);
                assert(v@.subrange(0, 8) =~= token@.take(8));
                s.append(string_of(&v, 0, 8).as_str());
                s
            },
        };
        let code = version_of(&dep.cmd);
        match self.store.create_workflow(
            wid.as_str(),
            dep.name.as_str(),
            trigger,
            &input,
            code.as_str(),
            now,
        ) {
            Ok(_) => {
                let answer = wid.clone();
                self.spawn_supervise(dep, wid, input);
                Ok(answer)
            },
            Err(e) => Err(TriggerError::Store(e)),
        }
    }

    /// Resumes every workflow that was running when the previous daemon ended, and
    /// tells how many there were.
    pub fn recover(&mut self, now: &str) -> (r: usize)
        ensures
            exists|ws: Seq<WorkflowV>|
                #[trigger] is_running_list(old(self)@.store.tables.workflows, ws) && r == ws.len()
                    && final(self)@ == old(self)@.resumed_all(ws, "workflow_recovered"@, now@),
    {
        let running = self.store.list_running();
        let ghost ws = views(running@);
        let mut i: usize = 0;
        let ghost start = self@;
        assert(ws.take(0) =~= Seq::<WorkflowV>::empty());
        while i < running.len()
            invariant
                i <= running@.len(),
                ws == views(running@),
                self@ == start.resumed_all(ws.take(i as int), "workflow_recovered"@, now@),
            decreases running@.len() - i,
        {
            proof {
                assert(ws.take(i + 1).drop_last() =~= ws.take(i as int));
                assert(ws.take(i + 1).last() == ws[i as int]);
            }
            self.resume(&running[i], "workflow_recovered", now);
            i = i + 1;
        }
        assert(ws.take(ws.len() as int) =~= ws);
        assert(is_running_list(start.store.tables.workflows, ws));
        running.len()
    }

    /// Dispatches a workflow again, unless its deployment is gone or has another
    /// command than when it was submitted.
    pub fn resume(&mut self, wf: &Workflow, event: &str, now: &str)
        ensures
            final(self)@ == old(self)@.resumed(wf@, event@, now@),
    {
        let dep = match self.store.get_deployment(wf.deployment.as_str()) {
            Ok(d) => d,
            Err(_) => None,
        };
        let dep = match dep {
            Some(d) => d,
            None => {
                self.store.finish_workflow(
                    wf.id.as_str(),
                    "failed",
                    None,
                    Some("deployment removed".to_string()),
                    now,
                );
                return ;
            },
        };
        if chars_of(wf.version.as_str()).len() > 0 && version_of(&dep.cmd) != wf.version {
            self.store.finish_workflow(
                wf.id.as_str(),
                "failed",
                None,
                Some("version mismatch: deployment command changed since submission".to_string()),
                now,
            );
            return ;
        }
        insert(&mut self.active, dep.name.as_str());
        self.store.set_running(wf.id.as_str(), now);
        self.note(wf.id.as_str(), event, typed_value(event), now);
        self.spawn_supervise(dep, wf.id.clone(), wf.input.copy());
    }

    /// Wakes the sleeping workflows whose instant has come, unless their deployment
    /// is active.
    pub fn resume_due(&mut self, instant: i64, now: &str)
        ensures
            final(self)@ == old(self)@.woken(
                workflows_of(old(self)@.store.tables.workflows.filter(is_due(instant))),
                now@,
            ),
    {
        let due = self.store.list_sleeping_due(instant);
        let ghost ws = views(due@);
        let mut i: usize = 0;
        let ghost start = self@;
        assert(ws.take(0) =~= Seq::<WorkflowV>::empty());
        while i < due.len()
            invariant
                i <= due@.len(),
                ws == views(due@),
                self@ == start.woken(ws.take(i as int), now@),
            decreases due@.len() - i,
        {
            proof {
                assert(ws.take(i + 1).drop_last() =~= ws.take(i as int));
                assert(ws.take(i + 1).last() == ws[i as int]);
            }
            if !self.is_active(due[i].deployment.as_str()) {
                self.resume(&due[i], "workflow_wake", now);
            }
            i = i + 1;
        }
        assert(ws.take(ws.len() as int) =~= ws);
    }

    /// Wakes a workflow that waits or sleeps, now that it has a signal.
    pub fn notify_signal(&mut self, id: &str, now: &str)
        ensures
            final(self)@ == old(self)@.signalled(id@, now@),
    {
        if let Some(wf) = self.store.get_workflow(id) {
            if str_eq(wf.status.as_str(), "waiting") || str_eq(wf.status.as_str(), "sleeping") {
                self.resume(&wf, "workflow_signalled", now);
            }
        }
    }

    /// Asks for a workflow to be started and supervised.
    fn spawn_supervise(&mut self, dep: Deployment, workflow_id: String, input: Json)
        ensures
            final(self)@ == old(self)@.launched(dep@, workflow_id@, input@),
    {
        broadcast use lemma_views_push;

        self.launches.push(Launch { dep, workflow_id, input });
    }

    /// What is known of the steps of a workflow, and the signals that it has not
    /// consumed: with what an execution begins.
    pub fn dispatch(&self, id: &str) -> (r: (HashMap<u32, StepRecord>, Vec<(String, Json)>))
        ensures
            journal_view(r.0@) == journal_of(self@.store.tables.steps, id@),
            members(r.1@) == signal_members(self@.store.tables.signals.filter(unconsumed(id@))),
    {
        (self.store.get_journal(id), self.store.unconsumed_signals(id))
    }

    /// What a workflow is told when it connects.
    pub fn context(
        &self,
        id: &str,
        input: &Json,
        journal: HashMap<u32, StepRecord>,
        signals: Vec<(String, Json)>,
    ) -> (r: Context)
        ensures
            r@.workflow_id == id@,
            r@.input == input@,
            r@.journal == journal_view(journal@),
            r@.signals == deliveries(members(signals@)),
            is_state(self@.store.tables.kv, id@, r@.state),
    {
        broadcast use lemma_views_push;

        let ghost all = members(signals@);
        let mut delivered: Vec<SignalDelivery> = Vec::new();
        let mut i: usize = 0;
        while i < signals.len()
            invariant
                i <= signals@.len(),
                all == members(signals@),
                views(delivered@) == deliveries(all).take(i as int),
            decreases signals@.len() - i,
        {
            proof {
                lemma_take_step(deliveries(all), i as int);
            }
            let item = SignalDelivery { name: signals[i].0.clone(), payload: signals[i].1.copy() };
            assert(item@ == deliveries(all)[i as int]);
            delivered.push(item);
            i = i + 1;
        }
        assert(deliveries(all).take(all.len() as int) =~= deliveries(all));
        Context {
            workflow_id: id.to_string(),
            input: input.copy(),
            journal,
            signals: delivered,
            state: self.store.get_state(id),
        }
    }

    /// Draws the consequence of one execution of a workflow: it has ended, or is
    /// parked, or has crashed and is dispatched again as often as its deployment
    /// says. Tells whether it is dispatched again.
    pub fn supervise(&mut self, dep: &Deployment, id: &str, res: ExecResult, now: &str) -> (r: Result<
        bool,
        StoreError,
    >)
        ensures
            (final(self)@, r) == old(self)@.supervised(dep@, id@, res@, now@),
    {
        match res.terminal {
            Some(Terminal::Success(output)) => {
                self.store.finish_workflow(id, "success", Some(output), None, now);
                Ok(false)
            },
            Some(Terminal::Failure) => {
                self.store.finish_workflow(
                    id,
                    "failed",
                    None,
                    Some("workflow reported failure".to_string()),
                    now,
                );
                Ok(false)
            },
            Some(Terminal::Parked(wake_at)) => {
                self.store.park_workflow(id, wake_at, now);
                Ok(false)
            },
            None => {
                if res.exit_ok {
                    self.store.finish_workflow(id, "success", None, None, now);
                    return Ok(false);
                }
                let attempts: i64 = match self.store.get_workflow(id) {
                    Some(w) => w.attempts,
                    None => 0,
                };
                if (attempts as u32) < dep.retries {
                    assert(i64::MAX as u32 == u32::MAX) by (bit_vector);
                    match self.store.mark_attempt(id, now) {
                        Ok(_) => {},
                        Err(e) => {
                            return Err(e);
                        },
                    }
                    let mut m = no_members();
                    push_member(&mut m, "type", text_value("workflow_resume"));
                    push_member(&mut m, "attempt", Json::Int(attempts as i128 + 1));
                    let payload = object(m);
                    assert(payload@->Obj_0 =~= seq![
                        ("type"@, JsonV::Str("workflow_resume"@)),
                        ("attempt"@, JsonV::Int(attempts + 1)),
                    ]);
                    match self.store.record_event(id, "workflow_resume", &payload, now) {
                        Ok(p) => {
                            self.broadcast(id, p.0, p.1, "event", payload);
                            Ok(true)
                        },
                        Err(e) => Err(e),
                    }
                } else {
                    self.store.finish_workflow(
                        id,
                        "failed",
                        None,
                        Some("crashed".to_string()),
                        now,
                    );
                    Ok(false)
                }
            },
        }
    }

    /// Draws the consequence of one execution of a workflow, and releases its deployment
    /// in the same change unless it is dispatched again. Tells whether it is.
    pub fn conclude(&mut self, dep: &Deployment, id: &str, res: ExecResult, now: &str) -> (r: Result<
        bool,
        StoreError,
    >)
        ensures
            (final(self)@, r) == old(self)@.concluded(dep@, id@, res@, now@),
    {
        let again = self.supervise(dep, id, res, now);
        match again {
            Ok(true) => {},
            Ok(false) => {
                self.release(dep.name.as_str(), id, None, now);
            },
            Err(e) => {
                self.release(dep.name.as_str(), id, Some(e.message()), now);
            },
        }
        again
    }

    /// Settles a change, given which deployments were active before it and what became of
    /// it in the database. Hands out what clients are to be told and the workflows to be
    /// started.
    pub fn settle(&mut self, active: Vec<String>, written: Written) -> (r: (
        Vec<Envelope>,
        Vec<Launch>,
    ))
        ensures
            (final(self)@, views(r.0@), views(r.1@)) == old(self)@.settled(
                views(active@).to_set(),
                written@,
            ),
    {
        let sent = self.take_sent();
        let launches = self.take_launches();
        match written {
            Written::Durable => {
                return (sent, launches);
            },
            Written::Reloaded(store) => {
                self.store = store;
            },
            Written::Lost => {},
        }
        self.active = active;
        let told: Vec<Envelope> = Vec::new();
        let started: Vec<Launch> = Vec::new();
        assert(views(told@) =~= Seq::<EnvelopeV>::empty());
        assert(views(started@) =~= Seq::<LaunchV>::empty());
        (told, started)
    }

    /// Ends the supervision of a workflow. Where it broke off, the workflow has
    /// failed for that reason.
    pub fn release(&mut self, name: &str, id: &str, error: Option<String>, now: &str)
        ensures
            final(self)@ == old(self)@.released(name@, id@, opt(error), now@),
    {
        if let Some(e) = error {
            self.store.finish_workflow(id, "failed", None, Some(e), now);
        }
        self.active = without(&self.active, name);
    }

    /// Takes in a line of a workflow's process, given the message that it is, if it
    /// is one. Tells the answer that it asks for, and how the execution ends as far
    /// as that is known.
    pub fn handle_line(
        &mut self,
        id: &str,
        line: &str,
        msg: Option<FlowMsg>,
        terminal: Option<Terminal>,
        now: &str,
    ) -> (r: (Option<Ack>, Option<Terminal>))
        ensures
            final(self)@ == old(self)@.line_heard(id@, line@, opt(msg), now@),
            ({
                let heard = !is_blank(line@) && msg is Some;
                let end = ending(opt(msg).unwrap());
                &&& r.0 is Some <==> heard && answer(opt(msg).unwrap()) is Some
                &&& r.0 matches Some(a) ==> a.kind@ == "ack"@ && Some(a.seq) == answer(
                    opt(msg).unwrap(),
                )
                &&& opt(r.1) == if heard && end is Some {
                    end
                } else {
                    opt(terminal)
                }
            }),
    {
        if blank(line) {
            return (None, terminal);
        }
        let m = match msg {
            Some(m) => m,
            None => {
                self.emit_log(id, "sdk", line, now);
                return (None, terminal);
            },
        };
        match &m {
            FlowMsg::StepResult { seq, name, duration_ms, output, writes } => {
                if writes.len() == 0 {
                    self.journal_step(id, *seq, name.as_str(), output, *duration_ms, now);
                } else {
                    self.commit_step(id, *seq, name.as_str(), output, *duration_ms, writes, now);
                }
                return (Some(ack(*seq)), terminal);
            },
            FlowMsg::SignalConsume { seq, name, payload } => {
                self.store.consume_signal(id, name.as_str());
                let mut step = "signal:".to_string();
                step.append(name.as_str());
                self.journal_step(id, *seq, step.as_str(), payload, 0, now);
                return (Some(ack(*seq)), terminal);
            },
            FlowMsg::WorkflowPark { wake_at } => {
                let mut p = no_members();
                push_member(&mut p, "type", text_value("workflow_park"));
                push_member(&mut p, "wake_at", opt_real(wake_at));
                let payload = object(p);
                assert(payload@->Obj_0 =~= seq![
                    ("type"@, JsonV::Str("workflow_park"@)),
                    ("wake_at"@, opt_real_of(*wake_at)),
                ]);
                self.note(id, "workflow_park", payload, now);
                return (None, Some(Terminal::Parked(*wake_at)));
            },
            _ => {},
        }
        match self.apply_msg(id, &m, now) {
            Some(t) => (None, Some(t)),
            None => (None, terminal),
        }
    }

    /// Journals a step as done together with its durable writes, and tells it.
    fn commit_step(
        &mut self,
        id: &str,
        seq: u32,
        name: &str,
        output: &Json,
        duration_ms: u64,
        writes: &Vec<KvWrite>,
        now: &str,
    )
        requires
            writes@.len() > 0,
        ensures
            final(self)@ == old(self)@.heard(
                id@,
                FlowMsgV::StepResult {
                    seq,
                    name: name@,
                    duration_ms,
                    output: output@,
                    writes: views(writes@),
                },
                now@,
            ),
    {
        self.store.commit_step_tx(id, seq as i64, name, output, duration_ms as i64, writes, now);
        let mut m = step_success_members(seq, name, duration_ms);
        push_member(&mut m, "writes", Json::Int(writes.len() as i128));
        let payload = object(m);
        self.note(id, "step_success", payload, now);
    }

    /// Journals a step as done, and tells it.
    fn journal_step(
        &mut self,
        id: &str,
        seq: u32,
        name: &str,
        output: &Json,
        duration_ms: u64,
        now: &str,
    )
        ensures
            final(self)@ == old(self)@.journaled(id@, seq, name@, output@, duration_ms, now@),
    {
        self.store.upsert_step(
            id,
            seq as i64,
            name,
            "success",
            Some(output.copy()),
            None,
            Some(duration_ms as i64),
            now,
        );
        let payload = object(step_success_members(seq, name, duration_ms));
        self.note(id, "step_success", payload, now);
    }

    /// Takes in a message that asks for no answer, and tells what it says of how the
    /// execution ends.
    pub fn apply_msg(&mut self, id: &str, msg: &FlowMsg, now: &str) -> (r: Option<Terminal>)
        ensures
            final(self)@ == old(self)@.applied(id@, msg@, now@),
            opt(r) == match msg@ {
                FlowMsgV::WorkflowSuccess { output } => Some(TerminalV::Success(output)),
                FlowMsgV::WorkflowFailure { .. } => Some(TerminalV::Failure),
                _ => None,
            },
    {
        match msg {
            FlowMsg::StepStart { seq, name, .. } => {
                self.store.upsert_step(
                    id,
                    *seq as i64,
                    name.as_str(),
                    "started",
                    None,
                    None,
                    None,
                    now,
                );
            },
            FlowMsg::StepSkipped { seq, name, .. } => {
                let status = if self.store.is_done(id, *seq as i64) {
                    "success"
                } else {
                    "skipped"
                };
                self.store.upsert_step(
                    id,
                    *seq as i64,
                    name.as_str(),
                    status,
                    None,
                    None,
                    Some(0),
                    now,
                );
            },
            FlowMsg::StepFailure { seq, name, duration_ms, error } => {
                self.store.upsert_step(
                    id,
                    *seq as i64,
                    name.as_str(),
                    "failed",
                    None,
                    Some(error.clone()),
                    Some(*duration_ms as i64),
                    now,
                );
            },
            _ => {},
        }
        self.note(id, msg.kind(), msg.to_json(), now);
        match msg {
            FlowMsg::WorkflowSuccess { output } => Some(Terminal::Success(output.copy())),
            FlowMsg::WorkflowFailure { .. } => Some(Terminal::Failure),
            _ => None,
        }
    }

    /// Records a line of a workflow's output, and tells it.
    pub fn emit_log(&mut self, id: &str, stream: &str, line: &str, now: &str)
        ensures
            final(self)@ == old(self)@.logged(id@, stream@, line@, now@),
    {
        let p = match self.store.record_log(id, stream, line, now) {
            Ok(p) => p,
            Err(_) => (0, now.to_string()),
        };
        let mut m = no_members();
        push_member(&mut m, "stream", text_value(stream));
        push_member(&mut m, "line", text_value(line));
        let payload = object(m);
        assert(payload@->Obj_0 =~= seq![
            ("stream"@, JsonV::Str(stream@)),
            ("line"@, JsonV::Str(line@)),
        ]);
        self.broadcast(id, p.0, p.1, "log", payload);
    }

    /// Records an event, and tells it.
    fn note(&mut self, id: &str, kind: &str, payload: Json, now: &str)
        ensures
            final(self)@ == old(self)@.noted(id@, kind@, payload@, now@),
    {
        let p = match self.store.record_event(id, kind, &payload, now) {
            Ok(p) => p,
            Err(_) => (0, now.to_string()),
        };
        self.broadcast(id, p.0, p.1, "event", payload);
    }

    /// Tells clients something.
    fn broadcast(&mut self, id: &str, seq: i64, ts: String, kind: &str, payload: Json)
        ensures
            final(self)@ == old(self)@.told(
                EnvelopeV { workflow_id: id@, seq, ts: ts@, kind: kind@, payload: payload@ },
            ),
    {
        broadcast use lemma_views_push;

        self.sent.push(
            Envelope {
                workflow_id: id.to_string(),
                seq,
                ts,
                kind: kind.to_string(),
                payload,
            },
        );
    }
}

/// The answer to a step.
pub fn ack(seq: u32) -> (r: Ack)
    ensures
        r.kind@ == "ack"@,
        r.seq == seq,
{
    Ack { kind: "ack".to_string(), seq }
}

} // verus!

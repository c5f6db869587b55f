//! The messages between a workflow, its worker and the clients.
//!
//! On connecting, a workflow is sent one [`Context`]: its input and the journal
//! of the steps that it has already done. It then sends messages upward. Most
//! only report; a step result is a request, answered by an [`Ack`] once the
//! result is in the journal. That answer is what makes a resume correct.

use std::collections::HashMap;
use vstd::prelude::*;
use crate::json::{
    members, named, no_members, object, opt_text, opt_text_of, push_member, text_value, Json, JsonV,
    Members,
};
use crate::store::{StepRecord, StepRecordV};
use crate::text::{lemma_first_where_is, opt, views};

verus! {

/// A signal handed to a workflow that waits for one.
#[derive(Debug, PartialEq)]
pub struct SignalDelivery {
    pub name: String,
    pub payload: Json,
}

/// The mathematical value of a [`SignalDelivery`].
#[verifier::ext_equal]
pub struct SignalDeliveryV {
    pub name: Seq<char>,
    pub payload: JsonV,
}

impl View for SignalDelivery {
    type V = SignalDeliveryV;

    open spec fn view(&self) -> SignalDeliveryV {
        SignalDeliveryV {
            name: self.name@,
            payload: self.payload@,
        }
    }
}

impl SignalDelivery {
    /// A value equal to this one.
    pub fn copy(&self) -> (r: SignalDelivery)
        ensures
            r@ == self@,
    {
        SignalDelivery {
            name: self.name.clone(),
            payload: self.payload.copy(),
        }
    }
}

/// A durable write of a workflow's state, committed with a step.
#[derive(Debug, PartialEq)]
pub struct KvWrite {
    pub key: String,
    pub value: Json,
}

/// The mathematical value of a [`KvWrite`].
#[verifier::ext_equal]
pub struct KvWriteV {
    pub key: Seq<char>,
    pub value: JsonV,
}

impl View for KvWrite {
    type V = KvWriteV;

    open spec fn view(&self) -> KvWriteV {
        KvWriteV {
            key: self.key@,
            value: self.value@,
        }
    }
}

impl KvWrite {
    /// A value equal to this one.
    pub fn copy(&self) -> (r: KvWrite)
        ensures
            r@ == self@,
    {
        KvWrite {
            key: self.key.clone(),
            value: self.value.copy(),
        }
    }
}

/// The answer to a step result.
#[derive(Debug, PartialEq)]
pub struct Ack {
    /// Always `ack`.
    pub kind: String,
    pub seq: u32,
}

/// The mathematical value of a [`Ack`].
#[verifier::ext_equal]
pub struct AckV {
    pub kind: Seq<char>,
    pub seq: u32,
}

impl View for Ack {
    type V = AckV;

    open spec fn view(&self) -> AckV {
        AckV {
            kind: self.kind@,
            seq: self.seq,
        }
    }
}

impl Ack {
    /// A value equal to this one.
    pub fn copy(&self) -> (r: Ack)
        ensures
            r@ == self@,
    {
        Ack {
            kind: self.kind.clone(),
            seq: self.seq,
        }
    }
}

/// What clients receive. `kind` is `event` or `log`.
#[derive(Debug, PartialEq)]
pub struct Envelope {
    pub workflow_id: String,
    pub seq: i64,
    pub ts: String,
    pub kind: String,
    pub payload: Json,
}

/// The mathematical value of a [`Envelope`].
#[verifier::ext_equal]
pub struct EnvelopeV {
    pub workflow_id: Seq<char>,
    pub seq: i64,
    pub ts: Seq<char>,
    pub kind: Seq<char>,
    pub payload: JsonV,
}

impl View for Envelope {
    type V = EnvelopeV;

    open spec fn view(&self) -> EnvelopeV {
        EnvelopeV {
            workflow_id: self.workflow_id@,
            seq: self.seq,
            ts: self.ts@,
            kind: self.kind@,
            payload: self.payload@,
        }
    }
}

impl Envelope {
    /// A value equal to this one.
    pub fn copy(&self) -> (r: Envelope)
        ensures
            r@ == self@,
    {
        Envelope {
            workflow_id: self.workflow_id.clone(),
            seq: self.seq,
            ts: self.ts.clone(),
            kind: self.kind.clone(),
            payload: self.payload.copy(),
        }
    }
}

/// What a workflow is told when it connects.
#[derive(Debug, PartialEq)]
pub struct Context {
    pub workflow_id: String,
    pub input: Json,
    /// What is known of each step, by its sequence number.
    pub journal: HashMap<u32, StepRecord>,
    /// Signals that no step has consumed yet, the oldest first.
    pub signals: Vec<SignalDelivery>,
    /// The durable state of the workflow.
    pub state: Vec<(String, Json)>,
}

/// The mathematical value of a [`Context`].
#[verifier::ext_equal]
pub struct ContextV {
    pub workflow_id: Seq<char>,
    pub input: JsonV,
    pub journal: Map<u32, StepRecordV>,
    pub signals: Seq<SignalDeliveryV>,
    pub state: Members,
}

impl View for Context {
    type V = ContextV;

    open spec fn view(&self) -> ContextV {
        ContextV {
            workflow_id: self.workflow_id@,
            input: self.input@,
            journal: journal_view(self.journal@),
            signals: views(self.signals@),
            state: members(self.state@),
        }
    }
}

/// What a workflow sends to its worker.
#[allow(inconsistent_fields)]
#[derive(Debug, PartialEq)]
pub enum FlowMsg {
    WorkflowStart { name: Option<String> },
    StepStart { seq: u32, name: String, attempt: u32 },
    StepSkipped { seq: u32, name: String, reason: String },
    /// A step succeeded. The worker journals it, with `writes` in the same
    /// transaction, and only then answers.
    StepResult { seq: u32, name: String, duration_ms: u64, output: Json, writes: Vec<KvWrite> },
    StepRetry {
        seq: u32,
        name: String,
        attempt: u32,
        next_attempt: u32,
        delay_ms: u64,
        error: String,
    },
    StepFailure { seq: u32, name: String, duration_ms: u64, error: String },
    Log { level: String, message: String, step: Option<String> },
    WorkflowSuccess { output: Json },
    WorkflowFailure { error: String },
    /// The process unloads. It is dispatched again at `wake_at`, or, without
    /// one, when a signal arrives.
    WorkflowPark { wake_at: Option<i64> },
    /// A step that consumes a signal; journaled and answered like a result.
    SignalConsume { seq: u32, name: String, payload: Json },
}

/// The mathematical value of a [`FlowMsg`].
#[allow(inconsistent_fields)]
#[verifier::ext_equal]
pub enum FlowMsgV {
    WorkflowStart { name: Option<Seq<char>> },
    StepStart { seq: u32, name: Seq<char>, attempt: u32 },
    StepSkipped { seq: u32, name: Seq<char>, reason: Seq<char> },
    StepResult {
        seq: u32,
        name: Seq<char>,
        duration_ms: u64,
        output: JsonV,
        writes: Seq<KvWriteV>,
    },
    StepRetry {
        seq: u32,
        name: Seq<char>,
        attempt: u32,
        next_attempt: u32,
        delay_ms: u64,
        error: Seq<char>,
    },
    StepFailure { seq: u32, name: Seq<char>, duration_ms: u64, error: Seq<char> },
    Log { level: Seq<char>, message: Seq<char>, step: Option<Seq<char>> },
    WorkflowSuccess { output: JsonV },
    WorkflowFailure { error: Seq<char> },
    WorkflowPark { wake_at: Option<i64> },
    SignalConsume { seq: u32, name: Seq<char>, payload: JsonV },
}

impl View for FlowMsg {
    type V = FlowMsgV;

    open spec fn view(&self) -> FlowMsgV {
        match self {
            FlowMsg::WorkflowStart { name } => FlowMsgV::WorkflowStart { name: opt(*name) },
            FlowMsg::StepStart { seq, name, attempt } => FlowMsgV::StepStart {
                seq: *seq,
                name: name@,
                attempt: *attempt,
            },
            FlowMsg::StepSkipped { seq, name, reason } => FlowMsgV::StepSkipped {
                seq: *seq,
                name: name@,
                reason: reason@,
            },
            FlowMsg::StepResult { seq, name, duration_ms, output, writes } => FlowMsgV::StepResult {
                seq: *seq,
                name: name@,
                duration_ms: *duration_ms,
                output: output@,
                writes: views(writes@),
            },
            FlowMsg::StepRetry { seq, name, attempt, next_attempt, delay_ms, error } => FlowMsgV::StepRetry {
                seq: *seq,
                name: name@,
                attempt: *attempt,
                next_attempt: *next_attempt,
                delay_ms: *delay_ms,
                error: error@,
            },
            FlowMsg::StepFailure { seq, name, duration_ms, error } => FlowMsgV::StepFailure {
                seq: *seq,
                name: name@,
                duration_ms: *duration_ms,
                error: error@,
            },
            FlowMsg::Log { level, message, step } => FlowMsgV::Log {
                level: level@,
                message: message@,
                step: opt(*step),
            },
            FlowMsg::WorkflowSuccess { output } => FlowMsgV::WorkflowSuccess { output: output@ },
            FlowMsg::WorkflowFailure { error } => FlowMsgV::WorkflowFailure { error: error@ },
            FlowMsg::WorkflowPark { wake_at } => FlowMsgV::WorkflowPark { wake_at: *wake_at },
            FlowMsg::SignalConsume { seq, name, payload } => FlowMsgV::SignalConsume {
                seq: *seq,
                name: name@,
                payload: payload@,
            },
        }
    }
}

/// The value of an optional instant.
pub open spec fn opt_real_of(k: Option<i64>) -> JsonV {
    match k {
        Some(x) => JsonV::Real(x as int),
        None => JsonV::Null,
    }
}

/// The value of an optional instant.
pub fn opt_real(k: &Option<i64>) -> (r: Json)
    ensures
        r@ == opt_real_of(*k),
{
    match k {
        Some(x) => Json::Real(*x),
        None => Json::Null,
    }
}

/// A durable write as it goes over the wire.
pub open spec fn write_json(w: KvWriteV) -> JsonV {
    JsonV::Obj(seq![("key"@, JsonV::Str(w.key)), ("value"@, w.value)])
}

/// The durable writes of a step as they go over the wire.
pub open spec fn writes_json(ws: Seq<KvWriteV>) -> JsonV {
    JsonV::Arr(Seq::new(ws.len(), |i: int| write_json(ws[i])))
}

fn writes_value(ws: &Vec<KvWrite>) -> (r: Json)
    ensures
        r@ == writes_json(views(ws@)),
{
    let mut out: Vec<Json> = Vec::new();
    let mut i: usize = 0;
    while i < ws.len()
        invariant
            i <= ws@.len(),
            out@.len() == i,
            forall|j: int| 0 <= j < i ==> (#[trigger] out@[j])@ == write_json(views(ws@)[j]),
        decreases ws@.len() - i,
    {
        let mut m = no_members();
        push_member(&mut m, "key", text_value(ws[i].key.as_str()));
        push_member(&mut m, "value", ws[i].value.copy());
        assert(members(m@) =~= write_json(views(ws@)[i as int])->Obj_0);
        out.push(object(m));
        i = i + 1;
    }
    let r = Json::Arr(out);
    assert(r@->Arr_0 =~= writes_json(views(ws@))->Arr_0);
    r
}

impl FlowMsgV {
    /// The name by which a message goes over the wire.
    pub open spec fn kind(self) -> Seq<char> {
        match self {
            FlowMsgV::WorkflowStart { .. } => "workflow_start"@,
            FlowMsgV::StepStart { .. } => "step_start"@,
            FlowMsgV::StepSkipped { .. } => "step_skipped"@,
            FlowMsgV::StepResult { .. } => "step_result"@,
            FlowMsgV::StepRetry { .. } => "step_retry"@,
            FlowMsgV::StepFailure { .. } => "step_failure"@,
            FlowMsgV::Log { .. } => "log"@,
            FlowMsgV::WorkflowSuccess { .. } => "workflow_success"@,
            FlowMsgV::WorkflowFailure { .. } => "workflow_failure"@,
            FlowMsgV::WorkflowPark { .. } => "workflow_park"@,
            FlowMsgV::SignalConsume { .. } => "signal_consume"@,
        }
    }

    /// The message as it goes over the wire: its kind, then its fields.
    pub open spec fn json(self) -> JsonV {
        match self {
            FlowMsgV::WorkflowStart { name } => JsonV::Obj(
                seq![
                    ("type"@, JsonV::Str(self.kind())),
                    ("name"@, opt_text_of(name)),
                ],
            ),
            FlowMsgV::StepStart { seq, name, attempt } => JsonV::Obj(
                seq![
                    ("type"@, JsonV::Str(self.kind())),
                    ("seq"@, JsonV::Int(seq as int)),
                    ("name"@, JsonV::Str(name)),
                    ("attempt"@, JsonV::Int(attempt as int)),
                ],
            ),
            FlowMsgV::StepSkipped { seq, name, reason } => JsonV::Obj(
                seq![
                    ("type"@, JsonV::Str(self.kind())),
                    ("seq"@, JsonV::Int(seq as int)),
                    ("name"@, JsonV::Str(name)),
                    ("reason"@, JsonV::Str(reason)),
                ],
            ),
            FlowMsgV::StepResult { seq, name, duration_ms, output, writes } => JsonV::Obj(
                seq![
                    ("type"@, JsonV::Str(self.kind())),
                    ("seq"@, JsonV::Int(seq as int)),
                    ("name"@, JsonV::Str(name)),
                    ("duration_ms"@, JsonV::Int(duration_ms as int)),
                    ("output"@, output),
                    ("writes"@, writes_json(writes)),
                ],
            ),
            FlowMsgV::StepRetry { seq, name, attempt, next_attempt, delay_ms, error } => JsonV::Obj(
                seq![
                    ("type"@, JsonV::Str(self.kind())),
                    ("seq"@, JsonV::Int(seq as int)),
                    ("name"@, JsonV::Str(name)),
                    ("attempt"@, JsonV::Int(attempt as int)),
                    ("next_attempt"@, JsonV::Int(next_attempt as int)),
                    ("delay_ms"@, JsonV::Int(delay_ms as int)),
                    ("error"@, JsonV::Str(error)),
                ],
            ),
            FlowMsgV::StepFailure { seq, name, duration_ms, error } => JsonV::Obj(
                seq![
                    ("type"@, JsonV::Str(self.kind())),
                    ("seq"@, JsonV::Int(seq as int)),
                    ("name"@, JsonV::Str(name)),
                    ("duration_ms"@, JsonV::Int(duration_ms as int)),
                    ("error"@, JsonV::Str(error)),
                ],
            ),
            FlowMsgV::Log { level, message, step } => JsonV::Obj(
                seq![
                    ("type"@, JsonV::Str(self.kind())),
                    ("level"@, JsonV::Str(level)),
                    ("message"@, JsonV::Str(message)),
                    ("step"@, opt_text_of(step)),
                ],
            ),
            FlowMsgV::WorkflowSuccess { output } => JsonV::Obj(
                seq![
                    ("type"@, JsonV::Str(self.kind())),
                    ("output"@, output),
                ],
            ),
            FlowMsgV::WorkflowFailure { error } => JsonV::Obj(
                seq![
                    ("type"@, JsonV::Str(self.kind())),
                    ("error"@, JsonV::Str(error)),
                ],
            ),
            FlowMsgV::WorkflowPark { wake_at } => JsonV::Obj(
                seq![
                    ("type"@, JsonV::Str(self.kind())),
                    ("wake_at"@, opt_real_of(wake_at)),
                ],
            ),
            FlowMsgV::SignalConsume { seq, name, payload } => JsonV::Obj(
                seq![
                    ("type"@, JsonV::Str(self.kind())),
                    ("seq"@, JsonV::Int(seq as int)),
                    ("name"@, JsonV::Str(name)),
                    ("payload"@, payload),
                ],
            ),
        }
    }
}

impl FlowMsg {
    /// The name by which the message goes over the wire.
    pub fn kind(&self) -> (r: &'static str)
        ensures
            r@ == self@.kind(),
    {
        match self {
            FlowMsg::WorkflowStart { .. } => "workflow_start",
            FlowMsg::StepStart { .. } => "step_start",
            FlowMsg::StepSkipped { .. } => "step_skipped",
            FlowMsg::StepResult { .. } => "step_result",
            FlowMsg::StepRetry { .. } => "step_retry",
            FlowMsg::StepFailure { .. } => "step_failure",
            FlowMsg::Log { .. } => "log",
            FlowMsg::WorkflowSuccess { .. } => "workflow_success",
            FlowMsg::WorkflowFailure { .. } => "workflow_failure",
            FlowMsg::WorkflowPark { .. } => "workflow_park",
            FlowMsg::SignalConsume { .. } => "signal_consume",
        }
    }

    /// The message as it goes over the wire.
    pub fn to_json(&self) -> (r: Json)
        ensures
            r@ == self@.json(),
    {
        let mut m = no_members();
        push_member(&mut m, "type", text_value(self.kind()));
        match self {
            FlowMsg::WorkflowStart { name } => {
                push_member(&mut m, "name", opt_text(name));
                assert(members(m@) =~= self@.json()->Obj_0);
            },
            FlowMsg::StepStart { seq, name, attempt } => {
                push_member(&mut m, "seq", Json::Int(*seq as i128));
                push_member(&mut m, "name", text_value(name.as_str()));
                push_member(&mut m, "attempt", Json::Int(*attempt as i128));
                assert(members(m@) =~= self@.json()->Obj_0);
            },
            FlowMsg::StepSkipped { seq, name, reason } => {
                push_member(&mut m, "seq", Json::Int(*seq as i128));
                push_member(&mut m, "name", text_value(name.as_str()));
                push_member(&mut m, "reason", text_value(reason.as_str()));
                assert(members(m@) =~= self@.json()->Obj_0);
            },
            FlowMsg::StepResult { seq, name, duration_ms, output, writes } => {
                push_member(&mut m, "seq", Json::Int(*seq as i128));
                push_member(&mut m, "name", text_value(name.as_str()));
                push_member(&mut m, "duration_ms", Json::Int(*duration_ms as i128));
                push_member(&mut m, "output", output.copy());
                push_member(&mut m, "writes", writes_value(writes));
                assert(members(m@) =~= self@.json()->Obj_0);
            },
            FlowMsg::StepRetry { seq, name, attempt, next_attempt, delay_ms, error } => {
                push_member(&mut m, "seq", Json::Int(*seq as i128));
                push_member(&mut m, "name", text_value(name.as_str()));
                push_member(&mut m, "attempt", Json::Int(*attempt as i128));
                push_member(&mut m, "next_attempt", Json::Int(*next_attempt as i128));
                push_member(&mut m, "delay_ms", Json::Int(*delay_ms as i128));
                push_member(&mut m, "error", text_value(error.as_str()));
                assert(members(m@) =~= self@.json()->Obj_0);
            },
            FlowMsg::StepFailure { seq, name, duration_ms, error } => {
                push_member(&mut m, "seq", Json::Int(*seq as i128));
                push_member(&mut m, "name", text_value(name.as_str()));
                push_member(&mut m, "duration_ms", Json::Int(*duration_ms as i128));
                push_member(&mut m, "error", text_value(error.as_str()));
                assert(members(m@) =~= self@.json()->Obj_0);
            },
            FlowMsg::Log { level, message, step } => {
                push_member(&mut m, "level", text_value(level.as_str()));
                push_member(&mut m, "message", text_value(message.as_str()));
                push_member(&mut m, "step", opt_text(step));
                assert(members(m@) =~= self@.json()->Obj_0);
            },
            FlowMsg::WorkflowSuccess { output } => {
                push_member(&mut m, "output", output.copy());
                assert(members(m@) =~= self@.json()->Obj_0);
            },
            FlowMsg::WorkflowFailure { error } => {
                push_member(&mut m, "error", text_value(error.as_str()));
                assert(members(m@) =~= self@.json()->Obj_0);
            },
            FlowMsg::WorkflowPark { wake_at } => {
                push_member(&mut m, "wake_at", opt_real(wake_at));
                assert(members(m@) =~= self@.json()->Obj_0);
            },
            FlowMsg::SignalConsume { seq, name, payload } => {
                push_member(&mut m, "seq", Json::Int(*seq as i128));
                push_member(&mut m, "name", text_value(name.as_str()));
                push_member(&mut m, "payload", payload.copy());
                assert(members(m@) =~= self@.json()->Obj_0);
            },
        }
        object(m)
    }
}

/// A message says on the wire what kind it is.
pub proof fn law_kind_is_on_the_wire(m: FlowMsgV)
    ensures
        m.json().at("type"@).string() == Some(m.kind()),
{
    let fields = m.json()->Obj_0;
    assert(fields[0] == ("type"@, JsonV::Str(m.kind())));
    lemma_first_where_is(fields, named("type"@), 0);
}

/// The attempt that a message speaks of when it names none.
pub fn one() -> (r: u32)
    ensures
        r == 1,
{
    1
}

/// The values of the records of a journal.
pub open spec fn journal_view(m: Map<u32, StepRecord>) -> Map<u32, StepRecordV> {
    m.map_values(|r: StepRecord| r@)
}

} // verus!

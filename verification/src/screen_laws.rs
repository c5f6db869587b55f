//! What is seen of a workflow: the fields of what it says, the lines that tell it, and the
//! pages of the dashboard.

use vstd::prelude::*;
use crate::cli::{duration_text, envelope_text, event_text, tells_end};
use crate::json::{JsonV, Members};
use crate::protocol::{FlowMsgV, KvWriteV};
use crate::reply_laws::{law_member_is_the_first, law_missing_member_is_none};
use crate::text::decimal_of;
use crate::tui::{dot_of, last_lines, tone_of, AppUiV, Press, Tab, Tone, UiAction};
use crate::worker::{step_success, WorkerV};

verus! {

// ---------------------------------------------------------------------------
// Messages
// ---------------------------------------------------------------------------

proof fn lemma_field_names()
    ensures
        "type"@.len() == 4,
        "seq"@.len() == 3,
        "name"@.len() == 4,
        "task"@.len() == 4,
        "step"@.len() == 4,
        "attempt"@.len() == 7,
        "message"@.len() == 7,
        "wake_at"@.len() == 7,
        "payload"@.len() == 7,
        "reason"@.len() == 6,
        "output"@.len() == 6,
        "writes"@.len() == 6,
        "error"@.len() == 5,
        "level"@.len() == 5,
        "delay_ms"@.len() == 8,
        "duration_ms"@.len() == 11,
        "next_attempt"@.len() == 12,
        "type"@ != "name"@,
        "type"@ != "task"@,
        "type"@ != "step"@,
        "name"@ != "task"@,
        "output"@ != "writes"@,
{
    reveal_strlit("type");
    reveal_strlit("seq");
    reveal_strlit("name");
    reveal_strlit("task");
    reveal_strlit("step");
    reveal_strlit("attempt");
    reveal_strlit("message");
    reveal_strlit("wake_at");
    reveal_strlit("payload");
    reveal_strlit("reason");
    reveal_strlit("output");
    reveal_strlit("writes");
    reveal_strlit("error");
    reveal_strlit("level");
    reveal_strlit("delay_ms");
    reveal_strlit("duration_ms");
    reveal_strlit("next_attempt");
    assert("type"@[0] != "name"@[0]);
    assert("type"@[1] != "task"@[1]);
    assert("type"@[0] != "step"@[0]);
    assert("name"@[0] != "task"@[0]);
    assert("output"@[0] != "writes"@[0]);
}

/// A message has on the wire what it says: of a step its number and its name, and each of
/// the other things that it tells under a name of its own.
#[verifier::spinoff_prover]
pub proof fn law_message_fields(m: FlowMsgV)
    ensures
        ({
            let j = m.json();
            match m {
                FlowMsgV::WorkflowStart { name } => j.field("name"@) == Some(
                    match name {
                        Some(n) => JsonV::Str(n),
                        None => JsonV::Null,
                    },
                ),
                FlowMsgV::StepStart { seq, name, attempt } => j.field("seq"@) == Some(
                    JsonV::Int(seq as int),
                ) && j.field("name"@) == Some(JsonV::Str(name)) && j.field("attempt"@) == Some(
                    JsonV::Int(attempt as int),
                ),
                FlowMsgV::StepSkipped { seq, name, reason } => j.field("seq"@) == Some(
                    JsonV::Int(seq as int),
                ) && j.field("name"@) == Some(JsonV::Str(name)) && j.field("reason"@) == Some(
                    JsonV::Str(reason),
                ),
                FlowMsgV::StepRetry { seq, name, attempt, next_attempt, delay_ms, error } => j.field(
                    "seq"@,
                ) == Some(JsonV::Int(seq as int)) && j.field("name"@) == Some(JsonV::Str(name))
                    && j.field("attempt"@) == Some(JsonV::Int(attempt as int)) && j.field(
                    "next_attempt"@,
                ) == Some(JsonV::Int(next_attempt as int)) && j.field("delay_ms"@) == Some(
                    JsonV::Int(delay_ms as int),
                ) && j.field("error"@) == Some(JsonV::Str(error)),
                FlowMsgV::StepFailure { seq, name, duration_ms, error } => j.field("seq"@) == Some(
                    JsonV::Int(seq as int),
                ) && j.field("name"@) == Some(JsonV::Str(name)) && j.field("duration_ms"@) == Some(
                    JsonV::Int(duration_ms as int),
                ) && j.field("error"@) == Some(JsonV::Str(error)),
                FlowMsgV::Log { level, message, step } => j.field("level"@) == Some(
                    JsonV::Str(level),
                ) && j.field("message"@) == Some(JsonV::Str(message)) && j.field("step"@) == Some(
                    match step {
                        Some(n) => JsonV::Str(n),
                        None => JsonV::Null,
                    },
                ),
                FlowMsgV::WorkflowSuccess { output } => j.field("output"@) == Some(output),
                FlowMsgV::WorkflowFailure { error } => j.field("error"@) == Some(JsonV::Str(error)),
                FlowMsgV::WorkflowPark { wake_at } => j.field("wake_at"@) == Some(
                    match wake_at {
                        Some(k) => JsonV::Real(k as int),
                        None => JsonV::Null,
                    },
                ),
                FlowMsgV::StepResult { seq, name, duration_ms, output, .. } => j.field("seq"@)
                    == Some(JsonV::Int(seq as int)) && j.field("name"@) == Some(JsonV::Str(name))
                    && j.field("duration_ms"@) == Some(JsonV::Int(duration_ms as int)) && j.field(
                    "output"@,
                ) == Some(output),
                FlowMsgV::SignalConsume { seq, name, payload } => j.field("seq"@) == Some(
                    JsonV::Int(seq as int),
                ) && j.field("name"@) == Some(JsonV::Str(name)) && j.field("payload"@) == Some(
                    payload,
                ),
            }
        }),
{
    lemma_field_names();
    let x = m.json()->Obj_0;
    law_member_is_the_first(x, 1);
    if x.len() > 2 {
        law_member_is_the_first(x, 2);
    }
    if x.len() > 3 {
        law_member_is_the_first(x, 3);
    }
    if x.len() > 4 {
        law_member_is_the_first(x, 4);
    }
    if x.len() > 5 {
        law_member_is_the_first(x, 5);
    }
    if x.len() > 6 {
        law_member_is_the_first(x, 6);
    }
}

/// A step that is done is told with its number, its name and its duration.
pub proof fn law_done_step_is_told(
    w: WorkerV,
    id: Seq<char>,
    seq: u32,
    name: Seq<char>,
    duration_ms: u64,
    output: JsonV,
    writes: Seq<KvWriteV>,
    now: Seq<char>,
)
    ensures
        ({
            let m = FlowMsgV::StepResult { seq, name, duration_ms, output, writes };
            let p = w.heard(id, m, now).sent.last().payload;
            &&& p.field("seq"@) == Some(JsonV::Int(seq as int))
            &&& p.field("task"@) == Some(JsonV::Str(name))
            &&& p.field("duration_ms"@) == Some(JsonV::Int(duration_ms as int))
            &&& p.field("name"@) is None
        }),
{
    lemma_field_names();
    let m = FlowMsgV::StepResult { seq, name, duration_ms, output, writes };
    let x = w.heard(id, m, now).sent.last().payload->Obj_0;
    law_member_is_the_first(x, 1);
    law_member_is_the_first(x, 2);
    law_member_is_the_first(x, 3);
    law_missing_member_is_none(x, "name"@);
}

// ---------------------------------------------------------------------------
// Lines
// ---------------------------------------------------------------------------

proof fn lemma_kinds()
    ensures
        "workflow_start"@.len() == 14,
        "workflow_success"@.len() == 16,
        "workflow_failure"@.len() == 16,
        "workflow_resume"@.len() == 15,
        "workflow_recovered"@.len() == 18,
        "workflow_park"@.len() == 13,
        "workflow_wake"@.len() == 13,
        "workflow_signalled"@.len() == 18,
        "step_start"@.len() == 10,
        "step_success"@.len() == 12,
        "step_skipped"@.len() == 12,
        "step_retry"@.len() == 10,
        "step_failure"@.len() == 12,
        "log"@.len() == 3,
        "workflow_success"@ != "workflow_failure"@,
        "workflow_recovered"@ != "workflow_signalled"@,
        "workflow_park"@ != "workflow_wake"@,
        "step_start"@ != "step_retry"@,
        "step_success"@ != "step_skipped"@,
        "step_success"@ != "step_failure"@,
        "step_skipped"@ != "step_failure"@,
{
    reveal_strlit("workflow_start");
    reveal_strlit("workflow_success");
    reveal_strlit("workflow_failure");
    reveal_strlit("workflow_resume");
    reveal_strlit("workflow_recovered");
    reveal_strlit("workflow_park");
    reveal_strlit("workflow_wake");
    reveal_strlit("workflow_signalled");
    reveal_strlit("step_start");
    reveal_strlit("step_success");
    reveal_strlit("step_skipped");
    reveal_strlit("step_retry");
    reveal_strlit("step_failure");
    reveal_strlit("log");
    assert("workflow_success"@[9] != "workflow_failure"@[9]);
    assert("workflow_recovered"@[9] != "workflow_signalled"@[9]);
    assert("workflow_park"@[9] != "workflow_wake"@[9]);
    assert("step_start"@[5] != "step_retry"@[5]);
    assert("step_success"@[6] != "step_skipped"@[6]);
    assert("step_success"@[5] != "step_failure"@[5]);
    assert("step_skipped"@[5] != "step_failure"@[5]);
}

/// The line that tells a message shows what the message says: of a step its number and its
/// name, and of a failure, a retry and a skip the reason.
#[verifier::spinoff_prover]
pub proof fn law_lines_tell_the_message(m: FlowMsgV)
    ensures
        ({
            let t = event_text(m.kind(), m.json());
            match m {
                FlowMsgV::WorkflowStart { .. } => t == "▶ workflow start"@,
                FlowMsgV::WorkflowSuccess { .. } => t == "✔ workflow SUCCESS"@,
                FlowMsgV::WorkflowFailure { error } => t == "✗ workflow FAILURE: "@ + error,
                FlowMsgV::WorkflowPark { wake_at } => t == match wake_at {
                    Some(_) => "⏸ parked (sleeping) — process unloaded"@,
                    None => "⏸ parked (waiting for signal) — process unloaded"@,
                },
                FlowMsgV::StepStart { seq, name, attempt } => t == "  ● #"@ + decimal_of(seq as int)
                    + " "@ + name + " start (attempt "@ + decimal_of(attempt as int) + ")"@,
                FlowMsgV::StepSkipped { seq, name, reason } => t == "  ⤼ #"@ + decimal_of(
                    seq as int,
                ) + " "@ + name + " skipped ("@ + reason + ")"@,
                FlowMsgV::StepRetry { seq, name, next_attempt, error, .. } => t == "  ↻ #"@
                    + decimal_of(seq as int) + " "@ + name + " retry -> attempt "@ + decimal_of(
                    next_attempt as int,
                ) + " ("@ + error + ")"@,
                FlowMsgV::StepFailure { seq, name, error, .. } => t == "  ✗ #"@ + decimal_of(
                    seq as int,
                ) + " "@ + name + " failed: "@ + error,
                FlowMsgV::Log { message, .. } => t == "  │ "@ + message,
                _ => true,
            }
        }),
{
    lemma_kinds();
    law_message_fields(m);
}

/// The line that tells a step that is done shows its number, its name and how long it took.
pub proof fn law_done_step_line(
    w: WorkerV,
    id: Seq<char>,
    seq: u32,
    name: Seq<char>,
    duration_ms: u64,
    output: JsonV,
    writes: Seq<KvWriteV>,
    now: Seq<char>,
)
    requires
        duration_ms <= i64::MAX,
    ensures
        ({
            let m = FlowMsgV::StepResult { seq, name, duration_ms, output, writes };
            envelope_text(w.heard(id, m, now).sent.last()) == "  ✔ #"@ + decimal_of(seq as int)
                + " "@ + name + " ok ("@ + decimal_of(duration_ms as int) + "ms)"@
        }),
{
    lemma_kinds();
    lemma_field_names();
    let m = FlowMsgV::StepResult { seq, name, duration_ms, output, writes };
    law_done_step_is_told(w, id, seq, name, duration_ms, output, writes, now);
    crate::journal_laws::law_message_is_told_once(w, id, m, now);
    reveal_strlit("event");
    assert("event"@.len() == 5);
}

/// The line that tells a log line shows where it came from and what it says.
pub proof fn law_log_line_is_shown(
    w: WorkerV,
    id: Seq<char>,
    stream: Seq<char>,
    line: Seq<char>,
    now: Seq<char>,
)
    ensures
        envelope_text(w.logged(id, stream, line, now).sent.last()) == "  │ ["@ + stream + "] "@
            + line,
{
    reveal_strlit("stream");
    reveal_strlit("line");
    assert("stream"@.len() == 6 && "line"@.len() == 4);
    let x = w.logged(id, stream, line, now).sent.last().payload->Obj_0;
    law_member_is_the_first(x, 0);
    law_member_is_the_first(x, 1);
}

/// A workflow that runs alone is over when it says that it succeeded or failed, and by no
/// other word of it.
pub proof fn law_end_is_told(w: WorkerV, id: Seq<char>, msg: FlowMsgV, now: Seq<char>)
    ensures
        tells_end(w.heard(id, msg, now).sent.last()) <==> (msg is WorkflowSuccess
            || msg is WorkflowFailure),
{
    lemma_kinds();
    crate::journal_laws::law_message_is_told_once(w, id, msg, now);
}

/// A duration is shown in milliseconds, and a dash where none is known.
pub proof fn law_duration_is_in_milliseconds(n: int)
    ensures
        duration_text(Some(n)) == decimal_of(n) + "ms"@,
        duration_text(None) == "—"@,
{
}

// ---------------------------------------------------------------------------
// The dashboard
// ---------------------------------------------------------------------------

/// Going down moves the selection of the page by one, to the last item at most, and nothing
/// else; what is selected among the workflows is then asked for.
pub proof fn law_down_moves_by_one(ui: AppUiV)
    requires
        ui.in_range(),
        ui.selected >= 0,
        ui.flow_selected >= 0,
    ensures
        ui.pressed(Press::Char('j')) == ui.pressed(Press::Down),
        ({
            let (v, action) = ui.pressed(Press::Down);
            match ui.tab {
                Tab::Runs => v == (AppUiV {
                    selected: if ui.selected + 1 < ui.runs.len() {
                        ui.selected + 1
                    } else {
                        ui.selected
                    },
                    ..ui
                }) && (action == UiAction::Detail <==> ui.runs.len() > 0),
                Tab::Scheduled => v == (AppUiV {
                    flow_selected: if ui.flow_selected + 1 < ui.flows.len() {
                        ui.flow_selected + 1
                    } else {
                        ui.flow_selected
                    },
                    ..ui
                }) && action == UiAction::Stay,
            }
        }),
{
}

/// Going up moves the selection of the page by one, to the first item at most, and nothing
/// else.
pub proof fn law_up_moves_by_one(ui: AppUiV)
    requires
        ui.selected >= 0,
        ui.flow_selected >= 0,
    ensures
        ui.pressed(Press::Char('k')) == ui.pressed(Press::Up),
        ({
            let (v, action) = ui.pressed(Press::Up);
            match ui.tab {
                Tab::Runs => v == (AppUiV {
                    selected: if ui.selected > 0 {
                        ui.selected - 1
                    } else {
                        0
                    },
                    ..ui
                }) && action == UiAction::Detail,
                Tab::Scheduled => v == (AppUiV {
                    flow_selected: if ui.flow_selected > 0 {
                        ui.flow_selected - 1
                    } else {
                        0
                    },
                    ..ui
                }) && action == UiAction::Stay,
            }
        }),
{
}

/// The other keys: two quit, one asks again, some turn to the other page, two to one of
/// them; and no other key does anything.
pub proof fn law_other_keys(ui: AppUiV, c: char)
    ensures
        ui.pressed(Press::Esc) == (ui, UiAction::Quit),
        ui.pressed(Press::Char('q')) == (ui, UiAction::Quit),
        ui.pressed(Press::Char('r')) == (ui, UiAction::Refresh),
        ui.pressed(Press::Char('1')) == (AppUiV { tab: Tab::Runs, ..ui }, UiAction::Stay),
        ui.pressed(Press::Char('2')) == (AppUiV { tab: Tab::Scheduled, ..ui }, UiAction::Stay),
        ui.pressed(Press::Tab).0.tab != ui.tab,
        ui.pressed(Press::Tab).0 == (AppUiV { tab: ui.pressed(Press::Tab).0.tab, ..ui }),
        ui.pressed(Press::Right) == ui.pressed(Press::Tab),
        ui.pressed(Press::Left) == ui.pressed(Press::Tab),
        ui.pressed(Press::BackTab) == ui.pressed(Press::Tab),
        ui.pressed(Press::Char('l')) == ui.pressed(Press::Tab),
        ui.pressed(Press::Char('h')) == ui.pressed(Press::Tab),
        ui.pressed(Press::Tab).1 == UiAction::Stay,
        ui.pressed(Press::Other) == (ui, UiAction::Stay),
        c != 'q' && c != 'r' && c != 'l' && c != 'h' && c != '1' && c != '2' && c != 'j' && c != 'k'
            ==> ui.pressed(Press::Char(c)) == (ui, UiAction::Stay),
{
}

/// What comes of the control plane is shown, and the selection stays where it is while there
/// is an item there; else it is the last item.
pub proof fn law_refresh_keeps_the_selection(
    ui: AppUiV,
    flows: Seq<JsonV>,
    runs: Seq<JsonV>,
    time: Seq<char>,
)
    requires
        ui.selected >= 0,
        ui.flow_selected >= 0,
    ensures
        ui.with_flows(flows).flows == flows,
        ui.with_runs(runs, time).runs == runs,
        ui.flow_selected < flows.len() ==> ui.with_flows(flows).flow_selected == ui.flow_selected,
        0 < flows.len() <= ui.flow_selected ==> ui.with_flows(flows).flow_selected == flows.len() - 1,
        ui.selected < runs.len() ==> ui.with_runs(runs, time).selected == ui.selected,
        0 < runs.len() <= ui.selected ==> ui.with_runs(runs, time).selected == runs.len() - 1,
        ui.with_flows(flows).runs == ui.runs && ui.with_runs(runs, time).flows == ui.flows,
{
}

/// The workflow that is asked for is the one that is selected.
pub proof fn law_selected_is_asked_for(ui: AppUiV, m: Members, k: int)
    requires
        0 <= ui.selected < ui.runs.len(),
        ui.runs[ui.selected] == JsonV::Obj(m),
        0 <= k < m.len(),
        m[k].0 == "id"@,
        forall|j: int| 0 <= j < k ==> (#[trigger] m[j]).0 != "id"@,
        m[k].1 is Str,
    ensures
        ui.selected_id() == Some(m[k].1->Str_0),
{
    assert forall|j: int| 0 <= j < k implies (#[trigger] m[j]).0 != m[k].0 by {
        assert(m[j].0 != "id"@);
    }
    law_member_is_the_first(m, k);
}

/// Of the activity of a workflow the last lines are shown, as many as there is room for.
pub proof fn law_last_lines_are_shown(feed: Seq<Seq<char>>, n: int, i: int)
    requires
        0 <= n,
        0 <= i < last_lines(feed, n).len(),
    ensures
        last_lines(feed, n).len() == if feed.len() < n {
            feed.len() as int
        } else {
            n
        },
        last_lines(feed, n)[i] == feed[feed.len() - last_lines(feed, n).len() + i],
{
}

/// Parked workflows look alike, and no two other states do.
pub proof fn law_states_look_different()
    ensures
        dot_of("sleeping"@) == dot_of("waiting"@),
        tone_of("sleeping"@) == Tone::Parked && tone_of("waiting"@) == Tone::Parked,
        tone_of("success"@) == Tone::Good,
        tone_of("failed"@) == Tone::Bad,
        tone_of("running"@) == Tone::Busy,
{
    reveal_strlit("success");
    reveal_strlit("failed");
    reveal_strlit("running");
    reveal_strlit("sleeping");
    reveal_strlit("waiting");
    assert("success"@.len() == 7 && "failed"@.len() == 6 && "running"@.len() == 7
        && "sleeping"@.len() == 8 && "waiting"@.len() == 7);
    assert("success"@[0] == 's' && "running"@[0] == 'r' && "waiting"@[0] == 'w');
}

} // verus!

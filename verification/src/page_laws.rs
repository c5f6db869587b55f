//! What the subcommands and the pages of the dashboard print of what a reply holds.

use vstd::prelude::*;
use crate::api::{deployment_json, step_json, steps_json, workflow_json};
use crate::cli::{
    event_text, show_head, show_text, step_line, summary_line, summary_text, workflow_line,
};
use crate::clock::{Stamp, Wall};
use crate::config::{cron_of, CronErrorV, DeploymentV};
use crate::daemon::{address, log_file_of, status_text};
use crate::json::JsonV;
use crate::reply_laws::{
    law_deployment_reply, law_member_is_the_first, law_step_log_and_event_replies,
    law_workflow_reply,
};
use crate::scheduler::TickV;
use crate::store::{StepViewV, WorkflowV};
use crate::text::{decimal_of, padded, trimmed};
use crate::tui::{
    at_most, clock_text, detail_step, detail_steps, detail_text, dot_of, ended, flow_text, has_text,
    job_text, last_lines, recent_line, recent_lines, recent_text, run_of, run_text, words_of,
};
use crate::worker::typed;

verus! {

/// What is printed of a duration.
pub open spec fn took(ms: Option<i64>) -> Seq<char> {
    match ms {
        Some(n) => decimal_of(n as int) + "ms"@,
        None => "—"@,
    }
}

/// The list of workflows has of each its id, its deployment, its status, what started it,
/// how often it was dispatched again and when it was submitted, in columns.
pub proof fn law_list_shows_the_workflow(w: WorkflowV)
    ensures
        workflow_line(workflow_json(w)) == padded(w.id, 12) + " "@ + padded(w.deployment, 18) + " "@
            + padded(w.status, 9) + " "@ + padded(w.trigger, 8) + " "@ + padded(
            decimal_of(w.attempts as int),
            4,
        ) + " "@ + w.created_at,
{
    law_workflow_reply(w);
}

/// The list of steps has of each its number, its name, its status and its duration, in
/// columns.
pub proof fn law_list_shows_the_step(s: StepViewV)
    ensures
        step_line(step_json(s)) == "    #"@ + padded(decimal_of(s.seq as int), 3) + " "@ + padded(
            s.name,
            18,
        ) + " "@ + padded(s.status, 9) + " "@ + took(s.duration_ms),
        detail_step(step_json(s)) == "  #"@ + padded(decimal_of(s.seq as int), 3) + " "@ + padded(
            s.name,
            16,
        ) + " "@ + padded(s.status, 9) + " "@ + took(s.duration_ms) + "\n"@,
{
    law_step_log_and_event_replies(s, arbitrary(), arbitrary());
}

/// What is shown of a workflow begins with its id, its deployment, its status, what started
/// it and how often it was dispatched again; until when it sleeps, when it ended and why it
/// failed are shown where they are known; and the steps follow, each on its line.
pub proof fn law_show_shows_the_workflow(w: WorkflowV, wake: Seq<char>)
    ensures
        ({
            let h = show_head(workflow_json(w), wake);
            &&& h[0] == "workflow "@ + w.id
            &&& h[1] == "  flow      "@ + w.deployment
            &&& h[2] == "  status    "@ + w.status
            &&& h[3] == "  trigger   "@ + w.trigger
            &&& h[4] == "  attempts  "@ + decimal_of(w.attempts as int)
            &&& h.last() == "  steps:"@
            &&& h.len() == 7 + (if w.wake_at is Some {
                1int
            } else {
                0
            }) + (if w.finished_at is Some {
                1int
            } else {
                0
            }) + (if w.error is Some {
                1int
            } else {
                0
            })
            &&& w.wake_at is Some ==> h[5] == "  wake_at   "@ + wake + " (epoch)"@
            &&& h.contains("  created   "@ + w.created_at)
            &&& w.finished_at matches Some(t) ==> h.contains("  finished  "@ + t)
            &&& w.error matches Some(e) ==> h[h.len() - 2] == "  error     "@ + e
        }),
{
    law_workflow_reply(w);
    let h = show_head(workflow_json(w), wake);
    let c = if w.wake_at is Some {
        6int
    } else {
        5
    };
    assert(h[c] == "  created   "@ + w.created_at);
    if let Some(t) = w.finished_at {
        assert(h[c + 1] == "  finished  "@ + t);
    }
}

/// The steps that are shown of a workflow are those of the reply, in order.
pub proof fn law_show_lists_the_steps(
    w: WorkflowV,
    steps: Seq<StepViewV>,
    wake: Seq<char>,
    i: int,
)
    requires
        0 <= i < steps.len(),
    ensures
        ({
            let d = JsonV::Obj(seq![("workflow"@, workflow_json(w)), ("steps"@, steps_json(steps))]);
            let t = show_text(d, wake);
            &&& t.len() == show_head(workflow_json(w), wake).len() + steps.len()
            &&& t[show_head(workflow_json(w), wake).len() + i] == step_line(step_json(steps[i]))
        }),
{
    reveal_strlit("workflow");
    reveal_strlit("steps");
    assert("workflow"@.len() == 8 && "steps"@.len() == 5);
    let m = seq![("workflow"@, workflow_json(w)), ("steps"@, steps_json(steps))];
    law_member_is_the_first(m, 0);
    law_member_is_the_first(m, 1);
}

/// The summary of a workflow tells its id, its status and how often it was dispatched again,
/// and then each of its steps, in order; one that was skipped is marked.
pub proof fn law_summary_tells_every_step(wf: WorkflowV, steps: Seq<StepViewV>, i: int)
    requires
        0 <= i < steps.len(),
    ensures
        ({
            let t = summary_text(wf, steps);
            let s = steps[i];
            let line = "  #"@ + padded(decimal_of(s.seq as int), 3) + " "@ + padded(s.name, 16)
                + " "@ + padded(s.status, 9) + " "@ + took(s.duration_ms);
            &&& t.len() == 2 + steps.len()
            &&& t[1] == "workflow "@ + wf.id + "  status="@ + wf.status + "  attempts="@ + decimal_of(
                wf.attempts as int,
            )
            &&& s.status != "skipped"@ ==> t[2 + i] == line
            &&& s.status == "skipped"@ ==> t[2 + i] == line + " (resumed from journal)"@
        }),
{
    reveal_strlit("");
    let s = steps[i];
    let line = "  #"@ + padded(decimal_of(s.seq as int), 3) + " "@ + padded(s.name, 16) + " "@
        + padded(s.status, 9) + " "@ + took(s.duration_ms);
    assert(summary_text(wf, steps)[2 + i] == summary_line(s));
    if s.status != "skipped"@ {
        assert(line + ""@ =~= line);
    }
}

/// That a workflow was dispatched again is told with the reason: a crash, with its number; a
/// restart of the daemon; its time; or a signal.
pub proof fn law_dispatch_is_told(n: int)
    requires
        i64::MIN <= n <= i64::MAX,
    ensures
        event_text("workflow_recovered"@, typed("workflow_recovered"@))
            == "⟳ recovered — resuming after daemon restart"@,
        event_text("workflow_wake"@, typed("workflow_wake"@))
            == "⏰ woke — re-dispatched at wake time"@,
        event_text("workflow_signalled"@, typed("workflow_signalled"@))
            == "✉ signal received — re-dispatched"@,
        event_text(
            "workflow_resume"@,
            JsonV::Obj(
                seq![("type"@, JsonV::Str("workflow_resume"@)), ("attempt"@, JsonV::Int(n))],
            ),
        ) == "↻ resume (attempt "@ + decimal_of(n) + ")"@,
{
    reveal_strlit("workflow_start");
    reveal_strlit("workflow_success");
    reveal_strlit("workflow_failure");
    reveal_strlit("workflow_resume");
    reveal_strlit("workflow_recovered");
    reveal_strlit("workflow_park");
    reveal_strlit("workflow_wake");
    reveal_strlit("workflow_signalled");
    reveal_strlit("type");
    reveal_strlit("attempt");
    assert("workflow_start"@.len() == 14 && "workflow_success"@.len() == 16
        && "workflow_failure"@.len() == 16 && "workflow_resume"@.len() == 15
        && "workflow_recovered"@.len() == 18 && "workflow_park"@.len() == 13
        && "workflow_wake"@.len() == 13 && "workflow_signalled"@.len() == 18);
    assert("workflow_recovered"@[9] == 'r' && "workflow_signalled"@[9] == 's');
    assert("workflow_park"@[9] == 'p' && "workflow_wake"@[9] == 'w');
    assert("type"@.len() == 4 && "attempt"@.len() == 7);
    law_member_is_the_first(
        seq![("type"@, JsonV::Str("workflow_resume"@)), ("attempt"@, JsonV::Int(n))],
        1,
    );
}

/// The list of the dashboard has of a workflow a mark, its id, its deployment and its
/// status; and of a deployment its name, its expression and when it fires next, or that it
/// is disabled or only started by hand.
pub proof fn law_dashboard_lists(w: WorkflowV, d: DeploymentV, next: Seq<char>)
    ensures
        run_text(workflow_json(w)) == dot_of(w.status) + " "@ + w.id + "  "@ + w.deployment + "  "@
            + w.status,
        flow_text(deployment_json(d), next) == "⏱ "@ + padded(d.name, 12) + " "@ + match d.cron {
            Some(expr) => if d.enabled {
                padded(expr, 11) + " next "@ + next
            } else {
                padded(expr, 11) + " (disabled)"@
            },
            None => "manual only"@,
        },
{
    law_workflow_reply(w);
    law_deployment_reply(d, 0);
}

/// The detail of a workflow has its deployment, its id, its status, what started it and how
/// often it was dispatched again; then its steps, each on a line; then the last lines of its
/// activity.
pub proof fn law_detail_shows_the_workflow(
    w: WorkflowV,
    steps: Seq<StepViewV>,
    feed: Seq<Seq<char>>,
)
    ensures
        ({
            let d = JsonV::Obj(seq![("workflow"@, workflow_json(w)), ("steps"@, steps_json(steps))]);
            detail_text(Some(d), feed) == "flow     "@ + w.deployment + "\nworkflow "@ + w.id
                + "\nstatus   "@ + w.status + "\ntrigger  "@ + w.trigger + "\nattempts "@
                + decimal_of(w.attempts as int) + "\n\nsteps:\n"@ + detail_steps(
                steps_json(steps)->Arr_0,
            ) + "\nactivity:\n"@ + ended(last_lines(feed, 16))
        }),
        detail_text(None, feed) == "no run selected"@,
{
    reveal_strlit("workflow");
    reveal_strlit("steps");
    assert("workflow"@.len() == 8 && "steps"@.len() == 5);
    law_workflow_reply(w);
    let m = seq![("workflow"@, workflow_json(w)), ("steps"@, steps_json(steps))];
    law_member_is_the_first(m, 0);
    law_member_is_the_first(m, 1);
}

/// Lines that are shown stand below each other, each with its end.
pub proof fn law_lines_stand_below_each_other(
    ls: Seq<Seq<char>>,
    l: Seq<char>,
    ts: Seq<JsonV>,
    t: JsonV,
)
    ensures
        ended(ls.push(l)) == ended(ls) + (l + "\n"@),
        ended(Seq::empty()).len() == 0,
        detail_steps(ts.push(t)) == detail_steps(ts) + detail_step(t),
        detail_steps(Seq::empty()).len() == 0,
        recent_lines(ts.push(t)) == recent_lines(ts) + recent_line(t),
        recent_lines(Seq::empty()).len() == 0,
{
    assert(ls.push(l).drop_last() =~= ls);
    assert(ts.push(t).drop_last() =~= ts);
}

/// The detail of a deployment has what it was declared with, when it fires next, and its
/// recent workflows.
pub proof fn law_job_shows_the_deployment(
    d: DeploymentV,
    next: Seq<char>,
    params: Seq<char>,
    runs: Seq<JsonV>,
)
    ensures
        job_text(deployment_json(d), next, params, runs) == "job      "@ + d.name + "\ncommand  "@
            + words_of(deployment_json(d).at("cmd"@).items()) + "\n"@ + (match d.cron {
            Some(expr) => "cron     "@ + expr + "\nnext     "@ + next + "\n"@,
            None => "cron     — (manual only)\n"@,
        }) + "enabled  "@ + (if d.enabled {
            "true"@
        } else {
            "false"@
        }) + "\ncatchup  "@ + d.catchup + "\noverlap  "@ + d.overlap + "\n"@ + (if d.params.len()
            > 0 {
            "params   "@ + params + "\n"@
        } else {
            Seq::empty()
        }) + "\nrecent runs:\n"@ + recent_text(runs, d.name),
{
    law_deployment_reply(d, 0);
}

/// The command of a deployment is shown as its words with a space between each two.
pub proof fn law_command_is_shown(v: Seq<JsonV>, s: Seq<char>)
    ensures
        words_of(seq![JsonV::Str(s)]) == s,
        has_text(v) ==> words_of(v.push(JsonV::Str(s))) == words_of(v) + " "@ + s,
{
    let one = seq![JsonV::Str(s)];
    assert(one.drop_last() =~= Seq::<JsonV>::empty());
    assert(one.last().string() == Some(s));
    assert(!has_text(one.drop_last()));
    let w = v.push(JsonV::Str(s));
    assert(w.drop_last() =~= v);
    assert(w.last().string() == Some(s));
}

/// Of the workflows of a deployment the first eight are shown, and none of another.
pub proof fn law_recent_runs_are_its_own(runs: Seq<JsonV>, name: Seq<char>, i: int)
    ensures
        ({
            let mine = at_most(runs.filter(run_of(name)), 8);
            &&& mine.len() <= 8
            &&& 0 <= i < mine.len() ==> mine[i].field_text("deployment"@, ""@) == name
            &&& recent_text(runs, name) == if mine.len() == 0 {
                "  (none yet)\n"@
            } else {
                recent_lines(mine)
            }
        }),
{
    let f = runs.filter(run_of(name));
    let mine = at_most(f, 8);
    if 0 <= i < mine.len() {
        assert(mine[i] == f[i]);
        lemma_filter_holds(runs, name, i);
    }
}

proof fn lemma_filter_holds(s: Seq<JsonV>, name: Seq<char>, i: int)
    requires
        0 <= i < s.filter(run_of(name)).len(),
    ensures
        s.filter(run_of(name))[i].field_text("deployment"@, ""@) == name,
    decreases s.len(),
{
    reveal(Seq::filter);
    if s.len() > 0 && i < s.drop_last().filter(run_of(name)).len() {
        lemma_filter_holds(s.drop_last(), name, i);
    }
}

/// A time of day is shown with two digits of each.
pub proof fn law_time_has_two_digits(w: Wall)
    requires
        w.hour <= 23,
        w.minute <= 59,
    ensures
        clock_text(w).len() == 5,
        clock_text(w)[0] as u32 - '0' as u32 == w.hour / 10,
        clock_text(w)[1] as u32 - '0' as u32 == w.hour % 10,
        clock_text(w)[2] == ':',
        clock_text(w)[3] as u32 - '0' as u32 == w.minute / 10,
        clock_text(w)[4] as u32 - '0' as u32 == w.minute % 10,
{
    reveal_strlit(":");
}

/// What is said of the daemon: whether it runs, its process id where one is known, and where
/// its log is.
pub proof fn law_status_says(dir: Seq<char>, host: Seq<char>, up: bool, pid: Seq<char>)
    ensures
        status_text(dir, host, up, None) == seq![
            "daemon @ "@ + address(host) + ": "@ + if up {
                "RUNNING"@
            } else {
                "not running"@
            },
            "  log: "@ + log_file_of(dir, host),
        ],
        status_text(dir, host, up, Some(pid)).len() == 3,
        status_text(dir, host, up, Some(pid))[1] == "  pid: "@ + trimmed(pid),
        status_text(dir, host, up, Some(pid))[0] == status_text(dir, host, up, None)[0],
{
}

/// What the scheduler says: which workflow it started; why it could not; that one was still
/// active; or what is wrong with an expression. It says nothing where there is nothing to do.
pub proof fn law_scheduler_says(
    t: TickV,
    dep: DeploymentV,
    at: Stamp,
    token: Seq<char>,
    now: Seq<char>,
    expr: Seq<char>,
)
    requires
        dep.cron == Some(expr),
    ensures
        ({
            let u = t.considered(dep, at, token, now);
            let r = t.worker.triggered(dep, "cron"@, JsonV::Null, None, token, now).1;
            if !dep.enabled {
                u.said == t.said
            } else {
                match cron_of(expr) {
                    Err(e) => u.said == t.said.push(
                        "[scheduler] '"@ + dep.name + "' bad cron '"@ + expr + "': "@ + e.message(),
                    ),
                    Ok(_) => u.fired == t.fired && u.said == t.said || u.said == t.said.push(
                        if dep.overlap == "skip"@ && t.worker.active.contains(dep.name) {
                            "[scheduler] skip '"@ + dep.name + "': previous run still active"@
                        } else {
                            match r {
                                Ok(id) => "[scheduler] fired '"@ + dep.name + "' -> "@ + id,
                                Err(e) => "[scheduler] trigger '"@ + dep.name + "' failed: "@
                                    + e.message_of(dep),
                            }
                        },
                    ),
                }
            }
        }),
{
}

/// What is wrong with an expression is told in the words in which it was written.
pub proof fn law_expression_errors_quote(expr: Seq<char>, got: int, s: Seq<char>)
    ensures
        (CronErrorV::FieldCount { expr, got }).message() == "cron '"@ + expr
            + "' must have 5 fields (min hour dom month dow), got "@ + decimal_of(got),
        CronErrorV::BadStep(s).message() == "bad step '"@ + s + "'"@,
        CronErrorV::BadRange(s).message() == "bad range '"@ + s + "'"@,
        CronErrorV::BadValue(s).message() == "bad value '"@ + s + "'"@,
        CronErrorV::ZeroStep.message() == "step must be > 0"@,
{
}

} // verus!

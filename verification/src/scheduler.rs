//! The cron scheduler. It looks at the current minute alone, so a firing that was
//! missed while the program was down is never seen. That each deployment fires at
//! most once in a minute is kept by remembering the minute of its last firing.

use vstd::prelude::*;
use crate::clock::{stamp_ok, Stamp};
use crate::config::{cron_of, second_of, Cron, CronErrorV, Deployment, DeploymentV};
use crate::json::{Json, JsonV};
use crate::laws::{
    comes_from, lemma_comes_from_self, lemma_comes_from_trans, lemma_put_finds, lemma_put_keeps,
};
use crate::order::is_sorted_by;
use crate::rows::DeploymentRowV;
use crate::store::StoreError;
use crate::tables::{
    deployment_of, find_row, is_decoded, is_due, name_keys, put_row, workflows_of,
};
use crate::text::{
    first_where, lemma_first_where_is, lemma_views_push, lemma_views_update,
    str_eq, views,
};
use crate::worker::{is_token, token, TriggerError, Worker, WorkerV};
use crate::workflow_laws::law_trigger_is_told;

verus! {

/// The minute in which a deployment last fired: its name and the minute.
pub type Fired = (Seq<char>, i64);

/// The minute that the local clock shows at an instant, counted from the epoch.
pub open spec fn minute_of(at: Stamp) -> i64 {
    ((at.secs + at.offset) / 60) as i64
}

/// Recognises the last firing of a deployment.
pub open spec fn firing_of(name: Seq<char>) -> spec_fn(Fired) -> bool {
    |f: Fired| f.0 == name
}

/// The minute in which a deployment last fired.
pub open spec fn last_minute(fired: Seq<Fired>, name: Seq<char>) -> Option<i64> {
    match find_row(fired, firing_of(name)) {
        Some(f) => Some(f.1),
        None => None,
    }
}

/// Whether a deployment is due: it is enabled, has a cron expression that can be
/// read and fires at the instant.
pub open spec fn is_scheduled(dep: DeploymentV, at: Stamp) -> bool {
    dep.enabled && dep.cron is Some && (cron_of(dep.cron.unwrap()) matches Ok(c) && c.fires_at(at))
}

/// What the scheduler says of a deployment whose expression cannot be read.
pub open spec fn bad_cron_text(dep: DeploymentV, expr: Seq<char>, e: CronErrorV) -> Seq<char> {
    "[scheduler] '"@ + dep.name + "' bad cron '"@ + expr + "': "@ + e.message()
}

/// What the scheduler says of a submission.
pub open spec fn fired_text(dep: DeploymentV, r: Result<Seq<char>, TriggerError>) -> Seq<char> {
    match r {
        Ok(id) => "[scheduler] fired '"@ + dep.name + "' -> "@ + id,
        Err(e) => "[scheduler] trigger '"@ + dep.name + "' failed: "@ + e.message_of(dep),
    }
}

/// The scheduler and its worker, with what was said.
#[verifier::ext_equal]
pub struct TickV {
    pub fired: Seq<Fired>,
    pub worker: WorkerV,
    pub said: Seq<Seq<char>>,
}

impl TickV {
    /// With one more thing said.
    pub open spec fn say(self, line: Seq<char>) -> TickV {
        TickV { said: self.said.push(line), ..self }
    }

    /// With one deployment considered.
    pub open spec fn considered(
        self,
        dep: DeploymentV,
        at: Stamp,
        token: Seq<char>,
        now: Seq<char>,
    ) -> TickV {
        if !dep.enabled || dep.cron is None {
            self
        } else {
            let expr = dep.cron.unwrap();
            match cron_of(expr) {
                Err(e) => self.say(bad_cron_text(dep, expr, e)),
                Ok(c) => if !c.fires_at(at) || last_minute(self.fired, dep.name) == Some(
                    minute_of(at),
                ) {
                    self
                } else {
                    let t = TickV {
                        fired: put_row(
                            self.fired,
                            firing_of(dep.name),
                            (dep.name, minute_of(at)),
                        ),
                        ..self
                    };
                    if self.worker.is_blocked(dep) {
                        t.say("[scheduler] skip '"@ + dep.name + "': previous run still active"@)
                    } else {
                        let (w, r) = self.worker.triggered(
                            dep,
                            "cron"@,
                            JsonV::Null,
                            None,
                            token,
                            now,
                        );
                        TickV { worker: w, ..t }.say(fired_text(dep, r))
                    }
                },
            }
        }
    }

    /// With several deployments considered, one after the other.
    pub open spec fn considered_all(
        self,
        deps: Seq<DeploymentV>,
        at: Stamp,
        tokens: Seq<Seq<char>>,
        now: Seq<char>,
    ) -> TickV
        decreases deps.len(),
    {
        if deps.len() == 0 {
            self
        } else {
            self.considered_all(deps.drop_last(), at, tokens, now).considered(
                deps.last(),
                at,
                tokens[deps.len() - 1],
                now,
            )
        }
    }
}

/// The minute that the local clock shows at an instant, counted from the epoch.
pub fn minute_shown(at: &Stamp) -> (r: i64)
    requires
        stamp_ok(*at),
    ensures
        r == minute_of(*at),
        r == (at.secs + at.offset) / 60,
{
    let shown: i64 = at.secs + at.offset as i64;
    let whole: i64 = shown - second_of(shown);
    if whole >= 0 {
        (whole as u64 / 60) as i64
    } else {
        let n: u64 = (-whole) as u64 / 60;
        -(n as i64)
    }
}

/// The scheduler: for each deployment that fired, the minute of its last firing.
pub struct Scheduler {
    pub last_fired: Vec<(String, i64)>,
}

impl View for Scheduler {
    type V = Seq<Fired>;

    open spec fn view(&self) -> Seq<Fired> {
        views(self.last_fired@)
    }
}

impl Scheduler {
    /// A scheduler that has fired nothing.
    pub fn new() -> (r: Scheduler)
        ensures
            r@ == Seq::<Fired>::empty(),
    {
        let r = Scheduler { last_fired: Vec::new() };
        assert(r@ =~= Seq::<Fired>::empty());
        r
    }

    fn find(&self, name: &String) -> (r: usize)
        ensures
            r == first_where(self@, firing_of(name@)),
            r <= self.last_fired@.len(),
    {
        let mut i: usize = 0;
        while i < self.last_fired.len() && self.last_fired[i].0 != *name
            invariant
                i <= self.last_fired@.len(),
                forall|j: int| 0 <= j < i ==> (#[trigger] self.last_fired@[j]).0@ != name@,
            decreases self.last_fired@.len() - i,
        {
            i = i + 1;
        }
        proof {
            lemma_first_where_is(self@, firing_of(name@), i as int);
        }
        i
    }

    /// Considers one deployment: fires it if it is due and has not fired in this
    /// minute. Tells what is to be said, if anything.
    pub fn consider(
        &mut self,
        worker: &mut Worker,
        dep: Deployment,
        at: &Stamp,
        token: &str,
        now: &str,
    ) -> (r: Option<String>)
        requires
            stamp_ok(*at),
            is_token(token@),
        ensures
            ({
                let start = TickV {
                    fired: old(self)@,
                    worker: old(worker)@,
                    said: Seq::empty(),
                };
                let end = start.considered(dep@, *at, token@, now@);
                &&& final(self)@ == end.fired
                &&& final(worker)@ == end.worker
                &&& match r {
                    Some(s) => end.said == seq![s@],
                    None => end.said == Seq::<Seq<char>>::empty(),
                }
            }),
    {
        broadcast use {lemma_views_push, lemma_views_update};

        if !dep.enabled {
            return None;
        }
        let expr = match &dep.cron {
            Some(e) => e.clone(),
            None => {
                return None;
            },
        };
        let cron = match Cron::parse(expr.as_str()) {
            Ok(c) => c,
            Err(e) => {
                let mut s = "[scheduler] '".to_string();
                s.append(dep.name.as_str());
                s.append("' bad cron '");
                s.append(expr.as_str());
                s.append("': ");
                s.append(e.message().as_str());
                assert(Seq::<Seq<char>>::empty().push(s@) =~= seq![s@]);
                return Some(s);
            },
        };
        if !cron.matches(at) {
            return None;
        }
        let i = self.find(&dep.name);
        let minute: i64 = minute_shown(at);
        if i < self.last_fired.len() && self.last_fired[i].1 == minute {
            return None;
        }
        let entry = (dep.name.clone(), minute);
        if i < self.last_fired.len() {
            self.last_fired.set(i, entry);
        } else {
            self.last_fired.push(entry);
        }
        if str_eq(dep.overlap.as_str(), "skip") && worker.is_active(dep.name.as_str()) {
            let mut s = "[scheduler] skip '".to_string();
            s.append(dep.name.as_str());
            s.append("': previous run still active");
            assert(Seq::<Seq<char>>::empty().push(s@) =~= seq![s@]);
            return Some(s);
        }
        let shown = dep.copy();
        let r = worker.trigger_with(dep, "cron", Json::Null, None, token, now);
        let s = match r {
            Ok(id) => {
                let mut s = "[scheduler] fired '".to_string();
                s.append(shown.name.as_str());
                s.append("' -> ");
                s.append(id.as_str());
                s
            },
            Err(e) => {
                let mut s = "[scheduler] trigger '".to_string();
                s.append(shown.name.as_str());
                s.append("' failed: ");
                s.append(e.message(&shown).as_str());
                s
            },
        };
        assert(Seq::<Seq<char>>::empty().push(s@) =~= seq![s@]);
        Some(s)
    }

    /// Settles a tick: one that could not be written did not happen, and its firings are
    /// forgotten for those that were known before it.
    pub fn settle(&mut self, written: bool, before: Vec<(String, i64)>)
        ensures
            final(self)@ == if written {
                old(self)@
            } else {
                views(before@)
            },
    {
        if !written {
            self.last_fired = before;
        }
    }

    /// One tick: wakes the workflows that are due at `instant`, then considers each
    /// deployment, in the order of their names. Tells what is to be said. Where the
    /// deployments cannot be read, none is considered.
    pub fn tick(
        &mut self,
        worker: &mut Worker,
        at: &Stamp,
        instant: i64,
        now: &str,
    ) -> (r: Result<Vec<String>, String>)
        requires
            stamp_ok(*at),
        ensures
            ({
                let w = old(worker)@.woken(
                    workflows_of(
                        old(worker)@.store.tables.workflows.filter(is_due(instant)),
                    ),
                    now@,
                );
                match r {
                    Ok(said) => exists|deps: Seq<DeploymentV>, tokens: Seq<Seq<char>>|
                        #[trigger] is_tick(
                            w,
                            deps,
                            tokens,
                        ) && (TickV {
                            fired: final(self)@,
                            worker: final(worker)@,
                            said: views(said@),
                        }) == (TickV {
                            fired: old(self)@,
                            worker: w,
                            said: Seq::empty(),
                        }).considered_all(deps, *at, tokens, now@),
                    Err(e) => final(self)@ == old(self)@ && final(worker)@ == w && e@
                        == "[scheduler] list_deployments failed: "@
                        + StoreError::Decode.message_of() && exists|i: int|
                        0 <= i < w.store.tables.deployments.len() && deployment_of(
                            #[trigger] w.store.tables.deployments[i],
                        ) is None,
                }
            }),
    {
        broadcast use lemma_views_push;

        worker.resume_due(instant, now);
        let ghost w = worker@;
        let ghost start = TickV { fired: self@, worker: w, said: Seq::empty() };
        let deps = match worker.store.list_deployments() {
            Ok(d) => d,
            Err(e) => {
                proof {
                    let rows = w.store.tables.deployments;
                    let i = choose|i: int|
                        0 <= i < rows.len() && deployment_of(#[trigger] rows[i]) is None;
                    assert(deployment_of(w.store.tables.deployments[i]) is None);
                }
                let mut s = "[scheduler] list_deployments failed: ".to_string();
                s.append(e.message().as_str());
                return Err(s);
            },
        };
        let ghost all = views(deps@);
        let ghost mut tokens: Seq<Seq<char>> = Seq::empty();
        let mut said: Vec<String> = Vec::new();
        let mut i: usize = 0;
        assert(all.take(0) =~= Seq::<DeploymentV>::empty());
        assert(views(said@) =~= Seq::<Seq<char>>::empty());
        while i < deps.len()
            invariant
                i <= deps@.len(),
                stamp_ok(*at),
                all == views(deps@),
                tokens.len() == i,
                forall|k: int| 0 <= k < i ==> is_token(#[trigger] tokens[k]),
                (TickV { fired: self@, worker: worker@, said: views(said@) })
                    == start.considered_all(all.take(i as int), *at, tokens, now@),
            decreases deps@.len() - i,
        {
            let t = token();
            let ghost before = TickV { fired: self@, worker: worker@, said: views(said@) };
            let ghost old_tokens = tokens;
            proof {
                tokens = tokens.push(t@);
                assert(all.take(i + 1).drop_last() =~= all.take(i as int));
                assert(all.take(i + 1).last() == all[i as int]);
                lemma_tokens(start, all.take(i as int), *at, old_tokens, tokens, now@);
                lemma_said(before, all[i as int], *at, t@, now@);
            }
            match self.consider(worker, deps[i].copy(), at, t.as_str(), now) {
                Some(s) => {
                    said.push(s);
                },
                None => {},
            }
            assert(views(said@) =~= before.considered(all[i as int], *at, t@, now@).said);
            i = i + 1;
        }
        assert(all.take(all.len() as int) =~= all);
        assert(is_tick(w, all, tokens));
        Ok(said)
    }
}

/// Whether `deps` are the deployments of a worker, sorted by name, with a token for
/// each.
pub open spec fn is_tick(w: WorkerV, deps: Seq<DeploymentV>, tokens: Seq<Seq<char>>) -> bool {
    &&& tokens.len() == deps.len()
    &&& forall|k: int| 0 <= k < tokens.len() ==> is_token(#[trigger] tokens[k])
    &&& exists|rows: Seq<DeploymentRowV>|
        #[trigger] is_sorted_by(
            w.store.tables.deployments,
            name_keys(w.store.tables.deployments),
            rows,
        ) && is_decoded(rows, deps)
}

proof fn lemma_tokens(
    start: TickV,
    deps: Seq<DeploymentV>,
    at: Stamp,
    a: Seq<Seq<char>>,
    b: Seq<Seq<char>>,
    now: Seq<char>,
)
    requires
        deps.len() <= a.len(),
        deps.len() <= b.len(),
        forall|k: int| 0 <= k < deps.len() ==> a[k] == b[k],
    ensures
        start.considered_all(deps, at, a, now) == start.considered_all(
            deps,
            at,
            b,
            now,
        ),
    decreases deps.len(),
{
    if deps.len() > 0 {
        lemma_tokens(start, deps.drop_last(), at, a, b, now);
    }
}

/// What is said does not depend on what was said before.
proof fn lemma_said(
    t: TickV,
    dep: DeploymentV,
    at: Stamp,
    token: Seq<char>,
    now: Seq<char>,
)
    ensures
        ({
            let quiet = TickV { said: Seq::empty(), ..t };
            let a = t.considered(dep, at, token, now);
            let b = quiet.considered(dep, at, token, now);
            &&& a.fired == b.fired
            &&& a.worker == b.worker
            &&& a.said == t.said + b.said
        }),
{
    let quiet = TickV { said: Seq::empty(), ..t };
    let a = t.considered(dep, at, token, now);
    let b = quiet.considered(dep, at, token, now);
    assert(a.said =~= t.said + b.said);
}

// ---------------------------------------------------------------------------
// How long to sleep
// ---------------------------------------------------------------------------

/// How many nanoseconds the scheduler sleeps: to the next whole second, and no less
/// than a twentieth of a second.
pub open spec fn pause_of(nanos: int) -> int {
    let rest = 1_000_000_000 - nanos % 1_000_000_000;
    if rest < 50_000_000 {
        50_000_000
    } else {
        rest
    }
}

/// How many nanoseconds the scheduler sleeps at a number of nanoseconds of a second.
pub fn pause(nanos: u32) -> (r: u64)
    ensures
        r == pause_of(nanos as int),
        50_000_000 <= r <= 1_000_000_000,
{
    let rest: u64 = 1_000_000_000 - (nanos % 1_000_000_000) as u64;
    if rest < 50_000_000 {
        50_000_000
    } else {
        rest
    }
}

/// How many nanoseconds the scheduler sleeps after a tick: to the next whole second, or
/// for a second where the tick failed.
pub fn pause_after(done: bool, nanos: u32) -> (r: u64)
    ensures
        r == if done {
            pause_of(nanos as int)
        } else {
            1_000_000_000
        },
{
    if done {
        pause(nanos)
    } else {
        1_000_000_000
    }
}

// ---------------------------------------------------------------------------
// Laws
// ---------------------------------------------------------------------------

/// Whether a deployment fires when it is looked at: it is due, and has not fired in
/// the minute.
pub open spec fn fires(fired: Seq<Fired>, dep: DeploymentV, at: Stamp) -> bool {
    is_scheduled(dep, at) && last_minute(fired, dep.name) != Some(minute_of(at))
}

/// A look submits a workflow just where the deployment fires and overlaps do not keep
/// it back. It changes nothing where the deployment does not fire.
pub proof fn law_look_submits(
    t: TickV,
    dep: DeploymentV,
    at: Stamp,
    token: Seq<char>,
    now: Seq<char>,
)
    ensures
        ({
            let u = t.considered(dep, at, token, now);
            if !fires(t.fired, dep, at) {
                u.worker == t.worker && u.fired == t.fired
            } else {
                &&& last_minute(u.fired, dep.name) == Some(minute_of(at))
                &&& u.worker == if t.worker.is_blocked(dep) {
                    t.worker
                } else {
                    t.worker.triggered(dep, "cron"@, JsonV::Null, None, token, now).0
                }
            }
        }),
{
    lemma_put_finds(t.fired, firing_of(dep.name), (dep.name, minute_of(at)));
}

/// How often a deployment fires when several are looked at, one after the other.
pub open spec fn firings(
    t: TickV,
    deps: Seq<DeploymentV>,
    at: Stamp,
    tokens: Seq<Seq<char>>,
    now: Seq<char>,
    name: Seq<char>,
) -> nat
    decreases deps.len(),
{
    if deps.len() == 0 {
        0
    } else {
        let rest = deps.drop_last();
        let last = deps.last();
        firings(t, rest, at, tokens, now, name) + if last.name == name && fires(
            t.considered_all(rest, at, tokens, now).fired,
            last,
            at,
        ) {
            1nat
        } else {
            0
        }
    }
}

proof fn lemma_firings(
    t: TickV,
    deps: Seq<DeploymentV>,
    at: Stamp,
    tokens: Seq<Seq<char>>,
    now: Seq<char>,
    name: Seq<char>,
)
    ensures
        ({
            let n = firings(t, deps, at, tokens, now, name);
            let before = last_minute(t.fired, name);
            let after = last_minute(t.considered_all(deps, at, tokens, now).fired, name);
            &&& n <= 1
            &&& n == 1 ==> after == Some(minute_of(at))
            &&& n == 0 ==> after == before
            &&& before == Some(minute_of(at)) ==> n == 0
        }),
    decreases deps.len(),
{
    if deps.len() > 0 {
        let rest = deps.drop_last();
        let dep = deps.last();
        let token = tokens[deps.len() - 1];
        let u = t.considered_all(rest, at, tokens, now);
        lemma_firings(t, rest, at, tokens, now, name);
        law_look_submits(u, dep, at, token, now);
        if dep.name != name {
            law_firings_are_apart(u, dep, at, token, now, name);
        }
    }
}

/// A tick reaches every deployment, whatever the others do: one that is due has fired
/// in the minute when the tick is over, and fires in this tick if it had not before.
/// Neither an expression that cannot be read nor a refused submission keeps another
/// deployment from firing.
pub proof fn law_tick_reaches_all(
    t: TickV,
    deps: Seq<DeploymentV>,
    at: Stamp,
    tokens: Seq<Seq<char>>,
    now: Seq<char>,
    k: int,
)
    requires
        0 <= k < deps.len(),
        is_scheduled(deps[k], at),
    ensures
        last_minute(t.considered_all(deps, at, tokens, now).fired, deps[k].name) == Some(
            minute_of(at),
        ),
        firings(t, deps, at, tokens, now, deps[k].name) == if last_minute(t.fired, deps[k].name)
            == Some(minute_of(at)) {
            0nat
        } else {
            1
        },
    decreases deps.len(),
{
    let name = deps[k].name;
    let rest = deps.drop_last();
    let u = t.considered_all(rest, at, tokens, now);
    lemma_firings(t, rest, at, tokens, now, name);
    lemma_firings(t, deps, at, tokens, now, name);
    law_look_submits(u, deps.last(), at, tokens[deps.len() - 1], now);
    if k < rest.len() {
        assert(rest[k] == deps[k]);
        law_tick_reaches_all(t, rest, at, tokens, now, k);
        if deps.last().name != name {
            law_firings_are_apart(u, deps.last(), at, tokens[deps.len() - 1], now, name);
        }
    }
}

/// What a tick of the scheduler finds: the worker, whatever became of it since the tick
/// before, the deployments, the instant, a token for each deployment, and the time.
pub struct Found {
    pub worker: WorkerV,
    pub deps: Seq<DeploymentV>,
    pub at: Stamp,
    pub tokens: Seq<Seq<char>>,
    pub now: Seq<char>,
}

/// The scheduler and its worker at the start of a tick.
pub open spec fn tick_start(fired: Seq<Fired>, f: Found) -> TickV {
    TickV { fired, worker: f.worker, said: Seq::empty() }
}

/// What the scheduler remembers after several ticks.
pub open spec fn run_fired(fired: Seq<Fired>, ticks: Seq<Found>) -> Seq<Fired>
    decreases ticks.len(),
{
    if ticks.len() == 0 {
        fired
    } else {
        let f = ticks.last();
        tick_start(run_fired(fired, ticks.drop_last()), f).considered_all(
            f.deps,
            f.at,
            f.tokens,
            f.now,
        ).fired
    }
}

/// How often a deployment fires, over several ticks, in a minute of the local clock.
pub open spec fn run_firings(
    fired: Seq<Fired>,
    ticks: Seq<Found>,
    name: Seq<char>,
    minute: i64,
) -> nat
    decreases ticks.len(),
{
    if ticks.len() == 0 {
        0
    } else {
        let f = ticks.last();
        let rest = ticks.drop_last();
        run_firings(fired, rest, name, minute) + if minute_of(f.at) == minute {
            firings(
                tick_start(run_fired(fired, rest), f),
                f.deps,
                f.at,
                f.tokens,
                f.now,
                name,
            )
        } else {
            0
        }
    }
}

/// Whether the local clock is not set back over several ticks.
pub open spec fn runs_on(ticks: Seq<Found>) -> bool {
    forall|i: int, j: int|
        0 <= i < j < ticks.len() ==> minute_of((#[trigger] ticks[i]).at) <= minute_of(
            (#[trigger] ticks[j]).at,
        )
}

/// A deployment fires at most once in a minute of the local clock, however many ticks
/// fall in it and whatever happens between them, while the clock is not set back.
pub proof fn law_fires_once_a_minute(
    fired: Seq<Fired>,
    ticks: Seq<Found>,
    name: Seq<char>,
    minute: i64,
)
    requires
        runs_on(ticks),
    ensures
        run_firings(fired, ticks, name, minute) <= 1,
{
    lemma_run(fired, ticks, name, minute);
}

proof fn lemma_run(fired: Seq<Fired>, ticks: Seq<Found>, name: Seq<char>, minute: i64)
    requires
        runs_on(ticks),
    ensures
        run_firings(fired, ticks, name, minute) <= 1,
        run_firings(fired, ticks, name, minute) == 1 ==> ticks.len() > 0 && (last_minute(
            run_fired(fired, ticks),
            name,
        ) matches Some(m) && minute <= m <= minute_of(ticks.last().at)),
    decreases ticks.len(),
{
    if ticks.len() > 0 {
        let rest = ticks.drop_last();
        let f = ticks.last();
        assert forall|i: int, j: int| 0 <= i < j < rest.len() implies minute_of(
            (#[trigger] rest[i]).at,
        ) <= minute_of((#[trigger] rest[j]).at) by {
            assert(minute_of(ticks[i].at) <= minute_of(ticks[j].at));
        }
        lemma_run(fired, rest, name, minute);
        lemma_firings(
            tick_start(run_fired(fired, rest), f),
            f.deps,
            f.at,
            f.tokens,
            f.now,
            name,
        );
        if rest.len() > 0 {
            assert(minute_of(ticks[rest.len() - 1].at) <= minute_of(
                ticks[ticks.len() - 1].at,
            ));
        }
    }
}

/// A look at one deployment leaves the last firings of the others alone.
pub proof fn law_firings_are_apart(
    t: TickV,
    dep: DeploymentV,
    at: Stamp,
    token: Seq<char>,
    now: Seq<char>,
    other: Seq<char>,
)
    requires
        other != dep.name,
    ensures
        last_minute(t.considered(dep, at, token, now).fired, other) == last_minute(
            t.fired,
            other,
        ),
{
    lemma_put_keeps(t.fired, firing_of(dep.name), firing_of(other), (dep.name, minute_of(at)));
}

/// A deployment that is not enabled, has no expression, or does not fire at the
/// minute is left alone: what was missed is not made up for.
pub proof fn law_only_the_current_minute_counts(
    t: TickV,
    dep: DeploymentV,
    at: Stamp,
    token: Seq<char>,
    now: Seq<char>,
)
    requires
        !is_scheduled(dep, at),
    ensures
        t.considered(dep, at, token, now).worker == t.worker,
        t.considered(dep, at, token, now).fired == t.fired,
{
}

/// Everything that a look at the deployments does is told as changes.
pub proof fn law_tick_is_told(
    t: TickV,
    deps: Seq<DeploymentV>,
    at: Stamp,
    tokens: Seq<Seq<char>>,
    now: Seq<char>,
)
    ensures
        comes_from(
            t.worker.store,
            t.considered_all(deps, at, tokens, now).worker.store,
        ),
    decreases deps.len(),
{
    lemma_comes_from_self(t.worker.store);
    if deps.len() > 0 {
        law_tick_is_told(t, deps.drop_last(), at, tokens, now);
        let u = t.considered_all(deps.drop_last(), at, tokens, now);
        let token = tokens[deps.len() - 1];
        lemma_comes_from_self(u.worker.store);
        law_trigger_is_told(u.worker, deps.last(), "cron"@, JsonV::Null, None, token, now);
        lemma_comes_from_trans(
            t.worker.store,
            u.worker.store,
            u.considered(deps.last(), at, token, now).worker.store,
        );
    }
}

/// A deployment that skips overlaps is not fired while one of its workflows is active.
pub proof fn law_cron_skips_overlaps(
    t: TickV,
    dep: DeploymentV,
    at: Stamp,
    token: Seq<char>,
    now: Seq<char>,
)
    requires
        t.worker.is_blocked(dep),
    ensures
        t.considered(dep, at, token, now).worker == t.worker,
{
}

} // verus!

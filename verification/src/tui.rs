//! The dashboard: what its keys do, what it asks for, and the texts that it shows.

use vstd::prelude::*;
use crate::cli::{duration, duration_text, envelope_text, format_envelope, is_timeline, logs};
use crate::clock::{civil_of, in_reach, stamp_ok, wall, Stamp, Wall};
use crate::config::{cron_of, is_next, Cron};
use crate::json::{Json, JsonV};
use crate::protocol::EnvelopeV;
use crate::text::{
    decimal, decimal_of, decimal_u64, lemma_filter_take, lemma_take_step, lemma_views_push, opt, pad,
    padded, str_eq, views,
};

verus! {

// ---------------------------------------------------------------------------
// State and keys
// ---------------------------------------------------------------------------

/// The pages of the dashboard.
#[derive(Clone, Copy, Debug, PartialEq, Eq, Structural)]
pub enum Tab {
    Runs,
    Scheduled,
}

/// The keys that the dashboard knows.
#[derive(Clone, Copy, Debug, PartialEq, Eq, Structural)]
pub enum Press {
    Char(char),
    Esc,
    Tab,
    BackTab,
    Left,
    Right,
    Up,
    Down,
    Other,
}

/// What a key asks for beyond a change of the page.
#[derive(Clone, Copy, Debug, PartialEq, Eq, Structural)]
pub enum UiAction {
    /// Nothing.
    Stay,
    /// End the dashboard.
    Quit,
    /// Ask for everything.
    Refresh,
    /// Ask for the selected workflow.
    Detail,
}

/// What the dashboard shows.
#[derive(Debug, PartialEq)]
pub struct AppUi {
    pub tab: Tab,
    pub flows: Vec<Json>,
    pub flow_selected: usize,
    pub runs: Vec<Json>,
    pub selected: usize,
    pub detail: Option<Json>,
    pub logs: Vec<Json>,
    pub events: Vec<Json>,
    pub status: String,
}

/// The mathematical value of an [`AppUi`].
#[verifier::ext_equal]
pub struct AppUiV {
    pub tab: Tab,
    pub flows: Seq<JsonV>,
    pub flow_selected: int,
    pub runs: Seq<JsonV>,
    pub selected: int,
    pub detail: Option<JsonV>,
    pub logs: Seq<JsonV>,
    pub events: Seq<JsonV>,
    pub status: Seq<char>,
}

impl View for AppUi {
    type V = AppUiV;

    open spec fn view(&self) -> AppUiV {
        AppUiV {
            tab: self.tab,
            flows: views(self.flows@),
            flow_selected: self.flow_selected as int,
            runs: views(self.runs@),
            selected: self.selected as int,
            detail: opt(self.detail),
            logs: views(self.logs@),
            events: views(self.events@),
            status: self.status@,
        }
    }
}

/// The other page.
pub open spec fn other_tab(t: Tab) -> Tab {
    match t {
        Tab::Runs => Tab::Scheduled,
        Tab::Scheduled => Tab::Runs,
    }
}

/// The next of `n` items, or the last.
pub open spec fn next_item(at: int, n: int) -> int {
    if at + 1 < n {
        at + 1
    } else {
        n - 1
    }
}

/// The item before, or the first.
pub open spec fn previous_item(at: int) -> int {
    if at > 0 {
        at - 1
    } else {
        0
    }
}

/// An item of `n`, or, if there is none of that number, the last, or zero.
pub open spec fn clamped(at: int, n: int) -> int {
    if at < n {
        at
    } else if n > 0 {
        n - 1
    } else {
        0
    }
}

impl AppUiV {
    /// What a key does.
    pub open spec fn pressed(self, k: Press) -> (AppUiV, UiAction) {
        match k {
            Press::Esc => (self, UiAction::Quit),
            Press::Tab | Press::Right | Press::BackTab | Press::Left => (
                AppUiV { tab: other_tab(self.tab), ..self },
                UiAction::Stay,
            ),
            Press::Down => self.down(),
            Press::Up => self.up(),
            Press::Other => (self, UiAction::Stay),
            Press::Char(c) => if c == 'q' {
                (self, UiAction::Quit)
            } else if c == 'r' {
                (self, UiAction::Refresh)
            } else if c == 'l' || c == 'h' {
                (AppUiV { tab: other_tab(self.tab), ..self }, UiAction::Stay)
            } else if c == '1' {
                (AppUiV { tab: Tab::Runs, ..self }, UiAction::Stay)
            } else if c == '2' {
                (AppUiV { tab: Tab::Scheduled, ..self }, UiAction::Stay)
            } else if c == 'j' {
                self.down()
            } else if c == 'k' {
                self.up()
            } else {
                (self, UiAction::Stay)
            },
        }
    }

    /// With the next item of the page selected.
    pub open spec fn down(self) -> (AppUiV, UiAction) {
        match self.tab {
            Tab::Runs => if self.runs.len() > 0 {
                (
                    AppUiV {
                        selected: next_item(self.selected, self.runs.len() as int),
                        ..self
                    },
                    UiAction::Detail,
                )
            } else {
                (self, UiAction::Stay)
            },
            Tab::Scheduled => if self.flows.len() > 0 {
                (
                    AppUiV {
                        flow_selected: next_item(self.flow_selected, self.flows.len() as int),
                        ..self
                    },
                    UiAction::Stay,
                )
            } else {
                (self, UiAction::Stay)
            },
        }
    }

    /// With the item before selected.
    pub open spec fn up(self) -> (AppUiV, UiAction) {
        match self.tab {
            Tab::Runs => (
                AppUiV { selected: previous_item(self.selected), ..self },
                UiAction::Detail,
            ),
            Tab::Scheduled => (
                AppUiV { flow_selected: previous_item(self.flow_selected), ..self },
                UiAction::Stay,
            ),
        }
    }

    /// With the deployments that the control plane has.
    pub open spec fn with_flows(self, flows: Seq<JsonV>) -> AppUiV {
        AppUiV {
            flows,
            flow_selected: clamped(self.flow_selected, flows.len() as int),
            ..self
        }
    }

    /// With the workflows that the control plane has, at a time of day.
    pub open spec fn with_runs(self, runs: Seq<JsonV>, time: Seq<char>) -> AppUiV {
        AppUiV {
            runs,
            selected: clamped(self.selected, runs.len() as int),
            status: decimal_of(runs.len() as int) + " run(s) · updated "@ + time,
            ..self
        }
    }

    /// With what the control plane has of the selected workflow.
    pub open spec fn with_detail(
        self,
        detail: Option<JsonV>,
        logs: Seq<JsonV>,
        events: Seq<JsonV>,
    ) -> AppUiV {
        AppUiV { detail, logs, events, ..self }
    }

    /// Whether the selections are of something, where there is something to select.
    pub open spec fn in_range(self) -> bool {
        &&& self.runs.len() > 0 ==> 0 <= self.selected < self.runs.len()
        &&& self.flows.len() > 0 ==> 0 <= self.flow_selected < self.flows.len()
    }

    /// The id of the selected workflow.
    pub open spec fn selected_id(self) -> Option<Seq<char>> {
        if self.selected < self.runs.len() {
            Some(self.runs[self.selected].field_text("id"@, ""@))
        } else {
            None
        }
    }
}

fn clamp(at: usize, n: usize) -> (r: usize)
    ensures
        r == clamped(at as int, n as int),
{
    if at < n {
        at
    } else if n > 0 {
        n - 1
    } else {
        0
    }
}

fn next(at: usize, n: usize) -> (r: usize)
    requires
        n > 0,
    ensures
        r == next_item(at as int, n as int),
{
    if at < n - 1 {
        at + 1
    } else {
        n - 1
    }
}

fn previous(at: usize) -> (r: usize)
    ensures
        r == previous_item(at as int),
{
    if at > 0 {
        at - 1
    } else {
        0
    }
}

/// How many workflows the dashboard asks for.
pub const RUNS_SHOWN: i64 = 100;

impl AppUi {
    /// The dashboard before it has asked for anything.
    pub fn new() -> (r: AppUi)
        ensures
            r@ == (AppUiV {
                tab: Tab::Runs,
                flows: Seq::empty(),
                flow_selected: 0,
                runs: Seq::empty(),
                selected: 0,
                detail: None,
                logs: Seq::empty(),
                events: Seq::empty(),
                status: "connecting…"@,
            }),
            r@.in_range(),
    {
        let r = AppUi {
            tab: Tab::Runs,
            flows: Vec::new(),
            flow_selected: 0,
            runs: Vec::new(),
            selected: 0,
            detail: None,
            logs: Vec::new(),
            events: Vec::new(),
            status: "connecting…".to_string(),
        };
        assert(r@.flows =~= Seq::<JsonV>::empty());
        assert(r@.runs =~= Seq::<JsonV>::empty());
        assert(r@.logs =~= Seq::<JsonV>::empty());
        assert(r@.events =~= Seq::<JsonV>::empty());
        r
    }

    /// Takes in a key, and tells what it asks for.
    pub fn press(&mut self, k: Press) -> (r: UiAction)
        ensures
            (final(self)@, r) == old(self)@.pressed(k),
    {
        match k {
            Press::Esc => UiAction::Quit,
            Press::Tab | Press::Right | Press::BackTab | Press::Left => {
                self.switch_tab();
                UiAction::Stay
            },
            Press::Down => self.down(),
            Press::Up => self.up(),
            Press::Other => UiAction::Stay,
            Press::Char(c) => if c == 'q' {
                UiAction::Quit
            } else if c == 'r' {
                UiAction::Refresh
            } else if c == 'l' || c == 'h' {
                self.switch_tab();
                UiAction::Stay
            } else if c == '1' {
                self.tab = Tab::Runs;
                UiAction::Stay
            } else if c == '2' {
                self.tab = Tab::Scheduled;
                UiAction::Stay
            } else if c == 'j' {
                self.down()
            } else if c == 'k' {
                self.up()
            } else {
                UiAction::Stay
            },
        }
    }

    fn switch_tab(&mut self)
        ensures
            final(self)@ == (AppUiV { tab: other_tab(old(self)@.tab), ..old(self)@ }),
    {
        self.tab =
        match self.tab {
            Tab::Runs => Tab::Scheduled,
            Tab::Scheduled => Tab::Runs,
        };
    }

    fn down(&mut self) -> (r: UiAction)
        ensures
            (final(self)@, r) == old(self)@.down(),
    {
        match self.tab {
            Tab::Runs => {
                let n = self.runs.len();
                if n > 0 {
                    self.selected = next(self.selected, n);
                    UiAction::Detail
                } else {
                    UiAction::Stay
                }
            },
            Tab::Scheduled => {
                let n = self.flows.len();
                if n > 0 {
                    self.flow_selected = next(self.flow_selected, n);
                }
                UiAction::Stay
            },
        }
    }

    fn up(&mut self) -> (r: UiAction)
        ensures
            (final(self)@, r) == old(self)@.up(),
    {
        match self.tab {
            Tab::Runs => {
                self.selected = previous(self.selected);
                UiAction::Detail
            },
            Tab::Scheduled => {
                self.flow_selected = previous(self.flow_selected);
                UiAction::Stay
            },
        }
    }

    /// Takes in the deployments that the control plane has.
    pub fn refresh_flows(&mut self, flows: Vec<Json>)
        ensures
            final(self)@ == old(self)@.with_flows(views(flows@)),
    {
        self.flow_selected = clamp(self.flow_selected, flows.len());
        self.flows = flows;
    }

    /// Takes in the workflows that the control plane has, at a time of day, or why
    /// they are not known. Tells whether the selected workflow is to be asked for.
    pub fn refresh(&mut self, runs: Result<Vec<Json>, String>, time: &str) -> (r: bool)
        ensures
            match runs {
                Ok(v) => r && final(self)@ == old(self)@.with_runs(views(v@), time@),
                Err(e) => !r && final(self)@ == (AppUiV {
                    status: "error: "@ + e@,
                    ..old(self)@
                }),
            },
    {
        match runs {
            Ok(v) => {
                self.selected = clamp(self.selected, v.len());
                let mut s = decimal_u64(v.len() as u64);
                s.append(" run(s) · updated ");
                s.append(time);
                self.status = s;
                self.runs = v;
                true
            },
            Err(e) => {
                let mut s = "error: ".to_string();
                s.append(e.as_str());
                self.status = s;
                false
            },
        }
    }

    /// The workflow to ask for: the selected one. Where there is none, what was known
    /// of one is forgotten.
    pub fn detail_id(&mut self) -> (r: Option<String>)
        ensures
            opt(r) == old(self)@.selected_id(),
            final(self)@ == if r is Some {
                old(self)@
            } else {
                old(self)@.with_detail(None, Seq::empty(), Seq::empty())
            },
    {
        if self.selected < self.runs.len() {
            Some(self.runs[self.selected].text_at("id", ""))
        } else {
            self.detail = None;
            self.logs = Vec::new();
            self.events = Vec::new();
            assert(self@.logs =~= Seq::<JsonV>::empty());
            assert(self@.events =~= Seq::<JsonV>::empty());
            None
        }
    }

    /// Takes in what the control plane has of the selected workflow.
    pub fn refresh_detail(&mut self, detail: Option<Json>, logs: Vec<Json>, events: Vec<Json>)
        ensures
            final(self)@ == old(self)@.with_detail(opt(detail), views(logs@), views(events@)),
    {
        self.detail = detail;
        self.logs = logs;
        self.events = events;
    }
}

/// The selections stay in range, whatever is pressed and whatever comes.
pub proof fn law_selection_stays_in_range(
    ui: AppUiV,
    k: Press,
    flows: Seq<JsonV>,
    runs: Seq<JsonV>,
    time: Seq<char>,
    detail: Option<JsonV>,
    logs: Seq<JsonV>,
    events: Seq<JsonV>,
)
    requires
        ui.in_range(),
        ui.selected >= 0,
        ui.flow_selected >= 0,
    ensures
        ui.pressed(k).0.in_range(),
        ui.with_flows(flows).in_range(),
        ui.with_runs(runs, time).in_range(),
        ui.with_detail(detail, logs, events).in_range(),
{
}

/// Either way to the other page leads back when it is taken twice.
pub proof fn law_tabs_alternate(ui: AppUiV)
    ensures
        ui.pressed(Press::Tab).0.pressed(Press::BackTab).0 == ui,
        ui.pressed(Press::Tab) == ui.pressed(Press::BackTab),
{
}

// ---------------------------------------------------------------------------
// Tones
// ---------------------------------------------------------------------------

/// How a workflow's line is coloured.
#[derive(Clone, Copy, Debug, PartialEq, Eq, Structural)]
pub enum Tone {
    Good,
    Bad,
    Busy,
    Parked,
    Plain,
}

/// The mark of a status.
pub open spec fn dot_of(state: Seq<char>) -> Seq<char> {
    if state == "success"@ {
        "●"@
    } else if state == "failed"@ {
        "✗"@
    } else if state == "running"@ {
        "◐"@
    } else if state == "sleeping"@ || state == "waiting"@ {
        "⏸"@
    } else {
        "·"@
    }
}

/// The mark of a status.
pub fn state_dot(state: &str) -> (r: &'static str)
    ensures
        r@ == dot_of(state@),
{
    if str_eq(state, "success") {
        "●"
    } else if str_eq(state, "failed") {
        "✗"
    } else if str_eq(state, "running") {
        "◐"
    } else if str_eq(state, "sleeping") || str_eq(state, "waiting") {
        "⏸"
    } else {
        "·"
    }
}

/// The tone of a status.
pub open spec fn tone_of(state: Seq<char>) -> Tone {
    if state == "success"@ {
        Tone::Good
    } else if state == "failed"@ {
        Tone::Bad
    } else if state == "running"@ {
        Tone::Busy
    } else if state == "sleeping"@ || state == "waiting"@ {
        Tone::Parked
    } else {
        Tone::Plain
    }
}

/// The tone of a status.
pub fn state_style(state: &str) -> (r: Tone)
    ensures
        r == tone_of(state@),
{
    if str_eq(state, "success") {
        Tone::Good
    } else if str_eq(state, "failed") {
        Tone::Bad
    } else if str_eq(state, "running") {
        Tone::Busy
    } else if str_eq(state, "sleeping") || str_eq(state, "waiting") {
        Tone::Parked
    } else {
        Tone::Plain
    }
}

// ---------------------------------------------------------------------------
// The frame
// ---------------------------------------------------------------------------

/// The number of the page that is shown.
pub fn tab_index(t: Tab) -> (r: usize)
    ensures
        r == match t {
            Tab::Runs => 0int,
            Tab::Scheduled => 1int,
        },
{
    match t {
        Tab::Runs => 0,
        Tab::Scheduled => 1,
    }
}

/// What the last line tells of the keys.
pub open spec fn hint_of(t: Tab) -> Seq<char> {
    match t {
        Tab::Runs => "[Tab] scheduled  [↑/↓] select run  [r] refresh  [q] quit"@,
        Tab::Scheduled => "[Tab] runs  [↑/↓] select job  [r] refresh  [q] quit"@,
    }
}

/// The last line.
pub fn status_line(ui: &AppUi) -> (r: String)
    ensures
        r@ == " shift-clock · "@ + ui@.status + " · "@ + hint_of(ui@.tab),
{
    let mut s = " shift-clock · ".to_string();
    s.append(ui.status.as_str());
    s.append(" · ");
    match ui.tab {
        Tab::Runs => s.append("[Tab] scheduled  [↑/↓] select run  [r] refresh  [q] quit"),
        Tab::Scheduled => s.append("[Tab] runs  [↑/↓] select job  [r] refresh  [q] quit"),
    }
    s
}

// ---------------------------------------------------------------------------
// The page of runs
// ---------------------------------------------------------------------------

/// The line of a workflow.
pub open spec fn run_text(r: JsonV) -> Seq<char> {
    let state = r.field_text("status"@, ""@);
    dot_of(state) + " "@ + r.field_text("id"@, ""@) + "  "@ + r.field_text("deployment"@, ""@)
        + "  "@ + state
}

/// The line of a workflow, and its tone.
pub fn run_line(r: &Json) -> (x: (String, Tone))
    ensures
        x.0@ == run_text(r@),
        x.1 == tone_of(r@.field_text("status"@, ""@)),
{
    let state = r.text_at("status", "");
    let mut s = state_dot(state.as_str()).to_string();
    s.append(" ");
    s.append(r.text_at("id", "").as_str());
    s.append("  ");
    s.append(r.text_at("deployment", "").as_str());
    s.append("  ");
    s.append(state.as_str());
    (s, state_style(state.as_str()))
}

/// A step of the selected workflow.
pub open spec fn detail_step(t: JsonV) -> Seq<char> {
    "  #"@ + padded(decimal_of(t.field_int("seq"@)), 3) + " "@ + padded(
        t.field_text("name"@, ""@),
        16,
    ) + " "@ + padded(t.field_text("status"@, ""@), 9) + " "@ + duration_text(
        t.at("duration_ms"@).integer(),
    ) + "\n"@
}

/// The lines of steps, one after the other.
pub open spec fn detail_steps(ts: Seq<JsonV>) -> Seq<char>
    decreases ts.len(),
{
    if ts.len() == 0 {
        Seq::empty()
    } else {
        detail_steps(ts.drop_last()) + detail_step(ts.last())
    }
}

/// Lines, each ended by a line feed.
pub open spec fn ended(ls: Seq<Seq<char>>) -> Seq<char>
    decreases ls.len(),
{
    if ls.len() == 0 {
        Seq::empty()
    } else {
        ended(ls.drop_last()) + (ls.last() + "\n"@)
    }
}

/// The last of some lines, as many as are shown.
pub open spec fn last_lines(feed: Seq<Seq<char>>, n: int) -> Seq<Seq<char>> {
    if feed.len() > n {
        feed.skip(feed.len() - n)
    } else {
        feed
    }
}

/// The detail of a workflow with its feed.
pub open spec fn detail_text(detail: Option<JsonV>, feed: Seq<Seq<char>>) -> Seq<char> {
    match detail {
        Some(d) => {
            let wf = d.at("workflow"@);
            "flow     "@ + wf.field_text("deployment"@, ""@) + "\nworkflow "@ + wf.field_text(
                "id"@,
                ""@,
            ) + "\nstatus   "@ + wf.field_text("status"@, ""@) + "\ntrigger  "@ + wf.field_text(
                "trigger"@,
                ""@,
            ) + "\nattempts "@ + decimal_of(wf.field_int("attempts"@)) + "\n\nsteps:\n"@
                + detail_steps(d.at("steps"@).items()) + "\nactivity:\n"@ + ended(
                last_lines(feed, 16),
            )
        },
        None => "no run selected"@,
    }
}

fn steps_text(ts: &Vec<Json>) -> (r: String)
    ensures
        r@ == detail_steps(views(ts@)),
{
    let ghost all = views(ts@);
    let mut r = String::new();
    let mut i: usize = 0;
    assert(r@ =~= detail_steps(all.take(0)));
    while i < ts.len()
        invariant
            i <= ts@.len(),
            all == views(ts@),
            r@ == detail_steps(all.take(i as int)),
        decreases ts@.len() - i,
    {
        proof {
            assert(all.take(i + 1).drop_last() =~= all.take(i as int));
            assert(all.take(i + 1).last() == all[i as int]);
        }
        let t = &ts[i];
        let mut s = "  #".to_string();
        s.append(pad(decimal(t.int_at("seq")).as_str(), 3).as_str());
        s.append(" ");
        s.append(pad(t.text_at("name", "").as_str(), 16).as_str());
        s.append(" ");
        s.append(pad(t.text_at("status", "").as_str(), 9).as_str());
        s.append(" ");
        let ms = match t.get("duration_ms") {
            Some(v) => v.as_i64(),
            None => None,
        };
        s.append(duration(ms).as_str());
        s.append("\n");
        assert(s@ == detail_step(all[i as int]));
        r.append(s.as_str());
        i = i + 1;
    }
    assert(all.take(all.len() as int) =~= all);
    r
}

fn last_ended(feed: &Vec<String>, n: usize) -> (r: String)
    ensures
        r@ == ended(last_lines(views(feed@), n as int)),
{
    let ghost all = last_lines(views(feed@), n as int);
    let from: usize = if feed.len() > n {
        feed.len() - n
    } else {
        0
    };
    let mut r = String::new();
    let mut i: usize = from;
    assert(r@ =~= ended(all.take(0)));
    while i < feed.len()
        invariant
            from <= i <= feed@.len(),
            all.len() == feed@.len() - from,
            forall|k: int| 0 <= k < all.len() ==> #[trigger] all[k] == feed@[from + k]@,
            r@ == ended(all.take(i - from)),
        decreases feed@.len() - i,
    {
        proof {
            let k = i - from;
            assert(all.take(k + 1).drop_last() =~= all.take(k));
            assert(all.take(k + 1).last() == all[k]);
        }
        let mut s = feed[i].clone();
        s.append("\n");
        r.append(s.as_str());
        i = i + 1;
    }
    assert(all.take(all.len() as int) =~= all);
    r
}

/// The detail of a workflow with its feed: its fields, its steps, and the end of the
/// feed.
pub fn detail_body(detail: &Option<Json>, feed: &Vec<String>) -> (r: String)
    ensures
        r@ == detail_text(opt(*detail), views(feed@)),
{
    match detail {
        Some(d) => {
            let nothing = Json::Null;
            let wf = match d.get("workflow") {
                Some(w) => w,
                None => &nothing,
            };
            assert(wf@ == d@.at("workflow"@));
            let mut s = "flow     ".to_string();
            s.append(wf.text_at("deployment", "").as_str());
            s.append("\nworkflow ");
            s.append(wf.text_at("id", "").as_str());
            s.append("\nstatus   ");
            s.append(wf.text_at("status", "").as_str());
            s.append("\ntrigger  ");
            s.append(wf.text_at("trigger", "").as_str());
            s.append("\nattempts ");
            s.append(decimal(wf.int_at("attempts")).as_str());
            s.append("\n\nsteps:\n");
            s.append(steps_text(&d.items_at("steps")).as_str());
            s.append("\nactivity:\n");
            s.append(last_ended(feed, 16).as_str());
            s
        },
        None => "no run selected".to_string(),
    }
}

/// Whether `r` is the timeline of events and log lines in words.
pub open spec fn is_feed(es: Seq<JsonV>, ls: Seq<JsonV>, r: Seq<Seq<char>>) -> bool {
    exists|envs: Seq<EnvelopeV>|
        #[trigger] is_timeline(Seq::empty(), es, ls, envs) && r.len() == envs.len() && forall|i: int|
            0 <= i < r.len() ==> #[trigger] r[i] == envelope_text(envs[i])
}

/// Events and log lines merged into one timeline, in words.
pub fn merged_activity(events: &Vec<Json>, lines: &Vec<Json>) -> (r: Vec<String>)
    ensures
        is_feed(views(events@), views(lines@), views(r@)),
{
    broadcast use lemma_views_push;

    let empty = String::new();
    assert(empty@ =~= Seq::<char>::empty());
    let envs = logs(empty.as_str(), events, lines);
    let ghost es = views(envs@);
    let mut r: Vec<String> = Vec::new();
    let mut i: usize = 0;
    while i < envs.len()
        invariant
            i <= envs@.len(),
            es == views(envs@),
            r@.len() == i,
            forall|k: int| 0 <= k < i ==> (#[trigger] r@[k])@ == envelope_text(es[k]),
        decreases envs@.len() - i,
    {
        r.push(format_envelope(&envs[i]));
        i = i + 1;
    }
    assert(is_timeline(Seq::empty(), views(events@), views(lines@), es));
    r
}

/// The detail of the selected workflow.
pub fn draw_runs(ui: &AppUi) -> (r: String)
    ensures
        exists|feed: Seq<Seq<char>>|
            #[trigger] is_feed(ui@.events, ui@.logs, feed) && r@ == detail_text(ui@.detail, feed),
{
    let feed = merged_activity(&ui.events, &ui.logs);
    assert(is_feed(ui@.events, ui@.logs, views(feed@)));
    detail_body(&ui.detail, &feed)
}

// ---------------------------------------------------------------------------
// The page of deployments
// ---------------------------------------------------------------------------

/// A number below a hundred with two digits.
pub open spec fn two_digits(n: int) -> Seq<char> {
    seq![('0' as u32 + n / 10 % 10) as char, ('0' as u32 + n % 10) as char]
}

/// A time of day.
pub open spec fn clock_text(w: Wall) -> Seq<char> {
    two_digits(w.hour as int) + ":"@ + two_digits(w.minute as int)
}

/// The time of day of a firing, or a dash.
pub open spec fn firing_text(t: Option<Stamp>) -> Seq<char> {
    match t {
        Some(t) => clock_text(civil_of(t.secs + t.offset)),
        None => "—"@,
    }
}

fn digit_pair(n: u32) -> (r: String)
    ensures
        r@ == two_digits(n as int),
{
    let mut s = String::new();
    let a: u8 = 48 + (n / 10 % 10) as u8;
    let b: u8 = 48 + (n % 10) as u8;
    s.push(a as char);
    s.push(b as char);
    assert(s@ =~= two_digits(n as int));
    s
}

/// The time of day of a firing, or a dash.
pub fn firing_line(t: &Option<Stamp>) -> (r: String)
    requires
        *t matches Some(s) ==> in_reach(s),
    ensures
        r@ == firing_text(*t),
{
    match t {
        Some(t) => {
            let w: Wall = wall(t);
            let mut s = digit_pair(w.hour);
            s.append(":");
            s.append(digit_pair(w.minute).as_str());
            s
        },
        None => "—".to_string(),
    }
}

/// Whether `text` may be shown for when an expression fires next, at or after an
/// instant: a time of day, or a dash where it cannot be read or does not fire within a
/// year.
pub open spec fn is_fire(expr: Seq<char>, at: Stamp, text: Seq<char>) -> bool {
    match cron_of(expr) {
        Ok(c) => exists|t: Option<Stamp>| #[trigger] is_next(c, at, t) && text == firing_text(t),
        Err(_) => text == "—"@,
    }
}

/// When an expression fires next, at or after an instant: a time of day, or a dash
/// where it cannot be read or does not fire within a year.
pub fn next_fire(expr: &str, at: &Stamp) -> (r: String)
    requires
        stamp_ok(*at),
    ensures
        is_fire(expr@, *at, r@),
{
    let cron = match Cron::parse(expr) {
        Ok(c) => c,
        Err(_) => {
            return "—".to_string();
        },
    };
    let next = cron.next_after(at);
    let r = firing_line(&next);
    proof {
        let c = cron_of(expr@)->Ok_0;
        assert(is_next(c, *at, next) && r@ == firing_text(next));
        assert(exists|t: Option<Stamp>| #[trigger] is_next(c, *at, t) && r@ == firing_text(t));
    }
    r
}

/// The line of a deployment, given when it fires next.
pub open spec fn flow_text(fl: JsonV, next: Seq<char>) -> Seq<char> {
    "⏱ "@ + padded(fl.field_text("name"@, ""@), 12) + " "@ + match fl.at("cron"@).string() {
        Some(expr) => if fl.field_bool("enabled"@, true) {
            padded(expr, 11) + " next "@ + next
        } else {
            padded(expr, 11) + " (disabled)"@
        },
        None => "manual only"@,
    }
}

/// The expression of a deployment.
pub fn cron_at(fl: &Json) -> (r: Option<String>)
    ensures
        opt(r) == fl@.at("cron"@).string(),
{
    match fl.get("cron") {
        Some(v) => match v.as_str() {
            Some(s) => Some(s.clone()),
            None => None,
        },
        None => None,
    }
}

/// The line of a deployment, given when it fires next, and whether it is scheduled.
pub fn flow_line(fl: &Json, next: &str) -> (r: (String, bool))
    ensures
        r.0@ == flow_text(fl@, next@),
        r.1 == (fl@.at("cron"@).string() is Some && fl@.field_bool("enabled"@, true)),
{
    let mut s = "⏱ ".to_string();
    s.append(pad(fl.text_at("name", "").as_str(), 12).as_str());
    s.append(" ");
    match cron_at(fl) {
        Some(expr) => {
            let mut e = pad(expr.as_str(), 11);
            if fl.bool_at("enabled", true) {
                e.append(" next ");
                e.append(next);
                s.append(e.as_str());
                (s, true)
            } else {
                e.append(" (disabled)");
                s.append(e.as_str());
                (s, false)
            }
        },
        None => {
            s.append("manual only");
            (s, false)
        },
    }
}

/// Whether `next` may be shown for when a deployment fires next, at or after an
/// instant. For one without an expression nothing is shown.
pub open spec fn is_next_of(fl: JsonV, at: Stamp, next: Seq<char>) -> bool {
    match fl.at("cron"@).string() {
        Some(expr) => is_fire(expr, at, next),
        None => next.len() == 0,
    }
}

/// When a deployment fires next, at or after an instant.
fn next_of(fl: &Json, at: &Stamp) -> (r: String)
    requires
        stamp_ok(*at),
    ensures
        is_next_of(fl@, *at, r@),
{
    match cron_at(fl) {
        Some(expr) => next_fire(expr.as_str(), at),
        None => String::new(),
    }
}

/// The line of a deployment at an instant, and whether it is scheduled.
pub fn scheduled_line(fl: &Json, at: &Stamp) -> (r: (String, bool))
    requires
        stamp_ok(*at),
    ensures
        exists|next: Seq<char>| #[trigger]
            is_next_of(fl@, *at, next) && r.0@ == flow_text(fl@, next),
        r.1 == (fl@.at("cron"@).string() is Some && fl@.field_bool("enabled"@, true)),
{
    let next = next_of(fl, at);
    assert(is_next_of(fl@, *at, next@));
    flow_line(fl, next.as_str())
}

/// The texts among some values, with a space between each two.
pub open spec fn words_of(v: Seq<JsonV>) -> Seq<char>
    decreases v.len(),
{
    if v.len() == 0 {
        Seq::empty()
    } else {
        let before = words_of(v.drop_last());
        match v.last().string() {
            Some(s) => if has_text(v.drop_last()) {
                before + " "@ + s
            } else {
                s
            },
            None => before,
        }
    }
}

/// Whether there is a text among some values.
pub open spec fn has_text(v: Seq<JsonV>) -> bool {
    exists|i: int| 0 <= i < v.len() && (#[trigger] v[i]).string() is Some
}

fn join_texts(v: &Vec<Json>) -> (r: String)
    ensures
        r@ == words_of(views(v@)),
{
    let ghost all = views(v@);
    let mut r = String::new();
    let mut any = false;
    let mut i: usize = 0;
    assert(r@ =~= words_of(all.take(0)));
    while i < v.len()
        invariant
            i <= v@.len(),
            all == views(v@),
            any == has_text(all.take(i as int)),
            r@ == words_of(all.take(i as int)),
            !any ==> r@ == Seq::<char>::empty(),
        decreases v@.len() - i,
    {
        let ghost part = all.take(i as int);
        proof {
            lemma_take_step(all, i as int);
            assert(part.push(all[i as int]).drop_last() =~= part);
            assert(has_text(part) ==> has_text(part.push(all[i as int]))) by {
                if has_text(part) {
                    let k = choose|k: int| 0 <= k < part.len() && (#[trigger] part[k]).string() is Some;
                    assert(part.push(all[i as int])[k] == part[k]);
                }
            }
            assert(!has_text(part) && all[i as int].string() is None ==> !has_text(
                part.push(all[i as int]),
            )) by {
                if has_text(part.push(all[i as int])) {
                    let q = part.push(all[i as int]);
                    let k = choose|k: int| 0 <= k < q.len() && (#[trigger] q[k]).string() is Some;
                    if k < part.len() {
                        assert(q[k] == part[k]);
                    }
                }
            }
        }
        if let Some(s) = v[i].as_str() {
            if any {
                r.append(" ");
                r.append(s.as_str());
            } else {
                r.append(s.as_str());
                assert(Seq::<char>::empty() + s@ =~= s@);
            }
            any = true;
            assert(part.push(all[i as int])[part.len() as int].string() is Some);
        }
        i = i + 1;
    }
    assert(all.take(all.len() as int) =~= all);
    r
}

/// A workflow among the recent ones of a deployment.
pub open spec fn recent_line(r: JsonV) -> Seq<char> {
    let state = r.field_text("status"@, ""@);
    "  "@ + dot_of(state) + " "@ + padded(state, 9) + " "@ + padded(
        r.field_text("trigger"@, ""@),
        7,
    ) + " "@ + r.field_text("started_at"@, ""@) + "\n"@
}

/// Recognises the workflows of a deployment.
pub open spec fn run_of(name: Seq<char>) -> spec_fn(JsonV) -> bool {
    |r: JsonV| r.field_text("deployment"@, ""@) == name
}

/// The lines of workflows, one after the other.
pub open spec fn recent_lines(rs: Seq<JsonV>) -> Seq<char>
    decreases rs.len(),
{
    if rs.len() == 0 {
        Seq::empty()
    } else {
        recent_lines(rs.drop_last()) + recent_line(rs.last())
    }
}

/// The first `n` items, or all of them.
pub open spec fn at_most<T>(s: Seq<T>, n: int) -> Seq<T> {
    if s.len() > n {
        s.take(n)
    } else {
        s
    }
}

/// The recent workflows of a deployment.
pub open spec fn recent_text(runs: Seq<JsonV>, name: Seq<char>) -> Seq<char> {
    let mine = at_most(runs.filter(run_of(name)), 8);
    if mine.len() == 0 {
        "  (none yet)\n"@
    } else {
        recent_lines(mine)
    }
}

fn recent_runs(runs: &Vec<Json>, name: &str) -> (r: String)
    ensures
        r@ == recent_text(views(runs@), name@),
{
    let ghost all = views(runs@);
    let ghost p = run_of(name@);
    let mut r = String::new();
    let mut n: usize = 0;
    let mut i: usize = 0;
    assert(all.take(0) =~= Seq::<JsonV>::empty());
    assert(all.take(0).filter(p) =~= Seq::<JsonV>::empty()) by {
        reveal(Seq::filter);
    }
    assert(r@ =~= recent_lines(all.take(0).filter(p)));
    while i < runs.len() && n < 8
        invariant
            i <= runs@.len(),
            n <= 8,
            all == views(runs@),
            p == run_of(name@),
            n == all.take(i as int).filter(p).len(),
            r@ == recent_lines(all.take(i as int).filter(p)),
        decreases runs@.len() - i,
    {
        let ghost part = all.take(i as int).filter(p);
        proof {
            lemma_filter_take(all, p, i as int);
            assert(part.push(all[i as int]).drop_last() =~= part);
        }
        let x = &runs[i];
        if str_eq(x.text_at("deployment", "").as_str(), name) {
            let state = x.text_at("status", "");
            let mut s = "  ".to_string();
            s.append(state_dot(state.as_str()));
            s.append(" ");
            s.append(pad(state.as_str(), 9).as_str());
            s.append(" ");
            s.append(pad(x.text_at("trigger", "").as_str(), 7).as_str());
            s.append(" ");
            s.append(x.text_at("started_at", "").as_str());
            s.append("\n");
            assert(s@ == recent_line(all[i as int]));
            r.append(s.as_str());
            n = n + 1;
        }
        i = i + 1;
    }
    proof {
        assert(all.take(all.len() as int) =~= all);
        let part = all.take(i as int).filter(p);
        lemma_filter_prefix(all, p, i as int, all.len() as int);
        if all.filter(p).len() > 8 {
            assert(at_most(all.filter(p), 8) =~= part);
        } else {
            assert(all.filter(p) =~= part);
        }
    }
    if n == 0 {
        return "  (none yet)\n".to_string();
    }
    r
}

proof fn lemma_filter_prefix<T>(s: Seq<T>, p: spec_fn(T) -> bool, i: int, n: int)
    requires
        0 <= i <= n <= s.len(),
    ensures
        s.take(i).filter(p).len() <= s.take(n).filter(p).len(),
        s.take(n).filter(p).take(s.take(i).filter(p).len() as int) == s.take(i).filter(p),
    decreases n - i,
{
    let a = s.take(i).filter(p);
    if i < n {
        lemma_filter_prefix(s, p, i, n - 1);
        lemma_filter_take(s, p, n - 1);
        let b = s.take(n).filter(p);
        assert(b.take(a.len() as int) =~= a);
    } else {
        assert(a.take(a.len() as int) =~= a);
    }
}

/// Whether a deployment has parameters.
pub open spec fn has_params(fl: JsonV) -> bool {
    fl.at("params"@) matches JsonV::Obj(m) && m.len() > 0
}

/// The detail of a deployment, given when it fires next, the JSON text of its
/// parameters, and the workflows that are known.
pub open spec fn job_text(
    fl: JsonV,
    next: Seq<char>,
    params: Seq<char>,
    runs: Seq<JsonV>,
) -> Seq<char> {
    let name = fl.field_text("name"@, ""@);
    "job      "@ + name + "\ncommand  "@ + words_of(fl.at("cmd"@).items()) + "\n"@ + (
    match fl.at("cron"@).string() {
        Some(expr) => "cron     "@ + expr + "\nnext     "@ + next + "\n"@,
        None => "cron     — (manual only)\n"@,
    }) + "enabled  "@ + (if fl.field_bool("enabled"@, true) {
        "true"@
    } else {
        "false"@
    }) + "\ncatchup  "@ + fl.field_text("catchup"@, ""@) + "\noverlap  "@ + fl.field_text(
        "overlap"@,
        ""@,
    ) + "\n"@ + (if has_params(fl) {
        "params   "@ + params + "\n"@
    } else {
        Seq::empty()
    }) + "\nrecent runs:\n"@ + recent_text(runs, name)
}

/// The detail of a deployment, given when it fires next, the JSON text of its
/// parameters, and the workflows that are known.
pub fn job_body(fl: &Json, next: &str, params: &str, runs: &Vec<Json>) -> (r: String)
    ensures
        r@ == job_text(fl@, next@, params@, views(runs@)),
{
    let name = fl.text_at("name", "");
    let mut s = "job      ".to_string();
    s.append(name.as_str());
    s.append("\ncommand  ");
    s.append(join_texts(&fl.items_at("cmd")).as_str());
    s.append("\n");
    let cron = match cron_at(fl) {
        Some(expr) => {
            let mut c = "cron     ".to_string();
            c.append(expr.as_str());
            c.append("\nnext     ");
            c.append(next);
            c.append("\n");
            c
        },
        None => "cron     — (manual only)\n".to_string(),
    };
    s.append(cron.as_str());
    s.append("enabled  ");
    if fl.bool_at("enabled", true) {
        s.append("true");
    } else {
        s.append("false");
    }
    s.append("\ncatchup  ");
    s.append(fl.text_at("catchup", "").as_str());
    s.append("\noverlap  ");
    s.append(fl.text_at("overlap", "").as_str());
    s.append("\n");
    let some = match fl.get("params") {
        Some(Json::Obj(m)) => m.len() > 0,
        _ => false,
    };
    assert(some == has_params(fl@));
    let ghost before = s@;
    if some {
        let mut p = "params   ".to_string();
        p.append(params);
        p.append("\n");
        s.append(p.as_str());
    } else {
        assert(before + Seq::<char>::empty() =~= before);
    }
    s.append("\nrecent runs:\n");
    s.append(recent_runs(runs, name.as_str()).as_str());
    s
}

/// The detail of the selected deployment.
pub open spec fn scheduled_text(ui: AppUiV, next: Seq<char>, params: Seq<char>) -> Seq<char> {
    if ui.flow_selected < ui.flows.len() {
        job_text(ui.flows[ui.flow_selected], next, params, ui.runs)
    } else {
        "no job selected"@
    }
}

/// The detail of the selected deployment, given when it fires next and the JSON text
/// of its parameters.
pub fn draw_scheduled(ui: &AppUi, next: &str, params: &str) -> (r: String)
    ensures
        r@ == scheduled_text(ui@, next@, params@),
{
    if ui.flow_selected < ui.flows.len() {
        job_body(&ui.flows[ui.flow_selected], next, params, &ui.runs)
    } else {
        "no job selected".to_string()
    }
}

/// Whether `next` may be shown for the selected deployment at an instant.
pub open spec fn is_next_shown(ui: AppUiV, at: Stamp, next: Seq<char>) -> bool {
    ui.flow_selected < ui.flows.len() ==> is_next_of(ui.flows[ui.flow_selected], at, next)
}

/// The detail of the selected deployment at an instant, given the JSON text of its
/// parameters.
pub fn scheduled_page(ui: &AppUi, at: &Stamp, params: &str) -> (r: String)
    requires
        stamp_ok(*at),
    ensures
        exists|next: Seq<char>| #[trigger]
            is_next_shown(ui@, *at, next) && r@ == scheduled_text(ui@, next, params@),
{
    let next = if ui.flow_selected < ui.flows.len() {
        next_of(&ui.flows[ui.flow_selected], at)
    } else {
        String::new()
    };
    assert(is_next_shown(ui@, *at, next@));
    draw_scheduled(ui, next.as_str(), params)
}

/// The parameters of the selected deployment.
pub fn shown_params(ui: &AppUi) -> (r: Option<Json>)
    ensures
        opt(r) == if ui@.flow_selected < ui@.flows.len() {
            ui@.flows[ui@.flow_selected].field("params"@)
        } else {
            None
        },
{
    if ui.flow_selected < ui.flows.len() {
        match ui.flows[ui.flow_selected].get("params") {
            Some(p) => Some(p.copy()),
            None => None,
        }
    } else {
        None
    }
}

/// The item that is marked in a list of `n` items: the selected one, if there is any.
pub fn marked(selected: usize, n: usize) -> (r: Option<usize>)
    ensures
        r == if n == 0 {
            None::<usize>
        } else {
            Some(selected)
        },
{
    if n == 0 {
        None
    } else {
        Some(selected)
    }
}

/// How many milliseconds the dashboard lets pass before it asks again.
pub const POLL_MILLIS: u64 = 1000;

/// Whether the dashboard asks again, so many milliseconds after it last asked: at once
/// if it has not yet.
pub fn poll_due(elapsed_ms: Option<u64>) -> (r: bool)
    ensures
        r == match elapsed_ms {
            None => true,
            Some(n) => n >= 1000,
        },
{
    match elapsed_ms {
        None => true,
        Some(n) => n >= POLL_MILLIS,
    }
}

} // verus!

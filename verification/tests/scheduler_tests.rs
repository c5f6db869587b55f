use shift_clock::clock::Stamp;
use shift_clock::config::Deployment;
use shift_clock::json::Json;
use shift_clock::rows::DeploymentRow;
use shift_clock::scheduler::{minute_shown, pause, pause_after, Scheduler};
use shift_clock::store::Store;
use shift_clock::worker::Worker;

const TOKEN: &str = "0123456789abcdef0123456789abcdef";

fn dep(name: &str, cron: Option<&str>) -> Deployment {
    Deployment {
        name: name.to_string(),
        cmd: vec!["true".to_string()],
        cron: cron.map(|s| s.to_string()),
        timezone: None,
        params: vec![],
        catchup: "none".to_string(),
        overlap: "skip".to_string(),
        enabled: true,
        retries: 0,
        concurrency: 0,
    }
}

fn worker(deps: &[Deployment]) -> Worker {
    let mut s = Store::open(vec![], vec![], vec![], vec![], vec![], vec![], vec![]);
    for d in deps {
        s.upsert_deployment(d);
    }
    Worker::new(s, "/".to_string())
}

fn noon() -> Stamp {
    Stamp { secs: 1_709_208_000, nanos: 7, offset: 0 }
}

#[test]
fn fires_once_a_minute() {
    let mut w = worker(&[]);
    let mut s = Scheduler::new();
    let d = dep("etl", Some("0 12 * * *"));
    let said = s.consider(&mut w, d.copy(), &noon(), TOKEN, "t0");
    assert_eq!(said.as_deref(), Some("[scheduler] fired 'etl' -> w-01234567"));
    assert_eq!(w.store.get_workflow("w-01234567").unwrap().trigger, "cron");
    assert_eq!(s.consider(&mut w, d.copy(), &noon(), TOKEN, "t1"), None);
    assert_eq!(w.take_launches().len(), 1);
    let tomorrow = Stamp { secs: noon().secs + 86_400, ..noon() };
    let said = s.consider(&mut w, d, &tomorrow, TOKEN, "t2");
    assert_eq!(said.as_deref(), Some("[scheduler] skip 'etl': previous run still active"));
}

#[test]
fn minutes_are_those_of_the_local_clock() {
    assert_eq!(minute_shown(&noon()), 28_486_800);
    assert_eq!(minute_shown(&Stamp { offset: 90, ..noon() }), 28_486_801);
    assert_eq!(minute_shown(&Stamp { secs: -1, nanos: 0, offset: 0 }), -1);
    assert_eq!(minute_shown(&Stamp { secs: -60, nanos: 0, offset: 0 }), -1);
    assert_eq!(minute_shown(&Stamp { secs: -61, nanos: 0, offset: 0 }), -2);
}

#[test]
fn a_run_of_ticks_fires_once_in_each_minute() {
    let mut etl = dep("etl", Some("* * * * *"));
    etl.overlap = "concurrent".to_string();
    let bad = dep("a_bad_one", Some("nonsense"));
    let mut w = worker(&[etl, bad]);
    let mut s = Scheduler::new();
    let mut fired = 0;
    for k in 0..150 {
        let at = Stamp { secs: noon().secs + k, ..noon() };
        let said = s.tick(&mut w, &at, 0, "t").unwrap();
        fired += said.iter().filter(|l| l.starts_with("[scheduler] fired 'etl'")).count();
    }
    assert_eq!(fired, 3);
    assert_eq!(w.take_launches().len(), 3);
    let missed = Stamp { secs: noon().secs + 86_400, ..noon() };
    s.tick(&mut w, &missed, 0, "t").unwrap();
    assert_eq!(w.take_launches().len(), 1);
}

#[test]
fn what_does_not_fire() {
    let mut w = worker(&[]);
    let mut s = Scheduler::new();
    let mut off = dep("off", Some("* * * * *"));
    off.enabled = false;
    assert_eq!(s.consider(&mut w, off, &noon(), TOKEN, "t"), None);
    assert_eq!(s.consider(&mut w, dep("manual", None), &noon(), TOKEN, "t"), None);
    let later = dep("later", Some("1 12 * * *"));
    assert_eq!(s.consider(&mut w, later, &noon(), TOKEN, "t"), None);
    let bad = dep("bad", Some("nonsense"));
    assert_eq!(
        s.consider(&mut w, bad, &noon(), TOKEN, "t").as_deref(),
        Some("[scheduler] 'bad' bad cron 'nonsense': cron 'nonsense' must have 5 fields (min hour dom month dow), got 1")
    );
    assert!(w.take_launches().is_empty());
}

#[test]
fn refused_submissions_are_told() {
    let mut w = worker(&[]);
    let mut s = Scheduler::new();
    let mut d = dep("etl", Some("* * * * *"));
    d.overlap = "concurrent".to_string();
    d.concurrency = 1;
    w.trigger_with(d.copy(), "manual", Json::Null, Some("a".into()), TOKEN, "t").unwrap();
    assert_eq!(
        s.consider(&mut w, d, &noon(), TOKEN, "t").as_deref(),
        Some("[scheduler] trigger 'etl' failed: concurrency limit 1 reached for 'etl'")
    );
}

#[test]
fn a_tick_considers_all_in_order() {
    let mut w = worker(&[
        dep("b", Some("* * * * *")),
        dep("a", Some("0 12 * * *")),
        dep("c", Some("59 23 * * *")),
    ]);
    let mut s = Scheduler::new();
    let said = s.tick(&mut w, &noon(), 0, "t").unwrap();
    assert_eq!(said.len(), 2);
    assert!(said[0].starts_with("[scheduler] fired 'a' -> w-"));
    assert!(said[1].starts_with("[scheduler] fired 'b' -> w-"));
    assert_eq!(w.take_launches().len(), 2);
    assert_eq!(s.tick(&mut w, &noon(), 0, "t"), Ok(vec![]));
}

#[test]
fn a_tick_wakes_sleepers_first() {
    let mut w = worker(&[dep("etl", None)]);
    w.trigger_with(dep("etl", None), "manual", Json::Null, Some("a".into()), TOKEN, "t").unwrap();
    w.store.park_workflow("a", Some(10), "t");
    w.release("etl", "a", None, "t");
    w.take_launches();
    let mut s = Scheduler::new();
    s.tick(&mut w, &noon(), 9, "t").unwrap();
    assert!(w.take_launches().is_empty());
    s.tick(&mut w, &noon(), 10, "t").unwrap();
    assert_eq!(w.take_launches()[0].workflow_id, "a");
}

#[test]
fn a_tick_without_readable_deployments() {
    let row = DeploymentRow {
        name: "x".to_string(),
        cmd: "?".to_string(),
        cron: None,
        timezone: None,
        params: None,
        catchup: String::new(),
        overlap: String::new(),
        enabled: 1,
        retries: 0,
        concurrency: 0,
    };
    let store = Store::open(vec![row], vec![], vec![], vec![], vec![], vec![], vec![]);
    let mut w = Worker::new(store, "/".to_string());
    let mut s = Scheduler::new();
    assert_eq!(
        s.tick(&mut w, &noon(), 0, "t"),
        Err("[scheduler] list_deployments failed: a stored deployment cannot be read".to_string())
    );
}

#[test]
fn pauses_to_the_next_second() {
    assert_eq!(pause(0), 1_000_000_000);
    assert_eq!(pause(250_000_000), 750_000_000);
    assert_eq!(pause(999_000_000), 50_000_000);
    assert_eq!(pause(1_400_000_000), 600_000_000);
}

#[test]
fn a_tick_that_is_not_written_is_forgotten() {
    let mut w = worker(&[dep("a", Some("0 12 * * *"))]);
    let mut s = Scheduler::new();
    let before = s.last_fired.clone();
    assert_eq!(s.tick(&mut w, &noon(), 0, "t").unwrap().len(), 1);
    s.settle(false, before);
    let mut w = worker(&[dep("a", Some("0 12 * * *"))]);
    let before = s.last_fired.clone();
    assert_eq!(s.tick(&mut w, &noon(), 0, "t").unwrap().len(), 1);
    s.settle(true, before);
    assert_eq!(s.tick(&mut w, &noon(), 0, "t"), Ok(vec![]));
    assert_eq!(pause_after(true, 250_000_000), 750_000_000);
    assert_eq!(pause_after(false, 250_000_000), 1_000_000_000);
}

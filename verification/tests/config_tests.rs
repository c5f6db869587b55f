use shift_clock::clock::{wall, Stamp, Wall};
use chrono::{Datelike, Timelike};
use shift_clock::config::{
    default_catchup, default_overlap, default_true, first_minute_after, instant_after,
    minute_after, next_minute, Cron, CronError, Deployment, Field, Manifest, SCAN_MINUTES,
};

fn at(minute: u32, hour: u32, day: u32, month: u32, weekday: u32) -> Wall {
    Wall { minute, hour, day, month, weekday }
}

fn utc(secs: i64) -> Stamp {
    Stamp { secs, nanos: 0, offset: 0 }
}

fn message(expr: &str) -> String {
    match Cron::parse(expr) {
        Ok(_) => "fine".to_string(),
        Err(e) => e.message(),
    }
}

#[test]
fn defaults_of_a_deployment() {
    assert_eq!(default_catchup(), "none");
    assert_eq!(default_overlap(), "skip");
    assert!(default_true());
}

#[test]
fn fields_are_lists_of_stepped_ranges() {
    let f = Field::parse("1-10/3,40", 0, 59).unwrap();
    let hits: Vec<u32> = (0..60).filter(|v| f.contains(*v)).collect();
    assert_eq!(hits, [1, 4, 7, 10, 40]);
    let f = Field::parse("*/15", 0, 59).unwrap();
    let hits: Vec<u32> = (0..60).filter(|v| f.contains(*v)).collect();
    assert_eq!(hits, [0, 15, 30, 45]);
    let f = Field::parse("*", 1, 12).unwrap();
    assert!(f.contains(1) && f.contains(12));
}

#[test]
fn fields_drop_values_out_of_range() {
    let f = Field::parse("5-7", 0, 6).unwrap();
    assert!(f.contains(5) && f.contains(6) && !f.contains(7));
    let f = Field::parse("10-5", 0, 59).unwrap();
    assert!((0..60).all(|v| !f.contains(v)));
    let f = Field::parse("0-4294967295/4294967295", 0, 59).unwrap();
    assert!(f.contains(0) && !f.contains(1));
}

#[test]
fn cron_errors() {
    assert_eq!(
        message("* * *"),
        "cron '* * *' must have 5 fields (min hour dom month dow), got 3"
    );
    assert_eq!(message("*/x * * * *"), "bad step 'x'");
    assert_eq!(message("1-x * * * *"), "bad range '1-x'");
    assert_eq!(message("x * * * *"), "bad value 'x'");
    assert_eq!(message("*/0 * * * *"), "step must be > 0");
    assert_eq!(message("0 0 1 1 0"), "fine");
    assert_eq!(Cron::parse("* * * * x").err(), Some(CronError::BadValue("x".to_string())));
}

#[test]
fn all_fields_have_to_fire() {
    let c = Cron::parse("30 9 * * 1-5").unwrap();
    assert!(c.fires(&at(30, 9, 12, 3, 1)));
    assert!(!c.fires(&at(31, 9, 12, 3, 1)));
    assert!(!c.fires(&at(30, 9, 12, 3, 6)));
    let c = Cron::parse("0 0 1 1 *").unwrap();
    assert!(c.fires(&at(0, 0, 1, 1, 4)));
    assert!(!c.fires(&at(0, 0, 2, 1, 4)));
}

#[test]
fn the_wall_clock_of_an_instant() {
    assert_eq!(wall(&utc(0)), at(0, 0, 1, 1, 4));
    assert_eq!(wall(&utc(1_767_225_600)), at(0, 0, 1, 1, 4));
    assert_eq!(
        wall(&Stamp { secs: 1_767_225_600, nanos: 0, offset: -3600 }),
        at(0, 23, 31, 12, 3)
    );
    assert_eq!(wall(&utc(1_709_210_096)), at(34, 12, 29, 2, 4));
}

#[test]
fn the_calendar_is_gregorian() {
    let day = |y: i32, m: u32, d: u32| {
        chrono::NaiveDate::from_ymd_opt(y, m, d).unwrap().and_hms_opt(23, 59, 59).unwrap().and_utc()
    };
    for t in [
        day(1600, 2, 29),
        day(1900, 2, 28),
        day(1900, 3, 1),
        day(1969, 12, 31),
        day(2000, 2, 29),
        day(2000, 12, 31),
        day(2024, 2, 29),
        day(2100, 2, 28),
        day(2100, 3, 1),
        day(-4, 2, 29),
        day(200_000, 7, 4),
    ] {
        let w = wall(&utc(t.timestamp()));
        assert_eq!((w.month, w.day), (t.month(), t.day()));
        assert_eq!((w.hour, w.minute), (t.hour(), t.minute()));
        assert_eq!(w.weekday, t.weekday().num_days_from_sunday());
    }
}

#[test]
fn sunday_is_seven_too() {
    let noon = Stamp { secs: 1_794_744_000, nanos: 0, offset: 0 };
    assert_eq!(wall(&noon), at(0, 12, 15, 11, 0));
    let saturday = Stamp { secs: noon.secs - 86_400, nanos: 0, offset: 0 };
    for expr in ["0 12 * * 7", "0 12 * * 0", "0 12 * * 5-7", "0 12 * * 7,1"] {
        let c = Cron::parse(expr).unwrap();
        assert!(c.matches(&noon), "{expr}");
        assert!(c.fires(&at(0, 12, 15, 11, 0)));
    }
    assert!(!Cron::parse("0 12 * * 7").unwrap().matches(&saturday));
    assert!(Cron::parse("0 12 * * 5-7").unwrap().matches(&saturday));
    assert!(!Cron::parse("0 12 * * 8").unwrap().matches(&noon));
    assert!(!Cron::parse("0 12 * * 1-6").unwrap().matches(&noon));
}

#[test]
fn matches_reads_the_local_clock() {
    let c = Cron::parse("34 13 29 2 *").unwrap();
    assert!(c.matches(&Stamp { secs: 1_709_210_096, nanos: 5, offset: 3600 }));
    assert!(!c.matches(&utc(1_709_210_096)));
}

#[test]
fn next_after_starts_at_a_whole_minute() {
    let c = Cron::parse("*/5 * * * *").unwrap();
    let t = c.next_after(&utc(1_709_209_800)).unwrap();
    assert_eq!(t.secs, 1_709_209_800);
    let t = c.next_after(&utc(1_709_209_860)).unwrap();
    assert_eq!(t.secs, 1_709_210_100);
    assert!(c.matches(&t));
}

#[test]
fn next_after_skips_the_begun_minute() {
    let c = Cron::parse("* * * * *").unwrap();
    let t = c.next_after(&Stamp { secs: 1_709_210_096, nanos: 1, offset: 0 }).unwrap();
    assert_eq!((t.secs, t.nanos), (1_709_210_100, 0));
}

#[test]
fn next_minutes_are_those_of_the_local_clock() {
    let t = Stamp { secs: 1_709_210_096, nanos: 1, offset: 0 };
    assert_eq!(next_minute(&t, 0), 1_709_210_100);
    assert_eq!(next_minute(&t, 45), 1_709_210_160);
    assert_eq!(next_minute(&utc(-61), 0), -60);
}

#[test]
fn the_minute_behind_a_begun_one() {
    let t = Stamp { secs: 1_709_210_096, nanos: 1, offset: 3600 };
    assert_eq!(instant_after(&t), 1_709_210_156);
    assert_eq!(minute_after(&t, 7200), Stamp { secs: 1_709_210_156, nanos: 1, offset: 7200 });
    assert_eq!(first_minute_after(&t, 3600, None), None);
    assert_eq!(
        first_minute_after(&t, 3600, Some(3600)),
        Some(Stamp { secs: 1_709_210_100, nanos: 0, offset: 3600 })
    );
    assert_eq!(
        first_minute_after(&t, 3600, Some(0)),
        Some(Stamp { secs: 1_709_213_700, nanos: 0, offset: 0 })
    );
}

#[test]
fn a_search_finds_the_first_firing() {
    let c = Cron::parse("*/5 * * * *").unwrap();
    let start = utc(1_709_209_860);
    assert_eq!(c.search(&start, &vec![0; 10]), Some(4));
    assert_eq!(c.search(&start, &vec![0; 4]), None);
    assert_eq!(c.search(&start, &vec![0, 0, 120, 0, 0]), Some(2));
    assert_eq!(c.search(&start, &vec![]), None);
}

#[test]
fn a_fixed_offset_gives_the_earliest_firing() {
    let hour = vec![3600; SCAN_MINUTES as usize];
    let begun = Stamp { secs: 1_709_210_096, nanos: 1, offset: 3600 };
    let c = Cron::parse("34 13 * * *").unwrap();
    assert_eq!(
        c.next_with(&begun, 3600, Some(3600), &hour),
        Some(Stamp { secs: 1_709_296_440, nanos: 0, offset: 3600 })
    );
    assert_eq!(c.next_with(&begun, 3600, None, &hour), None);
    let whole = Stamp { secs: 1_709_210_040, nanos: 0, offset: 3600 };
    assert_eq!(c.next_with(&whole, 0, None, &hour), Some(whole));
    let never = Cron::parse("0 0 31 2 *").unwrap();
    assert_eq!(never.next_with(&whole, 0, None, &hour), None);
}

#[test]
fn next_from_looks_at_the_start_too() {
    let c = Cron::parse("34 13 29 2 *").unwrap();
    let start = Stamp { secs: 1_709_210_040, nanos: 0, offset: 3600 };
    assert_eq!(c.next_from(&start), Some(start));
}

#[test]
fn next_after_gives_up_after_a_year() {
    let c = Cron::parse("0 0 31 2 *").unwrap();
    assert_eq!(c.next_after(&utc(1_709_210_100)), None);
}

#[test]
fn manifests_find_the_first_of_a_name() {
    let dep = |name: &str, retries: u32| Deployment {
        name: name.to_string(),
        cmd: vec![],
        cron: None,
        timezone: None,
        params: vec![],
        catchup: default_catchup(),
        overlap: default_overlap(),
        enabled: true,
        retries,
        concurrency: 0,
    };
    let m = Manifest { flows: vec![dep("a", 1), dep("b", 2), dep("b", 3)] };
    assert_eq!(m.find("b").map(|d| d.retries), Some(2));
    assert!(m.find("c").is_none());
}

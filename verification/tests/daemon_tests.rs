use shift_clock::daemon::{
    addr_of, ensure, health_url, is_local, log_file, pid_file, port_of, resolve_host, status, stop, Ensure,
    EnsureAction,
};
use shift_clock::paths::{
    config_dir, default_db, default_manifest, ensure_scaffold, join, Setup, SAMPLE_FLOW,
    SAMPLE_MANIFEST,
};

fn some(s: &str) -> Option<String> {
    Some(s.to_string())
}

#[test]
fn addresses_of_hosts() {
    assert_eq!(addr_of("http://127.0.0.1:8080/"), "127.0.0.1:8080");
    assert_eq!(addr_of("https://box//"), "box");
    assert_eq!(addr_of("http://https://x"), "x");
    assert_eq!(addr_of("https://http://x"), "http://x");
    assert_eq!(port_of("127.0.0.1:9000"), "9000");
    assert_eq!(port_of("box"), "box");
    assert_eq!(health_url("http://a:1/"), "http://a:1/health");
}

#[test]
fn local_hosts() {
    for h in ["127.0.0.1:8080", "http://localhost:1/", "0.0.0.0", "", ":8080", "http://"] {
        assert!(is_local(h), "{}", h);
    }
    for h in ["example.org", "http://10.0.0.1:8080", "127.0.0.2"] {
        assert!(!is_local(h), "{}", h);
    }
    assert!(is_local("::1"));
}

#[test]
fn files_of_a_daemon() {
    assert_eq!(pid_file("/c", "127.0.0.1:8080"), "/c/daemon-8080.pid");
    assert_eq!(pid_file("/c", "http://127.0.0.1:8080/"), "/c/daemon-8080.pid");
    assert_eq!(log_file("/c", "https://localhost:9//"), "/c/daemon-9.log");
    assert_eq!(port_of("http://127.0.0.1:8080/"), "8080");
    assert_eq!(log_file("/c", "http://a:1"), "/c/daemon-1.log");
}

#[test]
fn a_daemon_that_is_up_is_left_alone() {
    let r = ensure("/c", "127.0.0.1:1", Ensure::First, true);
    assert_eq!(r, (Ensure::First, EnsureAction::Ready(None)));
}

#[test]
fn a_remote_daemon_is_never_started() {
    let (_, a) = ensure("/c", "far:1", Ensure::First, false);
    assert_eq!(
        a,
        EnsureAction::Fail(
            "no shift-clock daemon reachable at far:1 (remote — start `shift-clock serve` there)"
                .to_string()
        )
    );
}

#[test]
fn a_local_daemon_is_started_and_awaited() {
    let host = "127.0.0.1:1";
    let (mut at, a) = ensure("/c", host, Ensure::First, false);
    assert_eq!(a, EnsureAction::Start);
    for _ in 0..39 {
        let (next, a) = ensure("/c", host, at, false);
        assert_eq!(a, EnsureAction::Wait);
        at = next;
    }
    let (_, up) = ensure("/c", host, at, true);
    assert_eq!(
        up,
        EnsureAction::Ready(some("[shift-clock] started background daemon on 127.0.0.1:1"))
    );
    let (_, end) = ensure("/c", host, at, false);
    assert_eq!(
        end,
        EnsureAction::Fail("daemon did not become ready; see /c/daemon-1.log".to_string())
    );
}

#[test]
fn what_status_says() {
    assert_eq!(
        status("/c", "a:1", true, some(" 12\n")),
        ["daemon @ a:1: RUNNING", "  pid: 12", "  log: /c/daemon-1.log"]
    );
    assert_eq!(
        status("/c", "a:1", false, None),
        ["daemon @ a:1: not running", "  log: /c/daemon-1.log"]
    );
}

#[test]
fn what_stop_ends() {
    assert_eq!(
        stop("/c", "a:1", some(" 123\n")),
        Ok((123, "stopped daemon (pid 123)".to_string()))
    );
    assert_eq!(stop("/c", "a:1", some("-2147483648")).unwrap().0, i32::MIN);
    assert_eq!(stop("/c", "a:1", some("+7")).unwrap().0, 7);
    for bad in ["", "x", "2147483648", "-2147483649", "-+5", "-", "1 2"] {
        assert_eq!(
            stop("/c", "a:1", some(bad)),
            Err("no daemon pid file at /c/daemon-1.pid".to_string())
        );
    }
    assert!(stop("/c", "a:1", None).is_err());
}

#[test]
fn paths_are_joined() {
    assert_eq!(join("/a", "b"), "/a/b");
    assert_eq!(join("/a/", "b"), "/a/b");
    assert_eq!(join("", "b"), "b");
    assert_eq!(join("/a", "/b"), "/b");
    for (a, b) in [("/a", "b"), ("/a/", "b/c"), ("", "b"), ("/a", "/b"), ("/", "x"), ("a", "")] {
        let p = std::path::PathBuf::from(a).join(b);
        assert_eq!(join(a, b), p.to_str().unwrap());
    }
}

#[test]
fn where_the_configuration_is() {
    assert_eq!(config_dir(some("/x"), some("/h")), "/x/shift-clock");
    assert_eq!(config_dir(some(""), some("/h")), "/h/.config/shift-clock");
    assert_eq!(config_dir(None, None), "/tmp/.config/shift-clock");
    assert_eq!(default_manifest("/x"), "/x/flows.toml");
    assert_eq!(default_db("/x"), "/x/shift-clock.db");
}

#[test]
fn a_fresh_configuration() {
    let p = |s: &str| s.to_string();
    let all = ensure_scaffold("/c", false, "PY", "TS");
    assert_eq!(
        all,
        vec![
            Setup::MakeDir(p("/c/sdk/python")),
            Setup::Write(p("/c/sdk/python/shift_clock.py"), p("PY")),
            Setup::MakeDir(p("/c/sdk/typescript")),
            Setup::Write(p("/c/sdk/typescript/shift_clock.mjs"), p("TS")),
            Setup::TryWrite(p("/c/package.json"), p("{\"type\":\"module\"}\n")),
            Setup::MakeDir(p("/c/flows")),
            Setup::Write(p("/c/flows/example.py"), p(SAMPLE_FLOW)),
            Setup::Write(p("/c/flows.toml"), p(SAMPLE_MANIFEST)),
        ]
    );
    assert_eq!(ensure_scaffold("/c", true, "PY", "TS"), all[..5]);
    assert!(SAMPLE_MANIFEST.starts_with("# shift-clock flows — edit me."));
    assert!(SAMPLE_FLOW.ends_with("    main()\n"));
}

#[test]
fn the_host_that_is_spoken_with() {
    assert_eq!(resolve_host(None), "127.0.0.1:8080");
    assert_eq!(resolve_host(Some("box:1".to_string())), "box:1");
}

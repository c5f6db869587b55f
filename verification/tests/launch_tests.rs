use shift_clock::config::{Deployment, Manifest};
use shift_clock::json::Json;
use shift_clock::launch::{plan, sock_path};
use shift_clock::server::{
    attaches, attaching_line, flows_root, install, listening_line, loaded_line, manifest_root,
    ready, recovered_line, resolve_files, Ready, READY_POLLS,
};
use shift_clock::store::Store;

fn dep(cmd: &[&str]) -> Deployment {
    Deployment {
        name: "etl".to_string(),
        cmd: cmd.iter().map(|s| s.to_string()).collect(),
        cron: None,
        timezone: None,
        params: vec![],
        catchup: "none".to_string(),
        overlap: "skip".to_string(),
        enabled: true,
        retries: 0,
        concurrency: 0,
    }
}

fn pair(a: &str, b: &str) -> (String, String) {
    (a.to_string(), b.to_string())
}

#[test]
fn the_socket_of_a_workflow() {
    assert_eq!(sock_path("w-1"), "/tmp/sc-w-1.sock");
}

#[test]
fn the_environment_of_a_process() {
    let input = Json::Obj(vec![
        ("source".to_string(), Json::Str("dev".to_string())),
        ("straße".to_string(), Json::Int(3)),
    ]);
    let texts = vec!["\"dev\"".to_string(), "3".to_string()];
    let p = plan("/x", &dep(&["python3", "a.py", "-v"]), "w-1", &input, "{}", None, &texts).unwrap();
    assert_eq!(p.prog, "python3");
    assert_eq!(p.args, ["a.py", "-v"]);
    assert_eq!(p.dir, "/x");
    assert_eq!(
        p.env,
        vec![
            pair("SHIFT_CLOCK_SOCK", "/tmp/sc-w-1.sock"),
            pair("SHIFT_CLOCK_WORKFLOW_ID", "w-1"),
            pair("SHIFT_CLOCK_INPUT", "{}"),
            pair("SHIFT_CLOCK_PARAMS", "{}"),
            pair("PYTHONPATH", "/x/sdk/python"),
            pair("SC_PARAM_SOURCE", "dev"),
            pair("SC_PARAM_STRASSE", "3"),
        ]
    );
}

#[test]
fn parameters_are_sorted_by_name() {
    let input = Json::Obj(vec![
        ("b".to_string(), Json::Bool(true)),
        ("a".to_string(), Json::Str("x y".to_string())),
        ("B".to_string(), Json::Int(1)),
    ]);
    let texts = vec!["true".to_string(), "\"x y\"".to_string(), "1".to_string()];
    let p = plan("/x", &dep(&["sh"]), "w", &input, "{}", None, &texts).unwrap();
    assert_eq!(
        p.env[5..],
        [pair("SC_PARAM_B", "1"), pair("SC_PARAM_A", "x y"), pair("SC_PARAM_B", "true")]
    );
}

#[test]
fn the_python_path_is_kept() {
    let texts = vec!["1".to_string()];
    let old = Some("/lib".to_string());
    let p = plan("/x/", &dep(&["sh"]), "w", &Json::Null, "null", old, &texts).unwrap();
    assert_eq!(p.env[4], pair("PYTHONPATH", "/x/sdk/python:/lib"));
    assert_eq!(p.env.len(), 5);
    assert!(p.args.is_empty());
    let p = plan("/x", &dep(&["sh"]), "w", &Json::Null, "", Some(String::new()), &texts).unwrap();
    assert_eq!(p.env[4], pair("PYTHONPATH", "/x/sdk/python"));
}

#[test]
fn an_empty_command_is_refused() {
    let r = plan("/x", &dep(&[]), "w", &Json::Null, "", None, &vec![]);
    assert_eq!(r, Err("empty cmd".to_string()));
}

#[test]
fn serve_finds_its_files() {
    assert_eq!(resolve_files(None, None, "/c"), pair("/c/shift-clock.db", "/c/flows.toml"));
    let r = resolve_files(Some("a".to_string()), Some("b".to_string()), "/c");
    assert_eq!(r, pair("a", "b"));
    assert_eq!(flows_root(None), ".");
    assert_eq!(flows_root(Some(String::new())), ".");
    assert_eq!(flows_root(Some("/c".to_string())), "/c");
    assert!(attaches(true, true));
    assert!(!attaches(true, false) && !attaches(false, true));
}

#[test]
fn serve_installs_a_manifest() {
    let mut s = Store::open(vec![], vec![], vec![], vec![], vec![], vec![], vec![]);
    let m = Manifest { flows: vec![dep(&["a"]), dep(&["b"])] };
    install(&mut s, &m);
    assert_eq!(s.list_deployments().unwrap(), vec![dep(&["b"])]);
    assert_eq!(s.take_changes().len(), 2);
}

#[test]
fn what_serve_says() {
    assert_eq!(loaded_line(2, "flows.toml"), "[serve] loaded 2 flow(s) from flows.toml");
    assert_eq!(recovered_line(0), None);
    assert_eq!(
        recovered_line(3).as_deref(),
        Some("[serve] recovered 3 interrupted workflow(s)")
    );
    assert_eq!(listening_line("a:1"), "[serve] control plane on http://a:1");
    assert_eq!(
        attaching_line("a:1"),
        "[serve] a daemon is already running on a:1; attaching dashboard"
    );
}

#[test]
fn flows_stand_beside_their_manifest() {
    assert_eq!(manifest_root("/c/x/flows.toml"), "/c/x");
    assert_eq!(manifest_root("./flows.toml"), ".");
    assert_eq!(manifest_root("a/flows.toml"), "a");
    assert_eq!(manifest_root("flows.toml"), ".");
    assert_eq!(manifest_root("/flows.toml"), "/");
    assert_eq!(manifest_root(""), ".");
}

#[test]
fn serve_waits_for_its_daemon() {
    assert_eq!(ready(1, true), Ready::Open);
    assert_eq!(ready(1, false), Ready::Wait);
    assert_eq!(ready(READY_POLLS - 1, false), Ready::Wait);
    assert_eq!(ready(READY_POLLS, false), Ready::GiveUp);
    assert_eq!(ready(READY_POLLS, true), Ready::Open);
}

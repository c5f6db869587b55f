use shift_clock::json::{merge, Json};
use shift_clock::order::order_by;
use shift_clock::protocol::{one, FlowMsg, KvWrite};
use shift_clock::text::{
    blank, decimal, decimal_u64, head_before, hex, pad, parse_i32, parse_u32, split_at_char,
    split_once, split_words, starts_with, str_less, tail_after, trim, trim_end, trim_start,
};

#[test]
fn texts_are_cut_as_std_cuts_them() {
    let all = ["", "a", " a b ", "x:y:z", ":", "a//", "//", "ü ß\u{2003}z\u{85}", "\t\r\n", "http://http://x"];
    for s in all {
        let v: Vec<&str> = s.split(':').collect();
        assert_eq!(split_at_char(s, ':'), v);
        let v: Vec<&str> = s.split_whitespace().collect();
        assert_eq!(split_words(s), v);
        assert_eq!(trim(s), s.trim());
        assert_eq!(blank(s), s.trim().is_empty());
        assert_eq!(trim_end(s, '/'), s.trim_end_matches('/'));
        assert_eq!(trim_start(s, "http://"), s.trim_start_matches("http://"));
        assert_eq!(starts_with(s, "a"), s.starts_with('a'));
        assert_eq!(tail_after(s, ':'), s.rsplit(':').next().unwrap());
        assert_eq!(head_before(s, ':'), s.split(':').next().unwrap());
        let p = s.split_once(':').map(|(a, b)| (a.to_string(), b.to_string()));
        assert_eq!(split_once(s, ':'), p);
        assert_eq!(pad(s, 5), format!("{:<5}", s));
        for t in all {
            assert_eq!(str_less(s, t), s < t);
        }
    }
}

#[test]
fn numbers_are_read_as_std_reads_them() {
    for s in ["", "0", "+1", "-1", "-", "+", "007", "4294967295", "4294967296", "1 ", "²", "-+1", "99999999999999999999", "-2147483648"] {
        assert_eq!(parse_u32(s), s.parse::<u32>().ok(), "{}", s);
        assert_eq!(parse_i32(s), s.parse::<i32>().ok(), "{}", s);
    }
}

#[test]
fn numbers_are_written_as_std_writes_them() {
    for n in [0, 1, -1, 10, i64::MAX, i64::MIN] {
        assert_eq!(decimal(n), n.to_string());
    }
    for n in [0, 9, 255, u64::MAX] {
        assert_eq!(decimal_u64(n), n.to_string());
        assert_eq!(hex(n), format!("{:x}", n));
    }
}

#[test]
fn sorting_keeps_the_order_of_equals() {
    let keys: Vec<(String, i64)> =
        [("b", 1), ("a", 2), ("b", 1), ("a", 1), ("", 9)].iter().map(|(s, n)| (s.to_string(), *n)).collect();
    assert_eq!(order_by(&keys), [4, 3, 1, 0, 2]);
    assert_eq!(order_by(&vec![]), Vec::<usize>::new());
}

#[test]
fn merging_sets_members() {
    let m = |v: Vec<(&str, i128)>| {
        Json::Obj(v.into_iter().map(|(k, n)| (k.to_string(), Json::Int(n))).collect())
    };
    let mut a = m(vec![("x", 1), ("y", 2)]);
    merge(&mut a, m(vec![("y", 3), ("z", 4)]));
    assert_eq!(a, m(vec![("x", 1), ("y", 3), ("z", 4)]));
    merge(&mut a, Json::Null);
    assert_eq!(a, m(vec![("x", 1), ("y", 3), ("z", 4)]));
    let mut n = Json::Null;
    merge(&mut n, m(vec![("x", 1)]));
    assert_eq!(n, Json::Null);
}

#[test]
fn values_are_read_by_their_kind() {
    let big = Json::Obj(vec![("n".to_string(), Json::Int(1i128 << 63)), ("r".to_string(), Json::Real(1))]);
    assert_eq!(big.int_at("n"), 0);
    assert_eq!(big.int_at("r"), 0);
    assert!(big.get("r").unwrap().number());
    assert!(big.bool_at("missing", true));
    assert_eq!(big.text_at("n", "d"), "d");
    assert_eq!(big.get("missing"), None);
    assert!(Json::Null.get("x").is_none());
}

#[test]
fn messages_over_the_wire() {
    assert_eq!(one(), 1);
    let msg = FlowMsg::StepResult {
        seq: 1,
        name: "n".to_string(),
        duration_ms: u64::MAX,
        output: Json::Null,
        writes: vec![KvWrite { key: "k".to_string(), value: Json::Bool(true) }],
    };
    assert_eq!(msg.kind(), "step_result");
    let j = msg.to_json();
    assert_eq!(j.text_at("type", ""), "step_result");
    assert_eq!(j.get("duration_ms"), Some(&Json::Int(u64::MAX as i128)));
    let writes = j.items_at("writes");
    assert_eq!(writes[0].text_at("key", ""), "k");
    assert_eq!(writes[0].get("value"), Some(&Json::Bool(true)));
    let kinds = [
        (FlowMsg::WorkflowStart { name: None }, "workflow_start"),
        (FlowMsg::WorkflowSuccess { output: Json::Null }, "workflow_success"),
        (FlowMsg::WorkflowFailure { error: String::new() }, "workflow_failure"),
        (FlowMsg::WorkflowPark { wake_at: None }, "workflow_park"),
        (FlowMsg::SignalConsume { seq: 0, name: String::new(), payload: Json::Null }, "signal_consume"),
    ];
    for (m, k) in kinds {
        assert_eq!(m.kind(), k);
        assert_eq!(m.to_json().text_at("type", ""), k);
    }
}

use luai_orchestrator::lua::{LuaKey, LuaString, LuaTable, LuaValue};
use luai_orchestrator::tools::{stub_tool_descriptions, ProverHost, StubHost};

fn str_key(s: &str) -> LuaKey {
    LuaKey::String(LuaString::from_str(s))
}

fn make_args(pairs: &[(&str, LuaValue)]) -> LuaTable {
    let mut t = LuaTable::new();
    for (k, v) in pairs {
        t.rawset(str_key(k), v.clone());
    }
    t
}

// ── echo ─────────────────────────────────────────────────────────

#[test]
fn echo_returns_message() {
    let mut host = StubHost;
    let args = make_args(&[("message", LuaValue::String(LuaString::from_str("hello")))]);
    let resp = host.call_tool("echo", &args).unwrap();
    assert_eq!(
        resp.get(&str_key("message")),
        Some(&LuaValue::String(LuaString::from_str("hello")))
    );
}

#[test]
fn echo_missing_message_returns_nil() {
    let mut host = StubHost;
    let args = LuaTable::new();
    let resp = host.call_tool("echo", &args).unwrap();
    // Lua semantics: rawset with Nil is a no-op, so key is absent
    assert_eq!(resp.get(&str_key("message")), None);
}

// ── add ──────────────────────────────────────────────────────────

#[test]
fn add_returns_sum() {
    let mut host = StubHost;
    let args = make_args(&[("a", LuaValue::Integer(17)), ("b", LuaValue::Integer(25))]);
    let resp = host.call_tool("add", &args).unwrap();
    assert_eq!(resp.get(&str_key("result")), Some(&LuaValue::Integer(42)));
}

#[test]
fn add_negative_numbers() {
    let mut host = StubHost;
    let args = make_args(&[("a", LuaValue::Integer(-10)), ("b", LuaValue::Integer(3))]);
    let resp = host.call_tool("add", &args).unwrap();
    assert_eq!(resp.get(&str_key("result")), Some(&LuaValue::Integer(-7)));
}

#[test]
fn add_missing_arg_a_errors() {
    let mut host = StubHost;
    let args = make_args(&[("b", LuaValue::Integer(1))]);
    let err = host.call_tool("add", &args).unwrap_err();
    assert!(err.contains("expected integer arg 'a'"));
}

#[test]
fn add_missing_arg_b_errors() {
    let mut host = StubHost;
    let args = make_args(&[("a", LuaValue::Integer(1))]);
    let err = host.call_tool("add", &args).unwrap_err();
    assert!(err.contains("expected integer arg 'b'"));
}

#[test]
fn add_wrong_type_errors() {
    let mut host = StubHost;
    let args = make_args(&[
        ("a", LuaValue::String(LuaString::from_str("not a number"))),
        ("b", LuaValue::Integer(1)),
    ]);
    let err = host.call_tool("add", &args).unwrap_err();
    assert!(err.contains("expected integer arg 'a'"));
}

// ── upper ────────────────────────────────────────────────────────

#[test]
fn upper_converts_text() {
    let mut host = StubHost;
    let args = make_args(&[("text", LuaValue::String(LuaString::from_str("hello world")))]);
    let resp = host.call_tool("upper", &args).unwrap();
    assert_eq!(
        resp.get(&str_key("result")),
        Some(&LuaValue::String(LuaString::from_str("HELLO WORLD")))
    );
}

#[test]
fn upper_already_uppercase() {
    let mut host = StubHost;
    let args = make_args(&[("text", LuaValue::String(LuaString::from_str("ABC")))]);
    let resp = host.call_tool("upper", &args).unwrap();
    assert_eq!(resp.get(&str_key("result")), Some(&LuaValue::String(LuaString::from_str("ABC"))));
}

#[test]
fn upper_missing_text_errors() {
    let mut host = StubHost;
    let args = LuaTable::new();
    let err = host.call_tool("upper", &args).unwrap_err();
    assert!(err.contains("expected string arg 'text'"));
}

#[test]
fn upper_wrong_type_errors() {
    let mut host = StubHost;
    let args = make_args(&[("text", LuaValue::Integer(42))]);
    let err = host.call_tool("upper", &args).unwrap_err();
    assert!(err.contains("expected string arg 'text'"));
}

// ── time_now ─────────────────────────────────────────────────────

#[test]
fn time_now_returns_fixed_timestamp() {
    let mut host = StubHost;
    let args = LuaTable::new();
    let resp = host.call_tool("time_now", &args).unwrap();
    assert_eq!(resp.get(&str_key("timestamp")), Some(&LuaValue::Integer(1709654400)));
}

// ── unknown tool ─────────────────────────────────────────────────

#[test]
fn unknown_tool_errors() {
    let mut host = StubHost;
    let args = LuaTable::new();
    let err = host.call_tool("nonexistent", &args).unwrap_err();
    assert!(err.contains("unknown tool 'nonexistent'"));
}

// ── tool descriptions ────────────────────────────────────────────

#[test]
fn stub_descriptions_match_host_tools() {
    let descs = stub_tool_descriptions();
    let names: Vec<&str> = descs.iter().map(|d| d.name.as_str()).collect();
    // Every described tool should work in the host
    let mut host = StubHost;
    for name in &names {
        // time_now needs no special args
        if *name == "time_now" {
            let _ = host.call_tool(name, &LuaTable::new());
        }
    }
    assert!(names.contains(&"echo"));
    assert!(names.contains(&"add"));
    assert!(names.contains(&"upper"));
    assert!(names.contains(&"time_now"));
}

#[test]
fn stub_descriptions_have_content() {
    let descs = stub_tool_descriptions();
    for desc in &descs {
        assert!(!desc.name.is_empty());
        assert!(!desc.description.is_empty());
    }
}

// ── further cases ────────────────────────────────────────────────

#[test]
fn described_tools_are_never_unknown() {
    let mut host = StubHost;
    for d in stub_tool_descriptions() {
        if let Err(e) = host.call_tool(&d.name, &LuaTable::new()) {
            assert!(!e.contains("unknown tool"));
        }
    }
}

#[test]
fn stub_description_texts() {
    let descs = stub_tool_descriptions();
    assert_eq!(descs.len(), 4);
    assert_eq!(descs[1].args, vec![
        ("a".to_string(), "integer — first number".to_string()),
        ("b".to_string(), "integer — second number".to_string()),
    ]);
    assert!(descs[3].args.is_empty());
    assert_eq!(descs[3].returns[0].1, "integer — Unix timestamp in seconds");
}

#[test]
fn echo_integer_message() {
    let mut host = StubHost;
    let args = make_args(&[("message", LuaValue::Integer(7)), ("other", LuaValue::Boolean(true))]);
    let resp = host.call_tool("echo", &args).unwrap();
    assert_eq!(resp.get(&str_key("message")), Some(&LuaValue::Integer(7)));
    assert_eq!(resp.get(&str_key("other")), None);
}

#[test]
fn add_extreme_values() {
    let mut host = StubHost;
    let args = make_args(&[("a", LuaValue::Integer(i64::MAX)), ("b", LuaValue::Integer(-1))]);
    let resp = host.call_tool("add", &args).unwrap();
    assert_eq!(resp.get(&str_key("result")), Some(&LuaValue::Integer(i64::MAX - 1)));
}

#[test]
fn upper_replaces_invalid_utf8() {
    let mut host = StubHost;
    let args = make_args(&[("text", LuaValue::String(LuaString::from_bytes(vec![b'a', 0xff, b'b'])))]);
    let resp = host.call_tool("upper", &args).unwrap();
    assert_eq!(resp.get(&str_key("result")), Some(&LuaValue::String(LuaString::from_str("A\u{fffd}B"))));
}

#[test]
fn upper_non_ascii() {
    let mut host = StubHost;
    let args = make_args(&[("text", LuaValue::String(LuaString::from_str("straße")))]);
    let resp = host.call_tool("upper", &args).unwrap();
    assert_eq!(resp.get(&str_key("result")), Some(&LuaValue::String(LuaString::from_str("STRASSE"))));
}

#[test]
fn tool_names_are_case_sensitive() {
    let mut host = StubHost;
    let err = host.call_tool("Echo", &LuaTable::new()).unwrap_err();
    assert_eq!(err, "unknown tool 'Echo'");
}

#[test]
fn prover_random_returns_42() {
    let mut host = ProverHost;
    let resp = host.call_tool("random", &make_args(&[("x", LuaValue::Integer(1))])).unwrap();
    assert_eq!(resp.get(&str_key("result")), Some(&LuaValue::Integer(42)));
}

#[test]
fn prover_fail_always_fails() {
    let mut host = ProverHost;
    assert_eq!(host.call_tool("fail", &LuaTable::new()).unwrap_err(), "this tool always fails");
}

#[test]
fn prover_unknown_tool() {
    let mut host = ProverHost;
    assert_eq!(host.call_tool("echo", &LuaTable::new()).unwrap_err(), "unknown tool 'echo'");
}

// ── tables ───────────────────────────────────────────────────────

#[test]
fn table_read_after_write() {
    let mut t = LuaTable::new();
    t.rawset(LuaKey::Integer(1), LuaValue::Boolean(false));
    t.rawset(str_key("k"), LuaValue::Integer(3));
    t.rawset(LuaKey::Integer(1), LuaValue::Integer(9));
    assert_eq!(t.get(&LuaKey::Integer(1)), Some(&LuaValue::Integer(9)));
    assert_eq!(t.get(&str_key("k")), Some(&LuaValue::Integer(3)));
    t.rawset(str_key("k"), LuaValue::Nil);
    assert_eq!(t.get(&str_key("k")), None);
    assert_eq!(t.get(&LuaKey::Boolean(true)), None);
    assert_eq!(t.get(&LuaKey::Integer(1)), Some(&LuaValue::Integer(9)));
}

#[test]
fn string_keys_compare_bytes() {
    let mut t = LuaTable::new();
    t.rawset(LuaKey::from_str("ab"), LuaValue::Integer(1));
    assert_eq!(t.get(&LuaKey::String(LuaString::from_bytes(vec![b'a', b'b']))), Some(&LuaValue::Integer(1)));
    assert_eq!(t.get(&str_key("a")), None);
    assert_eq!(t.get(&str_key("abc")), None);
}

#[test]
fn echo_passes_handles_through() {
    let mut host = StubHost;
    let args = make_args(&[("message", LuaValue::Handle(5))]);
    let resp = host.call_tool("echo", &args).unwrap();
    assert_eq!(resp.get(&str_key("message")), Some(&LuaValue::Handle(5)));
    let err = host.call_tool("upper", &make_args(&[("text", LuaValue::Handle(0))])).unwrap_err();
    assert_eq!(err, "upper: expected string arg 'text'");
}

#[test]
fn described_args_and_results_match_host() {
    let mut host = StubHost;
    for d in stub_tool_descriptions() {
        let mut args = LuaTable::new();
        for (name, desc) in &d.args {
            let v = if desc.starts_with("string") {
                LuaValue::String(LuaString::from_str("x"))
            } else {
                LuaValue::Integer(1)
            };
            args.rawset(str_key(name), v);
        }
        let resp = host.call_tool(&d.name, &args).unwrap();
        for (name, _) in &d.returns {
            assert!(resp.get(&str_key(name)).is_some());
        }
        assert_eq!(resp.get(&str_key("missing")), None);
    }
}

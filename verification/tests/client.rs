use mcp_core::lifecycle::LifeState;
use mcp_core::session::{
    decode_line, CallError, Inbound, McpSystem, ReplyEffect, RpcOutcome,
};

fn v(s: &str) -> serde_json::Value {
    serde_json::from_str(s).unwrap()
}

/// Drive one server named `name` through spawn and handshake, answering
/// `tools/list` with `tools_json`, and check the exact request lines.
fn ready_server(sys: &mut McpSystem, name: &str, tools_json: &str) -> usize {
    let i = sys.add_server(name.to_string()).unwrap();
    sys.spawn_result(i, true);
    let (init_id, init_line) = sys.start_handshake(i);
    assert_eq!(
        init_line,
        format!(
            "{{\"jsonrpc\":\"2.0\",\"id\":{},\"method\":\"initialize\",\"params\":{{\"protocolVersion\":\"2025-06-18\",\"capabilities\":{{}}}}}}\n",
            init_id
        )
    );
    let eff = sys.reply(i, init_id, RpcOutcome::Success(v("{}")));
    let (tools_id, tools_line) = match eff {
        ReplyEffect::SendToolsList(tid, line) => (tid, line),
        _ => panic!("initialize success must trigger tools/list"),
    };
    assert_eq!(
        tools_line,
        format!(
            "{{\"jsonrpc\":\"2.0\",\"id\":{},\"method\":\"tools/list\",\"params\":{{}}}}\n",
            tools_id
        )
    );
    let eff = sys.reply(i, tools_id, RpcOutcome::Success(v(tools_json)));
    assert!(matches!(eff, ReplyEffect::Published));
    assert_eq!(sys.life_of(i), LifeState::Ready);
    i
}

const ECHO_TOOLS: &str =
    "{\"tools\":[{\"name\":\"echo\",\"description\":\"echoes its arguments\"}]}";

#[test]
fn list_tools_is_empty_before_any_handshake_finishes() {
    let mut sys = McpSystem::new();
    assert!(sys.list_tools().is_empty());
    let i = sys.add_server("alpha".to_string()).unwrap();
    assert!(sys.list_tools().is_empty());
    sys.spawn_result(i, true);
    let (_init_id, _line) = sys.start_handshake(i);
    assert!(sys.list_tools().is_empty());
}

#[test]
fn unknown_server_is_refused_without_io() {
    let mut sys = McpSystem::new();
    ready_server(&mut sys, "alpha", ECHO_TOOLS);
    let r = sys.call_tool("unknown-server", "x", &v("{}"));
    assert!(matches!(r, Err(CallError::ServerNotFound)));
    let r = McpSystem::new().call_tool("unknown-server", "x", &v("{}"));
    assert!(matches!(r, Err(CallError::ServerNotFound)));
}

#[test]
fn unknown_tool_is_refused_without_io() {
    let mut sys = McpSystem::new();
    ready_server(&mut sys, "alpha", ECHO_TOOLS);
    let r = sys.call_tool("alpha", "does-not-exist", &v("{}"));
    assert!(matches!(r, Err(CallError::ToolNotFound)));
}

#[test]
fn echo_round_trip() {
    let mut sys = McpSystem::new();
    let ci = ready_server(&mut sys, "alpha", ECHO_TOOLS);
    let (conn, id, line) = sys.call_tool("alpha", "echo", &v("{\"a\":1}")).unwrap();
    assert_eq!(conn, ci);
    // The exact line on the wire (serde_json orders object members by key):
    assert_eq!(
        line,
        format!(
            "{{\"jsonrpc\":\"2.0\",\"id\":{},\"method\":\"tools/call\",\"params\":{{\"arguments\":{{\"a\":1}},\"name\":\"echo\"}}}}\n",
            id
        )
    );
    // What a stub server would read off the wire:
    let req = v(line.trim_end_matches('\n'));
    assert_eq!(req["jsonrpc"], "2.0");
    assert_eq!(req["id"].as_u64().unwrap(), id);
    assert_eq!(req["method"], "tools/call");
    assert_eq!(req["params"]["name"], "echo");
    assert_eq!(req["params"]["arguments"], v("{\"a\":1}"));
    // The stub echoes the arguments back under the same id:
    let reply_line = format!("{{\"jsonrpc\":\"2.0\",\"id\":{},\"result\":{{\"a\":1}}}}\n", id);
    let (rid, outcome) = match decode_line(&reply_line) {
        Inbound::Reply(rid, outcome) => (rid, outcome),
        Inbound::Malformed => panic!("stub reply must decode"),
    };
    assert_eq!(rid, id);
    match sys.reply(conn, rid, outcome) {
        ReplyEffect::Completed(done_id, RpcOutcome::Success(result)) => {
            assert_eq!(done_id, id);
            assert_eq!(result, v("{\"a\":1}"));
        },
        _ => panic!("the in-flight call must complete with the echoed result"),
    }
}

#[test]
fn concurrent_calls_resolve_by_id_not_arrival_order() {
    let mut sys = McpSystem::new();
    let ci = ready_server(&mut sys, "alpha", ECHO_TOOLS);
    let (_, id_a, _) = sys.call_tool("alpha", "echo", &v("{\"which\":\"a\"}")).unwrap();
    let (_, id_b, _) = sys.call_tool("alpha", "echo", &v("{\"which\":\"b\"}")).unwrap();
    assert_ne!(id_a, id_b);
    // The second call's response arrives first.
    match sys.reply(ci, id_b, RpcOutcome::Success(v("\"for b\""))) {
        ReplyEffect::Completed(done, RpcOutcome::Success(val)) => {
            assert_eq!(done, id_b);
            assert_eq!(val, v("\"for b\""));
        },
        _ => panic!("call b must complete with its own response"),
    }
    match sys.reply(ci, id_a, RpcOutcome::Success(v("\"for a\""))) {
        ReplyEffect::Completed(done, RpcOutcome::Success(val)) => {
            assert_eq!(done, id_a);
            assert_eq!(val, v("\"for a\""));
        },
        _ => panic!("call a must complete with its own response"),
    }
}

#[test]
fn unknown_response_id_is_dropped_and_state_survives() {
    let mut sys = McpSystem::new();
    let ci = ready_server(&mut sys, "alpha", ECHO_TOOLS);
    assert!(matches!(
        sys.reply(ci, 999, RpcOutcome::Success(v("{}"))),
        ReplyEffect::Dropped
    ));
    // The connection still works afterwards.
    let (_, id, _) = sys.call_tool("alpha", "echo", &v("{}")).unwrap();
    assert!(matches!(
        sys.reply(ci, id, RpcOutcome::Success(v("{}"))),
        ReplyEffect::Completed(_, _)
    ));
}

#[test]
fn spawn_failure_is_isolated_to_its_server() {
    let mut sys = McpSystem::new();
    let broken = sys.add_server("broken".to_string()).unwrap();
    sys.spawn_result(broken, false);
    ready_server(&mut sys, "healthy", "{\"tools\":[{\"name\":\"works\",\"description\":\"fine\"}]}");
    let tools = sys.list_tools();
    assert_eq!(tools.len(), 1);
    assert_eq!(tools[0].name, "works");
    // The diagnostic: the broken server is reported failed.
    assert_eq!(sys.life_of(broken), LifeState::Failed);
}

#[test]
fn process_exit_mid_call_fails_the_call_not_hangs_it() {
    let mut sys = McpSystem::new();
    let ci = ready_server(&mut sys, "alpha", ECHO_TOOLS);
    let (conn, id, _line) = sys.call_tool("alpha", "echo", &v("{}")).unwrap();
    let failed = sys.close_connection(conn, true);
    assert_eq!(failed, vec![id]);
    assert_eq!(sys.life_of(ci), LifeState::Closed);
    // Future calls fail with ConnectionClosed, and a late response is dropped.
    assert!(matches!(
        sys.call_tool("alpha", "echo", &v("{}")),
        Err(CallError::ConnectionClosed)
    ));
    assert!(matches!(
        sys.reply(conn, id, RpcOutcome::Success(v("{}"))),
        ReplyEffect::Dropped
    ));
}

#[test]
fn list_tools_twice_returns_identical_results() {
    let mut sys = McpSystem::new();
    ready_server(
        &mut sys,
        "alpha",
        "{\"tools\":[{\"name\":\"one\",\"description\":\"first\"},{\"name\":\"two\",\"description\":\"second\",\"inputSchema\":{\"type\":\"object\"}}]}",
    );
    let l1 = sys.list_tools();
    let l2 = sys.list_tools();
    assert_eq!(l1.len(), l2.len());
    for (a, b) in l1.iter().zip(l2.iter()) {
        assert_eq!(a.name, b.name);
        assert_eq!(a.description, b.description);
        assert_eq!(a.input_schema, b.input_schema);
    }
    assert_eq!(l1[0].name, "one");
    assert_eq!(l1[1].name, "two");
    assert_eq!(l1[1].input_schema, Some(v("{\"type\":\"object\"}")));
}

#[test]
fn timed_out_call_drops_its_late_response() {
    let mut sys = McpSystem::new();
    let ci = ready_server(&mut sys, "alpha", ECHO_TOOLS);
    let (conn, id, _line) = sys.call_tool("alpha", "echo", &v("{}")).unwrap();
    assert!(matches!(sys.give_up_call(conn, id), Some(CallError::TimedOut)));
    assert!(matches!(sys.give_up_call(conn, id), None));
    assert!(matches!(
        sys.reply(ci, id, RpcOutcome::Success(v("{}"))),
        ReplyEffect::Dropped
    ));
}

#[test]
fn initialize_failure_discards_the_connection() {
    let mut sys = McpSystem::new();
    let i = sys.add_server("alpha".to_string()).unwrap();
    sys.spawn_result(i, true);
    let (init_id, _line) = sys.start_handshake(i);
    let eff = sys.reply(i, init_id, RpcOutcome::Failure(v("{\"code\":-1}")));
    assert!(matches!(eff, ReplyEffect::HandshakeFailed(_)));
    assert_eq!(sys.life_of(i), LifeState::Failed);
    assert!(sys.list_tools().is_empty());
    assert!(matches!(
        sys.call_tool("alpha", "echo", &v("{}")),
        Err(CallError::ServerNotFound)
    ));
}

#[test]
fn malformed_tools_result_discards_the_connection() {
    let mut sys = McpSystem::new();
    let i = sys.add_server("alpha".to_string()).unwrap();
    sys.spawn_result(i, true);
    let (init_id, _line) = sys.start_handshake(i);
    let eff = sys.reply(i, init_id, RpcOutcome::Success(v("{}")));
    let tools_id = match eff {
        ReplyEffect::SendToolsList(tid, _) => tid,
        _ => panic!("initialize success must trigger tools/list"),
    };
    // An element without a description is a malformed tool list.
    let eff = sys.reply(
        i,
        tools_id,
        RpcOutcome::Success(v("{\"tools\":[{\"name\":\"x\"}]}")),
    );
    assert!(matches!(eff, ReplyEffect::HandshakeFailed(_)));
    assert_eq!(sys.life_of(i), LifeState::Failed);
}

#[test]
fn empty_tool_list_is_a_valid_handshake() {
    let mut sys = McpSystem::new();
    ready_server(&mut sys, "alpha", "{\"tools\":[]}");
    assert!(sys.list_tools().is_empty());
}

#[test]
fn duplicate_server_name_is_refused() {
    let mut sys = McpSystem::new();
    assert!(sys.add_server("alpha".to_string()).is_some());
    assert!(sys.add_server("alpha".to_string()).is_none());
    assert!(sys.add_server("beta".to_string()).is_some());
}

#[test]
fn decode_rejects_malformed_lines() {
    assert!(matches!(decode_line("not json"), Inbound::Malformed));
    assert!(matches!(decode_line(""), Inbound::Malformed));
    assert!(matches!(
        decode_line("{\"jsonrpc\":\"2.0\",\"result\":{}}"),
        Inbound::Malformed
    ));
    assert!(matches!(
        decode_line("{\"jsonrpc\":\"2.0\",\"id\":\"three\",\"result\":{}}"),
        Inbound::Malformed
    ));
    assert!(matches!(
        decode_line("{\"jsonrpc\":\"2.0\",\"id\":1,\"result\":{},\"error\":{}}"),
        Inbound::Malformed
    ));
    match decode_line("{\"jsonrpc\":\"2.0\",\"id\":4,\"error\":{\"code\":-32601}}") {
        Inbound::Reply(id, RpcOutcome::Failure(e)) => {
            assert_eq!(id, 4);
            assert_eq!(e, v("{\"code\":-32601}"));
        },
        _ => panic!("an error response must decode as a failure reply"),
    }
}

#[test]
fn two_ready_servers_aggregate_in_registration_order() {
    let mut sys = McpSystem::new();
    ready_server(&mut sys, "alpha", "{\"tools\":[{\"name\":\"a1\",\"description\":\"d\"}]}");
    ready_server(&mut sys, "beta", "{\"tools\":[{\"name\":\"b1\",\"description\":\"d\"}]}");
    let tools = sys.list_tools();
    assert_eq!(tools.len(), 2);
    assert_eq!(tools[0].name, "a1");
    assert_eq!(tools[1].name, "b1");
    // Same-named tools on two servers stay disambiguated by server scope.
    let ra = sys.call_tool("alpha", "a1", &v("{}"));
    assert!(ra.is_ok());
    let rb = sys.call_tool("beta", "a1", &v("{}"));
    assert!(matches!(rb, Err(CallError::ToolNotFound)));
}

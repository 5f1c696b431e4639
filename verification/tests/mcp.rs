use xtop::mcp::{
    i64_text, method_not_found_message, rpc_method, tool_action, tool_answer, tool_call, tool_names, RpcMethod,
    ToolAnswer, ToolArgs, ToolCall, INVALID_PARAMS, METHOD_NOT_FOUND, SERVER_ERROR, parse_rpc_line, rpc_step, RpcStep,
};
use xtop::plugin::PluginError;

fn no_args() -> ToolArgs {
    ToolArgs {
        count: None,
        filter: None,
        pattern: None,
        fields: None,
        pid: None,
        cpu: None,
        mem: None,
        disk: None,
        interval_ms: None,
        theme: None,
        layout: None,
    }
}

fn exec(action: &str, params: &str) -> ToolCall {
    ToolCall::Execute { action: action.to_string(), params: params.to_string() }
}

#[test]
fn methods() {
    assert_eq!(rpc_method("initialize"), RpcMethod::Initialize);
    assert_eq!(rpc_method("tools/list"), RpcMethod::ToolsList);
    assert_eq!(rpc_method("tools/call"), RpcMethod::ToolsCall);
    assert_eq!(rpc_method(""), RpcMethod::Unknown);
    assert_eq!(method_not_found_message("ping"), "Method not found: ping");
}

#[test]
fn integers_print_like_rust() {
    for n in [0i64, 7, 10, -1, -305, 1234567890, i64::MAX, i64::MIN] {
        assert_eq!(i64_text(n), n.to_string());
    }
}

#[test]
fn tool_calls_become_actions() {
    assert_eq!(tool_call("system_summary", &no_args()), exec("system.summary", ""));
    assert_eq!(tool_call("processes_top", &no_args()), exec("processes.top", "10"));
    let mut a = no_args();
    a.count = Some(5);
    a.filter = Some("fire.*".to_string());
    assert_eq!(tool_call("processes_top", &a), exec("processes.top", "5,filter=fire.*"));
    let mut a = no_args();
    a.pattern = Some("ssh".to_string());
    assert_eq!(tool_call("processes_search", &a), exec("processes.search", "ssh"));
    a.fields = Some("name,cmd".to_string());
    assert_eq!(tool_call("processes_search", &a), exec("processes.search", "ssh,fields=name,cmd"));
    assert_eq!(tool_call("processes_search", &no_args()), exec("processes.search", ""));
    let mut a = no_args();
    a.pid = Some(-42);
    assert_eq!(tool_call("process_kill", &a), exec("process.kill", "-42"));
    assert_eq!(tool_call("process_info", &a), exec("process.info", "-42"));
    let mut a = no_args();
    a.cpu = Some(80.5f64.to_string());
    a.mem = Some(90f64.to_string());
    a.disk = Some(95f64.to_string());
    assert_eq!(tool_call("threshold_set", &a), exec("threshold.set", "80.5,90,95"));
    assert_eq!(tool_call("plugin_status", &no_args()), exec("plugin.status", ""));
}

#[test]
fn config_set_takes_the_first_given_setting() {
    let mut a = no_args();
    a.theme = Some("oslo".to_string());
    a.layout = Some("Vertical".to_string());
    assert_eq!(tool_call("config_set", &a), exec("config.set", "theme=oslo"));
    a.interval_ms = Some(500);
    assert_eq!(tool_call("config_set", &a), exec("config.set", "interval_ms=500"));
    let mut b = no_args();
    b.layout = Some("Vertical".to_string());
    assert_eq!(tool_call("config_set", &b), exec("config.set", "layout=Vertical"));
}

#[test]
fn bad_tool_calls_are_refused() {
    assert_eq!(
        tool_call("process_info", &no_args()),
        ToolCall::Reject { code: INVALID_PARAMS, message: "missing required argument: pid".to_string() }
    );
    let mut a = no_args();
    a.cpu = Some("1".to_string());
    assert_eq!(
        tool_call("threshold_set", &a),
        ToolCall::Reject { code: INVALID_PARAMS, message: "missing required argument: mem".to_string() }
    );
    assert_eq!(
        tool_call("threshold_set", &no_args()),
        ToolCall::Reject { code: INVALID_PARAMS, message: "missing required argument: cpu".to_string() }
    );
    assert_eq!(
        tool_call("config_set", &no_args()),
        ToolCall::Reject { code: INVALID_PARAMS, message: "expected interval_ms, theme, or layout".to_string() }
    );
    assert_eq!(
        tool_call("rm_rf", &no_args()),
        ToolCall::Reject { code: METHOD_NOT_FOUND, message: "Tool not found: rm_rf".to_string() }
    );
}

#[test]
fn every_listed_tool_has_an_action() {
    let names = tool_names();
    assert_eq!(names.len(), 12);
    for n in names {
        assert!(tool_action(n).is_some(), "{n}");
    }
}

#[test]
fn plugin_results_become_answers() {
    assert_eq!(tool_answer(Ok("{}".to_string())), ToolAnswer::Text("{}".to_string()));
    assert_eq!(
        tool_answer(Err(PluginError::UnknownAction("x".to_string()))),
        ToolAnswer::Error { code: SERVER_ERROR, message: "unknown action: x".to_string() }
    );
}

#[test]
fn a_tools_call_line_is_read_and_dispatched() {
    let line = r#"{"jsonrpc":"2.0","id":7,"method":"tools/call","params":{"name":"processes_top","arguments":{"count":5,"filter":"ssh"}}}"#;
    let req = parse_rpc_line(line).unwrap();
    assert_eq!(req.id, Some("7".to_string()));
    assert_eq!(req.method, "tools/call");
    assert_eq!(req.tool, "processes_top");
    assert_eq!(req.args.count, Some(5));
    assert_eq!(req.args.filter, Some("ssh".to_string()));
    assert_eq!(req.args.pid, None);
    assert_eq!(
        rpc_step(&req),
        RpcStep::Run { action: "processes.top".to_string(), params: "5,filter=ssh".to_string() }
    );
}

#[test]
fn request_lines_of_every_method() {
    let init = parse_rpc_line(r#"{"jsonrpc":"2.0","id":"a","method":"initialize","params":{}}"#).unwrap();
    assert_eq!(init.id, Some("\"a\"".to_string()));
    assert_eq!(rpc_step(&init), RpcStep::Initialize);
    let list = parse_rpc_line(r#"{"jsonrpc":"2.0","method":"tools/list"}"#).unwrap();
    assert_eq!(list.id, None);
    assert_eq!(rpc_step(&list), RpcStep::ListTools);
    let other = parse_rpc_line(r#"{"id":1,"method":"ping"}"#).unwrap();
    assert_eq!(
        rpc_step(&other),
        RpcStep::Fail { code: -32601, message: "Method not found: ping".to_string() }
    );
    let none = parse_rpc_line(r#"{"id":1}"#).unwrap();
    assert_eq!(none.method, "");
    let thresholds =
        parse_rpc_line(r#"{"id":2,"method":"tools/call","params":{"name":"threshold_set","arguments":{"cpu":80.5,"mem":90,"disk":"x"}}}"#)
            .unwrap();
    assert_eq!(thresholds.args.cpu, Some("80.5".to_string()));
    assert_eq!(thresholds.args.mem, Some("90".to_string()));
    assert_eq!(thresholds.args.disk, None);
    assert_eq!(
        rpc_step(&thresholds),
        RpcStep::Fail { code: -32602, message: "missing required argument: disk".to_string() }
    );
}

#[test]
fn a_line_that_is_not_json_is_refused() {
    assert!(parse_rpc_line("not json").is_none());
    assert!(parse_rpc_line("{\"id\":").is_none());
}

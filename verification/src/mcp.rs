//! The MCP (Model Context Protocol) server's decisions: which JSON-RPC
//! method a request names, which plugin action and parameter string a tool
//! call becomes (or which error it is refused with), and what a plugin's
//! answer becomes, and what a request line holds. The caller reads and
//! writes the JSON lines on stdio.

use vstd::prelude::*;
use crate::plugin::{error_message, PluginError};
use crate::text::{push_char, str_eq};

verus! {

/// The server name reported by `initialize`.
pub const SERVER_NAME: &'static str = "xtop-sentinel";

/// The server version reported by `initialize`.
pub const SERVER_VERSION: &'static str = "0.1.0";

/// The MCP protocol version spoken.
pub const PROTOCOL_VERSION: &'static str = "2024-11-05";

/// JSON-RPC: the method (or tool) does not exist.
pub const METHOD_NOT_FOUND: i32 = -32601;

/// JSON-RPC: invalid method parameters.
pub const INVALID_PARAMS: i32 = -32602;

/// JSON-RPC: the server failed to carry the request out.
pub const SERVER_ERROR: i32 = -32000;

/// The JSON-RPC methods the server answers.
#[derive(Debug, PartialEq, Eq)]
pub enum RpcMethod {
    Initialize,
    ToolsList,
    ToolsCall,
    /// Any other method: answered with `METHOD_NOT_FOUND`.
    Unknown,
}

/// The method a request's `method` string names.
pub open spec fn spec_rpc_method(m: Seq<char>) -> RpcMethod {
    if m == "initialize"@ {
        RpcMethod::Initialize
    } else if m == "tools/list"@ {
        RpcMethod::ToolsList
    } else if m == "tools/call"@ {
        RpcMethod::ToolsCall
    } else {
        RpcMethod::Unknown
    }
}

/// The method a request names (a request without one names `""`).
pub fn rpc_method(method: &str) -> (r: RpcMethod)
    ensures
        r == spec_rpc_method(method@),
{
    if str_eq(method, "initialize") {
        RpcMethod::Initialize
    } else if str_eq(method, "tools/list") {
        RpcMethod::ToolsList
    } else if str_eq(method, "tools/call") {
        RpcMethod::ToolsCall
    } else {
        RpcMethod::Unknown
    }
}

/// The error message for an unknown method: `Method not found: <method>`.
pub fn method_not_found_message(method: &str) -> (r: String)
    ensures
        r@ == "Method not found: "@ + method@,
{
    let mut r = "Method not found: ".to_string();
    r.append(method);
    r
}

/// The character of a decimal digit.
pub open spec fn digit_char(d: int) -> char {
    (d + 48) as char
}

/// The decimal text of a natural number.
pub open spec fn nat_text(n: nat) -> Seq<char>
    decreases n,
{
    if n < 10 {
        seq![digit_char(n as int)]
    } else {
        nat_text(n / 10).push(digit_char((n % 10) as int))
    }
}

/// The decimal text of an integer (`i64::to_string`).
pub open spec fn int_text(i: int) -> Seq<char> {
    if i < 0 {
        seq!['-'] + nat_text((-i) as nat)
    } else {
        nat_text(i as nat)
    }
}

fn push_digits(out: &mut String, n: u64)
    ensures
        final(out)@ == old(out)@ + nat_text(n as nat),
    decreases n,
{
    if n >= 10 {
        push_digits(out, n / 10);
    }
    let d = (n % 10) as u8;
    push_char(out, (d + 48) as char);
    proof {
        assert(digit_char((n % 10) as int) == ((d + 48) as char));
    }
}

/// The decimal text of an `i64`.
pub fn i64_text(i: i64) -> (r: String)
    ensures
        r@ == int_text(i as int),
{
    let mut r = String::new();
    if i < 0 {
        push_char(&mut r, '-');
        let m = (0i128 - (i as i128)) as u64;
        push_digits(&mut r, m);
        proof {
            assert(r@ =~= seq!['-'] + nat_text((-i) as nat));
        }
    } else {
        push_digits(&mut r, i as u64);
        proof {
            assert(r@ =~= nat_text(i as nat));
        }
    }
    r
}

/// The arguments of a tool call, as read from its JSON `arguments` object:
/// each present when the key holds a value of the expected kind. The three
/// thresholds are numbers; they are carried as the text Rust prints for
/// them (`f64::to_string`).
pub struct ToolArgs {
    pub count: Option<i64>,
    pub filter: Option<String>,
    pub pattern: Option<String>,
    pub fields: Option<String>,
    pub pid: Option<i64>,
    pub cpu: Option<String>,
    pub mem: Option<String>,
    pub disk: Option<String>,
    pub interval_ms: Option<i64>,
    pub theme: Option<String>,
    pub layout: Option<String>,
}

/// What a tool call becomes: a plugin action with its parameter string, or
/// a JSON-RPC error.
#[derive(Debug, PartialEq, Eq)]
pub enum ToolCall {
    Execute { action: String, params: String },
    Reject { code: i32, message: String },
}

/// The value of a tool call, for contracts.
pub enum ToolOutcome {
    Execute(Seq<char>, Seq<char>),
    Reject(int, Seq<char>),
}

/// The value of a `ToolCall`.
pub open spec fn tool_call_view(c: ToolCall) -> ToolOutcome {
    match c {
        ToolCall::Execute { action, params } => ToolOutcome::Execute(action@, params@),
        ToolCall::Reject { code, message } => ToolOutcome::Reject(code as int, message@),
    }
}

/// The text of an optional string argument.
pub open spec fn opt_view(o: Option<String>) -> Option<Seq<char>> {
    match o {
        Some(s) => Some(s@),
        None => None,
    }
}

/// The plugin action a tool runs; none for a tool that does not exist.
pub open spec fn spec_tool_action(name: Seq<char>) -> Option<Seq<char>> {
    if name == "system_summary"@ {
        Some("system.summary"@)
    } else if name == "processes_top"@ {
        Some("processes.top"@)
    } else if name == "processes_search"@ {
        Some("processes.search"@)
    } else if name == "process_info"@ {
        Some("process.info"@)
    } else if name == "process_kill"@ {
        Some("process.kill"@)
    } else if name == "threshold_set"@ {
        Some("threshold.set"@)
    } else if name == "threshold_get"@ {
        Some("threshold.get"@)
    } else if name == "config_get"@ {
        Some("config.get"@)
    } else if name == "config_set"@ {
        Some("config.set"@)
    } else if name == "process_alerts"@ {
        Some("process.alerts"@)
    } else if name == "alerts_status"@ {
        Some("alerts.status"@)
    } else if name == "plugin_status"@ {
        Some("plugin.status"@)
    } else {
        None
    }
}

/// The parameter string of a tool's action, or the error that refuses the
/// call for a missing argument.
pub open spec fn spec_tool_params(name: Seq<char>, a: ToolArgs) -> Result<Seq<char>, Seq<char>> {
    if name == "processes_top"@ {
        let count = int_text(
            match a.count {
                Some(c) => c as int,
                None => 10,
            },
        );
        Ok(
            match a.filter {
                Some(f) => count + ",filter="@ + f@,
                None => count,
            },
        )
    } else if name == "processes_search"@ {
        let pattern = match a.pattern {
            Some(p) => p@,
            None => Seq::empty(),
        };
        Ok(
            match a.fields {
                Some(f) => pattern + ",fields="@ + f@,
                None => pattern,
            },
        )
    } else if name == "process_info"@ || name == "process_kill"@ {
        match a.pid {
            Some(p) => Ok(int_text(p as int)),
            None => Err("missing required argument: pid"@),
        }
    } else if name == "threshold_set"@ {
        match (a.cpu, a.mem, a.disk) {
            (None, _, _) => Err("missing required argument: cpu"@),
            (Some(_), None, _) => Err("missing required argument: mem"@),
            (Some(_), Some(_), None) => Err("missing required argument: disk"@),
            (Some(c), Some(m), Some(d)) => Ok(c@ + ","@ + m@ + ","@ + d@),
        }
    } else if name == "config_set"@ {
        match (a.interval_ms, a.theme, a.layout) {
            (Some(ms), _, _) => Ok("interval_ms="@ + int_text(ms as int)),
            (None, Some(t), _) => Ok("theme="@ + t@),
            (None, None, Some(l)) => Ok("layout="@ + l@),
            (None, None, None) => Err("expected interval_ms, theme, or layout"@),
        }
    } else {
        Ok(Seq::empty())
    }
}

/// What a call of tool `name` with these arguments becomes: an unknown tool
/// is refused with `METHOD_NOT_FOUND`, a missing argument with
/// `INVALID_PARAMS`; otherwise the tool's action with its parameters.
pub open spec fn spec_tool_call(name: Seq<char>, a: ToolArgs) -> ToolOutcome {
    match spec_tool_action(name) {
        None => ToolOutcome::Reject(METHOD_NOT_FOUND as int, "Tool not found: "@ + name),
        Some(action) => match spec_tool_params(name, a) {
            Ok(p) => ToolOutcome::Execute(action, p),
            Err(m) => ToolOutcome::Reject(INVALID_PARAMS as int, m),
        },
    }
}

/// The plugin action of a tool (see `spec_tool_action`).
pub fn tool_action(name: &str) -> (r: Option<&'static str>)
    ensures
        match r {
            Some(a) => spec_tool_action(name@) == Some(a@),
            None => spec_tool_action(name@) is None,
        },
{
    if str_eq(name, "system_summary") {
        Some("system.summary")
    } else if str_eq(name, "processes_top") {
        Some("processes.top")
    } else if str_eq(name, "processes_search") {
        Some("processes.search")
    } else if str_eq(name, "process_info") {
        Some("process.info")
    } else if str_eq(name, "process_kill") {
        Some("process.kill")
    } else if str_eq(name, "threshold_set") {
        Some("threshold.set")
    } else if str_eq(name, "threshold_get") {
        Some("threshold.get")
    } else if str_eq(name, "config_get") {
        Some("config.get")
    } else if str_eq(name, "config_set") {
        Some("config.set")
    } else if str_eq(name, "process_alerts") {
        Some("process.alerts")
    } else if str_eq(name, "alerts_status") {
        Some("alerts.status")
    } else if str_eq(name, "plugin_status") {
        Some("plugin.status")
    } else {
        None
    }
}

fn joined(parts: &[&str]) -> (r: String)
    ensures
        r@ == crate::text::concat_views(parts@),
{
    crate::text::cat(parts)
}

fn tool_params(name: &str, a: &ToolArgs) -> (r: Result<String, String>)
    ensures
        match spec_tool_params(name@, *a) {
            Ok(p) => r matches Ok(s) && s@ == p,
            Err(m) => r matches Err(s) && s@ == m,
        },
{
    proof {
        reveal_with_fuel(crate::text::concat_views, 6);
    }
    if str_eq(name, "processes_top") {
        let count = i64_text(
            match a.count {
                Some(c) => c,
                None => 10,
            },
        );
        match &a.filter {
            Some(f) => Ok(joined(&[count.as_str(), ",filter=", f.as_str()])),
            None => Ok(count),
        }
    } else if str_eq(name, "processes_search") {
        let pattern = match &a.pattern {
            Some(p) => p.clone(),
            None => String::new(),
        };
        match &a.fields {
            Some(f) => Ok(joined(&[pattern.as_str(), ",fields=", f.as_str()])),
            None => Ok(pattern),
        }
    } else if str_eq(name, "process_info") || str_eq(name, "process_kill") {
        match a.pid {
            Some(p) => Ok(i64_text(p)),
            None => Err("missing required argument: pid".to_string()),
        }
    } else if str_eq(name, "threshold_set") {
        match (&a.cpu, &a.mem, &a.disk) {
            (None, _, _) => Err("missing required argument: cpu".to_string()),
            (Some(_), None, _) => Err("missing required argument: mem".to_string()),
            (Some(_), Some(_), None) => Err("missing required argument: disk".to_string()),
            (Some(c), Some(m), Some(d)) => Ok(joined(&[c.as_str(), ",", m.as_str(), ",", d.as_str()])),
        }
    } else if str_eq(name, "config_set") {
        match (a.interval_ms, &a.theme, &a.layout) {
            (Some(ms), _, _) => {
                let t = i64_text(ms);
                Ok(joined(&["interval_ms=", t.as_str()]))
            },
            (None, Some(t), _) => Ok(joined(&["theme=", t.as_str()])),
            (None, None, Some(l)) => Ok(joined(&["layout=", l.as_str()])),
            (None, None, None) => Err("expected interval_ms, theme, or layout".to_string()),
        }
    } else {
        Ok(String::new())
    }
}

/// Turn a `tools/call` request into a plugin action (see `spec_tool_call`).
pub fn tool_call(name: &str, args: &ToolArgs) -> (r: ToolCall)
    ensures
        tool_call_view(r) == spec_tool_call(name@, *args),
{
    match tool_action(name) {
        None => {
            let mut m = "Tool not found: ".to_string();
            m.append(name);
            ToolCall::Reject { code: METHOD_NOT_FOUND, message: m }
        },
        Some(action) => match tool_params(name, args) {
            Ok(p) => ToolCall::Execute { action: action.to_string(), params: p },
            Err(m) => ToolCall::Reject { code: INVALID_PARAMS, message: m },
        },
    }
}

/// The tools the server lists, in listing order.
pub open spec fn listed_tools() -> Seq<Seq<char>> {
    seq![
        "system_summary"@, "processes_top"@, "processes_search"@, "process_info"@, "process_kill"@,
        "threshold_set"@, "threshold_get"@, "config_get"@, "config_set"@, "process_alerts"@,
        "alerts_status"@, "plugin_status"@,
    ]
}

/// The names of the tools `tools/list` describes, in listing order.
pub fn tool_names() -> (r: Vec<&'static str>)
    ensures
        r@.map_values(|s: &str| s@) == listed_tools(),
{
    let r = vec![
        "system_summary", "processes_top", "processes_search", "process_info", "process_kill",
        "threshold_set", "threshold_get", "config_get", "config_set", "process_alerts", "alerts_status",
        "plugin_status",
    ];
    assert(r@.map_values(|s: &str| s@) =~= listed_tools());
    r
}

/// Every tool the server lists can be called: it maps to a plugin action.
pub proof fn lemma_listed_tools_callable(i: int)
    requires
        0 <= i < listed_tools().len(),
    ensures
        spec_tool_action(listed_tools()[i]) is Some,
{
    reveal_strlit("system_summary");
    reveal_strlit("processes_top");
    reveal_strlit("processes_search");
    reveal_strlit("process_info");
    reveal_strlit("process_kill");
    reveal_strlit("threshold_set");
    reveal_strlit("threshold_get");
    reveal_strlit("config_get");
    reveal_strlit("config_set");
    reveal_strlit("process_alerts");
    reveal_strlit("alerts_status");
    reveal_strlit("plugin_status");
}

/// A tool name with its `_` turned into `.`: the plugin action's name.
pub open spec fn dotted(name: Seq<char>) -> Seq<char> {
    name.map_values(|c: char| if c == '_' { '.' } else { c })
}

/// Each listed tool runs the plugin action named like the tool with its `_`
/// turned into `.` (`threshold_get` runs `threshold.get`), so distinct
/// tools run distinct actions.
pub proof fn lemma_tool_action_is_dotted_name(i: int, j: int)
    requires
        0 <= i < listed_tools().len(),
        0 <= j < listed_tools().len(),
    ensures
        spec_tool_action(listed_tools()[i]) == Some(dotted(listed_tools()[i])),
        i != j ==> spec_tool_action(listed_tools()[i]) != spec_tool_action(listed_tools()[j]),
{
    reveal_strlit("system_summary");
    reveal_strlit("system.summary");
    reveal_strlit("processes_top");
    reveal_strlit("processes.top");
    reveal_strlit("processes_search");
    reveal_strlit("processes.search");
    reveal_strlit("process_info");
    reveal_strlit("process.info");
    reveal_strlit("process_kill");
    reveal_strlit("process.kill");
    reveal_strlit("threshold_set");
    reveal_strlit("threshold.set");
    reveal_strlit("threshold_get");
    reveal_strlit("threshold.get");
    reveal_strlit("config_get");
    reveal_strlit("config.get");
    reveal_strlit("config_set");
    reveal_strlit("config.set");
    reveal_strlit("process_alerts");
    reveal_strlit("process.alerts");
    reveal_strlit("alerts_status");
    reveal_strlit("alerts.status");
    reveal_strlit("plugin_status");
    reveal_strlit("plugin.status");
    let t = listed_tools();
    assert(dotted(t[i]) =~= match spec_tool_action(t[i]) {
        Some(a) => a,
        None => Seq::empty(),
    });
    if i != j {
        let a = dotted(t[i]);
        let b = dotted(t[j]);
        assert(a.len() != b.len() || a[0] != b[0] || a[1] != b[1] || a[a.len() - 3] != b[b.len() - 3]);
    }
}

/// The answer to a tool call: the plugin's text, or its error.
#[derive(Debug, PartialEq, Eq)]
pub enum ToolAnswer {
    /// A successful call: the plugin's response text.
    Text(String),
    /// A failed call: the JSON-RPC error code and message.
    Error { code: i32, message: String },
}

/// What the plugin's result of a tool call is answered with: its text, or
/// `SERVER_ERROR` with the error's message.
pub fn tool_answer(result: Result<String, PluginError>) -> (r: ToolAnswer)
    ensures
        match result {
            Ok(t) => r == ToolAnswer::Text(t),
            Err(e) => r matches ToolAnswer::Error { code, message } && code == SERVER_ERROR && message@
                == error_message(e),
        },
{
    match result {
        Ok(t) => ToolAnswer::Text(t),
        Err(e) => ToolAnswer::Error { code: SERVER_ERROR, message: e.message() },
    }
}

/// What a JSON value holds, as the request reader uses it: its JSON text,
/// its string (when it is a string), its integer (when it is a number that
/// fits an `i64`) and its number text (when it is a number).
pub struct JsonField {
    pub json: String,
    pub text: Option<String>,
    pub int: Option<i64>,
    pub number: Option<String>,
}

/// The value of a `JsonField`.
pub struct JsonFieldView {
    pub json: Seq<char>,
    pub text: Option<Seq<char>>,
    pub int: Option<i64>,
    pub number: Option<Seq<char>>,
}

/// The value of a `JsonField`.
pub open spec fn json_field_view(f: JsonField) -> JsonFieldView {
    JsonFieldView { json: f.json@, text: opt_view(f.text), int: f.int, number: opt_view(f.number) }
}

/// What `serde_json` reads at a JSON pointer of a line: `None` when the line
/// is not JSON, `Some(None)` when nothing stands at the pointer.
pub uninterp spec fn json_field_at(line: Seq<char>, pointer: Seq<char>) -> Option<Option<JsonFieldView>>;

/// The value read at a JSON pointer, taken by its view.
pub open spec fn read_view(r: Option<Option<JsonField>>) -> Option<Option<JsonFieldView>> {
    match r {
        None => None,
        Some(None) => Some(None),
        Some(Some(f)) => Some(Some(json_field_view(f))),
    }
}

/// Parse a line as JSON (`serde_json::from_str` into a `Value`) and read the
/// value at a JSON pointer (`Value::pointer`): its text (`Display`), string
/// (`as_str`), integer (`as_i64`) and number text (`Number`'s `Display`).
/// The result is named by `json_field_at`; the JSON grammar and the number
/// formatting are not stated.
#[verifier::external_body]
fn read_json_field(line: &str, pointer: &str) -> (r: Option<Option<JsonField>>)
    ensures
        read_view(r) == json_field_at(line@, pointer@),
{
    let v: serde_json::Value = serde_json::from_str(line).ok()?;
    Some(v.pointer(pointer).map(|x| JsonField {
        json: x.to_string(),
        text: x.as_str().map(|t| t.to_string()),
        int: x.as_i64(),
        number: match x {
            serde_json::Value::Number(n) => Some(n.to_string()),
            _ => None,
        },
    }))
}

/// A JSON-RPC request line as the server reads it: the request `id` as JSON
/// text, the `method` (`""` when absent or not a string), the tool
/// `params.name` (`""` likewise) and the tool `params.arguments`. The three
/// thresholds are carried as the number text of the line.
pub struct RpcRequest {
    pub id: Option<String>,
    pub method: String,
    pub tool: String,
    pub args: ToolArgs,
}

/// The value of tool arguments.
pub struct ToolArgsView {
    pub count: Option<i64>,
    pub filter: Option<Seq<char>>,
    pub pattern: Option<Seq<char>>,
    pub fields: Option<Seq<char>>,
    pub pid: Option<i64>,
    pub cpu: Option<Seq<char>>,
    pub mem: Option<Seq<char>>,
    pub disk: Option<Seq<char>>,
    pub interval_ms: Option<i64>,
    pub theme: Option<Seq<char>>,
    pub layout: Option<Seq<char>>,
}

/// The value of `ToolArgs`.
pub open spec fn tool_args_view(a: ToolArgs) -> ToolArgsView {
    ToolArgsView {
        count: a.count,
        filter: opt_view(a.filter),
        pattern: opt_view(a.pattern),
        fields: opt_view(a.fields),
        pid: a.pid,
        cpu: opt_view(a.cpu),
        mem: opt_view(a.mem),
        disk: opt_view(a.disk),
        interval_ms: a.interval_ms,
        theme: opt_view(a.theme),
        layout: opt_view(a.layout),
    }
}

/// The value of a read request.
pub open spec fn request_view(r: Option<RpcRequest>) -> Option<(Option<Seq<char>>, Seq<char>, Seq<char>, ToolArgsView)> {
    match r {
        None => None,
        Some(q) => Some((opt_view(q.id), q.method@, q.tool@, tool_args_view(q.args))),
    }
}

/// The string at a pointer of a JSON line, if one stands there.
pub open spec fn text_at(line: Seq<char>, pointer: Seq<char>) -> Option<Seq<char>> {
    match json_field_at(line, pointer) {
        Some(Some(f)) => f.text,
        _ => None,
    }
}

/// The integer at a pointer of a JSON line, if one stands there.
pub open spec fn int_at(line: Seq<char>, pointer: Seq<char>) -> Option<i64> {
    match json_field_at(line, pointer) {
        Some(Some(f)) => f.int,
        _ => None,
    }
}

/// The number text at a pointer of a JSON line, if a number stands there.
pub open spec fn number_at(line: Seq<char>, pointer: Seq<char>) -> Option<Seq<char>> {
    match json_field_at(line, pointer) {
        Some(Some(f)) => f.number,
        _ => None,
    }
}

/// A tool argument's pointer.
pub open spec fn arg_pointer(key: Seq<char>) -> Seq<char> {
    "/params/arguments/"@ + key
}

/// What a request line holds: nothing when it is not JSON; otherwise its
/// `id` as JSON text, its `method` and tool name (`""` when absent or not
/// strings), and the tool arguments of the expected kinds.
pub open spec fn json_rpc_request(line: Seq<char>) -> Option<(Option<Seq<char>>, Seq<char>, Seq<char>, ToolArgsView)> {
    match json_field_at(line, "/id"@) {
        None => None,
        Some(id) => Some(
            (
                match id {
                    Some(f) => Some(f.json),
                    None => None,
                },
                match text_at(line, "/method"@) {
                    Some(m) => m,
                    None => Seq::empty(),
                },
                match text_at(line, "/params/name"@) {
                    Some(n) => n,
                    None => Seq::empty(),
                },
                ToolArgsView {
                    count: int_at(line, arg_pointer("count"@)),
                    filter: text_at(line, arg_pointer("filter"@)),
                    pattern: text_at(line, arg_pointer("pattern"@)),
                    fields: text_at(line, arg_pointer("fields"@)),
                    pid: int_at(line, arg_pointer("pid"@)),
                    cpu: number_at(line, arg_pointer("cpu"@)),
                    mem: number_at(line, arg_pointer("mem"@)),
                    disk: number_at(line, arg_pointer("disk"@)),
                    interval_ms: int_at(line, arg_pointer("interval_ms"@)),
                    theme: text_at(line, arg_pointer("theme"@)),
                    layout: text_at(line, arg_pointer("layout"@)),
                },
            ),
        ),
    }
}

fn read_text(line: &str, pointer: &str) -> (r: Option<String>)
    ensures
        opt_view(r) == text_at(line@, pointer@),
{
    match read_json_field(line, pointer) {
        Some(Some(f)) => f.text,
        _ => None,
    }
}

fn read_int(line: &str, pointer: &str) -> (r: Option<i64>)
    ensures
        r == int_at(line@, pointer@),
{
    match read_json_field(line, pointer) {
        Some(Some(f)) => f.int,
        _ => None,
    }
}

fn read_number(line: &str, pointer: &str) -> (r: Option<String>)
    ensures
        opt_view(r) == number_at(line@, pointer@),
{
    match read_json_field(line, pointer) {
        Some(Some(f)) => f.number,
        _ => None,
    }
}

/// Read a JSON-RPC request line (see `json_rpc_request`); `None` when it is
/// not JSON.
pub fn parse_rpc_line(line: &str) -> (r: Option<RpcRequest>)
    ensures
        request_view(r) == json_rpc_request(line@),
{
    let id = match read_json_field(line, "/id") {
        None => return None,
        Some(Some(f)) => Some(f.json),
        Some(None) => None,
    };
    let method = match read_text(line, "/method") {
        Some(m) => m,
        None => String::new(),
    };
    let tool = match read_text(line, "/params/name") {
        Some(n) => n,
        None => String::new(),
    };
    proof {
        reveal_strlit("/params/arguments/");
        reveal_strlit("/params/arguments/count");
        reveal_strlit("count");
        reveal_strlit("/params/arguments/filter");
        reveal_strlit("filter");
        reveal_strlit("/params/arguments/pattern");
        reveal_strlit("pattern");
        reveal_strlit("/params/arguments/fields");
        reveal_strlit("fields");
        reveal_strlit("/params/arguments/pid");
        reveal_strlit("pid");
        reveal_strlit("/params/arguments/cpu");
        reveal_strlit("cpu");
        reveal_strlit("/params/arguments/mem");
        reveal_strlit("mem");
        reveal_strlit("/params/arguments/disk");
        reveal_strlit("disk");
        reveal_strlit("/params/arguments/interval_ms");
        reveal_strlit("interval_ms");
        reveal_strlit("/params/arguments/theme");
        reveal_strlit("theme");
        reveal_strlit("/params/arguments/layout");
        reveal_strlit("layout");
        assert("/params/arguments/count"@ =~= arg_pointer("count"@));
        assert("/params/arguments/filter"@ =~= arg_pointer("filter"@));
        assert("/params/arguments/pattern"@ =~= arg_pointer("pattern"@));
        assert("/params/arguments/fields"@ =~= arg_pointer("fields"@));
        assert("/params/arguments/pid"@ =~= arg_pointer("pid"@));
        assert("/params/arguments/cpu"@ =~= arg_pointer("cpu"@));
        assert("/params/arguments/mem"@ =~= arg_pointer("mem"@));
        assert("/params/arguments/disk"@ =~= arg_pointer("disk"@));
        assert("/params/arguments/interval_ms"@ =~= arg_pointer("interval_ms"@));
        assert("/params/arguments/theme"@ =~= arg_pointer("theme"@));
        assert("/params/arguments/layout"@ =~= arg_pointer("layout"@));
    }
    let args = ToolArgs {
        count: read_int(line, "/params/arguments/count"),
        filter: read_text(line, "/params/arguments/filter"),
        pattern: read_text(line, "/params/arguments/pattern"),
        fields: read_text(line, "/params/arguments/fields"),
        pid: read_int(line, "/params/arguments/pid"),
        cpu: read_number(line, "/params/arguments/cpu"),
        mem: read_number(line, "/params/arguments/mem"),
        disk: read_number(line, "/params/arguments/disk"),
        interval_ms: read_int(line, "/params/arguments/interval_ms"),
        theme: read_text(line, "/params/arguments/theme"),
        layout: read_text(line, "/params/arguments/layout"),
    };
    Some(RpcRequest { id, method, tool, args })
}

/// What the server does with a request: answer `initialize`, list the
/// tools, run a plugin action, or answer with an error.
#[derive(Debug, PartialEq, Eq)]
pub enum RpcStep {
    Initialize,
    ListTools,
    Run { action: String, params: String },
    Fail { code: i32, message: String },
}

/// The value of an `RpcStep`.
pub enum RpcStepView {
    Initialize,
    ListTools,
    Run(Seq<char>, Seq<char>),
    Fail(int, Seq<char>),
}

/// The value of an `RpcStep`.
pub open spec fn rpc_step_view(s: RpcStep) -> RpcStepView {
    match s {
        RpcStep::Initialize => RpcStepView::Initialize,
        RpcStep::ListTools => RpcStepView::ListTools,
        RpcStep::Run { action, params } => RpcStepView::Run(action@, params@),
        RpcStep::Fail { code, message } => RpcStepView::Fail(code as int, message@),
    }
}

/// What a request with this method, tool name and arguments becomes: an
/// unknown method is refused with `METHOD_NOT_FOUND`; `tools/call` goes by
/// `spec_tool_call`.
pub open spec fn spec_rpc_step(method: Seq<char>, tool: Seq<char>, args: ToolArgs) -> RpcStepView {
    match spec_rpc_method(method) {
        RpcMethod::Initialize => RpcStepView::Initialize,
        RpcMethod::ToolsList => RpcStepView::ListTools,
        RpcMethod::ToolsCall => match spec_tool_call(tool, args) {
            ToolOutcome::Execute(a, p) => RpcStepView::Run(a, p),
            ToolOutcome::Reject(c, m) => RpcStepView::Fail(c, m),
        },
        RpcMethod::Unknown => RpcStepView::Fail(METHOD_NOT_FOUND as int, "Method not found: "@ + method),
    }
}

/// Decide what the server does with a read request (see `spec_rpc_step`).
pub fn rpc_step(req: &RpcRequest) -> (r: RpcStep)
    ensures
        rpc_step_view(r) == spec_rpc_step(req.method@, req.tool@, req.args),
{
    match rpc_method(req.method.as_str()) {
        RpcMethod::Initialize => RpcStep::Initialize,
        RpcMethod::ToolsList => RpcStep::ListTools,
        RpcMethod::ToolsCall => match tool_call(req.tool.as_str(), &req.args) {
            ToolCall::Execute { action, params } => RpcStep::Run { action, params },
            ToolCall::Reject { code, message } => RpcStep::Fail { code, message },
        },
        RpcMethod::Unknown => RpcStep::Fail {
            code: METHOD_NOT_FOUND,
            message: method_not_found_message(req.method.as_str()),
        },
    }
}

} // verus!

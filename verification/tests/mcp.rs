use nirdosha_hi::json::Json;
use nirdosha_hi::mcp::clock::{civil_from_days, rfc3339};
use nirdosha_hi::mcp::log::{log_name, McpCallLog};
use nirdosha_hi::mcp::rpc::{
    mcp_dispatch, method_not_found, read_line, read_message, respond, session_details, take_line,
    unreadable_line, LineStep, Method,
};
use nirdosha_hi::mcp::tools::{
    answer_call, finish_check, get_grammar, get_nirdosha_constructs, get_ui_conventions,
    read_request, tool_ok, tools_call, tools_list, ToolPlan,
};
use nirdosha_hi::transport::{
    all_tools, dispatch, graph_reply, Access, GraphRoute, Options, Session,
};
use nirdosha_hi::v2::capabilities::{run_v2_capability_checks, v2_capabilities};
use nirdosha_hi::v2::verdict::V2Verdict;

fn s(text: &str) -> String {
    text.to_string()
}

fn strings(list: &[&str]) -> Vec<String> {
    list.iter().map(|t| t.to_string()).collect()
}

fn object(entries: &[(&str, Json)]) -> Json {
    Json::Object(
        entries
            .iter()
            .map(|(k, v)| (s(k), nirdosha_hi::json::copy_json(v)))
            .collect(),
    )
}

fn text(v: &str) -> Json {
    Json::Text(s(v))
}

fn clean() -> V2Verdict {
    V2Verdict { builds: true, build_diagnostic: None, contracts_found: 2, violations: Vec::new() }
}

/// Calls a tool that needs no check, and logs it.
fn call(params: &Json, log: &mut McpCallLog) -> (Result<Json, (i64, String)>, Json) {
    let request = read_request(params);
    let id = log.next_call_id();
    let outcome = match tools_call(&request) {
        ToolPlan::Done(outcome) => outcome,
        _ => panic!("this call needs a check"),
    };
    let tool = request.name.clone().unwrap_or_default();
    let record =
        log.record_call("2026-09-06T00:00:00.000Z", id, &tool, &request.arguments, &outcome, 3);
    (answer_call(outcome), record)
}

#[test]
fn tools_list_advertises_all_seven_tools() {
    let list = tools_list();
    let Some(Json::List(tools)) = list.get("tools") else { panic!("no tools") };
    let names: Vec<&str> = tools.iter().map(|t| t.get_text("name").unwrap().as_str()).collect();
    assert_eq!(
        names,
        [
            "verify_code",
            "get_grammar",
            "fix",
            "describe",
            "certify_code",
            "get_nirdosha_constructs",
            "get_ui_conventions"
        ]
    );
}

#[test]
fn tools_call_unknown_tool_is_a_protocol_error_and_is_logged() {
    let mut log = McpCallLog::new("unit-test-a", 7);
    let start = log.session_start("2026-09-06T00:00:00.000Z", object(&[("purpose", text("unit test"))]));
    let params = object(&[("name", text("no_such_tool")), ("arguments", object(&[]))]);
    let (outcome, record) = call(&params, &mut log);
    let err = outcome.unwrap_err();
    assert_eq!(err.0, -32602);
    assert!(err.1.contains("Unknown tool: no_such_tool"));
    assert_eq!(start.get_text("event").unwrap(), "session_start");
    assert_eq!(record.get_text("surface").unwrap(), "unit-test-a");
    assert_eq!(record.get_text("tool").unwrap(), "no_such_tool");
    assert_eq!(record.get("call_id"), Some(&Json::Number(s("1"))));
    assert_eq!(record.get_text("outcome").unwrap(), "error");
    assert!(record.get_text("error").unwrap().contains("Unknown tool: no_such_tool"));
    assert!(record.get_text("ts").unwrap().ends_with('Z'));
}

#[test]
fn missing_required_argument_is_a_protocol_error_and_is_logged() {
    let mut log = McpCallLog::new("unit-test-b", 7);
    let params = object(&[("name", text("verify_code")), ("arguments", object(&[]))]);
    let (outcome, record) = call(&params, &mut log);
    let err = outcome.unwrap_err();
    assert_eq!(err.0, -32602);
    assert!(err.1.contains("Missing required parameter 'source'"));
    assert_eq!(record.get_text("tool").unwrap(), "verify_code");
    assert_eq!(record.get_text("outcome").unwrap(), "error");
}

#[test]
fn missing_name_keeps_its_dedicated_protocol_error() {
    let mut log = McpCallLog::new("unit-test-b2", 7);
    let (outcome, _) = call(&object(&[("arguments", object(&[]))]), &mut log);
    let err = outcome.unwrap_err();
    assert_eq!(err.0, -32602);
    assert_eq!(err.1, "Missing required parameter 'name'");
}

#[test]
fn call_ids_are_monotonic_per_session() {
    let mut log = McpCallLog::new("unit-test-c", 7);
    let mut ids = Vec::new();
    for tool in ["verify_code", "describe"] {
        let params = object(&[("name", text(tool)), ("arguments", object(&[]))]);
        let (_, record) = call(&params, &mut log);
        ids.push(nirdosha_hi::json::copy_json(record.get("call_id").unwrap()));
    }
    assert_eq!(ids, [Json::Number(s("1")), Json::Number(s("2"))]);
}

#[test]
fn records_hold_the_digest_of_a_source_and_not_the_source() {
    let log = McpCallLog::new("unit-test-d", 7);
    let arguments = object(&[("source", text("fn secret() {}")), ("apply", Json::Bool(true))]);
    let plan = ToolPlan::Verify(s("fn secret() {}"));
    let outcome = finish_check(&plan, &Ok(clean()), "1.0");
    let record = log.record_call("t", 1, "verify_code", &arguments, &outcome, 3);
    let told = format!("{record:?}");
    assert!(!told.contains("secret"), "{told}");
    assert!(record.get("source").is_some());
    assert_eq!(record.get("apply"), Some(&Json::Bool(true)));
    assert_eq!(record.get_text("verdict").unwrap(), "clean");
    assert!(log_name("mcp-stdio", 42).contains("42"));
}

#[test]
fn checks_are_told_by_tool() {
    let verify = finish_check(&ToolPlan::Verify(s("x")), &Ok(clean()), "1.0").unwrap();
    assert_eq!(verify.get_text("verdict").unwrap(), "clean");
    assert_eq!(verify.get("contracts_found"), Some(&Json::Number(s("2"))));
    let certified = finish_check(&ToolPlan::Certify(s("fn main() {}\n")), &Ok(clean()), "1.0").unwrap();
    assert_eq!(
        certified.get_text("certificate_version").unwrap(),
        "nirdosha.certificate/v2-source-scan"
    );
    assert_eq!(certified.get_text("toolchain_version").unwrap(), "1.0");
    let fixed = finish_check(&ToolPlan::Fix(s("x"), true), &Ok(clean()), "1.0").unwrap();
    assert_eq!(fixed.get("apply_requested"), Some(&Json::Bool(true)));
    assert_eq!(finish_check(&ToolPlan::Verify(s("x")), &Err(s("no cargo")), "1.0").unwrap_err(), "no cargo");
    let told = tool_ok(Json::Int(1));
    assert_eq!(told.get("structuredContent"), Some(&Json::Int(1)));
    assert!(get_grammar().get_text("base_syntax").is_some());
    assert!(get_ui_conventions().get("archetype_macros").is_some());
}

#[test]
fn constructs_are_told_with_whether_they_pass() {
    let programs = v2_capabilities();
    assert_eq!(programs.len(), 9);
    assert_eq!(programs[0].name, "fn + arithmetic");
    assert!(programs[0].source.contains("fn add(a: i64, b: i64) -> i64 {\n    a + b\n}"));
    let mut checked: Vec<Result<V2Verdict, String>> = Vec::new();
    for _ in 0..9 {
        checked.push(Ok(clean()));
    }
    checked[2] = Err(s("no cargo"));
    let results = run_v2_capability_checks(&checked);
    assert!(results[0].passed && results[0].diagnostic.is_none());
    assert!(!results[2].passed);
    assert_eq!(results[2].diagnostic.as_deref(), Some("enum + match: no cargo"));
    let told = get_nirdosha_constructs(&results);
    let Some(Json::List(list)) = told.get("constructs") else { panic!("no constructs: {told:?}") };
    assert_eq!(list.len(), 9);
}

#[test]
fn civil_from_days_matches_known_dates() {
    assert_eq!(civil_from_days(0), (1970, 1, 1));
    assert_eq!(civil_from_days(20_645), (2026, 7, 11));
    assert_eq!(civil_from_days(20_702), (2026, 9, 6));
    assert_eq!(civil_from_days(10_957), (2000, 1, 1));
    assert_eq!(civil_from_days(11_059), (2000, 4, 12));
}

#[test]
fn days_before_the_epoch_have_dates_too() {
    assert_eq!(civil_from_days(-1), (1969, 12, 31));
    assert_eq!(civil_from_days(-719_468), (0, 3, 1));
    assert_eq!(civil_from_days(11_016), (2000, 2, 29));
}

#[test]
fn rfc3339_now_shape() {
    let now = std::time::SystemTime::now()
        .duration_since(std::time::UNIX_EPOCH)
        .expect("the clock is past the epoch");
    let ts = rfc3339(now.as_secs(), now.subsec_millis());
    assert_eq!(&ts[4..5], "-");
    assert_eq!(&ts[7..8], "-");
    assert_eq!(&ts[10..11], "T");
    assert_eq!(&ts[13..14], ":");
    assert_eq!(&ts[19..20], ".");
    assert!(ts.ends_with('Z'));
    assert_eq!(ts.len(), 24);
}

#[test]
fn timestamps_are_exact() {
    assert_eq!(rfc3339(0, 0), "1970-01-01T00:00:00.000Z");
    assert_eq!(rfc3339(1_788_652_805, 7), "2026-09-06T00:00:05.007Z");
}

#[test]
fn messages_over_standard_input_are_answered() {
    assert!(matches!(take_line("  \t"), LineStep::Skip));
    assert!(matches!(take_line(" {} \n"), LineStep::Read(line) if line == "{}"));
    let message = read_message(&object(&[("id", Json::Int(4)), ("method", text("ping"))]));
    assert_eq!(message.method, "ping");
    assert_eq!(message.params, Json::Null);
    let Method::Result(pong) = mcp_dispatch("ping", "1.0", false) else { panic!("no pong") };
    assert_eq!(
        respond(&message.id, Ok(pong)),
        Some(object(&[
            ("jsonrpc", text("2.0")),
            ("id", Json::Int(4)),
            ("result", object(&[])),
        ]))
    );
    assert_eq!(respond(&None, Ok(Json::Null)), None, "a notification is never answered");
    assert!(matches!(mcp_dispatch("tools/call", "1.0", false), Method::CallTool));
    assert!(matches!(mcp_dispatch("nope", "1.0", false), Method::Unknown));
    assert_eq!(method_not_found("nope"), (-32601, s("method not found: nope")));
    let bad = unreadable_line("eof");
    assert_eq!(bad.get("error").unwrap().get("code"), Some(&Json::Int(-32700)));
    assert_eq!(bad.get("error").unwrap().get_text("message").unwrap(), "parse error: eof");
    assert_eq!(
        session_details("1.0").get_text("protocol").unwrap(),
        "mcp-stdio-2025-06-18"
    );
}

#[test]
fn a_project_offers_its_resources() {
    let capabilities = |project: bool| {
        let Method::Result(hello) = mcp_dispatch("initialize", "1.0", project) else {
            panic!("no introduction")
        };
        hello.get("capabilities").unwrap().get("resources").is_some()
    };
    assert!(capabilities(true));
    assert!(!capabilities(false));
}

fn parse(args: &[&str]) -> Result<Options, String> {
    Options::parse(&strings(args), &None, &None, &Some(s("/home/x")))
}

#[test]
fn options_of_a_graph_are_read() {
    let Ok(o) = parse(&["--project", "/p", "--graph-access", "author"]) else { panic!("readable") };
    assert_eq!(o.project.as_deref(), Some("/p"));
    assert_eq!(o.state, "/home/x/.local/state/nirdosha");
    assert_eq!(o.access, Access::Author);
    let Ok(o) = parse(&["--state-dir", "/a", "--state-dir", "/b"]) else { panic!("readable") };
    assert_eq!((o.state.as_str(), o.access), ("/b", Access::Read));
    let Ok(o) = Options::parse(&Vec::new(), &None, &Some(s("/xdg")), &Some(s("/home/x"))) else {
        panic!("readable")
    };
    assert_eq!(o.state, "/xdg/nirdosha");
    let Ok(o) = Options::parse(&Vec::new(), &Some(s("/set")), &Some(s("/xdg")), &None) else {
        panic!("readable")
    };
    assert_eq!(o.state, "/set");
}

#[test]
fn options_that_do_not_do_are_refused() {
    let fault = |args: &[&str]| match parse(args) {
        Err(e) => e,
        Ok(_) => panic!("{args:?} should be refused"),
    };
    assert_eq!(fault(&["--project"]), "Missing value for --project");
    assert_eq!(fault(&["--frob", "x"]), "Unknown option --frob");
    assert_eq!(
        fault(&["--graph-access", "owner"]),
        "--graph-access must be read, author or approver"
    );
    assert!(matches!(
        Options::parse(&Vec::new(), &None, &None, &None),
        Err(e) if e == "Specify --state-dir"
    ));
}

#[test]
fn subscribers_are_told_once_for_a_revision() {
    let mut session = Session::new(5);
    session.subscribe("graph://b");
    session.subscribe("graph://a");
    session.subscribe("graph://b");
    assert!(session.notifications(Some(5)).is_empty());
    let told = session.notifications(Some(6));
    let uris: Vec<String> = told
        .iter()
        .map(|n| n.get("params").unwrap().get_text("uri").unwrap().clone())
        .collect();
    assert_eq!(uris, strings(&["graph://a", "graph://b"]));
    assert_eq!(told[0].get_text("method").unwrap(), "notifications/resources/updated");
    assert!(session.notifications(Some(6)).is_empty());
    session.unsubscribe("graph://a");
    assert_eq!(session.notifications(Some(7)).len(), 1);
    assert!(session.notifications(None).is_empty());
    assert!(session.notifications(Some(8)).is_empty(), "an unreadable graph forgets its subscribers");
}

#[test]
fn messages_about_a_graph_are_routed() {
    let none = Json::Null;
    let uri = object(&[("uri", text("graph://a"))]);
    assert!(matches!(dispatch("tools/list", &none), GraphRoute::ToolsList));
    assert!(matches!(
        dispatch("tools/call", &object(&[("name", text("graph_read"))])),
        GraphRoute::CallTool(name) if name == "graph_read"
    ));
    assert!(matches!(
        dispatch("tools/call", &object(&[("name", text("describe"))])),
        GraphRoute::NotMine
    ));
    assert!(matches!(dispatch("resources/list", &none), GraphRoute::Resources));
    assert!(matches!(dispatch("resources/templates/list", &none), GraphRoute::Templates));
    assert!(matches!(dispatch("resources/read", &uri), GraphRoute::Read(u) if u == "graph://a"));
    assert!(matches!(dispatch("resources/subscribe", &none), GraphRoute::Subscribe(u) if u.is_empty()));
    assert!(matches!(dispatch("resources/unsubscribe", &uri), GraphRoute::Unsubscribe(_)));
    assert!(matches!(dispatch("ping", &none), GraphRoute::NotMine));
}

#[test]
fn tools_of_a_graph_stand_behind_the_others() {
    let listed = all_tools(&vec![text("graph_read")]);
    let Some(Json::List(tools)) = listed.get("tools") else { panic!("no tools") };
    assert_eq!(tools.len(), 8);
    assert_eq!(tools[7], text("graph_read"));
    assert_eq!(
        graph_reply(&Json::Int(1), Err((s("gone"), Json::Null))),
        object(&[
            (
                "error",
                object(&[
                    ("code", Json::Int(-32000)),
                    ("message", text("gone")),
                    ("data", Json::Null)
                ])
            ),
            ("jsonrpc", text("2.0")),
            ("id", Json::Int(1)),
        ])
    );
    assert_eq!(
        graph_reply(&text("x"), Ok(Json::Bool(true))),
        object(&[("result", Json::Bool(true)), ("jsonrpc", text("2.0")), ("id", text("x"))])
    );
}

#[test]
fn a_line_is_a_message_or_is_answered() {
    let line = "{\"jsonrpc\":\"2.0\",\"id\":7,\"method\":\"ping\"}";
    let message = match read_line(line) {
        Ok(message) => message,
        Err(_) => panic!("this is a message"),
    };
    assert_eq!(message.id, Some(Json::Number(s("7"))));
    assert_eq!(message.method, "ping");
    assert_eq!(message.params, Json::Null);
    match read_line("not json") {
        Err(answer) => {
            assert_eq!(answer, unreadable_line("expected ident at line 1 column 2"));
            assert_eq!(answer.get("id"), Some(&Json::Null));
        }
        Ok(_) => panic!("this is no message"),
    }
}

//! The messages that an agent sends over standard input.
use super::tools::{tools_json, tools_list};
use crate::json::{copy_json, member, text_member, Fields, Json, JsonView};
use crate::outside::{json_parsed, parse_json};
use crate::text::{same_text, trim, trimmed};
use vstd::prelude::*;

verus! {

/// What an agent is told when it introduces itself.
pub open spec fn initialize_json(version: Seq<char>) -> JsonView {
    JsonView::Object(
        seq![
            ("protocolVersion"@, JsonView::Text("2025-06-18"@)),
            (
                "capabilities"@,
                JsonView::Object(seq![("tools"@, JsonView::Object(Seq::empty()))]),
            ),
            ("serverInfo"@, server_json(version)),
        ],
    )
}

/// What an agent that works on a project is told when it introduces itself: it
/// may subscribe to resources too.
pub open spec fn initialize_project_json(version: Seq<char>) -> JsonView {
    JsonView::Object(
        seq![
            ("protocolVersion"@, JsonView::Text("2025-06-18"@)),
            (
                "capabilities"@,
                JsonView::Object(
                    seq![
                        ("tools"@, JsonView::Object(Seq::empty())),
                        (
                            "resources"@,
                            JsonView::Object(
                                seq![
                                    ("subscribe"@, JsonView::Bool(true)),
                                    ("listChanged"@, JsonView::Bool(false)),
                                ],
                            ),
                        ),
                    ],
                ),
            ),
            ("serverInfo"@, server_json(version)),
        ],
    )
}

pub open spec fn server_json(version: Seq<char>) -> JsonView {
    JsonView::Object(
        seq![("name"@, JsonView::Text("nirdosha-hi"@)), ("version"@, JsonView::Text(version))],
    )
}

/// What this program is, and which version of it.
pub fn server_info(version: &str) -> (out: Json)
    ensures
        out@ == server_json(version@),
{
    let mut fields: Fields = Fields::new();
    fields.put_text("name", "nirdosha-hi");
    fields.put_text("version", version);
    assert(fields@ =~= server_json(version@)->Object_0);
    fields.object()
}

fn write_initialize(version: &str, project: bool) -> (out: Json)
    ensures
        out@ == if project {
            initialize_project_json(version@)
        } else {
            initialize_json(version@)
        },
{
    let none: Fields = Fields::new();
    let mut capabilities: Fields = Fields::new();
    capabilities.put("tools", none.object());
    if project {
        let mut resources: Fields = Fields::new();
        resources.put_bool("subscribe", true);
        resources.put_bool("listChanged", false);
        assert(resources@ =~= seq![
            ("subscribe"@, JsonView::Bool(true)),
            ("listChanged"@, JsonView::Bool(false)),
        ]);
        capabilities.put("resources", resources.object());
    }
    let ghost made = if project {
        initialize_project_json(version@)
    } else {
        initialize_json(version@)
    };
    assert(capabilities@ =~= made->Object_0[1].1->Object_0);
    let mut fields: Fields = Fields::new();
    fields.put_text("protocolVersion", "2025-06-18");
    fields.put("capabilities", capabilities.object());
    fields.put("serverInfo", server_info(version));
    assert(fields@ =~= made->Object_0);
    fields.object()
}

/// What the log is told at the start of a session over standard input.
pub open spec fn stdio_details(version: Seq<char>) -> JsonView {
    JsonView::Object(
        seq![
            ("protocol"@, JsonView::Text("mcp-stdio-2025-06-18"@)),
            ("serverInfo"@, server_json(version)),
        ],
    )
}

/// What the log is told at the start of a session over standard input.
pub fn session_details(version: &str) -> (out: Json)
    ensures
        out@ == stdio_details(version@),
{
    let mut fields: Fields = Fields::new();
    fields.put_text("protocol", "mcp-stdio-2025-06-18");
    fields.put("serverInfo", server_info(version));
    assert(fields@ =~= stdio_details(version@)->Object_0);
    fields.object()
}

/// What a line from an agent comes to.
pub enum LineStep {
    /// Nothing: it is empty.
    Skip,
    /// A message to be read.
    Read(String),
}

/// What a line from an agent comes to.
pub fn take_line(line: &str) -> (out: LineStep)
    ensures
        match out {
            LineStep::Skip => trimmed(line@).len() == 0,
            LineStep::Read(text) => trimmed(line@).len() > 0 && text@ == trimmed(line@),
        },
{
    let text: String = trim(line);
    if text.as_str().is_empty() {
        LineStep::Skip
    } else {
        LineStep::Read(text)
    }
}

/// The method of a message; empty where it names none.
pub open spec fn method_of(request: JsonView) -> Seq<char> {
    match text_member(request, "method"@) {
        Some(m) => m,
        None => Seq::empty(),
    }
}

/// The parameters of a message; null where it has none.
pub open spec fn params_of(request: JsonView) -> JsonView {
    match member(request, "params"@) {
        Some(p) => p,
        None => JsonView::Null,
    }
}

/// A message from an agent. One without an identifier expects no answer.
pub struct RpcMessage {
    pub id: Option<Json>,
    pub method: String,
    pub params: Json,
}

/// Takes a message apart.
pub fn read_message(request: &Json) -> (out: RpcMessage)
    ensures
        match out.id {
            Some(id) => member(request@, "id"@) == Some(id@),
            None => member(request@, "id"@) is None,
        },
        out.method@ == method_of(request@),
        out.params@ == params_of(request@),
{
    let id: Option<Json> = match request.get("id") {
        Some(id) => Some(copy_json(id)),
        None => None,
    };
    let method: String = match request.get_text("method") {
        Some(m) => m.clone(),
        None => String::new(),
    };
    let params: Json = match request.get("params") {
        Some(p) => copy_json(p),
        None => Json::Null,
    };
    RpcMessage { id, method, params }
}

/// What a method asks for.
pub enum Method {
    /// Nothing more: this is the result.
    Result(Json),
    /// That a tool be called.
    CallTool,
    /// Nothing that is known.
    Unknown,
}

/// The methods that are known: the greeting, the sign of life, the list of tools
/// and the call of one.
pub open spec fn is_known(method: Seq<char>) -> bool {
    method == "initialize"@ || method == "ping"@ || method == "tools/list"@ || method
        == "tools/call"@
}

/// The result of a method that needs no tool.
pub open spec fn method_result(method: Seq<char>, version: Seq<char>, project: bool) -> JsonView {
    if method == "initialize"@ {
        if project {
            initialize_project_json(version)
        } else {
            initialize_json(version)
        }
    } else if method == "ping"@ {
        JsonView::Object(Seq::empty())
    } else {
        tools_json()
    }
}

/// What a method asks for. `project` tells whether the agent works on a
/// project.
pub fn mcp_dispatch(method: &str, version: &str, project: bool) -> (out: Method)
    ensures
        match out {
            Method::Result(v) => {
                &&& is_known(method@)
                &&& method@ != "tools/call"@
                &&& v@ == method_result(method@, version@, project)
            },
            Method::CallTool => method@ == "tools/call"@,
            Method::Unknown => !is_known(method@),
        },
{
    proof {
        reveal_strlit("initialize");
        reveal_strlit("ping");
        reveal_strlit("tools/list");
        reveal_strlit("tools/call");
        assert("initialize"@[0] == 'i');
        assert("ping"@[0] == 'p');
        assert("tools/list"@[6] == 'l');
        assert("tools/call"@[6] == 'c');
        assert("tools/call"@[0] == 't');
    }
    if same_text(method, "initialize") {
        Method::Result(write_initialize(version, project))
    } else if same_text(method, "ping") {
        let none: Fields = Fields::new();
        Method::Result(none.object())
    } else if same_text(method, "tools/list") {
        Method::Result(tools_list())
    } else if same_text(method, "tools/call") {
        Method::CallTool
    } else {
        Method::Unknown
    }
}

pub open spec fn unknown_method(method: Seq<char>) -> Seq<char> {
    "method not found: "@ + method
}

fn say_unknown_method(method: &str) -> (out: String)
    ensures
        out@ == unknown_method(method@),
{
    let mut out: String = "method not found: ".to_owned();
    out.append(method);
    out
}

/// The error for a method that is not known.
pub fn method_not_found(method: &str) -> (out: (i64, String))
    ensures
        out.0 == -32601,
        out.1@ == unknown_method(method@),
{
    (-32601, say_unknown_method(method))
}

/// The answer to a message.
pub open spec fn response(id: JsonView, result: Result<JsonView, (int, Seq<char>)>) -> JsonView {
    JsonView::Object(
        seq![
            ("jsonrpc"@, JsonView::Text("2.0"@)),
            ("id"@, id),
            match result {
                Ok(v) => ("result"@, v),
                Err((code, message)) => (
                    "error"@,
                    JsonView::Object(
                        seq![
                            ("code"@, JsonView::Int(code)),
                            ("message"@, JsonView::Text(message)),
                        ],
                    ),
                ),
            },
        ],
    )
}

pub open spec fn result_view(result: Result<Json, (i64, String)>) -> Result<
    JsonView,
    (int, Seq<char>),
> {
    match result {
        Ok(v) => Ok(v@),
        Err((code, message)) => Err((code as int, message@)),
    }
}

fn write_response(id: &Json, result: Result<Json, (i64, String)>) -> (out: Json)
    ensures
        out@ == response(id@, result_view(result)),
{
    let ghost said = result_view(result);
    let mut fields: Fields = Fields::new();
    fields.put_text("jsonrpc", "2.0");
    fields.put("id", copy_json(id));
    match result {
        Ok(v) => fields.put("result", v),
        Err((code, message)) => {
            let mut error: Fields = Fields::new();
            error.put("code", Json::Int(code));
            error.put_text("message", message.as_str());
            assert(error@ =~= response(id@, said)->Object_0[2].1->Object_0);
            fields.put("error", error.object());
        },
    }
    assert(fields@ =~= response(id@, said)->Object_0);
    fields.object()
}

/// The answer to a message, if it expects one.
pub fn respond(id: &Option<Json>, result: Result<Json, (i64, String)>) -> (out: Option<Json>)
    ensures
        match out {
            Some(v) => *id is Some && v@ == response(id->Some_0@, result_view(result)),
            None => *id is None,
        },
{
    match id {
        None => None,
        Some(id) => Some(write_response(id, result)),
    }
}

pub open spec fn parse_error(error: Seq<char>) -> Seq<char> {
    "parse error: "@ + error
}

fn say_parse_error(error: &str) -> (out: String)
    ensures
        out@ == parse_error(error@),
{
    let mut out: String = "parse error: ".to_owned();
    out.append(error);
    out
}

/// The answer to a line that is no message.
pub fn unreadable_line(error: &str) -> (out: Json)
    ensures
        out@ == response(JsonView::Null, Err((-32700, parse_error(error@)))),
{
    write_response(&Json::Null, Err((-32700, say_parse_error(error))))
}

/// Reads a line from an agent: a message, or the answer to a line that is none.
/// The graph service brings a reader of its own for such lines; it is not linked
/// here, and the reader of this library stands for it.
pub fn read_line(text: &str) -> (out: Result<RpcMessage, Json>)
    ensures
        match json_parsed(text@) {
            Ok(request) => out matches Ok(message) && {
                &&& message.method@ == method_of(request)
                &&& message.params@ == params_of(request)
                &&& match message.id {
                    Some(id) => member(request, "id"@) == Some(id@),
                    None => member(request, "id"@) is None,
                }
            },
            Err(e) => out matches Err(answer) && answer@ == response(
                JsonView::Null,
                Err((-32700, parse_error(e))),
            ),
        },
{
    match parse_json(text) {
        Ok(request) => Ok(read_message(&request)),
        Err(e) => Err(unreadable_line(e.as_str())),
    }
}

/// The methods that an agent may ask for: the greeting, the sign of life, the
/// list of tools and the call of one; and the results of those that need no tool.
pub proof fn law_methods(method: Seq<char>, version: Seq<char>, project: bool)
    ensures
        is_known(method) <==> seq![
            "initialize"@,
            "ping"@,
            "tools/list"@,
            "tools/call"@,
        ].contains(method),
        method_result("ping"@, version, project) == JsonView::Object(Seq::empty()),
        method_result("tools/list"@, version, project) == tools_json(),
        ({
            let greeting = method_result("initialize"@, version, project);
            &&& greeting is Object
            &&& greeting->Object_0.len() == 3
            &&& greeting->Object_0[0] == ("protocolVersion"@, JsonView::Text("2025-06-18"@))
            &&& greeting->Object_0[1].0 == "capabilities"@
            &&& greeting->Object_0[1].1 is Object
            &&& greeting->Object_0[1].1->Object_0.len() == if project {
                2int
            } else {
                1
            }
            &&& greeting->Object_0[1].1->Object_0[0] == ("tools"@, JsonView::Object(Seq::empty()))
            &&& project ==> greeting->Object_0[1].1->Object_0[1] == ("resources"@, JsonView::Object(
                seq![
                    ("subscribe"@, JsonView::Bool(true)),
                    ("listChanged"@, JsonView::Bool(false)),
                ],
            ))
            &&& greeting->Object_0[2] == ("serverInfo"@, JsonView::Object(
                seq![
                    ("name"@, JsonView::Text("nirdosha-hi"@)),
                    ("version"@, JsonView::Text(version)),
                ],
            ))
        }),
{
    reveal_strlit("initialize");
    reveal_strlit("ping");
    reveal_strlit("tools/list");
    reveal_strlit("tools/call");
    assert("initialize"@.len() == 10 && "initialize"@[8] == 'z');
    assert("ping"@.len() == 4);
    assert("tools/list"@.len() == 10 && "tools/list"@[8] == 's');
    assert("tools/call"@.len() == 10 && "tools/call"@[8] == 'l');
    let all = seq!["initialize"@, "ping"@, "tools/list"@, "tools/call"@];
    assert(all[0] == "initialize"@ && all[1] == "ping"@ && all[2] == "tools/list"@ && all[3]
        == "tools/call"@);
}

/// The answer to a message carries its identifier, and the result or the error.
pub proof fn law_answers(id: JsonView, v: JsonView, code: int, message: Seq<char>)
    ensures
        response(id, Ok(v)) is Object,
        response(id, Ok(v))->Object_0 == seq![
            ("jsonrpc"@, JsonView::Text("2.0"@)),
            ("id"@, id),
            ("result"@, v),
        ],
        response(id, Err((code, message))) is Object,
        response(id, Err((code, message)))->Object_0 == seq![
            ("jsonrpc"@, JsonView::Text("2.0"@)),
            ("id"@, id),
            (
                "error"@,
                JsonView::Object(
                    seq![
                        ("code"@, JsonView::Int(code)),
                        ("message"@, JsonView::Text(message)),
                    ],
                ),
            ),
        ],
{
}

/// The method and the parameters of a message are what stands under their names.
pub proof fn law_parts_of_a_message(request: JsonView)
    ensures
        text_member(request, "method"@) matches Some(m) ==> method_of(request) == m,
        text_member(request, "method"@) is None ==> method_of(request).len() == 0,
        member(request, "params"@) matches Some(p) ==> params_of(request) == p,
        member(request, "params"@) is None ==> params_of(request) == JsonView::Null,
{
}

/// What this program tells of itself: its name and its version, and at the start
/// of a session the protocol before them.
pub proof fn law_what_the_server_tells(version: Seq<char>, method: Seq<char>)
    ensures
        server_json(version) == JsonView::Object(
            seq![("name"@, JsonView::Text("nirdosha-hi"@)), ("version"@, JsonView::Text(version))],
        ),
        stdio_details(version) == JsonView::Object(
            seq![
                ("protocol"@, JsonView::Text("mcp-stdio-2025-06-18"@)),
                (
                    "serverInfo"@,
                    JsonView::Object(
                        seq![
                            ("name"@, JsonView::Text("nirdosha-hi"@)),
                            ("version"@, JsonView::Text(version)),
                        ],
                    ),
                ),
            ],
        ),
        unknown_method(method) == "method not found: "@ + method,
{
}

/// What is said of a message that cannot be read tells why.
pub proof fn law_what_is_said(a: Seq<char>)
    ensures
        parse_error(a) == "parse error: "@ + a,
{
}

} // verus!

//! The route table.
use crate::api::query::{
    body_param, form_param, form_readable, is_form_readable, is_readable, param, query_param,
    readable,
};
use crate::api::response::{responds_error, ApiResponse};
use crate::composer::decl::opt_text;
use crate::text::{has_prefix, same_text, starts_with};
use vstd::prelude::*;

verus! {

/// The paths that change the project.
pub open spec fn changes_project(path: Seq<char>) -> bool {
    ||| path == "/api/prompt"@
    ||| path == "/api/confirm"@
    ||| path == "/api/delete"@
    ||| path == "/api/edit"@
    ||| path == "/api/attach"@
    ||| path == "/api/waive"@
    ||| path == "/api/unwaive"@
    ||| path == "/api/packs/install"@
    ||| path == "/api/generate"@
    ||| path == "/api/publish"@
    ||| path == "/api/preview/start"@
    ||| path == "/api/preview/stop"@
    ||| path == "/api/screen-register/add"@
    ||| path == "/api/graph/call"@
}

/// Whether a path changes the project.
pub fn is_mutating(path: &str) -> (r: bool)
    ensures
        r == changes_project(path@),
{
    same_text(path, "/api/prompt") || same_text(path, "/api/confirm") || same_text(
        path,
        "/api/delete",
    ) || same_text(path, "/api/edit") || same_text(path, "/api/attach") || same_text(
        path,
        "/api/waive",
    ) || same_text(path, "/api/unwaive") || same_text(path, "/api/packs/install") || same_text(
        path,
        "/api/generate",
    ) || same_text(path, "/api/publish") || same_text(path, "/api/preview/start") || same_text(
        path,
        "/api/preview/stop",
    ) || same_text(path, "/api/screen-register/add") || same_text(path, "/api/graph/call")
}

/// Where a request goes.
#[derive(Debug, PartialEq, Eq, Clone, Copy)]
pub enum Route {
    /// The path changes the project and was not asked for with POST.
    NeedsPost,
    /// The path only reads and was not asked for with GET.
    NeedsGet,
    Page,
    ThreeScript,
    ForceGraphScript,
    TypedGraph,
    Nodes,
    Edges,
    Screens,
    ScreenRegister,
    ScreenRegisterAdd,
    Impact,
    Ask,
    Git,
    Suggest,
    Packs,
    Prompt,
    Confirm,
    Delete,
    Edit,
    Attach,
    Waive,
    Unwaive,
    PackInstall,
    Generate,
    Publish,
    PreviewStart,
    PreviewStop,
    PreviewStatus,
    Unknown,
}

/// The route of a path over the project's own graph.
pub open spec fn table(path: Seq<char>) -> Route {
    if path == "/api/nodes"@ {
        Route::Nodes
    } else if path == "/api/edges"@ {
        Route::Edges
    } else if path == "/api/screens"@ {
        Route::Screens
    } else if path == "/api/screen-register"@ {
        Route::ScreenRegister
    } else if path == "/api/screen-register/add"@ {
        Route::ScreenRegisterAdd
    } else if path == "/api/impact"@ {
        Route::Impact
    } else if path == "/api/ask"@ {
        Route::Ask
    } else if path == "/api/git"@ {
        Route::Git
    } else if path == "/api/suggest"@ {
        Route::Suggest
    } else if path == "/api/packs"@ {
        Route::Packs
    } else if path == "/api/prompt"@ {
        Route::Prompt
    } else if path == "/api/confirm"@ {
        Route::Confirm
    } else if path == "/api/delete"@ {
        Route::Delete
    } else if path == "/api/edit"@ {
        Route::Edit
    } else if path == "/api/attach"@ {
        Route::Attach
    } else if path == "/api/waive"@ {
        Route::Waive
    } else if path == "/api/unwaive"@ {
        Route::Unwaive
    } else if path == "/api/packs/install"@ {
        Route::PackInstall
    } else if path == "/api/generate"@ {
        Route::Generate
    } else if path == "/api/publish"@ {
        Route::Publish
    } else if path == "/api/preview/start"@ {
        Route::PreviewStart
    } else if path == "/api/preview/stop"@ {
        Route::PreviewStop
    } else if path == "/api/preview/status"@ {
        Route::PreviewStatus
    } else {
        Route::Unknown
    }
}

/// Where a request goes: the method is checked first, then the page and its
/// scripts are served, then a typed graph takes every other path.
pub open spec fn routed(method: Seq<char>, path: Seq<char>, typed: bool) -> Route {
    if changes_project(path) && method != "POST"@ {
        Route::NeedsPost
    } else if !changes_project(path) && method != "GET"@ {
        Route::NeedsGet
    } else if path == "/"@ {
        Route::Page
    } else if path == "/assets/three.min.js"@ {
        Route::ThreeScript
    } else if path == "/assets/3d-force-graph.min.js"@ {
        Route::ForceGraphScript
    } else if starts_with(path, "/api/graph/"@) || typed {
        Route::TypedGraph
    } else {
        table(path)
    }
}

fn look_up(path: &str) -> (r: Route)
    ensures
        r == table(path@),
{
    if same_text(path, "/api/nodes") {
        Route::Nodes
    } else if same_text(path, "/api/edges") {
        Route::Edges
    } else if same_text(path, "/api/screens") {
        Route::Screens
    } else if same_text(path, "/api/screen-register") {
        Route::ScreenRegister
    } else if same_text(path, "/api/screen-register/add") {
        Route::ScreenRegisterAdd
    } else if same_text(path, "/api/impact") {
        Route::Impact
    } else if same_text(path, "/api/ask") {
        Route::Ask
    } else if same_text(path, "/api/git") {
        Route::Git
    } else if same_text(path, "/api/suggest") {
        Route::Suggest
    } else if same_text(path, "/api/packs") {
        Route::Packs
    } else if same_text(path, "/api/prompt") {
        Route::Prompt
    } else if same_text(path, "/api/confirm") {
        Route::Confirm
    } else if same_text(path, "/api/delete") {
        Route::Delete
    } else if same_text(path, "/api/edit") {
        Route::Edit
    } else if same_text(path, "/api/attach") {
        Route::Attach
    } else if same_text(path, "/api/waive") {
        Route::Waive
    } else if same_text(path, "/api/unwaive") {
        Route::Unwaive
    } else if same_text(path, "/api/packs/install") {
        Route::PackInstall
    } else if same_text(path, "/api/generate") {
        Route::Generate
    } else if same_text(path, "/api/publish") {
        Route::Publish
    } else if same_text(path, "/api/preview/start") {
        Route::PreviewStart
    } else if same_text(path, "/api/preview/stop") {
        Route::PreviewStop
    } else if same_text(path, "/api/preview/status") {
        Route::PreviewStatus
    } else {
        Route::Unknown
    }
}

/// Where a request goes. `typed` says whether the project keeps a typed graph.
pub fn route(method: &str, path: &str, typed: bool) -> (r: Route)
    ensures
        r == routed(method@, path@, typed),
{
    let mutating: bool = is_mutating(path);
    if mutating && !same_text(method, "POST") {
        Route::NeedsPost
    } else if !mutating && !same_text(method, "GET") {
        Route::NeedsGet
    } else if same_text(path, "/") {
        Route::Page
    } else if same_text(path, "/assets/three.min.js") {
        Route::ThreeScript
    } else if same_text(path, "/assets/3d-force-graph.min.js") {
        Route::ForceGraphScript
    } else if has_prefix(path, "/api/graph/") || typed {
        Route::TypedGraph
    } else {
        look_up(path)
    }
}

/// A route that changes the project is only reached with POST.
pub proof fn law_changes_need_post(method: Seq<char>, path: Seq<char>, typed: bool)
    requires
        changes_project(path),
        method != "POST"@,
    ensures
        routed(method, path, typed) == Route::NeedsPost,
{
}

/// What a request asks to be done.
pub enum Plan {
    /// Nothing: this is the answer.
    Answer(ApiResponse),
    ServePage,
    ServeThree,
    ServeForceGraph,
    TypedGraph,
    ListNodes,
    ListEdges,
    ListScreens,
    ShowRegister,
    AddScreen,
    Impact { unit: String },
    Ask { question: String },
    GitLog { limit: usize },
    GitDiff { rev: String },
    Suggest,
    ListPacks,
    Prompt { text: String },
    ConfirmNode { node: String },
    ConfirmAll,
    Delete { node: String },
    Edit { node: String, text: String },
    Attach { node: String, attr: String },
    Waive { node: String, reason: String },
    Unwaive { node: String },
    InstallPack { pack_id: String },
    Generate { target: Option<String> },
    Publish,
    StartPreview,
    StopPreview,
    PreviewStatus,
}

/// The parameters that a route reads can be decoded.
pub open spec fn plannable(route: Route, query: Seq<char>, body: Seq<u8>) -> bool {
    match route {
        Route::Impact => readable(query, "target"@),
        Route::Ask => readable(query, "q"@),
        Route::Git => readable(query, "op"@) && (param(query, "op"@) == Some("diff"@) ==> readable(
            query,
            "rev"@,
        )),
        Route::Prompt => form_readable(body, "text"@),
        Route::Confirm | Route::Delete | Route::Unwaive => form_readable(body, "node"@),
        Route::Edit => form_readable(body, "node"@) && form_readable(body, "text"@),
        Route::Attach => form_readable(body, "node"@) && form_readable(body, "attr"@),
        Route::Waive => form_readable(body, "node"@) && (form_param(body, "node"@) is Some
            ==> form_readable(body, "reason"@)),
        Route::PackInstall => form_readable(body, "pack_id"@),
        Route::Generate => form_readable(body, "target"@),
        _ => true,
    }
}

/// The plan answers with an error.
pub open spec fn refuses(p: Plan, status: int, message: Seq<char>) -> bool {
    p matches Plan::Answer(r) && responds_error(r, status, message)
}

/// The plan follows from the route and the parameters.
pub open spec fn planned(route: Route, query: Seq<char>, body: Seq<u8>, p: Plan) -> bool {
    match route {
        Route::NeedsPost => refuses(p, 405, "this route only accepts POST"@),
        Route::NeedsGet => refuses(p, 405, "only GET is supported"@),
        Route::Page => p is ServePage,
        Route::ThreeScript => p is ServeThree,
        Route::ForceGraphScript => p is ServeForceGraph,
        Route::TypedGraph => p is TypedGraph,
        Route::Nodes => p is ListNodes,
        Route::Edges => p is ListEdges,
        Route::Screens => p is ListScreens,
        Route::ScreenRegister => p is ShowRegister,
        Route::ScreenRegisterAdd => p is AddScreen,
        Route::Impact => match param(query, "target"@) {
            Some(t) => p matches Plan::Impact { unit } && unit@ == t,
            None => refuses(p, 400, "missing required query param `target`"@),
        },
        Route::Ask => match param(query, "q"@) {
            Some(q) => p matches Plan::Ask { question } && question@ == q,
            None => refuses(p, 400, "missing required query param `q`"@),
        },
        Route::Git => match param(query, "op"@) {
            None => p matches Plan::GitLog { limit } && limit == 50,
            Some(op) => if op == "diff"@ {
                match param(query, "rev"@) {
                    Some(r) => p matches Plan::GitDiff { rev } && rev@ == r,
                    None => refuses(p, 400, "?op=diff needs a `rev` query param"@),
                }
            } else if op == "log"@ {
                p matches Plan::GitLog { limit } && limit == 50
            } else {
                refuses(
                    p,
                    400,
                    "unknown ?op="@ + op + " -- expected `log` (default) or `diff`"@,
                )
            },
        },
        Route::Suggest => p is Suggest,
        Route::Packs => p is ListPacks,
        Route::Prompt => match form_param(body, "text"@) {
            Some(t) => p matches Plan::Prompt { text } && text@ == t,
            None => refuses(p, 400, "missing required body param `text`"@),
        },
        Route::Confirm => match form_param(body, "node"@) {
            Some(n) => p matches Plan::ConfirmNode { node } && node@ == n,
            None => p is ConfirmAll,
        },
        Route::Delete => match form_param(body, "node"@) {
            Some(n) => p matches Plan::Delete { node } && node@ == n,
            None => refuses(p, 400, "missing required body param `node`"@),
        },
        Route::Edit => match (form_param(body, "node"@), form_param(body, "text"@)) {
            (Some(n), Some(t)) => p matches Plan::Edit { node, text } && node@ == n && text@ == t,
            _ => refuses(p, 400, "missing required body params `node`/`text`"@),
        },
        Route::Attach => match (form_param(body, "node"@), form_param(body, "attr"@)) {
            (Some(n), Some(a)) => p matches Plan::Attach { node, attr } && node@ == n && attr@ == a,
            _ => refuses(p, 400, "missing required body params `node`/`attr`"@),
        },
        Route::Waive => match form_param(body, "node"@) {
            Some(n) => p matches Plan::Waive { node, reason } && node@ == n && reason@
                == crate::composer::entities::or_empty(form_param(body, "reason"@)),
            None => refuses(p, 400, "missing required body param `node`"@),
        },
        Route::Unwaive => match form_param(body, "node"@) {
            Some(n) => p matches Plan::Unwaive { node } && node@ == n,
            None => refuses(p, 400, "missing required body param `node`"@),
        },
        Route::PackInstall => match form_param(body, "pack_id"@) {
            Some(id) => p matches Plan::InstallPack { pack_id } && pack_id@ == id,
            None => refuses(p, 400, "missing required field `pack_id`"@),
        },
        Route::Generate => p matches Plan::Generate { target } && opt_text(target) == form_param(
            body,
            "target"@,
        ),
        Route::Publish => p is Publish,
        Route::PreviewStart => p is StartPreview,
        Route::PreviewStop => p is StopPreview,
        Route::PreviewStatus => p is PreviewStatus,
        Route::Unknown => refuses(p, 404, "not found"@),
    }
}

fn refuse(status: u16, message: &str) -> (p: Plan)
    ensures
        refuses(p, status as int, message@),
{
    Plan::Answer(ApiResponse::error(status, message))
}

fn plan_git(query: &str) -> (p: Plan)
    requires
        plannable(Route::Git, query@, Seq::empty()),
    ensures
        planned(Route::Git, query@, Seq::empty(), p),
{
    match query_param(query, "op") {
        None => Plan::GitLog { limit: 50 },
        Some(op) => {
            if same_text(op.as_str(), "diff") {
                match query_param(query, "rev") {
                    Some(rev) => Plan::GitDiff { rev },
                    None => refuse(400, "?op=diff needs a `rev` query param"),
                }
            } else if same_text(op.as_str(), "log") {
                Plan::GitLog { limit: 50 }
            } else {
                let mut msg: String = "unknown ?op=".to_owned();
                msg.append(op.as_str());
                msg.append(" -- expected `log` (default) or `diff`");
                refuse(400, msg.as_str())
            }
        },
    }
}

/// What a routed request asks to be done.
pub fn plan(route: Route, query: &str, body: &[u8]) -> (p: Plan)
    requires
        plannable(route, query@, body@),
    ensures
        planned(route, query@, body@, p),
{
    match route {
        Route::NeedsPost => refuse(405, "this route only accepts POST"),
        Route::NeedsGet => refuse(405, "only GET is supported"),
        Route::Page => Plan::ServePage,
        Route::ThreeScript => Plan::ServeThree,
        Route::ForceGraphScript => Plan::ServeForceGraph,
        Route::TypedGraph => Plan::TypedGraph,
        Route::Nodes => Plan::ListNodes,
        Route::Edges => Plan::ListEdges,
        Route::Screens => Plan::ListScreens,
        Route::ScreenRegister => Plan::ShowRegister,
        Route::ScreenRegisterAdd => Plan::AddScreen,
        Route::Impact => match query_param(query, "target") {
            Some(unit) => Plan::Impact { unit },
            None => refuse(400, "missing required query param `target`"),
        },
        Route::Ask => match query_param(query, "q") {
            Some(question) => Plan::Ask { question },
            None => refuse(400, "missing required query param `q`"),
        },
        Route::Git => plan_git(query),
        Route::Suggest => Plan::Suggest,
        Route::Packs => Plan::ListPacks,
        Route::Prompt => match body_param(body, "text") {
            Some(text) => Plan::Prompt { text },
            None => refuse(400, "missing required body param `text`"),
        },
        Route::Confirm => match body_param(body, "node") {
            Some(node) => Plan::ConfirmNode { node },
            None => Plan::ConfirmAll,
        },
        Route::Delete => match body_param(body, "node") {
            Some(node) => Plan::Delete { node },
            None => refuse(400, "missing required body param `node`"),
        },
        Route::Edit => {
            let text: Option<String> = body_param(body, "text");
            match body_param(body, "node") {
                Some(node) => match text {
                    Some(text) => Plan::Edit { node, text },
                    None => refuse(400, "missing required body params `node`/`text`"),
                },
                None => refuse(400, "missing required body params `node`/`text`"),
            }
        },
        Route::Attach => {
            let attr: Option<String> = body_param(body, "attr");
            match body_param(body, "node") {
                Some(node) => match attr {
                    Some(attr) => Plan::Attach { node, attr },
                    None => refuse(400, "missing required body params `node`/`attr`"),
                },
                None => refuse(400, "missing required body params `node`/`attr`"),
            }
        },
        Route::Waive => match body_param(body, "node") {
            Some(node) => {
                let reason: String = match body_param(body, "reason") {
                    Some(reason) => reason,
                    None => String::new(),
                };
                Plan::Waive { node, reason }
            },
            None => refuse(400, "missing required body param `node`"),
        },
        Route::Unwaive => match body_param(body, "node") {
            Some(node) => Plan::Unwaive { node },
            None => refuse(400, "missing required body param `node`"),
        },
        Route::PackInstall => match body_param(body, "pack_id") {
            Some(pack_id) => Plan::InstallPack { pack_id },
            None => refuse(400, "missing required field `pack_id`"),
        },
        Route::Generate => Plan::Generate { target: body_param(body, "target") },
        Route::Publish => Plan::Publish,
        Route::PreviewStart => Plan::StartPreview,
        Route::PreviewStop => Plan::StopPreview,
        Route::PreviewStatus => Plan::PreviewStatus,
        Route::Unknown => refuse(404, "not found"),
    }
}

/// Whether the parameters that a route reads can be decoded.
pub fn is_plannable(route: Route, query: &str, body: &[u8]) -> (r: bool)
    ensures
        r == plannable(route, query@, body@),
{
    match route {
        Route::Impact => is_readable(query, "target"),
        Route::Ask => is_readable(query, "q"),
        Route::Git => {
            if !is_readable(query, "op") {
                return false;
            }
            match query_param(query, "op") {
                Some(op) => !same_text(op.as_str(), "diff") || is_readable(query, "rev"),
                None => true,
            }
        },
        Route::Prompt => is_form_readable(body, "text"),
        Route::Confirm => is_form_readable(body, "node"),
        Route::Delete => is_form_readable(body, "node"),
        Route::Unwaive => is_form_readable(body, "node"),
        Route::Edit => is_form_readable(body, "node") && is_form_readable(body, "text"),
        Route::Attach => is_form_readable(body, "node") && is_form_readable(body, "attr"),
        Route::Waive => {
            if !is_form_readable(body, "node") {
                return false;
            }
            match body_param(body, "node") {
                Some(_) => is_form_readable(body, "reason"),
                None => true,
            }
        },
        Route::PackInstall => is_form_readable(body, "pack_id"),
        Route::Generate => is_form_readable(body, "target"),
        _ => true,
    }
}

/// What a routed request asks to be done; nothing where a parameter that the
/// route reads cannot be decoded.
pub fn plan_request(route: Route, query: &str, body: &[u8]) -> (out: Option<Plan>)
    ensures
        match out {
            Some(p) => plannable(route, query@, body@) && planned(route, query@, body@, p),
            None => !plannable(route, query@, body@),
        },
{
    if is_plannable(route, query, body) {
        Some(plan(route, query, body))
    } else {
        None
    }
}

/// The paths that change the project, one by one.
pub proof fn law_paths_that_change(path: Seq<char>)
    ensures
        changes_project(path) <==> seq![
            "/api/prompt"@,
            "/api/confirm"@,
            "/api/delete"@,
            "/api/edit"@,
            "/api/attach"@,
            "/api/waive"@,
            "/api/unwaive"@,
            "/api/packs/install"@,
            "/api/generate"@,
            "/api/publish"@,
            "/api/preview/start"@,
            "/api/preview/stop"@,
            "/api/screen-register/add"@,
            "/api/graph/call"@,
        ].contains(path),
{
    let all = seq![
        "/api/prompt"@,
        "/api/confirm"@,
        "/api/delete"@,
        "/api/edit"@,
        "/api/attach"@,
        "/api/waive"@,
        "/api/unwaive"@,
        "/api/packs/install"@,
        "/api/generate"@,
        "/api/publish"@,
        "/api/preview/start"@,
        "/api/preview/stop"@,
        "/api/screen-register/add"@,
        "/api/graph/call"@,
    ];
    assert(all[0] == "/api/prompt"@);
    assert(all[1] == "/api/confirm"@);
    assert(all[2] == "/api/delete"@);
    assert(all[3] == "/api/edit"@);
    assert(all[4] == "/api/attach"@);
    assert(all[5] == "/api/waive"@);
    assert(all[6] == "/api/unwaive"@);
    assert(all[7] == "/api/packs/install"@);
    assert(all[8] == "/api/generate"@);
    assert(all[9] == "/api/publish"@);
    assert(all[10] == "/api/preview/start"@);
    assert(all[11] == "/api/preview/stop"@);
    assert(all[12] == "/api/screen-register/add"@);
    assert(all[13] == "/api/graph/call"@);
}

/// The route of each path over the project's own graph; any other is unknown.
pub proof fn law_paths_of_the_project(path: Seq<char>)
    ensures
        table("/api/nodes"@) == Route::Nodes,
        table("/api/edges"@) == Route::Edges,
        table("/api/screens"@) == Route::Screens,
        table("/api/screen-register"@) == Route::ScreenRegister,
        table("/api/screen-register/add"@) == Route::ScreenRegisterAdd,
        table("/api/impact"@) == Route::Impact,
        table("/api/ask"@) == Route::Ask,
        table("/api/git"@) == Route::Git,
        table("/api/suggest"@) == Route::Suggest,
        table("/api/packs"@) == Route::Packs,
        table("/api/prompt"@) == Route::Prompt,
        table("/api/confirm"@) == Route::Confirm,
        table("/api/delete"@) == Route::Delete,
        table("/api/edit"@) == Route::Edit,
        table("/api/attach"@) == Route::Attach,
        table("/api/waive"@) == Route::Waive,
        table("/api/unwaive"@) == Route::Unwaive,
        table("/api/packs/install"@) == Route::PackInstall,
        table("/api/generate"@) == Route::Generate,
        table("/api/publish"@) == Route::Publish,
        table("/api/preview/start"@) == Route::PreviewStart,
        table("/api/preview/stop"@) == Route::PreviewStop,
        table("/api/preview/status"@) == Route::PreviewStatus,
        (path != "/api/nodes"@
            && path != "/api/edges"@
            && path != "/api/screens"@
            && path != "/api/screen-register"@
            && path != "/api/screen-register/add"@
            && path != "/api/impact"@
            && path != "/api/ask"@
            && path != "/api/git"@
            && path != "/api/suggest"@
            && path != "/api/packs"@
            && path != "/api/prompt"@
            && path != "/api/confirm"@
            && path != "/api/delete"@
            && path != "/api/edit"@
            && path != "/api/attach"@
            && path != "/api/waive"@
            && path != "/api/unwaive"@
            && path != "/api/packs/install"@
            && path != "/api/generate"@
            && path != "/api/publish"@
            && path != "/api/preview/start"@
            && path != "/api/preview/stop"@
            && path != "/api/preview/status"@) ==> table(path) == Route::Unknown,
{
    reveal_strlit("/api/nodes");
    reveal_strlit("/api/edges");
    reveal_strlit("/api/screens");
    reveal_strlit("/api/screen-register");
    reveal_strlit("/api/screen-register/add");
    reveal_strlit("/api/impact");
    reveal_strlit("/api/ask");
    reveal_strlit("/api/git");
    reveal_strlit("/api/suggest");
    reveal_strlit("/api/packs");
    reveal_strlit("/api/prompt");
    reveal_strlit("/api/confirm");
    reveal_strlit("/api/delete");
    reveal_strlit("/api/edit");
    reveal_strlit("/api/attach");
    reveal_strlit("/api/waive");
    reveal_strlit("/api/unwaive");
    reveal_strlit("/api/packs/install");
    reveal_strlit("/api/generate");
    reveal_strlit("/api/publish");
    reveal_strlit("/api/preview/start");
    reveal_strlit("/api/preview/stop");
    reveal_strlit("/api/preview/status");
    assert("/api/nodes"@.len() == 10 && "/api/nodes"@[7] == 'd');
    assert("/api/edges"@.len() == 10 && "/api/edges"@[7] == 'g');
    assert("/api/screens"@.len() == 12 && "/api/screens"@[7] == 'r');
    assert("/api/screen-register"@.len() == 20);
    assert("/api/screen-register/add"@.len() == 24);
    assert("/api/impact"@.len() == 11 && "/api/impact"@[7] == 'p');
    assert("/api/ask"@.len() == 8 && "/api/ask"@[7] == 'k');
    assert("/api/git"@.len() == 8 && "/api/git"@[7] == 't');
    assert("/api/suggest"@.len() == 12 && "/api/suggest"@[7] == 'g');
    assert("/api/packs"@.len() == 10 && "/api/packs"@[7] == 'c');
    assert("/api/prompt"@.len() == 11 && "/api/prompt"@[7] == 'o');
    assert("/api/confirm"@.len() == 12 && "/api/confirm"@[7] == 'n');
    assert("/api/delete"@.len() == 11 && "/api/delete"@[7] == 'l');
    assert("/api/edit"@.len() == 9);
    assert("/api/attach"@.len() == 11 && "/api/attach"@[7] == 't');
    assert("/api/waive"@.len() == 10 && "/api/waive"@[7] == 'i');
    assert("/api/unwaive"@.len() == 12 && "/api/unwaive"@[7] == 'w');
    assert("/api/packs/install"@.len() == 18 && "/api/packs/install"@[7] == 'c');
    assert("/api/generate"@.len() == 13);
    assert("/api/publish"@.len() == 12 && "/api/publish"@[7] == 'b');
    assert("/api/preview/start"@.len() == 18 && "/api/preview/start"@[7] == 'e');
    assert("/api/preview/stop"@.len() == 17);
    assert("/api/preview/status"@.len() == 19);
}

/// Where a request goes: a change has to be posted and anything else to be got;
/// the page and its scripts come before a typed graph, which takes every other
/// path where there is one, and its own paths in any case.
pub proof fn law_where_a_request_goes(method: Seq<char>, path: Seq<char>, typed: bool)
    ensures
        changes_project(path) && method != "POST"@ ==> routed(method, path, typed)
            == Route::NeedsPost,
        !changes_project(path) && method != "GET"@ ==> routed(method, path, typed)
            == Route::NeedsGet,
        ({
            let allowed = if changes_project(path) {
                method == "POST"@
            } else {
                method == "GET"@
            };
            allowed ==> {
                &&& path == "/"@ ==> routed(method, path, typed) == Route::Page
                &&& path == "/assets/three.min.js"@ ==> routed(method, path, typed)
                    == Route::ThreeScript
                &&& path == "/assets/3d-force-graph.min.js"@ ==> routed(method, path, typed)
                    == Route::ForceGraphScript
                &&& path != "/"@ && path != "/assets/three.min.js"@ && path
                    != "/assets/3d-force-graph.min.js"@ ==> routed(method, path, typed) == if typed
                    || starts_with(path, "/api/graph/"@) {
                    Route::TypedGraph
                } else {
                    table(path)
                }
            }
        }),
{
    reveal_strlit("/");
    reveal_strlit("/assets/three.min.js");
    reveal_strlit("/assets/3d-force-graph.min.js");
    assert("/"@.len() == 1);
    assert("/assets/three.min.js"@.len() == 20);
    assert("/assets/3d-force-graph.min.js"@.len() == 29);
}

/// What a request about a node asks for names the node that it is given, and is
/// refused without one. A confirmation without a node is of all of them, and a
/// waiver without a reason has an empty one.
pub proof fn law_requests_about_nodes(query: Seq<char>, body: Seq<u8>, p: Plan)
    ensures
        form_param(body, "node"@) matches Some(n) ==> {
            &&& planned(Route::Delete, query, body, p) ==> p is Delete && p->Delete_node@ == n
            &&& planned(Route::Confirm, query, body, p) ==> p is ConfirmNode
                && p->ConfirmNode_node@ == n
            &&& planned(Route::Unwaive, query, body, p) ==> p is Unwaive && p->Unwaive_node@ == n
            &&& planned(Route::Waive, query, body, p) ==> {
                &&& p is Waive
                &&& p->Waive_node@ == n
                &&& form_param(body, "reason"@) matches Some(r) ==> p->reason@ == r
                &&& form_param(body, "reason"@) is None ==> p->reason@.len() == 0
            }
            &&& form_param(body, "text"@) matches Some(t) ==> (planned(Route::Edit, query, body, p)
                ==> p is Edit && p->Edit_node@ == n && p->Edit_text@ == t)
            &&& form_param(body, "attr"@) matches Some(a) ==> (planned(
                Route::Attach,
                query,
                body,
                p,
            ) ==> p is Attach && p->Attach_node@ == n && p->attr@ == a)
        },
        form_param(body, "node"@) is None ==> {
            &&& planned(Route::Confirm, query, body, p) ==> p is ConfirmAll
            &&& planned(Route::Delete, query, body, p) ==> p is Answer && p->Answer_0.status == 400
            &&& planned(Route::Unwaive, query, body, p) ==> p is Answer && p->Answer_0.status == 400
            &&& planned(Route::Waive, query, body, p) ==> p is Answer && p->Answer_0.status == 400
            &&& planned(Route::Edit, query, body, p) ==> p is Answer && p->Answer_0.status == 400
            &&& planned(Route::Attach, query, body, p) ==> p is Answer && p->Answer_0.status == 400
        },
        form_param(body, "text"@) is None ==> (planned(Route::Edit, query, body, p) ==> p is Answer
            && p->Answer_0.status == 400),
        form_param(body, "attr"@) is None ==> (planned(Route::Attach, query, body, p)
            ==> p is Answer && p->Answer_0.status == 400),
{
}

/// What any other request asks for, with the parameters that it is given.
pub proof fn law_other_requests(query: Seq<char>, body: Seq<u8>, p: Plan)
    ensures
        planned(Route::NeedsPost, query, body, p) ==> p is Answer && p->Answer_0.status == 405,
        planned(Route::NeedsGet, query, body, p) ==> p is Answer && p->Answer_0.status == 405,
        planned(Route::Unknown, query, body, p) ==> p is Answer && p->Answer_0.status == 404,
        planned(Route::Page, query, body, p) ==> p is ServePage,
        planned(Route::ThreeScript, query, body, p) ==> p is ServeThree,
        planned(Route::ForceGraphScript, query, body, p) ==> p is ServeForceGraph,
        planned(Route::TypedGraph, query, body, p) ==> p is TypedGraph,
        planned(Route::Nodes, query, body, p) ==> p is ListNodes,
        planned(Route::Edges, query, body, p) ==> p is ListEdges,
        planned(Route::Screens, query, body, p) ==> p is ListScreens,
        planned(Route::ScreenRegister, query, body, p) ==> p is ShowRegister,
        planned(Route::ScreenRegisterAdd, query, body, p) ==> p is AddScreen,
        planned(Route::Suggest, query, body, p) ==> p is Suggest,
        planned(Route::Packs, query, body, p) ==> p is ListPacks,
        planned(Route::Publish, query, body, p) ==> p is Publish,
        planned(Route::PreviewStart, query, body, p) ==> p is StartPreview,
        planned(Route::PreviewStop, query, body, p) ==> p is StopPreview,
        planned(Route::PreviewStatus, query, body, p) ==> p is PreviewStatus,
        planned(Route::Impact, query, body, p) ==> match param(query, "target"@) {
            Some(t) => p is Impact && p->unit@ == t,
            None => p is Answer && p->Answer_0.status == 400,
        },
        planned(Route::Ask, query, body, p) ==> match param(query, "q"@) {
            Some(q) => p is Ask && p->question@ == q,
            None => p is Answer && p->Answer_0.status == 400,
        },
        planned(Route::Prompt, query, body, p) ==> match form_param(body, "text"@) {
            Some(t) => p is Prompt && p->Prompt_text@ == t,
            None => p is Answer && p->Answer_0.status == 400,
        },
        planned(Route::PackInstall, query, body, p) ==> match form_param(body, "pack_id"@) {
            Some(id) => p is InstallPack && p->pack_id@ == id,
            None => p is Answer && p->Answer_0.status == 400,
        },
        planned(Route::Generate, query, body, p) ==> p is Generate && opt_text(p->target)
            == form_param(body, "target"@),
        planned(Route::Git, query, body, p) ==> {
            &&& param(query, "op"@) is None || param(query, "op"@) == Some("log"@) ==> p is GitLog
                && p->limit == 50
            &&& param(query, "op"@) == Some("diff"@) ==> match param(query, "rev"@) {
                Some(r) => p is GitDiff && p->rev@ == r,
                None => p is Answer && p->Answer_0.status == 400,
            }
            &&& param(query, "op"@) matches Some(op) ==> op != "log"@ && op != "diff"@
                ==> p is Answer && p->Answer_0.status == 400
        },
{
    reveal_strlit("log");
    reveal_strlit("diff");
    assert("log"@.len() == 3);
    assert("diff"@.len() == 4);
}

/// Whether a request can be planned rests on the parameters that its route reads
/// and on no others.
pub proof fn law_what_a_route_reads(query: Seq<char>, body: Seq<u8>)
    ensures
        plannable(Route::Impact, query, body) <==> readable(query, "target"@),
        plannable(Route::Ask, query, body) <==> readable(query, "q"@),
        plannable(Route::Git, query, body) <==> readable(query, "op"@) && (readable(query, "rev"@)
            || param(query, "op"@) != Some("diff"@)),
        plannable(Route::Prompt, query, body) <==> form_readable(body, "text"@),
        plannable(Route::Confirm, query, body) <==> form_readable(body, "node"@),
        plannable(Route::Delete, query, body) <==> form_readable(body, "node"@),
        plannable(Route::Unwaive, query, body) <==> form_readable(body, "node"@),
        plannable(Route::Edit, query, body) <==> form_readable(body, "node"@) && form_readable(
            body,
            "text"@,
        ),
        plannable(Route::Attach, query, body) <==> form_readable(body, "node"@) && form_readable(
            body,
            "attr"@,
        ),
        plannable(Route::Waive, query, body) <==> form_readable(body, "node"@) && (form_readable(
            body,
            "reason"@,
        ) || form_param(body, "node"@) is None),
        plannable(Route::PackInstall, query, body) <==> form_readable(body, "pack_id"@),
        plannable(Route::Generate, query, body) <==> form_readable(body, "target"@),
{
}

} // verus!

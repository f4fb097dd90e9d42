//! Work on the graph of a project: how it is asked for, and what it is told
//! about.
use crate::composer::decl::opt_text;
use crate::json::{
    copy_items, copy_json, list_push, list_views, text_member, Fields, Json, JsonView,
};
use crate::mcp::tools::{tools, tools_list};
use crate::paths::{join_path, joined};
use crate::text::{has_prefix, same_text, starts_with, texts};
use crate::text_set::{
    ascending, find_slot, law_adding_keeps_order, law_taking_away_removes, with_text, without_text,
};
use vstd::prelude::*;

verus! {

/// What may be done to a graph.
#[derive(Clone, Copy, Debug, PartialEq, Eq, Structural)]
pub enum Access {
    Read,
    Author,
    Reviewer,
}

/// Which graph is worked on, where its state is kept, and what may be done to
/// it.
pub struct Options {
    pub project: Option<String>,
    pub state: String,
    pub access: Access,
}

/// What an option list says so far.
#[verifier::ext_equal]
pub struct OptionsView {
    pub project: Option<Seq<char>>,
    pub state: Seq<char>,
    pub mode: Seq<char>,
}

pub open spec fn missing_value(flag: Seq<char>) -> Seq<char> {
    "Missing value for "@ + flag
}

fn say_missing_value(flag: &str) -> (out: String)
    ensures
        out@ == missing_value(flag@),
{
    let mut out: String = "Missing value for ".to_owned();
    out.append(flag);
    out
}

pub open spec fn unknown_option(flag: Seq<char>) -> Seq<char> {
    "Unknown option "@ + flag
}

fn say_unknown_option(flag: &str) -> (out: String)
    ensures
        out@ == unknown_option(flag@),
{
    let mut out: String = "Unknown option ".to_owned();
    out.append(flag);
    out
}

pub const NO_STATE_DIR: &'static str = "Specify --state-dir";

/// The mode that asks for a kind of access.
pub open spec fn mode_of(access: Access) -> Seq<char> {
    match access {
        Access::Read => "read"@,
        Access::Author => "author"@,
        Access::Reviewer => "approver"@,
    }
}

pub const BAD_ACCESS: &'static str = "--graph-access must be read, author or approver";

/// Where the state of graphs is kept where no option says so: where the
/// settings say, else in the home directory.
pub open spec fn default_state(
    setting: Option<Seq<char>>,
    xdg: Option<Seq<char>>,
    home: Option<Seq<char>>,
) -> Option<Seq<char>> {
    match setting {
        Some(s) => Some(s),
        None => match xdg {
            Some(x) => Some(joined(x, "nirdosha"@)),
            None => match home {
                Some(h) => Some(joined(h, ".local/state/nirdosha"@)),
                None => None,
            },
        },
    }
}

fn find_state(setting: &Option<String>, xdg: &Option<String>, home: &Option<String>) -> (out: Option<
    String,
>)
    ensures
        opt_text(out) == default_state(opt_text(*setting), opt_text(*xdg), opt_text(*home)),
{
    match setting {
        Some(s) => Some(s.clone()),
        None => match xdg {
            Some(x) => Some(join_path(x.as_str(), "nirdosha")),
            None => match home {
                Some(h) => Some(join_path(h.as_str(), ".local/state/nirdosha")),
                None => None,
            },
        },
    }
}

/// What an option list says, from an argument on: options and values by turns,
/// the later of two counts.
pub open spec fn read_options(args: Seq<Seq<char>>, from: nat, so_far: OptionsView) -> Result<
    OptionsView,
    Seq<char>,
>
    decreases args.len() + 1 - from,
{
    if from >= args.len() {
        Ok(so_far)
    } else if from + 1 >= args.len() {
        Err(missing_value(args[from as int]))
    } else {
        let flag = args[from as int];
        let value = args[from as int + 1];
        if flag == "--project"@ {
            read_options(args, from + 2, OptionsView { project: Some(value), ..so_far })
        } else if flag == "--state-dir"@ {
            read_options(args, from + 2, OptionsView { state: value, ..so_far })
        } else if flag == "--graph-access"@ {
            read_options(args, from + 2, OptionsView { mode: value, ..so_far })
        } else {
            Err(unknown_option(flag))
        }
    }
}

/// The kind of access that a mode asks for.
pub open spec fn access_of(mode: Seq<char>) -> Option<Access> {
    if mode == mode_of(Access::Read) {
        Some(Access::Read)
    } else if mode == mode_of(Access::Author) {
        Some(Access::Author)
    } else if mode == mode_of(Access::Reviewer) {
        Some(Access::Reviewer)
    } else {
        None
    }
}

/// Each kind of access is asked for by its own mode.
pub proof fn law_modes_are_unambiguous(access: Access)
    ensures
        access_of(mode_of(access)) == Some(access),
{
    reveal_strlit("read");
    reveal_strlit("author");
    reveal_strlit("approver");
    assert(mode_of(Access::Read).len() == 4);
    assert(mode_of(Access::Author).len() == 6);
    assert(mode_of(Access::Reviewer).len() == 8);
}

fn read_access(mode: &str) -> (out: Option<Access>)
    ensures
        out == access_of(mode@),
{
    if same_text(mode, "read") {
        Some(Access::Read)
    } else if same_text(mode, "author") {
        Some(Access::Author)
    } else if same_text(mode, "approver") {
        Some(Access::Reviewer)
    } else {
        None
    }
}

/// The options that an option list stands for, or what is wrong with it.
pub open spec fn options_of(
    args: Seq<Seq<char>>,
    setting: Option<Seq<char>>,
    xdg: Option<Seq<char>>,
    home: Option<Seq<char>>,
) -> Result<(Option<Seq<char>>, Seq<char>, Access), Seq<char>> {
    match default_state(setting, xdg, home) {
        None => Err(NO_STATE_DIR@),
        Some(state) => match read_options(
            args,
            0,
            OptionsView { project: None, state, mode: mode_of(Access::Read) },
        ) {
            Err(e) => Err(e),
            Ok(o) => match access_of(o.mode) {
                None => Err(BAD_ACCESS@),
                Some(access) => Ok((o.project, o.state, access)),
            },
        },
    }
}

impl Options {
    /// Reads an option list. The settings say where the state of graphs is
    /// kept where no option does. What comes back on a fault is the message of
    /// a `SCHEMA_INVALID` error.
    pub fn parse(
        args: &Vec<String>,
        setting: &Option<String>,
        xdg: &Option<String>,
        home: &Option<String>,
    ) -> (out: Result<Options, String>)
        ensures
            ({
                let read = options_of(
                    texts(args@),
                    opt_text(*setting),
                    opt_text(*xdg),
                    opt_text(*home),
                );
                match out {
                    Ok(o) => read == Ok::<(Option<Seq<char>>, Seq<char>, Access), Seq<char>>(
                        (opt_text(o.project), o.state@, o.access),
                    ),
                    Err(e) => read == Err::<(Option<Seq<char>>, Seq<char>, Access), Seq<char>>(e@),
                }
            }),
    {
        let mut state: String = match find_state(setting, xdg, home) {
            Some(s) => s,
            None => {
                return Err(NO_STATE_DIR.to_owned());
            },
        };
        let mut project: Option<String> = None;
        let mut mode: String = "read".to_owned();
        let ghost views = texts(args@);
        let ghost start = OptionsView { project: None, state: state@, mode: mode_of(Access::Read) };
        let n: usize = args.len();
        let mut i: usize = 0;
        assert(views.len() == n);
        while i < n
            invariant
                i <= n,
                n == args@.len(),
                views == texts(args@),
                views.len() == n,
                options_of(views, opt_text(*setting), opt_text(*xdg), opt_text(*home)) == (
                match read_options(views, 0, start) {
                    Err(e) => Err(e),
                    Ok(o) => match access_of(o.mode) {
                        None => Err(BAD_ACCESS@),
                        Some(access) => Ok((o.project, o.state, access)),
                    },
                }),
                read_options(views, 0, start) == read_options(
                    views,
                    i as nat,
                    OptionsView { project: opt_text(project), state: state@, mode: mode@ },
                ),
            decreases n - i,
        {
            assert(views[i as int] == args@[i as int]@);
            if n - i < 2 {
                return Err(say_missing_value(args[i].as_str()));
            }
            assert(views[i + 1] == args@[i + 1]@);
            let flag: &str = args[i].as_str();
            let value: String = args[i + 1].clone();
            if same_text(flag, "--project") {
                project = Some(value);
            } else if same_text(flag, "--state-dir") {
                state = value;
            } else if same_text(flag, "--graph-access") {
                mode = value;
            } else {
                return Err(say_unknown_option(flag));
            }
            i += 2;
        }
        match read_access(mode.as_str()) {
            None => Err(BAD_ACCESS.to_owned()),
            Some(access) => Ok(Options { project, state, access }),
        }
    }
}

/// A session of work on a graph: the resources that the agent wants to be told
/// about, in dictionary order and none twice, and the revision that it last was
/// at.
pub struct Session {
    subscriptions: Vec<String>,
    last_revision: u64,
}

#[verifier::ext_equal]
pub struct SessionView {
    pub subscriptions: Seq<Seq<char>>,
    pub last_revision: nat,
}

impl View for Session {
    type V = SessionView;

    closed spec fn view(&self) -> SessionView {
        SessionView {
            subscriptions: texts(self.subscriptions@),
            last_revision: self.last_revision as nat,
        }
    }
}

/// What an agent is told when a resource has changed.
pub open spec fn updated_json(uri: Seq<char>) -> JsonView {
    JsonView::Object(
        seq![
            ("jsonrpc"@, JsonView::Text("2.0"@)),
            ("method"@, JsonView::Text("notifications/resources/updated"@)),
            ("params"@, JsonView::Object(seq![("uri"@, JsonView::Text(uri))])),
        ],
    )
}

fn write_updated(uri: &str) -> (out: Json)
    ensures
        out@ == updated_json(uri@),
{
    let mut params: Fields = Fields::new();
    params.put_text("uri", uri);
    assert(params@ =~= seq![("uri"@, JsonView::Text(uri@))]);
    let mut fields: Fields = Fields::new();
    fields.put_text("jsonrpc", "2.0");
    fields.put_text("method", "notifications/resources/updated");
    fields.put("params", params.object());
    assert(fields@ =~= updated_json(uri@)->Object_0);
    fields.object()
}

impl Session {
    /// A session that begins at a revision.
    pub fn new(revision: u64) -> (out: Session)
        ensures
            out@ == (SessionView { subscriptions: Seq::empty(), last_revision: revision as nat }),
    {
        let subscriptions: Vec<String> = Vec::new();
        assert(texts(subscriptions@) =~= Seq::<Seq<char>>::empty());
        Session { subscriptions, last_revision: revision }
    }

    /// Notes that the agent wants to be told about a resource.
    pub fn subscribe(&mut self, uri: &str)
        ensures
            final(self)@ == (SessionView {
                subscriptions: with_text(old(self)@.subscriptions, uri@),
                ..old(self)@
            }),
            ascending(old(self)@.subscriptions) ==> ascending(final(self)@.subscriptions),
    {
        proof {
            if ascending(self@.subscriptions) {
                law_adding_keeps_order(self@.subscriptions, uri@);
            }
        }
        let at: usize = find_slot(&self.subscriptions, uri);
        let ghost before = self.subscriptions@;
        let there: bool = if at < self.subscriptions.len() {
            assert(texts(before)[at as int] == before[at as int]@);
            same_text(self.subscriptions[at].as_str(), uri)
        } else {
            false
        };
        if !there {
            let uri: String = uri.to_owned();
            self.subscriptions.insert(at, uri);
            assert(texts(self.subscriptions@) =~= texts(before).insert(at as int, uri@));
        }
    }

    /// Notes that the agent no longer wants to be told about a resource.
    pub fn unsubscribe(&mut self, uri: &str)
        ensures
            final(self)@ == (SessionView {
                subscriptions: without_text(old(self)@.subscriptions, uri@),
                ..old(self)@
            }),
            ascending(old(self)@.subscriptions) ==> ascending(final(self)@.subscriptions),
    {
        proof {
            if ascending(self@.subscriptions) {
                law_taking_away_removes(self@.subscriptions, uri@, uri@);
            }
        }
        let at: usize = find_slot(&self.subscriptions, uri);
        let ghost before = self.subscriptions@;
        if at < self.subscriptions.len() {
            assert(texts(before)[at as int] == before[at as int]@);
            if same_text(self.subscriptions[at].as_str(), uri) {
                self.subscriptions.remove(at);
                assert(texts(self.subscriptions@) =~= texts(before).remove(at as int));
            }
        }
    }

    /// What the agent is to be told now that the graph is at a revision. Where
    /// the revision cannot be read, all wishes are forgotten.
    pub fn notifications(&mut self, revision: Option<u64>) -> (out: Vec<Json>)
        ensures
            match revision {
                None => {
                    &&& list_views(out@) == Seq::<JsonView>::empty()
                    &&& final(self)@ == (SessionView {
                        subscriptions: Seq::empty(),
                        ..old(self)@
                    })
                },
                Some(r) => if r == old(self)@.last_revision {
                    list_views(out@) == Seq::<JsonView>::empty() && final(self)@ == old(self)@
                } else {
                    &&& list_views(out@) == old(self)@.subscriptions.map_values(
                        |u: Seq<char>| updated_json(u),
                    )
                    &&& final(self)@ == (SessionView { last_revision: r as nat, ..old(self)@ })
                },
            },
    {
        broadcast use list_push;

        let mut out: Vec<Json> = Vec::new();
        assert(list_views(out@) =~= Seq::<JsonView>::empty());
        let revision: u64 = match revision {
            None => {
                self.subscriptions = Vec::new();
                assert(texts(self.subscriptions@) =~= Seq::<Seq<char>>::empty());
                return out;
            },
            Some(r) => r,
        };
        if revision == self.last_revision {
            return out;
        }
        self.last_revision = revision;
        let ghost all = texts(self.subscriptions@).map_values(|u: Seq<char>| updated_json(u));
        let mut i: usize = 0;
        assert(list_views(out@) =~= all.take(0));
        while i < self.subscriptions.len()
            invariant
                i <= self.subscriptions@.len(),
                all == texts(self.subscriptions@).map_values(|u: Seq<char>| updated_json(u)),
                list_views(out@) == all.take(i as int),
            decreases self.subscriptions@.len() - i,
        {
            assert(all[i as int] == updated_json(self.subscriptions@[i as int]@));
            let ghost before = out@;
            out.push(write_updated(self.subscriptions[i].as_str()));
            assert(out@.drop_last() =~= before);
            i += 1;
            assert(all.take(i as int) =~= all.take(i as int - 1).push(all[i as int - 1]));
        }
        assert(all.take(i as int) =~= all);
        out
    }
}

/// What a message about a graph asks for.
pub enum GraphRoute {
    /// The tools, with those of the graph.
    ToolsList,
    /// A call of a tool of the graph.
    CallTool(String),
    Resources,
    Templates,
    Read(String),
    Subscribe(String),
    Unsubscribe(String),
    /// Nothing that concerns the graph.
    NotMine,
}

/// What a [`GraphRoute`] stands for.
pub enum RouteView {
    ToolsList,
    CallTool(Seq<char>),
    Resources,
    Templates,
    Read(Seq<char>),
    Subscribe(Seq<char>),
    Unsubscribe(Seq<char>),
    NotMine,
}

impl View for GraphRoute {
    type V = RouteView;

    open spec fn view(&self) -> RouteView {
        match *self {
            GraphRoute::ToolsList => RouteView::ToolsList,
            GraphRoute::CallTool(s) => RouteView::CallTool(s@),
            GraphRoute::Resources => RouteView::Resources,
            GraphRoute::Templates => RouteView::Templates,
            GraphRoute::Read(s) => RouteView::Read(s@),
            GraphRoute::Subscribe(s) => RouteView::Subscribe(s@),
            GraphRoute::Unsubscribe(s) => RouteView::Unsubscribe(s@),
            GraphRoute::NotMine => RouteView::NotMine,
        }
    }
}

/// The resource that a message is about; empty where it names none.
pub open spec fn uri_of(params: JsonView) -> Seq<char> {
    match text_member(params, "uri"@) {
        Some(uri) => uri,
        None => Seq::empty(),
    }
}

fn read_uri(params: &Json) -> (out: String)
    ensures
        out@ == uri_of(params@),
{
    match params.get_text("uri") {
        Some(uri) => uri.clone(),
        None => String::new(),
    }
}

/// What a message about a graph asks for. A tool of the graph is one whose name
/// begins with `graph_`.
pub open spec fn graph_routed(method: Seq<char>, params: JsonView) -> RouteView {
    if method == "tools/list"@ {
        RouteView::ToolsList
    } else if method == "tools/call"@ {
        match text_member(params, "name"@) {
            Some(name) => if starts_with(name, "graph_"@) {
                RouteView::CallTool(name)
            } else {
                RouteView::NotMine
            },
            None => RouteView::NotMine,
        }
    } else if method == "resources/list"@ {
        RouteView::Resources
    } else if method == "resources/templates/list"@ {
        RouteView::Templates
    } else if method == "resources/read"@ {
        RouteView::Read(uri_of(params))
    } else if method == "resources/subscribe"@ {
        RouteView::Subscribe(uri_of(params))
    } else if method == "resources/unsubscribe"@ {
        RouteView::Unsubscribe(uri_of(params))
    } else {
        RouteView::NotMine
    }
}

/// What a message about a graph asks for.
pub fn dispatch(method: &str, params: &Json) -> (out: GraphRoute)
    ensures
        out@ == graph_routed(method@, params@),
{
    if same_text(method, "tools/list") {
        GraphRoute::ToolsList
    } else if same_text(method, "tools/call") {
        match params.get_text("name") {
            Some(name) => if has_prefix(name.as_str(), "graph_") {
                GraphRoute::CallTool(name.clone())
            } else {
                GraphRoute::NotMine
            },
            None => GraphRoute::NotMine,
        }
    } else if same_text(method, "resources/list") {
        GraphRoute::Resources
    } else if same_text(method, "resources/templates/list") {
        GraphRoute::Templates
    } else if same_text(method, "resources/read") {
        GraphRoute::Read(read_uri(params))
    } else if same_text(method, "resources/subscribe") {
        GraphRoute::Subscribe(read_uri(params))
    } else if same_text(method, "resources/unsubscribe") {
        GraphRoute::Unsubscribe(read_uri(params))
    } else {
        GraphRoute::NotMine
    }
}

pub open spec fn all_tools_json(graph_tools: Seq<JsonView>) -> JsonView {
    JsonView::Object(seq![("tools"@, JsonView::List(tools() + graph_tools))])
}

/// The listing of the tools, with those of the graph behind them.
pub fn all_tools(graph_tools: &Vec<Json>) -> (out: Json)
    ensures
        out@ == all_tools_json(list_views(graph_tools@)),
{
    broadcast use list_push;

    let listed: Json = tools_list();
    let mut list: Vec<Json> = match listed.get("tools") {
        Some(Json::List(own)) => copy_items(own),
        _ => {
            assert(crate::json::entry(crate::mcp::tools::tools_json()->Object_0, "tools"@, 0)
                == Some(JsonView::List(tools())));
            Vec::new()
        },
    };
    assert(crate::json::entry(crate::mcp::tools::tools_json()->Object_0, "tools"@, 0) == Some(
        JsonView::List(tools()),
    ));
    let ghost own = list_views(list@);
    let ghost views = list_views(graph_tools@);
    proof {
        crate::json::lemma_list_len(graph_tools@);
    }
    let mut i: usize = 0;
    assert(own + views.take(0) =~= own);
    while i < graph_tools.len()
        invariant
            i <= graph_tools@.len(),
            views == list_views(graph_tools@),
            views.len() == graph_tools@.len(),
            list_views(list@) == own + views.take(i as int),
        decreases graph_tools@.len() - i,
    {
        proof {
            crate::json::lemma_list_item(graph_tools@, i as int);
        }
        let ghost before = list@;
        list.push(copy_json(&graph_tools[i]));
        assert(list@.drop_last() =~= before);
        i += 1;
        assert(own + views.take(i as int) =~= (own + views.take(i as int - 1)).push(
            views[i as int - 1],
        ));
    }
    assert(views.take(i as int) =~= views);
    let mut fields: Fields = Fields::new();
    fields.put("tools", Json::List(list));
    assert(fields@ =~= all_tools_json(views)->Object_0);
    fields.object()
}

/// The answer to a message about a graph. An error comes with its message and
/// what else is known of it.
pub open spec fn graph_response(
    id: JsonView,
    result: Result<JsonView, (Seq<char>, JsonView)>,
) -> JsonView {
    JsonView::Object(
        seq![
            match result {
                Ok(v) => ("result"@, v),
                Err((message, data)) => (
                    "error"@,
                    JsonView::Object(
                        seq![
                            ("code"@, JsonView::Int(-32000)),
                            ("message"@, JsonView::Text(message)),
                            ("data"@, data),
                        ],
                    ),
                ),
            },
            ("jsonrpc"@, JsonView::Text("2.0"@)),
            ("id"@, id),
        ],
    )
}

/// What came of a message about a graph.
pub open spec fn outcome_view(result: Result<Json, (String, Json)>) -> Result<
    JsonView,
    (Seq<char>, JsonView),
> {
    match result {
        Ok(v) => Ok(v@),
        Err((message, data)) => Err((message@, data@)),
    }
}

/// The answer to a message about a graph.
pub fn graph_reply(id: &Json, result: Result<Json, (String, Json)>) -> (out: Json)
    ensures
        out@ == graph_response(id@, outcome_view(result)),
{
    let ghost made = graph_response(id@, outcome_view(result));
    let mut fields: Fields = Fields::new();
    match result {
        Ok(v) => fields.put("result", v),
        Err((message, data)) => {
            let mut error: Fields = Fields::new();
            error.put("code", Json::Int(-32000));
            error.put_text("message", message.as_str());
            error.put("data", data);
            assert(error@ =~= made->Object_0[0].1->Object_0);
            fields.put("error", error.object());
        },
    }
    fields.put_text("jsonrpc", "2.0");
    fields.put("id", copy_json(id));
    assert(fields@ =~= made->Object_0);
    fields.object()
}

/// The modes of access: `read`, `author` and `approver`, and no others.
pub proof fn law_modes(mode: Seq<char>)
    ensures
        access_of(mode) == Some(Access::Read) <==> mode == "read"@,
        access_of(mode) == Some(Access::Author) <==> mode == "author"@,
        access_of(mode) == Some(Access::Reviewer) <==> mode == "approver"@,
{
    law_modes_are_unambiguous(Access::Read);
    law_modes_are_unambiguous(Access::Author);
    law_modes_are_unambiguous(Access::Reviewer);
}

/// The state of graphs is kept where the setting says, else below the state
/// directory, else below the home directory.
pub proof fn law_where_state_is_kept(
    setting: Option<Seq<char>>,
    xdg: Option<Seq<char>>,
    home: Option<Seq<char>>,
)
    ensures
        setting is Some ==> default_state(setting, xdg, home) == setting,
        setting is None && xdg is Some ==> default_state(setting, xdg, home) == Some(
            joined(xdg->Some_0, "nirdosha"@),
        ),
        setting is None && xdg is None && home is Some ==> default_state(setting, xdg, home)
            == Some(joined(home->Some_0, ".local/state/nirdosha"@)),
        setting is None && xdg is None && home is None ==> default_state(setting, xdg, home) is None,
{
}

/// An option and its value in front of others: the value counts unless a later
/// one for the same option does. An unknown option and a missing value are
/// errors.
pub proof fn law_reading_options(args: Seq<Seq<char>>, from: nat, o: OptionsView)
    ensures
        from >= args.len() ==> read_options(args, from, o) == Ok::<OptionsView, Seq<char>>(o),
        from + 1 == args.len() ==> read_options(args, from, o) == Err::<OptionsView, Seq<char>>(
            "Missing value for "@ + args[from as int],
        ),
        from + 1 < args.len() ==> {
            let flag = args[from as int];
            let value = args[from as int + 1];
            &&& flag == "--project"@ ==> read_options(args, from, o) == read_options(
                args,
                from + 2,
                OptionsView { project: Some(value), state: o.state, mode: o.mode },
            )
            &&& flag == "--state-dir"@ ==> read_options(args, from, o) == read_options(
                args,
                from + 2,
                OptionsView { project: o.project, state: value, mode: o.mode },
            )
            &&& flag == "--graph-access"@ ==> read_options(args, from, o) == read_options(
                args,
                from + 2,
                OptionsView { project: o.project, state: o.state, mode: value },
            )
            &&& flag != "--project"@ && flag != "--state-dir"@ && flag != "--graph-access"@
                ==> read_options(args, from, o) == Err::<OptionsView, Seq<char>>(
                "Unknown option "@ + flag,
            )
        },
{
    reveal_strlit("--project");
    reveal_strlit("--state-dir");
    reveal_strlit("--graph-access");
    assert("--project"@.len() == 9);
    assert("--state-dir"@.len() == 11);
    assert("--graph-access"@.len() == 14);
}

/// What a message about a graph asks for, by its method.
pub proof fn law_methods_of_a_graph(method: Seq<char>, params: JsonView)
    ensures
        graph_routed("tools/list"@, params) == RouteView::ToolsList,
        graph_routed("resources/list"@, params) == RouteView::Resources,
        graph_routed("resources/templates/list"@, params) == RouteView::Templates,
        graph_routed("resources/read"@, params) is Read,
        graph_routed("resources/subscribe"@, params) is Subscribe,
        graph_routed("resources/unsubscribe"@, params) is Unsubscribe,
        text_member(params, "uri"@) matches Some(uri) ==> {
            &&& graph_routed("resources/read"@, params) == RouteView::Read(uri)
            &&& graph_routed("resources/subscribe"@, params) == RouteView::Subscribe(uri)
            &&& graph_routed("resources/unsubscribe"@, params) == RouteView::Unsubscribe(uri)
        },
        graph_routed("tools/call"@, params) == RouteView::NotMine || graph_routed(
            "tools/call"@,
            params,
        ) is CallTool,
        graph_routed("tools/call"@, params) is CallTool <==> text_member(params, "name"@) is Some
            && starts_with(text_member(params, "name"@)->Some_0, "graph_"@),
        graph_routed("tools/call"@, params) matches RouteView::CallTool(name) ==> text_member(
            params,
            "name"@,
        ) == Some(name),
        method != "tools/list"@ && method != "tools/call"@ && method != "resources/list"@ && method
            != "resources/templates/list"@ && method != "resources/read"@ && method
            != "resources/subscribe"@ && method != "resources/unsubscribe"@ ==> graph_routed(
            method,
            params,
        ) == RouteView::NotMine,
{
    reveal_strlit("tools/list");
    reveal_strlit("tools/call");
    reveal_strlit("resources/list");
    reveal_strlit("resources/templates/list");
    reveal_strlit("resources/read");
    reveal_strlit("resources/subscribe");
    reveal_strlit("resources/unsubscribe");
    assert("tools/list"@.len() == 10 && "tools/list"@[6] == 'l');
    assert("tools/call"@.len() == 10 && "tools/call"@[6] == 'c');
    assert("resources/list"@.len() == 14 && "resources/list"@[10] == 'l');
    assert("resources/templates/list"@.len() == 24);
    assert("resources/read"@.len() == 14 && "resources/read"@[10] == 'r');
    assert("resources/subscribe"@.len() == 19);
    assert("resources/unsubscribe"@.len() == 21);
}

/// An agent is told of a resource that has changed by its address; an answer
/// carries the result or the error, and the identifier of the message.
pub proof fn law_messages_of_a_graph(
    uri: Seq<char>,
    id: JsonView,
    v: JsonView,
    message: Seq<char>,
    data: JsonView,
)
    ensures
        updated_json(uri) is Object,
        updated_json(uri)->Object_0 == seq![
            ("jsonrpc"@, JsonView::Text("2.0"@)),
            ("method"@, JsonView::Text("notifications/resources/updated"@)),
            ("params"@, JsonView::Object(seq![("uri"@, JsonView::Text(uri))])),
        ],
        graph_response(id, Ok(v)) is Object,
        graph_response(id, Ok(v))->Object_0 == seq![
            ("result"@, v),
            ("jsonrpc"@, JsonView::Text("2.0"@)),
            ("id"@, id),
        ],
        graph_response(id, Err((message, data))) is Object,
        graph_response(id, Err((message, data)))->Object_0 == seq![
            (
                "error"@,
                JsonView::Object(
                    seq![
                        ("code"@, JsonView::Int(-32000)),
                        ("message"@, JsonView::Text(message)),
                        ("data"@, data),
                    ],
                ),
            ),
            ("jsonrpc"@, JsonView::Text("2.0"@)),
            ("id"@, id),
        ],
{
}

/// The tools are listed with those of the graph behind them.
pub proof fn law_all_tools_are_listed(graph_tools: Seq<JsonView>)
    ensures
        all_tools_json(graph_tools) == JsonView::Object(
            seq![("tools"@, JsonView::List(tools() + graph_tools))],
        ),
{
}

/// What is said of an option names it.
pub proof fn law_what_is_said(a: Seq<char>)
    ensures
        missing_value(a) == "Missing value for "@ + a,
        unknown_option(a) == "Unknown option "@ + a,
{
}

} // verus!

//! The subcommands.
use crate::text::{decimal, decimal_text, same_text, starts_with, texts};
use vstd::prelude::*;

verus! {

/// What is asked for.
pub enum Command {
    /// The window.
    Window,
    /// The tools for agents, over standard input.
    Mcp,
    /// The domain packs.
    Plugin,
    /// The typed graph.
    Graph,
    /// The workflow runtime.
    Workflow,
    /// Work on the project: see [`plan_project`].
    Project,
    /// Nothing that there is: this is what to say.
    Unknown(String),
}

pub enum CommandView {
    Window,
    Mcp,
    Plugin,
    Graph,
    Workflow,
    Project,
    Unknown(Seq<char>),
}

impl View for Command {
    type V = CommandView;

    open spec fn view(&self) -> CommandView {
        match *self {
            Command::Window => CommandView::Window,
            Command::Mcp => CommandView::Mcp,
            Command::Plugin => CommandView::Plugin,
            Command::Graph => CommandView::Graph,
            Command::Workflow => CommandView::Workflow,
            Command::Project => CommandView::Project,
            Command::Unknown(s) => CommandView::Unknown(s@),
        }
    }
}

pub open spec fn unknown_command(other: Seq<char>) -> Seq<char> {
    "unknown `nirdosha-hi` subcommand `"@ + other + "` -- usage: nirdosha-hi [ingest|sync|link|impact|serve|plugin|mcp|graph|workflow] ..."@
}

fn say_unknown_command(other: &str) -> (out: String)
    ensures
        out@ == unknown_command(other@),
{
    let mut out: String = "unknown `nirdosha-hi` subcommand `".to_owned();
    out.append(other);
    out.append("` -- usage: nirdosha-hi [ingest|sync|link|impact|serve|plugin|mcp|graph|workflow] \
        ...");
    out
}

/// The subcommands that work on the project.
pub open spec fn is_project(sub: Seq<char>) -> bool {
    sub == "ingest"@ || sub == "sync"@ || sub == "link"@ || sub == "impact"@ || sub == "serve"@
}

/// What a subcommand asks for; where there is none, the window.
pub open spec fn chosen(sub: Option<Seq<char>>) -> CommandView {
    match sub {
        None => CommandView::Window,
        Some(s) => if s == "mcp"@ {
            CommandView::Mcp
        } else if s == "plugin"@ {
            CommandView::Plugin
        } else if s == "graph"@ {
            CommandView::Graph
        } else if s == "workflow"@ {
            CommandView::Workflow
        } else if is_project(s) {
            CommandView::Project
        } else {
            CommandView::Unknown(unknown_command(s))
        },
    }
}

/// What a subcommand asks for.
pub fn choose_command(sub: &Option<String>) -> (out: Command)
    ensures
        out@ == chosen(
            match *sub {
                Some(s) => Some(s@),
                None => None,
            },
        ),
{
    match sub {
        None => Command::Window,
        Some(s) => {
            let s: &str = s.as_str();
            if same_text(s, "mcp") {
                Command::Mcp
            } else if same_text(s, "plugin") {
                Command::Plugin
            } else if same_text(s, "graph") {
                Command::Graph
            } else if same_text(s, "workflow") {
                Command::Workflow
            } else if same_text(s, "ingest") || same_text(s, "sync") || same_text(s, "link")
                || same_text(s, "impact") || same_text(s, "serve") {
                Command::Project
            } else {
                Command::Unknown(say_unknown_command(s))
            }
        },
    }
}

/// Work on the project.
pub enum ProjectCommand {
    /// Reads the chunks of a document.
    Ingest(String),
    /// Scans the files that the arguments name.
    Sync,
    /// Ties a requirement to a unit.
    Link(String, String),
    /// Walks what a unit touches.
    Impact(String),
    /// Serves the console.
    Serve,
    /// The arguments do not do: this is what to say.
    Usage(String),
}

pub enum ProjectView {
    Ingest(Seq<char>),
    Sync,
    Link(Seq<char>, Seq<char>),
    Impact(Seq<char>),
    Serve,
    Usage(Seq<char>),
}

impl View for ProjectCommand {
    type V = ProjectView;

    open spec fn view(&self) -> ProjectView {
        match *self {
            ProjectCommand::Ingest(s) => ProjectView::Ingest(s@),
            ProjectCommand::Sync => ProjectView::Sync,
            ProjectCommand::Link(a, b) => ProjectView::Link(a@, b@),
            ProjectCommand::Impact(s) => ProjectView::Impact(s@),
            ProjectCommand::Serve => ProjectView::Serve,
            ProjectCommand::Usage(s) => ProjectView::Usage(s@),
        }
    }
}

pub const INGEST_USAGE: &'static str = "usage: nirdosha-hi ingest <doc.md>";

pub const LINK_USAGE: &'static str = "usage: nirdosha-hi link <requirement-id> <fn|struct|enum:name>";

pub const IMPACT_USAGE: &'static str = "usage: nirdosha-hi impact <target>";

/// What a subcommand that works on the project does with its arguments.
pub open spec fn planned_project(sub: Seq<char>, args: Seq<Seq<char>>) -> ProjectView {
    if sub == "ingest"@ {
        if args.len() == 0 {
            ProjectView::Usage(INGEST_USAGE@)
        } else {
            ProjectView::Ingest(args[0])
        }
    } else if sub == "sync"@ {
        ProjectView::Sync
    } else if sub == "link"@ {
        if args.len() < 2 {
            ProjectView::Usage(LINK_USAGE@)
        } else {
            ProjectView::Link(args[0], args[1])
        }
    } else if sub == "impact"@ {
        if args.len() == 0 {
            ProjectView::Usage(IMPACT_USAGE@)
        } else {
            ProjectView::Impact(args[0])
        }
    } else {
        ProjectView::Serve
    }
}

/// What a subcommand that works on the project does with its arguments.
pub fn plan_project(sub: &str, args: &Vec<String>) -> (out: ProjectCommand)
    requires
        is_project(sub@),
    ensures
        out@ == planned_project(sub@, texts(args@)),
{
    let ghost views = texts(args@);
    assert(views.len() == args@.len());
    assert(forall|i: int| 0 <= i < args@.len() ==> #[trigger] views[i] == args@[i]@);
    if same_text(sub, "ingest") {
        if args.len() == 0 {
            ProjectCommand::Usage(INGEST_USAGE.to_owned())
        } else {
            ProjectCommand::Ingest(args[0].clone())
        }
    } else if same_text(sub, "sync") {
        ProjectCommand::Sync
    } else if same_text(sub, "link") {
        if args.len() < 2 {
            ProjectCommand::Usage(LINK_USAGE.to_owned())
        } else {
            ProjectCommand::Link(args[0].clone(), args[1].clone())
        }
    } else if same_text(sub, "impact") {
        if args.len() == 0 {
            ProjectCommand::Usage(IMPACT_USAGE.to_owned())
        } else {
            ProjectCommand::Impact(args[0].clone())
        }
    } else {
        ProjectCommand::Serve
    }
}

pub open spec fn ingested_text(n: Seq<char>, doc: Seq<char>) -> Seq<char> {
    "ingested "@
        + n
        + " new chunk(s) from "@
        + doc
}

fn say_ingested_text(n: &str, doc: &str) -> (out: String)
    ensures
        out@ == ingested_text(n@, doc@),
{
    let mut out: String = "ingested ".to_owned();
    out.append(n);
    out.append(" new chunk(s) from ");
    out.append(doc);
    out
}

/// What is said once a document was read.
pub fn say_ingested(n: u64, doc: &str) -> (out: String)
    ensures
        out@ == ingested_text(decimal(n as nat), doc@),
{
    say_ingested_text(decimal_text(n).as_str(), doc)
}

/// What a scan of the files found.
pub struct SyncReport {
    pub files_scanned: u64,
    pub units_seen: u64,
    pub units_added: u64,
    pub units_changed: u64,
    pub edges_flagged: u64,
    pub nav_edges: u64,
}

pub open spec fn synced_text(files: Seq<char>, seen: Seq<char>, added: Seq<char>, changed: Seq<char>, flagged: Seq<char>, nav: Seq<char>) -> Seq<char> {
    "synced "@
        + files
        + " file(s): "@
        + seen
        + " unit(s) seen, "@
        + added
        + " added, "@
        + changed
        + " changed, "@
        + flagged
        + " edge(s) flagged possibly_stale, "@
        + nav
        + " screen-nav edge(s) derived"@
}

fn say_synced_text(files: &str, seen: &str, added: &str, changed: &str, flagged: &str, nav: &str) -> (out: String)
    ensures
        out@ == synced_text(files@, seen@, added@, changed@, flagged@, nav@),
{
    let mut out: String = "synced ".to_owned();
    out.append(files);
    out.append(" file(s): ");
    out.append(seen);
    out.append(" unit(s) seen, ");
    out.append(added);
    out.append(" added, ");
    out.append(changed);
    out.append(" changed, ");
    out.append(flagged);
    out.append(" edge(s) flagged possibly_stale, ");
    out.append(nav);
    out.append(" screen-nav edge(s) derived");
    out
}

/// What is said once the files were scanned.
pub fn say_synced(r: &SyncReport) -> (out: String)
    ensures
        out@ == synced_text(
            decimal(r.files_scanned as nat),
            decimal(r.units_seen as nat),
            decimal(r.units_added as nat),
            decimal(r.units_changed as nat),
            decimal(r.edges_flagged as nat),
            decimal(r.nav_edges as nat),
        ),
{
    say_synced_text(
        decimal_text(r.files_scanned).as_str(),
        decimal_text(r.units_seen).as_str(),
        decimal_text(r.units_added).as_str(),
        decimal_text(r.units_changed).as_str(),
        decimal_text(r.edges_flagged).as_str(),
        decimal_text(r.nav_edges).as_str(),
    )
}

/// What is said once a requirement was tied to a unit.
pub open spec fn linked_text(req_id: Seq<char>, target: Seq<char>) -> Seq<char> {
    "linked "@
        + req_id
        + " <-> "@
        + target
}

pub fn say_linked(req_id: &str, target: &str) -> (out: String)
    ensures
        out@ == linked_text(req_id@, target@),
{
    let mut out: String = "linked ".to_owned();
    out.append(req_id);
    out.append(" <-> ");
    out.append(target);
    out
}

pub open spec fn console_url(port: Seq<char>) -> Seq<char> {
    "http://127.0.0.1:"@ + port + "/"@
}

fn say_console_url(port: &str) -> (out: String)
    ensures
        out@ == console_url(port@),
{
    let mut out: String = "http://127.0.0.1:".to_owned();
    out.append(port);
    out.append("/");
    out
}

pub open spec fn serving_text(port: Seq<char>) -> Seq<char> {
    "hi API listening on http://127.0.0.1:"@ + port + " (Ctrl+C to stop)"@
}

fn say_serving_text(port: &str) -> (out: String)
    ensures
        out@ == serving_text(port@),
{
    let mut out: String = "hi API listening on http://127.0.0.1:".to_owned();
    out.append(port);
    out.append(" (Ctrl+C to stop)");
    out
}

/// What is said once the console is served.
pub fn say_serving(port: u16) -> (out: String)
    ensures
        out@ == serving_text(decimal(port as nat)),
{
    say_serving_text(decimal_text(port as u64).as_str())
}

/// Where the console is served.
pub fn window_url(port: u16) -> (out: String)
    ensures
        out@ == console_url(decimal(port as nat)),
{
    say_console_url(decimal_text(port as u64).as_str())
}

pub open spec fn opened_text(url: Seq<char>) -> Seq<char> {
    "hi running at "@ + url + " (opened in a browser app window -- Ctrl+C here to stop)"@
}

fn say_opened_text(url: &str) -> (out: String)
    ensures
        out@ == opened_text(url@),
{
    let mut out: String = "hi running at ".to_owned();
    out.append(url);
    out.append(" (opened in a browser app window -- Ctrl+C here to stop)");
    out
}

pub open spec fn unopened_text(url: Seq<char>) -> Seq<char> {
    "hi API listening on "@ + url + " -- no Chromium-family browser found on PATH to open it as an app window; open that URL \
    yourself. (Ctrl+C to stop)"@
}

fn say_unopened_text(url: &str) -> (out: String)
    ensures
        out@ == unopened_text(url@),
{
    let mut out: String = "hi API listening on ".to_owned();
    out.append(url);
    out.append(" -- no Chromium-family browser found on PATH to open it as an app window; open that \
        URL yourself. (Ctrl+C to stop)");
    out
}

/// What is said once the window was opened, or could not be.
pub fn say_window(url: &str, opened: bool) -> (out: String)
    ensures
        out@ == if opened {
            opened_text(url@)
        } else {
            unopened_text(url@)
        },
{
    if opened {
        say_opened_text(url)
    } else {
        say_unopened_text(url)
    }
}

/// The browsers that can open the window, the one to try first first.
pub open spec fn browsers() -> Seq<Seq<char>> {
    seq![
        "google-chrome-stable"@,
        "google-chrome"@,
        "chromium"@,
        "chromium-browser"@,
        "microsoft-edge-stable"@,
        "microsoft-edge"@,
        "brave-browser"@,
    ]
}

/// The browsers that can open the window, the one to try first first.
pub fn browser_candidates() -> (out: Vec<String>)
    ensures
        texts(out@) == browsers(),
{
    let mut out: Vec<String> = Vec::new();
    out.push("google-chrome-stable".to_owned());
    out.push("google-chrome".to_owned());
    out.push("chromium".to_owned());
    out.push("chromium-browser".to_owned());
    out.push("microsoft-edge-stable".to_owned());
    out.push("microsoft-edge".to_owned());
    out.push("brave-browser".to_owned());
    assert(texts(out@) =~= browsers());
    out
}

/// The argument that opens an address as a window of its own.
pub open spec fn app_flag(url: Seq<char>) -> Seq<char> {
    "--app="@ + url
}

pub fn browser_flag(url: &str) -> (out: String)
    ensures
        out@ == app_flag(url@),
{
    let mut out: String = "--app=".to_owned();
    out.append(url);
    out
}

/// What is done to the typed graph of a project.
#[derive(Clone, Copy, Debug, PartialEq, Eq, Structural)]
pub enum GraphAction {
    Init,
    Migrate,
}

pub const NO_PROJECT: &'static str = "Specify --project";

pub const GRAPH_USAGE: &'static str = "Usage: nirdosha-hi graph init|migrate --project PATH [--state-dir PATH]";

/// What is done to the typed graph, given an action and whether a project was
/// named; or the message of a `SCHEMA_INVALID` error.
pub open spec fn graph_action(action: Seq<char>, has_project: bool) -> Result<GraphAction, Seq<char>> {
    if !has_project {
        Err(NO_PROJECT@)
    } else if action == "init"@ {
        Ok(GraphAction::Init)
    } else if action == "migrate"@ {
        Ok(GraphAction::Migrate)
    } else {
        Err(GRAPH_USAGE@)
    }
}

/// What is done to the typed graph, given an action and whether a project was
/// named.
pub fn plan_graph(action: &str, has_project: bool) -> (out: Result<GraphAction, String>)
    ensures
        match out {
            Ok(a) => graph_action(action@, has_project) == Ok::<GraphAction, Seq<char>>(a),
            Err(e) => graph_action(action@, has_project) == Err::<GraphAction, Seq<char>>(e@),
        },
{
    if !has_project {
        Err(NO_PROJECT.to_owned())
    } else if same_text(action, "init") {
        Ok(GraphAction::Init)
    } else if same_text(action, "migrate") {
        Ok(GraphAction::Migrate)
    } else {
        Err(GRAPH_USAGE.to_owned())
    }
}

/// What each subcommand asks for; without one, the window. Any other is unknown.
pub proof fn law_subcommands(sub: Seq<char>)
    ensures
        chosen(None) == CommandView::Window,
        chosen(Some("mcp"@)) == CommandView::Mcp,
        chosen(Some("plugin"@)) == CommandView::Plugin,
        chosen(Some("graph"@)) == CommandView::Graph,
        chosen(Some("workflow"@)) == CommandView::Workflow,
        chosen(Some("ingest"@)) == CommandView::Project,
        chosen(Some("sync"@)) == CommandView::Project,
        chosen(Some("link"@)) == CommandView::Project,
        chosen(Some("impact"@)) == CommandView::Project,
        chosen(Some("serve"@)) == CommandView::Project,
        sub != "mcp"@ && sub != "plugin"@ && sub != "graph"@ && sub != "workflow"@ && sub
            != "ingest"@ && sub != "sync"@ && sub != "link"@ && sub != "impact"@ && sub != "serve"@
            ==> chosen(Some(sub)) is Unknown,
{
    reveal_strlit("mcp");
    reveal_strlit("plugin");
    reveal_strlit("graph");
    reveal_strlit("workflow");
    reveal_strlit("ingest");
    reveal_strlit("sync");
    reveal_strlit("link");
    reveal_strlit("impact");
    reveal_strlit("serve");
    assert("mcp"@.len() == 3);
    assert("plugin"@.len() == 6 && "plugin"@[1] == 'l');
    assert("graph"@.len() == 5 && "graph"@[1] == 'r');
    assert("workflow"@.len() == 8);
    assert("ingest"@.len() == 6 && "ingest"@[1] == 'n');
    assert("sync"@.len() == 4 && "sync"@[1] == 'y');
    assert("link"@.len() == 4 && "link"@[1] == 'i');
    assert("impact"@.len() == 6 && "impact"@[1] == 'm');
    assert("serve"@.len() == 5 && "serve"@[1] == 'e');
}

/// What each subcommand of the project does with its arguments, and what is said
/// where one is missing.
pub proof fn law_project_subcommands(args: Seq<Seq<char>>)
    ensures
        planned_project("sync"@, args) == ProjectView::Sync,
        planned_project("serve"@, args) == ProjectView::Serve,
        args.len() >= 1 ==> {
            &&& planned_project("ingest"@, args) == ProjectView::Ingest(args[0])
            &&& planned_project("impact"@, args) == ProjectView::Impact(args[0])
        },
        args.len() >= 2 ==> planned_project("link"@, args) == ProjectView::Link(args[0], args[1]),
        args.len() < 1 ==> {
            &&& planned_project("ingest"@, args) == ProjectView::Usage(
                "usage: nirdosha-hi ingest <doc.md>"@,
            )
            &&& planned_project("impact"@, args) == ProjectView::Usage(
                "usage: nirdosha-hi impact <target>"@,
            )
        },
        args.len() < 2 ==> planned_project("link"@, args) == ProjectView::Usage(
            "usage: nirdosha-hi link <requirement-id> <fn|struct|enum:name>"@,
        ),
{
    reveal_strlit("ingest");
    reveal_strlit("sync");
    reveal_strlit("link");
    reveal_strlit("impact");
    reveal_strlit("serve");
    assert("ingest"@.len() == 6 && "ingest"@[1] == 'n');
    assert("sync"@.len() == 4 && "sync"@[1] == 'y');
    assert("link"@.len() == 4 && "link"@[1] == 'i');
    assert("impact"@.len() == 6 && "impact"@[1] == 'm');
    assert("serve"@.len() == 5);
}

/// What is done to the typed graph: it is made or migrated, but only for a
/// project that was named.
pub proof fn law_graph_actions(action: Seq<char>)
    ensures
        graph_action("init"@, true) == Ok::<GraphAction, Seq<char>>(GraphAction::Init),
        graph_action("migrate"@, true) == Ok::<GraphAction, Seq<char>>(GraphAction::Migrate),
        action != "init"@ && action != "migrate"@ ==> graph_action(action, true) is Err,
        graph_action(action, false) == Err::<GraphAction, Seq<char>>("Specify --project"@),
{
    reveal_strlit("init");
    reveal_strlit("migrate");
    assert("init"@.len() == 4);
    assert("migrate"@.len() == 7);
}

/// What is said of the project once something was done tells how much.
pub proof fn law_what_is_said(
    a: Seq<char>,
    b: Seq<char>,
    c: Seq<char>,
    d: Seq<char>,
    e: Seq<char>,
    f: Seq<char>,
)
    ensures
        ingested_text(a, b) == "ingested "@ + a + " new chunk(s) from "@ + b,
        synced_text(a, b, c, d, e, f) == "synced "@ + a + " file(s): "@ + b + " unit(s) seen, "@ + c
            + " added, "@ + d + " changed, "@ + e + " edge(s) flagged possibly_stale, "@ + f
            + " screen-nav edge(s) derived"@,
        linked_text(a, b) == "linked "@ + a + " <-> "@ + b,
        console_url(a) == "http://127.0.0.1:"@ + a + "/"@,
        app_flag(a) == "--app="@ + a,
{
}

/// What is told of a window names the address; the texts of one that was opened
/// and of one that was not begin differently.
pub proof fn law_what_is_told_of_a_window(url: Seq<char>)
    ensures
        opened_text(url) == "hi running at "@ + url
            + " (opened in a browser app window -- Ctrl+C here to stop)"@,
        starts_with(unopened_text(url), "hi API listening on "@ + url + " -- no "@),
{
    let head = "hi API listening on "@ + url + " -- no "@;
    reveal_strlit(" -- no ");
    reveal_strlit(
        " -- no Chromium-family browser found on PATH to open it as an app window; open that URL \
    yourself. (Ctrl+C to stop)",
    );
    assert(unopened_text(url).subrange(0, head.len() as int) =~= head);
}

/// The browsers are tried in this order, Chrome and Chromium before the others,
/// and none is tried twice.
pub proof fn law_browsers_to_try()
    ensures
        browsers().len() == 7,
        browsers()[0] == "google-chrome-stable"@,
        browsers()[1] == "google-chrome"@,
        browsers()[2] == "chromium"@,
        browsers()[3] == "chromium-browser"@,
        browsers()[4] == "microsoft-edge-stable"@,
        browsers()[5] == "microsoft-edge"@,
        browsers()[6] == "brave-browser"@,
{
}

/// What is said of a subcommand and of the console names the one and the port of
/// the other.
pub proof fn law_what_is_said_of_a_subcommand(a: Seq<char>)
    ensures
        unknown_command(a) == "unknown `nirdosha-hi` subcommand `"@ + a + "` -- usage: nirdosha-hi [ingest|sync|link|impact|serve|plugin|mcp|graph|workflow] ..."@,
        serving_text(a) == "hi API listening on http://127.0.0.1:"@ + a + " (Ctrl+C to stop)"@,
{
}

} // verus!

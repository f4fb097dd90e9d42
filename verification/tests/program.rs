use nirdosha_hi::cli::command::{
    browser_candidates, browser_flag, choose_command, plan_graph, plan_project, say_ingested,
    say_linked, say_serving, say_synced, say_window, window_url, Command, GraphAction,
    ProjectCommand, SyncReport,
};
use nirdosha_hi::cli::impact::{format_impact_report, ImpactHit, ImpactReport};
use nirdosha_hi::cli::workflow::{
    answer_action, begin_action, finish_action, number, parse_workflow, read_document,
    required_flag, ActionValue,
};
use nirdosha_hi::json::Json;
use nirdosha_hi::lineage::sink_http::HttpLineageSink;
use nirdosha_hi::lineage::sink_jsonl::{JsonlLineageSink, SinkError};
use nirdosha_hi::lineage::store_embedded::{EmbeddedGraphStore, LineageStoreError};
use nirdosha_hi::lineage::store_remote::RemoteGraphStore;
use nirdosha_hi::order::{order_of, sort_texts, SortKey};
use nirdosha_hi::paths::join_path;
use nirdosha_hi::preview::{after_poll, plan_preview, restart, PollStep, Preview};
use nirdosha_hi::revision::{
    anything_kept, begin_commit, commit_revision, diff, extend_gitignore, git_not_run, log,
    log_args, show_args, tracked_args, tracked_paths, CommitStage, CommitStep, GitOutput,
};
use nirdosha_hi::text::{
    distinct_texts, integer_text, is_before, join_texts, lines_of, parse_u64, replace_all,
    split_list, trim,
};
use nirdosha_hi::toml_value::{serialize_value, TomlValue};
use nirdosha_hi::topic::{
    after_create, batch_of, fetch_wait, next_offset, stored, PortError, RawBatch, RawRecord,
    StoredRecord,
};
use nirdosha_hi::v2::bodies::{discover_serve_port, BodyFacts, MethodUse};
use nirdosha_hi::v2::source::{describe_v2_source, discover_preview_path, first_port};
use nirdosha_hi::v2::verdict::{
    admit_build, build_diagnostic, candidate_manifest, certificate_file, certificate_json,
    plan_publish,
    project_build_dir, typecheck_and_build_check, verdict_diagnostic, violation, V2Verdict,
};

fn s(text: &str) -> String {
    text.to_string()
}

fn strings(list: &[&str]) -> Vec<String> {
    list.iter().map(|t| t.to_string()).collect()
}

fn verdict(builds: bool, violations: &[&str]) -> V2Verdict {
    V2Verdict {
        builds,
        build_diagnostic: if builds { None } else { Some(s("error: no")) },
        contracts_found: 1,
        violations: strings(violations),
    }
}

fn serves(calls: &[(&str, Option<&str>)]) -> BodyFacts {
    BodyFacts {
        calls: Vec::new(),
        methods: calls
            .iter()
            .map(|(method, number)| MethodUse { method: s(method), number: number.map(s) })
            .collect(),
        constructs: Vec::new(),
    }
}

#[test]
fn preview_only_accepts_a_literal_serve_in_main() {
    let idle = || serves(&[]);
    let at = |port: &'static str| serves(&[("serve", Some(port))]);
    assert_eq!(discover_serve_port("fn main() { println!(\"done\"); }", &vec![idle()]), None);
    let unused = "fn unused() { router.serve(8080); } fn main() {}";
    assert_eq!(discover_serve_port(unused, &vec![at("8080"), idle()]), None);
    assert_eq!(discover_serve_port("fn main() { router.serve(8096); }", &vec![at("8096")]), Some(8096));
}

#[test]
fn only_a_written_serve_of_main_names_the_port() {
    let main = "fn main() { r.serve(port).listen(80).serve(70000).serve(8096).serve(80); }";
    let facts = serves(&[
        ("serve", Some("80")),
        ("serve", Some("8096")),
        ("serve", Some("70000")),
        ("listen", Some("80")),
        ("serve", None),
    ]);
    assert_eq!(discover_serve_port(main, &vec![facts]), Some(80));
    let other = serves(&[("listen", Some("80")), ("serve", None)]);
    assert_eq!(discover_serve_port(main, &vec![other]), None);
    let at = || serves(&[("serve", Some("1"))]);
    assert_eq!(discover_serve_port("struct S; fn a() {} enum E {} fn main() {}", &vec![serves(&[]), at()]), Some(1));
    assert_eq!(discover_serve_port("fn start() {}", &vec![at()]), None, "there is no main");
    assert_eq!(discover_serve_port("fn main( {", &vec![at()]), None, "cannot be read");
}

#[test]
fn the_first_number_that_is_a_port_is_the_port() {
    assert_eq!(first_port(&strings(&["70000", "8096", "80"])), Some(8096));
    assert_eq!(first_port(&strings(&["65535"])), Some(65535));
    assert_eq!(first_port(&strings(&["65536"])), None);
}

#[test]
fn preview_path_uses_the_first_real_ui_route() {
    let source = "nirdosha_rt::crud_screens! { mount: mount_TaskListScreen, entity: Task, store: task_store, path: \"/tasks\", fields: [ title: String ] }\nnirdosha_rt::dashboard! { mount: mount_DashboardScreen, path: \"/dashboard\", widgets {} }\nfn main() { router.serve(8080); }";
    assert_eq!(discover_preview_path(source).as_deref(), Some("/tasks"));
    assert_eq!(discover_preview_path("fn main() {}"), None);
}

#[test]
fn a_program_is_described_by_what_it_declares() {
    let source = "/// nirdosha:validate {\"fn\":\"pay\"}\nfn pay(a: i64, b: i64) -> i64 { a }\nstruct P { x: i64, y: i64 }\nenum E { A, B(i64) }\n";
    let told = describe_v2_source(source).unwrap();
    let Some(Json::List(fns)) = told.get("functions") else { panic!("{told:?}") };
    assert_eq!(fns[0].get_text("name").unwrap(), "pay");
    assert_eq!(fns[0].get("params"), Some(&Json::Number(s("2"))));
    let Some(Json::List(declared)) = told.get("nirdosha_declarations") else { panic!("{told:?}") };
    assert_eq!(declared[0].get_text("owner").unwrap(), "pay");
    assert_eq!(declared[0].get_text("kind").unwrap(), "validate");
    assert_eq!(declared[0].get_text("payload").unwrap(), "{\"fn\":\"pay\"}");
    assert!(describe_v2_source("fn (").unwrap_err().starts_with("file does not parse as Rust: "));
}

#[test]
fn verdicts_are_told() {
    assert!(verdict(true, &[]).passed());
    assert_eq!(verdict(true, &[]).verdict(), "clean");
    assert_eq!(verdict(false, &["x"]).verdict(), "build_failed");
    assert_eq!(verdict(true, &["x"]).verdict(), "violations_found");
    assert_eq!(violation("a.nir", 3, "no"), "a.nir:3 no");
    assert_eq!(
        typecheck_and_build_check(&Ok(verdict(false, &["v1", "v2"]))).unwrap_err(),
        "error: no\nnirdosha:contract violations:\nv1\nv2"
    );
    assert_eq!(typecheck_and_build_check(&Err(s("no cargo"))).unwrap_err(), "no cargo");
    assert_eq!(
        verdict_diagnostic("fn", &Ok(verdict(true, &["v1"]))),
        (false, Some(s("v1")))
    );
    assert_eq!(verdict_diagnostic("fn", &Err(s("e"))), (false, Some(s("fn: e"))));
    assert_eq!(verdict_diagnostic("fn", &Ok(verdict(true, &[]))), (true, None));
}

#[test]
fn only_clean_programs_are_published() {
    assert_eq!(
        admit_build("publish", &verdict(false, &["a \"b\""])).unwrap_err(),
        "publish refused -- the v2 candidate does not pass its own check (builds: false, violations: [\"a \\\"b\\\"\"])\nerror: no"
    );
    let Ok(p) = plan_publish("/p", verdict(true, &[])) else { panic!("clean") };
    assert_eq!(p.binary_path, "/p/.nir/generated/hi_build");
    assert_eq!(p.certificate_path, "/p/.nir/generated/hi_build.certificate.json");
    assert!(plan_publish("/p", verdict(true, &["v"])).is_err());
    assert_eq!(project_build_dir("/p"), "/p/.nir/generated/v2-build");
    let manifest = candidate_manifest("hi-v2-scratch", "/r/nirdosha-rt");
    assert!(manifest.contains("nirdosha-rt = { path = \"/r/nirdosha-rt\" }"), "{manifest}");
}

#[test]
fn a_certificate_names_what_it_certifies() {
    let c = certificate_json("abc", "0.1.0", &verdict(true, &[]));
    assert_eq!(
        c.get_text("source_hash").unwrap(),
        "ba7816bf8f01cfea414140de5dae2223b00361a396177a9cb410ff61f20015ad"
    );
    assert_eq!(c.get_text("evidence_tier").unwrap(), "source_scan");
    assert_eq!(c.get("builds"), Some(&Json::Bool(true)));
    let file = certificate_file("abc", "0.1.0", &verdict(true, &[]));
    assert!(file.starts_with("{\n  \"certificate_version\": \"nirdosha.certificate/v2-source-scan\""));
}

#[test]
fn status_and_stop_are_both_fine_with_nothing_running() {
    let mut preview = Preview::new();
    assert_eq!(preview.status(false), None);
    preview.stop();
    assert_eq!(preview.status(false), None);
    assert_eq!(preview.path(false), None);
}

#[test]
fn one_preview_runs_at_a_time() {
    let mut preview = Preview::new();
    assert_eq!(restart(&mut preview, PollStep::Ready, 8096, "/tasks"), Ok(true));
    assert_eq!(preview.status(false), Some(8096));
    assert_eq!(preview.path(false), Some(s("/tasks")));
    assert_eq!(restart(&mut preview, PollStep::Fail(s("no")), 1, "/"), Err(s("no")));
    assert_eq!(preview.status(false), None, "the old preview was stopped");
    preview.started(80, "/");
    assert_eq!(preview.status(true), None, "a preview that exited is forgotten");
    assert_eq!(preview.status(false), None);
}

#[test]
fn a_preview_is_looked_for_a_while() {
    assert!(matches!(after_poll(0, &None, false, 80), PollStep::Wait));
    assert!(matches!(after_poll(5, &None, true, 80), PollStep::Ready));
    assert!(matches!(after_poll(39, &None, false, 80), PollStep::Fail(e) if e.contains("80")));
    assert!(matches!(
        after_poll(0, &Some(s("exit status: 1")), true, 80),
        PollStep::Fail(e) if e.contains("exit status: 1")
    ));
    assert_eq!(plan_preview(Some(80), None), Ok((80, s("/"))));
    assert!(plan_preview(None, Some(s("/tasks"))).is_err());
}

#[test]
fn ensure_repo_inits_and_seeds_gitignore_once() {
    let gitignore = extend_gitignore("").expect("a fresh project lacks every line");
    assert!(gitignore.contains("/target/"));
    assert_eq!(extend_gitignore(&gitignore), None, "second call is a no-op, not an error");
    let kept = extend_gitignore("  /target/  \nmine").unwrap();
    assert!(kept.starts_with("  /target/  \nmine\n/.nir/generated/hi_build\n"), "{kept}");
    assert_eq!(kept.matches("/target/").count(), 1);
}

fn output(ok: bool, stdout: &str, stderr: &str) -> GitOutput {
    GitOutput { ok, stdout: stdout.as_bytes().to_vec(), stderr: stderr.as_bytes().to_vec() }
}

#[test]
fn commit_revision_is_a_no_op_when_nothing_changed() {
    let nothing = output(true, "", "");
    assert_eq!(tracked_args("/p"), strings(&["ls-files", "--", "/p/.nir"]));
    assert!(!anything_kept(false, &nothing), "a fresh project has no .nir/");
    let step = begin_commit("/p", anything_kept(false, &nothing));
    assert!(matches!(step, CommitStep::Done(None)), "an empty .nir/ has nothing to stage");
    let CommitStep::Run(stage, _) = begin_commit("/p", anything_kept(true, &nothing)) else {
        panic!("stages first")
    };
    let CommitStep::Run(stage, _) = commit_revision(stage, "/p", "nothing to see here", &nothing)
    else {
        panic!("compares next")
    };
    let step = commit_revision(stage, "/p", "nothing to see here", &nothing);
    assert!(matches!(step, CommitStep::Done(None)), "an unchanged .nir/ has nothing to stage");
    assert!(anything_kept(false, &output(true, "a.nir\n", "")), "a deletion is a change");
}

#[test]
fn commit_revision_commits_and_log_reports_it() {
    let message = "generate: 1 unit(s)";
    let ok = output(true, "", "");
    let CommitStep::Run(stage, args) = begin_commit("/p", true) else { panic!("stages first") };
    assert_eq!(args, strings(&["add", "-A", "--", "/p/.nir"]));
    let CommitStep::Run(stage, args) = commit_revision(stage, "/p", message, &ok) else {
        panic!("compares next")
    };
    assert_eq!(args, strings(&["diff", "--cached", "--quiet", "--", "/p/.nir"]));
    let CommitStep::Run(stage, args) =
        commit_revision(stage, "/p", message, &output(false, "", ""))
    else {
        panic!("commits next")
    };
    assert_eq!(args, strings(&["commit", "-m", message, "--", "/p/.nir"]));
    let CommitStep::Run(stage, args) = commit_revision(stage, "/p", message, &ok) else {
        panic!("names last")
    };
    assert_eq!(args, strings(&["rev-parse", "HEAD"]));
    let hash = "0123456789012345678901234567890123456789";
    let named = output(true, &format!("{hash}\n"), "");
    let CommitStep::Done(Some(said)) = commit_revision(stage, "/p", message, &named) else {
        panic!("something was staged")
    };
    assert_eq!(said, hash);
    assert_eq!(said.len(), 40, "a full git SHA-1 hash");

    let line = format!("{hash}\u{1f}generate: 1 unit(s)\u{1f}2026-09-16T00:00:00Z\nbroken line\n");
    let entries = log(&Some(output(true, &line, "")));
    assert_eq!(entries.len(), 1);
    assert_eq!(entries[0].hash, hash);
    assert_eq!(entries[0].message, "generate: 1 unit(s)");

    let text = diff("/p", hash, &output(true, "+++ hi_build.nir", "")).expect("diff must succeed");
    assert!(text.contains("hi_build.nir"), "got:\n{text}");
}

#[test]
fn log_is_empty_not_an_error_when_root_is_not_a_repo() {
    assert!(log(&None).is_empty());
    assert!(log(&Some(output(false, "x\u{1f}y\u{1f}z", "no commits"))).is_empty());
}

#[test]
fn git_faults_are_told() {
    let bad = output(false, "", "fatal: nope");
    for (stage, what) in [
        (CommitStage::Added, "add"),
        (CommitStage::Committed, "commit"),
        (CommitStage::Named, "rev-parse HEAD"),
    ] {
        match commit_revision(stage, "/p", "m", &bad) {
            CommitStep::Failed(e) => assert_eq!(e, format!("git {what} failed in /p: fatal: nope")),
            _ => panic!("{what} failed"),
        }
    }
    assert_eq!(diff("/p", "abc", &bad).unwrap_err(), "git show abc failed in /p: fatal: nope");
    assert_eq!(
        git_not_run(&strings(&["init"]), "/p", "not found"),
        "failed to invoke git [\"init\"] in /p: not found"
    );
    assert_eq!(
        log_args("/p", 50),
        strings(&["log", "--format=%H%x1f%s%x1f%cI", "-n", "50", "--", "/p/.nir"])
    );
    assert_eq!(tracked_paths("/p"), strings(&["/p/.nir"]));
    assert_eq!(show_args("/p", "abc"), strings(&["show", "abc", "--", "/p/.nir"]));
}

#[test]
fn subcommands_are_chosen() {
    assert!(matches!(choose_command(&None), Command::Window));
    assert!(matches!(choose_command(&Some(s("mcp"))), Command::Mcp));
    assert!(matches!(choose_command(&Some(s("plugin"))), Command::Plugin));
    assert!(matches!(choose_command(&Some(s("graph"))), Command::Graph));
    assert!(matches!(choose_command(&Some(s("workflow"))), Command::Workflow));
    for sub in ["ingest", "sync", "link", "impact", "serve"] {
        assert!(matches!(choose_command(&Some(s(sub))), Command::Project));
    }
    match choose_command(&Some(s("frob"))) {
        Command::Unknown(text) => assert!(text.starts_with("unknown `nirdosha-hi` subcommand `frob` -- usage: ")),
        _ => panic!("frob is no subcommand"),
    }
}

#[test]
fn work_on_the_project_is_planned() {
    let plan = |sub: &str, args: &[&str]| plan_project(sub, &strings(args));
    assert!(matches!(plan("ingest", &["a.md"]), ProjectCommand::Ingest(d) if d == "a.md"));
    assert!(matches!(plan("ingest", &[]), ProjectCommand::Usage(u) if u == "usage: nirdosha-hi ingest <doc.md>"));
    assert!(matches!(plan("sync", &["x"]), ProjectCommand::Sync));
    assert!(matches!(plan("link", &["r", "fn:x"]), ProjectCommand::Link(a, b) if a == "r" && b == "fn:x"));
    assert!(matches!(plan("link", &["r"]), ProjectCommand::Usage(_)));
    assert!(matches!(plan("impact", &["t"]), ProjectCommand::Impact(t) if t == "t"));
    assert!(matches!(plan("impact", &[]), ProjectCommand::Usage(_)));
    assert!(matches!(plan("serve", &[]), ProjectCommand::Serve));
    assert_eq!(say_ingested(3, "a.md"), "ingested 3 new chunk(s) from a.md");
    assert_eq!(say_linked("r", "fn:x"), "linked r <-> fn:x");
    let report = SyncReport {
        files_scanned: 1,
        units_seen: 2,
        units_added: 3,
        units_changed: 4,
        edges_flagged: 5,
        nav_edges: 6,
    };
    assert_eq!(say_synced(&report), "synced 1 file(s): 2 unit(s) seen, 3 added, 4 changed, 5 edge(s) flagged possibly_stale, 6 screen-nav edge(s) derived");
}

#[test]
fn the_window_is_opened_in_a_browser() {
    assert_eq!(window_url(8080), "http://127.0.0.1:8080/");
    assert_eq!(say_serving(8080), "hi API listening on http://127.0.0.1:8080 (Ctrl+C to stop)");
    assert!(say_window("u", true).contains("hi running at u"));
    assert!(say_window("u", false).contains("open that URL yourself"));
    assert_eq!(browser_candidates().len(), 7);
    assert_eq!(browser_candidates()[0], "google-chrome-stable");
    assert_eq!(browser_flag("u"), "--app=u");
    assert_eq!(plan_graph("init", true), Ok(GraphAction::Init));
    assert_eq!(plan_graph("migrate", true), Ok(GraphAction::Migrate));
    assert_eq!(plan_graph("init", false), Err(s("Specify --project")));
    assert!(plan_graph("drop", true).unwrap_err().starts_with("Usage: nirdosha-hi graph"));
}

fn hit(node: &str, title: Option<&str>, line: Option<i64>, flag: Option<&str>) -> ImpactHit {
    ImpactHit {
        node_id: s(node),
        kind: s("CodeUnit"),
        title: title.map(s),
        edge_kind: s("CALLS"),
        depth: 2,
        flag: flag.map(s),
        source_ref: Some(s("a.nir")),
        line,
        col: Some(1),
    }
}

#[test]
fn an_impact_report_lists_what_was_reached() {
    let none = ImpactReport { hits: Vec::new(), partial: false };
    assert_eq!(
        format_impact_report("x", &none),
        "no reachable nodes from `x` -- try `nirdosha-hi link` or `nirdosha-hi sync` first.\n"
    );
    let report = ImpactReport {
        hits: vec![hit("n1", Some("pay"), Some(3), Some("possibly_stale")), hit("n2", None, None, None)],
        partial: true,
    };
    assert_eq!(
        format_impact_report("x", &report),
        "impact of `x` (2 node(s), partial -- bound reached):\n  depth 2 CodeUnit CALLS `pay`  (a.nir:3:1)  [possibly_stale]\n  depth 2 CodeUnit CALLS `n2`\n"
    );
}

#[test]
fn workflow_arguments_are_read() {
    let args = strings(&["--id", "7", "--db", "d", "--authority", "a", "--key"]);
    let Ok(parsed) = parse_workflow(&args) else { panic!("readable") };
    assert_eq!((parsed.db.as_str(), parsed.authority.as_str()), ("d", "a"));
    assert_eq!(parsed.rest, strings(&["--id", "7", "--key"]));
    assert_eq!(required_flag(&parsed.rest, "--id").unwrap(), "7");
    assert_eq!(required_flag(&parsed.rest, "--key").unwrap_err(), "Specify --key");
    assert_eq!(number(&parsed.rest, "--id").unwrap(), 7);
    assert_eq!(number(&strings(&["--n", "x"]), "--n").unwrap_err(), "--n must be a number");
    let fault = |args: &[&str]| match parse_workflow(&strings(args)) {
        Err(e) => e,
        Ok(_) => panic!("refused"),
    };
    assert_eq!(fault(&["--db"]), "Missing value for --db");
    assert_eq!(fault(&["--authority"]), "Missing value for --authority");
    assert_eq!(fault(&["--authority", "a"]), "Specify --db PATH");
    assert_eq!(fault(&["--db", "a"]), "Specify --authority FILE");
}

#[test]
fn workflow_actions_ask_for_their_options_in_order() {
    let rest = strings(&["--expected-revision", "4", "--data", "d.json", "--key", "k"]);
    let Ok(begun) = begin_action("migrate-instance", &rest) else { panic!("begins") };
    assert_eq!((begun.number, begun.file.as_deref()), (Some(4), Some("d.json")));
    assert!(matches!(finish_action("migrate-instance", &rest), Err(e) if e == "Specify --instance"));
    assert!(matches!(begin_action("migrate-instance", &Vec::new()), Err(e) if e == "Specify --expected-revision"));
    assert!(matches!(begin_action("start", &Vec::new()), Err(e) if e == "Specify --data"));
    let rest = strings(&["--issuer", "i", "--tenant", "t", "--subject", "s", "--expires", "9"]);
    let Ok(values) = finish_action("issue-credential", &rest) else { panic!("complete") };
    assert_eq!(values.len(), 4);
    assert!(matches!(&values[0], ActionValue::Text(v) if v == "i"));
    assert!(matches!(values[3], ActionValue::Number(9)));
    assert!(matches!(finish_action("claim-outbox", &strings(&["--lease-seconds", "x"])), Err(e) if e == "--lease-seconds must be a number"));
    assert!(matches!(begin_action("frob", &Vec::new()), Err(e) if e.starts_with("Usage: nirdosha-hi workflow <capabilities|deploy|")));
    let Ok(values) = finish_action("capabilities", &Vec::new()) else { panic!("asks for nothing") };
    assert!(values.is_empty());
}

#[test]
fn workflow_actions_are_answered() {
    let id = || Json::Text(s("x"));
    assert_eq!(answer_action("deploy", id()), Json::Object(vec![(s("definition_id"), id())]));
    assert_eq!(
        answer_action("install-mapping", Json::Null),
        Json::Object(vec![(s("installed"), Json::Bool(true))])
    );
    assert_eq!(answer_action("issue-credential", id()), Json::Object(vec![(s("credential"), id())]));
    assert_eq!(answer_action("outbox", id()), Json::Object(vec![(s("outbox"), id())]));
    assert_eq!(
        answer_action("complete-outbox", Json::Null),
        Json::Object(vec![(s("completed"), Json::Bool(true))])
    );
    assert_eq!(
        answer_action("reconcile-outbox", Json::Null),
        Json::Object(vec![(s("reconciled"), Json::Bool(true))])
    );
    assert_eq!(answer_action("start", id()), id());
    assert_eq!(answer_action("claim-outbox", Json::Null), Json::Null);
}

#[test]
fn unconfigured_sink_returns_unconfigured() {
    let sink = JsonlLineageSink::new(None);
    assert!(sink.flush().is_err());
    assert!(matches!(sink.emit(&Json::Null), Err(SinkError::Unconfigured)));
}

#[test]
fn a_configured_sink_writes_a_line_for_an_observation() {
    let sink = JsonlLineageSink::new(Some(s("/l.jsonl")));
    assert!(sink.flush().is_ok());
    let Ok(append) = sink.emit(&Json::Object(vec![(s("a"), Json::Int(1))])) else {
        panic!("configured")
    };
    assert_eq!(append.path, "/l.jsonl");
    assert_eq!(append.line, "{\"a\":1}\n");
}

#[test]
fn unconfigured_http_sink_errors() {
    let mut sink: HttpLineageSink<u8> = HttpLineageSink::new(None);
    assert!(sink.flush().is_err());
    assert!(sink.emit(1).is_err());
    assert_eq!(sink.len(), 0);
}

#[test]
fn a_configured_http_sink_gathers_until_flushed() {
    let mut sink = HttpLineageSink::new(Some(s("http://localhost")));
    assert!(sink.emit(1u8).is_ok() && sink.emit(2).is_ok());
    assert_eq!(sink.len(), 2);
    assert!(sink.flush().is_ok());
    assert_eq!(sink.len(), 0);
}

#[derive(Clone, Debug, PartialEq)]
struct Edge {
    kind: &'static str,
    count: u64,
    first_seen: &'static str,
    last_seen: &'static str,
}

fn edge(kind: &'static str, seen: &'static str) -> Edge {
    Edge { kind, count: 1, first_seen: seen, last_seen: seen }
}

fn merge(a: &Edge, b: &Edge) -> Edge {
    Edge {
        kind: a.kind,
        count: a.count + b.count,
        first_seen: a.first_seen.min(b.first_seen),
        last_seen: a.last_seen.max(b.last_seen),
    }
}

#[test]
fn upsert_merges_through_merge_edge() {
    let mut store = EmbeddedGraphStore::new();
    store.upsert_edge("txn", edge("Read", "1970-01-01T00:00:01.000Z"), merge);
    store.upsert_edge("txn", edge("Read", "1970-01-01T00:00:02.000Z"), merge);
    store.upsert_edge("txn", edge("Read", "1970-01-01T00:00:03.000Z"), merge);
    let got = store.get_edges(|_: &Edge| true, None);
    assert_eq!(got.len(), 1);
    assert_eq!(got[0].count, 3);
    assert_eq!(got[0].first_seen, "1970-01-01T00:00:01.000Z");
    assert_eq!(got[0].last_seen, "1970-01-01T00:00:03.000Z");
}

#[test]
fn get_edges_filters() {
    let mut store = EmbeddedGraphStore::new();
    store.upsert_edge("c", edge("Read", "3"), merge);
    store.upsert_edge("a", edge("Read", "1"), merge);
    store.upsert_edge("b", edge("ScoredBy", "2"), merge);
    let read = store.get_edges(|e: &Edge| e.kind == "Read", None);
    assert_eq!(read.iter().map(|e| e.first_seen).collect::<Vec<_>>(), ["1", "3"]);
    assert!(store.get_edges(|e: &Edge| e.kind == "Wrote", None).is_empty());
    assert_eq!(store.get_edges(|_: &Edge| true, Some(2)).len(), 2);
    assert!(store.get_edges(|_: &Edge| true, Some(0)).is_empty());
}

#[test]
fn unconfigured_store_returns_unconfigured() {
    let mut store: RemoteGraphStore<Edge> = RemoteGraphStore::new(None);
    assert!(store.get_edges(|_: &Edge| true).is_err());
    assert_eq!(
        store.upsert_edge("a", edge("Read", "1"), merge),
        Err(LineageStoreError::Unconfigured)
    );
}

#[test]
fn configured_store_upserts_and_queries() {
    let mut store = RemoteGraphStore::new(Some("http://localhost:8080".into()));
    assert_eq!(store.endpoint(), Some("http://localhost:8080"));
    assert_eq!(store.get_edges(|_: &Edge| true).unwrap().len(), 0);
    assert!(store.upsert_edge("a", edge("Read", "1"), merge).is_ok());
    assert_eq!(store.get_edges(|_: &Edge| true).unwrap(), vec![edge("Read", "1")]);
}

#[test]
fn records_come_back_from_a_topic() {
    let (key, value) = stored(RawRecord { key: Some(b"k1".to_vec()), payload: b"first".to_vec() });
    let batch = batch_of(vec![
        StoredRecord { key, value, offset: 4 },
        StoredRecord { key: None, value: None, offset: 5 },
    ]);
    assert_eq!(
        batch.records,
        vec![
            RawRecord { key: Some(b"k1".to_vec()), payload: b"first".to_vec() },
            RawRecord { key: None, payload: Vec::new() },
        ]
    );
    assert_eq!(batch.offsets, vec![4, 5]);
    assert_eq!(next_offset(&batch), Some(6));
    assert_eq!(next_offset(&RawBatch { records: Vec::new(), offsets: Vec::new() }), None);
    assert_eq!(next_offset(&RawBatch { records: Vec::new(), offsets: vec![i64::MAX] }), None);
}

#[test]
fn a_topic_that_is_there_already_is_no_fault() {
    assert!(after_create(Ok(())).is_ok());
    assert!(after_create(Err(s("Topic 'x' ALREADY EXISTS"))).is_ok());
    assert!(matches!(after_create(Err(s("no broker"))), Err(PortError::Kafka(e)) if e == "no broker"));
    assert_eq!(fetch_wait(5_000), 5_000);
    assert_eq!(fetch_wait(u32::MAX), i32::MAX);
    assert_eq!(fetch_wait(0x7fff_ffff), i32::MAX);
}

#[test]
fn texts_are_handled_as_texts() {
    assert_eq!(trim("\u{a0} a b \t"), "a b");
    assert_eq!(lines_of("a\r\nb\n\nc"), strings(&["a", "b", "", "c"]));
    assert_eq!(replace_all("aaa", "aa", "b"), "ba");
    assert_eq!(split_list(" a, ,b "), strings(&["a", "b"]));
    assert_eq!(distinct_texts(&strings(&["b", "a", "b"])), strings(&["b", "a"]));
    assert_eq!(join_texts(&strings(&["a", "b"]), ", "), "a, b");
    assert_eq!(integer_text(i64::MIN), "-9223372036854775808");
    assert_eq!(parse_u64("18446744073709551615"), Some(u64::MAX));
    assert_eq!(parse_u64("18446744073709551616"), None);
    assert_eq!(parse_u64("+7"), Some(7));
    assert_eq!(parse_u64(""), None);
    assert!(is_before("a", "ab") && is_before("Z", "a") && !is_before("a", "a"));
    assert_eq!(join_path("/a", "b"), "/a/b");
    assert_eq!(join_path("/a/", "b"), "/a/b");
    assert_eq!(join_path("/a", "/b"), "/b");
    let table = TomlValue::Table(vec![(s("k"), TomlValue::Array(vec![TomlValue::Text(s("a\"b"))]))]);
    assert_eq!(serialize_value(&table), "{k = [\"a\\\"b\"]}");
}

#[test]
fn orders_are_stable() {
    let key = |major: i64, minor: i64, id: &str| SortKey { major, minor, id: s(id) };
    let keys = vec![key(2, 0, "a"), key(1, 5, "z"), key(1, 5, "b"), key(1, -3, "z")];
    assert_eq!(order_of(&keys), vec![3, 2, 1, 0]);
    assert_eq!(order_of(&vec![key(0, 0, "x"), key(0, 0, "x")]), vec![0, 1]);
    assert_eq!(sort_texts(&strings(&["b", "", "a", "B"])), strings(&["", "B", "a", "b"]));
}

#[test]
fn logged_revisions_are_listed_newest_first() {
    let text = "bbb\u{1f}publish: app\u{1f}2026-09-17T00:00:00Z\naaa\u{1f}generate: 1 unit(s)\u{1f}2026-09-16T00:00:00Z\n";
    let entries = log(&Some(output(true, text, "")));
    let read: Vec<(&str, &str, &str)> = entries
        .iter()
        .map(|e| (e.hash.as_str(), e.message.as_str(), e.timestamp.as_str()))
        .collect();
    assert_eq!(
        read,
        [
            ("bbb", "publish: app", "2026-09-17T00:00:00Z"),
            ("aaa", "generate: 1 unit(s)", "2026-09-16T00:00:00Z"),
        ]
    );
}

#[test]
fn a_document_is_read_or_its_file_is_named() {
    assert_eq!(read_document("a.json", "[true]").unwrap(), Json::List(vec![Json::Bool(true)]));
    assert_eq!(
        read_document("a.json", "[").unwrap_err(),
        "parsing a.json: EOF while parsing a list at line 1 column 1"
    );
}

#[test]
fn only_a_failed_build_has_a_diagnostic() {
    assert_eq!(build_diagnostic(true, &b"warning".to_vec()), None);
    assert_eq!(build_diagnostic(false, &b"error: \xff".to_vec()).as_deref(), Some("error: \u{fffd}"));
}

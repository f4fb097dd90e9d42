use nirdosha_hi::api::answers::{
    check_generated, check_units, choose_pack, failed, generate_failed, generate_revision,
    handle_ask, handle_confirm_all, handle_generate, handle_git_diff, handle_git_log,
    handle_pack_install, handle_packs_list, handle_preview_start, handle_preview_status,
    handle_prompt, handle_publish, handle_suggest, plan_relations, publish_revision,
    say_sync_failed, sign_certificate, signed_certificate, Asked, Fault, Published, Suggested,
};
use nirdosha_hi::api::query::{
    body_param, is_decodable, is_form_readable, is_readable, percent_decode, query_param,
};
use nirdosha_hi::api::register::{
    no_register, read_register, screen_register_path, show_register, suggest_ids,
};
use nirdosha_hi::api::response::{
    build_page, logo_data_uri, ok_response, unit_response, ApiResponse,
};
use nirdosha_hi::api::routes::{is_mutating, plan_request, route, Plan, Route};
use nirdosha_hi::api::rows::{
    handle_impact, list_edges, list_nodes, list_screens, EdgeRow, NodeRow,
};
use nirdosha_hi::api::screen_entry::{
    add_screen, added, entry_block, extend_register, failed_addition, find_total, graph_name,
    grows_by, name_clash, nothing_to_extend, put_total,
    read_entry, validate_entry, ScreenEntry,
};
use nirdosha_hi::api::screen_map::{screen_ways, NavEntry, NavigationRow, ScreenRow};
use nirdosha_hi::api::typed::{
    call_of, call_text, page_args, read_call, typed_access, typed_graph_route, typed_response,
    PageStep, Paging, TypedRoute,
};
use nirdosha_hi::cli::impact::{ImpactHit, ImpactReport};
use nirdosha_hi::graph::code_unit_node_id;
use nirdosha_hi::json::Json;
use nirdosha_hi::llm::candidates::{PromptCandidate, SuggestedItem};
use nirdosha_hi::revision::RevisionEntry;
use nirdosha_hi::transport::Access;

const MUTATING_PATHS: [&str; 13] = [
    "/api/prompt",
    "/api/confirm",
    "/api/delete",
    "/api/edit",
    "/api/attach",
    "/api/waive",
    "/api/unwaive",
    "/api/packs/install",
    "/api/generate",
    "/api/publish",
    "/api/preview/start",
    "/api/preview/stop",
    "/api/screen-register/add",
];

const REGISTER: &str = "[metadata]\ntotal_screens = 1\n\n[[screen]]\nid = \"4.1\"\nname = \"Hold List\"\nmodule = \"M4\"\narchetype = \"crud_screens!\"\ncombo = []\nroles = [\"OpsAnalyst:R\"]\nstage = \"built\"\n";

fn s(text: &str) -> String {
    text.to_string()
}

fn strings(list: &[&str]) -> Vec<String> {
    list.iter().map(|t| t.to_string()).collect()
}

fn body(r: &ApiResponse) -> serde_json::Value {
    serde_json::from_slice(&r.body).expect("valid JSON")
}

/// What a request to an untyped project is answered where no graph is needed.
fn answer(method: &str, path: &str, query: &str, form: &[u8]) -> ApiResponse {
    match plan_request(route(method, path, false), query, form) {
        Some(Plan::Answer(r)) => r,
        _ => panic!("{method} {path} needs the graph"),
    }
}

fn screen(id: &str, name: &str, kind: &str, path: Option<&str>) -> ScreenRow {
    ScreenRow {
        id: s(id),
        name: s(name),
        screen_type: s(kind),
        screen_path: path.map(s),
        screen_nav: None,
        nav: None,
    }
}

fn way(source: &str, target: &str, label: &str) -> NavigationRow {
    NavigationRow { source_id: s(source), target_id: s(target), label: s(label), inferred: false }
}

fn node(id: &str) -> NodeRow {
    NodeRow {
        id: s(id),
        kind: s("CodeUnit"),
        title: Some(s("add")),
        status: None,
        content_hash: Some(s("abc")),
        source_ref: Some(s("a.nir")),
        line: Some(1),
        col: None,
        driving_text: None,
        created_by: None,
        confirmed: 1,
        locked: 0,
        waived: 0,
        waive_reason: None,
        attributes: Some(s("requires(role: admin)")),
        plugin_origin: None,
        non_waivable: false,
        screen_type: None,
        screen_path: None,
        screen_nav: None,
    }
}

#[test]
fn percent_decode_handles_plus_and_hex_escapes() {
    assert_eq!(percent_decode("hello+world"), "hello world");
    assert_eq!(percent_decode("a%20b%3F"), "a b?");
    assert_eq!(percent_decode("plain"), "plain");
}

#[test]
fn percent_decode_keeps_what_is_no_escape() {
    assert_eq!(percent_decode("100%"), "100%");
    assert_eq!(percent_decode("%zz"), "%zz");
    assert_eq!(percent_decode("%+f!"), "\u{f}!");
    assert_eq!(percent_decode("%e4%b8%ad"), "中");
    assert_eq!(percent_decode("%ff"), "\u{fffd}");
}

#[test]
fn a_percent_sign_before_the_middle_of_a_character_cannot_be_decoded() {
    assert!(is_decodable("50%25"));
    assert!(!is_decodable("%aé"));
    assert!(is_readable("a=1&b=%aé", "a"));
    assert!(!is_readable("a=1&b=%aé", "b"));
    assert!(!is_form_readable("b=%aé".as_bytes(), "b"));
    assert!(is_form_readable(&[0xff, 0xfe], "b"));
    assert!(plan_request(route("GET", "/api/ask", false), "q=%aé", b"").is_none());
}

#[test]
fn query_param_finds_the_named_key_among_several() {
    assert_eq!(query_param("a=1&b=hello+world&c=3", "b"), Some("hello world".to_string()));
    assert_eq!(query_param("a=1", "missing"), None);
    assert_eq!(query_param("", "a"), None);
}

#[test]
fn a_body_that_is_no_text_has_no_parameters() {
    assert_eq!(body_param(b"node=x&node=y", "node"), Some(s("x")));
    assert_eq!(body_param(&[0x6e, 0x3d, 0xff], "n"), None);
}

#[test]
fn list_screens_serves_derived_nav_edges_and_falls_back_only_for_orphans() {
    let rows = vec![
        screen("code:screen:app_shell", "Shell", "shell", None),
        screen("code:screen:my_day", "My Day", "dashboard", Some("/my-day")),
        screen("code:screen:orph", "Orphan", "page", Some("/orphan")),
    ];
    let derived = vec![way("code:screen:app_shell", "code:screen:my_day", "nav.day")];
    let ways = screen_ways(&rows, derived);
    assert_eq!(rows.len(), 3);
    let real: Vec<_> = ways.iter().filter(|n| !n.inferred).collect();
    assert_eq!(real.len(), 1, "exactly one derived edge: {ways:?}");
    assert_eq!(real[0].source_id, "code:screen:app_shell");
    assert_eq!(real[0].target_id, "code:screen:my_day");
    assert_eq!(real[0].label, "nav.day");
    let orphan: Vec<_> =
        ways.iter().filter(|n| n.inferred && n.target_id == "code:screen:orph").collect();
    assert_eq!(orphan.len(), 1, "orphan screen gets the synthetic shell edge");
    let myday: Vec<_> =
        ways.iter().filter(|n| n.inferred && n.target_id == "code:screen:my_day").collect();
    assert!(
        myday.is_empty(),
        "a screen reached by a real edge must not also get a synthetic one"
    );
}

#[test]
fn a_project_without_derived_ways_gets_the_whole_fallback() {
    let mut shell = screen("shell", "Shell", "shell", None);
    shell.screen_nav = Some(s("[{\"label\":\"Day\",\"href\":\"/day\"}]"));
    shell.nav = Some(vec![NavEntry { label: s("Day"), href: s("/day") }]);
    let rows = vec![
        shell,
        screen("login", "Login", "login", Some("/login")),
        screen("day", "Day", "landing", Some("/day")),
    ];
    let ways = screen_ways(&rows, Vec::new());
    let told: Vec<(&str, &str, &str, bool)> = ways
        .iter()
        .map(|w| (w.source_id.as_str(), w.target_id.as_str(), w.label.as_str(), w.inferred))
        .collect();
    assert_eq!(
        told,
        [
            ("shell", "day", "Day", false),
            ("shell", "login", "app shell", true),
            ("shell", "day", "app shell", true),
            ("login", "day", "post-login landing", true),
            ("shell", "login", "login", true),
        ]
    );
}

#[test]
fn the_map_of_screens_is_a_document() {
    let rows = vec![
        screen("code:screen:shell", "Shell", "shell", None),
        screen("code:screen:day", "Day", "page", Some("/day")),
    ];
    let map = body(&list_screens(&rows, Vec::new()));
    assert_eq!(map["screens"][1]["screen_path"], "/day");
    assert_eq!(map["screens"][0]["screen_nav"], serde_json::Value::Null);
    assert_eq!(map["navigations"][0]["source_id"], "code:screen:shell");
    assert_eq!(map["navigations"][0]["inferred"], true);
}

#[test]
fn a_listing_of_nodes_tells_every_column() {
    let r = list_nodes(&Ok(vec![node("code:fn:add")]));
    assert_eq!(r.status, 200);
    let rows = body(&r);
    assert_eq!(rows[0]["id"], "code:fn:add");
    assert_eq!(rows[0]["plugin_origin"], serde_json::Value::Null);
    assert_eq!(rows[0]["non_waivable"], false);
    assert_eq!(rows[0]["line"], 1);
    assert_eq!(rows[0]["col"], serde_json::Value::Null);
    assert_eq!(rows[0].as_object().unwrap().len(), 20);
    let bad = list_nodes(&Err(s("no table")));
    assert_eq!(bad.status, 500);
    assert_eq!(body(&bad)["error"], "no table");
}

#[test]
fn handle_lists_nodes_reports_plugin_origin_and_non_waivable() {
    let sealed = NodeRow {
        plugin_origin: Some(s("banking-v0")),
        non_waivable: true,
        ..node("code:fn:charge_cents")
    };
    let resp = list_nodes(&Ok(vec![node("code:fn:add"), sealed]));
    assert_eq!(resp.status, 200);
    let rows = body(&resp);
    let rows = rows.as_array().unwrap();
    let sealed = rows.iter().find(|n| n["plugin_origin"] != serde_json::Value::Null).unwrap();
    assert_eq!(sealed["plugin_origin"], "banking-v0");
    assert_eq!(sealed["non_waivable"], true);
}

#[test]
fn a_listing_of_edges_tells_every_column() {
    let rows = Ok(vec![EdgeRow {
        src: s("a"),
        dst: s("b"),
        kind: s("RELATES_TO"),
        flag: Some(s("possibly_stale")),
        flag_reason: None,
    }]);
    let r = list_edges(&rows);
    assert_eq!(
        String::from_utf8(r.body).unwrap(),
        "[{\"src\":\"a\",\"dst\":\"b\",\"kind\":\"RELATES_TO\",\"flag\":\"possibly_stale\",\"flag_reason\":null}]"
    );
    assert_eq!(list_edges(&Err(s("x"))).status, 500);
}

#[test]
fn handle_rejects_non_get_methods() {
    let resp = answer("POST", "/api/nodes", "", b"");
    assert_eq!(resp.status, 405);
    assert_eq!(body(&resp)["error"], "only GET is supported");
}

#[test]
fn handle_reports_a_missing_query_param_as_a_client_error() {
    let resp = answer("GET", "/api/impact", "", b"");
    assert_eq!(resp.status, 400);
    assert_eq!(body(&resp)["error"], "missing required query param `target`");
}

#[test]
fn handle_reports_unknown_paths_as_not_found() {
    let resp = answer("GET", "/api/nope", "", b"");
    assert_eq!(resp.status, 404);
}

#[test]
fn mutating_routes_reject_get() {
    for path in MUTATING_PATHS {
        let resp = answer("GET", path, "", b"");
        assert_eq!(resp.status, 405, "{path} should reject GET");
        assert!(is_mutating(path));
    }
}

#[test]
fn suggest_is_a_get_route_not_in_the_mutating_allowlist() {
    assert!(!is_mutating("/api/suggest"));
    assert!(route("GET", "/api/suggest", false) == Route::Suggest);
}

#[test]
fn a_typed_project_answers_by_its_typed_graph() {
    assert!(route("GET", "/api/nodes", true) == Route::TypedGraph);
    assert!(route("POST", "/api/graph/call", false) == Route::TypedGraph);
    assert!(route("GET", "/", true) == Route::Page);
}

#[test]
fn requests_are_planned_with_their_parameters() {
    let p = plan_request(
        route("POST", "/api/edit", false),
        "",
        b"node=code%3Afn%3Ax&text=moves+money",
    );
    assert!(matches!(p, Some(Plan::Edit { node, text }) if node == "code:fn:x" && text == "moves money"));
    let p = plan_request(route("POST", "/api/waive", false), "", b"node=n");
    assert!(matches!(p, Some(Plan::Waive { node, reason }) if node == "n" && reason.is_empty()));
    assert_eq!(answer("POST", "/api/waive", "", b"").status, 400);
    assert!(matches!(
        plan_request(route("POST", "/api/confirm", false), "", b""),
        Some(Plan::ConfirmAll)
    ));
    assert!(matches!(
        plan_request(route("GET", "/api/git", false), "", b""),
        Some(Plan::GitLog { limit: 50 })
    ));
    let p = plan_request(route("GET", "/api/git", false), "op=diff&rev=abc", b"");
    assert!(matches!(p, Some(Plan::GitDiff { rev }) if rev == "abc"));
    assert_eq!(
        body(&answer("GET", "/api/git", "op=blame", b""))["error"],
        "unknown ?op=blame -- expected `log` (default) or `diff`"
    );
    assert_eq!(
        body(&answer("GET", "/api/git", "op=diff", b""))["error"],
        "?op=diff needs a `rev` query param"
    );
}

#[test]
fn confirm_delete_edit_attach_waive_round_trip_over_http() {
    let id = code_unit_node_id("fn", "transfer_funds");
    let planned = |path: &str, form: String| {
        plan_request(route("POST", path, false), "", form.as_bytes()).unwrap()
    };
    let p = planned("/api/confirm", format!("node={id}"));
    assert!(matches!(p, Plan::ConfirmNode { node } if node == id));
    let p = planned("/api/attach", format!("node={id}&attr=requires(role%3A+admin)"));
    assert!(matches!(p, Plan::Attach { node, attr } if node == id && attr == "requires(role: admin)"));
    let p = planned("/api/edit", format!("node={id}&text=moves+money+between+two+accounts"));
    assert!(matches!(p, Plan::Edit { node, text } if node == id && text == "moves money between two accounts"));
    assert_eq!(unit_response(&Ok(()), 400).status, 200);
    assert_eq!(
        answer("POST", "/api/waive", "", b"").status,
        400,
        "waive with no node/reason should be rejected"
    );
    let p = planned("/api/waive", format!("node={id}&reason=not+needed"));
    assert!(matches!(p, Plan::Waive { node, reason } if node == id && reason == "not needed"));
    let p = planned("/api/unwaive", format!("node={id}"));
    assert!(matches!(p, Plan::Unwaive { node } if node == id));
    let p = planned("/api/delete", format!("node={id}"));
    assert!(matches!(p, Plan::Delete { node } if node == id));
}

#[test]
fn answers_are_json_documents() {
    let ok = ok_response();
    assert_eq!(ok.status, 200);
    assert_eq!(ok.content_type, "application/json");
    assert_eq!(ok.body, b"{\"ok\":true}");
    assert_eq!(ApiResponse::error(404, "a \"b\"").body, b"{\"error\":\"a \\\"b\\\"\"}");
    assert_eq!(unit_response(&Err(s("no")), 400).status, 400);
    assert_eq!(failed(Fault::Model, "x").status, 502);
    assert_eq!(failed(Fault::Inside, "x").status, 500);
}

#[test]
fn the_page_carries_the_logo() {
    assert_eq!(logo_data_uri(&[1, 2, 3]), "data:image/png;base64,AQID");
    let page = build_page("<img src=\"__NIRDOSHA_LOGO__\"><i>__NIRDOSHA_LOGO__</i>", "L");
    assert_eq!(page.content_type, "text/html; charset=utf-8");
    assert_eq!(page.body, b"<img src=\"L\"><i>L</i>");
    assert_eq!(
        ApiResponse::javascript("var x;").content_type,
        "application/javascript; charset=utf-8"
    );
}

#[test]
fn handle_packs_list_reports_known_packs_and_installed_state() {
    let r = handle_packs_list(&Ok(strings(&["banking-v0"])), &Vec::new());
    assert_eq!(r.status, 200);
    let packs = body(&r);
    assert_eq!(packs[0]["id"], "banking-v0");
    assert_eq!(packs[0]["installed"], true);
    assert_eq!(packs[0]["signer_identity"], serde_json::Value::Null);
    assert_eq!(packs[0]["trust_indicator"], "unsigned");
    assert_eq!(packs[1]["id"], "fapi-2.0");
    assert_eq!(packs[1]["installed"], false);
    assert_eq!(packs[1]["trust_indicator"], "unsigned");
    let signed = body(&handle_packs_list(
        &Ok(strings(&["fapi-2.0"])),
        &vec![(s("fapi-2.0"), s("someone")), (s("banking-v0"), s("nobody"))],
    ));
    assert_eq!(signed[1]["signer_identity"], "someone");
    assert_eq!(signed[1]["trust_indicator"], "signed");
    assert_eq!(signed[0]["signer_identity"], serde_json::Value::Null, "not installed, not signed");
    assert_eq!(handle_packs_list(&Err(s("x")), &Vec::new()).status, 500);
}

#[test]
fn handle_pack_install_installs_a_known_pack_and_refuses_an_unknown_one() {
    let p = plan_request(route("POST", "/api/packs/install", false), "", b"pack_id=fapi-2.0");
    assert!(matches!(p, Some(Plan::InstallPack { pack_id }) if pack_id == "fapi-2.0"));
    assert_eq!(choose_pack("fapi-2.0").unwrap(), "hi UI install: fapi-2.0");
    let refused = choose_pack("not-a-real-pack").unwrap_err();
    assert_eq!(refused.status, 400, "an unknown pack id must be refused, not silently accepted");
    assert_eq!(
        body(&refused)["error"],
        "`not-a-real-pack` is not one of the packs this UI can install"
    );
    let done = handle_pack_install(&Ok(s("fapi-2.0")));
    assert_eq!(body(&done)["pack_id"], "fapi-2.0");
    assert_eq!(handle_pack_install(&Err(s("no"))).status, 500);
    assert_eq!(answer("POST", "/api/packs/install", "", b"").status, 400);
}

#[test]
fn ask_finds_a_local_keyword_hit_without_ever_needing_an_llm() {
    let p = plan_request(route("GET", "/api/ask", false), "q=tick", b"");
    assert!(matches!(p, Some(Plan::Ask { question }) if question == "tick"));
    let hits = Json::List(vec![Json::Text(s("tick"))]);
    let r = handle_ask(&hits, &Asked::NoModel);
    assert_eq!(r.status, 200);
    let told = body(&r);
    assert_eq!(told["hits"].as_array().unwrap().len(), 1);
    assert!(told["answer"].is_null());
    let told = body(&handle_ask(&hits, &Asked::Answer(s("it advances the clock"))));
    assert_eq!(told["answer"], "it advances the clock");
    let told = body(&handle_ask(&hits, &Asked::Failed(s("timed out"))));
    assert!(told["answer"].is_null());
    assert_eq!(told["error"], "timed out");
}

#[test]
fn ask_degrades_to_no_matches_rather_than_erroring_when_nothing_local_and_no_llm_configured() {
    let p = plan_request(route("GET", "/api/ask", false), "q=this+project+about", b"");
    assert!(matches!(p, Some(Plan::Ask { question }) if question == "this project about"));
    let resp = handle_ask(&Json::List(Vec::new()), &Asked::NoModel);
    assert_eq!(resp.status, 200, "an unconfigured LLM must degrade, not error");
    assert!(body(&resp)["hits"].as_array().unwrap().is_empty());
    assert!(body(&resp)["answer"].is_null());
}

#[test]
fn suggest_degrades_to_an_empty_list_rather_than_erroring_when_no_llm_configured() {
    let p = plan_request(route("GET", "/api/suggest", false), "", b"");
    assert!(matches!(p, Some(Plan::Suggest)));
    let r = handle_suggest(&Suggested::NoModel);
    assert_eq!(r.status, 200);
    assert!(body(&r)["suggestions"].as_array().unwrap().is_empty());
    let items = vec![SuggestedItem {
        kind: s("attribute"),
        target: s("transfer_funds"),
        unit_kind: None,
        reason: s("no role"),
        draft: s("requires(role: admin)"),
    }];
    let told = body(&handle_suggest(&Suggested::Items(items)));
    assert_eq!(told["suggestions"][0]["target"], "transfer_funds");
    assert_eq!(told["suggestions"][0]["unit_kind"], serde_json::Value::Null);
    let told = body(&handle_suggest(&Suggested::Failed(s("no"))));
    assert!(told["suggestions"].as_array().unwrap().is_empty());
    assert_eq!(told["error"], "no");
}

#[test]
fn history_is_told_as_json() {
    let entries = vec![RevisionEntry {
        hash: s("abc"),
        message: s("generate: 1 unit(s)"),
        timestamp: s("2026-09-16T00:00:00Z"),
    }];
    let told = body(&handle_git_log(&Ok(entries)));
    assert_eq!(told["ok"], true);
    assert_eq!(told["log"][0]["message"], "generate: 1 unit(s)");
    assert_eq!(handle_git_log(&Err(s("x"))).status, 500);
    assert_eq!(body(&handle_git_diff(&Ok(s("+a"))))["diff"], "+a");
    assert_eq!(handle_git_diff(&Err(s("bad rev"))).status, 400);
}

fn candidate(name: &str, deps: &[&str]) -> PromptCandidate {
    PromptCandidate {
        kind: s("fn"),
        name: s(name),
        driving_text: s("does"),
        depends_on: strings(deps),
    }
}

#[test]
fn relations_are_recorded_between_candidates_of_a_batch_only() {
    let batch =
        vec![candidate("pay", &["limit", "ledger"]), candidate("limit", &[]), candidate("x", &["pay"])];
    let ids = strings(&["code:fn:pay", "code:fn:limit", "code:fn:x"]);
    let pairs = plan_relations(&batch, &ids);
    assert_eq!(
        pairs,
        vec![(s("code:fn:pay"), s("code:fn:limit")), (s("code:fn:x"), s("code:fn:pay"))]
    );
    let told = body(&handle_prompt(&ids, 2));
    assert_eq!(told["nodes_added"], 3);
    assert_eq!(told["edges_added"], 2);
    assert_eq!(told["nodes"][1], "code:fn:limit");
}

#[test]
fn the_last_candidate_of_a_name_stands_for_it() {
    let batch = vec![candidate("a", &["a"]), candidate("a", &[])];
    let pairs = plan_relations(&batch, &strings(&["first", "second"]));
    assert_eq!(pairs, vec![(s("second"), s("second"))]);
}

#[test]
fn confirm_with_no_node_param_confirms_everything() {
    let p = plan_request(route("POST", "/api/confirm", false), "", b"");
    assert!(matches!(p, Some(Plan::ConfirmAll)));
    let told = body(&handle_confirm_all(&Ok(strings(&["code:fn:add", "code:fn:subtract"]))));
    assert_eq!(told["ok"], true);
    assert_eq!(told["confirmed"][1], "code:fn:subtract");
    assert_eq!(handle_confirm_all(&Err(s("x"))).status, 500);
}

#[test]
fn generate_refuses_when_nothing_is_confirmed() {
    let resp = check_units(0).unwrap_err();
    assert_eq!(resp.status, 400);
    assert!(String::from_utf8_lossy(&resp.body).contains("nothing confirmed"));
    assert!(check_units(1).is_ok());
}

#[test]
fn publish_refuses_before_anything_has_been_generated() {
    let resp = check_generated(false).unwrap_err();
    assert_eq!(resp.status, 400);
    assert!(String::from_utf8_lossy(&resp.body).contains("nothing generated"));
    assert!(check_generated(true).is_ok());
}

#[test]
fn preview_start_refuses_before_anything_has_been_generated() {
    let p = plan_request(route("POST", "/api/preview/start", false), "", b"");
    assert!(matches!(p, Some(Plan::StartPreview)));
    let resp = check_generated(false).unwrap_err();
    assert_eq!(resp.status, 400);
    assert!(String::from_utf8_lossy(&resp.body).contains("nothing generated"));
}

#[test]
fn a_generation_accounts_for_every_unit() {
    let ids = strings(&["a", "b", "c"]);
    let locked = strings(&["b"]);
    let log = strings(&["wrote"]);
    let told = body(&handle_generate("/p/x.nir", &ids, &locked, &Ok(Some(s("abc"))), &log));
    assert_eq!(told["not_declared"][0], "a");
    assert_eq!(told["not_declared"][1], "c");
    assert_eq!(told["not_declared"].as_array().unwrap().len(), 2);
    assert_eq!(told["revision"], "abc");
    let told = body(&handle_generate("/p/x.nir", &ids, &locked, &Err(s("no git")), &log));
    assert_eq!(told["ok"], true);
    assert_eq!(told["revision"], serde_json::Value::Null);
    assert_eq!(told["log"][1], "warning: could not commit this generate to git: no git");
    let told = body(&generate_failed(&say_sync_failed("/p/x.nir", "bad"), &log));
    assert_eq!(told["ok"], false);
    assert_eq!(told["error"], "generated /p/x.nir but sync failed: bad");
    assert_eq!(generate_revision(3), "generate: 3 unit(s)");
    assert_eq!(publish_revision("/p/hi_build"), "publish: /p/hi_build");
}

#[test]
fn a_publication_tells_where_it_is() {
    let p = Published {
        binary: s("/p/hi_build"),
        certificate: s("/p/hi_build.certificate.json"),
        signed: false,
        revision: None,
    };
    let told = body(&handle_publish(&Ok(p)));
    assert_eq!(told["ok"], true);
    assert_eq!(told["signed"], false);
    assert_eq!(told["binary"], "/p/hi_build");
    let told = body(&handle_publish(&Err(s("publish refused"))));
    assert_eq!(told["ok"], false);
    assert_eq!(told["error"], "publish refused");
}

#[test]
fn a_signature_keeps_the_certificate_as_it_is() {
    let certificate = Json::Object(vec![(s("z"), Json::Int(1)), (s("a"), Json::Null)]);
    assert_eq!(
        signed_certificate(&certificate, "pk", "sig"),
        "{\n  \"certificate\": {\n    \"z\": 1,\n    \"a\": null\n  },\n  \"signature_algorithm\": \"ed25519\",\n  \"public_key\": \"pk\",\n  \"signature\": \"sig\"\n}"
    );
}

#[test]
fn a_certificate_is_signed_as_it_stands_in_its_file() {
    let signed = sign_certificate(b" {\"z\":1, \"a\":null}\n", "/p/c.json", "pk", "sig");
    assert_eq!(
        signed.unwrap(),
        "{\n  \"certificate\": {\n    \"z\": 1,\n    \"a\": null\n  },\n  \"signature_algorithm\": \"ed25519\",\n  \"public_key\": \"pk\",\n  \"signature\": \"sig\"\n}"
    );
    let e = sign_certificate(b"{", "/p/c.json", "pk", "sig").unwrap_err();
    assert!(e.starts_with("parsing /p/c.json before signing it: "), "{e}");
}

#[test]
fn a_preview_tells_its_port_and_path() {
    let told = body(&handle_preview_start(&Ok((18099, s("/tasks")))));
    assert_eq!(told["port"], 18099);
    assert_eq!(told["path"], "/tasks");
    assert_eq!(body(&handle_preview_start(&Err(s("no"))))["ok"], false);
    let told = body(&handle_preview_status(None, &None));
    assert_eq!(told["running"], false);
    assert_eq!(told["port"], serde_json::Value::Null);
    let told = body(&handle_preview_status(Some(80), &Some(s("/tasks"))));
    assert_eq!(told["running"], true);
    assert_eq!(told["path"], "/tasks");
}

#[test]
fn screen_register_get_surfaces_vocabularies_and_next_ids() {
    let text = "[metadata]\ntotal_screens = 3\n\n[[screen]]\nid = \"4.1\"\nname = \"Hold List\"\nmodule = \"M4\"\narchetype = \"crud_screens!\"\ncombo = []\nroles = [\"OpsAnalyst:R\", \"Admin:R\"]\nstage = \"built\"\n\n[[screen]]\nid = \"4.13\"\nname = \"Hold Detail\"\nmodule = \"M4\"\narchetype = \"dashboard!\"\ncombo = []\nroles = [\"OpsAnalyst:R\"]\nstage = \"emittable\"\n\n[[screen]]\nid = \"7.1\"\nname = \"Feed\"\nmodule = \"M7\"\narchetype = \"communication_feed!\"\ncombo = []\nroles = [\"CsAgent:R/W\"]\nstage = \"interim\"\n";
    let resp = show_register(text, "/p/screens.toml", "screens.toml").expect("the ids can be counted up");
    assert_eq!(resp.status, 200);
    let data = body(&resp);
    assert_eq!(data["exists"], true);
    assert_eq!(data["metadata"]["total_screens"], 3);
    assert_eq!(data["modules"][0], "M4");
    assert_eq!(data["modules"][1], "M7");
    assert_eq!(data["modules"].as_array().unwrap().len(), 2);
    assert_eq!(data["archetypes"][0], "communication_feed!");
    assert!(data["roles"].as_array().unwrap().iter().any(|r| r == "OpsAnalyst"));
    assert_eq!(data["next_ids"]["M4"], "4.14");
    assert_eq!(data["next_ids"]["M7"], "7.2");
}

#[test]
fn screen_register_get_reports_missing_register_as_exists_false() {
    assert_eq!(screen_register_path(false, false), None);
    assert_eq!(screen_register_path(true, true), Some("screens.toml"));
    assert_eq!(screen_register_path(false, true), Some("screen.toml"));
    let resp = no_register();
    assert_eq!(resp.status, 200);
    assert_eq!(body(&resp)["exists"], false);
}

#[test]
fn a_register_that_is_no_toml_is_an_error() {
    let bad = show_register("not = = toml", "/p/screens.toml", "screens.toml").unwrap();
    assert_eq!(bad.status, 500);
    let told = body(&bad);
    assert!(told["error"].as_str().unwrap().starts_with("/p/screens.toml did not parse as TOML: "));
}

#[test]
fn numbers_are_suggested_for_numbered_modules_only() {
    let ids = strings(&["4.1", "4.9", "x", "40.7"]);
    let told = suggest_ids(&strings(&["M4", "Core", "M", "M40"]), &ids).unwrap();
    let told: Vec<(String, Json)> = told.entries;
    assert_eq!(told, vec![(s("M4"), Json::Text(s("4.10"))), (s("M40"), Json::Text(s("40.8")))]);
    assert!(suggest_ids(&strings(&["M4"]), &strings(&["4.18446744073709551615"])).is_none());
}

fn entry(form: &str) -> ScreenEntry {
    match read_entry(form.as_bytes()) {
        Some(Ok(e)) => e,
        _ => panic!("the form should read"),
    }
}

#[test]
fn screen_register_add_appends_entry_and_records_candidate() {
    let form = "name=Payment+Hold+Detail&id=4.14&module=M4&archetype=crud_screens%21&stage=&path=%2Fholds%2F%7Bid%7D&roles=OpsAnalyst%3AR%2CAdmin%3AR%2FW&file=&datasets=PG.payments&blocked_by=&notes=Second+hold+view";
    let e = entry(form);
    let addition = match add_screen(&e, REGISTER, "/p/screens.toml") {
        Ok(a) => a,
        Err(_) => panic!("the entry should be accepted"),
    };
    assert_eq!(code_unit_node_id("screen", &addition.unit), "code:screen:PaymentHoldDetail");
    let register = addition.register.as_str();
    assert!(register.contains("total_screens = 2"), "count bumped: {register}");
    assert!(register.contains("[[screen]]\nid = \"4.14\""));
    assert!(register.contains("name = \"Payment Hold Detail\""));
    assert!(register.contains("roles = [\"OpsAnalyst:R\", \"Admin:R/W\"]"));
    assert!(register.contains("stage = \"emittable\""), "empty stage defaults to emittable");
    let driving = addition.driving.as_str();
    assert!(driving.contains("Screen 4.14 (M4)"));
    assert!(driving.contains("Route: /holds/{id}"));
    let told = body(&added(
        "code:screen:PaymentHoldDetail",
        &e.id,
        "/p/screens.toml",
        &addition.block,
    ));
    assert_eq!(told["ok"], true);
    assert_eq!(told["node"], "code:screen:PaymentHoldDetail");
    assert_eq!(told["screen_id"], "4.14");
    assert_eq!(
        told["appended_toml"],
        "\n[[screen]]\nid = \"4.14\"\nname = \"Payment Hold Detail\"\nmodule = \"M4\"\narchetype = \"crud_screens!\"\ncombo = []\nroles = [\"OpsAnalyst:R\", \"Admin:R/W\"]\ndatasets = [\"PG.payments\"]\nstage = \"emittable\"\nnotes = \"Second hold view\""
    );
}

fn refusal(form: &str) -> serde_json::Value {
    match add_screen(&entry(form), REGISTER, "/p/screens.toml") {
        Err(r) => {
            assert_eq!(r.status, 400);
            body(&r)
        }
        Ok(_) => panic!("the entry should be refused"),
    }
}

#[test]
fn screen_register_add_rejects_without_writing_on_invalid_entry() {
    let data = refusal("name=Another&id=4.1&module=M4&archetype=crud_screens%21&roles=OpsAnalyst%3AR");
    assert!(data["fields"]["id"].as_str().unwrap().contains("already exists"));
    let data = refusal(
        "name=Another&id=4.2&module=M4&archetype=crud_screens%21&stage=shipped&roles=OpsAnalyst%3AR",
    );
    assert!(data["fields"]["stage"].as_str().unwrap().contains("unknown stage"));
    let data = refusal("name=Another&id=4.2&module=M4&archetype=crud_screens%21&roles=");
    assert!(data["fields"]["roles"].as_str().unwrap().contains("at least one role"));
}

#[test]
fn every_field_of_an_entry_is_checked() {
    let long = "x".repeat(121);
    let form = format!(
        "name={long}&id=4&module=M9&archetype=chart%21&roles=Ops%3AX&path=holds&file=a.nir"
    );
    let data = refusal(&form);
    let fields = &data["fields"];
    assert_eq!(data["error"], "invalid screen entry");
    assert_eq!(fields["name"], "keep the name under 120 characters");
    assert_eq!(fields["id"], "use the register's <module-serial>.<seq> shape, e.g. 4.14");
    assert_eq!(fields["module"], "unknown module 'M9' -- pick one the register already uses");
    assert_eq!(fields["archetype"], "unknown archetype 'chart!' -- pick one the register uses");
    assert_eq!(fields["roles"], "roles must be `Name:R`, `Name:R/W` or `Name:W` -- got Ops:X");
    assert_eq!(
        fields["path"],
        "routes are kebab-case with {param} placeholders, e.g. /holds/{id}"
    );
    assert_eq!(fields["file"], "the file must be one the register already tracks");
}

#[test]
fn an_entry_needs_a_name_and_an_id() {
    match read_entry(b"id=4.2") {
        Some(Err(r)) => assert_eq!(body(&r)["error"], "missing required body param `name`"),
        _ => panic!("no name"),
    }
    match read_entry(b"name=x&id=+") {
        Some(Err(r)) => assert_eq!(body(&r)["error"], "missing required body param `id`"),
        _ => panic!("no id"),
    }
    assert!(read_entry("name=%aé".as_bytes()).is_none());
    assert_eq!(nothing_to_extend().status, 400);
}

#[test]
fn screen_register_add_refuses_name_collision_with_synced_unit() {
    let unit = graph_name("Payment Hold Detail");
    assert_eq!(unit, "PaymentHoldDetail");
    let resp = name_clash(&unit);
    assert_eq!(resp.status, 400);
    let text = String::from_utf8_lossy(&resp.body);
    assert!(text.contains("synced code unit"), "error names the collision: {text}");
    assert_eq!(graph_name("--"), "NewScreen");
    assert_eq!(graph_name("kYC review-2"), "KycReview2");
}

#[test]
fn values_are_escaped_in_the_register() {
    let mut e = entry("name=x&id=4.2");
    e.name = s("a \"b\" \\ c");
    let doc = read_register(REGISTER, "p").unwrap();
    assert!(validate_entry(&e, &doc).is_err());
    let block = entry_block(&e);
    assert!(block.contains("name = \"a \\\"b\\\" \\\\ c\""), "{block}");
    e.name = s("a\tb\nc\rd\u{7}e\u{7f}");
    let block = entry_block(&e);
    assert!(block.contains("name = \"a\tb\\nc\\rd\\u0007e\\u007f\"\n"), "{block}");
}

const FORM: &str = "name=Two&id=4.2&module=M4&archetype=crud_screens%21&roles=Ops%3AR";

fn extended(register: &str, e: &ScreenEntry) -> Option<toml::Value> {
    let old: toml::Value = register.parse().unwrap();
    let addition = match add_screen(e, register, "/p/screens.toml") {
        Ok(a) => a,
        Err(r) => {
            assert_eq!(r.status, 400);
            return None;
        }
    };
    assert!(addition.register.ends_with(&addition.block));
    let new: toml::Value = addition.register.parse().expect("the new register reads");
    let (before, after) = (old["screen"].as_array().unwrap(), new["screen"].as_array().unwrap());
    assert_eq!(after[..before.len()], before[..]);
    assert_eq!(after.len(), before.len() + 1);
    assert_eq!(after[before.len()]["name"].as_str(), Some(e.name.as_str()));
    Some(new)
}

#[test]
fn the_total_is_raised_however_it_is_written() {
    for written in [
        "total_screens=1",
        "total_screens   =\t1 # one",
        "\"total_screens\" = 1",
        "'total_screens' = 1",
        "total_screens = 0x1",
        "total_screens = +1",
        "# total_screens = 1\ntotal_screens = 1",
        "note = \"total_screens = 1\"\ntotal_screens = 1",
    ] {
        let register = REGISTER.replace("total_screens = 1", written);
        assert_ne!(register, if written == "total_screens = 1" { "" } else { REGISTER });
        let new = extended(&register, &entry(FORM)).expect(written);
        assert_eq!(new["metadata"]["total_screens"].as_integer(), Some(2), "{written}");
    }
    let silent = REGISTER.replace("total_screens = 1\n", "");
    assert_ne!(silent, REGISTER);
    let new = extended(&silent, &entry(FORM)).unwrap();
    assert!(new.get("metadata").and_then(|m| m.get("total_screens")).is_none());
    let largest = REGISTER.replace("total_screens = 1", "total_screens = 9223372036854775807");
    assert!(extended(&largest, &entry(FORM)).is_none());
}

#[test]
fn an_entry_on_several_lines_leaves_the_register_readable() {
    let e = entry(&format!("{}&notes=a%0Ab%22%5C%00&datasets=x%0Ay,z", FORM.replace("Two", "Two%0Alines%07")));
    assert_eq!(e.name, "Two\nlines\u{7}");
    let new = extended(REGISTER, &e).unwrap();
    let last = new["screen"].as_array().unwrap().last().unwrap().clone();
    assert_eq!(last["notes"].as_str(), Some("a\nb\"\\\0"));
    assert_eq!(last["datasets"].as_array().unwrap().len(), 2);
    assert_eq!(last["datasets"][0].as_str(), Some("x\ny"));
    assert_eq!(last["roles"][0].as_str(), Some("Ops:R"));
    assert_eq!(last["stage"].as_str(), Some("emittable"));
    assert!(last.get("file").is_none());
}

#[test]
fn a_suggested_identifier_is_accepted() {
    let ids = strings(&["4.1", "4.9", "4.+12"]);
    let next = match &suggest_ids(&strings(&["M4"]), &ids).unwrap().entries[0].1 {
        Json::Text(id) => id.clone(),
        other => panic!("{other:?}"),
    };
    assert_eq!(next, "4.13");
    let many = format!("{REGISTER}\n[[screen]]\nid = \"4.9\"\n[[screen]]\nid = \"4.+12\"\n");
    let many = many.replace("total_screens = 1", "total_screens = 3");
    let mut e = entry(FORM);
    e.id = next;
    assert!(add_screen(&e, &many, "p").is_ok());
    e.id = s("4.9");
    assert!(add_screen(&e, &many, "p").is_err());
}

#[test]
fn what_a_form_sends_is_what_was_written() {
    assert_eq!(percent_decode("a*b-c.d_e+%26%3D%2B%25%C3%A9%E2%82%AC%0A"), "a*b-c.d_e &=+%é€\n");
    assert_eq!(query_param("x=1&n=a%26b", "n").as_deref(), Some("a&b"));
    assert_eq!(body_param(b"n=%E2%82%AC", "n").as_deref(), Some("€"));
}

#[test]
fn every_failed_addition_is_a_bad_request() {
    let told = |text: &str| match add_screen(&entry(FORM), text, "/p/screens.toml") {
        Err(r) => {
            assert_eq!(r.status, 400);
            body(&r)["error"].as_str().unwrap().to_string()
        }
        Ok(_) => panic!("{text}"),
    };
    assert!(told("not = = toml").starts_with("/p/screens.toml did not parse as TOML: "));
    let inline = "screen = [{ id = \"4.1\", module = \"M4\", archetype = \"crud_screens!\" }]";
    assert_eq!(
        told(inline),
        "/p/screens.toml cannot be extended by a [[screen]] block and a raised total_screens"
    );
    let resp = failed_addition("writing /p/screens.toml: no space");
    assert_eq!(resp.status, 400);
    assert_eq!(body(&resp)["error"], "writing /p/screens.toml: no space");
}

#[test]
fn a_register_is_extended_and_seen_to_grow() {
    let doc = read_register(REGISTER, "p").unwrap();
    let e = entry(FORM);
    let text = extend_register(REGISTER, &doc, &e).unwrap();
    let grown = read_register(&text, "p").unwrap();
    assert!(grows_by(&doc, &grown, &e));
    assert!(!grows_by(&doc, &doc, &e));
    let mut other = entry(FORM);
    other.name = s("Three");
    assert!(!grows_by(&doc, &grown, &other));
    let chars: Vec<char> = "x total_screens =7;".chars().collect();
    assert_eq!(find_total(&chars, 2), Some((17, 18)));
    assert_eq!(put_total(&chars, 2, 8).as_deref(), Some("x total_screens =8;"));
    assert_eq!(put_total(&chars, 0, 8), None);
}

#[test]
fn a_typed_graph_is_asked_by_route() {
    assert_eq!(typed_graph_route("/api/graph/head"), TypedRoute::Head);
    assert_eq!(typed_graph_route("/api/graph/page"), TypedRoute::Page);
    assert_eq!(typed_graph_route("/api/graph/call"), TypedRoute::Call);
    assert_eq!(typed_graph_route("/api/nodes"), TypedRoute::Nodes);
    assert_eq!(typed_graph_route("/api/edges"), TypedRoute::Edges);
    assert_eq!(typed_graph_route("/api/prompt"), TypedRoute::Unsupported);
    assert_eq!(typed_access("POST"), Access::Reviewer);
    assert_eq!(typed_access("GET"), Access::Read);
    let args = page_args("kind=fn&cursor=a%2Bb&other=1").unwrap();
    assert_eq!(
        args,
        Json::Object(vec![(s("cursor"), Json::Text(s("a+b"))), (s("kind"), Json::Text(s("fn")))])
    );
    assert!(page_args("view=%aé").is_none());
    assert_eq!(call_text(b"{}").unwrap(), "{}");
    assert_eq!(call_text(&[0xff]).unwrap_err(), "Expected UTF-8 JSON");
    let request = Json::Object(vec![(s("name"), Json::Text(s("graph_read")))]);
    assert_eq!(call_of(&request), (s("graph_read"), Json::Null));
    assert_eq!(call_of(&Json::Null), (s(""), Json::Null));
}

#[test]
fn a_typed_graph_is_walked_page_by_page() {
    let mut walk = Paging::new(true);
    assert_eq!(
        walk.args(),
        Json::Object(vec![(s("entity_type"), Json::Text(s("node")))])
    );
    let page = Json::Object(vec![
        (s("nodes"), Json::List(vec![Json::Int(1), Json::Int(2)])),
        (s("next_cursor"), Json::Text(s("c"))),
        (s("filter_hash"), Json::Text(s("h"))),
    ]);
    assert!(matches!(walk.take(&page), PageStep::More));
    assert_eq!(
        walk.args(),
        Json::Object(vec![
            (s("entity_type"), Json::Text(s("node"))),
            (s("cursor"), Json::Text(s("c"))),
            (s("filter_hash"), Json::Text(s("h"))),
        ])
    );
    let last = Json::Object(vec![(s("nodes"), Json::List(vec![Json::Int(3)]))]);
    assert!(matches!(walk.take(&last), PageStep::Last));
    assert_eq!(walk.found, vec![Json::Int(1), Json::Int(2), Json::Int(3)]);
    assert!(matches!(walk.take(&Json::Null), PageStep::NoCollection));
    assert!(matches!(Paging::new(false).take(&last), PageStep::NoCollection));
}

#[test]
fn errors_of_a_typed_graph_keep_their_envelope() {
    assert_eq!(typed_response(&Ok(Json::Bool(true))).status, 200);
    let r = typed_response(&Err((s("MIGRATION_REQUIRED"), Json::Int(1))));
    assert_eq!((r.status, r.body.as_slice()), (404, b"1".as_slice()));
    assert_eq!(typed_response(&Err((s("PROJECT_NOT_INITIALIZED"), Json::Null))).status, 404);
    assert_eq!(typed_response(&Err((s("SCHEMA_INVALID"), Json::Null))).status, 400);
}

#[test]
fn what_a_change_touches_is_told() {
    let hit = ImpactHit {
        node_id: s("code:fn:pay"),
        kind: s("CodeUnit"),
        title: None,
        edge_kind: s("CALLS"),
        depth: 2,
        flag: Some(s("stale")),
        source_ref: None,
        line: Some(7),
        col: None,
    };
    let told = handle_impact(&Ok(ImpactReport { hits: vec![hit], partial: true }));
    assert_eq!(told.status, 200);
    let told = body(&told);
    assert_eq!(told["partial"], true);
    assert_eq!(told["hits"][0]["node_id"], "code:fn:pay");
    assert_eq!(told["hits"][0]["title"], serde_json::Value::Null);
    assert_eq!(told["hits"][0]["depth"], 2);
    assert_eq!(told["hits"][0]["line"], 7);
    assert_eq!(handle_impact(&Err(s("no such unit"))).status, 400);
}

#[test]
fn the_body_of_a_call_is_read() {
    let (name, arguments) = read_call(b"{\"name\":\"graph_get\",\"arguments\":{\"id\":1}}").unwrap();
    assert_eq!(name, "graph_get");
    assert_eq!(arguments, Json::Object(vec![(s("id"), Json::Number(s("1")))]));
    assert_eq!(read_call(b"[]").unwrap(), (s(""), Json::Null));
    assert_eq!(read_call(b"\xff").unwrap_err(), "Expected UTF-8 JSON");
    assert_eq!(read_call(b"{").unwrap_err(), "EOF while parsing an object at line 1 column 1");
}

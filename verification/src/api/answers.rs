//! The answers of the console to what a request asked for.
use super::response::{responds_error, responds_json, ApiResponse};
use crate::composer::decl::opt_text;
use crate::json::{
    copy_json, list_push, list_views, opt_json, text_list, text_or_null, texts_json, Fields, Json,
    JsonView,
};
use crate::lists::{lemma_flat_next, lemma_kept_next};
use crate::llm::candidates::{
    candidate_views, CandidateView, PromptCandidate, SuggestedItem,
};
use crate::outside::{
    json_parsed_bytes, json_pretty_document, json_to_string_pretty, parse_json_bytes,
};
use crate::plugin::{installable, known_installable_packs, static_pairs};
use crate::revision::{revision_views, RevisionEntry, RevisionView};
use crate::text::{copy_texts, decimal, decimal_text, has_text, same_text, texts, texts_push};
use vstd::prelude::*;

verus! {

/// Who signed a pack, as far as is known.
pub open spec fn signer_of(signers: Seq<(String, String)>, id: Seq<char>, from: nat) -> Option<
    Seq<char>,
>
    decreases signers.len() - from,
{
    if from >= signers.len() {
        None
    } else if signers[from as int].0@ == id {
        Some(signers[from as int].1@)
    } else {
        signer_of(signers, id, from + 1)
    }
}

fn find_signer(signers: &Vec<(String, String)>, id: &str) -> (out: Option<String>)
    ensures
        opt_text(out) == signer_of(signers@, id@, 0),
{
    let mut i: usize = 0;
    while i < signers.len()
        invariant
            i <= signers@.len(),
            signer_of(signers@, id@, 0) == signer_of(signers@, id@, i as nat),
        decreases signers@.len() - i,
    {
        if same_text(signers[i].0.as_str(), id) {
            return Some(signers[i].1.clone());
        }
        i += 1;
    }
    None
}

/// A pack that can be installed: whether it is, and who signed it. Nobody
/// signed a pack that is not installed.
pub open spec fn pack_json(
    pack: (Seq<char>, Seq<char>),
    installed: Seq<Seq<char>>,
    signers: Seq<(String, String)>,
) -> JsonView {
    let is_installed = installed.contains(pack.0);
    let signer = if is_installed {
        signer_of(signers, pack.0, 0)
    } else {
        None
    };
    JsonView::Object(
        seq![
            ("id"@, JsonView::Text(pack.0)),
            ("description"@, JsonView::Text(pack.1)),
            ("installed"@, JsonView::Bool(is_installed)),
            ("signer_identity"@, text_or_null(signer)),
            (
                "trust_indicator"@,
                JsonView::Text(
                    if signer is Some {
                        "signed"@
                    } else {
                        "unsigned"@
                    },
                ),
            ),
        ],
    )
}

pub open spec fn packs_json(installed: Seq<Seq<char>>, signers: Seq<(String, String)>) -> Seq<
    JsonView,
> {
    installable().map_values(|p: (Seq<char>, Seq<char>)| pack_json(p, installed, signers))
}

fn write_pack(id: &str, description: &str, installed: &Vec<String>, signers: &Vec<(String, String)>) -> (out:
    Json)
    ensures
        out@ == pack_json((id@, description@), texts(installed@), signers@),
{
    let is_installed: bool = has_text(installed, id);
    let signer: Option<String> = if is_installed {
        find_signer(signers, id)
    } else {
        None
    };
    let mut fields: Fields = Fields::new();
    fields.put_text("id", id);
    fields.put_text("description", description);
    fields.put_bool("installed", is_installed);
    fields.put("signer_identity", opt_json(&signer));
    let trust: &str = match &signer {
        Some(_) => "signed",
        None => "unsigned",
    };
    fields.put_text("trust_indicator", trust);
    assert(fields@ =~= pack_json((id@, description@), texts(installed@), signers@)->Object_0);
    fields.object()
}

/// The packs that can be installed, given those that are and who signed them.
pub fn handle_packs_list(
    installed: &Result<Vec<String>, String>,
    signers: &Vec<(String, String)>,
) -> (out: ApiResponse)
    ensures
        match *installed {
            Ok(ids) => responds_json(out, 200, JsonView::List(packs_json(texts(ids@), signers@))),
            Err(e) => responds_error(out, 500, e@),
        },
{
    broadcast use list_push;

    let installed: &Vec<String> = match installed {
        Ok(ids) => ids,
        Err(e) => {
            return ApiResponse::error(500, e.as_str());
        },
    };
    let packs: Vec<(&'static str, &'static str)> = known_installable_packs();
    let ghost all = packs_json(texts(installed@), signers@);
    let mut items: Vec<Json> = Vec::new();
    let mut i: usize = 0;
    assert(list_views(items@) =~= all.take(0));
    assert(static_pairs(packs@).len() == packs@.len());
    while i < packs.len()
        invariant
            i <= packs@.len(),
            static_pairs(packs@) == installable(),
            static_pairs(packs@).len() == packs@.len(),
            all == packs_json(texts(installed@), signers@),
            list_views(items@) == all.take(i as int),
        decreases packs@.len() - i,
    {
        assert(installable()[i as int] == (packs@[i as int].0@, packs@[i as int].1@));
        let ghost before = items@;
        items.push(write_pack(packs[i].0, packs[i].1, installed, signers));
        assert(items@.drop_last() =~= before);
        assert(all[i as int] == pack_json(installable()[i as int], texts(installed@), signers@));
        i += 1;
        assert(all.take(i as int) =~= all.take(i as int - 1).push(all[i as int - 1]));
    }
    assert(all.take(i as int) =~= all);
    ApiResponse::json(&Json::List(items))
}

pub open spec fn unknown_pack(id: Seq<char>) -> Seq<char> {
    "`"@ + id + "` is not one of the packs this UI can install"@
}

fn say_unknown_pack(id: &str) -> (out: String)
    ensures
        out@ == unknown_pack(id@),
{
    let mut out: String = "`".to_owned();
    out.append(id);
    out.append("` is not one of the packs this UI can install");
    out
}

pub open spec fn install_label(id: Seq<char>) -> Seq<char> {
    "hi UI install: "@ + id
}

fn say_install_label(id: &str) -> (out: String)
    ensures
        out@ == install_label(id@),
{
    let mut out: String = "hi UI install: ".to_owned();
    out.append(id);
    out
}

/// A pack can be installed by a name.
pub open spec fn is_installable(id: Seq<char>) -> bool {
    exists|i: int| 0 <= i < installable().len() && (#[trigger] installable()[i]).0 == id
}

/// What the source of a pack is called that is installed by its name. A name
/// that is not known is refused.
pub fn choose_pack(pack_id: &str) -> (out: Result<String, ApiResponse>)
    ensures
        match out {
            Ok(label) => is_installable(pack_id@) && label@ == install_label(pack_id@),
            Err(r) => !is_installable(pack_id@) && responds_error(r, 400, unknown_pack(pack_id@)),
        },
{
    let packs: Vec<(&'static str, &'static str)> = known_installable_packs();
    let mut i: usize = 0;
    assert(static_pairs(packs@).len() == packs@.len());
    while i < packs.len()
        invariant
            i <= packs@.len(),
            static_pairs(packs@) == installable(),
            static_pairs(packs@).len() == packs@.len(),
            forall|j: int| 0 <= j < i ==> (#[trigger] installable()[j]).0 != pack_id@,
        decreases packs@.len() - i,
    {
        assert(installable()[i as int] == (packs@[i as int].0@, packs@[i as int].1@));
        if same_text(packs[i].0, pack_id) {
            return Ok(say_install_label(pack_id));
        }
        i += 1;
    }
    Err(ApiResponse::error(400, say_unknown_pack(pack_id).as_str()))
}

pub open spec fn installed_json(id: Seq<char>) -> JsonView {
    JsonView::Object(seq![("ok"@, JsonView::Bool(true)), ("pack_id"@, JsonView::Text(id))])
}

/// The answer to an installation.
pub fn handle_pack_install(outcome: &Result<String, String>) -> (out: ApiResponse)
    ensures
        match *outcome {
            Ok(id) => responds_json(out, 200, installed_json(id@)),
            Err(e) => responds_error(out, 500, e@),
        },
{
    match outcome {
        Err(e) => ApiResponse::error(500, e.as_str()),
        Ok(id) => {
            let mut fields: Fields = Fields::new();
            fields.put_bool("ok", true);
            fields.put_text("pack_id", id.as_str());
            assert(fields@ =~= installed_json(id@)->Object_0);
            ApiResponse::json(&fields.object())
        },
    }
}

/// What came of asking a model.
pub enum Asked {
    /// No model is configured.
    NoModel,
    Answer(String),
    Failed(String),
}

/// The answer to a question: the passages that were found, and what the model
/// says. That there is no model is no error.
pub open spec fn ask_json(hits: JsonView, asked: Asked) -> JsonView {
    match asked {
        Asked::NoModel => JsonView::Object(seq![("hits"@, hits), ("answer"@, JsonView::Null)]),
        Asked::Answer(a) => JsonView::Object(
            seq![("hits"@, hits), ("answer"@, JsonView::Text(a@))],
        ),
        Asked::Failed(e) => JsonView::Object(
            seq![("hits"@, hits), ("answer"@, JsonView::Null), ("error"@, JsonView::Text(e@))],
        ),
    }
}

/// The answer to a question.
pub fn handle_ask(hits: &Json, asked: &Asked) -> (out: ApiResponse)
    ensures
        responds_json(out, 200, ask_json(hits@, *asked)),
{
    let mut fields: Fields = Fields::new();
    fields.put("hits", copy_json(hits));
    match asked {
        Asked::NoModel => {
            fields.put("answer", Json::Null);
        },
        Asked::Answer(a) => {
            fields.put_text("answer", a.as_str());
        },
        Asked::Failed(e) => {
            fields.put("answer", Json::Null);
            fields.put_text("error", e.as_str());
        },
    }
    assert(fields@ =~= ask_json(hits@, *asked)->Object_0);
    ApiResponse::json(&fields.object())
}

pub open spec fn revision_json(e: RevisionView) -> JsonView {
    JsonView::Object(
        seq![
            ("hash"@, JsonView::Text(e.hash)),
            ("message"@, JsonView::Text(e.message)),
            ("timestamp"@, JsonView::Text(e.timestamp)),
        ],
    )
}

pub open spec fn revision_list(entries: Seq<RevisionView>) -> Seq<JsonView> {
    entries.map_values(|e: RevisionView| revision_json(e))
}

fn write_revision(e: &RevisionEntry) -> (out: Json)
    ensures
        out@ == revision_json(e@),
{
    let mut fields: Fields = Fields::new();
    fields.put_text("hash", e.hash.as_str());
    fields.put_text("message", e.message.as_str());
    fields.put_text("timestamp", e.timestamp.as_str());
    assert(fields@ =~= revision_json(e@)->Object_0);
    fields.object()
}

pub open spec fn log_json(entries: Seq<RevisionView>) -> JsonView {
    JsonView::Object(
        seq![("ok"@, JsonView::Bool(true)), ("log"@, JsonView::List(revision_list(entries)))],
    )
}

/// The history of the project, or what went wrong.
pub fn handle_git_log(entries: &Result<Vec<RevisionEntry>, String>) -> (out: ApiResponse)
    ensures
        match *entries {
            Ok(list) => responds_json(out, 200, log_json(revision_views(list@))),
            Err(e) => responds_error(out, 500, e@),
        },
{
    broadcast use list_push;

    let rows: &Vec<RevisionEntry> = match entries {
        Ok(list) => list,
        Err(e) => {
            return ApiResponse::error(500, e.as_str());
        },
    };
    let ghost all = revision_list(revision_views(rows@));
    let mut items: Vec<Json> = Vec::new();
    let mut i: usize = 0;
    assert(list_views(items@) =~= all.take(0));
    while i < rows.len()
        invariant
            i <= rows@.len(),
            all == revision_list(revision_views(rows@)),
            list_views(items@) == all.take(i as int),
        decreases rows@.len() - i,
    {
        let ghost before = items@;
        items.push(write_revision(&rows[i]));
        assert(items@.drop_last() =~= before);
        assert(all[i as int] == revision_json(rows@[i as int]@));
        i += 1;
        assert(all.take(i as int) =~= all.take(i as int - 1).push(all[i as int - 1]));
    }
    assert(all.take(i as int) =~= all);
    let mut fields: Fields = Fields::new();
    fields.put_bool("ok", true);
    fields.put("log", Json::List(items));
    assert(fields@ =~= log_json(revision_views(rows@))->Object_0);
    ApiResponse::json(&fields.object())
}

pub open spec fn diff_json(text: Seq<char>) -> JsonView {
    JsonView::Object(seq![("ok"@, JsonView::Bool(true)), ("diff"@, JsonView::Text(text))])
}

/// What a revision changed, or what went wrong.
pub fn handle_git_diff(text: &Result<String, String>) -> (out: ApiResponse)
    ensures
        match *text {
            Ok(t) => responds_json(out, 200, diff_json(t@)),
            Err(e) => responds_error(out, 400, e@),
        },
{
    match text {
        Err(e) => ApiResponse::error(400, e.as_str()),
        Ok(t) => {
            let mut fields: Fields = Fields::new();
            fields.put_bool("ok", true);
            fields.put_text("diff", t.as_str());
            assert(fields@ =~= diff_json(t@)->Object_0);
            ApiResponse::json(&fields.object())
        },
    }
}

/// What came of looking for gaps.
pub enum Suggested {
    /// No model is configured.
    NoModel,
    Items(Vec<SuggestedItem>),
    Failed(String),
}

pub open spec fn suggestion_json(s: SuggestedItem) -> JsonView {
    JsonView::Object(
        seq![
            ("kind"@, JsonView::Text(s.kind@)),
            ("target"@, JsonView::Text(s.target@)),
            ("unit_kind"@, text_or_null(opt_text(s.unit_kind))),
            ("reason"@, JsonView::Text(s.reason@)),
            ("draft"@, JsonView::Text(s.draft@)),
        ],
    )
}

fn write_suggestion(s: &SuggestedItem) -> (out: Json)
    ensures
        out@ == suggestion_json(*s),
{
    let mut fields: Fields = Fields::new();
    fields.put_text("kind", s.kind.as_str());
    fields.put_text("target", s.target.as_str());
    fields.put("unit_kind", opt_json(&s.unit_kind));
    fields.put_text("reason", s.reason.as_str());
    fields.put_text("draft", s.draft.as_str());
    assert(fields@ =~= suggestion_json(*s)->Object_0);
    fields.object()
}

pub open spec fn suggestion_list(rows: Seq<SuggestedItem>) -> Seq<JsonView> {
    rows.map_values(|r: SuggestedItem| suggestion_json(r))
}

fn write_suggestions(rows: &Vec<SuggestedItem>) -> (out: Json)
    ensures
        out@ == JsonView::List(suggestion_list(rows@)),
{
    broadcast use list_push;

    let ghost all = suggestion_list(rows@);
    let mut items: Vec<Json> = Vec::new();
    let mut i: usize = 0;
    assert(list_views(items@) =~= all.take(0));
    while i < rows.len()
        invariant
            i <= rows@.len(),
            all == suggestion_list(rows@),
            list_views(items@) == all.take(i as int),
        decreases rows@.len() - i,
    {
        let ghost before = items@;
        items.push(write_suggestion(&rows[i]));
        assert(items@.drop_last() =~= before);
        assert(all[i as int] == suggestion_json(rows@[i as int]));
        i += 1;
        assert(all.take(i as int) =~= all.take(i as int - 1).push(all[i as int - 1]));
    }
    assert(all.take(i as int) =~= all);
    Json::List(items)
}

/// The gaps that a model found. That there is no model is no error.
pub open spec fn suggest_json(suggested: Suggested) -> JsonView {
    match suggested {
        Suggested::NoModel => JsonView::Object(
            seq![("suggestions"@, JsonView::List(Seq::empty()))],
        ),
        Suggested::Items(items) => JsonView::Object(
            seq![("suggestions"@, JsonView::List(suggestion_list(items@)))],
        ),
        Suggested::Failed(e) => JsonView::Object(
            seq![
                ("suggestions"@, JsonView::List(Seq::empty())),
                ("error"@, JsonView::Text(e@)),
            ],
        ),
    }
}

/// The gaps that a model found.
pub fn handle_suggest(suggested: &Suggested) -> (out: ApiResponse)
    ensures
        responds_json(out, 200, suggest_json(*suggested)),
{
    let mut fields: Fields = Fields::new();
    let none: Vec<Json> = Vec::new();
    assert(list_views(none@) =~= Seq::<JsonView>::empty());
    match suggested {
        Suggested::NoModel => {
            fields.put("suggestions", Json::List(none));
        },
        Suggested::Items(items) => {
            fields.put("suggestions", write_suggestions(items));
        },
        Suggested::Failed(e) => {
            fields.put("suggestions", Json::List(none));
            fields.put_text("error", e.as_str());
        },
    }
    assert(fields@ =~= suggest_json(*suggested)->Object_0);
    ApiResponse::json(&fields.object())
}

/// The node that stands for a name: that of the last of the first `n` candidates
/// with it.
pub open spec fn node_named(
    candidates: Seq<CandidateView>,
    ids: Seq<Seq<char>>,
    name: Seq<char>,
    n: nat,
) -> Option<Seq<char>>
    decreases n,
{
    if n == 0 {
        None
    } else if candidates[n - 1].name == name {
        Some(ids[n - 1])
    } else {
        node_named(candidates, ids, name, (n - 1) as nat)
    }
}

/// The node of a candidate, and the nodes of the first `n` names that it
/// depends on. A name that no candidate has is left out.
pub open spec fn relations_of(
    candidates: Seq<CandidateView>,
    ids: Seq<Seq<char>>,
    i: int,
    n: nat,
) -> Seq<(Seq<char>, Seq<char>)>
    decreases n,
{
    if n == 0 {
        Seq::empty()
    } else {
        let before = relations_of(candidates, ids, i, (n - 1) as nat);
        let all = candidates.len();
        match (
            node_named(candidates, ids, candidates[i].name, all),
            node_named(candidates, ids, candidates[i].depends_on[n - 1], all),
        ) {
            (Some(src), Some(dst)) => before.push((src, dst)),
            _ => before,
        }
    }
}

/// What the first `n` candidates depend on, among the candidates.
pub open spec fn relations(candidates: Seq<CandidateView>, ids: Seq<Seq<char>>, n: nat) -> Seq<
    (Seq<char>, Seq<char>),
>
    decreases n,
{
    if n == 0 {
        Seq::empty()
    } else {
        relations(candidates, ids, (n - 1) as nat) + relations_of(
            candidates,
            ids,
            n - 1,
            candidates[n - 1].depends_on.len(),
        )
    }
}

fn find_node(candidates: &Vec<PromptCandidate>, ids: &Vec<String>, name: &str) -> (out: Option<String>)
    requires
        candidates@.len() == ids@.len(),
    ensures
        opt_text(out) == node_named(
            candidate_views(candidates@),
            texts(ids@),
            name@,
            candidates@.len(),
        ),
{
    let ghost views = candidate_views(candidates@);
    let ghost nodes = texts(ids@);
    let mut i: usize = candidates.len();
    assert(views.len() == candidates@.len());
    while i > 0
        invariant
            i <= candidates@.len(),
            candidates@.len() == ids@.len(),
            views == candidate_views(candidates@),
            nodes == texts(ids@),
            node_named(views, nodes, name@, candidates@.len()) == node_named(
                views,
                nodes,
                name@,
                i as nat,
            ),
        decreases i,
    {
        i -= 1;
        assert(views[i as int] == candidates@[i as int]@);
        assert(nodes[i as int] == ids@[i as int]@);
        if same_text(candidates[i].name.as_str(), name) {
            return Some(ids[i].clone());
        }
    }
    None
}

pub open spec fn pair_views(pairs: Seq<(String, String)>) -> Seq<(Seq<char>, Seq<char>)> {
    pairs.map_values(|p: (String, String)| (p.0@, p.1@))
}

/// The relations to record between the candidates of one batch, given the node
/// that each of them became. A dependency on anything but a candidate of the
/// batch is left out.
pub fn plan_relations(candidates: &Vec<PromptCandidate>, ids: &Vec<String>) -> (out: Vec<
    (String, String),
>)
    requires
        candidates@.len() == ids@.len(),
    ensures
        pair_views(out@) == relations(
            candidate_views(candidates@),
            texts(ids@),
            candidates@.len(),
        ),
{
    let ghost views = candidate_views(candidates@);
    let ghost nodes = texts(ids@);
    let mut out: Vec<(String, String)> = Vec::new();
    let n: usize = candidates.len();
    let mut i: usize = 0;
    assert(views.len() == n);
    assert(pair_views(out@) =~= Seq::<(Seq<char>, Seq<char>)>::empty());
    while i < n
        invariant
            i <= n,
            n == candidates@.len(),
            n == ids@.len(),
            views == candidate_views(candidates@),
            views.len() == n,
            nodes == texts(ids@),
            pair_views(out@) == relations(views, nodes, i as nat),
        decreases n - i,
    {
        assert(views[i as int] == candidates@[i as int]@);
        let c: &PromptCandidate = &candidates[i];
        let ghost start = pair_views(out@);
        let ghost names = texts(c.depends_on@);
        let m: usize = c.depends_on.len();
        let mut j: usize = 0;
        assert(names.len() == m);
        assert(pair_views(out@) =~= start + relations_of(views, nodes, i as int, 0));
        while j < m
            invariant
                j <= m,
                i < n,
                n == candidates@.len(),
                n == ids@.len(),
                m == c.depends_on@.len(),
                views == candidate_views(candidates@),
                views.len() == n,
                views[i as int] == c@,
                nodes == texts(ids@),
                names == texts(c.depends_on@),
                names.len() == m,
                pair_views(out@) == start + relations_of(views, nodes, i as int, j as nat),
            decreases m - j,
        {
            assert(names[j as int] == c.depends_on@[j as int]@);
            assert(views[i as int].depends_on == names);
            let ghost before = out@;
            let ghost made = relations_of(views, nodes, i as int, j as nat);
            let src: Option<String> = find_node(candidates, ids, c.name.as_str());
            let dst: Option<String> = find_node(candidates, ids, c.depends_on[j].as_str());
            match (src, dst) {
                (Some(src), Some(dst)) => {
                    let ghost pair = (src@, dst@);
                    out.push((src, dst));
                    assert(pair_views(out@) =~= pair_views(before).push(pair));
                    assert((start + made).push(pair) =~= start + made.push(pair));
                },
                _ => {},
            }
            j += 1;
        }
        i += 1;
    }
    out
}

pub open spec fn prompt_json(nodes: Seq<Seq<char>>, edges_added: int) -> JsonView {
    JsonView::Object(
        seq![
            ("ok"@, JsonView::Bool(true)),
            ("nodes_added"@, JsonView::Number(decimal(nodes.len()))),
            ("edges_added"@, JsonView::Int(edges_added)),
            ("nodes"@, text_list(nodes)),
        ],
    )
}

/// What is said once the candidates of a batch are in the graph.
pub fn handle_prompt(nodes: &Vec<String>, edges_added: u32) -> (out: ApiResponse)
    ensures
        responds_json(out, 200, prompt_json(texts(nodes@), edges_added as int)),
{
    assert(texts(nodes@).len() == nodes@.len());
    let mut fields: Fields = Fields::new();
    fields.put_bool("ok", true);
    fields.put("nodes_added", Json::Number(decimal_text(nodes.len() as u64)));
    fields.put("edges_added", Json::Int(edges_added as i64));
    fields.put("nodes", texts_json(nodes));
    assert(fields@ =~= prompt_json(texts(nodes@), edges_added as int)->Object_0);
    ApiResponse::json(&fields.object())
}

pub open spec fn confirmed_json(ids: Seq<Seq<char>>) -> JsonView {
    JsonView::Object(seq![("ok"@, JsonView::Bool(true)), ("confirmed"@, text_list(ids))])
}

/// What is said once every candidate was confirmed.
pub fn handle_confirm_all(ids: &Result<Vec<String>, String>) -> (out: ApiResponse)
    ensures
        match *ids {
            Ok(list) => responds_json(out, 200, confirmed_json(texts(list@))),
            Err(e) => responds_error(out, 500, e@),
        },
{
    match ids {
        Err(e) => ApiResponse::error(500, e.as_str()),
        Ok(list) => {
            let mut fields: Fields = Fields::new();
            fields.put_bool("ok", true);
            fields.put("confirmed", texts_json(list));
            assert(fields@ =~= confirmed_json(texts(list@))->Object_0);
            ApiResponse::json(&fields.object())
        },
    }
}

pub const NOTHING_CONFIRMED: &'static str = "nothing confirmed to generate -- `:confirm <node>` at least one candidate first";

/// A generation needs a unit to generate.
pub fn check_units(count: usize) -> (out: Result<(), ApiResponse>)
    ensures
        match out {
            Ok(_) => count > 0,
            Err(r) => count == 0 && responds_error(r, 400, NOTHING_CONFIRMED@),
        },
{
    if count > 0 {
        Ok(())
    } else {
        Err(ApiResponse::error(400, NOTHING_CONFIRMED))
    }
}

pub open spec fn failed_json(error: Seq<char>, log: Seq<Seq<char>>) -> JsonView {
    JsonView::Object(
        seq![
            ("ok"@, JsonView::Bool(false)),
            ("error"@, JsonView::Text(error)),
            ("log"@, text_list(log)),
        ],
    )
}

/// What is said of a generation that failed.
pub fn generate_failed(error: &str, log: &Vec<String>) -> (out: ApiResponse)
    ensures
        responds_json(out, 200, failed_json(error@, texts(log@))),
{
    let mut fields: Fields = Fields::new();
    fields.put_bool("ok", false);
    fields.put_text("error", error);
    fields.put("log", texts_json(log));
    assert(fields@ =~= failed_json(error@, texts(log@))->Object_0);
    ApiResponse::json(&fields.object())
}

/// What is said where the generated program could not be read back.
pub open spec fn sync_failed(path: Seq<char>, error: Seq<char>) -> Seq<char> {
    "generated "@
        + path
        + " but sync failed: "@
        + error
}

pub fn say_sync_failed(path: &str, error: &str) -> (out: String)
    ensures
        out@ == sync_failed(path@, error@),
{
    let mut out: String = "generated ".to_owned();
    out.append(path);
    out.append(" but sync failed: ");
    out.append(error);
    out
}

/// What the log says of a revision that could not be kept.
pub open spec fn commit_warning(error: Seq<char>) -> Seq<char> {
    "warning: could not commit this generate to git: "@ + error
}

pub fn say_commit_warning(error: &str) -> (out: String)
    ensures
        out@ == commit_warning(error@),
{
    let mut out: String = "warning: could not commit this generate to git: ".to_owned();
    out.append(error);
    out
}

pub open spec fn generate_message(count: Seq<char>) -> Seq<char> {
    "generate: "@ + count + " unit(s)"@
}

fn say_generate_message(count: &str) -> (out: String)
    ensures
        out@ == generate_message(count@),
{
    let mut out: String = "generate: ".to_owned();
    out.append(count);
    out.append(" unit(s)");
    out
}

/// What the revision of a generation is called.
pub fn generate_revision(count: usize) -> (out: String)
    ensures
        out@ == generate_message(decimal(count as nat)),
{
    say_generate_message(decimal_text(count as u64).as_str())
}

/// What the revision of a publication is called.
pub open spec fn publish_message(path: Seq<char>) -> Seq<char> {
    "publish: "@ + path
}

pub fn publish_revision(path: &str) -> (out: String)
    ensures
        out@ == publish_message(path@),
{
    let mut out: String = "publish: ".to_owned();
    out.append(path);
    out
}

/// The first `n` units that the generated program does not declare.
pub open spec fn not_declared(ids: Seq<Seq<char>>, locked: Seq<Seq<char>>, n: nat) -> Seq<Seq<char>>
    decreases n,
{
    if n == 0 {
        Seq::empty()
    } else if locked.contains(ids[n - 1]) {
        not_declared(ids, locked, (n - 1) as nat)
    } else {
        not_declared(ids, locked, (n - 1) as nat).push(ids[n - 1])
    }
}

fn find_not_declared(ids: &Vec<String>, locked: &Vec<String>) -> (out: Vec<String>)
    ensures
        texts(out@) == not_declared(texts(ids@), texts(locked@), ids@.len()),
{
    broadcast use texts_push;

    let ghost views = texts(ids@);
    let mut out: Vec<String> = Vec::new();
    let mut i: usize = 0;
    assert(texts(out@) =~= Seq::<Seq<char>>::empty());
    while i < ids.len()
        invariant
            i <= ids@.len(),
            views == texts(ids@),
            texts(out@) == not_declared(views, texts(locked@), i as nat),
        decreases ids@.len() - i,
    {
        assert(views[i as int] == ids@[i as int]@);
        if !has_text(locked, ids[i].as_str()) {
            out.push(ids[i].clone());
        }
        i += 1;
    }
    out
}

pub open spec fn generated_json(
    path: Seq<char>,
    ids: Seq<Seq<char>>,
    locked: Seq<Seq<char>>,
    revision: Option<Seq<char>>,
    log: Seq<Seq<char>>,
) -> JsonView {
    JsonView::Object(
        seq![
            ("ok"@, JsonView::Bool(true)),
            ("path"@, JsonView::Text(path)),
            ("locked"@, text_list(locked)),
            ("not_declared"@, text_list(not_declared(ids, locked, ids.len()))),
            ("revision"@, text_or_null(revision)),
            ("log"@, text_list(log)),
        ],
    )
}

/// What is said of a generation that went well. A revision that could not be
/// kept is a warning in the log, no failure.
pub fn handle_generate(
    path: &str,
    ids: &Vec<String>,
    locked: &Vec<String>,
    revision: &Result<Option<String>, String>,
    log: &Vec<String>,
) -> (out: ApiResponse)
    ensures
        responds_json(
            out,
            200,
            match *revision {
                Ok(hash) => generated_json(
                    path@,
                    texts(ids@),
                    texts(locked@),
                    opt_text(hash),
                    texts(log@),
                ),
                Err(e) => generated_json(
                    path@,
                    texts(ids@),
                    texts(locked@),
                    None,
                    texts(log@).push(commit_warning(e@)),
                ),
            },
        ),
{
    broadcast use texts_push;

    let mut lines: Vec<String> = copy_texts(log);
    let mut hash: Option<String> = None;
    match revision {
        Ok(Some(h)) => {
            hash = Some(h.clone());
        },
        Ok(None) => {},
        Err(e) => {
            lines.push(say_commit_warning(e.as_str()));
        },
    }
    let missing: Vec<String> = find_not_declared(ids, locked);
    let mut fields: Fields = Fields::new();
    fields.put_bool("ok", true);
    fields.put_text("path", path);
    fields.put("locked", texts_json(locked));
    fields.put("not_declared", texts_json(&missing));
    fields.put("revision", opt_json(&hash));
    fields.put("log", texts_json(&lines));
    assert(texts(ids@).len() == ids@.len());
    assert(fields@ =~= generated_json(
        path@,
        texts(ids@),
        texts(locked@),
        opt_text(hash),
        texts(lines@),
    )->Object_0);
    ApiResponse::json(&fields.object())
}

pub const NOTHING_GENERATED: &'static str = "nothing generated yet -- run :generate first";

/// What is published or previewed must have been generated.
pub fn check_generated(exists: bool) -> (out: Result<(), ApiResponse>)
    ensures
        match out {
            Ok(_) => exists,
            Err(r) => !exists && responds_error(r, 400, NOTHING_GENERATED@),
        },
{
    if exists {
        Ok(())
    } else {
        Err(ApiResponse::error(400, NOTHING_GENERATED))
    }
}

/// What is said of a certificate that cannot be read.
pub open spec fn unread_certificate(path: Seq<char>, error: Seq<char>) -> Seq<char> {
    "reading "@
        + path
        + " to sign it: "@
        + error
}

pub fn say_unread_certificate(path: &str, error: &str) -> (out: String)
    ensures
        out@ == unread_certificate(path@, error@),
{
    let mut out: String = "reading ".to_owned();
    out.append(path);
    out.append(" to sign it: ");
    out.append(error);
    out
}

/// What is said of a certificate that is no JSON.
pub open spec fn unparsed_certificate(path: Seq<char>, error: Seq<char>) -> Seq<char> {
    "parsing "@
        + path
        + " before signing it: "@
        + error
}

pub fn say_unparsed_certificate(path: &str, error: &str) -> (out: String)
    ensures
        out@ == unparsed_certificate(path@, error@),
{
    let mut out: String = "parsing ".to_owned();
    out.append(path);
    out.append(" before signing it: ");
    out.append(error);
    out
}

pub open spec fn signed_json(
    certificate: JsonView,
    public_key: Seq<char>,
    signature: Seq<char>,
) -> JsonView {
    JsonView::Object(
        seq![
            ("certificate"@, certificate),
            ("signature_algorithm"@, JsonView::Text("ed25519"@)),
            ("public_key"@, JsonView::Text(public_key)),
            ("signature"@, JsonView::Text(signature)),
        ],
    )
}

/// The setting that names the key with which certificates are signed. Without
/// it a certificate is not signed.
pub const PUBLISH_SIGNING_KEY_VAR: &'static str = "NIRDOSHA_PUBLISH_SIGNING_KEY";

/// A certificate and its signature, as a document. The certificate stays as it
/// is.
pub fn signed_certificate(certificate: &Json, public_key: &str, signature: &str) -> (out: String)
    ensures
        out@ == json_pretty_document(signed_json(certificate@, public_key@, signature@)),
{
    let mut fields: Fields = Fields::new();
    fields.put("certificate", copy_json(certificate));
    fields.put_text("signature_algorithm", "ed25519");
    fields.put_text("public_key", public_key);
    fields.put_text("signature", signature);
    assert(fields@ =~= signed_json(certificate@, public_key@, signature@)->Object_0);
    json_to_string_pretty(&fields.object())
}

/// The bytes of a certificate, signed: the document that holds the certificate
/// as it stands in them beside the signature; or why there is none.
pub fn sign_certificate(bytes: &[u8], path: &str, public_key: &str, signature: &str) -> (out: Result<
    String,
    String,
>)
    ensures
        match json_parsed_bytes(bytes@) {
            Ok(v) => out matches Ok(s) && s@ == json_pretty_document(
                signed_json(v, public_key@, signature@),
            ),
            Err(e) => out matches Err(m) && m@ == unparsed_certificate(path@, e),
        },
{
    match parse_json_bytes(bytes) {
        Ok(certificate) => Ok(signed_certificate(&certificate, public_key, signature)),
        Err(e) => Err(say_unparsed_certificate(path, e.as_str())),
    }
}

/// A program that was published.
pub struct Published {
    pub binary: String,
    pub certificate: String,
    pub signed: bool,
    pub revision: Option<String>,
}

pub open spec fn published_json(outcome: Result<Published, String>) -> JsonView {
    match outcome {
        Ok(p) => JsonView::Object(
            seq![
                ("ok"@, JsonView::Bool(true)),
                ("binary"@, JsonView::Text(p.binary@)),
                ("certificate"@, JsonView::Text(p.certificate@)),
                ("signed"@, JsonView::Bool(p.signed)),
                ("revision"@, text_or_null(opt_text(p.revision))),
            ],
        ),
        Err(e) => not_ok_json(e@),
    }
}

pub open spec fn not_ok_json(error: Seq<char>) -> JsonView {
    JsonView::Object(seq![("ok"@, JsonView::Bool(false)), ("error"@, JsonView::Text(error))])
}

fn write_not_ok(error: &str) -> (out: Json)
    ensures
        out@ == not_ok_json(error@),
{
    let mut fields: Fields = Fields::new();
    fields.put_bool("ok", false);
    fields.put_text("error", error);
    assert(fields@ =~= not_ok_json(error@)->Object_0);
    fields.object()
}

/// What is said of a publication.
pub fn handle_publish(outcome: &Result<Published, String>) -> (out: ApiResponse)
    ensures
        responds_json(out, 200, published_json(*outcome)),
{
    match outcome {
        Err(e) => ApiResponse::json(&write_not_ok(e.as_str())),
        Ok(p) => {
            let mut fields: Fields = Fields::new();
            fields.put_bool("ok", true);
            fields.put_text("binary", p.binary.as_str());
            fields.put_text("certificate", p.certificate.as_str());
            fields.put_bool("signed", p.signed);
            fields.put("revision", opt_json(&p.revision));
            assert(fields@ =~= published_json(*outcome)->Object_0);
            ApiResponse::json(&fields.object())
        },
    }
}

pub open spec fn preview_json(outcome: Result<(u16, String), String>) -> JsonView {
    match outcome {
        Ok((port, path)) => JsonView::Object(
            seq![
                ("ok"@, JsonView::Bool(true)),
                ("port"@, JsonView::Int(port as int)),
                ("path"@, JsonView::Text(path@)),
            ],
        ),
        Err(e) => not_ok_json(e@),
    }
}

/// What is said of a preview that was started.
pub fn handle_preview_start(outcome: &Result<(u16, String), String>) -> (out: ApiResponse)
    ensures
        responds_json(out, 200, preview_json(*outcome)),
{
    match outcome {
        Err(e) => ApiResponse::json(&write_not_ok(e.as_str())),
        Ok((port, path)) => {
            let mut fields: Fields = Fields::new();
            fields.put_bool("ok", true);
            fields.put("port", Json::Int(*port as i64));
            fields.put_text("path", path.as_str());
            assert(fields@ =~= preview_json(*outcome)->Object_0);
            ApiResponse::json(&fields.object())
        },
    }
}

pub open spec fn preview_status_json(port: Option<u16>, path: Option<Seq<char>>) -> JsonView {
    JsonView::Object(
        seq![
            ("running"@, JsonView::Bool(port is Some)),
            (
                "port"@,
                match port {
                    Some(p) => JsonView::Int(p as int),
                    None => JsonView::Null,
                },
            ),
            ("path"@, text_or_null(path)),
        ],
    )
}

/// What is said of the preview.
pub fn handle_preview_status(port: Option<u16>, path: &Option<String>) -> (out: ApiResponse)
    ensures
        responds_json(out, 200, preview_status_json(port, opt_text(*path))),
{
    let mut fields: Fields = Fields::new();
    fields.put_bool("running", port.is_some());
    match port {
        Some(p) => fields.put("port", Json::Int(p as i64)),
        None => fields.put("port", Json::Null),
    }
    fields.put("path", opt_json(path));
    assert(fields@ =~= preview_status_json(port, opt_text(*path))->Object_0);
    ApiResponse::json(&fields.object())
}

/// Where a request failed.
#[derive(Clone, Copy, Debug, PartialEq, Eq, Structural)]
pub enum Fault {
    /// In this program, its graph or its settings.
    Inside,
    /// At the model.
    Model,
}

pub open spec fn fault_status(fault: Fault) -> int {
    match fault {
        Fault::Inside => 500,
        Fault::Model => 502,
    }
}

/// The answer to a request that failed.
pub fn failed(fault: Fault, error: &str) -> (out: ApiResponse)
    ensures
        responds_error(out, fault_status(fault), error@),
{
    match fault {
        Fault::Inside => ApiResponse::error(500, error),
        Fault::Model => ApiResponse::error(502, error),
    }
}

proof fn lemma_node_is_one(
    candidates: Seq<CandidateView>,
    ids: Seq<Seq<char>>,
    name: Seq<char>,
    n: nat,
)
    requires
        n <= ids.len(),
    ensures
        node_named(candidates, ids, name, n) matches Some(id) ==> ids.contains(id),
    decreases n,
{
    if n > 0 {
        assert(ids.contains(ids[n - 1]));
        lemma_node_is_one(candidates, ids, name, (n - 1) as nat);
    }
}

proof fn lemma_relations_of_stay(
    candidates: Seq<CandidateView>,
    ids: Seq<Seq<char>>,
    i: int,
    n: nat,
)
    requires
        candidates.len() == ids.len(),
    ensures
        forall|k: int|
            0 <= k < relations_of(candidates, ids, i, n).len() ==> {
                let r = #[trigger] relations_of(candidates, ids, i, n)[k];
                ids.contains(r.0) && ids.contains(r.1)
            },
    decreases n,
{
    if n > 0 {
        lemma_relations_of_stay(candidates, ids, i, (n - 1) as nat);
        lemma_node_is_one(candidates, ids, candidates[i].name, ids.len());
        lemma_node_is_one(candidates, ids, candidates[i].depends_on[n - 1], ids.len());
        let before = relations_of(candidates, ids, i, (n - 1) as nat);
        let now = relations_of(candidates, ids, i, n);
        assert forall|k: int| 0 <= k < now.len() implies ({
            let r = #[trigger] now[k];
            ids.contains(r.0) && ids.contains(r.1)
        }) by {
            if k < before.len() {
                assert(now[k] == before[k]);
            }
        }
    }
}

/// A relation is only ever recorded between two candidates of the same batch.
pub proof fn law_relations_stay_in_the_batch(
    candidates: Seq<CandidateView>,
    ids: Seq<Seq<char>>,
    n: nat,
)
    requires
        candidates.len() == ids.len(),
        n <= candidates.len(),
    ensures
        forall|k: int|
            0 <= k < relations(candidates, ids, n).len() ==> {
                let r = #[trigger] relations(candidates, ids, n)[k];
                ids.contains(r.0) && ids.contains(r.1)
            },
    decreases n,
{
    if n > 0 {
        law_relations_stay_in_the_batch(candidates, ids, (n - 1) as nat);
        let deps = candidates[n - 1].depends_on.len();
        lemma_relations_of_stay(candidates, ids, n - 1, deps);
        let before = relations(candidates, ids, (n - 1) as nat);
        let more = relations_of(candidates, ids, n - 1, deps);
        assert forall|k: int| 0 <= k < relations(candidates, ids, n).len() implies ({
            let r = #[trigger] relations(candidates, ids, n)[k];
            ids.contains(r.0) && ids.contains(r.1)
        }) by {
            if k < before.len() {
                assert(relations(candidates, ids, n)[k] == before[k]);
            } else {
                assert(relations(candidates, ids, n)[k] == more[k - before.len()]);
            }
        }
    }
}

proof fn lemma_not_declared(ids: Seq<Seq<char>>, locked: Seq<Seq<char>>, id: Seq<char>, n: nat)
    requires
        n <= ids.len(),
    ensures
        not_declared(ids, locked, n).contains(id) == (ids.take(n as int).contains(id)
            && !locked.contains(id)),
    decreases n,
{
    if n == 0 {
        assert(ids.take(0) =~= Seq::<Seq<char>>::empty());
    } else {
        lemma_not_declared(ids, locked, id, (n - 1) as nat);
        let before = ids.take(n - 1);
        let last = ids[n - 1];
        assert(ids.take(n as int) =~= before.push(last));
        assert(before.push(last)[n - 1] == last);
        if before.contains(id) {
            let k = choose|k: int| 0 <= k < before.len() && before[k] == id;
            assert(before.push(last)[k] == id);
        }
        if before.push(last).contains(id) && id != last {
            let k = choose|k: int| 0 <= k < before.push(last).len() && before.push(last)[k] == id;
            assert(before[k] == id);
        }
        let made = not_declared(ids, locked, (n - 1) as nat);
        if !locked.contains(last) {
            assert(made.push(last)[made.len() as int] == last);
            if made.contains(id) {
                let k = choose|k: int| 0 <= k < made.len() && made[k] == id;
                assert(made.push(last)[k] == id);
            }
            if made.push(last).contains(id) && id != last {
                let k = choose|k: int| 0 <= k < made.push(last).len() && made.push(last)[k] == id;
                assert(made[k] == id);
            }
        }
    }
}

/// Every unit that was to be generated is either declared by the program or
/// reported as missing, and never both.
pub proof fn law_every_unit_is_accounted_for(
    ids: Seq<Seq<char>>,
    locked: Seq<Seq<char>>,
    id: Seq<char>,
)
    requires
        ids.contains(id),
    ensures
        not_declared(ids, locked, ids.len()).contains(id) == !locked.contains(id),
{
    lemma_not_declared(ids, locked, id, ids.len());
    assert(ids.take(ids.len() as int) =~= ids);
}

/// Who signed a pack is told by the first entry for it.
pub proof fn law_signer_of_a_pack(signers: Seq<(String, String)>, id: Seq<char>, from: nat)
    ensures
        match signer_of(signers, id, from) {
            Some(who) => exists|i: int|
                {
                    &&& from <= i < signers.len()
                    &&& (#[trigger] signers[i]).0@ == id
                    &&& signers[i].1@ == who
                    &&& forall|j: int| from <= j < i ==> (#[trigger] signers[j]).0@ != id
                },
            None => forall|i: int| from <= i < signers.len() ==> (#[trigger] signers[i]).0@ != id,
        },
    decreases signers.len() - from,
{
    if from < signers.len() {
        if signers[from as int].0@ != id {
            law_signer_of_a_pack(signers, id, from + 1);
        } else {
            assert(signers[from as int].0@ == id);
        }
    }
}

/// A pack is shown as installed exactly where it is, and as signed exactly where
/// it is installed and its signer is known.
pub proof fn law_packs_are_shown(
    pack: (Seq<char>, Seq<char>),
    installed: Seq<Seq<char>>,
    signers: Seq<(String, String)>,
)
    ensures
        pack_json(pack, installed, signers) is Object,
        ({
            let fields = pack_json(pack, installed, signers)->Object_0;
            let signer = signer_of(signers, pack.0, 0);
            let signed = installed.contains(pack.0) && signer is Some;
            &&& fields.len() == 5
            &&& fields[0] == ("id"@, JsonView::Text(pack.0))
            &&& fields[1] == ("description"@, JsonView::Text(pack.1))
            &&& fields[2] == ("installed"@, JsonView::Bool(installed.contains(pack.0)))
            &&& fields[3].0 == "signer_identity"@
            &&& signed ==> fields[3].1 == JsonView::Text(signer->Some_0)
            &&& !signed ==> fields[3].1 == JsonView::Null
            &&& fields[4].0 == "trust_indicator"@
            &&& fields[4].1 == JsonView::Text("signed"@) <==> signed
            &&& fields[4].1 == JsonView::Text("unsigned"@) <==> !signed
        }),
        packs_json(installed, signers) == installable().map_values(
            |p: (Seq<char>, Seq<char>)| pack_json(p, installed, signers),
        ),
        installable().len() == 2,
        installable()[0].0 == "banking-v0"@,
        installable()[1].0 == "fapi-2.0"@,
        is_installable(pack.0) <==> pack.0 == "banking-v0"@ || pack.0 == "fapi-2.0"@,
{
    reveal_strlit("signed");
    reveal_strlit("unsigned");
    assert("signed"@.len() == 6);
    assert("unsigned"@.len() == 8);
    if pack.0 == "banking-v0"@ {
        assert(installable()[0].0 == pack.0);
    }
    if pack.0 == "fapi-2.0"@ {
        assert(installable()[1].0 == pack.0);
    }
}

/// A question is answered with the passages that were found and the answer, if
/// there is a model and it gave one; what went wrong is told.
pub proof fn law_questions_are_answered(hits: JsonView, asked: Asked)
    ensures
        ask_json(hits, asked) is Object,
        ask_json(hits, asked)->Object_0.len() >= 2,
        ask_json(hits, asked)->Object_0[0] == ("hits"@, hits),
        ask_json(hits, asked)->Object_0[1].0 == "answer"@,
        match asked {
            Asked::NoModel => ask_json(hits, asked)->Object_0.len() == 2 && ask_json(
                hits,
                asked,
            )->Object_0[1].1 == JsonView::Null,
            Asked::Answer(a) => ask_json(hits, asked)->Object_0.len() == 2 && ask_json(
                hits,
                asked,
            )->Object_0[1].1 == JsonView::Text(a@),
            Asked::Failed(e) => ask_json(hits, asked)->Object_0.len() == 3 && ask_json(
                hits,
                asked,
            )->Object_0[1].1 == JsonView::Null && ask_json(hits, asked)->Object_0[2] == (
                "error"@,
                JsonView::Text(e@),
            ),
        },
{
}

/// The history is shown revision by revision, in order.
pub proof fn law_history_is_shown(entries: Seq<RevisionView>, text: Seq<char>)
    ensures
        log_json(entries) == JsonView::Object(
            seq![
                ("ok"@, JsonView::Bool(true)),
                (
                    "log"@,
                    JsonView::List(
                        entries.map_values(
                            |e: RevisionView|
                                JsonView::Object(
                                    seq![
                                        ("hash"@, JsonView::Text(e.hash)),
                                        ("message"@, JsonView::Text(e.message)),
                                        ("timestamp"@, JsonView::Text(e.timestamp)),
                                    ],
                                ),
                        ),
                    ),
                ),
            ],
        ),
        diff_json(text) == JsonView::Object(
            seq![("ok"@, JsonView::Bool(true)), ("diff"@, JsonView::Text(text))],
        ),
{
    assert(revision_list(entries) =~= entries.map_values(
        |e: RevisionView|
            JsonView::Object(
                seq![
                    ("hash"@, JsonView::Text(e.hash)),
                    ("message"@, JsonView::Text(e.message)),
                    ("timestamp"@, JsonView::Text(e.timestamp)),
                ],
            ),
    ));
}

/// Every gap that a model found is told, in order; without a model there is none,
/// and what went wrong is told.
pub proof fn law_gaps_are_told(suggested: Suggested)
    ensures
        match suggested {
            Suggested::NoModel => suggest_json(suggested) == JsonView::Object(
                seq![("suggestions"@, JsonView::List(Seq::empty()))],
            ),
            Suggested::Failed(e) => suggest_json(suggested) == JsonView::Object(
                seq![
                    ("suggestions"@, JsonView::List(Seq::empty())),
                    ("error"@, JsonView::Text(e@)),
                ],
            ),
            Suggested::Items(items) => suggest_json(suggested) == JsonView::Object(
                seq![
                    (
                        "suggestions"@,
                        JsonView::List(
                            items@.map_values(
                                |s: SuggestedItem|
                                    JsonView::Object(
                                        seq![
                                            ("kind"@, JsonView::Text(s.kind@)),
                                            ("target"@, JsonView::Text(s.target@)),
                                            ("unit_kind"@, text_or_null(opt_text(s.unit_kind))),
                                            ("reason"@, JsonView::Text(s.reason@)),
                                            ("draft"@, JsonView::Text(s.draft@)),
                                        ],
                                    ),
                            ),
                        ),
                    ),
                ],
            ),
        },
{
    if let Suggested::Items(items) = suggested {
        assert(suggestion_list(items@) =~= items@.map_values(
            |s: SuggestedItem|
                JsonView::Object(
                    seq![
                        ("kind"@, JsonView::Text(s.kind@)),
                        ("target"@, JsonView::Text(s.target@)),
                        ("unit_kind"@, text_or_null(opt_text(s.unit_kind))),
                        ("reason"@, JsonView::Text(s.reason@)),
                        ("draft"@, JsonView::Text(s.draft@)),
                    ],
                ),
        ));
    }
}

/// The node that stands for a name is that of the last candidate with it.
pub proof fn law_node_of_a_name(
    candidates: Seq<CandidateView>,
    ids: Seq<Seq<char>>,
    name: Seq<char>,
    n: nat,
)
    requires
        n <= candidates.len(),
    ensures
        match node_named(candidates, ids, name, n) {
            Some(id) => exists|i: int|
                {
                    &&& 0 <= i < n
                    &&& (#[trigger] candidates[i]).name == name
                    &&& ids[i] == id
                    &&& forall|j: int| i < j < n ==> (#[trigger] candidates[j]).name != name
                },
            None => forall|i: int| 0 <= i < n ==> (#[trigger] candidates[i]).name != name,
        },
    decreases n,
{
    if n > 0 {
        if candidates[n - 1].name == name {
            assert(candidates[n - 1].name == name);
        } else {
            law_node_of_a_name(candidates, ids, name, (n - 1) as nat);
        }
    }
}

/// A candidate is tied to each name that it depends on that a candidate of the
/// batch has, in order.
pub proof fn law_relations_of_a_candidate(
    candidates: Seq<CandidateView>,
    ids: Seq<Seq<char>>,
    i: int,
    n: nat,
)
    requires
        0 <= i < candidates.len(),
        n <= candidates[i].depends_on.len(),
    ensures
        relations_of(candidates, ids, i, n) == candidates[i].depends_on.take(n as int).filter_map(
            |name: Seq<char>|
                if node_named(candidates, ids, name, candidates.len()) is Some {
                    Some(
                        (
                            node_named(
                                candidates,
                                ids,
                                candidates[i].name,
                                candidates.len(),
                            )->Some_0,
                            node_named(candidates, ids, name, candidates.len())->Some_0,
                        ),
                    )
                } else {
                    None
                },
        ),
    decreases n,
{
    let f = |name: Seq<char>|
        if node_named(candidates, ids, name, candidates.len()) is Some {
            Some(
                (
                    node_named(candidates, ids, candidates[i].name, candidates.len())->Some_0,
                    node_named(candidates, ids, name, candidates.len())->Some_0,
                ),
            )
        } else {
            None
        };
    if n > 0 {
        law_relations_of_a_candidate(candidates, ids, i, (n - 1) as nat);
        lemma_kept_next(candidates[i].depends_on, f, n - 1);
        law_node_of_a_name(candidates, ids, candidates[i].name, candidates.len());
    }
}

/// The relations of a batch are those of all its candidates, in order.
pub proof fn law_relations_of_a_batch(
    candidates: Seq<CandidateView>,
    ids: Seq<Seq<char>>,
    n: nat,
)
    requires
        n <= candidates.len(),
    ensures
        relations(candidates, ids, n) == Seq::new(
            candidates.len(),
            |i: int| relations_of(candidates, ids, i, candidates[i].depends_on.len()),
        ).take(n as int).flatten(),
    decreases n,
{
    let all = Seq::new(
        candidates.len(),
        |i: int| relations_of(candidates, ids, i, candidates[i].depends_on.len()),
    );
    if n > 0 {
        law_relations_of_a_batch(candidates, ids, (n - 1) as nat);
        lemma_flat_next(all, n - 1);
    } else {
        assert(all.take(0) =~= Seq::<Seq<(Seq<char>, Seq<char>)>>::empty());
    }
}

/// The units that a program does not declare are those that are not locked, in
/// order.
pub proof fn law_units_not_declared(ids: Seq<Seq<char>>, locked: Seq<Seq<char>>, n: nat)
    requires
        n <= ids.len(),
    ensures
        not_declared(ids, locked, n) == ids.take(n as int).filter_map(
            |id: Seq<char>|
                if locked.contains(id) {
                    None
                } else {
                    Some(id)
                },
        ),
    decreases n,
{
    let f = |id: Seq<char>|
        if locked.contains(id) {
            None
        } else {
            Some(id)
        };
    if n > 0 {
        law_units_not_declared(ids, locked, (n - 1) as nat);
        lemma_kept_next(ids, f, n - 1);
    }
}

/// A generation is told with the program, the units that it declares and those
/// that it does not, its revision and its log; one that failed with its error
/// and its log.
pub proof fn law_generations_are_told(
    path: Seq<char>,
    ids: Seq<Seq<char>>,
    locked: Seq<Seq<char>>,
    revision: Option<Seq<char>>,
    log: Seq<Seq<char>>,
)
    ensures
        generated_json(path, ids, locked, revision, log) == JsonView::Object(
            seq![
                ("ok"@, JsonView::Bool(true)),
                ("path"@, JsonView::Text(path)),
                ("locked"@, text_list(locked)),
                ("not_declared"@, text_list(not_declared(ids, locked, ids.len()))),
                ("revision"@, text_or_null(revision)),
                ("log"@, text_list(log)),
            ],
        ),
        failed_json(path, log) == JsonView::Object(
            seq![
                ("ok"@, JsonView::Bool(false)),
                ("error"@, JsonView::Text(path)),
                ("log"@, text_list(log)),
            ],
        ),
        prompt_json(ids, 0) == JsonView::Object(
            seq![
                ("ok"@, JsonView::Bool(true)),
                ("nodes_added"@, JsonView::Number(decimal(ids.len()))),
                ("edges_added"@, JsonView::Int(0)),
                ("nodes"@, text_list(ids)),
            ],
        ),
        forall|edges: int| #[trigger]
            prompt_json(ids, edges) == JsonView::Object(
                seq![
                    ("ok"@, JsonView::Bool(true)),
                    ("nodes_added"@, JsonView::Number(decimal(ids.len()))),
                    ("edges_added"@, JsonView::Int(edges)),
                    ("nodes"@, text_list(ids)),
                ],
            ),
        confirmed_json(ids) == JsonView::Object(
            seq![("ok"@, JsonView::Bool(true)), ("confirmed"@, text_list(ids))],
        ),
        installed_json(path) == JsonView::Object(
            seq![("ok"@, JsonView::Bool(true)), ("pack_id"@, JsonView::Text(path))],
        ),
{
}

/// A signed certificate is the certificate as it is, beside the key and the
/// signature.
pub proof fn law_signed_certificates(v: JsonView, key: Seq<char>, signature: Seq<char>)
    ensures
        signed_json(v, key, signature) == JsonView::Object(
            seq![
                ("certificate"@, v),
                ("signature_algorithm"@, JsonView::Text("ed25519"@)),
                ("public_key"@, JsonView::Text(key)),
                ("signature"@, JsonView::Text(signature)),
            ],
        ),
{
}

/// A publication and a preview are told with where they are, or with what went
/// wrong; whether a preview runs is told by its port.
pub proof fn law_publications_and_previews_are_told(
    outcome: Result<Published, String>,
    started: Result<(u16, String), String>,
    port: Option<u16>,
    path: Option<Seq<char>>,
)
    ensures
        match outcome {
            Ok(p) => published_json(outcome) == JsonView::Object(
                seq![
                    ("ok"@, JsonView::Bool(true)),
                    ("binary"@, JsonView::Text(p.binary@)),
                    ("certificate"@, JsonView::Text(p.certificate@)),
                    ("signed"@, JsonView::Bool(p.signed)),
                    ("revision"@, text_or_null(opt_text(p.revision))),
                ],
            ),
            Err(e) => published_json(outcome) == JsonView::Object(
                seq![("ok"@, JsonView::Bool(false)), ("error"@, JsonView::Text(e@))],
            ),
        },
        match started {
            Ok((p, at)) => preview_json(started) == JsonView::Object(
                seq![
                    ("ok"@, JsonView::Bool(true)),
                    ("port"@, JsonView::Int(p as int)),
                    ("path"@, JsonView::Text(at@)),
                ],
            ),
            Err(e) => preview_json(started) == JsonView::Object(
                seq![("ok"@, JsonView::Bool(false)), ("error"@, JsonView::Text(e@))],
            ),
        },
        preview_status_json(port, path) is Object,
        preview_status_json(port, path)->Object_0.len() == 3,
        preview_status_json(port, path)->Object_0[0] == ("running"@, JsonView::Bool(
            port is Some,
        )),
        preview_status_json(port, path)->Object_0[1].0 == "port"@,
        port matches Some(p) ==> preview_status_json(port, path)->Object_0[1].1 == JsonView::Int(
            p as int,
        ),
        port is None ==> preview_status_json(port, path)->Object_0[1].1 == JsonView::Null,
        preview_status_json(port, path)->Object_0[2] == ("path"@, text_or_null(path)),
        fault_status(Fault::Inside) == 500,
        fault_status(Fault::Model) == 502,
{
}

/// What is told of a file or a pack names it, and ends with what went wrong
/// where something did.
pub proof fn law_what_is_told_of_a_file(path: Seq<char>, error: Seq<char>)
    ensures
        sync_failed(path, error) == "generated "@ + path + " but sync failed: "@ + error,
        commit_warning(error) == "warning: could not commit this generate to git: "@ + error,
        publish_message(path) == "publish: "@ + path,
        generate_message(path) == "generate: "@ + path + " unit(s)"@,
        unread_certificate(path, error) == "reading "@ + path + " to sign it: "@ + error,
        unparsed_certificate(path, error) == "parsing "@ + path + " before signing it: "@ + error,
        unknown_pack(path) == "`"@ + path + "` is not one of the packs this UI can install"@,
        install_label(path) == "hi UI install: "@ + path,
        not_ok_json(error) == JsonView::Object(
            seq![("ok"@, JsonView::Bool(false)), ("error"@, JsonView::Text(error))],
        ),
{
}

} // verus!

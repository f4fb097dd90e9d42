//! Requests about a typed graph.
use super::query::{is_readable, param, query_param, readable};
use super::response::{responds_json, ApiResponse};
use crate::json::{
    copy_items, copy_json, list_push, list_views, member, member_or_null, text_member, Fields,
    Json, JsonView,
};
use crate::lists::lemma_kept_next;
use crate::outside::{from_utf8, json_parsed, parse_json};
use crate::text::same_text;
use crate::transport::Access;
use vstd::prelude::*;
use vstd::utf8::{decode_utf8, valid_utf8};

verus! {

/// What a request about a typed graph asks for.
#[derive(Clone, Copy, Debug, PartialEq, Eq, Structural)]
pub enum TypedRoute {
    /// The version of the graph.
    Head,
    /// A page of what it holds: see [`page_args`].
    Page,
    /// A call of one of its tools: see [`read_call`].
    Call,
    /// All its nodes, page by page.
    Nodes,
    /// All its edges, page by page.
    Edges,
    /// What a typed graph does not do.
    Unsupported,
}

/// What a request about a typed graph asks for.
pub open spec fn typed_routed(path: Seq<char>) -> TypedRoute {
    if path == "/api/graph/head"@ {
        TypedRoute::Head
    } else if path == "/api/graph/page"@ {
        TypedRoute::Page
    } else if path == "/api/graph/call"@ {
        TypedRoute::Call
    } else if path == "/api/nodes"@ {
        TypedRoute::Nodes
    } else if path == "/api/edges"@ {
        TypedRoute::Edges
    } else {
        TypedRoute::Unsupported
    }
}

/// What a request about a typed graph asks for.
pub fn typed_graph_route(path: &str) -> (out: TypedRoute)
    ensures
        out == typed_routed(path@),
{
    if same_text(path, "/api/graph/head") {
        TypedRoute::Head
    } else if same_text(path, "/api/graph/page") {
        TypedRoute::Page
    } else if same_text(path, "/api/graph/call") {
        TypedRoute::Call
    } else if same_text(path, "/api/nodes") {
        TypedRoute::Nodes
    } else if same_text(path, "/api/edges") {
        TypedRoute::Edges
    } else {
        TypedRoute::Unsupported
    }
}

/// What a request may do to a typed graph: anything where it posts, else only
/// read.
pub fn typed_access(method: &str) -> (out: Access)
    ensures
        out == if method@ == "POST"@ {
            Access::Reviewer
        } else {
            Access::Read
        },
{
    if same_text(method, "POST") {
        Access::Reviewer
    } else {
        Access::Read
    }
}

/// What a page may be narrowed by, in the order in which it is told.
pub open spec fn page_keys() -> Seq<Seq<char>> {
    seq!["snapshot"@, "cursor"@, "filter_hash"@, "view"@, "entity_type"@, "kind"@]
}

/// The parameters of a page can be decoded.
pub open spec fn page_readable(query: Seq<char>) -> bool {
    forall|i: int| 0 <= i < page_keys().len() ==> readable(query, #[trigger] page_keys()[i])
}

/// What a query says of the first `n` keys.
pub open spec fn page_fields(query: Seq<char>, n: nat) -> Seq<(Seq<char>, JsonView)>
    decreases n,
{
    if n == 0 {
        Seq::empty()
    } else {
        let before = page_fields(query, (n - 1) as nat);
        let key = page_keys()[n - 1];
        match param(query, key) {
            Some(v) => before.push((key, JsonView::Text(v))),
            None => before,
        }
    }
}

fn put_param(fields: &mut Fields, query: &str, key: &str)
    requires
        readable(query@, key@),
    ensures
        final(fields)@ == (match param(query@, key@) {
            Some(v) => old(fields)@.push((key@, JsonView::Text(v))),
            None => old(fields)@,
        }),
{
    match query_param(query, key) {
        Some(v) => fields.put_text(key, v.as_str()),
        None => {},
    }
}

fn is_page_readable(query: &str) -> (r: bool)
    ensures
        r == page_readable(query@),
{
    let r: bool = is_readable(query, "snapshot") && is_readable(query, "cursor") && is_readable(
        query,
        "filter_hash",
    ) && is_readable(query, "view") && is_readable(query, "entity_type") && is_readable(
        query,
        "kind",
    );
    proof {
        let k = page_keys();
        assert(k[0] == "snapshot"@ && k[1] == "cursor"@ && k[2] == "filter_hash"@ && k[3]
            == "view"@ && k[4] == "entity_type"@ && k[5] == "kind"@);
    }
    r
}

/// What a page is narrowed by, as far as a query says; nothing where the query
/// cannot be decoded.
pub fn page_args(query: &str) -> (out: Option<Json>)
    ensures
        match out {
            Some(v) => page_readable(query@) && v@ == JsonView::Object(page_fields(query@, 6)),
            None => !page_readable(query@),
        },
{
    if !is_page_readable(query) {
        return None;
    }
    let mut fields: Fields = Fields::new();
    proof {
        let k = page_keys();
        assert(k[0] == "snapshot"@ && k[1] == "cursor"@ && k[2] == "filter_hash"@ && k[3]
            == "view"@ && k[4] == "entity_type"@ && k[5] == "kind"@);
        reveal_with_fuel(page_fields, 7);
    }
    put_param(&mut fields, query, "snapshot");
    put_param(&mut fields, query, "cursor");
    put_param(&mut fields, query, "filter_hash");
    put_param(&mut fields, query, "view");
    put_param(&mut fields, query, "entity_type");
    put_param(&mut fields, query, "kind");
    Some(fields.object())
}

pub const NOT_UTF8: &'static str = "Expected UTF-8 JSON";

/// The document of a call. What is no UTF-8 is the message of a
/// `SCHEMA_INVALID` error.
pub fn call_text(body: &[u8]) -> (out: Result<String, String>)
    ensures
        match out {
            Ok(text) => valid_utf8(body@) && text@ == decode_utf8(body@),
            Err(e) => !valid_utf8(body@) && e@ == NOT_UTF8@,
        },
{
    match from_utf8(body) {
        Ok(text) => Ok(text),
        Err(_) => Err(NOT_UTF8.to_owned()),
    }
}

/// The tool that a call names, empty where it names none, and what it is given.
pub fn call_of(request: &Json) -> (out: (String, Json))
    ensures
        out.0@ == (match text_member(request@, "name"@) {
            Some(name) => name,
            None => Seq::empty(),
        }),
        out.1@ == member_or_null(request@, "arguments"@),
{
    let name: String = match request.get_text("name") {
        Some(name) => name.clone(),
        None => String::new(),
    };
    (name, request.get_or_null("arguments"))
}

/// The tool that the body of a call names and what it is given, or the message
/// of a `SCHEMA_INVALID` error.
pub open spec fn called(body: Seq<u8>) -> Result<(Seq<char>, JsonView), Seq<char>> {
    if !valid_utf8(body) {
        Err(NOT_UTF8@)
    } else {
        match json_parsed(decode_utf8(body)) {
            Ok(request) => Ok(
                (
                    match text_member(request, "name"@) {
                        Some(name) => name,
                        None => Seq::empty(),
                    },
                    member_or_null(request, "arguments"@),
                ),
            ),
            Err(e) => Err(e),
        }
    }
}

/// Reads the body of a call. The graph service brings a reader of its own for
/// it; it is not linked here, and the reader of this library stands for it.
pub fn read_call(body: &[u8]) -> (out: Result<(String, Json), String>)
    ensures
        match out {
            Ok((name, arguments)) => called(body@) == Ok::<(Seq<char>, JsonView), Seq<char>>(
                (name@, arguments@),
            ),
            Err(e) => called(body@) == Err::<(Seq<char>, JsonView), Seq<char>>(e@),
        },
{
    match call_text(body) {
        Ok(text) => match parse_json(text.as_str()) {
            Ok(request) => Ok(call_of(&request)),
            Err(e) => Err(e),
        },
        Err(e) => Err(e),
    }
}

/// A walk through all nodes, or all edges, page by page.
pub struct Paging {
    pub nodes: bool,
    pub rest: Option<(Json, Json)>,
    pub found: Vec<Json>,
}

/// What a walk has found, and where it goes on.
#[verifier::ext_equal]
pub struct PagingView {
    pub nodes: bool,
    pub rest: Option<(JsonView, JsonView)>,
    pub found: Seq<JsonView>,
}

impl View for Paging {
    type V = PagingView;

    open spec fn view(&self) -> PagingView {
        PagingView {
            nodes: self.nodes,
            rest: match self.rest {
                Some((cursor, hash)) => Some((cursor@, hash@)),
                None => None,
            },
            found: list_views(self.found@),
        }
    }
}

pub open spec fn collection_of(nodes: bool) -> Seq<char> {
    if nodes {
        "nodes"@
    } else {
        "edges"@
    }
}

/// What the next page is narrowed by.
pub open spec fn paging_args(p: PagingView) -> JsonView {
    let kind = (
        "entity_type"@,
        JsonView::Text(
            if p.nodes {
                "node"@
            } else {
                "edge"@
            },
        ),
    );
    JsonView::Object(
        match p.rest {
            Some((cursor, hash)) => seq![kind, ("cursor"@, cursor), ("filter_hash"@, hash)],
            None => seq![kind],
        },
    )
}

/// What comes of a page.
pub enum PageStep {
    /// There is another page.
    More,
    /// That was the last page.
    Last,
    /// The page holds no collection.
    NoCollection,
}

/// The collection that a page holds.
pub open spec fn collected(page: JsonView, nodes: bool) -> Option<Seq<JsonView>> {
    match member(page, collection_of(nodes)) {
        Some(JsonView::List(items)) => Some(items),
        _ => None,
    }
}

impl Paging {
    /// A walk through all nodes, or all edges.
    pub fn new(nodes: bool) -> (out: Paging)
        ensures
            out@ == (PagingView { nodes, rest: None, found: Seq::empty() }),
    {
        let out: Paging = Paging { nodes, rest: None, found: Vec::new() };
        assert(out@.found =~= Seq::<JsonView>::empty());
        out
    }

    /// What the next page is narrowed by.
    pub fn args(&self) -> (out: Json)
        ensures
            out@ == paging_args(self@),
    {
        let mut fields: Fields = Fields::new();
        fields.put_text(
            "entity_type",
            if self.nodes {
                "node"
            } else {
                "edge"
            },
        );
        match &self.rest {
            Some((cursor, hash)) => {
                fields.put("cursor", copy_json(cursor));
                fields.put("filter_hash", copy_json(hash));
            },
            None => {},
        }
        assert(fields@ =~= paging_args(self@)->Object_0);
        fields.object()
    }

    /// Takes a page.
    pub fn take(&mut self, page: &Json) -> (out: PageStep)
        ensures
            match collected(page@, old(self)@.nodes) {
                None => out is NoCollection && final(self)@ == old(self)@,
                Some(items) => {
                    let cursor = member_or_null(page@, "next_cursor"@);
                    &&& final(self)@.nodes == old(self)@.nodes
                    &&& final(self)@.found == old(self)@.found + items
                    &&& if cursor is Null {
                        out is Last && final(self)@.rest == old(self)@.rest
                    } else {
                        out is More && final(self)@.rest == Some(
                            (cursor, member_or_null(page@, "filter_hash"@)),
                        )
                    }
                },
            },
    {
        broadcast use list_push;

        let key: &str = if self.nodes {
            "nodes"
        } else {
            "edges"
        };
        let mut items: Vec<Json> = match page.get(key) {
            Some(Json::List(items)) => copy_items(items),
            _ => {
                return PageStep::NoCollection;
            },
        };
        let ghost had = list_views(self.found@);
        let ghost more = list_views(items@);
        let count: usize = items.len();
        let mut i: usize = 0;
        proof {
            crate::json::lemma_list_len(items@);
        }
        assert(had + more.take(0) =~= had);
        while i < count
            invariant
                i <= count,
                count == items@.len(),
                more == list_views(items@),
                more.len() == count,
                self.nodes == old(self).nodes,
                self.rest == old(self).rest,
                list_views(self.found@) == had + more.take(i as int),
            decreases count - i,
        {
            proof {
                crate::json::lemma_list_item(items@, i as int);
            }
            let ghost before = self.found@;
            self.found.push(copy_json(&items[i]));
            assert(self.found@.drop_last() =~= before);
            i += 1;
            assert(had + more.take(i as int) =~= (had + more.take(i as int - 1)).push(
                more[i as int - 1],
            ));
        }
        assert(more.take(i as int) =~= more);
        let cursor: Json = page.get_or_null("next_cursor");
        match &cursor {
            Json::Null => PageStep::Last,
            _ => {
                self.rest = Some((cursor, page.get_or_null("filter_hash")));
                PageStep::More
            },
        }
    }
}

pub const UNSUPPORTED: &'static str = "This legacy action is unavailable on a typed graph; use the graph MCP tools";

/// The status of an error about a typed graph: a graph that is not there yet is
/// not found.
pub open spec fn typed_status(code: Seq<char>) -> int {
    if code == "PROJECT_NOT_INITIALIZED"@ || code == "MIGRATION_REQUIRED"@ {
        404
    } else {
        400
    }
}

/// The answer to a request about a typed graph. An error comes with its code
/// and what else is known of it.
pub fn typed_response(result: &Result<Json, (String, Json)>) -> (out: ApiResponse)
    ensures
        match *result {
            Ok(v) => responds_json(out, 200, v@),
            Err((code, envelope)) => responds_json(out, typed_status(code@), envelope@),
        },
{
    match result {
        Ok(v) => ApiResponse::json(v),
        Err((code, envelope)) => if same_text(code.as_str(), "PROJECT_NOT_INITIALIZED")
            || same_text(code.as_str(), "MIGRATION_REQUIRED") {
            ApiResponse::json_with(404, envelope)
        } else {
            ApiResponse::json_with(400, envelope)
        },
    }
}

/// What a request about a typed graph asks for, by its path.
pub proof fn law_paths_of_a_typed_graph(path: Seq<char>)
    ensures
        typed_routed("/api/graph/head"@) == TypedRoute::Head,
        typed_routed("/api/graph/page"@) == TypedRoute::Page,
        typed_routed("/api/graph/call"@) == TypedRoute::Call,
        typed_routed("/api/nodes"@) == TypedRoute::Nodes,
        typed_routed("/api/edges"@) == TypedRoute::Edges,
        path != "/api/graph/head"@ && path != "/api/graph/page"@ && path != "/api/graph/call"@
            && path != "/api/nodes"@ && path != "/api/edges"@ ==> typed_routed(path)
            == TypedRoute::Unsupported,
{
    reveal_strlit("/api/graph/head");
    reveal_strlit("/api/graph/page");
    reveal_strlit("/api/graph/call");
    reveal_strlit("/api/nodes");
    reveal_strlit("/api/edges");
    assert("/api/graph/head"@.len() == 15 && "/api/graph/head"@[5] == 'g' && "/api/graph/head"@[11] == 'h');
    assert("/api/graph/page"@.len() == 15 && "/api/graph/page"@[5] == 'g' && "/api/graph/page"@[11] == 'p');
    assert("/api/graph/call"@.len() == 15 && "/api/graph/call"@[5] == 'g' && "/api/graph/call"@[11] == 'c');
    assert("/api/nodes"@.len() == 10 && "/api/nodes"@[5] == 'n');
    assert("/api/edges"@.len() == 10 && "/api/edges"@[5] == 'e');
}

/// A page is narrowed by every parameter of a query that it may be narrowed by,
/// in one order.
pub proof fn law_what_narrows_a_page(query: Seq<char>, n: nat)
    requires
        n <= 6,
    ensures
        page_fields(query, n) == seq![
            "snapshot"@,
            "cursor"@,
            "filter_hash"@,
            "view"@,
            "entity_type"@,
            "kind"@,
        ].take(n as int).filter_map(
            |key: Seq<char>|
                if param(query, key) is Some {
                    Some((key, JsonView::Text(param(query, key)->Some_0)))
                } else {
                    None
                },
        ),
    decreases n,
{
    let keys = seq![
        "snapshot"@,
        "cursor"@,
        "filter_hash"@,
        "view"@,
        "entity_type"@,
        "kind"@,
    ];
    let f = |key: Seq<char>|
        if param(query, key) is Some {
            Some((key, JsonView::Text(param(query, key)->Some_0)))
        } else {
            None
        };
    if n > 0 {
        law_what_narrows_a_page(query, (n - 1) as nat);
        lemma_kept_next(keys, f, n - 1);
        assert(page_keys() =~= keys);
    }
}

/// The body of a call names a tool and what it is given; a body that is no text
/// or no document is refused.
pub proof fn law_body_of_a_call(body: Seq<u8>)
    ensures
        match called(body) {
            Ok((name, arguments)) => {
                &&& valid_utf8(body)
                &&& json_parsed(decode_utf8(body)) is Ok
                &&& text_member(json_parsed(decode_utf8(body))->Ok_0, "name"@) matches Some(n)
                    ==> name == n
                &&& text_member(json_parsed(decode_utf8(body))->Ok_0, "name"@) is None
                    ==> name.len() == 0
                &&& arguments == member_or_null(
                    json_parsed(decode_utf8(body))->Ok_0,
                    "arguments"@,
                )
            },
            Err(e) => {
                ||| !valid_utf8(body) && e == "Expected UTF-8 JSON"@
                ||| valid_utf8(body) && json_parsed(decode_utf8(body)) == Err::<
                    JsonView,
                    Seq<char>,
                >(e)
            },
        },
{
}

/// A walk through a graph asks for nodes or for edges, goes on where the last
/// page ended, and takes from a page the list of what it asks for.
pub proof fn law_walk_through_a_graph(p: PagingView, page: JsonView)
    ensures
        paging_args(p) is Object,
        paging_args(p)->Object_0[0] == ("entity_type"@, JsonView::Text(
            if p.nodes {
                "node"@
            } else {
                "edge"@
            },
        )),
        p.rest is None ==> paging_args(p)->Object_0.len() == 1,
        p.rest matches Some((cursor, hash)) ==> {
            &&& paging_args(p)->Object_0.len() == 3
            &&& paging_args(p)->Object_0[1] == ("cursor"@, cursor)
            &&& paging_args(p)->Object_0[2] == ("filter_hash"@, hash)
        },
        collected(page, true) is Some <==> member(page, "nodes"@) is Some && member(
            page,
            "nodes"@,
        )->Some_0 is List,
        collected(page, true) matches Some(items) ==> member(page, "nodes"@) == Some(
            JsonView::List(items),
        ),
        collected(page, false) is Some <==> member(page, "edges"@) is Some && member(
            page,
            "edges"@,
        )->Some_0 is List,
        collected(page, false) matches Some(items) ==> member(page, "edges"@) == Some(
            JsonView::List(items),
        ),
{
}

/// A graph that is not there yet is not found; any other error is one of the
/// request.
pub proof fn law_status_of_an_error(code: Seq<char>)
    ensures
        typed_status("PROJECT_NOT_INITIALIZED"@) == 404,
        typed_status("MIGRATION_REQUIRED"@) == 404,
        code != "PROJECT_NOT_INITIALIZED"@ && code != "MIGRATION_REQUIRED"@ ==> typed_status(code)
            == 400,
{
}

} // verus!

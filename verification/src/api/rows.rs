//! The rows of the graph, as the console shows them.
use super::response::{responds_error, responds_json, ApiResponse};
use super::screen_map::{all_ways, nav_views, screen_ways, NavView, NavigationRow, ScreenRow};
use crate::cli::impact::{HitView, ImpactHit, ImpactReport};
use crate::composer::decl::opt_text;
use crate::json::{list_push, list_views, opt_json, text_or_null, Fields, Json, JsonView};
use vstd::prelude::*;

verus! {

/// How many rows a listing holds at most.
pub const MAX_ROWS: u32 = 2000;

pub open spec fn int_or_null(o: Option<i64>) -> JsonView {
    match o {
        Some(n) => JsonView::Int(n as int),
        None => JsonView::Null,
    }
}

fn int_json(o: Option<i64>) -> (out: Json)
    ensures
        out@ == int_or_null(o),
{
    match o {
        Some(n) => Json::Int(n),
        None => Json::Null,
    }
}

/// A node of the graph.
pub struct NodeRow {
    pub id: String,
    pub kind: String,
    pub title: Option<String>,
    pub status: Option<String>,
    pub content_hash: Option<String>,
    pub source_ref: Option<String>,
    pub line: Option<i64>,
    pub col: Option<i64>,
    pub driving_text: Option<String>,
    pub created_by: Option<String>,
    pub confirmed: i64,
    pub locked: i64,
    pub waived: i64,
    pub waive_reason: Option<String>,
    pub attributes: Option<String>,
    pub plugin_origin: Option<String>,
    pub non_waivable: bool,
    pub screen_type: Option<String>,
    pub screen_path: Option<String>,
    pub screen_nav: Option<String>,
}

pub open spec fn node_json(r: NodeRow) -> JsonView {
    JsonView::Object(
        seq![
            ("id"@, JsonView::Text(r.id@)),
            ("kind"@, JsonView::Text(r.kind@)),
            ("title"@, text_or_null(opt_text(r.title))),
            ("status"@, text_or_null(opt_text(r.status))),
            ("content_hash"@, text_or_null(opt_text(r.content_hash))),
            ("source_ref"@, text_or_null(opt_text(r.source_ref))),
            ("line"@, int_or_null(r.line)),
            ("col"@, int_or_null(r.col)),
            ("driving_text"@, text_or_null(opt_text(r.driving_text))),
            ("created_by"@, text_or_null(opt_text(r.created_by))),
            ("confirmed"@, JsonView::Int(r.confirmed as int)),
            ("locked"@, JsonView::Int(r.locked as int)),
            ("waived"@, JsonView::Int(r.waived as int)),
            ("waive_reason"@, text_or_null(opt_text(r.waive_reason))),
            ("attributes"@, text_or_null(opt_text(r.attributes))),
            ("plugin_origin"@, text_or_null(opt_text(r.plugin_origin))),
            ("non_waivable"@, JsonView::Bool(r.non_waivable)),
            ("screen_type"@, text_or_null(opt_text(r.screen_type))),
            ("screen_path"@, text_or_null(opt_text(r.screen_path))),
            ("screen_nav"@, text_or_null(opt_text(r.screen_nav))),
        ],
    )
}

fn write_node(r: &NodeRow) -> (out: Json)
    ensures
        out@ == node_json(*r),
{
    let mut fields: Fields = Fields::new();
    fields.put_text("id", r.id.as_str());
    fields.put_text("kind", r.kind.as_str());
    fields.put("title", opt_json(&r.title));
    fields.put("status", opt_json(&r.status));
    fields.put("content_hash", opt_json(&r.content_hash));
    fields.put("source_ref", opt_json(&r.source_ref));
    fields.put("line", int_json(r.line));
    fields.put("col", int_json(r.col));
    fields.put("driving_text", opt_json(&r.driving_text));
    fields.put("created_by", opt_json(&r.created_by));
    fields.put("confirmed", Json::Int(r.confirmed));
    fields.put("locked", Json::Int(r.locked));
    fields.put("waived", Json::Int(r.waived));
    fields.put("waive_reason", opt_json(&r.waive_reason));
    fields.put("attributes", opt_json(&r.attributes));
    fields.put("plugin_origin", opt_json(&r.plugin_origin));
    fields.put_bool("non_waivable", r.non_waivable);
    fields.put("screen_type", opt_json(&r.screen_type));
    fields.put("screen_path", opt_json(&r.screen_path));
    fields.put("screen_nav", opt_json(&r.screen_nav));
    assert(fields@ =~= node_json(*r)->Object_0);
    fields.object()
}

pub open spec fn node_list(rows: Seq<NodeRow>) -> Seq<JsonView> {
    rows.map_values(|r: NodeRow| node_json(r))
}

fn write_nodes(rows: &Vec<NodeRow>) -> (out: Json)
    ensures
        out@ == JsonView::List(node_list(rows@)),
{
    broadcast use list_push;

    let ghost all = node_list(rows@);
    let mut items: Vec<Json> = Vec::new();
    let mut i: usize = 0;
    assert(list_views(items@) =~= all.take(0));
    while i < rows.len()
        invariant
            i <= rows@.len(),
            all == node_list(rows@),
            list_views(items@) == all.take(i as int),
        decreases rows@.len() - i,
    {
        let ghost before = items@;
        items.push(write_node(&rows[i]));
        assert(items@.drop_last() =~= before);
        assert(all[i as int] == node_json(rows@[i as int]));
        i += 1;
        assert(all.take(i as int) =~= all.take(i as int - 1).push(all[i as int - 1]));
    }
    assert(all.take(i as int) =~= all);
    Json::List(items)
}

/// An edge of the graph.
pub struct EdgeRow {
    pub src: String,
    pub dst: String,
    pub kind: String,
    pub flag: Option<String>,
    pub flag_reason: Option<String>,
}

pub open spec fn edge_json(r: EdgeRow) -> JsonView {
    JsonView::Object(
        seq![
            ("src"@, JsonView::Text(r.src@)),
            ("dst"@, JsonView::Text(r.dst@)),
            ("kind"@, JsonView::Text(r.kind@)),
            ("flag"@, text_or_null(opt_text(r.flag))),
            ("flag_reason"@, text_or_null(opt_text(r.flag_reason))),
        ],
    )
}

fn write_edge(r: &EdgeRow) -> (out: Json)
    ensures
        out@ == edge_json(*r),
{
    let mut fields: Fields = Fields::new();
    fields.put_text("src", r.src.as_str());
    fields.put_text("dst", r.dst.as_str());
    fields.put_text("kind", r.kind.as_str());
    fields.put("flag", opt_json(&r.flag));
    fields.put("flag_reason", opt_json(&r.flag_reason));
    assert(fields@ =~= edge_json(*r)->Object_0);
    fields.object()
}

pub open spec fn edge_list(rows: Seq<EdgeRow>) -> Seq<JsonView> {
    rows.map_values(|r: EdgeRow| edge_json(r))
}

fn write_edges(rows: &Vec<EdgeRow>) -> (out: Json)
    ensures
        out@ == JsonView::List(edge_list(rows@)),
{
    broadcast use list_push;

    let ghost all = edge_list(rows@);
    let mut items: Vec<Json> = Vec::new();
    let mut i: usize = 0;
    assert(list_views(items@) =~= all.take(0));
    while i < rows.len()
        invariant
            i <= rows@.len(),
            all == edge_list(rows@),
            list_views(items@) == all.take(i as int),
        decreases rows@.len() - i,
    {
        let ghost before = items@;
        items.push(write_edge(&rows[i]));
        assert(items@.drop_last() =~= before);
        assert(all[i as int] == edge_json(rows@[i as int]));
        i += 1;
        assert(all.take(i as int) =~= all.take(i as int - 1).push(all[i as int - 1]));
    }
    assert(all.take(i as int) =~= all);
    Json::List(items)
}

pub open spec fn screen_json(r: ScreenRow) -> JsonView {
    JsonView::Object(
        seq![
            ("id"@, JsonView::Text(r.id@)),
            ("name"@, JsonView::Text(r.name@)),
            ("screen_type"@, JsonView::Text(r.screen_type@)),
            ("screen_path"@, text_or_null(opt_text(r.screen_path))),
            ("screen_nav"@, text_or_null(opt_text(r.screen_nav))),
        ],
    )
}

fn write_screen(r: &ScreenRow) -> (out: Json)
    ensures
        out@ == screen_json(*r),
{
    let mut fields: Fields = Fields::new();
    fields.put_text("id", r.id.as_str());
    fields.put_text("name", r.name.as_str());
    fields.put_text("screen_type", r.screen_type.as_str());
    fields.put("screen_path", opt_json(&r.screen_path));
    fields.put("screen_nav", opt_json(&r.screen_nav));
    assert(fields@ =~= screen_json(*r)->Object_0);
    fields.object()
}

pub open spec fn screen_list(rows: Seq<ScreenRow>) -> Seq<JsonView> {
    rows.map_values(|r: ScreenRow| screen_json(r))
}

fn write_screens(rows: &Vec<ScreenRow>) -> (out: Json)
    ensures
        out@ == JsonView::List(screen_list(rows@)),
{
    broadcast use list_push;

    let ghost all = screen_list(rows@);
    let mut items: Vec<Json> = Vec::new();
    let mut i: usize = 0;
    assert(list_views(items@) =~= all.take(0));
    while i < rows.len()
        invariant
            i <= rows@.len(),
            all == screen_list(rows@),
            list_views(items@) == all.take(i as int),
        decreases rows@.len() - i,
    {
        let ghost before = items@;
        items.push(write_screen(&rows[i]));
        assert(items@.drop_last() =~= before);
        assert(all[i as int] == screen_json(rows@[i as int]));
        i += 1;
        assert(all.take(i as int) =~= all.take(i as int - 1).push(all[i as int - 1]));
    }
    assert(all.take(i as int) =~= all);
    Json::List(items)
}

/// A way between screens, as the console shows it.
pub open spec fn way_json(w: NavView) -> JsonView {
    JsonView::Object(
        seq![
            ("source_id"@, JsonView::Text(w.source)),
            ("target_id"@, JsonView::Text(w.target)),
            ("label"@, JsonView::Text(w.label)),
            ("inferred"@, JsonView::Bool(w.inferred)),
        ],
    )
}

pub open spec fn way_list(ways: Seq<NavView>) -> Seq<JsonView> {
    ways.map_values(|w: NavView| way_json(w))
}

fn write_way(r: &NavigationRow) -> (out: Json)
    ensures
        out@ == way_json(r@),
{
    let mut fields: Fields = Fields::new();
    fields.put_text("source_id", r.source_id.as_str());
    fields.put_text("target_id", r.target_id.as_str());
    fields.put_text("label", r.label.as_str());
    fields.put_bool("inferred", r.inferred);
    assert(fields@ =~= way_json(r@)->Object_0);
    fields.object()
}

fn write_ways(rows: &Vec<NavigationRow>) -> (out: Json)
    ensures
        out@ == JsonView::List(way_list(nav_views(rows@))),
{
    broadcast use list_push;

    let ghost all = way_list(nav_views(rows@));
    let mut items: Vec<Json> = Vec::new();
    let mut i: usize = 0;
    assert(list_views(items@) =~= all.take(0));
    while i < rows.len()
        invariant
            i <= rows@.len(),
            all == way_list(nav_views(rows@)),
            list_views(items@) == all.take(i as int),
        decreases rows@.len() - i,
    {
        let ghost before = items@;
        items.push(write_way(&rows[i]));
        assert(items@.drop_last() =~= before);
        assert(all[i as int] == way_json(rows@[i as int]@));
        i += 1;
        assert(all.take(i as int) =~= all.take(i as int - 1).push(all[i as int - 1]));
    }
    assert(all.take(i as int) =~= all);
    Json::List(items)
}

/// The listing of the nodes, or what went wrong.
pub fn list_nodes(rows: &Result<Vec<NodeRow>, String>) -> (out: ApiResponse)
    ensures
        match *rows {
            Ok(r) => responds_json(out, 200, JsonView::List(node_list(r@))),
            Err(e) => responds_error(out, 500, e@),
        },
{
    match rows {
        Ok(r) => ApiResponse::json(&write_nodes(r)),
        Err(e) => ApiResponse::error(500, e.as_str()),
    }
}

/// The listing of the edges, or what went wrong.
pub fn list_edges(rows: &Result<Vec<EdgeRow>, String>) -> (out: ApiResponse)
    ensures
        match *rows {
            Ok(r) => responds_json(out, 200, JsonView::List(edge_list(r@))),
            Err(e) => responds_error(out, 500, e@),
        },
{
    match rows {
        Ok(r) => ApiResponse::json(&write_edges(r)),
        Err(e) => ApiResponse::error(500, e.as_str()),
    }
}

/// The map of the screens and the ways between them.
pub open spec fn map_json(rows: Seq<ScreenRow>, derived: Seq<NavView>) -> JsonView {
    JsonView::Object(
        seq![
            ("screens"@, JsonView::List(screen_list(rows))),
            ("navigations"@, JsonView::List(way_list(all_ways(rows, derived)))),
        ],
    )
}

/// The map of the screens and the ways between them.
pub fn list_screens(rows: &Vec<ScreenRow>, derived: Vec<NavigationRow>) -> (out: ApiResponse)
    ensures
        responds_json(out, 200, map_json(rows@, nav_views(derived@))),
{
    let ghost made = map_json(rows@, nav_views(derived@));
    let ways: Vec<NavigationRow> = screen_ways(rows, derived);
    let mut fields: Fields = Fields::new();
    fields.put("screens", write_screens(rows));
    fields.put("navigations", write_ways(&ways));
    assert(fields@ =~= made->Object_0);
    ApiResponse::json(&fields.object())
}

/// A node that a change touches.
pub open spec fn hit_json(h: HitView) -> JsonView {
    JsonView::Object(
        seq![
            ("node_id"@, JsonView::Text(h.node_id)),
            ("kind"@, JsonView::Text(h.kind)),
            ("title"@, text_or_null(h.title)),
            ("edge_kind"@, JsonView::Text(h.edge_kind)),
            ("depth"@, JsonView::Int(h.depth as int)),
            ("flag"@, text_or_null(h.flag)),
            ("source_ref"@, text_or_null(h.source_ref)),
            ("line"@, int_or_null(h.line)),
            ("col"@, int_or_null(h.col)),
        ],
    )
}

pub open spec fn hit_list(hits: Seq<ImpactHit>) -> Seq<JsonView> {
    hits.map_values(|h: ImpactHit| hit_json(h@))
}

/// What a change touches.
pub open spec fn impact_json(r: ImpactReport) -> JsonView {
    JsonView::Object(
        seq![
            ("hits"@, JsonView::List(hit_list(r.hits@))),
            ("partial"@, JsonView::Bool(r.partial)),
        ],
    )
}

fn write_hit(h: &ImpactHit) -> (out: Json)
    ensures
        out@ == hit_json(h@),
{
    let mut fields: Fields = Fields::new();
    fields.put_text("node_id", h.node_id.as_str());
    fields.put_text("kind", h.kind.as_str());
    fields.put("title", opt_json(&h.title));
    fields.put_text("edge_kind", h.edge_kind.as_str());
    fields.put("depth", Json::Int(h.depth as i64));
    fields.put("flag", opt_json(&h.flag));
    fields.put("source_ref", opt_json(&h.source_ref));
    fields.put("line", int_json(h.line));
    fields.put("col", int_json(h.col));
    assert(fields@ =~= hit_json(h@)->Object_0);
    fields.object()
}

fn write_hits(hits: &Vec<ImpactHit>) -> (out: Json)
    ensures
        out@ == JsonView::List(hit_list(hits@)),
{
    broadcast use list_push;

    let ghost all = hit_list(hits@);
    let mut items: Vec<Json> = Vec::new();
    let mut i: usize = 0;
    assert(list_views(items@) =~= all.take(0));
    while i < hits.len()
        invariant
            i <= hits@.len(),
            all == hit_list(hits@),
            list_views(items@) == all.take(i as int),
        decreases hits@.len() - i,
    {
        let ghost before = items@;
        items.push(write_hit(&hits[i]));
        assert(items@.drop_last() =~= before);
        assert(all[i as int] == hit_json(hits@[i as int]@));
        i += 1;
        assert(all.take(i as int) =~= all.take(i as int - 1).push(all[i as int - 1]));
    }
    assert(all.take(i as int) =~= all);
    Json::List(items)
}

/// What a change of a unit touches, or why that cannot be told.
pub fn handle_impact(report: &Result<ImpactReport, String>) -> (out: ApiResponse)
    ensures
        match *report {
            Ok(r) => responds_json(out, 200, impact_json(r)),
            Err(e) => responds_error(out, 400, e@),
        },
{
    match report {
        Err(e) => ApiResponse::error(400, e.as_str()),
        Ok(r) => {
            let mut fields: Fields = Fields::new();
            fields.put("hits", write_hits(&r.hits));
            fields.put_bool("partial", r.partial);
            assert(fields@ =~= impact_json(*r)->Object_0);
            ApiResponse::json(&fields.object())
        },
    }
}

/// A node is shown with everything that is known of it; what is not known is
/// null.
pub proof fn law_nodes_are_shown(r: NodeRow)
    ensures
        node_json(r) == JsonView::Object(
            seq![
                ("id"@, JsonView::Text(r.id@)),
                ("kind"@, JsonView::Text(r.kind@)),
                ("title"@, text_or_null(opt_text(r.title))),
                ("status"@, text_or_null(opt_text(r.status))),
                ("content_hash"@, text_or_null(opt_text(r.content_hash))),
                ("source_ref"@, text_or_null(opt_text(r.source_ref))),
                ("line"@, int_or_null(r.line)),
                ("col"@, int_or_null(r.col)),
                ("driving_text"@, text_or_null(opt_text(r.driving_text))),
                ("created_by"@, text_or_null(opt_text(r.created_by))),
                ("confirmed"@, JsonView::Int(r.confirmed as int)),
                ("locked"@, JsonView::Int(r.locked as int)),
                ("waived"@, JsonView::Int(r.waived as int)),
                ("waive_reason"@, text_or_null(opt_text(r.waive_reason))),
                ("attributes"@, text_or_null(opt_text(r.attributes))),
                ("plugin_origin"@, text_or_null(opt_text(r.plugin_origin))),
                ("non_waivable"@, JsonView::Bool(r.non_waivable)),
                ("screen_type"@, text_or_null(opt_text(r.screen_type))),
                ("screen_path"@, text_or_null(opt_text(r.screen_path))),
                ("screen_nav"@, text_or_null(opt_text(r.screen_nav))),
            ],
        ),
        r.line matches Some(n) ==> int_or_null(r.line) == JsonView::Int(n as int),
        r.line is None ==> int_or_null(r.line) == JsonView::Null,
{
}

/// Edges, screens and the ways between them are shown with everything that is
/// known of them.
pub proof fn law_edges_and_screens_are_shown(e: EdgeRow, s: ScreenRow, w: NavView)
    ensures
        edge_json(e) == JsonView::Object(
            seq![
                ("src"@, JsonView::Text(e.src@)),
                ("dst"@, JsonView::Text(e.dst@)),
                ("kind"@, JsonView::Text(e.kind@)),
                ("flag"@, text_or_null(opt_text(e.flag))),
                ("flag_reason"@, text_or_null(opt_text(e.flag_reason))),
            ],
        ),
        screen_json(s) == JsonView::Object(
            seq![
                ("id"@, JsonView::Text(s.id@)),
                ("name"@, JsonView::Text(s.name@)),
                ("screen_type"@, JsonView::Text(s.screen_type@)),
                ("screen_path"@, text_or_null(opt_text(s.screen_path))),
                ("screen_nav"@, text_or_null(opt_text(s.screen_nav))),
            ],
        ),
        way_json(w) == JsonView::Object(
            seq![
                ("source_id"@, JsonView::Text(w.source)),
                ("target_id"@, JsonView::Text(w.target)),
                ("label"@, JsonView::Text(w.label)),
                ("inferred"@, JsonView::Bool(w.inferred)),
            ],
        ),
{
}

/// Listings hold a row for each thing listed, in order: nodes, edges, screens and
/// ways, and every node that a change touches, whatever its depth.
pub proof fn law_listings_are_complete(
    nodes: Seq<NodeRow>,
    edges: Seq<EdgeRow>,
    screens: Seq<ScreenRow>,
    derived: Seq<NavView>,
    report: ImpactReport,
)
    ensures
        node_list(nodes).len() == nodes.len(),
        forall|i: int| 0 <= i < nodes.len() ==> #[trigger] node_list(nodes)[i] == node_json(nodes[i]),
        edge_list(edges).len() == edges.len(),
        forall|i: int| 0 <= i < edges.len() ==> #[trigger] edge_list(edges)[i] == edge_json(edges[i]),
        map_json(screens, derived) is Object,
        map_json(screens, derived)->Object_0.len() == 2,
        map_json(screens, derived)->Object_0[0] == ("screens"@, JsonView::List(
            screens.map_values(|r: ScreenRow| screen_json(r)),
        )),
        map_json(screens, derived)->Object_0[1] == ("navigations"@, JsonView::List(
            all_ways(screens, derived).map_values(|w: NavView| way_json(w)),
        )),
        impact_json(report) is Object,
        impact_json(report)->Object_0.len() == 2,
        impact_json(report)->Object_0[0].0 == "hits"@,
        impact_json(report)->Object_0[0].1 is List,
        impact_json(report)->Object_0[0].1->List_0.len() == report.hits@.len(),
        forall|i: int|
            0 <= i < report.hits@.len() ==> #[trigger] impact_json(
                report,
            )->Object_0[0].1->List_0[i] == JsonView::Object(
                seq![
                    ("node_id"@, JsonView::Text(report.hits@[i]@.node_id)),
                    ("kind"@, JsonView::Text(report.hits@[i]@.kind)),
                    ("title"@, text_or_null(report.hits@[i]@.title)),
                    ("edge_kind"@, JsonView::Text(report.hits@[i]@.edge_kind)),
                    ("depth"@, JsonView::Int(report.hits@[i]@.depth as int)),
                    ("flag"@, text_or_null(report.hits@[i]@.flag)),
                    ("source_ref"@, text_or_null(report.hits@[i]@.source_ref)),
                    ("line"@, int_or_null(report.hits@[i]@.line)),
                    ("col"@, int_or_null(report.hits@[i]@.col)),
                ],
            ),
        impact_json(report)->Object_0[1] == ("partial"@, JsonView::Bool(report.partial)),
{
    assert(screen_list(screens) =~= screens.map_values(|r: ScreenRow| screen_json(r)));
    assert(way_list(all_ways(screens, derived)) =~= all_ways(screens, derived).map_values(
        |w: NavView| way_json(w),
    ));
}

} // verus!

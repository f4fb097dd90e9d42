//! What a change of a unit touches.
use crate::composer::decl::opt_text;
use crate::lists::lemma_flat_next;
use crate::text::{decimal, decimal_text};
use vstd::prelude::*;

verus! {

/// A node that the walk reached.
pub struct ImpactHit {
    pub node_id: String,
    pub kind: String,
    pub title: Option<String>,
    pub edge_kind: String,
    pub depth: u32,
    pub flag: Option<String>,
    pub source_ref: Option<String>,
    pub line: Option<i64>,
    pub col: Option<i64>,
}

/// What the walk reached, and whether it stopped at its bound.
pub struct ImpactReport {
    pub hits: Vec<ImpactHit>,
    pub partial: bool,
}

#[verifier::ext_equal]
pub struct HitView {
    pub node_id: Seq<char>,
    pub kind: Seq<char>,
    pub title: Option<Seq<char>>,
    pub edge_kind: Seq<char>,
    pub depth: nat,
    pub flag: Option<Seq<char>>,
    pub source_ref: Option<Seq<char>>,
    pub line: Option<i64>,
    pub col: Option<i64>,
}

impl View for ImpactHit {
    type V = HitView;

    open spec fn view(&self) -> HitView {
        HitView {
            node_id: self.node_id@,
            kind: self.kind@,
            title: opt_text(self.title),
            edge_kind: self.edge_kind@,
            depth: self.depth as nat,
            flag: opt_text(self.flag),
            source_ref: opt_text(self.source_ref),
            line: self.line,
            col: self.col,
        }
    }
}

pub open spec fn nothing_reached(target: Seq<char>) -> Seq<char> {
    "no reachable nodes from `"@ + target + "` -- try `nirdosha-hi link` or `nirdosha-hi sync` first.\n"@
}

fn say_nothing_reached(target: &str) -> (out: String)
    ensures
        out@ == nothing_reached(target@),
{
    let mut out: String = "no reachable nodes from `".to_owned();
    out.append(target);
    out.append("` -- try `nirdosha-hi link` or `nirdosha-hi sync` first.\n");
    out
}

pub open spec fn impact_head(target: Seq<char>, count: Seq<char>, bound: Seq<char>) -> Seq<char> {
    "impact of `"@
        + target
        + "` ("@
        + count
        + " node(s)"@
        + bound
        + "):\n"@
}

fn write_head(target: &str, count: &str, bound: &str) -> (out: String)
    ensures
        out@ == impact_head(target@, count@, bound@),
{
    let mut out: String = "impact of `".to_owned();
    out.append(target);
    out.append("` (");
    out.append(count);
    out.append(" node(s)");
    out.append(bound);
    out.append("):\n");
    out
}

pub open spec fn flag_mark(flag: Seq<char>) -> Seq<char> {
    "  ["@ + flag + "]"@
}

fn write_flag(flag: &str) -> (out: String)
    ensures
        out@ == flag_mark(flag@),
{
    let mut out: String = "  [".to_owned();
    out.append(flag);
    out.append("]");
    out
}

pub open spec fn location_mark(path: Seq<char>, line: Seq<char>, col: Seq<char>) -> Seq<char> {
    "  ("@
        + path
        + ":"@
        + line
        + ":"@
        + col
        + ")"@
}

fn write_location(path: &str, line: &str, col: &str) -> (out: String)
    ensures
        out@ == location_mark(path@, line@, col@),
{
    let mut out: String = "  (".to_owned();
    out.append(path);
    out.append(":");
    out.append(line);
    out.append(":");
    out.append(col);
    out.append(")");
    out
}

pub open spec fn hit_text(depth: Seq<char>, kind: Seq<char>, edge_kind: Seq<char>, title: Seq<char>, location: Seq<char>, flag: Seq<char>) -> Seq<char> {
    "  depth "@
        + depth
        + " "@
        + kind
        + " "@
        + edge_kind
        + " `"@
        + title
        + "`"@
        + location
        + flag
        + "\n"@
}

fn write_hit(depth: &str, kind: &str, edge_kind: &str, title: &str, location: &str, flag: &str) -> (out: String)
    ensures
        out@ == hit_text(depth@, kind@, edge_kind@, title@, location@, flag@),
{
    let mut out: String = "  depth ".to_owned();
    out.append(depth);
    out.append(" ");
    out.append(kind);
    out.append(" ");
    out.append(edge_kind);
    out.append(" `");
    out.append(title);
    out.append("`");
    out.append(location);
    out.append(flag);
    out.append("\n");
    out
}

/// Where a node is, where all of that is known.
pub open spec fn location_of(h: HitView) -> Seq<char> {
    match (h.source_ref, h.line, h.col) {
        (Some(path), Some(line), Some(col)) => location_mark(
            path,
            crate::text::integer(line as int),
            crate::text::integer(col as int),
        ),
        _ => Seq::empty(),
    }
}

/// The line of a node.
pub open spec fn hit_line(h: HitView) -> Seq<char> {
    hit_text(
        decimal(h.depth),
        h.kind,
        h.edge_kind,
        match h.title {
            Some(t) => t,
            None => h.node_id,
        },
        location_of(h),
        match h.flag {
            Some(f) => flag_mark(f),
            None => Seq::empty(),
        },
    )
}

fn line_of(h: &ImpactHit) -> (out: String)
    ensures
        out@ == hit_line(h@),
{
    let location: String = match (&h.source_ref, h.line, h.col) {
        (Some(path), Some(line), Some(col)) => write_location(
            path.as_str(),
            crate::text::integer_text(line).as_str(),
            crate::text::integer_text(col).as_str(),
        ),
        _ => String::new(),
    };
    let flag: String = match &h.flag {
        Some(f) => write_flag(f.as_str()),
        None => String::new(),
    };
    let title: &str = match &h.title {
        Some(t) => t.as_str(),
        None => h.node_id.as_str(),
    };
    write_hit(
        decimal_text(h.depth as u64).as_str(),
        h.kind.as_str(),
        h.edge_kind.as_str(),
        title,
        location.as_str(),
        flag.as_str(),
    )
}

/// The lines of the first `n` nodes.
pub open spec fn hit_lines(hits: Seq<ImpactHit>, n: nat) -> Seq<char>
    decreases n,
{
    if n == 0 || n > hits.len() {
        Seq::empty()
    } else {
        hit_lines(hits, (n - 1) as nat) + hit_line(hits[n - 1]@)
    }
}

/// What is said of a walk: a head and a line for each node, in the order in
/// which the walk gives them.
pub open spec fn impact_text(target: Seq<char>, report: ImpactReport) -> Seq<char> {
    if report.hits@.len() == 0 {
        nothing_reached(target)
    } else {
        impact_head(
            target,
            decimal(report.hits@.len()),
            if report.partial {
                ", partial -- bound reached"@
            } else {
                Seq::empty()
            },
        ) + hit_lines(report.hits@, report.hits@.len())
    }
}

/// Says what a walk reached.
pub fn format_impact_report(target: &str, report: &ImpactReport) -> (out: String)
    ensures
        out@ == impact_text(target@, *report),
{
    let n: usize = report.hits.len();
    if n == 0 {
        return say_nothing_reached(target);
    }
    let bound: String = if report.partial {
        ", partial -- bound reached".to_owned()
    } else {
        String::new()
    };
    let mut out: String = write_head(target, decimal_text(n as u64).as_str(), bound.as_str());
    let ghost head = out@;
    assert(out@ =~= head + hit_lines(report.hits@, 0));
    let mut i: usize = 0;
    while i < n
        invariant
            i <= n,
            n == report.hits@.len(),
            out@ == head + hit_lines(report.hits@, i as nat),
        decreases n - i,
    {
        let line: String = line_of(&report.hits[i]);
        out.append(line.as_str());
        i += 1;
        assert(out@ =~= head + hit_lines(report.hits@, i as nat));
    }
    out
}

proof fn lemma_hit_lines(hits: Seq<ImpactHit>, n: nat)
    requires
        n <= hits.len(),
    ensures
        hit_lines(hits, n) == hits.map_values(|h: ImpactHit| hit_line(h@)).take(
            n as int,
        ).flatten(),
    decreases n,
{
    let all = hits.map_values(|h: ImpactHit| hit_line(h@));
    if n > 0 {
        lemma_hit_lines(hits, (n - 1) as nat);
        lemma_flat_next(all, n - 1);
    } else {
        assert(all.take(0) =~= Seq::<Seq<char>>::empty());
    }
}

/// Every node that a walk reached has its line, whatever its depth, in the order
/// of the walk, and the head says how many they are. The head names the target
/// and tells of a walk that stopped at its bound.
pub proof fn law_every_hit_has_its_line(target: Seq<char>, report: ImpactReport)
    ensures
        report.hits@.len() > 0 ==> impact_text(target, report) == "impact of `"@ + target + "` ("@
            + decimal(report.hits@.len()) + " node(s)"@ + (if report.partial {
            ", partial -- bound reached"@
        } else {
            Seq::empty()
        }) + "):\n"@ + report.hits@.map_values(|h: ImpactHit| hit_line(h@)).flatten(),
{
    let all = report.hits@.map_values(|h: ImpactHit| hit_line(h@));
    lemma_hit_lines(report.hits@, report.hits@.len());
    assert(all.take(report.hits@.len() as int) =~= all);
}

/// The line of a node tells its depth, its kind, how it was reached, and its
/// title, or its identifier where it has no title; where it is, if its file,
/// its line and its column are known; and its flag, if it has one.
pub proof fn law_line_of_a_hit(h: HitView)
    ensures
        hit_line(h) == "  depth "@ + decimal(h.depth) + " "@ + h.kind + " "@ + h.edge_kind + " `"@
            + (if h.title is Some {
            h.title->Some_0
        } else {
            h.node_id
        }) + "`"@ + (if h.source_ref is Some && h.line is Some && h.col is Some {
            "  ("@ + h.source_ref->Some_0 + ":"@ + crate::text::integer(h.line->Some_0 as int)
                + ":"@ + crate::text::integer(h.col->Some_0 as int) + ")"@
        } else {
            Seq::empty()
        }) + (if h.flag is Some {
            "  ["@ + h.flag->Some_0 + "]"@
        } else {
            Seq::empty()
        }) + "\n"@,
{
}

/// One node more adds its line at the end and one to the count of the head.
pub proof fn law_one_hit_more(target: Seq<char>, less: ImpactReport, more: ImpactReport)
    requires
        less.hits@.len() > 0,
        more.hits@.len() == less.hits@.len() + 1,
        more.hits@.drop_last() == less.hits@,
        more.partial == less.partial,
    ensures
        impact_text(target, less).len() - decimal(less.hits@.len()).len() + decimal(
            more.hits@.len(),
        ).len() + hit_line(more.hits@.last()@).len() == impact_text(target, more).len(),
        impact_text(target, more).skip(
            impact_text(target, more).len() - hit_line(more.hits@.last()@).len(),
        ) == hit_line(more.hits@.last()@),
{
    let line = hit_line(more.hits@.last()@);
    let all = impact_text(target, more);
    law_every_hit_has_its_line(target, less);
    law_every_hit_has_its_line(target, more);
    let few = less.hits@.map_values(|h: ImpactHit| hit_line(h@));
    let many = more.hits@.map_values(|h: ImpactHit| hit_line(h@));
    assert(many =~= few.push(line));
    few.lemma_flatten_push(line);
    assert(all.skip(all.len() - line.len()) =~= line);
}

/// A walk that reached nothing says so, with the target that it started from.
pub proof fn law_nothing_was_reached(target: Seq<char>, report: ImpactReport)
    requires
        report.hits@.len() == 0,
    ensures
        impact_text(target, report) == "no reachable nodes from `"@ + target
            + "` -- try `nirdosha-hi link` or `nirdosha-hi sync` first.\n"@,
{
}

} // verus!

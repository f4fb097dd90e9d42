//! The units of a confirmed design, and how they relate.
use crate::text::texts;
use vstd::prelude::*;

verus! {

/// A unit of a confirmed design.
pub struct CandidateUnit {
    pub id: String,
    pub kind: String,
    pub name: String,
    pub driving_text: String,
    pub attributes: Vec<String>,
}

#[verifier::ext_equal]
pub struct UnitView {
    pub id: Seq<char>,
    pub kind: Seq<char>,
    pub name: Seq<char>,
    pub driving_text: Seq<char>,
    pub attributes: Seq<Seq<char>>,
}

impl View for CandidateUnit {
    type V = UnitView;

    open spec fn view(&self) -> UnitView {
        UnitView {
            id: self.id@,
            kind: self.kind@,
            name: self.name@,
            driving_text: self.driving_text@,
            attributes: texts(self.attributes@),
        }
    }
}

pub open spec fn unit_views(units: Seq<CandidateUnit>) -> Seq<UnitView> {
    units.map_values(|u: CandidateUnit| u@)
}

/// A confirmed relationship between two units.
pub struct ConfirmedEdge {
    pub src: String,
    pub dst: String,
    pub kind: String,
}

#[verifier::ext_equal]
pub struct EdgeView {
    pub src: Seq<char>,
    pub dst: Seq<char>,
    pub kind: Seq<char>,
}

impl View for ConfirmedEdge {
    type V = EdgeView;

    open spec fn view(&self) -> EdgeView {
        EdgeView { src: self.src@, dst: self.dst@, kind: self.kind@ }
    }
}

pub open spec fn edge_views(edges: Seq<ConfirmedEdge>) -> Seq<EdgeView> {
    edges.map_values(|e: ConfirmedEdge| e@)
}

/// The identifier of a unit of code: its kind and its name.
pub open spec fn unit_id(kind: Seq<char>, name: Seq<char>) -> Seq<char> {
    "code:"@ + kind + ":"@ + name
}

/// The identifier of a unit of code.
pub fn code_unit_node_id(kind: &str, name: &str) -> (out: String)
    ensures
        out@ == unit_id(kind@, name@),
{
    let mut out: String = "code:".to_owned();
    out.append(kind);
    out.append(":");
    out.append(name);
    out
}

/// The identifiers of units tell them apart: two units share one only where they
/// share their kind and their name. A kind is free of colons.
pub proof fn law_identifiers_tell_units_apart(
    kind: Seq<char>,
    name: Seq<char>,
    other: Seq<char>,
    title: Seq<char>,
)
    requires
        !kind.contains(':'),
        !other.contains(':'),
    ensures
        unit_id(kind, name) == "code:"@ + kind + ":"@ + name,
        unit_id(kind, name) == unit_id(other, title) ==> kind == other && name == title,
{
    reveal_strlit(":");
    if unit_id(kind, name) == unit_id(other, title) {
        let n = "code:"@.len() as int;
        let a = unit_id(kind, name).skip(n);
        let b = unit_id(other, title).skip(n);
        assert(a =~= kind.push(':') + name);
        assert(b =~= other.push(':') + title);
        if kind.len() < other.len() {
            assert(a[kind.len() as int] == ':');
            assert(b[kind.len() as int] == other[kind.len() as int]);
            assert(other.contains(':'));
        } else if other.len() < kind.len() {
            assert(b[other.len() as int] == ':');
            assert(a[other.len() as int] == kind[other.len() as int]);
            assert(kind.contains(':'));
        } else {
            assert forall|i: int| 0 <= i < kind.len() implies #[trigger] kind[i] == other[i] by {
                assert(a[i] == b[i]);
            }
            assert(kind =~= other);
            assert(name =~= a.skip(kind.len() + 1int));
            assert(title =~= b.skip(kind.len() + 1int));
        }
    }
}

} // verus!

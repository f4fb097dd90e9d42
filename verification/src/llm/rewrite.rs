//! Rewriting a generated program where it reads a shared table as if it were a
//! map.
use crate::lists::{lemma_kept_next, push_has};
use crate::outside::{parse_rust, rust_items};
use crate::text::{has_text, same_text, texts, texts_push};
use crate::v2::source::{item_views, ItemView, RustItem};
use vstd::prelude::*;
use vstd::string::StringSliceAdditionalSpecFns;
use vstd::utf8::{encode_utf8, is_char_boundary, valid_utf8};

verus! {

/// A place in a source text: a line, counted from one, and a column, counted
/// from nought.
#[derive(Clone, Copy)]
pub struct Spot {
    pub line: usize,
    pub column: usize,
}

/// How a table is read as if it were a map.
#[derive(Clone, Copy, Debug, PartialEq, Eq, Structural)]
pub enum TableRead {
    /// Its entries are walked.
    Entries,
    /// Its values are walked.
    Values,
}

/// A call that reads a table: where the table stands, where the call ends, and
/// how it reads.
#[derive(Clone, Copy)]
pub struct TableCall {
    pub table_start: Spot,
    pub table_end: Spot,
    pub end: Spot,
    pub read: TableRead,
}

pub const SNAPSHOT_ITER: &'static str = ".snapshot().iter()";

pub const SNAPSHOT_VALUES: &'static str = ".snapshot().into_iter().map(|(_, value)| value)";

/// What to write behind a table to read it so.
pub open spec fn suffix(read: TableRead) -> Seq<char> {
    match read {
        TableRead::Entries => SNAPSHOT_ITER@,
        TableRead::Values => SNAPSHOT_VALUES@,
    }
}

fn suffix_for(read: TableRead) -> (out: &'static str)
    ensures
        out@ == suffix(read),
{
    match read {
        TableRead::Entries => SNAPSHOT_ITER,
        TableRead::Values => SNAPSHOT_VALUES,
    }
}

/// How a method that a shared table does not have reads it.
pub open spec fn table_read(method: Seq<char>) -> Option<TableRead> {
    if method == "iter"@ {
        Some(TableRead::Entries)
    } else if method == "values"@ {
        Some(TableRead::Values)
    } else {
        None
    }
}

/// How a method that a shared table does not have reads it.
pub fn read_of(method: &str) -> (out: Option<TableRead>)
    ensures
        out == table_read(method@),
{
    if same_text(method, "iter") {
        Some(TableRead::Entries)
    } else if same_text(method, "values") {
        Some(TableRead::Values)
    } else {
        None
    }
}

/// What a method is called on.
pub enum Receiver {
    /// What a function returns that is called by this name, without arguments.
    Call(String),
    /// What the next method call in the list returns.
    Method,
    Other,
}

/// A method call of a program: the method, whether it has no arguments, what it
/// is called on, where that begins and ends, and where the call ends.
pub struct MethodCall {
    pub method: String,
    pub bare: bool,
    pub receiver: Receiver,
    pub start: Spot,
    pub receiver_end: Spot,
    pub end: Spot,
}

/// The functions among the first `n` items of a file that return a shared table
/// and take nothing.
pub open spec fn stores_among(items: Seq<ItemView>, n: nat) -> Seq<Seq<char>>
    decreases n,
{
    if n == 0 {
        Seq::empty()
    } else {
        let before = stores_among(items, (n - 1) as nat);
        match items[n - 1] {
            ItemView::Function(name, params, _, returned) => if params == 0 && returned == Some(
                "SharedTable"@,
            ) {
                before.push(name)
            } else {
                before
            },
            _ => before,
        }
    }
}

/// The functions of a file through which its shared tables are read.
pub open spec fn table_stores(items: Seq<ItemView>) -> Seq<Seq<char>> {
    stores_among(items, items.len())
}

/// The functions of a file through which its shared tables are read.
pub fn find_stores(items: &Vec<RustItem>) -> (out: Vec<String>)
    ensures
        texts(out@) == table_stores(item_views(items@)),
{
    broadcast use texts_push;

    let ghost views = item_views(items@);
    let mut out: Vec<String> = Vec::new();
    let mut i: usize = 0;
    assert(texts(out@) =~= Seq::<Seq<char>>::empty());
    assert(views.len() == items@.len());
    while i < items.len()
        invariant
            i <= items@.len(),
            views == item_views(items@),
            texts(out@) == stores_among(views, i as nat),
        decreases items@.len() - i,
    {
        assert(views[i as int] == items@[i as int]@);
        match &items[i] {
            RustItem::Function(name, params, _, returned) => {
                if let Some(last) = returned {
                    if *params == 0 && same_text(last.as_str(), "SharedTable") {
                        out.push(name.clone());
                    }
                }
            },
            _ => {},
        }
        i += 1;
    }
    out
}

/// The call is one without arguments on a shared table.
pub open spec fn is_on_table(stores: Seq<Seq<char>>, call: MethodCall) -> bool {
    call.bare && (call.receiver matches Receiver::Call(name) && stores.contains(name@))
}

/// The call clones the values of a shared table, which are then walked by value
/// as it is; the next call in the list walks them.
pub open spec fn clones_values(stores: Seq<Seq<char>>, met: Seq<MethodCall>, i: int) -> bool {
    &&& met[i].method@ == "cloned"@
    &&& met[i].bare
    &&& met[i].receiver is Method
    &&& i + 1 < met.len()
    &&& met[i + 1].method@ == "values"@
    &&& is_on_table(stores, met[i + 1])
}

/// The calls, from a position on, that read a shared table as if it were a map.
/// A call that clones the values of one is taken as a whole.
pub open spec fn table_calls_from(
    stores: Seq<Seq<char>>,
    met: Seq<MethodCall>,
    from: nat,
) -> Seq<TableCall>
    decreases met.len() - from,
{
    if from >= met.len() {
        Seq::empty()
    } else {
        let call = met[from as int];
        if clones_values(stores, met, from as int) {
            let inner = met[from as int + 1];
            seq![
                TableCall {
                    table_start: inner.start,
                    table_end: inner.receiver_end,
                    end: call.end,
                    read: TableRead::Values,
                },
            ] + table_calls_from(stores, met, from + 2)
        } else {
            match table_read(call.method@) {
                Some(read) => if is_on_table(stores, call) {
                    seq![
                        TableCall {
                            table_start: call.start,
                            table_end: call.receiver_end,
                            end: call.end,
                            read,
                        },
                    ] + table_calls_from(stores, met, from + 1)
                } else {
                    table_calls_from(stores, met, from + 1)
                },
                None => table_calls_from(stores, met, from + 1),
            }
        }
    }
}

/// The calls that read a shared table as if it were a map.
pub open spec fn table_calls(stores: Seq<Seq<char>>, met: Seq<MethodCall>) -> Seq<TableCall> {
    table_calls_from(stores, met, 0)
}

fn on_table(stores: &Vec<String>, call: &MethodCall) -> (r: bool)
    ensures
        r == is_on_table(texts(stores@), *call),
{
    match &call.receiver {
        Receiver::Call(name) => call.bare && has_text(stores, name.as_str()),
        _ => false,
    }
}

/// The calls that read a shared table as if it were a map.
pub fn find_table_calls(stores: &Vec<String>, met: &Vec<MethodCall>) -> (out: Vec<TableCall>)
    ensures
        out@ == table_calls(texts(stores@), met@),
{
    let ghost names = texts(stores@);
    let mut out: Vec<TableCall> = Vec::new();
    let mut i: usize = 0;
    assert(out@ + table_calls(names, met@) =~= table_calls(names, met@));
    while i < met.len()
        invariant
            i <= met@.len(),
            names == texts(stores@),
            out@ + table_calls_from(names, met@, i as nat) == table_calls(names, met@),
        decreases met@.len() - i,
    {
        let call: &MethodCall = &met[i];
        let ghost before = out@;
        let ghost rest = table_calls_from(names, met@, i as nat);
        let on_method: bool = match &call.receiver {
            Receiver::Method => true,
            _ => false,
        };
        if on_method && call.bare && same_text(call.method.as_str(), "cloned") && 1 < met.len() - i
            && same_text(met[i + 1].method.as_str(), "values") && on_table(stores, &met[i + 1]) {
            let inner: &MethodCall = &met[i + 1];
            out.push(
                TableCall {
                    table_start: inner.start,
                    table_end: inner.receiver_end,
                    end: call.end,
                    read: TableRead::Values,
                },
            );
            i += 2;
            assert(out@ + table_calls_from(names, met@, i as nat) =~= before + rest);
        } else {
            if let Some(read) = read_of(call.method.as_str()) {
                if on_table(stores, call) {
                    out.push(
                        TableCall {
                            table_start: call.start,
                            table_end: call.receiver_end,
                            end: call.end,
                            read,
                        },
                    );
                }
            }
            i += 1;
            assert(out@ + table_calls_from(names, met@, i as nat) =~= before + rest);
        }
    }
    assert(out@ + table_calls_from(names, met@, i as nat) =~= out@);
    out
}

/// Where the lines of a text begin, as far as its first `n` bytes tell.
pub open spec fn line_starts(bytes: Seq<u8>, n: nat) -> Seq<nat>
    decreases n,
{
    if n == 0 {
        seq![0nat]
    } else {
        let before = line_starts(bytes, (n - 1) as nat);
        if bytes[n - 1] == 10 {
            before.push(n)
        } else {
            before
        }
    }
}

/// Where a place stands in a text, in bytes: behind the start of its line by
/// its column.
pub open spec fn offset(bytes: Seq<u8>, spot: Spot) -> Option<nat> {
    let starts = line_starts(bytes, bytes.len());
    if 1 <= spot.line <= starts.len() && starts[spot.line - 1] + spot.column <= usize::MAX {
        Some((starts[spot.line - 1] + spot.column) as nat)
    } else {
        None
    }
}

pub open spec fn naturals(list: Seq<usize>) -> Seq<nat> {
    list.map_values(|n: usize| n as nat)
}

fn find_starts(source: &str) -> (out: Vec<usize>)
    ensures
        naturals(out@) == line_starts(source.spec_bytes(), source.spec_bytes().len()),
{
    let bytes: &[u8] = source.as_bytes();
    let ghost all = source.spec_bytes();
    let n: usize = bytes.len();
    let mut out: Vec<usize> = Vec::new();
    out.push(0);
    assert(naturals(out@) =~= seq![0nat]);
    let mut i: usize = 0;
    while i < n
        invariant
            i <= n,
            n == bytes@.len(),
            bytes@ == all,
            naturals(out@) == line_starts(all, i as nat),
        decreases n - i,
    {
        if bytes[i] == 10 {
            assert(naturals(out@.push((i + 1) as usize)) =~= naturals(out@).push((i + 1) as nat));
            out.push(i + 1);
        }
        i += 1;
    }
    out
}

fn find_offset(starts: &Vec<usize>, spot: Spot, source: &str) -> (out: Option<usize>)
    requires
        naturals(starts@) == line_starts(source.spec_bytes(), source.spec_bytes().len()),
    ensures
        match out {
            Some(n) => offset(source.spec_bytes(), spot) == Some(n as nat),
            None => offset(source.spec_bytes(), spot) is None,
        },
{
    assert(naturals(starts@).len() == starts@.len());
    if spot.line == 0 || spot.line > starts.len() {
        return None;
    }
    assert(naturals(starts@)[spot.line - 1] == starts@[spot.line - 1] as nat);
    starts[spot.line - 1].checked_add(spot.column)
}

/// A part of a text to be written anew.
pub struct Edit {
    pub start: usize,
    pub end: usize,
    pub text: String,
}

#[verifier::ext_equal]
pub struct EditView {
    pub start: nat,
    pub end: nat,
    pub text: Seq<u8>,
}

impl View for Edit {
    type V = EditView;

    open spec fn view(&self) -> EditView {
        EditView { start: self.start as nat, end: self.end as nat, text: encode_utf8(self.text@) }
    }
}

pub open spec fn edit_views(edits: Seq<Edit>) -> Seq<EditView> {
    edits.map_values(|e: Edit| e@)
}

/// What a call is rewritten to: the table as it stands, and the suffix behind
/// it. A call that does not stand on whole characters, in order, is left.
pub open spec fn edit_of(bytes: Seq<u8>, call: TableCall) -> Option<EditView> {
    match (offset(bytes, call.table_start), offset(bytes, call.table_end), offset(bytes, call.end)) {
        (Some(start), Some(table_end), Some(end)) => if start <= table_end && table_end <= end
            && is_char_boundary(bytes, start as int) && is_char_boundary(bytes, table_end as int)
            && is_char_boundary(bytes, end as int) {
            Some(
                EditView {
                    start,
                    end,
                    text: bytes.subrange(start as int, table_end as int) + encode_utf8(
                        suffix(call.read),
                    ),
                },
            )
        } else {
            None
        },
        _ => None,
    }
}

proof fn lemma_encode_concat(a: Seq<char>, b: Seq<char>)
    ensures
        encode_utf8(a + b) == encode_utf8(a) + encode_utf8(b),
    decreases a.len(),
{
    if a.len() == 0 {
        assert(a + b =~= b);
        assert(encode_utf8(a) + encode_utf8(b) =~= encode_utf8(b));
    } else {
        lemma_encode_concat(a.drop_first(), b);
        assert((a + b).drop_first() =~= a.drop_first() + b);
        assert((a + b)[0] == a[0]);
        assert(encode_utf8(a + b) =~= encode_utf8(a) + encode_utf8(b));
    }
}

/// A boundary of the whole is one of what stands behind an earlier boundary.
proof fn lemma_boundary_behind(bytes: Seq<u8>, from: int, at: int)
    requires
        valid_utf8(bytes),
        0 <= from <= at <= bytes.len(),
        is_char_boundary(bytes, from),
        is_char_boundary(bytes, at),
    ensures
        valid_utf8(bytes.subrange(from, bytes.len() as int)),
        is_char_boundary(bytes.subrange(from, bytes.len() as int), at - from),
{
    let rest = bytes.subrange(from, bytes.len() as int);
    vstd::utf8::valid_utf8_split(bytes, from);
    if at == bytes.len() {
        vstd::utf8::is_char_boundary_start_end_of_seq(rest);
    } else {
        vstd::utf8::is_char_boundary_iff_not_is_continuation_byte(bytes, at);
        vstd::utf8::is_char_boundary_iff_not_is_continuation_byte(rest, at - from);
        assert(rest[at - from] == bytes[at]);
    }
}

/// The part of a text between two boundaries.
fn part_of(source: &str, start: usize, end: usize) -> (out: String)
    requires
        start <= end <= source.spec_bytes().len(),
        is_char_boundary(source.spec_bytes(), start as int),
        is_char_boundary(source.spec_bytes(), end as int),
    ensures
        encode_utf8(out@) == source.spec_bytes().subrange(start as int, end as int),
{
    proof {
        vstd::utf8::encode_utf8_valid_utf8(source@);
        lemma_boundary_behind(source.spec_bytes(), start as int, end as int);
    }
    let (_, rest) = source.split_at(start);
    let (part, _) = rest.split_at(end - start);
    assert(part.spec_bytes() =~= source.spec_bytes().subrange(start as int, end as int));
    part.to_owned()
}

/// A text with one part of it written anew.
pub open spec fn spliced(bytes: Seq<u8>, e: EditView) -> Seq<u8> {
    bytes.subrange(0, e.start as int) + e.text + bytes.subrange(e.end as int, bytes.len() as int)
}

/// An edit can be made in a text: it stands on whole characters.
pub open spec fn can_splice(bytes: Seq<u8>, e: EditView) -> bool {
    &&& e.start <= e.end <= bytes.len()
    &&& is_char_boundary(bytes, e.start as int)
    &&& is_char_boundary(bytes, e.end as int)
}

fn splice(source: &str, e: &Edit) -> (out: Option<String>)
    ensures
        match out {
            Some(s) => can_splice(source.spec_bytes(), e@) && encode_utf8(s@) == spliced(
                source.spec_bytes(),
                e@,
            ),
            None => !can_splice(source.spec_bytes(), e@),
        },
{
    let ghost bytes = source.spec_bytes();
    let n: usize = source.as_bytes().len();
    if e.start > e.end || e.end > n || !source.is_char_boundary(e.start)
        || !source.is_char_boundary(e.end) {
        return None;
    }
    let (before, _) = source.split_at(e.start);
    let (_, behind) = source.split_at(e.end);
    let mut out: String = before.to_owned();
    proof {
        lemma_encode_concat(out@, e.text@);
        lemma_encode_concat(out@ + e.text@, behind@);
    }
    out.append(e.text.as_str());
    out.append(behind);
    assert(encode_utf8(out@) =~= spliced(bytes, e@));
    Some(out)
}

/// Where an edit is put among others: behind all that do not start before it.
pub open spec fn place(list: Seq<EditView>, start: nat, from: nat) -> nat
    decreases list.len() - from,
{
    if from >= list.len() || list[from as int].start < start {
        from
    } else {
        place(list, start, from + 1)
    }
}

/// The edits of the first `n` calls, the last in the text first.
pub open spec fn ordered(bytes: Seq<u8>, calls: Seq<TableCall>, n: nat) -> Seq<EditView>
    decreases n,
{
    if n == 0 {
        Seq::empty()
    } else {
        let before = ordered(bytes, calls, (n - 1) as nat);
        match edit_of(bytes, calls[n - 1]) {
            Some(e) => before.insert(place(before, e.start, 0) as int, e),
            None => before,
        }
    }
}

/// A text after the first `n` edits; nothing where one of them cannot be made.
pub open spec fn edited(bytes: Seq<u8>, edits: Seq<EditView>, n: nat) -> Option<Seq<u8>>
    decreases n,
{
    if n == 0 {
        Some(bytes)
    } else {
        match edited(bytes, edits, (n - 1) as nat) {
            None => None,
            Some(b) => if can_splice(b, edits[n - 1]) {
                Some(spliced(b, edits[n - 1]))
            } else {
                None
            },
        }
    }
}

/// A program after its calls are rewritten.
pub open spec fn rewritten(source: Seq<char>, calls: Seq<TableCall>) -> Option<Seq<u8>> {
    let bytes = encode_utf8(source);
    let edits = ordered(bytes, calls, calls.len());
    edited(bytes, edits, edits.len())
}

fn make_edit(source: &str, starts: &Vec<usize>, call: &TableCall) -> (out: Option<Edit>)
    requires
        naturals(starts@) == line_starts(source.spec_bytes(), source.spec_bytes().len()),
    ensures
        match out {
            Some(e) => edit_of(source.spec_bytes(), *call) == Some(e@),
            None => edit_of(source.spec_bytes(), *call) is None,
        },
{
    let start: usize = match find_offset(starts, call.table_start, source) {
        Some(n) => n,
        None => {
            return None;
        },
    };
    let table_end: usize = match find_offset(starts, call.table_end, source) {
        Some(n) => n,
        None => {
            return None;
        },
    };
    let end: usize = match find_offset(starts, call.end, source) {
        Some(n) => n,
        None => {
            return None;
        },
    };
    if start <= table_end && table_end <= end && source.is_char_boundary(start)
        && source.is_char_boundary(table_end) && source.is_char_boundary(end) {
        proof {
            vstd::utf8::encode_utf8_valid_utf8(source@);
        }
        let mut text: String = part_of(source, start, table_end);
        proof {
            lemma_encode_concat(text@, suffix(call.read));
        }
        text.append(suffix_for(call.read));
        Some(Edit { start, end, text })
    } else {
        None
    }
}

proof fn lemma_place(list: Seq<EditView>, start: nat, from: nat)
    requires
        from <= list.len(),
    ensures
        from <= place(list, start, from) <= list.len(),
        forall|i: int| from <= i < place(list, start, from) ==> (#[trigger] list[i]).start >= start,
        place(list, start, from) < list.len() ==> list[place(list, start, from) as int].start
            < start,
    decreases list.len() - from,
{
    if from < list.len() && !(list[from as int].start < start) {
        lemma_place(list, start, from + 1);
    }
}

fn order_edits(source: &str, calls: &Vec<TableCall>) -> (out: Vec<Edit>)
    ensures
        edit_views(out@) == ordered(source.spec_bytes(), calls@, calls@.len()),
{
    let starts: Vec<usize> = find_starts(source);
    let ghost bytes = source.spec_bytes();
    let mut out: Vec<Edit> = Vec::new();
    let mut i: usize = 0;
    assert(edit_views(out@) =~= Seq::<EditView>::empty());
    while i < calls.len()
        invariant
            i <= calls@.len(),
            bytes == source.spec_bytes(),
            naturals(starts@) == line_starts(bytes, bytes.len()),
            edit_views(out@) == ordered(bytes, calls@, i as nat),
        decreases calls@.len() - i,
    {
        if let Some(e) = make_edit(source, &starts, &calls[i]) {
            let ghost views = edit_views(out@);
            let mut k: usize = 0;
            while k < out.len() && !(out[k].start < e.start)
                invariant
                    k <= out@.len(),
                    views == edit_views(out@),
                    place(views, e.start as nat, 0) == place(views, e.start as nat, k as nat),
                decreases out@.len() - k,
            {
                assert(views[k as int] == out@[k as int]@);
                k += 1;
            }
            if k < out.len() {
                assert(views[k as int] == out@[k as int]@);
            }
            let ghost made = e@;
            let ghost earlier = out@;
            out.insert(k, e);
            assert(edit_views(out@) =~= views.insert(k as int, made));
        }
        i += 1;
    }
    out
}

/// Rewrites the calls of a program that read a shared table as if it were a
/// map; everything else, and a program that cannot be read, stays as it is.
/// `met` lists the method calls of the program, each before what it is called
/// on. Nothing comes back where calls overlap so that one cuts a character of
/// another.
pub fn repair_shared_table_iteration(source: &str, met: &Vec<MethodCall>) -> (out: Option<String>)
    ensures
        match rust_items(source@) {
            Err(_) => out matches Some(s) && s@ == source@,
            Ok(items) => match out {
                Some(s) => rewritten(source@, table_calls(table_stores(items), met@)) == Some(
                    encode_utf8(s@),
                ),
                None => rewritten(source@, table_calls(table_stores(items), met@)) is None,
            },
        },
{
    match parse_rust(source) {
        Ok(items) => rewrite_calls(source, &find_table_calls(&find_stores(&items), met)),
        Err(_) => Some(source.to_owned()),
    }
}

/// Rewrites calls that read a shared table as if it were a map, from the last
/// to the first; everything else stays as it is.
pub fn rewrite_calls(source: &str, calls: &Vec<TableCall>) -> (out: Option<String>)
    ensures
        match out {
            Some(s) => rewritten(source@, calls@) == Some(encode_utf8(s@)),
            None => rewritten(source@, calls@) is None,
        },
{
    let edits: Vec<Edit> = order_edits(source, calls);
    let ghost views = edit_views(edits@);
    let ghost bytes = source.spec_bytes();
    let mut out: String = source.to_owned();
    let mut i: usize = 0;
    assert(views.len() == edits@.len());
    while i < edits.len()
        invariant
            i <= edits@.len(),
            views == edit_views(edits@),
            views.len() == edits@.len(),
            edited(bytes, views, i as nat) == Some(encode_utf8(out@)),
            rewritten(source@, calls@) == edited(bytes, views, views.len()),
        decreases edits@.len() - i,
    {
        assert(views[i as int] == edits@[i as int]@);
        match splice(out.as_str(), &edits[i]) {
            Some(s) => {
                out = s;
            },
            None => {
                proof {
                    lemma_stuck(bytes, views, (i + 1) as nat, views.len());
                }
                return None;
            },
        }
        i += 1;
    }
    Some(out)
}

proof fn lemma_stuck(bytes: Seq<u8>, edits: Seq<EditView>, i: nat, n: nat)
    requires
        i <= n,
        edited(bytes, edits, i) is None,
    ensures
        edited(bytes, edits, n) is None,
    decreases n,
{
    if i < n {
        lemma_stuck(bytes, edits, i, (n - 1) as nat);
    }
}

proof fn lemma_no_table_calls(stores: Seq<Seq<char>>, met: Seq<MethodCall>, from: nat)
    requires
        forall|i: int| from <= i < met.len() ==> !is_on_table(stores, #[trigger] met[i]),
    ensures
        table_calls_from(stores, met, from).len() == 0,
    decreases met.len() - from,
{
    if from < met.len() {
        assert(!is_on_table(stores, met[from as int]));
        if from + 1 < met.len() {
            assert(!is_on_table(stores, met[from as int + 1]));
        }
        lemma_no_table_calls(stores, met, from + 1);
    }
}

/// Only calls through functions that take nothing and are declared to return a
/// shared table are rewritten: a program without any is left as it is.
pub proof fn law_nothing_to_rewrite(source: Seq<char>, items: Seq<ItemView>, met: Seq<MethodCall>)
    requires
        forall|i: int| 0 <= i < met.len() ==> !is_on_table(table_stores(items), #[trigger] met[i]),
    ensures
        rewritten(source, table_calls(table_stores(items), met)) == Some(encode_utf8(source)),
{
    let calls = table_calls(table_stores(items), met);
    lemma_no_table_calls(table_stores(items), met, 0);
    assert(calls =~= Seq::<TableCall>::empty());
}

/// The methods that are written behind a table to read it, the outermost first,
/// as the calls of a program are listed.
pub open spec fn written_methods(read: TableRead) -> Seq<Seq<char>> {
    match read {
        TableRead::Entries => seq!["iter"@, "snapshot"@],
        TableRead::Values => seq!["map"@, "into_iter"@, "snapshot"@],
    }
}

/// From a position on, the calls are those that are written behind a table:
/// each is called on what the next one returns.
pub open spec fn is_written(met: Seq<MethodCall>, from: nat, read: TableRead) -> bool {
    let methods = written_methods(read);
    &&& from + methods.len() <= met.len()
    &&& forall|k: int|
        0 <= k < methods.len() ==> (#[trigger] met[from + k]).method@ == methods[k] && (k
            < methods.len() - 1 ==> met[from + k].receiver is Method)
}

proof fn lemma_not_taken(stores: Seq<Seq<char>>, met: Seq<MethodCall>, from: nat)
    requires
        from < met.len(),
        met[from as int].method@ != "cloned"@,
        table_read(met[from as int].method@) is None || !is_on_table(stores, met[from as int]),
    ensures
        table_calls_from(stores, met, from) == table_calls_from(stores, met, from + 1),
{
}

/// A call that has been rewritten is none that is rewritten again: of the calls
/// that are written behind a table, none reads it as if it were a map.
pub proof fn law_a_rewritten_call_is_not_taken_again(
    stores: Seq<Seq<char>>,
    met: Seq<MethodCall>,
    from: nat,
    read: TableRead,
)
    requires
        is_written(met, from, read),
    ensures
        suffix(read) == (match read {
            TableRead::Entries => ".snapshot()"@ + ".iter()"@,
            TableRead::Values => ".snapshot()"@ + ".into_iter()"@ + ".map(|(_, value)| value)"@,
        }),
        table_calls_from(stores, met, from) == table_calls_from(
            stores,
            met,
            from + written_methods(read).len(),
        ),
{
    reveal_strlit("iter");
    reveal_strlit("values");
    reveal_strlit("cloned");
    reveal_strlit("snapshot");
    reveal_strlit("map");
    reveal_strlit("into_iter");
    reveal_strlit(".snapshot()");
    reveal_strlit(".iter()");
    reveal_strlit(".into_iter()");
    reveal_strlit(".map(|(_, value)| value)");
    reveal_strlit(".snapshot().iter()");
    reveal_strlit(".snapshot().into_iter().map(|(_, value)| value)");
    assert("snapshot"@.len() == 8 && "iter"@.len() == 4 && "values"@.len() == 6 && "cloned"@.len()
        == 6 && "map"@.len() == 3 && "into_iter"@.len() == 9);
    let methods = written_methods(read);
    assert(met[from + 0int].method@ == methods[0]);
    assert(met[from + 1int].method@ == methods[1]);
    match read {
        TableRead::Entries => {
            assert(SNAPSHOT_ITER@ =~= ".snapshot()"@ + ".iter()"@);
            lemma_not_taken(stores, met, from);
            lemma_not_taken(stores, met, from + 1);
        },
        TableRead::Values => {
            assert(SNAPSHOT_VALUES@ =~= ".snapshot()"@ + ".into_iter()"@
                + ".map(|(_, value)| value)"@);
            assert(met[from + 2int].method@ == methods[2]);
            lemma_not_taken(stores, met, from);
            lemma_not_taken(stores, met, from + 1);
            lemma_not_taken(stores, met, from + 2);
        },
    }
}

proof fn lemma_snapshots(stores: Seq<Seq<char>>, met: Seq<MethodCall>, from: nat)
    requires
        forall|i: int|
            from <= i < met.len() && is_on_table(stores, #[trigger] met[i]) ==> met[i].method@
                == "snapshot"@,
    ensures
        table_calls_from(stores, met, from).len() == 0,
    decreases met.len() - from,
{
    if from < met.len() {
        reveal_strlit("iter");
        reveal_strlit("values");
        reveal_strlit("snapshot");
        assert("snapshot"@.len() == 8 && "iter"@.len() == 4 && "values"@.len() == 6);
        if clones_values(stores, met, from as int) {
            assert(is_on_table(stores, met[from as int + 1]));
        }
        lemma_snapshots(stores, met, from + 1);
    }
}

/// A program that reads its shared tables through their snapshots only, as one
/// that has been rewritten does, is left as it is.
pub proof fn law_snapshots_are_left(source: Seq<char>, items: Seq<ItemView>, met: Seq<MethodCall>)
    requires
        forall|i: int|
            0 <= i < met.len() && is_on_table(table_stores(items), #[trigger] met[i])
                ==> met[i].method@ == "snapshot"@,
    ensures
        rewritten(source, table_calls(table_stores(items), met)) == Some(encode_utf8(source)),
{
    let calls = table_calls(table_stores(items), met);
    lemma_snapshots(table_stores(items), met, 0);
    assert(calls =~= Seq::<TableCall>::empty());
}

proof fn lemma_stores(items: Seq<ItemView>, n: nat, name: Seq<char>)
    requires
        n <= items.len(),
    ensures
        stores_among(items, n).contains(name) ==> exists|k: int|
            0 <= k < n && (#[trigger] items[k] matches ItemView::Function(f, params, _, returned)
                && f == name && params == 0 && returned == Some("SharedTable"@)),
    decreases n,
{
    let after = stores_among(items, n);
    if n > 0 && after.contains(name) {
        let before = stores_among(items, (n - 1) as nat);
        let i = choose|i: int| 0 <= i < after.len() && after[i] == name;
        lemma_stores(items, (n - 1) as nat, name);
        if i < before.len() {
            assert(before[i] == name);
        } else {
            assert(items[n - 1] matches ItemView::Function(f, params, _, returned) && f == name
                && params == 0 && returned == Some("SharedTable"@));
        }
    }
}

proof fn lemma_table_calls(stores: Seq<Seq<char>>, met: Seq<MethodCall>, from: nat, k: int)
    requires
        0 <= k < table_calls_from(stores, met, from).len(),
    ensures
        exists|i: int|
            from <= i < met.len() && is_on_table(stores, #[trigger] met[i])
                && met[i].start == table_calls_from(stores, met, from)[k].table_start
                && met[i].receiver_end == table_calls_from(stores, met, from)[k].table_end,
    decreases met.len() - from,
{
    let all = table_calls_from(stores, met, from);
    if clones_values(stores, met, from as int) {
        if k == 0 {
            assert(is_on_table(stores, met[from as int + 1]));
        } else {
            lemma_table_calls(stores, met, from + 2, k - 1);
        }
    } else if table_read(met[from as int].method@) is Some && is_on_table(
        stores,
        met[from as int],
    ) {
        if k > 0 {
            lemma_table_calls(stores, met, from + 1, k - 1);
        }
    } else {
        lemma_table_calls(stores, met, from + 1, k);
    }
}

/// Whatever is rewritten reads, without arguments, what a function of the
/// program returns that takes nothing and is declared to return a shared table.
pub proof fn law_only_shared_tables_are_rewritten(
    items: Seq<ItemView>,
    met: Seq<MethodCall>,
    k: int,
)
    requires
        0 <= k < table_calls(table_stores(items), met).len(),
    ensures
        exists|i: int, f: int|
            {
                &&& 0 <= i < met.len()
                &&& 0 <= f < items.len()
                &&& (#[trigger] met[i]).start == table_calls(table_stores(items), met)[k].table_start
                &&& met[i].bare
                &&& met[i].receiver matches Receiver::Call(name)
                &&& #[trigger] items[f] matches ItemView::Function(declared, params, _, returned)
                &&& declared == name@
                &&& params == 0
                &&& returned == Some("SharedTable"@)
            },
{
    let stores = table_stores(items);
    lemma_table_calls(stores, met, 0, k);
    let i = choose|i: int|
        0 <= i < met.len() && is_on_table(stores, #[trigger] met[i]) && met[i].start
            == table_calls(stores, met)[k].table_start && met[i].receiver_end == table_calls(
            stores,
            met,
        )[k].table_end;
    let name = met[i].receiver->Call_0@;
    lemma_stores(items, items.len(), name);
    let f = choose|f: int|
        0 <= f < items.len() && (#[trigger] items[f] matches ItemView::Function(g, params, _, returned)
            && g == name && params == 0 && returned == Some("SharedTable"@));
    assert(met[i].bare);
    assert(items[f] is Function);
}

/// A boundary of the front of a text stays one whatever whole characters follow
/// the front.
proof fn lemma_boundary_in_front(bytes: Seq<u8>, s: int, tail: Seq<u8>, at: int)
    requires
        valid_utf8(bytes),
        valid_utf8(tail),
        0 <= at <= s <= bytes.len(),
        is_char_boundary(bytes, s),
        is_char_boundary(bytes, at),
    ensures
        valid_utf8(bytes.subrange(0, s) + tail),
        is_char_boundary(bytes.subrange(0, s) + tail, at),
{
    let front = bytes.subrange(0, s);
    let all = front + tail;
    vstd::utf8::valid_utf8_split(bytes, s);
    vstd::utf8::valid_utf8_concat(front, tail);
    if at == all.len() {
        vstd::utf8::is_char_boundary_start_end_of_seq(all);
    } else if at < s {
        vstd::utf8::is_char_boundary_iff_not_is_continuation_byte(bytes, at);
        vstd::utf8::is_char_boundary_iff_not_is_continuation_byte(all, at);
        assert(all[at] == bytes[at]);
    } else {
        vstd::utf8::is_char_boundary_start_end_of_seq(tail);
        vstd::utf8::is_char_boundary_iff_not_is_continuation_byte(tail, 0);
        vstd::utf8::is_char_boundary_iff_not_is_continuation_byte(all, at);
        assert(all[at] == tail[0]);
    }
}

/// The edits stand on whole characters, and each lies before the one listed
/// ahead of it.
spec fn lie_apart(bytes: Seq<u8>, edits: Seq<EditView>) -> bool {
    &&& forall|i: int|
        0 <= i < edits.len() ==> can_splice(bytes, #[trigger] edits[i]) && valid_utf8(edits[i].text)
    &&& forall|i: int, j: int|
        0 <= i < j < edits.len() ==> (#[trigger] edits[j]).end <= (#[trigger] edits[i]).start
}

/// How far the text is untouched after the first `n` edits.
spec fn untouched(bytes: Seq<u8>, edits: Seq<EditView>, n: nat) -> int {
    if n == 0 {
        bytes.len() as int
    } else {
        edits[n - 1].start as int
    }
}

proof fn lemma_apart_edits(bytes: Seq<u8>, edits: Seq<EditView>, n: nat) -> (tail: Seq<u8>)
    requires
        valid_utf8(bytes),
        lie_apart(bytes, edits),
        n <= edits.len(),
    ensures
        edited(bytes, edits, n) == Some(bytes.subrange(0, untouched(bytes, edits, n)) + tail),
        valid_utf8(tail),
    decreases n,
{
    if n == 0 {
        let none = Seq::<u8>::empty();
        assert(bytes.subrange(0, bytes.len() as int) + none =~= bytes);
        none
    } else {
        let before = lemma_apart_edits(bytes, edits, (n - 1) as nat);
        let s = untouched(bytes, edits, (n - 1) as nat);
        let e = edits[n - 1];
        let b = bytes.subrange(0, s) + before;
        assert(can_splice(bytes, e));
        assert(e.end <= s && is_char_boundary(bytes, s)) by {
            if n == 1 {
                vstd::utf8::is_char_boundary_start_end_of_seq(bytes);
            } else {
                assert(can_splice(bytes, edits[n - 2]));
                assert(edits[n - 1].end <= edits[n - 2].start);
            }
        }
        lemma_boundary_in_front(bytes, s, before, e.start as int);
        lemma_boundary_in_front(bytes, s, before, e.end as int);
        let behind = b.subrange(e.end as int, b.len() as int);
        let tail = e.text + behind;
        vstd::utf8::valid_utf8_split(b, e.end as int);
        vstd::utf8::valid_utf8_concat(e.text, behind);
        assert(can_splice(b, e));
        assert(spliced(b, e) =~= bytes.subrange(0, e.start as int) + tail);
        tail
    }
}

/// No two of the calls share a byte, and none is empty.
pub open spec fn calls_apart(bytes: Seq<u8>, calls: Seq<TableCall>) -> bool {
    &&& forall|i: int|
        0 <= i < calls.len() ==> (edit_of(bytes, #[trigger] calls[i]) matches Some(e) ==> e.start
            < e.end)
    &&& forall|i: int, j: int|
        0 <= i < j < calls.len() ==> (edit_of(bytes, #[trigger] calls[i]) matches Some(a)
            ==> edit_of(bytes, #[trigger] calls[j]) matches Some(b) ==> a.end <= b.start || b.end
            <= a.start)
}

proof fn lemma_edit(bytes: Seq<u8>, call: TableCall)
    requires
        valid_utf8(bytes),
        edit_of(bytes, call) is Some,
    ensures
        can_splice(bytes, edit_of(bytes, call)->Some_0),
        valid_utf8(edit_of(bytes, call)->Some_0.text),
{
    let start = offset(bytes, call.table_start)->Some_0 as int;
    let table_end = offset(bytes, call.table_end)->Some_0 as int;
    let rest = bytes.subrange(start, bytes.len() as int);
    lemma_boundary_behind(bytes, start, table_end);
    vstd::utf8::valid_utf8_split(rest, table_end - start);
    assert(rest.subrange(0, table_end - start) =~= bytes.subrange(start, table_end));
    vstd::utf8::encode_utf8_valid_utf8(suffix(call.read));
    vstd::utf8::valid_utf8_concat(
        bytes.subrange(start, table_end),
        encode_utf8(suffix(call.read)),
    );
}

#[verifier::spinoff_prover]
#[verifier::rlimit(40)]
proof fn lemma_ordered(bytes: Seq<u8>, calls: Seq<TableCall>, n: nat)
    requires
        valid_utf8(bytes),
        calls_apart(bytes, calls),
        n <= calls.len(),
    ensures
        lie_apart(bytes, ordered(bytes, calls, n)),
        forall|i: int|
            0 <= i < ordered(bytes, calls, n).len() ==> exists|c: int|
                0 <= c < n && edit_of(bytes, #[trigger] calls[c]) == Some(
                    #[trigger] ordered(bytes, calls, n)[i],
                ),
    decreases n,
{
    if n > 0 {
        lemma_ordered(bytes, calls, (n - 1) as nat);
        let before = ordered(bytes, calls, (n - 1) as nat);
        let now = ordered(bytes, calls, n);
        if let Some(e) = edit_of(bytes, calls[n - 1]) {
            let at = place(before, e.start, 0) as int;
            lemma_place(before, e.start, 0);
            lemma_edit(bytes, calls[n - 1]);
            assert(now =~= before.insert(at, e));
            assert(e.start < e.end);
            assert forall|k: int| 0 <= k < before.len() implies {
                let b = #[trigger] before[k];
                &&& b.start < b.end
                &&& k < at ==> e.end <= b.start
                &&& at <= k ==> b.end <= e.start
            } by {
                let c = choose|c: int|
                    0 <= c < n - 1 && edit_of(bytes, #[trigger] calls[c]) == Some(before[k]);
                assert(edit_of(bytes, calls[c]) == Some(before[k]));
                assert(before[k].end <= e.start || e.end <= before[k].start);
                if at < k {
                    assert(before[k].end <= before[at].start);
                }
            }
            assert forall|i: int| 0 <= i < now.len() implies can_splice(bytes, #[trigger] now[i])
                && valid_utf8(now[i].text) by {
                if i < at {
                    assert(now[i] == before[i]);
                } else if i > at {
                    assert(now[i] == before[i - 1]);
                }
            }
            assert forall|i: int, j: int| 0 <= i < j < now.len() implies (#[trigger] now[j]).end
                <= (#[trigger] now[i]).start by {
                if i < at {
                    assert(now[i] == before[i]);
                } else if i > at {
                    assert(now[i] == before[i - 1]);
                }
                if j < at {
                    assert(now[j] == before[j]);
                } else if j > at {
                    assert(now[j] == before[j - 1]);
                }
            }
            assert forall|i: int| 0 <= i < now.len() implies exists|c: int|
                0 <= c < n && edit_of(bytes, #[trigger] calls[c]) == Some(#[trigger] now[i]) by {
                if i == at {
                    assert(edit_of(bytes, calls[n - 1]) == Some(now[i]));
                } else {
                    let k = if i < at {
                        i
                    } else {
                        i - 1
                    };
                    assert(now[i] == before[k]);
                    let c = choose|c: int|
                        0 <= c < n - 1 && edit_of(bytes, #[trigger] calls[c]) == Some(before[k]);
                    assert(edit_of(bytes, calls[c]) == Some(now[i]));
                }
            }
        } else {
            assert forall|i: int| 0 <= i < now.len() implies exists|c: int|
                0 <= c < n && edit_of(bytes, #[trigger] calls[c]) == Some(#[trigger] now[i]) by {
                let c = choose|c: int|
                    0 <= c < n - 1 && edit_of(bytes, #[trigger] calls[c]) == Some(before[i]);
                assert(edit_of(bytes, calls[c]) == Some(now[i]));
            }
        }
    }
}

/// Calls that lie apart from each other, as the calls of a program do, can
/// always be rewritten.
pub proof fn law_calls_apart_are_rewritten(source: Seq<char>, calls: Seq<TableCall>)
    requires
        calls_apart(encode_utf8(source), calls),
    ensures
        rewritten(source, calls) is Some,
{
    let bytes = encode_utf8(source);
    vstd::utf8::encode_utf8_valid_utf8(source);
    lemma_ordered(bytes, calls, calls.len());
    let edits = ordered(bytes, calls, calls.len());
    let tail = lemma_apart_edits(bytes, edits, edits.len());
}

/// Two methods read a shared table as if it were a map: one walks its entries,
/// the other its values.
pub proof fn law_which_methods_read_a_table(method: Seq<char>)
    ensures
        table_read(method) == Some(TableRead::Entries) <==> method == "iter"@,
        table_read(method) == Some(TableRead::Values) <==> method == "values"@,
        table_read(method) is None <==> method != "iter"@ && method != "values"@,
{
    reveal_strlit("iter");
    reveal_strlit("values");
    assert("iter"@.len() != "values"@.len());
}

/// The stores of a file are all its functions without parameters that return a
/// shared table, in the file's order.
pub proof fn law_every_store_is_found(items: Seq<ItemView>, n: nat)
    requires
        n <= items.len(),
    ensures
        stores_among(items, n) == items.take(n as int).filter_map(
            |i: ItemView|
                match i {
                    ItemView::Function(name, params, _, returned) => if params == 0 && returned
                        == Some("SharedTable"@) {
                        Some(name)
                    } else {
                        None
                    },
                    _ => None,
                },
        ),
    decreases n,
{
    let f = |i: ItemView|
        match i {
            ItemView::Function(name, params, _, returned) => if params == 0 && returned == Some(
                "SharedTable"@,
            ) {
                Some(name)
            } else {
                None
            },
            _ => None,
        };
    if n == 0 {
        assert(items.take(0) =~= Seq::empty());
        assert(items.take(0).filter_map(f) =~= Seq::empty());
    } else {
        law_every_store_is_found(items, (n - 1) as nat);
        lemma_kept_next(items, f, n - 1);
    }
}

/// Of the calls that are met, one after the other, these read a shared table:
/// one without arguments that walks the entries or the values of what a store
/// returns, and one that clones the values so walked, which is taken together
/// with the walk.
pub proof fn law_which_calls_are_taken(stores: Seq<Seq<char>>, met: Seq<MethodCall>, from: nat)
    requires
        from < met.len(),
    ensures
        ({
            let call = met[from as int];
            let read = |c: MethodCall|
                c.bare && c.receiver is Call && stores.contains(c.receiver->Call_0@);
            let clones = call.method@ == "cloned"@ && call.bare && call.receiver is Method && from
                + 1 < met.len() && met[from as int + 1].method@ == "values"@ && read(
                met[from as int + 1],
            );
            let rest = table_calls_from(stores, met, from + 1);
            let all = table_calls_from(stores, met, from);
            &&& clones ==> {
                &&& all.len() == 1 + table_calls_from(stores, met, from + 2).len()
                &&& all.skip(1) == table_calls_from(stores, met, from + 2)
                &&& all[0].table_start == met[from as int + 1].start
                &&& all[0].table_end == met[from as int + 1].receiver_end
                &&& all[0].end == call.end
                &&& all[0].read == TableRead::Values
            }
            &&& !clones && read(call) && (call.method@ == "iter"@ || call.method@ == "values"@)
                ==> {
                &&& all.len() == 1 + rest.len()
                &&& all.skip(1) == rest
                &&& all[0].table_start == call.start
                &&& all[0].table_end == call.receiver_end
                &&& all[0].end == call.end
                &&& (all[0].read == TableRead::Entries <==> call.method@ == "iter"@)
            }
            &&& !clones && !(read(call) && (call.method@ == "iter"@ || call.method@ == "values"@))
                ==> all == rest
        }),
        table_calls_from(stores, met, met.len()) == Seq::<TableCall>::empty(),
{
    law_which_methods_read_a_table(met[from as int].method@);
    let all = table_calls_from(stores, met, from);
    if clones_values(stores, met, from as int) {
        assert(all.skip(1) =~= table_calls_from(stores, met, from + 2));
    } else if all != table_calls_from(stores, met, from + 1) {
        assert(all.skip(1) =~= table_calls_from(stores, met, from + 1));
    }
}

/// A line begins at the start of a text and behind every line feed, and nowhere
/// else; before the start of a line stand as many line feeds as lines.
pub proof fn law_where_lines_begin(bytes: Seq<u8>, n: nat)
    requires
        n <= bytes.len(),
    ensures
        forall|p: nat| #[trigger]
            line_starts(bytes, n).contains(p) <==> p == 0 || (p <= n && bytes[p - 1] == 10),
        forall|i: int, j: int|
            0 <= i < j < line_starts(bytes, n).len() ==> #[trigger] line_starts(bytes, n)[i]
                < #[trigger] line_starts(bytes, n)[j],
        forall|i: int|
            0 <= i < line_starts(bytes, n).len() ==> (#[trigger] line_starts(bytes, n)[i]) <= n
                && feeds(bytes, line_starts(bytes, n)[i]) == i,
        line_starts(bytes, n).len() == feeds(bytes, n) + 1,
    decreases n,
{
    broadcast use push_has;

    if n == 0 {
        let s = seq![0nat];
        assert(s[0] == 0);
    } else {
        law_where_lines_begin(bytes, (n - 1) as nat);
        let before = line_starts(bytes, (n - 1) as nat);
        let now = line_starts(bytes, n);
        assert forall|i: int| 0 <= i < now.len() implies (#[trigger] now[i]) <= n && feeds(
            bytes,
            now[i],
        ) == i by {
            if i < before.len() {
                assert(before[i] == now[i]);
            }
        }
        assert forall|i: int, j: int| 0 <= i < j < now.len() implies #[trigger] now[i]
            < #[trigger] now[j] by {
            assert(before[i] == now[i]);
            if j < before.len() {
                assert(before[j] == now[j]);
            }
        }
    }
}

/// How many of the first `n` bytes are line feeds.
pub open spec fn feeds(bytes: Seq<u8>, n: nat) -> nat
    decreases n,
{
    if n == 0 {
        0
    } else if bytes[n - 1] == 10 {
        feeds(bytes, (n - 1) as nat) + 1
    } else {
        feeds(bytes, (n - 1) as nat)
    }
}

/// A place is behind the start of its line by its column, and before the start
/// of a line stand as many line feeds as lines. A place in a line that there is
/// not is nowhere.
pub proof fn law_where_a_place_is(bytes: Seq<u8>, spot: Spot)
    ensures
        offset(bytes, spot) matches Some(k) ==> {
            let start = (k - spot.column) as nat;
            &&& spot.column <= k
            &&& start <= bytes.len()
            &&& feeds(bytes, start) == spot.line - 1
            &&& start == 0 || bytes[start - 1] == 10
        },
        offset(bytes, spot) is None <==> spot.line == 0 || spot.line > feeds(bytes, bytes.len()) + 1
            || line_starts(bytes, bytes.len())[spot.line - 1] + spot.column > usize::MAX,
{
    law_where_lines_begin(bytes, bytes.len());
    let starts = line_starts(bytes, bytes.len());
    if 1 <= spot.line <= starts.len() {
        assert(starts.contains(starts[spot.line - 1]));
    }
}

/// A call is rewritten from where its table starts to where it ends: the table
/// stays as it stands, and what follows it is written anew. One that does not
/// stand on whole characters, in order, is left.
pub proof fn law_what_a_call_is_rewritten_to(bytes: Seq<u8>, call: TableCall)
    ensures
        ({
            let start = offset(bytes, call.table_start);
            let table_end = offset(bytes, call.table_end);
            let end = offset(bytes, call.end);
            let stands = start is Some && table_end is Some && end is Some && start->Some_0
                <= table_end->Some_0 <= end->Some_0 && is_char_boundary(bytes, start->Some_0 as int)
                && is_char_boundary(bytes, table_end->Some_0 as int) && is_char_boundary(
                bytes,
                end->Some_0 as int,
            );
            &&& edit_of(bytes, call) is Some <==> stands
            &&& edit_of(bytes, call) matches Some(e) ==> {
                &&& e.start == start->Some_0
                &&& e.end == end->Some_0
                &&& e.text == bytes.subrange(
                    start->Some_0 as int,
                    table_end->Some_0 as int,
                ) + encode_utf8(
                    if call.read == TableRead::Entries {
                        ".snapshot().iter()"@
                    } else {
                        ".snapshot().into_iter().map(|(_, value)| value)"@
                    },
                )
            }
        }),
{
}

/// The edits are those of the calls that can be rewritten, each of them once,
/// and none starts behind one that is made before it.
pub proof fn law_every_edit_is_made(bytes: Seq<u8>, calls: Seq<TableCall>, n: nat)
    requires
        n <= calls.len(),
    ensures
        ordered(bytes, calls, n).to_multiset() == calls.take(n as int).filter_map(
            |c: TableCall| edit_of(bytes, c),
        ).to_multiset(),
        forall|i: int, j: int|
            0 <= i < j < ordered(bytes, calls, n).len() ==> (#[trigger] ordered(
                bytes,
                calls,
                n,
            )[j]).start <= (#[trigger] ordered(bytes, calls, n)[i]).start,
    decreases n,
{
    let f = |c: TableCall| edit_of(bytes, c);
    if n == 0 {
        assert(calls.take(0) =~= Seq::empty());
        assert(calls.take(0).filter_map(f) =~= Seq::empty());
    } else {
        law_every_edit_is_made(bytes, calls, (n - 1) as nat);
        lemma_kept_next(calls, f, n - 1);
        let before = ordered(bytes, calls, (n - 1) as nat);
        let now = ordered(bytes, calls, n);
        if let Some(e) = edit_of(bytes, calls[n - 1]) {
            let at = place(before, e.start, 0) as int;
            lemma_place(before, e.start, 0);
            vstd::seq_lib::to_multiset_insert(before, at, e);
            vstd::seq_lib::to_multiset_build(calls.take(n - 1).filter_map(f), e);
            assert forall|i: int, j: int| 0 <= i < j < now.len() implies (#[trigger] now[j]).start
                <= (#[trigger] now[i]).start by {
                let a = if i < at { i } else { i - 1 };
                let b = if j < at { j } else { j - 1 };
                if i != at {
                    assert(now[i] == before[a]);
                }
                if j != at {
                    assert(now[j] == before[b]);
                }
                if i == at {
                    assert(before[b].start <= before[at].start);
                }
            }
        }
    }
}

/// An edit leaves what stands before it and behind it, and puts its own text
/// between.
pub proof fn law_what_an_edit_leaves(bytes: Seq<u8>, e: EditView, i: int)
    requires
        e.start <= e.end <= bytes.len(),
        0 <= i < spliced(bytes, e).len(),
    ensures
        spliced(bytes, e).len() == bytes.len() - (e.end - e.start) + e.text.len(),
        i < e.start ==> spliced(bytes, e)[i] == bytes[i],
        e.start <= i < e.start + e.text.len() ==> spliced(bytes, e)[i] == e.text[i - e.start],
        e.start + e.text.len() <= i ==> spliced(bytes, e)[i] == bytes[i - e.start - e.text.len()
            + e.end],
{
}

/// The edits are made one after the other, each in what the ones before it
/// left. One that cuts a character, or that does not lie in the text, stops it.
pub proof fn law_edits_follow_each_other(bytes: Seq<u8>, edits: Seq<EditView>, n: nat)
    requires
        n < edits.len(),
    ensures
        edited(bytes, edits, 0) == Some(bytes),
        edited(bytes, edits, n + 1) is Some <==> edited(bytes, edits, n) is Some && edits[n as int].start
            <= edits[n as int].end <= edited(bytes, edits, n)->Some_0.len() && is_char_boundary(
            edited(bytes, edits, n)->Some_0,
            edits[n as int].start as int,
        ) && is_char_boundary(edited(bytes, edits, n)->Some_0, edits[n as int].end as int),
        edited(bytes, edits, n + 1) is Some ==> edited(bytes, edits, n + 1)->Some_0 == spliced(
            edited(bytes, edits, n)->Some_0,
            edits[n as int],
        ),
{
}

} // verus!

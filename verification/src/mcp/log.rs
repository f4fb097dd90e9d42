//! The record of what an agent called.
use super::tools::{flag_member, get_flag, outcome_view};
use crate::composer::integrity::{hex, sha256_hex};
use crate::json::{copy_json, member, text_member, Fields, Json, JsonView};
use crate::outside::sha256_digest;
use crate::text::{decimal, decimal_text};
use vstd::prelude::*;
use vstd::string::StringSliceAdditionalSpecFns;
use vstd::utf8::encode_utf8;

verus! {

/// The log of one session on one surface.
pub struct McpCallLog {
    pub surface: String,
    pub session: String,
    pub next_id: u64,
}

pub open spec fn session_name(surface: Seq<char>, pid: Seq<char>) -> Seq<char> {
    surface + "-"@ + pid
}

fn say_session_name(surface: &str, pid: &str) -> (out: String)
    ensures
        out@ == session_name(surface@, pid@),
{
    let mut out: String = surface.to_owned();
    out.append("-");
    out.append(pid);
    out
}

pub open spec fn log_file_name(surface: Seq<char>, pid: Seq<char>) -> Seq<char> {
    "nirdosha_mcp_"@
        + surface
        + "_"@
        + pid
        + ".ndjson"@
}

fn say_log_file_name(surface: &str, pid: &str) -> (out: String)
    ensures
        out@ == log_file_name(surface@, pid@),
{
    let mut out: String = "nirdosha_mcp_".to_owned();
    out.append(surface);
    out.append("_");
    out.append(pid);
    out.append(".ndjson");
    out
}

/// What the log file of a session is called.
pub fn log_name(surface: &str, pid: u32) -> (out: String)
    ensures
        out@ == log_file_name(surface@, decimal(pid as nat)),
{
    say_log_file_name(surface, decimal_text(pid as u64).as_str())
}

impl McpCallLog {
    /// How many calls were numbered so far.
    pub open spec fn count(&self) -> nat {
        self.next_id as nat
    }

    /// A log in which nothing is numbered yet.
    pub fn new(surface: &str, pid: u32) -> (out: McpCallLog)
        ensures
            out.surface@ == surface@,
            out.session@ == session_name(surface@, decimal(pid as nat)),
            out.count() == 0,
    {
        McpCallLog {
            surface: surface.to_owned(),
            session: say_session_name(surface, decimal_text(pid as u64).as_str()),
            next_id: 0,
        }
    }

    /// The number of the next call: one more than that of the last.
    pub fn next_call_id(&mut self) -> (out: u64)
        requires
            old(self).count() < u64::MAX,
        ensures
            out == old(self).count() + 1,
            final(self).count() == old(self).count() + 1,
            final(self).surface == old(self).surface,
            final(self).session == old(self).session,
    {
        self.next_id = self.next_id + 1;
        self.next_id
    }

    /// The record of the beginning of a session.
    pub fn session_start(&self, ts: &str, details: Json) -> (out: Json)
        ensures
            out@ == start_json(ts@, self.session@, self.surface@, details@),
    {
        let ghost said = details@;
        let mut fields: Fields = Fields::new();
        fields.put_text("ts", ts);
        fields.put_text("session", self.session.as_str());
        fields.put_text("surface", self.surface.as_str());
        fields.put_text("event", "session_start");
        fields.put("details", details);
        assert(fields@ =~= start_json(ts@, self.session@, self.surface@, said)->Object_0);
        fields.object()
    }

    /// The record of a call.
    pub fn record_call(
        &self,
        ts: &str,
        call_id: u64,
        tool: &str,
        arguments: &Json,
        outcome: &Result<Json, String>,
        latency_ms: u64,
    ) -> (out: Json)
        ensures
            out@ == JsonView::Object(
                call_record(
                    ts@,
                    self.session@,
                    self.surface@,
                    call_id as nat,
                    tool@,
                    latency_ms as nat,
                    arguments@,
                    outcome_view(*outcome),
                ),
            ),
    {
        let mut fields: Fields = Fields::new();
        fields.put_text("ts", ts);
        fields.put_text("session", self.session.as_str());
        fields.put_text("surface", self.surface.as_str());
        fields.put("call_id", Json::Number(decimal_text(call_id)));
        fields.put_text("tool", tool);
        fields.put("latency_ms", Json::Number(decimal_text(latency_ms)));
        if let Some(source) = arguments.get_text("source") {
            fields.put("source", write_source(source.as_str()));
        }
        if let Some(apply) = get_flag(arguments, "apply") {
            fields.put_bool("apply", apply);
        }
        let ghost head = fields@;
        assert(head =~= head_fields(
            ts@,
            self.session@,
            self.surface@,
            call_id as nat,
            tool@,
            latency_ms as nat,
            arguments@,
        ));
        match outcome {
            Ok(value) => put_outcome(value, &mut fields),
            Err(message) => {
                fields.put_text("outcome", "error");
                fields.put_text("error", message.as_str());
            },
        }
        assert(fields@ =~= call_record(
            ts@,
            self.session@,
            self.surface@,
            call_id as nat,
            tool@,
            latency_ms as nat,
            arguments@,
            outcome_view(*outcome),
        ));
        fields.object()
    }
}

pub open spec fn start_json(
    ts: Seq<char>,
    session: Seq<char>,
    surface: Seq<char>,
    details: JsonView,
) -> JsonView {
    JsonView::Object(
        seq![
            ("ts"@, JsonView::Text(ts)),
            ("session"@, JsonView::Text(session)),
            ("surface"@, JsonView::Text(surface)),
            ("event"@, JsonView::Text("session_start"@)),
            ("details"@, details),
        ],
    )
}

/// What a record says of a source text: its length and its digest, never the
/// text.
pub open spec fn source_json(source: Seq<char>) -> JsonView {
    JsonView::Object(
        seq![
            ("bytes"@, JsonView::Number(decimal(encode_utf8(source).len() as usize as nat))),
            ("sha256"@, JsonView::Text(hex(sha256_digest(encode_utf8(source))))),
        ],
    )
}

fn write_source(source: &str) -> (out: Json)
    ensures
        out@ == source_json(source@),
{
    let mut fields: Fields = Fields::new();
    fields.put("bytes", Json::Number(decimal_text(source.len() as u64)));
    fields.put_text("sha256", sha256_hex(source.as_bytes()).as_str());
    assert(fields@ =~= source_json(source@)->Object_0);
    fields.object()
}

pub open spec fn source_fields(arguments: JsonView) -> Seq<(Seq<char>, JsonView)> {
    match text_member(arguments, "source"@) {
        Some(source) => seq![("source"@, source_json(source))],
        None => Seq::empty(),
    }
}

pub open spec fn apply_fields(arguments: JsonView) -> Seq<(Seq<char>, JsonView)> {
    match flag_member(arguments, "apply"@) {
        Some(apply) => seq![("apply"@, JsonView::Bool(apply))],
        None => Seq::empty(),
    }
}

/// The part of a record that does not depend on the outcome.
pub open spec fn head_fields(
    ts: Seq<char>,
    session: Seq<char>,
    surface: Seq<char>,
    call_id: nat,
    tool: Seq<char>,
    latency_ms: nat,
    arguments: JsonView,
) -> Seq<(Seq<char>, JsonView)> {
    seq![
        ("ts"@, JsonView::Text(ts)),
        ("session"@, JsonView::Text(session)),
        ("surface"@, JsonView::Text(surface)),
        ("call_id"@, JsonView::Number(decimal(call_id))),
        ("tool"@, JsonView::Text(tool)),
        ("latency_ms"@, JsonView::Number(decimal(latency_ms))),
    ] + source_fields(arguments) + apply_fields(arguments)
}

/// The member of a member.
pub open spec fn inner(v: JsonView, outer: Seq<char>, key: Seq<char>) -> Option<JsonView> {
    match member(v, outer) {
        Some(m) => member(m, key),
        None => None,
    }
}

/// The verdict that an answer carries, wherever it carries it.
pub open spec fn carried_verdict(v: JsonView) -> Option<JsonView> {
    match member(v, "verdict"@) {
        Some(m) => Some(m),
        None => match inner(v, "before"@, "verdict"@) {
            Some(m) => Some(m),
            None => match inner(v, "after"@, "verdict"@) {
                Some(m) => Some(m),
                None => inner(v, "verdict_summary"@, "verdict"@),
            },
        },
    }
}

pub open spec fn verdict_fields(v: JsonView) -> Seq<(Seq<char>, JsonView)> {
    match carried_verdict(v) {
        Some(m) => seq![("verdict"@, m)],
        None => Seq::empty(),
    }
}

pub open spec fn patch_fields(v: JsonView) -> Seq<(Seq<char>, JsonView)> {
    match member(v, "applied"@) {
        Some(JsonView::List(items)) => seq![
            ("patches_applied"@, JsonView::Number(decimal(items.len()))),
        ],
        _ => Seq::empty(),
    }
}

pub open spec fn hash_fields(v: JsonView) -> Seq<(Seq<char>, JsonView)> {
    match text_member(v, "source_hash"@) {
        Some(hash) => seq![("cert_source_hash"@, JsonView::Text(hash))],
        None => Seq::empty(),
    }
}

/// The part of a record that tells the outcome.
pub open spec fn outcome_fields(outcome: Result<JsonView, Seq<char>>) -> Seq<
    (Seq<char>, JsonView),
> {
    match outcome {
        Ok(v) => seq![("outcome"@, JsonView::Text("ok"@))] + verdict_fields(v) + patch_fields(v)
            + hash_fields(v),
        Err(e) => seq![
            ("outcome"@, JsonView::Text("error"@)),
            ("error"@, JsonView::Text(e)),
        ],
    }
}

/// The record of a call.
pub open spec fn call_record(
    ts: Seq<char>,
    session: Seq<char>,
    surface: Seq<char>,
    call_id: nat,
    tool: Seq<char>,
    latency_ms: nat,
    arguments: JsonView,
    outcome: Result<JsonView, Seq<char>>,
) -> Seq<(Seq<char>, JsonView)> {
    head_fields(ts, session, surface, call_id, tool, latency_ms, arguments) + outcome_fields(
        outcome,
    )
}

fn find_inner<'a>(v: &'a Json, outer: &str, key: &str) -> (out: Option<&'a Json>)
    ensures
        match out {
            Some(m) => inner(v@, outer@, key@) == Some(m@),
            None => inner(v@, outer@, key@) is None,
        },
{
    match v.get(outer) {
        Some(m) => m.get(key),
        None => None,
    }
}

fn find_verdict<'a>(v: &'a Json) -> (out: Option<&'a Json>)
    ensures
        match out {
            Some(m) => carried_verdict(v@) == Some(m@),
            None => carried_verdict(v@) is None,
        },
{
    if let Some(m) = v.get("verdict") {
        return Some(m);
    }
    if let Some(m) = find_inner(v, "before", "verdict") {
        return Some(m);
    }
    if let Some(m) = find_inner(v, "after", "verdict") {
        return Some(m);
    }
    find_inner(v, "verdict_summary", "verdict")
}

fn put_outcome(value: &Json, fields: &mut Fields)
    ensures
        final(fields)@ == old(fields)@ + outcome_fields(Ok(value@)),
{
    let ghost start = fields@;
    fields.put_text("outcome", "ok");
    if let Some(verdict) = find_verdict(value) {
        fields.put("verdict", copy_json(verdict));
    }
    if let Some(Json::List(items)) = value.get("applied") {
        proof {
            crate::json::lemma_list_len(items@);
        }
        fields.put("patches_applied", Json::Number(decimal_text(items.len() as u64)));
    }
    if let Some(hash) = value.get_text("source_hash") {
        fields.put_text("cert_source_hash", hash.as_str());
    }
    assert(fields@ =~= start + outcome_fields(Ok(value@)));
}

/// A record never holds the source that a call was made with: two sources of
/// the same digest and length leave the same record.
pub proof fn law_records_hold_no_source(a: Seq<char>, b: Seq<char>)
    requires
        encode_utf8(a).len() == encode_utf8(b).len(),
        sha256_digest(encode_utf8(a)) == sha256_digest(encode_utf8(b)),
    ensures
        source_json(a) == source_json(b),
{
}

/// The record of a call tells when it came, in which session, on which surface,
/// which call it was, of which tool, and how long it took; of its arguments the
/// source by its length and digest and whether a repair was to be applied; and
/// how it ended.
pub proof fn law_record_of_a_call(
    ts: Seq<char>,
    session: Seq<char>,
    surface: Seq<char>,
    call_id: nat,
    tool: Seq<char>,
    latency_ms: nat,
    arguments: JsonView,
    outcome: Result<JsonView, Seq<char>>,
)
    ensures
        call_record(ts, session, surface, call_id, tool, latency_ms, arguments, outcome) == seq![
            ("ts"@, JsonView::Text(ts)),
            ("session"@, JsonView::Text(session)),
            ("surface"@, JsonView::Text(surface)),
            ("call_id"@, JsonView::Number(decimal(call_id))),
            ("tool"@, JsonView::Text(tool)),
            ("latency_ms"@, JsonView::Number(decimal(latency_ms))),
        ] + (if text_member(arguments, "source"@) is Some {
            seq![
                (
                    "source"@,
                    JsonView::Object(
                        seq![
                            (
                                "bytes"@,
                                JsonView::Number(
                                    decimal(
                                        encode_utf8(
                                            text_member(arguments, "source"@)->Some_0,
                                        ).len() as usize as nat,
                                    ),
                                ),
                            ),
                            (
                                "sha256"@,
                                JsonView::Text(
                                    hex(
                                        sha256_digest(
                                            encode_utf8(
                                                text_member(arguments, "source"@)->Some_0,
                                            ),
                                        ),
                                    ),
                                ),
                            ),
                        ],
                    ),
                ),
            ]
        } else {
            Seq::empty()
        }) + (if flag_member(arguments, "apply"@) is Some {
            seq![("apply"@, JsonView::Bool(flag_member(arguments, "apply"@)->Some_0))]
        } else {
            Seq::empty()
        }) + outcome_fields(outcome),
{
}

/// How a call ended: with what it was answered, the verdict that the answer
/// carries, how many patches were applied and the digest that was certified,
/// each where there is any; or with its error.
pub proof fn law_record_of_an_outcome(v: JsonView, e: Seq<char>)
    ensures
        outcome_fields(Err(e)) == seq![
            ("outcome"@, JsonView::Text("error"@)),
            ("error"@, JsonView::Text(e)),
        ],
        outcome_fields(Ok(v)) == seq![("outcome"@, JsonView::Text("ok"@))] + (if carried_verdict(
            v,
        ) is Some {
            seq![("verdict"@, carried_verdict(v)->Some_0)]
        } else {
            Seq::empty()
        }) + (if member(v, "applied"@) is Some && member(v, "applied"@)->Some_0 is List {
            seq![
                (
                    "patches_applied"@,
                    JsonView::Number(decimal(member(v, "applied"@)->Some_0->List_0.len())),
                ),
            ]
        } else {
            Seq::empty()
        }) + (if text_member(v, "source_hash"@) is Some {
            seq![("cert_source_hash"@, JsonView::Text(text_member(v, "source_hash"@)->Some_0))]
        } else {
            Seq::empty()
        }),
{
}

/// The verdict that an answer carries is its own, else that before a repair, else
/// that behind it, else that of a summary.
pub proof fn law_carried_verdict(v: JsonView)
    ensures
        member(v, "verdict"@) is Some ==> carried_verdict(v) == member(v, "verdict"@),
        member(v, "verdict"@) is None && inner(v, "before"@, "verdict"@) is Some
            ==> carried_verdict(v) == inner(v, "before"@, "verdict"@),
        member(v, "verdict"@) is None && inner(v, "before"@, "verdict"@) is None && inner(
            v,
            "after"@,
            "verdict"@,
        ) is Some ==> carried_verdict(v) == inner(v, "after"@, "verdict"@),
        member(v, "verdict"@) is None && inner(v, "before"@, "verdict"@) is None && inner(
            v,
            "after"@,
            "verdict"@,
        ) is None ==> carried_verdict(v) == inner(v, "verdict_summary"@, "verdict"@),
        forall|outer: Seq<char>, key: Seq<char>| #[trigger]
            inner(v, outer, key) == if member(v, outer) is Some {
                member(member(v, outer)->Some_0, key)
            } else {
                None
            },
{
}

/// The names of a session and of its log, and the record of its beginning.
pub proof fn law_record_of_a_session(
    ts: Seq<char>,
    session: Seq<char>,
    surface: Seq<char>,
    pid: Seq<char>,
    details: JsonView,
)
    ensures
        session_name(surface, pid) == surface + "-"@ + pid,
        log_file_name(surface, pid) == "nirdosha_mcp_"@ + surface + "_"@ + pid + ".ndjson"@,
        start_json(ts, session, surface, details) is Object,
        start_json(ts, session, surface, details)->Object_0 == seq![
            ("ts"@, JsonView::Text(ts)),
            ("session"@, JsonView::Text(session)),
            ("surface"@, JsonView::Text(surface)),
            ("event"@, JsonView::Text("session_start"@)),
            ("details"@, details),
        ],
{
}

} // verus!

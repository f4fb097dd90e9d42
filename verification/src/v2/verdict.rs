//! What a check of a program found.
use crate::composer::decl::opt_text;
use crate::composer::integrity::{hex, sha256_hex};
use crate::json::{opt_json, text_list, text_or_null, texts_json, Fields, Json, JsonView};
use crate::outside::{
    debug_of, debug_text, from_utf8_lossy, json_pretty_document, json_to_string_pretty, lossy_text,
    sha256_digest,
};
use crate::paths::{join_path, joined};
use crate::text::{
    decimal, decimal_text, join, join_texts, law_joining, starts_with, texts, texts_push,
};
use vstd::prelude::*;
use vstd::string::StringSliceAdditionalSpecFns;
use vstd::utf8::encode_utf8;

verus! {

/// What the compiler and the scanner of claims said of a program.
pub struct V2Verdict {
    pub builds: bool,
    pub build_diagnostic: Option<String>,
    pub contracts_found: usize,
    pub violations: Vec<String>,
}

#[verifier::ext_equal]
pub struct VerdictView {
    pub builds: bool,
    pub build_diagnostic: Option<Seq<char>>,
    pub contracts_found: nat,
    pub violations: Seq<Seq<char>>,
}

impl View for V2Verdict {
    type V = VerdictView;

    open spec fn view(&self) -> VerdictView {
        VerdictView {
            builds: self.builds,
            build_diagnostic: opt_text(self.build_diagnostic),
            contracts_found: self.contracts_found as nat,
            violations: texts(self.violations@),
        }
    }
}

/// A program passes that builds and violates none of its claims.
pub open spec fn is_clean(v: VerdictView) -> bool {
    v.builds && v.violations.len() == 0
}

/// A check in one word.
pub open spec fn verdict_word(v: VerdictView) -> Seq<char> {
    if !v.builds {
        "build_failed"@
    } else if v.violations.len() > 0 {
        "violations_found"@
    } else {
        "clean"@
    }
}

impl V2Verdict {
    /// Whether the program passes.
    pub fn passed(&self) -> (r: bool)
        ensures
            r == is_clean(self@),
    {
        assert(texts(self.violations@).len() == self.violations@.len());
        self.builds && self.violations.len() == 0
    }

    /// The check in one word.
    pub fn verdict(&self) -> (out: &'static str)
        ensures
            out@ == verdict_word(self@),
    {
        assert(texts(self.violations@).len() == self.violations@.len());
        if !self.builds {
            "build_failed"
        } else if self.violations.len() > 0 {
            "violations_found"
        } else {
            "clean"
        }
    }
}

pub open spec fn violation_line(file: Seq<char>, line: Seq<char>, message: Seq<char>) -> Seq<char> {
    file
        + ":"@
        + line
        + " "@
        + message
}

fn say_violation_line(file: &str, line: &str, message: &str) -> (out: String)
    ensures
        out@ == violation_line(file@, line@, message@),
{
    let mut out: String = file.to_owned();
    out.append(":");
    out.append(line);
    out.append(" ");
    out.append(message);
    out
}

/// A violation as it is reported.
pub fn violation(file: &str, line: usize, message: &str) -> (out: String)
    ensures
        out@ == violation_line(file@, decimal(line as nat), message@),
{
    say_violation_line(file, decimal_text(line as u64).as_str(), message)
}

/// What the compiler said of a program that does not build, word for word.
pub fn build_diagnostic(builds: bool, stderr: &Vec<u8>) -> (out: Option<String>)
    ensures
        opt_text(out) == if builds {
            None
        } else {
            Some(lossy_text(stderr@))
        },
{
    if builds {
        None
    } else {
        Some(from_utf8_lossy(stderr.as_slice()))
    }
}

/// What the compiler said, or that it failed without a word.
pub open spec fn build_failure(diagnostic: Option<Seq<char>>) -> Seq<char> {
    match diagnostic {
        Some(d) => d,
        None => "cargo build failed"@,
    }
}

/// What is wrong with a program, the compiler's part first.
pub open spec fn fault_text(v: VerdictView, heading: Seq<char>) -> Seq<char> {
    let built = if v.builds {
        Seq::empty()
    } else {
        build_failure(v.build_diagnostic)
    };
    if v.violations.len() == 0 {
        built
    } else if built.len() == 0 {
        heading + join(v.violations, "\n"@)
    } else {
        built + "\n"@ + heading + join(v.violations, "\n"@)
    }
}

fn describe_fault(v: &V2Verdict, heading: &str) -> (out: String)
    ensures
        out@ == fault_text(v@, heading@),
{
    let mut out: String = String::new();
    if !v.builds {
        match &v.build_diagnostic {
            Some(d) => {
                out = d.clone();
            },
            None => {
                out = "cargo build failed".to_owned();
            },
        }
    }
    assert(texts(v.violations@).len() == v.violations@.len());
    assert(out@ == if v@.builds {
        Seq::empty()
    } else {
        build_failure(v@.build_diagnostic)
    });
    if v.violations.len() > 0 {
        if out.as_str().is_empty() {
            out = heading.to_owned();
        } else {
            out.append("\n");
            out.append(heading);
        }
        out.append(join_texts(&v.violations, "\n").as_str());
    }
    out
}

/// Whether a generated program may be accepted, and what is wrong with it if
/// not. `checked` is the check, or why it could not be made.
pub open spec fn acceptance_fault(checked: Result<VerdictView, Seq<char>>) -> Option<Seq<char>> {
    match checked {
        Err(e) => Some(e),
        Ok(v) => if is_clean(v) {
            None
        } else {
            Some(fault_text(v, "nirdosha:contract violations:\n"@))
        },
    }
}

pub open spec fn checked_view(checked: Result<V2Verdict, String>) -> Result<VerdictView, Seq<char>> {
    match checked {
        Ok(v) => Ok(v@),
        Err(e) => Err(e@),
    }
}

/// Whether a generated program may be accepted.
pub fn typecheck_and_build_check(checked: &Result<V2Verdict, String>) -> (out: Result<(), String>)
    ensures
        match out {
            Ok(_) => acceptance_fault(checked_view(*checked)) is None,
            Err(e) => acceptance_fault(checked_view(*checked)) == Some(e@),
        },
{
    match checked {
        Err(e) => Err(e.clone()),
        Ok(v) => if v.passed() {
            Ok(())
        } else {
            Err(describe_fault(v, "nirdosha:contract violations:\n"))
        },
    }
}

pub open spec fn named_error(name: Seq<char>, error: Seq<char>) -> Seq<char> {
    name + ": "@ + error
}

fn say_named_error(name: &str, error: &str) -> (out: String)
    ensures
        out@ == named_error(name@, error@),
{
    let mut out: String = name.to_owned();
    out.append(": ");
    out.append(error);
    out
}

/// What is wrong with a program that demonstrates a construct; nothing where it
/// passes.
pub open spec fn construct_fault(
    name: Seq<char>,
    checked: Result<VerdictView, Seq<char>>,
) -> Option<Seq<char>> {
    match checked {
        Err(e) => Some(named_error(name, e)),
        Ok(v) => if is_clean(v) {
            None
        } else {
            Some(fault_text(v, Seq::empty()))
        },
    }
}

/// Whether a program that demonstrates a construct passes, and what is wrong
/// with it if not.
pub fn verdict_diagnostic(name: &str, checked: &Result<V2Verdict, String>) -> (out: (
    bool,
    Option<String>,
))
    ensures
        out.0 == (construct_fault(name@, checked_view(*checked)) is None),
        opt_text(out.1) == construct_fault(name@, checked_view(*checked)),
{
    match checked {
        Err(e) => (false, Some(say_named_error(name, e.as_str()))),
        Ok(v) => if v.passed() {
            (true, None)
        } else {
            let nothing: String = String::new();
            (false, Some(describe_fault(v, nothing.as_str())))
        },
    }
}

/// A list of texts as `Debug` shows it: in brackets, each as `Debug` shows it.
pub open spec fn debug_items(list: Seq<Seq<char>>) -> Seq<Seq<char>> {
    list.map_values(|s: Seq<char>| debug_text(s))
}

pub open spec fn debug_list(list: Seq<Seq<char>>) -> Seq<char> {
    "["@ + join(debug_items(list), ", "@) + "]"@
}

pub fn show_list(list: &Vec<String>) -> (out: String)
    ensures
        out@ == debug_list(texts(list@)),
{
    broadcast use texts_push;

    let ghost all = debug_items(texts(list@));
    let mut shown: Vec<String> = Vec::new();
    let mut i: usize = 0;
    assert(texts(shown@) =~= all.take(0));
    while i < list.len()
        invariant
            i <= list@.len(),
            all == debug_items(texts(list@)),
            texts(shown@) == all.take(i as int),
        decreases list@.len() - i,
    {
        assert(all[i as int] == debug_text(list@[i as int]@));
        shown.push(debug_of(list[i].as_str()));
        i += 1;
        assert(all.take(i as int) =~= all.take(i as int - 1).push(all[i as int - 1]));
    }
    assert(all.take(i as int) =~= all);
    let mut out: String = "[".to_owned();
    out.append(join_texts(&shown, ", ").as_str());
    out.append("]");
    out
}

pub open spec fn truth(b: bool) -> Seq<char> {
    if b {
        "true"@
    } else {
        "false"@
    }
}

fn truth_text(b: bool) -> (out: &'static str)
    ensures
        out@ == truth(b),
{
    if b {
        "true"
    } else {
        "false"
    }
}

pub open spec fn refusal_text(what: Seq<char>, builds: Seq<char>, violations: Seq<char>, diagnostic: Seq<char>) -> Seq<char> {
    what
        + " refused -- the v2 candidate does not pass its own check (builds: "@
        + builds
        + ", violations: "@
        + violations
        + ")"@
        + diagnostic
}

fn say_refusal_text(what: &str, builds: &str, violations: &str, diagnostic: &str) -> (out: String)
    ensures
        out@ == refusal_text(what@, builds@, violations@, diagnostic@),
{
    let mut out: String = what.to_owned();
    out.append(" refused -- the v2 candidate does not pass its own check (builds: ");
    out.append(builds);
    out.append(", violations: ");
    out.append(violations);
    out.append(")");
    out.append(diagnostic);
    out
}

/// Why a program is not published or previewed.
pub open spec fn refusal(what: Seq<char>, v: VerdictView) -> Seq<char> {
    refusal_text(
        what,
        truth(v.builds),
        debug_list(v.violations),
        match v.build_diagnostic {
            Some(d) => "\n"@ + d,
            None => Seq::empty(),
        },
    )
}

/// Whether a program may be published or previewed; `what` says which.
pub fn admit_build(what: &str, v: &V2Verdict) -> (out: Result<(), String>)
    ensures
        match out {
            Ok(_) => is_clean(v@),
            Err(e) => !is_clean(v@) && e@ == refusal(what@, v@),
        },
{
    if v.passed() {
        return Ok(());
    }
    let diagnostic: String = match &v.build_diagnostic {
        Some(d) => {
            let mut text: String = "\n".to_owned();
            text.append(d.as_str());
            text
        },
        None => String::new(),
    };
    Err(
        say_refusal_text(
            what,
            truth_text(v.builds),
            show_list(&v.violations).as_str(),
            diagnostic.as_str(),
        ),
    )
}

/// The certificate of a program: its digest and what its check found.
pub open spec fn certificate(
    source: Seq<char>,
    toolchain: Seq<char>,
    v: VerdictView,
) -> JsonView {
    JsonView::Object(
        seq![
            ("certificate_version"@, JsonView::Text("nirdosha.certificate/v2-source-scan"@)),
            ("source_hash"@, JsonView::Text(hex(sha256_digest(encode_utf8(source))))),
            ("toolchain_version"@, JsonView::Text(toolchain)),
            ("evidence_tier"@, JsonView::Text("source_scan"@)),
            ("verdict"@, JsonView::Text(verdict_word(v))),
            ("builds"@, JsonView::Bool(v.builds)),
            ("build_diagnostic"@, text_or_null(v.build_diagnostic)),
            ("contracts_found"@, JsonView::Number(decimal(v.contracts_found))),
            ("violations"@, text_list(v.violations)),
        ],
    )
}

/// The certificate of a program. `toolchain_version` is the version of this
/// program.
pub fn certificate_json(source: &str, toolchain_version: &str, v: &V2Verdict) -> (out: Json)
    ensures
        out@ == certificate(source@, toolchain_version@, v@),
{
    let mut fields: Fields = Fields::new();
    fields.put_text("certificate_version", "nirdosha.certificate/v2-source-scan");
    fields.put_text("source_hash", sha256_hex(source.as_bytes()).as_str());
    fields.put_text("toolchain_version", toolchain_version);
    fields.put_text("evidence_tier", "source_scan");
    fields.put_text("verdict", v.verdict());
    fields.put_bool("builds", v.builds);
    fields.put("build_diagnostic", opt_json(&v.build_diagnostic));
    fields.put("contracts_found", Json::Number(decimal_text(v.contracts_found as u64)));
    fields.put("violations", texts_json(&v.violations));
    assert(fields@ =~= certificate(source@, toolchain_version@, v@)->Object_0);
    fields.object()
}

/// The certificate of a program as it is written to disk.
pub fn certificate_file(source: &str, toolchain_version: &str, v: &V2Verdict) -> (out: String)
    ensures
        out@ == json_pretty_document(certificate(source@, toolchain_version@, v@)),
{
    json_to_string_pretty(&certificate_json(source, toolchain_version, v))
}

/// A published program: where it is, where its certificate is, and its check.
pub struct PublishResult {
    pub binary_path: String,
    pub certificate_path: String,
    pub verdict: V2Verdict,
}

/// Where a published program goes.
pub open spec fn published_at(root: Seq<char>) -> Seq<char> {
    joined(joined(joined(root, ".nir"@), "generated"@), "hi_build"@)
}

/// Where the certificate of a published program goes.
pub open spec fn certified_at(root: Seq<char>) -> Seq<char> {
    joined(joined(joined(root, ".nir"@), "generated"@), "hi_build.certificate.json"@)
}

/// What publishing a program comes to: where it and its certificate go, or why
/// it is refused.
pub fn plan_publish(root: &str, v: V2Verdict) -> (out: Result<PublishResult, String>)
    ensures
        match out {
            Ok(p) => {
                &&& is_clean(v@)
                &&& p.verdict == v
                &&& p.binary_path@ == published_at(root@)
                &&& p.certificate_path@ == certified_at(root@)
            },
            Err(e) => !is_clean(v@) && e@ == refusal("publish"@, v@),
        },
{
    match admit_build("publish", &v) {
        Err(e) => Err(e),
        Ok(_) => {
            let dir: String = join_path(join_path(root, ".nir").as_str(), "generated");
            Ok(
                PublishResult {
                    binary_path: join_path(dir.as_str(), "hi_build"),
                    certificate_path: join_path(dir.as_str(), "hi_build.certificate.json"),
                    verdict: v,
                },
            )
        },
    }
}

/// Where the program of a project is built.
pub open spec fn build_dir(root: Seq<char>) -> Seq<char> {
    joined(joined(joined(root, ".nir"@), "generated"@), "v2-build"@)
}

/// Where the program of a project is built.
pub fn project_build_dir(root: &str) -> (out: String)
    ensures
        out@ == build_dir(root@),
{
    join_path(join_path(join_path(root, ".nir").as_str(), "generated").as_str(), "v2-build")
}

pub open spec fn build_manifest(name: Seq<char>, runtime: Seq<char>) -> Seq<char> {
    "[workspace]\n\n[package]\nname = \""@
        + name
        + "\"\nversion = \"0.0.0\"\nedition = \"2024\"\npublish = \
    false\n\n[dependencies]\nnirdosha-rt = { path = "@
        + runtime
        + " }\nserde = { version = \"1\", features = [\"derive\"] }\nserde_json = \
    \"1\"\n\n[[bin]]\nname = \"candidate\"\npath = \"src/candidate.nir\"\n"@
}

fn say_build_manifest(name: &str, runtime: &str) -> (out: String)
    ensures
        out@ == build_manifest(name@, runtime@),
{
    let mut out: String = "[workspace]\n\n[package]\nname = \"".to_owned();
    out.append(name);
    out.append("\"\nversion = \"0.0.0\"\nedition = \"2024\"\npublish = \
        false\n\n[dependencies]\nnirdosha-rt = { path = ");
    out.append(runtime);
    out.append(" }\nserde = { version = \"1\", features = [\"derive\"] }\nserde_json = \
        \"1\"\n\n[[bin]]\nname = \"candidate\"\npath = \"src/candidate.nir\"\n");
    out
}

/// The manifest of the package in which a program is built.
pub fn candidate_manifest(name: &str, runtime_path: &str) -> (out: String)
    ensures
        out@ == build_manifest(name@, debug_text(runtime_path@)),
{
    say_build_manifest(name, debug_of(runtime_path).as_str())
}

/// Only a program that builds and violates none of its claims is published.
pub proof fn law_only_clean_programs_are_published(v: VerdictView)
    ensures
        acceptance_fault(Ok(v)) is None <==> verdict_word(v) == "clean"@,
{
    reveal_strlit("clean");
    reveal_strlit("build_failed");
    reveal_strlit("violations_found");
    assert("clean"@.len() == 5);
    assert("build_failed"@.len() == 12);
    assert("violations_found"@.len() == 16);
}

/// The certificate of a program tells the truth of its check: it calls the
/// program clean exactly where it builds and violates none of its claims, says
/// that the build failed exactly where it does not build, and that violations
/// were found exactly where it builds and has some; and it holds what the check
/// found, word for word.
pub proof fn law_a_certificate_tells_its_check(
    source: Seq<char>,
    toolchain: Seq<char>,
    v: VerdictView,
)
    ensures
        certificate(source, toolchain, v) is Object,
        ({
            let fields = certificate(source, toolchain, v)->Object_0;
            &&& fields.len() == 9
            &&& fields[0] == ("certificate_version"@, JsonView::Text(
                "nirdosha.certificate/v2-source-scan"@,
            ))
            &&& fields[1] == ("source_hash"@, JsonView::Text(
                hex(sha256_digest(encode_utf8(source))),
            ))
            &&& fields[2] == ("toolchain_version"@, JsonView::Text(toolchain))
            &&& fields[3] == ("evidence_tier"@, JsonView::Text("source_scan"@))
            &&& fields[4].0 == "verdict"@
            &&& fields[4].1 == JsonView::Text("clean"@) <==> v.builds && v.violations.len() == 0
            &&& fields[4].1 == JsonView::Text("build_failed"@) <==> !v.builds
            &&& fields[4].1 == JsonView::Text("violations_found"@) <==> v.builds
                && v.violations.len() > 0
            &&& fields[5] == ("builds"@, JsonView::Bool(v.builds))
            &&& fields[6].0 == "build_diagnostic"@
            &&& v.build_diagnostic is None ==> fields[6].1 == JsonView::Null
            &&& v.build_diagnostic is Some ==> fields[6].1 == JsonView::Text(
                v.build_diagnostic->Some_0,
            )
            &&& fields[7] == ("contracts_found"@, JsonView::Number(decimal(v.contracts_found)))
            &&& fields[8].0 == "violations"@
            &&& fields[8].1 is List
            &&& fields[8].1->List_0.len() == v.violations.len()
            &&& forall|i: int|
                0 <= i < v.violations.len() ==> #[trigger] fields[8].1->List_0[i]
                    == JsonView::Text(v.violations[i])
        }),
{
    reveal_strlit("clean");
    reveal_strlit("build_failed");
    reveal_strlit("violations_found");
    assert("clean"@.len() == 5);
    assert("build_failed"@.len() == 12);
    assert("violations_found"@.len() == 16);
}

/// Whether a program is accepted, published or shown as an example is one
/// question: it is exactly where it builds and violates none of its claims, and
/// exactly then its certificate calls it clean.
pub proof fn law_one_question(v: VerdictView, name: Seq<char>)
    ensures
        is_clean(v) <==> v.builds && v.violations.len() == 0,
        acceptance_fault(Ok(v)) is None <==> v.builds && v.violations.len() == 0,
        construct_fault(name, Ok(v)) is None <==> v.builds && v.violations.len() == 0,
        verdict_word(v) == "clean"@ <==> v.builds && v.violations.len() == 0,
{
    law_only_clean_programs_are_published(v);
}

/// What is said of a program that is not accepted holds all that is wrong with
/// it: what the compiler said, or that the build failed, and, below a heading,
/// every violation on a line of its own.
pub proof fn law_what_is_wrong_is_told(v: VerdictView, name: Seq<char>, e: Seq<char>)
    ensures
        acceptance_fault(Err(e)) == Some(e),
        construct_fault(name, Err(e)) == Some(name + ": "@ + e),
        v.builds && v.violations.len() > 0 ==> {
            &&& acceptance_fault(Ok(v)) == Some(
                "nirdosha:contract violations:\n"@ + join(v.violations, "\n"@),
            )
            &&& construct_fault(name, Ok(v)) == Some(join(v.violations, "\n"@))
        },
        !v.builds && v.violations.len() == 0 ==> {
            &&& v.build_diagnostic matches Some(d) ==> acceptance_fault(Ok(v)) == Some(d)
                && construct_fault(name, Ok(v)) == Some(d)
            &&& v.build_diagnostic is None ==> acceptance_fault(Ok(v)) == Some(
                "cargo build failed"@,
            ) && construct_fault(name, Ok(v)) == Some("cargo build failed"@)
        },
        !v.builds && v.violations.len() > 0 && v.build_diagnostic is Some
            && v.build_diagnostic->Some_0.len() > 0 ==> {
            &&& acceptance_fault(Ok(v)) == Some(
                v.build_diagnostic->Some_0 + "\n"@ + "nirdosha:contract violations:\n"@ + join(
                    v.violations,
                    "\n"@,
                ),
            )
            &&& construct_fault(name, Ok(v)) == Some(
                v.build_diagnostic->Some_0 + "\n"@ + join(v.violations, "\n"@),
            )
        },
{
    let found = join(v.violations, "\n"@);
    assert(Seq::<char>::empty() + found =~= found);
    if v.build_diagnostic is Some {
        assert(v.build_diagnostic->Some_0 + "\n"@ + Seq::<char>::empty() + found
            =~= v.build_diagnostic->Some_0 + "\n"@ + found);
    }
}

/// A refusal names what is refused, whether the program builds, every violation,
/// and what the compiler said.
pub proof fn law_a_refusal_tells_why(what: Seq<char>, v: VerdictView)
    ensures
        refusal(what, v) == what
            + " refused -- the v2 candidate does not pass its own check (builds: "@ + (if v.builds {
            "true"@
        } else {
            "false"@
        }) + ", violations: "@ + "["@ + join(
            v.violations.map_values(|s: Seq<char>| debug_text(s)),
            ", "@,
        ) + "]"@ + ")"@ + (if v.build_diagnostic is Some {
            "\n"@ + v.build_diagnostic->Some_0
        } else {
            Seq::empty()
        }),
{
    let shown = join(debug_items(v.violations), ", "@);
    assert(v.violations.map_values(|s: Seq<char>| debug_text(s)) =~= debug_items(v.violations));
    let head = what + " refused -- the v2 candidate does not pass its own check (builds: "@
        + truth(v.builds) + ", violations: "@;
    assert(head + ("["@ + shown + "]"@) =~= head + "["@ + shown + "]"@);
}

/// A list is shown in brackets, each item as a text is shown, with a comma and a
/// space between two items.
pub proof fn law_how_a_list_is_shown(list: Seq<Seq<char>>, s: Seq<char>)
    ensures
        debug_list(Seq::empty()) == "["@ + "]"@,
        debug_list(seq![s]) == "["@ + debug_text(s) + "]"@,
        list.len() > 0 ==> debug_list(list.push(s)) == debug_list(list).drop_last() + ", "@
            + debug_text(s) + "]"@,
{
    let none = Seq::<Seq<char>>::empty();
    assert(debug_items(none) =~= none);
    law_joining(none, none, ", "@);
    assert("["@ + Seq::<char>::empty() + "]"@ =~= "["@ + "]"@);
    assert(debug_items(seq![s]) =~= seq![debug_text(s)]);
    assert(join(seq![debug_text(s)], ", "@) == debug_text(s));
    if list.len() > 0 {
        let items = debug_items(list);
        assert(debug_items(list.push(s)) =~= items + seq![debug_text(s)]);
        law_joining(items, seq![debug_text(s)], ", "@);
        reveal_strlit("]");
        assert(debug_list(list).drop_last() =~= "["@ + join(items, ", "@));
        assert(debug_list(list.push(s)) =~= debug_list(list).drop_last() + ", "@ + debug_text(s)
            + "]"@);
    }
}

/// What is built of a project lies below its design: the build, the program and
/// its certificate, each under its own name.
pub proof fn law_where_a_build_lies(root: Seq<char>)
    ensures
        build_dir(root) == joined(joined(joined(root, ".nir"@), "generated"@), "v2-build"@),
        published_at(root) == joined(joined(joined(root, ".nir"@), "generated"@), "hi_build"@),
        certified_at(root) == joined(
            joined(joined(root, ".nir"@), "generated"@),
            "hi_build.certificate.json"@,
        ),
{
}

/// The manifest of a build names the package, and the runtime that it depends
/// on.
pub proof fn law_what_a_build_depends_on(name: Seq<char>, runtime: Seq<char>)
    ensures
        starts_with(build_manifest(name, runtime), "[workspace]\n\n[package]\nname = \""@ + name),
        exists|a: Seq<char>, b: Seq<char>|
            build_manifest(name, runtime) == #[trigger] (a + runtime + b),
{
    let all = build_manifest(name, runtime);
    let start = "[workspace]\n\n[package]\nname = \""@ + name;
    assert(all.subrange(0, start.len() as int) =~= start);
    let a = start + "\"\nversion = \"0.0.0\"\nedition = \"2024\"\npublish = \
    false\n\n[dependencies]\nnirdosha-rt = { path = "@;
    let b = " }\nserde = { version = \"1\", features = [\"derive\"] }\nserde_json = \
    \"1\"\n\n[[bin]]\nname = \"candidate\"\npath = \"src/candidate.nir\"\n"@;
    assert(all =~= a + runtime + b);
}

/// What is said of a violation tells its file, its line and what it is; a refusal
/// tells what was refused and what the check found.
pub proof fn law_what_is_said(a: Seq<char>, b: Seq<char>, c: Seq<char>, d: Seq<char>)
    ensures
        violation_line(a, b, c) == a + ":"@ + b + " "@ + c,
        named_error(a, b) == a + ": "@ + b,
        refusal_text(a, b, c, d) == a + " refused -- the v2 candidate does not pass its own check (builds: "@ + b + ", violations: "@ + c + ")"@ + d,
{
}

} // verus!

//! The history of a project, kept in its git repository.
use crate::lists::{lemma_flat_next, lemma_kept_next};
use crate::outside::{from_utf8_lossy, lossy_text};
use crate::paths::{join_path, joined};
use crate::text::{
    chars_of, cut, decimal, decimal_text, find_char, law_cutting, lemma_find_char,
    lemma_split_nonempty, lines, lines_of, same_text, split, split_once, texts, texts_push, trim,
    trimmed, without_cr,
};
use crate::v2::verdict::{debug_list, show_list};
use vstd::prelude::*;

verus! {

/// What of a project is kept in its history.
pub fn tracked_paths(root: &str) -> (out: Vec<String>)
    ensures
        texts(out@) == seq![joined(root@, ".nir"@)],
{
    broadcast use texts_push;

    let mut out: Vec<String> = Vec::new();
    out.push(join_path(root, ".nir"));
    assert(texts(out@) =~= seq![joined(root@, ".nir"@)]);
    out
}

/// What of a project is never kept in its history, as lines of `.gitignore`.
pub open spec fn default_ignored() -> Seq<Seq<char>> {
    seq![
        "/target/"@,
        "/.nir/generated/hi_build"@,
        "/.nir/generated/hi_build.certificate.json"@,
        "/.nir/generated/hi_preview"@,
        "/.nir/generated/v2-build/"@,
        "/.nir/generated/attempts/"@,
    ]
}

fn default_lines() -> (out: Vec<String>)
    ensures
        texts(out@) == default_ignored(),
{
    broadcast use texts_push;

    let mut out: Vec<String> = Vec::new();
    out.push("/target/".to_owned());
    out.push("/.nir/generated/hi_build".to_owned());
    out.push("/.nir/generated/hi_build.certificate.json".to_owned());
    out.push("/.nir/generated/hi_preview".to_owned());
    out.push("/.nir/generated/v2-build/".to_owned());
    out.push("/.nir/generated/attempts/".to_owned());
    assert(texts(out@) =~= default_ignored());
    out
}

/// One of the lines, freed of white space, is a given one.
pub open spec fn has_line(all: Seq<Seq<char>>, line: Seq<char>) -> bool {
    exists|i: int| 0 <= i < all.len() && trimmed(#[trigger] all[i]) == line
}

/// The first `n` of some wanted lines that are not there.
pub open spec fn missing_lines(
    all: Seq<Seq<char>>,
    wanted: Seq<Seq<char>>,
    n: nat,
) -> Seq<Seq<char>>
    decreases n,
{
    if n == 0 {
        Seq::empty()
    } else {
        let before = missing_lines(all, wanted, (n - 1) as nat);
        if has_line(all, wanted[n - 1]) {
            before
        } else {
            before.push(wanted[n - 1])
        }
    }
}

/// A text that ends where a line ends.
pub open spec fn closed(s: Seq<char>) -> Seq<char> {
    if s.len() > 0 && s.last() != '\n' {
        s.push('\n')
    } else {
        s
    }
}

/// A text with the first `n` of some lines behind it.
pub open spec fn with_added(s: Seq<char>, added: Seq<Seq<char>>, n: nat) -> Seq<char>
    decreases n,
{
    if n == 0 {
        s
    } else {
        (with_added(s, added, (n - 1) as nat) + added[n - 1]).push('\n')
    }
}

/// The lines that a `.gitignore` lacks.
pub open spec fn lacking(existing: Seq<char>) -> Seq<Seq<char>> {
    missing_lines(lines(existing), default_ignored(), default_ignored().len())
}

/// A `.gitignore` with the lines that it lacked behind what it held.
pub open spec fn extended(existing: Seq<char>) -> Seq<char> {
    with_added(closed(existing), lacking(existing), lacking(existing).len())
}

fn is_there(all: &Vec<String>, line: &str) -> (r: bool)
    ensures
        r == has_line(texts(all@), line@),
{
    let ghost views = texts(all@);
    let mut i: usize = 0;
    assert(views.len() == all@.len());
    while i < all.len()
        invariant
            i <= all@.len(),
            views == texts(all@),
            views.len() == all@.len(),
            forall|j: int| 0 <= j < i ==> trimmed(#[trigger] views[j]) != line@,
        decreases all@.len() - i,
    {
        assert(views[i as int] == all@[i as int]@);
        if same_text(trim(all[i].as_str()).as_str(), line) {
            return true;
        }
        i += 1;
    }
    false
}

/// The `.gitignore` of a project with every line that it lacks, or nothing
/// where it lacks none. What it held stays.
pub fn extend_gitignore(existing: &str) -> (out: Option<String>)
    ensures
        match out {
            Some(text) => lacking(existing@).len() > 0 && text@ == extended(existing@),
            None => lacking(existing@).len() == 0,
        },
{
    broadcast use texts_push;

    let all: Vec<String> = lines_of(existing);
    let wanted: Vec<String> = default_lines();
    let ghost views = texts(all@);
    let mut missing: Vec<String> = Vec::new();
    let mut i: usize = 0;
    assert(texts(missing@) =~= Seq::<Seq<char>>::empty());
    assert(texts(wanted@).len() == wanted@.len());
    while i < wanted.len()
        invariant
            i <= wanted@.len(),
            views == texts(all@),
            texts(wanted@) == default_ignored(),
            texts(missing@) == missing_lines(views, default_ignored(), i as nat),
        decreases wanted@.len() - i,
    {
        assert(default_ignored()[i as int] == wanted@[i as int]@);
        if !is_there(&all, wanted[i].as_str()) {
            missing.push(wanted[i].clone());
        }
        i += 1;
    }
    assert(texts(missing@).len() == missing@.len());
    if missing.len() == 0 {
        return None;
    }
    let chars: Vec<char> = chars_of(existing);
    let mut out: String = existing.to_owned();
    if chars.len() > 0 && chars[chars.len() - 1] != '\n' {
        out.push('\n');
    }
    let ghost added = texts(missing@);
    let mut k: usize = 0;
    while k < missing.len()
        invariant
            k <= missing@.len(),
            added == texts(missing@),
            out@ == with_added(closed(existing@), added, k as nat),
        decreases missing@.len() - k,
    {
        assert(added[k as int] == missing@[k as int]@);
        out.append(missing[k].as_str());
        out.push('\n');
        k += 1;
    }
    Some(out)
}

/// Adding what is no line feed lengthens the last piece.
proof fn lemma_split_append(s: Seq<char>, t: Seq<char>)
    requires
        !t.contains('\n'),
    ensures
        split(s + t, '\n') == split(s, '\n').drop_last().push(split(s, '\n').last() + t),
    decreases t.len(),
{
    lemma_split_nonempty(s, '\n');
    if t.len() == 0 {
        assert(s + t =~= s);
        assert(split(s, '\n').last() + t =~= split(s, '\n').last());
        assert(split(s, '\n').drop_last().push(split(s, '\n').last()) =~= split(s, '\n'));
    } else {
        let u = t.drop_last();
        assert forall|i: int| 0 <= i < u.len() implies u[i] != '\n' by {
            assert(t[i] == u[i]);
            assert(t.contains(t[i]));
        }
        assert(!u.contains('\n'));
        lemma_split_append(s, u);
        assert((s + t).drop_last() =~= s + u);
        assert(t.contains(t.last()));
        assert((s + t).last() == t.last());
        let before = split(s + u, '\n');
        assert(before.last() == split(s, '\n').last() + u);
        assert(before.drop_last() =~= split(s, '\n').drop_last());
        assert((split(s, '\n').last() + u).push(t.last()) =~= split(s, '\n').last() + t);
    }
}

/// A line behind a text that ends where a line ends is a line of the whole, and
/// the lines before it stay.
proof fn lemma_line_added(s: Seq<char>, line: Seq<char>)
    requires
        split(s, '\n').last().len() == 0,
        !line.contains('\n'),
        line.len() > 0,
        line.last() != '\r',
    ensures
        split((s + line).push('\n'), '\n').last().len() == 0,
        lines((s + line).push('\n')) == lines(s).push(line),
{
    let whole = (s + line).push('\n');
    let pieces = split(s, '\n');
    lemma_split_nonempty(s, '\n');
    lemma_split_append(s, line);
    assert(whole.drop_last() =~= s + line);
    assert(pieces.last() + line =~= line);
    let now = split(whole, '\n');
    assert(now == pieces.drop_last().push(line).push(Seq::<char>::empty()));
    assert(now.drop_last() =~= pieces.drop_last().push(line));
    assert(crate::text::without_cr(line) == line);
    assert(lines(whole) =~= lines(s).push(line));
}

/// A text that ends where a line ends has an empty last piece.
proof fn lemma_closed(s: Seq<char>)
    ensures
        split(closed(s), '\n').last().len() == 0,
{
    lemma_split_nonempty(s, '\n');
    if s.len() > 0 && s.last() != '\n' {
        assert(closed(s).drop_last() =~= s);
    }
}

/// Closing the last line leaves the lines, up to a carriage return at their end.
proof fn lemma_closed_has(s: Seq<char>, line: Seq<char>)
    requires
        has_line(lines(s), line),
    ensures
        has_line(lines(closed(s)), line),
{
    let i = choose|i: int| 0 <= i < lines(s).len() && trimmed(#[trigger] lines(s)[i]) == line;
    if s.len() > 0 && s.last() != '\n' {
        lemma_split_nonempty(s, '\n');
        lemma_split_nonempty(s.drop_last(), '\n');
        let pieces = split(s, '\n');
        assert(closed(s).drop_last() =~= s);
        let now = split(closed(s), '\n');
        assert(now == pieces.push(Seq::<char>::empty()));
        assert(now.drop_last() =~= pieces);
        assert(pieces.last().len() > 0);
        if i < pieces.len() - 1 {
            assert(lines(closed(s))[i] == lines(s)[i]);
        } else {
            let last = pieces.last();
            assert(lines(s)[i] == last);
            assert(lines(closed(s))[i] == crate::text::without_cr(last));
            lemma_cr_is_white(last);
            assert(trimmed(lines(closed(s))[i]) == line);
        }
    }
}

/// A carriage return at the end of a line is white space.
proof fn lemma_cr_is_white(s: Seq<char>)
    ensures
        trimmed(crate::text::without_cr(s)) == trimmed(s),
{
    if s.len() > 0 && s.last() == '\r' {
        let t = s.drop_last();
        lemma_leading(s);
        let lead = crate::text::leading_white(t);
        if lead < t.len() {
            assert(crate::text::trimmed_start(s) =~= crate::text::trimmed_start(t).push('\r'));
            assert(crate::text::trimmed_start(t).push('\r').drop_last()
                =~= crate::text::trimmed_start(t));
            let u = crate::text::trimmed_start(t);
            assert(crate::text::trailing_white(u.push('\r')) == 1 + crate::text::trailing_white(u));
            lemma_trailing(u);
            assert(u.push('\r').take(u.len() - crate::text::trailing_white(u)) =~= u.take(
                u.len() - crate::text::trailing_white(u),
            ));
        } else {
            assert(crate::text::trimmed_start(s) =~= Seq::<char>::empty());
            assert(crate::text::trimmed_start(t) =~= Seq::<char>::empty());
        }
    }
}

proof fn lemma_trailing(s: Seq<char>)
    ensures
        crate::text::trailing_white(s) <= s.len(),
    decreases s.len(),
{
    if s.len() > 0 {
        lemma_trailing(s.drop_last());
    }
}

/// The leading white space of a text with a carriage return behind it.
proof fn lemma_leading(s: Seq<char>)
    requires
        s.len() > 0,
        s.last() == '\r',
    ensures
        ({
            let t = s.drop_last();
            let lead = crate::text::leading_white(t);
            &&& lead <= t.len()
            &&& lead < t.len() ==> crate::text::leading_white(s) == lead
            &&& lead == t.len() ==> crate::text::leading_white(s) == s.len()
        }),
    decreases s.len(),
{
    let t = s.drop_last();
    if t.len() > 0 {
        assert(s[0] == t[0]);
        if crate::text::is_white(s[0]) {
            lemma_leading(s.drop_first());
            assert(s.drop_first().drop_last() =~= t.drop_first());
        }
    } else {
        assert(s[0] == '\r');
        assert(crate::text::is_white('\r'));
        assert(crate::text::leading_white(s.drop_first()) == 0);
    }
}

/// The lines to be ignored hold no line feed and end in no white space.
proof fn lemma_default_plain(i: int)
    requires
        0 <= i < default_ignored().len(),
    ensures
        ({
            let line = default_ignored()[i];
            &&& line.len() > 0
            &&& !line.contains('\n')
            &&& line.last() != '\r'
            &&& trimmed(line) == line
        }),
{
    reveal_strlit("/target/");
    reveal_strlit("/.nir/generated/hi_build");
    reveal_strlit("/.nir/generated/hi_build.certificate.json");
    reveal_strlit("/.nir/generated/hi_preview");
    reveal_strlit("/.nir/generated/v2-build/");
    reveal_strlit("/.nir/generated/attempts/");
    let line = default_ignored()[i];
    assert(line[0] == '/');
    assert(!crate::text::is_white('/') && !crate::text::is_white('d') && !crate::text::is_white(
        'n',
    ) && !crate::text::is_white('w'));
    assert(crate::text::leading_white(line) == 0);
    assert(crate::text::trimmed_start(line) =~= line);
    assert(!crate::text::is_white(line.last()));
    assert(crate::text::trailing_white(line) == 0);
    assert(trimmed(line) =~= line);
    assert forall|k: int| 0 <= k < line.len() implies line[k] != '\n' by {}
}

proof fn lemma_added_lines(s: Seq<char>, added: Seq<Seq<char>>, n: nat)
    requires
        n <= added.len(),
        split(s, '\n').last().len() == 0,
        forall|i: int|
            0 <= i < added.len() ==> {
                let line = #[trigger] added[i];
                line.len() > 0 && !line.contains('\n') && line.last() != '\r'
            },
    ensures
        split(with_added(s, added, n), '\n').last().len() == 0,
        lines(with_added(s, added, n)) == lines(s) + added.take(n as int),
    decreases n,
{
    if n > 0 {
        lemma_added_lines(s, added, (n - 1) as nat);
        lemma_line_added(with_added(s, added, (n - 1) as nat), added[n - 1]);
        assert((lines(s) + added.take(n - 1)).push(added[n - 1]) =~= lines(s) + added.take(
            n as int,
        ));
    } else {
        assert(lines(s) + added.take(0) =~= lines(s));
    }
}

proof fn lemma_missing_from(all: Seq<Seq<char>>, wanted: Seq<Seq<char>>, n: nat)
    requires
        n <= wanted.len(),
    ensures
        forall|i: int|
            0 <= i < missing_lines(all, wanted, n).len() ==> wanted.take(n as int).contains(
                #[trigger] missing_lines(all, wanted, n)[i],
            ),
        forall|k: int|
            0 <= k < n ==> has_line(all, #[trigger] wanted[k]) || missing_lines(all, wanted, n).contains(
                wanted[k],
            ),
    decreases n,
{
    if n > 0 {
        lemma_missing_from(all, wanted, (n - 1) as nat);
        let before = missing_lines(all, wanted, (n - 1) as nat);
        let now = missing_lines(all, wanted, n);
        assert forall|i: int| 0 <= i < now.len() implies wanted.take(n as int).contains(
            #[trigger] now[i],
        ) by {
            if i < before.len() {
                assert(now[i] == before[i]);
                let earlier = wanted.take(n - 1);
                let k = choose|k: int| 0 <= k < earlier.len() && #[trigger] earlier[k] == before[i];
                assert(wanted.take(n as int)[k] == before[i]);
            } else {
                assert(wanted.take(n as int)[n - 1] == now[i]);
            }
        }
        assert forall|k: int| 0 <= k < n implies has_line(all, #[trigger] wanted[k])
            || now.contains(wanted[k]) by {
            if k < n - 1 {
                if !has_line(all, wanted[k]) {
                    let j = choose|j: int| 0 <= j < before.len() && before[j] == wanted[k];
                    assert(now[j] == wanted[k]);
                }
            } else if !has_line(all, wanted[k]) {
                assert(now[before.len() as int] == wanted[k]);
            }
        }
    }
}

proof fn lemma_nothing_missing(all: Seq<Seq<char>>, wanted: Seq<Seq<char>>, n: nat)
    requires
        n <= wanted.len(),
        forall|k: int| 0 <= k < n ==> has_line(all, #[trigger] wanted[k]),
    ensures
        missing_lines(all, wanted, n).len() == 0,
    decreases n,
{
    if n > 0 {
        lemma_nothing_missing(all, wanted, (n - 1) as nat);
    }
}

/// A `.gitignore` that was extended lacks nothing: extending it again leaves it
/// as it is.
pub proof fn law_extending_is_idempotent(existing: Seq<char>)
    ensures
        lacking(extended(existing)).len() == 0,
{
    let base = closed(existing);
    let added = lacking(existing);
    let wanted = default_ignored();
    lemma_closed(existing);
    lemma_missing_from(lines(existing), wanted, wanted.len());
    assert(wanted.take(wanted.len() as int) =~= wanted);
    assert forall|i: int| 0 <= i < added.len() implies ({
        let line = #[trigger] added[i];
        line.len() > 0 && !line.contains('\n') && line.last() != '\r'
    }) by {
        let k = choose|k: int| 0 <= k < wanted.len() && wanted[k] == added[i];
        lemma_default_plain(k);
    }
    lemma_added_lines(base, added, added.len());
    assert(added.take(added.len() as int) =~= added);
    let now = lines(extended(existing));
    assert(now == lines(base) + added);
    assert forall|k: int| 0 <= k < wanted.len() implies has_line(now, #[trigger] wanted[k]) by {
        if has_line(lines(existing), wanted[k]) {
            lemma_closed_has(existing, wanted[k]);
            let i = choose|i: int|
                0 <= i < lines(base).len() && trimmed(#[trigger] lines(base)[i]) == wanted[k];
            assert(now[i] == lines(base)[i]);
        } else {
            let j = choose|j: int| 0 <= j < added.len() && added[j] == wanted[k];
            lemma_default_plain(k);
            assert(now[lines(base).len() + j] == added[j]);
            assert(trimmed(now[lines(base).len() + j]) == wanted[k]);
        }
    }
    lemma_nothing_missing(now, wanted, wanted.len());
}

pub open spec fn invoke_failed(args: Seq<char>, root: Seq<char>, error: Seq<char>) -> Seq<char> {
    "failed to invoke git "@
        + args
        + " in "@
        + root
        + ": "@
        + error
}

fn say_invoke_failed(args: &str, root: &str, error: &str) -> (out: String)
    ensures
        out@ == invoke_failed(args@, root@, error@),
{
    let mut out: String = "failed to invoke git ".to_owned();
    out.append(args);
    out.append(" in ");
    out.append(root);
    out.append(": ");
    out.append(error);
    out
}

/// What to say where git cannot be run.
pub fn git_not_run(args: &Vec<String>, root: &str, error: &str) -> (out: String)
    ensures
        out@ == invoke_failed(debug_list(texts(args@)), root@, error@),
{
    say_invoke_failed(show_list(args).as_str(), root, error)
}

pub open spec fn git_failure(what: Seq<char>, root: Seq<char>, stderr: Seq<char>) -> Seq<char> {
    "git "@
        + what
        + " failed in "@
        + root
        + ": "@
        + stderr
}

fn say_git_failure(what: &str, root: &str, stderr: &str) -> (out: String)
    ensures
        out@ == git_failure(what@, root@, stderr@),
{
    let mut out: String = "git ".to_owned();
    out.append(what);
    out.append(" failed in ");
    out.append(root);
    out.append(": ");
    out.append(stderr);
    out
}

/// Whether a git command succeeded, and what to say if not. `what` names it,
/// `stderr` is what it complained about.
pub fn check_git(what: &str, root: &str, ok: bool, stderr: &Vec<u8>) -> (out: Result<(), String>)
    ensures
        match out {
            Ok(_) => ok,
            Err(e) => !ok && e@ == git_failure(what@, root@, lossy_text(stderr@)),
        },
{
    if ok {
        Ok(())
    } else {
        Err(say_git_failure(what, root, from_utf8_lossy(stderr.as_slice()).as_str()))
    }
}

/// A command that stages what of a project is kept.
pub fn add_args(root: &str) -> (out: Vec<String>)
    ensures
        texts(out@) == seq!["add"@, "-A"@, "--"@, joined(root@, ".nir"@)],
{
    broadcast use texts_push;

    let mut out: Vec<String> = Vec::new();
    out.push("add".to_owned());
    out.push("-A".to_owned());
    out.push("--".to_owned());
    out.push(join_path(root, ".nir"));
    assert(texts(out@) =~= seq!["add"@, "-A"@, "--"@, joined(root@, ".nir"@)]);
    out
}

/// A command that lists the last revisions of what is kept, newest first.
pub fn log_args(root: &str, limit: usize) -> (out: Vec<String>)
    ensures
        texts(out@) == seq![
            "log"@,
            "--format=%H%x1f%s%x1f%cI"@,
            "-n"@,
            decimal(limit as nat),
            "--"@,
            joined(root@, ".nir"@),
        ],
{
    broadcast use texts_push;

    let mut out: Vec<String> = Vec::new();
    out.push("log".to_owned());
    out.push("--format=%H%x1f%s%x1f%cI".to_owned());
    out.push("-n".to_owned());
    out.push(decimal_text(limit as u64));
    out.push("--".to_owned());
    out.push(join_path(root, ".nir"));
    assert(texts(out@) =~= seq![
        "log"@,
        "--format=%H%x1f%s%x1f%cI"@,
        "-n"@,
        decimal(limit as nat),
        "--"@,
        joined(root@, ".nir"@),
    ]);
    out
}

/// A command that shows what a revision changed of what is kept.
pub fn show_args(root: &str, rev: &str) -> (out: Vec<String>)
    ensures
        texts(out@) == seq!["show"@, rev@, "--"@, joined(root@, ".nir"@)],
{
    broadcast use texts_push;

    let mut out: Vec<String> = Vec::new();
    out.push("show".to_owned());
    out.push(rev.to_owned());
    out.push("--".to_owned());
    out.push(join_path(root, ".nir"));
    assert(texts(out@) =~= seq!["show"@, rev@, "--"@, joined(root@, ".nir"@)]);
    out
}

/// What a git command left: whether it succeeded, and what it wrote.
pub struct GitOutput {
    pub ok: bool,
    pub stdout: Vec<u8>,
    pub stderr: Vec<u8>,
}

/// How far a commit is.
#[derive(Clone, Copy, Debug, PartialEq, Eq, Structural)]
pub enum CommitStage {
    /// What is kept was staged.
    Added,
    /// What is staged was compared with the last revision.
    Compared,
    /// What is staged was committed.
    Committed,
    /// The new revision was named.
    Named,
}

/// What a commit does next.
pub enum CommitStep {
    /// Runs a git command, and is then at a stage.
    Run(CommitStage, Vec<String>),
    /// Ends: with the name of the new revision, or with nothing to commit.
    Done(Option<String>),
    Failed(String),
}

pub enum StepView {
    Run(CommitStage, Seq<Seq<char>>),
    Done(Option<Seq<char>>),
    Failed(Seq<char>),
}

impl View for CommitStep {
    type V = StepView;

    open spec fn view(&self) -> StepView {
        match *self {
            CommitStep::Run(stage, args) => StepView::Run(stage, texts(args@)),
            CommitStep::Done(hash) => StepView::Done(
                match hash {
                    Some(h) => Some(h@),
                    None => None,
                },
            ),
            CommitStep::Failed(e) => StepView::Failed(e@),
        }
    }
}

/// What a commit does once it is at a stage. Two revisions that are the same
/// are one: where nothing of what is kept is staged nothing is committed. What
/// else is staged stays as it is.
pub open spec fn commit_step(
    stage: CommitStage,
    root: Seq<char>,
    message: Seq<char>,
    output: GitOutput,
) -> StepView {
    match stage {
        CommitStage::Added => if output.ok {
            StepView::Run(
                CommitStage::Compared,
                seq!["diff"@, "--cached"@, "--quiet"@, "--"@, joined(root, ".nir"@)],
            )
        } else {
            StepView::Failed(git_failure("add"@, root, lossy_text(output.stderr@)))
        },
        CommitStage::Compared => if output.ok {
            StepView::Done(None)
        } else {
            StepView::Run(
                CommitStage::Committed,
                seq!["commit"@, "-m"@, message, "--"@, joined(root, ".nir"@)],
            )
        },
        CommitStage::Committed => if output.ok {
            StepView::Run(CommitStage::Named, seq!["rev-parse"@, "HEAD"@])
        } else {
            StepView::Failed(git_failure("commit"@, root, lossy_text(output.stderr@)))
        },
        CommitStage::Named => if output.ok {
            StepView::Done(Some(trimmed(lossy_text(output.stdout@))))
        } else {
            StepView::Failed(git_failure("rev-parse HEAD"@, root, lossy_text(output.stderr@)))
        },
    }
}

/// A command that lists what the last revision keeps of a project.
pub fn tracked_args(root: &str) -> (out: Vec<String>)
    ensures
        texts(out@) == seq!["ls-files"@, "--"@, joined(root@, ".nir"@)],
{
    broadcast use texts_push;

    let mut out: Vec<String> = Vec::new();
    out.push("ls-files".to_owned());
    out.push("--".to_owned());
    out.push(join_path(root, ".nir"));
    assert(texts(out@) =~= seq!["ls-files"@, "--"@, joined(root@, ".nir"@)]);
    out
}

/// Whether there is anything to stage: the directory is there, or files of it
/// are listed by the command of [`tracked_args`].
pub fn anything_kept(there: bool, listed: &GitOutput) -> (r: bool)
    ensures
        r == (there || (listed.ok && listed.stdout@.len() > 0)),
{
    there || (listed.ok && listed.stdout.len() > 0)
}

/// What a commit does first: it stages what is kept; where nothing is, there is
/// nothing to commit.
pub open spec fn first_step(root: Seq<char>, kept: bool) -> StepView {
    if kept {
        StepView::Run(CommitStage::Added, seq!["add"@, "-A"@, "--"@, joined(root, ".nir"@)])
    } else {
        StepView::Done(None)
    }
}

/// What a commit does first.
pub fn begin_commit(root: &str, kept: bool) -> (out: CommitStep)
    ensures
        out@ == first_step(root@, kept),
{
    if kept {
        CommitStep::Run(CommitStage::Added, add_args(root))
    } else {
        CommitStep::Done(None)
    }
}

/// The command speaks of what is kept of a project and of nothing else.
pub open spec fn only_of_kept(root: Seq<char>, args: Seq<Seq<char>>) -> bool {
    args.len() >= 2 && args[args.len() - 2] == "--"@ && args.last() == joined(root, ".nir"@)
}

/// Staging, comparing and committing speak of what is kept and of nothing else:
/// other files of the project, staged or not, never get into a revision.
pub proof fn law_nothing_else_is_committed(
    stage: CommitStage,
    root: Seq<char>,
    message: Seq<char>,
    output: GitOutput,
    kept: bool,
)
    ensures
        first_step(root, kept) matches StepView::Run(_, args) ==> only_of_kept(root, args),
        commit_step(stage, root, message, output) matches StepView::Run(next, args) ==> next
            == CommitStage::Named || only_of_kept(root, args),
{
}

/// Where nothing is kept, and where nothing of it has changed, the commit ends
/// without a revision and without a failure.
pub proof fn law_nothing_to_commit_is_no_failure(
    root: Seq<char>,
    message: Seq<char>,
    output: GitOutput,
)
    requires
        output.ok,
    ensures
        first_step(root, false) == StepView::Done(None),
        commit_step(CommitStage::Compared, root, message, output) == StepView::Done(None),
{
}

/// What a commit does once it is at a stage, given what the last command left.
pub fn commit_revision(stage: CommitStage, root: &str, message: &str, output: &GitOutput) -> (out:
    CommitStep)
    ensures
        out@ == commit_step(stage, root@, message@, *output),
{
    broadcast use texts_push;

    let mut args: Vec<String> = Vec::new();
    match stage {
        CommitStage::Added => match check_git("add", root, output.ok, &output.stderr) {
            Err(e) => CommitStep::Failed(e),
            Ok(_) => {
                args.push("diff".to_owned());
                args.push("--cached".to_owned());
                args.push("--quiet".to_owned());
                args.push("--".to_owned());
                args.push(join_path(root, ".nir"));
                assert(texts(args@) =~= seq![
                    "diff"@,
                    "--cached"@,
                    "--quiet"@,
                    "--"@,
                    joined(root@, ".nir"@),
                ]);
                CommitStep::Run(CommitStage::Compared, args)
            },
        },
        CommitStage::Compared => if output.ok {
            CommitStep::Done(None)
        } else {
            args.push("commit".to_owned());
            args.push("-m".to_owned());
            args.push(message.to_owned());
            args.push("--".to_owned());
            args.push(join_path(root, ".nir"));
            assert(texts(args@) =~= seq![
                "commit"@,
                "-m"@,
                message@,
                "--"@,
                joined(root@, ".nir"@),
            ]);
            CommitStep::Run(CommitStage::Committed, args)
        },
        CommitStage::Committed => match check_git("commit", root, output.ok, &output.stderr) {
            Err(e) => CommitStep::Failed(e),
            Ok(_) => {
                args.push("rev-parse".to_owned());
                args.push("HEAD".to_owned());
                assert(texts(args@) =~= seq!["rev-parse"@, "HEAD"@]);
                CommitStep::Run(CommitStage::Named, args)
            },
        },
        CommitStage::Named => match check_git("rev-parse HEAD", root, output.ok, &output.stderr) {
            Err(e) => CommitStep::Failed(e),
            Ok(_) => CommitStep::Done(
                Some(trim(from_utf8_lossy(output.stdout.as_slice()).as_str())),
            ),
        },
    }
}

/// What a revision changed, as the command of [`show_args`] wrote it, or what
/// is wrong.
pub fn diff(root: &str, rev: &str, output: &GitOutput) -> (out: Result<String, String>)
    ensures
        match out {
            Ok(text) => output.ok && text@ == lossy_text(output.stdout@),
            Err(e) => !output.ok && e@ == git_failure(
                "show "@ + rev@,
                root@,
                lossy_text(output.stderr@),
            ),
        },
{
    let mut what: String = "show ".to_owned();
    what.append(rev);
    match check_git(what.as_str(), root, output.ok, &output.stderr) {
        Err(e) => Err(e),
        Ok(_) => Ok(from_utf8_lossy(output.stdout.as_slice())),
    }
}

/// A revision of a project.
pub struct RevisionEntry {
    pub hash: String,
    pub message: String,
    pub timestamp: String,
}

#[verifier::ext_equal]
pub struct RevisionView {
    pub hash: Seq<char>,
    pub message: Seq<char>,
    pub timestamp: Seq<char>,
}

impl View for RevisionEntry {
    type V = RevisionView;

    open spec fn view(&self) -> RevisionView {
        RevisionView { hash: self.hash@, message: self.message@, timestamp: self.timestamp@ }
    }
}

pub open spec fn revision_views(list: Seq<RevisionEntry>) -> Seq<RevisionView> {
    list.map_values(|e: RevisionEntry| e@)
}

/// The revision on a line of the log: three parts between unit separators.
pub open spec fn revision_of(line: Seq<char>) -> Option<RevisionView> {
    match cut(line, '\u{1f}') {
        None => None,
        Some((hash, rest)) => match cut(rest, '\u{1f}') {
            None => None,
            Some((message, timestamp)) => Some(RevisionView { hash, message, timestamp }),
        },
    }
}

/// The revisions on the first `n` lines of the log.
pub open spec fn revisions(all: Seq<Seq<char>>, n: nat) -> Seq<RevisionView>
    decreases n,
{
    if n == 0 {
        Seq::empty()
    } else {
        let before = revisions(all, (n - 1) as nat);
        match revision_of(all[n - 1]) {
            Some(e) => before.push(e),
            None => before,
        }
    }
}

fn read_revision(line: &str) -> (out: Option<RevisionEntry>)
    ensures
        match out {
            Some(e) => revision_of(line@) == Some(e@),
            None => revision_of(line@) is None,
        },
{
    match split_once(line, '\u{1f}') {
        None => None,
        Some((hash, rest)) => match split_once(rest.as_str(), '\u{1f}') {
            None => None,
            Some((message, timestamp)) => Some(RevisionEntry { hash, message, timestamp }),
        },
    }
}

/// The revisions that the command of [`log_args`] wrote. Where there is no
/// repository no command was run, and there are none; nor are there any where
/// the command failed, as it does in a repository without revisions.
pub fn log(output: &Option<GitOutput>) -> (out: Vec<RevisionEntry>)
    ensures
        revision_views(out@) == (match *output {
            Some(o) => if o.ok {
                revisions(lines(lossy_text(o.stdout@)), lines(lossy_text(o.stdout@)).len())
            } else {
                Seq::empty()
            },
            None => Seq::empty(),
        }),
{
    let mut out: Vec<RevisionEntry> = Vec::new();
    assert(revision_views(out@) =~= Seq::<RevisionView>::empty());
    let stdout: &Vec<u8> = match output {
        Some(o) => {
            if !o.ok {
                return out;
            }
            &o.stdout
        },
        None => {
            return out;
        },
    };
    let text: String = from_utf8_lossy(stdout.as_slice());
    let all: Vec<String> = lines_of(text.as_str());
    let ghost views = texts(all@);
    let mut i: usize = 0;
    while i < all.len()
        invariant
            i <= all@.len(),
            views == texts(all@),
            revision_views(out@) == revisions(views, i as nat),
        decreases all@.len() - i,
    {
        assert(views[i as int] == all@[i as int]@);
        if let Some(e) = read_revision(all[i].as_str()) {
            assert(revision_views(out@.push(e)) =~= revision_views(out@).push(e@));
            out.push(e);
        }
        i += 1;
    }
    assert(texts(all@).len() == all@.len());
    out
}

/// The line of the log about a revision, as the format of [`log_args`] has it.
pub open spec fn log_line(e: RevisionView) -> Seq<char> {
    e.hash + seq!['\u{1f}'] + e.message + seq!['\u{1f}'] + e.timestamp
}

/// The log of the first `n` revisions.
pub open spec fn log_text(list: Seq<RevisionView>, n: nat) -> Seq<char>
    decreases n,
{
    if n == 0 {
        Seq::empty()
    } else {
        log_text(list, (n - 1) as nat) + log_line(list[n - 1]) + seq!['\n']
    }
}

/// A revision can stand on a line of the log: no part of it holds a line feed,
/// the line does not end in a carriage return, and the hash and the message hold
/// no unit separator.
pub open spec fn fits_a_line(e: RevisionView) -> bool {
    &&& !e.hash.contains('\n') && !e.hash.contains('\u{1f}')
    &&& !e.message.contains('\n') && !e.message.contains('\u{1f}')
    &&& !e.timestamp.contains('\n')
    &&& e.timestamp.len() > 0 ==> e.timestamp.last() != '\r'
}

proof fn lemma_cut(a: Seq<char>, c: char, rest: Seq<char>)
    requires
        !a.contains(c),
    ensures
        cut(a + seq![c] + rest, c) == Some((a, rest)),
{
    let s = a + seq![c] + rest;
    lemma_find_char(s, c, 0);
    let at = find_char(s, c, 0) as int;
    assert(s[a.len() as int] == c);
    if at < a.len() {
        assert(a[at] == c);
    }
    assert(at == a.len());
    assert(s.take(at) =~= a);
    assert(s.skip(at + 1) =~= rest);
}

proof fn lemma_line(e: RevisionView)
    requires
        fits_a_line(e),
    ensures
        revision_of(log_line(e)) == Some(e),
        !log_line(e).contains('\n'),
        without_cr(log_line(e)) == log_line(e),
{
    let rest = e.message + seq!['\u{1f}'] + e.timestamp;
    assert(log_line(e) =~= e.hash + seq!['\u{1f}'] + rest);
    lemma_cut(e.hash, '\u{1f}', rest);
    lemma_cut(e.message, '\u{1f}', e.timestamp);
    let line = log_line(e);
    if line.contains('\n') {
        let i = choose|i: int| 0 <= i < line.len() && line[i] == '\n';
        let h = e.hash.len() as int;
        let m = e.message.len() as int;
        if i < h {
            assert(e.hash[i] == '\n');
        } else if h < i < h + 1 + m {
            assert(e.message[i - h - 1] == '\n');
        } else if i > h + 1 + m {
            assert(e.timestamp[i - h - m - 2] == '\n');
        }
    }
    if e.timestamp.len() > 0 {
        assert(line.last() == e.timestamp.last());
    } else {
        assert(line.last() == '\u{1f}');
    }
}

/// What is written behind a text without the separator goes on with its last
/// piece.
proof fn lemma_split_goes_on(s: Seq<char>, more: Seq<char>, sep: char)
    requires
        !more.contains(sep),
    ensures
        split(s + more, sep) == split(s, sep).drop_last().push(split(s, sep).last() + more),
    decreases more.len(),
{
    lemma_split_nonempty(s, sep);
    let pieces = split(s, sep);
    if more.len() == 0 {
        assert(s + more =~= s);
        assert(pieces.last() + more =~= pieces.last());
        assert(pieces.drop_last().push(pieces.last()) =~= pieces);
    } else {
        let front = more.drop_last();
        assert(!front.contains(sep)) by {
            if front.contains(sep) {
                let i = choose|i: int| 0 <= i < front.len() && front[i] == sep;
                assert(more[i] == sep);
            }
        }
        assert(more[more.len() - 1] != sep);
        lemma_split_goes_on(s, front, sep);
        assert((s + more).drop_last() =~= s + front);
        assert((s + more).last() == more.last());
        let before = split(s + front, sep);
        assert(before.drop_last() =~= pieces.drop_last());
        assert((pieces.last() + front).push(more.last()) =~= pieces.last() + more);
    }
}

proof fn lemma_log_text(list: Seq<RevisionView>, n: nat)
    requires
        n <= list.len(),
        forall|i: int| 0 <= i < list.len() ==> fits_a_line(#[trigger] list[i]),
    ensures
        split(log_text(list, n), '\n') == list.take(n as int).map_values(
            |e: RevisionView| log_line(e),
        ).push(Seq::empty()),
    decreases n,
{
    let written = list.take(n as int).map_values(|e: RevisionView| log_line(e));
    if n == 0 {
        assert(written =~= Seq::<Seq<char>>::empty());
        assert(split(log_text(list, n), '\n') =~= written.push(Seq::empty()));
    } else {
        lemma_log_text(list, (n - 1) as nat);
        let before = log_text(list, (n - 1) as nat);
        let earlier = list.take(n - 1).map_values(|e: RevisionView| log_line(e));
        let line = log_line(list[n - 1]);
        lemma_line(list[n - 1]);
        lemma_split_goes_on(before, line, '\n');
        assert(split(before, '\n').drop_last() =~= earlier);
        assert(Seq::<char>::empty() + line =~= line);
        let all = log_text(list, n);
        assert(all.drop_last() =~= before + line);
        assert(all.last() == '\n');
        assert(written =~= earlier.push(line));
    }
}

proof fn lemma_revisions(list: Seq<RevisionView>, all: Seq<Seq<char>>, n: nat)
    requires
        n <= list.len(),
        all.len() == list.len(),
        forall|i: int| 0 <= i < list.len() ==> revision_of(#[trigger] all[i]) == Some(list[i]),
    ensures
        revisions(all, n) == list.take(n as int),
    decreases n,
{
    if n > 0 {
        lemma_revisions(list, all, (n - 1) as nat);
        assert(revision_of(all[n - 1]) == Some(list[n - 1]));
        assert(list.take(n as int) =~= list.take(n - 1).push(list[n - 1]));
    } else {
        assert(list.take(0) =~= Seq::<RevisionView>::empty());
    }
}

/// The revisions that git writes on the lines of a log are those that are
/// listed, in the order in which it writes them: the newest of the log is the
/// first of the list.
pub proof fn law_logged_revisions_are_listed(list: Seq<RevisionView>)
    requires
        forall|i: int| 0 <= i < list.len() ==> fits_a_line(#[trigger] list[i]),
    ensures
        ({
            let all = lines(log_text(list, list.len()));
            revisions(all, all.len()) == list
        }),
{
    let text = log_text(list, list.len());
    let written = list.map_values(|e: RevisionView| log_line(e));
    lemma_log_text(list, list.len());
    assert(list.take(list.len() as int) =~= list);
    let pieces = split(text, '\n');
    let closed = pieces.drop_last().map_values(|p: Seq<char>| without_cr(p));
    assert(pieces.drop_last() =~= written);
    assert(closed =~= written) by {
        assert forall|i: int| 0 <= i < closed.len() implies closed[i] == written[i] by {
            lemma_line(list[i]);
        }
    }
    assert(pieces.last().len() == 0);
    assert(lines(text) == closed);
    assert forall|i: int| 0 <= i < list.len() implies revision_of(#[trigger] written[i]) == Some(
        list[i],
    ) by {
        lemma_line(list[i]);
    }
    lemma_revisions(list, written, list.len());
}

/// The lines that a `.gitignore` lacks are those of what is never kept that stand
/// on no line of it, in order.
pub proof fn law_what_a_gitignore_lacks(all: Seq<Seq<char>>, wanted: Seq<Seq<char>>, n: nat)
    requires
        n <= wanted.len(),
    ensures
        missing_lines(all, wanted, n) == wanted.take(n as int).filter_map(
            |line: Seq<char>|
                if exists|i: int| 0 <= i < all.len() && trimmed(#[trigger] all[i]) == line {
                    None
                } else {
                    Some(line)
                },
        ),
        default_ignored() == seq![
            "/target/"@,
            "/.nir/generated/hi_build"@,
            "/.nir/generated/hi_build.certificate.json"@,
            "/.nir/generated/hi_preview"@,
            "/.nir/generated/v2-build/"@,
            "/.nir/generated/attempts/"@,
        ],
    decreases n,
{
    let f = |line: Seq<char>|
        if exists|i: int| 0 <= i < all.len() && trimmed(#[trigger] all[i]) == line {
            None
        } else {
            Some(line)
        };
    if n > 0 {
        law_what_a_gitignore_lacks(all, wanted, (n - 1) as nat);
        lemma_kept_next(wanted, f, n - 1);
    }
}

proof fn lemma_with_added(s: Seq<char>, added: Seq<Seq<char>>, n: nat)
    requires
        n <= added.len(),
    ensures
        with_added(s, added, n) == s + added.map_values(|l: Seq<char>| l.push('\n')).take(
            n as int,
        ).flatten(),
    decreases n,
{
    let all = added.map_values(|l: Seq<char>| l.push('\n'));
    if n > 0 {
        lemma_with_added(s, added, (n - 1) as nat);
        lemma_flat_next(all, n - 1);
        assert(with_added(s, added, n) =~= s + all.take(n as int).flatten());
    } else {
        assert(all.take(0) =~= Seq::<Seq<char>>::empty());
        assert(s + Seq::<char>::empty() =~= s);
    }
}

/// What a `.gitignore` held stays in front; its last line is ended where it was
/// not, and behind it stand the lines that it lacked, each on a line of its own.
pub proof fn law_what_is_ignored_stays(existing: Seq<char>)
    ensures
        extended(existing) == existing + (if existing.len() > 0 && existing.last() != '\n' {
            seq!['\n']
        } else {
            Seq::empty()
        }) + lacking(existing).map_values(|l: Seq<char>| l.push('\n')).flatten(),
{
    let added = lacking(existing);
    let all = added.map_values(|l: Seq<char>| l.push('\n'));
    lemma_with_added(closed(existing), added, added.len());
    assert(all.take(added.len() as int) =~= all);
    assert(closed(existing) =~= existing + (if existing.len() > 0 && existing.last() != '\n' {
        seq!['\n']
    } else {
        Seq::empty()
    }));
}

/// A commit stages what is kept, compares it with the last revision, commits it
/// where it differs, and asks for the name of the new revision, which is what it
/// gives back. A command that fails ends it, but for the comparison, whose
/// failure tells that something differs.
pub proof fn law_course_of_a_commit(root: Seq<char>, message: Seq<char>, output: GitOutput)
    ensures
        first_step(root, true) == StepView::Run(
            CommitStage::Added,
            seq!["add"@, "-A"@, "--"@, joined(root, ".nir"@)],
        ),
        first_step(root, false) == StepView::Done(None),
        output.ok ==> {
            &&& commit_step(CommitStage::Added, root, message, output) == StepView::Run(
                CommitStage::Compared,
                seq!["diff"@, "--cached"@, "--quiet"@, "--"@, joined(root, ".nir"@)],
            )
            &&& commit_step(CommitStage::Compared, root, message, output) == StepView::Done(None)
            &&& commit_step(CommitStage::Committed, root, message, output) == StepView::Run(
                CommitStage::Named,
                seq!["rev-parse"@, "HEAD"@],
            )
            &&& commit_step(CommitStage::Named, root, message, output) == StepView::Done(
                Some(trimmed(lossy_text(output.stdout@))),
            )
        },
        !output.ok ==> {
            &&& commit_step(CommitStage::Added, root, message, output) is Failed
            &&& commit_step(CommitStage::Compared, root, message, output) == StepView::Run(
                CommitStage::Committed,
                seq!["commit"@, "-m"@, message, "--"@, joined(root, ".nir"@)],
            )
            &&& commit_step(CommitStage::Committed, root, message, output) is Failed
            &&& commit_step(CommitStage::Named, root, message, output) is Failed
        },
{
}

/// A line of the log is a revision exactly where it has three parts between unit
/// separators; the last part is the rest of the line.
pub proof fn law_revision_on_a_line(line: Seq<char>)
    ensures
        match revision_of(line) {
            Some(e) => {
                &&& line == e.hash.push('\u{1f}') + (e.message.push('\u{1f}') + e.timestamp)
                &&& !e.hash.contains('\u{1f}')
                &&& !e.message.contains('\u{1f}')
            },
            None => forall|i: int, j: int|
                0 <= i < j < line.len() ==> !(#[trigger] line[i] == '\u{1f}' && #[trigger] line[j]
                    == '\u{1f}'),
        },
{
    law_cutting(line, '\u{1f}');
    match cut(line, '\u{1f}') {
        None => {
            assert forall|i: int, j: int| 0 <= i < j < line.len() implies !(#[trigger] line[i]
                == '\u{1f}' && #[trigger] line[j] == '\u{1f}') by {
                assert(line.contains(line[i]));
            }
        },
        Some((hash, rest)) => {
            law_cutting(rest, '\u{1f}');
            if cut(rest, '\u{1f}') is None {
                assert forall|i: int, j: int| 0 <= i < j < line.len() implies !(#[trigger] line[i]
                    == '\u{1f}' && #[trigger] line[j] == '\u{1f}') by {
                    if line[i] == '\u{1f}' && line[j] == '\u{1f}' {
                        if i < hash.len() {
                            assert(hash[i] == '\u{1f}');
                            assert(hash.contains('\u{1f}'));
                        } else {
                            assert(rest[j - hash.len() - 1] == '\u{1f}');
                            assert(rest.contains('\u{1f}'));
                        }
                    }
                }
            }
        },
    }
}

/// The revisions of a log are those of all its lines that are one, in order.
pub proof fn law_revisions_of_a_log(all: Seq<Seq<char>>, n: nat)
    requires
        n <= all.len(),
    ensures
        revisions(all, n) == all.take(n as int).filter_map(|line: Seq<char>| revision_of(line)),
    decreases n,
{
    if n > 0 {
        law_revisions_of_a_log(all, (n - 1) as nat);
        lemma_kept_next(all, |line: Seq<char>| revision_of(line), n - 1);
    }
}

/// What is told where git cannot be run names what was asked of it, where, and
/// why it failed.
pub proof fn law_what_is_told_where_git_fails(args: Seq<char>, root: Seq<char>, error: Seq<char>)
    ensures
        invoke_failed(args, root, error) == "failed to invoke git "@ + args + " in "@ + root + ": "@
            + error,
{
}

/// What is said of a failed step tells which, where, and what git said.
pub proof fn law_what_is_said(a: Seq<char>, b: Seq<char>, c: Seq<char>)
    ensures
        git_failure(a, b, c) == "git "@ + a + " failed in "@ + b + ": "@ + c,
{
}

} // verus!

//! The subcommands for domain packs.
use crate::composer::decl::opt_text;
use crate::text::{same_text, texts};
use vstd::prelude::*;

verus! {

/// What is done with domain packs.
pub enum PluginCommand {
    /// Installs a pack from a file, or only tries to.
    Install { dry_run: bool, path: String },
    /// Signs the manifest of a pack.
    Sign { manifest: String, key: String, identity: String, out: String },
    /// Lists the installed packs.
    List,
    /// Takes a pack away.
    Revoke(String),
    /// The arguments do not do: this is what to say.
    Refused(String),
}

pub enum PluginView {
    Install { dry_run: bool, path: Seq<char> },
    Sign { manifest: Seq<char>, key: Seq<char>, identity: Seq<char>, out: Seq<char> },
    List,
    Revoke(Seq<char>),
    Refused(Seq<char>),
}

impl View for PluginCommand {
    type V = PluginView;

    open spec fn view(&self) -> PluginView {
        match *self {
            PluginCommand::Install { dry_run, path } => PluginView::Install {
                dry_run,
                path: path@,
            },
            PluginCommand::Sign { manifest, key, identity, out } => PluginView::Sign {
                manifest: manifest@,
                key: key@,
                identity: identity@,
                out: out@,
            },
            PluginCommand::List => PluginView::List,
            PluginCommand::Revoke(id) => PluginView::Revoke(id@),
            PluginCommand::Refused(s) => PluginView::Refused(s@),
        }
    }
}

pub const PLUGIN_USAGE: &'static str = "usage: nirdosha-hi plugin install [--dry-run] <pack.json> | sign <pack.json> --key \
    <key.pk8> --identity <name> | list | revoke <pack-id>";

pub const INSTALL_USAGE: &'static str = "usage: nirdosha-hi plugin install [--dry-run] <pack.json>";

pub const SIGN_USAGE: &'static str = "usage: nirdosha-hi plugin sign <pack.json> --key <key.pk8> --identity <name> [-o \
    <signed-pack.json>]";

pub const REVOKE_USAGE: &'static str = "usage: nirdosha-hi plugin revoke <pack-id>";

pub open spec fn unknown_sign_argument(other: Seq<char>) -> Seq<char> {
    "unknown argument `"@ + other + "` -- usage: nirdosha-hi plugin sign <pack.json> --key <key.pk8> --identity <name> [-o \
    <signed-pack.json>]"@
}

fn say_unknown_sign_argument(other: &str) -> (out: String)
    ensures
        out@ == unknown_sign_argument(other@),
{
    let mut out: String = "unknown argument `".to_owned();
    out.append(other);
    out.append("` -- usage: nirdosha-hi plugin sign <pack.json> --key <key.pk8> --identity <name> \
        [-o <signed-pack.json>]");
    out
}

pub open spec fn unknown_plugin_command(other: Seq<char>) -> Seq<char> {
    "unknown plugin subcommand `"@ + other + "` -- use install, sign, list, or revoke"@
}

fn say_unknown_plugin_command(other: &str) -> (out: String)
    ensures
        out@ == unknown_plugin_command(other@),
{
    let mut out: String = "unknown plugin subcommand `".to_owned();
    out.append(other);
    out.append("` -- use install, sign, list, or revoke");
    out
}

pub open spec fn signed_path(manifest: Seq<char>) -> Seq<char> {
    manifest + ".signed.json"@
}

fn default_signed_path(manifest: &str) -> (out: String)
    ensures
        out@ == signed_path(manifest@),
{
    let mut out: String = manifest.to_owned();
    out.append(".signed.json");
    out
}

/// What the arguments of an installation say, from one of them on.
pub open spec fn read_install(
    args: Seq<Seq<char>>,
    from: nat,
    dry_run: bool,
    path: Option<Seq<char>>,
) -> PluginView
    decreases args.len() - from,
{
    if from >= args.len() {
        match path {
            Some(path) => PluginView::Install { dry_run, path },
            None => PluginView::Refused(INSTALL_USAGE@),
        }
    } else if args[from as int] == "--dry-run"@ {
        read_install(args, from + 1, true, path)
    } else if path is None {
        read_install(args, from + 1, dry_run, Some(args[from as int]))
    } else {
        PluginView::Refused(INSTALL_USAGE@)
    }
}

fn parse_install(args: &Vec<String>, start: usize) -> (out: PluginCommand)
    requires
        start <= args@.len(),
    ensures
        out@ == read_install(texts(args@), start as nat, false, None),
{
    let ghost views = texts(args@);
    let n: usize = args.len();
    let mut dry_run: bool = false;
    let mut path: Option<String> = None;
    let mut i: usize = start;
    assert(views.len() == n);
    while i < n
        invariant
            start <= i <= n,
            n == args@.len(),
            views == texts(args@),
            views.len() == n,
            read_install(views, start as nat, false, None) == read_install(
                views,
                i as nat,
                dry_run,
                opt_text(path),
            ),
        decreases n - i,
    {
        assert(views[i as int] == args@[i as int]@);
        if same_text(args[i].as_str(), "--dry-run") {
            dry_run = true;
        } else {
            match &path {
                None => {
                    path = Some(args[i].clone());
                },
                Some(_) => {
                    return PluginCommand::Refused(INSTALL_USAGE.to_owned());
                },
            }
        }
        i += 1;
    }
    match path {
        Some(path) => PluginCommand::Install { dry_run, path },
        None => PluginCommand::Refused(INSTALL_USAGE.to_owned()),
    }
}

/// What the arguments of a signature say so far.
#[verifier::ext_equal]
pub struct SignView {
    pub manifest: Option<Seq<char>>,
    pub key: Option<Seq<char>>,
    pub identity: Option<Seq<char>>,
    pub out: Option<Seq<char>>,
}

/// The argument at a place, where there is one.
pub open spec fn argument_at(args: Seq<Seq<char>>, at: int) -> Option<Seq<char>> {
    if at < args.len() {
        Some(args[at])
    } else {
        None
    }
}

/// What the arguments of a signature say, from one of them on. An option that
/// ends the arguments takes away what an earlier one of its kind said.
pub open spec fn read_sign(args: Seq<Seq<char>>, from: nat, so_far: SignView) -> PluginView
    decreases args.len() + 1 - from,
{
    if from >= args.len() {
        match (so_far.manifest, so_far.key, so_far.identity) {
            (Some(manifest), Some(key), Some(identity)) => PluginView::Sign {
                manifest,
                key,
                identity,
                out: match so_far.out {
                    Some(out) => out,
                    None => signed_path(manifest),
                },
            },
            _ => PluginView::Refused(SIGN_USAGE@),
        }
    } else {
        let a = args[from as int];
        let value = argument_at(args, from as int + 1);
        let next = if from + 2 <= args.len() {
            from + 2
        } else {
            args.len()
        };
        if a == "--key"@ {
            read_sign(args, next, SignView { key: value, ..so_far })
        } else if a == "--identity"@ {
            read_sign(args, next, SignView { identity: value, ..so_far })
        } else if a == "-o"@ {
            read_sign(args, next, SignView { out: value, ..so_far })
        } else if so_far.manifest is None {
            read_sign(args, from + 1, SignView { manifest: Some(a), ..so_far })
        } else {
            PluginView::Refused(unknown_sign_argument(a))
        }
    }
}

fn parse_sign(args: &Vec<String>, start: usize) -> (out: PluginCommand)
    requires
        start <= args@.len(),
    ensures
        out@ == read_sign(
            texts(args@),
            start as nat,
            SignView { manifest: None, key: None, identity: None, out: None },
        ),
{
    let ghost views = texts(args@);
    let ghost empty = SignView { manifest: None, key: None, identity: None, out: None };
    let n: usize = args.len();
    let mut manifest: Option<String> = None;
    let mut key: Option<String> = None;
    let mut identity: Option<String> = None;
    let mut out: Option<String> = None;
    let mut i: usize = start;
    assert(views.len() == n);
    while i < n
        invariant
            start <= i <= n,
            n == args@.len(),
            views == texts(args@),
            views.len() == n,
            empty == (SignView { manifest: None, key: None, identity: None, out: None }),
            read_sign(views, start as nat, empty) == read_sign(
                views,
                i as nat,
                SignView {
                    manifest: opt_text(manifest),
                    key: opt_text(key),
                    identity: opt_text(identity),
                    out: opt_text(out),
                },
            ),
        decreases n - i,
    {
        assert(views[i as int] == args@[i as int]@);
        let a: &str = args[i].as_str();
        let value: Option<String> = if n - i >= 2 {
            assert(views[i + 1] == args@[i + 1]@);
            Some(args[i + 1].clone())
        } else {
            None
        };
        let next: usize = if n - i >= 2 {
            i + 2
        } else {
            n
        };
        if same_text(a, "--key") {
            key = value;
            i = next;
        } else if same_text(a, "--identity") {
            identity = value;
            i = next;
        } else if same_text(a, "-o") {
            out = value;
            i = next;
        } else {
            match &manifest {
                None => {
                    manifest = Some(args[i].clone());
                    i += 1;
                },
                Some(_) => {
                    return PluginCommand::Refused(say_unknown_sign_argument(a));
                },
            }
        }
    }
    match (manifest, key, identity) {
        (Some(manifest), Some(key), Some(identity)) => {
            let out: String = match out {
                Some(out) => out,
                None => default_signed_path(manifest.as_str()),
            };
            PluginCommand::Sign { manifest, key, identity, out }
        },
        _ => PluginCommand::Refused(SIGN_USAGE.to_owned()),
    }
}

/// What is done with domain packs, given the arguments, the subcommand among
/// them.
pub open spec fn planned_plugin(args: Seq<Seq<char>>) -> PluginView {
    if args.len() == 0 {
        PluginView::Refused(PLUGIN_USAGE@)
    } else if args[0] == "install"@ {
        read_install(args, 1, false, None)
    } else if args[0] == "sign"@ {
        read_sign(
            args,
            1,
            SignView { manifest: None, key: None, identity: None, out: None },
        )
    } else if args[0] == "list"@ {
        PluginView::List
    } else if args[0] == "revoke"@ {
        if args.len() < 2 {
            PluginView::Refused(REVOKE_USAGE@)
        } else {
            PluginView::Revoke(args[1])
        }
    } else {
        PluginView::Refused(unknown_plugin_command(args[0]))
    }
}

/// What is done with domain packs, given the arguments, the subcommand among
/// them.
pub fn plan_plugin(args: &Vec<String>) -> (out: PluginCommand)
    ensures
        out@ == planned_plugin(texts(args@)),
{
    let ghost views = texts(args@);
    assert(views.len() == args@.len());
    if args.len() == 0 {
        return PluginCommand::Refused(PLUGIN_USAGE.to_owned());
    }
    assert(views[0] == args@[0]@);
    let sub: &str = args[0].as_str();
    if same_text(sub, "install") {
        parse_install(args, 1)
    } else if same_text(sub, "sign") {
        parse_sign(args, 1)
    } else if same_text(sub, "list") {
        PluginCommand::List
    } else if same_text(sub, "revoke") {
        if args.len() < 2 {
            PluginCommand::Refused(REVOKE_USAGE.to_owned())
        } else {
            assert(views[1] == args@[1]@);
            PluginCommand::Revoke(args[1].clone())
        }
    } else {
        PluginCommand::Refused(say_unknown_plugin_command(sub))
    }
}

/// How a pack is installed.
#[derive(Clone, Copy, Debug, PartialEq, Eq, Structural)]
pub enum InstallWay {
    /// Loaded and proved, and then forgotten.
    DryRun,
    /// From a signed envelope.
    Signed,
    /// From a bare manifest.
    Plain,
}

/// How a pack is installed. A signed envelope is told by its shape.
pub fn install_way(dry_run: bool, is_envelope: bool) -> (out: InstallWay)
    ensures
        out == if dry_run {
            InstallWay::DryRun
        } else if is_envelope {
            InstallWay::Signed
        } else {
            InstallWay::Plain
        },
{
    if dry_run {
        InstallWay::DryRun
    } else if is_envelope {
        InstallWay::Signed
    } else {
        InstallWay::Plain
    }
}

pub open spec fn dry_run_source(path: Seq<char>) -> Seq<char> {
    "dry-run "@ + path
}

fn say_dry_run_source(path: &str) -> (out: String)
    ensures
        out@ == dry_run_source(path@),
{
    let mut out: String = "dry-run ".to_owned();
    out.append(path);
    out
}

/// What the source of a pack is called while it is installed.
pub fn install_source(way: InstallWay, path: &str) -> (out: String)
    ensures
        out@ == if way == InstallWay::DryRun {
            dry_run_source(path@)
        } else {
            path@
        },
{
    match way {
        InstallWay::DryRun => say_dry_run_source(path),
        _ => path.to_owned(),
    }
}

pub open spec fn dry_run_ok(id: Seq<char>, path: Seq<char>) -> Seq<char> {
    "dry-run ok: pack "@
        + id
        + " from "@
        + path
        + " (load + own contracts proved against a stub program)"@
}

fn say_dry_run_ok(id: &str, path: &str) -> (out: String)
    ensures
        out@ == dry_run_ok(id@, path@),
{
    let mut out: String = "dry-run ok: pack ".to_owned();
    out.append(id);
    out.append(" from ");
    out.append(path);
    out.append(" (load + own contracts proved against a stub program)");
    out
}

pub open spec fn dry_run_failed(message: Seq<char>) -> Seq<char> {
    "dry-run failed: "@ + message
}

fn say_dry_run_failed(message: &str) -> (out: String)
    ensures
        out@ == dry_run_failed(message@),
{
    let mut out: String = "dry-run failed: ".to_owned();
    out.append(message);
    out
}

pub open spec fn installed_signed(id: Seq<char>, path: Seq<char>) -> Seq<char> {
    "installed signed pack "@
        + id
        + " from "@
        + path
}

fn say_installed_signed(id: &str, path: &str) -> (out: String)
    ensures
        out@ == installed_signed(id@, path@),
{
    let mut out: String = "installed signed pack ".to_owned();
    out.append(id);
    out.append(" from ");
    out.append(path);
    out
}

pub open spec fn installed_plain(id: Seq<char>, path: Seq<char>) -> Seq<char> {
    "installed pack "@
        + id
        + " from "@
        + path
}

fn say_installed_plain(id: &str, path: &str) -> (out: String)
    ensures
        out@ == installed_plain(id@, path@),
{
    let mut out: String = "installed pack ".to_owned();
    out.append(id);
    out.append(" from ");
    out.append(path);
    out
}

pub open spec fn install_failed(message: Seq<char>) -> Seq<char> {
    "install failed: "@ + message
}

fn say_install_failed(message: &str) -> (out: String)
    ensures
        out@ == install_failed(message@),
{
    let mut out: String = "install failed: ".to_owned();
    out.append(message);
    out
}

/// What is said of an installation: on standard output where it went well, on
/// standard error where it did not.
pub open spec fn install_report(
    way: InstallWay,
    path: Seq<char>,
    outcome: Result<Seq<char>, Seq<char>>,
) -> Result<Seq<char>, Seq<char>> {
    match outcome {
        Ok(id) => Ok(
            match way {
                InstallWay::DryRun => dry_run_ok(id, path),
                InstallWay::Signed => installed_signed(id, path),
                InstallWay::Plain => installed_plain(id, path),
            },
        ),
        Err(message) => Err(
            match way {
                InstallWay::DryRun => dry_run_failed(message),
                _ => install_failed(message),
            },
        ),
    }
}

pub open spec fn said(r: Result<String, String>) -> Result<Seq<char>, Seq<char>> {
    match r {
        Ok(s) => Ok(s@),
        Err(s) => Err(s@),
    }
}

/// What is said of an installation.
pub fn report_install(way: InstallWay, path: &str, outcome: &Result<String, String>) -> (out: Result<
    String,
    String,
>)
    ensures
        said(out) == install_report(way, path@, said(*outcome)),
{
    match outcome {
        Ok(id) => Ok(
            match way {
                InstallWay::DryRun => say_dry_run_ok(id.as_str(), path),
                InstallWay::Signed => say_installed_signed(id.as_str(), path),
                InstallWay::Plain => say_installed_plain(id.as_str(), path),
            },
        ),
        Err(message) => Err(
            match way {
                InstallWay::DryRun => say_dry_run_failed(message.as_str()),
                _ => say_install_failed(message.as_str()),
            },
        ),
    }
}

/// What is said of a file that cannot be read.
pub open spec fn unread_file(path: Seq<char>, error: Seq<char>) -> Seq<char> {
    "reading "@
        + path
        + ": "@
        + error
}

pub fn say_unread_file(path: &str, error: &str) -> (out: String)
    ensures
        out@ == unread_file(path@, error@),
{
    let mut out: String = "reading ".to_owned();
    out.append(path);
    out.append(": ");
    out.append(error);
    out
}

/// What is said of a file that cannot be written.
pub open spec fn unwritten_file(path: Seq<char>, error: Seq<char>) -> Seq<char> {
    "writing "@
        + path
        + ": "@
        + error
}

pub fn say_unwritten_file(path: &str, error: &str) -> (out: String)
    ensures
        out@ == unwritten_file(path@, error@),
{
    let mut out: String = "writing ".to_owned();
    out.append(path);
    out.append(": ");
    out.append(error);
    out
}

pub open spec fn wrote_signed(path: Seq<char>) -> Seq<char> {
    "wrote "@
        + path
        + " -- install it with `nirdosha-hi plugin install "@
        + path
        + "`"@
}

fn say_wrote_signed(path: &str) -> (out: String)
    ensures
        out@ == wrote_signed(path@),
{
    let mut out: String = "wrote ".to_owned();
    out.append(path);
    out.append(" -- install it with `nirdosha-hi plugin install ");
    out.append(path);
    out.append("`");
    out
}

pub open spec fn signing_failed(message: Seq<char>) -> Seq<char> {
    "signing failed: "@ + message
}

fn say_signing_failed(message: &str) -> (out: String)
    ensures
        out@ == signing_failed(message@),
{
    let mut out: String = "signing failed: ".to_owned();
    out.append(message);
    out
}

pub open spec fn revoked_pack(id: Seq<char>) -> Seq<char> {
    "revoked pack "@ + id
}

fn say_revoked_pack(id: &str) -> (out: String)
    ensures
        out@ == revoked_pack(id@),
{
    let mut out: String = "revoked pack ".to_owned();
    out.append(id);
    out
}

/// What is said of a signature that went to a file.
pub fn report_sign(path: &str, outcome: &Result<(), String>) -> (out: Result<String, String>)
    ensures
        said(out) == (match *outcome {
            Ok(_) => Ok::<Seq<char>, Seq<char>>(wrote_signed(path@)),
            Err(message) => Err::<Seq<char>, Seq<char>>(signing_failed(message@)),
        }),
{
    match outcome {
        Ok(_) => Ok(say_wrote_signed(path)),
        Err(message) => Err(say_signing_failed(message.as_str())),
    }
}

/// What is said of a pack that was taken away.
pub fn report_revoke(id: &str, outcome: &Result<(), String>) -> (out: Result<String, String>)
    ensures
        said(out) == (match *outcome {
            Ok(_) => Ok::<Seq<char>, Seq<char>>(revoked_pack(id@)),
            Err(message) => Err::<Seq<char>, Seq<char>>(message@),
        }),
{
    match outcome {
        Ok(_) => Ok(say_revoked_pack(id)),
        Err(message) => Err(message.clone()),
    }
}

/// What each subcommand for packs asks for. A pack is taken away by its
/// identifier; without a subcommand, or with another, nothing is done.
pub proof fn law_plugin_subcommands(args: Seq<Seq<char>>)
    ensures
        args.len() == 0 ==> planned_plugin(args) is Refused,
        args.len() > 0 && args[0] == "list"@ ==> planned_plugin(args) == PluginView::List,
        args.len() == 1 && args[0] == "revoke"@ ==> planned_plugin(args) is Refused,
        args.len() > 1 && args[0] == "revoke"@ ==> planned_plugin(args) == PluginView::Revoke(
            args[1],
        ),
        args.len() > 0 && args[0] == "install"@ ==> planned_plugin(args) is Install
            || planned_plugin(args) is Refused,
        args.len() > 0 && args[0] == "sign"@ ==> planned_plugin(args) is Sign || planned_plugin(
            args,
        ) is Refused,
        args.len() > 0 && args[0] != "list"@ && args[0] != "revoke"@ && args[0] != "install"@
            && args[0] != "sign"@ ==> planned_plugin(args) == PluginView::Refused(
            "unknown plugin subcommand `"@ + args[0]
                + "` -- use install, sign, list, or revoke"@,
        ),
{
    reveal_strlit("list");
    reveal_strlit("revoke");
    reveal_strlit("install");
    reveal_strlit("sign");
    assert("list"@.len() == 4 && "list"@[0] == 'l');
    assert("revoke"@.len() == 6);
    assert("install"@.len() == 7);
    assert("sign"@.len() == 4 && "sign"@[0] == 's');
    if args.len() > 0 {
        lemma_install(args, 1, false, None);
        lemma_sign(args, 1, SignView { manifest: None, key: None, identity: None, out: None });
    }
}

proof fn lemma_install(args: Seq<Seq<char>>, from: nat, dry_run: bool, path: Option<Seq<char>>)
    ensures
        read_install(args, from, dry_run, path) is Install || read_install(
            args,
            from,
            dry_run,
            path,
        ) is Refused,
        match read_install(args, from, dry_run, path) {
            PluginView::Install { dry_run: dry, path: p } => {
                &&& dry == (dry_run || exists|i: int|
                    from <= i < args.len() && #[trigger] args[i] == "--dry-run"@)
                &&& path matches Some(given) ==> p == given && forall|i: int|
                    from <= i < args.len() ==> #[trigger] args[i] == "--dry-run"@
                &&& path is None ==> exists|i: int|
                    {
                        &&& from <= i < args.len()
                        &&& #[trigger] args[i] == p
                        &&& p != "--dry-run"@
                        &&& forall|j: int|
                            from <= j < args.len() && j != i ==> #[trigger] args[j] == "--dry-run"@
                    }
            },
            _ => {
                ||| path is None && forall|i: int|
                    from <= i < args.len() ==> #[trigger] args[i] == "--dry-run"@
                ||| path is Some && exists|i: int|
                    from <= i < args.len() && #[trigger] args[i] != "--dry-run"@
                ||| exists|i: int, j: int|
                    from <= i < j < args.len() && #[trigger] args[i] != "--dry-run"@
                        && #[trigger] args[j] != "--dry-run"@
            },
        },
    decreases args.len() - from,
{
    if from < args.len() {
        let a = args[from as int];
        if a == "--dry-run"@ {
            lemma_install(args, from + 1, true, path);
            assert(args[from as int] == "--dry-run"@);
        } else if path is None {
            lemma_install(args, from + 1, dry_run, Some(a));
            assert(args[from as int] == a);
        } else {
            assert(args[from as int] != "--dry-run"@);
        }
    }
}

/// An installation is asked for exactly where one argument is the file and every
/// other is `--dry-run`; it is a dry run exactly where one of them is that.
pub proof fn law_installation_arguments(args: Seq<Seq<char>>)
    requires
        args.len() > 0,
        args[0] == "install"@,
    ensures
        match planned_plugin(args) {
            PluginView::Install { dry_run, path } => {
                &&& dry_run == exists|i: int|
                    1 <= i < args.len() && #[trigger] args[i] == "--dry-run"@
                &&& exists|i: int|
                    {
                        &&& 1 <= i < args.len()
                        &&& #[trigger] args[i] == path
                        &&& path != "--dry-run"@
                        &&& forall|j: int|
                            1 <= j < args.len() && j != i ==> #[trigger] args[j] == "--dry-run"@
                    }
            },
            _ => {
                ||| forall|i: int| 1 <= i < args.len() ==> #[trigger] args[i] == "--dry-run"@
                ||| exists|i: int, j: int|
                    1 <= i < j < args.len() && #[trigger] args[i] != "--dry-run"@
                        && #[trigger] args[j] != "--dry-run"@
            },
        },
{
    lemma_install(args, 1, false, None);
}

proof fn lemma_sign(args: Seq<Seq<char>>, from: nat, o: SignView)
    ensures
        read_sign(args, from, o) is Sign || read_sign(args, from, o) is Refused,
    decreases args.len() + 1 - from,
{
    if from < args.len() {
        let a = args[from as int];
        let value = argument_at(args, from as int + 1);
        let next = if from + 2 <= args.len() {
            from + 2
        } else {
            args.len()
        };
        if a == "--key"@ {
            lemma_sign(args, next, SignView { key: value, ..o });
        } else if a == "--identity"@ {
            lemma_sign(args, next, SignView { identity: value, ..o });
        } else if a == "-o"@ {
            lemma_sign(args, next, SignView { out: value, ..o });
        } else if o.manifest is None {
            lemma_sign(args, from + 1, SignView { manifest: Some(a), ..o });
        }
    }
}

/// The arguments of a signature one by one: an option takes the argument behind
/// it, the first argument that is no option is the manifest, a second one is
/// refused; and where the manifest, the key and the identity are known the
/// signature goes to the file that is named, or next to the manifest.
pub proof fn law_signature_arguments(args: Seq<Seq<char>>, from: nat, o: SignView)
    ensures
        from >= args.len() && o.manifest is Some && o.key is Some && o.identity is Some ==> {
            let made = read_sign(args, from, o);
            &&& made is Sign
            &&& made->manifest == o.manifest->Some_0
            &&& made->key == o.key->Some_0
            &&& made->identity == o.identity->Some_0
            &&& o.out is Some ==> made->out == o.out->Some_0
            &&& o.out is None ==> made->out == o.manifest->Some_0 + ".signed.json"@
        },
        from >= args.len() && (o.manifest is None || o.key is None || o.identity is None)
            ==> read_sign(args, from, o) is Refused,
        from + 1 < args.len() ==> {
            let a = args[from as int];
            let value = Some(args[from as int + 1]);
            &&& a == "--key"@ ==> read_sign(args, from, o) == read_sign(
                args,
                from + 2,
                SignView { manifest: o.manifest, key: value, identity: o.identity, out: o.out },
            )
            &&& a == "--identity"@ ==> read_sign(args, from, o) == read_sign(
                args,
                from + 2,
                SignView { manifest: o.manifest, key: o.key, identity: value, out: o.out },
            )
            &&& a == "-o"@ ==> read_sign(args, from, o) == read_sign(
                args,
                from + 2,
                SignView { manifest: o.manifest, key: o.key, identity: o.identity, out: value },
            )
        },
        from < args.len() && args[from as int] != "--key"@ && args[from as int] != "--identity"@
            && args[from as int] != "-o"@ ==> {
            &&& o.manifest is None ==> read_sign(args, from, o) == read_sign(
                args,
                from + 1,
                SignView {
                    manifest: Some(args[from as int]),
                    key: o.key,
                    identity: o.identity,
                    out: o.out,
                },
            )
            &&& o.manifest is Some ==> read_sign(args, from, o) is Refused
        },
{
    reveal_strlit("--key");
    reveal_strlit("--identity");
    reveal_strlit("-o");
    assert("--key"@.len() == 5);
    assert("--identity"@.len() == 10);
    assert("-o"@.len() == 2);
}

/// What is said of an installation names the pack where it went well, and what
/// was wrong where it did not.
pub proof fn law_what_is_said_of_an_installation(path: Seq<char>, id: Seq<char>)
    ensures
        install_report(InstallWay::DryRun, path, Ok(id)) == Ok::<Seq<char>, Seq<char>>(
            "dry-run ok: pack "@ + id + " from "@ + path
                + " (load + own contracts proved against a stub program)"@,
        ),
        install_report(InstallWay::Signed, path, Ok(id)) == Ok::<Seq<char>, Seq<char>>(
            "installed signed pack "@ + id + " from "@ + path,
        ),
        install_report(InstallWay::Plain, path, Ok(id)) == Ok::<Seq<char>, Seq<char>>(
            "installed pack "@ + id + " from "@ + path,
        ),
        install_report(InstallWay::DryRun, path, Err(id)) == Err::<Seq<char>, Seq<char>>(
            "dry-run failed: "@ + id,
        ),
        install_report(InstallWay::Signed, path, Err(id)) == Err::<Seq<char>, Seq<char>>(
            "install failed: "@ + id,
        ),
        install_report(InstallWay::Plain, path, Err(id)) == Err::<Seq<char>, Seq<char>>(
            "install failed: "@ + id,
        ),
{
}

/// What is told of a pack or a file names it, and ends with what went wrong
/// where something did.
pub proof fn law_what_is_told_of_a_pack(path: Seq<char>, message: Seq<char>)
    ensures
        dry_run_source(path) == "dry-run "@ + path,
        unread_file(path, message) == "reading "@ + path + ": "@ + message,
        unwritten_file(path, message) == "writing "@ + path + ": "@ + message,
        wrote_signed(path) == "wrote "@ + path
            + " -- install it with `nirdosha-hi plugin install "@ + path + "`"@,
        signing_failed(message) == "signing failed: "@ + message,
        revoked_pack(path) == "revoked pack "@ + path,
{
}

/// What is said of an installation names the pack and where it came from, or why
/// it failed; a signed pack goes beside its manifest.
pub proof fn law_what_is_said(a: Seq<char>, b: Seq<char>)
    ensures
        unknown_sign_argument(a) == "unknown argument `"@ + a + "` -- usage: nirdosha-hi plugin sign <pack.json> --key <key.pk8> --identity <name> [-o \
    <signed-pack.json>]"@,
        unknown_plugin_command(a) == "unknown plugin subcommand `"@ + a + "` -- use install, sign, list, or revoke"@,
        signed_path(a) == a + ".signed.json"@,
        dry_run_ok(a, b) == "dry-run ok: pack "@ + a + " from "@ + b + " (load + own contracts proved against a stub program)"@,
        dry_run_failed(a) == "dry-run failed: "@ + a,
        installed_signed(a, b) == "installed signed pack "@ + a + " from "@ + b,
        installed_plain(a, b) == "installed pack "@ + a + " from "@ + b,
        install_failed(a) == "install failed: "@ + a,
{
}

} // verus!

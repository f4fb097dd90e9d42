//! The commands that generate, build and verify a composed project.
use crate::outside::{from_utf8_lossy, lossy_text};
use crate::text::texts;
use vstd::prelude::*;

verus! {

/// A program and its arguments.
pub struct CommandLine {
    pub program: String,
    pub args: Vec<String>,
}

/// How a command ended and what it printed.
pub struct CommandRun {
    pub success: bool,
    pub stdout: Vec<u8>,
    pub stderr: Vec<u8>,
}

/// The arguments of a `cargo-nirdosha` run: those of the built tool, or of a
/// `cargo run` of it.
pub open spec fn tool_args(built: bool, subcommand: Seq<char>, dir: Seq<char>) -> Seq<Seq<char>> {
    if built {
        seq![subcommand, dir]
    } else {
        seq!["run"@, "-q"@, "-p"@, "cargo-nirdosha"@, "--"@, subcommand, dir]
    }
}

/// The command that runs a subcommand of `cargo-nirdosha` on a project:
/// the built tool where there is one, `cargo run` otherwise.
pub fn cargo_nirdosha(subcommand: &str, project_dir: &str, built: Option<&str>) -> (out:
    CommandLine)
    ensures
        out.program@ == (match built {
            Some(path) => path@,
            None => "cargo"@,
        }),
        texts(out.args@) == tool_args(built is Some, subcommand@, project_dir@),
{
    let mut args: Vec<String> = Vec::new();
    let program: String = match built {
        Some(path) => path.to_owned(),
        None => {
            args.push("run".to_owned());
            args.push("-q".to_owned());
            args.push("-p".to_owned());
            args.push("cargo-nirdosha".to_owned());
            args.push("--".to_owned());
            "cargo".to_owned()
        },
    };
    args.push(subcommand.to_owned());
    args.push(project_dir.to_owned());
    assert(texts(args@) =~= tool_args(built is Some, subcommand@, project_dir@));
    CommandLine { program, args }
}

/// The command that generates the screens of a composed project.
pub fn generate_screens(project_dir: &str, built: Option<&str>) -> (out: CommandLine)
    ensures
        out.program@ == (match built {
            Some(path) => path@,
            None => "cargo"@,
        }),
        texts(out.args@) == tool_args(built is Some, "generate-screens"@, project_dir@),
{
    cargo_nirdosha("generate-screens", project_dir, built)
}

/// The command that verifies a composed project.
pub fn verify_project(project_dir: &str, built: Option<&str>) -> (out: CommandLine)
    ensures
        out.program@ == (match built {
            Some(path) => path@,
            None => "cargo"@,
        }),
        texts(out.args@) == tool_args(built is Some, "verify"@, project_dir@),
{
    cargo_nirdosha("verify", project_dir, built)
}

/// What a finished command means: its output, or its complaint.
pub fn command_outcome(name: &str, run: &CommandRun) -> (r: Result<String, String>)
    ensures
        match r {
            Ok(out) => run.success && out@ == lossy_text(run.stdout@),
            Err(e) => !run.success && e@ == "`"@ + name@ + "` failed:\n"@ + lossy_text(
                run.stderr@,
            ),
        },
{
    if run.success {
        return Ok(from_utf8_lossy(run.stdout.as_slice()));
    }
    let mut msg: String = "`".to_owned();
    msg.append(name);
    msg.append("` failed:\n");
    msg.append(from_utf8_lossy(run.stderr.as_slice()).as_str());
    Err(msg)
}

/// The tool is told what to do and where, in this order, and last; `cargo run` is
/// told before that which tool to run, quietly.
pub proof fn law_what_the_tool_is_told(subcommand: Seq<char>, dir: Seq<char>)
    ensures
        tool_args(true, subcommand, dir) == seq![subcommand, dir],
        tool_args(false, subcommand, dir) == seq![
            "run"@,
            "-q"@,
            "-p"@,
            "cargo-nirdosha"@,
            "--"@,
        ] + tool_args(true, subcommand, dir),
{
    assert(tool_args(false, subcommand, dir) =~= seq![
        "run"@,
        "-q"@,
        "-p"@,
        "cargo-nirdosha"@,
        "--"@,
    ] + tool_args(true, subcommand, dir));
}

} // verus!

//! The running preview of a program: at most one at a time.
use crate::composer::decl::opt_text;
use crate::text::{decimal, decimal_text};
use vstd::prelude::*;

verus! {

/// How often a new preview is looked for before it is given up.
pub const MAX_POLLS: u32 = 40;

/// How long to wait between two looks, in milliseconds.
pub const POLL_WAIT_MS: u64 = 50;

/// A preview that serves: its port, and the route on which it opens.
pub struct PreviewState {
    pub port: u16,
    pub path: String,
}

/// The preview of a session.
pub struct Preview {
    current: Option<PreviewState>,
}

impl View for Preview {
    type V = Option<(u16, Seq<char>)>;

    closed spec fn view(&self) -> Option<(u16, Seq<char>)> {
        match self.current {
            Some(p) => Some((p.port, p.path@)),
            None => None,
        }
    }
}

/// The preview that is left once one that exited is forgotten.
pub open spec fn still_running(p: Option<(u16, Seq<char>)>, exited: bool) -> Option<
    (u16, Seq<char>),
> {
    if exited {
        None
    } else {
        p
    }
}

impl Preview {
    /// A session without a preview.
    pub fn new() -> (out: Preview)
        ensures
            out@ is None,
    {
        Preview { current: None }
    }

    /// The port of the preview. One that exited is forgotten.
    pub fn status(&mut self, exited: bool) -> (out: Option<u16>)
        ensures
            final(self)@ == still_running(old(self)@, exited),
            out == (match still_running(old(self)@, exited) {
                Some((port, _)) => Some(port),
                None => None,
            }),
    {
        if exited {
            self.current = None;
        }
        match &self.current {
            Some(p) => Some(p.port),
            None => None,
        }
    }

    /// The route on which the preview opens. One that exited is forgotten.
    pub fn path(&mut self, exited: bool) -> (out: Option<String>)
        ensures
            final(self)@ == still_running(old(self)@, exited),
            opt_text(out) == (match still_running(old(self)@, exited) {
                Some((_, path)) => Some(path),
                None => None,
            }),
    {
        if exited {
            self.current = None;
        }
        match &self.current {
            Some(p) => Some(p.path.clone()),
            None => None,
        }
    }

    /// Forgets the preview.
    pub fn stop(&mut self)
        ensures
            final(self)@ is None,
    {
        self.current = None;
    }

    /// Remembers a preview that serves.
    pub fn started(&mut self, port: u16, path: &str)
        ensures
            final(self)@ == Some((port, path@)),
    {
        self.current = Some(PreviewState { port, path: path.to_owned() });
    }
}

/// What to do after a look at a new preview.
pub enum PollStep {
    /// It serves.
    Ready,
    /// Wait and look again.
    Wait,
    /// It will not serve.
    Fail(String),
}

pub open spec fn exited_early(port: Seq<char>, status: Seq<char>) -> Seq<char> {
    "preview server exited before listening on port "@
        + port
        + " ("@
        + status
        + ")"@
}

fn say_exited_early(port: &str, status: &str) -> (out: String)
    ensures
        out@ == exited_early(port@, status@),
{
    let mut out: String = "preview server exited before listening on port ".to_owned();
    out.append(port);
    out.append(" (");
    out.append(status);
    out.append(")");
    out
}

pub open spec fn never_listened(port: Seq<char>) -> Seq<char> {
    "preview server did not listen on port "@ + port + " within 2 seconds"@
}

fn say_never_listened(port: &str) -> (out: String)
    ensures
        out@ == never_listened(port@),
{
    let mut out: String = "preview server did not listen on port ".to_owned();
    out.append(port);
    out.append(" within 2 seconds");
    out
}

/// What to do after the look number `polls`, counted from nought, at a new
/// preview: `exited` is how it ended, if it did, and `listening` whether its
/// port answers.
pub fn after_poll(polls: u32, exited: &Option<String>, listening: bool, port: u16) -> (out: PollStep)
    ensures
        match out {
            PollStep::Ready => *exited is None && listening,
            PollStep::Wait => *exited is None && !listening && polls + 1 < MAX_POLLS,
            PollStep::Fail(e) => match *exited {
                Some(status) => e@ == exited_early(decimal(port as nat), status@),
                None => {
                    &&& !listening
                    &&& polls + 1 >= MAX_POLLS
                    &&& e@ == never_listened(decimal(port as nat))
                },
            },
        },
{
    match exited {
        Some(status) => PollStep::Fail(
            say_exited_early(decimal_text(port as u64).as_str(), status.as_str()),
        ),
        None => if listening {
            PollStep::Ready
        } else if polls < MAX_POLLS - 1 {
            PollStep::Wait
        } else {
            PollStep::Fail(say_never_listened(decimal_text(port as u64).as_str()))
        },
    }
}

pub const NO_SERVER: &'static str = "preview requires main() to call .serve(<literal port>); the generated program exits \
    without starting an HTTP server";

/// Where a preview is served: the port that the program names, and the route
/// that it mounts first, or the root.
pub fn plan_preview(port: Option<u16>, route: Option<String>) -> (out: Result<(u16, String), String>)
    ensures
        match out {
            Ok((p, path)) => port == Some(p) && path@ == (match route {
                Some(r) => r@,
                None => "/"@,
            }),
            Err(e) => port is None && e@ == NO_SERVER@,
        },
{
    match port {
        None => Err(NO_SERVER.to_owned()),
        Some(p) => match route {
            Some(r) => Ok((p, r)),
            None => Ok((p, "/".to_owned())),
        },
    }
}

/// Puts a new preview in the place of the old one, which is forgotten in any
/// case, and tells whether the new one serves yet.
pub fn restart(preview: &mut Preview, outcome: PollStep, port: u16, path: &str) -> (out: Result<
    bool,
    String,
>)
    ensures
        match out {
            Ok(serves) => {
                &&& outcome !is Fail
                &&& serves == (outcome is Ready)
                &&& final(preview)@ == if serves {
                    Some((port, path@))
                } else {
                    None
                }
            },
            Err(e) => final(preview)@ is None && outcome is Fail && e == outcome->Fail_0,
        },
{
    preview.stop();
    match outcome {
        PollStep::Ready => {
            preview.started(port, path);
            Ok(true)
        },
        PollStep::Wait => Ok(false),
        PollStep::Fail(e) => Err(e),
    }
}

/// A preview is forgotten where it exited, and only there.
pub proof fn law_which_preview_is_left(p: Option<(u16, Seq<char>)>)
    ensures
        still_running(p, true) is None,
        still_running(p, false) == p,
{
}

/// What is told of a preview that never served names its port, and how it ended
/// where it did.
pub proof fn law_what_is_told_of_a_failed_preview(port: Seq<char>, status: Seq<char>)
    ensures
        exited_early(port, status) == "preview server exited before listening on port "@ + port
            + " ("@ + status + ")"@,
        never_listened(port) == "preview server did not listen on port "@ + port
            + " within 2 seconds"@,
{
}

} // verus!

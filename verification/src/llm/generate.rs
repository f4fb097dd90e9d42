//! Writing a program in a bounded number of attempts.
use super::coverage::CoverageFailureClass;
use crate::text::{decimal, decimal_text};
use vstd::prelude::*;

verus! {

/// How many faults of a program a model may be asked to repair.
pub const MAX_SELF_REPAIR_ATTEMPTS: u32 = 4;

/// What a failed attempt leads to.
#[derive(Clone, Copy, Debug, PartialEq, Eq, Structural)]
pub enum BudgetCharge {
    /// Ask for a repair.
    Continue,
    /// The budget is spent.
    StopGiveUp,
    /// The proof ran out of fuel a second time.
    StopEscalate,
}

/// What a failure of a class costs, and what it leads to: a proof that ran out
/// of fuel costs nothing but may happen once only; every other failure costs
/// one repair, and the last one ends the run.
pub open spec fn charged(budget: int, simplifications: int, class: CoverageFailureClass) -> (
    int,
    int,
    BudgetCharge,
) {
    if class is EngineLimit {
        (
            budget,
            simplifications + 1,
            if simplifications + 1 > 1 {
                BudgetCharge::StopEscalate
            } else {
                BudgetCharge::Continue
            },
        )
    } else if budget <= 1 {
        (0, simplifications, BudgetCharge::StopGiveUp)
    } else {
        (budget - 1, simplifications, BudgetCharge::Continue)
    }
}

/// Charges a failure to the budget.
pub fn charge_budget(
    budget: &mut u32,
    engine_limit_simplifications: &mut u32,
    class: CoverageFailureClass,
) -> (out: BudgetCharge)
    requires
        *old(engine_limit_simplifications) < u32::MAX,
    ensures
        charged(*old(budget) as int, *old(engine_limit_simplifications) as int, class) == (
            *final(budget) as int,
            *final(engine_limit_simplifications) as int,
            out,
        ),
{
    match class {
        CoverageFailureClass::EngineLimit => {
            *engine_limit_simplifications = *engine_limit_simplifications + 1;
            if *engine_limit_simplifications > 1 {
                BudgetCharge::StopEscalate
            } else {
                BudgetCharge::Continue
            }
        },
        _ => {
            if *budget == 0 {
                BudgetCharge::StopGiveUp
            } else {
                *budget = *budget - 1;
                if *budget == 0 {
                    BudgetCharge::StopGiveUp
                } else {
                    BudgetCharge::Continue
                }
            }
        },
    }
}

/// A run that writes the program of a design.
pub struct GenerateRun {
    budget: u32,
    simplifications: u32,
    attempt: u32,
    all_persisted: bool,
}

#[verifier::ext_equal]
pub struct RunView {
    pub budget: int,
    pub simplifications: int,
    pub attempt: int,
    pub all_persisted: bool,
}

impl View for GenerateRun {
    type V = RunView;

    closed spec fn view(&self) -> RunView {
        RunView {
            budget: self.budget as int,
            simplifications: self.simplifications as int,
            attempt: self.attempt as int,
            all_persisted: self.all_persisted,
        }
    }
}

/// A run may begin an attempt: there is budget left, and every attempt so far
/// cost a repair or was the one that a proof out of fuel is forgiven.
pub open spec fn is_ready(r: RunView) -> bool {
    &&& 0 < r.budget <= 4
    &&& 0 <= r.simplifications <= 1
    &&& r.attempt == 4 - r.budget + r.simplifications
}

/// An attempt of a run is under way.
pub open spec fn is_trying(r: RunView) -> bool {
    &&& 0 < r.budget <= 4
    &&& 0 <= r.simplifications <= 1
    &&& r.attempt == 5 - r.budget + r.simplifications
}

pub const NOTHING_TO_GENERATE: &'static str = "nothing confirmed and unlocked to generate -- `:confirm <node>` at least one candidate \
    first";

pub open spec fn wrote(path: Seq<char>, attempt: Seq<char>) -> Seq<char> {
    "wrote "@
        + path
        + " (attempt "@
        + attempt
        + "/4)"@
}

fn say_wrote(path: &str, attempt: &str) -> (out: String)
    ensures
        out@ == wrote(path@, attempt@),
{
    let mut out: String = "wrote ".to_owned();
    out.append(path);
    out.append(" (attempt ");
    out.append(attempt);
    out.append("/4)");
    out
}

pub open spec fn not_persisted(attempt: Seq<char>, error: Seq<char>) -> Seq<char> {
    "warning: could not persist attempt "@
        + attempt
        + "'s draft: "@
        + error
}

fn say_not_persisted(attempt: &str, error: &str) -> (out: String)
    ensures
        out@ == not_persisted(attempt@, error@),
{
    let mut out: String = "warning: could not persist attempt ".to_owned();
    out.append(attempt);
    out.append("'s draft: ");
    out.append(error);
    out
}

pub open spec fn asking_again(attempt: Seq<char>) -> Seq<char> {
    "attempt "@ + attempt + "/4 failed the checks, asking the model to fix it..."@
}

fn say_asking_again(attempt: &str) -> (out: String)
    ensures
        out@ == asking_again(attempt@),
{
    let mut out: String = "attempt ".to_owned();
    out.append(attempt);
    out.append("/4 failed the checks, asking the model to fix it...");
    out
}

pub open spec fn asking_simpler(attempt: Seq<char>) -> Seq<char> {
    "attempt "@ + attempt + ": the proof engine hit its deterministic fuel limit on a demanded contract -- an engine \
    limit, not a code bug; asking the model for one off-budget simplification..."@
}

fn say_asking_simpler(attempt: &str) -> (out: String)
    ensures
        out@ == asking_simpler(attempt@),
{
    let mut out: String = "attempt ".to_owned();
    out.append(attempt);
    out.append(": the proof engine hit its deterministic fuel limit on a demanded contract -- an \
        engine limit, not a code bug; asking the model for one off-budget simplification...");
    out
}

pub open spec fn draft_kept(attempt: Seq<char>) -> Seq<char> {
    " (draft kept at .nir/generated/attempts/attempt_"@ + attempt + ".nir)"@
}

fn say_draft_kept(attempt: &str) -> (out: String)
    ensures
        out@ == draft_kept(attempt@),
{
    let mut out: String = " (draft kept at .nir/generated/attempts/attempt_".to_owned();
    out.append(attempt);
    out.append(".nir)");
    out
}

pub const DRAFT_LOST: &'static str = " (this attempt's draft could not be persisted to disk -- see the warning above)";

pub open spec fn escalated(draft_note: Seq<char>, diagnostic: Seq<char>) -> Seq<char> {
    "escalated to the operator (RFC 0016): the proof engine's deterministic fuel ran out on \
    a demanded contract -- an engine limit, NOT a code bug. The model's one off-budget \
    simplification attempt"@
        + draft_note
        + " did not clear it. Proof obligation, verbatim:\n"@
        + diagnostic
        + "\nOperator options: state a weaker-but-provable demand on the unit, raise the fuel \
    (`nirdosha::contract_check::set_proof_fuel_rlimit`), or waive the demand (`:waive`) and \
    re-generate."@
}

fn say_escalated(draft_note: &str, diagnostic: &str) -> (out: String)
    ensures
        out@ == escalated(draft_note@, diagnostic@),
{
    let mut out: String = "escalated to the operator (RFC 0016): the proof engine's deterministic fuel ran out \
        on a demanded contract -- an engine limit, NOT a code bug. The model's one \
        off-budget simplification attempt".to_owned();
    out.append(draft_note);
    out.append(" did not clear it. Proof obligation, verbatim:\n");
    out.append(diagnostic);
    out.append("\nOperator options: state a weaker-but-provable demand on the unit, raise the fuel \
        (`nirdosha::contract_check::set_proof_fuel_rlimit`), or waive the demand (`:waive`) \
        and re-generate.");
    out
}

pub const DRAFTS_KEPT: &'static str = "every attempt's full draft is kept under .nir/generated/attempts/ for inspection";

pub const DRAFTS_LOST: &'static str = "some attempts' drafts could not be persisted to disk (see the warnings above) -- check \
    .nir/generated/attempts/ for whichever did save";

pub open spec fn gave_up(attempts: Seq<char>, drafts_note: Seq<char>, diagnostic: Seq<char>) -> Seq<char> {
    "gave up after "@
        + attempts
        + " attempt(s) -- "@
        + drafts_note
        + ". Last diagnostic:\n"@
        + diagnostic
}

fn say_gave_up(attempts: &str, drafts_note: &str, diagnostic: &str) -> (out: String)
    ensures
        out@ == gave_up(attempts@, drafts_note@, diagnostic@),
{
    let mut out: String = "gave up after ".to_owned();
    out.append(attempts);
    out.append(" attempt(s) -- ");
    out.append(drafts_note);
    out.append(". Last diagnostic:\n");
    out.append(diagnostic);
    out
}

pub open spec fn retry_text(diagnostic: Seq<char>, hint: Seq<char>) -> Seq<char> {
    "That attempt failed with this diagnostic:\n"@
        + diagnostic
        + "\nFix it and reply with the corrected, complete `.nir` source only."@
        + hint
}

fn say_retry_text(diagnostic: &str, hint: &str) -> (out: String)
    ensures
        out@ == retry_text(diagnostic@, hint@),
{
    let mut out: String = "That attempt failed with this diagnostic:\n".to_owned();
    out.append(diagnostic);
    out.append("\nFix it and reply with the corrected, complete `.nir` source only.");
    out.append(hint);
    out
}

/// What follows a failed attempt.
pub enum AfterFailure {
    /// Log this and ask for a repair.
    Retry(String),
    /// The run is over: give up.
    GiveUp(String),
    /// The run is over: a person has to decide.
    Escalate(String),
}

/// The class of a failure that has none of its own.
pub open spec fn class_or_violated(class: Option<CoverageFailureClass>) -> CoverageFailureClass {
    match class {
        Some(c) => c,
        None => CoverageFailureClass::ContractViolated,
    }
}

impl GenerateRun {
    /// A run that has not tried yet, if there is anything to write.
    pub fn start(units: usize) -> (out: Result<GenerateRun, String>)
        ensures
            match out {
                Ok(run) => {
                    &&& units > 0
                    &&& run@ == (RunView {
                        budget: 4,
                        simplifications: 0,
                        attempt: 0,
                        all_persisted: true,
                    })
                    &&& is_ready(run@)
                },
                Err(e) => units == 0 && e@ == NOTHING_TO_GENERATE@,
            },
    {
        if units == 0 {
            return Err(NOTHING_TO_GENERATE.to_owned());
        }
        Ok(
            GenerateRun {
                budget: MAX_SELF_REPAIR_ATTEMPTS,
                simplifications: 0,
                attempt: 0,
                all_persisted: true,
            },
        )
    }

    /// Begins an attempt and says which one it is.
    pub fn begin(&mut self) -> (out: u32)
        requires
            is_ready(old(self)@),
        ensures
            out == old(self)@.attempt + 1,
            final(self)@ == (RunView { attempt: old(self)@.attempt + 1, ..old(self)@ }),
            is_trying(final(self)@),
    {
        self.attempt = self.attempt + 1;
        self.attempt
    }

    /// Notes that a draft could not be kept, and says so.
    pub fn draft_lost(&mut self, error: &str) -> (out: String)
        ensures
            final(self)@ == (RunView { all_persisted: false, ..old(self)@ }),
            out@ == not_persisted(decimal(old(self)@.attempt as nat), error@),
    {
        self.all_persisted = false;
        say_not_persisted(decimal_text(self.attempt as u64).as_str(), error)
    }

    /// What the log says of an attempt that passed.
    pub fn accepted(&self, path: &str) -> (out: String)
        ensures
            out@ == wrote(path@, decimal(self@.attempt as nat)),
    {
        say_wrote(path, decimal_text(self.attempt as u64).as_str())
    }

    /// Takes a failed attempt into account. `persisted` tells whether its draft
    /// was kept.
    pub fn failed(
        &mut self,
        diagnostic: &str,
        class: Option<CoverageFailureClass>,
        persisted: bool,
    ) -> (out: AfterFailure)
        requires
            is_trying(old(self)@),
        ensures
            ({
                let before = old(self)@;
                let after = final(self)@;
                let class = class_or_violated(class);
                let attempt = decimal(before.attempt as nat);
                let (budget, simplifications, charge) = charged(
                    before.budget,
                    before.simplifications,
                    class,
                );
                &&& after == (RunView { budget, simplifications, ..before })
                &&& match out {
                    AfterFailure::Retry(log) => {
                        &&& charge is Continue
                        &&& is_ready(after)
                        &&& log@ == if class is EngineLimit {
                            asking_simpler(attempt)
                        } else {
                            asking_again(attempt)
                        }
                    },
                    AfterFailure::GiveUp(e) => {
                        &&& charge is StopGiveUp
                        &&& e@ == gave_up(
                            attempt,
                            if before.all_persisted {
                                DRAFTS_KEPT@
                            } else {
                                DRAFTS_LOST@
                            },
                            diagnostic@,
                        )
                    },
                    AfterFailure::Escalate(e) => {
                        &&& charge is StopEscalate
                        &&& e@ == escalated(
                            if persisted {
                                draft_kept(attempt)
                            } else {
                                DRAFT_LOST@
                            },
                            diagnostic@,
                        )
                    },
                }
            }),
    {
        let class: CoverageFailureClass = match class {
            Some(c) => c,
            None => CoverageFailureClass::ContractViolated,
        };
        let attempt: String = decimal_text(self.attempt as u64);
        let mut budget: u32 = self.budget;
        let mut simplifications: u32 = self.simplifications;
        let charge: BudgetCharge = charge_budget(&mut budget, &mut simplifications, class);
        self.budget = budget;
        self.simplifications = simplifications;
        match charge {
            BudgetCharge::Continue => match class {
                CoverageFailureClass::EngineLimit => AfterFailure::Retry(
                    say_asking_simpler(attempt.as_str()),
                ),
                _ => AfterFailure::Retry(say_asking_again(attempt.as_str())),
            },
            BudgetCharge::StopGiveUp => {
                let note: &str = if self.all_persisted {
                    DRAFTS_KEPT
                } else {
                    DRAFTS_LOST
                };
                AfterFailure::GiveUp(say_gave_up(attempt.as_str(), note, diagnostic))
            },
            BudgetCharge::StopEscalate => {
                let note: String = if persisted {
                    say_draft_kept(attempt.as_str())
                } else {
                    DRAFT_LOST.to_owned()
                };
                AfterFailure::Escalate(say_escalated(note.as_str(), diagnostic))
            },
        }
    }
}

/// What a model is told of a failed attempt.
pub fn retry_message(diagnostic: &str, hint: &str) -> (out: String)
    ensures
        out@ == retry_text(diagnostic@, hint@),
{
    say_retry_text(diagnostic, hint)
}

/// No run makes more than five attempts: four repairs, and one that a proof out
/// of fuel is forgiven.
pub proof fn law_attempts_are_bounded(r: RunView)
    requires
        is_trying(r),
    ensures
        1 <= r.attempt <= 5,
{
}

/// A proof that ran out of fuel never costs a repair; every other failure does.
pub proof fn law_only_faults_are_charged(
    budget: int,
    simplifications: int,
    class: CoverageFailureClass,
)
    requires
        budget > 0,
    ensures
        class is EngineLimit ==> charged(budget, simplifications, class).0 == budget,
        !(class is EngineLimit) ==> {
            &&& charged(budget, simplifications, class).0 == budget - 1
            &&& charged(budget, simplifications, class).1 == simplifications
        },
{
}

pub open spec fn compiled(attempt: Seq<char>) -> Seq<char> {
    "compiled on attempt "@ + attempt + "/4"@
}

fn say_compiled(attempt: &str) -> (out: String)
    ensures
        out@ == compiled(attempt@),
{
    let mut out: String = "compiled on attempt ".to_owned();
    out.append(attempt);
    out.append("/4");
    out
}

pub open spec fn recompile(attempt: Seq<char>) -> Seq<char> {
    "attempt "@ + attempt + "/4 failed to compile, asking the model to fix it..."@
}

fn say_recompile(attempt: &str) -> (out: String)
    ensures
        out@ == recompile(attempt@),
{
    let mut out: String = "attempt ".to_owned();
    out.append(attempt);
    out.append("/4 failed to compile, asking the model to fix it...");
    out
}

pub open spec fn task_gave_up(diagnostic: Seq<char>) -> Seq<char> {
    "gave up after 4 attempt(s) -- last diagnostic:\n"@ + diagnostic
}

fn say_task_gave_up(diagnostic: &str) -> (out: String)
    ensures
        out@ == task_gave_up(diagnostic@),
{
    let mut out: String = "gave up after 4 attempt(s) -- last diagnostic:\n".to_owned();
    out.append(diagnostic);
    out
}

pub open spec fn task_retry(diagnostic: Seq<char>, hint: Seq<char>) -> Seq<char> {
    "That failed to compile with this diagnostic:\n"@
        + diagnostic
        + "\nFix it and reply with the corrected, complete `.nir` source only."@
        + hint
}

fn say_task_retry(diagnostic: &str, hint: &str) -> (out: String)
    ensures
        out@ == task_retry(diagnostic@, hint@),
{
    let mut out: String = "That failed to compile with this diagnostic:\n".to_owned();
    out.append(diagnostic);
    out.append("\nFix it and reply with the corrected, complete `.nir` source only.");
    out.append(hint);
    out
}

/// What the log says of a program that compiled.
pub fn task_compiled(attempt: u32) -> (out: String)
    ensures
        out@ == compiled(decimal(attempt as nat)),
{
    say_compiled(decimal_text(attempt as u64).as_str())
}

/// What follows a program that did not compile: the log of another try, or the
/// end of the run with the fourth.
pub fn task_failed(attempt: u32, diagnostic: &str) -> (out: Result<String, String>)
    ensures
        match out {
            Ok(log) => attempt != MAX_SELF_REPAIR_ATTEMPTS && log@ == recompile(
                decimal(attempt as nat),
            ),
            Err(e) => attempt == MAX_SELF_REPAIR_ATTEMPTS && e@ == task_gave_up(diagnostic@),
        },
{
    if attempt == MAX_SELF_REPAIR_ATTEMPTS {
        Err(say_task_gave_up(diagnostic))
    } else {
        Ok(say_recompile(decimal_text(attempt as u64).as_str()))
    }
}

/// What a model is told of a program that did not compile.
pub fn task_retry_message(diagnostic: &str, hint: &str) -> (out: String)
    ensures
        out@ == task_retry(diagnostic@, hint@),
{
    say_task_retry(diagnostic, hint)
}

pub open spec fn guided(prompt: Seq<char>, guidance: Seq<char>) -> Seq<char> {
    prompt + "\n\n"@ + guidance
}

fn say_guided(prompt: &str, guidance: &str) -> (out: String)
    ensures
        out@ == guided(prompt@, guidance@),
{
    let mut out: String = prompt.to_owned();
    out.append("\n\n");
    out.append(guidance);
    out
}

pub open spec fn guidance_log(guidance: Seq<char>) -> Seq<char> {
    "proactive runtime-lesson guidance applied (hint_cache::RuntimeLessons): "@ + guidance
}

fn say_guidance_log(guidance: &str) -> (out: String)
    ensures
        out@ == guidance_log(guidance@),
{
    let mut out: String = "proactive runtime-lesson guidance applied (hint_cache::RuntimeLessons): ".to_owned();
    out.append(guidance);
    out
}

/// A task with the lessons of earlier runs behind it, and what the log says of
/// them.
pub fn with_guidance(prompt: &str, guidance: &Option<String>) -> (out: (String, Option<String>))
    ensures
        match *guidance {
            Some(text) => {
                &&& out.0@ == guided(prompt@, text@)
                &&& out.1 is Some
                &&& out.1->Some_0@ == guidance_log(text@)
            },
            None => out.0@ == prompt@ && out.1 is None,
        },
{
    match guidance {
        Some(text) => (say_guided(prompt, text.as_str()), Some(say_guidance_log(text.as_str()))),
        None => (prompt.to_owned(), None),
    }
}

pub open spec fn unreachable(error: Seq<char>) -> Seq<char> {
    "couldn't reach the model: "@ + error
}

fn say_unreachable(error: &str) -> (out: String)
    ensures
        out@ == unreachable(error@),
{
    let mut out: String = "couldn't reach the model: ".to_owned();
    out.append(error);
    out
}

/// What to say where the model cannot be reached.
pub fn not_reached(error: &str) -> (out: String)
    ensures
        out@ == unreachable(error@),
{
    say_unreachable(error)
}

/// The checks of a draft, in order.
#[derive(Clone, Copy, Debug, PartialEq, Eq, Structural)]
pub enum DraftCheck {
    /// It declares every unit of the design.
    Graph,
    /// It builds, and its contracts are well-formed.
    Build,
    /// The mandatory functions of the project are known.
    Mandatory,
    /// It calls every mandatory function.
    Calls,
    /// The protected structs of the project are known.
    Protected,
    /// It writes out protected structs in mandatory functions only.
    Constructs,
}

/// What a draft is checked for next.
pub open spec fn next_check(check: DraftCheck) -> Option<DraftCheck> {
    match check {
        DraftCheck::Graph => Some(DraftCheck::Build),
        DraftCheck::Build => Some(DraftCheck::Mandatory),
        DraftCheck::Mandatory => Some(DraftCheck::Calls),
        DraftCheck::Calls => Some(DraftCheck::Protected),
        DraftCheck::Protected => Some(DraftCheck::Constructs),
        DraftCheck::Constructs => None,
    }
}

/// What a failed check says, and of which class the failure is.
pub struct DraftFault {
    pub text: String,
    pub class: Option<CoverageFailureClass>,
}

/// What becomes of a draft.
pub enum DraftStep {
    Run(DraftCheck),
    Accepted,
    Rejected(DraftFault),
}

pub enum DraftView {
    Run(DraftCheck),
    Accepted,
    Rejected(Seq<char>, Option<CoverageFailureClass>),
}

impl View for DraftStep {
    type V = DraftView;

    open spec fn view(&self) -> DraftView {
        match *self {
            DraftStep::Run(check) => DraftView::Run(check),
            DraftStep::Accepted => DraftView::Accepted,
            DraftStep::Rejected(f) => DraftView::Rejected(f.text@, f.class),
        }
    }
}

/// What is said of a failed check.
pub open spec fn fault_text(check: DraftCheck, text: Seq<char>) -> Seq<char> {
    match check {
        DraftCheck::Mandatory => "could not determine this project's mandatory primitives: "@
            + text,
        DraftCheck::Protected => "could not determine this project's protected structs: "@ + text,
        _ => text,
    }
}

/// What becomes of a draft after a check: the first that fails rejects it, and
/// one that passes them all is accepted.
pub open spec fn draft_step(check: DraftCheck, outcome: Result<(), DraftFault>) -> DraftView {
    match outcome {
        Err(f) => DraftView::Rejected(fault_text(check, f.text@), f.class),
        Ok(_) => match next_check(check) {
            Some(next) => DraftView::Run(next),
            None => DraftView::Accepted,
        },
    }
}

/// The check that comes first: a program that builds is no draft of a project
/// whose screens it lacks.
pub fn first_check() -> (out: DraftCheck)
    ensures
        out == DraftCheck::Graph,
{
    DraftCheck::Graph
}

/// What becomes of a draft after a check.
pub fn after_check(check: DraftCheck, outcome: Result<(), DraftFault>) -> (out: DraftStep)
    ensures
        out@ == draft_step(check, outcome),
{
    match outcome {
        Err(f) => {
            let mut text: String = match check {
                DraftCheck::Mandatory => {
                    "could not determine this project's mandatory primitives: ".to_owned()
                },
                DraftCheck::Protected => {
                    "could not determine this project's protected structs: ".to_owned()
                },
                _ => String::new(),
            };
            text.append(f.text.as_str());
            assert(text@ =~= fault_text(check, f.text@));
            DraftStep::Rejected(DraftFault { text, class: f.class })
        },
        Ok(_) => match check {
            DraftCheck::Graph => DraftStep::Run(DraftCheck::Build),
            DraftCheck::Build => DraftStep::Run(DraftCheck::Mandatory),
            DraftCheck::Mandatory => DraftStep::Run(DraftCheck::Calls),
            DraftCheck::Calls => DraftStep::Run(DraftCheck::Protected),
            DraftCheck::Protected => DraftStep::Run(DraftCheck::Constructs),
            DraftCheck::Constructs => DraftStep::Accepted,
        },
    }
}

/// What becomes of a draft whose checks, from one of them on, end as `outcomes`
/// says of each.
pub open spec fn judged(
    check: DraftCheck,
    outcomes: spec_fn(DraftCheck) -> Result<(), DraftFault>,
    steps: nat,
) -> DraftView
    decreases steps,
{
    match draft_step(check, outcomes(check)) {
        DraftView::Run(next) => if steps == 0 {
            DraftView::Run(next)
        } else {
            judged(next, outcomes, (steps - 1) as nat)
        },
        end => end,
    }
}

/// A draft is accepted after exactly those checks that it passes all of.
pub proof fn law_an_accepted_draft_passed_every_check(
    outcomes: spec_fn(DraftCheck) -> Result<(), DraftFault>,
)
    ensures
        judged(DraftCheck::Graph, outcomes, 5) == DraftView::Accepted <==> {
            &&& outcomes(DraftCheck::Graph) is Ok
            &&& outcomes(DraftCheck::Build) is Ok
            &&& outcomes(DraftCheck::Mandatory) is Ok
            &&& outcomes(DraftCheck::Calls) is Ok
            &&& outcomes(DraftCheck::Protected) is Ok
            &&& outcomes(DraftCheck::Constructs) is Ok
        },
        judged(DraftCheck::Graph, outcomes, 5) !is Run,
{
    reveal_with_fuel(judged, 6);
}

/// What a failure costs and what it leads to. A proof that ran out of fuel is
/// forgiven once; the second time the operator is asked. Of the others the one
/// that uses up the last repair ends the run.
pub proof fn law_what_a_failure_leads_to(
    budget: int,
    simplifications: int,
    class: CoverageFailureClass,
)
    requires
        budget >= 0,
        simplifications >= 0,
    ensures
        class == CoverageFailureClass::EngineLimit ==> {
            &&& charged(budget, simplifications, class).0 == budget
            &&& charged(budget, simplifications, class).1 == simplifications + 1
            &&& charged(budget, simplifications, class).2 == if simplifications == 0 {
                BudgetCharge::Continue
            } else {
                BudgetCharge::StopEscalate
            }
        },
        class != CoverageFailureClass::EngineLimit ==> {
            &&& charged(budget, simplifications, class).0 == if budget == 0 {
                0
            } else {
                budget - 1
            }
            &&& charged(budget, simplifications, class).1 == simplifications
            &&& charged(budget, simplifications, class).2 == if budget > 1 {
                BudgetCharge::Continue
            } else {
                BudgetCharge::StopGiveUp
            }
        },
{
}

/// A run that starts with four repairs ends with the fourth fault, and not
/// before.
pub proof fn law_the_fourth_fault_ends_a_run(
    a: CoverageFailureClass,
    b: CoverageFailureClass,
    c: CoverageFailureClass,
    d: CoverageFailureClass,
)
    requires
        !(a is EngineLimit),
        !(b is EngineLimit),
        !(c is EngineLimit),
        !(d is EngineLimit),
    ensures
        ({
            let first = charged(4, 0, a);
            let second = charged(first.0, first.1, b);
            let third = charged(second.0, second.1, c);
            let fourth = charged(third.0, third.1, d);
            &&& first.2 is Continue
            &&& second.2 is Continue
            &&& third.2 is Continue
            &&& fourth.2 is StopGiveUp
        }),
{
}

/// A failure without a class of its own is a contract that does not hold.
pub proof fn law_class_of_a_failure(class: CoverageFailureClass)
    ensures
        class_or_violated(Some(class)) == class,
        class_or_violated(None) == CoverageFailureClass::ContractViolated,
{
}

/// The texts of a run tell the attempt that they speak of, and what is handed
/// to them.
pub proof fn law_what_a_run_tells(a: Seq<char>, b: Seq<char>, c: Seq<char>)
    ensures
        wrote(a, b) == "wrote "@ + a + " (attempt "@ + b + "/4)"@,
        not_persisted(a, b) == "warning: could not persist attempt "@ + a + "'s draft: "@ + b,
        asking_again(a) == "attempt "@ + a
            + "/4 failed the checks, asking the model to fix it..."@,
        draft_kept(a) == " (draft kept at .nir/generated/attempts/attempt_"@ + a + ".nir)"@,
        gave_up(a, b, c) == "gave up after "@ + a + " attempt(s) -- "@ + b
            + ". Last diagnostic:\n"@ + c,
        retry_text(a, b) == "That attempt failed with this diagnostic:\n"@ + a
            + "\nFix it and reply with the corrected, complete `.nir` source only."@ + b,
        compiled(a) == "compiled on attempt "@ + a + "/4"@,
        recompile(a) == "attempt "@ + a
            + "/4 failed to compile, asking the model to fix it..."@,
        task_gave_up(a) == "gave up after 4 attempt(s) -- last diagnostic:\n"@ + a,
        task_retry(a, b) == "That failed to compile with this diagnostic:\n"@ + a
            + "\nFix it and reply with the corrected, complete `.nir` source only."@ + b,
        guided(a, b) == a + "\n\n"@ + b,
        guidance_log(a)
            == "proactive runtime-lesson guidance applied (hint_cache::RuntimeLessons): "@ + a,
        unreachable(a) == "couldn't reach the model: "@ + a,
{
}

/// A draft is checked for its graph, its build, the mandatory primitives, their
/// calls, the protected structs and how they are made, in this order, and the
/// first check that fails rejects it, with the class of that failure. Of a list
/// of primitives or structs that cannot be had, that is said.
pub proof fn law_the_first_failed_check_rejects(
    outcomes: spec_fn(DraftCheck) -> Result<(), DraftFault>,
    k: int,
)
    requires
        0 <= k < 6,
    ensures
        ({
            let order = seq![
                DraftCheck::Graph,
                DraftCheck::Build,
                DraftCheck::Mandatory,
                DraftCheck::Calls,
                DraftCheck::Protected,
                DraftCheck::Constructs,
            ];
            let fault = outcomes(order[k])->Err_0;
            outcomes(order[k]) is Err && (forall|i: int|
                0 <= i < k ==> outcomes(#[trigger] order[i]) is Ok) ==> judged(
                DraftCheck::Graph,
                outcomes,
                5,
            ) == DraftView::Rejected(
                if order[k] == DraftCheck::Mandatory {
                    "could not determine this project's mandatory primitives: "@ + fault.text@
                } else if order[k] == DraftCheck::Protected {
                    "could not determine this project's protected structs: "@ + fault.text@
                } else {
                    fault.text@
                },
                fault.class,
            )
        }),
{
    let order = seq![
        DraftCheck::Graph,
        DraftCheck::Build,
        DraftCheck::Mandatory,
        DraftCheck::Calls,
        DraftCheck::Protected,
        DraftCheck::Constructs,
    ];
    reveal_with_fuel(judged, 6);
    if forall|i: int| 0 <= i < k ==> outcomes(#[trigger] order[i]) is Ok {
        assert(k > 0 ==> outcomes(order[0]) is Ok);
        assert(k > 1 ==> outcomes(order[1]) is Ok);
        assert(k > 2 ==> outcomes(order[2]) is Ok);
        assert(k > 3 ==> outcomes(order[3]) is Ok);
        assert(k > 4 ==> outcomes(order[4]) is Ok);
    }
}

} // verus!

//! The outer convergence cycle: send a work instruction, run the
//! conversation to its end, and inspect the destination project. A turn that
//! mutated nothing stops the cycle for good; a mutated turn is followed by a
//! build check, whose diagnostics — if any — become the next instruction.
use vstd::prelude::*;

verus! {

use vstd::string::StringExecFns;

/// Where the cycle stands: awaiting a turn's end, awaiting a build check's
/// verdict, or stopped for good.
#[derive(Clone, Copy, PartialEq, Eq, Structural)]
pub enum ConvergencePhase {
    Working,
    Checking,
    Stopped,
}

/// What the driver reports back: a turn ended (and whether the destination
/// was mutated), or a build check ended (and whether it found diagnostics).
#[derive(Clone, Copy, PartialEq, Eq, Structural)]
pub enum ConvergenceEvent {
    TurnEnded(bool),
    CheckEnded(bool),
}

/// The cycle's transition relation. A turn without mutation stops the cycle;
/// a clean build check stops it; the stopped phase absorbs every event.
pub open spec fn next_phase(p: ConvergencePhase, ev: ConvergenceEvent) -> ConvergencePhase {
    match (p, ev) {
        (ConvergencePhase::Working, ConvergenceEvent::TurnEnded(mutated)) => if mutated {
            ConvergencePhase::Checking
        } else {
            ConvergencePhase::Stopped
        },
        (ConvergencePhase::Checking, ConvergenceEvent::CheckEnded(diagnosed)) => if diagnosed {
            ConvergencePhase::Working
        } else {
            ConvergencePhase::Stopped
        },
        (ConvergencePhase::Stopped, _) => ConvergencePhase::Stopped,
        (q, _) => q,
    }
}

/// The phase after a whole sequence of events.
pub open spec fn run_phases(p: ConvergencePhase, evs: Seq<ConvergenceEvent>) -> ConvergencePhase
    decreases evs.len(),
{
    if evs.len() == 0 {
        p
    } else {
        run_phases(next_phase(p, evs[0]), evs.drop_first())
    }
}

/// Once stopped, the cycle stays stopped under every further event.
pub proof fn lemma_stopped_is_final(evs: Seq<ConvergenceEvent>)
    ensures
        run_phases(ConvergencePhase::Stopped, evs) == ConvergencePhase::Stopped,
    decreases evs.len(),
{
    if evs.len() > 0 {
        lemma_stopped_is_final(evs.drop_first());
    }
}

/// A working turn that mutated nothing stops the cycle for good: whatever
/// events follow — even after earlier turns did mutate — the cycle never
/// returns to the working phase, so no further instruction is ever issued.
pub proof fn lemma_no_mutation_stops(rest: Seq<ConvergenceEvent>)
    ensures
        run_phases(
            next_phase(ConvergencePhase::Working, ConvergenceEvent::TurnEnded(false)),
            rest,
        ) == ConvergencePhase::Stopped,
{
    lemma_stopped_is_final(rest);
}

/// The instruction that opens the session, sent once before the cycle; no
/// mutation is expected from it.
pub fn analysis_instruction() -> (r: String)
    ensures
        r@
            == "Please analyze the project in the source directory, but don't make any changes at this point."@,
{
    "Please analyze the project in the source directory, but don't make any changes at this point.".to_owned()
}

/// The system prompt that frames the whole session.
pub fn system_prompt() -> (r: String)
    ensures
        r@
            == "You are a large language model that is capable of converting project source code to Rust source code. You have access to two project directories: the source project directory if read-only and contains the source files of the original project. The destination project directory is initially empty and should be populated with project files in Rust language. When you propose an action or a change to the source code, execute this action or change right away."@,
{
    "You are a large language model that is capable of converting project source code to Rust source code. You have access to two project directories: the source project directory if read-only and contains the source files of the original project. The destination project directory is initially empty and should be populated with project files in Rust language. When you propose an action or a change to the source code, execute this action or change right away.".to_owned()
}

/// The cycle itself: its phase and the instruction the next working turn
/// will send.
pub struct Convergence {
    phase: ConvergencePhase,
    instruction: String,
}

impl Convergence {
    pub closed spec fn spec_phase(&self) -> ConvergencePhase {
        self.phase
    }

    pub closed spec fn spec_instruction(&self) -> Seq<char> {
        self.instruction@
    }

    /// A fresh cycle: working, with the initial production instruction.
    pub fn new() -> (r: Convergence)
        ensures
            r.spec_phase() == ConvergencePhase::Working,
            r.spec_instruction()
                == "Now create Rust project in the destination project directory so that it matches the implementation in the source project directory."@,
    {
        Convergence {
            phase: ConvergencePhase::Working,
            instruction:
                "Now create Rust project in the destination project directory so that it matches the implementation in the source project directory.".to_owned(),
        }
    }

    /// The instruction the current working turn sends.
    pub fn instruction(&self) -> (r: &String)
        requires
            self.spec_phase() == ConvergencePhase::Working,
        ensures
            r@ == self.spec_instruction(),
    {
        &self.instruction
    }

    /// A working turn ended. Without a mutation the cycle stops for good;
    /// with one, the build check is owed, and the result says so.
    pub fn turn_ended(&mut self, mutated: bool) -> (check_owed: bool)
        requires
            old(self).spec_phase() == ConvergencePhase::Working,
        ensures
            final(self).spec_phase() == next_phase(
                old(self).spec_phase(),
                ConvergenceEvent::TurnEnded(mutated),
            ),
            check_owed == mutated,
            final(self).spec_instruction() == old(self).spec_instruction(),
    {
        if mutated {
            self.phase = ConvergencePhase::Checking;
        } else {
            self.phase = ConvergencePhase::Stopped;
        }
        mutated
    }

    /// The build check ended. No diagnostics stops the cycle (success);
    /// diagnostics become the next instruction, prefixed with the fixed
    /// correction request, and another working turn is owed.
    pub fn check_ended(&mut self, diagnostics: Option<String>) -> (more: bool)
        requires
            old(self).spec_phase() == ConvergencePhase::Checking,
        ensures
            final(self).spec_phase() == next_phase(
                old(self).spec_phase(),
                ConvergenceEvent::CheckEnded(diagnostics is Some),
            ),
            more == (diagnostics is Some),
            diagnostics matches Some(d) ==> final(self).spec_instruction()
                == "Apparently there are some problems with the code. Please correct them. Here is the `cargo check` output:\n"@
                + d@,
            diagnostics is None ==> final(self).spec_instruction() == old(
                self,
            ).spec_instruction(),
    {
        match diagnostics {
            Some(d) => {
                let mut m: String =
                    "Apparently there are some problems with the code. Please correct them. Here is the `cargo check` output:\n".to_owned();
                m.append(d.as_str());
                self.instruction = m;
                self.phase = ConvergencePhase::Working;
                true
            },
            None => {
                self.phase = ConvergencePhase::Stopped;
                false
            },
        }
    }
}

} // verus!

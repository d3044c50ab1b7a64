//! The machine together with the program that it runs.

use vstd::prelude::*;
use crate::env_vars::EnvVars;
use crate::flow_structure::{
    fulfils,
    instrs_of,
    Action,
    ActionView,
    ExecError,
    FloatBits,
    FloatRequest,
    FlowStructure,
    Instr,
};
use crate::semantics;
use crate::semantics::{Machine, Rest};

verus! {

/// How a run of the machine came to rest without a fault.
#[derive(Debug)]
pub enum Progress {
    /// The program has run to its end.
    Halted,
    /// The allowance of steps is used up; the run can be taken up again.
    Exhausted,
    /// The host is asked to act; the run can be taken up again afterwards.
    Host(Action),
}

/// The model of the outcome of a run.
pub open spec fn rest_of(outcome: Result<Progress, ExecError>) -> Rest {
    match outcome {
        Ok(Progress::Halted) => Rest::Halted,
        Ok(Progress::Exhausted) => Rest::Exhausted,
        Ok(Progress::Host(action)) => Rest::Host(action@),
        Err(e) => Rest::Fault(e),
    }
}

/// A machine and its program.
pub struct GeneralStructure {
    env: EnvVars,
    flow: Vec<FlowStructure>,
}

/// An instruction that moves the program counter changes nothing else.
proof fn lemma_only_jumps_move(m: Machine, instr: Instr)
    ensures
        semantics::execute(m, instr) matches Ok((next, action)) ==> next.pc == m.pc || (next
            == m.at(next.pc) && action == ActionView::Continue),
{
}

impl GeneralStructure {
    /// The state of the machine.
    pub closed spec fn machine(&self) -> Machine {
        self.env@
    }

    /// The program.
    pub closed spec fn program(&self) -> Seq<Instr> {
        instrs_of(self.flow@)
    }

    /// A fresh machine at the start of the given program.
    pub fn init(flow: Vec<FlowStructure>) -> (r: GeneralStructure)
        ensures
            r.program() == instrs_of(flow@),
            r.machine().regs == Seq::new(8, |i: int| crate::data_types::Value::Int32(0)),
            !r.machine().zf,
            r.machine().pc == 0,
    {
        GeneralStructure { env: EnvVars::init(), flow }
    }

    /// The state of the machine, for inspection.
    pub fn env(&self) -> (r: &EnvVars)
        ensures
            r@ == self.machine(),
    {
        &self.env
    }

    /// The program.
    pub fn flow(&self) -> (r: &Vec<FlowStructure>)
        ensures
            instrs_of(r@) == self.program(),
    {
        &self.flow
    }

    /// Whether the program has run to its end.
    pub fn is_halted(&self) -> (r: bool)
        ensures
            r == semantics::halted(self.machine(), self.program()),
    {
        let pc: i64 = self.env.program_counter();
        pc < 0 || pc as u64 >= self.flow.len() as u64
    }

    /// Executes the instruction under the program counter and moves on.
    fn step(&mut self) -> (r: Result<Action, ExecError>)
        requires
            !semantics::halted(old(self).machine(), old(self).program()),
        ensures
            final(self).program() == old(self).program(),
            fulfils(
                old(self).machine(),
                final(self).machine(),
                r,
                semantics::step(old(self).machine(), old(self).program()),
            ),
    {
        let at: i64 = self.env.program_counter();
        let ghost before = self.env@;
        assert(self.program().len() == self.flow.len());
        assert(0 <= at < self.flow.len());
        if at == i64::MAX {
            return Err(ExecError::JumpOutOfRange);
        }
        let ghost instr = self.flow@[at as int]@;
        assert(instr == self.program()[at as int]);
        proof {
            lemma_only_jumps_move(before, instr);
        }
        let action: Action = match self.env.execute_istr(&self.flow[at as usize]) {
            Ok(action) => action,
            Err(e) => {
                return Err(e);
            },
        };
        let reached: i64 = self.env.program_counter();
        if reached >= -1 && reached < i64::MAX && (reached + 1) as u64 <= self.flow.len() as u64 {
            self.env.set_program_counter(reached + 1);
            Ok(action)
        } else {
            self.env.set_program_counter(at);
            Err(ExecError::JumpOutOfRange)
        }
    }

    /// Runs the program for at most `fuel` steps, from where the machine
    /// stands. The run comes to rest when the program ends, when the host is
    /// asked to act, when an instruction is refused, which leaves the
    /// machine as it was before that instruction, or when the allowance is
    /// used up.
    pub fn run(&mut self, fuel: u64) -> (r: Result<Progress, ExecError>)
        ensures
            final(self).program() == old(self).program(),
            (final(self).machine(), rest_of(r)) == semantics::run(
                old(self).machine(),
                old(self).program(),
                fuel as nat,
            ),
    {
        let mut left: u64 = fuel;
        loop
            invariant
                self.program() == old(self).program(),
                semantics::run(self.machine(), self.program(), left as nat) == semantics::run(
                    old(self).machine(),
                    old(self).program(),
                    fuel as nat,
                ),
            decreases left,
        {
            if self.is_halted() {
                return Ok(Progress::Halted);
            }
            if left == 0 {
                return Ok(Progress::Exhausted);
            }
            match self.step() {
                Ok(Action::Continue) => {},
                Ok(action) => {
                    return Ok(Progress::Host(action));
                },
                Err(e) => {
                    return Err(e);
                },
            }
            left = left - 1;
        }
    }

    /// Takes the result of a floating-point operation that the machine had
    /// asked its host for.
    pub fn complete_float(&mut self, request: &FloatRequest, result: FloatBits)
        ensures
            final(self).program() == old(self).program(),
            final(self).machine() == semantics::complete(old(self).machine(), *request, result),
    {
        self.env.complete_float(request, result);
    }

    /// Replaces the program and runs the new one from its start, on the
    /// registers and the zero flag as they stand.
    pub fn next(&mut self, flow: Vec<FlowStructure>, fuel: u64) -> (r: Result<Progress, ExecError>)
        ensures
            final(self).program() == instrs_of(flow@),
            (final(self).machine(), rest_of(r)) == semantics::run(
                old(self).machine().at(0),
                instrs_of(flow@),
                fuel as nat,
            ),
    {
        self.env.set_program_counter(0);
        self.flow = flow;
        self.run(fuel)
    }
}

} // verus!

//! Per-tick engine instructions and the priority-based reducer that
//! merges the instructions returned by all control subsystems into a
//! single authoritative one.

use vstd::prelude::*;

verus! {

/// Payload of a `Run` instruction: whether the system dispatcher
/// should run this tick.
#[derive(Clone, Copy, PartialEq, Eq, Structural, Debug)]
pub struct RunData {
    pub run_dispatcher: bool,
}

/// A subsystem's decision for one tick. Each variant carries a
/// priority used to resolve conflicts between subsystems.
#[derive(Clone, Copy, PartialEq, Eq, Structural, Debug)]
pub enum EngineInstruction {
    Run(RunData, u32),
    Pause(u32),
    Restart(u32),
}

impl EngineInstruction {
    /// The priority carried by any variant.
    pub open spec fn spec_priority(self) -> u32 {
        match self {
            EngineInstruction::Run(_, p) => p,
            EngineInstruction::Pause(p) => p,
            EngineInstruction::Restart(p) => p,
        }
    }

    /// Whether this instruction lets the dispatcher run this tick.
    /// `Pause` and `Restart` never dispatch.
    pub open spec fn spec_dispatches(self) -> bool {
        match self {
            EngineInstruction::Run(data, _) => data.run_dispatcher,
            EngineInstruction::Pause(_) => false,
            EngineInstruction::Restart(_) => false,
        }
    }

    /// Combining two instructions keeps the one with the higher
    /// priority; on a tie the left (earlier) operand wins.
    pub open spec fn spec_mul(self, rhs: EngineInstruction) -> EngineInstruction {
        if self.spec_priority() >= rhs.spec_priority() {
            self
        } else {
            rhs
        }
    }

    pub fn priority(&self) -> (p: u32)
        ensures
            p == self.spec_priority(),
    {
        match self {
            EngineInstruction::Run(_, p) => *p,
            EngineInstruction::Pause(p) => *p,
            EngineInstruction::Restart(p) => *p,
        }
    }

    pub fn dispatches(&self) -> (b: bool)
        ensures
            b == self.spec_dispatches(),
    {
        match self {
            EngineInstruction::Run(data, _) => data.run_dispatcher,
            EngineInstruction::Pause(_) => false,
            EngineInstruction::Restart(_) => false,
        }
    }

    /// Pairwise reduction: the operand with the higher priority wins,
    /// the left operand on a tie.
    pub fn mul(self, rhs: EngineInstruction) -> (r: EngineInstruction)
        ensures
            r == self.spec_mul(rhs),
    {
        let priority_1 = self.priority();
        let priority_2 = rhs.priority();
        if priority_1 >= priority_2 {
            self
        } else {
            rhs
        }
    }

    pub fn mul_assign(&mut self, rhs: EngineInstruction)
        ensures
            *final(self) == old(self).spec_mul(rhs),
    {
        *self = self.mul(rhs);
    }
}

/// The implicit baseline every tick's reduction starts from: run the
/// dispatcher, at the lowest priority.
pub open spec fn spec_baseline() -> EngineInstruction {
    EngineInstruction::Run(RunData { run_dispatcher: true }, 0)
}

pub fn baseline_instruction() -> (r: EngineInstruction)
    ensures
        r == spec_baseline(),
{
    EngineInstruction::Run(RunData { run_dispatcher: true }, 0)
}

/// Left fold of `spec_mul` over a sequence of instructions, starting
/// from the baseline.
pub open spec fn spec_reduce(s: Seq<EngineInstruction>) -> EngineInstruction
    decreases s.len(),
{
    if s.len() == 0 {
        spec_baseline()
    } else {
        spec_reduce(s.drop_last()).spec_mul(s.last())
    }
}

/// Deterministic reduction of one tick's instructions: a left fold of
/// the pairwise rule over the instructions in subsystem order.
pub fn reduce_instructions(instructions: &Vec<EngineInstruction>) -> (r: EngineInstruction)
    ensures
        r == spec_reduce(instructions@),
{
    let mut acc = baseline_instruction();
    let mut i: usize = 0;
    while i < instructions.len()
        invariant
            i <= instructions.len(),
            acc == spec_reduce(instructions@.subrange(0, i as int)),
        decreases instructions.len() - i,
    {
        acc = acc.mul(instructions[i]);
        i = i + 1;
        proof {
            let prefix = instructions@.subrange(0, i as int);
            assert(prefix.drop_last() =~= instructions@.subrange(0, i - 1));
        }
    }
    proof {
        assert(instructions@.subrange(0, instructions@.len() as int) =~= instructions@);
    }
    acc
}

/// The reduction keeps an operand of the pair, never invents a new
/// instruction, and always keeps the one whose priority is maximal.
pub proof fn lemma_mul_keeps_max_priority(a: EngineInstruction, b: EngineInstruction)
    ensures
        a.spec_mul(b) == a || a.spec_mul(b) == b,
        a.spec_mul(b).spec_priority() >= a.spec_priority(),
        a.spec_mul(b).spec_priority() >= b.spec_priority(),
{
}

/// The pairwise rule is associative, so reducing a tick's instructions
/// in one fold is well defined; and it is commutative in result
/// whenever the priorities differ, the tie being broken towards the
/// earlier operand.
pub proof fn lemma_mul_associative(a: EngineInstruction, b: EngineInstruction, c: EngineInstruction)
    ensures
        a.spec_mul(b).spec_mul(c) == a.spec_mul(b.spec_mul(c)),
        a.spec_priority() != b.spec_priority() ==> a.spec_mul(b) == b.spec_mul(a),
{
}

} // verus!

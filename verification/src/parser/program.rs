//! The program that a successful parse yields.
use vstd::prelude::*;

use crate::parser::version::LolCodeVersion;
use crate::text::clone_strings;

verus! {

/// A statement of a program.
#[derive(Debug, PartialEq, Eq)]
pub enum Instruction {
    /// Prints its arguments one after the other, then ends the line.
    Visible { args: Vec<String> },
}

/// The mathematical model of an [`Instruction`].
pub enum InstructionView {
    Visible { args: Seq<Seq<char>> },
}

impl DeepView for Instruction {
    type V = InstructionView;

    open spec fn deep_view(&self) -> InstructionView {
        match self {
            Instruction::Visible { args } => InstructionView::Visible { args: args.deep_view() },
        }
    }
}

impl View for Instruction {
    type V = InstructionView;

    open spec fn view(&self) -> InstructionView {
        self.deep_view()
    }
}

impl Clone for Instruction {
    fn clone(&self) -> (copy: Instruction)
        ensures
            copy@ == self@,
    {
        match self {
            Instruction::Visible { args } => Instruction::Visible { args: clone_strings(args) },
        }
    }
}

/// A copy of `instrs`, statement for statement.
pub fn clone_instructions(instrs: &Vec<Instruction>) -> (copy: Vec<Instruction>)
    ensures
        copy.deep_view() == instrs.deep_view(),
{
    let mut copy: Vec<Instruction> = Vec::new();
    let mut i: usize = 0;
    while i < instrs.len()
        invariant
            i <= instrs.len(),
            copy.len() == i,
            forall|j: int| 0 <= j < i ==> copy[j]@ == instrs[j]@,
        decreases instrs.len() - i,
    {
        copy.push(instrs[i].clone());
        i += 1;
    }
    assert(copy.deep_view() =~= instrs.deep_view());
    copy
}

/// A complete program: its declared version and its statements in source
/// order.
#[derive(Debug, PartialEq, Eq)]
pub struct LolCodeProgram {
    pub version: LolCodeVersion,
    pub instrs: Vec<Instruction>,
}

/// The mathematical model of a [`LolCodeProgram`].
pub struct LolCodeProgramView {
    pub version: LolCodeVersion,
    pub instrs: Seq<InstructionView>,
}

impl DeepView for LolCodeProgram {
    type V = LolCodeProgramView;

    open spec fn deep_view(&self) -> LolCodeProgramView {
        LolCodeProgramView { version: self.version, instrs: self.instrs.deep_view() }
    }
}

impl View for LolCodeProgram {
    type V = LolCodeProgramView;

    open spec fn view(&self) -> LolCodeProgramView {
        self.deep_view()
    }
}

impl Clone for LolCodeProgram {
    fn clone(&self) -> (copy: LolCodeProgram)
        ensures
            copy@ == self@,
    {
        LolCodeProgram { version: self.version, instrs: clone_instructions(&self.instrs) }
    }
}

} // verus!

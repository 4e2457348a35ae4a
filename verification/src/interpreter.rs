//! What a program prints when it is run.
use vstd::prelude::*;
use vstd::string::*;

use crate::parser::program::{Instruction, InstructionView, LolCodeProgram};

verus! {

/// The texts of `texts`, one after the other.
pub open spec fn joined(texts: Seq<Seq<char>>) -> Seq<char>
    decreases texts.len(),
{
    if texts.len() == 0 {
        Seq::empty()
    } else {
        joined(texts.drop_last()) + texts.last()
    }
}

/// What one statement prints: a print statement prints its arguments in
/// order, with nothing between them, and ends the line.
pub open spec fn printed_by(instr: InstructionView) -> Seq<char> {
    match instr {
        InstructionView::Visible { args } => joined(args).push('\n'),
    }
}

/// What the statements `instrs` print, in source order.
pub open spec fn output_of(instrs: Seq<InstructionView>) -> Seq<char>
    decreases instrs.len(),
{
    if instrs.len() == 0 {
        Seq::empty()
    } else {
        output_of(instrs.drop_last()) + printed_by(instrs.last())
    }
}

/// Appends to `out` what `instr` prints.
fn print_instruction(out: &mut String, instr: &Instruction)
    ensures
        final(out)@ == old(out)@ + printed_by(instr@),
{
    let ghost start = out@;
    match instr {
        Instruction::Visible { args } => {
            let ghost texts = args.deep_view();
            let mut i: usize = 0;
            assert(texts.take(0) =~= Seq::<Seq<char>>::empty());
            assert(out@ =~= start + joined(texts.take(0)));
            while i < args.len()
                invariant
                    i <= args.len(),
                    texts == args.deep_view(),
                    out@ == start + joined(texts.take(i as int)),
                decreases args.len() - i,
            {
                assert(texts.take(i + 1).drop_last() =~= texts.take(i as int));
                assert(texts.take(i + 1).last() == args[i as int]@);
                out.append(args[i].as_str());
                assert(out@ =~= start + joined(texts.take(i + 1)));
                i += 1;
            }
            assert(texts.take(i as int) =~= texts);
            proof {
                reveal_strlit("\n");
            }
            out.append("\n");
            assert(out@ =~= start + joined(texts).push('\n'));
        },
    }
}

/// The text that running `prog` prints: what each of its statements
/// prints, in source order.
pub fn program_output(prog: &LolCodeProgram) -> (out: String)
    ensures
        out@ == output_of(prog@.instrs),
{
    let mut out = String::new();
    let ghost instrs = prog@.instrs;
    let mut i: usize = 0;
    assert(instrs.take(0) =~= Seq::<InstructionView>::empty());
    while i < prog.instrs.len()
        invariant
            i <= prog.instrs.len(),
            instrs == prog.instrs.deep_view(),
            out@ == output_of(instrs.take(i as int)),
        decreases prog.instrs.len() - i,
    {
        assert(instrs.take(i + 1).drop_last() =~= instrs.take(i as int));
        assert(instrs.take(i + 1).last() == prog.instrs[i as int]@);
        print_instruction(&mut out, &prog.instrs[i]);
        i += 1;
    }
    assert(instrs.take(i as int) =~= instrs);
    out
}

} // verus!

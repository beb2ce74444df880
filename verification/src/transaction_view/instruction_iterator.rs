//! A walk over the instructions of a decoded transaction message.
use crate::external::{decimal_digits, decimal_string};
use crate::message::{InstructionModel, TransactionMessage};
use vstd::prelude::*;
use vstd::string::StringExecFns;

verus! {

/// An instruction that borrows its account indexes and data.
#[derive(Debug, Clone, Copy, PartialEq, Eq)]
pub struct SVMInstruction<'a> {
    /// Index into the transaction keys array indicating the program account
    /// that executes this instruction.
    pub program_id_index: u8,
    /// Ordered indices into the transaction keys array indicating which
    /// accounts to pass to the program.
    pub accounts: &'a [u8],
    /// The program input data.
    pub data: &'a [u8],
}

/// Whether a borrowed instruction holds what `model` describes.
pub open spec fn holds_instruction(ins: SVMInstruction, model: InstructionModel) -> bool {
    &&& ins.program_id_index == model.program_id_index
    &&& ins.accounts@ == model.accounts
    &&& ins.data@ == model.data
}

/// Instruction iterator over a decoded message.
#[derive(Clone, Copy)]
pub enum UnifiedInstructionsIter<'a> {
    V1 { message: &'a TransactionMessage, index: usize },
}

impl<'a> UnifiedInstructionsIter<'a> {
    /// The iterator at the first instruction of `message`.
    pub fn new(message: &'a TransactionMessage) -> (r: Self)
        ensures
            r.message() == message,
            r.index() == 0,
    {
        UnifiedInstructionsIter::V1 { message, index: 0 }
    }

    /// The message walked over.
    pub open spec fn message(&self) -> &'a TransactionMessage {
        match *self {
            UnifiedInstructionsIter::V1 { message, index } => message,
        }
    }

    /// The position of the next instruction.
    pub open spec fn index(&self) -> usize {
        match *self {
            UnifiedInstructionsIter::V1 { message, index } => index,
        }
    }

    /// The instructions not yet yielded.
    pub open spec fn remaining(&self) -> Seq<InstructionModel> {
        let all = self.message()@.instructions;
        if self.index() < all.len() {
            all.skip(self.index() as int)
        } else {
            Seq::empty()
        }
    }

    /// The iterator after one step: past the next instruction, or unchanged
    /// when none is left.
    pub open spec fn advanced(&self) -> Self {
        if self.remaining().len() > 0 {
            UnifiedInstructionsIter::V1 { message: self.message(), index: (self.index() + 1) as usize }
        } else {
            *self
        }
    }

    /// The iterator after `k` steps.
    pub open spec fn advanced_by(&self, k: nat) -> Self
        decreases k,
    {
        if k == 0 {
            *self
        } else {
            self.advanced_by((k - 1) as nat).advanced()
        }
    }

    /// The next instruction, if any, and moves past it.
    pub fn next(&mut self) -> (r: Option<SVMInstruction<'a>>)
        ensures
            old(self).remaining().len() > 0 ==> {
                &&& r matches Some(ins) && holds_instruction(ins, old(self).remaining()[0])
                &&& final(self).message() == old(self).message()
                &&& final(self).index() == old(self).index() + 1
                &&& final(self).remaining() == old(self).remaining().drop_first()
            },
            old(self).remaining().len() == 0 ==> r is None && *final(self) == *old(self),
            *final(self) == old(self).advanced(),
    {
        let UnifiedInstructionsIter::V1 { message, index } = *self;
        let instructions = message.instructions();
        if index >= instructions.len() {
            return None;
        }
        let ix = &instructions[index];
        *self = UnifiedInstructionsIter::V1 { message, index: index + 1 };
        proof {
            assert(instructions@.map_values(|ix: crate::message::CompiledInstruction| ix@)[index as int] == ix@);
            let all = message@.instructions;
            assert(all.skip(index + 1) =~= all.skip(index as int).drop_first());
            if index + 1 >= all.len() {
                assert(all.skip(index + 1) =~= Seq::<InstructionModel>::empty());
            }
        }
        Some(
            SVMInstruction {
                program_id_index: ix.program_id_index,
                accounts: ix.accounts.as_slice(),
                data: ix.data.as_slice(),
            },
        )
    }

    /// The number of instructions not yet yielded.
    pub fn len(&self) -> (r: usize)
        ensures
            r == self.remaining().len(),
    {
        let UnifiedInstructionsIter::V1 { message, index } = *self;
        message.instructions().len().saturating_sub(index)
    }

    /// The iterator's debug text, `V1 { remaining: n }`, where `n` is the
    /// number of instructions not yet yielded.
    pub fn debug_text(&self) -> (r: String)
        ensures
            r@ == "V1 { remaining: "@ + decimal_digits(self.remaining().len()) + " }"@,
    {
        let n = decimal_string(self.len());
        "V1 { remaining: ".to_owned().concat(n.as_str()).concat(" }")
    }

    /// Lower and upper bound on the number of instructions not yet yielded:
    /// both exact.
    pub fn size_hint(&self) -> (r: (usize, Option<usize>))
        ensures
            r.0 == self.remaining().len(),
            r.1 == Some(self.remaining().len() as usize),
    {
        let len = self.len();
        (len, Some(len))
    }
}

/// The whole walk over a message's instructions. From the first
/// instruction on, after `k` steps the iterator stands at position `k` with
/// the instructions from the `k`-th on still to come, so the `k`-th call of
/// `next` yields the `k`-th instruction; after as many steps as there are
/// instructions nothing is left, and every later call yields nothing. (A
/// message's instructions are held in memory, so they number at most
/// `usize::MAX`.)
pub proof fn lemma_instruction_walk(it: UnifiedInstructionsIter, k: nat)
    requires
        it.index() == 0,
        it.message()@.instructions.len() <= usize::MAX,
    ensures
        it.advanced_by(k).message() == it.message(),
        k <= it.message()@.instructions.len() ==> {
            &&& it.advanced_by(k).index() == k
            &&& it.advanced_by(k).remaining() == it.message()@.instructions.skip(k as int)
        },
        k < it.message()@.instructions.len() ==> {
            &&& it.advanced_by(k).remaining().len() > 0
            &&& it.advanced_by(k).remaining()[0] == it.message()@.instructions[k as int]
        },
        k >= it.message()@.instructions.len() ==> it.advanced_by(k).remaining().len() == 0,
    decreases k,
{
    let all = it.message()@.instructions;
    if k == 0 {
        if all.len() > 0 {
            assert(all.skip(0) =~= all);
        } else {
            assert(all.skip(0) =~= Seq::<InstructionModel>::empty());
        }
    } else {
        lemma_instruction_walk(it, (k - 1) as nat);
        let before = it.advanced_by((k - 1) as nat);
        let after = it.advanced_by(k);
        assert(after == before.advanced());
        if k <= all.len() {
            assert(before.remaining().len() > 0);
            assert(after.index() == k);
            assert(after.message() == it.message());
            if k == all.len() {
                assert(all.skip(k as int) =~= Seq::<InstructionModel>::empty());
            } else {
                assert(after.remaining() == all.skip(k as int));
                assert(all.skip(k as int)[0] == all[k as int]);
            }
        }
    }
}

} // verus!

//! Histories of counter operations.
//!
//! However many callers use the register at once, each operation on it is
//! indivisible, so what happened is always some sequence of operations in
//! the order they took effect. This module gives that sequence a meaning and
//! proves what callers rely on: increments are all counted, a reset hands
//! back exactly what was there, and none is lost or counted twice around a
//! reset.

use crate::counter::{max_value, successor, Counter};
use vstd::arithmetic::div_mod::{lemma_add_mod_noop, lemma_mod_self_0, lemma_small_mod};
use vstd::prelude::*;

verus! {

/// One operation on the register.
#[derive(Clone, Copy, PartialEq, Eq, Debug)]
pub enum Op {
    /// Add one.
    Increment,
    /// Look at the value.
    Read,
    /// Zero the value and hand back what it was.
    ResetAndTake,
}

/// The value the register holds once `op` has taken effect on `v`.
pub open spec fn value_after(v: nat, op: Op) -> nat {
    match op {
        Op::Increment => successor(v),
        Op::Read => v,
        Op::ResetAndTake => 0,
    }
}

/// What `op` hands back to its caller when it takes effect on `v`.
pub open spec fn returned(v: nat, op: Op) -> Option<nat> {
    match op {
        Op::Increment => None,
        Op::Read => Some(v),
        Op::ResetAndTake => Some(v),
    }
}

/// The value the register holds after `ops` took effect, in order, on `start`.
pub open spec fn run(start: nat, ops: Seq<Op>) -> nat
    decreases ops.len(),
{
    if ops.len() == 0 {
        start
    } else {
        value_after(run(start, ops.drop_last()), ops.last())
    }
}

/// How many increments `ops` holds.
pub open spec fn increments(ops: Seq<Op>) -> nat
    decreases ops.len(),
{
    if ops.len() == 0 {
        0
    } else {
        increments(ops.drop_last()) + if ops.last() == Op::Increment {
            1nat
        } else {
            0nat
        }
    }
}

/// The sum of what the resets in `ops` handed back, run from `start`.
pub open spec fn drained(start: nat, ops: Seq<Op>) -> nat
    decreases ops.len(),
{
    if ops.len() == 0 {
        0
    } else {
        drained(start, ops.drop_last()) + if ops.last() == Op::ResetAndTake {
            run(start, ops.drop_last())
        } else {
            0nat
        }
    }
}

/// Whether `ops` holds no reset.
pub open spec fn no_reset(ops: Seq<Op>) -> bool {
    forall|i: int| 0 <= i < ops.len() ==> ops[i] != Op::ResetAndTake
}

impl Counter {
    /// Lets `op` take effect on the register and hands back what it returns.
    pub fn perform(&mut self, op: Op) -> (result: Option<usize>)
        ensures
            final(self)@ == value_after(old(self)@, op),
            match result {
                Some(v) => returned(old(self)@, op) == Some(v as nat),
                None => returned(old(self)@, op) is None,
            },
    {
        match op {
            Op::Increment => {
                self.increment();
                None
            },
            Op::Read => Some(self.read()),
            Op::ResetAndTake => Some(self.reset_and_take()),
        }
    }
}

/// Running two histories back to back is running the second from where the
/// first ended, and their increments add up.
pub proof fn lemma_run_concat(start: nat, first: Seq<Op>, second: Seq<Op>)
    ensures
        run(start, first + second) == run(run(start, first), second),
        increments(first + second) == increments(first) + increments(second),
    decreases second.len(),
{
    if second.len() == 0 {
        assert(first + second =~= first);
    } else {
        lemma_run_concat(start, first, second.drop_last());
        assert((first + second).drop_last() =~= first + second.drop_last());
        assert((first + second).last() == second.last());
    }
}

/// Without a reset, the register holds its starting value plus the number of
/// increments, modulo the size of the register.
pub proof fn lemma_run_without_reset(start: nat, ops: Seq<Op>)
    requires
        start <= max_value(),
        no_reset(ops),
    ensures
        run(start, ops) == (start + increments(ops)) % (max_value() + 1),
    decreases ops.len(),
{
    let modulus = (max_value() + 1) as int;
    if ops.len() == 0 {
        lemma_small_mod(start, modulus as nat);
    } else {
        let init = ops.drop_last();
        assert(no_reset(init)) by {
            assert forall|i: int| 0 <= i < init.len() implies init[i] != Op::ResetAndTake by {
                assert(init[i] == ops[i]);
            }
        }
        lemma_run_without_reset(start, init);
        let total = (start + increments(init)) as int;
        let held = run(start, init);
        assert(ops.last() != Op::ResetAndTake);
        if ops.last() == Op::Increment {
            // successor(held) == (held + 1) % modulus, and held == total % modulus
            if held + 1 < modulus {
                lemma_small_mod(held + 1, modulus as nat);
            } else {
                lemma_mod_self_0(modulus);
            }
            lemma_small_mod(1, modulus as nat);
            lemma_add_mod_noop(total, 1, modulus);
        }
    }
}

/// All the increments of a busy spell are counted: on a fresh register, any
/// history without a reset leaves exactly the number of its increments, and a
/// read that follows returns that number. (A register holds at most
/// `usize::MAX`; past that many increments it wraps.)
pub proof fn lemma_increments_are_counted(ops: Seq<Op>)
    requires
        no_reset(ops),
        increments(ops) <= max_value(),
    ensures
        run(0, ops) == increments(ops),
        returned(run(0, ops), Op::Read) == Some(increments(ops)),
{
    lemma_run_without_reset(0, ops);
    lemma_small_mod(increments(ops), max_value() + 1);
}

/// A reset hands back the value held just before it and leaves zero, so a
/// read that comes right after it returns zero.
pub proof fn lemma_read_after_reset(v: nat)
    ensures
        returned(v, Op::ResetAndTake) == Some(v),
        value_after(v, Op::ResetAndTake) == 0,
        returned(value_after(v, Op::ResetAndTake), Op::Read) == Some(0nat),
{
}

/// Nothing is lost and nothing is counted twice, however many resets there
/// are: what the resets handed back plus what the register still holds is
/// the starting value plus the number of increments. (Stated for histories
/// that stay within the register's range.)
pub proof fn lemma_no_increment_lost(start: nat, ops: Seq<Op>)
    requires
        start + increments(ops) <= max_value(),
    ensures
        drained(start, ops) + run(start, ops) == start + increments(ops),
    decreases ops.len(),
{
    if ops.len() > 0 {
        lemma_no_increment_lost(start, ops.drop_last());
    }
}

/// Around a single reset every increment lands on exactly one side. Those
/// before it make up what the reset hands back; those after it make up what
/// the register holds from then on; together they are all the increments of
/// the history.
pub proof fn lemma_reset_boundary(start: nat, before: Seq<Op>, after: Seq<Op>)
    requires
        no_reset(before),
        no_reset(after),
        start + increments(before) <= max_value(),
        increments(after) <= max_value(),
    ensures
        returned(run(start, before), Op::ResetAndTake) == Some(start + increments(before)),
        run(start, before.push(Op::ResetAndTake) + after) == increments(after),
        increments(before.push(Op::ResetAndTake) + after) == increments(before) + increments(
            after,
        ),
{
    let upto = before.push(Op::ResetAndTake);
    lemma_run_without_reset(start, before);
    lemma_small_mod(start + increments(before), max_value() + 1);
    assert(upto.drop_last() =~= before);
    assert(run(start, upto) == 0);
    assert(increments(upto) == increments(before));
    lemma_run_concat(start, upto, after);
    lemma_run_without_reset(0, after);
    lemma_small_mod(increments(after), max_value() + 1);
}

/// When a reset finds the register empty, what it hands back plus the
/// increments that come after it is the value any later read returns. (A
/// reset that hands back more than zero takes that much out of every later
/// read; `lemma_reset_boundary` says where it went.)
pub proof fn lemma_read_after_empty_reset(start: nat, before: Seq<Op>, after: Seq<Op>)
    requires
        run(start, before) == 0,
        no_reset(after),
        increments(after) <= max_value(),
    ensures
        returned(run(start, before), Op::ResetAndTake) == Some(run(start, before)),
        returned(run(start, before.push(Op::ResetAndTake) + after), Op::Read) == Some(
            run(start, before) + increments(after),
        ),
{
    let upto = before.push(Op::ResetAndTake);
    assert(upto.drop_last() =~= before);
    lemma_run_concat(start, upto, after);
    lemma_run_without_reset(0, after);
    lemma_small_mod(increments(after), max_value() + 1);
}

} // verus!

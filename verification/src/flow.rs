//! The control flow of a code generation plan: every block of the entry
//! function is entered exactly once and ends with its only terminator, and
//! every branch goes to a block of the function.

use vstd::prelude::*;
use crate::emit::{
    call_spec, condition_spec, controlled_spec, emit_list_spec, emit_one_spec, initial_state, measure_spec,
    plan_spec, qubits_spec, registers_spec, releases_spec, rotated_spec, single_spec, EmitState, StepView,
};
use crate::model::{Instruction, QuantumRegister, SemanticModel};

verus! {

/// Whether a step ends a block: a branch or the return.
pub open spec fn is_terminator(s: StepView) -> bool {
    s is CondBr || s is Br || s is Ret
}

/// Whether a step enters a block.
pub open spec fn is_position(s: StepView) -> bool {
    s is PositionAt
}

/// The block that a step enters.
pub open spec fn entered_block(s: StepView) -> int {
    match s {
        StepView::PositionAt { block } => block as int,
        _ => -1,
    }
}

/// Whether the branches of a step go to blocks numbered from `lo` up to `hi`.
pub open spec fn targets_within(s: StepView, lo: int, hi: int) -> bool {
    match s {
        StepView::CondBr { cond: _, then_block, else_block } => lo <= then_block < hi && lo <= else_block < hi,
        StepView::Br { block } => lo <= block < hi,
        _ => true,
    }
}

/// Whether all branches of some steps go to blocks numbered from `lo` up to `hi`.
pub open spec fn targets_ok(d: Seq<StepView>, lo: int, hi: int) -> bool {
    forall|i: int| 0 <= i < d.len() ==> targets_within(#[trigger] d[i], lo, hi)
}

/// The blocks numbered from `lo` up to `hi`.
pub open spec fn range_set(lo: int, hi: int) -> Set<int> {
    Set::new(|b: int| lo <= b < hi)
}

/// Whether a step neither ends nor enters a block.
pub open spec fn is_plain(s: StepView) -> bool {
    !is_terminator(s) && !is_position(s)
}

/// Whether some steps neither end nor enter a block.
pub open spec fn plain(d: Seq<StepView>) -> bool {
    forall|i: int| 0 <= i < d.len() ==> is_plain(#[trigger] d[i])
}

/// A run of steps emitted into an open block: a terminator is always
/// followed by the entry into a block and an entry always follows a
/// terminator; the run neither starts by entering a block nor ends with a
/// terminator; it enters each block of `blocks` exactly once and no other.
pub open spec fn segment_ok(d: Seq<StepView>, blocks: Set<int>) -> bool {
    &&& forall|i: int| 0 <= i < d.len() - 1 && is_terminator(#[trigger] d[i]) ==> is_position(d[i + 1])
    &&& forall|j: int| 0 < j < d.len() && is_position(#[trigger] d[j]) ==> is_terminator(d[j - 1])
    &&& d.len() > 0 ==> !is_position(d[0]) && !is_terminator(d[d.len() - 1])
    &&& forall|i: int| 0 <= i < d.len() && is_position(#[trigger] d[i]) ==> blocks.contains(entered_block(d[i]))
    &&& forall|i: int, j: int|
        0 <= i < d.len() && 0 <= j < d.len() && i != j && is_position(#[trigger] d[i]) && is_position(#[trigger] d[j])
            ==> entered_block(d[i]) != entered_block(d[j])
    &&& forall|b: int| #[trigger] blocks.contains(b) ==> exists|i: int|
        0 <= i < d.len() && is_position(#[trigger] d[i]) && entered_block(d[i]) == b
}

/// Steps that neither end nor enter a block form a run that enters no block.
proof fn lemma_plain_segment(d: Seq<StepView>)
    requires
        plain(d),
    ensures
        segment_ok(d, Set::empty()),
{
    if d.len() > 0 {
        assert(is_plain(d[0]));
        assert(is_plain(d[d.len() - 1]));
    }
}

/// Two runs that enter disjoint blocks make a run that enters the blocks of both.
proof fn lemma_segment_concat(d1: Seq<StepView>, s1: Set<int>, d2: Seq<StepView>, s2: Set<int>)
    requires
        segment_ok(d1, s1),
        segment_ok(d2, s2),
        s1.disjoint(s2),
    ensures
        segment_ok(d1 + d2, s1.union(s2)),
{
    let d = d1 + d2;
    let n1 = d1.len() as int;
    assert forall|i: int| 0 <= i < d.len() - 1 && is_terminator(#[trigger] d[i]) implies is_position(d[i + 1]) by {
        if i < n1 - 1 {
            assert(d[i] == d1[i]);
            assert(d[i + 1] == d1[i + 1]);
        } else if i == n1 - 1 {
            assert(d[i] == d1[n1 - 1]);
        } else {
            assert(d[i] == d2[i - n1]);
            assert(d[i + 1] == d2[i - n1 + 1]);
        }
    }
    assert forall|j: int| 0 < j < d.len() && is_position(#[trigger] d[j]) implies is_terminator(d[j - 1]) by {
        if j < n1 {
            assert(d[j] == d1[j]);
            assert(d[j - 1] == d1[j - 1]);
        } else if j == n1 {
            assert(d[j] == d2[0]);
        } else {
            assert(d[j] == d2[j - n1]);
            assert(d[j - 1] == d2[j - n1 - 1]);
        }
    }
    if d.len() > 0 {
        if n1 > 0 {
            assert(d[0] == d1[0]);
        } else {
            assert(d[0] == d2[0]);
        }
        if d2.len() > 0 {
            assert(d[d.len() - 1] == d2[d2.len() - 1]);
        } else {
            assert(d[d.len() - 1] == d1[n1 - 1]);
        }
    }
    assert forall|i: int| 0 <= i < d.len() && is_position(#[trigger] d[i]) implies s1.union(s2).contains(
        entered_block(d[i]),
    ) by {
        if i < n1 {
            assert(d[i] == d1[i]);
        } else {
            assert(d[i] == d2[i - n1]);
        }
    }
    assert forall|i: int, j: int|
        0 <= i < d.len() && 0 <= j < d.len() && i != j && is_position(#[trigger] d[i]) && is_position(
            #[trigger] d[j],
        ) implies entered_block(d[i]) != entered_block(d[j]) by {
        if i < n1 && j < n1 {
            assert(d[i] == d1[i] && d[j] == d1[j]);
        } else if i >= n1 && j >= n1 {
            assert(d[i] == d2[i - n1] && d[j] == d2[j - n1]);
        } else if i < n1 {
            assert(d[i] == d1[i] && d[j] == d2[j - n1]);
            assert(s1.contains(entered_block(d1[i])));
            assert(s2.contains(entered_block(d2[j - n1])));
        } else {
            assert(d[i] == d2[i - n1] && d[j] == d1[j]);
            assert(s2.contains(entered_block(d2[i - n1])));
            assert(s1.contains(entered_block(d1[j])));
        }
    }
    assert forall|b: int| #[trigger] s1.union(s2).contains(b) implies exists|i: int|
        0 <= i < d.len() && is_position(#[trigger] d[i]) && entered_block(d[i]) == b by {
        if s1.contains(b) {
            let i = choose|i: int| 0 <= i < d1.len() && is_position(#[trigger] d1[i]) && entered_block(d1[i]) == b;
            assert(d[i] == d1[i]);
        } else {
            assert(s2.contains(b));
            let i = choose|i: int| 0 <= i < d2.len() && is_position(#[trigger] d2[i]) && entered_block(d2[i]) == b;
            assert(d[i + n1] == d2[i]);
        }
    }
}

/// Branch targets stay within a range when two runs are joined, and within
/// any wider range.
proof fn lemma_targets_concat(d1: Seq<StepView>, d2: Seq<StepView>, lo: int, hi: int)
    requires
        targets_ok(d1, lo, hi),
        targets_ok(d2, lo, hi),
    ensures
        targets_ok(d1 + d2, lo, hi),
{
    let d = d1 + d2;
    assert forall|i: int| 0 <= i < d.len() implies targets_within(#[trigger] d[i], lo, hi) by {
        if i < d1.len() {
            assert(d[i] == d1[i]);
        } else {
            assert(d[i] == d2[i - d1.len()]);
        }
    }
}

/// Branch targets within a range are within any wider range.
proof fn lemma_targets_widen(d: Seq<StepView>, lo: int, hi: int, lo2: int, hi2: int)
    requires
        targets_ok(d, lo, hi),
        lo2 <= lo,
        hi <= hi2,
    ensures
        targets_ok(d, lo2, hi2),
{
    assert forall|i: int| 0 <= i < d.len() implies targets_within(#[trigger] d[i], lo2, hi2) by {
        assert(targets_within(d[i], lo, hi));
    }
}

/// What emitting instructions does to the steps and blocks: the steps grow
/// by a run that enters exactly the blocks appended meanwhile, and branches
/// only to those blocks.
pub open spec fn grows(st: EmitState, st2: EmitState) -> bool {
    &&& st.steps.len() <= st2.steps.len()
    &&& st2.steps.take(st.steps.len() as int) == st.steps
    &&& st.blocks.len() <= st2.blocks.len()
    &&& segment_ok(st2.steps.skip(st.steps.len() as int), range_set(st.blocks.len() as int, st2.blocks.len() as int))
    &&& targets_ok(st2.steps.skip(st.steps.len() as int), st.blocks.len() as int, st2.blocks.len() as int)
}

/// Adding steps that neither end nor enter a block, and no block, is growth.
proof fn lemma_plain_growth(st: EmitState, st2: EmitState)
    requires
        st.steps.len() <= st2.steps.len(),
        st2.steps.take(st.steps.len() as int) == st.steps,
        plain(st2.steps.skip(st.steps.len() as int)),
        st2.blocks.len() == st.blocks.len(),
    ensures
        grows(st, st2),
{
    let d = st2.steps.skip(st.steps.len() as int);
    lemma_plain_segment(d);
    assert(range_set(st.blocks.len() as int, st2.blocks.len() as int) =~= Set::<int>::empty());
    assert forall|i: int| 0 <= i < d.len() implies targets_within(#[trigger] d[i], st.blocks.len() as int, st2.blocks.len() as int) by {
        assert(is_plain(d[i]));
    }
}

/// Growth composes.
proof fn lemma_grows_trans(a: EmitState, b: EmitState, c: EmitState)
    requires
        grows(a, b),
        grows(b, c),
    ensures
        grows(a, c),
{
    let na = a.steps.len() as int;
    let nb = b.steps.len() as int;
    let ba = a.blocks.len() as int;
    let bb = b.blocks.len() as int;
    let bc = c.blocks.len() as int;
    assert(c.steps.take(na) =~= b.steps.take(na)) by {
        assert forall|i: int| 0 <= i < na implies c.steps[i] == b.steps[i] by {
            assert(c.steps.take(nb)[i] == b.steps[i]);
        }
    }
    let d1 = b.steps.skip(na);
    let d2 = c.steps.skip(nb);
    assert(c.steps.skip(na) =~= d1 + d2) by {
        assert forall|i: int| 0 <= i < c.steps.len() - na implies c.steps.skip(na)[i] == (d1 + d2)[i] by {
            if i < nb - na {
                assert(c.steps.take(nb)[na + i] == b.steps[na + i]);
            }
        }
    }
    assert(range_set(ba, bb).disjoint(range_set(bb, bc)));
    lemma_segment_concat(d1, range_set(ba, bb), d2, range_set(bb, bc));
    assert(range_set(ba, bb).union(range_set(bb, bc)) =~= range_set(ba, bc));
    lemma_targets_widen(d1, ba, bb, ba, bc);
    lemma_targets_widen(d2, bb, bc, ba, bc);
    lemma_targets_concat(d1, d2, ba, bc);
}

/// Appending one step that neither ends nor enters a block is growth.
proof fn lemma_push_plain(st: EmitState, s: StepView, st2: EmitState)
    requires
        is_plain(s),
        st2.steps == st.steps.push(s),
        st2.blocks == st.blocks,
    ensures
        grows(st, st2),
{
    assert(st2.steps.take(st.steps.len() as int) =~= st.steps);
    assert(st2.steps.skip(st.steps.len() as int) =~= seq![s]);
    lemma_plain_growth(st, st2);
}

/// Reading a result and comparing it with one is growth without blocks.
proof fn lemma_condition_grows(st: EmitState, cond: Seq<char>)
    ensures
        condition_spec(st, cond) matches Ok((st3, _)) ==> grows(st, st3) && st3.blocks == st.blocks,
{
    match condition_spec(st, cond) {
        Ok((st3, _)) => {
            let r = crate::emit::lookup(st.registers, cond)->Some_0;
            let st1 = match r {
                Some(_) => st,
                None => crate::emit::add_value(st, crate::intrinsics::Intrinsic::ResultGetZero, Seq::empty(), "zero"@),
            };
            let st2 = crate::emit::add_value(st1, crate::intrinsics::Intrinsic::ResultGetOne, Seq::empty(), "one"@);
            if r is None {
                lemma_push_plain(st, st1.steps.last(), st1);
            } else {
                assert(st1.steps.skip(st.steps.len() as int) =~= Seq::<StepView>::empty());
                assert(st1.steps.take(st.steps.len() as int) =~= st.steps);
                lemma_plain_growth(st, st1);
            }
            lemma_push_plain(st1, st2.steps.last(), st2);
            lemma_push_plain(st2, st3.steps.last(), st3);
            lemma_grows_trans(st, st1, st2);
            lemma_grows_trans(st, st2, st3);
        },
        Err(_) => {},
    }
}

/// Emitting one instruction only appends blocks.
proof fn lemma_emit_one_blocks_grow(st: EmitState, inst: Instruction)
    ensures
        emit_one_spec(st, inst) matches Ok(st2) ==> st.blocks.len() <= st2.blocks.len(),
    decreases inst,
{
    match inst {
        Instruction::If(i) => {
            match condition_spec(st, i.condition@) {
                Err(_) => {},
                Ok((st3, eq)) => {
                    lemma_condition_grows(st, i.condition@);
                    let tb = st3.blocks.len() as u64;
                    let eb = (st3.blocks.len() + 1) as u64;
                    let st4 = EmitState {
                        blocks: st3.blocks.push("then"@).push("else"@).push("continue"@),
                        steps: st3.steps.push(StepView::CondBr { cond: eq, then_block: tb, else_block: eb }).push(
                            StepView::PositionAt { block: tb },
                        ),
                        ..st3
                    };
                    lemma_emit_list_blocks_grow(st4, i.then_insts@);
                    match emit_list_spec(st4, i.then_insts@) {
                        Err(_) => {},
                        Ok(st5) => {
                            let cb = (st3.blocks.len() + 2) as u64;
                            let st6 = crate::emit::add_step(
                                crate::emit::add_step(st5, StepView::Br { block: cb }),
                                StepView::PositionAt { block: eb },
                            );
                            lemma_emit_list_blocks_grow(st6, i.else_insts@);
                        },
                    }
                },
            }
        },
        Instruction::Call(c) => {},
        _ => {},
    }
}

/// Emitting a list of instructions only appends blocks.
proof fn lemma_emit_list_blocks_grow(st: EmitState, insts: Seq<Instruction>)
    ensures
        emit_list_spec(st, insts) matches Ok(st2) ==> st.blocks.len() <= st2.blocks.len(),
    decreases insts,
{
    if insts.len() > 0 {
        lemma_emit_one_blocks_grow(st, insts[0]);
        match emit_one_spec(st, insts[0]) {
            Err(_) => {},
            Ok(st1) => {
                lemma_emit_list_blocks_grow(st1, insts.subrange(1, insts.len() as int));
            },
        }
    }
}

/// A call of an external function is growth.
proof fn lemma_call_grows(st: EmitState, c: crate::model::Call)
    ensures
        call_spec(st, c) matches Ok(st2) ==> grows(st, st2),
{
    match call_spec(st, c) {
        Err(_) => {},
        Ok(st2) => {
            let st1 = if st.declared.contains(c.name@) {
                st
            } else {
                EmitState {
                    steps: st.steps.push(StepView::DeclareExtern { name: c.name@, params: crate::emit::param_types_spec(c.args@)->Ok_0 }),
                    declared: st.declared.push(c.name@),
                    ..st
                }
            };
            if st.declared.contains(c.name@) {
                assert(st1.steps.skip(st.steps.len() as int) =~= Seq::<StepView>::empty());
                assert(st1.steps.take(st.steps.len() as int) =~= st.steps);
                lemma_plain_growth(st, st1);
            } else {
                lemma_push_plain(st, st1.steps.last(), st1);
            }
            lemma_push_plain(st1, st2.steps.last(), st2);
            lemma_grows_trans(st, st1, st2);
        },
    }
}

/// Adding one step that neither ends nor enters a block, to a state that
/// may differ otherwise, is growth.
proof fn lemma_one_plain_step(st: EmitState, st2: EmitState)
    requires
        st2.steps == st.steps.push(st2.steps.last()),
        is_plain(st2.steps.last()),
        st2.blocks == st.blocks,
    ensures
        grows(st, st2),
{
    lemma_push_plain(st, st2.steps.last(), st2);
}

/// Emitting one instruction is growth, while the blocks can be numbered.
#[verifier::rlimit(40)]
#[verifier::spinoff_prover]
proof fn lemma_emit_one_grows(st: EmitState, inst: Instruction)
    ensures
        emit_one_spec(st, inst) matches Ok(st2) ==> (st2.blocks.len() <= u64::MAX ==> grows(st, st2)),
    decreases inst,
{
    match inst {
        Instruction::If(i) => {
            lemma_if_grows(st, i.condition@, i.then_insts@, i.else_insts@, inst);
        },
        Instruction::Call(c) => {
            lemma_call_grows(st, c);
        },
        Instruction::DumpMachine => {},
        Instruction::M(m) => {
            if let Ok(st2) = measure_spec(st, m.qubit@, m.target@) {
                lemma_one_plain_step(st, st2);
            }
        },
        Instruction::Cx(c) => {
            if let Ok(st2) = controlled_spec(st, crate::intrinsics::Intrinsic::Cnot, c.control@, c.target@) {
                lemma_one_plain_step(st, st2);
            }
        },
        Instruction::Cz(c) => {
            if let Ok(st2) = controlled_spec(st, crate::intrinsics::Intrinsic::Cz, c.control@, c.target@) {
                lemma_one_plain_step(st, st2);
            }
        },
        Instruction::Rx(r) => {
            if let Ok(st2) = rotated_spec(st, crate::intrinsics::Intrinsic::Rx, r.theta, r.qubit@) {
                lemma_one_plain_step(st, st2);
            }
        },
        Instruction::Ry(r) => {
            if let Ok(st2) = rotated_spec(st, crate::intrinsics::Intrinsic::Ry, r.theta, r.qubit@) {
                lemma_one_plain_step(st, st2);
            }
        },
        Instruction::Rz(r) => {
            if let Ok(st2) = rotated_spec(st, crate::intrinsics::Intrinsic::Rz, r.theta, r.qubit@) {
                lemma_one_plain_step(st, st2);
            }
        },
        _ => {
            lemma_single_grows(st, inst);
        },
    }
}

/// A gate on one qubit is growth.
#[verifier::rlimit(40)]
#[verifier::spinoff_prover]
proof fn lemma_single_grows(st: EmitState, inst: Instruction)
    requires
        inst is H || inst is Reset || inst is S || inst is SAdj || inst is T || inst is TAdj || inst is X
            || inst is Y || inst is Z,
    ensures
        emit_one_spec(st, inst) matches Ok(st2) ==> grows(st, st2),
{
    let (callee, q) = match inst {
        Instruction::H(s) => (crate::intrinsics::Intrinsic::H, s.qubit@),
        Instruction::Reset(s) => (crate::intrinsics::Intrinsic::Reset, s.qubit@),
        Instruction::S(s) => (crate::intrinsics::Intrinsic::S, s.qubit@),
        Instruction::SAdj(s) => (crate::intrinsics::Intrinsic::SAdj, s.qubit@),
        Instruction::T(s) => (crate::intrinsics::Intrinsic::T, s.qubit@),
        Instruction::TAdj(s) => (crate::intrinsics::Intrinsic::TAdj, s.qubit@),
        Instruction::X(s) => (crate::intrinsics::Intrinsic::X, s.qubit@),
        Instruction::Y(s) => (crate::intrinsics::Intrinsic::Y, s.qubit@),
        Instruction::Z(s) => (crate::intrinsics::Intrinsic::Z, s.qubit@),
        _ => (crate::intrinsics::Intrinsic::H, Seq::empty()),
    };
    assert(emit_one_spec(st, inst) == single_spec(st, callee, q));
    if let Ok(st2) = single_spec(st, callee, q) {
        lemma_one_plain_step(st, st2);
    }
}

/// The blocks and steps of a branch: the condition is read; three blocks are
/// appended; each arm is entered, emitted and closed by a branch to the
/// third block, which is then entered.
proof fn lemma_if_grows(
    st: EmitState,
    cond: Seq<char>,
    then_insts: Seq<Instruction>,
    else_insts: Seq<Instruction>,
    inst: Instruction,
)
    requires
        inst matches Instruction::If(i) && i.condition@ == cond && i.then_insts@ == then_insts && i.else_insts@
            == else_insts,
    ensures
        emit_one_spec(st, inst) matches Ok(st8) ==> (st8.blocks.len() <= u64::MAX ==> grows(st, st8)),
    decreases inst, 0int,
{
    let i = inst->If_0;
    lemma_condition_grows(st, cond);
    match condition_spec(st, cond) {
        Err(_) => {},
        Ok((st3, eq)) => {
            let n0 = st3.blocks.len() as int;
            let tb = st3.blocks.len() as u64;
            let eb = (st3.blocks.len() + 1) as u64;
            let cb = (st3.blocks.len() + 2) as u64;
            let st4 = EmitState {
                blocks: st3.blocks.push("then"@).push("else"@).push("continue"@),
                steps: st3.steps.push(StepView::CondBr { cond: eq, then_block: tb, else_block: eb }).push(
                    StepView::PositionAt { block: tb },
                ),
                ..st3
            };
            lemma_emit_list_grows(st4, i.then_insts@);
            match emit_list_spec(st4, then_insts) {
                Err(_) => {},
                Ok(st5) => {
                    let st6 = crate::emit::add_step(
                        crate::emit::add_step(st5, StepView::Br { block: cb }),
                        StepView::PositionAt { block: eb },
                    );
                    lemma_emit_list_grows(st6, i.else_insts@);
                    match emit_list_spec(st6, else_insts) {
                        Err(_) => {},
                        Ok(st7) => {
                            let st8 = crate::emit::add_step(
                                crate::emit::add_step(st7, StepView::Br { block: cb }),
                                StepView::PositionAt { block: cb },
                            );
                            assert(emit_one_spec(st, inst) == Ok::<EmitState, crate::emit::EmitErrorView>(st8));
                            lemma_emit_list_blocks_grow(st4, then_insts);
                            lemma_emit_list_blocks_grow(st6, else_insts);
                            if st8.blocks.len() <= u64::MAX {
                                assert(st4.steps =~= st3.steps + if_head(eq, n0));
                                assert(st6.steps =~= st5.steps + if_middle(n0));
                                assert(st8.steps =~= st7.steps + if_tail(n0));
                                lemma_if_assemble(st, st3, st4, st5, st6, st7, st8, n0, eq);
                            }
                        },
                    }
                },
            }
        },
    }
}

/// The runs that make up a branch enter its three blocks and the blocks of
/// its arms, and branch only among them.
#[verifier::rlimit(40)]
#[verifier::spinoff_prover]
proof fn lemma_if_segments(
    p: Seq<StepView>,
    d1: Seq<StepView>,
    d2: Seq<StepView>,
    n0: int,
    n1: int,
    n2: int,
    eq: u64,
)
    requires
        0 <= n0,
        n0 + 3 <= n1 <= n2 <= u64::MAX,
        segment_ok(p, range_set(n0, n0)),
        targets_ok(p, n0, n0),
        segment_ok(d1, range_set(n0 + 3, n1)),
        targets_ok(d1, n0 + 3, n1),
        segment_ok(d2, range_set(n1, n2)),
        targets_ok(d2, n1, n2),
    ensures
        segment_ok(
            p + if_head(eq, n0) + d1 + if_middle(n0) + d2 + if_tail(n0),
            range_set(n0, n2),
        ),
        targets_ok(p + if_head(eq, n0) + d1 + if_middle(n0) + d2 + if_tail(n0), n0, n2),
{
    let x1 = if_head(eq, n0);
    let x2 = if_middle(n0);
    let x3 = if_tail(n0);
    assert(range_set(n0, n0) =~= Set::<int>::empty());
    let tb = set![n0];
    let eb = set![n0 + 1];
    let cb = set![n0 + 2];
    assert(segment_ok(x1, tb)) by {
        assert(entered_block(x1[1]) == n0);
        assert forall|b: int| #[trigger] tb.contains(b) implies exists|k: int|
            0 <= k < x1.len() && is_position(#[trigger] x1[k]) && entered_block(x1[k]) == b by {
            assert(is_position(x1[1]));
        }
    }
    assert(segment_ok(x2, eb)) by {
        assert(entered_block(x2[1]) == n0 + 1);
        assert forall|b: int| #[trigger] eb.contains(b) implies exists|k: int|
            0 <= k < x2.len() && is_position(#[trigger] x2[k]) && entered_block(x2[k]) == b by {
            assert(is_position(x2[1]));
        }
    }
    assert(segment_ok(x3, cb)) by {
        assert(entered_block(x3[1]) == n0 + 2);
        assert forall|b: int| #[trigger] cb.contains(b) implies exists|k: int|
            0 <= k < x3.len() && is_position(#[trigger] x3[k]) && entered_block(x3[k]) == b by {
            assert(is_position(x3[1]));
        }
    }
    let s1 = range_set(n0 + 3, n1);
    let s2 = range_set(n1, n2);
    let a1 = Set::<int>::empty().union(tb);
    lemma_segment_concat(p, Set::<int>::empty(), x1, tb);
    let a2 = a1.union(s1);
    lemma_segment_concat(p + x1, a1, d1, s1);
    let a3 = a2.union(eb);
    lemma_segment_concat(p + x1 + d1, a2, x2, eb);
    let a4 = a3.union(s2);
    lemma_segment_concat(p + x1 + d1 + x2, a3, d2, s2);
    lemma_segment_concat(p + x1 + d1 + x2 + d2, a4, x3, cb);
    assert(a4.union(cb) =~= range_set(n0, n2));
    assert(targets_ok(x1, n0, n2));
    assert(targets_ok(x2, n0, n2));
    assert(targets_ok(x3, n0, n2));
    lemma_targets_widen(p, n0, n0, n0, n2);
    lemma_targets_widen(d1, n0 + 3, n1, n0, n2);
    lemma_targets_widen(d2, n1, n2, n0, n2);
    lemma_targets_concat(p, x1, n0, n2);
    lemma_targets_concat(p + x1, d1, n0, n2);
    lemma_targets_concat(p + x1 + d1, x2, n0, n2);
    lemma_targets_concat(p + x1 + d1 + x2, d2, n0, n2);
    lemma_targets_concat(p + x1 + d1 + x2 + d2, x3, n0, n2);
}

/// The steps that open a branch: the conditional branch and the entry into
/// the first arm.
pub open spec fn if_head(eq: u64, n0: int) -> Seq<StepView> {
    seq![
        StepView::CondBr { cond: eq, then_block: n0 as u64, else_block: (n0 + 1) as u64 },
        StepView::PositionAt { block: n0 as u64 },
    ]
}

/// The steps between the arms of a branch.
pub open spec fn if_middle(n0: int) -> Seq<StepView> {
    seq![StepView::Br { block: (n0 + 2) as u64 }, StepView::PositionAt { block: (n0 + 1) as u64 }]
}

/// The steps that close a branch.
pub open spec fn if_tail(n0: int) -> Seq<StepView> {
    seq![StepView::Br { block: (n0 + 2) as u64 }, StepView::PositionAt { block: (n0 + 2) as u64 }]
}

/// A state whose steps extend another's by `d`.
proof fn lemma_extends(a: Seq<StepView>, b: Seq<StepView>)
    requires
        a.len() <= b.len(),
        b.take(a.len() as int) == a,
    ensures
        b =~= a + b.skip(a.len() as int),
{
    assert forall|k: int| 0 <= k < a.len() implies b[k] == a[k] by {
        assert(b.take(a.len() as int)[k] == a[k]);
    }
}

/// Putting the pieces of a branch together.
#[verifier::rlimit(40)]
#[verifier::spinoff_prover]
proof fn lemma_if_assemble(
    st: EmitState,
    st3: EmitState,
    st4: EmitState,
    st5: EmitState,
    st6: EmitState,
    st7: EmitState,
    st8: EmitState,
    n0: int,
    eq: u64,
)
    requires
        grows(st, st3),
        st3.blocks == st.blocks,
        n0 == st3.blocks.len(),
        n0 + 3 <= st5.blocks.len() <= st7.blocks.len() <= u64::MAX,
        st4.blocks.len() == n0 + 3,
        st4.steps == st3.steps + if_head(eq, n0),
        grows(st4, st5),
        st6.blocks == st5.blocks,
        st6.steps == st5.steps + if_middle(n0),
        grows(st6, st7),
        st8.blocks == st7.blocks,
        st8.steps == st7.steps + if_tail(n0),
    ensures
        grows(st, st8),
{
    let p = st3.steps.skip(st.steps.len() as int);
    let d1 = st5.steps.skip(st4.steps.len() as int);
    let d2 = st7.steps.skip(st6.steps.len() as int);
    lemma_extends(st.steps, st3.steps);
    lemma_extends(st4.steps, st5.steps);
    lemma_extends(st6.steps, st7.steps);
    let delta = p + if_head(eq, n0) + d1 + if_middle(n0) + d2 + if_tail(n0);
    assert(st8.steps =~= st.steps + delta);
    assert(st8.steps.skip(st.steps.len() as int) =~= delta);
    assert(st8.steps.take(st.steps.len() as int) =~= st.steps);
    lemma_if_segments(p, d1, d2, n0, st5.blocks.len() as int, st7.blocks.len() as int, eq);
}

/// Emitting a list of instructions is growth, while the blocks can be numbered.
proof fn lemma_emit_list_grows(st: EmitState, insts: Seq<Instruction>)
    ensures
        emit_list_spec(st, insts) matches Ok(st2) ==> (st2.blocks.len() <= u64::MAX ==> grows(st, st2)),
    decreases insts,
{
    if insts.len() == 0 {
        assert(st.steps.skip(st.steps.len() as int) =~= Seq::<StepView>::empty());
        assert(st.steps.take(st.steps.len() as int) =~= st.steps);
        lemma_plain_growth(st, st);
    } else {
        lemma_emit_one_grows(st, insts[0]);
        match emit_one_spec(st, insts[0]) {
            Err(_) => {},
            Ok(st1) => {
                lemma_emit_list_grows(st1, insts.subrange(1, insts.len() as int));
                lemma_emit_list_blocks_grow(st1, insts.subrange(1, insts.len() as int));
                match emit_list_spec(st1, insts.subrange(1, insts.len() as int)) {
                    Err(_) => {},
                    Ok(st2) => {
                        if st2.blocks.len() <= u64::MAX {
                            lemma_grows_trans(st, st1, st2);
                        }
                    },
                }
            },
        }
    }
}

/// The steps of an entry function with `n` blocks: the first step enters the
/// first block, the last one is a terminator, every terminator but the last
/// is followed by the entry into a block and every entry but the first
/// follows a terminator, every block is entered exactly once, and every
/// branch goes to one of the blocks. So each block ends with its only
/// terminator.
pub open spec fn blocks_ok(steps: Seq<StepView>, n: int) -> bool {
    &&& steps.len() >= 2
    &&& steps[0] == StepView::PositionAt { block: 0 }
    &&& is_terminator(steps[steps.len() - 1])
    &&& forall|i: int| 0 <= i < steps.len() - 1 && is_terminator(#[trigger] steps[i]) ==> is_position(steps[i + 1])
    &&& forall|j: int| 0 < j < steps.len() && is_position(#[trigger] steps[j]) ==> is_terminator(steps[j - 1])
    &&& forall|i: int| 0 <= i < steps.len() && is_position(#[trigger] steps[i]) ==> 0 <= entered_block(steps[i]) < n
    &&& forall|i: int, j: int|
        0 <= i < steps.len() && 0 <= j < steps.len() && i != j && is_position(#[trigger] steps[i]) && is_position(
            #[trigger] steps[j],
        ) ==> entered_block(steps[i]) != entered_block(steps[j])
    &&& forall|b: int| 0 <= b < n ==> #[trigger] enters(steps, b)
    &&& targets_ok(steps, 0, n)
}

/// Whether some step enters block `b`.
pub open spec fn enters(steps: Seq<StepView>, b: int) -> bool {
    exists|i: int| 0 <= i < steps.len() && is_position(#[trigger] steps[i]) && entered_block(steps[i]) == b
}

/// Entering the first block, then a run that enters all other blocks, then
/// returning, gives the steps of an entry function.
proof fn lemma_close(m: Seq<StepView>, n: int)
    requires
        1 <= n,
        segment_ok(m, range_set(1, n)),
        targets_ok(m, 1, n),
    ensures
        blocks_ok(seq![StepView::PositionAt { block: 0 }] + m + seq![StepView::Ret], n),
{
    let first = seq![StepView::PositionAt { block: 0 }];
    let s = first + m + seq![StepView::Ret];
    let k = m.len() as int;
    assert(s.len() == k + 2);
    assert(s[0] == StepView::PositionAt { block: 0 });
    assert(s[k + 1] == StepView::Ret);
    assert forall|i: int| 1 <= i <= k implies s[i] == m[i - 1] by {}
    assert forall|i: int| 0 <= i < s.len() - 1 && is_terminator(#[trigger] s[i]) implies is_position(s[i + 1]) by {
        if 1 <= i < k {
            assert(s[i] == m[i - 1] && s[i + 1] == m[i]);
        } else if i == k && k >= 1 {
            assert(s[i] == m[k - 1]);
        }
    }
    assert forall|j: int| 0 < j < s.len() && is_position(#[trigger] s[j]) implies is_terminator(s[j - 1]) by {
        if j == 1 {
            assert(s[1] == m[0]);
        } else if 2 <= j <= k {
            assert(s[j] == m[j - 1] && s[j - 1] == m[j - 2]);
        }
    }
    assert forall|i: int| 0 <= i < s.len() && is_position(#[trigger] s[i]) implies 0 <= entered_block(s[i]) < n by {
        if 1 <= i <= k {
            assert(s[i] == m[i - 1]);
            assert(range_set(1, n).contains(entered_block(m[i - 1])));
        }
    }
    assert forall|i: int, j: int|
        0 <= i < s.len() && 0 <= j < s.len() && i != j && is_position(#[trigger] s[i]) && is_position(#[trigger] s[j])
            implies entered_block(s[i]) != entered_block(s[j]) by {
        if 1 <= i <= k {
            assert(s[i] == m[i - 1]);
            assert(range_set(1, n).contains(entered_block(m[i - 1])));
        }
        if 1 <= j <= k {
            assert(s[j] == m[j - 1]);
            assert(range_set(1, n).contains(entered_block(m[j - 1])));
        }
    }
    assert forall|b: int| 0 <= b < n implies #[trigger] enters(s, b) by {
        if b == 0 {
            assert(is_position(s[0]));
        } else {
            assert(range_set(1, n).contains(b));
            let i = choose|i: int| 0 <= i < m.len() && is_position(#[trigger] m[i]) && entered_block(m[i]) == b;
            assert(s[i + 1] == m[i]);
        }
    }
    assert forall|i: int| 0 <= i < s.len() implies targets_within(#[trigger] s[i], 0, n) by {
        if 1 <= i <= k {
            assert(s[i] == m[i - 1]);
            assert(targets_within(m[i - 1], 1, n));
        }
    }
}

/// Listing the qubits adds steps that neither end nor enter a block.
proof fn lemma_qubits_plain(st: EmitState, qs: Seq<QuantumRegister>, static_alloc: bool)
    ensures
        st.steps.len() <= qubits_spec(st, qs, static_alloc).steps.len(),
        qubits_spec(st, qs, static_alloc).steps.take(st.steps.len() as int) == st.steps,
        plain(qubits_spec(st, qs, static_alloc).steps.skip(st.steps.len() as int)),
        qubits_spec(st, qs, static_alloc).blocks == st.blocks,
    decreases qs.len(),
{
    let r = qubits_spec(st, qs, static_alloc);
    if qs.len() == 0 {
        assert(r.steps.skip(st.steps.len() as int) =~= Seq::<StepView>::empty());
        assert(r.steps.take(st.steps.len() as int) =~= st.steps);
    } else {
        let r1 = qubits_spec(st, qs.drop_last(), static_alloc);
        lemma_qubits_plain(st, qs.drop_last(), static_alloc);
        assert(r.steps == r1.steps.push(r.steps.last()));
        assert(is_plain(r.steps.last()));
        assert(r.steps.take(st.steps.len() as int) =~= r1.steps.take(st.steps.len() as int));
        assert(r.steps.skip(st.steps.len() as int) =~= r1.steps.skip(st.steps.len() as int).push(r.steps.last()));
    }
}

/// Releasing qubits adds steps that neither end nor enter a block.
proof fn lemma_releases_plain(st: EmitState, k: int)
    ensures
        st.steps.len() <= releases_spec(st, k).steps.len(),
        releases_spec(st, k).steps.take(st.steps.len() as int) == st.steps,
        plain(releases_spec(st, k).steps.skip(st.steps.len() as int)),
        releases_spec(st, k).blocks == st.blocks,
    decreases k,
{
    let r = releases_spec(st, k);
    if k <= 0 {
        assert(r.steps.skip(st.steps.len() as int) =~= Seq::<StepView>::empty());
        assert(r.steps.take(st.steps.len() as int) =~= st.steps);
    } else {
        let r1 = releases_spec(st, k - 1);
        lemma_releases_plain(st, k - 1);
        if r.steps.len() == r1.steps.len() {
            assert(r == r1);
        } else {
            assert(r.steps == r1.steps.push(r.steps.last()));
            assert(r.steps.take(st.steps.len() as int) =~= r1.steps.take(st.steps.len() as int));
            assert(r.steps.skip(st.steps.len() as int) =~= r1.steps.skip(st.steps.len() as int).push(r.steps.last()));
        }
    }
}

/// Plain steps around a run keep its entries and branch targets.
proof fn lemma_body_segment(q: Seq<StepView>, d: Seq<StepView>, r: Seq<StepView>, n: int)
    requires
        plain(q),
        plain(r),
        segment_ok(d, range_set(1, n)),
        targets_ok(d, 1, n),
    ensures
        segment_ok(q + d + r, range_set(1, n)),
        targets_ok(q + d + r, 1, n),
{
    lemma_plain_segment(q);
    lemma_plain_segment(r);
    lemma_segment_concat(q, Set::empty(), d, range_set(1, n));
    lemma_segment_concat(q + d, Set::<int>::empty().union(range_set(1, n)), r, Set::empty());
    assert(Set::<int>::empty().union(range_set(1, n)).union(Set::empty()) =~= range_set(1, n));
    assert forall|i: int| 0 <= i < q.len() implies targets_within(#[trigger] q[i], 1, n) by {
        assert(is_plain(q[i]));
    }
    assert forall|i: int| 0 <= i < r.len() implies targets_within(#[trigger] r[i], 1, n) by {
        assert(is_plain(r[i]));
    }
    lemma_targets_concat(q, d, 1, n);
    lemma_targets_concat(q + d, r, 1, n);
}

/// The control flow of every plan is sound: each block of the entry function
/// is entered exactly once and ends with its only terminator, and every
/// branch goes to a block of the function.
#[verifier::rlimit(60)]
#[verifier::spinoff_prover]
pub proof fn lemma_plan_blocks(model: SemanticModel)
    ensures
        plan_spec(model) matches Ok(p) ==> (p.blocks.len() <= u64::MAX ==> blocks_ok(p.steps, p.blocks.len() as int)),
{
    let st0 = initial_state();
    let st1 = qubits_spec(st0, model.qubits@, model.static_alloc);
    let st2 = EmitState { registers: registers_spec(model.registers@), ..st1 };
    lemma_qubits_plain(st0, model.qubits@, model.static_alloc);
    lemma_emit_list_grows(st2, model.instructions@);
    match emit_list_spec(st2, model.instructions@) {
        Err(_) => {},
        Ok(st3) => {
            let st4 = if model.static_alloc { st3 } else { releases_spec(st3, st3.qubits.len() as int) };
            lemma_releases_plain(st3, st3.qubits.len() as int);
            let n = st3.blocks.len() as int;
            if n <= u64::MAX {
                let q = st1.steps.skip(1);
                let d = st3.steps.skip(st2.steps.len() as int);
                let r = st4.steps.skip(st3.steps.len() as int);
                lemma_extends(st0.steps, st1.steps);
                lemma_extends(st2.steps, st3.steps);
                if model.static_alloc {
                    assert(r =~= Seq::<StepView>::empty());
                    assert(st4.steps.take(st3.steps.len() as int) =~= st3.steps);
                }
                lemma_extends(st3.steps, st4.steps);
                assert(plain(r));
                lemma_body_segment(q, d, r, n);
                let steps = st4.steps.push(StepView::Ret);
                assert(steps =~= seq![StepView::PositionAt { block: 0 }] + (q + d + r) + seq![StepView::Ret]);
                lemma_close(q + d + r, n);
            }
        },
    }
}

} // verus!

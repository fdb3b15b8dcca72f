//! Which tile operation, if any, a kernel's instructions amount to.
use crate::error::CompileError;
use crate::ir::{
    AtomicKind, AtomicUpdate, BarrierOp, Elem, Instruction, Item, MathOp, Op, PlainOp,
    SwitchCase, VariableKind,
};
use vstd::prelude::*;

verus! {

/// What a kernel computes: a copy, one tile operation, or anything else.
#[derive(Clone, Copy, Debug, PartialEq, Eq, Structural)]
pub enum SupportedComputeKind {
    Copy,
    Add,
    Sub,
    Mul,
    Div,
    Abs,
    Sqrt,
    Rsqrt,
    Sin,
    Cos,
    Tan,
    Tanh,
    Exp,
    Log,
    Generic,
}

/// The tile operation that carries out a piece of arithmetic.
pub open spec fn tile_kind(op: MathOp) -> SupportedComputeKind {
    match op {
        MathOp::Add => SupportedComputeKind::Add,
        MathOp::Sub => SupportedComputeKind::Sub,
        MathOp::Mul => SupportedComputeKind::Mul,
        MathOp::Div | MathOp::FastDiv => SupportedComputeKind::Div,
        MathOp::Abs => SupportedComputeKind::Abs,
        MathOp::Sqrt | MathOp::FastSqrt => SupportedComputeKind::Sqrt,
        MathOp::InverseSqrt | MathOp::FastInverseSqrt => SupportedComputeKind::Rsqrt,
        MathOp::Sin | MathOp::FastSin => SupportedComputeKind::Sin,
        MathOp::Cos | MathOp::FastCos => SupportedComputeKind::Cos,
        MathOp::Tan => SupportedComputeKind::Tan,
        MathOp::Tanh | MathOp::FastTanh => SupportedComputeKind::Tanh,
        MathOp::Exp | MathOp::FastExp => SupportedComputeKind::Exp,
        MathOp::Log | MathOp::FastLog => SupportedComputeKind::Log,
    }
}

fn tile_kind_of(op: MathOp) -> (kind: SupportedComputeKind)
    ensures
        kind == tile_kind(op),
{
    match op {
        MathOp::Add => SupportedComputeKind::Add,
        MathOp::Sub => SupportedComputeKind::Sub,
        MathOp::Mul => SupportedComputeKind::Mul,
        MathOp::Div | MathOp::FastDiv => SupportedComputeKind::Div,
        MathOp::Abs => SupportedComputeKind::Abs,
        MathOp::Sqrt | MathOp::FastSqrt => SupportedComputeKind::Sqrt,
        MathOp::InverseSqrt | MathOp::FastInverseSqrt => SupportedComputeKind::Rsqrt,
        MathOp::Sin | MathOp::FastSin => SupportedComputeKind::Sin,
        MathOp::Cos | MathOp::FastCos => SupportedComputeKind::Cos,
        MathOp::Tan => SupportedComputeKind::Tan,
        MathOp::Tanh | MathOp::FastTanh => SupportedComputeKind::Tanh,
        MathOp::Exp | MathOp::FastExp => SupportedComputeKind::Exp,
        MathOp::Log | MathOp::FastLog => SupportedComputeKind::Log,
    }
}

/// The elements that the tile operations compute on.
pub open spec fn is_native(elem: Elem) -> bool {
    elem == Elem::BF16 || elem == Elem::F32
}

fn is_tt_native_elem(elem: Elem) -> (native: bool)
    ensures
        native == is_native(elem),
{
    matches!(elem, Elem::BF16 | Elem::F32)
}

/// What one instruction says about the kind of its kernel.
pub enum Effect {
    /// Nothing: it moves or names values.
    Keep,
    /// The kernel carries out this arithmetic on tiles.
    Native(MathOp),
    /// The kernel needs the scalar path.
    Generic,
    /// The kernel cannot be compiled.
    Reject(CompileError),
}

/// The effect of an operation without operands.
pub open spec fn plain_effect(op: PlainOp, debug: String) -> Effect {
    match op {
        PlainOp::DeclareVariable | PlainOp::Metadata | PlainOp::ExtendedMetadata
        | PlainOp::ConstLength | PlainOp::SliceLength | PlainOp::Comment | PlainOp::Line
        | PlainOp::Return | PlainOp::IndexAssign | PlainOp::Bitcast | PlainOp::Unreachable =>
            Effect::Keep,
        PlainOp::Not | PlainOp::Or | PlainOp::And | PlainOp::Min | PlainOp::Max | PlainOp::Slice
        | PlainOp::CheckedSlice | PlainOp::ReinterpretSlice | PlainOp::Copy | PlainOp::CopyBulk
        | PlainOp::SaturatingAdd | PlainOp::SaturatingSub | PlainOp::HiMul | PlainOp::CountBits
        | PlainOp::ReverseBits | PlainOp::BitwiseNot | PlainOp::LeadingZeros
        | PlainOp::TrailingZeros | PlainOp::FindFirstSet | PlainOp::VectorSum | PlainOp::Break
        | PlainOp::Modulo | PlainOp::BitwiseAnd | PlainOp::BitwiseOr | PlainOp::BitwiseXor
        | PlainOp::ShiftLeft | PlainOp::ShiftRight | PlainOp::SyncThreads | PlainOp::SyncWarp =>
            Effect::Generic,
        _ => Effect::Reject(CompileError::Instruction(debug)),
    }
}

/// A barrier operation that the scalar path can leave out or unroll.
pub open spec fn barrier_supported(op: BarrierOp) -> bool {
    match op {
        BarrierOp::Declare { level } => true,
        BarrierOp::Init { level } => true,
        BarrierOp::ArriveAndWait { level } => true,
        BarrierOp::MemCopyAsync(copy) => !copy.cooperative,
        BarrierOp::Other => false,
    }
}

pub(crate) fn is_barrier_supported(op: &BarrierOp) -> (supported: bool)
    ensures
        supported == barrier_supported(*op),
{
    match op {
        BarrierOp::Declare { .. } => true,
        BarrierOp::Init { .. } => true,
        BarrierOp::ArriveAndWait { .. } => true,
        BarrierOp::MemCopyAsync(copy) => !copy.cooperative,
        BarrierOp::Other => false,
    }
}

/// Whether the atomic scalar can be updated by a single unit.
pub open spec fn atomic_kind_supported(kind: AtomicKind) -> bool {
    kind == AtomicKind::I32 || kind == AtomicKind::U32 || kind == AtomicKind::F32
}

/// Whether `plain` is what an atomic of type `atomic` holds.
pub open spec fn atomic_holds(atomic: Item, plain: Item) -> bool {
    match atomic.elem {
        Elem::Atomic(kind) => atomic_kind_supported(kind) && plain.elem == kind.elem()
            && atomic.vectorization == plain.vectorization,
        _ => false,
    }
}

fn is_supported_single_unit_atomic_kind(kind: AtomicKind) -> (supported: bool)
    ensures
        supported == atomic_kind_supported(kind),
{
    matches!(kind, AtomicKind::I32 | AtomicKind::U32 | AtomicKind::F32)
}

fn matches_atomic_plain_value(atomic_item: Item, plain_item: Item) -> (holds: bool)
    ensures
        holds == atomic_holds(atomic_item, plain_item),
{
    match atomic_item.elem {
        Elem::Atomic(kind) => is_supported_single_unit_atomic_kind(kind)
            && plain_item.elem.same(kind.as_elem()) && atomic_item.vectorization == plain_item.vectorization,
        _ => false,
    }
}

/// An atomic update whose operands and result have the type that the atomic holds.
pub open spec fn atomic_update_supported(update: AtomicUpdate) -> bool {
    atomic_holds(update.lhs, update.rhs) && update.out.is_same(update.rhs)
}

/// The scalar path, or the refusal where the condition fails.
pub open spec fn generic_if(supported: bool, error: CompileError) -> Effect {
    if supported {
        Effect::Generic
    } else {
        Effect::Reject(error)
    }
}

/// A comparison of the absolute position whose result guards the next instruction:
/// the two together are a bounds check.
pub open spec fn is_bounds_check(s: Seq<Instruction>) -> bool {
    &&& s.len() >= 2
    &&& s[0].op matches Op::Compare(comparison, compare)
    &&& compare.lhs.kind is AbsolutePos
    &&& s[1].op matches Op::If { cond, instructions }
    &&& cond.is_same(compare.out)
}

/// What the instructions say about the kind of their kernel, in the order in which
/// they stand. A bounds check says what the instructions under it say; the branches
/// of a two-way choice are not looked into.
pub open spec fn effects(s: Seq<Instruction>) -> Seq<Effect>
    decreases s,
{
    if s.len() == 0 {
        Seq::empty()
    } else if is_bounds_check(s) {
        match s[1].op {
            Op::If { cond, instructions } => effects(instructions@) + effects(
                s.subrange(2, s.len() as int),
            ),
            _ => Seq::empty(),
        }
    } else {
        instruction_effects(s[0]) + effects(s.subrange(1, s.len() as int))
    }
}

pub open spec fn instruction_effects(instruction: Instruction) -> Seq<Effect>
    decreases instruction,
{
    match instruction.op {
        Op::Plain(op) => seq![plain_effect(op, instruction.debug)],
        Op::Math(op, item) => seq![
            if is_native(item.elem) {
                Effect::Native(op)
            } else {
                Effect::Generic
            },
        ],
        Op::Assign(_) | Op::SpecialCast(_) | Op::Index { .. } => seq![Effect::Keep],
        Op::Select { .. } | Op::Compare(..) | Op::IfElse { .. } | Op::Warp(_) => seq![
            Effect::Generic,
        ],
        Op::If { cond, instructions } => effects(instructions@),
        Op::RangeLoop { instructions } => seq![Effect::Generic] + effects(instructions@),
        Op::Loop { instructions } => seq![Effect::Generic] + effects(instructions@),
        Op::Switch { instructions_default, instructions_cases } => seq![Effect::Generic] + effects(
            instructions_default@,
        ) + case_effects(instructions_cases@),
        Op::Barrier(op) => seq![generic_if(barrier_supported(op), CompileError::Barrier)],
        Op::AtomicLoad(item) | Op::AtomicStore(item) => seq![
            generic_if(item.elem == Elem::Atomic(AtomicKind::U32), CompileError::Atomic),
        ],
        Op::AtomicAdd(update) | Op::AtomicMax(update) | Op::AtomicMin(update) => seq![
            generic_if(atomic_update_supported(update), CompileError::Atomic),
        ],
    }
}

pub open spec fn case_effects(cases: Seq<SwitchCase>) -> Seq<Effect>
    decreases cases,
{
    if cases.len() == 0 {
        Seq::empty()
    } else {
        effects(cases[0].instructions@) + case_effects(cases.subrange(1, cases.len() as int))
    }
}

/// The kind after one more effect.
pub open spec fn merged(kind: SupportedComputeKind, native: SupportedComputeKind) -> SupportedComputeKind {
    if kind is Copy {
        native
    } else if kind == native {
        kind
    } else {
        SupportedComputeKind::Generic
    }
}

/// The outcome of a list of effects that comes after `kind`.
pub open spec fn outcome(effects: Seq<Effect>, kind: SupportedComputeKind) -> Result<
    SupportedComputeKind,
    CompileError,
>
    decreases effects.len(),
{
    if effects.len() == 0 {
        Ok(kind)
    } else {
        let rest = effects.skip(1);
        match effects[0] {
            Effect::Keep => outcome(rest, kind),
            Effect::Native(op) => outcome(rest, merged(kind, tile_kind(op))),
            Effect::Generic => outcome(rest, SupportedComputeKind::Generic),
            Effect::Reject(error) => Err(error),
        }
    }
}

proof fn lemma_outcome_append(a: Seq<Effect>, b: Seq<Effect>, kind: SupportedComputeKind)
    ensures
        outcome(a + b, kind) == (match outcome(a, kind) {
            Ok(between) => outcome(b, between),
            Err(error) => Err(error),
        }),
    decreases a.len(),
{
    if a.len() == 0 {
        assert(a + b =~= b);
    } else {
        assert((a + b).skip(1) =~= a.skip(1) + b);
        match a[0] {
            Effect::Keep => lemma_outcome_append(a.skip(1), b, kind),
            Effect::Native(op) => lemma_outcome_append(a.skip(1), b, merged(kind, tile_kind(op))),
            Effect::Generic => lemma_outcome_append(a.skip(1), b, SupportedComputeKind::Generic),
            Effect::Reject(error) => {},
        }
    }
}

proof fn lemma_outcome_single(effect: Effect, kind: SupportedComputeKind)
    ensures
        outcome(seq![effect], kind) == (match effect {
            Effect::Keep => Ok::<SupportedComputeKind, CompileError>(kind),
            Effect::Native(op) => Ok(merged(kind, tile_kind(op))),
            Effect::Generic => Ok(SupportedComputeKind::Generic),
            Effect::Reject(error) => Err(error),
        }),
{
    reveal_with_fuel(outcome, 2);
    assert(seq![effect].skip(1) =~= Seq::<Effect>::empty());
}

/// The first refusal among the effects.
pub open spec fn first_rejection(effects: Seq<Effect>) -> Option<CompileError>
    decreases effects.len(),
{
    if effects.len() == 0 {
        None
    } else {
        match effects[0] {
            Effect::Reject(error) => Some(error),
            _ => first_rejection(effects.skip(1)),
        }
    }
}

/// Whether no effect says anything about the kind.
pub open spec fn all_keep(effects: Seq<Effect>) -> bool {
    forall|i: int| 0 <= i < effects.len() ==> #[trigger] effects[i] is Keep
}

/// Whether an effect asks for a tile operation of the given kind.
pub open spec fn asks_for(effect: Effect, kind: SupportedComputeKind) -> bool {
    effect matches Effect::Native(op) && tile_kind(op) == kind
}

/// Whether tile operations of the given kind, and nothing else, are asked for.
pub open spec fn agreed(effects: Seq<Effect>, kind: SupportedComputeKind) -> bool {
    &&& exists|i: int| 0 <= i < effects.len() && asks_for(#[trigger] effects[i], kind)
    &&& forall|i: int|
        0 <= i < effects.len() ==> (#[trigger] effects[i] is Keep || asks_for(effects[i], kind))
}

/// The kind that a list of effects amounts to: a copy where nothing is said, the
/// tile operation where all that is said agrees on one, else the scalar path.
pub open spec fn is_kind(effects: Seq<Effect>, kind: SupportedComputeKind) -> bool {
    match kind {
        SupportedComputeKind::Copy => all_keep(effects),
        SupportedComputeKind::Generic => !all_keep(effects) && forall|other: SupportedComputeKind|
            !#[trigger] agreed(effects, other),
        _ => agreed(effects, kind),
    }
}

proof fn lemma_outcome_is_kind(effects: Seq<Effect>)
    ensures
        match outcome(effects, SupportedComputeKind::Copy) {
            Ok(kind) => first_rejection(effects) is None && is_kind(effects, kind),
            Err(error) => first_rejection(effects) == Some(error),
        },
    decreases effects.len(),
{
    if effects.len() > 0 {
        let before = effects.drop_last();
        let last = effects.last();
        lemma_outcome_is_kind(before);
        assert(effects =~= before + seq![last]);
        assert(effects =~= before.push(last));
        lemma_outcome_append(before, seq![last], SupportedComputeKind::Copy);
        lemma_rejection_append(before, seq![last]);
        match outcome(before, SupportedComputeKind::Copy) {
            Ok(kind) => {
                lemma_outcome_single(last, kind);
                lemma_rejection_single(last);
                if !(last is Reject) {
                    lemma_kind_step(before, last, kind);
                }
            },
            Err(error) => {},
        }
    }
}

proof fn lemma_rejection_single(effect: Effect)
    ensures
        first_rejection(seq![effect]) == (match effect {
            Effect::Reject(error) => Some(error),
            _ => None::<CompileError>,
        }),
{
    reveal_with_fuel(first_rejection, 2);
    assert(seq![effect].skip(1) =~= Seq::<Effect>::empty());
}

proof fn lemma_rejection_append(a: Seq<Effect>, b: Seq<Effect>)
    ensures
        first_rejection(a + b) == (match first_rejection(a) {
            Some(error) => Some(error),
            None => first_rejection(b),
        }),
    decreases a.len(),
{
    if a.len() == 0 {
        assert(a + b =~= b);
    } else {
        assert((a + b).skip(1) =~= a.skip(1) + b);
        lemma_rejection_append(a.skip(1), b);
    }
}

/// One more effect takes the kind of a list to the kind of the longer list.
proof fn lemma_kind_step(before: Seq<Effect>, last: Effect, kind: SupportedComputeKind)
    requires
        is_kind(before, kind),
        !(last is Reject),
    ensures
        is_kind(
            before.push(last),
            match last {
                Effect::Native(op) => merged(kind, tile_kind(op)),
                Effect::Generic => SupportedComputeKind::Generic,
                _ => kind,
            },
        ),
{
    let after = before.push(last);
    assert(after[before.len() as int] == last);
    assert forall|i: int| 0 <= i < before.len() implies after[i] == before[i] by {}
    if last is Keep {
        assert(all_keep(after) == all_keep(before)) by {
            if all_keep(after) {
                assert forall|i: int| 0 <= i < before.len() implies before[i] is Keep by {
                    assert(after[i] is Keep);
                }
            }
        }
        assert forall|other: SupportedComputeKind| agreed(after, other) == #[trigger] agreed(
            before,
            other,
        ) by {
            lemma_agreed_push_keep(before, last, other);
        }
        assert forall|other: SupportedComputeKind| !(kind is Copy) && kind is Generic implies !#[trigger] agreed(
            after,
            other,
        ) by {
            assert(agreed(after, other) == agreed(before, other));
        }
    } else if last is Generic {
        assert(!all_keep(after));
        assert forall|other: SupportedComputeKind| !#[trigger] agreed(after, other) by {
            assert(!(after[before.len() as int] is Keep));
        }
    } else {
        let native = tile_kind(last->Native_0);
        assert(asks_for(after[before.len() as int], native));
        assert(!all_keep(after));
        if kind is Copy {
            assert(agreed(after, native));
        } else if kind == native {
            assert(agreed(after, native));
        } else {
            assert forall|other: SupportedComputeKind| !#[trigger] agreed(after, other) by {
                if agreed(after, other) {
                    assert(asks_for(after[before.len() as int], other));
                    assert(other == native);
                    if kind is Generic {
                        assert(!agreed(before, native));
                        assert(!all_keep(before));
                        let j = choose|j: int| 0 <= j < before.len() && !(#[trigger] before[j] is Keep);
                        assert(!(after[j] is Keep));
                        assert(asks_for(before[j], native));
                        assert(agreed(before, native));
                    } else {
                        let j = choose|j: int|
                            0 <= j < before.len() && asks_for(#[trigger] before[j], kind);
                        assert(asks_for(after[j], kind));
                    }
                }
            }
        }
    }
}

proof fn lemma_agreed_push_keep(before: Seq<Effect>, last: Effect, kind: SupportedComputeKind)
    requires
        last is Keep,
    ensures
        agreed(before.push(last), kind) == agreed(before, kind),
{
    let after = before.push(last);
    assert forall|i: int| 0 <= i < before.len() implies after[i] == before[i] by {}
    if agreed(after, kind) {
        let i = choose|i: int| 0 <= i < after.len() && asks_for(#[trigger] after[i], kind);
        assert(asks_for(before[i], kind));
        assert forall|i: int| 0 <= i < before.len() implies (#[trigger] before[i] is Keep
            || asks_for(before[i], kind)) by {
            assert(after[i] is Keep || asks_for(after[i], kind));
        }
    }
    if agreed(before, kind) {
        let i = choose|i: int| 0 <= i < before.len() && asks_for(#[trigger] before[i], kind);
        assert(asks_for(after[i], kind));
    }
}

fn set_native_kind(compute_kind: &mut SupportedComputeKind, new_kind: SupportedComputeKind)
    ensures
        *final(compute_kind) == merged(*old(compute_kind), new_kind),
{
    if matches!(*compute_kind, SupportedComputeKind::Copy) {
        *compute_kind = new_kind;
    } else if *compute_kind != new_kind {
        *compute_kind = SupportedComputeKind::Generic;
    }
}

/// The instructions under a bounds check, where `instruction` and `next` are one.
fn is_bounds_check_compare<'a>(
    instruction: &'a Instruction,
    next: Option<&'a Instruction>,
) -> (nested: Option<&'a Vec<Instruction>>)
    ensures
        match next {
            Some(next) => match nested {
                Some(nested) => is_bounds_check(seq![*instruction, *next]) && (next.op matches Op::If {
                    cond,
                    instructions,
                } && *nested == instructions),
                None => !is_bounds_check(seq![*instruction, *next]),
            },
            None => nested is None,
        },
{
    match &instruction.op {
        Op::Compare(_, compare) => {
            if !matches!(compare.lhs.kind, VariableKind::AbsolutePos) {
                return None;
            }
            match next {
                Some(next) => match &next.op {
                    Op::If { cond, instructions } => {
                        if cond.same(&compare.out) {
                            Some(instructions)
                        } else {
                            None
                        }
                    },
                    _ => None,
                },
                None => None,
            }
        },
        _ => None,
    }
}

fn visit_plain(op: PlainOp, debug: &String, compute_kind: &mut SupportedComputeKind) -> (result: Result<
    (),
    CompileError,
>)
    ensures
        follows(seq![plain_effect(op, *debug)], *old(compute_kind), *final(compute_kind), result),
{
    proof {
        lemma_outcome_single(plain_effect(op, *debug), *compute_kind);
    }
    match op {
        PlainOp::DeclareVariable | PlainOp::Metadata | PlainOp::ExtendedMetadata
        | PlainOp::ConstLength | PlainOp::SliceLength | PlainOp::Comment | PlainOp::Line
        | PlainOp::Return | PlainOp::IndexAssign | PlainOp::Bitcast | PlainOp::Unreachable => {},
        PlainOp::Not | PlainOp::Or | PlainOp::And | PlainOp::Min | PlainOp::Max | PlainOp::Slice
        | PlainOp::CheckedSlice | PlainOp::ReinterpretSlice | PlainOp::Copy | PlainOp::CopyBulk
        | PlainOp::SaturatingAdd | PlainOp::SaturatingSub | PlainOp::HiMul | PlainOp::CountBits
        | PlainOp::ReverseBits | PlainOp::BitwiseNot | PlainOp::LeadingZeros
        | PlainOp::TrailingZeros | PlainOp::FindFirstSet | PlainOp::VectorSum | PlainOp::Break
        | PlainOp::Modulo | PlainOp::BitwiseAnd | PlainOp::BitwiseOr | PlainOp::BitwiseXor
        | PlainOp::ShiftLeft | PlainOp::ShiftRight | PlainOp::SyncThreads | PlainOp::SyncWarp => {
            *compute_kind = SupportedComputeKind::Generic;
        },
        _ => {
            return Err(CompileError::Instruction(debug.clone()));
        },
    }
    Ok(())
}

/// The result and the new kind are those of the effects.
pub open spec fn follows(
    effects: Seq<Effect>,
    before: SupportedComputeKind,
    after: SupportedComputeKind,
    result: Result<(), CompileError>,
) -> bool {
    match outcome(effects, before) {
        Ok(kind) => result is Ok && after == kind,
        Err(error) => result == Err::<(), CompileError>(error),
    }
}

fn require(supported: bool, error: CompileError, compute_kind: &mut SupportedComputeKind) -> (result: Result<
    (),
    CompileError,
>)
    ensures
        follows(seq![generic_if(supported, error)], *old(compute_kind), *final(compute_kind), result),
{
    proof {
        lemma_outcome_single(generic_if(supported, error), *compute_kind);
    }
    if supported {
        *compute_kind = SupportedComputeKind::Generic;
        Ok(())
    } else {
        Err(error)
    }
}

fn visit_instruction(instruction: &Instruction, compute_kind: &mut SupportedComputeKind) -> (result: Result<
    (),
    CompileError,
>)
    ensures
        follows(instruction_effects(*instruction), *old(compute_kind), *final(compute_kind), result),
    decreases instruction,
{
    proof {
        lemma_outcome_single(Effect::Keep, *compute_kind);
        lemma_outcome_single(Effect::Generic, *compute_kind);
    }
    let ghost before = *compute_kind;
    match &instruction.op {
        Op::Plain(op) => visit_plain(*op, &instruction.debug, compute_kind),
        Op::Math(op, item) => {
            proof {
                lemma_outcome_single(Effect::Native(*op), *compute_kind);
            }
            if is_tt_native_elem(item.elem) {
                set_native_kind(compute_kind, tile_kind_of(*op));
            } else {
                *compute_kind = SupportedComputeKind::Generic;
            }
            Ok(())
        },
        Op::Assign(_) | Op::SpecialCast(_) | Op::Index { .. } => Ok(()),
        Op::Select { .. } | Op::Compare(..) | Op::IfElse { .. } | Op::Warp(_) => {
            *compute_kind = SupportedComputeKind::Generic;
            Ok(())
        },
        Op::If { instructions, .. } => visit_instructions(instructions, compute_kind),
        Op::RangeLoop { instructions } => {
            proof {
                lemma_outcome_append(seq![Effect::Generic], effects(instructions@), before);
            }
            *compute_kind = SupportedComputeKind::Generic;
            visit_instructions(instructions, compute_kind)
        },
        Op::Loop { instructions } => {
            proof {
                lemma_outcome_append(seq![Effect::Generic], effects(instructions@), before);
            }
            *compute_kind = SupportedComputeKind::Generic;
            visit_instructions(instructions, compute_kind)
        },
        Op::Switch { instructions_default, instructions_cases } => {
            proof {
                lemma_outcome_append(
                    seq![Effect::Generic] + effects(instructions_default@),
                    case_effects(instructions_cases@),
                    before,
                );
                lemma_outcome_append(seq![Effect::Generic], effects(instructions_default@), before);
            }
            *compute_kind = SupportedComputeKind::Generic;
            match visit_instructions(instructions_default, compute_kind) {
                Ok(()) => visit_cases(instructions_cases, compute_kind),
                Err(error) => Err(error),
            }
        },
        Op::Barrier(op) => require(is_barrier_supported(op), CompileError::Barrier, compute_kind),
        Op::AtomicLoad(item) | Op::AtomicStore(item) => require(
            matches!(item.elem, Elem::Atomic(AtomicKind::U32)),
            CompileError::Atomic,
            compute_kind,
        ),
        Op::AtomicAdd(update) | Op::AtomicMax(update) | Op::AtomicMin(update) => require(
            matches_atomic_plain_value(update.lhs, update.rhs) && update.out.same(update.rhs),
            CompileError::Atomic,
            compute_kind,
        ),
    }
}

fn visit_cases(cases: &Vec<SwitchCase>, compute_kind: &mut SupportedComputeKind) -> (result: Result<
    (),
    CompileError,
>)
    ensures
        follows(case_effects(cases@), *old(compute_kind), *final(compute_kind), result),
    decreases cases,
{
    let mut index: usize = 0;
    assert(cases@.subrange(0, cases.len() as int) =~= cases@);
    while index < cases.len()
        invariant
            index <= cases.len(),
            outcome(case_effects(cases@), *old(compute_kind)) == outcome(
                case_effects(cases@.subrange(index as int, cases.len() as int)),
                *compute_kind,
            ),
        decreases cases.len() - index,
    {
        let ghost rest = cases@.subrange(index as int, cases.len() as int);
        proof {
            assert(rest.subrange(1, rest.len() as int) =~= cases@.subrange(
                index + 1,
                cases.len() as int,
            ));
            lemma_outcome_append(
                effects(cases[index as int].instructions@),
                case_effects(rest.subrange(1, rest.len() as int)),
                *compute_kind,
            );
            assert(decreases_to!(cases => cases@));
            assert(decreases_to!(cases@ => cases@[index as int]));
        }
        match visit_instructions(&cases[index].instructions, compute_kind) {
            Ok(()) => {},
            Err(error) => {
                return Err(error);
            },
        }
        index += 1;
    }
    Ok(())
}

fn visit_instructions(instructions: &Vec<Instruction>, compute_kind: &mut SupportedComputeKind) -> (result: Result<
    (),
    CompileError,
>)
    ensures
        follows(effects(instructions@), *old(compute_kind), *final(compute_kind), result),
    decreases instructions,
{
    let mut index: usize = 0;
    assert(instructions@.subrange(0, instructions.len() as int) =~= instructions@);
    while index < instructions.len()
        invariant
            index <= instructions.len(),
            outcome(effects(instructions@), *old(compute_kind)) == outcome(
                effects(instructions@.subrange(index as int, instructions.len() as int)),
                *compute_kind,
            ),
        decreases instructions.len() - index,
    {
        let ghost rest = instructions@.subrange(index as int, instructions.len() as int);
        let instruction = &instructions[index];
        let next = if index + 1 < instructions.len() {
            Some(&instructions[index + 1])
        } else {
            None
        };
        proof {
            assert(decreases_to!(instructions => instructions@));
            assert(decreases_to!(instructions@ => instructions@[index as int]));
            assert(rest[0] == *instruction);
            if next is Some {
                assert(rest[1] == *next->0);
                assert(is_bounds_check(rest) == is_bounds_check(seq![*instruction, *next->0]));
                assert(rest.subrange(2, rest.len() as int) =~= instructions@.subrange(
                    index + 2,
                    instructions.len() as int,
                ));
            }
            assert(rest.subrange(1, rest.len() as int) =~= instructions@.subrange(
                index + 1,
                instructions.len() as int,
            ));
        }
        if let Some(nested) = is_bounds_check_compare(instruction, next) {
            proof {
                assert(decreases_to!(instructions@ => instructions@[index + 1]));
                lemma_outcome_append(
                    effects(nested@),
                    effects(rest.subrange(2, rest.len() as int)),
                    *compute_kind,
                );
            }
            match visit_instructions(nested, compute_kind) {
                Ok(()) => {},
                Err(error) => {
                    return Err(error);
                },
            }
            index += 2;
            continue ;
        }
        proof {
            lemma_outcome_append(
                instruction_effects(*instruction),
                effects(rest.subrange(1, rest.len() as int)),
                *compute_kind,
            );
        }
        match visit_instruction(instruction, compute_kind) {
            Ok(()) => {},
            Err(error) => {
                return Err(error);
            },
        }
        index += 1;
    }
    Ok(())
}

/// The kind of a kernel with these instructions, or the first reason why they
/// cannot be compiled.
pub fn detect_supported_compute_kind(instructions: &Vec<Instruction>) -> (result: Result<
    SupportedComputeKind,
    CompileError,
>)
    ensures
        match result {
            Ok(kind) => first_rejection(effects(instructions@)) is None && is_kind(
                effects(instructions@),
                kind,
            ),
            Err(error) => first_rejection(effects(instructions@)) == Some(error),
        },
{
    proof {
        lemma_outcome_is_kind(effects(instructions@));
    }
    let mut compute_kind = SupportedComputeKind::Copy;
    match visit_instructions(instructions, &mut compute_kind) {
        Ok(()) => Ok(compute_kind),
        Err(error) => Err(error),
    }
}

/// A list of effects has one kind.
pub proof fn law_kind_is_unique(
    effects: Seq<Effect>,
    a: SupportedComputeKind,
    b: SupportedComputeKind,
)
    requires
        is_kind(effects, a),
        is_kind(effects, b),
    ensures
        a == b,
{
    if !(a is Copy) && !(a is Generic) {
        let i = choose|i: int| 0 <= i < effects.len() && asks_for(#[trigger] effects[i], a);
        assert(asks_for(effects[i], a));
        assert(!(b is Copy));
    }
    if !(b is Copy) && !(b is Generic) {
        let j = choose|j: int| 0 <= j < effects.len() && asks_for(#[trigger] effects[j], b);
        assert(asks_for(effects[j], b));
        assert(!(a is Copy));
    }
}

proof fn lemma_agreed_swap(a: Seq<Effect>, b: Seq<Effect>, kind: SupportedComputeKind)
    requires
        agreed(a + b, kind),
    ensures
        agreed(b + a, kind),
{
    let there = a + b;
    let back = b + a;
    let i = choose|i: int| 0 <= i < there.len() && asks_for(#[trigger] there[i], kind);
    let j = if i < a.len() {
        b.len() + i
    } else {
        i - a.len()
    };
    assert(back[j] == there[i]);
    assert forall|k: int| 0 <= k < back.len() implies (#[trigger] back[k] is Keep || asks_for(
        back[k],
        kind,
    )) by {
        let m = if k < b.len() {
            a.len() + k
        } else {
            k - b.len()
        };
        assert(back[k] == there[m]);
    }
}

proof fn lemma_all_keep_swap(a: Seq<Effect>, b: Seq<Effect>)
    requires
        all_keep(a + b),
    ensures
        all_keep(b + a),
{
    let there = a + b;
    let back = b + a;
    assert forall|k: int| 0 <= k < back.len() implies #[trigger] back[k] is Keep by {
        let m = if k < b.len() {
            a.len() + k
        } else {
            k - b.len()
        };
        assert(back[k] == there[m]);
    }
}

/// The kind does not depend on which part of a kernel stands first.
pub proof fn law_kind_ignores_order(a: Seq<Effect>, b: Seq<Effect>, kind: SupportedComputeKind)
    requires
        is_kind(a + b, kind),
    ensures
        is_kind(b + a, kind),
{
    match kind {
        SupportedComputeKind::Copy => lemma_all_keep_swap(a, b),
        SupportedComputeKind::Generic => {
            if all_keep(b + a) {
                lemma_all_keep_swap(b, a);
            }
            assert forall|other: SupportedComputeKind| !#[trigger] agreed(b + a, other) by {
                if agreed(b + a, other) {
                    lemma_agreed_swap(b, a, other);
                }
            }
        },
        _ => lemma_agreed_swap(a, b, kind),
    }
}

/// Whether every barrier operation that stands directly in a list is supported.
pub open spec fn barriers_supported(s: Seq<Instruction>) -> bool {
    forall|i: int|
        0 <= i < s.len() ==> ((#[trigger] s[i]).op matches Op::Barrier(op) ==> barrier_supported(op))
}

/// Instructions that are not refused hold only supported barrier operations.
pub proof fn law_accepted_barriers_are_supported(s: Seq<Instruction>)
    requires
        first_rejection(effects(s)) is None,
    ensures
        barriers_supported(s),
    decreases s.len(),
{
    if s.len() > 0 {
        if is_bounds_check(s) {
            let rest = s.subrange(2, s.len() as int);
            match s[1].op {
                Op::If { cond, instructions } => {
                    lemma_rejection_append(effects(instructions@), effects(rest));
                },
                _ => {},
            }
            law_accepted_barriers_are_supported(rest);
            assert forall|i: int| 0 <= i < s.len() implies ((#[trigger] s[i]).op matches Op::Barrier(op)
                ==> barrier_supported(op)) by {
                if i >= 2 {
                    assert(rest[i - 2] == s[i]);
                }
            }
        } else {
            let rest = s.subrange(1, s.len() as int);
            lemma_rejection_append(instruction_effects(s[0]), effects(rest));
            if s[0].op matches Op::Barrier(op) {
                lemma_rejection_single(generic_if(barrier_supported(s[0].op->Barrier_0), CompileError::Barrier));
            }
            law_accepted_barriers_are_supported(rest);
            assert forall|i: int| 0 <= i < s.len() implies ((#[trigger] s[i]).op matches Op::Barrier(op)
                ==> barrier_supported(op)) by {
                if i >= 1 {
                    assert(rest[i - 1] == s[i]);
                }
            }
        }
    }
}

/// Whether an operation moves, names or declares values, or ends the kernel, and computes
/// nothing.
pub open spec fn moves(op: PlainOp) -> bool {
    op is DeclareVariable || op is Metadata || op is ExtendedMetadata || op is ConstLength
        || op is SliceLength || op is Comment || op is Line || op is Return || op is IndexAssign
        || op is Bitcast || op is Unreachable
}

/// Whether instructions carry out the arithmetic of the given kind on numbers of the tiles,
/// and compute nothing else: what stands beside it moves values, names them, or leaves out
/// the units whose absolute position is out of bounds.
pub open spec fn computes_only(s: Seq<Instruction>, kind: SupportedComputeKind) -> bool
    decreases s,
{
    s.len() == 0 || {
        &&& match s[0].op {
            Op::Plain(op) => moves(op),
            Op::Math(op, item) => tile_kind(op) == kind && (item.elem is F32 || item.elem is BF16),
            Op::Assign(_) | Op::SpecialCast(_) | Op::Index { .. } => true,
            Op::If { cond, instructions } => computes_only(instructions@, kind),
            Op::Compare(comparison, compare) => {
                &&& compare.lhs.kind is AbsolutePos
                &&& s.len() > 1
                &&& s[1].op matches Op::If { cond, instructions }
                &&& cond.kind == compare.out.kind
                &&& cond.name@ == compare.out.name@
                &&& cond.item.is_same(compare.out.item)
            },
            _ => false,
        }
        &&& computes_only(s.subrange(1, s.len() as int), kind)
    }
}

/// Whether all that is said is that the given tile operation is asked for.
spec fn within(effects: Seq<Effect>, kind: SupportedComputeKind) -> bool {
    forall|i: int|
        0 <= i < effects.len() ==> (#[trigger] effects[i] is Keep || asks_for(effects[i], kind))
}

proof fn lemma_within_append(a: Seq<Effect>, b: Seq<Effect>, kind: SupportedComputeKind)
    ensures
        within(a + b, kind) == (within(a, kind) && within(b, kind)),
{
    let both = a + b;
    if within(both, kind) {
        assert forall|i: int| 0 <= i < a.len() implies (#[trigger] a[i] is Keep || asks_for(
            a[i],
            kind,
        )) by {
            assert(both[i] == a[i]);
        }
        assert forall|i: int| 0 <= i < b.len() implies (#[trigger] b[i] is Keep || asks_for(
            b[i],
            kind,
        )) by {
            assert(both[a.len() + i] == b[i]);
        }
    }
}

proof fn lemma_within_is_computes_only(s: Seq<Instruction>, kind: SupportedComputeKind)
    ensures
        within(effects(s), kind) == computes_only(s, kind),
    decreases s,
{
    if s.len() > 0 {
        let behind = s.subrange(1, s.len() as int);
        if is_bounds_check(s) {
            let rest = s.subrange(2, s.len() as int);
            match s[1].op {
                Op::If { cond, instructions } => {
                    assert(decreases_to!(s => s[1]));
                    lemma_within_is_computes_only(instructions@, kind);
                    lemma_within_is_computes_only(rest, kind);
                    lemma_within_append(effects(instructions@), effects(rest), kind);
                    assert(behind[0] == s[1]);
                    assert(behind.subrange(1, behind.len() as int) =~= rest);
                    assert(effects(s) == effects(instructions@) + effects(rest));
                    assert(computes_only(behind, kind) == (computes_only(instructions@, kind)
                        && computes_only(rest, kind)));
                },
                _ => {},
            }
        } else {
            lemma_within_is_computes_only(behind, kind);
            lemma_within_append(instruction_effects(s[0]), effects(behind), kind);
            assert(effects(s) == instruction_effects(s[0]) + effects(behind));
            let said = instruction_effects(s[0]);
            match s[0].op {
                Op::If { cond, instructions } => {
                    assert(decreases_to!(s => s[0]));
                    lemma_within_is_computes_only(instructions@, kind);
                },
                Op::Plain(op) => {
                    assert(said[0] == plain_effect(op, s[0].debug));
                },
                Op::Math(op, item) => {
                    assert(said[0] == (if is_native(item.elem) {
                        Effect::Native(op)
                    } else {
                        Effect::Generic
                    }));
                },
                Op::Assign(_) | Op::SpecialCast(_) | Op::Index { .. } => {
                    assert(said[0] is Keep);
                },
                _ => {
                    assert(said[0] is Generic || said[0] is Reject);
                    assert(!within(said, kind));
                },
            }
        }
    }
}

/// A kernel is a copy only where its instructions compute nothing, and a tile operation
/// only where they compute just that, and do compute it. The scalar path is left to what
/// is neither.
pub proof fn law_kind_tells_what_is_computed(s: Seq<Instruction>, kind: SupportedComputeKind)
    requires
        is_kind(effects(s), kind),
    ensures
        kind is Generic ==> forall|other: SupportedComputeKind| !#[trigger] computes_only(s, other),
        !(kind is Generic) ==> computes_only(s, kind),
        !(kind is Generic || kind is Copy) ==> !computes_only(s, SupportedComputeKind::Copy),
{
    let said = effects(s);
    lemma_within_is_computes_only(s, kind);
    lemma_within_is_computes_only(s, SupportedComputeKind::Copy);
    if kind is Copy {
        assert(within(said, kind));
    } else if kind is Generic {
        let odd = choose|i: int| 0 <= i < said.len() && !(#[trigger] said[i] is Keep);
        assert forall|other: SupportedComputeKind| !#[trigger] computes_only(s, other) by {
            lemma_within_is_computes_only(s, other);
            if within(said, other) {
                assert(asks_for(said[odd], other));
                assert(agreed(said, other));
            }
        }
    } else {
        let asked = choose|i: int| 0 <= i < said.len() && asks_for(#[trigger] said[i], kind);
        assert(!asks_for(said[asked], SupportedComputeKind::Copy));
    }
}

proof fn lemma_rejection_inside(s: Seq<Instruction>, at: int)
    requires
        0 <= at < s.len(),
        first_rejection(instruction_effects(s[at])) is Some,
        !(s[at].op is Compare),
        !(s[at].op is If),
    ensures
        first_rejection(effects(s)) is Some,
    decreases s.len(),
{
    if is_bounds_check(s) {
        let rest = s.subrange(2, s.len() as int);
        match s[1].op {
            Op::If { cond, instructions } => {
                lemma_rejection_append(effects(instructions@), effects(rest));
            },
            _ => {},
        }
        assert(rest[at - 2] == s[at]);
        lemma_rejection_inside(rest, at - 2);
    } else {
        let rest = s.subrange(1, s.len() as int);
        lemma_rejection_append(instruction_effects(s[0]), effects(rest));
        if at > 0 {
            assert(rest[at - 1] == s[at]);
            lemma_rejection_inside(rest, at - 1);
        }
    }
}

/// Whether the scalar path has a lowering for an operation that computes, copies memory or
/// steers the kernel.
pub open spec fn has_scalar_lowering(op: PlainOp) -> bool {
    op is Not || op is Or || op is And || op is Min || op is Max || op is Slice || op is CheckedSlice
        || op is ReinterpretSlice || op is Copy || op is CopyBulk || op is SaturatingAdd
        || op is SaturatingSub || op is HiMul || op is CountBits || op is ReverseBits
        || op is BitwiseNot || op is LeadingZeros || op is TrailingZeros || op is FindFirstSet
        || op is VectorSum || op is Break || op is Modulo || op is BitwiseAnd || op is BitwiseOr
        || op is BitwiseXor || op is ShiftLeft || op is ShiftRight || op is SyncThreads
        || op is SyncWarp
}

/// An operation without a lowering is never compiled, wherever in a list it stands.
pub proof fn law_operations_without_lowering_are_refused(s: Seq<Instruction>, at: int, op: PlainOp)
    requires
        0 <= at < s.len(),
        s[at].op == Op::Plain(op),
        !moves(op),
        !has_scalar_lowering(op),
    ensures
        first_rejection(effects(s)) is Some,
{
    lemma_rejection_single(plain_effect(op, s[at].debug));
    lemma_rejection_inside(s, at);
}

/// Kernels of operations that have a lowering are not refused.
pub proof fn law_operations_with_lowering_are_taken(s: Seq<Instruction>)
    requires
        forall|i: int|
            0 <= i < s.len() ==> ((#[trigger] s[i]).op matches Op::Plain(op) && (moves(op)
                || has_scalar_lowering(op))),
    ensures
        first_rejection(effects(s)) is None,
    decreases s.len(),
{
    if s.len() > 0 {
        let rest = s.subrange(1, s.len() as int);
        assert(s[0].op is Plain);
        assert(!is_bounds_check(s));
        assert forall|i: int| 0 <= i < rest.len() implies ((#[trigger] rest[i]).op matches Op::Plain(op)
            && (moves(op) || has_scalar_lowering(op))) by {
            assert(rest[i] == s[i + 1]);
        }
        law_operations_with_lowering_are_taken(rest);
        lemma_rejection_single(plain_effect(s[0].op->Plain_0, s[0].debug));
        lemma_rejection_append(instruction_effects(s[0]), effects(rest));
    }
}

/// Atomics are updated only by kernels whose operands and results are what the atomic holds,
/// numbers of four bytes; and only unsigned words are loaded and stored.
pub proof fn law_atomics_match_their_operands(s: Seq<Instruction>, at: int)
    requires
        0 <= at < s.len(),
        first_rejection(effects(s)) is None,
    ensures
        match s[at].op {
            Op::AtomicAdd(update) | Op::AtomicMax(update) | Op::AtomicMin(update) => {
                &&& update.lhs.elem matches Elem::Atomic(kind) && update.rhs.elem == kind.elem()
                    && kind.elem().bytes() == 4
                &&& update.lhs.vectorization == update.rhs.vectorization
                &&& update.out.is_same(update.rhs)
            },
            Op::AtomicLoad(item) | Op::AtomicStore(item) => item.elem == Elem::Atomic(
                AtomicKind::U32,
            ),
            Op::Barrier(BarrierOp::MemCopyAsync(copy)) => !copy.cooperative,
            Op::Barrier(op) => !(op is Other),
            _ => true,
        },
{
    let effect = instruction_effects(s[at]);
    match s[at].op {
        Op::AtomicAdd(_) | Op::AtomicMax(_) | Op::AtomicMin(_) | Op::AtomicLoad(_)
        | Op::AtomicStore(_) | Op::Barrier(_) => {
            if first_rejection(effect) is Some {
                lemma_rejection_inside(s, at);
            }
            assert(effect.len() == 1);
            lemma_rejection_single(effect[0]);
            assert(effect =~= seq![effect[0]]);
        },
        _ => {},
    }
}

/// Atomics of four bytes whose operands and results are what they hold are updated.
pub proof fn law_matching_atomics_are_taken(update: AtomicUpdate, kind: AtomicKind, instruction: Instruction)
    requires
        instruction.op == Op::AtomicAdd(update) || instruction.op == Op::AtomicMax(update)
            || instruction.op == Op::AtomicMin(update),
        update.lhs.elem == Elem::Atomic(kind),
        update.rhs.elem == kind.elem(),
        kind.elem().bytes() == 4,
        update.lhs.vectorization == update.rhs.vectorization,
        update.out == update.rhs,
    ensures
        first_rejection(instruction_effects(instruction)) is None,
        first_rejection(effects(seq![instruction])) is None,
{
    let s = seq![instruction];
    assert(instruction_effects(instruction) =~= seq![Effect::Generic]);
    lemma_rejection_single(Effect::Generic);
    let rest = s.subrange(1, 1);
    assert(effects(rest) =~= Seq::<Effect>::empty());
    assert(!is_bounds_check(s));
    assert(effects(s) =~= seq![Effect::Generic]);
}

/// What is refused in the body of a loop or in the default of a choice is refused with it.
pub proof fn law_blocks_are_looked_into(s: Seq<Instruction>, at: int, block: Seq<Instruction>)
    requires
        0 <= at < s.len(),
        first_rejection(effects(block)) is Some,
        match s[at].op {
            Op::RangeLoop { instructions } => block == instructions@,
            Op::Loop { instructions } => block == instructions@,
            Op::Switch { instructions_default, instructions_cases } => block
                == instructions_default@,
            _ => false,
        },
    ensures
        first_rejection(effects(s)) is Some,
{
    lemma_rejection_single(Effect::Generic);
    lemma_rejection_append(seq![Effect::Generic], effects(block));
    match s[at].op {
        Op::Switch { instructions_default, instructions_cases } => {
            lemma_rejection_append(
                seq![Effect::Generic] + effects(block),
                case_effects(instructions_cases@),
            );
        },
        _ => {},
    }
    lemma_rejection_inside(s, at);
}

} // verus!

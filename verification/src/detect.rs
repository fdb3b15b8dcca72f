//! The tile operation that a kernel's first operation asks for.
use vstd::prelude::*;

verus! {

/// The tile operation of a kernel.
#[derive(Clone, Copy, Debug, PartialEq, Eq, Structural)]
pub enum TtOpKind {
    /// One input, one output, no arithmetic.
    Copy,
    /// Two inputs, one output, element by element.
    EltwiseBinaryAdd,
    /// None that is known.
    Unknown,
}

/// Arithmetic, as far as it is told apart.
#[derive(Clone, Copy, Debug, PartialEq, Eq, Structural)]
pub enum Arithmetic {
    Add,
    Mul,
    Other,
}

/// An operation of a kernel, as far as it is told apart.
#[derive(Clone, Copy, Debug, PartialEq, Eq, Structural)]
pub enum Operation {
    Arithmetic(Arithmetic),
    Copy,
    Other,
}

/// The first operation, from `from` on, that computes or copies.
pub open spec fn first_operation(body: Seq<Operation>, from: nat) -> Option<Operation>
    decreases body.len() - from,
{
    if from >= body.len() {
        None
    } else if !(body[from as int] is Other) {
        Some(body[from as int])
    } else {
        first_operation(body, from + 1)
    }
}

fn find_operation(body: &Vec<Operation>) -> (operation: Option<Operation>)
    ensures
        operation == first_operation(body@, 0),
{
    let mut i: usize = 0;
    while i < body.len()
        invariant
            i <= body.len(),
            first_operation(body@, 0) == first_operation(body@, i as nat),
        decreases body.len() - i,
    {
        if !matches!(body[i], Operation::Other) {
            return Some(body[i]);
        }
        i += 1;
    }
    None
}

/// The tile operation that a kernel asks for.
pub open spec fn asked_for(body: Seq<Operation>) -> TtOpKind {
    match first_operation(body, 0) {
        None => TtOpKind::Copy,
        Some(Operation::Copy) => TtOpKind::Copy,
        Some(Operation::Arithmetic(Arithmetic::Add)) => TtOpKind::EltwiseBinaryAdd,
        Some(Operation::Arithmetic(Arithmetic::Mul)) => TtOpKind::EltwiseBinaryAdd,
        Some(_) => TtOpKind::Unknown,
    }
}

/// The tile operation that the first operation which computes or copies asks for: a
/// copy where there is none, an element-wise operation for a sum or a product.
pub fn detect_op_kind(body: &Vec<Operation>) -> (kind: TtOpKind)
    ensures
        kind == asked_for(body@),
{
    match find_operation(body) {
        None => TtOpKind::Copy,
        Some(Operation::Copy) => TtOpKind::Copy,
        Some(Operation::Arithmetic(Arithmetic::Add)) => TtOpKind::EltwiseBinaryAdd,
        Some(Operation::Arithmetic(Arithmetic::Mul)) => TtOpKind::EltwiseBinaryAdd,
        Some(_) => TtOpKind::Unknown,
    }
}

proof fn lemma_first_operation(body: Seq<Operation>, from: nat, at: nat)
    requires
        from <= at <= body.len(),
        forall|i: int| from <= i < at ==> (#[trigger] body[i]) is Other,
        at < body.len() ==> !(body[at as int] is Other),
    ensures
        first_operation(body, from) == (if at < body.len() {
            Some(body[at as int])
        } else {
            None
        }),
    decreases at - from,
{
    if from < at {
        lemma_first_operation(body, from + 1, at);
    }
}

/// What does neither compute nor copy is passed over. The first operation that does decides,
/// whatever comes behind it: a copy asks for a copy, a sum or a product for an element-wise
/// operation, and other arithmetic for none that is known. Without one there is nothing but a
/// copy to do.
pub proof fn law_first_operation_decides(body: Seq<Operation>, at: nat)
    requires
        at <= body.len(),
        forall|i: int| 0 <= i < at ==> (#[trigger] body[i]) is Other,
    ensures
        at == body.len() ==> asked_for(body) is Copy,
        at < body.len() && body[at as int] is Copy ==> asked_for(body) is Copy,
        at < body.len() ==> (body[at as int] matches Operation::Arithmetic(arithmetic) ==> {
            &&& arithmetic is Add || arithmetic is Mul ==> asked_for(body) is EltwiseBinaryAdd
            &&& arithmetic is Other ==> asked_for(body) is Unknown
        }),
{
    if at == body.len() || !(body[at as int] is Other) {
        lemma_first_operation(body, 0, at);
    }
}

} // verus!

//! Shapes and strides of tensors.
use vstd::prelude::*;

verus! {

/// Whether the strides are row-major and not zero, with rows that may be padded: the
/// last dimension is dense, a row is at least as far from the next as it is long, and
/// all dimensions above follow from those below.
pub open spec fn is_pitched(shape: Seq<usize>, strides: Seq<usize>) -> bool {
    let rank = shape.len();
    &&& strides[rank - 1] == 1
    &&& forall|i: int| 0 <= i < rank ==> #[trigger] strides[i] != 0
    &&& rank > 1 ==> strides[rank - 2] >= shape[rank - 1]
    &&& forall|i: int| 0 <= i < rank - 2 ==> follows(shape, strides, i)
}

/// Whether the stride of a dimension is the extent of the dimension below it.
pub open spec fn follows(shape: Seq<usize>, strides: Seq<usize>, i: int) -> bool {
    strides[i] == shape[i + 1] * strides[i + 1]
}

/// Whether the stride of a dimension is compared with the extent below it; the
/// comparison stops at the first stride that differs.
pub open spec fn is_compared(shape: Seq<usize>, strides: Seq<usize>, i: int) -> bool {
    &&& strides[shape.len() - 1] == 1
    &&& forall|j: int| 0 <= j < shape.len() ==> #[trigger] strides[j] != 0
    &&& forall|j: int| 0 <= j < i ==> #[trigger] follows(shape, strides, j)
}

/// Whether the extents that are compared fit in a `usize`.
pub open spec fn extents_fit(shape: Seq<usize>, strides: Seq<usize>) -> bool {
    forall|i: int|
        0 <= i < shape.len() - 2 && #[trigger] is_compared(shape, strides, i) ==> shape[i + 1]
            * strides[i + 1] <= usize::MAX
}

/// Whether the strides are row-major with rows that may be padded.
///
/// Trusted: `cubecl_zspace::striding::has_pitched_row_major_strides` compares the last
/// stride with one, all strides with zero, the last but one with the length of a row,
/// and each above with the extent below it. It panics where the ranks differ or are
/// zero, and where an extent overflows.
#[verifier::external_body]
pub(crate) fn has_pitched_row_major_strides(shape: &Vec<usize>, strides: &Vec<usize>) -> (pitched: bool)
    requires
        shape.len() > 0,
        shape.len() == strides.len(),
        extents_fit(shape@, strides@),
    ensures
        pitched == is_pitched(shape@, strides@),
{
    cubecl_zspace::striding::has_pitched_row_major_strides(
        &cubecl_zspace::Shape::from(shape.clone()),
        &cubecl_zspace::Strides::from(strides.clone()),
    )
}

/// The number of elements of the first `count` dimensions.
pub open spec fn elements(shape: Seq<usize>, count: nat) -> int
    decreases count,
{
    if count == 0 {
        1
    } else {
        elements(shape, (count - 1) as nat) * shape[count - 1]
    }
}

/// Whether every partial product of the dimensions fits in a `usize`.
pub open spec fn elements_fit(shape: Seq<usize>) -> bool {
    forall|n: nat| n <= shape.len() ==> #[trigger] elements(shape, n) <= usize::MAX
}

/// The number of elements of a tensor.
pub fn count_elements(shape: &Vec<usize>) -> (count: usize)
    requires
        elements_fit(shape@),
    ensures
        count == elements(shape@, shape.len() as nat),
{
    let mut count: usize = 1;
    let mut i: usize = 0;
    while i < shape.len()
        invariant
            i <= shape.len(),
            elements_fit(shape@),
            count == elements(shape@, i as nat),
        decreases shape.len() - i,
    {
        assert(elements(shape@, (i + 1) as nat) <= usize::MAX);
        assert(0 <= elements(shape@, i as nat) * shape@[i as int]) by (nonlinear_arith)
            requires
                0 <= elements(shape@, i as nat),
                0 <= shape@[i as int],
        ;
        count = count * shape[i];
        i += 1;
    }
    count
}

/// The number of elements below a dimension: its stride where the tensor is dense.
pub open spec fn extent_below(shape: Seq<usize>, i: int) -> int
    decreases shape.len() - i,
{
    if i >= shape.len() - 1 {
        1
    } else {
        extent_below(shape, i + 1) * shape[i + 1]
    }
}

/// Whether the dense strides of a shape fit in a `usize`.
pub open spec fn dense_fits(shape: Seq<usize>) -> bool {
    forall|i: int| 0 <= i < shape.len() ==> #[trigger] extent_below(shape, i) <= usize::MAX
}

/// Whether the strides are those of a dense row-major tensor.
pub open spec fn is_dense(shape: Seq<usize>, strides: Seq<usize>) -> bool {
    &&& strides.len() == shape.len()
    &&& forall|i: int| 0 <= i < shape.len() ==> #[trigger] strides[i] == extent_below(shape, i)
}

/// The strides of a dense row-major tensor.
pub fn contiguous_strides(shape: &Vec<usize>) -> (strides: Vec<usize>)
    requires
        dense_fits(shape@),
    ensures
        is_dense(shape@, strides@),
{
    let rank: usize = shape.len();
    let mut strides: Vec<usize> = Vec::new();
    let mut filled: usize = 0;
    while filled < rank
        invariant
            rank == shape.len(),
            filled <= rank,
            strides.len() == filled,
            forall|j: int| 0 <= j < filled ==> #[trigger] strides[j] == 1,
        decreases rank - filled,
    {
        strides.push(1);
        filled += 1;
    }
    let mut i: usize = if rank > 0 {
        rank - 1
    } else {
        0
    };
    while i > 0
        invariant
            rank == shape.len(),
            strides.len() == rank,
            dense_fits(shape@),
            rank > 0 ==> i < rank,
            rank == 0 ==> i == 0,
            forall|j: int| i <= j < rank ==> #[trigger] strides[j] == extent_below(shape@, j),
        decreases i,
    {
        i -= 1;
        assert(extent_below(shape@, i as int) <= usize::MAX);
        assert(strides[i + 1] == extent_below(shape@, i + 1));
        assert(0 <= extent_below(shape@, i + 1) * shape@[i + 1]) by (nonlinear_arith)
            requires
                0 <= extent_below(shape@, i + 1),
                0 <= shape@[i + 1],
        ;
        let stride: usize = strides[i + 1] * shape[i + 1];
        strides.set(i, stride);
    }
    strides
}

/// Whether the strides are those of a dense row-major tensor.
pub fn is_contiguous(shape: &Vec<usize>, strides: &Vec<usize>) -> (dense: bool)
    requires
        dense_fits(shape@),
    ensures
        dense == is_dense(shape@, strides@),
{
    if strides.len() != shape.len() {
        return false;
    }
    let expected = contiguous_strides(shape);
    let mut i: usize = 0;
    while i < expected.len()
        invariant
            i <= expected.len(),
            expected.len() == strides.len(),
            is_dense(shape@, expected@),
            forall|j: int| 0 <= j < i ==> #[trigger] strides[j] == extent_below(shape@, j),
        decreases expected.len() - i,
    {
        if strides[i] != expected[i] {
            return false;
        }
        i += 1;
    }
    true
}

/// A dense tensor of at least one dimension whose dimensions are not empty is a
/// padded row-major tensor too.
pub proof fn law_dense_is_pitched(shape: Seq<usize>, strides: Seq<usize>)
    requires
        shape.len() > 0,
        is_dense(shape, strides),
        forall|i: int| 0 <= i < shape.len() ==> #[trigger] shape[i] > 0,
    ensures
        is_pitched(shape, strides),
{
    let rank = shape.len() as int;
    assert forall|i: int| 0 <= i < rank implies #[trigger] strides[i] != 0 by {
        lemma_extent_is_positive(shape, i);
        assert(strides[i] == extent_below(shape, i));
    }
    assert(strides[rank - 1] == extent_below(shape, rank - 1));
    if rank > 1 {
        assert(strides[rank - 2] == extent_below(shape, rank - 2));
        assert(extent_below(shape, rank - 2) == extent_below(shape, rank - 1) * shape[rank - 1]);
    }
    assert forall|i: int| 0 <= i < rank - 2 implies follows(shape, strides, i) by {
        assert(strides[i] == extent_below(shape, i));
        assert(strides[i + 1] == extent_below(shape, i + 1));
        assert(extent_below(shape, i + 1) * shape[i + 1] == shape[i + 1] * extent_below(
            shape,
            i + 1,
        )) by (nonlinear_arith);
    }
}

proof fn lemma_extent_is_positive(shape: Seq<usize>, i: int)
    requires
        0 <= i < shape.len(),
        forall|j: int| 0 <= j < shape.len() ==> #[trigger] shape[j] > 0,
    ensures
        extent_below(shape, i) > 0,
    decreases shape.len() - i,
{
    if i < shape.len() - 1 {
        lemma_extent_is_positive(shape, i + 1);
        assert(shape[i + 1] > 0);
        assert(extent_below(shape, i + 1) * shape[i + 1] > 0) by (nonlinear_arith)
            requires
                extent_below(shape, i + 1) > 0,
                shape[i + 1] > 0,
        ;
    }
}

/// A tensor has as many elements as its first dimension has slices, times those of a slice.
pub proof fn law_elements_are_those_of_the_slices(shape: Seq<usize>)
    requires
        shape.len() > 0,
    ensures
        elements(shape, shape.len()) == shape[0] * extent_below(shape, 0),
{
    lemma_elements_from(shape, 0);
    assert(elements(shape, 1) == elements(shape, 0) * shape[0]);
    assert(elements(shape, 0) == 1);
}

proof fn lemma_elements_from(shape: Seq<usize>, i: nat)
    requires
        i < shape.len(),
    ensures
        elements(shape, shape.len()) == elements(shape, i + 1) * extent_below(shape, i as int),
    decreases shape.len() - i,
{
    if i < shape.len() - 1 {
        lemma_elements_from(shape, i + 1);
        let before = elements(shape, i + 1);
        let next = shape[i as int + 1] as int;
        let below = extent_below(shape, i as int + 1);
        assert(elements(shape, i + 2) == before * next);
        assert((before * next) * below == before * (below * next)) by (nonlinear_arith);
    }
}

} // verus!

//! What plane operations compute: which lanes the generated expressions read, and what they
//! make of them.
use crate::dialect;
use crate::ir::{Variable, WarpInstruction};
use crate::meaning;
use crate::meaning::{Expr, Guard, LaneLoop, Operator, Step};
use crate::text;
use crate::warp;
use crate::warp::{Combination, SourceModel};
use vstd::prelude::*;

verus! {

/// The expression that reads the first lane of the plane.
pub open spec fn first_lane(source: SourceModel, comp: nat) -> Seq<char> {
    warp::component(source, "tt_plane_base"@, comp)
}

/// The expression that reads the lane that a loop is at.
pub open spec fn each_lane(source: SourceModel, comp: nat) -> Seq<char> {
    warp::component(source, "tt_plane_base + tt_lane"@, comp)
}

#[verifier::spinoff_prover]
#[verifier::rlimit(60)]
proof fn lemma_sum_is_a_loop(elem: Seq<char>, source: SourceModel, comp: nat)
    ensures
        warp::reduced(Combination::Sum, elem, source, comp) == (LaneLoop {
            start: None,
            from: 1,
            guard: Guard::All,
            step: Step::Add,
        }).shown(elem, first_lane(source, comp), each_lane(source, comp)),
{
    reveal_strlit(" ");
    reveal_strlit(" acc = ");
    reveal_strlit(" { ");
    reveal_strlit("([&]() -> ");
    reveal_strlit("([&]() -> $0 { $0 acc = $1; for (uint32_t tt_lane = 1; tt_lane < plane_dim_checked; ++tt_lane) { acc $2 $3; } return acc; })()");
    reveal_strlit("+=");
    reveal_strlit("; for (uint32_t tt_lane = ");
    reveal_strlit("; for (uint32_t tt_lane = 1; tt_lane < plane_dim_checked; ++tt_lane) { acc ");
    reveal_strlit("; tt_lane < plane_dim_checked; ++tt_lane) { ");
    reveal_strlit("; } return acc; })()");
    reveal_strlit("acc += ");
    let segments = seq!["([&]() -> "@, " { "@, " acc = "@, "; for (uint32_t tt_lane = 1; tt_lane < plane_dim_checked; ++tt_lane) { acc "@, " "@, "; } return acc; })()"@];
    let indices = seq![0nat, 0nat, 1nat, 2nat, 3nat];
    let args = seq![elem, first_lane(source, comp), "+="@, each_lane(source, comp)];
    reveal_with_fuel(text::skeleton, 6);
    reveal_with_fuel(text::fleshed, 6);
    assert(warp::REDUCE@ =~= text::skeleton(segments, indices, 0));
    text::law_segments_are_kept(segments, indices, args, 0);
    reveal_strlit("");
    let l = LaneLoop { start: None, from: 1, guard: Guard::All, step: Step::Add };
    assert(text::dec(1) =~= seq!['1']);
    assert(warp::reduced(Combination::Sum, elem, source, comp) =~= l.shown(
        elem,
        first_lane(source, comp),
        each_lane(source, comp),
    ));
}

#[verifier::spinoff_prover]
#[verifier::rlimit(60)]
proof fn lemma_product_is_a_loop(elem: Seq<char>, source: SourceModel, comp: nat)
    ensures
        warp::reduced(Combination::Product, elem, source, comp) == (LaneLoop {
            start: None,
            from: 1,
            guard: Guard::All,
            step: Step::Multiply,
        }).shown(elem, first_lane(source, comp), each_lane(source, comp)),
{
    reveal_strlit(" ");
    reveal_strlit(" acc = ");
    reveal_strlit(" { ");
    reveal_strlit("([&]() -> ");
    reveal_strlit("([&]() -> $0 { $0 acc = $1; for (uint32_t tt_lane = 1; tt_lane < plane_dim_checked; ++tt_lane) { acc $2 $3; } return acc; })()");
    reveal_strlit("*=");
    reveal_strlit("; for (uint32_t tt_lane = ");
    reveal_strlit("; for (uint32_t tt_lane = 1; tt_lane < plane_dim_checked; ++tt_lane) { acc ");
    reveal_strlit("; tt_lane < plane_dim_checked; ++tt_lane) { ");
    reveal_strlit("; } return acc; })()");
    reveal_strlit("acc *= ");
    let segments = seq!["([&]() -> "@, " { "@, " acc = "@, "; for (uint32_t tt_lane = 1; tt_lane < plane_dim_checked; ++tt_lane) { acc "@, " "@, "; } return acc; })()"@];
    let indices = seq![0nat, 0nat, 1nat, 2nat, 3nat];
    let args = seq![elem, first_lane(source, comp), "*="@, each_lane(source, comp)];
    reveal_with_fuel(text::skeleton, 6);
    reveal_with_fuel(text::fleshed, 6);
    assert(warp::REDUCE@ =~= text::skeleton(segments, indices, 0));
    text::law_segments_are_kept(segments, indices, args, 0);
    reveal_strlit("");
    let l = LaneLoop { start: None, from: 1, guard: Guard::All, step: Step::Multiply };
    assert(text::dec(1) =~= seq!['1']);
    assert(warp::reduced(Combination::Product, elem, source, comp) =~= l.shown(
        elem,
        first_lane(source, comp),
        each_lane(source, comp),
    ));
}

#[verifier::spinoff_prover]
#[verifier::rlimit(60)]
proof fn lemma_maximum_is_a_loop(elem: Seq<char>, source: SourceModel, comp: nat)
    ensures
        warp::reduced(Combination::Maximum, elem, source, comp) == (LaneLoop {
            start: None,
            from: 1,
            guard: Guard::All,
            step: Step::Greatest,
        }).shown(elem, first_lane(source, comp), each_lane(source, comp)),
{
    reveal_strlit(" acc = ");
    reveal_strlit(" { ");
    reveal_strlit("([&]() -> ");
    reveal_strlit("([&]() -> $0 { $0 acc = $1; for (uint32_t tt_lane = 1; tt_lane < plane_dim_checked; ++tt_lane) { acc = $2(acc, $3); } return acc; })()");
    reveal_strlit("(acc, ");
    reveal_strlit(")");
    reveal_strlit("); } return acc; })()");
    reveal_strlit("; for (uint32_t tt_lane = ");
    reveal_strlit("; for (uint32_t tt_lane = 1; tt_lane < plane_dim_checked; ++tt_lane) { acc = ");
    reveal_strlit("; tt_lane < plane_dim_checked; ++tt_lane) { ");
    reveal_strlit("; } return acc; })()");
    reveal_strlit("acc = max(acc, ");
    reveal_strlit("max");
    let segments = seq!["([&]() -> "@, " { "@, " acc = "@, "; for (uint32_t tt_lane = 1; tt_lane < plane_dim_checked; ++tt_lane) { acc = "@, "(acc, "@, "); } return acc; })()"@];
    let indices = seq![0nat, 0nat, 1nat, 2nat, 3nat];
    let args = seq![elem, first_lane(source, comp), "max"@, each_lane(source, comp)];
    reveal_with_fuel(text::skeleton, 6);
    reveal_with_fuel(text::fleshed, 6);
    assert(warp::REDUCE_BY_FUNCTION@ =~= text::skeleton(segments, indices, 0));
    text::law_segments_are_kept(segments, indices, args, 0);
    reveal_strlit("");
    let l = LaneLoop { start: None, from: 1, guard: Guard::All, step: Step::Greatest };
    assert(text::dec(1) =~= seq!['1']);
    assert(warp::reduced(Combination::Maximum, elem, source, comp) =~= l.shown(
        elem,
        first_lane(source, comp),
        each_lane(source, comp),
    ));
}

#[verifier::spinoff_prover]
#[verifier::rlimit(60)]
proof fn lemma_minimum_is_a_loop(elem: Seq<char>, source: SourceModel, comp: nat)
    ensures
        warp::reduced(Combination::Minimum, elem, source, comp) == (LaneLoop {
            start: None,
            from: 1,
            guard: Guard::All,
            step: Step::Least,
        }).shown(elem, first_lane(source, comp), each_lane(source, comp)),
{
    reveal_strlit(" acc = ");
    reveal_strlit(" { ");
    reveal_strlit("([&]() -> ");
    reveal_strlit("([&]() -> $0 { $0 acc = $1; for (uint32_t tt_lane = 1; tt_lane < plane_dim_checked; ++tt_lane) { acc = $2(acc, $3); } return acc; })()");
    reveal_strlit("(acc, ");
    reveal_strlit(")");
    reveal_strlit("); } return acc; })()");
    reveal_strlit("; for (uint32_t tt_lane = ");
    reveal_strlit("; for (uint32_t tt_lane = 1; tt_lane < plane_dim_checked; ++tt_lane) { acc = ");
    reveal_strlit("; tt_lane < plane_dim_checked; ++tt_lane) { ");
    reveal_strlit("; } return acc; })()");
    reveal_strlit("acc = min(acc, ");
    reveal_strlit("min");
    let segments = seq!["([&]() -> "@, " { "@, " acc = "@, "; for (uint32_t tt_lane = 1; tt_lane < plane_dim_checked; ++tt_lane) { acc = "@, "(acc, "@, "); } return acc; })()"@];
    let indices = seq![0nat, 0nat, 1nat, 2nat, 3nat];
    let args = seq![elem, first_lane(source, comp), "min"@, each_lane(source, comp)];
    reveal_with_fuel(text::skeleton, 6);
    reveal_with_fuel(text::fleshed, 6);
    assert(warp::REDUCE_BY_FUNCTION@ =~= text::skeleton(segments, indices, 0));
    text::law_segments_are_kept(segments, indices, args, 0);
    reveal_strlit("");
    let l = LaneLoop { start: None, from: 1, guard: Guard::All, step: Step::Least };
    assert(text::dec(1) =~= seq!['1']);
    assert(warp::reduced(Combination::Minimum, elem, source, comp) =~= l.shown(
        elem,
        first_lane(source, comp),
        each_lane(source, comp),
    ));
}

#[verifier::spinoff_prover]
#[verifier::rlimit(60)]
proof fn lemma_prefix_text(
    elem: Seq<char>,
    start: Seq<char>,
    lanes: Seq<char>,
    step: Seq<char>,
    each: Seq<char>,
)
    ensures
        text::fill(warp::PREFIX_REDUCE@, seq![elem, start, lanes, step, each]) == "([&]() -> "@ + elem + " { "@ + elem + " acc = "@ + start + "; for (uint32_t tt_lane = 0; tt_lane < plane_dim_checked; ++tt_lane) { if (tt_lane "@ + lanes + ") acc "@ + step + " "@ + each + "; } return acc; })()"@,
{
    reveal_strlit(" ");
    reveal_strlit(" acc = ");
    reveal_strlit(" { ");
    reveal_strlit("([&]() -> ");
    reveal_strlit("([&]() -> $0 { $0 acc = $1; for (uint32_t tt_lane = 0; tt_lane < plane_dim_checked; ++tt_lane) { if (tt_lane $2) acc $3 $4; } return acc; })()");
    reveal_strlit(") acc ");
    reveal_strlit("; for (uint32_t tt_lane = 0; tt_lane < plane_dim_checked; ++tt_lane) { if (tt_lane ");
    reveal_strlit("; } return acc; })()");
    let segments = seq!["([&]() -> "@, " { "@, " acc = "@, "; for (uint32_t tt_lane = 0; tt_lane < plane_dim_checked; ++tt_lane) { if (tt_lane "@, ") acc "@, " "@, "; } return acc; })()"@];
    let indices = seq![0nat, 0nat, 1nat, 2nat, 3nat, 4nat];
    let args = seq![elem, start, lanes, step, each];
    reveal_with_fuel(text::skeleton, 7);
    reveal_with_fuel(text::fleshed, 7);
    assert(warp::PREFIX_REDUCE@ =~= text::skeleton(segments, indices, 0));
    text::law_segments_are_kept(segments, indices, args, 0);
    assert(text::fill(warp::PREFIX_REDUCE@, args) =~= "([&]() -> "@ + elem + " { "@ + elem + " acc = "@ + start + "; for (uint32_t tt_lane = 0; tt_lane < plane_dim_checked; ++tt_lane) { if (tt_lane "@ + lanes + ") acc "@ + step + " "@ + each + "; } return acc; })()"@);
}

#[verifier::spinoff_prover]
#[verifier::rlimit(60)]
proof fn lemma_prefix_sum_exclusive(elem: Seq<char>, source: SourceModel, comp: nat)
    ensures
        warp::prefix_reduced(false, false, elem, source, comp) == prefix_loop(false, false).shown(
            elem,
            first_lane(source, comp),
            each_lane(source, comp),
        ),
{
    reveal_strlit(" ");
    reveal_strlit(" acc = ");
    reveal_strlit(" { ");
    reveal_strlit("([&]() -> ");
    reveal_strlit(") acc ");
    reveal_strlit("+=");
    reveal_strlit("0");
    reveal_strlit("; for (uint32_t tt_lane = ");
    reveal_strlit("; for (uint32_t tt_lane = 0; tt_lane < plane_dim_checked; ++tt_lane) { if (tt_lane ");
    reveal_strlit("; tt_lane < plane_dim_checked; ++tt_lane) { ");
    reveal_strlit("; } return acc; })()");
    reveal_strlit("< unit_pos_plane");
    reveal_strlit("acc += ");
    reveal_strlit("if (tt_lane < unit_pos_plane) ");
    lemma_prefix_text(elem, "0"@, "< unit_pos_plane"@, "+="@, each_lane(source, comp));
    assert(text::dec(0) =~= seq!['0']);
    assert(text::dec(1) =~= seq!['1']);
    assert(warp::prefix_reduced(false, false, elem, source, comp) =~= prefix_loop(false, false).shown(
        elem,
        first_lane(source, comp),
        each_lane(source, comp),
    ));
}

#[verifier::spinoff_prover]
#[verifier::rlimit(60)]
proof fn lemma_prefix_sum_inclusive(elem: Seq<char>, source: SourceModel, comp: nat)
    ensures
        warp::prefix_reduced(false, true, elem, source, comp) == prefix_loop(false, true).shown(
            elem,
            first_lane(source, comp),
            each_lane(source, comp),
        ),
{
    reveal_strlit(" ");
    reveal_strlit(" acc = ");
    reveal_strlit(" { ");
    reveal_strlit("([&]() -> ");
    reveal_strlit(") acc ");
    reveal_strlit("+=");
    reveal_strlit("0");
    reveal_strlit("; for (uint32_t tt_lane = ");
    reveal_strlit("; for (uint32_t tt_lane = 0; tt_lane < plane_dim_checked; ++tt_lane) { if (tt_lane ");
    reveal_strlit("; tt_lane < plane_dim_checked; ++tt_lane) { ");
    reveal_strlit("; } return acc; })()");
    reveal_strlit("<= unit_pos_plane");
    reveal_strlit("acc += ");
    reveal_strlit("if (tt_lane <= unit_pos_plane) ");
    lemma_prefix_text(elem, "0"@, "<= unit_pos_plane"@, "+="@, each_lane(source, comp));
    assert(text::dec(0) =~= seq!['0']);
    assert(text::dec(1) =~= seq!['1']);
    assert(warp::prefix_reduced(false, true, elem, source, comp) =~= prefix_loop(false, true).shown(
        elem,
        first_lane(source, comp),
        each_lane(source, comp),
    ));
}

#[verifier::spinoff_prover]
#[verifier::rlimit(60)]
proof fn lemma_prefix_product_exclusive(elem: Seq<char>, source: SourceModel, comp: nat)
    ensures
        warp::prefix_reduced(true, false, elem, source, comp) == prefix_loop(true, false).shown(
            elem,
            first_lane(source, comp),
            each_lane(source, comp),
        ),
{
    reveal_strlit(" ");
    reveal_strlit(" acc = ");
    reveal_strlit(" { ");
    reveal_strlit("([&]() -> ");
    reveal_strlit(") acc ");
    reveal_strlit("*=");
    reveal_strlit("1");
    reveal_strlit("; for (uint32_t tt_lane = ");
    reveal_strlit("; for (uint32_t tt_lane = 0; tt_lane < plane_dim_checked; ++tt_lane) { if (tt_lane ");
    reveal_strlit("; tt_lane < plane_dim_checked; ++tt_lane) { ");
    reveal_strlit("; } return acc; })()");
    reveal_strlit("< unit_pos_plane");
    reveal_strlit("acc *= ");
    reveal_strlit("if (tt_lane < unit_pos_plane) ");
    lemma_prefix_text(elem, "1"@, "< unit_pos_plane"@, "*="@, each_lane(source, comp));
    assert(text::dec(0) =~= seq!['0']);
    assert(text::dec(1) =~= seq!['1']);
    assert(warp::prefix_reduced(true, false, elem, source, comp) =~= prefix_loop(true, false).shown(
        elem,
        first_lane(source, comp),
        each_lane(source, comp),
    ));
}

#[verifier::spinoff_prover]
#[verifier::rlimit(60)]
proof fn lemma_prefix_product_inclusive(elem: Seq<char>, source: SourceModel, comp: nat)
    ensures
        warp::prefix_reduced(true, true, elem, source, comp) == prefix_loop(true, true).shown(
            elem,
            first_lane(source, comp),
            each_lane(source, comp),
        ),
{
    reveal_strlit(" ");
    reveal_strlit(" acc = ");
    reveal_strlit(" { ");
    reveal_strlit("([&]() -> ");
    reveal_strlit(") acc ");
    reveal_strlit("*=");
    reveal_strlit("1");
    reveal_strlit("; for (uint32_t tt_lane = ");
    reveal_strlit("; for (uint32_t tt_lane = 0; tt_lane < plane_dim_checked; ++tt_lane) { if (tt_lane ");
    reveal_strlit("; tt_lane < plane_dim_checked; ++tt_lane) { ");
    reveal_strlit("; } return acc; })()");
    reveal_strlit("<= unit_pos_plane");
    reveal_strlit("acc *= ");
    reveal_strlit("if (tt_lane <= unit_pos_plane) ");
    lemma_prefix_text(elem, "1"@, "<= unit_pos_plane"@, "*="@, each_lane(source, comp));
    assert(text::dec(0) =~= seq!['0']);
    assert(text::dec(1) =~= seq!['1']);
    assert(warp::prefix_reduced(true, true, elem, source, comp) =~= prefix_loop(true, true).shown(
        elem,
        first_lane(source, comp),
        each_lane(source, comp),
    ));
}

spec fn prefix_loop(product: bool, inclusive: bool) -> LaneLoop {
    LaneLoop {
        start: if product {
            Some(1nat)
        } else {
            Some(0nat)
        },
        from: 0,
        guard: if inclusive {
            Guard::UpToOwn
        } else {
            Guard::BeforeOwn
        },
        step: if product {
            Step::Multiply
        } else {
            Step::Add
        },
    }
}

/// Whether a component of the result of a plane operation comes to the given value, in the
/// unit of lane `own`, where the lanes of the plane hold the given numbers.
pub open spec fn combines_to(
    operation: WarpInstruction,
    source: SourceModel,
    comp: nat,
    lanes: Seq<int>,
    own: int,
    expected: int,
) -> bool {
    meaning::loops_to(
        warp::result_component(operation, source, comp),
        dialect::elem_text(warp::warp_out(operation).item.elem),
        first_lane(source, comp),
        each_lane(source, comp),
        lanes,
        own,
        expected,
    )
}

/// A plane minimum is one of the values of the lanes, and no lane has a smaller one; a plane
/// maximum is one of them, and no lane has a greater one.
pub proof fn law_plane_extremes_are_extreme(
    input: Variable,
    out: Variable,
    source: SourceModel,
    comp: nat,
    lanes: Seq<int>,
    own: int,
)
    requires
        lanes.len() > 0,
    ensures
        exists|least: int| #[trigger]
            combines_to(
                WarpInstruction::ReduceMin { input, out },
                source,
                comp,
                lanes,
                own,
                least,
            ) && lanes.contains(least) && forall|i: int|
                0 <= i < lanes.len() ==> least <= #[trigger] lanes[i],
        exists|greatest: int| #[trigger]
            combines_to(
                WarpInstruction::ReduceMax { input, out },
                source,
                comp,
                lanes,
                own,
                greatest,
            ) && lanes.contains(greatest) && forall|i: int|
                0 <= i < lanes.len() ==> greatest >= #[trigger] lanes[i],
{
    let elem = dialect::elem_text(out.item.elem);
    let least = LaneLoop { start: None, from: 1, guard: Guard::All, step: Step::Least };
    let greatest = LaneLoop { start: None, from: 1, guard: Guard::All, step: Step::Greatest };
    lemma_minimum_is_a_loop(elem, source, comp);
    lemma_maximum_is_a_loop(elem, source, comp);
    meaning::law_loops_find_the_extremes(least, lanes, own, lanes.len());
    meaning::law_loops_find_the_extremes(greatest, lanes, own, lanes.len());
    assert(combines_to(
        WarpInstruction::ReduceMin { input, out },
        source,
        comp,
        lanes,
        own,
        least.result(lanes, own),
    ));
    assert(combines_to(
        WarpInstruction::ReduceMax { input, out },
        source,
        comp,
        lanes,
        own,
        greatest.result(lanes, own),
    ));
}

/// A plane sum is the sum of the values of the lanes, and a plane product their product.
pub proof fn law_plane_totals_are_totals(
    input: Variable,
    out: Variable,
    source: SourceModel,
    comp: nat,
    lanes: Seq<int>,
    own: int,
)
    requires
        lanes.len() > 0,
    ensures
        combines_to(
            WarpInstruction::ReduceSum { input, out },
            source,
            comp,
            lanes,
            own,
            meaning::sum(lanes),
        ),
        combines_to(
            WarpInstruction::ReduceProd { input, out },
            source,
            comp,
            lanes,
            own,
            meaning::product(lanes),
        ),
{
    let elem = dialect::elem_text(out.item.elem);
    let added = LaneLoop { start: None, from: 1, guard: Guard::All, step: Step::Add };
    let multiplied = LaneLoop { start: None, from: 1, guard: Guard::All, step: Step::Multiply };
    lemma_sum_is_a_loop(elem, source, comp);
    lemma_product_is_a_loop(elem, source, comp);
    assert(lanes.take(lanes.len() as int) =~= lanes);
    meaning::law_loops_add_and_multiply(added, lanes, own, lanes.len());
    meaning::law_loops_add_and_multiply(multiplied, lanes, own, lanes.len());
    assert(added.result(lanes, own) == meaning::sum(lanes));
    assert(multiplied.result(lanes, own) == meaning::product(lanes));
}

proof fn lemma_prefix_comes_to(product: bool, inclusive: bool, lanes: Seq<int>, own: int)
    requires
        0 <= own < lanes.len(),
    ensures
        prefix_loop(product, inclusive).result(lanes, own) == ({
            let taken = lanes.take(if inclusive {
                own + 1
            } else {
                own
            });
            if product {
                meaning::product(taken)
            } else {
                meaning::sum(taken)
            }
        }),
{
    let l = prefix_loop(product, inclusive);
    let open = LaneLoop { guard: Guard::All, ..l };
    let admitted: nat = if inclusive {
        (own + 1) as nat
    } else {
        own as nat
    };
    meaning::law_guards_cut_off(l, lanes, own, lanes.len());
    if admitted > 0 {
        meaning::law_loops_add_and_multiply(open, lanes, own, admitted);
    } else {
        assert(lanes.take(0) =~= Seq::<int>::empty());
        reveal_with_fuel(Seq::fold_left, 2);
    }
}

/// An inclusive prefix takes in the lanes up to that of the unit and its own, an exclusive
/// one those before it.
pub proof fn law_plane_prefixes_end_at_the_unit(
    input: Variable,
    out: Variable,
    source: SourceModel,
    comp: nat,
    lanes: Seq<int>,
    own: int,
)
    requires
        0 <= own < lanes.len(),
    ensures
        combines_to(
            WarpInstruction::InclusiveSum { input, out },
            source,
            comp,
            lanes,
            own,
            meaning::sum(lanes.take(own + 1)),
        ),
        combines_to(
            WarpInstruction::ExclusiveSum { input, out },
            source,
            comp,
            lanes,
            own,
            meaning::sum(lanes.take(own)),
        ),
        combines_to(
            WarpInstruction::InclusiveProd { input, out },
            source,
            comp,
            lanes,
            own,
            meaning::product(lanes.take(own + 1)),
        ),
        combines_to(
            WarpInstruction::ExclusiveProd { input, out },
            source,
            comp,
            lanes,
            own,
            meaning::product(lanes.take(own)),
        ),
{
    let elem = dialect::elem_text(out.item.elem);
    lemma_prefix_sum_inclusive(elem, source, comp);
    lemma_prefix_sum_exclusive(elem, source, comp);
    lemma_prefix_product_inclusive(elem, source, comp);
    lemma_prefix_product_exclusive(elem, source, comp);
    lemma_prefix_comes_to(false, true, lanes, own);
    lemma_prefix_comes_to(false, false, lanes, own);
    lemma_prefix_comes_to(true, true, lanes, own);
    lemma_prefix_comes_to(true, false, lanes, own);
}

/// A lane's value in a snapshot stands at the lane's place, and a component of a vector is
/// the field of its number.
#[verifier::spinoff_prover]
#[verifier::rlimit(60)]
pub proof fn law_lanes_stand_at_their_places(
    name: Seq<char>,
    item: crate::ir::Item,
    op: warp::TtWarpComparison,
    constant: Seq<char>,
    at: Seq<char>,
    comp: nat,
)
    ensures
        ({
            let value = name + "["@ + at + "]"@ + (if item.vectorization > 1 {
                ".i_"@ + text::dec(comp)
            } else {
                ""@
            });
            &&& warp::component(SourceModel::Snapshot { name, item }, at, comp) == value
            &&& warp::component(
                SourceModel::CompareConst { name, item, op, constant },
                at,
                comp,
            ) == "(("@ + value + (if op is Less {
                ") < ("@
            } else {
                ") > ("@
            }) + constant + "))"@
        }),
{
    let value = name + "["@ + at + "]"@ + (if item.vectorization > 1 {
        ".i_"@ + text::dec(comp)
    } else {
        ""@
    });
    lemma_snapshot_component(name, item, at, comp);
    let sign = if op is Less {
        "<"@
    } else {
        ">"@
    };
    lemma_comparison(value, sign, constant);
    reveal_strlit("<");
    reveal_strlit(">");
    reveal_strlit(") < (");
    reveal_strlit(") > (");
    reveal_strlit("((");
    reveal_strlit(") ");
    reveal_strlit(" (");
    reveal_strlit("))");
    if op is Less {
        assert("(("@ + value + ") "@ + "<"@ + " ("@ + constant + "))"@ =~= "(("@ + value + ") < ("@
            + constant + "))"@);
    } else {
        assert("(("@ + value + ") "@ + ">"@ + " ("@ + constant + "))"@ =~= "(("@ + value + ") > ("@
            + constant + "))"@);
    }
}

#[verifier::spinoff_prover]
#[verifier::rlimit(60)]
proof fn lemma_comparison(a: Seq<char>, sign: Seq<char>, b: Seq<char>)
    ensures
        text::fill(warp::COMPARISON@, seq![a, sign, b]) == "(("@ + a + ") "@ + sign + " ("@ + b
            + "))"@,
{
    reveal_strlit(" (");
    reveal_strlit("((");
    reveal_strlit("(($0) $1 ($2))");
    reveal_strlit(") ");
    reveal_strlit("))");
    let segments = seq!["(("@, ") "@, " ("@, "))"@];
    let indices = seq![0nat, 1nat, 2nat];
    let args = seq![a, sign, b];
    reveal_with_fuel(text::skeleton, 4);
    reveal_with_fuel(text::fleshed, 4);
    assert(warp::COMPARISON@ =~= text::skeleton(segments, indices, 0));
    text::law_segments_are_kept(segments, indices, args, 0);
    assert(text::fill(warp::COMPARISON@, args) =~= "(("@ + a + ") "@ + sign + " ("@ + b + "))"@);
}

#[verifier::spinoff_prover]
#[verifier::rlimit(60)]
proof fn lemma_snapshot_component(name: Seq<char>, item: crate::ir::Item, at: Seq<char>, comp: nat)
    ensures
        warp::snapshot_component(name, item, at, comp) == name + "["@ + at + "]"@ + (
        if item.vectorization > 1 {
            ".i_"@ + text::dec(comp)
        } else {
            ""@
        }),
{
    reveal_strlit("");
    reveal_strlit(".i_");
    if item.vectorization > 1 {
        reveal_strlit("$0[$1].i_$2");
        reveal_strlit("[");
        reveal_strlit("]");
        reveal_strlit("].i_");
        reveal_strlit("");
        let segments = seq![""@, "["@, "].i_"@, ""@];
        let indices = seq![0nat, 1nat, 2nat];
        let args = seq![name, at, text::dec(comp)];
        reveal_with_fuel(text::skeleton, 4);
        reveal_with_fuel(text::fleshed, 4);
        assert(warp::VECTOR_COMPONENT@ =~= text::skeleton(segments, indices, 0));
        text::law_segments_are_kept(segments, indices, args, 0);
        assert(text::fill(warp::VECTOR_COMPONENT@, args) =~= name + "["@ + at + "]"@ + (".i_"@
            + text::dec(comp)));
    } else {
        reveal_strlit("$0[$1]");
        reveal_strlit("[");
        reveal_strlit("]");
        reveal_strlit("");
        let segments = seq![""@, "["@, "]"@];
        let indices = seq![0nat, 1nat];
        let args = seq![name, at];
        reveal_with_fuel(text::skeleton, 3);
        reveal_with_fuel(text::fleshed, 3);
        assert(warp::SCALAR_COMPONENT@ =~= text::skeleton(segments, indices, 0));
        text::law_segments_are_kept(segments, indices, args, 0);
        assert(text::fill(warp::SCALAR_COMPONENT@, args) =~= name + "["@ + at + "]"@ + ""@);
    }
}

/// Whether the names of a source have the values that they have in the unit of lane `own`
/// of a plane of `count` lanes.
pub open spec fn are_names_of_lane(names: Map<Seq<char>, int>, base: int, own: int, count: int) -> bool {
    &&& 0 <= own < count <= 32
    &&& 0 <= base <= u32::MAX - 64
    &&& names["tt_plane_base"@] == base
    &&& names["unit_pos_plane"@] == own
    &&& names["plane_dim_checked"@] == count
}

/// Whether an expression reads the lane at the given place of the tile.
pub open spec fn reads_lane(
    expression: Seq<char>,
    elem: Seq<char>,
    source: SourceModel,
    comp: nat,
    names: Map<Seq<char>, int>,
    expected: int,
) -> bool {
    ||| exists|place: Expr|
        expression == warp::component(source, #[trigger] meaning::shown(place), comp)
            && meaning::comes_to(place, names, expected)
    ||| exists|locals: Seq<(Seq<char>, Expr)>, condition: Expr, chosen: Expr, other: Expr|
        expression == #[trigger] meaning::shown_pick(
            elem,
            locals,
            condition,
            warp::component(source, meaning::shown(chosen), comp),
            warp::component(source, meaning::shown(other), comp),
        ) && {
            let behind = meaning::behind_locals(locals, names);
            if meaning::value(condition, behind) != 0 {
                meaning::comes_to(chosen, behind, expected)
            } else {
                meaning::comes_to(other, behind, expected)
            }
        }
}

#[verifier::spinoff_prover]
#[verifier::rlimit(60)]
proof fn lemma_chosen_lane(
    name: Seq<char>,
    names: Map<Seq<char>, int>,
    base: int,
    own: int,
    count: int,
    id: int,
)
    requires
        are_names_of_lane(names, base, own, count),
        names[name] == id,
        0 <= id <= u32::MAX,
    ensures
        exists|place: Expr|
            text::fill(warp::CHOSEN_LANE@, seq![name]) == #[trigger] meaning::shown(place)
                && meaning::comes_to(
                place,
                names,
                if id < count {
                    base + id
                } else {
                    base + own
                },
            ),
{
    reveal_strlit(" + ");
    reveal_strlit(" : ");
    reveal_strlit(" < ");
    reveal_strlit(" ? ");
    reveal_strlit("(");
    reveal_strlit("(uint32_t)(");
    reveal_strlit(")");
    reveal_strlit(") : unit_pos_plane)");
    reveal_strlit(") < plane_dim_checked ? uint32_t(");
    reveal_strlit("plane_dim_checked");
    reveal_strlit("tt_plane_base");
    reveal_strlit("tt_plane_base + ((uint32_t)(");
    reveal_strlit("tt_plane_base + ((uint32_t)($0) < plane_dim_checked ? uint32_t($0) : unit_pos_plane)");
    reveal_strlit("uint32_t(");
    reveal_strlit("unit_pos_plane");
    let segments = seq!["tt_plane_base + ((uint32_t)("@, ") < plane_dim_checked ? uint32_t("@, ") : unit_pos_plane)"@];
    let indices = seq![0nat, 0nat];
    let args = seq![name];
    reveal_with_fuel(text::skeleton, 3);
    reveal_with_fuel(text::fleshed, 3);
    assert(warp::CHOSEN_LANE@ =~= text::skeleton(segments, indices, 0));
    text::law_segments_are_kept(segments, indices, args, 0);
    reveal_with_fuel(meaning::shown, 8);
    reveal_with_fuel(meaning::value, 8);
    reveal_with_fuel(meaning::is_exact, 8);
    reveal_with_fuel(meaning::is_read_back, 8);
    let place = meaning::binary(Operator::Plus, meaning::named("tt_plane_base"@), meaning::group(meaning::choice(meaning::binary(Operator::Less, Expr::Prefix(Box::new(meaning::named(name))), meaning::named("plane_dim_checked"@)), Expr::Cast(Box::new(meaning::named(name))), meaning::named("unit_pos_plane"@))));
    assert(text::fill(warp::CHOSEN_LANE@, args) =~= meaning::shown(place));
    assert(meaning::comes_to(
        place,
        names,
        if id < count {
            base + id
        } else {
            base + own
        },
    ));
}

#[verifier::spinoff_prover]
#[verifier::rlimit(60)]
proof fn lemma_shuffle_xor_text(elem: Seq<char>, name: Seq<char>, chosen: Seq<char>, other: Seq<char>)
    ensures
        text::fill(warp::SHUFFLE_XOR@, seq![elem, name, chosen, other]) == meaning::shown_pick(
            elem,
            seq![("tt_src"@, meaning::binary(Operator::Xor, meaning::named("unit_pos_plane"@), Expr::Cast(Box::new(meaning::named(name)))))],
            meaning::binary(Operator::Less, meaning::named("tt_src"@), meaning::named("plane_dim_checked"@)),
            chosen,
            other,
        ),
{
    reveal_strlit(" + ");
    reveal_strlit(" < ");
    reveal_strlit(" = ");
    reveal_strlit(" ^ ");
    reveal_strlit(" { ");
    reveal_strlit(" { uint32_t tt_src = unit_pos_plane ^ uint32_t(");
    reveal_strlit("([&]() -> ");
    reveal_strlit("([&]() -> $0 { uint32_t tt_src = unit_pos_plane ^ uint32_t($1); if (tt_src < plane_dim_checked) return $2; return $3; })()");
    reveal_strlit(")");
    reveal_strlit(") return ");
    reveal_strlit("); if (tt_src < plane_dim_checked) return ");
    reveal_strlit("; ");
    reveal_strlit("; return ");
    reveal_strlit("; })()");
    reveal_strlit("if (");
    reveal_strlit("plane_dim_checked");
    reveal_strlit("tt_plane_base");
    reveal_strlit("tt_plane_base + tt_src");
    reveal_strlit("tt_plane_base + unit_pos_plane");
    reveal_strlit("tt_src");
    reveal_strlit("uint32_t ");
    reveal_strlit("uint32_t(");
    reveal_strlit("unit_pos_plane");
    let segments = seq!["([&]() -> "@, " { uint32_t tt_src = unit_pos_plane ^ uint32_t("@, "); if (tt_src < plane_dim_checked) return "@, "; return "@, "; })()"@];
    let indices = seq![0nat, 1nat, 2nat, 3nat];
    let args = seq![elem, name, chosen, other];
    reveal_with_fuel(text::skeleton, 5);
    reveal_with_fuel(text::fleshed, 5);
    assert(warp::SHUFFLE_XOR@ =~= text::skeleton(segments, indices, 0));
    text::law_segments_are_kept(segments, indices, args, 0);
    reveal_with_fuel(meaning::shown, 8);
    reveal_with_fuel(meaning::shown_locals, 4);
    reveal_strlit("");
    let locals = seq![("tt_src"@, meaning::binary(Operator::Xor, meaning::named("unit_pos_plane"@), Expr::Cast(Box::new(meaning::named(name)))))];
    let condition = meaning::binary(Operator::Less, meaning::named("tt_src"@), meaning::named("plane_dim_checked"@));
    assert(locals.skip(1) =~= Seq::<(Seq<char>, Expr)>::empty());
    assert(text::fill(warp::SHUFFLE_XOR@, args) =~= meaning::shown_pick(
        elem,
        locals,
        condition,
        chosen,
        other,
    ));
}

#[verifier::spinoff_prover]
#[verifier::rlimit(60)]
proof fn lemma_shuffle_xor(
    elem: Seq<char>,
    name: Seq<char>,
    source: SourceModel,
    comp: nat,
    names: Map<Seq<char>, int>,
    base: int,
    own: int,
    count: int,
    given: int,
)
    requires
        are_names_of_lane(names, base, own, count),
        names[name] == given,
        0 <= given <= u32::MAX,
    ensures
        reads_lane(
            text::fill(
                warp::SHUFFLE_XOR@,
                seq![
                    elem,
                    name,
                    warp::component(source, "tt_plane_base + tt_src"@, comp),
                    warp::component(source, "tt_plane_base + unit_pos_plane"@, comp),
                ],
            ),
            elem,
            source,
            comp,
            names,
            if (own as u32 ^ given as u32) < count {
                base + (own as u32 ^ given as u32)
            } else {
                base + own
            },
        ),
{
    reveal_strlit(" + ");
    reveal_strlit(" - ");
    reveal_strlit("plane_dim_checked");
    reveal_strlit("tt_delta");
    reveal_strlit("tt_plane_base");
    reveal_strlit("tt_plane_base + tt_src");
    reveal_strlit("tt_plane_base + unit_pos_plane");
    reveal_strlit("tt_src");
    reveal_strlit("unit_pos_plane");
    lemma_shuffle_xor_text(elem, name, warp::component(source, "tt_plane_base + tt_src"@, comp), warp::component(source, "tt_plane_base + unit_pos_plane"@, comp));
    reveal_with_fuel(meaning::shown, 8);
    reveal_with_fuel(meaning::value, 8);
    reveal_with_fuel(meaning::is_exact, 8);
    reveal_with_fuel(meaning::is_read_back, 8);
    reveal_with_fuel(meaning::behind_locals, 4);
    reveal_strlit("");
    let locals = seq![("tt_src"@, meaning::binary(Operator::Xor, meaning::named("unit_pos_plane"@), Expr::Cast(Box::new(meaning::named(name)))))];
    let condition = meaning::binary(Operator::Less, meaning::named("tt_src"@), meaning::named("plane_dim_checked"@));
    let chosen = meaning::binary(Operator::Plus, meaning::named("tt_plane_base"@), meaning::named("tt_src"@));
    let other = meaning::binary(Operator::Plus, meaning::named("tt_plane_base"@), meaning::named("unit_pos_plane"@));
    assert(meaning::shown(chosen) =~= "tt_plane_base + tt_src"@);
    assert(meaning::shown(other) =~= "tt_plane_base + unit_pos_plane"@);
    assert(locals.skip(1) =~= Seq::<(Seq<char>, Expr)>::empty());
    assert("tt_src"@.len() != "tt_plane_base"@.len());
    assert("tt_src"@.len() != "unit_pos_plane"@.len());
    assert("tt_src"@.len() != "plane_dim_checked"@.len());
    assert((own as u32) ^ (given as u32) <= u32::MAX);
    let behind = meaning::behind_locals(locals, names);
    assert(behind["tt_plane_base"@] == base);
    assert(behind["unit_pos_plane"@] == own);
    assert(behind["plane_dim_checked"@] == count);
    let expected = if (own as u32 ^ given as u32) < count {
        base + (own as u32 ^ given as u32)
    } else {
        base + own
    };
    if meaning::value(condition, behind) != 0 {
        assert(meaning::comes_to(chosen, behind, expected));
    } else {
        assert(meaning::comes_to(other, behind, expected));
    }
}

#[verifier::spinoff_prover]
#[verifier::rlimit(60)]
proof fn lemma_shuffle_up_text(elem: Seq<char>, name: Seq<char>, chosen: Seq<char>, other: Seq<char>)
    ensures
        text::fill(warp::SHUFFLE_UP@, seq![elem, name, chosen, other]) == meaning::shown_pick(
            elem,
            seq![("tt_delta"@, Expr::Cast(Box::new(meaning::named(name))))],
            meaning::binary(Operator::AtLeast, meaning::named("unit_pos_plane"@), meaning::named("tt_delta"@)),
            chosen,
            other,
        ),
{
    reveal_strlit(" + ");
    reveal_strlit(" - ");
    reveal_strlit(" = ");
    reveal_strlit(" >= ");
    reveal_strlit(" { ");
    reveal_strlit(" { uint32_t tt_delta = uint32_t(");
    reveal_strlit("([&]() -> ");
    reveal_strlit("([&]() -> $0 { uint32_t tt_delta = uint32_t($1); if (unit_pos_plane >= tt_delta) return $2; return $3; })()");
    reveal_strlit(")");
    reveal_strlit(") return ");
    reveal_strlit("); if (unit_pos_plane >= tt_delta) return ");
    reveal_strlit("; ");
    reveal_strlit("; return ");
    reveal_strlit("; })()");
    reveal_strlit("if (");
    reveal_strlit("tt_delta");
    reveal_strlit("tt_plane_base");
    reveal_strlit("tt_plane_base + unit_pos_plane");
    reveal_strlit("tt_plane_base + unit_pos_plane - tt_delta");
    reveal_strlit("uint32_t ");
    reveal_strlit("uint32_t(");
    reveal_strlit("unit_pos_plane");
    let segments = seq!["([&]() -> "@, " { uint32_t tt_delta = uint32_t("@, "); if (unit_pos_plane >= tt_delta) return "@, "; return "@, "; })()"@];
    let indices = seq![0nat, 1nat, 2nat, 3nat];
    let args = seq![elem, name, chosen, other];
    reveal_with_fuel(text::skeleton, 5);
    reveal_with_fuel(text::fleshed, 5);
    assert(warp::SHUFFLE_UP@ =~= text::skeleton(segments, indices, 0));
    text::law_segments_are_kept(segments, indices, args, 0);
    reveal_with_fuel(meaning::shown, 8);
    reveal_with_fuel(meaning::shown_locals, 4);
    reveal_strlit("");
    let locals = seq![("tt_delta"@, Expr::Cast(Box::new(meaning::named(name))))];
    let condition = meaning::binary(Operator::AtLeast, meaning::named("unit_pos_plane"@), meaning::named("tt_delta"@));
    assert(locals.skip(1) =~= Seq::<(Seq<char>, Expr)>::empty());
    assert(text::fill(warp::SHUFFLE_UP@, args) =~= meaning::shown_pick(
        elem,
        locals,
        condition,
        chosen,
        other,
    ));
}

#[verifier::spinoff_prover]
#[verifier::rlimit(60)]
proof fn lemma_shuffle_up(
    elem: Seq<char>,
    name: Seq<char>,
    source: SourceModel,
    comp: nat,
    names: Map<Seq<char>, int>,
    base: int,
    own: int,
    count: int,
    given: int,
)
    requires
        are_names_of_lane(names, base, own, count),
        names[name] == given,
        0 <= given <= u32::MAX,
    ensures
        reads_lane(
            text::fill(
                warp::SHUFFLE_UP@,
                seq![
                    elem,
                    name,
                    warp::component(source, "tt_plane_base + unit_pos_plane - tt_delta"@, comp),
                    warp::component(source, "tt_plane_base + unit_pos_plane"@, comp),
                ],
            ),
            elem,
            source,
            comp,
            names,
            if own >= given {
                base + own - given
            } else {
                base + own
            },
        ),
{
    reveal_strlit(" + ");
    reveal_strlit(" - ");
    reveal_strlit("plane_dim_checked");
    reveal_strlit("tt_delta");
    reveal_strlit("tt_plane_base");
    reveal_strlit("tt_plane_base + unit_pos_plane");
    reveal_strlit("tt_plane_base + unit_pos_plane - tt_delta");
    reveal_strlit("tt_src");
    reveal_strlit("unit_pos_plane");
    lemma_shuffle_up_text(elem, name, warp::component(source, "tt_plane_base + unit_pos_plane - tt_delta"@, comp), warp::component(source, "tt_plane_base + unit_pos_plane"@, comp));
    reveal_with_fuel(meaning::shown, 8);
    reveal_with_fuel(meaning::value, 8);
    reveal_with_fuel(meaning::is_exact, 8);
    reveal_with_fuel(meaning::is_read_back, 8);
    reveal_with_fuel(meaning::behind_locals, 4);
    reveal_strlit("");
    let locals = seq![("tt_delta"@, Expr::Cast(Box::new(meaning::named(name))))];
    let condition = meaning::binary(Operator::AtLeast, meaning::named("unit_pos_plane"@), meaning::named("tt_delta"@));
    let chosen = meaning::binary(Operator::Minus, meaning::binary(Operator::Plus, meaning::named("tt_plane_base"@), meaning::named("unit_pos_plane"@)), meaning::named("tt_delta"@));
    let other = meaning::binary(Operator::Plus, meaning::named("tt_plane_base"@), meaning::named("unit_pos_plane"@));
    assert(meaning::shown(chosen) =~= "tt_plane_base + unit_pos_plane - tt_delta"@);
    assert(meaning::shown(other) =~= "tt_plane_base + unit_pos_plane"@);
    assert(locals.skip(1) =~= Seq::<(Seq<char>, Expr)>::empty());
    assert("tt_delta"@.len() != "tt_plane_base"@.len());
    assert("tt_delta"@.len() != "unit_pos_plane"@.len());
    assert("tt_delta"@.len() != "plane_dim_checked"@.len());
    let behind = meaning::behind_locals(locals, names);
    assert(behind["tt_plane_base"@] == base);
    assert(behind["unit_pos_plane"@] == own);
    assert(behind["plane_dim_checked"@] == count);
    let expected = if own >= given {
        base + own - given
    } else {
        base + own
    };
    if meaning::value(condition, behind) != 0 {
        assert(meaning::comes_to(chosen, behind, expected));
    } else {
        assert(meaning::comes_to(other, behind, expected));
    }
}

#[verifier::spinoff_prover]
#[verifier::rlimit(60)]
proof fn lemma_shuffle_down_text(elem: Seq<char>, name: Seq<char>, chosen: Seq<char>, other: Seq<char>)
    ensures
        text::fill(warp::SHUFFLE_DOWN@, seq![elem, name, chosen, other]) == meaning::shown_pick(
            elem,
            seq![("tt_delta"@, Expr::Cast(Box::new(meaning::named(name)))), ("tt_src"@, meaning::binary(Operator::Plus, meaning::named("unit_pos_plane"@), meaning::named("tt_delta"@)))],
            meaning::binary(Operator::Less, meaning::named("tt_src"@), meaning::named("plane_dim_checked"@)),
            chosen,
            other,
        ),
{
    reveal_strlit(" + ");
    reveal_strlit(" < ");
    reveal_strlit(" = ");
    reveal_strlit(" { ");
    reveal_strlit(" { uint32_t tt_delta = uint32_t(");
    reveal_strlit("([&]() -> ");
    reveal_strlit("([&]() -> $0 { uint32_t tt_delta = uint32_t($1); uint32_t tt_src = unit_pos_plane + tt_delta; if (tt_src < plane_dim_checked) return $2; return $3; })()");
    reveal_strlit(")");
    reveal_strlit(") return ");
    reveal_strlit("); uint32_t tt_src = unit_pos_plane + tt_delta; if (tt_src < plane_dim_checked) return ");
    reveal_strlit("; ");
    reveal_strlit("; return ");
    reveal_strlit("; })()");
    reveal_strlit("if (");
    reveal_strlit("plane_dim_checked");
    reveal_strlit("tt_delta");
    reveal_strlit("tt_plane_base");
    reveal_strlit("tt_plane_base + tt_src");
    reveal_strlit("tt_plane_base + unit_pos_plane");
    reveal_strlit("tt_src");
    reveal_strlit("uint32_t ");
    reveal_strlit("uint32_t(");
    reveal_strlit("unit_pos_plane");
    let segments = seq!["([&]() -> "@, " { uint32_t tt_delta = uint32_t("@, "); uint32_t tt_src = unit_pos_plane + tt_delta; if (tt_src < plane_dim_checked) return "@, "; return "@, "; })()"@];
    let indices = seq![0nat, 1nat, 2nat, 3nat];
    let args = seq![elem, name, chosen, other];
    reveal_with_fuel(text::skeleton, 5);
    reveal_with_fuel(text::fleshed, 5);
    assert(warp::SHUFFLE_DOWN@ =~= text::skeleton(segments, indices, 0));
    text::law_segments_are_kept(segments, indices, args, 0);
    reveal_with_fuel(meaning::shown, 8);
    reveal_with_fuel(meaning::shown_locals, 4);
    reveal_strlit("");
    let locals = seq![("tt_delta"@, Expr::Cast(Box::new(meaning::named(name)))), ("tt_src"@, meaning::binary(Operator::Plus, meaning::named("unit_pos_plane"@), meaning::named("tt_delta"@)))];
    let condition = meaning::binary(Operator::Less, meaning::named("tt_src"@), meaning::named("plane_dim_checked"@));
    assert(locals.skip(1) =~= seq![locals[1]]);
    assert(locals.skip(1).skip(1) =~= Seq::<(Seq<char>, Expr)>::empty());
    assert(text::fill(warp::SHUFFLE_DOWN@, args) =~= meaning::shown_pick(
        elem,
        locals,
        condition,
        chosen,
        other,
    ));
}

#[verifier::spinoff_prover]
#[verifier::rlimit(60)]
proof fn lemma_shuffle_down(
    elem: Seq<char>,
    name: Seq<char>,
    source: SourceModel,
    comp: nat,
    names: Map<Seq<char>, int>,
    base: int,
    own: int,
    count: int,
    given: int,
)
    requires
        are_names_of_lane(names, base, own, count),
        names[name] == given,
        0 <= given <= u32::MAX,
        own + given <= u32::MAX,
    ensures
        reads_lane(
            text::fill(
                warp::SHUFFLE_DOWN@,
                seq![
                    elem,
                    name,
                    warp::component(source, "tt_plane_base + tt_src"@, comp),
                    warp::component(source, "tt_plane_base + unit_pos_plane"@, comp),
                ],
            ),
            elem,
            source,
            comp,
            names,
            if own + given < count {
                base + own + given
            } else {
                base + own
            },
        ),
{
    reveal_strlit(" + ");
    reveal_strlit(" - ");
    reveal_strlit("plane_dim_checked");
    reveal_strlit("tt_delta");
    reveal_strlit("tt_plane_base");
    reveal_strlit("tt_plane_base + tt_src");
    reveal_strlit("tt_plane_base + unit_pos_plane");
    reveal_strlit("tt_src");
    reveal_strlit("unit_pos_plane");
    lemma_shuffle_down_text(elem, name, warp::component(source, "tt_plane_base + tt_src"@, comp), warp::component(source, "tt_plane_base + unit_pos_plane"@, comp));
    reveal_with_fuel(meaning::shown, 8);
    reveal_with_fuel(meaning::value, 8);
    reveal_with_fuel(meaning::is_exact, 8);
    reveal_with_fuel(meaning::is_read_back, 8);
    reveal_with_fuel(meaning::behind_locals, 4);
    reveal_strlit("");
    let locals = seq![("tt_delta"@, Expr::Cast(Box::new(meaning::named(name)))), ("tt_src"@, meaning::binary(Operator::Plus, meaning::named("unit_pos_plane"@), meaning::named("tt_delta"@)))];
    let condition = meaning::binary(Operator::Less, meaning::named("tt_src"@), meaning::named("plane_dim_checked"@));
    let chosen = meaning::binary(Operator::Plus, meaning::named("tt_plane_base"@), meaning::named("tt_src"@));
    let other = meaning::binary(Operator::Plus, meaning::named("tt_plane_base"@), meaning::named("unit_pos_plane"@));
    assert(meaning::shown(chosen) =~= "tt_plane_base + tt_src"@);
    assert(meaning::shown(other) =~= "tt_plane_base + unit_pos_plane"@);
    assert(locals.skip(1) =~= seq![locals[1]]);
    assert(locals.skip(1).skip(1) =~= Seq::<(Seq<char>, Expr)>::empty());
    assert("tt_delta"@.len() != "tt_plane_base"@.len());
    assert("tt_delta"@.len() != "unit_pos_plane"@.len());
    assert("tt_delta"@.len() != "plane_dim_checked"@.len());
    assert("tt_src"@.len() != "tt_plane_base"@.len());
    assert("tt_src"@.len() != "unit_pos_plane"@.len());
    assert("tt_src"@.len() != "plane_dim_checked"@.len());
    assert("tt_delta"@.len() != "tt_src"@.len());
    let behind = meaning::behind_locals(locals, names);
    assert(behind["tt_plane_base"@] == base);
    assert(behind["unit_pos_plane"@] == own);
    assert(behind["plane_dim_checked"@] == count);
    let expected = if own + given < count {
        base + own + given
    } else {
        base + own
    };
    if meaning::value(condition, behind) != 0 {
        assert(meaning::comes_to(chosen, behind, expected));
    } else {
        assert(meaning::comes_to(other, behind, expected));
    }
}

/// A broadcast and a shuffle read the lane that they are given, where the plane has it, and
/// else the unit's own; the shuffles by distance and by mask read the lane that far away,
/// where the plane has it, and else the unit's own.
pub proof fn law_shuffles_read_the_lane_they_ask_for(
    input: Variable,
    asked: Variable,
    out: Variable,
    source: SourceModel,
    comp: nat,
    names: Map<Seq<char>, int>,
    base: int,
    own: int,
    count: int,
)
    requires
        are_names_of_lane(names, base, own, count),
        0 <= names[asked.name@] <= u32::MAX - 32,
    ensures
        ({
            let elem = dialect::elem_text(out.item.elem);
            let given = names[asked.name@];
            let mirrored = (own as u32 ^ given as u32) as int;
            let or_own = |there: bool, lane: int|
                if there {
                    base + lane
                } else {
                    base + own
                };
            &&& reads_lane(
                warp::result_component(
                    WarpInstruction::Broadcast { input, id: asked, out },
                    source,
                    comp,
                ),
                elem,
                source,
                comp,
                names,
                or_own(given < count, given),
            )
            &&& reads_lane(
                warp::result_component(
                    WarpInstruction::Shuffle { input, src_lane: asked, out },
                    source,
                    comp,
                ),
                elem,
                source,
                comp,
                names,
                or_own(given < count, given),
            )
            &&& reads_lane(
                warp::result_component(
                    WarpInstruction::ShuffleXor { input, mask: asked, out },
                    source,
                    comp,
                ),
                elem,
                source,
                comp,
                names,
                or_own(mirrored < count, mirrored),
            )
            &&& reads_lane(
                warp::result_component(
                    WarpInstruction::ShuffleUp { input, delta: asked, out },
                    source,
                    comp,
                ),
                elem,
                source,
                comp,
                names,
                or_own(given <= own, own - given),
            )
            &&& reads_lane(
                warp::result_component(
                    WarpInstruction::ShuffleDown { input, delta: asked, out },
                    source,
                    comp,
                ),
                elem,
                source,
                comp,
                names,
                or_own(own + given < count, own + given),
            )
        }),
{
    let elem = dialect::elem_text(out.item.elem);
    let given = names[asked.name@];
    lemma_chosen_lane(asked.name@, names, base, own, count, given);
    lemma_shuffle_xor(elem, asked.name@, source, comp, names, base, own, count, given);
    lemma_shuffle_up(elem, asked.name@, source, comp, names, base, own, count, given);
    lemma_shuffle_down(elem, asked.name@, source, comp, names, base, own, count, given);
}

/// A vote of the lanes of a plane.
pub enum Vote {
    All,
    Any,
}

impl Vote {
    /// The statement that sets a variable to the outcome of the vote, where `each` reads the
    /// lane that the loop is at.
    pub open spec fn shown(self, left: Seq<char>, each: Seq<char>) -> Seq<char> {
        let (name, start, join) = match self {
            Vote::All => ("tt_all"@, "true"@, " && "@),
            Vote::Any => ("tt_any"@, "false"@, " || "@),
        };
        left + " = ([&]() -> bool { bool "@ + name + " = "@ + start
            + "; for (uint32_t tt_lane = 0; tt_lane < plane_dim_checked; ++tt_lane) { "@ + name
            + " = "@ + name + join + each + "; } return "@ + name + "; })();\n"@
    }

    pub open spec fn result(self, lanes: Seq<bool>) -> bool {
        match self {
            Vote::All => lanes.fold_left(true, |a: bool, b: bool| a && b),
            Vote::Any => lanes.fold_left(false, |a: bool, b: bool| a || b),
        }
    }
}

proof fn lemma_votes_count_all(lanes: Seq<bool>)
    ensures
        Vote::All.result(lanes) <==> forall|i: int| 0 <= i < lanes.len() ==> #[trigger] lanes[i],
        Vote::Any.result(lanes) <==> exists|i: int| 0 <= i < lanes.len() && #[trigger] lanes[i],
    decreases lanes.len(),
{
    reveal_with_fuel(Seq::fold_left, 2);
    if lanes.len() > 0 {
        let before = lanes.drop_last();
        lemma_votes_count_all(before);
        assert forall|i: int| 0 <= i < before.len() implies before[i] == lanes[i] by {}
        assert(lanes[lanes.len() - 1] == lanes.last());
        if Vote::Any.result(before) {
            let i = choose|i: int| 0 <= i < before.len() && #[trigger] before[i];
            assert(lanes[i]);
        }
        if Vote::All.result(lanes) {
            assert forall|i: int| 0 <= i < lanes.len() implies #[trigger] lanes[i] by {
                if i < before.len() {
                    assert(before[i]);
                }
            }
        }
        if exists|i: int| 0 <= i < lanes.len() && #[trigger] lanes[i] {
            let i = choose|i: int| 0 <= i < lanes.len() && #[trigger] lanes[i];
            if i < before.len() {
                assert(before[i]);
            }
        }
        if forall|i: int| 0 <= i < lanes.len() ==> #[trigger] lanes[i] {
            assert forall|i: int| 0 <= i < before.len() implies #[trigger] before[i] by {
                assert(lanes[i]);
            }
        }
    }
}

#[verifier::spinoff_prover]
#[verifier::rlimit(60)]
proof fn lemma_all_is_a_vote(left: Seq<char>, each: Seq<char>)
    ensures
        text::fill(warp::ALL@, seq![left, each]) == Vote::All.shown(left, each),
{
    reveal_strlit(" && ");
    reveal_strlit(" = ");
    reveal_strlit(" = ([&]() -> bool { bool ");
    reveal_strlit(" = ([&]() -> bool { bool tt_all = true; for (uint32_t tt_lane = 0; tt_lane < plane_dim_checked; ++tt_lane) { tt_all = tt_all && ");
    reveal_strlit("$0 = ([&]() -> bool { bool tt_all = true; for (uint32_t tt_lane = 0; tt_lane < plane_dim_checked; ++tt_lane) { tt_all = tt_all && $1; } return tt_all; })();\n");
    reveal_strlit("; for (uint32_t tt_lane = 0; tt_lane < plane_dim_checked; ++tt_lane) { ");
    reveal_strlit("; } return ");
    reveal_strlit("; } return tt_all; })();\n");
    reveal_strlit("; })();\n");
    reveal_strlit("true");
    reveal_strlit("tt_all");
    reveal_strlit("");
    let segments = seq![""@, " = ([&]() -> bool { bool tt_all = true; for (uint32_t tt_lane = 0; tt_lane < plane_dim_checked; ++tt_lane) { tt_all = tt_all && "@, "; } return tt_all; })();\n"@];
    let indices = seq![0nat, 1nat];
    let args = seq![left, each];
    reveal_with_fuel(text::skeleton, 3);
    reveal_with_fuel(text::fleshed, 3);
    assert(warp::ALL@ =~= text::skeleton(segments, indices, 0));
    text::law_segments_are_kept(segments, indices, args, 0);
    assert(text::fill(warp::ALL@, args) =~= Vote::All.shown(left, each));
}

#[verifier::spinoff_prover]
#[verifier::rlimit(60)]
proof fn lemma_any_is_a_vote(left: Seq<char>, each: Seq<char>)
    ensures
        text::fill(warp::ANY@, seq![left, each]) == Vote::Any.shown(left, each),
{
    reveal_strlit(" = ");
    reveal_strlit(" = ([&]() -> bool { bool ");
    reveal_strlit(" = ([&]() -> bool { bool tt_any = false; for (uint32_t tt_lane = 0; tt_lane < plane_dim_checked; ++tt_lane) { tt_any = tt_any || ");
    reveal_strlit(" || ");
    reveal_strlit("$0 = ([&]() -> bool { bool tt_any = false; for (uint32_t tt_lane = 0; tt_lane < plane_dim_checked; ++tt_lane) { tt_any = tt_any || $1; } return tt_any; })();\n");
    reveal_strlit("; for (uint32_t tt_lane = 0; tt_lane < plane_dim_checked; ++tt_lane) { ");
    reveal_strlit("; } return ");
    reveal_strlit("; } return tt_any; })();\n");
    reveal_strlit("; })();\n");
    reveal_strlit("false");
    reveal_strlit("tt_any");
    reveal_strlit("");
    let segments = seq![""@, " = ([&]() -> bool { bool tt_any = false; for (uint32_t tt_lane = 0; tt_lane < plane_dim_checked; ++tt_lane) { tt_any = tt_any || "@, "; } return tt_any; })();\n"@];
    let indices = seq![0nat, 1nat];
    let args = seq![left, each];
    reveal_with_fuel(text::skeleton, 3);
    reveal_with_fuel(text::fleshed, 3);
    assert(warp::ANY@ =~= text::skeleton(segments, indices, 0));
    text::law_segments_are_kept(segments, indices, args, 0);
    assert(text::fill(warp::ANY@, args) =~= Vote::Any.shown(left, each));
}

/// Whether a statement is a vote with the given outcome.
pub open spec fn votes(statement: Seq<char>, left: Seq<char>, each: Seq<char>, lanes: Seq<bool>, outcome: bool) -> bool {
    exists|vote: Vote| statement == #[trigger] vote.shown(left, each) && vote.result(lanes) == outcome
}

/// All lanes agree where no lane dissents, and any lane does where one does.
pub proof fn law_votes_tell_what_the_lanes_say(
    input: Variable,
    out: Variable,
    source: SourceModel,
    lanes: Seq<bool>,
)
    ensures
        votes(
            warp::lowered_from(WarpInstruction::All { input, out }, source),
            out.left@,
            each_lane(source, 0),
            lanes,
            forall|i: int| 0 <= i < lanes.len() ==> #[trigger] lanes[i],
        ),
        votes(
            warp::lowered_from(WarpInstruction::Any { input, out }, source),
            out.left@,
            each_lane(source, 0),
            lanes,
            exists|i: int| 0 <= i < lanes.len() && #[trigger] lanes[i],
        ),
{
    lemma_all_is_a_vote(out.left@, each_lane(source, 0));
    lemma_any_is_a_vote(out.left@, each_lane(source, 0));
    lemma_votes_count_all(lanes);
}

/// A ballot has the bit of each lane that says yes: for the lanes of the plane, and of the
/// first 32, the bit of the lane's number is set where its condition holds, and the result
/// is that word, with nothing in the others. An election chooses the first lane.
pub proof fn law_ballots_have_a_bit_for_each_lane(input: Variable, out: Variable, source: SourceModel, known: warp::WarpModel)
    ensures
        warp::lowered_from(WarpInstruction::Ballot { input, out }, source)
            == "uint32_t tt_ballot = 0; for (uint32_t tt_lane = 0; tt_lane < plane_dim_checked && tt_lane < 32; ++tt_lane) { if ("@
            + warp::component(source, "tt_lane"@, 0)
            + ") tt_ballot |= (1u << tt_lane); } "@ + out.left@
            + " = { tt_ballot, 0u, 0u, 0u };\n"@,
        warp::lowered_warp(WarpInstruction::Elect { out }, known) == Some(
            out.left@ + " = (unit_pos_plane == 0);\n"@,
        ),
        warp::lowered_warp(WarpInstruction::ElectFallback { out }, known) == Some(
            out.left@ + " = (unit_pos_plane == 0);\n"@,
        ),
{
    lemma_ballot(warp::component(source, "tt_lane"@, 0), out.left@);
    lemma_elect(out.left@);
}

#[verifier::spinoff_prover]
#[verifier::rlimit(60)]
proof fn lemma_ballot(each: Seq<char>, left: Seq<char>)
    ensures
        text::fill(warp::BALLOT@, seq![each, left]) == "uint32_t tt_ballot = 0; for (uint32_t tt_lane = 0; tt_lane < plane_dim_checked && tt_lane < 32; ++tt_lane) { if ("@ + each + ") tt_ballot |= (1u << tt_lane); } "@ + left + " = { tt_ballot, 0u, 0u, 0u };\n"@,
{
    reveal_strlit(" = { tt_ballot, 0u, 0u, 0u };\n");
    reveal_strlit(") tt_ballot |= (1u << tt_lane); } ");
    reveal_strlit("uint32_t tt_ballot = 0; for (uint32_t tt_lane = 0; tt_lane < plane_dim_checked && tt_lane < 32; ++tt_lane) { if (");
    reveal_strlit("uint32_t tt_ballot = 0; for (uint32_t tt_lane = 0; tt_lane < plane_dim_checked && tt_lane < 32; ++tt_lane) { if ($0) tt_ballot |= (1u << tt_lane); } $1 = { tt_ballot, 0u, 0u, 0u };\n");
    let segments = seq!["uint32_t tt_ballot = 0; for (uint32_t tt_lane = 0; tt_lane < plane_dim_checked && tt_lane < 32; ++tt_lane) { if ("@, ") tt_ballot |= (1u << tt_lane); } "@, " = { tt_ballot, 0u, 0u, 0u };\n"@];
    let indices = seq![0nat, 1nat];
    let args = seq![each, left];
    reveal_with_fuel(text::skeleton, 3);
    reveal_with_fuel(text::fleshed, 3);
    assert(warp::BALLOT@ =~= text::skeleton(segments, indices, 0));
    text::law_segments_are_kept(segments, indices, args, 0);
    assert(text::fill(warp::BALLOT@, args) =~= "uint32_t tt_ballot = 0; for (uint32_t tt_lane = 0; tt_lane < plane_dim_checked && tt_lane < 32; ++tt_lane) { if ("@ + each + ") tt_ballot |= (1u << tt_lane); } "@ + left + " = { tt_ballot, 0u, 0u, 0u };\n"@);
}

#[verifier::spinoff_prover]
#[verifier::rlimit(60)]
proof fn lemma_elect(left: Seq<char>)
    ensures
        text::fill(warp::ELECT@, seq![left]) == left + " = (unit_pos_plane == 0);\n"@,
{
    reveal_strlit(" = (unit_pos_plane == 0);\n");
    reveal_strlit("$0 = (unit_pos_plane == 0);\n");
    reveal_strlit("");
    let segments = seq![""@, " = (unit_pos_plane == 0);\n"@];
    let indices = seq![0nat];
    let args = seq![left];
    reveal_with_fuel(text::skeleton, 2);
    reveal_with_fuel(text::fleshed, 2);
    assert(warp::ELECT@ =~= text::skeleton(segments, indices, 0));
    text::law_segments_are_kept(segments, indices, args, 0);
    assert(text::fill(warp::ELECT@, args) =~= left + " = (unit_pos_plane == 0);\n"@);
}

/// Every component of the result of a plane operation is assigned to the result, and a
/// single one is all that is assigned.
#[verifier::spinoff_prover]
#[verifier::rlimit(60)]
pub proof fn law_results_are_assigned(operation: WarpInstruction, source: SourceModel, comp: nat)
    requires
        comp < warp::warp_out(operation).item.vectorization,
    ensures
        ({
            let out = warp::warp_out(operation);
            let assignment = warp::vector_assignment(operation, source);
            let value = warp::result_component(operation, source, comp);
            &&& text::stands_at(assignment, out.left@ + " = "@, 0)
            &&& text::contains(assignment, value)
            &&& out.item.vectorization == 1 ==> assignment == out.left@ + " = "@ + value + ";\n"@
        }),
{
    let out = warp::warp_out(operation);
    let assignment = warp::vector_assignment(operation, source);
    let value = warp::result_component(operation, source, comp);
    reveal_strlit(" = ");
    reveal_strlit(" = { ");
    assert(assignment.subrange(0, (out.left@ + " = "@).len() as int) =~= out.left@ + " = "@);
    if out.item.vectorization == 1 {
        text::law_parts_are_contained(out.left@ + " = "@, value, ";\n"@);
    } else {
        let all = warp::result_components(operation, source, out.item.vectorization as nat);
        lemma_components_are_listed(operation, source, comp, out.item.vectorization as nat);
        text::law_parts_are_contained(out.left@ + " = { "@, all, " };\n"@);
        text::law_containment_is_transitive(assignment, all, value);
    }
}

proof fn lemma_components_are_listed(operation: WarpInstruction, source: SourceModel, comp: nat, count: nat)
    requires
        comp < count,
    ensures
        text::contains(
            warp::result_components(operation, source, count),
            warp::result_component(operation, source, comp),
        ),
    decreases count,
{
    let value = warp::result_component(operation, source, comp);
    let before = warp::result_components(operation, source, (count - 1) as nat);
    let comma = text::given(count > 1, ", "@);
    let all = warp::result_components(operation, source, count);
    let none = Seq::<char>::empty();
    if comp == count - 1 {
        text::law_parts_are_contained(before + comma, value, none);
        assert(before + comma + value + none =~= all);
    } else {
        lemma_components_are_listed(operation, source, comp, (count - 1) as nat);
        let last = warp::result_component(operation, source, (count - 1) as nat);
        text::law_parts_are_contained(none, before, comma + last);
        assert(none + before + (comma + last) =~= all);
        text::law_containment_is_transitive(all, before, value);
    }
}

/// The components of a result, in their order.
pub open spec fn components_of(operation: WarpInstruction, source: SourceModel, count: nat) -> Seq<
    Seq<char>,
> {
    Seq::new(count, |comp: int| warp::result_component(operation, source, comp as nat))
}

proof fn lemma_components_are_in_order(operation: WarpInstruction, source: SourceModel, count: nat)
    ensures
        text::in_order(
            warp::result_components(operation, source, count),
            components_of(operation, source, count),
        ),
    decreases count,
{
    let lines = components_of(operation, source, count);
    if count == 0 {
        assert(lines.len() == 0);
    } else {
        let before = warp::result_components(operation, source, (count - 1) as nat);
        let comma = text::given(count > 1, ", "@);
        let last = warp::result_component(operation, source, (count - 1) as nat);
        let none = Seq::<char>::empty();
        lemma_components_are_in_order(operation, source, (count - 1) as nat);
        text::law_line_is_in_order(last);
        text::law_order_is_kept_inside(comma, last, none, seq![last]);
        text::law_order_is_joined(
            before,
            components_of(operation, source, (count - 1) as nat),
            comma + last + none,
            seq![last],
        );
        assert(before + (comma + last + none) =~= warp::result_components(
            operation,
            source,
            count,
        ));
        assert(components_of(operation, source, (count - 1) as nat) + seq![last] =~= lines);
    }
}

/// A result gets its components in their order, each from its own component of the input.
pub proof fn law_components_keep_their_order(operation: WarpInstruction, source: SourceModel)
    ensures
        ({
            let width = warp::warp_out(operation).item.vectorization as nat;
            width != 1 ==> text::in_order(
                warp::vector_assignment(operation, source),
                components_of(operation, source, width),
            )
        }),
{
    let out = warp::warp_out(operation);
    let width = out.item.vectorization as nat;
    lemma_components_are_in_order(operation, source, width);
    text::law_order_is_kept_inside(
        out.left@ + " = { "@,
        warp::result_components(operation, source, width),
        " };\n"@,
        components_of(operation, source, width),
    );
}

/// A plane operation reads its input and writes its result; an election reads nothing, and
/// takes the first unit of the plane.
pub proof fn law_plane_operations_name_their_operands(operation: WarpInstruction, known: warp::WarpModel)
    ensures
        match operation {
            WarpInstruction::ReduceSum { input, out } => warp::warp_out(operation) == out
                && warp::warp_input(operation) == Some(input),
            WarpInstruction::ReduceProd { input, out } => warp::warp_out(operation) == out
                && warp::warp_input(operation) == Some(input),
            WarpInstruction::ReduceMax { input, out } => warp::warp_out(operation) == out
                && warp::warp_input(operation) == Some(input),
            WarpInstruction::ReduceMin { input, out } => warp::warp_out(operation) == out
                && warp::warp_input(operation) == Some(input),
            WarpInstruction::InclusiveSum { input, out } => warp::warp_out(operation) == out
                && warp::warp_input(operation) == Some(input),
            WarpInstruction::ExclusiveSum { input, out } => warp::warp_out(operation) == out
                && warp::warp_input(operation) == Some(input),
            WarpInstruction::InclusiveProd { input, out } => warp::warp_out(operation) == out
                && warp::warp_input(operation) == Some(input),
            WarpInstruction::ExclusiveProd { input, out } => warp::warp_out(operation) == out
                && warp::warp_input(operation) == Some(input),
            WarpInstruction::Broadcast { input, id, out } => warp::warp_out(operation) == out
                && warp::warp_input(operation) == Some(input),
            WarpInstruction::Shuffle { input, src_lane, out } => warp::warp_out(operation) == out
                && warp::warp_input(operation) == Some(input),
            WarpInstruction::ShuffleXor { input, mask, out } => warp::warp_out(operation) == out
                && warp::warp_input(operation) == Some(input),
            WarpInstruction::ShuffleUp { input, delta, out } => warp::warp_out(operation) == out
                && warp::warp_input(operation) == Some(input),
            WarpInstruction::ShuffleDown { input, delta, out } => warp::warp_out(operation) == out
                && warp::warp_input(operation) == Some(input),
            WarpInstruction::All { input, out } => warp::warp_out(operation) == out
                && warp::warp_input(operation) == Some(input),
            WarpInstruction::Any { input, out } => warp::warp_out(operation) == out
                && warp::warp_input(operation) == Some(input),
            WarpInstruction::Ballot { input, out } => warp::warp_out(operation) == out
                && warp::warp_input(operation) == Some(input),
            WarpInstruction::Elect { out } => warp::lowered_warp(operation, known) == Some(
                out.left@ + " = (unit_pos_plane == 0);\n"@,
            ),
            WarpInstruction::ElectFallback { out } => warp::lowered_warp(operation, known) == Some(
                out.left@ + " = (unit_pos_plane == 0);\n"@,
            ),
        },
        warp::warp_input(operation) matches Some(input) ==> (warp::lowered_warp(
            operation,
            known,
        ) is Some <==> known.source(input.name@) is Some),
{
    lemma_elected(warp::warp_out(operation).left@);
}

#[verifier::spinoff_prover]
#[verifier::rlimit(60)]
proof fn lemma_elected(left: Seq<char>)
    ensures
        text::fill(warp::ELECT@, seq![left]) == left + " = (unit_pos_plane == 0);\n"@,
{
    reveal_strlit("$0 = (unit_pos_plane == 0);\n");
    reveal_strlit(" = (unit_pos_plane == 0);\n");
    let none = Seq::<char>::empty();
    let tail = " = (unit_pos_plane == 0);\n"@;
    assert(warp::ELECT@ =~= none + text::placeholder(0) + tail);
    text::law_placeholders_give_way(none, 0, tail, seq![left]);
    text::law_plain_text_is_kept(tail, seq![left]);
    assert(none + left + tail =~= left + tail);
}

} // verus!

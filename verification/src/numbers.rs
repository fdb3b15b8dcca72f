//! What the numbers of the generated sources are: how wide their types are, and what becomes
//! of them in arithmetic that saturates and in counts of bits.
use crate::dialect;
use crate::dialect::CubeBuiltin;
use crate::ir::{AtomicKind, Elem, Item};
use crate::meaning;
use crate::meaning::{Expr, Operator};
use crate::text;
use vstd::prelude::*;

verus! {

/// The largest number of a type.
pub open spec fn largest(name: Seq<char>) -> Seq<char> {
    "std::numeric_limits<"@ + name + ">::max()"@
}

/// The smallest number of a type.
pub open spec fn smallest(name: Seq<char>) -> Seq<char> {
    "std::numeric_limits<"@ + name + ">::min()"@
}

/// The zero of a type.
pub open spec fn zero_of(name: Seq<char>) -> Seq<char> {
    name + "(0)"@
}

/// Whether a text is an expression of the given value.
pub open spec fn evaluates_to(source: Seq<char>, names: Map<Seq<char>, int>, expected: int) -> bool {
    exists|e: Expr| #[trigger]
        meaning::shown(e) == source && meaning::is_read_back(e) && meaning::value(e, names)
            == expected
}

/// The nearest number between two bounds.
pub open spec fn nearest(n: int, low: int, high: int) -> int {
    if n < low {
        low
    } else if n > high {
        high
    } else {
        n
    }
}

#[verifier::spinoff_prover]
#[verifier::rlimit(60)]
proof fn lemma_part_1(args: Seq<Seq<char>>)
    requires
        args.len() == 3,
    ensures
        text::fill("$0"@, args) == meaning::shown(meaning::named(args[0])),
{
    let lhs = args[0];
    let rhs = args[1];
    let name = args[2];
    reveal_strlit("$0");
    reveal_strlit("");
    let segments = seq![""@, ""@];
    let indices = seq![0nat];
    reveal_with_fuel(text::skeleton, 2);
    reveal_with_fuel(text::fleshed, 2);
    assert("$0"@ =~= text::skeleton(segments, indices, 0));
    text::law_segments_are_kept(segments, indices, args, 0);
    assert(text::fill("$0"@, args) =~= lhs);
}

#[verifier::spinoff_prover]
#[verifier::rlimit(60)]
proof fn lemma_part_2(args: Seq<Seq<char>>)
    requires
        args.len() == 3,
    ensures
        text::fill("($0)"@, args) == meaning::shown(meaning::group(meaning::named(args[0]))),
{
    let lhs = args[0];
    let rhs = args[1];
    let name = args[2];
    reveal_strlit("$0");
    reveal_strlit("(");
    reveal_strlit("($0)");
    reveal_strlit(")");
    assert("($0)"@ =~= "("@ + ("$0"@ + (")"@)));
    text::law_parts_are_filled("("@, "$0"@ + (")"@), args);
    text::law_parts_are_filled("$0"@, ")"@, args);
    text::law_plain_text_is_kept("("@, args);
    lemma_part_1(args);
    text::law_plain_text_is_kept(")"@, args);
    assert(text::fill("($0)"@, args) =~= meaning::shown(meaning::group(meaning::named(lhs))));
}

#[verifier::spinoff_prover]
#[verifier::rlimit(60)]
proof fn lemma_part_3(args: Seq<Seq<char>>)
    requires
        args.len() == 3,
    ensures
        text::fill("std::numeric_limits<$2>::max()"@, args) == meaning::shown(meaning::named(largest(args[2]))),
{
    let lhs = args[0];
    let rhs = args[1];
    let name = args[2];
    reveal_strlit(">::max()");
    reveal_strlit("std::numeric_limits<");
    reveal_strlit("std::numeric_limits<$2>::max()");
    let segments = seq!["std::numeric_limits<"@, ">::max()"@];
    let indices = seq![2nat];
    reveal_with_fuel(text::skeleton, 2);
    reveal_with_fuel(text::fleshed, 2);
    assert("std::numeric_limits<$2>::max()"@ =~= text::skeleton(segments, indices, 0));
    text::law_segments_are_kept(segments, indices, args, 0);
    assert(text::fill("std::numeric_limits<$2>::max()"@, args) =~= largest(name));
}

#[verifier::spinoff_prover]
#[verifier::rlimit(60)]
proof fn lemma_part_4(args: Seq<Seq<char>>)
    requires
        args.len() == 3,
    ensures
        text::fill("$1"@, args) == meaning::shown(meaning::named(args[1])),
{
    let lhs = args[0];
    let rhs = args[1];
    let name = args[2];
    reveal_strlit("$1");
    reveal_strlit("");
    let segments = seq![""@, ""@];
    let indices = seq![1nat];
    reveal_with_fuel(text::skeleton, 2);
    reveal_with_fuel(text::fleshed, 2);
    assert("$1"@ =~= text::skeleton(segments, indices, 0));
    text::law_segments_are_kept(segments, indices, args, 0);
    assert(text::fill("$1"@, args) =~= rhs);
}

#[verifier::spinoff_prover]
#[verifier::rlimit(60)]
proof fn lemma_part_5(args: Seq<Seq<char>>)
    requires
        args.len() == 3,
    ensures
        text::fill("($1)"@, args) == meaning::shown(meaning::group(meaning::named(args[1]))),
{
    let lhs = args[0];
    let rhs = args[1];
    let name = args[2];
    reveal_strlit("$1");
    reveal_strlit("(");
    reveal_strlit("($1)");
    reveal_strlit(")");
    assert("($1)"@ =~= "("@ + ("$1"@ + (")"@)));
    text::law_parts_are_filled("("@, "$1"@ + (")"@), args);
    text::law_parts_are_filled("$1"@, ")"@, args);
    text::law_plain_text_is_kept("("@, args);
    lemma_part_4(args);
    text::law_plain_text_is_kept(")"@, args);
    assert(text::fill("($1)"@, args) =~= meaning::shown(meaning::group(meaning::named(rhs))));
}

#[verifier::spinoff_prover]
#[verifier::rlimit(60)]
proof fn lemma_part_6(args: Seq<Seq<char>>)
    requires
        args.len() == 3,
    ensures
        text::fill("std::numeric_limits<$2>::max() - ($1)"@, args) == meaning::shown(meaning::binary(Operator::Minus, meaning::named(largest(args[2])), meaning::group(meaning::named(args[1])))),
{
    let lhs = args[0];
    let rhs = args[1];
    let name = args[2];
    reveal_strlit(" - ");
    reveal_strlit("($1)");
    reveal_strlit("std::numeric_limits<$2>::max()");
    reveal_strlit("std::numeric_limits<$2>::max() - ($1)");
    assert("std::numeric_limits<$2>::max() - ($1)"@ =~= "std::numeric_limits<$2>::max()"@ + (" - "@ + ("($1)"@)));
    text::law_parts_are_filled("std::numeric_limits<$2>::max()"@, " - "@ + ("($1)"@), args);
    text::law_parts_are_filled(" - "@, "($1)"@, args);
    lemma_part_3(args);
    text::law_plain_text_is_kept(" - "@, args);
    lemma_part_5(args);
    assert(text::fill("std::numeric_limits<$2>::max() - ($1)"@, args) =~= meaning::shown(meaning::binary(Operator::Minus, meaning::named(largest(name)), meaning::group(meaning::named(rhs)))));
}

#[verifier::spinoff_prover]
#[verifier::rlimit(60)]
proof fn lemma_part_7(args: Seq<Seq<char>>)
    requires
        args.len() == 3,
    ensures
        text::fill("(std::numeric_limits<$2>::max() - ($1))"@, args) == meaning::shown(meaning::group(meaning::binary(Operator::Minus, meaning::named(largest(args[2])), meaning::group(meaning::named(args[1]))))),
{
    let lhs = args[0];
    let rhs = args[1];
    let name = args[2];
    reveal_strlit("(");
    reveal_strlit("(std::numeric_limits<$2>::max() - ($1))");
    reveal_strlit(")");
    reveal_strlit("std::numeric_limits<$2>::max() - ($1)");
    assert("(std::numeric_limits<$2>::max() - ($1))"@ =~= "("@ + ("std::numeric_limits<$2>::max() - ($1)"@ + (")"@)));
    text::law_parts_are_filled("("@, "std::numeric_limits<$2>::max() - ($1)"@ + (")"@), args);
    text::law_parts_are_filled("std::numeric_limits<$2>::max() - ($1)"@, ")"@, args);
    text::law_plain_text_is_kept("("@, args);
    lemma_part_6(args);
    text::law_plain_text_is_kept(")"@, args);
    assert(text::fill("(std::numeric_limits<$2>::max() - ($1))"@, args) =~= meaning::shown(meaning::group(meaning::binary(Operator::Minus, meaning::named(largest(name)), meaning::group(meaning::named(rhs))))));
}

#[verifier::spinoff_prover]
#[verifier::rlimit(60)]
proof fn lemma_part_8(args: Seq<Seq<char>>)
    requires
        args.len() == 3,
    ensures
        text::fill("($0) > (std::numeric_limits<$2>::max() - ($1))"@, args) == meaning::shown(meaning::binary(Operator::Greater, meaning::group(meaning::named(args[0])), meaning::group(meaning::binary(Operator::Minus, meaning::named(largest(args[2])), meaning::group(meaning::named(args[1])))))),
{
    let lhs = args[0];
    let rhs = args[1];
    let name = args[2];
    reveal_strlit(" > ");
    reveal_strlit("($0)");
    reveal_strlit("($0) > (std::numeric_limits<$2>::max() - ($1))");
    reveal_strlit("(std::numeric_limits<$2>::max() - ($1))");
    assert("($0) > (std::numeric_limits<$2>::max() - ($1))"@ =~= "($0)"@ + (" > "@ + ("(std::numeric_limits<$2>::max() - ($1))"@)));
    text::law_parts_are_filled("($0)"@, " > "@ + ("(std::numeric_limits<$2>::max() - ($1))"@), args);
    text::law_parts_are_filled(" > "@, "(std::numeric_limits<$2>::max() - ($1))"@, args);
    lemma_part_2(args);
    text::law_plain_text_is_kept(" > "@, args);
    lemma_part_7(args);
    assert(text::fill("($0) > (std::numeric_limits<$2>::max() - ($1))"@, args) =~= meaning::shown(meaning::binary(Operator::Greater, meaning::group(meaning::named(lhs)), meaning::group(meaning::binary(Operator::Minus, meaning::named(largest(name)), meaning::group(meaning::named(rhs)))))));
}

#[verifier::spinoff_prover]
#[verifier::rlimit(60)]
proof fn lemma_part_9(args: Seq<Seq<char>>)
    requires
        args.len() == 3,
    ensures
        text::fill("($0) + ($1)"@, args) == meaning::shown(meaning::binary(Operator::Plus, meaning::group(meaning::named(args[0])), meaning::group(meaning::named(args[1])))),
{
    let lhs = args[0];
    let rhs = args[1];
    let name = args[2];
    reveal_strlit(" + ");
    reveal_strlit("($0)");
    reveal_strlit("($0) + ($1)");
    reveal_strlit("($1)");
    assert("($0) + ($1)"@ =~= "($0)"@ + (" + "@ + ("($1)"@)));
    text::law_parts_are_filled("($0)"@, " + "@ + ("($1)"@), args);
    text::law_parts_are_filled(" + "@, "($1)"@, args);
    lemma_part_2(args);
    text::law_plain_text_is_kept(" + "@, args);
    lemma_part_5(args);
    assert(text::fill("($0) + ($1)"@, args) =~= meaning::shown(meaning::binary(Operator::Plus, meaning::group(meaning::named(lhs)), meaning::group(meaning::named(rhs)))));
}

#[verifier::spinoff_prover]
#[verifier::rlimit(60)]
proof fn lemma_part_10(args: Seq<Seq<char>>)
    requires
        args.len() == 3,
    ensures
        text::fill("($0) > (std::numeric_limits<$2>::max() - ($1)) ? std::numeric_limits<$2>::max() : ($0) + ($1)"@, args) == meaning::shown(meaning::choice(meaning::binary(Operator::Greater, meaning::group(meaning::named(args[0])), meaning::group(meaning::binary(Operator::Minus, meaning::named(largest(args[2])), meaning::group(meaning::named(args[1]))))), meaning::named(largest(args[2])), meaning::binary(Operator::Plus, meaning::group(meaning::named(args[0])), meaning::group(meaning::named(args[1]))))),
{
    let lhs = args[0];
    let rhs = args[1];
    let name = args[2];
    reveal_strlit(" : ");
    reveal_strlit(" ? ");
    reveal_strlit("($0) + ($1)");
    reveal_strlit("($0) > (std::numeric_limits<$2>::max() - ($1))");
    reveal_strlit("($0) > (std::numeric_limits<$2>::max() - ($1)) ? std::numeric_limits<$2>::max() : ($0) + ($1)");
    reveal_strlit("std::numeric_limits<$2>::max()");
    assert("($0) > (std::numeric_limits<$2>::max() - ($1)) ? std::numeric_limits<$2>::max() : ($0) + ($1)"@ =~= "($0) > (std::numeric_limits<$2>::max() - ($1))"@ + (" ? "@ + ("std::numeric_limits<$2>::max()"@ + (" : "@ + ("($0) + ($1)"@)))));
    text::law_parts_are_filled("($0) > (std::numeric_limits<$2>::max() - ($1))"@, " ? "@ + ("std::numeric_limits<$2>::max()"@ + (" : "@ + ("($0) + ($1)"@))), args);
    text::law_parts_are_filled(" ? "@, "std::numeric_limits<$2>::max()"@ + (" : "@ + ("($0) + ($1)"@)), args);
    text::law_parts_are_filled("std::numeric_limits<$2>::max()"@, " : "@ + ("($0) + ($1)"@), args);
    text::law_parts_are_filled(" : "@, "($0) + ($1)"@, args);
    lemma_part_8(args);
    text::law_plain_text_is_kept(" ? "@, args);
    lemma_part_3(args);
    text::law_plain_text_is_kept(" : "@, args);
    lemma_part_9(args);
    assert(text::fill("($0) > (std::numeric_limits<$2>::max() - ($1)) ? std::numeric_limits<$2>::max() : ($0) + ($1)"@, args) =~= meaning::shown(meaning::choice(meaning::binary(Operator::Greater, meaning::group(meaning::named(lhs)), meaning::group(meaning::binary(Operator::Minus, meaning::named(largest(name)), meaning::group(meaning::named(rhs))))), meaning::named(largest(name)), meaning::binary(Operator::Plus, meaning::group(meaning::named(lhs)), meaning::group(meaning::named(rhs))))));
}

#[verifier::spinoff_prover]
#[verifier::rlimit(60)]
proof fn lemma_part_11(args: Seq<Seq<char>>)
    requires
        args.len() == 3,
    ensures
        text::fill("(($0) > (std::numeric_limits<$2>::max() - ($1)) ? std::numeric_limits<$2>::max() : ($0) + ($1))"@, args) == meaning::shown(meaning::group(meaning::choice(meaning::binary(Operator::Greater, meaning::group(meaning::named(args[0])), meaning::group(meaning::binary(Operator::Minus, meaning::named(largest(args[2])), meaning::group(meaning::named(args[1]))))), meaning::named(largest(args[2])), meaning::binary(Operator::Plus, meaning::group(meaning::named(args[0])), meaning::group(meaning::named(args[1])))))),
{
    let lhs = args[0];
    let rhs = args[1];
    let name = args[2];
    reveal_strlit("(");
    reveal_strlit("($0) > (std::numeric_limits<$2>::max() - ($1)) ? std::numeric_limits<$2>::max() : ($0) + ($1)");
    reveal_strlit("(($0) > (std::numeric_limits<$2>::max() - ($1)) ? std::numeric_limits<$2>::max() : ($0) + ($1))");
    reveal_strlit(")");
    assert("(($0) > (std::numeric_limits<$2>::max() - ($1)) ? std::numeric_limits<$2>::max() : ($0) + ($1))"@ =~= "("@ + ("($0) > (std::numeric_limits<$2>::max() - ($1)) ? std::numeric_limits<$2>::max() : ($0) + ($1)"@ + (")"@)));
    text::law_parts_are_filled("("@, "($0) > (std::numeric_limits<$2>::max() - ($1)) ? std::numeric_limits<$2>::max() : ($0) + ($1)"@ + (")"@), args);
    text::law_parts_are_filled("($0) > (std::numeric_limits<$2>::max() - ($1)) ? std::numeric_limits<$2>::max() : ($0) + ($1)"@, ")"@, args);
    text::law_plain_text_is_kept("("@, args);
    lemma_part_10(args);
    text::law_plain_text_is_kept(")"@, args);
    assert(text::fill("(($0) > (std::numeric_limits<$2>::max() - ($1)) ? std::numeric_limits<$2>::max() : ($0) + ($1))"@, args) =~= meaning::shown(meaning::group(meaning::choice(meaning::binary(Operator::Greater, meaning::group(meaning::named(lhs)), meaning::group(meaning::binary(Operator::Minus, meaning::named(largest(name)), meaning::group(meaning::named(rhs))))), meaning::named(largest(name)), meaning::binary(Operator::Plus, meaning::group(meaning::named(lhs)), meaning::group(meaning::named(rhs)))))));
}

#[verifier::spinoff_prover]
#[verifier::rlimit(60)]
proof fn lemma_part_12(args: Seq<Seq<char>>)
    requires
        args.len() == 3,
    ensures
        text::fill("0"@, args) == meaning::shown(meaning::number(0)),
{
    let lhs = args[0];
    let rhs = args[1];
    let name = args[2];
    reveal_strlit("0");
    text::law_plain_text_is_kept("0"@, args);
    assert(text::dec(0) =~= seq!['0']);
    assert("0"@ =~= seq!['0']);
}

#[verifier::spinoff_prover]
#[verifier::rlimit(60)]
proof fn lemma_part_13(args: Seq<Seq<char>>)
    requires
        args.len() == 3,
    ensures
        text::fill("($1) > 0"@, args) == meaning::shown(meaning::binary(Operator::Greater, meaning::group(meaning::named(args[1])), meaning::number(0))),
{
    let lhs = args[0];
    let rhs = args[1];
    let name = args[2];
    reveal_strlit(" > ");
    reveal_strlit("($1)");
    reveal_strlit("($1) > 0");
    reveal_strlit("0");
    assert("($1) > 0"@ =~= "($1)"@ + (" > "@ + ("0"@)));
    text::law_parts_are_filled("($1)"@, " > "@ + ("0"@), args);
    text::law_parts_are_filled(" > "@, "0"@, args);
    lemma_part_5(args);
    text::law_plain_text_is_kept(" > "@, args);
    lemma_part_12(args);
    assert(text::fill("($1) > 0"@, args) =~= meaning::shown(meaning::binary(Operator::Greater, meaning::group(meaning::named(rhs)), meaning::number(0))));
}

#[verifier::spinoff_prover]
#[verifier::rlimit(60)]
proof fn lemma_part_14(args: Seq<Seq<char>>)
    requires
        args.len() == 3,
    ensures
        text::fill("($1) > 0 && ($0) > (std::numeric_limits<$2>::max() - ($1))"@, args) == meaning::shown(meaning::binary(Operator::And, meaning::binary(Operator::Greater, meaning::group(meaning::named(args[1])), meaning::number(0)), meaning::binary(Operator::Greater, meaning::group(meaning::named(args[0])), meaning::group(meaning::binary(Operator::Minus, meaning::named(largest(args[2])), meaning::group(meaning::named(args[1]))))))),
{
    let lhs = args[0];
    let rhs = args[1];
    let name = args[2];
    reveal_strlit(" && ");
    reveal_strlit("($0) > (std::numeric_limits<$2>::max() - ($1))");
    reveal_strlit("($1) > 0");
    reveal_strlit("($1) > 0 && ($0) > (std::numeric_limits<$2>::max() - ($1))");
    assert("($1) > 0 && ($0) > (std::numeric_limits<$2>::max() - ($1))"@ =~= "($1) > 0"@ + (" && "@ + ("($0) > (std::numeric_limits<$2>::max() - ($1))"@)));
    text::law_parts_are_filled("($1) > 0"@, " && "@ + ("($0) > (std::numeric_limits<$2>::max() - ($1))"@), args);
    text::law_parts_are_filled(" && "@, "($0) > (std::numeric_limits<$2>::max() - ($1))"@, args);
    lemma_part_13(args);
    text::law_plain_text_is_kept(" && "@, args);
    lemma_part_8(args);
    assert(text::fill("($1) > 0 && ($0) > (std::numeric_limits<$2>::max() - ($1))"@, args) =~= meaning::shown(meaning::binary(Operator::And, meaning::binary(Operator::Greater, meaning::group(meaning::named(rhs)), meaning::number(0)), meaning::binary(Operator::Greater, meaning::group(meaning::named(lhs)), meaning::group(meaning::binary(Operator::Minus, meaning::named(largest(name)), meaning::group(meaning::named(rhs))))))));
}

#[verifier::spinoff_prover]
#[verifier::rlimit(60)]
proof fn lemma_part_15(args: Seq<Seq<char>>)
    requires
        args.len() == 3,
    ensures
        text::fill("(($1) > 0 && ($0) > (std::numeric_limits<$2>::max() - ($1)))"@, args) == meaning::shown(meaning::group(meaning::binary(Operator::And, meaning::binary(Operator::Greater, meaning::group(meaning::named(args[1])), meaning::number(0)), meaning::binary(Operator::Greater, meaning::group(meaning::named(args[0])), meaning::group(meaning::binary(Operator::Minus, meaning::named(largest(args[2])), meaning::group(meaning::named(args[1])))))))),
{
    let lhs = args[0];
    let rhs = args[1];
    let name = args[2];
    reveal_strlit("(");
    reveal_strlit("($1) > 0 && ($0) > (std::numeric_limits<$2>::max() - ($1))");
    reveal_strlit("(($1) > 0 && ($0) > (std::numeric_limits<$2>::max() - ($1)))");
    reveal_strlit(")");
    assert("(($1) > 0 && ($0) > (std::numeric_limits<$2>::max() - ($1)))"@ =~= "("@ + ("($1) > 0 && ($0) > (std::numeric_limits<$2>::max() - ($1))"@ + (")"@)));
    text::law_parts_are_filled("("@, "($1) > 0 && ($0) > (std::numeric_limits<$2>::max() - ($1))"@ + (")"@), args);
    text::law_parts_are_filled("($1) > 0 && ($0) > (std::numeric_limits<$2>::max() - ($1))"@, ")"@, args);
    text::law_plain_text_is_kept("("@, args);
    lemma_part_14(args);
    text::law_plain_text_is_kept(")"@, args);
    assert(text::fill("(($1) > 0 && ($0) > (std::numeric_limits<$2>::max() - ($1)))"@, args) =~= meaning::shown(meaning::group(meaning::binary(Operator::And, meaning::binary(Operator::Greater, meaning::group(meaning::named(rhs)), meaning::number(0)), meaning::binary(Operator::Greater, meaning::group(meaning::named(lhs)), meaning::group(meaning::binary(Operator::Minus, meaning::named(largest(name)), meaning::group(meaning::named(rhs)))))))));
}

#[verifier::spinoff_prover]
#[verifier::rlimit(60)]
proof fn lemma_part_16(args: Seq<Seq<char>>)
    requires
        args.len() == 3,
    ensures
        text::fill("($1) < 0"@, args) == meaning::shown(meaning::binary(Operator::Less, meaning::group(meaning::named(args[1])), meaning::number(0))),
{
    let lhs = args[0];
    let rhs = args[1];
    let name = args[2];
    reveal_strlit(" < ");
    reveal_strlit("($1)");
    reveal_strlit("($1) < 0");
    reveal_strlit("0");
    assert("($1) < 0"@ =~= "($1)"@ + (" < "@ + ("0"@)));
    text::law_parts_are_filled("($1)"@, " < "@ + ("0"@), args);
    text::law_parts_are_filled(" < "@, "0"@, args);
    lemma_part_5(args);
    text::law_plain_text_is_kept(" < "@, args);
    lemma_part_12(args);
    assert(text::fill("($1) < 0"@, args) =~= meaning::shown(meaning::binary(Operator::Less, meaning::group(meaning::named(rhs)), meaning::number(0))));
}

#[verifier::spinoff_prover]
#[verifier::rlimit(60)]
proof fn lemma_part_17(args: Seq<Seq<char>>)
    requires
        args.len() == 3,
    ensures
        text::fill("std::numeric_limits<$2>::min()"@, args) == meaning::shown(meaning::named(smallest(args[2]))),
{
    let lhs = args[0];
    let rhs = args[1];
    let name = args[2];
    reveal_strlit(">::min()");
    reveal_strlit("std::numeric_limits<");
    reveal_strlit("std::numeric_limits<$2>::min()");
    let segments = seq!["std::numeric_limits<"@, ">::min()"@];
    let indices = seq![2nat];
    reveal_with_fuel(text::skeleton, 2);
    reveal_with_fuel(text::fleshed, 2);
    assert("std::numeric_limits<$2>::min()"@ =~= text::skeleton(segments, indices, 0));
    text::law_segments_are_kept(segments, indices, args, 0);
    assert(text::fill("std::numeric_limits<$2>::min()"@, args) =~= smallest(name));
}

#[verifier::spinoff_prover]
#[verifier::rlimit(60)]
proof fn lemma_part_18(args: Seq<Seq<char>>)
    requires
        args.len() == 3,
    ensures
        text::fill("std::numeric_limits<$2>::min() - ($1)"@, args) == meaning::shown(meaning::binary(Operator::Minus, meaning::named(smallest(args[2])), meaning::group(meaning::named(args[1])))),
{
    let lhs = args[0];
    let rhs = args[1];
    let name = args[2];
    reveal_strlit(" - ");
    reveal_strlit("($1)");
    reveal_strlit("std::numeric_limits<$2>::min()");
    reveal_strlit("std::numeric_limits<$2>::min() - ($1)");
    assert("std::numeric_limits<$2>::min() - ($1)"@ =~= "std::numeric_limits<$2>::min()"@ + (" - "@ + ("($1)"@)));
    text::law_parts_are_filled("std::numeric_limits<$2>::min()"@, " - "@ + ("($1)"@), args);
    text::law_parts_are_filled(" - "@, "($1)"@, args);
    lemma_part_17(args);
    text::law_plain_text_is_kept(" - "@, args);
    lemma_part_5(args);
    assert(text::fill("std::numeric_limits<$2>::min() - ($1)"@, args) =~= meaning::shown(meaning::binary(Operator::Minus, meaning::named(smallest(name)), meaning::group(meaning::named(rhs)))));
}

#[verifier::spinoff_prover]
#[verifier::rlimit(60)]
proof fn lemma_part_19(args: Seq<Seq<char>>)
    requires
        args.len() == 3,
    ensures
        text::fill("(std::numeric_limits<$2>::min() - ($1))"@, args) == meaning::shown(meaning::group(meaning::binary(Operator::Minus, meaning::named(smallest(args[2])), meaning::group(meaning::named(args[1]))))),
{
    let lhs = args[0];
    let rhs = args[1];
    let name = args[2];
    reveal_strlit("(");
    reveal_strlit("(std::numeric_limits<$2>::min() - ($1))");
    reveal_strlit(")");
    reveal_strlit("std::numeric_limits<$2>::min() - ($1)");
    assert("(std::numeric_limits<$2>::min() - ($1))"@ =~= "("@ + ("std::numeric_limits<$2>::min() - ($1)"@ + (")"@)));
    text::law_parts_are_filled("("@, "std::numeric_limits<$2>::min() - ($1)"@ + (")"@), args);
    text::law_parts_are_filled("std::numeric_limits<$2>::min() - ($1)"@, ")"@, args);
    text::law_plain_text_is_kept("("@, args);
    lemma_part_18(args);
    text::law_plain_text_is_kept(")"@, args);
    assert(text::fill("(std::numeric_limits<$2>::min() - ($1))"@, args) =~= meaning::shown(meaning::group(meaning::binary(Operator::Minus, meaning::named(smallest(name)), meaning::group(meaning::named(rhs))))));
}

#[verifier::spinoff_prover]
#[verifier::rlimit(60)]
proof fn lemma_part_20(args: Seq<Seq<char>>)
    requires
        args.len() == 3,
    ensures
        text::fill("($0) < (std::numeric_limits<$2>::min() - ($1))"@, args) == meaning::shown(meaning::binary(Operator::Less, meaning::group(meaning::named(args[0])), meaning::group(meaning::binary(Operator::Minus, meaning::named(smallest(args[2])), meaning::group(meaning::named(args[1])))))),
{
    let lhs = args[0];
    let rhs = args[1];
    let name = args[2];
    reveal_strlit(" < ");
    reveal_strlit("($0)");
    reveal_strlit("($0) < (std::numeric_limits<$2>::min() - ($1))");
    reveal_strlit("(std::numeric_limits<$2>::min() - ($1))");
    assert("($0) < (std::numeric_limits<$2>::min() - ($1))"@ =~= "($0)"@ + (" < "@ + ("(std::numeric_limits<$2>::min() - ($1))"@)));
    text::law_parts_are_filled("($0)"@, " < "@ + ("(std::numeric_limits<$2>::min() - ($1))"@), args);
    text::law_parts_are_filled(" < "@, "(std::numeric_limits<$2>::min() - ($1))"@, args);
    lemma_part_2(args);
    text::law_plain_text_is_kept(" < "@, args);
    lemma_part_19(args);
    assert(text::fill("($0) < (std::numeric_limits<$2>::min() - ($1))"@, args) =~= meaning::shown(meaning::binary(Operator::Less, meaning::group(meaning::named(lhs)), meaning::group(meaning::binary(Operator::Minus, meaning::named(smallest(name)), meaning::group(meaning::named(rhs)))))));
}

#[verifier::spinoff_prover]
#[verifier::rlimit(60)]
proof fn lemma_part_21(args: Seq<Seq<char>>)
    requires
        args.len() == 3,
    ensures
        text::fill("($1) < 0 && ($0) < (std::numeric_limits<$2>::min() - ($1))"@, args) == meaning::shown(meaning::binary(Operator::And, meaning::binary(Operator::Less, meaning::group(meaning::named(args[1])), meaning::number(0)), meaning::binary(Operator::Less, meaning::group(meaning::named(args[0])), meaning::group(meaning::binary(Operator::Minus, meaning::named(smallest(args[2])), meaning::group(meaning::named(args[1]))))))),
{
    let lhs = args[0];
    let rhs = args[1];
    let name = args[2];
    reveal_strlit(" && ");
    reveal_strlit("($0) < (std::numeric_limits<$2>::min() - ($1))");
    reveal_strlit("($1) < 0");
    reveal_strlit("($1) < 0 && ($0) < (std::numeric_limits<$2>::min() - ($1))");
    assert("($1) < 0 && ($0) < (std::numeric_limits<$2>::min() - ($1))"@ =~= "($1) < 0"@ + (" && "@ + ("($0) < (std::numeric_limits<$2>::min() - ($1))"@)));
    text::law_parts_are_filled("($1) < 0"@, " && "@ + ("($0) < (std::numeric_limits<$2>::min() - ($1))"@), args);
    text::law_parts_are_filled(" && "@, "($0) < (std::numeric_limits<$2>::min() - ($1))"@, args);
    lemma_part_16(args);
    text::law_plain_text_is_kept(" && "@, args);
    lemma_part_20(args);
    assert(text::fill("($1) < 0 && ($0) < (std::numeric_limits<$2>::min() - ($1))"@, args) =~= meaning::shown(meaning::binary(Operator::And, meaning::binary(Operator::Less, meaning::group(meaning::named(rhs)), meaning::number(0)), meaning::binary(Operator::Less, meaning::group(meaning::named(lhs)), meaning::group(meaning::binary(Operator::Minus, meaning::named(smallest(name)), meaning::group(meaning::named(rhs))))))));
}

#[verifier::spinoff_prover]
#[verifier::rlimit(60)]
proof fn lemma_part_22(args: Seq<Seq<char>>)
    requires
        args.len() == 3,
    ensures
        text::fill("(($1) < 0 && ($0) < (std::numeric_limits<$2>::min() - ($1)))"@, args) == meaning::shown(meaning::group(meaning::binary(Operator::And, meaning::binary(Operator::Less, meaning::group(meaning::named(args[1])), meaning::number(0)), meaning::binary(Operator::Less, meaning::group(meaning::named(args[0])), meaning::group(meaning::binary(Operator::Minus, meaning::named(smallest(args[2])), meaning::group(meaning::named(args[1])))))))),
{
    let lhs = args[0];
    let rhs = args[1];
    let name = args[2];
    reveal_strlit("(");
    reveal_strlit("($1) < 0 && ($0) < (std::numeric_limits<$2>::min() - ($1))");
    reveal_strlit("(($1) < 0 && ($0) < (std::numeric_limits<$2>::min() - ($1)))");
    reveal_strlit(")");
    assert("(($1) < 0 && ($0) < (std::numeric_limits<$2>::min() - ($1)))"@ =~= "("@ + ("($1) < 0 && ($0) < (std::numeric_limits<$2>::min() - ($1))"@ + (")"@)));
    text::law_parts_are_filled("("@, "($1) < 0 && ($0) < (std::numeric_limits<$2>::min() - ($1))"@ + (")"@), args);
    text::law_parts_are_filled("($1) < 0 && ($0) < (std::numeric_limits<$2>::min() - ($1))"@, ")"@, args);
    text::law_plain_text_is_kept("("@, args);
    lemma_part_21(args);
    text::law_plain_text_is_kept(")"@, args);
    assert(text::fill("(($1) < 0 && ($0) < (std::numeric_limits<$2>::min() - ($1)))"@, args) =~= meaning::shown(meaning::group(meaning::binary(Operator::And, meaning::binary(Operator::Less, meaning::group(meaning::named(rhs)), meaning::number(0)), meaning::binary(Operator::Less, meaning::group(meaning::named(lhs)), meaning::group(meaning::binary(Operator::Minus, meaning::named(smallest(name)), meaning::group(meaning::named(rhs)))))))));
}

#[verifier::spinoff_prover]
#[verifier::rlimit(60)]
proof fn lemma_part_23(args: Seq<Seq<char>>)
    requires
        args.len() == 3,
    ensures
        text::fill("(($1) < 0 && ($0) < (std::numeric_limits<$2>::min() - ($1))) ? std::numeric_limits<$2>::min() : ($0) + ($1)"@, args) == meaning::shown(meaning::choice(meaning::group(meaning::binary(Operator::And, meaning::binary(Operator::Less, meaning::group(meaning::named(args[1])), meaning::number(0)), meaning::binary(Operator::Less, meaning::group(meaning::named(args[0])), meaning::group(meaning::binary(Operator::Minus, meaning::named(smallest(args[2])), meaning::group(meaning::named(args[1]))))))), meaning::named(smallest(args[2])), meaning::binary(Operator::Plus, meaning::group(meaning::named(args[0])), meaning::group(meaning::named(args[1]))))),
{
    let lhs = args[0];
    let rhs = args[1];
    let name = args[2];
    reveal_strlit(" : ");
    reveal_strlit(" ? ");
    reveal_strlit("($0) + ($1)");
    reveal_strlit("(($1) < 0 && ($0) < (std::numeric_limits<$2>::min() - ($1)))");
    reveal_strlit("(($1) < 0 && ($0) < (std::numeric_limits<$2>::min() - ($1))) ? std::numeric_limits<$2>::min() : ($0) + ($1)");
    reveal_strlit("std::numeric_limits<$2>::min()");
    assert("(($1) < 0 && ($0) < (std::numeric_limits<$2>::min() - ($1))) ? std::numeric_limits<$2>::min() : ($0) + ($1)"@ =~= "(($1) < 0 && ($0) < (std::numeric_limits<$2>::min() - ($1)))"@ + (" ? "@ + ("std::numeric_limits<$2>::min()"@ + (" : "@ + ("($0) + ($1)"@)))));
    text::law_parts_are_filled("(($1) < 0 && ($0) < (std::numeric_limits<$2>::min() - ($1)))"@, " ? "@ + ("std::numeric_limits<$2>::min()"@ + (" : "@ + ("($0) + ($1)"@))), args);
    text::law_parts_are_filled(" ? "@, "std::numeric_limits<$2>::min()"@ + (" : "@ + ("($0) + ($1)"@)), args);
    text::law_parts_are_filled("std::numeric_limits<$2>::min()"@, " : "@ + ("($0) + ($1)"@), args);
    text::law_parts_are_filled(" : "@, "($0) + ($1)"@, args);
    lemma_part_22(args);
    text::law_plain_text_is_kept(" ? "@, args);
    lemma_part_17(args);
    text::law_plain_text_is_kept(" : "@, args);
    lemma_part_9(args);
    assert(text::fill("(($1) < 0 && ($0) < (std::numeric_limits<$2>::min() - ($1))) ? std::numeric_limits<$2>::min() : ($0) + ($1)"@, args) =~= meaning::shown(meaning::choice(meaning::group(meaning::binary(Operator::And, meaning::binary(Operator::Less, meaning::group(meaning::named(rhs)), meaning::number(0)), meaning::binary(Operator::Less, meaning::group(meaning::named(lhs)), meaning::group(meaning::binary(Operator::Minus, meaning::named(smallest(name)), meaning::group(meaning::named(rhs))))))), meaning::named(smallest(name)), meaning::binary(Operator::Plus, meaning::group(meaning::named(lhs)), meaning::group(meaning::named(rhs))))));
}

#[verifier::spinoff_prover]
#[verifier::rlimit(60)]
proof fn lemma_part_24(args: Seq<Seq<char>>)
    requires
        args.len() == 3,
    ensures
        text::fill("((($1) < 0 && ($0) < (std::numeric_limits<$2>::min() - ($1))) ? std::numeric_limits<$2>::min() : ($0) + ($1))"@, args) == meaning::shown(meaning::group(meaning::choice(meaning::group(meaning::binary(Operator::And, meaning::binary(Operator::Less, meaning::group(meaning::named(args[1])), meaning::number(0)), meaning::binary(Operator::Less, meaning::group(meaning::named(args[0])), meaning::group(meaning::binary(Operator::Minus, meaning::named(smallest(args[2])), meaning::group(meaning::named(args[1]))))))), meaning::named(smallest(args[2])), meaning::binary(Operator::Plus, meaning::group(meaning::named(args[0])), meaning::group(meaning::named(args[1])))))),
{
    let lhs = args[0];
    let rhs = args[1];
    let name = args[2];
    reveal_strlit("(");
    reveal_strlit("(($1) < 0 && ($0) < (std::numeric_limits<$2>::min() - ($1))) ? std::numeric_limits<$2>::min() : ($0) + ($1)");
    reveal_strlit("((($1) < 0 && ($0) < (std::numeric_limits<$2>::min() - ($1))) ? std::numeric_limits<$2>::min() : ($0) + ($1))");
    reveal_strlit(")");
    assert("((($1) < 0 && ($0) < (std::numeric_limits<$2>::min() - ($1))) ? std::numeric_limits<$2>::min() : ($0) + ($1))"@ =~= "("@ + ("(($1) < 0 && ($0) < (std::numeric_limits<$2>::min() - ($1))) ? std::numeric_limits<$2>::min() : ($0) + ($1)"@ + (")"@)));
    text::law_parts_are_filled("("@, "(($1) < 0 && ($0) < (std::numeric_limits<$2>::min() - ($1))) ? std::numeric_limits<$2>::min() : ($0) + ($1)"@ + (")"@), args);
    text::law_parts_are_filled("(($1) < 0 && ($0) < (std::numeric_limits<$2>::min() - ($1))) ? std::numeric_limits<$2>::min() : ($0) + ($1)"@, ")"@, args);
    text::law_plain_text_is_kept("("@, args);
    lemma_part_23(args);
    text::law_plain_text_is_kept(")"@, args);
    assert(text::fill("((($1) < 0 && ($0) < (std::numeric_limits<$2>::min() - ($1))) ? std::numeric_limits<$2>::min() : ($0) + ($1))"@, args) =~= meaning::shown(meaning::group(meaning::choice(meaning::group(meaning::binary(Operator::And, meaning::binary(Operator::Less, meaning::group(meaning::named(rhs)), meaning::number(0)), meaning::binary(Operator::Less, meaning::group(meaning::named(lhs)), meaning::group(meaning::binary(Operator::Minus, meaning::named(smallest(name)), meaning::group(meaning::named(rhs))))))), meaning::named(smallest(name)), meaning::binary(Operator::Plus, meaning::group(meaning::named(lhs)), meaning::group(meaning::named(rhs)))))));
}

#[verifier::spinoff_prover]
#[verifier::rlimit(60)]
proof fn lemma_part_25(args: Seq<Seq<char>>)
    requires
        args.len() == 3,
    ensures
        text::fill("(($1) > 0 && ($0) > (std::numeric_limits<$2>::max() - ($1))) ? std::numeric_limits<$2>::max() : ((($1) < 0 && ($0) < (std::numeric_limits<$2>::min() - ($1))) ? std::numeric_limits<$2>::min() : ($0) + ($1))"@, args) == meaning::shown(meaning::choice(meaning::group(meaning::binary(Operator::And, meaning::binary(Operator::Greater, meaning::group(meaning::named(args[1])), meaning::number(0)), meaning::binary(Operator::Greater, meaning::group(meaning::named(args[0])), meaning::group(meaning::binary(Operator::Minus, meaning::named(largest(args[2])), meaning::group(meaning::named(args[1]))))))), meaning::named(largest(args[2])), meaning::group(meaning::choice(meaning::group(meaning::binary(Operator::And, meaning::binary(Operator::Less, meaning::group(meaning::named(args[1])), meaning::number(0)), meaning::binary(Operator::Less, meaning::group(meaning::named(args[0])), meaning::group(meaning::binary(Operator::Minus, meaning::named(smallest(args[2])), meaning::group(meaning::named(args[1]))))))), meaning::named(smallest(args[2])), meaning::binary(Operator::Plus, meaning::group(meaning::named(args[0])), meaning::group(meaning::named(args[1]))))))),
{
    let lhs = args[0];
    let rhs = args[1];
    let name = args[2];
    reveal_strlit(" : ");
    reveal_strlit(" ? ");
    reveal_strlit("(($1) > 0 && ($0) > (std::numeric_limits<$2>::max() - ($1)))");
    reveal_strlit("(($1) > 0 && ($0) > (std::numeric_limits<$2>::max() - ($1))) ? std::numeric_limits<$2>::max() : ((($1) < 0 && ($0) < (std::numeric_limits<$2>::min() - ($1))) ? std::numeric_limits<$2>::min() : ($0) + ($1))");
    reveal_strlit("((($1) < 0 && ($0) < (std::numeric_limits<$2>::min() - ($1))) ? std::numeric_limits<$2>::min() : ($0) + ($1))");
    reveal_strlit("std::numeric_limits<$2>::max()");
    assert("(($1) > 0 && ($0) > (std::numeric_limits<$2>::max() - ($1))) ? std::numeric_limits<$2>::max() : ((($1) < 0 && ($0) < (std::numeric_limits<$2>::min() - ($1))) ? std::numeric_limits<$2>::min() : ($0) + ($1))"@ =~= "(($1) > 0 && ($0) > (std::numeric_limits<$2>::max() - ($1)))"@ + (" ? "@ + ("std::numeric_limits<$2>::max()"@ + (" : "@ + ("((($1) < 0 && ($0) < (std::numeric_limits<$2>::min() - ($1))) ? std::numeric_limits<$2>::min() : ($0) + ($1))"@)))));
    text::law_parts_are_filled("(($1) > 0 && ($0) > (std::numeric_limits<$2>::max() - ($1)))"@, " ? "@ + ("std::numeric_limits<$2>::max()"@ + (" : "@ + ("((($1) < 0 && ($0) < (std::numeric_limits<$2>::min() - ($1))) ? std::numeric_limits<$2>::min() : ($0) + ($1))"@))), args);
    text::law_parts_are_filled(" ? "@, "std::numeric_limits<$2>::max()"@ + (" : "@ + ("((($1) < 0 && ($0) < (std::numeric_limits<$2>::min() - ($1))) ? std::numeric_limits<$2>::min() : ($0) + ($1))"@)), args);
    text::law_parts_are_filled("std::numeric_limits<$2>::max()"@, " : "@ + ("((($1) < 0 && ($0) < (std::numeric_limits<$2>::min() - ($1))) ? std::numeric_limits<$2>::min() : ($0) + ($1))"@), args);
    text::law_parts_are_filled(" : "@, "((($1) < 0 && ($0) < (std::numeric_limits<$2>::min() - ($1))) ? std::numeric_limits<$2>::min() : ($0) + ($1))"@, args);
    lemma_part_15(args);
    text::law_plain_text_is_kept(" ? "@, args);
    lemma_part_3(args);
    text::law_plain_text_is_kept(" : "@, args);
    lemma_part_24(args);
    assert(text::fill("(($1) > 0 && ($0) > (std::numeric_limits<$2>::max() - ($1))) ? std::numeric_limits<$2>::max() : ((($1) < 0 && ($0) < (std::numeric_limits<$2>::min() - ($1))) ? std::numeric_limits<$2>::min() : ($0) + ($1))"@, args) =~= meaning::shown(meaning::choice(meaning::group(meaning::binary(Operator::And, meaning::binary(Operator::Greater, meaning::group(meaning::named(rhs)), meaning::number(0)), meaning::binary(Operator::Greater, meaning::group(meaning::named(lhs)), meaning::group(meaning::binary(Operator::Minus, meaning::named(largest(name)), meaning::group(meaning::named(rhs))))))), meaning::named(largest(name)), meaning::group(meaning::choice(meaning::group(meaning::binary(Operator::And, meaning::binary(Operator::Less, meaning::group(meaning::named(rhs)), meaning::number(0)), meaning::binary(Operator::Less, meaning::group(meaning::named(lhs)), meaning::group(meaning::binary(Operator::Minus, meaning::named(smallest(name)), meaning::group(meaning::named(rhs))))))), meaning::named(smallest(name)), meaning::binary(Operator::Plus, meaning::group(meaning::named(lhs)), meaning::group(meaning::named(rhs))))))));
}

#[verifier::spinoff_prover]
#[verifier::rlimit(60)]
proof fn lemma_part_26(args: Seq<Seq<char>>)
    requires
        args.len() == 3,
    ensures
        text::fill("((($1) > 0 && ($0) > (std::numeric_limits<$2>::max() - ($1))) ? std::numeric_limits<$2>::max() : ((($1) < 0 && ($0) < (std::numeric_limits<$2>::min() - ($1))) ? std::numeric_limits<$2>::min() : ($0) + ($1)))"@, args) == meaning::shown(meaning::group(meaning::choice(meaning::group(meaning::binary(Operator::And, meaning::binary(Operator::Greater, meaning::group(meaning::named(args[1])), meaning::number(0)), meaning::binary(Operator::Greater, meaning::group(meaning::named(args[0])), meaning::group(meaning::binary(Operator::Minus, meaning::named(largest(args[2])), meaning::group(meaning::named(args[1]))))))), meaning::named(largest(args[2])), meaning::group(meaning::choice(meaning::group(meaning::binary(Operator::And, meaning::binary(Operator::Less, meaning::group(meaning::named(args[1])), meaning::number(0)), meaning::binary(Operator::Less, meaning::group(meaning::named(args[0])), meaning::group(meaning::binary(Operator::Minus, meaning::named(smallest(args[2])), meaning::group(meaning::named(args[1]))))))), meaning::named(smallest(args[2])), meaning::binary(Operator::Plus, meaning::group(meaning::named(args[0])), meaning::group(meaning::named(args[1])))))))),
{
    let lhs = args[0];
    let rhs = args[1];
    let name = args[2];
    reveal_strlit("(");
    reveal_strlit("(($1) > 0 && ($0) > (std::numeric_limits<$2>::max() - ($1))) ? std::numeric_limits<$2>::max() : ((($1) < 0 && ($0) < (std::numeric_limits<$2>::min() - ($1))) ? std::numeric_limits<$2>::min() : ($0) + ($1))");
    reveal_strlit("((($1) > 0 && ($0) > (std::numeric_limits<$2>::max() - ($1))) ? std::numeric_limits<$2>::max() : ((($1) < 0 && ($0) < (std::numeric_limits<$2>::min() - ($1))) ? std::numeric_limits<$2>::min() : ($0) + ($1)))");
    reveal_strlit(")");
    assert("((($1) > 0 && ($0) > (std::numeric_limits<$2>::max() - ($1))) ? std::numeric_limits<$2>::max() : ((($1) < 0 && ($0) < (std::numeric_limits<$2>::min() - ($1))) ? std::numeric_limits<$2>::min() : ($0) + ($1)))"@ =~= "("@ + ("(($1) > 0 && ($0) > (std::numeric_limits<$2>::max() - ($1))) ? std::numeric_limits<$2>::max() : ((($1) < 0 && ($0) < (std::numeric_limits<$2>::min() - ($1))) ? std::numeric_limits<$2>::min() : ($0) + ($1))"@ + (")"@)));
    text::law_parts_are_filled("("@, "(($1) > 0 && ($0) > (std::numeric_limits<$2>::max() - ($1))) ? std::numeric_limits<$2>::max() : ((($1) < 0 && ($0) < (std::numeric_limits<$2>::min() - ($1))) ? std::numeric_limits<$2>::min() : ($0) + ($1))"@ + (")"@), args);
    text::law_parts_are_filled("(($1) > 0 && ($0) > (std::numeric_limits<$2>::max() - ($1))) ? std::numeric_limits<$2>::max() : ((($1) < 0 && ($0) < (std::numeric_limits<$2>::min() - ($1))) ? std::numeric_limits<$2>::min() : ($0) + ($1))"@, ")"@, args);
    text::law_plain_text_is_kept("("@, args);
    lemma_part_25(args);
    text::law_plain_text_is_kept(")"@, args);
    assert(text::fill("((($1) > 0 && ($0) > (std::numeric_limits<$2>::max() - ($1))) ? std::numeric_limits<$2>::max() : ((($1) < 0 && ($0) < (std::numeric_limits<$2>::min() - ($1))) ? std::numeric_limits<$2>::min() : ($0) + ($1)))"@, args) =~= meaning::shown(meaning::group(meaning::choice(meaning::group(meaning::binary(Operator::And, meaning::binary(Operator::Greater, meaning::group(meaning::named(rhs)), meaning::number(0)), meaning::binary(Operator::Greater, meaning::group(meaning::named(lhs)), meaning::group(meaning::binary(Operator::Minus, meaning::named(largest(name)), meaning::group(meaning::named(rhs))))))), meaning::named(largest(name)), meaning::group(meaning::choice(meaning::group(meaning::binary(Operator::And, meaning::binary(Operator::Less, meaning::group(meaning::named(rhs)), meaning::number(0)), meaning::binary(Operator::Less, meaning::group(meaning::named(lhs)), meaning::group(meaning::binary(Operator::Minus, meaning::named(smallest(name)), meaning::group(meaning::named(rhs))))))), meaning::named(smallest(name)), meaning::binary(Operator::Plus, meaning::group(meaning::named(lhs)), meaning::group(meaning::named(rhs)))))))));
}

#[verifier::spinoff_prover]
#[verifier::rlimit(60)]
proof fn lemma_part_27(args: Seq<Seq<char>>)
    requires
        args.len() == 3,
    ensures
        text::fill("($0) < ($1)"@, args) == meaning::shown(meaning::binary(Operator::Less, meaning::group(meaning::named(args[0])), meaning::group(meaning::named(args[1])))),
{
    let lhs = args[0];
    let rhs = args[1];
    let name = args[2];
    reveal_strlit(" < ");
    reveal_strlit("($0)");
    reveal_strlit("($0) < ($1)");
    reveal_strlit("($1)");
    assert("($0) < ($1)"@ =~= "($0)"@ + (" < "@ + ("($1)"@)));
    text::law_parts_are_filled("($0)"@, " < "@ + ("($1)"@), args);
    text::law_parts_are_filled(" < "@, "($1)"@, args);
    lemma_part_2(args);
    text::law_plain_text_is_kept(" < "@, args);
    lemma_part_5(args);
    assert(text::fill("($0) < ($1)"@, args) =~= meaning::shown(meaning::binary(Operator::Less, meaning::group(meaning::named(lhs)), meaning::group(meaning::named(rhs)))));
}

#[verifier::spinoff_prover]
#[verifier::rlimit(60)]
proof fn lemma_part_28(args: Seq<Seq<char>>)
    requires
        args.len() == 3,
    ensures
        text::fill("$2(0)"@, args) == meaning::shown(meaning::named(zero_of(args[2]))),
{
    let lhs = args[0];
    let rhs = args[1];
    let name = args[2];
    reveal_strlit("$2(0)");
    reveal_strlit("(0)");
    reveal_strlit("");
    let segments = seq![""@, "(0)"@];
    let indices = seq![2nat];
    reveal_with_fuel(text::skeleton, 2);
    reveal_with_fuel(text::fleshed, 2);
    assert("$2(0)"@ =~= text::skeleton(segments, indices, 0));
    text::law_segments_are_kept(segments, indices, args, 0);
    assert(text::fill("$2(0)"@, args) =~= zero_of(name));
}

#[verifier::spinoff_prover]
#[verifier::rlimit(60)]
proof fn lemma_part_29(args: Seq<Seq<char>>)
    requires
        args.len() == 3,
    ensures
        text::fill("($0) - ($1)"@, args) == meaning::shown(meaning::binary(Operator::Minus, meaning::group(meaning::named(args[0])), meaning::group(meaning::named(args[1])))),
{
    let lhs = args[0];
    let rhs = args[1];
    let name = args[2];
    reveal_strlit(" - ");
    reveal_strlit("($0)");
    reveal_strlit("($0) - ($1)");
    reveal_strlit("($1)");
    assert("($0) - ($1)"@ =~= "($0)"@ + (" - "@ + ("($1)"@)));
    text::law_parts_are_filled("($0)"@, " - "@ + ("($1)"@), args);
    text::law_parts_are_filled(" - "@, "($1)"@, args);
    lemma_part_2(args);
    text::law_plain_text_is_kept(" - "@, args);
    lemma_part_5(args);
    assert(text::fill("($0) - ($1)"@, args) =~= meaning::shown(meaning::binary(Operator::Minus, meaning::group(meaning::named(lhs)), meaning::group(meaning::named(rhs)))));
}

#[verifier::spinoff_prover]
#[verifier::rlimit(60)]
proof fn lemma_part_30(args: Seq<Seq<char>>)
    requires
        args.len() == 3,
    ensures
        text::fill("($0) < ($1) ? $2(0) : ($0) - ($1)"@, args) == meaning::shown(meaning::choice(meaning::binary(Operator::Less, meaning::group(meaning::named(args[0])), meaning::group(meaning::named(args[1]))), meaning::named(zero_of(args[2])), meaning::binary(Operator::Minus, meaning::group(meaning::named(args[0])), meaning::group(meaning::named(args[1]))))),
{
    let lhs = args[0];
    let rhs = args[1];
    let name = args[2];
    reveal_strlit(" : ");
    reveal_strlit(" ? ");
    reveal_strlit("$2(0)");
    reveal_strlit("($0) - ($1)");
    reveal_strlit("($0) < ($1)");
    reveal_strlit("($0) < ($1) ? $2(0) : ($0) - ($1)");
    assert("($0) < ($1) ? $2(0) : ($0) - ($1)"@ =~= "($0) < ($1)"@ + (" ? "@ + ("$2(0)"@ + (" : "@ + ("($0) - ($1)"@)))));
    text::law_parts_are_filled("($0) < ($1)"@, " ? "@ + ("$2(0)"@ + (" : "@ + ("($0) - ($1)"@))), args);
    text::law_parts_are_filled(" ? "@, "$2(0)"@ + (" : "@ + ("($0) - ($1)"@)), args);
    text::law_parts_are_filled("$2(0)"@, " : "@ + ("($0) - ($1)"@), args);
    text::law_parts_are_filled(" : "@, "($0) - ($1)"@, args);
    lemma_part_27(args);
    text::law_plain_text_is_kept(" ? "@, args);
    lemma_part_28(args);
    text::law_plain_text_is_kept(" : "@, args);
    lemma_part_29(args);
    assert(text::fill("($0) < ($1) ? $2(0) : ($0) - ($1)"@, args) =~= meaning::shown(meaning::choice(meaning::binary(Operator::Less, meaning::group(meaning::named(lhs)), meaning::group(meaning::named(rhs))), meaning::named(zero_of(name)), meaning::binary(Operator::Minus, meaning::group(meaning::named(lhs)), meaning::group(meaning::named(rhs))))));
}

#[verifier::spinoff_prover]
#[verifier::rlimit(60)]
proof fn lemma_part_31(args: Seq<Seq<char>>)
    requires
        args.len() == 3,
    ensures
        text::fill("(($0) < ($1) ? $2(0) : ($0) - ($1))"@, args) == meaning::shown(meaning::group(meaning::choice(meaning::binary(Operator::Less, meaning::group(meaning::named(args[0])), meaning::group(meaning::named(args[1]))), meaning::named(zero_of(args[2])), meaning::binary(Operator::Minus, meaning::group(meaning::named(args[0])), meaning::group(meaning::named(args[1])))))),
{
    let lhs = args[0];
    let rhs = args[1];
    let name = args[2];
    reveal_strlit("(");
    reveal_strlit("($0) < ($1) ? $2(0) : ($0) - ($1)");
    reveal_strlit("(($0) < ($1) ? $2(0) : ($0) - ($1))");
    reveal_strlit(")");
    assert("(($0) < ($1) ? $2(0) : ($0) - ($1))"@ =~= "("@ + ("($0) < ($1) ? $2(0) : ($0) - ($1)"@ + (")"@)));
    text::law_parts_are_filled("("@, "($0) < ($1) ? $2(0) : ($0) - ($1)"@ + (")"@), args);
    text::law_parts_are_filled("($0) < ($1) ? $2(0) : ($0) - ($1)"@, ")"@, args);
    text::law_plain_text_is_kept("("@, args);
    lemma_part_30(args);
    text::law_plain_text_is_kept(")"@, args);
    assert(text::fill("(($0) < ($1) ? $2(0) : ($0) - ($1))"@, args) =~= meaning::shown(meaning::group(meaning::choice(meaning::binary(Operator::Less, meaning::group(meaning::named(lhs)), meaning::group(meaning::named(rhs))), meaning::named(zero_of(name)), meaning::binary(Operator::Minus, meaning::group(meaning::named(lhs)), meaning::group(meaning::named(rhs)))))));
}

#[verifier::spinoff_prover]
#[verifier::rlimit(60)]
proof fn lemma_part_32(args: Seq<Seq<char>>)
    requires
        args.len() == 3,
    ensures
        text::fill("std::numeric_limits<$2>::min() + ($1)"@, args) == meaning::shown(meaning::binary(Operator::Plus, meaning::named(smallest(args[2])), meaning::group(meaning::named(args[1])))),
{
    let lhs = args[0];
    let rhs = args[1];
    let name = args[2];
    reveal_strlit(" + ");
    reveal_strlit("($1)");
    reveal_strlit("std::numeric_limits<$2>::min()");
    reveal_strlit("std::numeric_limits<$2>::min() + ($1)");
    assert("std::numeric_limits<$2>::min() + ($1)"@ =~= "std::numeric_limits<$2>::min()"@ + (" + "@ + ("($1)"@)));
    text::law_parts_are_filled("std::numeric_limits<$2>::min()"@, " + "@ + ("($1)"@), args);
    text::law_parts_are_filled(" + "@, "($1)"@, args);
    lemma_part_17(args);
    text::law_plain_text_is_kept(" + "@, args);
    lemma_part_5(args);
    assert(text::fill("std::numeric_limits<$2>::min() + ($1)"@, args) =~= meaning::shown(meaning::binary(Operator::Plus, meaning::named(smallest(name)), meaning::group(meaning::named(rhs)))));
}

#[verifier::spinoff_prover]
#[verifier::rlimit(60)]
proof fn lemma_part_33(args: Seq<Seq<char>>)
    requires
        args.len() == 3,
    ensures
        text::fill("(std::numeric_limits<$2>::min() + ($1))"@, args) == meaning::shown(meaning::group(meaning::binary(Operator::Plus, meaning::named(smallest(args[2])), meaning::group(meaning::named(args[1]))))),
{
    let lhs = args[0];
    let rhs = args[1];
    let name = args[2];
    reveal_strlit("(");
    reveal_strlit("(std::numeric_limits<$2>::min() + ($1))");
    reveal_strlit(")");
    reveal_strlit("std::numeric_limits<$2>::min() + ($1)");
    assert("(std::numeric_limits<$2>::min() + ($1))"@ =~= "("@ + ("std::numeric_limits<$2>::min() + ($1)"@ + (")"@)));
    text::law_parts_are_filled("("@, "std::numeric_limits<$2>::min() + ($1)"@ + (")"@), args);
    text::law_parts_are_filled("std::numeric_limits<$2>::min() + ($1)"@, ")"@, args);
    text::law_plain_text_is_kept("("@, args);
    lemma_part_32(args);
    text::law_plain_text_is_kept(")"@, args);
    assert(text::fill("(std::numeric_limits<$2>::min() + ($1))"@, args) =~= meaning::shown(meaning::group(meaning::binary(Operator::Plus, meaning::named(smallest(name)), meaning::group(meaning::named(rhs))))));
}

#[verifier::spinoff_prover]
#[verifier::rlimit(60)]
proof fn lemma_part_34(args: Seq<Seq<char>>)
    requires
        args.len() == 3,
    ensures
        text::fill("($0) < (std::numeric_limits<$2>::min() + ($1))"@, args) == meaning::shown(meaning::binary(Operator::Less, meaning::group(meaning::named(args[0])), meaning::group(meaning::binary(Operator::Plus, meaning::named(smallest(args[2])), meaning::group(meaning::named(args[1])))))),
{
    let lhs = args[0];
    let rhs = args[1];
    let name = args[2];
    reveal_strlit(" < ");
    reveal_strlit("($0)");
    reveal_strlit("($0) < (std::numeric_limits<$2>::min() + ($1))");
    reveal_strlit("(std::numeric_limits<$2>::min() + ($1))");
    assert("($0) < (std::numeric_limits<$2>::min() + ($1))"@ =~= "($0)"@ + (" < "@ + ("(std::numeric_limits<$2>::min() + ($1))"@)));
    text::law_parts_are_filled("($0)"@, " < "@ + ("(std::numeric_limits<$2>::min() + ($1))"@), args);
    text::law_parts_are_filled(" < "@, "(std::numeric_limits<$2>::min() + ($1))"@, args);
    lemma_part_2(args);
    text::law_plain_text_is_kept(" < "@, args);
    lemma_part_33(args);
    assert(text::fill("($0) < (std::numeric_limits<$2>::min() + ($1))"@, args) =~= meaning::shown(meaning::binary(Operator::Less, meaning::group(meaning::named(lhs)), meaning::group(meaning::binary(Operator::Plus, meaning::named(smallest(name)), meaning::group(meaning::named(rhs)))))));
}

#[verifier::spinoff_prover]
#[verifier::rlimit(60)]
proof fn lemma_part_35(args: Seq<Seq<char>>)
    requires
        args.len() == 3,
    ensures
        text::fill("($1) > 0 && ($0) < (std::numeric_limits<$2>::min() + ($1))"@, args) == meaning::shown(meaning::binary(Operator::And, meaning::binary(Operator::Greater, meaning::group(meaning::named(args[1])), meaning::number(0)), meaning::binary(Operator::Less, meaning::group(meaning::named(args[0])), meaning::group(meaning::binary(Operator::Plus, meaning::named(smallest(args[2])), meaning::group(meaning::named(args[1]))))))),
{
    let lhs = args[0];
    let rhs = args[1];
    let name = args[2];
    reveal_strlit(" && ");
    reveal_strlit("($0) < (std::numeric_limits<$2>::min() + ($1))");
    reveal_strlit("($1) > 0");
    reveal_strlit("($1) > 0 && ($0) < (std::numeric_limits<$2>::min() + ($1))");
    assert("($1) > 0 && ($0) < (std::numeric_limits<$2>::min() + ($1))"@ =~= "($1) > 0"@ + (" && "@ + ("($0) < (std::numeric_limits<$2>::min() + ($1))"@)));
    text::law_parts_are_filled("($1) > 0"@, " && "@ + ("($0) < (std::numeric_limits<$2>::min() + ($1))"@), args);
    text::law_parts_are_filled(" && "@, "($0) < (std::numeric_limits<$2>::min() + ($1))"@, args);
    lemma_part_13(args);
    text::law_plain_text_is_kept(" && "@, args);
    lemma_part_34(args);
    assert(text::fill("($1) > 0 && ($0) < (std::numeric_limits<$2>::min() + ($1))"@, args) =~= meaning::shown(meaning::binary(Operator::And, meaning::binary(Operator::Greater, meaning::group(meaning::named(rhs)), meaning::number(0)), meaning::binary(Operator::Less, meaning::group(meaning::named(lhs)), meaning::group(meaning::binary(Operator::Plus, meaning::named(smallest(name)), meaning::group(meaning::named(rhs))))))));
}

#[verifier::spinoff_prover]
#[verifier::rlimit(60)]
proof fn lemma_part_36(args: Seq<Seq<char>>)
    requires
        args.len() == 3,
    ensures
        text::fill("(($1) > 0 && ($0) < (std::numeric_limits<$2>::min() + ($1)))"@, args) == meaning::shown(meaning::group(meaning::binary(Operator::And, meaning::binary(Operator::Greater, meaning::group(meaning::named(args[1])), meaning::number(0)), meaning::binary(Operator::Less, meaning::group(meaning::named(args[0])), meaning::group(meaning::binary(Operator::Plus, meaning::named(smallest(args[2])), meaning::group(meaning::named(args[1])))))))),
{
    let lhs = args[0];
    let rhs = args[1];
    let name = args[2];
    reveal_strlit("(");
    reveal_strlit("($1) > 0 && ($0) < (std::numeric_limits<$2>::min() + ($1))");
    reveal_strlit("(($1) > 0 && ($0) < (std::numeric_limits<$2>::min() + ($1)))");
    reveal_strlit(")");
    assert("(($1) > 0 && ($0) < (std::numeric_limits<$2>::min() + ($1)))"@ =~= "("@ + ("($1) > 0 && ($0) < (std::numeric_limits<$2>::min() + ($1))"@ + (")"@)));
    text::law_parts_are_filled("("@, "($1) > 0 && ($0) < (std::numeric_limits<$2>::min() + ($1))"@ + (")"@), args);
    text::law_parts_are_filled("($1) > 0 && ($0) < (std::numeric_limits<$2>::min() + ($1))"@, ")"@, args);
    text::law_plain_text_is_kept("("@, args);
    lemma_part_35(args);
    text::law_plain_text_is_kept(")"@, args);
    assert(text::fill("(($1) > 0 && ($0) < (std::numeric_limits<$2>::min() + ($1)))"@, args) =~= meaning::shown(meaning::group(meaning::binary(Operator::And, meaning::binary(Operator::Greater, meaning::group(meaning::named(rhs)), meaning::number(0)), meaning::binary(Operator::Less, meaning::group(meaning::named(lhs)), meaning::group(meaning::binary(Operator::Plus, meaning::named(smallest(name)), meaning::group(meaning::named(rhs)))))))));
}

#[verifier::spinoff_prover]
#[verifier::rlimit(60)]
proof fn lemma_part_37(args: Seq<Seq<char>>)
    requires
        args.len() == 3,
    ensures
        text::fill("std::numeric_limits<$2>::max() + ($1)"@, args) == meaning::shown(meaning::binary(Operator::Plus, meaning::named(largest(args[2])), meaning::group(meaning::named(args[1])))),
{
    let lhs = args[0];
    let rhs = args[1];
    let name = args[2];
    reveal_strlit(" + ");
    reveal_strlit("($1)");
    reveal_strlit("std::numeric_limits<$2>::max()");
    reveal_strlit("std::numeric_limits<$2>::max() + ($1)");
    assert("std::numeric_limits<$2>::max() + ($1)"@ =~= "std::numeric_limits<$2>::max()"@ + (" + "@ + ("($1)"@)));
    text::law_parts_are_filled("std::numeric_limits<$2>::max()"@, " + "@ + ("($1)"@), args);
    text::law_parts_are_filled(" + "@, "($1)"@, args);
    lemma_part_3(args);
    text::law_plain_text_is_kept(" + "@, args);
    lemma_part_5(args);
    assert(text::fill("std::numeric_limits<$2>::max() + ($1)"@, args) =~= meaning::shown(meaning::binary(Operator::Plus, meaning::named(largest(name)), meaning::group(meaning::named(rhs)))));
}

#[verifier::spinoff_prover]
#[verifier::rlimit(60)]
proof fn lemma_part_38(args: Seq<Seq<char>>)
    requires
        args.len() == 3,
    ensures
        text::fill("(std::numeric_limits<$2>::max() + ($1))"@, args) == meaning::shown(meaning::group(meaning::binary(Operator::Plus, meaning::named(largest(args[2])), meaning::group(meaning::named(args[1]))))),
{
    let lhs = args[0];
    let rhs = args[1];
    let name = args[2];
    reveal_strlit("(");
    reveal_strlit("(std::numeric_limits<$2>::max() + ($1))");
    reveal_strlit(")");
    reveal_strlit("std::numeric_limits<$2>::max() + ($1)");
    assert("(std::numeric_limits<$2>::max() + ($1))"@ =~= "("@ + ("std::numeric_limits<$2>::max() + ($1)"@ + (")"@)));
    text::law_parts_are_filled("("@, "std::numeric_limits<$2>::max() + ($1)"@ + (")"@), args);
    text::law_parts_are_filled("std::numeric_limits<$2>::max() + ($1)"@, ")"@, args);
    text::law_plain_text_is_kept("("@, args);
    lemma_part_37(args);
    text::law_plain_text_is_kept(")"@, args);
    assert(text::fill("(std::numeric_limits<$2>::max() + ($1))"@, args) =~= meaning::shown(meaning::group(meaning::binary(Operator::Plus, meaning::named(largest(name)), meaning::group(meaning::named(rhs))))));
}

#[verifier::spinoff_prover]
#[verifier::rlimit(60)]
proof fn lemma_part_39(args: Seq<Seq<char>>)
    requires
        args.len() == 3,
    ensures
        text::fill("($0) > (std::numeric_limits<$2>::max() + ($1))"@, args) == meaning::shown(meaning::binary(Operator::Greater, meaning::group(meaning::named(args[0])), meaning::group(meaning::binary(Operator::Plus, meaning::named(largest(args[2])), meaning::group(meaning::named(args[1])))))),
{
    let lhs = args[0];
    let rhs = args[1];
    let name = args[2];
    reveal_strlit(" > ");
    reveal_strlit("($0)");
    reveal_strlit("($0) > (std::numeric_limits<$2>::max() + ($1))");
    reveal_strlit("(std::numeric_limits<$2>::max() + ($1))");
    assert("($0) > (std::numeric_limits<$2>::max() + ($1))"@ =~= "($0)"@ + (" > "@ + ("(std::numeric_limits<$2>::max() + ($1))"@)));
    text::law_parts_are_filled("($0)"@, " > "@ + ("(std::numeric_limits<$2>::max() + ($1))"@), args);
    text::law_parts_are_filled(" > "@, "(std::numeric_limits<$2>::max() + ($1))"@, args);
    lemma_part_2(args);
    text::law_plain_text_is_kept(" > "@, args);
    lemma_part_38(args);
    assert(text::fill("($0) > (std::numeric_limits<$2>::max() + ($1))"@, args) =~= meaning::shown(meaning::binary(Operator::Greater, meaning::group(meaning::named(lhs)), meaning::group(meaning::binary(Operator::Plus, meaning::named(largest(name)), meaning::group(meaning::named(rhs)))))));
}

#[verifier::spinoff_prover]
#[verifier::rlimit(60)]
proof fn lemma_part_40(args: Seq<Seq<char>>)
    requires
        args.len() == 3,
    ensures
        text::fill("($1) < 0 && ($0) > (std::numeric_limits<$2>::max() + ($1))"@, args) == meaning::shown(meaning::binary(Operator::And, meaning::binary(Operator::Less, meaning::group(meaning::named(args[1])), meaning::number(0)), meaning::binary(Operator::Greater, meaning::group(meaning::named(args[0])), meaning::group(meaning::binary(Operator::Plus, meaning::named(largest(args[2])), meaning::group(meaning::named(args[1]))))))),
{
    let lhs = args[0];
    let rhs = args[1];
    let name = args[2];
    reveal_strlit(" && ");
    reveal_strlit("($0) > (std::numeric_limits<$2>::max() + ($1))");
    reveal_strlit("($1) < 0");
    reveal_strlit("($1) < 0 && ($0) > (std::numeric_limits<$2>::max() + ($1))");
    assert("($1) < 0 && ($0) > (std::numeric_limits<$2>::max() + ($1))"@ =~= "($1) < 0"@ + (" && "@ + ("($0) > (std::numeric_limits<$2>::max() + ($1))"@)));
    text::law_parts_are_filled("($1) < 0"@, " && "@ + ("($0) > (std::numeric_limits<$2>::max() + ($1))"@), args);
    text::law_parts_are_filled(" && "@, "($0) > (std::numeric_limits<$2>::max() + ($1))"@, args);
    lemma_part_16(args);
    text::law_plain_text_is_kept(" && "@, args);
    lemma_part_39(args);
    assert(text::fill("($1) < 0 && ($0) > (std::numeric_limits<$2>::max() + ($1))"@, args) =~= meaning::shown(meaning::binary(Operator::And, meaning::binary(Operator::Less, meaning::group(meaning::named(rhs)), meaning::number(0)), meaning::binary(Operator::Greater, meaning::group(meaning::named(lhs)), meaning::group(meaning::binary(Operator::Plus, meaning::named(largest(name)), meaning::group(meaning::named(rhs))))))));
}

#[verifier::spinoff_prover]
#[verifier::rlimit(60)]
proof fn lemma_part_41(args: Seq<Seq<char>>)
    requires
        args.len() == 3,
    ensures
        text::fill("(($1) < 0 && ($0) > (std::numeric_limits<$2>::max() + ($1)))"@, args) == meaning::shown(meaning::group(meaning::binary(Operator::And, meaning::binary(Operator::Less, meaning::group(meaning::named(args[1])), meaning::number(0)), meaning::binary(Operator::Greater, meaning::group(meaning::named(args[0])), meaning::group(meaning::binary(Operator::Plus, meaning::named(largest(args[2])), meaning::group(meaning::named(args[1])))))))),
{
    let lhs = args[0];
    let rhs = args[1];
    let name = args[2];
    reveal_strlit("(");
    reveal_strlit("($1) < 0 && ($0) > (std::numeric_limits<$2>::max() + ($1))");
    reveal_strlit("(($1) < 0 && ($0) > (std::numeric_limits<$2>::max() + ($1)))");
    reveal_strlit(")");
    assert("(($1) < 0 && ($0) > (std::numeric_limits<$2>::max() + ($1)))"@ =~= "("@ + ("($1) < 0 && ($0) > (std::numeric_limits<$2>::max() + ($1))"@ + (")"@)));
    text::law_parts_are_filled("("@, "($1) < 0 && ($0) > (std::numeric_limits<$2>::max() + ($1))"@ + (")"@), args);
    text::law_parts_are_filled("($1) < 0 && ($0) > (std::numeric_limits<$2>::max() + ($1))"@, ")"@, args);
    text::law_plain_text_is_kept("("@, args);
    lemma_part_40(args);
    text::law_plain_text_is_kept(")"@, args);
    assert(text::fill("(($1) < 0 && ($0) > (std::numeric_limits<$2>::max() + ($1)))"@, args) =~= meaning::shown(meaning::group(meaning::binary(Operator::And, meaning::binary(Operator::Less, meaning::group(meaning::named(rhs)), meaning::number(0)), meaning::binary(Operator::Greater, meaning::group(meaning::named(lhs)), meaning::group(meaning::binary(Operator::Plus, meaning::named(largest(name)), meaning::group(meaning::named(rhs)))))))));
}

#[verifier::spinoff_prover]
#[verifier::rlimit(60)]
proof fn lemma_part_42(args: Seq<Seq<char>>)
    requires
        args.len() == 3,
    ensures
        text::fill("(($1) < 0 && ($0) > (std::numeric_limits<$2>::max() + ($1))) ? std::numeric_limits<$2>::max() : ($0) - ($1)"@, args) == meaning::shown(meaning::choice(meaning::group(meaning::binary(Operator::And, meaning::binary(Operator::Less, meaning::group(meaning::named(args[1])), meaning::number(0)), meaning::binary(Operator::Greater, meaning::group(meaning::named(args[0])), meaning::group(meaning::binary(Operator::Plus, meaning::named(largest(args[2])), meaning::group(meaning::named(args[1]))))))), meaning::named(largest(args[2])), meaning::binary(Operator::Minus, meaning::group(meaning::named(args[0])), meaning::group(meaning::named(args[1]))))),
{
    let lhs = args[0];
    let rhs = args[1];
    let name = args[2];
    reveal_strlit(" : ");
    reveal_strlit(" ? ");
    reveal_strlit("($0) - ($1)");
    reveal_strlit("(($1) < 0 && ($0) > (std::numeric_limits<$2>::max() + ($1)))");
    reveal_strlit("(($1) < 0 && ($0) > (std::numeric_limits<$2>::max() + ($1))) ? std::numeric_limits<$2>::max() : ($0) - ($1)");
    reveal_strlit("std::numeric_limits<$2>::max()");
    assert("(($1) < 0 && ($0) > (std::numeric_limits<$2>::max() + ($1))) ? std::numeric_limits<$2>::max() : ($0) - ($1)"@ =~= "(($1) < 0 && ($0) > (std::numeric_limits<$2>::max() + ($1)))"@ + (" ? "@ + ("std::numeric_limits<$2>::max()"@ + (" : "@ + ("($0) - ($1)"@)))));
    text::law_parts_are_filled("(($1) < 0 && ($0) > (std::numeric_limits<$2>::max() + ($1)))"@, " ? "@ + ("std::numeric_limits<$2>::max()"@ + (" : "@ + ("($0) - ($1)"@))), args);
    text::law_parts_are_filled(" ? "@, "std::numeric_limits<$2>::max()"@ + (" : "@ + ("($0) - ($1)"@)), args);
    text::law_parts_are_filled("std::numeric_limits<$2>::max()"@, " : "@ + ("($0) - ($1)"@), args);
    text::law_parts_are_filled(" : "@, "($0) - ($1)"@, args);
    lemma_part_41(args);
    text::law_plain_text_is_kept(" ? "@, args);
    lemma_part_3(args);
    text::law_plain_text_is_kept(" : "@, args);
    lemma_part_29(args);
    assert(text::fill("(($1) < 0 && ($0) > (std::numeric_limits<$2>::max() + ($1))) ? std::numeric_limits<$2>::max() : ($0) - ($1)"@, args) =~= meaning::shown(meaning::choice(meaning::group(meaning::binary(Operator::And, meaning::binary(Operator::Less, meaning::group(meaning::named(rhs)), meaning::number(0)), meaning::binary(Operator::Greater, meaning::group(meaning::named(lhs)), meaning::group(meaning::binary(Operator::Plus, meaning::named(largest(name)), meaning::group(meaning::named(rhs))))))), meaning::named(largest(name)), meaning::binary(Operator::Minus, meaning::group(meaning::named(lhs)), meaning::group(meaning::named(rhs))))));
}

#[verifier::spinoff_prover]
#[verifier::rlimit(60)]
proof fn lemma_part_43(args: Seq<Seq<char>>)
    requires
        args.len() == 3,
    ensures
        text::fill("((($1) < 0 && ($0) > (std::numeric_limits<$2>::max() + ($1))) ? std::numeric_limits<$2>::max() : ($0) - ($1))"@, args) == meaning::shown(meaning::group(meaning::choice(meaning::group(meaning::binary(Operator::And, meaning::binary(Operator::Less, meaning::group(meaning::named(args[1])), meaning::number(0)), meaning::binary(Operator::Greater, meaning::group(meaning::named(args[0])), meaning::group(meaning::binary(Operator::Plus, meaning::named(largest(args[2])), meaning::group(meaning::named(args[1]))))))), meaning::named(largest(args[2])), meaning::binary(Operator::Minus, meaning::group(meaning::named(args[0])), meaning::group(meaning::named(args[1])))))),
{
    let lhs = args[0];
    let rhs = args[1];
    let name = args[2];
    reveal_strlit("(");
    reveal_strlit("(($1) < 0 && ($0) > (std::numeric_limits<$2>::max() + ($1))) ? std::numeric_limits<$2>::max() : ($0) - ($1)");
    reveal_strlit("((($1) < 0 && ($0) > (std::numeric_limits<$2>::max() + ($1))) ? std::numeric_limits<$2>::max() : ($0) - ($1))");
    reveal_strlit(")");
    assert("((($1) < 0 && ($0) > (std::numeric_limits<$2>::max() + ($1))) ? std::numeric_limits<$2>::max() : ($0) - ($1))"@ =~= "("@ + ("(($1) < 0 && ($0) > (std::numeric_limits<$2>::max() + ($1))) ? std::numeric_limits<$2>::max() : ($0) - ($1)"@ + (")"@)));
    text::law_parts_are_filled("("@, "(($1) < 0 && ($0) > (std::numeric_limits<$2>::max() + ($1))) ? std::numeric_limits<$2>::max() : ($0) - ($1)"@ + (")"@), args);
    text::law_parts_are_filled("(($1) < 0 && ($0) > (std::numeric_limits<$2>::max() + ($1))) ? std::numeric_limits<$2>::max() : ($0) - ($1)"@, ")"@, args);
    text::law_plain_text_is_kept("("@, args);
    lemma_part_42(args);
    text::law_plain_text_is_kept(")"@, args);
    assert(text::fill("((($1) < 0 && ($0) > (std::numeric_limits<$2>::max() + ($1))) ? std::numeric_limits<$2>::max() : ($0) - ($1))"@, args) =~= meaning::shown(meaning::group(meaning::choice(meaning::group(meaning::binary(Operator::And, meaning::binary(Operator::Less, meaning::group(meaning::named(rhs)), meaning::number(0)), meaning::binary(Operator::Greater, meaning::group(meaning::named(lhs)), meaning::group(meaning::binary(Operator::Plus, meaning::named(largest(name)), meaning::group(meaning::named(rhs))))))), meaning::named(largest(name)), meaning::binary(Operator::Minus, meaning::group(meaning::named(lhs)), meaning::group(meaning::named(rhs)))))));
}

#[verifier::spinoff_prover]
#[verifier::rlimit(60)]
proof fn lemma_part_44(args: Seq<Seq<char>>)
    requires
        args.len() == 3,
    ensures
        text::fill("(($1) > 0 && ($0) < (std::numeric_limits<$2>::min() + ($1))) ? std::numeric_limits<$2>::min() : ((($1) < 0 && ($0) > (std::numeric_limits<$2>::max() + ($1))) ? std::numeric_limits<$2>::max() : ($0) - ($1))"@, args) == meaning::shown(meaning::choice(meaning::group(meaning::binary(Operator::And, meaning::binary(Operator::Greater, meaning::group(meaning::named(args[1])), meaning::number(0)), meaning::binary(Operator::Less, meaning::group(meaning::named(args[0])), meaning::group(meaning::binary(Operator::Plus, meaning::named(smallest(args[2])), meaning::group(meaning::named(args[1]))))))), meaning::named(smallest(args[2])), meaning::group(meaning::choice(meaning::group(meaning::binary(Operator::And, meaning::binary(Operator::Less, meaning::group(meaning::named(args[1])), meaning::number(0)), meaning::binary(Operator::Greater, meaning::group(meaning::named(args[0])), meaning::group(meaning::binary(Operator::Plus, meaning::named(largest(args[2])), meaning::group(meaning::named(args[1]))))))), meaning::named(largest(args[2])), meaning::binary(Operator::Minus, meaning::group(meaning::named(args[0])), meaning::group(meaning::named(args[1]))))))),
{
    let lhs = args[0];
    let rhs = args[1];
    let name = args[2];
    reveal_strlit(" : ");
    reveal_strlit(" ? ");
    reveal_strlit("(($1) > 0 && ($0) < (std::numeric_limits<$2>::min() + ($1)))");
    reveal_strlit("(($1) > 0 && ($0) < (std::numeric_limits<$2>::min() + ($1))) ? std::numeric_limits<$2>::min() : ((($1) < 0 && ($0) > (std::numeric_limits<$2>::max() + ($1))) ? std::numeric_limits<$2>::max() : ($0) - ($1))");
    reveal_strlit("((($1) < 0 && ($0) > (std::numeric_limits<$2>::max() + ($1))) ? std::numeric_limits<$2>::max() : ($0) - ($1))");
    reveal_strlit("std::numeric_limits<$2>::min()");
    assert("(($1) > 0 && ($0) < (std::numeric_limits<$2>::min() + ($1))) ? std::numeric_limits<$2>::min() : ((($1) < 0 && ($0) > (std::numeric_limits<$2>::max() + ($1))) ? std::numeric_limits<$2>::max() : ($0) - ($1))"@ =~= "(($1) > 0 && ($0) < (std::numeric_limits<$2>::min() + ($1)))"@ + (" ? "@ + ("std::numeric_limits<$2>::min()"@ + (" : "@ + ("((($1) < 0 && ($0) > (std::numeric_limits<$2>::max() + ($1))) ? std::numeric_limits<$2>::max() : ($0) - ($1))"@)))));
    text::law_parts_are_filled("(($1) > 0 && ($0) < (std::numeric_limits<$2>::min() + ($1)))"@, " ? "@ + ("std::numeric_limits<$2>::min()"@ + (" : "@ + ("((($1) < 0 && ($0) > (std::numeric_limits<$2>::max() + ($1))) ? std::numeric_limits<$2>::max() : ($0) - ($1))"@))), args);
    text::law_parts_are_filled(" ? "@, "std::numeric_limits<$2>::min()"@ + (" : "@ + ("((($1) < 0 && ($0) > (std::numeric_limits<$2>::max() + ($1))) ? std::numeric_limits<$2>::max() : ($0) - ($1))"@)), args);
    text::law_parts_are_filled("std::numeric_limits<$2>::min()"@, " : "@ + ("((($1) < 0 && ($0) > (std::numeric_limits<$2>::max() + ($1))) ? std::numeric_limits<$2>::max() : ($0) - ($1))"@), args);
    text::law_parts_are_filled(" : "@, "((($1) < 0 && ($0) > (std::numeric_limits<$2>::max() + ($1))) ? std::numeric_limits<$2>::max() : ($0) - ($1))"@, args);
    lemma_part_36(args);
    text::law_plain_text_is_kept(" ? "@, args);
    lemma_part_17(args);
    text::law_plain_text_is_kept(" : "@, args);
    lemma_part_43(args);
    assert(text::fill("(($1) > 0 && ($0) < (std::numeric_limits<$2>::min() + ($1))) ? std::numeric_limits<$2>::min() : ((($1) < 0 && ($0) > (std::numeric_limits<$2>::max() + ($1))) ? std::numeric_limits<$2>::max() : ($0) - ($1))"@, args) =~= meaning::shown(meaning::choice(meaning::group(meaning::binary(Operator::And, meaning::binary(Operator::Greater, meaning::group(meaning::named(rhs)), meaning::number(0)), meaning::binary(Operator::Less, meaning::group(meaning::named(lhs)), meaning::group(meaning::binary(Operator::Plus, meaning::named(smallest(name)), meaning::group(meaning::named(rhs))))))), meaning::named(smallest(name)), meaning::group(meaning::choice(meaning::group(meaning::binary(Operator::And, meaning::binary(Operator::Less, meaning::group(meaning::named(rhs)), meaning::number(0)), meaning::binary(Operator::Greater, meaning::group(meaning::named(lhs)), meaning::group(meaning::binary(Operator::Plus, meaning::named(largest(name)), meaning::group(meaning::named(rhs))))))), meaning::named(largest(name)), meaning::binary(Operator::Minus, meaning::group(meaning::named(lhs)), meaning::group(meaning::named(rhs))))))));
}

#[verifier::spinoff_prover]
#[verifier::rlimit(60)]
proof fn lemma_part_45(args: Seq<Seq<char>>)
    requires
        args.len() == 3,
    ensures
        text::fill("((($1) > 0 && ($0) < (std::numeric_limits<$2>::min() + ($1))) ? std::numeric_limits<$2>::min() : ((($1) < 0 && ($0) > (std::numeric_limits<$2>::max() + ($1))) ? std::numeric_limits<$2>::max() : ($0) - ($1)))"@, args) == meaning::shown(meaning::group(meaning::choice(meaning::group(meaning::binary(Operator::And, meaning::binary(Operator::Greater, meaning::group(meaning::named(args[1])), meaning::number(0)), meaning::binary(Operator::Less, meaning::group(meaning::named(args[0])), meaning::group(meaning::binary(Operator::Plus, meaning::named(smallest(args[2])), meaning::group(meaning::named(args[1]))))))), meaning::named(smallest(args[2])), meaning::group(meaning::choice(meaning::group(meaning::binary(Operator::And, meaning::binary(Operator::Less, meaning::group(meaning::named(args[1])), meaning::number(0)), meaning::binary(Operator::Greater, meaning::group(meaning::named(args[0])), meaning::group(meaning::binary(Operator::Plus, meaning::named(largest(args[2])), meaning::group(meaning::named(args[1]))))))), meaning::named(largest(args[2])), meaning::binary(Operator::Minus, meaning::group(meaning::named(args[0])), meaning::group(meaning::named(args[1])))))))),
{
    let lhs = args[0];
    let rhs = args[1];
    let name = args[2];
    reveal_strlit("(");
    reveal_strlit("(($1) > 0 && ($0) < (std::numeric_limits<$2>::min() + ($1))) ? std::numeric_limits<$2>::min() : ((($1) < 0 && ($0) > (std::numeric_limits<$2>::max() + ($1))) ? std::numeric_limits<$2>::max() : ($0) - ($1))");
    reveal_strlit("((($1) > 0 && ($0) < (std::numeric_limits<$2>::min() + ($1))) ? std::numeric_limits<$2>::min() : ((($1) < 0 && ($0) > (std::numeric_limits<$2>::max() + ($1))) ? std::numeric_limits<$2>::max() : ($0) - ($1)))");
    reveal_strlit(")");
    assert("((($1) > 0 && ($0) < (std::numeric_limits<$2>::min() + ($1))) ? std::numeric_limits<$2>::min() : ((($1) < 0 && ($0) > (std::numeric_limits<$2>::max() + ($1))) ? std::numeric_limits<$2>::max() : ($0) - ($1)))"@ =~= "("@ + ("(($1) > 0 && ($0) < (std::numeric_limits<$2>::min() + ($1))) ? std::numeric_limits<$2>::min() : ((($1) < 0 && ($0) > (std::numeric_limits<$2>::max() + ($1))) ? std::numeric_limits<$2>::max() : ($0) - ($1))"@ + (")"@)));
    text::law_parts_are_filled("("@, "(($1) > 0 && ($0) < (std::numeric_limits<$2>::min() + ($1))) ? std::numeric_limits<$2>::min() : ((($1) < 0 && ($0) > (std::numeric_limits<$2>::max() + ($1))) ? std::numeric_limits<$2>::max() : ($0) - ($1))"@ + (")"@), args);
    text::law_parts_are_filled("(($1) > 0 && ($0) < (std::numeric_limits<$2>::min() + ($1))) ? std::numeric_limits<$2>::min() : ((($1) < 0 && ($0) > (std::numeric_limits<$2>::max() + ($1))) ? std::numeric_limits<$2>::max() : ($0) - ($1))"@, ")"@, args);
    text::law_plain_text_is_kept("("@, args);
    lemma_part_44(args);
    text::law_plain_text_is_kept(")"@, args);
    assert(text::fill("((($1) > 0 && ($0) < (std::numeric_limits<$2>::min() + ($1))) ? std::numeric_limits<$2>::min() : ((($1) < 0 && ($0) > (std::numeric_limits<$2>::max() + ($1))) ? std::numeric_limits<$2>::max() : ($0) - ($1)))"@, args) =~= meaning::shown(meaning::group(meaning::choice(meaning::group(meaning::binary(Operator::And, meaning::binary(Operator::Greater, meaning::group(meaning::named(rhs)), meaning::number(0)), meaning::binary(Operator::Less, meaning::group(meaning::named(lhs)), meaning::group(meaning::binary(Operator::Plus, meaning::named(smallest(name)), meaning::group(meaning::named(rhs))))))), meaning::named(smallest(name)), meaning::group(meaning::choice(meaning::group(meaning::binary(Operator::And, meaning::binary(Operator::Less, meaning::group(meaning::named(rhs)), meaning::number(0)), meaning::binary(Operator::Greater, meaning::group(meaning::named(lhs)), meaning::group(meaning::binary(Operator::Plus, meaning::named(largest(name)), meaning::group(meaning::named(rhs))))))), meaning::named(largest(name)), meaning::binary(Operator::Minus, meaning::group(meaning::named(lhs)), meaning::group(meaning::named(rhs)))))))));
}

/// The sum of unsigned numbers.
spec fn unsigned_sum(lhs: Seq<char>, rhs: Seq<char>, name: Seq<char>) -> Expr {
    meaning::group(meaning::choice(meaning::binary(Operator::Greater, meaning::group(meaning::named(lhs)), meaning::group(meaning::binary(Operator::Minus, meaning::named(largest(name)), meaning::group(meaning::named(rhs))))), meaning::named(largest(name)), meaning::binary(Operator::Plus, meaning::group(meaning::named(lhs)), meaning::group(meaning::named(rhs)))))
}

/// The sum of signed numbers.
spec fn signed_sum(lhs: Seq<char>, rhs: Seq<char>, name: Seq<char>) -> Expr {
    meaning::group(meaning::choice(meaning::group(meaning::binary(Operator::And, meaning::binary(Operator::Greater, meaning::group(meaning::named(rhs)), meaning::number(0)), meaning::binary(Operator::Greater, meaning::group(meaning::named(lhs)), meaning::group(meaning::binary(Operator::Minus, meaning::named(largest(name)), meaning::group(meaning::named(rhs))))))), meaning::named(largest(name)), meaning::group(meaning::choice(meaning::group(meaning::binary(Operator::And, meaning::binary(Operator::Less, meaning::group(meaning::named(rhs)), meaning::number(0)), meaning::binary(Operator::Less, meaning::group(meaning::named(lhs)), meaning::group(meaning::binary(Operator::Minus, meaning::named(smallest(name)), meaning::group(meaning::named(rhs))))))), meaning::named(smallest(name)), meaning::binary(Operator::Plus, meaning::group(meaning::named(lhs)), meaning::group(meaning::named(rhs)))))))
}

/// The sum of other numbers.
spec fn plain_sum(lhs: Seq<char>, rhs: Seq<char>, name: Seq<char>) -> Expr {
    meaning::binary(Operator::Plus, meaning::group(meaning::named(lhs)), meaning::group(meaning::named(rhs)))
}

/// The difference of unsigned numbers.
spec fn unsigned_difference(lhs: Seq<char>, rhs: Seq<char>, name: Seq<char>) -> Expr {
    meaning::group(meaning::choice(meaning::binary(Operator::Less, meaning::group(meaning::named(lhs)), meaning::group(meaning::named(rhs))), meaning::named(zero_of(name)), meaning::binary(Operator::Minus, meaning::group(meaning::named(lhs)), meaning::group(meaning::named(rhs)))))
}

/// The difference of signed numbers.
spec fn signed_difference(lhs: Seq<char>, rhs: Seq<char>, name: Seq<char>) -> Expr {
    meaning::group(meaning::choice(meaning::group(meaning::binary(Operator::And, meaning::binary(Operator::Greater, meaning::group(meaning::named(rhs)), meaning::number(0)), meaning::binary(Operator::Less, meaning::group(meaning::named(lhs)), meaning::group(meaning::binary(Operator::Plus, meaning::named(smallest(name)), meaning::group(meaning::named(rhs))))))), meaning::named(smallest(name)), meaning::group(meaning::choice(meaning::group(meaning::binary(Operator::And, meaning::binary(Operator::Less, meaning::group(meaning::named(rhs)), meaning::number(0)), meaning::binary(Operator::Greater, meaning::group(meaning::named(lhs)), meaning::group(meaning::binary(Operator::Plus, meaning::named(largest(name)), meaning::group(meaning::named(rhs))))))), meaning::named(largest(name)), meaning::binary(Operator::Minus, meaning::group(meaning::named(lhs)), meaning::group(meaning::named(rhs)))))))
}

/// The difference of other numbers.
spec fn plain_difference(lhs: Seq<char>, rhs: Seq<char>, name: Seq<char>) -> Expr {
    meaning::binary(Operator::Minus, meaning::group(meaning::named(lhs)), meaning::group(meaning::named(rhs)))
}

#[verifier::spinoff_prover]
#[verifier::rlimit(60)]
proof fn lemma_plain_sum(lhs: Seq<char>, rhs: Seq<char>, name: Seq<char>)
    ensures
        text::fill(dialect::PLAIN_ADD@, seq![lhs, rhs]) == meaning::shown(plain_sum(lhs, rhs, name)),
{
    reveal_strlit(" + ");
    reveal_strlit(" - ");
    reveal_strlit("(");
    reveal_strlit("($0) + ($1)");
    reveal_strlit(")");
    reveal_strlit(") + (");
    let segments = seq!["("@, ") + ("@, ")"@];
    let indices = seq![0nat, 1nat];
    let args = seq![lhs, rhs];
    reveal_with_fuel(text::skeleton, 3);
    reveal_with_fuel(text::fleshed, 3);
    reveal_with_fuel(meaning::shown, 4);
    assert(dialect::PLAIN_ADD@ =~= text::skeleton(segments, indices, 0));
    text::law_segments_are_kept(segments, indices, args, 0);
    assert(text::fill(dialect::PLAIN_ADD@, args) =~= meaning::shown(plain_sum(lhs, rhs, name)));
}

#[verifier::spinoff_prover]
#[verifier::rlimit(60)]
proof fn lemma_plain_difference(lhs: Seq<char>, rhs: Seq<char>, name: Seq<char>)
    ensures
        text::fill(dialect::PLAIN_SUB@, seq![lhs, rhs]) == meaning::shown(plain_difference(lhs, rhs, name)),
{
    reveal_strlit(" + ");
    reveal_strlit(" - ");
    reveal_strlit("(");
    reveal_strlit("($0) - ($1)");
    reveal_strlit(")");
    reveal_strlit(") - (");
    let segments = seq!["("@, ") - ("@, ")"@];
    let indices = seq![0nat, 1nat];
    let args = seq![lhs, rhs];
    reveal_with_fuel(text::skeleton, 3);
    reveal_with_fuel(text::fleshed, 3);
    reveal_with_fuel(meaning::shown, 4);
    assert(dialect::PLAIN_SUB@ =~= text::skeleton(segments, indices, 0));
    text::law_segments_are_kept(segments, indices, args, 0);
    assert(text::fill(dialect::PLAIN_SUB@, args) =~= meaning::shown(plain_difference(lhs, rhs, name)));
}

proof fn lemma_unsigned_sum_value(
    lhs: Seq<char>,
    rhs: Seq<char>,
    name: Seq<char>,
    names: Map<Seq<char>, int>,
    low: int,
    high: int,
)
    requires
        low <= 0 <= high,
        low == 0,
        names[largest(name)] == high,
        names[smallest(name)] == low,
        names[zero_of(name)] == 0,
        low <= names[lhs] <= high,
        low <= names[rhs] <= high,
    ensures
        meaning::is_read_back(unsigned_sum(lhs, rhs, name)),
        meaning::value(unsigned_sum(lhs, rhs, name), names) == nearest(names[lhs] + names[rhs], low, high),
{
    reveal_with_fuel(meaning::value, 8);
    reveal_with_fuel(meaning::is_read_back, 8);
}

proof fn lemma_unsigned_difference_value(
    lhs: Seq<char>,
    rhs: Seq<char>,
    name: Seq<char>,
    names: Map<Seq<char>, int>,
    low: int,
    high: int,
)
    requires
        low <= 0 <= high,
        low == 0,
        names[largest(name)] == high,
        names[smallest(name)] == low,
        names[zero_of(name)] == 0,
        low <= names[lhs] <= high,
        low <= names[rhs] <= high,
    ensures
        meaning::is_read_back(unsigned_difference(lhs, rhs, name)),
        meaning::value(unsigned_difference(lhs, rhs, name), names) == nearest(names[lhs] - names[rhs], low, high),
{
    reveal_with_fuel(meaning::value, 6);
    reveal_with_fuel(meaning::is_read_back, 6);
}

proof fn lemma_signed_sum_value(
    lhs: Seq<char>,
    rhs: Seq<char>,
    name: Seq<char>,
    names: Map<Seq<char>, int>,
    low: int,
    high: int,
)
    requires
        low <= 0 <= high,
        names[largest(name)] == high,
        names[smallest(name)] == low,
        names[zero_of(name)] == 0,
        low <= names[lhs] <= high,
        low <= names[rhs] <= high,
    ensures
        meaning::is_read_back(signed_sum(lhs, rhs, name)),
        meaning::value(signed_sum(lhs, rhs, name), names) == nearest(names[lhs] + names[rhs], low, high),
{
    reveal_with_fuel(meaning::value, 12);
    reveal_with_fuel(meaning::is_read_back, 12);
}

proof fn lemma_signed_difference_value(
    lhs: Seq<char>,
    rhs: Seq<char>,
    name: Seq<char>,
    names: Map<Seq<char>, int>,
    low: int,
    high: int,
)
    requires
        low <= 0 <= high,
        names[largest(name)] == high,
        names[smallest(name)] == low,
        names[zero_of(name)] == 0,
        low <= names[lhs] <= high,
        low <= names[rhs] <= high,
    ensures
        meaning::is_read_back(signed_difference(lhs, rhs, name)),
        meaning::value(signed_difference(lhs, rhs, name), names) == nearest(names[lhs] - names[rhs], low, high),
{
    reveal_with_fuel(meaning::value, 12);
    reveal_with_fuel(meaning::is_read_back, 12);
}

proof fn lemma_plain_sum_value(
    lhs: Seq<char>,
    rhs: Seq<char>,
    name: Seq<char>,
    names: Map<Seq<char>, int>,
    low: int,
    high: int,
)
    requires
        low <= 0 <= high,
        names[largest(name)] == high,
        names[smallest(name)] == low,
        names[zero_of(name)] == 0,
        low <= names[lhs] <= high,
        low <= names[rhs] <= high,
    ensures
        meaning::is_read_back(plain_sum(lhs, rhs, name)),
        meaning::value(plain_sum(lhs, rhs, name), names) == names[lhs] + names[rhs],
{
    reveal_with_fuel(meaning::value, 4);
    reveal_with_fuel(meaning::is_read_back, 4);
}

proof fn lemma_plain_difference_value(
    lhs: Seq<char>,
    rhs: Seq<char>,
    name: Seq<char>,
    names: Map<Seq<char>, int>,
    low: int,
    high: int,
)
    requires
        low <= 0 <= high,
        names[largest(name)] == high,
        names[smallest(name)] == low,
        names[zero_of(name)] == 0,
        low <= names[lhs] <= high,
        low <= names[rhs] <= high,
    ensures
        meaning::is_read_back(plain_difference(lhs, rhs, name)),
        meaning::value(plain_difference(lhs, rhs, name), names) == names[lhs] - names[rhs],
{
    reveal_with_fuel(meaning::value, 4);
    reveal_with_fuel(meaning::is_read_back, 4);
}

/// The sum of integers is the nearest number of their type to the true one; that of other
/// numbers is the true one.
pub proof fn law_sums_saturate(
    lhs: Seq<char>,
    rhs: Seq<char>,
    elem: Elem,
    names: Map<Seq<char>, int>,
    low: int,
    high: int,
)
    requires
        low <= 0 <= high,
        dialect::is_unsigned(elem) ==> low == 0,
        names[largest(dialect::elem_text(elem))] == high,
        names[smallest(dialect::elem_text(elem))] == low,
        names[zero_of(dialect::elem_text(elem))] == 0,
        low <= names[lhs] <= high,
        low <= names[rhs] <= high,
    ensures
        evaluates_to(
            dialect::saturating_sum(lhs, rhs, elem),
            names,
            if dialect::is_unsigned(elem) || dialect::is_signed(elem) {
                nearest(names[lhs] + names[rhs], low, high)
            } else {
                names[lhs] + names[rhs]
            },
        ),
{
    let name = dialect::elem_text(elem);
    if dialect::is_unsigned(elem) {
        lemma_part_11(seq![lhs, rhs, name]);
        let e = unsigned_sum(lhs, rhs, name);
        lemma_unsigned_sum_value(lhs, rhs, name, names, low, high);
        assert(meaning::shown(e) == dialect::saturating_sum(lhs, rhs, elem));
    } else if dialect::is_signed(elem) {
        lemma_part_26(seq![lhs, rhs, name]);
        let e = signed_sum(lhs, rhs, name);
        lemma_signed_sum_value(lhs, rhs, name, names, low, high);
        assert(meaning::shown(e) == dialect::saturating_sum(lhs, rhs, elem));
    } else {
        lemma_plain_sum(lhs, rhs, name);
        let e = plain_sum(lhs, rhs, name);
        lemma_plain_sum_value(lhs, rhs, name, names, low, high);
        assert(meaning::shown(e) == dialect::saturating_sum(lhs, rhs, elem));
    }
}

/// The difference of integers is the nearest number of their type to the true one; that of other
/// numbers is the true one.
pub proof fn law_differences_saturate(
    lhs: Seq<char>,
    rhs: Seq<char>,
    elem: Elem,
    names: Map<Seq<char>, int>,
    low: int,
    high: int,
)
    requires
        low <= 0 <= high,
        dialect::is_unsigned(elem) ==> low == 0,
        names[largest(dialect::elem_text(elem))] == high,
        names[smallest(dialect::elem_text(elem))] == low,
        names[zero_of(dialect::elem_text(elem))] == 0,
        low <= names[lhs] <= high,
        low <= names[rhs] <= high,
    ensures
        evaluates_to(
            dialect::saturating_difference(lhs, rhs, elem),
            names,
            if dialect::is_unsigned(elem) || dialect::is_signed(elem) {
                nearest(names[lhs] - names[rhs], low, high)
            } else {
                names[lhs] - names[rhs]
            },
        ),
{
    let name = dialect::elem_text(elem);
    if dialect::is_unsigned(elem) {
        lemma_part_31(seq![lhs, rhs, name]);
        let e = unsigned_difference(lhs, rhs, name);
        lemma_unsigned_difference_value(lhs, rhs, name, names, low, high);
        assert(meaning::shown(e) == dialect::saturating_difference(lhs, rhs, elem));
    } else if dialect::is_signed(elem) {
        lemma_part_45(seq![lhs, rhs, name]);
        let e = signed_difference(lhs, rhs, name);
        lemma_signed_difference_value(lhs, rhs, name, names, low, high);
        assert(meaning::shown(e) == dialect::saturating_difference(lhs, rhs, elem));
    } else {
        lemma_plain_difference(lhs, rhs, name);
        let e = plain_difference(lhs, rhs, name);
        lemma_plain_difference_value(lhs, rhs, name, names, low, high);
        assert(meaning::shown(e) == dialect::saturating_difference(lhs, rhs, elem));
    }
}

/// Elements are as wide as their names say: in the messages, and in the device's C++, where
/// halves stand in integers of their width. A pair is twice as wide as what it is made of, and
/// an atomic is as its scalar.
#[verifier::spinoff_prover]
#[verifier::rlimit(60)]
pub proof fn law_elements_are_named_after_their_widths(elem: Elem)
    ensures
        dialect::is_signed(elem) ==> elem.name() == "i"@ + text::dec(8 * elem.bytes())
            && dialect::elem_text(elem) == "int"@ + text::dec(8 * elem.bytes()) + "_t"@,
        dialect::is_unsigned(elem) ==> elem.name() == "u"@ + text::dec(8 * elem.bytes())
            && dialect::elem_text(elem) == "uint"@ + text::dec(8 * elem.bytes()) + "_t"@,
        elem is F16 || elem is F32 || elem is F64 ==> elem.name() == "f"@ + text::dec(
            8 * elem.bytes(),
        ),
        elem is F16 || elem is F16x2 ==> dialect::elem_text(elem) == "uint"@ + text::dec(
            8 * elem.bytes(),
        ) + "_t"@,
        elem is F32 || elem is TF32 ==> elem.bytes() == 4 && dialect::elem_text(elem) == "float"@,
        elem is F64 ==> dialect::elem_text(elem) == "double"@,
        elem is TF32 ==> elem.name() == "t"@ + Elem::F32.name(),
        elem is BF16 ==> elem.name() == "bf"@ + text::dec(8 * elem.bytes()),
        elem is BF16 || elem is BF16x2 ==> dialect::elem_text(elem) == "bfloat16"@,
        elem is Bool ==> elem.bytes() == 1 && dialect::elem_text(elem) == elem.name(),
        elem is F16x2 || elem is BF16x2 ==> elem.bytes() == 2 * elem.single().bytes()
            && elem.name() == elem.single().name() + "x2"@ && elem.single() != elem,
        !(elem is F16x2 || elem is BF16x2) ==> elem.single() == elem,
        elem matches Elem::Atomic(kind) ==> {
            &&& elem.bytes() == kind.elem().bytes()
            &&& elem.name() == kind.elem().name()
            &&& dialect::elem_text(elem) == dialect::elem_text(kind.elem())
            &&& !(kind.elem() is Atomic)
        },
        elem matches Elem::Other { size, name } ==> elem.bytes() == size && elem.name() == name@,
{
    reveal_with_fuel(text::dec, 3);
    lemma_small_numbers();
    reveal_strlit("_t");
    reveal_strlit("bf");
    reveal_strlit("bf16");
    reveal_strlit("bf16x2");
    reveal_strlit("bool");
    reveal_strlit("f");
    reveal_strlit("f16");
    reveal_strlit("f16x2");
    reveal_strlit("f32");
    reveal_strlit("f64");
    reveal_strlit("i");
    reveal_strlit("i16");
    reveal_strlit("i32");
    reveal_strlit("i64");
    reveal_strlit("i8");
    reveal_strlit("int");
    reveal_strlit("int16_t");
    reveal_strlit("int32_t");
    reveal_strlit("int64_t");
    reveal_strlit("int8_t");
    reveal_strlit("t");
    reveal_strlit("tf32");
    reveal_strlit("u");
    reveal_strlit("u16");
    reveal_strlit("u32");
    reveal_strlit("u64");
    reveal_strlit("u8");
    reveal_strlit("uint");
    reveal_strlit("uint16_t");
    reveal_strlit("uint32_t");
    reveal_strlit("uint64_t");
    reveal_strlit("uint8_t");
    reveal_strlit("x2");
    assert("i"@ + text::dec(8) =~= "i8"@);
    assert("u"@ + text::dec(8) =~= "u8"@);
    assert("int"@ + text::dec(8) + "_t"@ =~= "int8_t"@);
    assert("uint"@ + text::dec(8) + "_t"@ =~= "uint8_t"@);
    assert("i"@ + text::dec(16) =~= "i16"@);
    assert("u"@ + text::dec(16) =~= "u16"@);
    assert("int"@ + text::dec(16) + "_t"@ =~= "int16_t"@);
    assert("uint"@ + text::dec(16) + "_t"@ =~= "uint16_t"@);
    assert("i"@ + text::dec(32) =~= "i32"@);
    assert("u"@ + text::dec(32) =~= "u32"@);
    assert("int"@ + text::dec(32) + "_t"@ =~= "int32_t"@);
    assert("uint"@ + text::dec(32) + "_t"@ =~= "uint32_t"@);
    assert("i"@ + text::dec(64) =~= "i64"@);
    assert("u"@ + text::dec(64) =~= "u64"@);
    assert("int"@ + text::dec(64) + "_t"@ =~= "int64_t"@);
    assert("uint"@ + text::dec(64) + "_t"@ =~= "uint64_t"@);
    assert("f"@ + text::dec(16) =~= "f16"@);
    assert("f"@ + text::dec(32) =~= "f32"@);
    assert("f"@ + text::dec(64) =~= "f64"@);
    assert("t"@ + "f32"@ =~= "tf32"@);
    assert("bf"@ + text::dec(16) =~= "bf16"@);
    assert("f16"@ + "x2"@ =~= "f16x2"@);
    assert("bf16"@ + "x2"@ =~= "bf16x2"@);
}

proof fn lemma_small_numbers()
    ensures
        text::dec(8) == seq!['8'],
        text::dec(16) == seq!['1', '6'],
        text::dec(24) == seq!['2', '4'],
        text::dec(32) == seq!['3', '2'],
        text::dec(64) == seq!['6', '4'],
{
    reveal_with_fuel(text::dec, 3);
    assert(text::dec(8) =~= seq!['8']);
    assert(text::dec(16) =~= seq!['1', '6']);
    assert(text::dec(24) =~= seq!['2', '4']);
    assert(text::dec(32) =~= seq!['3', '2']);
    assert(text::dec(64) =~= seq!['6', '4']);
}

/// An atomic holds what it is called after.
pub proof fn law_atomics_hold_their_scalars(kind: AtomicKind)
    ensures
        kind is I32 || kind is I64 <==> dialect::is_signed(kind.elem()),
        kind is U32 || kind is U64 <==> dialect::is_unsigned(kind.elem()),
        kind is I64 || kind is U64 || kind is F64 <==> kind.elem().bytes() == 8,
        kind is F16 || kind is BF16 <==> kind.elem().bytes() == 2,
        kind is BF16 <==> kind.elem() is BF16,
        kind is F16 <==> kind.elem() is F16,
        kind is F32 <==> kind.elem() is F32,
        kind is F64 <==> kind.elem() is F64,
{
}

/// A vector is as large as its elements together, and called after its element and how many
/// of them it has; vectors of one element of different lengths have different names.
pub proof fn law_vectors_are_named_after_their_elements(item: Item, other: Item)
    ensures
        item.vectorization == 1 ==> dialect::item_text(item) == dialect::elem_text(item.elem)
            && item.bytes() == item.elem.bytes(),
        item.vectorization != 1 ==> dialect::item_text(item) == dialect::elem_text(item.elem)
            + text::dec(item.vectorization as nat),
        item.bytes() == item.elem.bytes() * item.vectorization,
        item.vectorization != 1 && other.vectorization != 1 && item.elem == other.elem
            && item.vectorization != other.vectorization ==> dialect::item_text(item)
            != dialect::item_text(other),
{
    assert(item.vectorization == 1 ==> item.elem.bytes() * item.vectorization == item.elem.bytes())
        by (nonlinear_arith);
    if item.vectorization != 1 && other.vectorization != 1 && item.elem == other.elem {
        let name = dialect::elem_text(item.elem);
        let a = text::dec(item.vectorization as nat);
        let b = text::dec(other.vectorization as nat);
        if name + a == name + b {
            assert((name + a).skip(name.len() as int) =~= a);
            assert((name + b).skip(name.len() as int) =~= b);
            text::law_dec_is_injective(item.vectorization as nat, other.vectorization as nat);
        }
    }
}

/// The components of a position are called after it and their axis.
#[verifier::spinoff_prover]
#[verifier::rlimit(60)]
pub proof fn law_components_are_named_after_their_axes()
    ensures
        dialect::builtin_text(CubeBuiltin::CubeCountX) == dialect::builtin_text(CubeBuiltin::CubeCount) + "_x"@,
        dialect::builtin_text(CubeBuiltin::CubeCountY) == dialect::builtin_text(CubeBuiltin::CubeCount) + "_y"@,
        dialect::builtin_text(CubeBuiltin::CubeCountZ) == dialect::builtin_text(CubeBuiltin::CubeCount) + "_z"@,
        dialect::builtin_text(CubeBuiltin::CubeDimX) == dialect::builtin_text(CubeBuiltin::CubeDim) + "_x"@,
        dialect::builtin_text(CubeBuiltin::CubeDimY) == dialect::builtin_text(CubeBuiltin::CubeDim) + "_y"@,
        dialect::builtin_text(CubeBuiltin::CubeDimZ) == dialect::builtin_text(CubeBuiltin::CubeDim) + "_z"@,
        dialect::builtin_text(CubeBuiltin::CubePosX) == dialect::builtin_text(CubeBuiltin::CubePos) + "_x"@,
        dialect::builtin_text(CubeBuiltin::CubePosY) == dialect::builtin_text(CubeBuiltin::CubePos) + "_y"@,
        dialect::builtin_text(CubeBuiltin::CubePosZ) == dialect::builtin_text(CubeBuiltin::CubePos) + "_z"@,
        dialect::builtin_text(CubeBuiltin::UnitPosX) == dialect::builtin_text(CubeBuiltin::UnitPos) + "_x"@,
        dialect::builtin_text(CubeBuiltin::UnitPosY) == dialect::builtin_text(CubeBuiltin::UnitPos) + "_y"@,
        dialect::builtin_text(CubeBuiltin::UnitPosZ) == dialect::builtin_text(CubeBuiltin::UnitPos) + "_z"@,
        dialect::builtin_text(CubeBuiltin::CubeCountBaseName) == dialect::builtin_text(CubeBuiltin::CubeCount),
        dialect::builtin_text(CubeBuiltin::CubeDimBaseName) == dialect::builtin_text(CubeBuiltin::CubeDim),
        dialect::builtin_text(CubeBuiltin::CubePosBaseName) == dialect::builtin_text(CubeBuiltin::CubePos),
        dialect::builtin_text(CubeBuiltin::UnitPosBaseName) == dialect::builtin_text(CubeBuiltin::UnitPos),
        dialect::builtin_text(CubeBuiltin::AbsolutePosBaseName) == dialect::builtin_text(CubeBuiltin::AbsolutePos),
{
    reveal_strlit("_x");
    reveal_strlit("_y");
    reveal_strlit("_z");
    reveal_strlit("cube_count");
    reveal_strlit("cube_count_x");
    reveal_strlit("cube_count_y");
    reveal_strlit("cube_count_z");
    reveal_strlit("cube_dim");
    reveal_strlit("cube_dim_x");
    reveal_strlit("cube_dim_y");
    reveal_strlit("cube_dim_z");
    reveal_strlit("cube_pos");
    reveal_strlit("cube_pos_x");
    reveal_strlit("cube_pos_y");
    reveal_strlit("cube_pos_z");
    reveal_strlit("unit_pos");
    reveal_strlit("unit_pos_x");
    reveal_strlit("unit_pos_y");
    reveal_strlit("unit_pos_z");
    assert("cube_count"@ + "_x"@ =~= "cube_count_x"@);
    assert("cube_count"@ + "_y"@ =~= "cube_count_y"@);
    assert("cube_count"@ + "_z"@ =~= "cube_count_z"@);
    assert("cube_dim"@ + "_x"@ =~= "cube_dim_x"@);
    assert("cube_dim"@ + "_y"@ =~= "cube_dim_y"@);
    assert("cube_dim"@ + "_z"@ =~= "cube_dim_z"@);
    assert("cube_pos"@ + "_x"@ =~= "cube_pos_x"@);
    assert("cube_pos"@ + "_y"@ =~= "cube_pos_y"@);
    assert("cube_pos"@ + "_z"@ =~= "cube_pos_z"@);
    assert("unit_pos"@ + "_x"@ =~= "unit_pos_x"@);
    assert("unit_pos"@ + "_y"@ =~= "unit_pos_y"@);
    assert("unit_pos"@ + "_z"@ =~= "unit_pos_z"@);
}

/// What counts bits of a number of a width: a word of 32 bits has room for narrower ones.
pub open spec fn word_of(elem: Elem) -> Seq<char> {
    if 8 * elem.bytes() > 32 {
        "ll(uint64_t("@
    } else {
        "(uint32_t("@
    }
}

/// What is left of a word above a number in it.
pub open spec fn above(elem: Elem) -> Seq<char> {
    if 8 * elem.bytes() < 32 {
        " - "@ + text::dec((32 - 8 * elem.bytes()) as nat)
    } else {
        ""@
    }
}

#[verifier::spinoff_prover]
#[verifier::rlimit(60)]
proof fn lemma_popcount_64(out: Seq<char>, input: Seq<char>)
    ensures
        text::fill(dialect::POPCOUNT_64@, seq![out, input]) == out + "(__builtin_popcount"@ + "ll(uint64_t("@ + input + ")))"@,
{
    lemma_small_numbers();
    reveal_strlit("$0(__builtin_popcountll(uint64_t($1)))");
    reveal_strlit("(__builtin_popcountll(uint64_t(");
    reveal_strlit(")))");
    reveal_strlit("");
    let segments = seq![""@, "(__builtin_popcountll(uint64_t("@, ")))"@];
    let indices = seq![0nat, 1nat];
    let args = seq![out, input];
    reveal_with_fuel(text::skeleton, 3);
    reveal_with_fuel(text::fleshed, 3);
    assert(dialect::POPCOUNT_64@ =~= text::skeleton(segments, indices, 0));
    text::law_segments_are_kept(segments, indices, args, 0);
    reveal_strlit("(__builtin_popcount");
    reveal_strlit("(uint32_t(");
    reveal_strlit(")))");
    reveal_strlit("ll(uint64_t(");
    assert(text::fill(dialect::POPCOUNT_64@, args) =~= out + "(__builtin_popcount"@ + "ll(uint64_t("@ + input + ")))"@);
}

#[verifier::spinoff_prover]
#[verifier::rlimit(60)]
proof fn lemma_popcount_32(out: Seq<char>, input: Seq<char>)
    ensures
        text::fill(dialect::POPCOUNT_32@, seq![out, input]) == out + "(__builtin_popcount"@ + "(uint32_t("@ + input + ")))"@,
{
    lemma_small_numbers();
    reveal_strlit("$0(__builtin_popcount(uint32_t($1)))");
    reveal_strlit("(__builtin_popcount(uint32_t(");
    reveal_strlit(")))");
    reveal_strlit("");
    let segments = seq![""@, "(__builtin_popcount(uint32_t("@, ")))"@];
    let indices = seq![0nat, 1nat];
    let args = seq![out, input];
    reveal_with_fuel(text::skeleton, 3);
    reveal_with_fuel(text::fleshed, 3);
    assert(dialect::POPCOUNT_32@ =~= text::skeleton(segments, indices, 0));
    text::law_segments_are_kept(segments, indices, args, 0);
    reveal_strlit("(__builtin_popcount");
    reveal_strlit("(uint32_t(");
    reveal_strlit(")))");
    reveal_strlit("ll(uint64_t(");
    assert(text::fill(dialect::POPCOUNT_32@, args) =~= out + "(__builtin_popcount"@ + "(uint32_t("@ + input + ")))"@);
}

#[verifier::spinoff_prover]
#[verifier::rlimit(60)]
proof fn lemma_ffs_64(out: Seq<char>, input: Seq<char>)
    ensures
        text::fill(dialect::FIND_FIRST_SET_64@, seq![out, input]) == out + "(__builtin_ffs"@ + "ll(uint64_t("@ + input + ")))"@,
{
    lemma_small_numbers();
    reveal_strlit("$0(__builtin_ffsll(uint64_t($1)))");
    reveal_strlit("(__builtin_ffsll(uint64_t(");
    reveal_strlit(")))");
    reveal_strlit("");
    let segments = seq![""@, "(__builtin_ffsll(uint64_t("@, ")))"@];
    let indices = seq![0nat, 1nat];
    let args = seq![out, input];
    reveal_with_fuel(text::skeleton, 3);
    reveal_with_fuel(text::fleshed, 3);
    assert(dialect::FIND_FIRST_SET_64@ =~= text::skeleton(segments, indices, 0));
    text::law_segments_are_kept(segments, indices, args, 0);
    reveal_strlit("(__builtin_ffs");
    reveal_strlit("(uint32_t(");
    reveal_strlit(")))");
    reveal_strlit("ll(uint64_t(");
    assert(text::fill(dialect::FIND_FIRST_SET_64@, args) =~= out + "(__builtin_ffs"@ + "ll(uint64_t("@ + input + ")))"@);
}

#[verifier::spinoff_prover]
#[verifier::rlimit(60)]
proof fn lemma_ffs_32(out: Seq<char>, input: Seq<char>)
    ensures
        text::fill(dialect::FIND_FIRST_SET_32@, seq![out, input]) == out + "(__builtin_ffs"@ + "(uint32_t("@ + input + ")))"@,
{
    lemma_small_numbers();
    reveal_strlit("$0(__builtin_ffs(uint32_t($1)))");
    reveal_strlit("(__builtin_ffs(uint32_t(");
    reveal_strlit(")))");
    reveal_strlit("");
    let segments = seq![""@, "(__builtin_ffs(uint32_t("@, ")))"@];
    let indices = seq![0nat, 1nat];
    let args = seq![out, input];
    reveal_with_fuel(text::skeleton, 3);
    reveal_with_fuel(text::fleshed, 3);
    assert(dialect::FIND_FIRST_SET_32@ =~= text::skeleton(segments, indices, 0));
    text::law_segments_are_kept(segments, indices, args, 0);
    reveal_strlit("(__builtin_ffs");
    reveal_strlit("(uint32_t(");
    reveal_strlit(")))");
    reveal_strlit("ll(uint64_t(");
    assert(text::fill(dialect::FIND_FIRST_SET_32@, args) =~= out + "(__builtin_ffs"@ + "(uint32_t("@ + input + ")))"@);
}

#[verifier::spinoff_prover]
#[verifier::rlimit(60)]
proof fn lemma_clz_64(out: Seq<char>, input: Seq<char>)
    ensures
        text::fill(dialect::LEADING_ZEROS_64@, seq![out, input]) == "(("@ + input + ") == 0 ? "@ + out + "("@ + text::dec(64) + ") : "@ + out + "(__builtin_clz"@ + "ll(uint64_t("@ + input + "))"@ + ""@ + "))"@,
{
    lemma_small_numbers();
    reveal_strlit("((");
    reveal_strlit("(($1) == 0 ? $0(64) : $0(__builtin_clzll(uint64_t($1))))");
    reveal_strlit("(64) : ");
    reveal_strlit("(__builtin_clzll(uint64_t(");
    reveal_strlit(") == 0 ? ");
    reveal_strlit("))))");
    reveal_strlit("");
    let segments = seq!["(("@, ") == 0 ? "@, "(64) : "@, "(__builtin_clzll(uint64_t("@, "))))"@];
    let indices = seq![1nat, 0nat, 0nat, 1nat];
    let args = seq![out, input];
    reveal_with_fuel(text::skeleton, 5);
    reveal_with_fuel(text::fleshed, 5);
    assert(dialect::LEADING_ZEROS_64@ =~= text::skeleton(segments, indices, 0));
    text::law_segments_are_kept(segments, indices, args, 0);
    reveal_strlit(" - ");
    reveal_strlit("(");
    reveal_strlit("((");
    reveal_strlit("(__builtin_clz");
    reveal_strlit("(uint32_t(");
    reveal_strlit(") : ");
    reveal_strlit(") == 0 ? ");
    reveal_strlit("))");
    reveal_strlit("ll(uint64_t(");
    assert(text::fill(dialect::LEADING_ZEROS_64@, args) =~= "(("@ + input + ") == 0 ? "@ + out + "("@ + text::dec(64) + ") : "@ + out + "(__builtin_clz"@ + "ll(uint64_t("@ + input + "))"@ + ""@ + "))"@);
}

#[verifier::spinoff_prover]
#[verifier::rlimit(60)]
proof fn lemma_clz_32(out: Seq<char>, input: Seq<char>)
    ensures
        text::fill(dialect::LEADING_ZEROS_32@, seq![out, input]) == "(("@ + input + ") == 0 ? "@ + out + "("@ + text::dec(32) + ") : "@ + out + "(__builtin_clz"@ + "(uint32_t("@ + input + "))"@ + ""@ + "))"@,
{
    lemma_small_numbers();
    reveal_strlit("((");
    reveal_strlit("(($1) == 0 ? $0(32) : $0(__builtin_clz(uint32_t($1))))");
    reveal_strlit("(32) : ");
    reveal_strlit("(__builtin_clz(uint32_t(");
    reveal_strlit(") == 0 ? ");
    reveal_strlit("))))");
    reveal_strlit("");
    let segments = seq!["(("@, ") == 0 ? "@, "(32) : "@, "(__builtin_clz(uint32_t("@, "))))"@];
    let indices = seq![1nat, 0nat, 0nat, 1nat];
    let args = seq![out, input];
    reveal_with_fuel(text::skeleton, 5);
    reveal_with_fuel(text::fleshed, 5);
    assert(dialect::LEADING_ZEROS_32@ =~= text::skeleton(segments, indices, 0));
    text::law_segments_are_kept(segments, indices, args, 0);
    reveal_strlit(" - ");
    reveal_strlit("(");
    reveal_strlit("((");
    reveal_strlit("(__builtin_clz");
    reveal_strlit("(uint32_t(");
    reveal_strlit(") : ");
    reveal_strlit(") == 0 ? ");
    reveal_strlit("))");
    reveal_strlit("ll(uint64_t(");
    assert(text::fill(dialect::LEADING_ZEROS_32@, args) =~= "(("@ + input + ") == 0 ? "@ + out + "("@ + text::dec(32) + ") : "@ + out + "(__builtin_clz"@ + "(uint32_t("@ + input + "))"@ + ""@ + "))"@);
}

#[verifier::spinoff_prover]
#[verifier::rlimit(60)]
proof fn lemma_clz_16(out: Seq<char>, input: Seq<char>)
    ensures
        text::fill(dialect::LEADING_ZEROS_16@, seq![out, input]) == "(("@ + input + ") == 0 ? "@ + out + "("@ + text::dec(16) + ") : "@ + out + "(__builtin_clz"@ + "(uint32_t("@ + input + "))"@ + (" - "@ + text::dec(16)) + "))"@,
{
    lemma_small_numbers();
    reveal_strlit("((");
    reveal_strlit("(($1) == 0 ? $0(16) : $0(__builtin_clz(uint32_t($1)) - 16))");
    reveal_strlit("(16) : ");
    reveal_strlit("(__builtin_clz(uint32_t(");
    reveal_strlit(") == 0 ? ");
    reveal_strlit(")) - 16))");
    reveal_strlit("");
    let segments = seq!["(("@, ") == 0 ? "@, "(16) : "@, "(__builtin_clz(uint32_t("@, ")) - 16))"@];
    let indices = seq![1nat, 0nat, 0nat, 1nat];
    let args = seq![out, input];
    reveal_with_fuel(text::skeleton, 5);
    reveal_with_fuel(text::fleshed, 5);
    assert(dialect::LEADING_ZEROS_16@ =~= text::skeleton(segments, indices, 0));
    text::law_segments_are_kept(segments, indices, args, 0);
    reveal_strlit(" - ");
    reveal_strlit("(");
    reveal_strlit("((");
    reveal_strlit("(__builtin_clz");
    reveal_strlit("(uint32_t(");
    reveal_strlit(") : ");
    reveal_strlit(") == 0 ? ");
    reveal_strlit("))");
    reveal_strlit("ll(uint64_t(");
    assert(text::fill(dialect::LEADING_ZEROS_16@, args) =~= "(("@ + input + ") == 0 ? "@ + out + "("@ + text::dec(16) + ") : "@ + out + "(__builtin_clz"@ + "(uint32_t("@ + input + "))"@ + (" - "@ + text::dec(16)) + "))"@);
}

#[verifier::spinoff_prover]
#[verifier::rlimit(60)]
proof fn lemma_clz_8(out: Seq<char>, input: Seq<char>)
    ensures
        text::fill(dialect::LEADING_ZEROS_8@, seq![out, input]) == "(("@ + input + ") == 0 ? "@ + out + "("@ + text::dec(8) + ") : "@ + out + "(__builtin_clz"@ + "(uint32_t("@ + input + "))"@ + (" - "@ + text::dec(24)) + "))"@,
{
    lemma_small_numbers();
    reveal_strlit("((");
    reveal_strlit("(($1) == 0 ? $0(8) : $0(__builtin_clz(uint32_t($1)) - 24))");
    reveal_strlit("(8) : ");
    reveal_strlit("(__builtin_clz(uint32_t(");
    reveal_strlit(") == 0 ? ");
    reveal_strlit(")) - 24))");
    reveal_strlit("");
    let segments = seq!["(("@, ") == 0 ? "@, "(8) : "@, "(__builtin_clz(uint32_t("@, ")) - 24))"@];
    let indices = seq![1nat, 0nat, 0nat, 1nat];
    let args = seq![out, input];
    reveal_with_fuel(text::skeleton, 5);
    reveal_with_fuel(text::fleshed, 5);
    assert(dialect::LEADING_ZEROS_8@ =~= text::skeleton(segments, indices, 0));
    text::law_segments_are_kept(segments, indices, args, 0);
    reveal_strlit(" - ");
    reveal_strlit("(");
    reveal_strlit("((");
    reveal_strlit("(__builtin_clz");
    reveal_strlit("(uint32_t(");
    reveal_strlit(") : ");
    reveal_strlit(") == 0 ? ");
    reveal_strlit("))");
    reveal_strlit("ll(uint64_t(");
    assert(text::fill(dialect::LEADING_ZEROS_8@, args) =~= "(("@ + input + ") == 0 ? "@ + out + "("@ + text::dec(8) + ") : "@ + out + "(__builtin_clz"@ + "(uint32_t("@ + input + "))"@ + (" - "@ + text::dec(24)) + "))"@);
}

#[verifier::spinoff_prover]
#[verifier::rlimit(60)]
proof fn lemma_ctz_64(out: Seq<char>, input: Seq<char>)
    ensures
        text::fill(dialect::TRAILING_ZEROS_64@, seq![out, input]) == "(("@ + input + ") == 0 ? "@ + out + "("@ + text::dec(64) + ") : "@ + out + "(__builtin_ctz"@ + "ll(uint64_t("@ + input + "))"@ + ""@ + "))"@,
{
    lemma_small_numbers();
    reveal_strlit("((");
    reveal_strlit("(($1) == 0 ? $0(64) : $0(__builtin_ctzll(uint64_t($1))))");
    reveal_strlit("(64) : ");
    reveal_strlit("(__builtin_ctzll(uint64_t(");
    reveal_strlit(") == 0 ? ");
    reveal_strlit("))))");
    reveal_strlit("");
    let segments = seq!["(("@, ") == 0 ? "@, "(64) : "@, "(__builtin_ctzll(uint64_t("@, "))))"@];
    let indices = seq![1nat, 0nat, 0nat, 1nat];
    let args = seq![out, input];
    reveal_with_fuel(text::skeleton, 5);
    reveal_with_fuel(text::fleshed, 5);
    assert(dialect::TRAILING_ZEROS_64@ =~= text::skeleton(segments, indices, 0));
    text::law_segments_are_kept(segments, indices, args, 0);
    reveal_strlit(" - ");
    reveal_strlit("(");
    reveal_strlit("((");
    reveal_strlit("(__builtin_ctz");
    reveal_strlit("(uint32_t(");
    reveal_strlit(") : ");
    reveal_strlit(") == 0 ? ");
    reveal_strlit("))");
    reveal_strlit("ll(uint64_t(");
    assert(text::fill(dialect::TRAILING_ZEROS_64@, args) =~= "(("@ + input + ") == 0 ? "@ + out + "("@ + text::dec(64) + ") : "@ + out + "(__builtin_ctz"@ + "ll(uint64_t("@ + input + "))"@ + ""@ + "))"@);
}

#[verifier::spinoff_prover]
#[verifier::rlimit(60)]
proof fn lemma_ctz_32(out: Seq<char>, input: Seq<char>)
    ensures
        text::fill(dialect::TRAILING_ZEROS_32@, seq![out, input]) == "(("@ + input + ") == 0 ? "@ + out + "("@ + text::dec(32) + ") : "@ + out + "(__builtin_ctz"@ + "(uint32_t("@ + input + "))"@ + ""@ + "))"@,
{
    lemma_small_numbers();
    reveal_strlit("((");
    reveal_strlit("(($1) == 0 ? $0(32) : $0(__builtin_ctz(uint32_t($1))))");
    reveal_strlit("(32) : ");
    reveal_strlit("(__builtin_ctz(uint32_t(");
    reveal_strlit(") == 0 ? ");
    reveal_strlit("))))");
    reveal_strlit("");
    let segments = seq!["(("@, ") == 0 ? "@, "(32) : "@, "(__builtin_ctz(uint32_t("@, "))))"@];
    let indices = seq![1nat, 0nat, 0nat, 1nat];
    let args = seq![out, input];
    reveal_with_fuel(text::skeleton, 5);
    reveal_with_fuel(text::fleshed, 5);
    assert(dialect::TRAILING_ZEROS_32@ =~= text::skeleton(segments, indices, 0));
    text::law_segments_are_kept(segments, indices, args, 0);
    reveal_strlit(" - ");
    reveal_strlit("(");
    reveal_strlit("((");
    reveal_strlit("(__builtin_ctz");
    reveal_strlit("(uint32_t(");
    reveal_strlit(") : ");
    reveal_strlit(") == 0 ? ");
    reveal_strlit("))");
    reveal_strlit("ll(uint64_t(");
    assert(text::fill(dialect::TRAILING_ZEROS_32@, args) =~= "(("@ + input + ") == 0 ? "@ + out + "("@ + text::dec(32) + ") : "@ + out + "(__builtin_ctz"@ + "(uint32_t("@ + input + "))"@ + ""@ + "))"@);
}

#[verifier::spinoff_prover]
#[verifier::rlimit(60)]
proof fn lemma_ctz_16(out: Seq<char>, input: Seq<char>)
    ensures
        text::fill(dialect::TRAILING_ZEROS_16@, seq![out, input]) == "(("@ + input + ") == 0 ? "@ + out + "("@ + text::dec(16) + ") : "@ + out + "(__builtin_ctz"@ + "(uint32_t("@ + input + "))"@ + ""@ + "))"@,
{
    lemma_small_numbers();
    reveal_strlit("((");
    reveal_strlit("(($1) == 0 ? $0(16) : $0(__builtin_ctz(uint32_t($1))))");
    reveal_strlit("(16) : ");
    reveal_strlit("(__builtin_ctz(uint32_t(");
    reveal_strlit(") == 0 ? ");
    reveal_strlit("))))");
    reveal_strlit("");
    let segments = seq!["(("@, ") == 0 ? "@, "(16) : "@, "(__builtin_ctz(uint32_t("@, "))))"@];
    let indices = seq![1nat, 0nat, 0nat, 1nat];
    let args = seq![out, input];
    reveal_with_fuel(text::skeleton, 5);
    reveal_with_fuel(text::fleshed, 5);
    assert(dialect::TRAILING_ZEROS_16@ =~= text::skeleton(segments, indices, 0));
    text::law_segments_are_kept(segments, indices, args, 0);
    reveal_strlit(" - ");
    reveal_strlit("(");
    reveal_strlit("((");
    reveal_strlit("(__builtin_ctz");
    reveal_strlit("(uint32_t(");
    reveal_strlit(") : ");
    reveal_strlit(") == 0 ? ");
    reveal_strlit("))");
    reveal_strlit("ll(uint64_t(");
    assert(text::fill(dialect::TRAILING_ZEROS_16@, args) =~= "(("@ + input + ") == 0 ? "@ + out + "("@ + text::dec(16) + ") : "@ + out + "(__builtin_ctz"@ + "(uint32_t("@ + input + "))"@ + ""@ + "))"@);
}

#[verifier::spinoff_prover]
#[verifier::rlimit(60)]
proof fn lemma_ctz_8(out: Seq<char>, input: Seq<char>)
    ensures
        text::fill(dialect::TRAILING_ZEROS_8@, seq![out, input]) == "(("@ + input + ") == 0 ? "@ + out + "("@ + text::dec(8) + ") : "@ + out + "(__builtin_ctz"@ + "(uint32_t("@ + input + "))"@ + ""@ + "))"@,
{
    lemma_small_numbers();
    reveal_strlit("((");
    reveal_strlit("(($1) == 0 ? $0(8) : $0(__builtin_ctz(uint32_t($1))))");
    reveal_strlit("(8) : ");
    reveal_strlit("(__builtin_ctz(uint32_t(");
    reveal_strlit(") == 0 ? ");
    reveal_strlit("))))");
    reveal_strlit("");
    let segments = seq!["(("@, ") == 0 ? "@, "(8) : "@, "(__builtin_ctz(uint32_t("@, "))))"@];
    let indices = seq![1nat, 0nat, 0nat, 1nat];
    let args = seq![out, input];
    reveal_with_fuel(text::skeleton, 5);
    reveal_with_fuel(text::fleshed, 5);
    assert(dialect::TRAILING_ZEROS_8@ =~= text::skeleton(segments, indices, 0));
    text::law_segments_are_kept(segments, indices, args, 0);
    reveal_strlit(" - ");
    reveal_strlit("(");
    reveal_strlit("((");
    reveal_strlit("(__builtin_ctz");
    reveal_strlit("(uint32_t(");
    reveal_strlit(") : ");
    reveal_strlit(") == 0 ? ");
    reveal_strlit("))");
    reveal_strlit("ll(uint64_t(");
    assert(text::fill(dialect::TRAILING_ZEROS_8@, args) =~= "(("@ + input + ") == 0 ? "@ + out + "("@ + text::dec(8) + ") : "@ + out + "(__builtin_ctz"@ + "(uint32_t("@ + input + "))"@ + ""@ + "))"@);
}

/// Bits are counted in a word that holds the whole number, and zeros as far as the number is
/// wide: those of the word above it are taken off, and a number without a set bit has as many
/// as bits.
pub proof fn law_bits_are_counted_in_full(input: Seq<char>, elem: Elem, out: Elem)
    requires
        dialect::is_signed(elem) || dialect::is_unsigned(elem),
    ensures
        dialect::bit_count(input, elem, out) == dialect::elem_text(out) + "(__builtin_popcount"@
            + word_of(elem) + input + ")))"@,
        dialect::first_set_bit(input, elem, out) == dialect::elem_text(out) + "(__builtin_ffs"@
            + word_of(elem) + input + ")))"@,
        dialect::leading_zeros(input, elem, out) == "(("@ + input + ") == 0 ? "@ + dialect::elem_text(out) + "("@ + text::dec(8 * elem.bytes()) + ") : "@ + dialect::elem_text(out) + "(__builtin_clz"@ + word_of(elem) + input + "))"@ + above(elem) + "))"@,
        dialect::trailing_zeros(input, elem, out) == "(("@ + input + ") == 0 ? "@ + dialect::elem_text(out) + "("@ + text::dec(8 * elem.bytes()) + ") : "@ + dialect::elem_text(out) + "(__builtin_ctz"@ + word_of(elem) + input + "))"@ + ""@ + "))"@,
{
    let name = dialect::elem_text(out);
    lemma_popcount_64(name, input);
    lemma_popcount_32(name, input);
    lemma_ffs_64(name, input);
    lemma_ffs_32(name, input);
    lemma_clz_64(name, input);
    lemma_clz_32(name, input);
    lemma_clz_16(name, input);
    lemma_clz_8(name, input);
    lemma_ctz_64(name, input);
    lemma_ctz_32(name, input);
    lemma_ctz_16(name, input);
    lemma_ctz_8(name, input);
    assert(8 * elem.bytes() == 64 || 8 * elem.bytes() == 32 || 8 * elem.bytes() == 16 || 8 * elem.bytes() == 8);
}

/// Bits are reversed in a word that holds the whole number, and what the word has above it is
/// shifted out.
pub proof fn law_bits_are_reversed_within_their_width(input: Seq<char>, elem: Elem)
    requires
        dialect::is_signed(elem) || dialect::is_unsigned(elem),
    ensures
        8 * elem.bytes() <= 32 ==> text::contains(
            dialect::reversed_bits(input, elem),
            "uint32_t v = uint32_t("@ + input + ");"@,
        ) && text::contains(
            dialect::reversed_bits(input, elem),
            "(v >> "@ + text::dec((32 - 8 * elem.bytes()) as nat) + ");"@,
        ),
        8 * elem.bytes() > 32 ==> text::contains(
            dialect::reversed_bits(input, elem),
            "uint64_t v = uint64_t("@ + input + ");"@,
        ) && text::contains(dialect::reversed_bits(input, elem), "(v);"@),
{
    let name = dialect::elem_text(elem);
    if 8 * elem.bytes() <= 32 {
        lemma_reversed_word(name, input, text::dec((32 - 8 * elem.bytes()) as nat));
    } else {
        lemma_reversed_pair(name, input);
    }
}

#[verifier::spinoff_prover]
#[verifier::rlimit(60)]
proof fn lemma_reversed_word(name: Seq<char>, input: Seq<char>, shift: Seq<char>)
    ensures
        text::contains(text::fill(dialect::REVERSE_BITS_32@, seq![name, input, shift]), "uint32_t v = uint32_t("@ + input + ");"@),
        text::contains(text::fill(dialect::REVERSE_BITS_32@, seq![name, input, shift]), "(v >> "@ + shift + ");"@),
{
    let args = seq![name, input, shift];
    reveal_strlit("([&]() -> $0 { uint32_t v = uint32_t($1); v = ((v >> 1) & 0x55555555u) | ((v & 0x55555555u) << 1); v = ((v >> 2) & 0x33333333u) | ((v & 0x33333333u) << 2); v = ((v >> 4) & 0x0F0F0F0Fu) | ((v & 0x0F0F0F0Fu) << 4); v = ((v >> 8) & 0x00FF00FFu) | ((v & 0x00FF00FFu) << 8); v = (v >> 16) | (v << 16); return $0(v >> $2); }())");
    reveal_strlit("(v >> ");
    reveal_strlit(");");
    reveal_strlit("uint32_t v = uint32_t(");
    assert(dialect::REVERSE_BITS_32@.subrange(15, 41) =~= "uint32_t v = uint32_t("@ + text::placeholder(1) + ");"@);
    assert(text::stands_at(dialect::REVERSE_BITS_32@, "uint32_t v = uint32_t("@ + text::placeholder(1) + ");"@, 15));
    text::law_line_holds_its_argument(dialect::REVERSE_BITS_32@, "uint32_t v = uint32_t("@, 1, ");"@, 15, args);
    assert(dialect::REVERSE_BITS_32@.subrange(306, 316) =~= "(v >> "@ + text::placeholder(2) + ");"@);
    assert(text::stands_at(dialect::REVERSE_BITS_32@, "(v >> "@ + text::placeholder(2) + ");"@, 306));
    text::law_line_holds_its_argument(dialect::REVERSE_BITS_32@, "(v >> "@, 2, ");"@, 306, args);
}

#[verifier::spinoff_prover]
#[verifier::rlimit(60)]
proof fn lemma_reversed_pair(name: Seq<char>, input: Seq<char>)
    ensures
        text::contains(text::fill(dialect::REVERSE_BITS_64@, seq![name, input]), "uint64_t v = uint64_t("@ + input + ");"@),
        text::contains(text::fill(dialect::REVERSE_BITS_64@, seq![name, input]), "(v);"@),
{
    let args = seq![name, input];
    reveal_strlit("([&]() -> $0 { uint64_t v = uint64_t($1); v = ((v >> 1) & 0x5555555555555555ull) | ((v & 0x5555555555555555ull) << 1); v = ((v >> 2) & 0x3333333333333333ull) | ((v & 0x3333333333333333ull) << 2); v = ((v >> 4) & 0x0F0F0F0F0F0F0F0Full) | ((v & 0x0F0F0F0F0F0F0F0Full) << 4); v = ((v >> 8) & 0x00FF00FF00FF00FFull) | ((v & 0x00FF00FF00FF00FFull) << 8); v = ((v >> 16) & 0x0000FFFF0000FFFFull) | ((v & 0x0000FFFF0000FFFFull) << 16); v = (v >> 32) | (v << 32); return $0(v); }())");
    reveal_strlit("(v);");
    reveal_strlit(");");
    reveal_strlit("uint64_t v = uint64_t(");
    assert(dialect::REVERSE_BITS_64@.subrange(15, 41) =~= "uint64_t v = uint64_t("@ + text::placeholder(1) + ");"@);
    assert(text::stands_at(dialect::REVERSE_BITS_64@, "uint64_t v = uint64_t("@ + text::placeholder(1) + ");"@, 15));
    text::law_line_holds_its_argument(dialect::REVERSE_BITS_64@, "uint64_t v = uint64_t("@, 1, ");"@, 15, args);
    assert(dialect::REVERSE_BITS_64@.subrange(465, 469) =~= "(v);"@);
    assert(text::stands_at(dialect::REVERSE_BITS_64@, "(v);"@, 465));
    text::law_lines_are_filled(dialect::REVERSE_BITS_64@, "(v);"@, 465, args);
    text::law_plain_text_is_kept("(v);"@, args);
}

/// An atomic is updated in three steps: its old value goes to the result, the new one is
/// computed, and the atomic gets the new one.
pub proof fn law_atomics_are_loaded_updated_and_stored(
    atomic: Seq<char>,
    out: Seq<char>,
    update: Seq<char>,
    tmp: Seq<char>,
)
    ensures
        dialect::atomic_update(atomic, out, update, tmp) == (out + " = *"@ + atomic + ";\n"@) + update + (
        "*"@ + atomic + " = "@ + tmp + ";\n"@),
{
    lemma_loaded(out, atomic);
    lemma_stored(atomic, tmp);
}

#[verifier::spinoff_prover]
#[verifier::rlimit(60)]
proof fn lemma_loaded(out: Seq<char>, atomic: Seq<char>)
    ensures
        text::fill(dialect::ATOMIC_LOAD@, seq![out, atomic]) == out + " = *"@ + atomic + ";\n"@,
{
    reveal_strlit(" = *");
    reveal_strlit("$0 = *$1;\n");
    reveal_strlit(";\n");
    reveal_strlit("");
    let segments = seq![""@, " = *"@, ";\n"@];
    let indices = seq![0nat, 1nat];
    let args = seq![out, atomic];
    reveal_with_fuel(text::skeleton, 3);
    reveal_with_fuel(text::fleshed, 3);
    assert(dialect::ATOMIC_LOAD@ =~= text::skeleton(segments, indices, 0));
    text::law_segments_are_kept(segments, indices, args, 0);
    assert(text::fill(dialect::ATOMIC_LOAD@, args) =~= out + " = *"@ + atomic + ";\n"@);
}

#[verifier::spinoff_prover]
#[verifier::rlimit(60)]
proof fn lemma_stored(atomic: Seq<char>, value: Seq<char>)
    ensures
        text::fill(dialect::ATOMIC_STORE@, seq![atomic, value]) == "*"@ + atomic + " = "@ + value + ";\n"@,
{
    reveal_strlit(" = ");
    reveal_strlit("*");
    reveal_strlit("*$0 = $1;\n");
    reveal_strlit(";\n");
    let segments = seq!["*"@, " = "@, ";\n"@];
    let indices = seq![0nat, 1nat];
    let args = seq![atomic, value];
    reveal_with_fuel(text::skeleton, 3);
    reveal_with_fuel(text::fleshed, 3);
    assert(dialect::ATOMIC_STORE@ =~= text::skeleton(segments, indices, 0));
    text::law_segments_are_kept(segments, indices, args, 0);
    assert(text::fill(dialect::ATOMIC_STORE@, args) =~= "*"@ + atomic + " = "@ + value + ";\n"@);
}

} // verus!

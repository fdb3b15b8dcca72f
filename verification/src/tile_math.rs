//! What the compute kernels of the tile path compute.
use crate::compile;
use crate::ir::MathOp;
use crate::kind;
use crate::kind::SupportedComputeKind;
use crate::text;
use crate::writer;
use vstd::prelude::*;

verus! {

/// What the device calls a piece of arithmetic.
pub open spec fn device_name(op: MathOp) -> Seq<char> {
    match op {
        MathOp::Add => "add"@,
        MathOp::Sub => "sub"@,
        MathOp::Mul => "mul"@,
        MathOp::Div | MathOp::FastDiv => "div"@,
        MathOp::Abs => "abs"@,
        MathOp::Sqrt | MathOp::FastSqrt => "sqrt"@,
        MathOp::InverseSqrt | MathOp::FastInverseSqrt => "rsqrt"@,
        MathOp::Sin | MathOp::FastSin => "sin"@,
        MathOp::Cos | MathOp::FastCos => "cos"@,
        MathOp::Tan => "tan"@,
        MathOp::Tanh | MathOp::FastTanh => "tanh"@,
        MathOp::Exp | MathOp::FastExp => "exp"@,
        MathOp::Log | MathOp::FastLog => "log"@,
    }
}

/// Whether a piece of arithmetic has two operands.
pub open spec fn is_binary(op: MathOp) -> bool {
    op is Add || op is Sub || op is Mul || op is Div || op is FastDiv
}

/// Whether a kernel sets up an operation and carries it out on the tiles of its inputs, the
/// first operand on the left.
pub open spec fn carries_out(source: Seq<char>, op: MathOp) -> bool {
    let name = device_name(op);
    if op is Div || op is FastDiv {
        &&& text::contains(source, "copy_tile(cb_in0, 0, lhs_reg);\n"@)
        &&& text::contains(source, "copy_tile(cb_in1, 0, rhs_reg);\n"@)
        &&& text::contains(source, name + "_binary_tile_init();\n"@)
        &&& text::contains(source, name + "_binary_tile(lhs_reg, rhs_reg, dst_reg);\n"@)
    } else if is_binary(op) {
        &&& text::contains(source, name + "_tiles_init(cb_in0, cb_in1);\n"@)
        &&& text::contains(source, name + "_tiles(cb_in0, cb_in1, 0, 0, dst_reg);\n"@)
    } else {
        &&& text::contains(source, "copy_tile(cb_in0, 0, dst_reg);\n"@)
        &&& text::contains(source, name + "_tile_init();\n"@)
        &&& text::contains(source, name + "_tile(dst_reg);\n"@)
    }
}

#[verifier::spinoff_prover]
#[verifier::rlimit(60)]
proof fn lemma_div()
    ensures
        carries_out(writer::DIV_COMPUTE@, MathOp::Div),
        carries_out(writer::DIV_COMPUTE@, MathOp::FastDiv),
{
    reveal_strlit(r#"#include "api/compute/common.h"
#include "api/compute/tile_move_copy.h"
#include "api/compute/eltwise_unary/eltwise_unary.h"
#include "api/compute/eltwise_binary_sfpu.h"
#include "api/compute/compute_kernel_api.h"

void kernel_main() {
    uint32_t num_tiles = get_arg_val<uint32_t>(0);

    constexpr auto cb_in0 = tt::CBIndex::c_0;
    constexpr auto cb_in1 = tt::CBIndex::c_1;
    constexpr auto cb_out0 = tt::CBIndex::c_16;
    constexpr uint32_t lhs_reg = 0;
    constexpr uint32_t rhs_reg = 1;
    constexpr uint32_t dst_reg = 0;

    unary_op_init_common(cb_in0, cb_out0);
    div_binary_tile_init();

    for (uint32_t i = 0; i < num_tiles; i++) {
        cb_wait_front(cb_in0, 1);
        cb_wait_front(cb_in1, 1);
        cb_reserve_back(cb_out0, 1);

        tile_regs_acquire();
        copy_tile_to_dst_init_short_with_dt(cb_in1, cb_in0);
        copy_tile(cb_in0, 0, lhs_reg);
        copy_tile_to_dst_init_short_with_dt(cb_in0, cb_in1);
        copy_tile(cb_in1, 0, rhs_reg);
        div_binary_tile(lhs_reg, rhs_reg, dst_reg);
        tile_regs_commit();
        tile_regs_wait();

        pack_tile(dst_reg, cb_out0);
        tile_regs_release();

        cb_pop_front(cb_in0, 1);
        cb_pop_front(cb_in1, 1);
        cb_push_back(cb_out0, 1);
    }
}
"#);
    reveal_strlit("_binary_tile(lhs_reg, rhs_reg, dst_reg);\n");
    reveal_strlit("_binary_tile_init();\n");
    reveal_strlit("copy_tile(cb_in0, 0, lhs_reg);\n");
    reveal_strlit("copy_tile(cb_in1, 0, rhs_reg);\n");
    reveal_strlit("div");
    assert(writer::DIV_COMPUTE@.subrange(860, 891) =~= "copy_tile(cb_in0, 0, lhs_reg);\n"@);
    assert(text::stands_at(writer::DIV_COMPUTE@, "copy_tile(cb_in0, 0, lhs_reg);\n"@, 860));
    assert(writer::DIV_COMPUTE@.subrange(960, 991) =~= "copy_tile(cb_in1, 0, rhs_reg);\n"@);
    assert(text::stands_at(writer::DIV_COMPUTE@, "copy_tile(cb_in1, 0, rhs_reg);\n"@, 960));
    assert(writer::DIV_COMPUTE@.subrange(584, 608) =~= "div"@ + "_binary_tile_init();\n"@);
    assert(text::stands_at(writer::DIV_COMPUTE@, "div"@ + "_binary_tile_init();\n"@, 584));
    assert(writer::DIV_COMPUTE@.subrange(999, 1043) =~= "div"@ + "_binary_tile(lhs_reg, rhs_reg, dst_reg);\n"@);
    assert(text::stands_at(writer::DIV_COMPUTE@, "div"@ + "_binary_tile(lhs_reg, rhs_reg, dst_reg);\n"@, 999));
}

#[verifier::spinoff_prover]
#[verifier::rlimit(60)]
proof fn lemma_copy()
    ensures
        text::contains(writer::COPY_COMPUTE@, "copy_tile(cb_in0, 0, dst_reg);\n"@),
{
    reveal_strlit(r#"#include "api/compute/common.h"
#include "api/compute/eltwise_binary.h"
#include "api/compute/tile_move_copy.h"
#include "api/compute/compute_kernel_api.h"

void kernel_main() {
    uint32_t num_tiles = get_arg_val<uint32_t>(0);

    constexpr auto cb_in0 = tt::CBIndex::c_0;
    constexpr auto cb_out0 = tt::CBIndex::c_16;
    constexpr uint32_t dst_reg = 0;

    binary_op_init_common(cb_in0, cb_in0, cb_out0);
    copy_tile_init(cb_in0);

    for (uint32_t i = 0; i < num_tiles; i++) {
        tile_regs_acquire();
        cb_wait_front(cb_in0, 1);
        copy_tile(cb_in0, 0, dst_reg);
        tile_regs_commit();
        tile_regs_wait();

        cb_pop_front(cb_in0, 1);

        cb_reserve_back(cb_out0, 1);
        pack_tile(dst_reg, cb_out0);
        cb_push_back(cb_out0, 1);

        tile_regs_release();
    }
}
"#);
    reveal_strlit("copy_tile(cb_in0, 0, dst_reg);\n");
    assert(writer::COPY_COMPUTE@.subrange(560, 591) =~= "copy_tile(cb_in0, 0, dst_reg);\n"@);
    assert(text::stands_at(writer::COPY_COMPUTE@, "copy_tile(cb_in0, 0, dst_reg);\n"@, 560));
}

#[verifier::spinoff_prover]
#[verifier::rlimit(60)]
proof fn lemma_binary(init: Seq<char>, apply: Seq<char>)
    ensures
        text::contains(
            text::fill(writer::BINARY_COMPUTE@, seq![init, apply]),
            init + "(cb_in0, cb_in1);\n"@,
        ),
        text::contains(
            text::fill(writer::BINARY_COMPUTE@, seq![init, apply]),
            apply + "(cb_in0, cb_in1, 0, 0, dst_reg);\n"@,
        ),
{
    reveal_strlit(r#"#include "api/compute/common.h"
#include "api/compute/eltwise_binary.h"
#include "api/compute/compute_kernel_api.h"

void kernel_main() {
    uint32_t num_tiles = get_arg_val<uint32_t>(0);

    constexpr auto cb_in0 = tt::CBIndex::c_0;
    constexpr auto cb_in1 = tt::CBIndex::c_1;
    constexpr auto cb_out0 = tt::CBIndex::c_16;
    constexpr uint32_t dst_reg = 0;

    binary_op_init_common(cb_in0, cb_in1, cb_out0);
    $0(cb_in0, cb_in1);

    for (uint32_t i = 0; i < num_tiles; i++) {
        tile_regs_acquire();
        cb_wait_front(cb_in0, 1);
        cb_wait_front(cb_in1, 1);
        $1(cb_in0, cb_in1, 0, 0, dst_reg);
        tile_regs_commit();
        tile_regs_wait();

        cb_pop_front(cb_in0, 1);
        cb_pop_front(cb_in1, 1);

        cb_reserve_back(cb_out0, 1);
        pack_tile(dst_reg, cb_out0);
        cb_push_back(cb_out0, 1);

        tile_regs_release();
    }
}
"#);
    reveal_strlit("(cb_in0, cb_in1);\n");
    reveal_strlit("(cb_in0, cb_in1, 0, 0, dst_reg);\n");
    let args = seq![init, apply];
    let none = Seq::<char>::empty();
    assert(writer::BINARY_COMPUTE@.subrange(423, 443) =~= none + text::placeholder(0) + "(cb_in0, cb_in1);\n"@);
    assert(text::stands_at(writer::BINARY_COMPUTE@, none + text::placeholder(0) + "(cb_in0, cb_in1);\n"@, 423));
    text::law_line_holds_its_argument(writer::BINARY_COMPUTE@, none, 0, "(cb_in0, cb_in1);\n"@, 423, args);
    assert(none + args[0] + "(cb_in0, cb_in1);\n"@ =~= init + "(cb_in0, cb_in1);\n"@);
    assert(writer::BINARY_COMPUTE@.subrange(596, 631) =~= none + text::placeholder(1) + "(cb_in0, cb_in1, 0, 0, dst_reg);\n"@);
    assert(text::stands_at(writer::BINARY_COMPUTE@, none + text::placeholder(1) + "(cb_in0, cb_in1, 0, 0, dst_reg);\n"@, 596));
    text::law_line_holds_its_argument(writer::BINARY_COMPUTE@, none, 1, "(cb_in0, cb_in1, 0, 0, dst_reg);\n"@, 596, args);
    assert(none + args[1] + "(cb_in0, cb_in1, 0, 0, dst_reg);\n"@ =~= apply + "(cb_in0, cb_in1, 0, 0, dst_reg);\n"@);
}

#[verifier::spinoff_prover]
#[verifier::rlimit(60)]
proof fn lemma_unary(header: Seq<char>, init: Seq<char>, apply: Seq<char>)
    ensures
        text::contains(
            text::fill(writer::UNARY_COMPUTE@, seq![header, init, apply]),
            "copy_tile(cb_in0, 0, dst_reg);\n"@,
        ),
        text::contains(
            text::fill(writer::UNARY_COMPUTE@, seq![header, init, apply]),
            init + "();\n"@,
        ),
        text::contains(
            text::fill(writer::UNARY_COMPUTE@, seq![header, init, apply]),
            apply + "(dst_reg);\n"@,
        ),
{
    reveal_strlit(r#"#include "api/compute/common.h"
#include "api/compute/tile_move_copy.h"
#include "api/compute/eltwise_unary/eltwise_unary.h"
$0#include "api/compute/compute_kernel_api.h"

void kernel_main() {
    uint32_t num_tiles = get_arg_val<uint32_t>(0);

    constexpr auto cb_in0 = tt::CBIndex::c_0;
    constexpr auto cb_out0 = tt::CBIndex::c_16;
    constexpr uint32_t dst_reg = 0;

    init_sfpu(cb_in0, cb_out0);
    copy_tile_init(cb_in0);
    $1();

    for (uint32_t i = 0; i < num_tiles; i++) {
        cb_wait_front(cb_in0, 1);
        tile_regs_acquire();
        copy_tile(cb_in0, 0, dst_reg);
        $2(dst_reg);
        tile_regs_commit();
        tile_regs_wait();

        cb_reserve_back(cb_out0, 1);
        pack_tile(dst_reg, cb_out0);
        cb_pop_front(cb_in0, 1);
        tile_regs_release();
        cb_push_back(cb_out0, 1);
    }
}
"#);
    reveal_strlit("();\n");
    reveal_strlit("(dst_reg);\n");
    reveal_strlit("copy_tile(cb_in0, 0, dst_reg);\n");
    let args = seq![header, init, apply];
    let none = Seq::<char>::empty();
    assert(writer::UNARY_COMPUTE@.subrange(440, 446) =~= none + text::placeholder(1) + "();\n"@);
    assert(text::stands_at(writer::UNARY_COMPUTE@, none + text::placeholder(1) + "();\n"@, 440));
    text::law_line_holds_its_argument(writer::UNARY_COMPUTE@, none, 1, "();\n"@, 440, args);
    assert(none + args[1] + "();\n"@ =~= init + "();\n"@);
    assert(writer::UNARY_COMPUTE@.subrange(604, 617) =~= none + text::placeholder(2) + "(dst_reg);\n"@);
    assert(text::stands_at(writer::UNARY_COMPUTE@, none + text::placeholder(2) + "(dst_reg);\n"@, 604));
    text::law_line_holds_its_argument(writer::UNARY_COMPUTE@, none, 2, "(dst_reg);\n"@, 604, args);
    assert(none + args[2] + "(dst_reg);\n"@ =~= apply + "(dst_reg);\n"@);
    assert(writer::UNARY_COMPUTE@.subrange(565, 596) =~= "copy_tile(cb_in0, 0, dst_reg);\n"@);
    assert(text::stands_at(writer::UNARY_COMPUTE@, "copy_tile(cb_in0, 0, dst_reg);\n"@, 565));
    text::law_lines_are_filled(writer::UNARY_COMPUTE@, "copy_tile(cb_in0, 0, dst_reg);\n"@, 565, args);
    text::law_plain_text_is_kept("copy_tile(cb_in0, 0, dst_reg);\n"@, args);
}

/// The compute kernel of a tile operation carries out the arithmetic that the kernel's
/// instructions ask for, on the operands in their order; that of a copy copies, and the
/// scalar path computes nothing there.
pub proof fn law_tile_operations_carry_out_their_arithmetic(op: MathOp)
    ensures
        carries_out(compile::compute_text(kind::tile_kind(op)), op),
        is_binary(op) <==> compile::binary_op(kind::tile_kind(op)) is Some,
        !(kind::tile_kind(op) is Generic),
        !(kind::tile_kind(op) is Copy),
        text::contains(
            compile::compute_text(SupportedComputeKind::Copy),
            "copy_tile(cb_in0, 0, dst_reg);\n"@,
        ),
        compile::compute_text(SupportedComputeKind::Generic) == "void kernel_main() {}\n"@,
{
    lemma_copy();
    lemma_div();
    lemma_names(op);
    match op {
        MathOp::Add | MathOp::Sub | MathOp::Mul => {
            let name = device_name(op);
            lemma_binary(name + "_tiles_init"@, name + "_tiles"@);
            lemma_binary_calls(name);
        },
        MathOp::Div | MathOp::FastDiv => {},
        _ => {
            let name = device_name(op);
            let functions = writer::unary_functions(compile::unary_op(kind::tile_kind(op))->0);
            let header = match functions.0 {
                Some(header) => text::fill(writer::UNARY_HEADER@, seq![header]),
                None => ""@,
            };
            lemma_unary(header, name + "_tile_init"@, name + "_tile"@);
            lemma_unary_calls(name);
        },
    }
}

#[verifier::spinoff_prover]
#[verifier::rlimit(60)]
proof fn lemma_binary_calls(name: Seq<char>)
    ensures
        name + "_tiles_init"@ + "(cb_in0, cb_in1);\n"@ == name + "_tiles_init(cb_in0, cb_in1);\n"@,
        name + "_tiles"@ + "(cb_in0, cb_in1, 0, 0, dst_reg);\n"@ == name
            + "_tiles(cb_in0, cb_in1, 0, 0, dst_reg);\n"@,
{
    reveal_strlit("(cb_in0, cb_in1);\n");
    reveal_strlit("(cb_in0, cb_in1, 0, 0, dst_reg);\n");
    reveal_strlit("_tiles");
    reveal_strlit("_tiles(cb_in0, cb_in1, 0, 0, dst_reg);\n");
    reveal_strlit("_tiles_init");
    reveal_strlit("_tiles_init(cb_in0, cb_in1);\n");
    assert(name + "_tiles_init"@ + "(cb_in0, cb_in1);\n"@ =~= name
        + "_tiles_init(cb_in0, cb_in1);\n"@);
    assert(name + "_tiles"@ + "(cb_in0, cb_in1, 0, 0, dst_reg);\n"@ =~= name
        + "_tiles(cb_in0, cb_in1, 0, 0, dst_reg);\n"@);
}

#[verifier::spinoff_prover]
#[verifier::rlimit(60)]
proof fn lemma_unary_calls(name: Seq<char>)
    ensures
        name + "_tile_init"@ + "();\n"@ == name + "_tile_init();\n"@,
        name + "_tile"@ + "(dst_reg);\n"@ == name + "_tile(dst_reg);\n"@,
{
    reveal_strlit("();\n");
    reveal_strlit("(dst_reg);\n");
    reveal_strlit("_tile");
    reveal_strlit("_tile(dst_reg);\n");
    reveal_strlit("_tile_init");
    reveal_strlit("_tile_init();\n");
    assert(name + "_tile_init"@ + "();\n"@ =~= name + "_tile_init();\n"@);
    assert(name + "_tile"@ + "(dst_reg);\n"@ =~= name + "_tile(dst_reg);\n"@);
}

/// The functions of the device are called after their operations.
#[verifier::spinoff_prover]
#[verifier::rlimit(60)]
proof fn lemma_names(op: MathOp)
    ensures
        op is Add || op is Sub || op is Mul ==> writer::binary_functions(
            compile::binary_op(kind::tile_kind(op))->0,
        ) == Some((device_name(op) + "_tiles_init"@, device_name(op) + "_tiles"@)),
        !is_binary(op) ==> writer::unary_functions(compile::unary_op(kind::tile_kind(op))->0).1
            == device_name(op) + "_tile_init"@ && writer::unary_functions(
            compile::unary_op(kind::tile_kind(op))->0,
        ).2 == device_name(op) + "_tile"@,
{
    reveal_strlit("_tile");
    reveal_strlit("_tile_init");
    reveal_strlit("_tiles");
    reveal_strlit("_tiles_init");
    reveal_strlit("abs");
    reveal_strlit("abs_tile");
    reveal_strlit("abs_tile_init");
    reveal_strlit("add");
    reveal_strlit("add_tiles");
    reveal_strlit("add_tiles_init");
    reveal_strlit("cos");
    reveal_strlit("cos_tile");
    reveal_strlit("cos_tile_init");
    reveal_strlit("exp");
    reveal_strlit("exp_tile");
    reveal_strlit("exp_tile_init");
    reveal_strlit("log");
    reveal_strlit("log_tile");
    reveal_strlit("log_tile_init");
    reveal_strlit("mul");
    reveal_strlit("mul_tiles");
    reveal_strlit("mul_tiles_init");
    reveal_strlit("rsqrt");
    reveal_strlit("rsqrt_tile");
    reveal_strlit("rsqrt_tile_init");
    reveal_strlit("sin");
    reveal_strlit("sin_tile");
    reveal_strlit("sin_tile_init");
    reveal_strlit("sqrt");
    reveal_strlit("sqrt_tile");
    reveal_strlit("sqrt_tile_init");
    reveal_strlit("sub");
    reveal_strlit("sub_tiles");
    reveal_strlit("sub_tiles_init");
    reveal_strlit("tan");
    reveal_strlit("tan_tile");
    reveal_strlit("tan_tile_init");
    reveal_strlit("tanh");
    reveal_strlit("tanh_tile");
    reveal_strlit("tanh_tile_init");
    assert("add"@ + "_tiles_init"@ =~= "add_tiles_init"@);
    assert("add"@ + "_tiles"@ =~= "add_tiles"@);
    assert("sub"@ + "_tiles_init"@ =~= "sub_tiles_init"@);
    assert("sub"@ + "_tiles"@ =~= "sub_tiles"@);
    assert("mul"@ + "_tiles_init"@ =~= "mul_tiles_init"@);
    assert("mul"@ + "_tiles"@ =~= "mul_tiles"@);
    assert("abs"@ + "_tile_init"@ =~= "abs_tile_init"@);
    assert("abs"@ + "_tile"@ =~= "abs_tile"@);
    assert("sqrt"@ + "_tile_init"@ =~= "sqrt_tile_init"@);
    assert("sqrt"@ + "_tile"@ =~= "sqrt_tile"@);
    assert("rsqrt"@ + "_tile_init"@ =~= "rsqrt_tile_init"@);
    assert("rsqrt"@ + "_tile"@ =~= "rsqrt_tile"@);
    assert("sin"@ + "_tile_init"@ =~= "sin_tile_init"@);
    assert("sin"@ + "_tile"@ =~= "sin_tile"@);
    assert("cos"@ + "_tile_init"@ =~= "cos_tile_init"@);
    assert("cos"@ + "_tile"@ =~= "cos_tile"@);
    assert("tan"@ + "_tile_init"@ =~= "tan_tile_init"@);
    assert("tan"@ + "_tile"@ =~= "tan_tile"@);
    assert("tanh"@ + "_tile_init"@ =~= "tanh_tile_init"@);
    assert("tanh"@ + "_tile"@ =~= "tanh_tile"@);
    assert("exp"@ + "_tile_init"@ =~= "exp_tile_init"@);
    assert("exp"@ + "_tile"@ =~= "exp_tile"@);
    assert("log"@ + "_tile_init"@ =~= "log_tile_init"@);
    assert("log"@ + "_tile"@ =~= "log_tile"@);
}

} // verus!

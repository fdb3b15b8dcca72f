//! Sources of the dataflow kernels that bring tiles from the circular buffers back to
//! DRAM, and of the compute kernels between reader and writer.
use crate::dataflow;
use crate::kernel::{TtBinaryComputeOp, TtUnaryComputeOp};
use crate::text;
use vstd::prelude::*;

verus! {

pub const TARGET_ADDRESS: &'static str = "    uint32_t dst$0_addr = get_arg_val<uint32_t>($0);\n";

pub const NUM_TILES: &'static str = "    uint32_t num_tiles = get_arg_val<uint32_t>($0);\n\n";

pub const TILE_LOOP: &'static str = "\n    for (uint32_t i = 0; i < num_tiles; i++) {\n";

pub const WRITE_TILE: &'static str = "        cb_wait_front(cb_out$0, 1);\n        uint32_t l1_addr_out$0 = get_read_ptr(cb_out$0);\n        noc_async_write_tile(i, c$0, l1_addr_out$0);\n";

pub const WRITE_BARRIER: &'static str = "        noc_async_write_barrier();\n";

pub const POP: &'static str = "        cb_pop_front(cb_out$0, 1);\n";

pub const DRAM_LOOPBACK: &'static str = r#"#include <cstdint>

void kernel_main() {
    uint32_t dram_buffer_src_addr = get_arg_val<uint32_t>(0);
    uint32_t dram_buffer_dst_addr = get_arg_val<uint32_t>(1);
    uint32_t num_tiles = get_arg_val<uint32_t>(2);

    constexpr uint32_t cb_scratch = tt::CBIndex::c_0;

    constexpr auto in0_args = TensorAccessorArgs<0>();
    const auto in0 = TensorAccessor(in0_args, dram_buffer_src_addr);

    constexpr auto out0_args = TensorAccessorArgs<in0_args.next_compile_time_args_offset()>();
    const auto out0 = TensorAccessor(out0_args, dram_buffer_dst_addr);

    for (uint32_t i = 0; i < num_tiles; i++) {
        cb_reserve_back(cb_scratch, 1);
        uint32_t l1_addr = get_write_ptr(cb_scratch);
        noc_async_read_tile(i, in0, l1_addr);
        noc_async_read_barrier();
        cb_push_back(cb_scratch, 1);

        cb_wait_front(cb_scratch, 1);
        l1_addr = get_read_ptr(cb_scratch);
        noc_async_write_tile(i, out0, l1_addr);
        noc_async_write_barrier();
        cb_pop_front(cb_scratch, 1);
    }
}
"#;

pub const COPY_COMPUTE: &'static str = r#"#include "api/compute/common.h"
#include "api/compute/eltwise_binary.h"
#include "api/compute/tile_move_copy.h"
#include "api/compute/compute_kernel_api.h"

void kernel_main() {
    uint32_t num_tiles = get_arg_val<uint32_t>(0);

    constexpr auto cb_in0 = tt::CBIndex::c_0;
    constexpr auto cb_out0 = tt::CBIndex::c_16;
    constexpr uint32_t dst_reg = 0;

    binary_op_init_common(cb_in0, cb_in0, cb_out0);
    copy_tile_init(cb_in0);

    for (uint32_t i = 0; i < num_tiles; i++) {
        tile_regs_acquire();
        cb_wait_front(cb_in0, 1);
        copy_tile(cb_in0, 0, dst_reg);
        tile_regs_commit();
        tile_regs_wait();

        cb_pop_front(cb_in0, 1);

        cb_reserve_back(cb_out0, 1);
        pack_tile(dst_reg, cb_out0);
        cb_push_back(cb_out0, 1);

        tile_regs_release();
    }
}
"#;

pub const DIV_COMPUTE: &'static str = r#"#include "api/compute/common.h"
#include "api/compute/tile_move_copy.h"
#include "api/compute/eltwise_unary/eltwise_unary.h"
#include "api/compute/eltwise_binary_sfpu.h"
#include "api/compute/compute_kernel_api.h"

void kernel_main() {
    uint32_t num_tiles = get_arg_val<uint32_t>(0);

    constexpr auto cb_in0 = tt::CBIndex::c_0;
    constexpr auto cb_in1 = tt::CBIndex::c_1;
    constexpr auto cb_out0 = tt::CBIndex::c_16;
    constexpr uint32_t lhs_reg = 0;
    constexpr uint32_t rhs_reg = 1;
    constexpr uint32_t dst_reg = 0;

    unary_op_init_common(cb_in0, cb_out0);
    div_binary_tile_init();

    for (uint32_t i = 0; i < num_tiles; i++) {
        cb_wait_front(cb_in0, 1);
        cb_wait_front(cb_in1, 1);
        cb_reserve_back(cb_out0, 1);

        tile_regs_acquire();
        copy_tile_to_dst_init_short_with_dt(cb_in1, cb_in0);
        copy_tile(cb_in0, 0, lhs_reg);
        copy_tile_to_dst_init_short_with_dt(cb_in0, cb_in1);
        copy_tile(cb_in1, 0, rhs_reg);
        div_binary_tile(lhs_reg, rhs_reg, dst_reg);
        tile_regs_commit();
        tile_regs_wait();

        pack_tile(dst_reg, cb_out0);
        tile_regs_release();

        cb_pop_front(cb_in0, 1);
        cb_pop_front(cb_in1, 1);
        cb_push_back(cb_out0, 1);
    }
}
"#;

pub const BINARY_COMPUTE: &'static str = r#"#include "api/compute/common.h"
#include "api/compute/eltwise_binary.h"
#include "api/compute/compute_kernel_api.h"

void kernel_main() {
    uint32_t num_tiles = get_arg_val<uint32_t>(0);

    constexpr auto cb_in0 = tt::CBIndex::c_0;
    constexpr auto cb_in1 = tt::CBIndex::c_1;
    constexpr auto cb_out0 = tt::CBIndex::c_16;
    constexpr uint32_t dst_reg = 0;

    binary_op_init_common(cb_in0, cb_in1, cb_out0);
    $0(cb_in0, cb_in1);

    for (uint32_t i = 0; i < num_tiles; i++) {
        tile_regs_acquire();
        cb_wait_front(cb_in0, 1);
        cb_wait_front(cb_in1, 1);
        $1(cb_in0, cb_in1, 0, 0, dst_reg);
        tile_regs_commit();
        tile_regs_wait();

        cb_pop_front(cb_in0, 1);
        cb_pop_front(cb_in1, 1);

        cb_reserve_back(cb_out0, 1);
        pack_tile(dst_reg, cb_out0);
        cb_push_back(cb_out0, 1);

        tile_regs_release();
    }
}
"#;

pub const UNARY_HEADER: &'static str = r#"#include "api/compute/eltwise_unary/$0.h"
"#;

pub const UNARY_COMPUTE: &'static str = r#"#include "api/compute/common.h"
#include "api/compute/tile_move_copy.h"
#include "api/compute/eltwise_unary/eltwise_unary.h"
$0#include "api/compute/compute_kernel_api.h"

void kernel_main() {
    uint32_t num_tiles = get_arg_val<uint32_t>(0);

    constexpr auto cb_in0 = tt::CBIndex::c_0;
    constexpr auto cb_out0 = tt::CBIndex::c_16;
    constexpr uint32_t dst_reg = 0;

    init_sfpu(cb_in0, cb_out0);
    copy_tile_init(cb_in0);
    $1();

    for (uint32_t i = 0; i < num_tiles; i++) {
        cb_wait_front(cb_in0, 1);
        tile_regs_acquire();
        copy_tile(cb_in0, 0, dst_reg);
        $2(dst_reg);
        tile_regs_commit();
        tile_regs_wait();

        cb_reserve_back(cb_out0, 1);
        pack_tile(dst_reg, cb_out0);
        cb_pop_front(cb_in0, 1);
        tile_regs_release();
        cb_push_back(cb_out0, 1);
    }
}
"#;

pub const NOOP_COMPUTE: &'static str = "void kernel_main() {}\n";

/// The tile writer: for each tile, wait for every output, write it, and free its
/// place once all writes are done.
pub open spec fn tile_writer(num_outputs: nat) -> Seq<char> {
    if num_outputs == 0 {
        dataflow::PROLOGUE@ + dataflow::IDLE@
    } else {
        dataflow::PROLOGUE@ + text::numbered(TARGET_ADDRESS@, 0, num_outputs)
            + dataflow::with_number(NUM_TILES@, num_outputs) + dataflow::output_buffers(num_outputs)
            + "\n"@ + dataflow::accessors("c"@, "dst"@, num_outputs) + TILE_LOOP@ + text::numbered(
            WRITE_TILE@,
            0,
            num_outputs,
        ) + WRITE_BARRIER@ + text::numbered(POP@, 0, num_outputs) + "    }\n}\n"@
    }
}

/// Generate the C++ source of the writer that moves whole tiles.
///
/// Runtime arguments: the address of each output, then the number of tiles. Each
/// output buffer needs two compile-time arguments: its configuration flags and its
/// aligned page size.
pub fn generate_writer_source(num_outputs: u32) -> (source: String)
    requires
        num_outputs <= u32::MAX - dataflow::FIRST_OUTPUT_BUFFER,
    ensures
        source@ == tile_writer(num_outputs as nat),
{
    let mut source = dataflow::PROLOGUE.to_owned();
    if num_outputs == 0 {
        source.append(dataflow::IDLE);
        return source;
    }
    source.append(text::numbered_text(TARGET_ADDRESS, 0, num_outputs).as_str());
    source.append(dataflow::with_number_text(NUM_TILES, num_outputs).as_str());
    source.append(dataflow::output_buffers_text(num_outputs).as_str());
    source.append("\n");
    source.append(dataflow::accessors_text("c", "dst", num_outputs).as_str());
    source.append(TILE_LOOP);
    source.append(text::numbered_text(WRITE_TILE, 0, num_outputs).as_str());
    source.append(WRITE_BARRIER);
    source.append(text::numbered_text(POP, 0, num_outputs).as_str());
    source.append("    }\n}\n");
    source
}

/// Generate the source of a single kernel that copies DRAM to DRAM through a
/// circular buffer, with no compute kernel and no separate reader and writer.
pub fn generate_dram_loopback_source() -> (source: String)
    ensures
        source@ == DRAM_LOOPBACK@,
{
    DRAM_LOOPBACK.to_owned()
}

/// Generate the source of the compute kernel that copies tiles.
pub fn generate_copy_compute_source() -> (source: String)
    ensures
        source@ == COPY_COMPUTE@,
{
    COPY_COMPUTE.to_owned()
}

/// The tile functions that set up and carry out a binary operation; division has
/// a kernel of its own.
pub open spec fn binary_functions(op: TtBinaryComputeOp) -> Option<(Seq<char>, Seq<char>)> {
    match op {
        TtBinaryComputeOp::Add => Some(("add_tiles_init"@, "add_tiles"@)),
        TtBinaryComputeOp::Sub => Some(("sub_tiles_init"@, "sub_tiles"@)),
        TtBinaryComputeOp::Mul => Some(("mul_tiles_init"@, "mul_tiles"@)),
        TtBinaryComputeOp::Div => None,
    }
}

fn binary_compute_init_and_op(op: TtBinaryComputeOp) -> (functions: Option<
    (&'static str, &'static str),
>)
    ensures
        match functions {
            Some((init, apply)) => binary_functions(op) == Some((init@, apply@)),
            None => binary_functions(op) is None,
        },
{
    match op {
        TtBinaryComputeOp::Add => Some(("add_tiles_init", "add_tiles")),
        TtBinaryComputeOp::Sub => Some(("sub_tiles_init", "sub_tiles")),
        TtBinaryComputeOp::Mul => Some(("mul_tiles_init", "mul_tiles")),
        TtBinaryComputeOp::Div => None,
    }
}

/// The compute kernel of a binary operation.
pub open spec fn binary_compute(op: TtBinaryComputeOp) -> Seq<char> {
    match binary_functions(op) {
        Some((init, apply)) => text::fill(BINARY_COMPUTE@, seq![init, apply]),
        None => DIV_COMPUTE@,
    }
}

/// Generate the source of the compute kernel of an element-wise binary operation.
pub fn generate_binary_compute_source(op: TtBinaryComputeOp) -> (source: String)
    ensures
        source@ == binary_compute(op),
{
    match binary_compute_init_and_op(op) {
        Some((init, apply)) => text::fill2(BINARY_COMPUTE, init, apply),
        None => DIV_COMPUTE.to_owned(),
    }
}

/// Generate the source of the compute kernel of an element-wise addition.
pub fn generate_add_compute_source() -> (source: String)
    ensures
        source@ == text::fill(BINARY_COMPUTE@, seq!["add_tiles_init"@, "add_tiles"@]),
{
    generate_binary_compute_source(TtBinaryComputeOp::Add)
}

/// The header that a unary operation needs beside the common ones, and the tile
/// functions that set it up and carry it out.
pub open spec fn unary_functions(op: TtUnaryComputeOp) -> (Option<Seq<char>>, Seq<char>, Seq<char>) {
    match op {
        TtUnaryComputeOp::Abs => (None, "abs_tile_init"@, "abs_tile"@),
        TtUnaryComputeOp::Sqrt => (Some("sqrt"@), "sqrt_tile_init"@, "sqrt_tile"@),
        TtUnaryComputeOp::Rsqrt => (Some("rsqrt"@), "rsqrt_tile_init"@, "rsqrt_tile"@),
        TtUnaryComputeOp::Sin => (Some("trigonometry"@), "sin_tile_init"@, "sin_tile"@),
        TtUnaryComputeOp::Cos => (Some("trigonometry"@), "cos_tile_init"@, "cos_tile"@),
        TtUnaryComputeOp::Tan => (Some("trigonometry"@), "tan_tile_init"@, "tan_tile"@),
        TtUnaryComputeOp::Tanh => (Some("trigonometry"@), "tanh_tile_init"@, "tanh_tile"@),
        TtUnaryComputeOp::Exp => (Some("exp"@), "exp_tile_init"@, "exp_tile"@),
        TtUnaryComputeOp::Log => (None, "log_tile_init"@, "log_tile"@),
    }
}

fn unary_compute_spec(op: TtUnaryComputeOp) -> (functions: (
    Option<&'static str>,
    &'static str,
    &'static str,
))
    ensures
        (match functions.0 {
            Some(header) => unary_functions(op).0 == Some(header@),
            None => unary_functions(op).0 is None,
        }),
        functions.1@ == unary_functions(op).1,
        functions.2@ == unary_functions(op).2,
{
    match op {
        TtUnaryComputeOp::Abs => (None, "abs_tile_init", "abs_tile"),
        TtUnaryComputeOp::Sqrt => (Some("sqrt"), "sqrt_tile_init", "sqrt_tile"),
        TtUnaryComputeOp::Rsqrt => (Some("rsqrt"), "rsqrt_tile_init", "rsqrt_tile"),
        TtUnaryComputeOp::Sin => (Some("trigonometry"), "sin_tile_init", "sin_tile"),
        TtUnaryComputeOp::Cos => (Some("trigonometry"), "cos_tile_init", "cos_tile"),
        TtUnaryComputeOp::Tan => (Some("trigonometry"), "tan_tile_init", "tan_tile"),
        TtUnaryComputeOp::Tanh => (Some("trigonometry"), "tanh_tile_init", "tanh_tile"),
        TtUnaryComputeOp::Exp => (Some("exp"), "exp_tile_init", "exp_tile"),
        TtUnaryComputeOp::Log => (None, "log_tile_init", "log_tile"),
    }
}

/// The compute kernel of a unary operation.
pub open spec fn unary_compute(op: TtUnaryComputeOp) -> Seq<char> {
    let (header, init, apply) = unary_functions(op);
    let line = match header {
        Some(header) => text::fill(UNARY_HEADER@, seq![header]),
        None => ""@,
    };
    text::fill(UNARY_COMPUTE@, seq![line, init, apply])
}

/// Generate the source of the compute kernel of an element-wise unary operation.
pub fn generate_unary_compute_source(op: TtUnaryComputeOp) -> (source: String)
    ensures
        source@ == unary_compute(op),
{
    let (header, init, apply) = unary_compute_spec(op);
    let line = match header {
        Some(header) => text::fill1(UNARY_HEADER, header),
        None => "".to_owned(),
    };
    text::fill3(UNARY_COMPUTE, line.as_str(), init, apply)
}

/// Generate the source of a compute kernel that does nothing.
pub fn generate_noop_compute_source() -> (source: String)
    ensures
        source@ == NOOP_COMPUTE@,
{
    NOOP_COMPUTE.to_owned()
}

} // verus!

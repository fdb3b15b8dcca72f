use tt_metal::dialect::{shared_memory_declaration, CubeBuiltin, TtExtension, TtMetalDialect};
use tt_metal::ir::{
    AtomicKind, BarrierCopy, BarrierLevel, BarrierOp, Binary, Comparison, CubeIndexFlags, Elem,
    Instruction, Item, Op, PlainOp, SharedMemory, Unary, Variable, VariableKind, WarpInstruction,
};
use tt_metal::scalar_writer::{
    count_tile_units, emit_builtin_locals, scalar_writer_vectorized_definitions,
};
use tt_metal::warp::{
    analyze_tt_warp_lowering, render_tt_barrier_op, tt_render_warp_instruction,
    TtWarpLoweringState,
};

fn item(elem: Elem, vectorization: usize) -> Item {
    Item {
        elem,
        vectorization,
    }
}

fn variable(kind: VariableKind, name: &str) -> Variable {
    Variable {
        kind,
        item: item(Elem::F32, 1),
        name: name.to_string(),
        left: format!("const float {name}"),
    }
}

fn local(name: &str) -> Variable {
    variable(VariableKind::Other, name)
}

fn instruction(op: Op, text: &str) -> Instruction {
    Instruction {
        op,
        text: text.to_string(),
        debug: text.to_string(),
    }
}

fn loaded(name: &str) -> Instruction {
    instruction(
        Op::Index {
            list: variable(VariableKind::GlobalInputArray, "buffer_0"),
            out: local(name),
        },
        "load;",
    )
}

fn warp(warp: WarpInstruction) -> Instruction {
    instruction(Op::Warp(warp), "fallback;")
}

#[test]
fn elements_have_their_names() {
    let names = vec![
        (Elem::F16, "uint16_t"),
        (Elem::F16x2, "uint32_t"),
        (Elem::F32, "float"),
        (Elem::F64, "double"),
        (Elem::BF16, "bfloat16"),
        (Elem::BF16x2, "bfloat16"),
        (Elem::TF32, "float"),
        (Elem::I8, "int8_t"),
        (Elem::I16, "int16_t"),
        (Elem::I32, "int32_t"),
        (Elem::I64, "int64_t"),
        (Elem::U8, "uint8_t"),
        (Elem::U16, "uint16_t"),
        (Elem::U32, "uint32_t"),
        (Elem::U64, "uint64_t"),
        (Elem::Bool, "bool"),
        (Elem::Atomic(AtomicKind::F32), "float"),
        (
            Elem::Other {
                size: 3,
                name: "e2m3",
            },
            "uint32_t",
        ),
    ];
    for (elem, name) in names {
        assert_eq!(TtMetalDialect::compile_elem(elem), name);
        assert_eq!(TtMetalDialect::compile_item(item(elem, 1)), name);
        assert_eq!(
            TtMetalDialect::compile_item(item(elem, 4)),
            format!("{name}4")
        );
    }
}

#[test]
fn builtins_have_their_names() {
    let names = vec![
        (CubeBuiltin::AbsolutePos, "absolute_pos"),
        (CubeBuiltin::AbsolutePosX, "i"),
        (CubeBuiltin::AbsolutePosY, "0"),
        (CubeBuiltin::CubeCountZ, "cube_count_z"),
        (CubeBuiltin::CubeDim, "cube_dim"),
        (CubeBuiltin::CubePosY, "cube_pos_y"),
        (CubeBuiltin::UnitPos, "unit_pos"),
        (CubeBuiltin::UnitPosX, "unit_pos_x"),
        (CubeBuiltin::PlaneDim, "32"),
        (CubeBuiltin::PlanePos, "0"),
        (CubeBuiltin::UnitPosPlane, "i % 32"),
        (CubeBuiltin::ClusterPosX, "0"),
    ];
    for (builtin, name) in names {
        assert_eq!(TtMetalDialect::compile_builtin(builtin), name);
    }
    assert_eq!(
        TtMetalDialect::compile_unit_pos_computation(),
        "uint32_t unit_pos = unit_idx;\n"
    );
}

#[test]
fn the_frame_of_a_kernel() {
    assert_eq!(
        TtMetalDialect::compile_kernel_signature(),
        "void kernel_main()\n"
    );
    assert!(TtMetalDialect::compile_includes().contains("#include <limits>\n"));
    assert_eq!(
        TtMetalDialect::compile_extensions(&vec![TtExtension::NoExtension]),
        ""
    );
    assert_eq!(
        TtMetalDialect::compile_unreachable(),
        "__builtin_unreachable();"
    );
    assert_eq!(TtMetalDialect::compile_instruction_max_function_name(), "max");
    assert_eq!(TtMetalDialect::compile_instruction_min_function_name(), "min");
    assert_eq!(TtMetalDialect::compile_warp_shuffle("x"), "x");
    assert_eq!(TtMetalDialect::compile_warp_vote("x"), "x");
    assert_eq!(TtMetalDialect::compile_warp_ballot(), "0");
}

#[test]
fn shared_memory_is_declared_with_its_size() {
    let array = SharedMemory::Array {
        index: 2,
        item: item(Elem::F32, 1),
        length: 10,
        align: 0,
    };
    assert_eq!(
        TtMetalDialect::compile_shared_memory_declaration(&array),
        "// TT shared scratch array size: 10, 40 bytes\nalignas(1) float shared_memory_2[10];\n"
    );
    let value = SharedMemory::Value {
        index: 1,
        item: item(Elem::U8, 4),
        align: 16,
    };
    assert_eq!(
        shared_memory_declaration(&value, "  "),
        "  // TT shared scratch value size: 4 bytes\n  alignas(16) uint8_t4 shared_memory_1;\n"
    );
}

#[test]
fn atomics_are_plain_loads_and_stores() {
    let input = local("a");
    let out = local("b");
    assert_eq!(
        TtMetalDialect::compile_atomic_load(&input, &out),
        "const float b = *a;\n"
    );
    assert_eq!(
        TtMetalDialect::compile_atomic_store(&input, &out),
        "*b = a;\n"
    );
    assert_eq!(
        TtMetalDialect::compile_atomic_update(&input, &out, "const float t = b + c;\n", "t"),
        "const float b = *a;\nconst float t = b + c;\n*a = t;\n"
    );
}

#[test]
fn saturating_arithmetic_is_spelled_out() {
    assert_eq!(
        TtMetalDialect::compile_saturating_add("a", "b", item(Elem::U8, 1)),
        "((a) > (std::numeric_limits<uint8_t>::max() - (b)) ? std::numeric_limits<uint8_t>::max() : (a) + (b))"
    );
    assert!(
        TtMetalDialect::compile_saturating_add("a", "b", item(Elem::I16, 1))
            .contains("std::numeric_limits<int16_t>::min()")
    );
    assert_eq!(
        TtMetalDialect::compile_saturating_add("a", "b", item(Elem::F32, 1)),
        "(a) + (b)"
    );
    assert_eq!(
        TtMetalDialect::compile_saturating_sub("a", "b", item(Elem::U32, 1)),
        "((a) < (b) ? uint32_t(0) : (a) - (b))"
    );
    assert!(
        TtMetalDialect::compile_saturating_sub("a", "b", item(Elem::I64, 1))
            .contains("std::numeric_limits<int64_t>::max() + (b)")
    );
    assert_eq!(
        TtMetalDialect::compile_saturating_sub("a", "b", item(Elem::F32, 1)),
        "(a) - (b)"
    );
}

#[test]
fn bits_are_counted_by_width() {
    assert_eq!(
        TtMetalDialect::compile_instruction_popcount_scalar("a", Elem::U64, Elem::U32),
        "uint32_t(__builtin_popcountll(uint64_t(a)))"
    );
    assert_eq!(
        TtMetalDialect::compile_instruction_popcount_scalar("a", Elem::I16, Elem::U32),
        "uint32_t(__builtin_popcount(uint32_t(a)))"
    );
    assert!(
        TtMetalDialect::compile_instruction_reverse_bits_scalar("a", Elem::U64)
            .contains("v = (v >> 32) | (v << 32); return uint64_t(v);")
    );
    assert!(
        TtMetalDialect::compile_instruction_reverse_bits_scalar("a", Elem::U8)
            .contains("return uint8_t(v >> 24);")
    );
    assert!(
        TtMetalDialect::compile_instruction_reverse_bits_scalar("a", Elem::I16)
            .contains("return int16_t(v >> 16);")
    );
    assert!(
        TtMetalDialect::compile_instruction_reverse_bits_scalar("a", Elem::U32)
            .contains("return uint32_t(v >> 0);")
    );
    assert_eq!(
        TtMetalDialect::compile_instruction_find_first_set("a", Elem::I64, Elem::U32),
        "uint32_t(__builtin_ffsll(uint64_t(a)))"
    );
    assert_eq!(
        TtMetalDialect::compile_instruction_find_first_set("a", Elem::U8, Elem::U32),
        "uint32_t(__builtin_ffs(uint32_t(a)))"
    );
    let zeros = vec![
        (Elem::U64, "64", "__builtin_clzll(uint64_t(a))"),
        (Elem::I32, "32", "__builtin_clz(uint32_t(a))"),
        (Elem::U16, "16", "__builtin_clz(uint32_t(a)) - 16"),
        (Elem::I8, "8", "__builtin_clz(uint32_t(a)) - 24"),
    ];
    for (elem, width, count) in zeros {
        assert_eq!(
            TtMetalDialect::compile_instruction_leading_zeros_scalar("a", elem, Elem::U32),
            format!("((a) == 0 ? uint32_t({width}) : uint32_t({count}))")
        );
    }
    let zeros = vec![
        (Elem::U64, "64", "__builtin_ctzll(uint64_t(a))"),
        (Elem::I32, "32", "__builtin_ctz(uint32_t(a))"),
        (Elem::U16, "16", "__builtin_ctz(uint32_t(a))"),
        (Elem::I8, "8", "__builtin_ctz(uint32_t(a))"),
    ];
    for (elem, width, count) in zeros {
        assert_eq!(
            TtMetalDialect::compile_instruction_trailing_zeros_scalar("a", elem, Elem::U32),
            format!("((a) == 0 ? uint32_t({width}) : uint32_t({count}))")
        );
    }
}

#[test]
fn vector_types_are_defined_once() {
    let definitions = scalar_writer_vectorized_definitions(&vec![
        item(Elem::F32, 2),
        item(Elem::F32, 1),
        item(Elem::F32, 2),
        item(Elem::U8, 4),
    ]);
    assert_eq!(
        definitions.matches("\nstruct alignas(8) float2 {\n    float i_0;\n    float i_1;\n};").count(),
        1
    );
    assert_eq!(definitions.matches("struct").count(), 2);
    assert!(definitions.contains("struct alignas(4) uint8_t4 {"));
}

fn flags() -> CubeIndexFlags {
    CubeIndexFlags {
        absolute_pos: false,
        cube_count: false,
        cube_dim: false,
        cube_pos: false,
        cube_pos_tuple: false,
        plane_dim: false,
        plane_dim_checked: false,
        plane_pos: false,
        unit_pos: false,
        unit_pos_tuple: false,
        unit_pos_plane: false,
    }
}

#[test]
fn only_the_used_positions_are_computed() {
    assert_eq!(emit_builtin_locals(&flags()), "");
    let unit = emit_builtin_locals(&CubeIndexFlags {
        unit_pos: true,
        ..flags()
    });
    assert!(unit.contains("uint32_t unit_pos = cube_units == 0 ? 0 : (unit_idx % cube_units);"));
    assert!(!unit.contains("cube_pos_x"));
    let cube = emit_builtin_locals(&CubeIndexFlags {
        cube_pos: true,
        ..flags()
    });
    assert!(cube.contains("flat_cube_pos / (cube_count_x * cube_count_y)"));
    assert!(cube.contains("uint32_t cube_pos = cube_pos_x;"));
    let plane = emit_builtin_locals(&CubeIndexFlags {
        plane_dim_checked: true,
        ..flags()
    });
    assert!(plane.contains("uint32_t unit_pos_plane = unit_pos % 32;"));
    assert!(plane.contains("uint32_t plane_dim_checked = "));
}

#[test]
fn a_tile_holds_at_least_one_unit() {
    assert_eq!(count_tile_units(4096, 4), 1024);
    assert_eq!(count_tile_units(2048, 3), 682);
    assert_eq!(count_tile_units(2048, 4096), 1);
}

#[test]
fn barriers_are_left_out_and_copies_become_loops() {
    assert_eq!(
        render_tt_barrier_op(&BarrierOp::Declare {
            level: BarrierLevel::Unit
        }),
        "// TT unit barrier declare elided in generic writer\n"
    );
    assert!(render_tt_barrier_op(&BarrierOp::ArriveAndWait {
        level: BarrierLevel::Cube
    })
    .contains("serializes unit execution"));
    let copy = BarrierOp::MemCopyAsync(BarrierCopy {
        source: "src".to_string(),
        destination: "dst".to_string(),
        source_length: "len".to_string(),
        offset_source: "3".to_string(),
        offset_out: "5".to_string(),
        cooperative: false,
    });
    let text = render_tt_barrier_op(&copy);
    assert!(text.contains("tt_barrier_copy_i < len"));
    assert!(text.contains("dst[5 + tt_barrier_copy_i] = src[3 + tt_barrier_copy_i];"));
}

fn lowered(instructions: Vec<Instruction>) -> Vec<String> {
    analyze_tt_warp_lowering(&instructions).1
}

#[test]
fn planes_are_reduced_over_snapshots() {
    let list = lowered(vec![
        loaded("x"),
        warp(WarpInstruction::ReduceSum {
            input: local("x"),
            out: local("r"),
        }),
    ]);
    assert_eq!(list[0], "load;");
    assert!(list[1].contains(
        "float acc = tt_plane_snapshot_buffer_0[tt_plane_base]; for (uint32_t tt_lane = 1; tt_lane < plane_dim_checked; ++tt_lane) { acc += tt_plane_snapshot_buffer_0[tt_plane_base + tt_lane]; } return acc;"
    ));
    let list = lowered(vec![
        loaded("x"),
        warp(WarpInstruction::ReduceMax {
            input: local("x"),
            out: local("r"),
        }),
        warp(WarpInstruction::ExclusiveProd {
            input: local("x"),
            out: local("p"),
        }),
    ]);
    assert!(list[1].contains("acc = max(acc, tt_plane_snapshot_buffer_0[tt_plane_base + tt_lane]);"));
    assert!(list[2].contains("float acc = 1;"));
    assert!(list[2].contains("if (tt_lane < unit_pos_plane) acc *= "));
}

#[test]
fn planes_vote_on_comparisons() {
    let compare = instruction(
        Op::Compare(
            Comparison::Lower,
            Binary {
                lhs: local("x"),
                rhs: variable(VariableKind::Constant, "float(5)"),
                out: local("c"),
            },
        ),
        "compare;",
    );
    let list = lowered(vec![
        loaded("x"),
        compare,
        warp(WarpInstruction::All {
            input: local("c"),
            out: local("r"),
        }),
        warp(WarpInstruction::Ballot {
            input: local("c"),
            out: local("b"),
        }),
        warp(WarpInstruction::Elect { out: local("e") }),
    ]);
    assert!(list[2].contains(
        "tt_all = tt_all && ((tt_plane_snapshot_buffer_0[tt_plane_base + tt_lane]) < (float(5)));"
    ));
    assert!(list[3].contains("if (((tt_plane_snapshot_buffer_0[tt_lane]) < (float(5))))"));
    assert_eq!(list[4], "const float e = (unit_pos_plane == 0);\n");
}

#[test]
fn assigned_positions_are_known_for_every_lane() {
    let assign = instruction(
        Op::Assign(Unary {
            input: variable(VariableKind::UnitPosPlane, "unit_pos_plane"),
            out: local("p"),
        }),
        "assign;",
    );
    let list = lowered(vec![
        assign,
        warp(WarpInstruction::Any {
            input: local("p"),
            out: local("r"),
        }),
    ]);
    assert!(list[1].contains("tt_any = tt_any || ((tt_plane_base + tt_lane) - tt_plane_base);"));
}

#[test]
fn unknown_inputs_keep_the_text_of_the_instruction() {
    let list = lowered(vec![warp(WarpInstruction::ReduceSum {
        input: local("unknown"),
        out: local("r"),
    })]);
    assert_eq!(list, vec!["fallback;".to_string()]);
    let state = TtWarpLoweringState::new();
    assert!(tt_render_warp_instruction(
        &WarpInstruction::Any {
            input: local("unknown"),
            out: local("r"),
        },
        &state
    )
    .is_none());
}

#[test]
fn snapshots_are_taken_only_for_planes() {
    let (state, list) = analyze_tt_warp_lowering(&vec![
        loaded("x"),
        instruction(Op::Plain(PlainOp::Return), "return;"),
    ]);
    assert!(state.snapshots.is_empty());
    assert_eq!(list.len(), 2);
    let (state, _) = analyze_tt_warp_lowering(&vec![
        loaded("x"),
        loaded("y"),
        warp(WarpInstruction::Elect { out: local("e") }),
    ]);
    assert_eq!(state.snapshots.len(), 1);
    assert_eq!(
        state.snapshots[0].snapshot_name,
        "tt_plane_snapshot_buffer_0"
    );
}

#[test]
fn buffers_have_one_snapshot() {
    let (state, list) = analyze_tt_warp_lowering(&vec![
        loaded("x"),
        loaded("y"),
        warp(WarpInstruction::ReduceSum {
            input: local("y"),
            out: local("r"),
        }),
    ]);
    assert_eq!(state.snapshots.len(), 1);
    assert_eq!(state.snapshots[0].buffer_name, "buffer_0");
    assert_eq!(state.snapshots[0].snapshot_name, "tt_plane_snapshot_buffer_0");
    assert!(list[2].contains("tt_plane_snapshot_buffer_0[tt_plane_base]"));
}

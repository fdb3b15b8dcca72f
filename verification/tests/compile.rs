use tt_metal::compile::{
    analyze_kernel, compile_to_tt_sources, infer_data_format_and_tile_size,
    runtime_sources_from_repr_with_page_size_and_staging, sources_from_repr,
    uses_atomic_writer_output,
};
use tt_metal::error::CompileError;
use tt_metal::ir::{
    AtomicKind, AtomicUpdate, BarrierCopy, BarrierLevel, BarrierOp, Binary, Body, Comparison,
    ComputeKernel, CubeDim, CubeIndexFlags, Elem, Info, Instruction, Item, KernelArg, MathOp, Op,
    PlainOp, SharedMemory, SwitchCase, Variable, VariableKind, Visibility,
};
use tt_metal::kernel::TtIoDataLayout;
use tt_metal::kind::{detect_supported_compute_kind, SupportedComputeKind};

fn item(elem: Elem) -> Item {
    Item {
        elem,
        vectorization: 1,
    }
}

fn instruction(op: Op, text: &str) -> Instruction {
    Instruction {
        op,
        text: text.to_string(),
        debug: text.to_string(),
    }
}

fn no_indexes() -> CubeIndexFlags {
    CubeIndexFlags {
        absolute_pos: false,
        cube_count: false,
        cube_dim: false,
        cube_pos: false,
        cube_pos_tuple: false,
        plane_dim: false,
        plane_dim_checked: false,
        plane_pos: false,
        unit_pos: false,
        unit_pos_tuple: false,
        unit_pos_plane: false,
    }
}

fn kernel(buffers: Vec<(Item, Visibility)>, instructions: Vec<Instruction>) -> ComputeKernel {
    let buffers = buffers
        .into_iter()
        .enumerate()
        .map(|(id, (item, vis))| KernelArg {
            id: id as u32,
            item,
            vis,
        })
        .collect();
    ComputeKernel {
        buffers,
        num_tensor_maps: 0,
        scalars: vec![],
        cube_dim: CubeDim { x: 1, y: 1, z: 1 },
        cluster_dim: None,
        body: Body {
            instructions,
            shared_memories: vec![],
            num_pipelines: 0,
            const_arrays: vec![],
            local_arrays: vec![],
            info_static_len: 0,
            has_dynamic_meta: false,
            address_type: item(Elem::U32),
        },
        info: Info {
            scalar_offsets: vec![],
            sized_meta_offset: None,
            dynamic_meta_offset: 0,
            definition: String::new(),
        },
        items: vec![],
        indexes: no_indexes(),
    }
}

fn variable(kind: VariableKind, elem: Elem, name: &str) -> Variable {
    Variable {
        kind,
        item: item(elem),
        name: name.to_string(),
        left: name.to_string(),
    }
}

fn compare(kind: VariableKind) -> Instruction {
    instruction(
        Op::Compare(
            Comparison::Lower,
            Binary {
                lhs: variable(kind, Elem::U32, "pos"),
                rhs: variable(VariableKind::Other, Elem::U32, "len"),
                out: variable(VariableKind::Other, Elem::Bool, "cond"),
            },
        ),
        "const bool cond = pos < len;",
    )
}

fn guarded(instructions: Vec<Instruction>) -> Instruction {
    instruction(
        Op::If {
            cond: variable(VariableKind::Other, Elem::Bool, "cond"),
            instructions,
        },
        "if (cond) {}",
    )
}

fn math(op: MathOp, elem: Elem) -> Instruction {
    instruction(Op::Math(op, item(elem)), "const float r = a;")
}

fn plain(op: PlainOp) -> Instruction {
    instruction(Op::Plain(op), "plain;")
}

fn read(elem: Elem) -> (Item, Visibility) {
    (item(elem), Visibility::Read)
}

fn read_write(elem: Elem) -> (Item, Visibility) {
    (item(elem), Visibility::ReadWrite)
}

fn bounds_checked_f32_kernel() -> ComputeKernel {
    let mut kernel = kernel(
        vec![read(Elem::F32), read_write(Elem::F32)],
        vec![
            instruction(
                Op::Plain(PlainOp::Metadata),
                "const uint32_t l_0 = info.static_meta[0];",
            ),
            compare(VariableKind::UnitPos),
            guarded(vec![
                instruction(
                    Op::Index {
                        list: variable(VariableKind::GlobalInputArray, Elem::F32, "buffer_0"),
                        out: variable(VariableKind::Other, Elem::F32, "l_2"),
                    },
                    "const float l_2 = buffer_0[unit_pos];",
                ),
                math(MathOp::Mul, Elem::F32),
                plain(PlainOp::IndexAssign),
            ]),
        ],
    );
    kernel.cube_dim = CubeDim { x: 6, y: 1, z: 1 };
    kernel.body.info_static_len = 4;
    kernel.info.sized_meta_offset = Some(0);
    kernel.indexes.unit_pos = true;
    kernel
}

#[test]
fn phase1_sources_accept_bounds_checked_f32_kernel() {
    let kernel = bounds_checked_f32_kernel();
    let sources = compile_to_tt_sources(&kernel, 1, 4096)
        .expect("f32 generic kernel should compile to TT sources");

    assert_eq!(sources.num_inputs, 1);
    assert_eq!(sources.num_outputs, 1);
    assert_eq!(sources.tile_size_bytes, 4096);
    assert_eq!(sources.info_static_len, 4);
    assert!(sources
        .writer_source
        .contains("for (uint32_t tile_idx = 0; tile_idx < num_tiles; ++tile_idx)"));
    assert!(sources
        .writer_source
        .contains("uint32_t unit_idx = global_tile_idx * tile_units + i;"));
    assert!(sources.writer_source.contains("runtime_info_bytes"));
    assert!(sources
        .writer_source
        .contains("__builtin_memcpy(info.static_meta"));
    assert!(sources.writer_source.contains("using std::min;"));
    assert!(sources.writer_source.contains("buffer_0"));
    assert!(sources.writer_source.contains("buffer_1"));
}

#[test]
fn phase1_sources_accept_global_reinterpret_kernel() {
    let packed = Item {
        elem: Elem::I8,
        vectorization: 2,
    };
    let mut kernel = kernel(
        vec![(packed, Visibility::Read), read_write(Elem::F16)],
        vec![
            compare(VariableKind::UnitPos),
            plain(PlainOp::IndexAssign),
            instruction(
                Op::Plain(PlainOp::Bitcast),
                "__builtin_memcpy(&cubecl_bitcast_out, &cubecl_bitcast_in, sizeof(float16));",
            ),
        ],
    );
    kernel.items = vec![packed];
    let sources = compile_to_tt_sources(&kernel, 1, 2048)
        .expect("global reinterpret kernel should compile to TT sources");

    assert_eq!(sources.num_inputs, 1);
    assert_eq!(sources.num_outputs, 1);
    assert_eq!(sources.tile_size_bytes, 2048);
    assert!(sources.writer_source.contains("reinterpret_cast<const"));
    assert!(sources
        .writer_source
        .contains("__builtin_memcpy(&cubecl_bitcast_out"));
    assert!(sources.writer_source.contains("buffer_0"));
    assert!(sources.writer_source.contains("buffer_1"));
}

#[test]
fn phase1_sources_accept_range_loop_kernel_via_generic_writer() {
    let kernel = kernel(
        vec![read_write(Elem::BF16)],
        vec![instruction(
            Op::RangeLoop {
                instructions: vec![],
            },
            "for (uint32_t l_mut_0 = uint32_t(0); l_mut_0 < uint32_t(1); ++l_mut_0) {}",
        )],
    );
    let sources = compile_to_tt_sources(&kernel, 1, 2048)
        .expect("range-loop kernels should now compile through the generic TT writer path");

    assert_eq!(sources.num_inputs, 0);
    assert_eq!(sources.num_outputs, 1);
    assert_eq!(sources.tile_size_bytes, 2048);
    assert!(sources
        .writer_source
        .contains("for (uint32_t l_mut_0 = uint32_t(0);"));
    assert!(sources
        .writer_source
        .contains("if (unit_idx >= num_units) break;"));
}

#[test]
fn phase1_sources_accept_unused_shared_memory_kernel_via_generic_writer() {
    let mut kernel = kernel(vec![read_write(Elem::BF16)], vec![]);
    kernel.body.shared_memories = vec![SharedMemory::Array {
        index: 0,
        item: item(Elem::U32),
        length: 1,
        align: 4,
    }];
    let sources = compile_to_tt_sources(&kernel, 1, 2048)
        .expect("unused shared allocations currently compile through the generic TT writer");

    assert_eq!(sources.num_inputs, 0);
    assert_eq!(sources.num_outputs, 1);
    assert_eq!(sources.tile_size_bytes, 2048);
    assert!(sources
        .writer_source
        .contains("uint32_t unit_idx = global_tile_idx * tile_units + i;"));
}

fn binary_sources_contain(op: MathOp, label: &str) {
    let kernel = kernel(
        vec![read(Elem::BF16), read(Elem::BF16), read_write(Elem::BF16)],
        vec![math(op, Elem::BF16)],
    );
    let sources = compile_to_tt_sources(&kernel, 2, 2048).expect("compile_to_tt_sources");
    assert!(sources.compute_source.contains(label));
    assert_eq!(sources.num_tiles, 2);
    assert_eq!(sources.data_format_tt, 5);
    assert!(sources.requires_tiled_io());
    assert!(!sources.supports_core_partitioning);
    assert_eq!(sources.input_binding_indices, vec![0, 1]);
    assert_eq!(sources.output_binding_indices, vec![2]);
    assert_eq!(sources.buffer_item_sizes, vec![2, 2, 2]);
}

fn unary_sources_contain(op: MathOp, label: &str) {
    let kernel = kernel(
        vec![read(Elem::BF16), read_write(Elem::BF16)],
        vec![math(op, Elem::BF16)],
    );
    let sources = compile_to_tt_sources(&kernel, 2, 2048).expect("compile_to_tt_sources");
    assert!(sources.compute_source.contains(label));
    assert!(sources.requires_tiled_io());
}

#[test]
fn copy_compiles_to_tiles() {
    let kernel = kernel(vec![read(Elem::BF16), read_write(Elem::BF16)], vec![]);
    let sources = compile_to_tt_sources(&kernel, 2, 2048).expect("compile_to_tt_sources");
    assert!(sources.compute_source.contains("copy_tile"));
    assert_eq!(sources.num_tiles, 2);
}

#[test]
fn add_compiles_to_tiles() {
    binary_sources_contain(MathOp::Add, "add_tiles");
}

#[test]
fn sub_compiles_to_tiles() {
    binary_sources_contain(MathOp::Sub, "sub_tiles");
}

#[test]
fn mul_compiles_to_tiles() {
    binary_sources_contain(MathOp::Mul, "mul_tiles");
}

#[test]
fn sqrt_compiles_to_tiles() {
    unary_sources_contain(MathOp::Sqrt, "sqrt_tile");
}

#[test]
fn every_native_operation_has_its_tile_operation() {
    let ops = vec![
        (MathOp::Add, SupportedComputeKind::Add),
        (MathOp::Sub, SupportedComputeKind::Sub),
        (MathOp::Mul, SupportedComputeKind::Mul),
        (MathOp::Div, SupportedComputeKind::Div),
        (MathOp::FastDiv, SupportedComputeKind::Div),
        (MathOp::Abs, SupportedComputeKind::Abs),
        (MathOp::Sqrt, SupportedComputeKind::Sqrt),
        (MathOp::FastSqrt, SupportedComputeKind::Sqrt),
        (MathOp::InverseSqrt, SupportedComputeKind::Rsqrt),
        (MathOp::FastInverseSqrt, SupportedComputeKind::Rsqrt),
        (MathOp::Sin, SupportedComputeKind::Sin),
        (MathOp::FastSin, SupportedComputeKind::Sin),
        (MathOp::Cos, SupportedComputeKind::Cos),
        (MathOp::FastCos, SupportedComputeKind::Cos),
        (MathOp::Tan, SupportedComputeKind::Tan),
        (MathOp::Tanh, SupportedComputeKind::Tanh),
        (MathOp::FastTanh, SupportedComputeKind::Tanh),
        (MathOp::Exp, SupportedComputeKind::Exp),
        (MathOp::FastExp, SupportedComputeKind::Exp),
        (MathOp::Log, SupportedComputeKind::Log),
        (MathOp::FastLog, SupportedComputeKind::Log),
    ];
    for (op, kind) in ops {
        assert_eq!(
            detect_supported_compute_kind(&vec![math(op, Elem::F32)]).unwrap(),
            kind
        );
        assert_eq!(
            detect_supported_compute_kind(&vec![math(op, Elem::BF16), plain(PlainOp::Return)])
                .unwrap(),
            kind
        );
        assert_eq!(
            detect_supported_compute_kind(&vec![math(op, Elem::F16)]).unwrap(),
            SupportedComputeKind::Generic
        );
    }
    unary_sources_contain(MathOp::Abs, "abs_tile");
    unary_sources_contain(MathOp::InverseSqrt, "rsqrt_tile");
    unary_sources_contain(MathOp::Sin, "sin_tile");
    unary_sources_contain(MathOp::Cos, "cos_tile");
    unary_sources_contain(MathOp::Tan, "tan_tile");
    unary_sources_contain(MathOp::Tanh, "tanh_tile");
    unary_sources_contain(MathOp::Exp, "exp_tile");
    unary_sources_contain(MathOp::Log, "log_tile");
    binary_sources_contain(MathOp::Div, "div_binary_tile");
}

#[test]
fn two_different_operations_need_the_scalar_path() {
    let one = || math(MathOp::Add, Elem::F32);
    let two = || math(MathOp::Mul, Elem::F32);
    assert_eq!(
        detect_supported_compute_kind(&vec![one(), one()]).unwrap(),
        SupportedComputeKind::Add
    );
    assert_eq!(
        detect_supported_compute_kind(&vec![one(), two()]).unwrap(),
        SupportedComputeKind::Generic
    );
    assert_eq!(
        detect_supported_compute_kind(&vec![two(), one()]).unwrap(),
        SupportedComputeKind::Generic
    );
}

#[test]
fn a_bounds_check_of_the_absolute_position_is_looked_through() {
    let body = || guarded(vec![math(MathOp::Exp, Elem::F32)]);
    assert_eq!(
        detect_supported_compute_kind(&vec![compare(VariableKind::AbsolutePos), body()]).unwrap(),
        SupportedComputeKind::Exp
    );
    assert_eq!(
        detect_supported_compute_kind(&vec![compare(VariableKind::UnitPos), body()]).unwrap(),
        SupportedComputeKind::Generic
    );
    assert_eq!(
        detect_supported_compute_kind(&vec![compare(VariableKind::AbsolutePos)]).unwrap(),
        SupportedComputeKind::Generic
    );
}

#[test]
fn nested_instructions_are_refused_where_they_cannot_be_lowered() {
    let refused = || vec![plain(PlainOp::Neg)];
    let in_switch = instruction(
        Op::Switch {
            instructions_default: vec![],
            instructions_cases: vec![SwitchCase {
                instructions: refused(),
            }],
        },
        "switch",
    );
    let in_loop = instruction(
        Op::Loop {
            instructions: refused(),
        },
        "loop",
    );
    let in_range = instruction(
        Op::RangeLoop {
            instructions: refused(),
        },
        "range",
    );
    for outer in vec![in_switch, in_loop, in_range, guarded(refused())] {
        let error = detect_supported_compute_kind(&vec![outer]).unwrap_err();
        assert_eq!(
            error.reason(),
            "TT-Metal Phase 1 does not support instruction: plain;"
        );
    }
    // The branches of a two-way choice are not looked into.
    let in_choice = instruction(
        Op::IfElse {
            instructions_if: refused(),
            instructions_else: vec![],
        },
        "if else",
    );
    assert_eq!(
        detect_supported_compute_kind(&vec![in_choice]).unwrap(),
        SupportedComputeKind::Generic
    );
}

fn barrier(op: BarrierOp) -> Instruction {
    instruction(Op::Barrier(op), "barrier")
}

fn copy(cooperative: bool) -> BarrierOp {
    BarrierOp::MemCopyAsync(BarrierCopy {
        source: "s".to_string(),
        destination: "d".to_string(),
        source_length: "n".to_string(),
        offset_source: "0".to_string(),
        offset_out: "0".to_string(),
        cooperative,
    })
}

#[test]
fn only_the_proven_barriers_are_accepted() {
    let accepted = vec![
        BarrierOp::Declare {
            level: BarrierLevel::Unit,
        },
        BarrierOp::Init {
            level: BarrierLevel::Cube,
        },
        BarrierOp::ArriveAndWait {
            level: BarrierLevel::Cube,
        },
        copy(false),
    ];
    for op in accepted {
        assert_eq!(
            detect_supported_compute_kind(&vec![barrier(op)]).unwrap(),
            SupportedComputeKind::Generic
        );
    }
    for op in vec![copy(true), BarrierOp::Other] {
        let error = detect_supported_compute_kind(&vec![barrier(op)]).unwrap_err();
        assert!(matches!(error, CompileError::Barrier));
        assert!(error.reason().contains("memcpy_async subset"));
    }
}

fn atomic(kind: AtomicKind) -> Item {
    item(Elem::Atomic(kind))
}

#[test]
fn only_the_proven_atomics_are_accepted() {
    let load = |kind| instruction(Op::AtomicLoad(atomic(kind)), "load");
    assert_eq!(
        detect_supported_compute_kind(&vec![load(AtomicKind::U32)]).unwrap(),
        SupportedComputeKind::Generic
    );
    let error = detect_supported_compute_kind(&vec![load(AtomicKind::I32)]).unwrap_err();
    assert!(matches!(error, CompileError::Atomic));

    let add = |atomic_kind, plain: Elem| {
        instruction(
            Op::AtomicAdd(AtomicUpdate {
                lhs: atomic(atomic_kind),
                rhs: item(plain),
                out: item(plain),
            }),
            "add",
        )
    };
    for (kind, elem) in vec![
        (AtomicKind::I32, Elem::I32),
        (AtomicKind::U32, Elem::U32),
        (AtomicKind::F32, Elem::F32),
    ] {
        assert_eq!(
            detect_supported_compute_kind(&vec![add(kind, elem)]).unwrap(),
            SupportedComputeKind::Generic
        );
    }
    for (kind, elem) in vec![
        (AtomicKind::U64, Elem::U64),
        (AtomicKind::F16, Elem::F16),
        (AtomicKind::I32, Elem::U32),
    ] {
        assert!(matches!(
            detect_supported_compute_kind(&vec![add(kind, elem)]).unwrap_err(),
            CompileError::Atomic
        ));
    }
}

#[test]
fn atomic_writes_are_found_in_nested_instructions() {
    let max = || {
        instruction(
            Op::AtomicMax(AtomicUpdate {
                lhs: atomic(AtomicKind::U32),
                rhs: item(Elem::U32),
                out: item(Elem::U32),
            }),
            "max",
        )
    };
    let add = instruction(
        Op::AtomicAdd(AtomicUpdate {
            lhs: atomic(AtomicKind::U32),
            rhs: item(Elem::U32),
            out: item(Elem::U32),
        }),
        "add",
    );
    assert!(uses_atomic_writer_output(&vec![max()]));
    assert!(uses_atomic_writer_output(&vec![guarded(vec![max()])]));
    assert!(uses_atomic_writer_output(&vec![instruction(
        Op::IfElse {
            instructions_if: vec![],
            instructions_else: vec![max()],
        },
        "if else",
    )]));
    assert!(uses_atomic_writer_output(&vec![add]));
    assert!(!uses_atomic_writer_output(&vec![]));
}

#[test]
fn atomic_inputs_are_written_back() {
    let mut kernel = kernel(
        vec![
            (atomic(AtomicKind::U32), Visibility::Read),
            read_write(Elem::U32),
        ],
        vec![instruction(
            Op::AtomicStore(atomic(AtomicKind::U32)),
            "store;",
        )],
    );
    let analysis = analyze_kernel(&kernel, 1).expect("single unit");
    assert_eq!(analysis.input_binding_indices, Vec::<usize>::new());
    assert_eq!(analysis.output_binding_indices, vec![0, 1]);
    assert_eq!(analysis.num_outputs, 2);
    assert_eq!(analysis.kind, SupportedComputeKind::Generic);

    kernel.cube_dim = CubeDim { x: 2, y: 1, z: 1 };
    assert!(matches!(
        analyze_kernel(&kernel, 1).unwrap_err(),
        CompileError::AtomicCubeDim
    ));
}

#[test]
fn atomic_additions_are_written_back() {
    let mut kernel = kernel(
        vec![(atomic(AtomicKind::U32), Visibility::Read)],
        vec![instruction(
            Op::AtomicAdd(AtomicUpdate {
                lhs: atomic(AtomicKind::U32),
                rhs: item(Elem::U32),
                out: item(Elem::U32),
            }),
            "add;",
        )],
    );
    let analysis = analyze_kernel(&kernel, 1).expect("single unit");
    assert_eq!(analysis.output_binding_indices, vec![0]);
    assert_eq!(analysis.kind, SupportedComputeKind::Generic);

    kernel.cube_dim = CubeDim { x: 2, y: 1, z: 1 };
    assert!(matches!(
        analyze_kernel(&kernel, 1).unwrap_err(),
        CompileError::AtomicCubeDim
    ));
}

#[test]
fn every_element_has_its_format_and_tile_size() {
    let expected = vec![
        (Elem::BF16, 5, 2048),
        (Elem::F16, 1, 2048),
        (Elem::F32, 0, 4096),
        (Elem::I8, 30, 1024),
        (Elem::U8, 30, 1024),
        (Elem::Bool, 30, 1024),
        (Elem::I16, 9, 2048),
        (Elem::U16, 9, 2048),
        (Elem::I32, 8, 2048),
        (Elem::U32, 24, 2048),
    ];
    for (elem, format, size) in expected {
        assert_eq!(
            infer_data_format_and_tile_size(elem).unwrap(),
            (format, size)
        );
    }
    let error = infer_data_format_and_tile_size(Elem::F64).unwrap_err();
    assert_eq!(
        error.reason(),
        "TT-Metal Phase 1 cannot infer a tile data format for f64"
    );
}

fn refused(change: fn(&mut ComputeKernel)) -> CompileError {
    let mut kernel = kernel(vec![read(Elem::F32), read_write(Elem::F32)], vec![]);
    change(&mut kernel);
    sources_from_repr(&kernel, 1).expect_err("the kernel should be refused")
}

#[test]
fn kernels_are_refused_with_their_reasons() {
    assert_eq!(
        refused(|kernel| kernel.num_tensor_maps = 1).reason(),
        "TT-Metal Phase 1 does not support tensor maps"
    );
    assert_eq!(
        refused(|kernel| kernel.body.num_pipelines = 1).reason(),
        "TT-Metal Phase 1 does not support pipeline operations"
    );
    assert_eq!(
        refused(|kernel| kernel.cube_dim.z = 2).reason(),
        "TT-Metal Phase 1 currently only supports z=1 cube dimensions"
    );
    assert_eq!(
        refused(|kernel| kernel.cluster_dim = Some(CubeDim { x: 2, y: 1, z: 1 })).reason(),
        "TT-Metal Phase 1 does not support distributed or clustered execution"
    );
    assert_eq!(
        refused(|kernel| kernel.buffers[1].vis = Visibility::Read).reason(),
        "TT-Metal backend currently requires at least one writable output buffer"
    );
    assert_eq!(
        refused(|kernel| kernel.buffers[0].item = item(Elem::F64)).reason(),
        "TT-Metal Phase 1 supports BF16/F16/F32, reinterpret-friendly integer buffer elements, and the proven Atomic<u32> load/store buffer shape only, found f64"
    );
    assert_eq!(
        refused(|kernel| {
            kernel.cube_dim.x = 2;
            kernel.body.instructions = vec![barrier(BarrierOp::Other)];
        })
        .reason(),
        "TT-Metal shared-memory/barrier bring-up currently only supports unit-local barriers and the proven cube-shared memcpy_async subset"
    );
}

#[test]
fn a_cluster_of_one_is_no_cluster() {
    let mut kernel = kernel(vec![read(Elem::F32), read_write(Elem::F32)], vec![]);
    kernel.cluster_dim = Some(CubeDim { x: 1, y: 1, z: 1 });
    assert!(sources_from_repr(&kernel, 1).is_ok());
}

#[test]
fn a_tile_size_that_does_not_fit_the_element_is_refused() {
    let kernel = kernel(vec![read(Elem::F32), read_write(Elem::F32)], vec![]);
    let error = compile_to_tt_sources(&kernel, 1, 2048).unwrap_err();
    assert_eq!(
        error.reason(),
        "TT-Metal tile size mismatch: caller requested 2048 bytes, but kernel element type requires 4096 bytes"
    );
}

#[test]
fn operations_on_other_buffers_take_the_scalar_path() {
    // Two inputs of a unary operation, and a copy without an input.
    let unary = kernel(
        vec![read(Elem::F32), read(Elem::F32), read_write(Elem::F32)],
        vec![math(MathOp::Sqrt, Elem::F32)],
    );
    let copy = kernel(vec![read_write(Elem::F32)], vec![]);
    for kernel in vec![unary, copy] {
        let sources = sources_from_repr(&kernel, 3).unwrap();
        assert_eq!(sources.io_layout, TtIoDataLayout::Logical);
        assert!(sources.supports_core_partitioning);
        assert_eq!(sources.num_tiles, 1);
    }
}

#[test]
fn the_scalar_path_counts_its_tiles_by_units() {
    let mut kernel = bounds_checked_f32_kernel();
    kernel.cube_dim = CubeDim { x: 1024, y: 2, z: 1 };
    assert_eq!(sources_from_repr(&kernel, 7).unwrap().num_tiles, 2);
    kernel.cube_dim = CubeDim { x: 1025, y: 2, z: 1 };
    assert_eq!(sources_from_repr(&kernel, 7).unwrap().num_tiles, 3);
    let paged =
        runtime_sources_from_repr_with_page_size_and_staging(&kernel, 7, Some(2048), false)
            .unwrap();
    assert_eq!(paged.tile_size_bytes, 2048);
    assert_eq!(paged.num_tiles, 5);
    assert!(paged
        .writer_source
        .contains("constexpr uint32_t tile_units = 512;"));
}

#[test]
fn the_tile_path_keeps_the_requested_tiles() {
    let kernel = kernel(vec![read(Elem::F32), read_write(Elem::F32)], vec![]);
    assert_eq!(sources_from_repr(&kernel, 7).unwrap().num_tiles, 7);
    assert_eq!(sources_from_repr(&kernel, 0).unwrap().num_tiles, 1);
}

#[test]
fn scalar_writers_find_their_arguments_behind_the_addresses() {
    let source = sources_from_repr(&bounds_checked_f32_kernel(), 1)
        .unwrap()
        .writer_source;
    assert!(source.contains("uint32_t num_tiles = get_arg_val<uint32_t>(1);"));
    assert!(source.contains("uint32_t start_tile = get_arg_val<uint32_t>(2);"));
    assert!(source.contains("uint32_t num_units = get_arg_val<uint32_t>(3);"));
    assert!(source.contains("uint32_t cube_count_x = get_arg_val<uint32_t>(4);"));
    assert!(source.contains("constexpr uint32_t info_arg_offset_words = 7;"));
    assert!(source.contains("constexpr uint32_t cube_dim_x = 6;"));
}

#[test]
fn kernels_have_sizes_that_can_be_counted() {
    assert!(bounds_checked_f32_kernel().is_well_formed());

    let mut cube = bounds_checked_f32_kernel();
    cube.cube_dim = CubeDim {
        x: 65536,
        y: 65536,
        z: 1,
    };
    assert!(!cube.is_well_formed());
    cube.cube_dim = CubeDim {
        x: 65536,
        y: 256,
        z: 256,
    };
    assert!(!cube.is_well_formed());
    cube.cube_dim = CubeDim {
        x: 65535,
        y: 65537,
        z: 1,
    };
    assert!(cube.is_well_formed());

    let mut empty = bounds_checked_f32_kernel();
    empty.buffers[0].item.vectorization = 0;
    empty.items = vec![empty.buffers[0].item];
    assert!(empty.is_well_formed());
    assert_eq!(
        analyze_kernel(&empty, 1).unwrap().buffer_item_sizes,
        vec![0, 4]
    );
    empty.buffers[0].item.vectorization = 2;
    empty.buffers[1].item.vectorization = 0;
    assert!(!empty.is_well_formed());

    let mut shared = bounds_checked_f32_kernel();
    shared.body.shared_memories = vec![SharedMemory::Array {
        index: 0,
        item: item(Elem::F32),
        length: usize::MAX / 4,
        align: 4,
    }];
    assert!(shared.is_well_formed());
    shared.body.shared_memories = vec![SharedMemory::Array {
        index: 0,
        item: item(Elem::F32),
        length: usize::MAX / 4 + 1,
        align: 4,
    }];
    assert!(!shared.is_well_formed());

    let mut wide = bounds_checked_f32_kernel();
    wide.items = vec![Item {
        elem: Elem::F64,
        vectorization: usize::MAX / 4,
    }];
    assert!(!wide.is_well_formed());
}

#[test]
fn refused_elements_are_named() {
    let small = Elem::Other {
        size: 1,
        name: "e5m2",
    };
    let kernel = kernel(vec![read(small), read_write(Elem::F32)], vec![]);
    assert_eq!(
        sources_from_repr(&kernel, 1).unwrap_err().reason(),
        "TT-Metal Phase 1 supports BF16/F16/F32, reinterpret-friendly integer buffer elements, and the proven Atomic<u32> load/store buffer shape only, found e5m2"
    );
    assert_eq!(
        infer_data_format_and_tile_size(small).unwrap_err().reason(),
        "TT-Metal Phase 1 cannot infer a tile data format for e5m2"
    );
}

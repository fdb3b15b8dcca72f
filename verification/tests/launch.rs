use tt_metal::compile::sources_from_repr;
use tt_metal::context::{TaskError, TtContext};
use tt_metal::ir::{
    Binary, Body, Comparison, ComputeKernel, CubeDim, CubeIndexFlags, Elem, Info, Instruction,
    Item, KernelArg, MathOp, Op, PlainOp, Variable, VariableKind, Visibility,
};
use tt_metal::kernel::TtKernelSources;
use tt_metal::launch::{info_words, prepare_launch, CubeCount, LaunchError, PreparedLaunch};
use tt_metal::program::{
    compile_kernel, data_format_to_tt, enumerate_core_range_row_wise, needs_grid,
    partitioned_tt_cores, split_cores_row_wise, CoreRange, DataFormat, LogicalCore,
    ProgramError,
};
use tt_metal::storage::{TtBufferLayout, TtResource};

fn item(elem: Elem) -> Item {
    Item {
        elem,
        vectorization: 1,
    }
}

fn instruction(op: Op, text: &str) -> Instruction {
    Instruction {
        op,
        text: text.to_string(),
        debug: text.to_string(),
    }
}

fn no_indexes() -> CubeIndexFlags {
    CubeIndexFlags {
        absolute_pos: false,
        cube_count: false,
        cube_dim: false,
        cube_pos: false,
        cube_pos_tuple: false,
        plane_dim: false,
        plane_dim_checked: false,
        plane_pos: false,
        unit_pos: false,
        unit_pos_tuple: false,
        unit_pos_plane: false,
    }
}

fn kernel(buffers: Vec<(Item, Visibility)>, instructions: Vec<Instruction>) -> ComputeKernel {
    let buffers = buffers
        .into_iter()
        .enumerate()
        .map(|(id, (item, vis))| KernelArg {
            id: id as u32,
            item,
            vis,
        })
        .collect();
    ComputeKernel {
        buffers,
        num_tensor_maps: 0,
        scalars: vec![],
        cube_dim: CubeDim { x: 1, y: 1, z: 1 },
        cluster_dim: None,
        body: Body {
            instructions,
            shared_memories: vec![],
            num_pipelines: 0,
            const_arrays: vec![],
            local_arrays: vec![],
            info_static_len: 0,
            has_dynamic_meta: false,
            address_type: item(Elem::U32),
        },
        info: Info {
            scalar_offsets: vec![],
            sized_meta_offset: None,
            dynamic_meta_offset: 0,
            definition: String::new(),
        },
        items: vec![],
        indexes: no_indexes(),
    }
}

fn variable(kind: VariableKind, elem: Elem, name: &str) -> Variable {
    Variable {
        kind,
        item: item(elem),
        name: name.to_string(),
        left: name.to_string(),
    }
}

fn checked() -> Instruction {
    instruction(
        Op::Compare(
            Comparison::Lower,
            Binary {
                lhs: variable(VariableKind::UnitPos, Elem::U32, "unit_pos"),
                rhs: variable(VariableKind::Other, Elem::U32, "len"),
                out: variable(VariableKind::Other, Elem::Bool, "cond"),
            },
        ),
        "const bool cond = unit_pos < len;",
    )
}

fn math(op: MathOp) -> Instruction {
    instruction(Op::Math(op, item(Elem::F32)), "const float r = a + b;")
}

fn f32_buffers(visibilities: Vec<Visibility>) -> Vec<(Item, Visibility)> {
    visibilities
        .into_iter()
        .map(|visibility| (item(Elem::F32), visibility))
        .collect()
}

fn make_test_resource(
    address: u32,
    logical_size: u64,
    allocation_size: u64,
    compile_args: Vec<u32>,
) -> TtResource {
    TtResource {
        storage_id: 0,
        owner_stream: 0,
        address,
        size: logical_size,
        allocation_size,
        allocation_offset: 0,
        compile_args,
        layout: TtBufferLayout::Replicated,
    }
}

fn interleaved_binding_kernel() -> ComputeKernel {
    let mut kernel = kernel(
        f32_buffers(vec![
            Visibility::Read,
            Visibility::ReadWrite,
            Visibility::Read,
        ]),
        vec![
            checked(),
            instruction(
                Op::Index {
                    list: variable(VariableKind::GlobalInputArray, Elem::F32, "buffer_0"),
                    out: variable(VariableKind::Other, Elem::F32, "l_0"),
                },
                "const float l_0 = buffer_0[unit_pos];",
            ),
            math(MathOp::Add),
            instruction(Op::Plain(PlainOp::IndexAssign), "buffer_1[unit_pos] = l_2;"),
        ],
    );
    kernel.cube_dim = CubeDim { x: 4, y: 1, z: 1 };
    kernel
}

fn bounds_checked_f32_kernel() -> ComputeKernel {
    let mut kernel = kernel(
        f32_buffers(vec![Visibility::Read, Visibility::ReadWrite]),
        vec![checked(), math(MathOp::Mul)],
    );
    kernel.cube_dim = CubeDim { x: 6, y: 1, z: 1 };
    kernel.body.info_static_len = 4;
    kernel
}

fn copy_kernel() -> ComputeKernel {
    kernel(
        f32_buffers(vec![Visibility::Read, Visibility::ReadWrite]),
        vec![],
    )
}

#[test]
fn tt_data_format_mapping_regressions() {
    assert_eq!(data_format_to_tt(0).unwrap(), DataFormat::Float32);
    assert_eq!(data_format_to_tt(1).unwrap(), DataFormat::Float16);
    assert_eq!(data_format_to_tt(5).unwrap(), DataFormat::Float16B);
    assert_eq!(data_format_to_tt(8).unwrap(), DataFormat::Int32);
    assert_eq!(data_format_to_tt(9).unwrap(), DataFormat::UInt16);
    assert_eq!(data_format_to_tt(24).unwrap(), DataFormat::UInt32);
    assert_eq!(data_format_to_tt(30).unwrap(), DataFormat::UInt8);

    let err = data_format_to_tt(99).expect_err("unknown data format should fail");
    assert!(err.reason().contains("unsupported TT data format code"));
}

#[test]
fn prepare_launch_preserves_declared_binding_order() {
    let repr = interleaved_binding_kernel();
    let sources = sources_from_repr(&repr, 1).expect("TT sources should build");
    let resources = vec![
        make_test_resource(0x10, 16, 2048, vec![10, 11]),
        make_test_resource(0x20, 16, 2048, vec![20, 21]),
        make_test_resource(0x30, 16, 2048, vec![30, 31]),
    ];

    let prepared = prepare_launch(
        &repr,
        sources,
        &resources,
        &vec![],
        CubeCount::Static(1, 1, 1),
    )
    .expect("launch should prepare");

    assert_eq!(prepared.input_addrs, vec![0x10, 0x30]);
    assert_eq!(prepared.output_addrs, vec![0x20]);
    assert_eq!(
        prepared.sources.reader_compile_args,
        vec![10, 4096, 30, 4096]
    );
    assert_eq!(prepared.sources.writer_compile_args, vec![20, 4096]);
    assert_eq!(prepared.bindings[1].allocation_size_bytes, 2048);
}

#[test]
fn prepare_launch_uses_logical_sizes_for_static_metadata() {
    let repr = bounds_checked_f32_kernel();
    let sources = sources_from_repr(&repr, 1).expect("TT sources should build");
    let resources = vec![
        make_test_resource(0x100, 24, 4096, vec![2, 4096]),
        make_test_resource(0x200, 24, 4096, vec![2, 4096]),
    ];

    let prepared = prepare_launch(
        &repr,
        sources,
        &resources,
        &vec![],
        CubeCount::Static(1, 1, 1),
    )
    .expect("launch should prepare");

    assert_eq!(prepared.sources.compute_runtime_args, vec![6, 6, 6, 6]);
    assert_eq!(prepared.bindings[0].logical_size_bytes, 24);
    assert_eq!(prepared.bindings[0].allocation_size_bytes, 4096);
    assert_eq!(
        prepared.sources.writer_runtime_args,
        vec![6, 1, 1, 1, 6, 6, 6, 6]
    );
}

#[test]
fn compile_kernel_rejects_missing_reader_compile_args() {
    let context = TtContext::new();
    let err = context
        .compile_kernel(
            &TtKernelSources::copy_kernel(1, 2048),
            &vec![0x10],
            &vec![0x20],
            false,
            8,
            8,
        )
        .expect_err("missing reader compile args should fail before TT kernel build");

    assert!(err.reason().contains("reader compile args missing"));
}

#[test]
fn compile_kernel_rejects_missing_writer_compile_args() {
    let sources = TtKernelSources::copy_kernel(1, 2048).with_compile_args(vec![2, 2048], vec![]);
    let err = compile_kernel(&sources, &vec![0x10], &vec![0x20], false, 8, 8).unwrap_err();
    assert_eq!(
        err.reason(),
        "writer compile args missing for TT-Metal output buffers"
    );
}

#[test]
fn compile_kernel_rejects_unknown_formats() {
    let sources = TtKernelSources::copy_kernel_with_format(1, 2048, 99, 2)
        .with_compile_args(vec![2, 2048], vec![2, 2048]);
    let err = compile_kernel(&sources, &vec![0x10], &vec![0x20], false, 8, 8).unwrap_err();
    assert_eq!(err.reason(), "unsupported TT data format code: 99");
}

fn launched(info: &Vec<u64>, count: CubeCount) -> PreparedLaunch {
    let repr = interleaved_binding_kernel();
    let sources = sources_from_repr(&repr, 1).unwrap();
    let resources = vec![
        make_test_resource(0x10, 16, 2048, vec![10, 11]),
        make_test_resource(0x20, 20, 2048, vec![20, 21]),
        make_test_resource(0x30, 16, 2048, vec![30]),
    ];
    prepare_launch(&repr, sources, &resources, info, count).unwrap()
}

#[test]
fn info_words_follow_the_units_and_the_cube_count() {
    let prepared = launched(
        &vec![0x0000_0002_0000_0001, 0x0000_0004_0000_0003],
        CubeCount::Static(2, 3, 1),
    );
    let words = &prepared.sources.writer_runtime_args;
    assert_eq!(words.len(), 8);
    assert_eq!(words[..4], [24, 2, 3, 1]);
    let mut halves = words[4..6].to_vec();
    halves.sort();
    assert_eq!(halves, vec![1, 2]);
    let mut halves = words[6..8].to_vec();
    halves.sort();
    assert_eq!(halves, vec![3, 4]);
    assert_eq!(
        prepared.sources.compute_runtime_args,
        Vec::<u32>::new()
    );
    // The page size of a binding without one is not made up.
    assert_eq!(prepared.sources.reader_compile_args, vec![10, 4096, 30]);
}

#[test]
fn a_dynamic_count_is_taken_from_the_largest_output() {
    let prepared = launched(&vec![], CubeCount::Dynamic);
    assert_eq!(prepared.sources.writer_runtime_args, vec![5, 0, 0, 0]);
    assert_eq!(prepared.sources.num_tiles, 1);
    let prepared = launched(&vec![], CubeCount::Static(1000, 1, 1));
    assert_eq!(prepared.sources.writer_runtime_args, vec![4000, 1000, 1, 1]);
    assert_eq!(prepared.sources.num_tiles, 4);
    let prepared = launched(&vec![], CubeCount::Static(0, 1, 1));
    assert_eq!(prepared.sources.writer_runtime_args, vec![1, 0, 1, 1]);
}

#[test]
fn tiled_launches_count_their_tiles_by_elements() {
    let repr = copy_kernel();
    for (size, tiles) in vec![(4, 1), (4096, 1), (4097, 2), (12288, 3)] {
        let sources = sources_from_repr(&repr, 1).unwrap();
        let resources = vec![
            make_test_resource(0x10, size, 16384, vec![10, 11]),
            make_test_resource(0x20, size, 16384, vec![20, 21]),
        ];
        let prepared =
            prepare_launch(&repr, sources, &resources, &vec![], CubeCount::Dynamic).unwrap();
        assert_eq!(prepared.sources.num_tiles, tiles);
        assert_eq!(prepared.sources.reader_compile_args, vec![10, 11]);
        assert_eq!(
            prepared.sources.writer_runtime_args,
            Vec::<u32>::new()
        );
    }
}

fn refusal(
    repr: &ComputeKernel,
    change: fn(TtKernelSources) -> TtKernelSources,
    sizes: &[u64],
) -> LaunchError {
    let sources = change(sources_from_repr(repr, 1).unwrap());
    let resources = sizes
        .iter()
        .map(|size| make_test_resource(0x10, *size, 4096, vec![2, 4096]))
        .collect();
    prepare_launch(
        repr,
        sources,
        &resources,
        &vec![],
        CubeCount::Static(1, 1, 1),
    )
    .expect_err("the launch should be refused")
}

#[test]
fn launches_are_refused_with_their_reasons() {
    let scalar = bounds_checked_f32_kernel();
    let tiled = copy_kernel();
    assert_eq!(
        refusal(&scalar, |sources| sources, &[24]).reason(),
        "resource/buffer arity mismatch: 1 runtime resources for 2 compiled buffers"
    );
    assert_eq!(
        refusal(
            &scalar,
            |sources| sources.with_binding_indices(vec![5], vec![1]),
            &[24, 24]
        )
        .reason(),
        "reader binding index 5 out of range for 2 runtime bindings"
    );
    assert_eq!(
        refusal(
            &scalar,
            |sources| sources.with_binding_indices(vec![0], vec![7]),
            &[24, 24]
        )
        .reason(),
        "writer binding index 7 out of range for 2 runtime bindings"
    );
    assert_eq!(
        refusal(
            &scalar,
            |sources| sources.with_binding_indices(vec![0, 0], vec![1]),
            &[24, 24]
        )
        .reason(),
        "reader source expects 1 inputs but runtime provided 2"
    );
    assert_eq!(
        refusal(
            &scalar,
            |sources| sources.with_binding_indices(vec![0], vec![1, 1]),
            &[24, 24]
        )
        .reason(),
        "writer source expects 1 outputs but runtime provided 2"
    );
    assert_eq!(
        refusal(
            &scalar,
            |sources| sources.with_buffer_item_sizes(vec![4]),
            &[24, 24]
        )
        .reason(),
        "static metadata expects 1 buffer item sizes but runtime provided 2 resources"
    );
    assert_eq!(
        refusal(
            &scalar,
            |sources| sources.with_buffer_item_sizes(vec![4, 2]),
            &[24, 24]
        )
        .reason(),
        "buffer item size mismatch at binding 1: compiler expected 2 bytes but runtime binding uses 4 bytes"
    );
    assert_eq!(
        refusal(&tiled, |sources| sources, &[24, 28]).reason(),
        "TT-Metal tiled I/O path currently requires matching logical buffer sizes across bindings; binding 0 uses 24 bytes but binding 1 uses 28 bytes"
    );
    assert_eq!(
        refusal(
            &scalar,
            |sources| sources.with_buffer_item_sizes(vec![]),
            &[24, 24]
        )
        .reason(),
        "cannot derive static metadata for 2 bindings from 0 item sizes"
    );
    assert_eq!(
        refusal(&scalar, |sources| sources.with_info_static_len(6), &[24, 24]).reason(),
        "compute runtime args mismatch: derived 4 static args for info_static_len 6"
    );

    let mut dynamic = interleaved_binding_kernel();
    dynamic.body.has_dynamic_meta = true;
    assert_eq!(
        refusal(&dynamic, |sources| sources, &[24, 24, 24]).reason(),
        "TT-Metal generic kernels require metadata info runtime args for dynamic tensor metadata"
    );
}

#[test]
fn mixed_item_sizes_cannot_be_tiled() {
    let mut repr = copy_kernel();
    let sources = sources_from_repr(&repr, 1)
        .unwrap()
        .with_buffer_item_sizes(vec![]);
    repr.buffers[1].item = item(Elem::BF16);
    let resources = vec![
        make_test_resource(0x10, 24, 4096, vec![2, 4096]),
        make_test_resource(0x20, 24, 4096, vec![2, 4096]),
    ];
    let error = prepare_launch(&repr, sources, &resources, &vec![], CubeCount::Dynamic)
        .unwrap_err();
    assert_eq!(
        error.reason(),
        "TT-Metal tiled I/O path requires a uniform element size across bindings; binding 0 uses 4 bytes but binding 1 uses 2 bytes"
    );
}

#[test]
fn a_tiled_launch_needs_a_binding() {
    let repr = kernel(vec![], vec![]);
    let mut sources = TtKernelSources::copy_kernel(1, 2048);
    sources.num_inputs = 0;
    sources.num_outputs = 0;
    let error =
        prepare_launch(&repr, sources, &vec![], &vec![], CubeCount::Dynamic).unwrap_err();
    assert_eq!(
        error.reason(),
        "TT-Metal tiled I/O path requires at least one runtime binding"
    );
}

fn core_at(x: u32, y: u32) -> LogicalCore {
    LogicalCore { x, y }
}

#[test]
fn cores_are_enumerated_row_by_row() {
    let range = CoreRange {
        start: core_at(1, 2),
        end: core_at(2, 3),
    };
    assert_eq!(
        enumerate_core_range_row_wise(range),
        vec![core_at(1, 2), core_at(2, 2), core_at(1, 3), core_at(2, 3)]
    );
}

#[test]
fn cores_are_split_along_one_row() {
    assert_eq!(split_cores_row_wise(0, 8, 8), vec![]);
    assert_eq!(split_cores_row_wise(3, 0, 8), vec![]);
    assert_eq!(split_cores_row_wise(3, 8, 0), vec![]);
    assert_eq!(
        split_cores_row_wise(3, 8, 8),
        vec![CoreRange {
            start: core_at(0, 0),
            end: core_at(2, 0),
        }]
    );
    assert_eq!(
        split_cores_row_wise(100, 8, 8),
        vec![CoreRange {
            start: core_at(0, 0),
            end: core_at(7, 0),
        }]
    );
}

fn scalar_sources(num_tiles: u32) -> TtKernelSources {
    sources_from_repr(&interleaved_binding_kernel(), 1)
        .unwrap()
        .with_num_tiles(num_tiles)
        .with_compile_args(vec![10, 4096, 30, 4096], vec![20, 4096])
        .with_writer_runtime_args(vec![77])
        .with_compute_runtime_args(vec![88])
}

#[test]
fn only_partitionable_sources_need_the_grid() {
    assert!(needs_grid(&scalar_sources(2), true));
    assert!(!needs_grid(&scalar_sources(2), false));
    assert!(!needs_grid(&scalar_sources(1), true));
    assert!(!needs_grid(&TtKernelSources::copy_kernel(9, 2048), true));
    let cores = partitioned_tt_cores(&scalar_sources(5), true, 4, 2);
    assert_eq!(cores.end, core_at(3, 0));
    let cores = partitioned_tt_cores(&scalar_sources(5), true, 0, 2);
    assert_eq!(cores.end, core_at(0, 0));
}

#[test]
fn tiles_are_shared_out_over_the_cores() {
    let plan = compile_kernel(
        &scalar_sources(7),
        &vec![0x10, 0x30],
        &vec![0x20],
        true,
        3,
        2,
    )
    .unwrap();
    assert_eq!(plan.arguments.len(), 3);
    assert!(plan.full_precision);
    assert_eq!(plan.arguments[0].reader, vec![0x10, 0x30, 3, 0]);
    assert_eq!(plan.arguments[1].reader, vec![0x10, 0x30, 2, 3]);
    assert_eq!(plan.arguments[2].reader, vec![0x10, 0x30, 2, 5]);
    assert_eq!(plan.arguments[1].writer, vec![0x20, 2, 3, 77]);
    assert_eq!(plan.arguments[1].compute, vec![2, 88]);
    assert_eq!(plan.inputs.len(), 2);
    assert_eq!(plan.inputs[1].index, 1);
    assert_eq!(plan.inputs[1].size_bytes, 8192);
    assert_eq!(plan.inputs[1].page_size_bytes, 4096);
    assert_eq!(plan.outputs[0].index, 16);
}

#[test]
fn tiled_writers_are_not_told_the_first_tile() {
    let sources = TtKernelSources::copy_kernel(4, 2048)
        .with_compile_args(vec![2, 2048], vec![2, 2048]);
    let plan = compile_kernel(&sources, &vec![0x10], &vec![0x20], true, 8, 8).unwrap();
    assert_eq!(plan.arguments.len(), 1);
    assert!(!plan.full_precision);
    assert_eq!(plan.arguments[0].reader, vec![0x10, 4, 0]);
    assert_eq!(plan.arguments[0].writer, vec![0x20, 4]);
    assert_eq!(plan.arguments[0].compute, vec![4]);
}

#[test]
fn staged_inputs_get_the_room_they_need() {
    let sources = scalar_sources(1).with_full_input_staging_tiles(5);
    let plan = compile_kernel(&sources, &vec![1, 2], &vec![3], false, 8, 8).unwrap();
    assert_eq!(plan.inputs[0].size_bytes, 5 * 4096);
    assert_eq!(plan.inputs[1].size_bytes, 2 * 4096);
    assert_eq!(plan.outputs[0].size_bytes, 5 * 4096);
}

fn page_resources() -> Vec<TtResource> {
    vec![
        make_test_resource(0x10, 16, 2048, vec![10, 2048]),
        make_test_resource(0x20, 16, 2048, vec![20, 2048]),
        make_test_resource(0x30, 16, 2048, vec![30, 2048]),
    ]
}

#[test]
fn kernels_are_compiled_once_and_launched_on_the_pages_of_their_buffers() {
    let mut context = TtContext::new();
    assert!(!context.is_compiled(5));
    let prepared = context
        .prepare_cube_task_launch(
            5,
            Some(interleaved_binding_kernel()),
            CubeCount::Static(1, 1, 1),
            &page_resources(),
            &vec![],
        )
        .unwrap();
    assert!(context.is_compiled(5));
    assert_eq!(prepared.sources.tile_size_bytes, 2048);
    assert_eq!(prepared.sources.reader_compile_args, vec![10, 2048, 30, 2048]);
    let again = context
        .prepare_cube_task_launch(
            5,
            None,
            CubeCount::Static(1, 1, 1),
            &page_resources(),
            &vec![],
        )
        .unwrap();
    assert_eq!(format!("{again:?}"), format!("{prepared:?}"));
}

#[test]
fn a_kernel_without_representation_is_refused() {
    let mut context = TtContext::new();
    let error = context
        .prepare_cube_task_launch(5, None, CubeCount::Dynamic, &vec![], &vec![])
        .unwrap_err();
    assert!(matches!(error, LaunchError::NoRepresentation));
    assert_eq!(error.reason(), "no IR representation");
    assert!(!context.is_compiled(5));
}

#[test]
fn a_refused_kernel_is_not_kept() {
    let mut context = TtContext::new();
    let mut repr = interleaved_binding_kernel();
    repr.num_tensor_maps = 1;
    let error = context
        .prepare_cube_task_launch(5, Some(repr), CubeCount::Dynamic, &vec![], &vec![])
        .unwrap_err();
    assert_eq!(
        error.reason(),
        "TT-Metal Phase 1 does not support tensor maps"
    );
    assert!(!context.is_compiled(5));
}

#[test]
fn a_cube_task_is_made_a_program_of_one_cube() {
    let mut context = TtContext::new();
    let plan = context
        .compile_cube_task(
            5,
            Some(interleaved_binding_kernel()),
            &page_resources(),
            &vec![],
            8,
            8,
        )
        .unwrap();
    assert_eq!(plan.arguments[0].writer, vec![0x20, 1, 0, 4, 1, 1, 1]);
    let error = context
        .compile_cube_task(5, None, &vec![], &vec![], 8, 8)
        .unwrap_err();
    assert!(matches!(
        error,
        TaskError::Launch(LaunchError::Arity {
            resources: 0,
            buffers: 3
        })
    ));
}

#[test]
fn compile_kernel_takes_as_many_outputs_as_a_byte_can_number() {
    let mut sources = scalar_sources(1);
    sources.num_outputs = 240;
    let plan = compile_kernel(&sources, &vec![1, 2], &vec![3], false, 8, 8).unwrap();
    assert_eq!(plan.outputs.len(), 240);
    assert_eq!(plan.outputs[239].index, 255);
}

#[test]
fn compile_kernel_refuses_before_it_counts() {
    let mut sources = TtKernelSources::copy_kernel(1, u32::MAX);
    sources.num_outputs = 1000;
    let err = compile_kernel(&sources, &vec![0x10], &vec![0x20], false, 8, 8).unwrap_err();
    assert!(matches!(err, ProgramError::ReaderCompileArgs));
}

#[test]
fn launches_are_refused_before_their_tiles_are_counted() {
    let repr = interleaved_binding_kernel();
    let sources = TtKernelSources::copy_kernel(1, 0);
    let error =
        prepare_launch(&repr, sources, &vec![], &vec![], CubeCount::Static(1, 1, 1)).unwrap_err();
    assert!(matches!(
        error,
        LaunchError::Arity {
            resources: 0,
            buffers: 3
        }
    ));
}

#[test]
fn only_the_page_that_is_followed_has_to_be_counted() {
    let mut resources = page_resources();
    resources[1].compile_args[1] = u32::MAX;
    let mut context = TtContext::new();
    let plan = context
        .compile_cube_task(
            5,
            Some(interleaved_binding_kernel()),
            &resources,
            &vec![],
            8,
            8,
        )
        .unwrap();
    assert_eq!(plan.inputs[0].page_size_bytes, 2048);
}

#[test]
fn programs_without_buffers_have_no_staging_to_count() {
    let mut sources = TtKernelSources::copy_kernel(1, 4096);
    sources.num_inputs = 0;
    sources.num_outputs = 0;
    sources.full_input_staging_tiles = u32::MAX;
    let plan = compile_kernel(&sources, &vec![], &vec![], false, 8, 8).unwrap();
    assert_eq!(plan.inputs.len(), 0);
    assert_eq!(plan.outputs.len(), 0);
}

#[test]
fn info_blocks_are_split_as_they_stand_in_memory() {
    let info = vec![0x0000_0001_0000_0002u64, 0x0000_0003_0000_0004];
    let mut expected = Vec::new();
    for word in &info {
        let bytes = word.to_ne_bytes();
        expected.push(u32::from_ne_bytes([bytes[0], bytes[1], bytes[2], bytes[3]]));
        expected.push(u32::from_ne_bytes([bytes[4], bytes[5], bytes[6], bytes[7]]));
    }
    assert_eq!(info_words(&info), expected);
    assert_eq!(info_words(&vec![]), vec![]);
}

use tt_metal::kernel::{TtBinaryComputeOp, TtIoDataLayout, TtKernelSources, TtUnaryComputeOp};
use tt_metal::reader::{generate_reader_source, generate_scalar_reader_source};
use tt_metal::server::sources_to_launch;
use tt_metal::writer::{
    generate_add_compute_source, generate_binary_compute_source, generate_copy_compute_source,
    generate_dram_loopback_source, generate_noop_compute_source, generate_unary_compute_source,
    generate_writer_source,
};

#[test]
fn reader_writer_source_regressions() {
    let reader_zero = generate_reader_source(0);
    assert!(reader_zero.contains("get_arg_val<uint32_t>(0)"));

    let reader_two = generate_reader_source(2);
    assert!(reader_two.contains("TensorAccessorArgs<a0_args.next_compile_time_args_offset()>()"));

    let writer_zero = generate_writer_source(0);
    assert!(writer_zero.contains("get_arg_val<uint32_t>(0)"));

    let writer_two = generate_writer_source(2);
    assert!(writer_two.contains("TensorAccessorArgs<c0_args.next_compile_time_args_offset()>()"));
}

#[test]
fn kernel_sources_bind_compile_args() {
    let sources = TtKernelSources::copy_kernel(2, 2048)
        .with_compile_args(vec![2, 2048, 2, 2048], vec![2, 2048]);
    assert_eq!(sources.reader_compile_args, vec![2, 2048, 2, 2048]);
    assert_eq!(sources.writer_compile_args, vec![2, 2048]);
}

#[test]
fn the_tile_reader_of_one_input() {
    let expected = "#include <cstdint>

void kernel_main() {
    uint32_t src0_addr = get_arg_val<uint32_t>(0);
    uint32_t num_tiles = get_arg_val<uint32_t>(1);
    uint32_t start_tile = get_arg_val<uint32_t>(2);

    constexpr uint32_t cb_in0 = 0;

    constexpr auto a0_args = TensorAccessorArgs<0>();
    const auto a0 = TensorAccessor(a0_args, src0_addr);

    for (uint32_t i = 0; i < num_tiles; i++) {
        uint32_t tile_idx = start_tile + i;
        cb_reserve_back(cb_in0, 1);

        uint32_t l1_addr_in0 = get_write_ptr(cb_in0);
        noc_async_read_tile(tile_idx, a0, l1_addr_in0);
        noc_async_read_barrier();

        cb_push_back(cb_in0, 1);
    }
}
";
    assert_eq!(generate_reader_source(1), expected);
}

#[test]
fn the_page_reader_moves_whole_pages() {
    let source = generate_scalar_reader_source(2, false);
    assert!(source.contains("uint32_t num_tiles = get_arg_val<uint32_t>(2);"));
    assert!(source.contains("uint32_t start_tile = get_arg_val<uint32_t>(3);"));
    assert!(source.contains("uint64_t src_noc_addr_in1 = a1.get_noc_addr(tile_idx);"));
    assert!(source.contains("noc_async_read(src_noc_addr_in1, l1_addr_in1, page_bytes_in1);"));
    assert!(!source.contains("staged_input_tiles"));
    assert_eq!(
        generate_scalar_reader_source(0, true),
        generate_reader_source(0)
    );
}

#[test]
fn the_page_reader_stages_its_first_input() {
    let one = generate_scalar_reader_source(1, true);
    assert!(one.contains("uint32_t staged_input_tiles = get_arg_val<uint32_t>(3);"));
    assert!(one.contains("uint32_t staged_input_page_bytes = get_arg_val<uint32_t>(4);"));
    assert!(one.contains("cb_push_back(cb_in0, staged_input_tiles);"));
    assert!(!one.contains("for (uint32_t i = 0; i < num_tiles; i++)"));

    let two = generate_scalar_reader_source(2, true);
    assert!(two.contains("for (uint32_t i = 0; i < num_tiles; i++)"));
    assert!(two.contains("cb_reserve_back(cb_in1, 1);"));
    assert!(!two.contains("cb_reserve_back(cb_in0, 1);"));
}

#[test]
fn the_tile_writer_of_one_output() {
    let expected = "#include <cstdint>

void kernel_main() {
    uint32_t dst0_addr = get_arg_val<uint32_t>(0);
    uint32_t num_tiles = get_arg_val<uint32_t>(1);

    constexpr uint32_t cb_out0 = 16;

    constexpr auto c0_args = TensorAccessorArgs<0>();
    const auto c0 = TensorAccessor(c0_args, dst0_addr);

    for (uint32_t i = 0; i < num_tiles; i++) {
        cb_wait_front(cb_out0, 1);
        uint32_t l1_addr_out0 = get_read_ptr(cb_out0);
        noc_async_write_tile(i, c0, l1_addr_out0);
        noc_async_write_barrier();
        cb_pop_front(cb_out0, 1);
    }
}
";
    assert_eq!(generate_writer_source(1), expected);
    assert!(generate_writer_source(3).contains("constexpr uint32_t cb_out2 = 18;"));
}

#[test]
fn compute_sources_carry_out_their_operation() {
    assert!(generate_copy_compute_source().contains("copy_tile(cb_in0, 0, dst_reg);"));
    assert_eq!(
        generate_add_compute_source(),
        generate_binary_compute_source(TtBinaryComputeOp::Add)
    );
    let binary = vec![
        (TtBinaryComputeOp::Add, "add_tiles"),
        (TtBinaryComputeOp::Sub, "sub_tiles"),
        (TtBinaryComputeOp::Mul, "mul_tiles"),
    ];
    for (op, name) in binary {
        let source = generate_binary_compute_source(op);
        assert!(source.contains(&format!("    {name}_init(cb_in0, cb_in1);\n")));
        assert!(source.contains(&format!("{name}(cb_in0, cb_in1, 0, 0, dst_reg);")));
    }
    assert!(generate_binary_compute_source(TtBinaryComputeOp::Div)
        .contains("div_binary_tile(lhs_reg, rhs_reg, dst_reg);"));
    let unary = vec![
        (TtUnaryComputeOp::Abs, "abs_tile", None),
        (TtUnaryComputeOp::Sqrt, "sqrt_tile", Some("sqrt")),
        (TtUnaryComputeOp::Rsqrt, "rsqrt_tile", Some("rsqrt")),
        (TtUnaryComputeOp::Sin, "sin_tile", Some("trigonometry")),
        (TtUnaryComputeOp::Cos, "cos_tile", Some("trigonometry")),
        (TtUnaryComputeOp::Tan, "tan_tile", Some("trigonometry")),
        (TtUnaryComputeOp::Tanh, "tanh_tile", Some("trigonometry")),
        (TtUnaryComputeOp::Exp, "exp_tile", Some("exp")),
        (TtUnaryComputeOp::Log, "log_tile", None),
    ];
    for (op, name, header) in unary {
        let source = generate_unary_compute_source(op);
        assert!(source.contains(&format!("    {name}_init();\n")));
        assert!(source.contains(&format!("        {name}(dst_reg);\n")));
        match header {
            Some(header) => assert!(source.contains(&format!(
                "#include \"api/compute/eltwise_unary/{header}.h\"\n"
            ))),
            None => assert_eq!(source.matches("eltwise_unary/").count(), 1),
        }
    }
    assert_eq!(generate_noop_compute_source(), "void kernel_main() {}\n");
    assert!(generate_dram_loopback_source().contains("kernel_main"));
}

#[test]
fn tiled_kernels_have_their_shape() {
    let copy = TtKernelSources::copy_kernel(3, 2048);
    assert_eq!((copy.num_inputs, copy.num_outputs), (1, 1));
    assert_eq!((copy.num_tiles, copy.tile_size_bytes), (3, 2048));
    assert_eq!(copy.data_format_tt, 5);
    assert_eq!(copy.unit_item_size_bytes, 2);
    assert_eq!(copy.native_scalar_size_bytes(), 2);
    assert!(copy.requires_tiled_io());

    let add = TtKernelSources::add_kernel(4, 2048);
    assert_eq!((add.num_inputs, add.num_outputs), (2, 1));
    assert_eq!(add.compute_source, generate_add_compute_source());

    let kernels = vec![
        (
            TtKernelSources::add_kernel_with_format(1, 4096, 0, 4),
            2,
            "add_tiles",
        ),
        (
            TtKernelSources::sub_kernel_with_format(1, 4096, 0, 4),
            2,
            "sub_tiles",
        ),
        (
            TtKernelSources::mul_kernel_with_format(1, 4096, 0, 4),
            2,
            "mul_tiles",
        ),
        (
            TtKernelSources::abs_kernel_with_format(1, 4096, 0, 4),
            1,
            "abs_tile",
        ),
        (
            TtKernelSources::sqrt_kernel_with_format(1, 4096, 0, 4),
            1,
            "sqrt_tile",
        ),
        (
            TtKernelSources::rsqrt_kernel_with_format(1, 4096, 0, 4),
            1,
            "rsqrt_tile",
        ),
    ];
    for (sources, inputs, name) in kernels {
        assert_eq!(sources.num_inputs, inputs);
        assert_eq!(sources.reader_source, generate_reader_source(inputs));
        assert_eq!(sources.writer_source, generate_writer_source(1));
        assert!(sources.compute_source.contains(name));
        assert_eq!(sources.data_format_tt, 0);
        assert_eq!(sources.unit_item_size_bytes, 4);
        assert_eq!(sources.native_scalar_size_bytes(), 4);
    }
}

#[test]
fn builders_change_one_part_each() {
    let sources = TtKernelSources::copy_kernel(1, 2048)
        .with_binding_indices(vec![0], vec![1])
        .with_reader_runtime_args(vec![7])
        .with_writer_runtime_args(vec![8, 9])
        .with_compute_runtime_args(vec![10])
        .with_buffer_item_sizes(vec![2, 2])
        .with_info_static_len(4)
        .with_io_layout(TtIoDataLayout::Logical)
        .with_num_tiles(12)
        .with_full_input_staging_tiles(3)
        .with_core_partitioning(true);
    assert_eq!(sources.input_binding_indices, vec![0]);
    assert_eq!(sources.output_binding_indices, vec![1]);
    assert_eq!(sources.reader_runtime_args, vec![7]);
    assert_eq!(sources.writer_runtime_args, vec![8, 9]);
    assert_eq!(sources.compute_runtime_args, vec![10]);
    assert_eq!(sources.buffer_item_sizes, vec![2, 2]);
    assert_eq!(sources.info_static_len, 4);
    assert!(!sources.requires_tiled_io());
    assert_eq!(sources.num_tiles, 12);
    assert_eq!(sources.full_input_staging_tiles, 3);
    assert!(sources.supports_core_partitioning);
    assert_eq!(sources.tile_size_bytes, 2048);

    let copy = sources.duplicate();
    assert_eq!(format!("{copy:?}"), format!("{sources:?}"));
}

#[test]
fn sources_are_launched_with_the_given_compile_args() {
    let sources = TtKernelSources::copy_kernel(1, 2048).with_compile_args(vec![1], vec![2]);
    let launched = sources_to_launch(&sources, &vec![2, 2048], &vec![3, 2048]);
    assert_eq!(launched.reader_compile_args, vec![2, 2048]);
    assert_eq!(launched.writer_compile_args, vec![3, 2048]);
    assert_eq!(launched.reader_source, sources.reader_source);
    assert_eq!(sources.reader_compile_args, vec![1]);
}

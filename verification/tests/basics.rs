use tt_metal::arch::TtArchitecture;
use tt_metal::detect::{detect_op_kind, Arithmetic, Operation, TtOpKind};
use tt_metal::device::{enumerate_devices, DeviceId, TtDevice};
use tt_metal::ir::{AtomicKind, CubeDim, Elem, Item};
use tt_metal::math::{div_ceil, max_one, saturating_mul};
use tt_metal::runtime::{
    tt_memory_properties, RegisterLayout, TtRuntime, TILE_ELEMENTS, TT_MAX_BINDINGS,
};
use tt_metal::strides::{contiguous_strides, count_elements, is_contiguous};
use tt_metal::text::{
    contains_text, dec_text, fill2, given_text, numbered_text, replaced_text, same_text,
    starts_with_text, tt_sanitize_name,
};
use tt_metal::wmma::TtNoWmma;

#[test]
fn architectures_are_parsed_whatever_the_case() {
    assert_eq!(
        TtArchitecture::parse("wormhole"),
        Ok(TtArchitecture::Wormhole)
    );
    assert_eq!(
        TtArchitecture::parse("Wormhole_B0"),
        Ok(TtArchitecture::Wormhole)
    );
    assert_eq!(
        TtArchitecture::parse("BLACKHOLE"),
        Ok(TtArchitecture::Blackhole)
    );
    assert_eq!(
        TtArchitecture::parse("grayskull"),
        Ok(TtArchitecture::Other)
    );
    assert_eq!(TtArchitecture::parse(""), Ok(TtArchitecture::Other));
    assert_eq!(
        TtArchitecture::parse_lowercase("Wormhole"),
        TtArchitecture::Other
    );
    for arch in vec![
        TtArchitecture::Wormhole,
        TtArchitecture::Blackhole,
        TtArchitecture::Other,
    ] {
        assert_eq!(TtArchitecture::parse(arch.name()), Ok(arch));
        assert_eq!(arch.warp_size(), 32);
        assert!(!arch.is_wmma_capable());
        assert!(!arch.is_mfma_capable());
        assert!(TtNoWmma::supported_wmma_combinations(&arch).is_empty());
        assert!(TtNoWmma::supported_mma_combinations(&arch).is_empty());
        assert!(TtNoWmma::supported_scaled_mma_combinations(&arch).is_empty());
    }
    assert_eq!(TtArchitecture::default(), TtArchitecture::Wormhole);
}

#[test]
fn the_first_operation_decides() {
    let add = Operation::Arithmetic(Arithmetic::Add);
    let mul = Operation::Arithmetic(Arithmetic::Mul);
    let other = Operation::Arithmetic(Arithmetic::Other);
    assert_eq!(detect_op_kind(&vec![]), TtOpKind::Copy);
    assert_eq!(detect_op_kind(&vec![Operation::Other]), TtOpKind::Copy);
    assert_eq!(
        detect_op_kind(&vec![Operation::Other, add, other]),
        TtOpKind::EltwiseBinaryAdd
    );
    assert_eq!(detect_op_kind(&vec![mul]), TtOpKind::EltwiseBinaryAdd);
    assert_eq!(detect_op_kind(&vec![other, add]), TtOpKind::Unknown);
    assert_eq!(detect_op_kind(&vec![Operation::Copy, add]), TtOpKind::Copy);
}

#[test]
fn devices_are_found_by_their_identifiers() {
    let id = DeviceId {
        type_id: 0,
        index_id: 3,
    };
    let device = TtDevice::from_id(id);
    assert_eq!(device.index, 3);
    assert_eq!(device.to_id(), id);
    assert_eq!(enumerate_devices(0), vec![]);
    let ids = enumerate_devices(3);
    assert_eq!(ids.len(), 3);
    assert_eq!(ids[2].index_id, 2);
}

#[test]
fn elements_have_their_sizes() {
    assert_eq!(Elem::Bool.size(), 1);
    assert_eq!(Elem::BF16.size(), 2);
    assert_eq!(Elem::F16x2.size(), 4);
    assert_eq!(Elem::U64.size(), 8);
    assert_eq!(Elem::Atomic(AtomicKind::I64).size(), 8);
    let small = Elem::Other {
        size: 1,
        name: "e4m3",
    };
    assert_eq!(small.size(), 1);
    assert_eq!(small.ident(), "e4m3");
    assert_eq!(small.unpacked(), small);
    assert_eq!(Elem::F16x2.unpacked(), Elem::F16);
    assert_eq!(Elem::BF16x2.unpacked(), Elem::BF16);
    assert_eq!(Elem::F32.unpacked(), Elem::F32);
    assert_eq!(AtomicKind::F32.as_elem(), Elem::F32);
    assert_eq!(Elem::TF32.ident(), "tf32");
    assert_eq!(Elem::Atomic(AtomicKind::U32).ident(), "u32");
    assert!(small.same(small));
    assert!(!small.same(Elem::Other {
        size: 1,
        name: "e5m2",
    }));
    assert!(!small.same(Elem::Other {
        size: 2,
        name: "e4m3",
    }));
    assert!(!small.same(Elem::I8));
    assert!(Elem::F32.same(Elem::F32));
    assert!(!Elem::F32.same(Elem::TF32));
    assert!(Elem::Atomic(AtomicKind::U32).same(Elem::Atomic(AtomicKind::U32)));
    assert!(!Elem::Atomic(AtomicKind::U32).same(Elem::Atomic(AtomicKind::I32)));
    let item = Item {
        elem: Elem::F32,
        vectorization: 4,
    };
    assert_eq!(item.size(), 16);
    assert!(!item.is_atomic());
    assert!(item.same(item));
    assert!(!item.same(Item {
        elem: Elem::F32,
        vectorization: 2,
    }));
    assert_eq!(CubeDim { x: 2, y: 3, z: 4 }.num_elems(), 24);
}

#[test]
fn quotients_are_rounded_up() {
    assert_eq!(div_ceil(0, 4), 0);
    assert_eq!(div_ceil(1, 4), 1);
    assert_eq!(div_ceil(8, 4), 2);
    assert_eq!(div_ceil(9, 4), 3);
    assert_eq!(div_ceil(u64::MAX, 1), u64::MAX);
    assert_eq!(max_one(0), 1);
    assert_eq!(max_one(7), 7);
    assert_eq!(saturating_mul(3, 5), 15);
    assert_eq!(saturating_mul(1 << 16, 1 << 16), u32::MAX);
}

#[test]
fn the_properties_of_the_device() {
    assert_eq!(TtRuntime::name(), "tt_metal");
    assert!(TtRuntime::require_array_lengths());
    assert_eq!(
        TtRuntime::max_cube_count(),
        (i32::MAX as u32, u16::MAX as u32, u16::MAX as u32)
    );
    assert_eq!(TtRuntime::grid_cores(Some(8), Some(9)), 72);
    assert_eq!(TtRuntime::grid_cores(None, Some(9)), 9);
    let known = TtRuntime::hardware_properties(Some(72));
    assert_eq!(known.max_cube_count, (72, 1, 1));
    assert_eq!(known.num_streaming_multiprocessors, Some(72));
    assert_eq!(known.load_width, 128);
    assert_eq!(known.max_bindings, TT_MAX_BINDINGS);
    assert_eq!(known.max_shared_memory_size, 1_500_000);
    assert_eq!(known.max_units_per_cube, TILE_ELEMENTS);
    assert_eq!(known.max_cube_dim, (u32::MAX, 1, 1));
    let unknown = TtRuntime::hardware_properties(None);
    assert_eq!(unknown.max_cube_count, (1, 1, 1));
    assert_eq!(unknown.num_streaming_multiprocessors, None);
    let memory = tt_memory_properties();
    assert_eq!(memory.max_page_size, 2 * 1024 * 1024);
    assert_eq!(memory.alignment, 32);
    let target = TtRuntime::target_properties();
    assert_eq!(target.register_size_bits, 32);
    assert_eq!(target.register_layout_a, RegisterLayout::RowMajor);
    assert_eq!(target.register_layout_acc, RegisterLayout::ColMajor);
}

#[test]
fn padded_row_major_tensors_can_be_read() {
    assert!(TtRuntime::can_read_tensor(&vec![], &vec![]));
    assert!(TtRuntime::can_read_tensor(&vec![5], &vec![1]));
    assert!(!TtRuntime::can_read_tensor(&vec![5], &vec![2]));
    assert!(TtRuntime::can_read_tensor(&vec![2, 3], &vec![3, 1]));
    assert!(TtRuntime::can_read_tensor(&vec![2, 3], &vec![8, 1]));
    assert!(!TtRuntime::can_read_tensor(&vec![2, 3], &vec![2, 1]));
    assert!(!TtRuntime::can_read_tensor(&vec![2, 3], &vec![1, 2]));
    assert!(TtRuntime::can_read_tensor(&vec![2, 3, 4], &vec![24, 8, 1]));
    assert!(!TtRuntime::can_read_tensor(&vec![2, 3, 4], &vec![12, 8, 1]));
    assert!(!TtRuntime::can_read_tensor(&vec![2, 3], &vec![0, 1]));
}

#[test]
fn dense_strides_follow_from_the_shape() {
    assert_eq!(contiguous_strides(&vec![]), Vec::<usize>::new());
    assert_eq!(contiguous_strides(&vec![7]), vec![1]);
    assert_eq!(contiguous_strides(&vec![2, 3, 4]), vec![12, 4, 1]);
    assert_eq!(contiguous_strides(&vec![2, 0, 4]), vec![0, 4, 1]);
    assert!(is_contiguous(&vec![2, 3, 4], &vec![12, 4, 1]));
    assert!(!is_contiguous(&vec![2, 3, 4], &vec![12, 4, 2]));
    assert!(!is_contiguous(&vec![2, 3, 4], &vec![4, 1]));
    assert_eq!(count_elements(&vec![2, 3, 4]), 24);
    assert_eq!(count_elements(&vec![]), 1);
}

#[test]
fn texts_are_put_together() {
    assert_eq!(dec_text(0), "0");
    assert_eq!(dec_text(907), "907");
    assert_eq!(dec_text(u64::MAX), u64::MAX.to_string());
    assert_eq!(fill2("$1 and $0, $1", "a", "$0"), "$0 and a, $0");
    assert_eq!(numbered_text("[$0]", 2, 5), "[2][3][4]");
    assert_eq!(given_text(true, "x"), "x");
    assert_eq!(given_text(false, "x"), "");
    assert!(same_text("abc", "abc"));
    assert!(!same_text("abc", "abd"));
    assert!(starts_with_text("wormhole", "worm"));
    assert!(!starts_with_text("worm", "wormhole"));
    assert!(contains_text("a return; b", "return;"));
    assert!(!contains_text("a retur; b", "return;"));
    assert_eq!(replaced_text("aXbXX", "X", "--"), "a--b----");
    assert_eq!(tt_sanitize_name("buffer[3].x"), "buffer_3__x");
}

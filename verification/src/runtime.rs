//! Constants and properties of the device.
use crate::arch::TtArchitecture;
use crate::strides;
use vstd::prelude::*;

verus! {

/// Width of a tile in elements.
pub const TILE_WIDTH: u32 = 32;

/// Height of a tile in elements.
pub const TILE_HEIGHT: u32 = 32;

/// Number of elements of a tile.
pub const TILE_ELEMENTS: u32 = TILE_WIDTH * TILE_HEIGHT;

pub const TT_MEMORY_ALIGNMENT: u64 = 32;

pub const TT_MAX_PAGE_SIZE_BYTES: u64 = 2 * 1024 * 1024;

pub const TT_DEFAULT_BUFFER_PAGE_SIZE_BYTES: u64 = 2048;

/// Maximum number of buffers that a kernel can be launched with.
pub const TT_MAX_BINDINGS: u32 = 16;

/// What the hardware can do.
#[derive(Clone, Copy, Debug, PartialEq, Eq)]
pub struct HardwareProperties {
    /// Width of the widest load, in bits.
    pub load_width: u32,
    pub plane_size_min: u32,
    pub plane_size_max: u32,
    pub max_bindings: u32,
    /// Size of the shared memory, in bytes.
    pub max_shared_memory_size: usize,
    pub max_cube_count: (u32, u32, u32),
    pub max_units_per_cube: u32,
    pub max_cube_dim: (u32, u32, u32),
    pub num_streaming_multiprocessors: Option<u32>,
    pub min_tensor_cores_dim: Option<u32>,
    pub max_vector_size: usize,
}

/// How the memory of a device is handed out, in bytes.
#[derive(Clone, Copy, Debug, PartialEq, Eq, Structural)]
pub struct MemoryProperties {
    pub max_page_size: u64,
    pub alignment: u64,
}

/// Memory in aligned pages.
pub fn tt_memory_properties() -> (properties: MemoryProperties)
    ensures
        properties.max_page_size == TT_MAX_PAGE_SIZE_BYTES,
        properties.alignment == TT_MEMORY_ALIGNMENT,
{
    MemoryProperties { max_page_size: TT_MAX_PAGE_SIZE_BYTES, alignment: TT_MEMORY_ALIGNMENT }
}

/// The order of the elements of a matrix in registers.
#[derive(Clone, Copy, Debug, PartialEq, Eq, Structural)]
pub enum RegisterLayout {
    RowMajor,
    ColMajor,
}

/// How matrices lie in the registers of a plane.
#[derive(Clone, Copy, Debug, PartialEq, Eq, Structural)]
pub struct RegisterProperties {
    pub register_size_bits: usize,
    pub const_plane_size: u32,
    pub register_layout_a: RegisterLayout,
    pub register_layout_b: RegisterLayout,
    pub register_layout_acc: RegisterLayout,
    pub register_duplication_a: usize,
    pub register_duplication_b: usize,
    pub register_duplication_acc: usize,
}

/// The runtime of the TT-Metal backend.
#[derive(Clone, Copy, Debug)]
pub struct TtRuntime;

/// The hardware of a device with a number of cores; with one where it is not known.
pub open spec fn device_hardware(cores: Option<u32>) -> HardwareProperties {
    HardwareProperties {
        load_width: 128,
        plane_size_min: 32,
        plane_size_max: 32,
        max_bindings: TT_MAX_BINDINGS,
        max_shared_memory_size: 1_500_000,
        max_cube_count: (
            match cores {
                Some(cores) => cores,
                None => 1,
            },
            1,
            1,
        ),
        max_units_per_cube: 1024,
        max_cube_dim: (u32::MAX, 1, 1),
        num_streaming_multiprocessors: cores,
        min_tensor_cores_dim: None,
        max_vector_size: usize::MAX,
    }
}

impl TtRuntime {
    pub fn name() -> (name: &'static str)
        ensures
            name@ == "tt_metal"@,
    {
        "tt_metal"
    }

    /// Whether kernels are handed the lengths of their arrays.
    pub fn require_array_lengths() -> (required: bool)
        ensures
            required,
    {
        true
    }

    /// The most cubes that a launch can have in each dimension.
    pub fn max_cube_count() -> (count: (u32, u32, u32))
        ensures
            count == (0x7fff_ffffu32, 0xffffu32, 0xffffu32),
    {
        (0x7fff_ffff, 0xffff, 0xffff)
    }

    /// Whether a tensor can be read from the host: scalars can, and so can padded
    /// row-major tensors.
    pub fn can_read_tensor(shape: &Vec<usize>, strides: &Vec<usize>) -> (readable: bool)
        requires
            shape.len() > 0 ==> shape.len() == strides.len() && strides::extents_fit(
                shape@,
                strides@,
            ),
        ensures
            readable == (shape.len() == 0 || strides::is_pitched(shape@, strides@)),
    {
        if shape.len() == 0 {
            return true;
        }
        strides::has_pitched_row_major_strides(shape, strides)
    }

    pub fn target_properties() -> (properties: RegisterProperties)
        ensures
            properties == (RegisterProperties {
                register_size_bits: 32,
                const_plane_size: 32,
                register_layout_a: RegisterLayout::RowMajor,
                register_layout_b: RegisterLayout::ColMajor,
                register_layout_acc: RegisterLayout::ColMajor,
                register_duplication_a: 1,
                register_duplication_b: 1,
                register_duplication_acc: 1,
            }),
    {
        RegisterProperties {
            register_size_bits: 32,
            const_plane_size: 32,
            register_layout_a: RegisterLayout::RowMajor,
            register_layout_b: RegisterLayout::ColMajor,
            register_layout_acc: RegisterLayout::ColMajor,
            register_duplication_a: 1,
            register_duplication_b: 1,
            register_duplication_acc: 1,
        }
    }

    /// The number of cores of a grid; a side that is not known counts as one.
    pub fn grid_cores(rows: Option<u32>, cols: Option<u32>) -> (cores: u32)
        requires
            side(rows) * side(cols) <= u32::MAX,
        ensures
            cores == side(rows) * side(cols),
    {
        let rows: u32 = match rows {
            Some(rows) => rows,
            None => 1,
        };
        let cols: u32 = match cols {
            Some(cols) => cols,
            None => 1,
        };
        assert(0 <= rows * cols) by (nonlinear_arith);
        rows * cols
    }

    /// The hardware of a device with a number of cores; with one where it is not known.
    pub fn hardware_properties(cores: Option<u32>) -> (properties: HardwareProperties)
        ensures
            properties == device_hardware(cores),
    {
        let warp_size: u32 = TtArchitecture::Wormhole.warp_size();
        HardwareProperties {
            load_width: 128,
            plane_size_min: warp_size,
            plane_size_max: warp_size,
            max_bindings: TT_MAX_BINDINGS,
            max_shared_memory_size: 1_500_000,
            max_cube_count: (
                match cores {
                    Some(cores) => cores,
                    None => 1,
                },
                1,
                1,
            ),
            max_units_per_cube: warp_size * TILE_HEIGHT,
            max_cube_dim: (u32::MAX, 1, 1),
            num_streaming_multiprocessors: cores,
            min_tensor_cores_dim: None,
            max_vector_size: usize::MAX,
        }
    }
}

pub open spec fn side(length: Option<u32>) -> int {
    match length {
        Some(length) => length as int,
        None => 1,
    }
}

} // verus!

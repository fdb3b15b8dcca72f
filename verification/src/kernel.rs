//! The three kernels of an operation together with what they are launched with.
use crate::reader;
use crate::runtime::TILE_ELEMENTS;
use crate::storage::{copy_indices, copy_words};
use crate::writer;
use vstd::prelude::*;

verus! {

/// The three kernel sources of an operation and their arguments.
#[derive(Debug)]
pub struct TtKernelSources {
    pub reader_source: String,
    pub compute_source: String,
    pub writer_source: String,
    pub num_inputs: u32,
    pub num_outputs: u32,
    pub num_tiles: u32,
    pub tile_size_bytes: u32,
    pub data_format_tt: u8,
    pub unit_item_size_bytes: u32,
    pub io_layout: TtIoDataLayout,
    pub input_binding_indices: Vec<usize>,
    pub output_binding_indices: Vec<usize>,
    pub reader_compile_args: Vec<u32>,
    pub writer_compile_args: Vec<u32>,
    pub reader_runtime_args: Vec<u32>,
    pub writer_runtime_args: Vec<u32>,
    pub compute_runtime_args: Vec<u32>,
    pub buffer_item_sizes: Vec<u32>,
    pub info_static_len: usize,
    pub supports_core_partitioning: bool,
    pub full_input_staging_tiles: u32,
}

/// How a kernel expects its buffers to be laid out.
#[derive(Clone, Copy, Debug, PartialEq, Eq, Structural)]
pub enum TtIoDataLayout {
    Logical,
    Tiled,
}

#[derive(Clone, Copy, Debug, PartialEq, Eq, Structural)]
pub enum TtBinaryComputeOp {
    Add,
    Sub,
    Mul,
    Div,
}

#[derive(Clone, Copy, Debug, PartialEq, Eq, Structural)]
pub enum TtUnaryComputeOp {
    Abs,
    Sqrt,
    Rsqrt,
    Sin,
    Cos,
    Tan,
    Tanh,
    Exp,
    Log,
}

impl TtKernelSources {
    /// Whether no arguments have been bound yet.
    pub open spec fn is_unbound(self) -> bool {
        &&& self.input_binding_indices@ == Seq::<usize>::empty()
        &&& self.output_binding_indices@ == Seq::<usize>::empty()
        &&& self.reader_compile_args@ == Seq::<u32>::empty()
        &&& self.writer_compile_args@ == Seq::<u32>::empty()
        &&& self.reader_runtime_args@ == Seq::<u32>::empty()
        &&& self.writer_runtime_args@ == Seq::<u32>::empty()
        &&& self.compute_runtime_args@ == Seq::<u32>::empty()
        &&& self.buffer_item_sizes@ == Seq::<u32>::empty()
        &&& self.info_static_len == 0
        &&& self.full_input_staging_tiles == 0
    }

    /// Whether these are the tile reader, the given compute kernel and the tile
    /// writer, for one output, on tiled buffers, with nothing bound.
    pub open spec fn is_tiled(
        self,
        num_inputs: u32,
        compute: Seq<char>,
        num_tiles: u32,
        tile_size_bytes: u32,
        data_format_tt: u8,
        unit_item_size_bytes: u32,
    ) -> bool {
        &&& self.reader_source@ == reader::tile_reader(num_inputs as nat)
        &&& self.compute_source@ == compute
        &&& self.writer_source@ == writer::tile_writer(1)
        &&& self.num_inputs == num_inputs
        &&& self.num_outputs == 1
        &&& self.num_tiles == num_tiles
        &&& self.tile_size_bytes == tile_size_bytes
        &&& self.data_format_tt == data_format_tt
        &&& self.unit_item_size_bytes == unit_item_size_bytes
        &&& self.io_layout == TtIoDataLayout::Tiled
        &&& !self.supports_core_partitioning
        &&& self.is_unbound()
    }

    /// Whether two sources hold the same texts, numbers and arguments.
    pub open spec fn same_as(self, other: TtKernelSources) -> bool {
        &&& self.reader_source@ == other.reader_source@
        &&& self.compute_source@ == other.compute_source@
        &&& self.writer_source@ == other.writer_source@
        &&& self.num_inputs == other.num_inputs
        &&& self.num_outputs == other.num_outputs
        &&& self.num_tiles == other.num_tiles
        &&& self.tile_size_bytes == other.tile_size_bytes
        &&& self.data_format_tt == other.data_format_tt
        &&& self.unit_item_size_bytes == other.unit_item_size_bytes
        &&& self.io_layout == other.io_layout
        &&& self.input_binding_indices@ == other.input_binding_indices@
        &&& self.output_binding_indices@ == other.output_binding_indices@
        &&& self.reader_compile_args@ == other.reader_compile_args@
        &&& self.writer_compile_args@ == other.writer_compile_args@
        &&& self.reader_runtime_args@ == other.reader_runtime_args@
        &&& self.writer_runtime_args@ == other.writer_runtime_args@
        &&& self.compute_runtime_args@ == other.compute_runtime_args@
        &&& self.buffer_item_sizes@ == other.buffer_item_sizes@
        &&& self.info_static_len == other.info_static_len
        &&& self.supports_core_partitioning == other.supports_core_partitioning
        &&& self.full_input_staging_tiles == other.full_input_staging_tiles
    }

    /// A copy of the sources.
    pub fn duplicate(&self) -> (copy: Self)
        ensures
            copy.same_as(*self),
    {
        TtKernelSources {
            reader_source: self.reader_source.clone(),
            compute_source: self.compute_source.clone(),
            writer_source: self.writer_source.clone(),
            num_inputs: self.num_inputs,
            num_outputs: self.num_outputs,
            num_tiles: self.num_tiles,
            tile_size_bytes: self.tile_size_bytes,
            data_format_tt: self.data_format_tt,
            unit_item_size_bytes: self.unit_item_size_bytes,
            io_layout: self.io_layout,
            input_binding_indices: copy_indices(&self.input_binding_indices),
            output_binding_indices: copy_indices(&self.output_binding_indices),
            reader_compile_args: copy_words(&self.reader_compile_args),
            writer_compile_args: copy_words(&self.writer_compile_args),
            reader_runtime_args: copy_words(&self.reader_runtime_args),
            writer_runtime_args: copy_words(&self.writer_runtime_args),
            compute_runtime_args: copy_words(&self.compute_runtime_args),
            buffer_item_sizes: copy_words(&self.buffer_item_sizes),
            info_static_len: self.info_static_len,
            supports_core_partitioning: self.supports_core_partitioning,
            full_input_staging_tiles: self.full_input_staging_tiles,
        }
    }

    /// Sources on logical buffers, with nothing bound and all tiles on one core.
    pub fn new(
        reader_source: String,
        compute_source: String,
        writer_source: String,
        num_inputs: u32,
        num_outputs: u32,
        num_tiles: u32,
        tile_size_bytes: u32,
        data_format_tt: u8,
        unit_item_size_bytes: u32,
    ) -> (sources: Self)
        ensures
            sources.reader_source == reader_source,
            sources.compute_source == compute_source,
            sources.writer_source == writer_source,
            sources.num_inputs == num_inputs,
            sources.num_outputs == num_outputs,
            sources.num_tiles == num_tiles,
            sources.tile_size_bytes == tile_size_bytes,
            sources.data_format_tt == data_format_tt,
            sources.unit_item_size_bytes == unit_item_size_bytes,
            sources.io_layout == TtIoDataLayout::Logical,
            !sources.supports_core_partitioning,
            sources.is_unbound(),
    {
        TtKernelSources {
            reader_source,
            compute_source,
            writer_source,
            num_inputs,
            num_outputs,
            num_tiles,
            tile_size_bytes,
            data_format_tt,
            unit_item_size_bytes,
            io_layout: TtIoDataLayout::Logical,
            input_binding_indices: Vec::new(),
            output_binding_indices: Vec::new(),
            reader_compile_args: Vec::new(),
            writer_compile_args: Vec::new(),
            reader_runtime_args: Vec::new(),
            writer_runtime_args: Vec::new(),
            compute_runtime_args: Vec::new(),
            buffer_item_sizes: Vec::new(),
            info_static_len: 0,
            supports_core_partitioning: false,
            full_input_staging_tiles: 0,
        }
    }

    /// The sources with these compile-time arguments.
    pub fn with_compile_args(self, reader_compile_args: Vec<u32>, writer_compile_args: Vec<u32>) -> (sources: Self)
        ensures
            sources == (TtKernelSources { reader_compile_args, writer_compile_args, ..self }),
    {
        TtKernelSources { reader_compile_args, writer_compile_args, ..self }
    }

    /// The sources with these positions of the inputs and outputs among the bindings.
    pub fn with_binding_indices(self, input_binding_indices: Vec<usize>, output_binding_indices: Vec<usize>) -> (sources: Self)
        ensures
            sources == (TtKernelSources { input_binding_indices, output_binding_indices, ..self }),
    {
        TtKernelSources { input_binding_indices, output_binding_indices, ..self }
    }

    /// The sources with these further runtime arguments of the reader.
    pub fn with_reader_runtime_args(self, reader_runtime_args: Vec<u32>) -> (sources: Self)
        ensures
            sources == (TtKernelSources { reader_runtime_args, ..self }),
    {
        TtKernelSources { reader_runtime_args, ..self }
    }

    /// The sources with these further runtime arguments of the writer.
    pub fn with_writer_runtime_args(self, writer_runtime_args: Vec<u32>) -> (sources: Self)
        ensures
            sources == (TtKernelSources { writer_runtime_args, ..self }),
    {
        TtKernelSources { writer_runtime_args, ..self }
    }

    /// The sources with these further runtime arguments of the compute kernel.
    pub fn with_compute_runtime_args(self, compute_runtime_args: Vec<u32>) -> (sources: Self)
        ensures
            sources == (TtKernelSources { compute_runtime_args, ..self }),
    {
        TtKernelSources { compute_runtime_args, ..self }
    }

    /// The sources with these item sizes of the bindings.
    pub fn with_buffer_item_sizes(self, buffer_item_sizes: Vec<u32>) -> (sources: Self)
        ensures
            sources == (TtKernelSources { buffer_item_sizes, ..self }),
    {
        TtKernelSources { buffer_item_sizes, ..self }
    }

    /// The sources with this length of the static info block.
    pub fn with_info_static_len(self, info_static_len: usize) -> (sources: Self)
        ensures
            sources == (TtKernelSources { info_static_len, ..self }),
    {
        TtKernelSources { info_static_len, ..self }
    }

    /// The sources with this layout of their buffers.
    pub fn with_io_layout(self, io_layout: TtIoDataLayout) -> (sources: Self)
        ensures
            sources == (TtKernelSources { io_layout, ..self }),
    {
        TtKernelSources { io_layout, ..self }
    }

    /// The sources with this number of tiles.
    pub fn with_num_tiles(self, num_tiles: u32) -> (sources: Self)
        ensures
            sources == (TtKernelSources { num_tiles, ..self }),
    {
        TtKernelSources { num_tiles, ..self }
    }

    /// The sources with this many tiles of the first input staged before the loop.
    pub fn with_full_input_staging_tiles(self, tiles: u32) -> (sources: Self)
        ensures
            sources == (TtKernelSources { full_input_staging_tiles: tiles, ..self }),
    {
        TtKernelSources { full_input_staging_tiles: tiles, ..self }
    }

    /// The sources with this answer to whether their tiles may be split over cores.
    pub fn with_core_partitioning(self, supports_core_partitioning: bool) -> (sources: Self)
        ensures
            sources == (TtKernelSources { supports_core_partitioning, ..self }),
    {
        TtKernelSources { supports_core_partitioning, ..self }
    }

    /// Whether the buffers have to be laid out in tiles.
    pub fn requires_tiled_io(&self) -> (tiled: bool)
        ensures
            tiled == (self.io_layout is Tiled),
    {
        matches!(self.io_layout, TtIoDataLayout::Tiled)
    }

    /// The size of one element of a tile, in bytes.
    pub fn native_scalar_size_bytes(&self) -> (size: u32)
        ensures
            size == self.tile_size_bytes / TILE_ELEMENTS,
    {
        self.tile_size_bytes / TILE_ELEMENTS
    }

    /// A copy kernel on brain floats.
    pub fn copy_kernel(num_tiles: u32, tile_size_bytes: u32) -> (sources: Self)
        ensures
            sources.is_tiled(1, writer::COPY_COMPUTE@, num_tiles, tile_size_bytes, 5, 2),
    {
        Self::copy_kernel_with_format(num_tiles, tile_size_bytes, 5, 2)
    }

    /// A copy kernel: one input, one output.
    pub fn copy_kernel_with_format(
        num_tiles: u32,
        tile_size_bytes: u32,
        data_format_tt: u8,
        unit_item_size_bytes: u32,
    ) -> (sources: Self)
        ensures
            sources.is_tiled(
                1,
                writer::COPY_COMPUTE@,
                num_tiles,
                tile_size_bytes,
                data_format_tt,
                unit_item_size_bytes,
            ),
    {
        Self::new(
            reader::generate_reader_source(1),
            writer::generate_copy_compute_source(),
            writer::generate_writer_source(1),
            1,
            1,
            num_tiles,
            tile_size_bytes,
            data_format_tt,
            unit_item_size_bytes,
        ).with_io_layout(TtIoDataLayout::Tiled)
    }

    /// The kernel of an element-wise binary operation: two inputs, one output.
    pub fn binary_kernel_with_format(
        op: TtBinaryComputeOp,
        num_tiles: u32,
        tile_size_bytes: u32,
        data_format_tt: u8,
        unit_item_size_bytes: u32,
    ) -> (sources: Self)
        ensures
            sources.is_tiled(
                2,
                writer::binary_compute(op),
                num_tiles,
                tile_size_bytes,
                data_format_tt,
                unit_item_size_bytes,
            ),
    {
        Self::new(
            reader::generate_reader_source(2),
            writer::generate_binary_compute_source(op),
            writer::generate_writer_source(1),
            2,
            1,
            num_tiles,
            tile_size_bytes,
            data_format_tt,
            unit_item_size_bytes,
        ).with_io_layout(TtIoDataLayout::Tiled)
    }

    /// An addition kernel on brain floats.
    pub fn add_kernel(num_tiles: u32, tile_size_bytes: u32) -> (sources: Self)
        ensures
            sources.is_tiled(
                2,
                writer::binary_compute(TtBinaryComputeOp::Add),
                num_tiles,
                tile_size_bytes,
                5,
                2,
            ),
    {
        Self::add_kernel_with_format(num_tiles, tile_size_bytes, 5, 2)
    }

    /// An addition kernel.
    pub fn add_kernel_with_format(
        num_tiles: u32,
        tile_size_bytes: u32,
        data_format_tt: u8,
        unit_item_size_bytes: u32,
    ) -> (sources: Self)
        ensures
            sources.is_tiled(
                2,
                writer::binary_compute(TtBinaryComputeOp::Add),
                num_tiles,
                tile_size_bytes,
                data_format_tt,
                unit_item_size_bytes,
            ),
    {
        Self::binary_kernel_with_format(
            TtBinaryComputeOp::Add,
            num_tiles,
            tile_size_bytes,
            data_format_tt,
            unit_item_size_bytes,
        )
    }

    /// A subtraction kernel.
    pub fn sub_kernel_with_format(
        num_tiles: u32,
        tile_size_bytes: u32,
        data_format_tt: u8,
        unit_item_size_bytes: u32,
    ) -> (sources: Self)
        ensures
            sources.is_tiled(
                2,
                writer::binary_compute(TtBinaryComputeOp::Sub),
                num_tiles,
                tile_size_bytes,
                data_format_tt,
                unit_item_size_bytes,
            ),
    {
        Self::binary_kernel_with_format(
            TtBinaryComputeOp::Sub,
            num_tiles,
            tile_size_bytes,
            data_format_tt,
            unit_item_size_bytes,
        )
    }

    /// A multiplication kernel.
    pub fn mul_kernel_with_format(
        num_tiles: u32,
        tile_size_bytes: u32,
        data_format_tt: u8,
        unit_item_size_bytes: u32,
    ) -> (sources: Self)
        ensures
            sources.is_tiled(
                2,
                writer::binary_compute(TtBinaryComputeOp::Mul),
                num_tiles,
                tile_size_bytes,
                data_format_tt,
                unit_item_size_bytes,
            ),
    {
        Self::binary_kernel_with_format(
            TtBinaryComputeOp::Mul,
            num_tiles,
            tile_size_bytes,
            data_format_tt,
            unit_item_size_bytes,
        )
    }

    /// The kernel of an element-wise unary operation: one input, one output.
    pub fn unary_kernel_with_format(
        op: TtUnaryComputeOp,
        num_tiles: u32,
        tile_size_bytes: u32,
        data_format_tt: u8,
        unit_item_size_bytes: u32,
    ) -> (sources: Self)
        ensures
            sources.is_tiled(
                1,
                writer::unary_compute(op),
                num_tiles,
                tile_size_bytes,
                data_format_tt,
                unit_item_size_bytes,
            ),
    {
        Self::new(
            reader::generate_reader_source(1),
            writer::generate_unary_compute_source(op),
            writer::generate_writer_source(1),
            1,
            1,
            num_tiles,
            tile_size_bytes,
            data_format_tt,
            unit_item_size_bytes,
        ).with_io_layout(TtIoDataLayout::Tiled)
    }

    /// An absolute-value kernel.
    pub fn abs_kernel_with_format(
        num_tiles: u32,
        tile_size_bytes: u32,
        data_format_tt: u8,
        unit_item_size_bytes: u32,
    ) -> (sources: Self)
        ensures
            sources.is_tiled(
                1,
                writer::unary_compute(TtUnaryComputeOp::Abs),
                num_tiles,
                tile_size_bytes,
                data_format_tt,
                unit_item_size_bytes,
            ),
    {
        Self::unary_kernel_with_format(
            TtUnaryComputeOp::Abs,
            num_tiles,
            tile_size_bytes,
            data_format_tt,
            unit_item_size_bytes,
        )
    }

    /// A square-root kernel.
    pub fn sqrt_kernel_with_format(
        num_tiles: u32,
        tile_size_bytes: u32,
        data_format_tt: u8,
        unit_item_size_bytes: u32,
    ) -> (sources: Self)
        ensures
            sources.is_tiled(
                1,
                writer::unary_compute(TtUnaryComputeOp::Sqrt),
                num_tiles,
                tile_size_bytes,
                data_format_tt,
                unit_item_size_bytes,
            ),
    {
        Self::unary_kernel_with_format(
            TtUnaryComputeOp::Sqrt,
            num_tiles,
            tile_size_bytes,
            data_format_tt,
            unit_item_size_bytes,
        )
    }

    /// A reciprocal-square-root kernel.
    pub fn rsqrt_kernel_with_format(
        num_tiles: u32,
        tile_size_bytes: u32,
        data_format_tt: u8,
        unit_item_size_bytes: u32,
    ) -> (sources: Self)
        ensures
            sources.is_tiled(
                1,
                writer::unary_compute(TtUnaryComputeOp::Rsqrt),
                num_tiles,
                tile_size_bytes,
                data_format_tt,
                unit_item_size_bytes,
            ),
    {
        Self::unary_kernel_with_format(
            TtUnaryComputeOp::Rsqrt,
            num_tiles,
            tile_size_bytes,
            data_format_tt,
            unit_item_size_bytes,
        )
    }
}

} // verus!

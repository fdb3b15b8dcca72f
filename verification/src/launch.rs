//! From the sources of a kernel and the buffers it is launched with to the arguments
//! of its three device kernels.
use crate::compile;
use crate::error::CompileError;
use crate::ir::{ComputeKernel, KernelArg, Visibility};
use crate::kernel::TtKernelSources;
use crate::math;
use crate::scalar_writer;
use crate::storage::{copy_indices, copy_words, TtResource};
use crate::text;
use vstd::prelude::*;

verus! {

/// How many cubes a launch asks for; a dynamic count is known to the device only.
#[derive(Clone, Copy, Debug, PartialEq, Eq, Structural)]
pub enum CubeCount {
    Static(u32, u32, u32),
    Dynamic,
}

/// A buffer as the kernel sees it at run time.
#[derive(Debug)]
pub struct RuntimeBinding {
    pub visibility: Visibility,
    pub address: u32,
    pub logical_size_bytes: u64,
    pub allocation_size_bytes: u64,
    pub compile_args: Vec<u32>,
    pub item_size_bytes: u32,
}

/// Sources with all their arguments.
#[derive(Debug)]
pub struct PreparedLaunch {
    pub sources: TtKernelSources,
    pub input_addrs: Vec<u32>,
    pub output_addrs: Vec<u32>,
    pub bindings: Vec<RuntimeBinding>,
}

/// Why a launch was refused.
#[allow(inconsistent_fields)]
#[derive(Debug)]
pub enum LaunchError {
    Compilation(CompileError),
    /// The kernel compiler gave no representation.
    NoRepresentation,
    Arity { resources: usize, buffers: usize },
    ReaderIndex { index: usize, bindings: usize },
    WriterIndex { index: usize, bindings: usize },
    InputCount { expected: u32, found: usize },
    OutputCount { expected: u32, found: usize },
    ItemSizeCount { expected: usize, found: usize },
    ItemSize { index: usize, expected: u32, found: u32 },
    NoBinding,
    MixedItemSize { first: u32, index: usize, found: u32 },
    MixedLength { first: u64, index: usize, found: u64 },
    DynamicMetadata,
    StaticMetadata { bindings: usize, sizes: usize },
    StaticArguments { derived: usize, expected: usize },
}

impl LaunchError {
    /// The text of the error.
    pub open spec fn message(self) -> Seq<char> {
        match self {
            LaunchError::Compilation(error) => error.message(),
            LaunchError::NoRepresentation => "no IR representation"@,
            LaunchError::NoBinding => "TT-Metal tiled I/O path requires at least one runtime binding"@,
            LaunchError::DynamicMetadata => "TT-Metal generic kernels require metadata info runtime args for dynamic tensor metadata"@,
            LaunchError::Arity { resources, buffers } => text::fill(
                "resource/buffer arity mismatch: $0 runtime resources for $1 compiled buffers"@,
                seq![text::dec(resources as nat), text::dec(buffers as nat)],
            ),
            LaunchError::ReaderIndex { index, bindings } => text::fill(
                "reader binding index $0 out of range for $1 runtime bindings"@,
                seq![text::dec(index as nat), text::dec(bindings as nat)],
            ),
            LaunchError::WriterIndex { index, bindings } => text::fill(
                "writer binding index $0 out of range for $1 runtime bindings"@,
                seq![text::dec(index as nat), text::dec(bindings as nat)],
            ),
            LaunchError::InputCount { expected, found } => text::fill(
                "reader source expects $0 inputs but runtime provided $1"@,
                seq![text::dec(expected as nat), text::dec(found as nat)],
            ),
            LaunchError::OutputCount { expected, found } => text::fill(
                "writer source expects $0 outputs but runtime provided $1"@,
                seq![text::dec(expected as nat), text::dec(found as nat)],
            ),
            LaunchError::ItemSizeCount { expected, found } => text::fill(
                "static metadata expects $0 buffer item sizes but runtime provided $1 resources"@,
                seq![text::dec(expected as nat), text::dec(found as nat)],
            ),
            LaunchError::ItemSize { index, expected, found } => text::fill(
                "buffer item size mismatch at binding $0: compiler expected $1 bytes but runtime binding uses $2 bytes"@,
                seq![text::dec(index as nat), text::dec(expected as nat), text::dec(found as nat)],
            ),
            LaunchError::MixedItemSize { first, index, found } => text::fill(
                "TT-Metal tiled I/O path requires a uniform element size across bindings; binding 0 uses $0 bytes but binding $1 uses $2 bytes"@,
                seq![text::dec(first as nat), text::dec(index as nat), text::dec(found as nat)],
            ),
            LaunchError::MixedLength { first, index, found } => text::fill(
                "TT-Metal tiled I/O path currently requires matching logical buffer sizes across bindings; binding 0 uses $0 bytes but binding $1 uses $2 bytes"@,
                seq![text::dec(first as nat), text::dec(index as nat), text::dec(found as nat)],
            ),
            LaunchError::StaticMetadata { bindings, sizes } => text::fill(
                "cannot derive static metadata for $0 bindings from $1 item sizes"@,
                seq![text::dec(bindings as nat), text::dec(sizes as nat)],
            ),
            LaunchError::StaticArguments { derived, expected } => text::fill(
                "compute runtime args mismatch: derived $0 static args for info_static_len $1"@,
                seq![text::dec(derived as nat), text::dec(expected as nat)],
            ),
        }
    }

    /// The text of the error.
    pub fn reason(&self) -> (reason: String)
        ensures
            reason@ == self.message(),
    {
        match self {
            LaunchError::Compilation(error) => error.reason(),
            LaunchError::NoRepresentation => "no IR representation".to_owned(),
            LaunchError::NoBinding => "TT-Metal tiled I/O path requires at least one runtime binding".to_owned(),
            LaunchError::DynamicMetadata => "TT-Metal generic kernels require metadata info runtime args for dynamic tensor metadata".to_owned(),
            LaunchError::Arity { resources, buffers } => text::fill2(
                "resource/buffer arity mismatch: $0 runtime resources for $1 compiled buffers",
                text::dec_text(*resources as u64).as_str(),
                text::dec_text(*buffers as u64).as_str(),
            ),
            LaunchError::ReaderIndex { index, bindings } => text::fill2(
                "reader binding index $0 out of range for $1 runtime bindings",
                text::dec_text(*index as u64).as_str(),
                text::dec_text(*bindings as u64).as_str(),
            ),
            LaunchError::WriterIndex { index, bindings } => text::fill2(
                "writer binding index $0 out of range for $1 runtime bindings",
                text::dec_text(*index as u64).as_str(),
                text::dec_text(*bindings as u64).as_str(),
            ),
            LaunchError::InputCount { expected, found } => text::fill2(
                "reader source expects $0 inputs but runtime provided $1",
                text::dec_text(*expected as u64).as_str(),
                text::dec_text(*found as u64).as_str(),
            ),
            LaunchError::OutputCount { expected, found } => text::fill2(
                "writer source expects $0 outputs but runtime provided $1",
                text::dec_text(*expected as u64).as_str(),
                text::dec_text(*found as u64).as_str(),
            ),
            LaunchError::ItemSizeCount { expected, found } => text::fill2(
                "static metadata expects $0 buffer item sizes but runtime provided $1 resources",
                text::dec_text(*expected as u64).as_str(),
                text::dec_text(*found as u64).as_str(),
            ),
            LaunchError::ItemSize { index, expected, found } => text::fill3(
                "buffer item size mismatch at binding $0: compiler expected $1 bytes but runtime binding uses $2 bytes",
                text::dec_text(*index as u64).as_str(),
                text::dec_text(*expected as u64).as_str(),
                text::dec_text(*found as u64).as_str(),
            ),
            LaunchError::MixedItemSize { first, index, found } => text::fill3(
                "TT-Metal tiled I/O path requires a uniform element size across bindings; binding 0 uses $0 bytes but binding $1 uses $2 bytes",
                text::dec_text(*first as u64).as_str(),
                text::dec_text(*index as u64).as_str(),
                text::dec_text(*found as u64).as_str(),
            ),
            LaunchError::MixedLength { first, index, found } => text::fill3(
                "TT-Metal tiled I/O path currently requires matching logical buffer sizes across bindings; binding 0 uses $0 bytes but binding $1 uses $2 bytes",
                text::dec_text(*first as u64).as_str(),
                text::dec_text(*index as u64).as_str(),
                text::dec_text(*found as u64).as_str(),
            ),
            LaunchError::StaticMetadata { bindings, sizes } => text::fill2(
                "cannot derive static metadata for $0 bindings from $1 item sizes",
                text::dec_text(*bindings as u64).as_str(),
                text::dec_text(*sizes as u64).as_str(),
            ),
            LaunchError::StaticArguments { derived, expected } => text::fill2(
                "compute runtime args mismatch: derived $0 static args for info_static_len $1",
                text::dec_text(*derived as u64).as_str(),
                text::dec_text(*expected as u64).as_str(),
            ),
        }
    }
}

/// What a static or a dynamic cube count hands to the kernel.
pub open spec fn cube_count_words(count: CubeCount) -> Seq<u32> {
    match count {
        CubeCount::Static(x, y, z) => seq![x, y, z],
        CubeCount::Dynamic => seq![0u32, 0u32, 0u32],
    }
}

/// The number of units that a launch asks for, at least one; none where the count is
/// dynamic.
pub open spec fn launched_units(count: CubeCount, cube_units: int) -> int {
    match count {
        CubeCount::Static(x, y, z) => math::at_least_one(
            math::saturating_product(
                math::saturating_product(math::saturating_product(x as int, y as int), z as int),
                cube_units,
            ),
        ),
        CubeCount::Dynamic => 0,
    }
}

/// The positions of the inputs, or of the outputs, among the bindings: those that the
/// compiler wrote down, or else those that the buffers' visibility gives.
pub open spec fn binding_positions(
    written: Seq<usize>,
    count: u32,
    buffers: Seq<KernelArg>,
    outputs: bool,
) -> Seq<usize> {
    if written.len() == 0 && count > 0 {
        compile::positions(buffers, false, outputs, buffers.len())
    } else {
        written
    }
}

pub open spec fn inputs_of(kernel: ComputeKernel, sources: TtKernelSources) -> Seq<usize> {
    binding_positions(
        sources.input_binding_indices@,
        sources.num_inputs,
        kernel.buffers@,
        false,
    )
}

pub open spec fn outputs_of(kernel: ComputeKernel, sources: TtKernelSources) -> Seq<usize> {
    binding_positions(
        sources.output_binding_indices@,
        sources.num_outputs,
        kernel.buffers@,
        true,
    )
}

/// The first position, from `from` on, that names no binding.
pub open spec fn first_out_of_range(indices: Seq<usize>, bindings: nat, from: nat) -> Option<usize>
    decreases indices.len() - from,
{
    if from >= indices.len() {
        None
    } else if indices[from as int] >= bindings {
        Some(indices[from as int])
    } else {
        first_out_of_range(indices, bindings, from + 1)
    }
}

/// The first binding, from `from` on, whose items have another size than the compiler
/// took them to have.
pub open spec fn first_item_mismatch(expected: Seq<u32>, found: Seq<u32>, from: nat) -> Option<LaunchError>
    decreases expected.len() - from,
{
    if from >= expected.len() {
        None
    } else if expected[from as int] != found[from as int] {
        Some(
            LaunchError::ItemSize {
                index: from as usize,
                expected: expected[from as int],
                found: found[from as int],
            },
        )
    } else {
        first_item_mismatch(expected, found, from + 1)
    }
}

/// The first binding, from `from` on, that differs from the first binding in the size
/// of its items or in its length.
pub open spec fn first_uneven(item_sizes: Seq<u32>, lengths: Seq<u64>, from: nat) -> Option<LaunchError>
    decreases item_sizes.len() - from,
{
    if from >= item_sizes.len() {
        None
    } else if item_sizes[from as int] != item_sizes[0] {
        Some(
            LaunchError::MixedItemSize {
                first: item_sizes[0],
                index: from as usize,
                found: item_sizes[from as int],
            },
        )
    } else if lengths[from as int] != lengths[0] {
        Some(
            LaunchError::MixedLength {
                first: lengths[0],
                index: from as usize,
                found: lengths[from as int],
            },
        )
    } else {
        first_uneven(item_sizes, lengths, from + 1)
    }
}

/// The lengths of the buffers in bytes.
pub open spec fn lengths(resources: Seq<TtResource>) -> Seq<u64> {
    resources.map_values(|resource: TtResource| resource.size)
}

/// The first reason why the buffers of a launch are refused.
pub open spec fn buffers_refusal(
    kernel: ComputeKernel,
    sources: TtKernelSources,
    resources: Seq<TtResource>,
) -> Option<LaunchError> {
    let count = resources.len();
    let inputs = inputs_of(kernel, sources);
    let outputs = outputs_of(kernel, sources);
    let item_sizes = compile::buffer_sizes(kernel.buffers@);
    if count != kernel.buffers.len() {
        Some(LaunchError::Arity { resources: count as usize, buffers: kernel.buffers.len() })
    } else if let Some(index) = first_out_of_range(inputs, count, 0) {
        Some(LaunchError::ReaderIndex { index, bindings: count as usize })
    } else if let Some(index) = first_out_of_range(outputs, count, 0) {
        Some(LaunchError::WriterIndex { index, bindings: count as usize })
    } else if sources.num_inputs != inputs.len() as u32 {
        Some(
            LaunchError::InputCount { expected: sources.num_inputs, found: inputs.len() as usize },
        )
    } else if sources.num_outputs != outputs.len() as u32 {
        Some(
            LaunchError::OutputCount {
                expected: sources.num_outputs,
                found: outputs.len() as usize,
            },
        )
    } else if sources.buffer_item_sizes.len() > 0 && sources.buffer_item_sizes.len() != count {
        Some(
            LaunchError::ItemSizeCount {
                expected: sources.buffer_item_sizes.len(),
                found: count as usize,
            },
        )
    } else if let Some(error) = first_item_mismatch(sources.buffer_item_sizes@, item_sizes, 0) {
        Some(error)
    } else if sources.io_layout is Tiled && count == 0 {
        Some(LaunchError::NoBinding)
    } else {
        uneven_if_tiled(sources, item_sizes, lengths(resources))
    }
}

/// The first reason why a launch without an info block is refused.
pub open spec fn metadata_refusal(kernel: ComputeKernel, sources: TtKernelSources, count: nat) -> Option<
    LaunchError,
> {
    if kernel.body.has_dynamic_meta {
        Some(LaunchError::DynamicMetadata)
    } else if sources.info_static_len == 0 {
        None
    } else if sources.buffer_item_sizes.len() != count {
        Some(
            LaunchError::StaticMetadata {
                bindings: count as usize,
                sizes: sources.buffer_item_sizes.len(),
            },
        )
    } else if 2 * count != sources.info_static_len {
        Some(
            LaunchError::StaticArguments {
                derived: (2 * count) as usize,
                expected: sources.info_static_len,
            },
        )
    } else {
        None
    }
}

/// The first reason why a launch is refused. `has_info` says whether the launch comes
/// with an info block.
pub open spec fn refusal(
    kernel: ComputeKernel,
    sources: TtKernelSources,
    resources: Seq<TtResource>,
    has_info: bool,
) -> Option<LaunchError> {
    if let Some(error) = buffers_refusal(kernel, sources, resources) {
        Some(error)
    } else if has_info {
        None
    } else {
        metadata_refusal(kernel, sources, resources.len())
    }
}

pub open spec fn uneven_if_tiled(sources: TtKernelSources, item_sizes: Seq<u32>, lengths: Seq<u64>) -> Option<
    LaunchError,
> {
    if sources.io_layout is Tiled {
        first_uneven(item_sizes, lengths, 0)
    } else {
        None
    }
}

/// Compile-time arguments of a buffer, with the size of its pages where one is given.
pub open spec fn adjusted(args: Seq<u32>, page_size: Option<u32>) -> Seq<u32> {
    match page_size {
        Some(size) if args.len() > 1 => args.update(1, size),
        _ => args,
    }
}

/// On logical buffers the accessors go by the kernel's tile size.
pub open spec fn accessor_page_size(sources: TtKernelSources) -> Option<u32> {
    if sources.io_layout is Tiled {
        None
    } else {
        Some(sources.tile_size_bytes)
    }
}

/// The compile-time arguments of the first `count` of the chosen buffers, one after
/// another.
pub open spec fn joined_args(
    resources: Seq<TtResource>,
    indices: Seq<usize>,
    page_size: Option<u32>,
    count: nat,
) -> Seq<u32>
    decreases count,
{
    if count == 0 {
        Seq::empty()
    } else {
        joined_args(resources, indices, page_size, (count - 1) as nat) + adjusted(
            resources[indices[count - 1] as int].compile_args@,
            page_size,
        )
    }
}

/// The addresses of the chosen buffers.
pub open spec fn addresses(resources: Seq<TtResource>, indices: Seq<usize>) -> Seq<u32> {
    indices.map_values(|index: usize| resources[index as int].address)
}

/// The size of an element of a tile, at least one byte.
pub open spec fn tiled_item_size(sources: TtKernelSources) -> int {
    math::at_least_one(sources.tile_size_bytes as int / 1024)
}

/// The number of elements of the first buffer.
pub open spec fn tiled_elements(sources: TtKernelSources, resources: Seq<TtResource>) -> int {
    math::ceil_div(resources[0].size as int, tiled_item_size(sources))
}

/// The number of tiles that hold the elements of the first buffer.
pub open spec fn tiled_tiles(sources: TtKernelSources, resources: Seq<TtResource>) -> int {
    math::at_least_one(
        math::ceil_div(
            tiled_elements(sources, resources),
            sources.tile_size_bytes as int / tiled_item_size(sources),
        ),
    )
}

/// The number of units that a buffer has, as the device counts them.
pub open spec fn units_in(size: u64, unit_size: int) -> u32 {
    math::ceil_div(size as int, unit_size) as u32
}

pub open spec fn larger(a: u32, b: u32) -> u32 {
    if a < b {
        b
    } else {
        a
    }
}

/// The largest number of units of the first `count` of the chosen buffers.
pub open spec fn most_units(resources: Seq<TtResource>, indices: Seq<usize>, unit_size: int, count: nat) -> u32
    decreases count,
{
    if count == 0 {
        0
    } else {
        larger(
            most_units(resources, indices, unit_size, (count - 1) as nat),
            units_in(resources[indices[count - 1] as int].size, unit_size),
        )
    }
}

/// All positions among `count` buffers.
pub open spec fn all_positions(count: nat) -> Seq<usize> {
    Seq::new(count, |i: int| i as usize)
}

/// The number of units of the outputs, or of all buffers where there is no output; at
/// least one.
pub open spec fn logical_units(resources: Seq<TtResource>, outputs: Seq<usize>, unit_size: int) -> u32 {
    let chosen = if outputs.len() > 0 {
        outputs
    } else {
        all_positions(resources.len())
    };
    larger(most_units(resources, chosen, unit_size, chosen.len()), 1)
}

/// The number of units that the scalar path runs: what is launched, or what the
/// buffers hold where the count is dynamic.
pub open spec fn dispatched_units(
    kernel: ComputeKernel,
    sources: TtKernelSources,
    resources: Seq<TtResource>,
    count: CubeCount,
) -> u32 {
    let launched = launched_units(count, kernel.cube_dim.units());
    if launched == 0 {
        logical_units(
            resources,
            outputs_of(kernel, sources),
            math::at_least_one(sources.unit_item_size_bytes as int),
        )
    } else {
        launched as u32
    }
}

/// The number of tiles of a launch.
pub open spec fn launched_tiles(
    kernel: ComputeKernel,
    sources: TtKernelSources,
    resources: Seq<TtResource>,
    count: CubeCount,
) -> u32 {
    if sources.io_layout is Tiled {
        tiled_tiles(sources, resources) as u32
    } else {
        math::at_least_one(
            math::ceil_div(
                dispatched_units(kernel, sources, resources, count) as int,
                scalar_writer::tile_units(
                    sources.tile_size_bytes as nat,
                    math::at_least_one(sources.unit_item_size_bytes as int) as nat,
                ) as int,
            ),
        ) as u32
    }
}

/// The lengths of the buffers in items.
pub open spec fn item_counts(resources: Seq<TtResource>, item_sizes: Seq<u32>) -> Seq<u32> {
    Seq::new(
        resources.len(),
        |i: int| units_in(resources[i].size, math::at_least_one(item_sizes[i] as int)),
    )
}

/// The static info block: the length of each buffer, twice.
pub open spec fn static_info(resources: Seq<TtResource>, sources: TtKernelSources) -> Seq<u32> {
    item_counts(resources, sources.buffer_item_sizes@) + item_counts(
        resources,
        sources.buffer_item_sizes@,
    )
}

/// The words that the scalar writer reads before its info block: the number of units
/// and the cube count.
pub open spec fn scalar_prefix(units: u32, count: CubeCount) -> Seq<u32> {
    seq![units] + cube_count_words(count)
}

/// The number of staged tiles, where the first input is staged.
pub open spec fn staging_words(sources: TtKernelSources) -> Seq<u32> {
    if sources.full_input_staging_tiles > 0 {
        seq![sources.full_input_staging_tiles]
    } else {
        Seq::empty()
    }
}

/// The further runtime arguments of the writer.
pub open spec fn writer_args(
    kernel: ComputeKernel,
    sources: TtKernelSources,
    resources: Seq<TtResource>,
    info_words: Seq<u32>,
    count: CubeCount,
) -> Seq<u32> {
    let units = dispatched_units(kernel, sources, resources, count);
    let tiled = sources.io_layout is Tiled;
    if info_words.len() > 0 {
        if tiled {
            info_words
        } else {
            scalar_prefix(units, count) + info_words
        }
    } else if sources.info_static_len > 0 {
        if tiled {
            static_info(resources, sources)
        } else {
            scalar_prefix(units, count) + staging_words(sources) + static_info(resources, sources)
        }
    } else if tiled {
        sources.writer_runtime_args@
    } else {
        scalar_prefix(units, count) + staging_words(sources)
    }
}

/// The further runtime arguments of the compute kernel.
pub open spec fn compute_args(
    sources: TtKernelSources,
    resources: Seq<TtResource>,
    info_words: Seq<u32>,
) -> Seq<u32> {
    if info_words.len() == 0 && sources.info_static_len > 0 {
        static_info(resources, sources)
    } else {
        sources.compute_runtime_args@
    }
}

/// A binding says of its buffer what the kernel and the resource say.
pub open spec fn is_binding(binding: RuntimeBinding, buffer: KernelArg, resource: TtResource) -> bool {
    &&& binding.visibility == buffer.vis
    &&& binding.address == resource.address
    &&& binding.logical_size_bytes == resource.size
    &&& binding.allocation_size_bytes == resource.allocation_size
    &&& binding.compile_args@ == resource.compile_args@
    &&& binding.item_size_bytes == buffer.item.bytes() as u32
}

impl PreparedLaunch {
    /// Whether this is the launch of a kernel: the sources with their compile-time
    /// arguments, number of tiles and runtime arguments, and nothing else changed.
    pub open spec fn is_launch(
        self,
        kernel: ComputeKernel,
        sources: TtKernelSources,
        resources: Seq<TtResource>,
        info_words: Seq<u32>,
        count: CubeCount,
    ) -> bool {
        let inputs = inputs_of(kernel, sources);
        let outputs = outputs_of(kernel, sources);
        let page_size = accessor_page_size(sources);
        &&& self.input_addrs@ == addresses(resources, inputs)
        &&& self.output_addrs@ == addresses(resources, outputs)
        &&& self.bindings.len() == resources.len()
        &&& forall|i: int|
            0 <= i < resources.len() ==> is_binding(
                #[trigger] self.bindings[i],
                kernel.buffers[i],
                resources[i],
            )
        &&& self.sources.reader_compile_args@ == joined_args(
            resources,
            inputs,
            page_size,
            inputs.len(),
        )
        &&& self.sources.writer_compile_args@ == joined_args(
            resources,
            outputs,
            page_size,
            outputs.len(),
        )
        &&& self.sources.num_tiles == launched_tiles(kernel, sources, resources, count)
        &&& self.sources.writer_runtime_args@ == writer_args(
            kernel,
            sources,
            resources,
            info_words,
            count,
        )
        &&& self.sources.compute_runtime_args@ == compute_args(sources, resources, info_words)
        &&& self.sources == (TtKernelSources {
            reader_compile_args: self.sources.reader_compile_args,
            writer_compile_args: self.sources.writer_compile_args,
            num_tiles: self.sources.num_tiles,
            writer_runtime_args: self.sources.writer_runtime_args,
            compute_runtime_args: self.sources.compute_runtime_args,
            ..sources
        })
    }
}

fn runtime_bindings(buffers: &Vec<KernelArg>, resources: &Vec<TtResource>) -> (bindings: Vec<
    RuntimeBinding,
>)
    requires
        buffers.len() == resources.len(),
        forall|i: int| 0 <= i < buffers.len() ==> (#[trigger] buffers[i]).item.wf(),
    ensures
        bindings.len() == resources.len(),
        forall|i: int|
            0 <= i < resources.len() ==> is_binding(
                #[trigger] bindings[i],
                buffers[i],
                resources[i],
            ),
{
    let mut bindings: Vec<RuntimeBinding> = Vec::new();
    let mut i: usize = 0;
    while i < resources.len()
        invariant
            i <= resources.len(),
            i == bindings.len(),
            buffers.len() == resources.len(),
            forall|i: int| 0 <= i < buffers.len() ==> (#[trigger] buffers[i]).item.wf(),
            forall|j: int|
                0 <= j < i ==> is_binding(#[trigger] bindings[j], buffers[j], resources[j]),
        decreases resources.len() - i,
    {
        let resource = &resources[i];
        bindings.push(
            RuntimeBinding {
                visibility: buffers[i].vis,
                address: resource.address,
                logical_size_bytes: resource.size,
                allocation_size_bytes: resource.allocation_size,
                compile_args: copy_words(&resource.compile_args),
                item_size_bytes: buffers[i].item.size() as u32,
            },
        );
        i += 1;
    }
    bindings
}

fn choose_positions(written: &Vec<usize>, count: u32, buffers: &Vec<KernelArg>, outputs: bool) -> (indices: Vec<
    usize,
>)
    ensures
        indices@ == binding_positions(written@, count, buffers@, outputs),
{
    if written.len() == 0 && count > 0 {
        return compile::binding_indices(buffers, false, outputs);
    }
    copy_indices(written)
}

fn find_out_of_range(indices: &Vec<usize>, bindings: usize) -> (index: Option<usize>)
    ensures
        index == first_out_of_range(indices@, bindings as nat, 0),
        index is None ==> forall|i: int| 0 <= i < indices.len() ==> #[trigger] indices[i] < bindings,
{
    let mut i: usize = 0;
    while i < indices.len()
        invariant
            i <= indices.len(),
            first_out_of_range(indices@, bindings as nat, 0) == first_out_of_range(
                indices@,
                bindings as nat,
                i as nat,
            ),
            forall|j: int| 0 <= j < i ==> #[trigger] indices[j] < bindings,
        decreases indices.len() - i,
    {
        if indices[i] >= bindings {
            return Some(indices[i]);
        }
        i += 1;
    }
    None
}

fn addresses_of(resources: &Vec<TtResource>, indices: &Vec<usize>) -> (result: Vec<u32>)
    requires
        forall|i: int| 0 <= i < indices.len() ==> #[trigger] indices[i] < resources.len(),
    ensures
        result@ == addresses(resources@, indices@),
{
    let mut result: Vec<u32> = Vec::new();
    let mut i: usize = 0;
    while i < indices.len()
        invariant
            i <= indices.len(),
            forall|i: int| 0 <= i < indices.len() ==> #[trigger] indices[i] < resources.len(),
            result@ == addresses(resources@, indices@).take(i as int),
        decreases indices.len() - i,
    {
        result.push(resources[indices[i]].address);
        assert(addresses(resources@, indices@).take(i + 1) =~= addresses(
            resources@,
            indices@,
        ).take(i as int).push(addresses(resources@, indices@)[i as int]));
        i += 1;
    }
    assert(addresses(resources@, indices@).take(i as int) =~= addresses(resources@, indices@));
    result
}

fn joined_args_of(resources: &Vec<TtResource>, indices: &Vec<usize>, page_size: Option<u32>) -> (result: Vec<
    u32,
>)
    requires
        forall|i: int| 0 <= i < indices.len() ==> #[trigger] indices[i] < resources.len(),
    ensures
        result@ == joined_args(resources@, indices@, page_size, indices.len() as nat),
{
    let mut result: Vec<u32> = Vec::new();
    let mut i: usize = 0;
    while i < indices.len()
        invariant
            i <= indices.len(),
            forall|i: int| 0 <= i < indices.len() ==> #[trigger] indices[i] < resources.len(),
            result@ == joined_args(resources@, indices@, page_size, i as nat),
        decreases indices.len() - i,
    {
        let mut args = copy_words(&resources[indices[i]].compile_args);
        if let Some(size) = page_size {
            if args.len() > 1 {
                args.set(1, size);
            }
        }
        result.append(&mut args);
        i += 1;
    }
    result
}

fn find_item_mismatch(expected: &Vec<u32>, found: &Vec<u32>) -> (error: Option<LaunchError>)
    requires
        expected.len() == 0 || expected.len() == found.len(),
    ensures
        error == first_item_mismatch(expected@, found@, 0),
{
    let mut i: usize = 0;
    while i < expected.len()
        invariant
            i <= expected.len(),
            expected.len() == 0 || expected.len() == found.len(),
            first_item_mismatch(expected@, found@, 0) == first_item_mismatch(
                expected@,
                found@,
                i as nat,
            ),
        decreases expected.len() - i,
    {
        if expected[i] != found[i] {
            return Some(
                LaunchError::ItemSize { index: i, expected: expected[i], found: found[i] },
            );
        }
        i += 1;
    }
    None
}

fn find_uneven(item_sizes: &Vec<u32>, resources: &Vec<TtResource>) -> (error: Option<LaunchError>)
    requires
        item_sizes.len() == resources.len(),
    ensures
        error == first_uneven(item_sizes@, lengths(resources@), 0),
{
    let mut i: usize = 0;
    while i < item_sizes.len()
        invariant
            i <= item_sizes.len(),
            item_sizes.len() == resources.len(),
            first_uneven(item_sizes@, lengths(resources@), 0) == first_uneven(
                item_sizes@,
                lengths(resources@),
                i as nat,
            ),
        decreases item_sizes.len() - i,
    {
        if item_sizes[i] != item_sizes[0] {
            return Some(
                LaunchError::MixedItemSize {
                    first: item_sizes[0],
                    index: i,
                    found: item_sizes[i],
                },
            );
        }
        if resources[i].size != resources[0].size {
            return Some(
                LaunchError::MixedLength {
                    first: resources[0].size,
                    index: i,
                    found: resources[i].size,
                },
            );
        }
        i += 1;
    }
    None
}

fn count_most_units(resources: &Vec<TtResource>, indices: &Vec<usize>, unit_size: u64) -> (units: u32)
    requires
        unit_size > 0,
        forall|i: int| 0 <= i < indices.len() ==> #[trigger] indices[i] < resources.len(),
    ensures
        units == most_units(resources@, indices@, unit_size as int, indices.len() as nat),
{
    let mut units: u32 = 0;
    let mut i: usize = 0;
    while i < indices.len()
        invariant
            i <= indices.len(),
            unit_size > 0,
            forall|i: int| 0 <= i < indices.len() ==> #[trigger] indices[i] < resources.len(),
            units == most_units(resources@, indices@, unit_size as int, i as nat),
        decreases indices.len() - i,
    {
        let found: u32 = math::div_ceil(resources[indices[i]].size, unit_size) as u32;
        if units < found {
            units = found;
        }
        i += 1;
    }
    units
}

fn all_positions_of(count: usize) -> (indices: Vec<usize>)
    ensures
        indices@ == all_positions(count as nat),
{
    let mut indices: Vec<usize> = Vec::new();
    let mut i: usize = 0;
    while i < count
        invariant
            i <= count,
            indices@ == all_positions(i as nat),
        decreases count - i,
    {
        indices.push(i);
        assert(all_positions((i + 1) as nat) =~= all_positions(i as nat).push(i));
        i += 1;
    }
    indices
}

fn count_logical_units(resources: &Vec<TtResource>, outputs: &Vec<usize>, unit_size: u64) -> (units: u32)
    requires
        unit_size > 0,
        forall|i: int| 0 <= i < outputs.len() ==> #[trigger] outputs[i] < resources.len(),
    ensures
        units == logical_units(resources@, outputs@, unit_size as int),
{
    let units: u32 = if outputs.len() > 0 {
        count_most_units(resources, outputs, unit_size)
    } else {
        let all = all_positions_of(resources.len());
        count_most_units(resources, &all, unit_size)
    };
    if units < 1 {
        1
    } else {
        units
    }
}

fn count_items(resources: &Vec<TtResource>, item_sizes: &Vec<u32>) -> (counts: Vec<u32>)
    requires
        resources.len() == item_sizes.len(),
    ensures
        counts@ == item_counts(resources@, item_sizes@),
{
    let mut counts: Vec<u32> = Vec::new();
    let mut i: usize = 0;
    while i < resources.len()
        invariant
            i <= resources.len(),
            resources.len() == item_sizes.len(),
            counts@ == item_counts(resources@, item_sizes@).take(i as int),
        decreases resources.len() - i,
    {
        let item_size: u64 = math::max_one(item_sizes[i] as u64);
        counts.push(math::div_ceil(resources[i].size, item_size) as u32);
        assert(item_counts(resources@, item_sizes@).take(i + 1) =~= item_counts(
            resources@,
            item_sizes@,
        ).take(i as int).push(item_counts(resources@, item_sizes@)[i as int]));
        i += 1;
    }
    assert(item_counts(resources@, item_sizes@).take(i as int) =~= item_counts(
        resources@,
        item_sizes@,
    ));
    counts
}

fn count_launched_units(count: CubeCount, cube_units: u32) -> (units: u32)
    ensures
        units == launched_units(count, cube_units as int),
{
    match count {
        CubeCount::Static(x, y, z) => math::max_one(
            math::saturating_mul(
                math::saturating_mul(math::saturating_mul(x, y), z),
                cube_units,
            ) as u64,
        ) as u32,
        CubeCount::Dynamic => 0,
    }
}

fn scalar_prefix_of(units: u32, count: CubeCount) -> (words: Vec<u32>)
    ensures
        words@ == scalar_prefix(units, count),
{
    let (x, y, z) = match count {
        CubeCount::Static(x, y, z) => (x, y, z),
        CubeCount::Dynamic => (0, 0, 0),
    };
    let words = vec![units, x, y, z];
    assert(words@ =~= scalar_prefix(units, count));
    words
}

/// The number of tiles of a launch on tiled buffers.
fn count_tiled_tiles(sources: &TtKernelSources, resources: &Vec<TtResource>) -> (tiles: u32)
    requires
        resources.len() > 0,
        sources.tile_size_bytes > 0,
    ensures
        tiles == tiled_tiles(*sources, resources@) as u32,
{
    let item_size: u64 = math::max_one(sources.native_scalar_size_bytes() as u64);
    proof {
        let size = sources.tile_size_bytes as int;
        assert(item_size as int == tiled_item_size(*sources));
        assert(1 <= size / (item_size as int)) by (nonlinear_arith)
            requires
                size >= 1,
                item_size as int == size / 1024 || item_size == 1,
                item_size >= 1,
        {
            assert(size / (item_size as int) >= 1) by {
                vstd::arithmetic::div_mod::lemma_div_is_ordered(
                    item_size as int,
                    size,
                    item_size as int,
                );
                vstd::arithmetic::div_mod::lemma_div_by_self(item_size as int);
            }
        }
    }
    let tile_elements: u64 = sources.tile_size_bytes as u64 / item_size;
    let elements: u64 = math::div_ceil(resources[0].size, item_size);
    math::max_one(math::div_ceil(elements, tile_elements)) as u32
}

/// The number of units and of tiles of a launch that passed all checks on its buffers.
fn count_units_and_tiles(
    kernel: &ComputeKernel,
    sources: &TtKernelSources,
    resources: &Vec<TtResource>,
    outputs: &Vec<usize>,
    count: CubeCount,
) -> (result: (u32, u32))
    requires
        kernel.wf(),
        outputs@ == outputs_of(*kernel, *sources),
        forall|i: int| 0 <= i < outputs.len() ==> #[trigger] outputs[i] < resources.len(),
        sources.io_layout is Tiled ==> resources.len() > 0 && sources.tile_size_bytes > 0,
    ensures
        result.0 == dispatched_units(*kernel, *sources, resources@, count),
        result.1 == launched_tiles(*kernel, *sources, resources@, count),
{
    let unit_size: u64 = math::max_one(sources.unit_item_size_bytes as u64);
    let launched: u32 = count_launched_units(count, kernel.cube_dim.num_elems());
    let units: u32 = if launched == 0 {
        count_logical_units(resources, outputs, unit_size)
    } else {
        launched
    };
    if sources.requires_tiled_io() {
        return (units, count_tiled_tiles(sources, resources));
    }
    let tile_units: u32 = scalar_writer::count_tile_units(
        sources.tile_size_bytes,
        unit_size as usize,
    );
    let tiles: u64 = math::max_one(math::div_ceil(units as u64, tile_units as u64));
    (units, tiles as u32)
}

/// Bind the sources of a kernel to the buffers of a launch whose info block is already
/// split into words.
pub fn prepare_launch_from_words(
    kernel: &ComputeKernel,
    sources: TtKernelSources,
    resources: &Vec<TtResource>,
    info_words: Vec<u32>,
    count: CubeCount,
) -> (result: Result<PreparedLaunch, LaunchError>)
    requires
        kernel.wf(),
        sources.io_layout is Tiled && buffers_refusal(*kernel, sources, resources@) is None
            ==> sources.tile_size_bytes > 0,
    ensures
        match result {
            Ok(prepared) => refusal(*kernel, sources, resources@, info_words.len() > 0) is None
                && prepared.is_launch(*kernel, sources, resources@, info_words@, count),
            Err(error) => refusal(*kernel, sources, resources@, info_words.len() > 0) == Some(
                error,
            ),
        },
{
    let ghost given = sources;
    let bound: usize = resources.len();
    if bound != kernel.buffers.len() {
        return Err(LaunchError::Arity { resources: bound, buffers: kernel.buffers.len() });
    }
    let bindings = runtime_bindings(&kernel.buffers, resources);
    let inputs = choose_positions(
        &sources.input_binding_indices,
        sources.num_inputs,
        &kernel.buffers,
        false,
    );
    let outputs = choose_positions(
        &sources.output_binding_indices,
        sources.num_outputs,
        &kernel.buffers,
        true,
    );
    if let Some(index) = find_out_of_range(&inputs, bound) {
        return Err(LaunchError::ReaderIndex { index, bindings: bound });
    }
    if let Some(index) = find_out_of_range(&outputs, bound) {
        return Err(LaunchError::WriterIndex { index, bindings: bound });
    }
    if sources.num_inputs != inputs.len() as u32 {
        return Err(
            LaunchError::InputCount { expected: sources.num_inputs, found: inputs.len() },
        );
    }
    if sources.num_outputs != outputs.len() as u32 {
        return Err(
            LaunchError::OutputCount { expected: sources.num_outputs, found: outputs.len() },
        );
    }
    let tiled = sources.requires_tiled_io();
    let page_size = if tiled {
        None
    } else {
        Some(sources.tile_size_bytes)
    };
    let input_addrs = addresses_of(resources, &inputs);
    let output_addrs = addresses_of(resources, &outputs);
    let reader_compile_args = joined_args_of(resources, &inputs, page_size);
    let writer_compile_args = joined_args_of(resources, &outputs, page_size);
    if sources.buffer_item_sizes.len() > 0 && sources.buffer_item_sizes.len() != bound {
        return Err(
            LaunchError::ItemSizeCount { expected: sources.buffer_item_sizes.len(), found: bound },
        );
    }
    let item_sizes = compile::item_sizes(&kernel.buffers);
    if let Some(error) = find_item_mismatch(&sources.buffer_item_sizes, &item_sizes) {
        return Err(error);
    }
    if tiled {
        if bound == 0 {
            return Err(LaunchError::NoBinding);
        }
        if let Some(error) = find_uneven(&item_sizes, resources) {
            return Err(error);
        }
    }
    let (units, tiles) = count_units_and_tiles(kernel, &sources, resources, &outputs, count);
    let mut sources = sources.with_compile_args(
        reader_compile_args,
        writer_compile_args,
    ).with_num_tiles(tiles);
    let mut info_words = info_words;
    if info_words.len() > 0 {
        if tiled {
            sources = sources.with_writer_runtime_args(info_words);
        } else {
            let mut words = scalar_prefix_of(units, count);
            words.append(&mut info_words);
            sources = sources.with_writer_runtime_args(words);
        }
    } else {
        if kernel.body.has_dynamic_meta {
            return Err(LaunchError::DynamicMetadata);
        }
        let mut staging: Vec<u32> = Vec::new();
        if sources.full_input_staging_tiles > 0 {
            staging.push(sources.full_input_staging_tiles);
        }
        assert(staging@ =~= staging_words(given));
        if sources.info_static_len > 0 {
            if sources.buffer_item_sizes.len() != bound {
                return Err(
                    LaunchError::StaticMetadata {
                        bindings: bound,
                        sizes: sources.buffer_item_sizes.len(),
                    },
                );
            }
            let mut info = count_items(resources, &sources.buffer_item_sizes);
            let mut again = copy_words(&info);
            info.append(&mut again);
            assert(info@ =~= static_info(resources@, given));
            if info.len() != sources.info_static_len {
                return Err(
                    LaunchError::StaticArguments {
                        derived: info.len(),
                        expected: sources.info_static_len,
                    },
                );
            }
            sources = sources.with_compute_runtime_args(copy_words(&info));
            if tiled {
                sources = sources.with_writer_runtime_args(info);
            } else {
                let mut words = scalar_prefix_of(units, count);
                words.append(&mut staging);
                words.append(&mut info);
                sources = sources.with_writer_runtime_args(words);
            }
        } else if !tiled {
            let mut words = scalar_prefix_of(units, count);
            words.append(&mut staging);
            sources = sources.with_writer_runtime_args(words);
        }
    }
    Ok(PreparedLaunch { sources, input_addrs, output_addrs, bindings })
}

/// Whether `words` are the halves of `data`, the low half of each before or behind the
/// high half.
pub open spec fn is_split(data: Seq<u64>, words: Seq<u32>, low_first: bool) -> bool {
    &&& words.len() == 2 * data.len()
    &&& forall|i: int|
        0 <= i < data.len() ==> {
            let low = (#[trigger] data[i] % 0x1_0000_0000) as u32;
            let high = (data[i] / 0x1_0000_0000) as u32;
            if low_first {
                words[2 * i] == low && words[2 * i + 1] == high
            } else {
                words[2 * i] == high && words[2 * i + 1] == low
            }
        }
}

/// Split the words of an info block in two, as they stand in memory.
///
/// Trusted: `bytemuck::cast_slice` from `u64` to `u32` gives twice as many words, the
/// two halves of each in the byte order of the machine. It cannot fail, since the
/// target is smaller and less aligned.
#[verifier::external_body]
fn split_words(data: &Vec<u64>) -> (words: Vec<u32>)
    ensures
        is_split(data@, words@, true) || is_split(data@, words@, false),
{
    bytemuck::cast_slice::<u64, u32>(data).to_vec()
}

/// Whether `words` are what the machine makes of `data` where it splits them.
pub closed spec fn is_machine_split(data: Seq<u64>, words: Seq<u32>) -> bool {
    exists|given: Vec<u64>, made: Vec<u32>| #[trigger]
        call_ensures(split_words, (&given,), made) && given@ == data && made@ == words
}

/// Whether `words` are those of an info block: its halves in the order in which the
/// machine has them in memory, which is the same for the whole block.
pub open spec fn are_info_words(info: Seq<u64>, words: Seq<u32>) -> bool {
    &&& is_machine_split(info, words)
    &&& is_split(info, words, true) || is_split(info, words, false)
}

/// The words of an info block, as the device reads them.
pub fn info_words(info: &Vec<u64>) -> (words: Vec<u32>)
    ensures
        are_info_words(info@, words@),
{
    let words = split_words(info);
    assert(call_ensures(split_words, (info,), words));
    words
}

/// Bind the sources of a kernel to the buffers and the info block of a launch.
pub fn prepare_launch(
    kernel: &ComputeKernel,
    sources: TtKernelSources,
    resources: &Vec<TtResource>,
    info: &Vec<u64>,
    count: CubeCount,
) -> (result: Result<PreparedLaunch, LaunchError>)
    requires
        kernel.wf(),
        sources.io_layout is Tiled && buffers_refusal(*kernel, sources, resources@) is None
            ==> sources.tile_size_bytes > 0,
    ensures
        match result {
            Ok(prepared) => refusal(*kernel, sources, resources@, info.len() > 0) is None && exists|
                words: Seq<u32>,
            |
                are_info_words(info@, words) && #[trigger] prepared.is_launch(
                    *kernel,
                    sources,
                    resources@,
                    words,
                    count,
                ),
            Err(error) => refusal(*kernel, sources, resources@, info.len() > 0) == Some(error),
        },
{
    let words = info_words(info);
    prepare_launch_from_words(kernel, sources, resources, words, count)
}

/// The tiles of a launch on logical buffers have room for all its units.
pub proof fn law_tiles_have_room_for_all_units(
    kernel: ComputeKernel,
    sources: TtKernelSources,
    resources: Seq<TtResource>,
    count: CubeCount,
)
    requires
        sources.io_layout is Logical,
    ensures
        launched_tiles(kernel, sources, resources, count) * scalar_writer::tile_units(
            sources.tile_size_bytes as nat,
            math::at_least_one(sources.unit_item_size_bytes as int) as nat,
        ) >= dispatched_units(kernel, sources, resources, count),
{
    let units = dispatched_units(kernel, sources, resources, count) as int;
    let unit_size = math::at_least_one(sources.unit_item_size_bytes as int);
    let tile_units = scalar_writer::tile_units(
        sources.tile_size_bytes as nat,
        unit_size as nat,
    ) as int;
    assert(tile_units > 0) by {
        assert(sources.tile_size_bytes as int / unit_size >= 0) by (nonlinear_arith)
            requires
                unit_size >= 1,
                sources.tile_size_bytes >= 0,
        ;
    }
    math::law_ceil_div_is_least(units, tile_units);
    let tiles = math::at_least_one(math::ceil_div(units, tile_units));
    assert(tiles * tile_units >= units) by (nonlinear_arith)
        requires
            math::ceil_div(units, tile_units) * tile_units >= units,
            tiles >= math::ceil_div(units, tile_units),
            tile_units > 0,
    ;
}

/// A launch with a static count dispatches the units that it asks for, whatever its
/// buffers hold.
pub proof fn law_static_count_decides(
    kernel: ComputeKernel,
    sources: TtKernelSources,
    resources: Seq<TtResource>,
    x: u32,
    y: u32,
    z: u32,
)
    requires
        kernel.wf(),
        x * y <= u32::MAX,
        x * y * z <= u32::MAX,
        0 < x * y * z * kernel.cube_dim.units() <= u32::MAX,
    ensures
        dispatched_units(kernel, sources, resources, CubeCount::Static(x, y, z)) == x * y * z
            * kernel.cube_dim.units(),
{
}

/// Whether `count` is the least number of items of the given size that hold `size` bytes.
pub open spec fn is_least_count(count: int, item_size: int, size: int) -> bool {
    &&& count >= 0
    &&& count * item_size >= size
    &&& count > 0 ==> (count - 1) * item_size < size
}

/// The size that items are counted by: items without a size count as bytes.
pub open spec fn counted_size(item_size: u32) -> int {
    if item_size == 0 {
        1
    } else {
        item_size as int
    }
}

/// A kernel that is told the lengths of its buffers is told of each buffer its own length,
/// in items of its own size, rounded up; twice, as shape and as length.
pub proof fn law_buffers_have_their_own_lengths(
    prepared: PreparedLaunch,
    kernel: ComputeKernel,
    sources: TtKernelSources,
    resources: Seq<TtResource>,
    count: CubeCount,
    at: int,
)
    requires
        prepared.is_launch(kernel, sources, resources, Seq::empty(), count),
        sources.info_static_len > 0,
        sources.buffer_item_sizes.len() == resources.len(),
        0 <= at < resources.len(),
        resources[at].size <= u32::MAX * counted_size(sources.buffer_item_sizes[at]),
    ensures
        ({
            let words = prepared.sources.compute_runtime_args@;
            let item_size = counted_size(sources.buffer_item_sizes[at]);
            &&& words.len() == 2 * resources.len()
            &&& is_least_count(words[at] as int, item_size, resources[at].size as int)
            &&& words[resources.len() + at] == words[at]
        }),
        sources.io_layout is Logical ==> {
            let words = prepared.sources.writer_runtime_args@;
            words.skip(words.len() - 2 * resources.len())
                == prepared.sources.compute_runtime_args@
        },
        sources.io_layout is Tiled ==> prepared.sources.writer_runtime_args@
            == prepared.sources.compute_runtime_args@,
{
    let item_size = counted_size(sources.buffer_item_sizes[at]);
    let size = resources[at].size as int;
    math::law_ceil_div_is_least(size, item_size);
    let least = math::ceil_div(size, item_size);
    assert(least <= u32::MAX) by (nonlinear_arith)
        requires
            (size > 0 ==> (least - 1) * item_size < size),
            size <= u32::MAX * item_size,
            item_size >= 1,
            size == 0 ==> least <= 0,
            size >= 0,
    ;
    let words = prepared.sources.compute_runtime_args@;
    assert(words == static_info(resources, sources));
    if sources.io_layout is Logical {
        let all = prepared.sources.writer_runtime_args@;
        assert(all.skip(all.len() - 2 * resources.len()) =~= static_info(resources, sources));
    }
}

/// The addresses of a launch are those of the buffers that the kernel reads, or writes, in
/// the order of the buffers.
pub proof fn law_addresses_are_those_of_the_buffers(
    prepared: PreparedLaunch,
    kernel: ComputeKernel,
    sources: TtKernelSources,
    resources: Seq<TtResource>,
    info_words: Seq<u32>,
    count: CubeCount,
    at: int,
)
    requires
        prepared.is_launch(kernel, sources, resources, info_words, count),
    ensures
        sources.input_binding_indices.len() > 0 ==> {
            &&& prepared.input_addrs.len() == sources.input_binding_indices.len()
            &&& 0 <= at < prepared.input_addrs.len() ==> prepared.input_addrs[at]
                == resources[sources.input_binding_indices[at] as int].address
        },
        sources.output_binding_indices.len() > 0 ==> {
            &&& prepared.output_addrs.len() == sources.output_binding_indices.len()
            &&& 0 <= at < prepared.output_addrs.len() ==> prepared.output_addrs[at]
                == resources[sources.output_binding_indices[at] as int].address
        },
{
}

proof fn lemma_most_units(resources: Seq<TtResource>, indices: Seq<usize>, unit_size: int, count: nat)
    requires
        count <= indices.len(),
    ensures
        forall|i: int|
            0 <= i < count ==> units_in(resources[#[trigger] indices[i] as int].size, unit_size)
                <= most_units(resources, indices, unit_size, count),
        most_units(resources, indices, unit_size, count) > 0 ==> exists|i: int|
            0 <= i < count && units_in(resources[#[trigger] indices[i] as int].size, unit_size)
                == most_units(resources, indices, unit_size, count),
    decreases count,
{
    if count > 0 {
        lemma_most_units(resources, indices, unit_size, (count - 1) as nat);
        assert(indices[count - 1] == indices[count - 1]);
    }
}

/// A launch with a dynamic count runs as many units as its largest output holds, or its
/// largest buffer where it has no output, and at least one.
pub proof fn law_dynamic_counts_follow_the_outputs(
    kernel: ComputeKernel,
    sources: TtKernelSources,
    resources: Seq<TtResource>,
    at: int,
)
    requires
        resources.len() <= usize::MAX,
    ensures
        ({
            let outputs = outputs_of(kernel, sources);
            let unit_size = counted_size(sources.unit_item_size_bytes);
            let units = dispatched_units(kernel, sources, resources, CubeCount::Dynamic);
            &&& units >= 1
            &&& 0 <= at < outputs.len() && resources[outputs[at] as int].size <= u32::MAX ==> units
                * unit_size >= resources[outputs[at] as int].size
            &&& outputs.len() == 0 && 0 <= at < resources.len() && resources[at].size <= u32::MAX
                ==> units * unit_size >= resources[at].size
            &&& units > 1 && outputs.len() > 0 ==> exists|i: int|
                0 <= i < outputs.len() && units == units_in(
                    resources[#[trigger] outputs[i] as int].size,
                    unit_size,
                )
        }),
{
    let outputs = outputs_of(kernel, sources);
    let unit_size = counted_size(sources.unit_item_size_bytes);
    let chosen = if outputs.len() > 0 {
        outputs
    } else {
        all_positions(resources.len())
    };
    let units = dispatched_units(kernel, sources, resources, CubeCount::Dynamic);
    lemma_most_units(resources, chosen, unit_size, chosen.len());
    if 0 <= at < chosen.len() {
        assert(chosen[at] == chosen[at]);
        let size = resources[chosen[at] as int].size as int;
        math::law_ceil_div_is_least(size, unit_size);
        if size <= u32::MAX {
            let least = math::ceil_div(size, unit_size);
            assert(units * unit_size >= size) by (nonlinear_arith)
                requires
                    least * unit_size >= size,
                    units >= least,
                    unit_size >= 1,
            ;
        }
    }
}

proof fn lemma_joined_len(
    resources: Seq<TtResource>,
    indices: Seq<usize>,
    page_size: Option<u32>,
    at: nat,
    count: nat,
)
    requires
        at < count <= indices.len(),
    ensures
        ({
            let start = joined_args(resources, indices, page_size, at).len() as int;
            let own = resources[indices[at as int] as int].compile_args;
            let all = joined_args(resources, indices, page_size, count);
            &&& start + own.len() <= all.len()
            &&& all.subrange(start, start + own.len()) == adjusted(own@, page_size)
        }),
    decreases count,
{
    let start = joined_args(resources, indices, page_size, at).len() as int;
    let own = resources[indices[at as int] as int].compile_args;
    let all = joined_args(resources, indices, page_size, count);
    if at + 1 < count {
        lemma_joined_len(resources, indices, page_size, at, (count - 1) as nat);
        assert(all.subrange(start, start + own.len()) =~= joined_args(
            resources,
            indices,
            page_size,
            (count - 1) as nat,
        ).subrange(start, start + own.len()));
    } else {
        assert(all.subrange(start, start + own.len()) =~= adjusted(own@, page_size));
    }
}

/// The accessor of each input finds the compile-time arguments of its own buffer behind
/// those of the inputs before it. On logical buffers its pages have the size of a tile; all
/// else is as the buffer has it.
pub proof fn law_accessors_find_their_arguments(
    prepared: PreparedLaunch,
    kernel: ComputeKernel,
    sources: TtKernelSources,
    resources: Seq<TtResource>,
    info_words: Seq<u32>,
    count: CubeCount,
    at: nat,
)
    requires
        prepared.is_launch(kernel, sources, resources, info_words, count),
    ensures
        at < inputs_of(kernel, sources).len() ==> holds_own_arguments(
            prepared.sources.reader_compile_args@,
            resources,
            inputs_of(kernel, sources),
            sources,
            at,
        ),
        at < outputs_of(kernel, sources).len() ==> holds_own_arguments(
            prepared.sources.writer_compile_args@,
            resources,
            outputs_of(kernel, sources),
            sources,
            at,
        ),
{
    let page_size = accessor_page_size(sources);
    let inputs = inputs_of(kernel, sources);
    let outputs = outputs_of(kernel, sources);
    if at < inputs.len() {
        lemma_joined_len(resources, inputs, page_size, at, inputs.len());
        lemma_lengths_before(resources, inputs, page_size, at);
    }
    if at < outputs.len() {
        lemma_joined_len(resources, outputs, page_size, at, outputs.len());
        lemma_lengths_before(resources, outputs, page_size, at);
    }
}

/// How many compile-time arguments the first `count` of the chosen buffers have.
pub open spec fn arguments_before(resources: Seq<TtResource>, indices: Seq<usize>, count: nat) -> nat
    decreases count,
{
    if count == 0 {
        0
    } else {
        arguments_before(resources, indices, (count - 1) as nat) + resources[indices[count
            - 1] as int].compile_args.len() as nat
    }
}

proof fn lemma_lengths_before(
    resources: Seq<TtResource>,
    indices: Seq<usize>,
    page_size: Option<u32>,
    count: nat,
)
    ensures
        joined_args(resources, indices, page_size, count).len() == arguments_before(
            resources,
            indices,
            count,
        ),
    decreases count,
{
    if count > 0 {
        lemma_lengths_before(resources, indices, page_size, (count - 1) as nat);
    }
}

/// Whether the compile-time arguments of one of the chosen buffers stand among all
/// arguments, behind those of the buffers before it.
pub open spec fn holds_own_arguments(
    all: Seq<u32>,
    resources: Seq<TtResource>,
    indices: Seq<usize>,
    sources: TtKernelSources,
    at: nat,
) -> bool {
    let start = arguments_before(resources, indices, at) as int;
    let own = resources[indices[at as int] as int].compile_args;
    &&& start + own.len() <= all.len()
    &&& forall|i: int|
        0 <= i < own.len() ==> #[trigger] all.subrange(start, start + own.len())[i] == (if i == 1
            && sources.io_layout is Logical {
            sources.tile_size_bytes
        } else {
            own[i]
        })
}

/// The tiles of a launch on tiles are as few as hold all elements of its buffers, and at
/// least one.
pub proof fn law_tiles_hold_the_buffers(sources: TtKernelSources, resources: Seq<TtResource>)
    requires
        resources.len() > 0,
        sources.tile_size_bytes >= 1024,
        sources.tile_size_bytes % 1024 == 0,
    ensures
        ({
            let tiles = tiled_tiles(sources, resources);
            &&& tiles >= 1
            &&& tiles * sources.tile_size_bytes >= resources[0].size
            &&& tiles > 1 ==> (tiles - 1) * sources.tile_size_bytes < resources[0].size
        }),
{
    let item = tiled_item_size(sources);
    let tile = sources.tile_size_bytes as int;
    let size = resources[0].size as int;
    let elems = tiled_elements(sources, resources);
    let tiles = tiled_tiles(sources, resources);
    assert(tile == 1024 * item);
    assert(tile / item == 1024) by (nonlinear_arith)
        requires
            tile == 1024 * item,
            item >= 1,
    ;
    math::law_ceil_div_is_least(size, item);
    math::law_ceil_div_is_least(elems, 1024);
    let least = math::ceil_div(elems, 1024);
    assert(tiles * tile >= size) by (nonlinear_arith)
        requires
            tiles >= least,
            least * 1024 >= elems,
            elems * item >= size,
            tile == 1024 * item,
            item >= 1,
    ;
    if tiles > 1 {
        assert((tiles - 1) * tile < size) by (nonlinear_arith)
            requires
                (tiles - 1) * 1024 < elems,
                (elems - 1) * item < size,
                tile == 1024 * item,
                item >= 1,
        ;
    }
}

proof fn lemma_in_range(indices: Seq<usize>, bindings: nat, from: nat)
    requires
        first_out_of_range(indices, bindings, from) is None,
        from <= indices.len(),
    ensures
        forall|i: int| from <= i < indices.len() ==> #[trigger] indices[i] < bindings,
    decreases indices.len() - from,
{
    if from < indices.len() {
        lemma_in_range(indices, bindings, from + 1);
    }
}

proof fn lemma_items_match(expected: Seq<u32>, found: Seq<u32>, from: nat)
    requires
        first_item_mismatch(expected, found, from) is None,
        from <= expected.len(),
    ensures
        forall|i: int| from <= i < expected.len() ==> #[trigger] expected[i] == found[i],
    decreases expected.len() - from,
{
    if from < expected.len() {
        lemma_items_match(expected, found, from + 1);
    }
}

proof fn lemma_even(item_sizes: Seq<u32>, lengths: Seq<u64>, from: nat)
    requires
        first_uneven(item_sizes, lengths, from) is None,
        from <= item_sizes.len(),
    ensures
        forall|i: int|
            from <= i < item_sizes.len() ==> #[trigger] item_sizes[i] == item_sizes[0] && lengths[i]
                == lengths[0],
    decreases item_sizes.len() - from,
{
    if from < item_sizes.len() {
        lemma_even(item_sizes, lengths, from + 1);
    }
}

/// A launch that is not refused fits its kernel: it has a buffer for each of the kernel's,
/// every input and output is one of them, there are as many as the sources take, and items
/// are as large as the compiler took them to be. Buffers of a launch on tiles are alike in
/// the size of their items and in their lengths. Without an info block the kernel reads no
/// dynamic metadata, and just two words of static metadata for each buffer, if any.
pub proof fn law_launches_fit_their_kernel(
    kernel: ComputeKernel,
    sources: TtKernelSources,
    resources: Seq<TtResource>,
    has_info: bool,
    at: int,
)
    requires
        refusal(kernel, sources, resources, has_info) is None,
        resources.len() <= u32::MAX,
    ensures
        resources.len() == kernel.buffers.len(),
        0 <= at < inputs_of(kernel, sources).len() ==> inputs_of(kernel, sources)[at]
            < resources.len(),
        0 <= at < outputs_of(kernel, sources).len() ==> outputs_of(kernel, sources)[at]
            < resources.len(),
        inputs_of(kernel, sources).len() <= u32::MAX ==> inputs_of(kernel, sources).len()
            == sources.num_inputs,
        outputs_of(kernel, sources).len() <= u32::MAX ==> outputs_of(kernel, sources).len()
            == sources.num_outputs,
        0 <= at < sources.buffer_item_sizes.len() ==> sources.buffer_item_sizes.len()
            == resources.len() && sources.buffer_item_sizes[at]
            == kernel.buffers[at].item.bytes() as u32,
        sources.io_layout is Tiled ==> resources.len() > 0,
        sources.io_layout is Tiled && 0 <= at < resources.len() ==> resources[at].size
            == resources[0].size && kernel.buffers[at].item.bytes() as u32
            == kernel.buffers[0].item.bytes() as u32,
        !has_info ==> !kernel.body.has_dynamic_meta,
        !has_info && sources.info_static_len > 0 ==> sources.info_static_len == 2 * resources.len(),
{
    let inputs = inputs_of(kernel, sources);
    let outputs = outputs_of(kernel, sources);
    let item_sizes = compile::buffer_sizes(kernel.buffers@);
    lemma_in_range(inputs, resources.len(), 0);
    lemma_in_range(outputs, resources.len(), 0);
    lemma_items_match(sources.buffer_item_sizes@, item_sizes, 0);
    if 0 <= at < sources.buffer_item_sizes.len() {
        assert(sources.buffer_item_sizes@[at] == item_sizes[at]);
    }
    if sources.io_layout is Tiled {
        lemma_even(item_sizes, lengths(resources), 0);
        if 0 <= at < resources.len() {
            assert(item_sizes[at] == item_sizes[0]);
            assert(lengths(resources)[at] == lengths(resources)[0]);
        }
    }
}

/// The scalar path launches as few tiles as have room for all its units, and at least one.
pub proof fn law_launched_tiles_are_as_few_as_can_be(
    kernel: ComputeKernel,
    sources: TtKernelSources,
    resources: Seq<TtResource>,
    count: CubeCount,
)
    requires
        sources.io_layout is Logical,
    ensures
        ({
            let tiles = launched_tiles(kernel, sources, resources, count);
            let each = scalar_writer::tile_units(
                sources.tile_size_bytes as nat,
                counted_size(sources.unit_item_size_bytes) as nat,
            );
            &&& tiles >= 1
            &&& tiles > 1 ==> (tiles - 1) * each < dispatched_units(
                kernel,
                sources,
                resources,
                count,
            )
        }),
{
    let unit_size = counted_size(sources.unit_item_size_bytes);
    let each = scalar_writer::tile_units(sources.tile_size_bytes as nat, unit_size as nat) as int;
    assert(sources.tile_size_bytes as int / unit_size >= 0) by (nonlinear_arith)
        requires
            unit_size >= 1,
            sources.tile_size_bytes >= 0,
    ;
    math::law_ceil_div_is_least(
        dispatched_units(kernel, sources, resources, count) as int,
        each,
    );
}

/// The scalar writer is told how many units there are and, along each axis, how many cubes;
/// of a dynamic count it is told none. The info block of the launch follows where there is
/// one, else the lengths of the buffers where the kernel asks for them.
pub proof fn law_cube_counts_are_handed_over(
    kernel: ComputeKernel,
    sources: TtKernelSources,
    resources: Seq<TtResource>,
    info_words: Seq<u32>,
    count: CubeCount,
    at: int,
)
    requires
        sources.io_layout is Logical,
        sources.full_input_staging_tiles == 0,
    ensures
        ({
            let args = writer_args(kernel, sources, resources, info_words, count);
            &&& args.len() >= 4
            &&& args[0] == dispatched_units(kernel, sources, resources, count)
            &&& count matches CubeCount::Static(x, y, z) ==> args[1] == x && args[2] == y && args[3]
                == z
            &&& count is Dynamic ==> args[1] == 0 && args[2] == 0 && args[3] == 0
            &&& 0 <= at < info_words.len() ==> args[4 + at] == info_words[at]
        }),
{
}

/// Every binding of a launch is that of its buffer.
pub proof fn law_bindings_are_those_of_the_buffers(
    prepared: PreparedLaunch,
    kernel: ComputeKernel,
    sources: TtKernelSources,
    resources: Seq<TtResource>,
    info_words: Seq<u32>,
    count: CubeCount,
    at: int,
)
    requires
        prepared.is_launch(kernel, sources, resources, info_words, count),
        0 <= at < resources.len(),
    ensures
        prepared.bindings.len() == resources.len(),
        prepared.bindings[at].visibility == kernel.buffers[at].vis,
        prepared.bindings[at].address == resources[at].address,
        prepared.bindings[at].logical_size_bytes == resources[at].size,
        prepared.bindings[at].allocation_size_bytes == resources[at].allocation_size,
        prepared.bindings[at].compile_args@ == resources[at].compile_args@,
{
    assert(is_binding(prepared.bindings[at], kernel.buffers[at], resources[at]));
}

proof fn lemma_out_of_range(indices: Seq<usize>, bindings: nat, from: nat)
    requires
        first_out_of_range(indices, bindings, from) is Some,
    ensures
        first_out_of_range(indices, bindings, from)->0 >= bindings,
        indices.contains(first_out_of_range(indices, bindings, from)->0),
    decreases indices.len() - from,
{
    if from < indices.len() && indices[from as int] < bindings {
        lemma_out_of_range(indices, bindings, from + 1);
    }
}

proof fn lemma_mismatch(expected: Seq<u32>, found: Seq<u32>, from: nat)
    requires
        first_item_mismatch(expected, found, from) is Some,
        expected.len() <= usize::MAX,
    ensures
        first_item_mismatch(expected, found, from)->0 matches LaunchError::ItemSize {
            index,
            expected: wanted,
            found: given,
        } && from <= index < expected.len() && wanted == expected[index as int] && given
            == found[index as int] && wanted != given,
    decreases expected.len() - from,
{
    if from < expected.len() && expected[from as int] == found[from as int] {
        lemma_mismatch(expected, found, from + 1);
    }
}

proof fn lemma_uneven(item_sizes: Seq<u32>, lengths: Seq<u64>, from: nat)
    requires
        first_uneven(item_sizes, lengths, from) is Some,
        item_sizes.len() <= usize::MAX,
    ensures
        match first_uneven(item_sizes, lengths, from)->0 {
            LaunchError::MixedItemSize { first, index, found } => from <= index < item_sizes.len()
                && first == item_sizes[0] && found == item_sizes[index as int] && first != found,
            LaunchError::MixedLength { first, index, found } => from <= index < item_sizes.len()
                && first == lengths[0] && found == lengths[index as int] && first != found,
            _ => false,
        },
    decreases item_sizes.len() - from,
{
    if from < item_sizes.len() && item_sizes[from as int] == item_sizes[0] && lengths[from as int]
        == lengths[0] {
        lemma_uneven(item_sizes, lengths, from + 1);
    }
}

/// What a launch is refused for is so: the error tells what the kernel expects and what the
/// launch has, and the two differ.
pub proof fn law_refusals_tell_what_differs(
    kernel: ComputeKernel,
    sources: TtKernelSources,
    resources: Seq<TtResource>,
    has_info: bool,
)
    requires
        resources.len() <= usize::MAX / 2,
        inputs_of(kernel, sources).len() <= u32::MAX,
        outputs_of(kernel, sources).len() <= u32::MAX,
    ensures
        refusal(kernel, sources, resources, has_info) matches Some(error) ==> match error {
            LaunchError::Arity { resources: found, buffers } => found == resources.len() && buffers
                == kernel.buffers.len() && found != buffers,
            LaunchError::ReaderIndex { index, bindings } => bindings == resources.len() && index
                >= bindings && inputs_of(kernel, sources).contains(index),
            LaunchError::WriterIndex { index, bindings } => bindings == resources.len() && index
                >= bindings && outputs_of(kernel, sources).contains(index),
            LaunchError::InputCount { expected, found } => expected == sources.num_inputs && found
                == inputs_of(kernel, sources).len() && expected != found,
            LaunchError::OutputCount { expected, found } => expected == sources.num_outputs && found
                == outputs_of(kernel, sources).len() && expected != found,
            LaunchError::ItemSizeCount { expected, found } => expected
                == sources.buffer_item_sizes.len() && found == resources.len() && expected != found,
            LaunchError::ItemSize { index, expected, found } => index < resources.len() && expected
                == sources.buffer_item_sizes[index as int] && found
                == kernel.buffers[index as int].item.bytes() as u32 && expected != found,
            LaunchError::NoBinding => sources.io_layout is Tiled && resources.len() == 0,
            LaunchError::MixedItemSize { first, index, found } => sources.io_layout is Tiled && index
                < resources.len() && first == kernel.buffers[0].item.bytes() as u32 && found
                == kernel.buffers[index as int].item.bytes() as u32 && first != found,
            LaunchError::MixedLength { first, index, found } => sources.io_layout is Tiled && index
                < resources.len() && first == resources[0].size && found
                == resources[index as int].size && first != found,
            LaunchError::DynamicMetadata => kernel.body.has_dynamic_meta && !has_info,
            LaunchError::StaticMetadata { bindings, sizes } => bindings == resources.len() && sizes
                == sources.buffer_item_sizes.len() && bindings != sizes && !has_info,
            LaunchError::StaticArguments { derived, expected } => derived == 2 * resources.len()
                && expected == sources.info_static_len && derived != expected && !has_info,
            _ => false,
        },
{
    let count = resources.len();
    let inputs = inputs_of(kernel, sources);
    let outputs = outputs_of(kernel, sources);
    let item_sizes = compile::buffer_sizes(kernel.buffers@);
    if first_out_of_range(inputs, count, 0) is Some {
        lemma_out_of_range(inputs, count, 0);
    }
    if first_out_of_range(outputs, count, 0) is Some {
        lemma_out_of_range(outputs, count, 0);
    }
    if first_item_mismatch(sources.buffer_item_sizes@, item_sizes, 0) is Some {
        lemma_mismatch(sources.buffer_item_sizes@, item_sizes, 0);
    }
    if first_uneven(item_sizes, lengths(resources), 0) is Some {
        lemma_uneven(item_sizes, lengths(resources), 0);
    }
}

/// The compute kernel is told what the sources say, unless the launch has no info block and
/// the kernel asks for lengths: then it is told the length of each buffer, twice.
pub proof fn law_compute_kernels_are_told_the_lengths(
    sources: TtKernelSources,
    resources: Seq<TtResource>,
    info_words: Seq<u32>,
    at: int,
)
    ensures
        info_words.len() > 0 || sources.info_static_len == 0 ==> compute_args(
            sources,
            resources,
            info_words,
        ) == sources.compute_runtime_args@,
        info_words.len() == 0 && sources.info_static_len > 0 ==> {
            let args = compute_args(sources, resources, info_words);
            &&& args.len() == 2 * resources.len()
            &&& 0 <= at < resources.len() ==> args[at] == units_in(
                resources[at].size,
                counted_size(sources.buffer_item_sizes[at]),
            ) && args[resources.len() + at] == args[at]
        },
{
}

/// A static count launches at least one unit: all units of its cubes, where there are some
/// and 32 bits can count them, and never more than these. A dynamic count launches none of
/// itself.
pub proof fn law_static_counts_launch_their_units(x: u32, y: u32, z: u32, cube_units: u32)
    ensures
        1 <= launched_units(CubeCount::Static(x, y, z), cube_units as int) <= u32::MAX,
        x == 0 || y == 0 || z == 0 || cube_units == 0 ==> launched_units(
            CubeCount::Static(x, y, z),
            cube_units as int,
        ) == 1,
        0 < x * y <= u32::MAX && x * y * z <= u32::MAX && 0 < x * y * z * cube_units <= u32::MAX
            ==> launched_units(CubeCount::Static(x, y, z), cube_units as int) == x * y * z
            * cube_units,
        launched_units(CubeCount::Dynamic, cube_units as int) == 0,
{
    let a = x as int;
    let b = y as int;
    let c = z as int;
    let d = cube_units as int;
    math::law_saturating_products_are_nearest(a, b, b);
    let ab = math::saturating_product(a, b);
    math::law_saturating_products_are_nearest(ab, c, c);
    let abc = math::saturating_product(ab, c);
    math::law_saturating_products_are_nearest(abc, d, d);
}

} // verus!

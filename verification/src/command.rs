//! Copies between host and device, and the bridge between logical and tiled buffers.
use crate::ir::Visibility;
use crate::kernel::TtKernelSources;
use crate::launch;
use crate::launch::{PreparedLaunch, RuntimeBinding};
use crate::math;
use crate::runtime::{TILE_HEIGHT, TILE_WIDTH};
use crate::storage::{copy_words, TtBufferLayout, TtResource};
use crate::strides;
use crate::text;
use vstd::prelude::*;

verus! {

/// Which operation met a buffer that is not replicated.
#[derive(Clone, Copy, Debug, PartialEq, Eq, Structural)]
pub enum Transfer {
    ReadResource,
    WriteResource,
    WriteToGpu,
    WriteToCpu,
}

/// Why a copy was refused.
#[derive(Clone, Copy, Debug, PartialEq, Eq, Structural)]
pub enum IoError {
    NotReplicated(Transfer),
    ReadTooLong { asked: u64, size: u64 },
    WriteTooLong { asked: u64, size: u64 },
    UnsupportedStrides,
    DataTooShort { found: usize, expected: usize },
}

pub const READ_TOO_LONG: &'static str = "read_resource_bytes: logical read $0 exceeds resource size $1";

pub const WRITE_TOO_LONG: &'static str = "write_resource_bytes: logical write $0 exceeds resource size $1";

pub const DATA_TOO_SHORT: &'static str = "write_to_gpu: data size $0 < expected $1";

pub const NOT_REPLICATED: &'static str = "$0 only supports replicated TT buffers today";

impl Transfer {
    pub open spec fn label(self) -> Seq<char> {
        match self {
            Transfer::ReadResource => "read_resource_bytes"@,
            Transfer::WriteResource => "write_resource_bytes"@,
            Transfer::WriteToGpu => "write_to_gpu"@,
            Transfer::WriteToCpu => "write_to_cpu"@,
        }
    }

    pub fn name(self) -> (name: &'static str)
        ensures
            name@ == self.label(),
    {
        match self {
            Transfer::ReadResource => "read_resource_bytes",
            Transfer::WriteResource => "write_resource_bytes",
            Transfer::WriteToGpu => "write_to_gpu",
            Transfer::WriteToCpu => "write_to_cpu",
        }
    }
}

impl IoError {
    pub open spec fn message(self) -> Seq<char> {
        match self {
            IoError::NotReplicated(transfer) => text::fill(NOT_REPLICATED@, seq![transfer.label()]),
            IoError::ReadTooLong { asked, size } => text::fill(
                READ_TOO_LONG@,
                seq![text::dec(asked as nat), text::dec(size as nat)],
            ),
            IoError::WriteTooLong { asked, size } => text::fill(
                WRITE_TOO_LONG@,
                seq![text::dec(asked as nat), text::dec(size as nat)],
            ),
            IoError::UnsupportedStrides => "unsupported strides"@,
            IoError::DataTooShort { found, expected } => text::fill(
                DATA_TOO_SHORT@,
                seq![text::dec(found as nat), text::dec(expected as nat)],
            ),
        }
    }

    /// The message that explains the refusal.
    pub fn reason(&self) -> (result: String)
        ensures
            result@ == self.message(),
    {
        match self {
            IoError::NotReplicated(transfer) => text::fill1(NOT_REPLICATED, transfer.name()),
            IoError::ReadTooLong { asked, size } => text::fill2(
                READ_TOO_LONG,
                text::dec_text(*asked).as_str(),
                text::dec_text(*size).as_str(),
            ),
            IoError::WriteTooLong { asked, size } => text::fill2(
                WRITE_TOO_LONG,
                text::dec_text(*asked).as_str(),
                text::dec_text(*size).as_str(),
            ),
            IoError::UnsupportedStrides => "unsupported strides".to_owned(),
            IoError::DataTooShort { found, expected } => text::fill2(
                DATA_TOO_SHORT,
                text::dec_text(*found as u64).as_str(),
                text::dec_text(*expected as u64).as_str(),
            ),
        }
    }
}

impl TtResource {
    /// The resource lies inside its allocation.
    pub open spec fn fits(self) -> bool {
        self.allocation_offset + self.size <= self.allocation_size <= usize::MAX
    }
}

/// Why a read of `num_bytes` is refused.
pub open spec fn read_refusal(resource: TtResource, num_bytes: u64) -> Option<IoError> {
    if !(resource.layout is Replicated) {
        Some(IoError::NotReplicated(Transfer::ReadResource))
    } else if num_bytes > resource.size {
        Some(IoError::ReadTooLong { asked: num_bytes, size: resource.size })
    } else {
        None
    }
}

/// Check that a read of `num_bytes` may go ahead. The device then reads the whole
/// allocation, after the pending work of the owning stream was submitted.
pub fn check_read(resource: &TtResource, num_bytes: u64) -> (result: Result<(), IoError>)
    ensures
        match result {
            Ok(()) => read_refusal(*resource, num_bytes) is None,
            Err(error) => read_refusal(*resource, num_bytes) == Some(error),
        },
{
    if !matches!(resource.layout, TtBufferLayout::Replicated) {
        return Err(IoError::NotReplicated(Transfer::ReadResource));
    }
    if num_bytes > resource.size {
        return Err(IoError::ReadTooLong { asked: num_bytes, size: resource.size });
    }
    Ok(())
}

/// The first `num_bytes` bytes of a resource in its allocation.
pub open spec fn resource_bytes(resource: TtResource, allocation: Seq<u8>, num_bytes: nat) -> Seq<u8> {
    allocation.subrange(
        resource.allocation_offset as int,
        resource.allocation_offset + num_bytes,
    )
}

/// Take the first `num_bytes` bytes of a resource out of its allocation.
pub fn read_resource_bytes(resource: &TtResource, allocation: &Vec<u8>, num_bytes: usize) -> (bytes: Vec<u8>)
    requires
        resource.fits(),
        allocation.len() == resource.allocation_size,
        num_bytes <= resource.size,
    ensures
        bytes@ == resource_bytes(*resource, allocation@, num_bytes as nat),
{
    let start: usize = resource.allocation_offset as usize;
    let mut bytes: Vec<u8> = Vec::new();
    let mut i: usize = 0;
    while i < num_bytes
        invariant
            i <= num_bytes,
            start == resource.allocation_offset,
            start + num_bytes <= allocation.len(),
            bytes@ == allocation@.subrange(start as int, start + i),
        decreases num_bytes - i,
    {
        bytes.push(allocation[start + i]);
        assert(allocation@.subrange(start as int, start + i + 1) =~= allocation@.subrange(
            start as int,
            start + i,
        ).push(allocation@[start + i]));
        i += 1;
    }
    bytes
}

/// Why a write of `num_bytes` is refused.
pub open spec fn write_refusal(resource: TtResource, num_bytes: u64) -> Option<IoError> {
    if !(resource.layout is Replicated) {
        Some(IoError::NotReplicated(Transfer::WriteResource))
    } else if num_bytes > resource.size {
        Some(IoError::WriteTooLong { asked: num_bytes, size: resource.size })
    } else {
        None
    }
}

/// Whether a write leaves bytes of the allocation as they are, so that they have to be
/// read first.
pub open spec fn is_partial(resource: TtResource, num_bytes: u64) -> bool {
    resource.allocation_offset != 0 || num_bytes != resource.allocation_size
}

/// Check that a write of `num_bytes` may go ahead, and tell whether the allocation has
/// to be read first.
pub fn check_write(resource: &TtResource, num_bytes: u64) -> (result: Result<bool, IoError>)
    ensures
        match result {
            Ok(partial) => write_refusal(*resource, num_bytes) is None && partial == is_partial(
                *resource,
                num_bytes,
            ),
            Err(error) => write_refusal(*resource, num_bytes) == Some(error),
        },
{
    if !matches!(resource.layout, TtBufferLayout::Replicated) {
        return Err(IoError::NotReplicated(Transfer::WriteResource));
    }
    if num_bytes > resource.size {
        return Err(IoError::WriteTooLong { asked: num_bytes, size: resource.size });
    }
    Ok(resource.allocation_offset != 0 || num_bytes != resource.allocation_size)
}

/// An allocation after bytes were written at the start of a resource.
pub open spec fn written(resource: TtResource, allocation: Seq<u8>, bytes: Seq<u8>) -> Seq<u8> {
    let start = resource.allocation_offset as int;
    allocation.take(start) + bytes + allocation.skip(start + bytes.len())
}

/// Put bytes at the start of a resource into its allocation.
pub fn write_resource_bytes(resource: &TtResource, allocation: Vec<u8>, bytes: &Vec<u8>) -> (staged: Vec<u8>)
    requires
        resource.fits(),
        allocation.len() == resource.allocation_size,
        bytes.len() <= resource.size,
    ensures
        staged@ == written(*resource, allocation@, bytes@),
{
    let ghost before = allocation@;
    let start: usize = resource.allocation_offset as usize;
    let mut staged = allocation;
    let mut i: usize = 0;
    while i < bytes.len()
        invariant
            i <= bytes.len(),
            start + bytes.len() <= staged.len(),
            staged.len() == before.len(),
            forall|j: int|
                0 <= j < staged.len() ==> #[trigger] staged[j] == (if start <= j < start + i {
                    bytes[j - start]
                } else {
                    before[j]
                }),
        decreases bytes.len() - i,
    {
        staged.set(start + i, bytes[i]);
        i += 1;
    }
    assert(staged@ =~= written(*resource, before, bytes@));
    staged
}

/// A read gives back what a write wrote.
pub proof fn law_read_returns_what_was_written(resource: TtResource, allocation: Seq<u8>, bytes: Seq<u8>)
    requires
        resource.fits(),
        allocation.len() == resource.allocation_size,
        bytes.len() <= resource.size,
    ensures
        resource_bytes(resource, written(resource, allocation, bytes), bytes.len()) == bytes,
{
    assert(resource_bytes(resource, written(resource, allocation, bytes), bytes.len()) =~= bytes);
}

/// A write changes no byte of the allocation beyond those it writes, and not the
/// allocation's size.
pub proof fn law_write_keeps_the_rest(
    resource: TtResource,
    allocation: Seq<u8>,
    bytes: Seq<u8>,
    at: int,
)
    requires
        resource.fits(),
        allocation.len() == resource.allocation_size,
        bytes.len() <= resource.size,
        0 <= at < allocation.len(),
        at < resource.allocation_offset || at >= resource.allocation_offset + bytes.len(),
    ensures
        written(resource, allocation, bytes).len() == allocation.len(),
        written(resource, allocation, bytes)[at] == allocation[at],
{
}

/// A write that is not partial gives the same allocation whatever was there before, so
/// that nothing has to be read first.
pub proof fn law_full_write_ignores_old_bytes(
    resource: TtResource,
    a: Seq<u8>,
    b: Seq<u8>,
    bytes: Seq<u8>,
)
    requires
        !is_partial(resource, bytes.len() as u64),
        a.len() == b.len() == resource.allocation_size,
        bytes.len() <= u64::MAX,
    ensures
        written(resource, a, bytes) == written(resource, b, bytes),
{
    assert(written(resource, a, bytes) =~= written(resource, b, bytes));
}

/// The number of bytes of a tensor.
pub open spec fn tensor_bytes(shape: Seq<usize>, elem_size: usize) -> int {
    strides::elements(shape, shape.len()) * elem_size
}

/// Why a copy of host data into a tensor is refused.
pub open spec fn upload_refusal(
    resource: TtResource,
    shape: Seq<usize>,
    strides: Seq<usize>,
    elem_size: usize,
    data_len: usize,
) -> Option<IoError> {
    let num_bytes = tensor_bytes(shape, elem_size);
    if !(resource.layout is Replicated) {
        Some(IoError::NotReplicated(Transfer::WriteToGpu))
    } else if !strides::is_pitched(shape, strides) {
        Some(IoError::UnsupportedStrides)
    } else if data_len < num_bytes {
        Some(IoError::DataTooShort { found: data_len, expected: num_bytes as usize })
    } else {
        write_refusal(resource, num_bytes as u64)
    }
}

/// Check that host data may be copied into a tensor, and tell how many bytes and
/// whether the allocation has to be read first.
pub fn write_to_gpu(
    resource: &TtResource,
    shape: &Vec<usize>,
    strides: &Vec<usize>,
    elem_size: usize,
    data_len: usize,
) -> (result: Result<(usize, bool), IoError>)
    requires
        resource.layout is Replicated ==> {
            &&& shape.len() > 0
            &&& shape.len() == strides.len()
            &&& strides::extents_fit(shape@, strides@)
        },
        resource.layout is Replicated && strides::is_pitched(shape@, strides@) ==> {
            &&& strides::elements_fit(shape@)
            &&& tensor_bytes(shape@, elem_size) <= usize::MAX
        },
    ensures
        match result {
            Ok((num_bytes, partial)) => upload_refusal(
                *resource,
                shape@,
                strides@,
                elem_size,
                data_len,
            ) is None && num_bytes == tensor_bytes(shape@, elem_size) && partial == is_partial(
                *resource,
                num_bytes as u64,
            ),
            Err(error) => upload_refusal(*resource, shape@, strides@, elem_size, data_len) == Some(
                error,
            ),
        },
{
    if !matches!(resource.layout, TtBufferLayout::Replicated) {
        return Err(IoError::NotReplicated(Transfer::WriteToGpu));
    }
    if !strides::has_pitched_row_major_strides(shape, strides) {
        return Err(IoError::UnsupportedStrides);
    }
    let num_bytes: usize = strides::count_elements(shape) * elem_size;
    if data_len < num_bytes {
        return Err(IoError::DataTooShort { found: data_len, expected: num_bytes });
    }
    match check_write(resource, num_bytes as u64) {
        Ok(partial) => Ok((num_bytes, partial)),
        Err(error) => Err(error),
    }
}

/// Why a copy of a tensor to the host is refused.
pub open spec fn download_refusal(resource: TtResource, num_bytes: u64) -> Option<IoError> {
    if !(resource.layout is Replicated) {
        Some(IoError::NotReplicated(Transfer::WriteToCpu))
    } else {
        read_refusal(resource, num_bytes)
    }
}

/// Check that a tensor may be copied to the host, and tell how many bytes.
pub fn write_to_cpu(resource: &TtResource, shape: &Vec<usize>, elem_size: usize) -> (result: Result<
    usize,
    IoError,
>)
    requires
        resource.layout is Replicated ==> {
            &&& strides::elements_fit(shape@)
            &&& tensor_bytes(shape@, elem_size) <= usize::MAX
        },
    ensures
        match result {
            Ok(num_bytes) => num_bytes == tensor_bytes(shape@, elem_size) && download_refusal(
                *resource,
                num_bytes as u64,
            ) is None,
            Err(error) => download_refusal(*resource, tensor_bytes(shape@, elem_size) as u64)
                == Some(error),
        },
{
    if !matches!(resource.layout, TtBufferLayout::Replicated) {
        return Err(IoError::NotReplicated(Transfer::WriteToCpu));
    }
    let num_bytes: usize = strides::count_elements(shape) * elem_size;
    match check_read(resource, num_bytes as u64) {
        Ok(()) => Ok(num_bytes),
        Err(error) => Err(error),
    }
}

/// Where a launch runs.
#[derive(Clone, Copy, Debug, PartialEq, Eq, Structural)]
pub enum TtLaunchTarget {
    FullMesh,
}

/// Why the buffers of a launch cannot be brought into tiles and back.
#[derive(Clone, Copy, Debug, PartialEq, Eq, Structural)]
pub enum BridgeError {
    Sharded,
    ResourceCount { expected: usize, found: usize },
    ZeroElement,
    OutputTooShort { found: usize, expected: usize },
}

pub const RESOURCE_COUNT: &'static str = "TT tiled I/O bridge expected $0 resources but got $1";

pub const OUTPUT_TOO_SHORT: &'static str = "TT tiled output bridge produced $0 bytes, expected at least $1";

impl BridgeError {
    pub open spec fn message(self) -> Seq<char> {
        match self {
            BridgeError::Sharded => "TT-Metal sharded/distributed buffer layouts are not launchable yet"@,
            BridgeError::ResourceCount { expected, found } => text::fill(
                RESOURCE_COUNT@,
                seq![text::dec(expected as nat), text::dec(found as nat)],
            ),
            BridgeError::ZeroElement => "TT tiled I/O bridge computed a zero scalar element width"@,
            BridgeError::OutputTooShort { found, expected } => text::fill(
                OUTPUT_TOO_SHORT@,
                seq![text::dec(found as nat), text::dec(expected as nat)],
            ),
        }
    }

    /// The message that explains the refusal.
    pub fn reason(&self) -> (result: String)
        ensures
            result@ == self.message(),
    {
        match self {
            BridgeError::Sharded => "TT-Metal sharded/distributed buffer layouts are not launchable yet".to_owned(),
            BridgeError::ResourceCount { expected, found } => text::fill2(
                RESOURCE_COUNT,
                text::dec_text(*expected as u64).as_str(),
                text::dec_text(*found as u64).as_str(),
            ),
            BridgeError::ZeroElement => "TT tiled I/O bridge computed a zero scalar element width".to_owned(),
            BridgeError::OutputTooShort { found, expected } => text::fill2(
                OUTPUT_TOO_SHORT,
                text::dec_text(*found as u64).as_str(),
                text::dec_text(*expected as u64).as_str(),
            ),
        }
    }
}

/// Launches run on the full mesh, and only on buffers that every device holds.
pub fn launch_target_for_resources(resources: &Vec<TtResource>) -> (result: Result<
    TtLaunchTarget,
    BridgeError,
>)
    ensures
        match result {
            Ok(target) => forall|i: int|
                0 <= i < resources.len() ==> (#[trigger] resources[i]).layout is Replicated,
            Err(error) => error == BridgeError::Sharded && exists|i: int|
                0 <= i < resources.len() && !((#[trigger] resources[i]).layout is Replicated),
        },
{
    let mut i: usize = 0;
    while i < resources.len()
        invariant
            i <= resources.len(),
            forall|j: int| 0 <= j < i ==> (#[trigger] resources[j]).layout is Replicated,
        decreases resources.len() - i,
    {
        if !matches!(resources[i].layout, TtBufferLayout::Replicated) {
            assert(!(resources@[i as int].layout is Replicated));
            return Err(BridgeError::Sharded);
        }
        i += 1;
    }
    Ok(TtLaunchTarget::FullMesh)
}

/// The formats whose tiles hold blocks with a shared exponent.
pub open spec fn is_block_float(code: u8) -> bool {
    code == 6 || code == 7 || code == 15
}

/// Whether the tiles of a format hold blocks with a shared exponent.
pub fn is_native_block_float_format(data_format_tt: u8) -> (block: bool)
    ensures
        block == is_block_float(data_format_tt),
{
    matches!(data_format_tt, 6 | 7 | 15)
}

/// The size of an element on the host: block floats are handed over as single-precision
/// numbers.
pub open spec fn host_elem_size(code: u8, native_size: u32) -> u32 {
    if is_block_float(code) {
        4
    } else {
        native_size
    }
}

/// The size of an element on the host.
pub fn logical_host_elem_size_bytes(data_format_tt: u8, native_scalar_size_bytes: u32) -> (size: u32)
    ensures
        size == host_elem_size(data_format_tt, native_scalar_size_bytes),
{
    if is_native_block_float_format(data_format_tt) {
        4
    } else {
        native_scalar_size_bytes
    }
}

/// How the buffers of a launch are brought into tiles and back: as row-major matrices
/// of 32 rows.
#[derive(Clone, Copy, Debug, PartialEq, Eq, Structural)]
pub struct TiledBridge {
    pub row_major_rows: u32,
    pub row_major_cols: u32,
    pub logical_elem_size_bytes: u32,
    pub data_format_tt: u8,
    /// The size of an input before it is brought into tiles.
    pub padded_bytes: usize,
    /// The size of an output in tiles.
    pub tiled_bytes: usize,
    pub page_size: u64,
}

pub open spec fn bridged_tiles(sources: TtKernelSources) -> int {
    math::at_least_one(sources.num_tiles as int)
}

pub open spec fn bridged_elem_size(sources: TtKernelSources) -> u32 {
    host_elem_size(sources.data_format_tt, sources.tile_size_bytes / 1024)
}

/// The size of an input before it is brought into tiles.
pub open spec fn padded_size(sources: TtKernelSources) -> int {
    32 * (bridged_tiles(sources) * 32) * bridged_elem_size(sources)
}

/// Why the buffers of a launch on tiled buffers cannot be bridged.
pub open spec fn bridge_refusal(prepared: PreparedLaunch, resources: usize) -> Option<BridgeError> {
    if resources != prepared.bindings.len() {
        Some(
            BridgeError::ResourceCount { expected: prepared.bindings.len(), found: resources },
        )
    } else if bridged_elem_size(prepared.sources) == 0 {
        Some(BridgeError::ZeroElement)
    } else {
        None
    }
}

/// Decide how the buffers of a launch are bridged; a launch on logical buffers needs no
/// bridge.
pub fn bridge_prepared_launch(prepared: &PreparedLaunch, resources: usize) -> (result: Result<
    Option<TiledBridge>,
    BridgeError,
>)
    requires
        prepared.sources.io_layout is Tiled && resources == prepared.bindings.len()
            ==> bridged_tiles(prepared.sources) * 32 <= u32::MAX,
        prepared.sources.io_layout is Tiled && bridge_refusal(*prepared, resources) is None ==> {
            &&& padded_size(prepared.sources) <= usize::MAX
            &&& bridged_tiles(prepared.sources) * prepared.sources.tile_size_bytes <= usize::MAX
        },
    ensures
        if prepared.sources.io_layout is Logical {
            result == Ok::<Option<TiledBridge>, BridgeError>(None)
        } else {
            match bridge_refusal(*prepared, resources) {
                Some(error) => result == Err::<Option<TiledBridge>, BridgeError>(error),
                None => result == Ok::<Option<TiledBridge>, BridgeError>(
                    Some(
                        TiledBridge {
                            row_major_rows: 32,
                            row_major_cols: (bridged_tiles(prepared.sources) * 32) as u32,
                            logical_elem_size_bytes: bridged_elem_size(prepared.sources),
                            data_format_tt: prepared.sources.data_format_tt,
                            padded_bytes: padded_size(prepared.sources) as usize,
                            tiled_bytes: (bridged_tiles(prepared.sources)
                                * prepared.sources.tile_size_bytes) as usize,
                            page_size: prepared.sources.tile_size_bytes as u64,
                        },
                    ),
                ),
            }
        },
{
    if !prepared.sources.requires_tiled_io() {
        return Ok(None);
    }
    if resources != prepared.bindings.len() {
        return Err(
            BridgeError::ResourceCount { expected: prepared.bindings.len(), found: resources },
        );
    }
    let tiles: u32 = math::max_one(prepared.sources.num_tiles as u64) as u32;
    let cols: u32 = tiles * TILE_WIDTH;
    let elem_size: u32 = logical_host_elem_size_bytes(
        prepared.sources.data_format_tt,
        prepared.sources.native_scalar_size_bytes(),
    );
    if elem_size == 0 {
        return Err(BridgeError::ZeroElement);
    }
    assert(32 * cols * elem_size == padded_size(prepared.sources));
    assert(32 * cols <= 32 * cols * elem_size) by (nonlinear_arith)
        requires
            elem_size >= 1,
    ;
    let padded_bytes: usize = TILE_HEIGHT as usize * cols as usize * elem_size as usize;
    let tiled_bytes: usize = tiles as usize * prepared.sources.tile_size_bytes as usize;
    Ok(
        Some(
            TiledBridge {
                row_major_rows: TILE_HEIGHT,
                row_major_cols: cols,
                logical_elem_size_bytes: elem_size,
                data_format_tt: prepared.sources.data_format_tt,
                padded_bytes,
                tiled_bytes,
                page_size: prepared.sources.tile_size_bytes as u64,
            },
        ),
    )
}

/// Bytes with zeros behind them, up to a length.
pub open spec fn padded(bytes: Seq<u8>, len: nat) -> Seq<u8> {
    bytes + Seq::new((len - bytes.len()) as nat, |i: int| 0u8)
}

/// Fill an input up with zeros before it is brought into tiles.
pub fn pad_input(logical: Vec<u8>, padded_bytes: usize) -> (result: Vec<u8>)
    requires
        logical.len() <= padded_bytes,
    ensures
        result@ == padded(logical@, padded_bytes as nat),
{
    let ghost given = logical@;
    let mut result = logical;
    while result.len() < padded_bytes
        invariant
            given.len() <= result.len() <= padded_bytes,
            result@ == padded(given, result.len() as nat),
        decreases padded_bytes - result.len(),
    {
        let ghost before = result@;
        result.push(0);
        assert(result@ =~= padded(given, (before.len() + 1) as nat));
    }
    result
}

/// Take the bytes of an output that was brought back from its tiles.
pub fn finish_output(untilized: &Vec<u8>, logical_size_bytes: usize) -> (result: Result<
    Vec<u8>,
    BridgeError,
>)
    ensures
        match result {
            Ok(bytes) => logical_size_bytes <= untilized.len() && bytes@ == untilized@.take(
                logical_size_bytes as int,
            ),
            Err(error) => untilized.len() < logical_size_bytes && error
                == (BridgeError::OutputTooShort {
                found: untilized.len(),
                expected: logical_size_bytes,
            }),
        },
{
    if untilized.len() < logical_size_bytes {
        return Err(
            BridgeError::OutputTooShort { found: untilized.len(), expected: logical_size_bytes },
        );
    }
    let mut bytes: Vec<u8> = Vec::new();
    let mut i: usize = 0;
    while i < logical_size_bytes
        invariant
            i <= logical_size_bytes <= untilized.len(),
            bytes@ == untilized@.take(i as int),
        decreases logical_size_bytes - i,
    {
        bytes.push(untilized[i]);
        assert(untilized@.take(i + 1) =~= untilized@.take(i as int).push(untilized@[i as int]));
        i += 1;
    }
    Ok(bytes)
}

/// What is cut off an input when it comes back from its tiles is what it was filled up
/// with.
pub proof fn law_padding_is_cut_off(bytes: Seq<u8>, len: nat)
    requires
        bytes.len() <= len,
    ensures
        padded(bytes, len).len() == len,
        padded(bytes, len).take(bytes.len() as int) == bytes,
{
    assert(padded(bytes, len).take(bytes.len() as int) =~= bytes);
}

/// A buffer that stands in for a binding while the kernel works on tiles.
#[derive(Debug)]
pub struct TempBuffer {
    pub address: u32,
    pub compile_args: Vec<u32>,
}

/// The addresses of the stand-ins of the first `count` bindings of a visibility.
pub open spec fn temp_addresses(
    bindings: Seq<RuntimeBinding>,
    temps: Seq<TempBuffer>,
    visibility: Visibility,
    count: nat,
) -> Seq<u32>
    decreases count,
{
    if count == 0 {
        Seq::empty()
    } else {
        let before = temp_addresses(bindings, temps, visibility, (count - 1) as nat);
        if bindings[count - 1].visibility == visibility {
            before.push(temps[count - 1].address)
        } else {
            before
        }
    }
}

/// The compile-time arguments of the stand-ins of the first `count` bindings of a
/// visibility.
pub open spec fn temp_compile_args(
    bindings: Seq<RuntimeBinding>,
    temps: Seq<TempBuffer>,
    visibility: Visibility,
    count: nat,
) -> Seq<u32>
    decreases count,
{
    if count == 0 {
        Seq::empty()
    } else {
        let before = temp_compile_args(bindings, temps, visibility, (count - 1) as nat);
        if bindings[count - 1].visibility == visibility {
            before + temps[count - 1].compile_args@
        } else {
            before
        }
    }
}

/// How a matrix is brought into tiles and back: block floats by their format, other
/// numbers by the size of an element.
#[derive(Clone, Copy, Debug, PartialEq, Eq, Structural)]
pub enum Tilization {
    ByFormat(u8),
    ByElementSize(u32),
}

impl TiledBridge {
    pub open spec fn tiles_by(self) -> Tilization {
        if is_block_float(self.data_format_tt) {
            Tilization::ByFormat(self.data_format_tt)
        } else {
            Tilization::ByElementSize(self.logical_elem_size_bytes)
        }
    }

    /// How a matrix is brought into tiles and back.
    pub fn tilization(&self) -> (tilization: Tilization)
        ensures
            tilization == self.tiles_by(),
    {
        if is_native_block_float_format(self.data_format_tt) {
            Tilization::ByFormat(self.data_format_tt)
        } else {
            Tilization::ByElementSize(self.logical_elem_size_bytes)
        }
    }
}

/// What the buffer that stands in for a binding is filled with: the tiles of an input
/// that is read, or zeros that an output is written over, which is then written back.
#[derive(Clone, Copy, Debug, PartialEq, Eq, Structural)]
pub enum TempPlan {
    Input { logical_size_bytes: u64 },
    Output { zeros: usize, logical_size_bytes: u64 },
}

/// What the buffer that stands in for a binding is filled with.
pub open spec fn temp_plan(binding: RuntimeBinding, bridge: TiledBridge) -> TempPlan {
    match binding.visibility {
        Visibility::Read => TempPlan::Input { logical_size_bytes: binding.logical_size_bytes },
        Visibility::ReadWrite => TempPlan::Output {
            zeros: bridge.tiled_bytes,
            logical_size_bytes: binding.logical_size_bytes,
        },
    }
}

/// Plan the buffers that stand in for the bindings of a launch, in their order.
pub fn plan_temps(prepared: &PreparedLaunch, bridge: &TiledBridge) -> (plans: Vec<TempPlan>)
    ensures
        plans@ == prepared.bindings@.map_values(|binding: RuntimeBinding| temp_plan(binding, *bridge)),
{
    let mut plans: Vec<TempPlan> = Vec::new();
    let mut i: usize = 0;
    let ghost planned = prepared.bindings@.map_values(
        |binding: RuntimeBinding| temp_plan(binding, *bridge),
    );
    while i < prepared.bindings.len()
        invariant
            i <= prepared.bindings.len(),
            planned == prepared.bindings@.map_values(
                |binding: RuntimeBinding| temp_plan(binding, *bridge),
            ),
            plans@ == planned.take(i as int),
        decreases prepared.bindings.len() - i,
    {
        let binding = &prepared.bindings[i];
        plans.push(
            match binding.visibility {
                Visibility::Read => TempPlan::Input {
                    logical_size_bytes: binding.logical_size_bytes,
                },
                Visibility::ReadWrite => TempPlan::Output {
                    zeros: bridge.tiled_bytes,
                    logical_size_bytes: binding.logical_size_bytes,
                },
            },
        );
        assert(planned.take(i + 1) =~= planned.take(i as int).push(planned[i as int]));
        i += 1;
    }
    assert(planned.take(i as int) =~= planned);
    plans
}

/// What is done next for the launch of a kernel.
#[derive(Clone, Copy, Debug, PartialEq, Eq, Structural)]
pub enum LaunchPhase {
    /// Bind the sources to the buffers.
    Prepare,
    /// Make the buffers that stand in for the bindings.
    Bridge,
    /// Make the program.
    Compile,
    /// Find out where the program runs.
    Target,
    /// Submit the work that waits in the stream.
    FlushPending,
    /// Submit the program.
    Submit,
    /// Write the outputs back.
    FinishBridge,
    /// Queue the program in the stream.
    Queue,
    Done,
    Failed,
}

impl LaunchPhase {
    /// The next phase, where the last one succeeded or not. Work on tiles is submitted
    /// at once, behind all that waits, and its outputs are written back; other work
    /// is queued.
    pub open spec fn following(self, tiled: bool, succeeded: bool) -> LaunchPhase {
        if self is Done || self is Failed {
            self
        } else if !succeeded {
            LaunchPhase::Failed
        } else {
            match self {
                LaunchPhase::Prepare => LaunchPhase::Bridge,
                LaunchPhase::Bridge => LaunchPhase::Compile,
                LaunchPhase::Compile => LaunchPhase::Target,
                LaunchPhase::Target => if tiled {
                    LaunchPhase::FlushPending
                } else {
                    LaunchPhase::Queue
                },
                LaunchPhase::FlushPending => LaunchPhase::Submit,
                LaunchPhase::Submit => LaunchPhase::FinishBridge,
                _ => LaunchPhase::Done,
            }
        }
    }

    /// The next phase, where the last one succeeded or not.
    pub fn next(self, tiled: bool, succeeded: bool) -> (phase: LaunchPhase)
        ensures
            phase == self.following(tiled, succeeded),
    {
        if matches!(self, LaunchPhase::Done | LaunchPhase::Failed) {
            return self;
        }
        if !succeeded {
            return LaunchPhase::Failed;
        }
        match self {
            LaunchPhase::Prepare => LaunchPhase::Bridge,
            LaunchPhase::Bridge => LaunchPhase::Compile,
            LaunchPhase::Compile => LaunchPhase::Target,
            LaunchPhase::Target => if tiled {
                LaunchPhase::FlushPending
            } else {
                LaunchPhase::Queue
            },
            LaunchPhase::FlushPending => LaunchPhase::Submit,
            LaunchPhase::Submit => LaunchPhase::FinishBridge,
            _ => LaunchPhase::Done,
        }
    }

    /// The phase after `steps` successful phases.
    pub open spec fn after(self, tiled: bool, steps: nat) -> LaunchPhase
        decreases steps,
    {
        if steps == 0 {
            self
        } else {
            self.after(tiled, (steps - 1) as nat).following(tiled, true)
        }
    }
}

/// Work is submitted out of turn only where it is on tiles, and only once all that
/// waits in the stream was submitted.
pub proof fn law_submission_follows_pending_work(phase: LaunchPhase, tiled: bool, succeeded: bool)
    requires
        phase.following(tiled, succeeded) is Submit,
    ensures
        phase is FlushPending,
        succeeded,
{
}

/// A launch whose phases all succeed is done.
pub proof fn law_launch_is_done(tiled: bool)
    ensures
        LaunchPhase::Prepare.after(
            tiled,
            if tiled {
                7
            } else {
                5
            },
        ) is Done,
{
    reveal_with_fuel(LaunchPhase::after, 8);
}

/// A failed launch stays failed, and a phase that fails ends the launch.
pub proof fn law_failure_ends_the_launch(phase: LaunchPhase, tiled: bool, succeeded: bool)
    ensures
        LaunchPhase::Failed.following(tiled, succeeded) is Failed,
        !(phase is Done) ==> phase.following(tiled, false) is Failed,
{
}

/// Put the stand-ins in the place of the bindings of a launch.
pub fn adapt_launch(prepared: PreparedLaunch, temps: &Vec<TempBuffer>) -> (adapted: PreparedLaunch)
    requires
        temps.len() == prepared.bindings.len(),
    ensures
        adapted.bindings == prepared.bindings,
        adapted.input_addrs@ == temp_addresses(
            prepared.bindings@,
            temps@,
            Visibility::Read,
            temps.len() as nat,
        ),
        adapted.output_addrs@ == temp_addresses(
            prepared.bindings@,
            temps@,
            Visibility::ReadWrite,
            temps.len() as nat,
        ),
        adapted.sources.reader_compile_args@ == temp_compile_args(
            prepared.bindings@,
            temps@,
            Visibility::Read,
            temps.len() as nat,
        ),
        adapted.sources.writer_compile_args@ == temp_compile_args(
            prepared.bindings@,
            temps@,
            Visibility::ReadWrite,
            temps.len() as nat,
        ),
        adapted.sources == (TtKernelSources {
            reader_compile_args: adapted.sources.reader_compile_args,
            writer_compile_args: adapted.sources.writer_compile_args,
            ..prepared.sources
        }),
{
    let mut input_addrs: Vec<u32> = Vec::new();
    let mut output_addrs: Vec<u32> = Vec::new();
    let mut reader_args: Vec<u32> = Vec::new();
    let mut writer_args: Vec<u32> = Vec::new();
    let mut i: usize = 0;
    while i < temps.len()
        invariant
            i <= temps.len(),
            temps.len() == prepared.bindings.len(),
            input_addrs@ == temp_addresses(
                prepared.bindings@,
                temps@,
                Visibility::Read,
                i as nat,
            ),
            output_addrs@ == temp_addresses(
                prepared.bindings@,
                temps@,
                Visibility::ReadWrite,
                i as nat,
            ),
            reader_args@ == temp_compile_args(
                prepared.bindings@,
                temps@,
                Visibility::Read,
                i as nat,
            ),
            writer_args@ == temp_compile_args(
                prepared.bindings@,
                temps@,
                Visibility::ReadWrite,
                i as nat,
            ),
        decreases temps.len() - i,
    {
        let mut args = copy_words(&temps[i].compile_args);
        match prepared.bindings[i].visibility {
            Visibility::Read => {
                input_addrs.push(temps[i].address);
                reader_args.append(&mut args);
            },
            Visibility::ReadWrite => {
                output_addrs.push(temps[i].address);
                writer_args.append(&mut args);
            },
        }
        i += 1;
    }
    PreparedLaunch {
        sources: prepared.sources.with_compile_args(reader_args, writer_args),
        input_addrs,
        output_addrs,
        bindings: prepared.bindings,
    }
}

/// The matrix that an input is brought into has room for the whole input, where the
/// tiles are whole elements and the launch's number of tiles is exact.
pub proof fn law_matrix_has_room_for_the_input(
    before: TtKernelSources,
    after: TtKernelSources,
    resources: Seq<TtResource>,
)
    requires
        before.tile_size_bytes >= 1024,
        before.tile_size_bytes % 1024 == 0,
        !is_block_float(before.data_format_tt),
        after.tile_size_bytes == before.tile_size_bytes,
        after.data_format_tt == before.data_format_tt,
        after.num_tiles == launch::tiled_tiles(before, resources),
        resources.len() > 0,
    ensures
        padded_size(after) >= resources[0].size,
{
    let item = launch::tiled_item_size(before);
    let tile = before.tile_size_bytes as int;
    let size = resources[0].size as int;
    let elems = launch::tiled_elements(before, resources);
    assert(tile == 1024 * item);
    assert(tile / item == 1024) by (nonlinear_arith)
        requires
            tile == 1024 * item,
            item >= 1,
    ;
    math::law_ceil_div_is_least(size, item);
    math::law_ceil_div_is_least(elems, 1024);
    let tiles = launch::tiled_tiles(before, resources);
    assert(tiles * 1024 >= elems);
    assert(bridged_elem_size(after) == item);
    assert(32 * (tiles * 32) * item == tiles * 1024 * item) by (nonlinear_arith);
    assert(tiles * 1024 * item >= elems * item) by (nonlinear_arith)
        requires
            tiles * 1024 >= elems,
            item >= 1,
    ;
}

/// A transfer that is taken stays within the resource, and so within its allocation, and
/// one that does is taken, on a buffer that every device holds.
pub proof fn law_transfers_stay_inside(resource: TtResource, num_bytes: u64)
    requires
        resource.fits(),
    ensures
        read_refusal(resource, num_bytes) is None <==> write_refusal(resource, num_bytes) is None,
        read_refusal(resource, num_bytes) is None ==> resource.allocation_offset + num_bytes
            <= resource.allocation_size,
        resource.layout is Replicated && num_bytes <= resource.size ==> read_refusal(
            resource,
            num_bytes,
        ) is None,
        num_bytes > resource.size ==> read_refusal(resource, num_bytes) is Some,
        !(resource.layout is Replicated) ==> read_refusal(resource, num_bytes) is Some,
{
}

/// Host data are copied into a tensor only where there are enough of them, and where the
/// tensor holds them.
pub proof fn law_uploads_have_their_data(
    resource: TtResource,
    shape: Seq<usize>,
    strides: Seq<usize>,
    elem_size: usize,
    data_len: usize,
)
    requires
        0 <= tensor_bytes(shape, elem_size) <= u64::MAX,
    ensures
        upload_refusal(resource, shape, strides, elem_size, data_len) is None <==> {
            &&& resource.layout is Replicated
            &&& strides::is_pitched(shape, strides)
            &&& tensor_bytes(shape, elem_size) <= data_len
            &&& tensor_bytes(shape, elem_size) <= resource.size
        },
{
}

/// A write needs the old bytes only where it leaves some of them.
pub proof fn law_partial_writes_leave_bytes(
    resource: TtResource,
    allocation: Seq<u8>,
    bytes: Seq<u8>,
)
    requires
        resource.fits(),
        allocation.len() == resource.allocation_size,
        bytes.len() <= resource.size,
        bytes.len() <= u64::MAX,
    ensures
        is_partial(resource, bytes.len() as u64) <==> exists|at: int|
            0 <= at < allocation.len() && (at < resource.allocation_offset || at
                >= resource.allocation_offset + bytes.len()) && #[trigger] written(
                resource,
                allocation,
                bytes,
            )[at] == allocation[at],
{
    let after = written(resource, allocation, bytes);
    if resource.allocation_offset != 0 {
        assert(after[0] == allocation[0]);
    } else if bytes.len() != resource.allocation_size {
        let last = resource.allocation_size - 1;
        assert(after[last] == allocation[last]);
    }
}

/// The matrix that an input is brought into has as many elements as the tiles: its 32 rows
/// are as long as the tiles beside each other, and it fills them.
pub proof fn law_matrices_fill_their_tiles(sources: TtKernelSources)
    requires
        sources.tile_size_bytes % 1024 == 0,
        !is_block_float(sources.data_format_tt),
    ensures
        padded_size(sources) == math::at_least_one(sources.num_tiles as int)
            * sources.tile_size_bytes,
        bridged_elem_size(sources) * 1024 == sources.tile_size_bytes,
{
    let tiles = bridged_tiles(sources);
    let elem = bridged_elem_size(sources) as int;
    assert(elem * 1024 == sources.tile_size_bytes);
    assert(32 * (tiles * 32) * elem == tiles * (elem * 1024)) by (nonlinear_arith);
}

/// Block floats are handed over as single-precision numbers and tiled by their format; all
/// other numbers as they are, by their size.
pub proof fn law_block_floats_are_handed_over_as_floats(bridge: TiledBridge, code: u8, native_size: u32)
    ensures
        crate::program::format_of(code) is Some ==> host_elem_size(code, native_size) == native_size,
        host_elem_size(code, native_size) == native_size || host_elem_size(code, native_size) == 4,
        crate::program::format_of(bridge.data_format_tt) is Some ==> bridge.tiles_by()
            == Tilization::ByElementSize(bridge.logical_elem_size_bytes),
        bridge.tiles_by() matches Tilization::ByFormat(format) ==> format == bridge.data_format_tt
            && host_elem_size(format, native_size) == 4,
{
}

/// How many of the first `count` bindings have a visibility.
pub open spec fn bindings_before(
    bindings: Seq<RuntimeBinding>,
    visibility: Visibility,
    count: nat,
) -> nat
    decreases count,
{
    if count == 0 {
        0
    } else {
        bindings_before(bindings, visibility, (count - 1) as nat) + (if bindings[count
            - 1].visibility == visibility {
            1nat
        } else {
            0nat
        })
    }
}

/// Every binding has the address of its own stand-in, at its rank among the bindings of its
/// visibility.
pub proof fn law_stand_ins_take_the_place_of_their_bindings(
    bindings: Seq<RuntimeBinding>,
    temps: Seq<TempBuffer>,
    visibility: Visibility,
    at: nat,
    count: nat,
)
    requires
        at < count <= bindings.len(),
        bindings[at as int].visibility == visibility,
    ensures
        temp_addresses(bindings, temps, visibility, count).len() == bindings_before(
            bindings,
            visibility,
            count,
        ),
        bindings_before(bindings, visibility, at) < bindings_before(bindings, visibility, count),
        temp_addresses(bindings, temps, visibility, count)[bindings_before(
            bindings,
            visibility,
            at,
        ) as int] == temps[at as int].address,
    decreases count,
{
    lemma_stand_ins_are_counted(bindings, temps, visibility, count);
    if at + 1 < count {
        law_stand_ins_take_the_place_of_their_bindings(
            bindings,
            temps,
            visibility,
            at,
            (count - 1) as nat,
        );
    }
    lemma_stand_ins_are_counted(bindings, temps, visibility, (count - 1) as nat);
}

proof fn lemma_stand_ins_are_counted(
    bindings: Seq<RuntimeBinding>,
    temps: Seq<TempBuffer>,
    visibility: Visibility,
    count: nat,
)
    ensures
        temp_addresses(bindings, temps, visibility, count).len() == bindings_before(
            bindings,
            visibility,
            count,
        ),
    decreases count,
{
    if count > 0 {
        lemma_stand_ins_are_counted(bindings, temps, visibility, (count - 1) as nat);
    }
}

/// Every binding has the compile-time arguments of its own stand-in, behind those of the
/// bindings of its visibility before it.
pub proof fn law_stand_ins_bring_their_arguments(
    bindings: Seq<RuntimeBinding>,
    temps: Seq<TempBuffer>,
    visibility: Visibility,
    at: nat,
    count: nat,
)
    requires
        at < count <= bindings.len(),
        bindings[at as int].visibility == visibility,
    ensures
        ({
            let start = temp_compile_args(bindings, temps, visibility, at).len() as int;
            let own = temps[at as int].compile_args@;
            let all = temp_compile_args(bindings, temps, visibility, count);
            &&& start + own.len() <= all.len()
            &&& all.subrange(start, start + own.len()) == own
        }),
    decreases count,
{
    let start = temp_compile_args(bindings, temps, visibility, at).len() as int;
    let own = temps[at as int].compile_args@;
    let all = temp_compile_args(bindings, temps, visibility, count);
    if at + 1 < count {
        law_stand_ins_bring_their_arguments(bindings, temps, visibility, at, (count - 1) as nat);
        assert(all.subrange(start, start + own.len()) =~= temp_compile_args(
            bindings,
            temps,
            visibility,
            (count - 1) as nat,
        ).subrange(start, start + own.len()));
    } else {
        assert(all.subrange(start, start + own.len()) =~= own);
    }
}

/// An input is read and an output is written back, each with its own length; an output has
/// room for all its tiles.
pub proof fn law_plans_follow_visibility(binding: RuntimeBinding, bridge: TiledBridge)
    ensures
        binding.visibility is Read <==> temp_plan(binding, bridge) is Input,
        temp_plan(binding, bridge) matches TempPlan::Input { logical_size_bytes }
            ==> logical_size_bytes == binding.logical_size_bytes,
        temp_plan(binding, bridge) matches TempPlan::Output { zeros, logical_size_bytes }
            ==> logical_size_bytes == binding.logical_size_bytes && zeros == bridge.tiled_bytes,
{
}

/// A launch ends only behind its last step: work on tiles once its outputs were written
/// back, which happens only once it was submitted, and other work once it was queued. A
/// program is made only of a launch whose buffers stand ready.
pub proof fn law_launches_end_behind_their_last_step(phase: LaunchPhase, tiled: bool, succeeded: bool)
    ensures
        ({
            let next = phase.following(tiled, succeeded);
            &&& next is Done ==> phase is Done || (succeeded && (phase is FinishBridge
                || phase is Queue))
            &&& next is FinishBridge ==> phase is Submit && succeeded
            &&& next is Queue ==> phase is Target && succeeded && !tiled
            &&& next is FlushPending ==> phase is Target && succeeded && tiled
            &&& next is Target ==> phase is Compile && succeeded
            &&& next is Compile ==> phase is Bridge && succeeded
            &&& next is Bridge ==> phase is Prepare && succeeded
        }),
{
}

/// What a transfer is refused for is so, and the error names the transfer.
pub proof fn law_transfer_refusals_tell_what_differs(
    resource: TtResource,
    shape: Seq<usize>,
    strides: Seq<usize>,
    elem_size: usize,
    data_len: usize,
    num_bytes: u64,
)
    requires
        0 <= tensor_bytes(shape, elem_size) <= usize::MAX,
        tensor_bytes(shape, elem_size) <= u64::MAX,
    ensures
        read_refusal(resource, num_bytes) matches Some(error) ==> match error {
            IoError::NotReplicated(transfer) => !(resource.layout is Replicated) && transfer.label()
                == "read_resource_bytes"@,
            IoError::ReadTooLong { asked, size } => asked == num_bytes && size == resource.size
                && asked > size,
            _ => false,
        },
        write_refusal(resource, num_bytes) matches Some(error) ==> match error {
            IoError::NotReplicated(transfer) => !(resource.layout is Replicated) && transfer.label()
                == "write_resource_bytes"@,
            IoError::WriteTooLong { asked, size } => asked == num_bytes && size == resource.size
                && asked > size,
            _ => false,
        },
        download_refusal(resource, num_bytes) matches Some(error) ==> match error {
            IoError::NotReplicated(transfer) => !(resource.layout is Replicated) && transfer.label()
                == "write_to_cpu"@,
            IoError::ReadTooLong { asked, size } => asked == num_bytes && size == resource.size
                && asked > size,
            _ => false,
        },
        download_refusal(resource, num_bytes) is None <==> read_refusal(resource, num_bytes) is None,
        upload_refusal(resource, shape, strides, elem_size, data_len) matches Some(error)
            ==> match error {
            IoError::NotReplicated(transfer) => !(resource.layout is Replicated) && transfer.label()
                == "write_to_gpu"@,
            IoError::UnsupportedStrides => !strides::is_pitched(shape, strides),
            IoError::DataTooShort { found, expected } => found == data_len && expected
                == tensor_bytes(shape, elem_size) && found < expected,
            IoError::WriteTooLong { asked, size } => asked == tensor_bytes(shape, elem_size) && size
                == resource.size && asked > size,
            _ => false,
        },
{
}

/// A launch on tiles is bridged where it has a resource for each binding and its elements
/// have a size.
pub proof fn law_bridge_refusals_tell_what_differs(prepared: PreparedLaunch, resources: usize)
    ensures
        bridge_refusal(prepared, resources) is None <==> resources == prepared.bindings.len()
            && bridged_elem_size(prepared.sources) > 0,
        bridge_refusal(prepared, resources) matches Some(error) ==> match error {
            BridgeError::ResourceCount { expected, found } => expected == prepared.bindings.len()
                && found == resources && expected != found,
            BridgeError::ZeroElement => bridged_elem_size(prepared.sources) == 0,
            _ => false,
        },
{
}

/// Three formats share exponents, those of blocks of eight, of four and of two bits a number. On
/// the host, numbers of four bytes stand for theirs, whatever the size in a tile.
pub proof fn law_three_formats_share_exponents(code: u8)
    ensures
        is_block_float(6) && is_block_float(7) && is_block_float(15),
        is_block_float(code) ==> code == 6 || code == 7 || code == 15,
        is_block_float(code) ==> host_elem_size(code, 0) == 4,
        !is_block_float(code) ==> host_elem_size(code, 0) == 0,
{
}

} // verus!

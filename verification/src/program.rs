//! The program of a launch: circular buffers, kernels and the arguments of each core.
use crate::compile;
use crate::dataflow;
use crate::ir::{ComputeKernel, Elem};
use crate::kernel::TtKernelSources;
use crate::launch;
use crate::launch::{CubeCount, PreparedLaunch};
use crate::math;
use crate::scalar_writer;
use crate::storage::TtResource;
use crate::text;
use vstd::prelude::*;

verus! {

/// The number formats of the device.
#[derive(Clone, Copy, Debug, PartialEq, Eq, Structural)]
pub enum DataFormat {
    Float32,
    Float16,
    Float16B,
    Int32,
    UInt16,
    UInt32,
    UInt8,
}

/// A core by its place in the grid.
#[derive(Clone, Copy, Debug, PartialEq, Eq, Structural)]
pub struct LogicalCore {
    pub x: u32,
    pub y: u32,
}

/// The cores of a rectangle, both corners included.
#[derive(Clone, Copy, Debug, PartialEq, Eq, Structural)]
pub struct CoreRange {
    pub start: LogicalCore,
    pub end: LogicalCore,
}

#[derive(Clone, Copy, Debug, PartialEq, Eq, Structural)]
pub struct CircularBuffer {
    pub index: u8,
    pub size_bytes: u32,
    pub page_size_bytes: u32,
    pub format: DataFormat,
}

/// The runtime arguments of the three kernels on one core.
#[derive(Debug)]
pub struct CoreArguments {
    pub core: LogicalCore,
    pub reader: Vec<u32>,
    pub writer: Vec<u32>,
    pub compute: Vec<u32>,
}

/// What the device has to be told to run a launch.
#[derive(Debug)]
pub struct ProgramPlan {
    pub cores: CoreRange,
    pub inputs: Vec<CircularBuffer>,
    pub outputs: Vec<CircularBuffer>,
    /// Whether the compute kernel accumulates in full precision.
    pub full_precision: bool,
    pub arguments: Vec<CoreArguments>,
}

/// Why no program can be made of a launch.
#[derive(Clone, Copy, Debug, PartialEq, Eq, Structural)]
pub enum ProgramError {
    ReaderCompileArgs,
    WriterCompileArgs,
    DataFormat(u8),
}

impl ProgramError {
    /// The text of the error.
    pub open spec fn message(self) -> Seq<char> {
        match self {
            ProgramError::ReaderCompileArgs =>
                "reader compile args missing for TT-Metal input buffers"@,
            ProgramError::WriterCompileArgs =>
                "writer compile args missing for TT-Metal output buffers"@,
            ProgramError::DataFormat(code) => text::fill(
                "unsupported TT data format code: $0"@,
                seq![text::dec(code as nat)],
            ),
        }
    }

    /// The text of the error.
    pub fn reason(&self) -> (reason: String)
        ensures
            reason@ == self.message(),
    {
        match self {
            ProgramError::ReaderCompileArgs =>
                "reader compile args missing for TT-Metal input buffers".to_owned(),
            ProgramError::WriterCompileArgs =>
                "writer compile args missing for TT-Metal output buffers".to_owned(),
            ProgramError::DataFormat(code) => text::fill1(
                "unsupported TT data format code: $0",
                text::dec_text(*code as u64).as_str(),
            ),
        }
    }
}

/// The number format that a code stands for.
pub open spec fn format_of(code: u8) -> Option<DataFormat> {
    if code == 0 {
        Some(DataFormat::Float32)
    } else if code == 1 {
        Some(DataFormat::Float16)
    } else if code == 5 {
        Some(DataFormat::Float16B)
    } else if code == 8 {
        Some(DataFormat::Int32)
    } else if code == 9 {
        Some(DataFormat::UInt16)
    } else if code == 24 {
        Some(DataFormat::UInt32)
    } else if code == 30 {
        Some(DataFormat::UInt8)
    } else {
        None
    }
}

/// The number format that a code stands for.
pub fn data_format_to_tt(fmt: u8) -> (result: Result<DataFormat, ProgramError>)
    ensures
        match result {
            Ok(format) => format_of(fmt) == Some(format),
            Err(error) => format_of(fmt) is None && error == ProgramError::DataFormat(fmt),
        },
{
    match fmt {
        0 => Ok(DataFormat::Float32),
        1 => Ok(DataFormat::Float16),
        5 => Ok(DataFormat::Float16B),
        8 => Ok(DataFormat::Int32),
        9 => Ok(DataFormat::UInt16),
        24 => Ok(DataFormat::UInt32),
        30 => Ok(DataFormat::UInt8),
        _ => Err(ProgramError::DataFormat(fmt)),
    }
}

impl CoreRange {
    pub open spec fn width(self) -> int {
        if self.start.x <= self.end.x {
            self.end.x - self.start.x + 1
        } else {
            0
        }
    }

    pub open spec fn height(self) -> int {
        if self.start.y <= self.end.y {
            self.end.y - self.start.y + 1
        } else {
            0
        }
    }

    /// The core at a place of the row-wise order.
    pub open spec fn core_at(self, at: int) -> LogicalCore {
        LogicalCore {
            x: (self.start.x + at % self.width()) as u32,
            y: (self.start.y + at / self.width()) as u32,
        }
    }

    /// The cores of the rectangle, row by row.
    pub open spec fn cores(self) -> Seq<LogicalCore> {
        Seq::new((self.width() * self.height()) as nat, |at: int| self.core_at(at))
    }
}

proof fn lemma_row_place(row: int, column: int, width: int)
    requires
        0 <= column < width,
        0 <= row,
    ensures
        (row * width + column) / width == row,
        (row * width + column) % width == column,
        (row + 1) * width == row * width + width,
{
    vstd::arithmetic::div_mod::lemma_fundamental_div_mod_converse(
        row * width + column,
        width,
        row,
        column,
    );
    assert((row + 1) * width == row * width + width) by (nonlinear_arith);
    assert(row * width == width * row) by (nonlinear_arith);
}

/// The cores of a rectangle, row by row.
pub fn enumerate_core_range_row_wise(range: CoreRange) -> (cores: Vec<LogicalCore>)
    ensures
        cores@ == range.cores(),
{
    let mut cores: Vec<LogicalCore> = Vec::new();
    if range.start.x > range.end.x || range.start.y > range.end.y {
        assert(range.width() * range.height() == 0) by (nonlinear_arith)
            requires
                range.width() == 0 || range.height() == 0,
        ;
        assert(cores@ =~= range.cores());
        return cores;
    }
    let width: u64 = range.end.x as u64 - range.start.x as u64 + 1;
    let height: u64 = range.end.y as u64 - range.start.y as u64 + 1;
    let ghost w = width as int;
    let mut row: u64 = 0;
    assert(0 * w == 0) by (nonlinear_arith);
    while row < height
        invariant
            row <= height,
            w == width == range.width(),
            height == range.height(),
            0 < width,
            range.start.x + width - 1 == range.end.x,
            range.start.y + height - 1 == range.end.y,
            cores.len() == row * w,
            forall|at: int| 0 <= at < cores.len() ==> #[trigger] cores[at] == range.core_at(at),
        decreases height - row,
    {
        let mut column: u64 = 0;
        while column < width
            invariant
                row < height,
                column <= width,
                w == width == range.width(),
                height == range.height(),
                0 < width,
                range.start.x + width - 1 == range.end.x,
                range.start.y + height - 1 == range.end.y,
                cores.len() == row * w + column,
                forall|at: int| 0 <= at < cores.len() ==> #[trigger] cores[at] == range.core_at(at),
            decreases width - column,
        {
            proof {
                lemma_row_place(row as int, column as int, w);
            }
            cores.push(
                LogicalCore {
                    x: (range.start.x as u64 + column) as u32,
                    y: (range.start.y as u64 + row) as u32,
                },
            );
            column += 1;
        }
        proof {
            lemma_row_place(row as int, 0, w);
        }
        row += 1;
    }
    assert(row * w == range.width() * range.height()) by (nonlinear_arith)
        requires
            row == range.height(),
            w == range.width(),
    ;
    assert(cores@ =~= range.cores());
    cores
}

/// Whether the number of cores depends on the size of the grid.
pub open spec fn may_split(sources: TtKernelSources, allowed: bool) -> bool {
    allowed && sources.supports_core_partitioning && sources.num_tiles > 1
}

/// Whether the size of the grid has to be known to choose the cores.
pub fn needs_grid(sources: &TtKernelSources, allow_core_partitioning: bool) -> (needed: bool)
    ensures
        needed == may_split(*sources, allow_core_partitioning),
{
    allow_core_partitioning && sources.supports_core_partitioning && sources.num_tiles > 1
}

/// The number of cores of a launch: one, or as many of the first row as there are
/// tiles.
pub open spec fn core_count(sources: TtKernelSources, allowed: bool, grid_x: u32, grid_y: u32) -> u32 {
    if !may_split(sources, allowed) || grid_x == 0 || grid_y == 0 {
        1
    } else if sources.num_tiles < grid_x {
        sources.num_tiles
    } else {
        grid_x
    }
}

/// The first `count` cores of the first row.
pub open spec fn row_of(count: u32) -> CoreRange {
    CoreRange {
        start: LogicalCore { x: 0, y: 0 },
        end: LogicalCore { x: (count - 1) as u32, y: 0 },
    }
}

/// The first cores of the first row, at most as many as are asked for. Launches stay
/// on one row: the device does not run these kernels on several rows faithfully.
pub fn split_cores_row_wise(target_num_cores: u32, grid_x: u32, grid_y: u32) -> (ranges: Vec<CoreRange>)
    ensures
        ranges@ == (if target_num_cores == 0 || grid_x == 0 || grid_y == 0 {
            Seq::<CoreRange>::empty()
        } else {
            seq![
                row_of(
                    if target_num_cores < grid_x {
                        target_num_cores
                    } else {
                        grid_x
                    },
                ),
            ]
        }),
{
    let mut ranges: Vec<CoreRange> = Vec::new();
    if target_num_cores == 0 || grid_x == 0 || grid_y == 0 {
        return ranges;
    }
    let take: u32 = if target_num_cores < grid_x {
        target_num_cores
    } else {
        grid_x
    };
    ranges.push(
        CoreRange {
            start: LogicalCore { x: 0, y: 0 },
            end: LogicalCore { x: take - 1, y: 0 },
        },
    );
    ranges
}

/// The cores of a launch on a grid of the given size.
pub fn partitioned_tt_cores(
    sources: &TtKernelSources,
    allow_core_partitioning: bool,
    grid_x: u32,
    grid_y: u32,
) -> (range: CoreRange)
    ensures
        range == row_of(core_count(*sources, allow_core_partitioning, grid_x, grid_y)),
{
    let single = CoreRange {
        start: LogicalCore { x: 0, y: 0 },
        end: LogicalCore { x: 0, y: 0 },
    };
    if !needs_grid(sources, allow_core_partitioning) {
        return single;
    }
    let available: u32 = math::max_one(math::saturating_mul(grid_x, grid_y) as u64) as u32;
    let target: u32 = if sources.num_tiles < available {
        sources.num_tiles
    } else {
        available
    };
    proof {
        assert(grid_x == 0 || grid_y == 0 ==> grid_x * grid_y == 0) by (nonlinear_arith);
        assert(grid_x >= 1 && grid_y >= 1 ==> grid_x * grid_y >= grid_x) by (nonlinear_arith);
    }
    if target <= 1 {
        return single;
    }
    let ranges = split_cores_row_wise(target, grid_x, grid_y);
    ranges[0]
}

/// The number of tiles of one of `cores` cores: an even share, with the remainder on
/// the first cores.
pub open spec fn local_tiles(num_tiles: nat, cores: nat, index: nat) -> nat {
    num_tiles / cores + (if index < num_tiles % cores {
        1nat
    } else {
        0nat
    })
}

/// The first tile of one of `cores` cores.
pub open spec fn start_tile(num_tiles: nat, cores: nat, index: nat) -> nat {
    index * (num_tiles / cores) + (if index < num_tiles % cores {
        index
    } else {
        num_tiles % cores
    })
}

/// The shares of the cores follow one another without a gap, from the first tile to
/// the last.
pub proof fn law_tiles_are_partitioned(num_tiles: nat, cores: nat, index: nat)
    requires
        cores > 0,
        index < cores,
    ensures
        start_tile(num_tiles, cores, 0) == 0,
        start_tile(num_tiles, cores, index + 1) == start_tile(num_tiles, cores, index)
            + local_tiles(num_tiles, cores, index),
        start_tile(num_tiles, cores, cores) == num_tiles,
        start_tile(num_tiles, cores, index) <= num_tiles,
{
    let share = num_tiles / cores;
    assert(0 * share == 0) by (nonlinear_arith);
    assert((index + 1) * share == index * share + share) by (nonlinear_arith);
    assert(cores * share + num_tiles % cores == num_tiles) by {
        vstd::arithmetic::div_mod::lemma_fundamental_div_mod(num_tiles as int, cores as int);
    }
    assert(num_tiles % cores < cores) by {
        vstd::arithmetic::div_mod::lemma_mod_bound(num_tiles as int, cores as int);
    }
    assert(index * share <= cores * share) by (nonlinear_arith)
        requires
            index <= cores,
    ;
}

/// The core whose share a tile belongs to.
proof fn lemma_owner(num_tiles: nat, cores: nat, tile: nat, below: nat) -> (owner: nat)
    requires
        cores > 0,
        tile < start_tile(num_tiles, cores, below),
        below <= cores,
    ensures
        owner < below,
        start_tile(num_tiles, cores, owner) <= tile < start_tile(num_tiles, cores, owner)
            + local_tiles(num_tiles, cores, owner),
    decreases below,
{
    if below == 0 {
        law_tiles_are_partitioned(num_tiles, cores, 0);
        0
    } else {
        law_tiles_are_partitioned(num_tiles, cores, (below - 1) as nat);
        if tile < start_tile(num_tiles, cores, (below - 1) as nat) {
            lemma_owner(num_tiles, cores, tile, (below - 1) as nat)
        } else {
            (below - 1) as nat
        }
    }
}

/// Every tile belongs to the share of some core.
pub proof fn law_every_tile_has_a_core(num_tiles: nat, cores: nat, tile: nat)
    requires
        cores > 0,
        tile < num_tiles,
    ensures
        exists|owner: nat|
            owner < cores && #[trigger] start_tile(num_tiles, cores, owner) <= tile < start_tile(
                num_tiles,
                cores,
                owner,
            ) + local_tiles(num_tiles, cores, owner),
{
    law_tiles_are_partitioned(num_tiles, cores, 0);
    let owner = lemma_owner(num_tiles, cores, tile, cores);
    assert(start_tile(num_tiles, cores, owner) <= tile);
}

proof fn lemma_starts_ascend(num_tiles: nat, cores: nat, a: nat, b: nat)
    requires
        cores > 0,
        a < b <= cores,
    ensures
        start_tile(num_tiles, cores, a) + local_tiles(num_tiles, cores, a) <= start_tile(
            num_tiles,
            cores,
            b,
        ),
    decreases b,
{
    law_tiles_are_partitioned(num_tiles, cores, a);
    if a + 1 < b {
        law_tiles_are_partitioned(num_tiles, cores, (b - 1) as nat);
        lemma_starts_ascend(num_tiles, cores, a, (b - 1) as nat);
    }
}

/// No tile belongs to the shares of two cores.
pub proof fn law_no_tile_has_two_cores(num_tiles: nat, cores: nat, tile: nat, a: nat, b: nat)
    requires
        a < cores,
        b < cores,
        start_tile(num_tiles, cores, a) <= tile < start_tile(num_tiles, cores, a) + local_tiles(
            num_tiles,
            cores,
            a,
        ),
        start_tile(num_tiles, cores, b) <= tile < start_tile(num_tiles, cores, b) + local_tiles(
            num_tiles,
            cores,
            b,
        ),
    ensures
        a == b,
{
    if a < b {
        lemma_starts_ascend(num_tiles, cores, a, b);
    } else if b < a {
        lemma_starts_ascend(num_tiles, cores, b, a);
    }
}

/// How many tiles a circular buffer holds: two, or the whole staged input.
pub open spec fn buffer_tiles(sources: TtKernelSources, index: nat) -> nat {
    if sources.full_input_staging_tiles > 0 && index == 0 {
        sources.full_input_staging_tiles as nat
    } else {
        2
    }
}

/// The circular buffer of an input or an output; `first` is the index of the first.
pub open spec fn circular_buffer(
    sources: TtKernelSources,
    format: DataFormat,
    first: u32,
    index: nat,
) -> CircularBuffer {
    CircularBuffer {
        index: (first + index) as u8,
        size_bytes: (buffer_tiles(sources, index) * sources.tile_size_bytes) as u32,
        page_size_bytes: sources.tile_size_bytes,
        format,
    }
}

/// The circular buffers of `count` inputs or outputs.
pub open spec fn circular_buffers(
    sources: TtKernelSources,
    format: DataFormat,
    first: u32,
    count: u32,
) -> Seq<CircularBuffer> {
    Seq::new(count as nat, |i: int| circular_buffer(sources, format, first, i as nat))
}

fn make_circular_buffers(sources: &TtKernelSources, format: DataFormat, first: u32, count: u32) -> (buffers: Vec<
    CircularBuffer,
>)
    requires
        2 * sources.tile_size_bytes <= u32::MAX,
        count > 0 ==> sources.full_input_staging_tiles * sources.tile_size_bytes <= u32::MAX,
        first + count <= u32::MAX,
    ensures
        buffers@ == circular_buffers(*sources, format, first, count),
{
    let mut buffers: Vec<CircularBuffer> = Vec::new();
    let mut i: u32 = 0;
    while i < count
        invariant
            i <= count,
            i == buffers.len(),
            2 * sources.tile_size_bytes <= u32::MAX,
            count > 0 ==> sources.full_input_staging_tiles * sources.tile_size_bytes <= u32::MAX,
            first + count <= u32::MAX,
            forall|j: int|
                0 <= j < i ==> #[trigger] buffers[j] == circular_buffer(
                    *sources,
                    format,
                    first,
                    j as nat,
                ),
        decreases count - i,
    {
        let tiles: u32 = if sources.full_input_staging_tiles > 0 && i == 0 {
            sources.full_input_staging_tiles
        } else {
            2
        };
        buffers.push(
            CircularBuffer {
                index: (first + i) as u8,
                size_bytes: tiles * sources.tile_size_bytes,
                page_size_bytes: sources.tile_size_bytes,
                format,
            },
        );
        i += 1;
    }
    assert(buffers@ =~= circular_buffers(*sources, format, first, count));
    buffers
}

/// The runtime arguments of the reader: the addresses of the inputs, the number of
/// tiles, the first tile, and what the sources add.
pub open spec fn reader_arguments(sources: TtKernelSources, input_addrs: Seq<u32>, tiles: u32, start: u32) -> Seq<
    u32,
> {
    input_addrs + seq![tiles, start] + sources.reader_runtime_args@
}

/// The runtime arguments of the writer: the addresses of the outputs, the number of
/// tiles, the first tile where the tiles may be split, and what the sources add.
pub open spec fn writer_arguments(sources: TtKernelSources, output_addrs: Seq<u32>, tiles: u32, start: u32) -> Seq<
    u32,
> {
    if sources.supports_core_partitioning {
        output_addrs + seq![tiles, start] + sources.writer_runtime_args@
    } else {
        output_addrs + seq![tiles] + sources.writer_runtime_args@
    }
}

/// The runtime arguments of the compute kernel: the number of tiles and what the
/// sources add.
pub open spec fn compute_arguments(sources: TtKernelSources, tiles: u32) -> Seq<u32> {
    seq![tiles] + sources.compute_runtime_args@
}

impl CoreArguments {
    /// Whether these are the arguments of the core at `index` of `cores` cores.
    pub open spec fn are_for(
        self,
        sources: TtKernelSources,
        input_addrs: Seq<u32>,
        output_addrs: Seq<u32>,
        cores: nat,
        index: nat,
    ) -> bool {
        let tiles = local_tiles(sources.num_tiles as nat, cores, index) as u32;
        let start = start_tile(sources.num_tiles as nat, cores, index) as u32;
        &&& self.core == (LogicalCore { x: index as u32, y: 0 })
        &&& self.reader@ == reader_arguments(sources, input_addrs, tiles, start)
        &&& self.writer@ == writer_arguments(sources, output_addrs, tiles, start)
        &&& self.compute@ == compute_arguments(sources, tiles)
    }
}

fn extend_words(words: &mut Vec<u32>, more: &Vec<u32>)
    ensures
        final(words)@ == old(words)@ + more@,
{
    let mut i: usize = 0;
    assert(words@ =~= old(words)@ + more@.take(0));
    while i < more.len()
        invariant
            i <= more.len(),
            words@ == old(words)@ + more@.take(i as int),
        decreases more.len() - i,
    {
        words.push(more[i]);
        assert(more@.take(i + 1) =~= more@.take(i as int).push(more@[i as int]));
        i += 1;
    }
    assert(more@.take(i as int) =~= more@);
}

fn core_arguments(
    sources: &TtKernelSources,
    input_addrs: &Vec<u32>,
    output_addrs: &Vec<u32>,
    index: u32,
    tiles: u32,
    start: u32,
) -> (arguments: CoreArguments)
    ensures
        arguments.core == (LogicalCore { x: index, y: 0 }),
        arguments.reader@ == reader_arguments(*sources, input_addrs@, tiles, start),
        arguments.writer@ == writer_arguments(*sources, output_addrs@, tiles, start),
        arguments.compute@ == compute_arguments(*sources, tiles),
{
    let mut reader = crate::storage::copy_words(input_addrs);
    reader.push(tiles);
    reader.push(start);
    assert(reader@ =~= input_addrs@ + seq![tiles, start]);
    extend_words(&mut reader, &sources.reader_runtime_args);
    let mut writer = crate::storage::copy_words(output_addrs);
    writer.push(tiles);
    if sources.supports_core_partitioning {
        writer.push(start);
        assert(writer@ =~= output_addrs@ + seq![tiles, start]);
    } else {
        assert(writer@ =~= output_addrs@ + seq![tiles]);
    }
    extend_words(&mut writer, &sources.writer_runtime_args);
    let mut compute = vec![tiles];
    assert(compute@ =~= seq![tiles]);
    extend_words(&mut compute, &sources.compute_runtime_args);
    CoreArguments { core: LogicalCore { x: index, y: 0 }, reader, writer, compute }
}

fn all_core_arguments(
    sources: &TtKernelSources,
    input_addrs: &Vec<u32>,
    output_addrs: &Vec<u32>,
    cores: u32,
) -> (arguments: Vec<CoreArguments>)
    requires
        cores > 0,
    ensures
        arguments.len() == cores,
        forall|i: int|
            0 <= i < cores ==> (#[trigger] arguments[i]).are_for(
                *sources,
                input_addrs@,
                output_addrs@,
                cores as nat,
                i as nat,
            ),
{
    let share: u32 = sources.num_tiles / cores;
    let extra: u32 = sources.num_tiles % cores;
    let mut arguments: Vec<CoreArguments> = Vec::new();
    let mut start: u32 = 0;
    let mut i: u32 = 0;
    proof {
        law_tiles_are_partitioned(sources.num_tiles as nat, cores as nat, 0);
    }
    while i < cores
        invariant
            i <= cores,
            i == arguments.len(),
            share == sources.num_tiles / cores,
            extra == sources.num_tiles % cores,
            start == start_tile(sources.num_tiles as nat, cores as nat, i as nat),
            forall|j: int|
                0 <= j < i ==> (#[trigger] arguments[j]).are_for(
                    *sources,
                    input_addrs@,
                    output_addrs@,
                    cores as nat,
                    j as nat,
                ),
        decreases cores - i,
    {
        proof {
            law_tiles_are_partitioned(sources.num_tiles as nat, cores as nat, i as nat);
            if i + 1 < cores {
                law_tiles_are_partitioned(sources.num_tiles as nat, cores as nat, (i + 1) as nat);
            }
        }
        let tiles: u32 = if i < extra {
            share + 1
        } else {
            share
        };
        arguments.push(
            core_arguments(sources, input_addrs, output_addrs, i, tiles, start),
        );
        start = start + tiles;
        i += 1;
    }
    arguments
}

/// Why no program can be made of a launch.
pub open spec fn refusal(sources: TtKernelSources) -> Option<ProgramError> {
    if sources.num_inputs > 0 && sources.reader_compile_args.len() == 0 {
        Some(ProgramError::ReaderCompileArgs)
    } else if sources.num_outputs > 0 && sources.writer_compile_args.len() == 0 {
        Some(ProgramError::WriterCompileArgs)
    } else if format_of(sources.data_format_tt) is None {
        Some(ProgramError::DataFormat(sources.data_format_tt))
    } else {
        None
    }
}

/// Whether the circular buffers of a launch can be counted: their sizes, and the
/// outputs, each of which has a number in a byte.
pub open spec fn sizes_fit(sources: TtKernelSources) -> bool {
    &&& 2 * sources.tile_size_bytes <= u32::MAX
    &&& sources.num_inputs > 0 || sources.num_outputs > 0 ==> sources.full_input_staging_tiles
        * sources.tile_size_bytes <= u32::MAX
    &&& sources.num_outputs <= u8::MAX - dataflow::FIRST_OUTPUT_BUFFER + 1
}

impl ProgramPlan {
    /// Whether this is the program of a launch on `cores` cores.
    pub open spec fn is_for(
        self,
        sources: TtKernelSources,
        input_addrs: Seq<u32>,
        output_addrs: Seq<u32>,
        cores: u32,
    ) -> bool {
        let format = format_of(sources.data_format_tt)->0;
        &&& self.cores == row_of(cores)
        &&& self.inputs@ == circular_buffers(sources, format, 0, sources.num_inputs)
        &&& self.outputs@ == circular_buffers(
            sources,
            format,
            dataflow::FIRST_OUTPUT_BUFFER,
            sources.num_outputs,
        )
        &&& self.full_precision == (format is Float32)
        &&& self.arguments.len() == cores
        &&& forall|i: int|
            0 <= i < cores ==> (#[trigger] self.arguments[i]).are_for(
                sources,
                input_addrs,
                output_addrs,
                cores as nat,
                i as nat,
            )
    }
}

/// Make the program of a launch on a grid of the given size.
pub fn compile_kernel(
    sources: &TtKernelSources,
    input_addrs: &Vec<u32>,
    output_addrs: &Vec<u32>,
    allow_core_partitioning: bool,
    grid_x: u32,
    grid_y: u32,
) -> (result: Result<ProgramPlan, ProgramError>)
    requires
        refusal(*sources) is None ==> sizes_fit(*sources),
    ensures
        match result {
            Ok(plan) => refusal(*sources) is None && plan.is_for(
                *sources,
                input_addrs@,
                output_addrs@,
                core_count(*sources, allow_core_partitioning, grid_x, grid_y),
            ),
            Err(error) => refusal(*sources) == Some(error),
        },
{
    let cores = partitioned_tt_cores(sources, allow_core_partitioning, grid_x, grid_y);
    if sources.num_inputs > 0 && sources.reader_compile_args.len() == 0 {
        return Err(ProgramError::ReaderCompileArgs);
    }
    if sources.num_outputs > 0 && sources.writer_compile_args.len() == 0 {
        return Err(ProgramError::WriterCompileArgs);
    }
    let format = match data_format_to_tt(sources.data_format_tt) {
        Ok(format) => format,
        Err(error) => {
            return Err(error);
        },
    };
    let inputs = make_circular_buffers(sources, format, 0, sources.num_inputs);
    let outputs = make_circular_buffers(
        sources,
        format,
        dataflow::FIRST_OUTPUT_BUFFER,
        sources.num_outputs,
    );
    let arguments = all_core_arguments(sources, input_addrs, output_addrs, cores.end.x + 1);
    Ok(
        ProgramPlan {
            cores,
            inputs,
            outputs,
            full_precision: matches!(format, DataFormat::Float32),
            arguments,
        },
    )
}

/// The readers find their arguments where their sources look for them: the address of
/// each input, the number of tiles behind the addresses and the first tile behind it.
pub proof fn law_readers_find_their_arguments(
    sources: TtKernelSources,
    input_addrs: Seq<u32>,
    tiles: u32,
    start: u32,
    input: int,
)
    requires
        input_addrs.len() == sources.num_inputs,
        0 <= input < sources.num_inputs,
    ensures
        reader_arguments(sources, input_addrs, tiles, start)[input] == input_addrs[input],
        reader_arguments(sources, input_addrs, tiles, start)[sources.num_inputs as int] == tiles,
        reader_arguments(sources, input_addrs, tiles, start)[sources.num_inputs + 1] == start,
{
}

/// The tile writer finds its arguments where its source looks for them: the address of
/// each output, and the number of tiles behind the addresses.
pub proof fn law_tile_writer_finds_its_arguments(
    sources: TtKernelSources,
    output_addrs: Seq<u32>,
    tiles: u32,
    start: u32,
    output: int,
)
    requires
        output_addrs.len() == sources.num_outputs,
        0 <= output < sources.num_outputs,
    ensures
        writer_arguments(sources, output_addrs, tiles, start)[output] == output_addrs[output],
        writer_arguments(sources, output_addrs, tiles, start)[sources.num_outputs as int] == tiles,
{
}

/// The scalar writer finds its arguments where its source looks for them: behind the
/// addresses of the outputs the number of tiles, the first tile, the number of units
/// and the cube count, and then the info block.
pub proof fn law_scalar_writer_finds_its_arguments(
    prepared: PreparedLaunch,
    kernel: ComputeKernel,
    sources: TtKernelSources,
    resources: Seq<TtResource>,
    info_words: Seq<u32>,
    count: CubeCount,
    tiles: u32,
    start: u32,
)
    requires
        prepared.is_launch(kernel, sources, resources, info_words, count),
        prepared.output_addrs.len() == sources.num_outputs,
        sources.io_layout is Logical,
        sources.supports_core_partitioning,
        sources.full_input_staging_tiles == 0,
    ensures
        ({
            let args = writer_arguments(
                prepared.sources,
                prepared.output_addrs@,
                tiles,
                start,
            );
            let n = sources.num_outputs as int;
            let info = scalar_writer::info_offset(n as nat) as int;
            &&& args[n] == tiles
            &&& args[n + 1] == start
            &&& args[n + 2] == launch::dispatched_units(kernel, sources, resources, count)
            &&& args.subrange(n + 3, n + 6) == launch::cube_count_words(count)
            &&& info_words.len() > 0 ==> args.skip(info) == info_words
            &&& info_words.len() == 0 && sources.info_static_len > 0 ==> args.skip(info)
                == launch::static_info(resources, sources)
        }),
{
    let args = writer_arguments(prepared.sources, prepared.output_addrs@, tiles, start);
    let n = sources.num_outputs as int;
    let info = scalar_writer::info_offset(n as nat) as int;
    let words = launch::writer_args(kernel, sources, resources, info_words, count);
    let units = launch::dispatched_units(kernel, sources, resources, count);
    assert(prepared.sources.writer_runtime_args@ == words);
    assert(launch::scalar_prefix(units, count).len() == 4);
    assert(args[n + 2] == words[0]);
    assert(words[0] == units);
    assert(args.subrange(n + 3, n + 6) =~= launch::cube_count_words(count));
    if info_words.len() > 0 {
        assert(args.skip(info) =~= info_words);
    } else if sources.info_static_len > 0 {
        assert(args.skip(info) =~= launch::static_info(resources, sources));
    }
}

impl DataFormat {
    /// The size of a number in bytes.
    pub open spec fn width(self) -> nat {
        match self {
            DataFormat::UInt8 => 1,
            DataFormat::Float16 | DataFormat::Float16B | DataFormat::UInt16 => 2,
            DataFormat::Float32 | DataFormat::Int32 | DataFormat::UInt32 => 4,
        }
    }

    /// The bits of the exponent of a number; none where it is an integer.
    pub open spec fn exponent_bits(self) -> nat {
        match self {
            DataFormat::Float16 => 5,
            DataFormat::Float16B | DataFormat::Float32 => 8,
            _ => 0,
        }
    }
}

/// The bits of the exponent of an element; none where it is an integer.
pub open spec fn exponent_bits(elem: Elem) -> nat {
    match elem {
        Elem::F16 => 5,
        Elem::BF16 | Elem::F32 | Elem::TF32 => 8,
        Elem::F64 => 11,
        _ => 0,
    }
}

/// The format that a kernel's sources name is one that the program knows, and holds the
/// kernel's elements as they are: as wide, with the same exponent, and with a sign where an
/// integer of 32 bits has one.
pub proof fn law_formats_hold_their_elements(elem: Elem)
    requires
        compile::data_format(elem) is Some,
    ensures
        format_of(compile::data_format(elem)->0) matches Some(format) && {
            &&& format.width() == elem.bytes()
            &&& format.exponent_bits() == exponent_bits(elem)
            &&& elem is I32 <==> format is Int32
        },
{
}

/// The shares of two cores differ by one tile at most.
pub proof fn law_shares_are_even(num_tiles: nat, cores: nat, a: nat, b: nat)
    requires
        cores > 0,
    ensures
        local_tiles(num_tiles, cores, a) <= local_tiles(num_tiles, cores, b) + 1,
        num_tiles >= cores ==> local_tiles(num_tiles, cores, a) >= 1,
{
    assert(num_tiles >= cores ==> num_tiles / cores >= 1) by (nonlinear_arith)
        requires
            cores > 0,
    ;
}

/// A launch runs on one core at least, on no more cores than it has tiles to share, and on
/// no more than a row of the grid has; on one only where it may not be split. A launch that
/// may be split runs on all cores of the row, or on one for each tile.
pub proof fn law_cores_share_the_tiles(sources: TtKernelSources, allowed: bool, grid_x: u32, grid_y: u32)
    ensures
        ({
            let cores = core_count(sources, allowed, grid_x, grid_y);
            &&& cores >= 1
            &&& cores > 1 ==> cores <= sources.num_tiles && cores <= grid_x && grid_y > 0
            &&& cores > 1 ==> allowed && sources.supports_core_partitioning
            &&& allowed && sources.supports_core_partitioning && sources.num_tiles > 0 && grid_x > 0
                && grid_y > 0 ==> cores == sources.num_tiles || cores == grid_x
        }),
{
}

/// Every core of a program gets its own share of the tiles, under its own place in the row:
/// the reader and the writer from the same first tile on, and all three kernels as many.
pub proof fn law_cores_get_their_shares(
    plan: ProgramPlan,
    sources: TtKernelSources,
    input_addrs: Seq<u32>,
    output_addrs: Seq<u32>,
    cores: u32,
    at: int,
)
    requires
        plan.is_for(sources, input_addrs, output_addrs, cores),
        input_addrs.len() == sources.num_inputs,
        output_addrs.len() == sources.num_outputs,
        0 <= at < cores,
    ensures
        ({
            let core = plan.arguments[at];
            let tiles = local_tiles(sources.num_tiles as nat, cores as nat, at as nat);
            let start = start_tile(sources.num_tiles as nat, cores as nat, at as nat);
            &&& core.core.x == at
            &&& core.core.y == 0
            &&& core.reader[sources.num_inputs as int] == tiles
            &&& core.reader[sources.num_inputs + 1] == start
            &&& core.writer[sources.num_outputs as int] == tiles
            &&& sources.supports_core_partitioning ==> core.writer[sources.num_outputs + 1] == start
            &&& core.compute[0] == tiles
            &&& forall|i: int| 0 <= i < input_addrs.len() ==> core.reader[i] == input_addrs[i]
            &&& forall|i: int| 0 <= i < output_addrs.len() ==> core.writer[i] == output_addrs[i]
        }),
{
    assert(plan.arguments[at].are_for(
        sources,
        input_addrs,
        output_addrs,
        cores as nat,
        at as nat,
    ));
    law_tiles_are_partitioned(sources.num_tiles as nat, cores as nat, at as nat);
    law_tiles_are_partitioned(sources.num_tiles as nat, cores as nat, (cores - 1) as nat);
    lemma_starts_ascend(sources.num_tiles as nat, cores as nat, at as nat, cores as nat);
}

/// The circular buffers of a program are those that its kernels name: an input has the one
/// of its number, an output the one of its number behind the first sixteen. Their pages are
/// tiles, of which there are two, or the whole of a first buffer that is staged, and all hold
/// the numbers of the sources' format.
pub proof fn law_kernels_find_their_circular_buffers(
    plan: ProgramPlan,
    sources: TtKernelSources,
    input_addrs: Seq<u32>,
    output_addrs: Seq<u32>,
    cores: u32,
    at: int,
)
    requires
        plan.is_for(sources, input_addrs, output_addrs, cores),
        sizes_fit(sources),
        0 <= at,
    ensures
        at < sources.num_inputs ==> {
            let buffer = plan.inputs[at];
            &&& at <= u8::MAX ==> buffer.index == at
            &&& buffer.page_size_bytes == sources.tile_size_bytes
            &&& Some(buffer.format) == format_of(sources.data_format_tt) || format_of(
                sources.data_format_tt,
            ) is None
            &&& at > 0 || sources.full_input_staging_tiles == 0 ==> buffer.size_bytes == 2
                * sources.tile_size_bytes
            &&& at == 0 && sources.full_input_staging_tiles > 0 ==> buffer.size_bytes
                == sources.full_input_staging_tiles * sources.tile_size_bytes
        },
        at < sources.num_outputs ==> {
            let buffer = plan.outputs[at];
            &&& buffer.index == 16 + at
            &&& buffer.page_size_bytes == sources.tile_size_bytes
            &&& at > 0 || sources.full_input_staging_tiles == 0 ==> buffer.size_bytes == 2
                * sources.tile_size_bytes
        },
        plan.inputs.len() == sources.num_inputs,
        plan.outputs.len() == sources.num_outputs,
{
    if at < sources.num_inputs {
        assert(plan.inputs@[at] == circular_buffer(
            sources,
            format_of(sources.data_format_tt)->0,
            0,
            at as nat,
        ));
    }
    if at < sources.num_outputs {
        assert(plan.outputs@[at] == circular_buffer(
            sources,
            format_of(sources.data_format_tt)->0,
            dataflow::FIRST_OUTPUT_BUFFER,
            at as nat,
        ));
    }
}

/// The cores of a rectangle are all within it, and each of its places has one.
pub proof fn law_rectangles_have_all_their_cores(range: CoreRange, at: int, x: u32, y: u32)
    requires
        range.start.x <= range.end.x,
        range.start.y <= range.end.y,
    ensures
        0 <= at < range.cores().len() ==> {
            let core = range.cores()[at];
            &&& range.start.x <= core.x <= range.end.x
            &&& range.start.y <= core.y <= range.end.y
        },
        range.start.x <= x <= range.end.x && range.start.y <= y <= range.end.y ==> {
            let place = (y - range.start.y) * range.width() + (x - range.start.x);
            &&& 0 <= place < range.cores().len()
            &&& range.cores()[place] == (LogicalCore { x, y })
        },
{
    let w = range.width();
    let h = range.height();
    if 0 <= at < range.cores().len() {
        vstd::arithmetic::div_mod::lemma_fundamental_div_mod(at, w);
        let row = at / w;
        let column = at % w;
        assert(0 <= row < h) by (nonlinear_arith)
            requires
                0 <= at < w * h,
                at == w * row + column,
                0 <= column < w,
                w > 0,
        ;
    }
    if range.start.x <= x <= range.end.x && range.start.y <= y <= range.end.y {
        let row = y - range.start.y;
        let column = x - range.start.x;
        lemma_row_place(row, column, w);
        assert(0 <= row * w + column < w * h) by (nonlinear_arith)
            requires
                0 <= row <= h - 1,
                0 <= column < w,
        ;
    }
}

/// A launch is made a program where its buffers have compile-time arguments and its format is
/// known, and refused for no other reason. It accumulates in full precision where its numbers
/// have it.
pub proof fn law_programs_are_refused_for_a_reason(
    plan: ProgramPlan,
    sources: TtKernelSources,
    input_addrs: Seq<u32>,
    output_addrs: Seq<u32>,
    cores: u32,
)
    ensures
        refusal(sources) is None <==> {
            &&& sources.num_inputs > 0 ==> sources.reader_compile_args.len() > 0
            &&& sources.num_outputs > 0 ==> sources.writer_compile_args.len() > 0
            &&& format_of(sources.data_format_tt) is Some
        },
        refusal(sources) matches Some(error) ==> match error {
            ProgramError::ReaderCompileArgs => sources.num_inputs > 0
                && sources.reader_compile_args.len() == 0,
            ProgramError::WriterCompileArgs => sources.num_outputs > 0
                && sources.writer_compile_args.len() == 0,
            ProgramError::DataFormat(code) => code == sources.data_format_tt && format_of(
                code,
            ) is None,
        },
        plan.is_for(sources, input_addrs, output_addrs, cores) && refusal(sources) is None ==> (
        plan.full_precision <==> format_of(sources.data_format_tt) == Some(DataFormat::Float32)),
{
}

/// A row has as many cores as it is asked for, one behind the other along x.
pub proof fn law_rows_have_their_cores(count: u32, at: int)
    requires
        count > 0,
        0 <= at < count,
    ensures
        row_of(count).cores().len() == count,
        row_of(count).cores()[at] == (LogicalCore { x: at as u32, y: 0 }),
{
    law_rectangles_have_all_their_cores(row_of(count), at, at as u32, 0);
    assert(row_of(count).width() == count);
    assert(row_of(count).height() == 1);
    let w = row_of(count).width();
    let h = row_of(count).height();
    assert(w * h == w) by (nonlinear_arith)
        requires
            h == 1,
    ;
    assert(0 * w == 0) by (nonlinear_arith);
}

} // verus!

//! Sources of the dataflow kernels that bring pages from DRAM into the circular
//! buffers.
//!
//! Runtime arguments: the address of each input, the number of tiles, the first tile
//! and, where the whole first input is staged, its number of pages and their size.
use crate::dataflow;
use crate::text;
use vstd::prelude::*;

verus! {

pub const SOURCE_ADDRESS: &'static str = "    uint32_t src$0_addr = get_arg_val<uint32_t>($0);\n";

pub const NUM_TILES: &'static str = "    uint32_t num_tiles = get_arg_val<uint32_t>($0);\n";

pub const START_TILE: &'static str = "    uint32_t start_tile = get_arg_val<uint32_t>($0);\n";

pub const TILE_LOOP: &'static str = "\n    for (uint32_t i = 0; i < num_tiles; i++) {\n        uint32_t tile_idx = start_tile + i;\n";

pub const RESERVE: &'static str = "        cb_reserve_back(cb_in$0, 1);\n";

pub const READ_TILE: &'static str = "        uint32_t l1_addr_in$0 = get_write_ptr(cb_in$0);\n        noc_async_read_tile(tile_idx, a$0, l1_addr_in$0);\n";

pub const READ_PAGE: &'static str = "        uint32_t l1_addr_in$0 = get_write_ptr(cb_in$0);\n        uint32_t page_bytes_in$0 = get_tile_size(cb_in$0);\n        uint64_t src_noc_addr_in$0 = a$0.get_noc_addr(tile_idx);\n        noc_async_read(src_noc_addr_in$0, l1_addr_in$0, page_bytes_in$0);\n";

pub const READ_BARRIER: &'static str = "        noc_async_read_barrier();\n\n";

pub const PUSH: &'static str = "        cb_push_back(cb_in$0, 1);\n";

pub const STAGED_TILES: &'static str = "    uint32_t staged_input_tiles = get_arg_val<uint32_t>($0);\n";

pub const STAGED_PAGE_BYTES: &'static str = "    uint32_t staged_input_page_bytes = get_arg_val<uint32_t>($0);\n";

pub const STAGE_FIRST_INPUT: &'static str = "\n    cb_reserve_back(cb_in0, staged_input_tiles);\n    uint32_t l1_addr_in0_base = get_write_ptr(cb_in0);\n    for (uint32_t staged_tile = 0; staged_tile < staged_input_tiles; ++staged_tile) {\n        uint64_t src_noc_addr_in0 = a0.get_noc_addr(staged_tile);\n        noc_async_read(src_noc_addr_in0, l1_addr_in0_base + staged_tile * staged_input_page_bytes, staged_input_page_bytes);\n    }\n    noc_async_read_barrier();\n    cb_push_back(cb_in0, staged_input_tiles);\n";

/// The tile reader: for each tile, reserve a place in every input buffer, read the
/// tile of every input, wait, and hand them over.
pub open spec fn tile_reader(num_inputs: nat) -> Seq<char> {
    if num_inputs == 0 {
        dataflow::PROLOGUE@ + dataflow::IDLE@
    } else {
        dataflow::PROLOGUE@ + text::numbered(SOURCE_ADDRESS@, 0, num_inputs)
            + dataflow::with_number(NUM_TILES@, num_inputs) + dataflow::with_number(
            START_TILE@,
            num_inputs + 1,
        ) + "\n"@ + text::numbered(dataflow::INPUT_BUFFER@, 0, num_inputs) + "\n"@
            + dataflow::accessors("a"@, "src"@, num_inputs) + TILE_LOOP@ + text::numbered(
            RESERVE@,
            0,
            num_inputs,
        ) + "\n"@ + text::numbered(READ_TILE@, 0, num_inputs) + READ_BARRIER@ + text::numbered(
            PUSH@,
            0,
            num_inputs,
        ) + "    }\n}\n"@
    }
}

/// Generate the C++ source of the reader that moves whole tiles.
///
/// Each input buffer needs two compile-time arguments: its configuration flags and
/// its aligned page size.
pub fn generate_reader_source(num_inputs: u32) -> (source: String)
    requires
        num_inputs < u32::MAX,
    ensures
        source@ == tile_reader(num_inputs as nat),
{
    let mut source = dataflow::PROLOGUE.to_owned();
    if num_inputs == 0 {
        source.append(dataflow::IDLE);
        return source;
    }
    source.append(text::numbered_text(SOURCE_ADDRESS, 0, num_inputs).as_str());
    source.append(dataflow::with_number_text(NUM_TILES, num_inputs).as_str());
    source.append(dataflow::with_number_text(START_TILE, num_inputs + 1).as_str());
    source.append("\n");
    source.append(text::numbered_text(dataflow::INPUT_BUFFER, 0, num_inputs).as_str());
    source.append("\n");
    source.append(dataflow::accessors_text("a", "src", num_inputs).as_str());
    source.append(TILE_LOOP);
    source.append(text::numbered_text(RESERVE, 0, num_inputs).as_str());
    source.append("\n");
    source.append(text::numbered_text(READ_TILE, 0, num_inputs).as_str());
    source.append(READ_BARRIER);
    source.append(text::numbered_text(PUSH, 0, num_inputs).as_str());
    source.append("    }\n}\n");
    source
}

/// What the page reader declares before it moves anything.
pub open spec fn page_reader_head(num_inputs: nat, staged: bool) -> Seq<char> {
    dataflow::PROLOGUE@ + text::numbered(SOURCE_ADDRESS@, 0, num_inputs) + dataflow::with_number(
        NUM_TILES@,
        num_inputs,
    ) + dataflow::with_number(START_TILE@, num_inputs + 1) + text::given(
        staged,
        dataflow::with_number(STAGED_TILES@, num_inputs + 2) + dataflow::with_number(
            STAGED_PAGE_BYTES@,
            num_inputs + 3,
        ),
    ) + "\n"@ + text::numbered(dataflow::INPUT_BUFFER@, 0, num_inputs) + "\n"@
        + dataflow::accessors("a"@, "src"@, num_inputs)
}

/// The loop of the page reader over the inputs from `first` on.
pub open spec fn page_reader_loop(num_inputs: nat, first: nat) -> Seq<char> {
    TILE_LOOP@ + text::numbered(RESERVE@, first, num_inputs) + "\n"@ + text::numbered(
        READ_PAGE@,
        first,
        num_inputs,
    ) + READ_BARRIER@ + text::numbered(PUSH@, first, num_inputs) + "    }\n"@
}

/// The page reader: as the tile reader, but on raw pages. With staging the first
/// input is read whole before the loop and left out of it, and a kernel with no
/// other input has no loop.
pub open spec fn page_reader(num_inputs: nat, staged: bool) -> Seq<char> {
    if num_inputs == 0 {
        dataflow::PROLOGUE@ + dataflow::IDLE@
    } else {
        page_reader_head(num_inputs, staged) + text::given(staged, STAGE_FIRST_INPUT@)
            + text::given(
            num_inputs > 1 || !staged,
            page_reader_loop(
                num_inputs,
                if staged {
                    1
                } else {
                    0
                },
            ),
        ) + "}\n"@
    }
}

fn page_reader_head_text(num_inputs: u32, staged: bool) -> (source: String)
    requires
        num_inputs <= u32::MAX - 3,
    ensures
        source@ == page_reader_head(num_inputs as nat, staged),
{
    let mut source = dataflow::PROLOGUE.to_owned();
    source.append(text::numbered_text(SOURCE_ADDRESS, 0, num_inputs).as_str());
    source.append(dataflow::with_number_text(NUM_TILES, num_inputs).as_str());
    source.append(dataflow::with_number_text(START_TILE, num_inputs + 1).as_str());
    let mut staging = dataflow::with_number_text(STAGED_TILES, num_inputs + 2);
    staging.append(dataflow::with_number_text(STAGED_PAGE_BYTES, num_inputs + 3).as_str());
    source.append(text::given_text(staged, staging.as_str()).as_str());
    source.append("\n");
    source.append(text::numbered_text(dataflow::INPUT_BUFFER, 0, num_inputs).as_str());
    source.append("\n");
    source.append(dataflow::accessors_text("a", "src", num_inputs).as_str());
    source
}

fn page_reader_loop_text(num_inputs: u32, first: u32) -> (source: String)
    ensures
        source@ == page_reader_loop(num_inputs as nat, first as nat),
{
    let mut source = TILE_LOOP.to_owned();
    source.append(text::numbered_text(RESERVE, first, num_inputs).as_str());
    source.append("\n");
    source.append(text::numbered_text(READ_PAGE, first, num_inputs).as_str());
    source.append(READ_BARRIER);
    source.append(text::numbered_text(PUSH, first, num_inputs).as_str());
    source.append("    }\n");
    source
}

/// Generate the C++ source of the reader that keeps the linear page layout of host
/// buffers, so that the scalar writer sees plain contiguous arrays.
pub fn generate_scalar_reader_source(num_inputs: u32, full_input_staging: bool) -> (source: String)
    requires
        num_inputs <= u32::MAX - 3,
    ensures
        source@ == page_reader(num_inputs as nat, full_input_staging),
{
    if num_inputs == 0 {
        let mut source = dataflow::PROLOGUE.to_owned();
        source.append(dataflow::IDLE);
        return source;
    }
    let mut source = page_reader_head_text(num_inputs, full_input_staging);
    source.append(text::given_text(full_input_staging, STAGE_FIRST_INPUT).as_str());
    let first: u32 = if full_input_staging {
        1
    } else {
        0
    };
    let body = page_reader_loop_text(num_inputs, first);
    source.append(text::given_text(num_inputs > 1 || !full_input_staging, body.as_str()).as_str());
    source.append("}\n");
    source
}

} // verus!

//! How the kernels of a program fit together: which buffer, argument and page each of them
//! names where it moves data.
use crate::compile;
use crate::dataflow;
use crate::dialect;
use crate::ir::ComputeKernel;
use crate::reader;
use crate::scalar_writer;
use crate::text;
use crate::warp;
use crate::writer;
use vstd::prelude::*;

verus! {

/// The address of an input is the argument of its number.
pub open spec fn source_address(d: Seq<char>) -> Seq<char> {
    "    uint32_t src"@ + d + ("_addr = get_arg_val<uint32_t>("@ + d + ");\n"@)
}

/// The address of an output is the argument of its number.
pub open spec fn target_address(d: Seq<char>) -> Seq<char> {
    "    uint32_t dst"@ + d + ("_addr = get_arg_val<uint32_t>("@ + d + ");\n"@)
}

/// An input has the circular buffer of its number.
pub open spec fn input_buffer(d: Seq<char>) -> Seq<char> {
    "    constexpr uint32_t cb_in"@ + d + (" = "@ + d + ";\n"@)
}

/// An output has the given circular buffer.
pub open spec fn output_buffer(d: Seq<char>, buffer: Seq<char>) -> Seq<char> {
    "    constexpr uint32_t cb_out"@ + d + (" = "@ + buffer + ";\n"@)
}

/// The number of tiles is the given argument.
pub open spec fn tile_count(place: Seq<char>) -> Seq<char> {
    "    uint32_t num_tiles = get_arg_val<uint32_t>("@ + place + ");\n"@
}

/// The first tile is the given argument.
pub open spec fn first_tile(place: Seq<char>) -> Seq<char> {
    "    uint32_t start_tile = get_arg_val<uint32_t>("@ + place + ");\n"@
}

/// A place for a page of an input.
pub open spec fn place_reserved(d: Seq<char>) -> Seq<char> {
    "        cb_reserve_back(cb_in"@ + d + ", 1);\n"@
}

/// A tile of an input is read into the place of that input.
pub open spec fn tile_read(d: Seq<char>) -> Seq<char> {
    "        uint32_t l1_addr_in"@ + d + (" = get_write_ptr(cb_in"@ + d + (");\n        noc_async_read_tile(tile_idx, a"@ + d + (", l1_addr_in"@ + d + ");\n"@)))
}

/// A page of an input is read into the place of that input.
pub open spec fn page_read(d: Seq<char>) -> Seq<char> {
    "        uint32_t l1_addr_in"@ + d + (" = get_write_ptr(cb_in"@ + d + (");\n        uint32_t page_bytes_in"@ + d + (" = get_tile_size(cb_in"@ + d + (");\n        uint64_t src_noc_addr_in"@ + d + (" = a"@ + d + (".get_noc_addr(tile_idx);\n        noc_async_read(src_noc_addr_in"@ + d + (", l1_addr_in"@ + d + (", page_bytes_in"@ + d + ");\n"@))))))))
}

/// A page of an input is handed over.
pub open spec fn input_handed_over(d: Seq<char>) -> Seq<char> {
    "        cb_push_back(cb_in"@ + d + ", 1);\n"@
}

/// The number of tiles is the given argument.
pub open spec fn written_tiles(place: Seq<char>) -> Seq<char> {
    "    uint32_t num_tiles = get_arg_val<uint32_t>("@ + place + ");\n\n"@
}

/// A tile of an output is written from the place of that output.
pub open spec fn tile_written(d: Seq<char>) -> Seq<char> {
    "        cb_wait_front(cb_out"@ + d + (", 1);\n        uint32_t l1_addr_out"@ + d + (" = get_read_ptr(cb_out"@ + d + (");\n        noc_async_write_tile(i, c"@ + d + (", l1_addr_out"@ + d + ");\n"@))))
}

/// The place of an output is freed.
pub open spec fn output_freed(d: Seq<char>) -> Seq<char> {
    "        cb_pop_front(cb_out"@ + d + ", 1);\n"@
}

/// A page of an input has arrived.
pub open spec fn input_awaited(d: Seq<char>) -> Seq<char> {
    "        cb_wait_front(cb_in"@ + d + ", 1);\n"@
}

/// A place for a page of an output.
pub open spec fn output_reserved(d: Seq<char>) -> Seq<char> {
    "        cb_reserve_back(cb_out"@ + d + ", 1);\n"@
}

/// The place of an output holds the page that is in DRAM.
pub open spec fn output_prefilled(d: Seq<char>) -> Seq<char> {
    "        uint32_t l1_addr_out"@ + d + ("_prefill = get_write_ptr(cb_out"@ + d + (");\n        uint32_t page_bytes_out"@ + d + ("_prefill = get_tile_size(cb_out"@ + d + (");\n        uint64_t dst_noc_addr_out"@ + d + ("_prefill = c"@ + d + (".get_noc_addr(global_tile_idx);\n        noc_async_read(dst_noc_addr_out"@ + d + ("_prefill, l1_addr_out"@ + d + ("_prefill, page_bytes_out"@ + d + "_prefill);\n"@))))))))
}

/// A page of an output is written back to where it came from.
pub open spec fn page_written(d: Seq<char>) -> Seq<char> {
    "        cb_push_back(cb_out"@ + d + (", 1);\n        cb_wait_front(cb_out"@ + d + (", 1);\n        uint32_t l1_addr_out"@ + d + (" = get_read_ptr(cb_out"@ + d + (");\n        uint32_t page_bytes_out"@ + d + (" = get_tile_size(cb_out"@ + d + (");\n        uint64_t dst_noc_addr_out"@ + d + (" = c"@ + d + (".get_noc_addr(global_tile_idx);\n        noc_async_write(l1_addr_out"@ + d + (", dst_noc_addr_out"@ + d + (", page_bytes_out"@ + d + ");\n"@))))))))))
}

/// The place of an input is freed.
pub open spec fn input_freed(d: Seq<char>) -> Seq<char> {
    "        cb_pop_front(cb_in"@ + d + ", 1);\n"@
}

/// A buffer that is written stands in the place of the output of the given rank; units count from the first of all.
pub open spec fn output_pointer(name: Seq<char>, id: Seq<char>, rank: Seq<char>) -> Seq<char> {
    "        "@ + name + ("* buffer_"@ + id + (" = reinterpret_cast<"@ + name + ("*>(get_write_ptr(cb_out"@ + rank + ")) - global_tile_idx * tile_units;\n"@)))
}

/// A buffer that is read stands in the place of the input of the given rank; units count from the first of all.
pub open spec fn input_pointer(name: Seq<char>, id: Seq<char>, rank: Seq<char>) -> Seq<char> {
    "        const "@ + name + ("* buffer_"@ + id + (" = reinterpret_cast<const "@ + name + ("*>(get_read_ptr(cb_in"@ + rank + ")) - global_tile_idx * tile_units;\n"@)))
}

/// The units of a tile of a buffer are copied.
pub open spec fn snapshot_taken(name: Seq<char>, snapshot: Seq<char>, buffer: Seq<char>) -> Seq<char> {
    "        "@ + name + (" "@ + snapshot + ("[tile_units];\n        for (uint32_t tt_snapshot_i = 0; tt_snapshot_i < tile_unit_count; ++tt_snapshot_i) {\n            "@ + snapshot + ("[tt_snapshot_i] = "@ + buffer + "[tt_snapshot_i];\n        }\n"@)))
}

/// A group of scalars is copied from its offset in the info block.
pub open spec fn scalars_copied(name: Seq<char>, offset: Seq<char>) -> Seq<char> {
    "    __builtin_memcpy(info.scalars_"@ + name + (", runtime_info_bytes + "@ + offset + (", sizeof(info.scalars_"@ + name + "));\n"@))
}

/// The metadata are copied from their offset in the info block.
pub open spec fn metadata_copied(offset: Seq<char>) -> Seq<char> {
    "    __builtin_memcpy(info.static_meta, runtime_info_bytes + "@ + offset + ", sizeof(info.static_meta));\n"@
}

/// The info block starts at the given argument.
pub open spec fn info_found(place: Seq<char>) -> Seq<char> {
    "    info_st info = {};\n    constexpr uint32_t info_arg_offset_words = "@ + place + ";\n    const uint8_t* runtime_info_bytes = reinterpret_cast<const uint8_t*>(get_arg_addr(info_arg_offset_words));\n"@
}

/// The dynamic metadata start at the given argument.
pub open spec fn metadata_found(place: Seq<char>, name: Seq<char>) -> Seq<char> {
    "    constexpr uint32_t dynamic_meta_arg_offset_words = "@ + place + (";\n    const tt_l1_ptr "@ + name + ("* dynamic_meta = reinterpret_cast<tt_l1_ptr const "@ + name + "*>(get_arg_addr(dynamic_meta_arg_offset_words));\n"@))
}

#[verifier::spinoff_prover]
#[verifier::rlimit(60)]
proof fn lemma_source_address(d: Seq<char>)
    ensures
        text::fill(reader::SOURCE_ADDRESS@, seq![d]) == source_address(d),
{
    reveal_strlit("    uint32_t src");
    reveal_strlit("    uint32_t src$0_addr = get_arg_val<uint32_t>($0);\n");
    reveal_strlit(");\n");
    reveal_strlit("_addr = get_arg_val<uint32_t>(");
    let segments = seq!["    uint32_t src"@, "_addr = get_arg_val<uint32_t>("@, ");\n"@];
    let indices = seq![0nat, 0nat];
    let args = seq![d];
    reveal_with_fuel(text::skeleton, 3);
    reveal_with_fuel(text::fleshed, 3);
    assert(reader::SOURCE_ADDRESS@ =~= text::skeleton(segments, indices, 0));
    text::law_segments_are_kept(segments, indices, args, 0);
    assert(text::fill(reader::SOURCE_ADDRESS@, args) =~= "    uint32_t src"@ + d + ("_addr = get_arg_val<uint32_t>("@ + d + ");\n"@));
}

#[verifier::spinoff_prover]
#[verifier::rlimit(60)]
proof fn lemma_target_address(d: Seq<char>)
    ensures
        text::fill(writer::TARGET_ADDRESS@, seq![d]) == target_address(d),
{
    reveal_strlit("    uint32_t dst");
    reveal_strlit("    uint32_t dst$0_addr = get_arg_val<uint32_t>($0);\n");
    reveal_strlit(");\n");
    reveal_strlit("_addr = get_arg_val<uint32_t>(");
    let segments = seq!["    uint32_t dst"@, "_addr = get_arg_val<uint32_t>("@, ");\n"@];
    let indices = seq![0nat, 0nat];
    let args = seq![d];
    reveal_with_fuel(text::skeleton, 3);
    reveal_with_fuel(text::fleshed, 3);
    assert(writer::TARGET_ADDRESS@ =~= text::skeleton(segments, indices, 0));
    text::law_segments_are_kept(segments, indices, args, 0);
    assert(text::fill(writer::TARGET_ADDRESS@, args) =~= "    uint32_t dst"@ + d + ("_addr = get_arg_val<uint32_t>("@ + d + ");\n"@));
}

#[verifier::spinoff_prover]
#[verifier::rlimit(60)]
proof fn lemma_input_buffer(d: Seq<char>)
    ensures
        text::fill(dataflow::INPUT_BUFFER@, seq![d]) == input_buffer(d),
{
    reveal_strlit("    constexpr uint32_t cb_in");
    reveal_strlit("    constexpr uint32_t cb_in$0 = $0;\n");
    reveal_strlit(" = ");
    reveal_strlit(";\n");
    let segments = seq!["    constexpr uint32_t cb_in"@, " = "@, ";\n"@];
    let indices = seq![0nat, 0nat];
    let args = seq![d];
    reveal_with_fuel(text::skeleton, 3);
    reveal_with_fuel(text::fleshed, 3);
    assert(dataflow::INPUT_BUFFER@ =~= text::skeleton(segments, indices, 0));
    text::law_segments_are_kept(segments, indices, args, 0);
    assert(text::fill(dataflow::INPUT_BUFFER@, args) =~= "    constexpr uint32_t cb_in"@ + d + (" = "@ + d + ";\n"@));
}

#[verifier::spinoff_prover]
#[verifier::rlimit(60)]
proof fn lemma_output_buffer(d: Seq<char>, buffer: Seq<char>)
    ensures
        text::fill(dataflow::OUTPUT_BUFFER@, seq![d, buffer]) == output_buffer(d, buffer),
{
    reveal_strlit("    constexpr uint32_t cb_out");
    reveal_strlit("    constexpr uint32_t cb_out$0 = $1;\n");
    reveal_strlit(" = ");
    reveal_strlit(";\n");
    let segments = seq!["    constexpr uint32_t cb_out"@, " = "@, ";\n"@];
    let indices = seq![0nat, 1nat];
    let args = seq![d, buffer];
    reveal_with_fuel(text::skeleton, 3);
    reveal_with_fuel(text::fleshed, 3);
    assert(dataflow::OUTPUT_BUFFER@ =~= text::skeleton(segments, indices, 0));
    text::law_segments_are_kept(segments, indices, args, 0);
    assert(text::fill(dataflow::OUTPUT_BUFFER@, args) =~= "    constexpr uint32_t cb_out"@ + d + (" = "@ + buffer + ";\n"@));
}

#[verifier::spinoff_prover]
#[verifier::rlimit(60)]
proof fn lemma_tile_count(place: Seq<char>)
    ensures
        text::fill(reader::NUM_TILES@, seq![place]) == tile_count(place),
{
    reveal_strlit("    uint32_t num_tiles = get_arg_val<uint32_t>(");
    reveal_strlit("    uint32_t num_tiles = get_arg_val<uint32_t>($0);\n");
    reveal_strlit(");\n");
    let segments = seq!["    uint32_t num_tiles = get_arg_val<uint32_t>("@, ");\n"@];
    let indices = seq![0nat];
    let args = seq![place];
    reveal_with_fuel(text::skeleton, 2);
    reveal_with_fuel(text::fleshed, 2);
    assert(reader::NUM_TILES@ =~= text::skeleton(segments, indices, 0));
    text::law_segments_are_kept(segments, indices, args, 0);
    assert(text::fill(reader::NUM_TILES@, args) =~= "    uint32_t num_tiles = get_arg_val<uint32_t>("@ + place + ");\n"@);
}

#[verifier::spinoff_prover]
#[verifier::rlimit(60)]
proof fn lemma_first_tile(place: Seq<char>)
    ensures
        text::fill(reader::START_TILE@, seq![place]) == first_tile(place),
{
    reveal_strlit("    uint32_t start_tile = get_arg_val<uint32_t>(");
    reveal_strlit("    uint32_t start_tile = get_arg_val<uint32_t>($0);\n");
    reveal_strlit(");\n");
    let segments = seq!["    uint32_t start_tile = get_arg_val<uint32_t>("@, ");\n"@];
    let indices = seq![0nat];
    let args = seq![place];
    reveal_with_fuel(text::skeleton, 2);
    reveal_with_fuel(text::fleshed, 2);
    assert(reader::START_TILE@ =~= text::skeleton(segments, indices, 0));
    text::law_segments_are_kept(segments, indices, args, 0);
    assert(text::fill(reader::START_TILE@, args) =~= "    uint32_t start_tile = get_arg_val<uint32_t>("@ + place + ");\n"@);
}

#[verifier::spinoff_prover]
#[verifier::rlimit(60)]
proof fn lemma_place_reserved(d: Seq<char>)
    ensures
        text::fill(reader::RESERVE@, seq![d]) == place_reserved(d),
{
    reveal_strlit("        cb_reserve_back(cb_in");
    reveal_strlit("        cb_reserve_back(cb_in$0, 1);\n");
    reveal_strlit(", 1);\n");
    let segments = seq!["        cb_reserve_back(cb_in"@, ", 1);\n"@];
    let indices = seq![0nat];
    let args = seq![d];
    reveal_with_fuel(text::skeleton, 2);
    reveal_with_fuel(text::fleshed, 2);
    assert(reader::RESERVE@ =~= text::skeleton(segments, indices, 0));
    text::law_segments_are_kept(segments, indices, args, 0);
    assert(text::fill(reader::RESERVE@, args) =~= "        cb_reserve_back(cb_in"@ + d + ", 1);\n"@);
}

#[verifier::spinoff_prover]
#[verifier::rlimit(60)]
proof fn lemma_tile_read(d: Seq<char>)
    ensures
        text::fill(reader::READ_TILE@, seq![d]) == tile_read(d),
{
    reveal_strlit("        uint32_t l1_addr_in");
    reveal_strlit("        uint32_t l1_addr_in$0 = get_write_ptr(cb_in$0);\n        noc_async_read_tile(tile_idx, a$0, l1_addr_in$0);\n");
    reveal_strlit(" = get_write_ptr(cb_in");
    reveal_strlit(");\n");
    reveal_strlit(");\n        noc_async_read_tile(tile_idx, a");
    reveal_strlit(", l1_addr_in");
    let segments = seq!["        uint32_t l1_addr_in"@, " = get_write_ptr(cb_in"@, ");\n        noc_async_read_tile(tile_idx, a"@, ", l1_addr_in"@, ");\n"@];
    let indices = seq![0nat, 0nat, 0nat, 0nat];
    let args = seq![d];
    reveal_with_fuel(text::skeleton, 5);
    reveal_with_fuel(text::fleshed, 5);
    assert(reader::READ_TILE@ =~= text::skeleton(segments, indices, 0));
    text::law_segments_are_kept(segments, indices, args, 0);
    assert(text::fill(reader::READ_TILE@, args) =~= "        uint32_t l1_addr_in"@ + d + (" = get_write_ptr(cb_in"@ + d + (");\n        noc_async_read_tile(tile_idx, a"@ + d + (", l1_addr_in"@ + d + ");\n"@))));
}

#[verifier::spinoff_prover]
#[verifier::rlimit(60)]
proof fn lemma_page_read(d: Seq<char>)
    ensures
        text::fill(reader::READ_PAGE@, seq![d]) == page_read(d),
{
    reveal_strlit("        uint32_t l1_addr_in");
    reveal_strlit("        uint32_t l1_addr_in$0 = get_write_ptr(cb_in$0);\n        uint32_t page_bytes_in$0 = get_tile_size(cb_in$0);\n        uint64_t src_noc_addr_in$0 = a$0.get_noc_addr(tile_idx);\n        noc_async_read(src_noc_addr_in$0, l1_addr_in$0, page_bytes_in$0);\n");
    reveal_strlit(" = a");
    reveal_strlit(" = get_tile_size(cb_in");
    reveal_strlit(" = get_write_ptr(cb_in");
    reveal_strlit(");\n");
    reveal_strlit(");\n        uint32_t page_bytes_in");
    reveal_strlit(");\n        uint64_t src_noc_addr_in");
    reveal_strlit(", l1_addr_in");
    reveal_strlit(", page_bytes_in");
    reveal_strlit(".get_noc_addr(tile_idx);\n        noc_async_read(src_noc_addr_in");
    let segments = seq!["        uint32_t l1_addr_in"@, " = get_write_ptr(cb_in"@, ");\n        uint32_t page_bytes_in"@, " = get_tile_size(cb_in"@, ");\n        uint64_t src_noc_addr_in"@, " = a"@, ".get_noc_addr(tile_idx);\n        noc_async_read(src_noc_addr_in"@, ", l1_addr_in"@, ", page_bytes_in"@, ");\n"@];
    let indices = seq![0nat, 0nat, 0nat, 0nat, 0nat, 0nat, 0nat, 0nat, 0nat];
    let args = seq![d];
    reveal_with_fuel(text::skeleton, 10);
    reveal_with_fuel(text::fleshed, 10);
    assert(reader::READ_PAGE@ =~= text::skeleton(segments, indices, 0));
    text::law_segments_are_kept(segments, indices, args, 0);
    assert(text::fill(reader::READ_PAGE@, args) =~= "        uint32_t l1_addr_in"@ + d + (" = get_write_ptr(cb_in"@ + d + (");\n        uint32_t page_bytes_in"@ + d + (" = get_tile_size(cb_in"@ + d + (");\n        uint64_t src_noc_addr_in"@ + d + (" = a"@ + d + (".get_noc_addr(tile_idx);\n        noc_async_read(src_noc_addr_in"@ + d + (", l1_addr_in"@ + d + (", page_bytes_in"@ + d + ");\n"@)))))))));
}

#[verifier::spinoff_prover]
#[verifier::rlimit(60)]
proof fn lemma_input_handed_over(d: Seq<char>)
    ensures
        text::fill(reader::PUSH@, seq![d]) == input_handed_over(d),
{
    reveal_strlit("        cb_push_back(cb_in");
    reveal_strlit("        cb_push_back(cb_in$0, 1);\n");
    reveal_strlit(", 1);\n");
    let segments = seq!["        cb_push_back(cb_in"@, ", 1);\n"@];
    let indices = seq![0nat];
    let args = seq![d];
    reveal_with_fuel(text::skeleton, 2);
    reveal_with_fuel(text::fleshed, 2);
    assert(reader::PUSH@ =~= text::skeleton(segments, indices, 0));
    text::law_segments_are_kept(segments, indices, args, 0);
    assert(text::fill(reader::PUSH@, args) =~= "        cb_push_back(cb_in"@ + d + ", 1);\n"@);
}

#[verifier::spinoff_prover]
#[verifier::rlimit(60)]
proof fn lemma_written_tiles(place: Seq<char>)
    ensures
        text::fill(writer::NUM_TILES@, seq![place]) == written_tiles(place),
{
    reveal_strlit("    uint32_t num_tiles = get_arg_val<uint32_t>(");
    reveal_strlit("    uint32_t num_tiles = get_arg_val<uint32_t>($0);\n\n");
    reveal_strlit(");\n\n");
    let segments = seq!["    uint32_t num_tiles = get_arg_val<uint32_t>("@, ");\n\n"@];
    let indices = seq![0nat];
    let args = seq![place];
    reveal_with_fuel(text::skeleton, 2);
    reveal_with_fuel(text::fleshed, 2);
    assert(writer::NUM_TILES@ =~= text::skeleton(segments, indices, 0));
    text::law_segments_are_kept(segments, indices, args, 0);
    assert(text::fill(writer::NUM_TILES@, args) =~= "    uint32_t num_tiles = get_arg_val<uint32_t>("@ + place + ");\n\n"@);
}

#[verifier::spinoff_prover]
#[verifier::rlimit(60)]
proof fn lemma_tile_written(d: Seq<char>)
    ensures
        text::fill(writer::WRITE_TILE@, seq![d]) == tile_written(d),
{
    reveal_strlit("        cb_wait_front(cb_out");
    reveal_strlit("        cb_wait_front(cb_out$0, 1);\n        uint32_t l1_addr_out$0 = get_read_ptr(cb_out$0);\n        noc_async_write_tile(i, c$0, l1_addr_out$0);\n");
    reveal_strlit(" = get_read_ptr(cb_out");
    reveal_strlit(");\n");
    reveal_strlit(");\n        noc_async_write_tile(i, c");
    reveal_strlit(", 1);\n        uint32_t l1_addr_out");
    reveal_strlit(", l1_addr_out");
    let segments = seq!["        cb_wait_front(cb_out"@, ", 1);\n        uint32_t l1_addr_out"@, " = get_read_ptr(cb_out"@, ");\n        noc_async_write_tile(i, c"@, ", l1_addr_out"@, ");\n"@];
    let indices = seq![0nat, 0nat, 0nat, 0nat, 0nat];
    let args = seq![d];
    reveal_with_fuel(text::skeleton, 6);
    reveal_with_fuel(text::fleshed, 6);
    assert(writer::WRITE_TILE@ =~= text::skeleton(segments, indices, 0));
    text::law_segments_are_kept(segments, indices, args, 0);
    assert(text::fill(writer::WRITE_TILE@, args) =~= "        cb_wait_front(cb_out"@ + d + (", 1);\n        uint32_t l1_addr_out"@ + d + (" = get_read_ptr(cb_out"@ + d + (");\n        noc_async_write_tile(i, c"@ + d + (", l1_addr_out"@ + d + ");\n"@)))));
}

#[verifier::spinoff_prover]
#[verifier::rlimit(60)]
proof fn lemma_output_freed(d: Seq<char>)
    ensures
        text::fill(writer::POP@, seq![d]) == output_freed(d),
{
    reveal_strlit("        cb_pop_front(cb_out");
    reveal_strlit("        cb_pop_front(cb_out$0, 1);\n");
    reveal_strlit(", 1);\n");
    let segments = seq!["        cb_pop_front(cb_out"@, ", 1);\n"@];
    let indices = seq![0nat];
    let args = seq![d];
    reveal_with_fuel(text::skeleton, 2);
    reveal_with_fuel(text::fleshed, 2);
    assert(writer::POP@ =~= text::skeleton(segments, indices, 0));
    text::law_segments_are_kept(segments, indices, args, 0);
    assert(text::fill(writer::POP@, args) =~= "        cb_pop_front(cb_out"@ + d + ", 1);\n"@);
}

#[verifier::spinoff_prover]
#[verifier::rlimit(60)]
proof fn lemma_input_awaited(d: Seq<char>)
    ensures
        text::fill(scalar_writer::WAIT_INPUT@, seq![d]) == input_awaited(d),
{
    reveal_strlit("        cb_wait_front(cb_in");
    reveal_strlit("        cb_wait_front(cb_in$0, 1);\n");
    reveal_strlit(", 1);\n");
    let segments = seq!["        cb_wait_front(cb_in"@, ", 1);\n"@];
    let indices = seq![0nat];
    let args = seq![d];
    reveal_with_fuel(text::skeleton, 2);
    reveal_with_fuel(text::fleshed, 2);
    assert(scalar_writer::WAIT_INPUT@ =~= text::skeleton(segments, indices, 0));
    text::law_segments_are_kept(segments, indices, args, 0);
    assert(text::fill(scalar_writer::WAIT_INPUT@, args) =~= "        cb_wait_front(cb_in"@ + d + ", 1);\n"@);
}

#[verifier::spinoff_prover]
#[verifier::rlimit(60)]
proof fn lemma_output_reserved(d: Seq<char>)
    ensures
        text::fill(scalar_writer::RESERVE_OUTPUT@, seq![d]) == output_reserved(d),
{
    reveal_strlit("        cb_reserve_back(cb_out");
    reveal_strlit("        cb_reserve_back(cb_out$0, 1);\n");
    reveal_strlit(", 1);\n");
    let segments = seq!["        cb_reserve_back(cb_out"@, ", 1);\n"@];
    let indices = seq![0nat];
    let args = seq![d];
    reveal_with_fuel(text::skeleton, 2);
    reveal_with_fuel(text::fleshed, 2);
    assert(scalar_writer::RESERVE_OUTPUT@ =~= text::skeleton(segments, indices, 0));
    text::law_segments_are_kept(segments, indices, args, 0);
    assert(text::fill(scalar_writer::RESERVE_OUTPUT@, args) =~= "        cb_reserve_back(cb_out"@ + d + ", 1);\n"@);
}

#[verifier::spinoff_prover]
#[verifier::rlimit(60)]
proof fn lemma_output_prefilled(d: Seq<char>)
    ensures
        text::fill(scalar_writer::PREFILL@, seq![d]) == output_prefilled(d),
{
    reveal_strlit("        uint32_t l1_addr_out");
    reveal_strlit("        uint32_t l1_addr_out$0_prefill = get_write_ptr(cb_out$0);\n        uint32_t page_bytes_out$0_prefill = get_tile_size(cb_out$0);\n        uint64_t dst_noc_addr_out$0_prefill = c$0.get_noc_addr(global_tile_idx);\n        noc_async_read(dst_noc_addr_out$0_prefill, l1_addr_out$0_prefill, page_bytes_out$0_prefill);\n");
    reveal_strlit(");\n        uint32_t page_bytes_out");
    reveal_strlit(");\n        uint64_t dst_noc_addr_out");
    reveal_strlit(".get_noc_addr(global_tile_idx);\n        noc_async_read(dst_noc_addr_out");
    reveal_strlit("_prefill = c");
    reveal_strlit("_prefill = get_tile_size(cb_out");
    reveal_strlit("_prefill = get_write_ptr(cb_out");
    reveal_strlit("_prefill);\n");
    reveal_strlit("_prefill, l1_addr_out");
    reveal_strlit("_prefill, page_bytes_out");
    let segments = seq!["        uint32_t l1_addr_out"@, "_prefill = get_write_ptr(cb_out"@, ");\n        uint32_t page_bytes_out"@, "_prefill = get_tile_size(cb_out"@, ");\n        uint64_t dst_noc_addr_out"@, "_prefill = c"@, ".get_noc_addr(global_tile_idx);\n        noc_async_read(dst_noc_addr_out"@, "_prefill, l1_addr_out"@, "_prefill, page_bytes_out"@, "_prefill);\n"@];
    let indices = seq![0nat, 0nat, 0nat, 0nat, 0nat, 0nat, 0nat, 0nat, 0nat];
    let args = seq![d];
    reveal_with_fuel(text::skeleton, 10);
    reveal_with_fuel(text::fleshed, 10);
    assert(scalar_writer::PREFILL@ =~= text::skeleton(segments, indices, 0));
    text::law_segments_are_kept(segments, indices, args, 0);
    assert(text::fill(scalar_writer::PREFILL@, args) =~= "        uint32_t l1_addr_out"@ + d + ("_prefill = get_write_ptr(cb_out"@ + d + (");\n        uint32_t page_bytes_out"@ + d + ("_prefill = get_tile_size(cb_out"@ + d + (");\n        uint64_t dst_noc_addr_out"@ + d + ("_prefill = c"@ + d + (".get_noc_addr(global_tile_idx);\n        noc_async_read(dst_noc_addr_out"@ + d + ("_prefill, l1_addr_out"@ + d + ("_prefill, page_bytes_out"@ + d + "_prefill);\n"@)))))))));
}

#[verifier::spinoff_prover]
#[verifier::rlimit(60)]
proof fn lemma_page_written(d: Seq<char>)
    ensures
        text::fill(scalar_writer::WRITE_PAGE@, seq![d]) == page_written(d),
{
    reveal_strlit("        cb_push_back(cb_out");
    reveal_strlit("        cb_push_back(cb_out$0, 1);\n        cb_wait_front(cb_out$0, 1);\n        uint32_t l1_addr_out$0 = get_read_ptr(cb_out$0);\n        uint32_t page_bytes_out$0 = get_tile_size(cb_out$0);\n        uint64_t dst_noc_addr_out$0 = c$0.get_noc_addr(global_tile_idx);\n        noc_async_write(l1_addr_out$0, dst_noc_addr_out$0, page_bytes_out$0);\n");
    reveal_strlit(" = c");
    reveal_strlit(" = get_read_ptr(cb_out");
    reveal_strlit(" = get_tile_size(cb_out");
    reveal_strlit(");\n");
    reveal_strlit(");\n        uint32_t page_bytes_out");
    reveal_strlit(");\n        uint64_t dst_noc_addr_out");
    reveal_strlit(", 1);\n        cb_wait_front(cb_out");
    reveal_strlit(", 1);\n        uint32_t l1_addr_out");
    reveal_strlit(", dst_noc_addr_out");
    reveal_strlit(", page_bytes_out");
    reveal_strlit(".get_noc_addr(global_tile_idx);\n        noc_async_write(l1_addr_out");
    let segments = seq!["        cb_push_back(cb_out"@, ", 1);\n        cb_wait_front(cb_out"@, ", 1);\n        uint32_t l1_addr_out"@, " = get_read_ptr(cb_out"@, ");\n        uint32_t page_bytes_out"@, " = get_tile_size(cb_out"@, ");\n        uint64_t dst_noc_addr_out"@, " = c"@, ".get_noc_addr(global_tile_idx);\n        noc_async_write(l1_addr_out"@, ", dst_noc_addr_out"@, ", page_bytes_out"@, ");\n"@];
    let indices = seq![0nat, 0nat, 0nat, 0nat, 0nat, 0nat, 0nat, 0nat, 0nat, 0nat, 0nat];
    let args = seq![d];
    reveal_with_fuel(text::skeleton, 12);
    reveal_with_fuel(text::fleshed, 12);
    assert(scalar_writer::WRITE_PAGE@ =~= text::skeleton(segments, indices, 0));
    text::law_segments_are_kept(segments, indices, args, 0);
    assert(text::fill(scalar_writer::WRITE_PAGE@, args) =~= "        cb_push_back(cb_out"@ + d + (", 1);\n        cb_wait_front(cb_out"@ + d + (", 1);\n        uint32_t l1_addr_out"@ + d + (" = get_read_ptr(cb_out"@ + d + (");\n        uint32_t page_bytes_out"@ + d + (" = get_tile_size(cb_out"@ + d + (");\n        uint64_t dst_noc_addr_out"@ + d + (" = c"@ + d + (".get_noc_addr(global_tile_idx);\n        noc_async_write(l1_addr_out"@ + d + (", dst_noc_addr_out"@ + d + (", page_bytes_out"@ + d + ");\n"@)))))))))));
}

#[verifier::spinoff_prover]
#[verifier::rlimit(60)]
proof fn lemma_input_freed(d: Seq<char>)
    ensures
        text::fill(scalar_writer::POP_INPUT@, seq![d]) == input_freed(d),
{
    reveal_strlit("        cb_pop_front(cb_in");
    reveal_strlit("        cb_pop_front(cb_in$0, 1);\n");
    reveal_strlit(", 1);\n");
    let segments = seq!["        cb_pop_front(cb_in"@, ", 1);\n"@];
    let indices = seq![0nat];
    let args = seq![d];
    reveal_with_fuel(text::skeleton, 2);
    reveal_with_fuel(text::fleshed, 2);
    assert(scalar_writer::POP_INPUT@ =~= text::skeleton(segments, indices, 0));
    text::law_segments_are_kept(segments, indices, args, 0);
    assert(text::fill(scalar_writer::POP_INPUT@, args) =~= "        cb_pop_front(cb_in"@ + d + ", 1);\n"@);
}

#[verifier::spinoff_prover]
#[verifier::rlimit(60)]
proof fn lemma_output_pointer(name: Seq<char>, id: Seq<char>, rank: Seq<char>)
    ensures
        text::fill(scalar_writer::OUTPUT_POINTER@, seq![name, id, rank]) == output_pointer(name, id, rank),
{
    reveal_strlit("        ");
    reveal_strlit("        $0* buffer_$1 = reinterpret_cast<$0*>(get_write_ptr(cb_out$2)) - global_tile_idx * tile_units;\n");
    reveal_strlit(" = reinterpret_cast<");
    reveal_strlit(")) - global_tile_idx * tile_units;\n");
    reveal_strlit("* buffer_");
    reveal_strlit("*>(get_write_ptr(cb_out");
    let segments = seq!["        "@, "* buffer_"@, " = reinterpret_cast<"@, "*>(get_write_ptr(cb_out"@, ")) - global_tile_idx * tile_units;\n"@];
    let indices = seq![0nat, 1nat, 0nat, 2nat];
    let args = seq![name, id, rank];
    reveal_with_fuel(text::skeleton, 5);
    reveal_with_fuel(text::fleshed, 5);
    assert(scalar_writer::OUTPUT_POINTER@ =~= text::skeleton(segments, indices, 0));
    text::law_segments_are_kept(segments, indices, args, 0);
    assert(text::fill(scalar_writer::OUTPUT_POINTER@, args) =~= "        "@ + name + ("* buffer_"@ + id + (" = reinterpret_cast<"@ + name + ("*>(get_write_ptr(cb_out"@ + rank + ")) - global_tile_idx * tile_units;\n"@))));
}

#[verifier::spinoff_prover]
#[verifier::rlimit(60)]
proof fn lemma_input_pointer(name: Seq<char>, id: Seq<char>, rank: Seq<char>)
    ensures
        text::fill(scalar_writer::INPUT_POINTER@, seq![name, id, rank]) == input_pointer(name, id, rank),
{
    reveal_strlit("        const ");
    reveal_strlit("        const $0* buffer_$1 = reinterpret_cast<const $0*>(get_read_ptr(cb_in$2)) - global_tile_idx * tile_units;\n");
    reveal_strlit(" = reinterpret_cast<const ");
    reveal_strlit(")) - global_tile_idx * tile_units;\n");
    reveal_strlit("* buffer_");
    reveal_strlit("*>(get_read_ptr(cb_in");
    let segments = seq!["        const "@, "* buffer_"@, " = reinterpret_cast<const "@, "*>(get_read_ptr(cb_in"@, ")) - global_tile_idx * tile_units;\n"@];
    let indices = seq![0nat, 1nat, 0nat, 2nat];
    let args = seq![name, id, rank];
    reveal_with_fuel(text::skeleton, 5);
    reveal_with_fuel(text::fleshed, 5);
    assert(scalar_writer::INPUT_POINTER@ =~= text::skeleton(segments, indices, 0));
    text::law_segments_are_kept(segments, indices, args, 0);
    assert(text::fill(scalar_writer::INPUT_POINTER@, args) =~= "        const "@ + name + ("* buffer_"@ + id + (" = reinterpret_cast<const "@ + name + ("*>(get_read_ptr(cb_in"@ + rank + ")) - global_tile_idx * tile_units;\n"@))));
}

#[verifier::spinoff_prover]
#[verifier::rlimit(60)]
proof fn lemma_snapshot_taken(name: Seq<char>, snapshot: Seq<char>, buffer: Seq<char>)
    ensures
        text::fill(scalar_writer::SNAPSHOT@, seq![name, snapshot, buffer]) == snapshot_taken(name, snapshot, buffer),
{
    reveal_strlit(" ");
    reveal_strlit("        ");
    reveal_strlit("        $0 $1[tile_units];\n        for (uint32_t tt_snapshot_i = 0; tt_snapshot_i < tile_unit_count; ++tt_snapshot_i) {\n            $1[tt_snapshot_i] = $2[tt_snapshot_i];\n        }\n");
    reveal_strlit("[tile_units];\n        for (uint32_t tt_snapshot_i = 0; tt_snapshot_i < tile_unit_count; ++tt_snapshot_i) {\n            ");
    reveal_strlit("[tt_snapshot_i] = ");
    reveal_strlit("[tt_snapshot_i];\n        }\n");
    let segments = seq!["        "@, " "@, "[tile_units];\n        for (uint32_t tt_snapshot_i = 0; tt_snapshot_i < tile_unit_count; ++tt_snapshot_i) {\n            "@, "[tt_snapshot_i] = "@, "[tt_snapshot_i];\n        }\n"@];
    let indices = seq![0nat, 1nat, 1nat, 2nat];
    let args = seq![name, snapshot, buffer];
    reveal_with_fuel(text::skeleton, 5);
    reveal_with_fuel(text::fleshed, 5);
    assert(scalar_writer::SNAPSHOT@ =~= text::skeleton(segments, indices, 0));
    text::law_segments_are_kept(segments, indices, args, 0);
    assert(text::fill(scalar_writer::SNAPSHOT@, args) =~= "        "@ + name + (" "@ + snapshot + ("[tile_units];\n        for (uint32_t tt_snapshot_i = 0; tt_snapshot_i < tile_unit_count; ++tt_snapshot_i) {\n            "@ + snapshot + ("[tt_snapshot_i] = "@ + buffer + "[tt_snapshot_i];\n        }\n"@))));
}

#[verifier::spinoff_prover]
#[verifier::rlimit(60)]
proof fn lemma_scalars_copied(name: Seq<char>, offset: Seq<char>)
    ensures
        text::fill(scalar_writer::SCALAR_COPY@, seq![name, offset]) == scalars_copied(name, offset),
{
    reveal_strlit("    __builtin_memcpy(info.scalars_");
    reveal_strlit("    __builtin_memcpy(info.scalars_$0, runtime_info_bytes + $1, sizeof(info.scalars_$0));\n");
    reveal_strlit("));\n");
    reveal_strlit(", runtime_info_bytes + ");
    reveal_strlit(", sizeof(info.scalars_");
    let segments = seq!["    __builtin_memcpy(info.scalars_"@, ", runtime_info_bytes + "@, ", sizeof(info.scalars_"@, "));\n"@];
    let indices = seq![0nat, 1nat, 0nat];
    let args = seq![name, offset];
    reveal_with_fuel(text::skeleton, 4);
    reveal_with_fuel(text::fleshed, 4);
    assert(scalar_writer::SCALAR_COPY@ =~= text::skeleton(segments, indices, 0));
    text::law_segments_are_kept(segments, indices, args, 0);
    assert(text::fill(scalar_writer::SCALAR_COPY@, args) =~= "    __builtin_memcpy(info.scalars_"@ + name + (", runtime_info_bytes + "@ + offset + (", sizeof(info.scalars_"@ + name + "));\n"@)));
}

#[verifier::spinoff_prover]
#[verifier::rlimit(60)]
proof fn lemma_metadata_copied(offset: Seq<char>)
    ensures
        text::fill(scalar_writer::STATIC_META_COPY@, seq![offset]) == metadata_copied(offset),
{
    reveal_strlit("    __builtin_memcpy(info.static_meta, runtime_info_bytes + ");
    reveal_strlit("    __builtin_memcpy(info.static_meta, runtime_info_bytes + $0, sizeof(info.static_meta));\n");
    reveal_strlit(", sizeof(info.static_meta));\n");
    let segments = seq!["    __builtin_memcpy(info.static_meta, runtime_info_bytes + "@, ", sizeof(info.static_meta));\n"@];
    let indices = seq![0nat];
    let args = seq![offset];
    reveal_with_fuel(text::skeleton, 2);
    reveal_with_fuel(text::fleshed, 2);
    assert(scalar_writer::STATIC_META_COPY@ =~= text::skeleton(segments, indices, 0));
    text::law_segments_are_kept(segments, indices, args, 0);
    assert(text::fill(scalar_writer::STATIC_META_COPY@, args) =~= "    __builtin_memcpy(info.static_meta, runtime_info_bytes + "@ + offset + ", sizeof(info.static_meta));\n"@);
}

#[verifier::spinoff_prover]
#[verifier::rlimit(60)]
proof fn lemma_info_found(place: Seq<char>)
    ensures
        text::fill(scalar_writer::INFO_BLOCK@, seq![place]) == info_found(place),
{
    reveal_strlit("    info_st info = {};\n    constexpr uint32_t info_arg_offset_words = ");
    reveal_strlit("    info_st info = {};\n    constexpr uint32_t info_arg_offset_words = $0;\n    const uint8_t* runtime_info_bytes = reinterpret_cast<const uint8_t*>(get_arg_addr(info_arg_offset_words));\n");
    reveal_strlit(";\n    const uint8_t* runtime_info_bytes = reinterpret_cast<const uint8_t*>(get_arg_addr(info_arg_offset_words));\n");
    let segments = seq!["    info_st info = {};\n    constexpr uint32_t info_arg_offset_words = "@, ";\n    const uint8_t* runtime_info_bytes = reinterpret_cast<const uint8_t*>(get_arg_addr(info_arg_offset_words));\n"@];
    let indices = seq![0nat];
    let args = seq![place];
    reveal_with_fuel(text::skeleton, 2);
    reveal_with_fuel(text::fleshed, 2);
    assert(scalar_writer::INFO_BLOCK@ =~= text::skeleton(segments, indices, 0));
    text::law_segments_are_kept(segments, indices, args, 0);
    assert(text::fill(scalar_writer::INFO_BLOCK@, args) =~= "    info_st info = {};\n    constexpr uint32_t info_arg_offset_words = "@ + place + ";\n    const uint8_t* runtime_info_bytes = reinterpret_cast<const uint8_t*>(get_arg_addr(info_arg_offset_words));\n"@);
}

#[verifier::spinoff_prover]
#[verifier::rlimit(60)]
proof fn lemma_metadata_found(place: Seq<char>, name: Seq<char>)
    ensures
        text::fill(scalar_writer::DYNAMIC_META@, seq![place, name]) == metadata_found(place, name),
{
    reveal_strlit("    constexpr uint32_t dynamic_meta_arg_offset_words = ");
    reveal_strlit("    constexpr uint32_t dynamic_meta_arg_offset_words = $0;\n    const tt_l1_ptr $1* dynamic_meta = reinterpret_cast<tt_l1_ptr const $1*>(get_arg_addr(dynamic_meta_arg_offset_words));\n");
    reveal_strlit("* dynamic_meta = reinterpret_cast<tt_l1_ptr const ");
    reveal_strlit("*>(get_arg_addr(dynamic_meta_arg_offset_words));\n");
    reveal_strlit(";\n    const tt_l1_ptr ");
    let segments = seq!["    constexpr uint32_t dynamic_meta_arg_offset_words = "@, ";\n    const tt_l1_ptr "@, "* dynamic_meta = reinterpret_cast<tt_l1_ptr const "@, "*>(get_arg_addr(dynamic_meta_arg_offset_words));\n"@];
    let indices = seq![0nat, 1nat, 1nat];
    let args = seq![place, name];
    reveal_with_fuel(text::skeleton, 4);
    reveal_with_fuel(text::fleshed, 4);
    assert(scalar_writer::DYNAMIC_META@ =~= text::skeleton(segments, indices, 0));
    text::law_segments_are_kept(segments, indices, args, 0);
    assert(text::fill(scalar_writer::DYNAMIC_META@, args) =~= "    constexpr uint32_t dynamic_meta_arg_offset_words = "@ + place + (";\n    const tt_l1_ptr "@ + name + ("* dynamic_meta = reinterpret_cast<tt_l1_ptr const "@ + name + "*>(get_arg_addr(dynamic_meta_arg_offset_words));\n"@)));
}

/// The accessor of a buffer: the first takes its compile-time arguments from the start, each
/// other from where those of its predecessor end.
pub open spec fn buffer_accessor(prefix: Seq<char>, address: Seq<char>, index: nat) -> Seq<char> {
    let own = prefix + text::dec(index);
    "    constexpr auto "@ + own + "_args = TensorAccessorArgs<"@ + (if index == 0 {
        "0"@
    } else {
        prefix + text::dec((index - 1) as nat) + "_args.next_compile_time_args_offset()"@
    }) + ">();\n    const auto "@ + own + " = TensorAccessor("@ + own + "_args, "@ + address
        + text::dec(index) + "_addr);\n"@
}

#[verifier::spinoff_prover]
#[verifier::rlimit(60)]
proof fn lemma_first_accessor(d: Seq<char>, prefix: Seq<char>, address: Seq<char>)
    ensures
        text::fill(dataflow::FIRST_ACCESSOR@, seq![d, prefix, address]) == "    constexpr auto "@ + prefix + d + "_args = TensorAccessorArgs<0>();\n    const auto "@ + prefix + d + " = TensorAccessor("@ + prefix + d + "_args, "@ + address + d + "_addr);\n"@,
{
    reveal_strlit("    constexpr auto ");
    reveal_strlit("    constexpr auto $1$0_args = TensorAccessorArgs<0>();\n    const auto $1$0 = TensorAccessor($1$0_args, $2$0_addr);\n");
    reveal_strlit(" = TensorAccessor(");
    reveal_strlit("_addr);\n");
    reveal_strlit("_args = TensorAccessorArgs<0>();\n    const auto ");
    reveal_strlit("_args, ");
    reveal_strlit("");
    let segments = seq!["    constexpr auto "@, ""@, "_args = TensorAccessorArgs<0>();\n    const auto "@, ""@, " = TensorAccessor("@, ""@, "_args, "@, ""@, "_addr);\n"@];
    let indices = seq![1nat, 0nat, 1nat, 0nat, 1nat, 0nat, 2nat, 0nat];
    let args = seq![d, prefix, address];
    reveal_with_fuel(text::skeleton, 9);
    reveal_with_fuel(text::fleshed, 9);
    assert(dataflow::FIRST_ACCESSOR@ =~= text::skeleton(segments, indices, 0));
    text::law_segments_are_kept(segments, indices, args, 0);
    assert(text::fill(dataflow::FIRST_ACCESSOR@, args) =~= "    constexpr auto "@ + prefix + d + "_args = TensorAccessorArgs<0>();\n    const auto "@ + prefix + d + " = TensorAccessor("@ + prefix + d + "_args, "@ + address + d + "_addr);\n"@);
}

#[verifier::spinoff_prover]
#[verifier::rlimit(60)]
proof fn lemma_next_accessor(d: Seq<char>, prefix: Seq<char>, address: Seq<char>, before: Seq<char>)
    ensures
        text::fill(dataflow::NEXT_ACCESSOR@, seq![d, prefix, address, before]) == "    constexpr auto "@ + prefix + d + "_args = TensorAccessorArgs<"@ + prefix + before + "_args.next_compile_time_args_offset()>();\n    const auto "@ + prefix + d + " = TensorAccessor("@ + prefix + d + "_args, "@ + address + d + "_addr);\n"@,
{
    reveal_strlit("    constexpr auto ");
    reveal_strlit("    constexpr auto $1$0_args = TensorAccessorArgs<$1$3_args.next_compile_time_args_offset()>();\n    const auto $1$0 = TensorAccessor($1$0_args, $2$0_addr);\n");
    reveal_strlit(" = TensorAccessor(");
    reveal_strlit("_addr);\n");
    reveal_strlit("_args = TensorAccessorArgs<");
    reveal_strlit("_args, ");
    reveal_strlit("_args.next_compile_time_args_offset()>();\n    const auto ");
    reveal_strlit("");
    let segments = seq!["    constexpr auto "@, ""@, "_args = TensorAccessorArgs<"@, ""@, "_args.next_compile_time_args_offset()>();\n    const auto "@, ""@, " = TensorAccessor("@, ""@, "_args, "@, ""@, "_addr);\n"@];
    let indices = seq![1nat, 0nat, 1nat, 3nat, 1nat, 0nat, 1nat, 0nat, 2nat, 0nat];
    let args = seq![d, prefix, address, before];
    reveal_with_fuel(text::skeleton, 11);
    reveal_with_fuel(text::fleshed, 11);
    assert(dataflow::NEXT_ACCESSOR@ =~= text::skeleton(segments, indices, 0));
    text::law_segments_are_kept(segments, indices, args, 0);
    assert(text::fill(dataflow::NEXT_ACCESSOR@, args) =~= "    constexpr auto "@ + prefix + d + "_args = TensorAccessorArgs<"@ + prefix + before + "_args.next_compile_time_args_offset()>();\n    const auto "@ + prefix + d + " = TensorAccessor("@ + prefix + d + "_args, "@ + address + d + "_addr);\n"@);
}

#[verifier::spinoff_prover]
#[verifier::rlimit(60)]
proof fn lemma_accessor(prefix: Seq<char>, address: Seq<char>, index: nat)
    ensures
        dataflow::accessor(prefix, address, index) == buffer_accessor(prefix, address, index),
{
    reveal_strlit("    constexpr auto ");
    reveal_strlit(" = TensorAccessor(");
    reveal_strlit("0");
    reveal_strlit(">();\n    const auto ");
    reveal_strlit("_addr);\n");
    reveal_strlit("_args = TensorAccessorArgs<");
    reveal_strlit("_args = TensorAccessorArgs<0>();\n    const auto ");
    reveal_strlit("_args, ");
    reveal_strlit("_args.next_compile_time_args_offset()");
    reveal_strlit("_args.next_compile_time_args_offset()>();\n    const auto ");
    reveal_strlit("");
    if index == 0 {
        lemma_first_accessor(text::dec(index), prefix, address);
        assert(dataflow::accessor(prefix, address, index) =~= buffer_accessor(prefix, address, index));
    } else {
        lemma_next_accessor(text::dec(index), prefix, address, text::dec((index - 1) as nat));
        assert(dataflow::accessor(prefix, address, index) =~= buffer_accessor(prefix, address, index));
    }
}

proof fn lemma_accessors_hold(prefix: Seq<char>, address: Seq<char>, at: nat, count: nat)
    requires
        at < count,
    ensures
        text::in_order(
            dataflow::accessors(prefix, address, count),
            seq![buffer_accessor(prefix, address, at)],
        ),
    decreases count,
{
    let before = dataflow::accessors(prefix, address, (count - 1) as nat);
    let last = dataflow::accessor(prefix, address, (count - 1) as nat);
    let none = Seq::<char>::empty();
    let line = seq![buffer_accessor(prefix, address, at)];
    if at == count - 1 {
        lemma_accessor(prefix, address, at);
        text::law_line_is_in_order(last);
        text::law_order_is_kept_inside(before, last, none, line);
        assert(before + last + none =~= before + last);
    } else {
        lemma_accessors_hold(prefix, address, at, (count - 1) as nat);
        text::law_order_is_kept_inside(none, before, last, line);
        assert(none + before + last =~= before + last);
    }
}

proof fn lemma_output_buffers_hold(at: nat, count: nat)
    requires
        at < count,
    ensures
        text::in_order(
            dataflow::output_buffers(count),
            seq![output_buffer(text::dec(at), text::dec(16 + at))],
        ),
    decreases count,
{
    let before = dataflow::output_buffers((count - 1) as nat);
    let last = text::fill(
        dataflow::OUTPUT_BUFFER@,
        seq![
            text::dec((count - 1) as nat),
            text::dec((dataflow::FIRST_OUTPUT_BUFFER + count - 1) as nat),
        ],
    );
    let none = Seq::<char>::empty();
    let line = seq![output_buffer(text::dec(at), text::dec(16 + at))];
    if at == count - 1 {
        lemma_output_buffer(text::dec(at), text::dec(16 + at));
        text::law_line_is_in_order(last);
        text::law_order_is_kept_inside(before, last, none, line);
        assert(before + last + none =~= before + last);
    } else {
        lemma_output_buffers_hold(at, (count - 1) as nat);
        text::law_order_is_kept_inside(none, before, last, line);
        assert(none + before + last =~= before + last);
    }
}

proof fn lemma_numbered_holds(template: Seq<char>, from: nat, at: nat, to: nat, line: Seq<char>)
    requires
        from <= at < to,
        text::fill(template, seq![text::dec(at)]) == line,
    ensures
        text::in_order(text::numbered(template, from, to), seq![line]),
{
    text::law_line_is_in_order(line);
    text::law_order_of_one_number(template, from, at, to, seq![line]);
}

/// The tile reader takes the address of each input from its own argument, reads its tiles
/// through its own accessor into its own circular buffer, and hands them over once all reads
/// are done.
#[verifier::spinoff_prover]
#[verifier::rlimit(60)]
pub proof fn law_tile_reader_moves_its_inputs(count: nat, at: nat)
    requires
        at < count,
    ensures
        text::in_order(
            reader::tile_reader(count),
            seq![
                source_address(text::dec(at)),
                tile_count(text::dec(count)),
                first_tile(text::dec(count + 1)),
                input_buffer(text::dec(at)),
                buffer_accessor("a"@, "src"@, at),
                reader::TILE_LOOP@,
                place_reserved(text::dec(at)),
                tile_read(text::dec(at)),
                reader::READ_BARRIER@,
                input_handed_over(text::dec(at)),
            ],
        ),
{
    let none = Seq::<Seq<char>>::empty();
    let parts = seq![
        dataflow::PROLOGUE@,
        text::numbered(reader::SOURCE_ADDRESS@, 0, count),
        dataflow::with_number(reader::NUM_TILES@, count),
        dataflow::with_number(reader::START_TILE@, count + 1),
        "\n"@,
        text::numbered(dataflow::INPUT_BUFFER@, 0, count),
        "\n"@,
        dataflow::accessors("a"@, "src"@, count),
        reader::TILE_LOOP@,
        text::numbered(reader::RESERVE@, 0, count),
        "\n"@,
        text::numbered(reader::READ_TILE@, 0, count),
        reader::READ_BARRIER@,
        text::numbered(reader::PUSH@, 0, count),
        "    }\n}\n"@,
    ];
    let lists = seq![
        none,
        seq![source_address(text::dec(at))],
        seq![tile_count(text::dec(count))],
        seq![first_tile(text::dec(count + 1))],
        none,
        seq![input_buffer(text::dec(at))],
        none,
        seq![buffer_accessor("a"@, "src"@, at)],
        seq![reader::TILE_LOOP@],
        seq![place_reserved(text::dec(at))],
        none,
        seq![tile_read(text::dec(at))],
        seq![reader::READ_BARRIER@],
        seq![input_handed_over(text::dec(at))],
        none,
    ];
    lemma_source_address(text::dec(at));
    lemma_numbered_holds(reader::SOURCE_ADDRESS@, 0, at, count, source_address(text::dec(at)));
    lemma_tile_count(text::dec(count));
    text::law_line_is_in_order(tile_count(text::dec(count)));
    lemma_first_tile(text::dec(count + 1));
    text::law_line_is_in_order(first_tile(text::dec(count + 1)));
    lemma_input_buffer(text::dec(at));
    lemma_numbered_holds(dataflow::INPUT_BUFFER@, 0, at, count, input_buffer(text::dec(at)));
    lemma_accessors_hold("a"@, "src"@, at, count);
    text::law_line_is_in_order(reader::TILE_LOOP@);
    lemma_place_reserved(text::dec(at));
    lemma_numbered_holds(reader::RESERVE@, 0, at, count, place_reserved(text::dec(at)));
    lemma_tile_read(text::dec(at));
    lemma_numbered_holds(reader::READ_TILE@, 0, at, count, tile_read(text::dec(at)));
    text::law_line_is_in_order(reader::READ_BARRIER@);
    lemma_input_handed_over(text::dec(at));
    lemma_numbered_holds(reader::PUSH@, 0, at, count, input_handed_over(text::dec(at)));
    assert(text::in_order(parts[0], lists[0]));
    assert(text::in_order(parts[1], lists[1]));
    assert(text::in_order(parts[2], lists[2]));
    assert(text::in_order(parts[3], lists[3]));
    assert(text::in_order(parts[4], lists[4]));
    assert(text::in_order(parts[5], lists[5]));
    assert(text::in_order(parts[6], lists[6]));
    assert(text::in_order(parts[7], lists[7]));
    assert(text::in_order(parts[8], lists[8]));
    assert(text::in_order(parts[9], lists[9]));
    assert(text::in_order(parts[10], lists[10]));
    assert(text::in_order(parts[11], lists[11]));
    assert(text::in_order(parts[12], lists[12]));
    assert(text::in_order(parts[13], lists[13]));
    assert(text::in_order(parts[14], lists[14]));
    text::law_order_of_parts(parts, lists, 15);
    reveal_with_fuel(text::joined, 16);
    reveal_with_fuel(text::flattened, 16);
    assert(text::joined(parts, 15) == reader::tile_reader(count));
    assert(text::flattened(lists, 15) =~= seq![
        source_address(text::dec(at)),
        tile_count(text::dec(count)),
        first_tile(text::dec(count + 1)),
        input_buffer(text::dec(at)),
        buffer_accessor("a"@, "src"@, at),
        reader::TILE_LOOP@,
        place_reserved(text::dec(at)),
        tile_read(text::dec(at)),
        reader::READ_BARRIER@,
        input_handed_over(text::dec(at)),
    ]);
}

/// The tile writer takes the address of each output from its own argument, writes its tiles
/// through its own accessor from its own circular buffer, and frees their places once all
/// writes are done.
#[verifier::spinoff_prover]
#[verifier::rlimit(60)]
pub proof fn law_tile_writer_moves_its_outputs(count: nat, at: nat)
    requires
        at < count,
    ensures
        text::in_order(
            writer::tile_writer(count),
            seq![
                target_address(text::dec(at)),
                written_tiles(text::dec(count)),
                output_buffer(text::dec(at), text::dec(16 + at)),
                buffer_accessor("c"@, "dst"@, at),
                writer::TILE_LOOP@,
                tile_written(text::dec(at)),
                writer::WRITE_BARRIER@,
                output_freed(text::dec(at)),
            ],
        ),
{
    let none = Seq::<Seq<char>>::empty();
    let parts = seq![
        dataflow::PROLOGUE@,
        text::numbered(writer::TARGET_ADDRESS@, 0, count),
        dataflow::with_number(writer::NUM_TILES@, count),
        dataflow::output_buffers(count),
        "\n"@,
        dataflow::accessors("c"@, "dst"@, count),
        writer::TILE_LOOP@,
        text::numbered(writer::WRITE_TILE@, 0, count),
        writer::WRITE_BARRIER@,
        text::numbered(writer::POP@, 0, count),
        "    }\n}\n"@,
    ];
    let lists = seq![
        none,
        seq![target_address(text::dec(at))],
        seq![written_tiles(text::dec(count))],
        seq![output_buffer(text::dec(at), text::dec(16 + at))],
        none,
        seq![buffer_accessor("c"@, "dst"@, at)],
        seq![writer::TILE_LOOP@],
        seq![tile_written(text::dec(at))],
        seq![writer::WRITE_BARRIER@],
        seq![output_freed(text::dec(at))],
        none,
    ];
    lemma_target_address(text::dec(at));
    lemma_numbered_holds(writer::TARGET_ADDRESS@, 0, at, count, target_address(text::dec(at)));
    lemma_written_tiles(text::dec(count));
    text::law_line_is_in_order(written_tiles(text::dec(count)));
    lemma_output_buffers_hold(at, count);
    lemma_accessors_hold("c"@, "dst"@, at, count);
    text::law_line_is_in_order(writer::TILE_LOOP@);
    lemma_tile_written(text::dec(at));
    lemma_numbered_holds(writer::WRITE_TILE@, 0, at, count, tile_written(text::dec(at)));
    text::law_line_is_in_order(writer::WRITE_BARRIER@);
    lemma_output_freed(text::dec(at));
    lemma_numbered_holds(writer::POP@, 0, at, count, output_freed(text::dec(at)));
    assert(text::in_order(parts[0], lists[0]));
    assert(text::in_order(parts[1], lists[1]));
    assert(text::in_order(parts[2], lists[2]));
    assert(text::in_order(parts[3], lists[3]));
    assert(text::in_order(parts[4], lists[4]));
    assert(text::in_order(parts[5], lists[5]));
    assert(text::in_order(parts[6], lists[6]));
    assert(text::in_order(parts[7], lists[7]));
    assert(text::in_order(parts[8], lists[8]));
    assert(text::in_order(parts[9], lists[9]));
    assert(text::in_order(parts[10], lists[10]));
    text::law_order_of_parts(parts, lists, 11);
    reveal_with_fuel(text::joined, 12);
    reveal_with_fuel(text::flattened, 12);
    assert(text::joined(parts, 11) == writer::tile_writer(count));
    assert(text::flattened(lists, 11) =~= seq![
        target_address(text::dec(at)),
        written_tiles(text::dec(count)),
        output_buffer(text::dec(at), text::dec(16 + at)),
        buffer_accessor("c"@, "dst"@, at),
        writer::TILE_LOOP@,
        tile_written(text::dec(at)),
        writer::WRITE_BARRIER@,
        output_freed(text::dec(at)),
    ]);
}

/// What the page reader is told of the staged input.
spec fn staging(count: nat) -> Seq<char> {
    dataflow::with_number(reader::STAGED_TILES@, count + 2) + dataflow::with_number(
        reader::STAGED_PAGE_BYTES@,
        count + 3,
    )
}

#[verifier::spinoff_prover]
#[verifier::rlimit(60)]
proof fn lemma_page_reader_head(count: nat, staged: bool, at: nat)
    requires
        at < count,
    ensures
        text::in_order(
            reader::page_reader_head(count, staged),
            seq![
                source_address(text::dec(at)),
                tile_count(text::dec(count)),
                first_tile(text::dec(count + 1)),
                input_buffer(text::dec(at)),
                buffer_accessor("a"@, "src"@, at),
            ],
        ),
{
    let none = Seq::<Seq<char>>::empty();
    let parts = seq![
        dataflow::PROLOGUE@,
        text::numbered(reader::SOURCE_ADDRESS@, 0, count),
        dataflow::with_number(reader::NUM_TILES@, count),
        dataflow::with_number(reader::START_TILE@, count + 1),
        text::given(staged, staging(count)),
        "\n"@,
        text::numbered(dataflow::INPUT_BUFFER@, 0, count),
        "\n"@,
        dataflow::accessors("a"@, "src"@, count),
    ];
    let lists = seq![
        none,
        seq![source_address(text::dec(at))],
        seq![tile_count(text::dec(count))],
        seq![first_tile(text::dec(count + 1))],
        none,
        none,
        seq![input_buffer(text::dec(at))],
        none,
        seq![buffer_accessor("a"@, "src"@, at)],
    ];
    lemma_source_address(text::dec(at));
    lemma_numbered_holds(reader::SOURCE_ADDRESS@, 0, at, count, source_address(text::dec(at)));
    lemma_tile_count(text::dec(count));
    text::law_line_is_in_order(tile_count(text::dec(count)));
    lemma_first_tile(text::dec(count + 1));
    text::law_line_is_in_order(first_tile(text::dec(count + 1)));
    lemma_input_buffer(text::dec(at));
    lemma_numbered_holds(dataflow::INPUT_BUFFER@, 0, at, count, input_buffer(text::dec(at)));
    lemma_accessors_hold("a"@, "src"@, at, count);
    assert(text::in_order(parts[0], lists[0]));
    assert(text::in_order(parts[1], lists[1]));
    assert(text::in_order(parts[2], lists[2]));
    assert(text::in_order(parts[3], lists[3]));
    assert(text::in_order(parts[4], lists[4]));
    assert(text::in_order(parts[5], lists[5]));
    assert(text::in_order(parts[6], lists[6]));
    assert(text::in_order(parts[7], lists[7]));
    assert(text::in_order(parts[8], lists[8]));
    text::law_order_of_parts(parts, lists, 9);
    reveal_with_fuel(text::joined, 10);
    reveal_with_fuel(text::flattened, 10);
    assert(text::joined(parts, 9) == reader::page_reader_head(count, staged));
    assert(text::flattened(lists, 9) =~= seq![
        source_address(text::dec(at)),
        tile_count(text::dec(count)),
        first_tile(text::dec(count + 1)),
        input_buffer(text::dec(at)),
        buffer_accessor("a"@, "src"@, at),
    ]);
}

#[verifier::spinoff_prover]
#[verifier::rlimit(60)]
proof fn lemma_page_reader_loop(count: nat, first: nat, at: nat)
    requires
        first <= at < count,
    ensures
        text::in_order(
            reader::page_reader_loop(count, first),
            seq![
                reader::TILE_LOOP@,
                place_reserved(text::dec(at)),
                page_read(text::dec(at)),
                reader::READ_BARRIER@,
                input_handed_over(text::dec(at)),
            ],
        ),
{
    let none = Seq::<Seq<char>>::empty();
    let parts = seq![
        reader::TILE_LOOP@,
        text::numbered(reader::RESERVE@, first, count),
        "\n"@,
        text::numbered(reader::READ_PAGE@, first, count),
        reader::READ_BARRIER@,
        text::numbered(reader::PUSH@, first, count),
        "    }\n"@,
    ];
    let lists = seq![
        seq![reader::TILE_LOOP@],
        seq![place_reserved(text::dec(at))],
        none,
        seq![page_read(text::dec(at))],
        seq![reader::READ_BARRIER@],
        seq![input_handed_over(text::dec(at))],
        none,
    ];
    text::law_line_is_in_order(reader::TILE_LOOP@);
    lemma_place_reserved(text::dec(at));
    lemma_numbered_holds(reader::RESERVE@, first, at, count, place_reserved(text::dec(at)));
    lemma_page_read(text::dec(at));
    lemma_numbered_holds(reader::READ_PAGE@, first, at, count, page_read(text::dec(at)));
    text::law_line_is_in_order(reader::READ_BARRIER@);
    lemma_input_handed_over(text::dec(at));
    lemma_numbered_holds(reader::PUSH@, first, at, count, input_handed_over(text::dec(at)));
    assert(text::in_order(parts[0], lists[0]));
    assert(text::in_order(parts[1], lists[1]));
    assert(text::in_order(parts[2], lists[2]));
    assert(text::in_order(parts[3], lists[3]));
    assert(text::in_order(parts[4], lists[4]));
    assert(text::in_order(parts[5], lists[5]));
    assert(text::in_order(parts[6], lists[6]));
    text::law_order_of_parts(parts, lists, 7);
    reveal_with_fuel(text::joined, 8);
    reveal_with_fuel(text::flattened, 8);
    assert(text::joined(parts, 7) == reader::page_reader_loop(count, first));
    assert(text::flattened(lists, 7) =~= seq![
        reader::TILE_LOOP@,
        place_reserved(text::dec(at)),
        page_read(text::dec(at)),
        reader::READ_BARRIER@,
        input_handed_over(text::dec(at)),
    ]);
}

/// The page reader takes the address of each input from its own argument, reads its pages
/// through its own accessor into its own circular buffer, and hands them over once all reads
/// are done.
pub proof fn law_page_reader_moves_its_inputs(count: nat, at: nat)
    requires
        at < count,
    ensures
        text::in_order(
            reader::page_reader(count, false),
            seq![
                source_address(text::dec(at)),
                tile_count(text::dec(count)),
                first_tile(text::dec(count + 1)),
                input_buffer(text::dec(at)),
                buffer_accessor("a"@, "src"@, at),
                reader::TILE_LOOP@,
                place_reserved(text::dec(at)),
                page_read(text::dec(at)),
                reader::READ_BARRIER@,
                input_handed_over(text::dec(at)),
            ],
        ),
{
    let head = reader::page_reader_head(count, false);
    let body = reader::page_reader_loop(count, 0);
    let told = seq![
        source_address(text::dec(at)),
                tile_count(text::dec(count)),
                first_tile(text::dec(count + 1)),
                input_buffer(text::dec(at)),
                buffer_accessor("a"@, "src"@, at),
    ];
    let moved = seq![
        reader::TILE_LOOP@,
                place_reserved(text::dec(at)),
                page_read(text::dec(at)),
                reader::READ_BARRIER@,
                input_handed_over(text::dec(at)),
    ];
    lemma_page_reader_head(count, false, at);
    lemma_page_reader_loop(count, 0, at);
    text::law_order_is_joined(head, told, body, moved);
    text::law_order_is_kept_inside(Seq::empty(), head + body, "}\n"@, told + moved);
    assert(Seq::empty() + (head + body) + "}\n"@ =~= reader::page_reader(count, false));
    assert(told + moved =~= seq![
        source_address(text::dec(at)),
                tile_count(text::dec(count)),
                first_tile(text::dec(count + 1)),
                input_buffer(text::dec(at)),
                buffer_accessor("a"@, "src"@, at),
        reader::TILE_LOOP@,
                place_reserved(text::dec(at)),
                page_read(text::dec(at)),
                reader::READ_BARRIER@,
                input_handed_over(text::dec(at)),
    ]);
}

proof fn lemma_order_of_four(
    a: Seq<char>,
    first: Seq<Seq<char>>,
    b: Seq<char>,
    second: Seq<Seq<char>>,
    c: Seq<char>,
    third: Seq<Seq<char>>,
    d: Seq<char>,
    fourth: Seq<Seq<char>>,
)
    requires
        text::in_order(a, first),
        text::in_order(b, second),
        text::in_order(c, third),
        text::in_order(d, fourth),
    ensures
        text::in_order(a + b + c + d, first + second + third + fourth),
{
    text::law_order_is_joined(a, first, b, second);
    text::law_order_is_joined(a + b, first + second, c, third);
    text::law_order_is_joined(a + b + c, first + second + third, d, fourth);
}

#[verifier::spinoff_prover]
#[verifier::rlimit(60)]
proof fn lemma_writer_head_of_output(kernel: ComputeKernel, num_inputs: nat, outputs: Seq<usize>, units: nat, at: nat)
    requires
        at < outputs.len(),
    ensures
        text::in_order(
            scalar_writer::writer_head(kernel, num_inputs, outputs.len(), units),
            seq![
                target_address(text::dec(at)),
                output_buffer(text::dec(at), text::dec(16 + at)),
                buffer_accessor("c"@, "dst"@, at),
            ],
        ),
{
    let none = Seq::<Seq<char>>::empty();
    let num_outputs = outputs.len();
    let places = seq![
        text::dec(num_outputs),
        text::dec(num_outputs + 1),
        text::dec(num_outputs + 2),
        text::dec(num_outputs + 3),
        text::dec(num_outputs + 4),
        text::dec(num_outputs + 5),
    ];
    let extents = seq![
        text::dec(units),
        text::dec(kernel.cube_dim.x as nat),
        text::dec(kernel.cube_dim.y as nat),
        text::dec(kernel.cube_dim.z as nat),
    ];
    let parts = seq![
        scalar_writer::HEADERS@,
        scalar_writer::vector_definitions(kernel.items@, kernel.items.len() as nat),
        kernel.info.definition@,
        "\nvoid kernel_main() {\n"@,
        text::numbered(writer::TARGET_ADDRESS@, 0, outputs.len()),
        text::fill(scalar_writer::ARGUMENTS@, places),
        text::fill(scalar_writer::CUBE@, extents),
        text::numbered(dataflow::INPUT_BUFFER@, 0, num_inputs),
        dataflow::output_buffers(outputs.len()),
        "\n"@,
        dataflow::accessors("c"@, "dst"@, outputs.len()),
        scalar_writer::info_block(kernel, scalar_writer::info_offset(outputs.len())),
        scalar_writer::const_arrays(kernel.body.const_arrays@, kernel.body.const_arrays.len() as nat),
    ];
    let lists = seq![
        none,
        none,
        none,
        none,
        seq![target_address(text::dec(at))],
        none,
        none,
        none,
        seq![output_buffer(text::dec(at), text::dec(16 + at))],
        none,
        seq![buffer_accessor("c"@, "dst"@, at)],
        none,
        none,
    ];
    lemma_target_address(text::dec(at));
    lemma_numbered_holds(writer::TARGET_ADDRESS@, 0, at, outputs.len(), target_address(text::dec(at)));
    lemma_output_buffers_hold(at, outputs.len());
    lemma_accessors_hold("c"@, "dst"@, at, outputs.len());
    assert(text::in_order(parts[0], lists[0]));
    assert(text::in_order(parts[1], lists[1]));
    assert(text::in_order(parts[2], lists[2]));
    assert(text::in_order(parts[3], lists[3]));
    assert(text::in_order(parts[4], lists[4]));
    assert(text::in_order(parts[5], lists[5]));
    assert(text::in_order(parts[6], lists[6]));
    assert(text::in_order(parts[7], lists[7]));
    assert(text::in_order(parts[8], lists[8]));
    assert(text::in_order(parts[9], lists[9]));
    assert(text::in_order(parts[10], lists[10]));
    assert(text::in_order(parts[11], lists[11]));
    assert(text::in_order(parts[12], lists[12]));
    text::law_order_of_parts(parts, lists, 13);
    reveal_with_fuel(text::joined, 14);
    reveal_with_fuel(text::flattened, 14);
    assert(text::joined(parts, 13) == scalar_writer::writer_head(kernel, num_inputs, outputs.len(), units));
    assert(text::flattened(lists, 13) =~= seq![
        target_address(text::dec(at)),
        output_buffer(text::dec(at), text::dec(16 + at)),
        buffer_accessor("c"@, "dst"@, at),
    ]);
}

#[verifier::spinoff_prover]
#[verifier::rlimit(60)]
proof fn lemma_tile_head_of_output(kernel: ComputeKernel, num_inputs: nat, outputs: Seq<usize>, at: nat)
    requires
        at < outputs.len(),
    ensures
        text::in_order(
            scalar_writer::tile_head(kernel, num_inputs, outputs),
            seq![
                scalar_writer::TILE_LOOP@,
                output_reserved(text::dec(at)),
                output_prefilled(text::dec(at)),
                scalar_writer::READ_BARRIER@,
            ],
        ),
{
    let none = Seq::<Seq<char>>::empty();
    let parts = seq![
        scalar_writer::TILE_LOOP@,
        text::numbered(scalar_writer::WAIT_INPUT@, 0, num_inputs),
        text::given(scalar_writer::leaves_kernel(kernel.body.instructions@), scalar_writer::TERMINATE_FLAG@),
        text::numbered(scalar_writer::RESERVE_OUTPUT@, 0, outputs.len()),
        text::numbered(scalar_writer::PREFILL@, 0, outputs.len()),
        text::given(outputs.len() > 0, scalar_writer::READ_BARRIER@),
        scalar_writer::buffer_pointers(kernel.buffers@, outputs, kernel.buffers.len() as nat),
        scalar_writer::shared_memories(kernel.body.shared_memories@, kernel.body.shared_memories.len() as nat),
        scalar_writer::snapshots(warp::lowering(kernel.body.instructions@).snapshots, warp::lowering(kernel.body.instructions@).snapshots.len()),
    ];
    let lists = seq![
        seq![scalar_writer::TILE_LOOP@],
        none,
        none,
        seq![output_reserved(text::dec(at))],
        seq![output_prefilled(text::dec(at))],
        seq![scalar_writer::READ_BARRIER@],
        none,
        none,
        none,
    ];
    text::law_line_is_in_order(scalar_writer::TILE_LOOP@);
    lemma_output_reserved(text::dec(at));
    lemma_numbered_holds(scalar_writer::RESERVE_OUTPUT@, 0, at, outputs.len(), output_reserved(text::dec(at)));
    lemma_output_prefilled(text::dec(at));
    lemma_numbered_holds(scalar_writer::PREFILL@, 0, at, outputs.len(), output_prefilled(text::dec(at)));
    text::law_line_is_in_order(scalar_writer::READ_BARRIER@);
    assert(text::in_order(parts[0], lists[0]));
    assert(text::in_order(parts[1], lists[1]));
    assert(text::in_order(parts[2], lists[2]));
    assert(text::in_order(parts[3], lists[3]));
    assert(text::in_order(parts[4], lists[4]));
    assert(text::in_order(parts[5], lists[5]));
    assert(text::in_order(parts[6], lists[6]));
    assert(text::in_order(parts[7], lists[7]));
    assert(text::in_order(parts[8], lists[8]));
    text::law_order_of_parts(parts, lists, 9);
    reveal_with_fuel(text::joined, 10);
    reveal_with_fuel(text::flattened, 10);
    assert(text::joined(parts, 9) == scalar_writer::tile_head(kernel, num_inputs, outputs));
    assert(text::flattened(lists, 9) =~= seq![
        scalar_writer::TILE_LOOP@,
        output_reserved(text::dec(at)),
        output_prefilled(text::dec(at)),
        scalar_writer::READ_BARRIER@,
    ]);
}

#[verifier::spinoff_prover]
#[verifier::rlimit(60)]
proof fn lemma_tile_end_of_output(kernel: ComputeKernel, num_inputs: nat, outputs: Seq<usize>, at: nat)
    requires
        at < outputs.len(),
    ensures
        text::in_order(
            scalar_writer::tile_end(scalar_writer::leaves_kernel(kernel.body.instructions@), num_inputs, outputs.len()),
            seq![
                page_written(text::dec(at)),
                writer::WRITE_BARRIER@,
                output_freed(text::dec(at)),
            ],
        ),
{
    let none = Seq::<Seq<char>>::empty();
    let parts = seq![
        text::given(scalar_writer::leaves_kernel(kernel.body.instructions@), scalar_writer::FINISH_LABEL@),
        text::numbered(scalar_writer::WRITE_PAGE@, 0, outputs.len()),
        writer::WRITE_BARRIER@,
        text::numbered(writer::POP@, 0, outputs.len()),
        text::numbered(scalar_writer::POP_INPUT@, 0, num_inputs),
        text::given(scalar_writer::leaves_kernel(kernel.body.instructions@), scalar_writer::TERMINATE@),
        "    }\n}\n"@,
    ];
    let lists = seq![
        none,
        seq![page_written(text::dec(at))],
        seq![writer::WRITE_BARRIER@],
        seq![output_freed(text::dec(at))],
        none,
        none,
        none,
    ];
    lemma_page_written(text::dec(at));
    lemma_numbered_holds(scalar_writer::WRITE_PAGE@, 0, at, outputs.len(), page_written(text::dec(at)));
    text::law_line_is_in_order(writer::WRITE_BARRIER@);
    lemma_output_freed(text::dec(at));
    lemma_numbered_holds(writer::POP@, 0, at, outputs.len(), output_freed(text::dec(at)));
    assert(text::in_order(parts[0], lists[0]));
    assert(text::in_order(parts[1], lists[1]));
    assert(text::in_order(parts[2], lists[2]));
    assert(text::in_order(parts[3], lists[3]));
    assert(text::in_order(parts[4], lists[4]));
    assert(text::in_order(parts[5], lists[5]));
    assert(text::in_order(parts[6], lists[6]));
    text::law_order_of_parts(parts, lists, 7);
    reveal_with_fuel(text::joined, 8);
    reveal_with_fuel(text::flattened, 8);
    assert(text::joined(parts, 7) == scalar_writer::tile_end(scalar_writer::leaves_kernel(kernel.body.instructions@), num_inputs, outputs.len()));
    assert(text::flattened(lists, 7) =~= seq![
        page_written(text::dec(at)),
        writer::WRITE_BARRIER@,
        output_freed(text::dec(at)),
    ]);
}

/// What the writer is told of an output before its tiles.
pub open spec fn told_of_output(at: nat) -> Seq<Seq<char>> {
    seq![
        target_address(text::dec(at)),
        output_buffer(text::dec(at), text::dec(16 + at)),
        buffer_accessor("c"@, "dst"@, at),
    ]
}

/// What is done for an output before the units of a tile.
pub open spec fn prepared_of_output(at: nat) -> Seq<Seq<char>> {
    seq![
        scalar_writer::TILE_LOOP@,
        output_reserved(text::dec(at)),
        output_prefilled(text::dec(at)),
        scalar_writer::READ_BARRIER@,
    ]
}

/// What is done for an output behind the units of a tile.
pub open spec fn finished_of_output(at: nat) -> Seq<Seq<char>> {
    seq![
        page_written(text::dec(at)),
        writer::WRITE_BARRIER@,
        output_freed(text::dec(at)),
    ]
}

/// The scalar writer takes the address of each output from its own argument, fills the place
/// of the output in its own circular buffer with the page that is in DRAM, runs its units, and
/// writes the place back to that page before it frees it.
pub proof fn law_scalar_writer_moves_its_outputs(kernel: ComputeKernel, num_inputs: nat, outputs: Seq<usize>, units: nat, at: nat)
    requires
        at < outputs.len(),
    ensures
        text::in_order(
            scalar_writer::scalar_writer(kernel, num_inputs, outputs, units),
            told_of_output(at) + prepared_of_output(at) + seq![scalar_writer::unit_loop(kernel)] + finished_of_output(at),
        ),
{
    lemma_writer_head_of_output(kernel, num_inputs, outputs, units, at);
    lemma_tile_head_of_output(kernel, num_inputs, outputs, at);
    text::law_line_is_in_order(scalar_writer::unit_loop(kernel));
    lemma_tile_end_of_output(kernel, num_inputs, outputs, at);
    lemma_order_of_four(
        scalar_writer::writer_head(kernel, num_inputs, outputs.len(), units),
        told_of_output(at),
        scalar_writer::tile_head(kernel, num_inputs, outputs),
        prepared_of_output(at),
        scalar_writer::unit_loop(kernel),
        seq![scalar_writer::unit_loop(kernel)],
        scalar_writer::tile_end(scalar_writer::leaves_kernel(kernel.body.instructions@), num_inputs, outputs.len()),
        finished_of_output(at),
    );
}

#[verifier::spinoff_prover]
#[verifier::rlimit(60)]
proof fn lemma_writer_head_of_input(kernel: ComputeKernel, num_inputs: nat, outputs: Seq<usize>, units: nat, at: nat)
    requires
        at < num_inputs,
    ensures
        text::in_order(
            scalar_writer::writer_head(kernel, num_inputs, outputs.len(), units),
            seq![
                input_buffer(text::dec(at)),
            ],
        ),
{
    let none = Seq::<Seq<char>>::empty();
    let num_outputs = outputs.len();
    let places = seq![
        text::dec(num_outputs),
        text::dec(num_outputs + 1),
        text::dec(num_outputs + 2),
        text::dec(num_outputs + 3),
        text::dec(num_outputs + 4),
        text::dec(num_outputs + 5),
    ];
    let extents = seq![
        text::dec(units),
        text::dec(kernel.cube_dim.x as nat),
        text::dec(kernel.cube_dim.y as nat),
        text::dec(kernel.cube_dim.z as nat),
    ];
    let parts = seq![
        scalar_writer::HEADERS@,
        scalar_writer::vector_definitions(kernel.items@, kernel.items.len() as nat),
        kernel.info.definition@,
        "\nvoid kernel_main() {\n"@,
        text::numbered(writer::TARGET_ADDRESS@, 0, outputs.len()),
        text::fill(scalar_writer::ARGUMENTS@, places),
        text::fill(scalar_writer::CUBE@, extents),
        text::numbered(dataflow::INPUT_BUFFER@, 0, num_inputs),
        dataflow::output_buffers(outputs.len()),
        "\n"@,
        dataflow::accessors("c"@, "dst"@, outputs.len()),
        scalar_writer::info_block(kernel, scalar_writer::info_offset(outputs.len())),
        scalar_writer::const_arrays(kernel.body.const_arrays@, kernel.body.const_arrays.len() as nat),
    ];
    let lists = seq![
        none,
        none,
        none,
        none,
        none,
        none,
        none,
        seq![input_buffer(text::dec(at))],
        none,
        none,
        none,
        none,
        none,
    ];
    lemma_input_buffer(text::dec(at));
    lemma_numbered_holds(dataflow::INPUT_BUFFER@, 0, at, num_inputs, input_buffer(text::dec(at)));
    assert(text::in_order(parts[0], lists[0]));
    assert(text::in_order(parts[1], lists[1]));
    assert(text::in_order(parts[2], lists[2]));
    assert(text::in_order(parts[3], lists[3]));
    assert(text::in_order(parts[4], lists[4]));
    assert(text::in_order(parts[5], lists[5]));
    assert(text::in_order(parts[6], lists[6]));
    assert(text::in_order(parts[7], lists[7]));
    assert(text::in_order(parts[8], lists[8]));
    assert(text::in_order(parts[9], lists[9]));
    assert(text::in_order(parts[10], lists[10]));
    assert(text::in_order(parts[11], lists[11]));
    assert(text::in_order(parts[12], lists[12]));
    text::law_order_of_parts(parts, lists, 13);
    reveal_with_fuel(text::joined, 14);
    reveal_with_fuel(text::flattened, 14);
    assert(text::joined(parts, 13) == scalar_writer::writer_head(kernel, num_inputs, outputs.len(), units));
    assert(text::flattened(lists, 13) =~= seq![
        input_buffer(text::dec(at)),
    ]);
}

#[verifier::spinoff_prover]
#[verifier::rlimit(60)]
proof fn lemma_tile_head_of_input(kernel: ComputeKernel, num_inputs: nat, outputs: Seq<usize>, at: nat)
    requires
        at < num_inputs,
    ensures
        text::in_order(
            scalar_writer::tile_head(kernel, num_inputs, outputs),
            seq![
                scalar_writer::TILE_LOOP@,
                input_awaited(text::dec(at)),
            ],
        ),
{
    let none = Seq::<Seq<char>>::empty();
    let parts = seq![
        scalar_writer::TILE_LOOP@,
        text::numbered(scalar_writer::WAIT_INPUT@, 0, num_inputs),
        text::given(scalar_writer::leaves_kernel(kernel.body.instructions@), scalar_writer::TERMINATE_FLAG@),
        text::numbered(scalar_writer::RESERVE_OUTPUT@, 0, outputs.len()),
        text::numbered(scalar_writer::PREFILL@, 0, outputs.len()),
        text::given(outputs.len() > 0, scalar_writer::READ_BARRIER@),
        scalar_writer::buffer_pointers(kernel.buffers@, outputs, kernel.buffers.len() as nat),
        scalar_writer::shared_memories(kernel.body.shared_memories@, kernel.body.shared_memories.len() as nat),
        scalar_writer::snapshots(warp::lowering(kernel.body.instructions@).snapshots, warp::lowering(kernel.body.instructions@).snapshots.len()),
    ];
    let lists = seq![
        seq![scalar_writer::TILE_LOOP@],
        seq![input_awaited(text::dec(at))],
        none,
        none,
        none,
        none,
        none,
        none,
        none,
    ];
    text::law_line_is_in_order(scalar_writer::TILE_LOOP@);
    lemma_input_awaited(text::dec(at));
    lemma_numbered_holds(scalar_writer::WAIT_INPUT@, 0, at, num_inputs, input_awaited(text::dec(at)));
    assert(text::in_order(parts[0], lists[0]));
    assert(text::in_order(parts[1], lists[1]));
    assert(text::in_order(parts[2], lists[2]));
    assert(text::in_order(parts[3], lists[3]));
    assert(text::in_order(parts[4], lists[4]));
    assert(text::in_order(parts[5], lists[5]));
    assert(text::in_order(parts[6], lists[6]));
    assert(text::in_order(parts[7], lists[7]));
    assert(text::in_order(parts[8], lists[8]));
    text::law_order_of_parts(parts, lists, 9);
    reveal_with_fuel(text::joined, 10);
    reveal_with_fuel(text::flattened, 10);
    assert(text::joined(parts, 9) == scalar_writer::tile_head(kernel, num_inputs, outputs));
    assert(text::flattened(lists, 9) =~= seq![
        scalar_writer::TILE_LOOP@,
        input_awaited(text::dec(at)),
    ]);
}

#[verifier::spinoff_prover]
#[verifier::rlimit(60)]
proof fn lemma_tile_end_of_input(kernel: ComputeKernel, num_inputs: nat, outputs: Seq<usize>, at: nat)
    requires
        at < num_inputs,
    ensures
        text::in_order(
            scalar_writer::tile_end(scalar_writer::leaves_kernel(kernel.body.instructions@), num_inputs, outputs.len()),
            seq![
                writer::WRITE_BARRIER@,
                input_freed(text::dec(at)),
            ],
        ),
{
    let none = Seq::<Seq<char>>::empty();
    let parts = seq![
        text::given(scalar_writer::leaves_kernel(kernel.body.instructions@), scalar_writer::FINISH_LABEL@),
        text::numbered(scalar_writer::WRITE_PAGE@, 0, outputs.len()),
        writer::WRITE_BARRIER@,
        text::numbered(writer::POP@, 0, outputs.len()),
        text::numbered(scalar_writer::POP_INPUT@, 0, num_inputs),
        text::given(scalar_writer::leaves_kernel(kernel.body.instructions@), scalar_writer::TERMINATE@),
        "    }\n}\n"@,
    ];
    let lists = seq![
        none,
        none,
        seq![writer::WRITE_BARRIER@],
        none,
        seq![input_freed(text::dec(at))],
        none,
        none,
    ];
    text::law_line_is_in_order(writer::WRITE_BARRIER@);
    lemma_input_freed(text::dec(at));
    lemma_numbered_holds(scalar_writer::POP_INPUT@, 0, at, num_inputs, input_freed(text::dec(at)));
    assert(text::in_order(parts[0], lists[0]));
    assert(text::in_order(parts[1], lists[1]));
    assert(text::in_order(parts[2], lists[2]));
    assert(text::in_order(parts[3], lists[3]));
    assert(text::in_order(parts[4], lists[4]));
    assert(text::in_order(parts[5], lists[5]));
    assert(text::in_order(parts[6], lists[6]));
    text::law_order_of_parts(parts, lists, 7);
    reveal_with_fuel(text::joined, 8);
    reveal_with_fuel(text::flattened, 8);
    assert(text::joined(parts, 7) == scalar_writer::tile_end(scalar_writer::leaves_kernel(kernel.body.instructions@), num_inputs, outputs.len()));
    assert(text::flattened(lists, 7) =~= seq![
        writer::WRITE_BARRIER@,
        input_freed(text::dec(at)),
    ]);
}

/// What the writer is told of an input before its tiles.
pub open spec fn told_of_input(at: nat) -> Seq<Seq<char>> {
    seq![
        input_buffer(text::dec(at)),
    ]
}

/// What is done for an input before the units of a tile.
pub open spec fn prepared_of_input(at: nat) -> Seq<Seq<char>> {
    seq![
        scalar_writer::TILE_LOOP@,
        input_awaited(text::dec(at)),
    ]
}

/// What is done for an input behind the units of a tile.
pub open spec fn finished_of_input(at: nat) -> Seq<Seq<char>> {
    seq![
        writer::WRITE_BARRIER@,
        input_freed(text::dec(at)),
    ]
}

/// The scalar writer waits for the page of each input in its own circular buffer before it
/// runs its units, and frees its place behind them.
pub proof fn law_scalar_writer_moves_its_inputs(kernel: ComputeKernel, num_inputs: nat, outputs: Seq<usize>, units: nat, at: nat)
    requires
        at < num_inputs,
    ensures
        text::in_order(
            scalar_writer::scalar_writer(kernel, num_inputs, outputs, units),
            told_of_input(at) + prepared_of_input(at) + seq![scalar_writer::unit_loop(kernel)] + finished_of_input(at),
        ),
{
    lemma_writer_head_of_input(kernel, num_inputs, outputs, units, at);
    lemma_tile_head_of_input(kernel, num_inputs, outputs, at);
    text::law_line_is_in_order(scalar_writer::unit_loop(kernel));
    lemma_tile_end_of_input(kernel, num_inputs, outputs, at);
    lemma_order_of_four(
        scalar_writer::writer_head(kernel, num_inputs, outputs.len(), units),
        told_of_input(at),
        scalar_writer::tile_head(kernel, num_inputs, outputs),
        prepared_of_input(at),
        scalar_writer::unit_loop(kernel),
        seq![scalar_writer::unit_loop(kernel)],
        scalar_writer::tile_end(scalar_writer::leaves_kernel(kernel.body.instructions@), num_inputs, outputs.len()),
        finished_of_input(at),
    );
}

proof fn lemma_pointers_hold(kernel: ComputeKernel, outputs: Seq<usize>, at: nat, count: nat)
    requires
        at < count,
    ensures
        text::contains(
            scalar_writer::buffer_pointers(kernel.buffers@, outputs, count),
            scalar_writer::buffer_pointer(kernel.buffers@, outputs, at),
        ),
    decreases count,
{
    let before = scalar_writer::buffer_pointers(kernel.buffers@, outputs, (count - 1) as nat);
    let last = scalar_writer::buffer_pointer(kernel.buffers@, outputs, (count - 1) as nat);
    let none = Seq::<char>::empty();
    let all = before + last;
    if at == count - 1 {
        text::law_parts_are_contained(before, last, none);
        assert(before + last + none =~= all);
    } else {
        lemma_pointers_hold(kernel, outputs, at, (count - 1) as nat);
        text::law_parts_are_contained(none, before, last);
        assert(none + before + last =~= all);
        text::law_containment_is_transitive(
            all,
            before,
            scalar_writer::buffer_pointer(kernel.buffers@, outputs, at),
        );
    }
}

/// What stands in a tile before its units stands in the writer.
proof fn lemma_tile_head_is_contained(
    kernel: ComputeKernel,
    num_inputs: nat,
    outputs: Seq<usize>,
    units: nat,
    piece: Seq<char>,
)
    requires
        text::contains(scalar_writer::tile_head(kernel, num_inputs, outputs), piece),
    ensures
        text::contains(scalar_writer::scalar_writer(kernel, num_inputs, outputs, units), piece),
{
    let head = scalar_writer::writer_head(kernel, num_inputs, outputs.len(), units);
    let tile = scalar_writer::tile_head(kernel, num_inputs, outputs);
    let rest = scalar_writer::unit_loop(kernel) + scalar_writer::tile_end(
        scalar_writer::leaves_kernel(kernel.body.instructions@),
        num_inputs,
        outputs.len(),
    );
    let whole = scalar_writer::scalar_writer(kernel, num_inputs, outputs, units);
    text::law_parts_are_contained(head, tile, rest);
    assert(head + tile + rest =~= whole);
    text::law_containment_is_transitive(whole, tile, piece);
}

/// The units of the scalar writer find each buffer of the kernel, under its own name and with
/// its own type, in the circular buffer that its data go through: the output, or the input,
/// of its rank among the kernel's outputs, or inputs.
pub proof fn law_buffers_stand_in_their_places(
    kernel: ComputeKernel,
    num_inputs: nat,
    units: nat,
    at: nat,
    rank: int,
)
    requires
        at < kernel.buffers.len(),
    ensures
        ({
            let outputs = compile::output_positions(kernel);
            let inputs = compile::input_positions(kernel);
            let source = scalar_writer::scalar_writer(kernel, num_inputs, outputs, units);
            let name = dialect::item_text(kernel.buffers[at as int].item);
            let id = text::dec(kernel.buffers[at as int].id as nat);
            &&& 0 <= rank < outputs.len() && outputs[rank] == at ==> text::contains(
                source,
                output_pointer(name, id, text::dec(rank as nat)),
            )
            &&& 0 <= rank < inputs.len() && inputs[rank] == at ==> text::contains(
                source,
                input_pointer(name, id, text::dec(rank as nat)),
            )
        }),
{
    let outputs = compile::output_positions(kernel);
    let inputs = compile::input_positions(kernel);
    let name = dialect::item_text(kernel.buffers[at as int].item);
    let id = text::dec(kernel.buffers[at as int].id as nat);
    let count = kernel.buffers.len() as nat;
    let pointer = scalar_writer::buffer_pointer(kernel.buffers@, outputs, at);
    let pointers = scalar_writer::buffer_pointers(kernel.buffers@, outputs, count);
    compile::law_buffers_have_their_ranks(kernel, at, rank);
    compile::law_outputs_are_what_is_written(kernel, at as usize);
    lemma_pointers_hold(kernel, outputs, at, count);
    lemma_tile_head_has_its_pieces(kernel, num_inputs, outputs);
    text::law_containment_is_transitive(
        scalar_writer::tile_head(kernel, num_inputs, outputs),
        pointers,
        pointer,
    );
    lemma_tile_head_is_contained(kernel, num_inputs, outputs, units, pointer);
    lemma_output_pointer(name, id, text::dec(rank as nat));
    lemma_input_pointer(name, id, text::dec(rank as nat));
    if 0 <= rank < outputs.len() && outputs[rank] == at {
        assert(outputs.contains(at as usize));
    }
    if 0 <= rank < inputs.len() && inputs[rank] == at {
        assert(inputs.contains(at as usize));
        assert(!outputs.contains(at as usize));
    }
}

pub(crate) proof fn lemma_tile_head_has_its_pieces(kernel: ComputeKernel, num_inputs: nat, outputs: Seq<usize>)
    ensures
        text::contains(
            scalar_writer::tile_head(kernel, num_inputs, outputs),
            scalar_writer::buffer_pointers(kernel.buffers@, outputs, kernel.buffers.len() as nat),
        ),
        text::contains(
            scalar_writer::tile_head(kernel, num_inputs, outputs),
            scalar_writer::snapshots(
                warp::lowering(kernel.body.instructions@).snapshots,
                warp::lowering(kernel.body.instructions@).snapshots.len(),
            ),
        ),
        text::contains(
            scalar_writer::tile_head(kernel, num_inputs, outputs),
            scalar_writer::shared_memories(
                kernel.body.shared_memories@,
                kernel.body.shared_memories.len() as nat,
            ),
        ),
{
    let parts = seq![
        scalar_writer::TILE_LOOP@,
        text::numbered(scalar_writer::WAIT_INPUT@, 0, num_inputs),
        text::given(
            scalar_writer::leaves_kernel(kernel.body.instructions@),
            scalar_writer::TERMINATE_FLAG@,
        ),
        text::numbered(scalar_writer::RESERVE_OUTPUT@, 0, outputs.len()),
        text::numbered(scalar_writer::PREFILL@, 0, outputs.len()),
        text::given(outputs.len() > 0, scalar_writer::READ_BARRIER@),
        scalar_writer::buffer_pointers(kernel.buffers@, outputs, kernel.buffers.len() as nat),
        scalar_writer::shared_memories(
            kernel.body.shared_memories@,
            kernel.body.shared_memories.len() as nat,
        ),
        scalar_writer::snapshots(
            warp::lowering(kernel.body.instructions@).snapshots,
            warp::lowering(kernel.body.instructions@).snapshots.len(),
        ),
    ];
    reveal_with_fuel(text::joined, 10);
    assert(text::joined(parts, 9) == scalar_writer::tile_head(kernel, num_inputs, outputs));
    text::law_joined_parts_are_contained(parts, 9, 6);
    text::law_joined_parts_are_contained(parts, 9, 7);
    text::law_joined_parts_are_contained(parts, 9, 8);
}

proof fn lemma_snapshots_hold(model: Seq<warp::SnapshotModel>, at: int, count: nat)
    requires
        0 <= at < count <= model.len(),
    ensures
        text::contains(
            scalar_writer::snapshots(model, count),
            snapshot_taken(
                dialect::item_text(model[at].item),
                warp::snapshot_name(model[at].buffer),
                model[at].buffer,
            ),
        ),
    decreases count,
{
    let before = scalar_writer::snapshots(model, (count - 1) as nat);
    let snapshot = model[count - 1];
    let last = text::fill(
        scalar_writer::SNAPSHOT@,
        seq![
            dialect::item_text(snapshot.item),
            warp::snapshot_name(snapshot.buffer),
            snapshot.buffer,
        ],
    );
    let none = Seq::<char>::empty();
    let all = before + last;
    if at == count - 1 {
        lemma_snapshot_taken(
            dialect::item_text(snapshot.item),
            warp::snapshot_name(snapshot.buffer),
            snapshot.buffer,
        );
        text::law_parts_are_contained(before, last, none);
        assert(before + last + none =~= all);
    } else {
        lemma_snapshots_hold(model, at, (count - 1) as nat);
        text::law_parts_are_contained(none, before, last);
        assert(none + before + last =~= all);
        text::law_containment_is_transitive(
            all,
            before,
            snapshot_taken(
                dialect::item_text(model[at].item),
                warp::snapshot_name(model[at].buffer),
                model[at].buffer,
            ),
        );
    }
}

/// Every snapshot that a plane operation reads is taken of its own buffer, before the first
/// unit of a tile runs.
pub proof fn law_snapshots_are_taken(
    kernel: ComputeKernel,
    num_inputs: nat,
    outputs: Seq<usize>,
    units: nat,
    at: int,
)
    requires
        0 <= at < warp::lowering(kernel.body.instructions@).snapshots.len(),
    ensures
        ({
            let snapshot = warp::lowering(kernel.body.instructions@).snapshots[at];
            text::contains(
                scalar_writer::tile_head(kernel, num_inputs, outputs),
                snapshot_taken(
                    dialect::item_text(snapshot.item),
                    warp::snapshot_name(snapshot.buffer),
                    snapshot.buffer,
                ),
            )
        }),
{
    let model = warp::lowering(kernel.body.instructions@).snapshots;
    let snapshot = model[at];
    lemma_snapshots_hold(model, at, model.len());
    lemma_tile_head_has_its_pieces(kernel, num_inputs, outputs);
    text::law_containment_is_transitive(
        scalar_writer::tile_head(kernel, num_inputs, outputs),
        scalar_writer::snapshots(model, model.len()),
        snapshot_taken(
            dialect::item_text(snapshot.item),
            warp::snapshot_name(snapshot.buffer),
            snapshot.buffer,
        ),
    );
}

proof fn lemma_copies_hold(
    scalars: Seq<crate::ir::ScalarGroup>,
    offsets: Seq<usize>,
    at: int,
    count: nat,
)
    requires
        0 <= at < count,
        count <= scalars.len(),
        count <= offsets.len(),
    ensures
        text::contains(
            scalar_writer::scalar_copies(scalars, offsets, count),
            scalars_copied(dialect::elem_text(scalars[at].elem), text::dec(offsets[at] as nat)),
        ),
    decreases count,
{
    let before = scalar_writer::scalar_copies(scalars, offsets, (count - 1) as nat);
    let last = text::fill(
        scalar_writer::SCALAR_COPY@,
        seq![
            dialect::elem_text(scalars[count - 1].elem),
            text::dec(offsets[count - 1] as nat),
        ],
    );
    let none = Seq::<char>::empty();
    let all = before + last;
    if at == count - 1 {
        lemma_scalars_copied(dialect::elem_text(scalars[at].elem), text::dec(offsets[at] as nat));
        text::law_parts_are_contained(before, last, none);
        assert(before + last + none =~= all);
    } else {
        lemma_copies_hold(scalars, offsets, at, (count - 1) as nat);
        text::law_parts_are_contained(none, before, last);
        assert(none + before + last =~= all);
        text::law_containment_is_transitive(
            all,
            before,
            scalars_copied(dialect::elem_text(scalars[at].elem), text::dec(offsets[at] as nat)),
        );
    }
}

/// What unpacks the info block finds it behind the addresses of the outputs and the six
/// numbers behind them, and copies each group of scalars and the metadata from their own
/// offsets in it; dynamic metadata are found as many words into the block as their offset
/// has.
pub proof fn law_info_is_unpacked(kernel: ComputeKernel, num_outputs: nat, at: int)
    ensures
        ({
            let block = scalar_writer::info_block(kernel, scalar_writer::info_offset(num_outputs));
            let scalars = kernel.scalars@;
            let offsets = kernel.info.scalar_offsets@;
            let unpacks = kernel.body.info_static_len > 0 || offsets.len() > 0;
            &&& unpacks ==> text::contains(block, info_found(text::dec(num_outputs + 6)))
            &&& 0 <= at < scalars.len() && at < offsets.len() ==> text::contains(
                block,
                scalars_copied(dialect::elem_text(scalars[at].elem), text::dec(offsets[at] as nat)),
            )
            &&& unpacks ==> (kernel.info.sized_meta_offset matches Some(offset) ==> text::contains(
                block,
                metadata_copied(text::dec(offset as nat)),
            ))
            &&& kernel.body.has_dynamic_meta ==> text::contains(
                block,
                metadata_found(
                    text::dec(num_outputs + 6 + (kernel.info.dynamic_meta_offset / 4) as nat),
                    dialect::item_text(kernel.body.address_type),
                ),
            )
        }),
{
    let offset = scalar_writer::info_offset(num_outputs);
    let scalars = kernel.scalars@;
    let offsets = kernel.info.scalar_offsets@;
    let found = dataflow::with_number(scalar_writer::INFO_BLOCK@, offset);
    let count = scalar_writer::smaller(scalars.len(), offsets.len());
    let copies = scalar_writer::scalar_copies(scalars, offsets, count);
    let meta = match kernel.info.sized_meta_offset {
        Some(at) => dataflow::with_number(scalar_writer::STATIC_META_COPY@, at as nat),
        None => ""@,
    };
    let place = text::dec(offset + (kernel.info.dynamic_meta_offset / 4) as nat);
    let name = dialect::item_text(kernel.body.address_type);
    let dynamic = text::given(
        kernel.body.has_dynamic_meta,
        text::fill(scalar_writer::DYNAMIC_META@, seq![place, name]),
    );
    let unpacks = kernel.body.info_static_len > 0 || offsets.len() > 0;
    let block = scalar_writer::info_block(kernel, offset);
    let none = Seq::<char>::empty();
    lemma_info_found(text::dec(offset));
    lemma_metadata_found(place, name);
    if unpacks {
        text::law_parts_are_contained(none, found, copies + meta + dynamic);
        assert(none + found + (copies + meta + dynamic) =~= block);
        text::law_parts_are_contained(found, copies, meta + dynamic);
        assert(found + copies + (meta + dynamic) =~= block);
        text::law_parts_are_contained(found + copies, meta, dynamic);
        assert(found + copies + meta + dynamic =~= block);
        if let Some(at) = kernel.info.sized_meta_offset {
            lemma_metadata_copied(text::dec(at as nat));
        }
        if 0 <= at < scalars.len() && at < offsets.len() {
            lemma_copies_hold(scalars, offsets, at, count);
            text::law_containment_is_transitive(
                block,
                copies,
                scalars_copied(dialect::elem_text(scalars[at].elem), text::dec(offsets[at] as nat)),
            );
        }
    }
    let before = if unpacks {
        found + copies + meta
    } else {
        none
    };
    text::law_parts_are_contained(before, dynamic, none);
    assert(before + dynamic + none =~= block);
}

proof fn lemma_body_is_in_order(rendered: Seq<Seq<char>>, count: nat)
    requires
        count <= rendered.len(),
    ensures
        text::in_order(
            scalar_writer::unit_body(rendered, false, count),
            rendered.take(count as int),
        ),
    decreases count,
{
    if count == 0 {
        assert(rendered.take(0).len() == 0);
    } else {
        let before = scalar_writer::unit_body(rendered, false, (count - 1) as nat);
        let last = rendered[count - 1];
        let none = Seq::<char>::empty();
        lemma_body_is_in_order(rendered, (count - 1) as nat);
        text::law_line_is_in_order(last);
        text::law_order_is_kept_inside("            "@, last, none, seq![last]);
        text::law_order_is_joined(
            before,
            rendered.take(count - 1),
            "            "@ + last + none,
            seq![last],
        );
        assert(before + ("            "@ + last + none) =~= scalar_writer::unit_body(
            rendered,
            false,
            count,
        ));
        assert(rendered.take(count - 1) + seq![last] =~= rendered.take(count as int));
    }
}

/// The units of a kernel that does not leave early run its instructions, all of them and in
/// their order.
pub proof fn law_instructions_run_in_their_order(kernel: ComputeKernel)
    requires
        !scalar_writer::leaves_kernel(kernel.body.instructions@),
    ensures
        text::in_order(
            scalar_writer::unit_loop(kernel),
            warp::rendered_all(kernel.body.instructions@),
        ),
{
    let s = kernel.body.instructions@;
    let rendered = warp::rendered_all(s);
    lemma_body_is_in_order(rendered, s.len());
    assert(rendered.take(s.len() as int) =~= rendered);
    text::law_order_is_kept_inside(
        scalar_writer::UNIT_LOOP@ + scalar_writer::builtin_locals(kernel.indexes)
            + scalar_writer::local_arrays(
            kernel.body.local_arrays@,
            kernel.body.local_arrays.len() as nat,
        ),
        scalar_writer::unit_body(rendered, false, s.len()),
        scalar_writer::UNIT_LOOP_END@,
        rendered,
    );
}

proof fn lemma_loop_starts_with(count: nat, first: nat)
    requires
        first < count,
    ensures
        text::contains(
            reader::page_reader_loop(count, first),
            reader::TILE_LOOP@ + place_reserved(text::dec(first)),
        ),
{
    let one = place_reserved(text::dec(first));
    let reserved = text::numbered(reader::RESERVE@, first, count);
    lemma_numbered_starts_with(reader::RESERVE@, first, count);
    lemma_place_reserved(text::dec(first));
    let none = Seq::<char>::empty();
    let whole = reader::page_reader_loop(count, first);
    let head = reader::TILE_LOOP@ + one;
    let after = whole.skip(head.len() as int);
    assert(reserved.take(one.len() as int) =~= one);
    assert(whole.take(head.len() as int) =~= head);
    text::law_parts_are_contained(none, head, after);
    assert(none + head + after =~= whole);
}

proof fn lemma_numbered_starts_with(template: Seq<char>, first: nat, count: nat)
    requires
        first < count,
    ensures
        ({
            let one = text::fill(template, seq![text::dec(first)]);
            let all = text::numbered(template, first, count);
            &&& one.len() <= all.len()
            &&& all.take(one.len() as int) == one
        }),
    decreases count,
{
    let one = text::fill(template, seq![text::dec(first)]);
    let all = text::numbered(template, first, count);
    reveal_with_fuel(text::numbered, 2);
    if first + 1 < count {
        lemma_numbered_starts_with(template, first, (count - 1) as nat);
        let before = text::numbered(template, first, (count - 1) as nat);
        assert(all.take(one.len() as int) =~= before.take(one.len() as int));
    } else {
        assert(all =~= one);
        assert(all.take(one.len() as int) =~= one);
    }
}

/// A staged first input is read whole before the loop, and the loop starts with the second;
/// without a second there is no loop. What is not staged is read in the loop from the first
/// input on.
pub proof fn law_staged_inputs_are_left_out_of_the_loop(count: nat)
    requires
        count > 0,
    ensures
        text::contains(reader::page_reader(count, true), reader::STAGE_FIRST_INPUT@),
        count == 1 ==> reader::page_reader(count, true) == reader::page_reader_head(count, true)
            + reader::STAGE_FIRST_INPUT@ + "}\n"@,
        count > 1 ==> text::contains(
            reader::page_reader(count, true),
            reader::TILE_LOOP@ + place_reserved(text::dec(1)),
        ),
        text::contains(
            reader::page_reader(count, false),
            reader::TILE_LOOP@ + place_reserved(text::dec(0)),
        ),
{
    let stage = reader::STAGE_FIRST_INPUT@;
    let none = Seq::<char>::empty();
    let staged = reader::page_reader(count, true);
    let head = reader::page_reader_head(count, true);
    text::law_parts_are_contained(head, stage, staged.skip((head + stage).len() as int));
    assert(head + stage + staged.skip((head + stage).len() as int) =~= staged);
    if count == 1 {
        assert(staged =~= head + stage + "}\n"@);
    } else {
        lemma_loop_starts_with(count, 1);
        let body = reader::page_reader_loop(count, 1);
        text::law_parts_are_contained(head + stage, body, "}\n"@);
        text::law_containment_is_transitive(
            staged,
            body,
            reader::TILE_LOOP@ + place_reserved(text::dec(1)),
        );
    }
    lemma_loop_starts_with(count, 0);
    let whole = reader::page_reader(count, false);
    let plain = reader::page_reader_head(count, false);
    let body = reader::page_reader_loop(count, 0);
    text::law_parts_are_contained(plain, body, "}\n"@);
    assert(plain + body + "}\n"@ =~= whole);
    text::law_containment_is_transitive(
        whole,
        body,
        reader::TILE_LOOP@ + place_reserved(text::dec(0)),
    );
}

} // verus!

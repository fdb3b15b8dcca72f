//! The writer kernel of the scalar path: it runs the kernel's instructions unit by
//! unit over the pages that the reader has brought in, and writes the results back.
//!
//! Runtime arguments: the address of each output, the number of tiles, the first
//! tile, the number of units, the three extents of the cube count, and the info
//! block.
use crate::compile::TtKernelAnalysis;
use crate::dataflow;
use crate::dialect;
use crate::dialect::TtMetalDialect;
use crate::ir::{
    ConstArray, CubeIndexFlags, ComputeKernel, Instruction, Item, KernelArg, LocalArray, ScalarGroup,
    SharedMemory,
};
use crate::kind;
use crate::text;
use crate::warp;
use crate::warp::TtWarpSnapshot;
use crate::writer;
use vstd::prelude::*;

verus! {

pub const STRUCT_HEAD: &'static str = "\nstruct alignas($0) $1 {";

pub const STRUCT_FIELD: &'static str = "\n    $0 i_$1;";

pub const STRUCT_END: &'static str = "\n};";

/// The fields of a vector type.
pub open spec fn vector_fields(elem: Seq<char>, count: nat) -> Seq<char>
    decreases count,
{
    if count == 0 {
        Seq::empty()
    } else {
        vector_fields(elem, (count - 1) as nat) + text::fill(
            STRUCT_FIELD@,
            seq![elem, text::dec((count - 1) as nat)],
        )
    }
}

/// The definition of a vector type.
pub open spec fn vector_definition(item: Item) -> Seq<char> {
    text::fill(STRUCT_HEAD@, seq![text::dec(item.bytes()), dialect::item_text(item)])
        + vector_fields(dialect::elem_text(item.elem), item.vectorization as nat) + STRUCT_END@
}

/// Whether the item at `at` is a vector whose name no vector before it has.
pub open spec fn first_of_its_name(items: Seq<Item>, at: int) -> bool {
    items[at].vectorization > 1 && forall|j: int|
        0 <= j < at && (#[trigger] items[j]).vectorization > 1 ==> dialect::item_text(items[j])
            != dialect::item_text(items[at])
}

/// The definitions of the vector types among the first `count` items, each once.
pub open spec fn vector_definitions(items: Seq<Item>, count: nat) -> Seq<char>
    decreases count,
{
    if count == 0 {
        Seq::empty()
    } else {
        vector_definitions(items, (count - 1) as nat) + text::given(
            first_of_its_name(items, count - 1),
            vector_definition(items[count - 1]),
        )
    }
}

fn vector_definition_text(item: Item) -> (result: String)
    requires
        item.wf(),
    ensures
        result@ == vector_definition(item),
{
    let elem = TtMetalDialect::compile_elem(item.elem);
    let mut result = text::fill2(
        STRUCT_HEAD,
        text::dec_text(item.size() as u64).as_str(),
        TtMetalDialect::compile_item(item).as_str(),
    );
    let mut fields = String::new();
    let mut i: usize = 0;
    while i < item.vectorization
        invariant
            i <= item.vectorization,
            elem@ == dialect::elem_text(item.elem),
            fields@ == vector_fields(elem@, i as nat),
        decreases item.vectorization - i,
    {
        fields.append(text::fill2(STRUCT_FIELD, elem, text::dec_text(i as u64).as_str()).as_str());
        i += 1;
    }
    result.append(fields.as_str());
    result.append(STRUCT_END);
    result
}

fn is_first_of_its_name(items: &Vec<Item>, at: usize) -> (first: bool)
    requires
        at < items.len(),
    ensures
        first == first_of_its_name(items@, at as int),
{
    if items[at].vectorization <= 1 {
        return false;
    }
    let name = TtMetalDialect::compile_item(items[at]);
    let mut j: usize = 0;
    while j < at
        invariant
            j <= at < items.len(),
            name@ == dialect::item_text(items[at as int]),
            forall|k: int|
                0 <= k < j && (#[trigger] items[k]).vectorization > 1 ==> dialect::item_text(
                    items[k],
                ) != name@,
        decreases at - j,
    {
        if items[j].vectorization > 1 && TtMetalDialect::compile_item(items[j]) == name {
            assert(dialect::item_text(items@[j as int]) == name@);
            return false;
        }
        j += 1;
    }
    true
}

/// The definitions of the vector types that a kernel uses, each once.
pub fn scalar_writer_vectorized_definitions(items: &Vec<Item>) -> (result: String)
    requires
        forall|i: int| 0 <= i < items.len() ==> (#[trigger] items[i]).wf(),
    ensures
        result@ == vector_definitions(items@, items.len() as nat),
{
    let mut result = String::new();
    let mut i: usize = 0;
    while i < items.len()
        invariant
            i <= items.len(),
            forall|i: int| 0 <= i < items.len() ==> (#[trigger] items[i]).wf(),
            result@ == vector_definitions(items@, i as nat),
        decreases items.len() - i,
    {
        let definition = vector_definition_text(items[i]);
        result.append(
            text::given_text(is_first_of_its_name(items, i), definition.as_str()).as_str(),
        );
        i += 1;
    }
    result
}

pub const SCALAR_COPY: &'static str = "    __builtin_memcpy(info.scalars_$0, runtime_info_bytes + $1, sizeof(info.scalars_$0));\n";

pub const STATIC_META_COPY: &'static str = "    __builtin_memcpy(info.static_meta, runtime_info_bytes + $0, sizeof(info.static_meta));\n";

pub const INFO_BLOCK: &'static str = "    info_st info = {};\n    constexpr uint32_t info_arg_offset_words = $0;\n    const uint8_t* runtime_info_bytes = reinterpret_cast<const uint8_t*>(get_arg_addr(info_arg_offset_words));\n";

pub const DYNAMIC_META: &'static str = "    constexpr uint32_t dynamic_meta_arg_offset_words = $0;\n    const tt_l1_ptr $1* dynamic_meta = reinterpret_cast<tt_l1_ptr const $1*>(get_arg_addr(dynamic_meta_arg_offset_words));\n";

/// The copies of the first `count` groups of scalars out of the info block.
pub open spec fn scalar_copies(scalars: Seq<ScalarGroup>, offsets: Seq<usize>, count: nat) -> Seq<char>
    decreases count,
{
    if count == 0 {
        Seq::empty()
    } else {
        scalar_copies(scalars, offsets, (count - 1) as nat) + text::fill(
            SCALAR_COPY@,
            seq![
                dialect::elem_text(scalars[count - 1].elem),
                text::dec(offsets[count - 1] as nat),
            ],
        )
    }
}

pub open spec fn smaller(a: nat, b: nat) -> nat {
    if a <= b {
        a
    } else {
        b
    }
}

/// What unpacks the info block that starts at runtime argument `offset`.
pub open spec fn info_block(kernel: ComputeKernel, offset: nat) -> Seq<char> {
    text::given(
        kernel.body.info_static_len > 0 || kernel.info.scalar_offsets.len() > 0,
        dataflow::with_number(INFO_BLOCK@, offset) + scalar_copies(
            kernel.scalars@,
            kernel.info.scalar_offsets@,
            smaller(kernel.scalars.len() as nat, kernel.info.scalar_offsets.len() as nat),
        ) + (match kernel.info.sized_meta_offset {
            Some(at) => dataflow::with_number(STATIC_META_COPY@, at as nat),
            None => ""@,
        }),
    ) + text::given(
        kernel.body.has_dynamic_meta,
        text::fill(
            DYNAMIC_META@,
            seq![
                text::dec(offset + (kernel.info.dynamic_meta_offset / 4) as nat),
                dialect::item_text(kernel.body.address_type),
            ],
        ),
    )
}

fn info_block_text(kernel: &ComputeKernel, offset: u32) -> (result: String)
    requires
        offset + kernel.info.dynamic_meta_offset / 4 <= u32::MAX,
    ensures
        result@ == info_block(*kernel, offset as nat),
{
    let mut block = text::fill1(INFO_BLOCK, text::dec_text(offset as u64).as_str());
    let count: usize = if kernel.scalars.len() <= kernel.info.scalar_offsets.len() {
        kernel.scalars.len()
    } else {
        kernel.info.scalar_offsets.len()
    };
    let mut copies = String::new();
    let mut i: usize = 0;
    while i < count
        invariant
            i <= count,
            count <= kernel.scalars.len(),
            count <= kernel.info.scalar_offsets.len(),
            copies@ == scalar_copies(kernel.scalars@, kernel.info.scalar_offsets@, i as nat),
        decreases count - i,
    {
        copies.append(
            text::fill2(
                SCALAR_COPY,
                TtMetalDialect::compile_elem(kernel.scalars[i].elem),
                text::dec_text(kernel.info.scalar_offsets[i] as u64).as_str(),
            ).as_str(),
        );
        i += 1;
    }
    block.append(copies.as_str());
    let meta = match kernel.info.sized_meta_offset {
        Some(at) => text::fill1(STATIC_META_COPY, text::dec_text(at as u64).as_str()),
        None => "".to_owned(),
    };
    block.append(meta.as_str());
    let mut result = text::given_text(
        kernel.body.info_static_len > 0 || kernel.info.scalar_offsets.len() > 0,
        block.as_str(),
    );
    let words: u64 = (kernel.info.dynamic_meta_offset / 4) as u64;
    let dynamic = text::fill2(
        DYNAMIC_META,
        text::dec_text(offset as u64 + words).as_str(),
        TtMetalDialect::compile_item(kernel.body.address_type).as_str(),
    );
    result.append(text::given_text(kernel.body.has_dynamic_meta, dynamic.as_str()).as_str());
    result
}

pub const CONST_ARRAY: &'static str = "    const $0 arrays_$1[$2] = {$3};\n";

/// The first `count` values, a comma behind each.
pub open spec fn listed(values: Seq<String>, count: nat) -> Seq<char>
    decreases count,
{
    if count == 0 {
        Seq::empty()
    } else {
        listed(values, (count - 1) as nat) + values[count - 1]@ + ","@
    }
}

/// The first `count` constant arrays.
pub open spec fn const_arrays(arrays: Seq<ConstArray>, count: nat) -> Seq<char>
    decreases count,
{
    if count == 0 {
        Seq::empty()
    } else {
        let array = arrays[count - 1];
        const_arrays(arrays, (count - 1) as nat) + text::fill(
            CONST_ARRAY@,
            seq![
                dialect::item_text(array.item),
                text::dec(array.index as nat),
                text::dec(array.size as nat),
                listed(array.values@, array.values.len() as nat),
            ],
        )
    }
}

fn listed_text(values: &Vec<String>) -> (result: String)
    ensures
        result@ == listed(values@, values.len() as nat),
{
    let mut result = String::new();
    let mut i: usize = 0;
    while i < values.len()
        invariant
            i <= values.len(),
            result@ == listed(values@, i as nat),
        decreases values.len() - i,
    {
        result.append(values[i].as_str());
        result.append(",");
        i += 1;
    }
    result
}

fn const_arrays_text(arrays: &Vec<ConstArray>) -> (result: String)
    ensures
        result@ == const_arrays(arrays@, arrays.len() as nat),
{
    let mut result = String::new();
    let mut i: usize = 0;
    while i < arrays.len()
        invariant
            i <= arrays.len(),
            result@ == const_arrays(arrays@, i as nat),
        decreases arrays.len() - i,
    {
        let array = &arrays[i];
        result.append(
            text::fill4(
                CONST_ARRAY,
                TtMetalDialect::compile_item(array.item).as_str(),
                text::dec_text(array.index as u64).as_str(),
                text::dec_text(array.size as u64).as_str(),
                listed_text(&array.values).as_str(),
            ).as_str(),
        );
        i += 1;
    }
    result
}

pub const LOCAL_ARRAY: &'static str = "            $0 l_arr_$1[$2];\n";

/// The first `count` local arrays.
pub open spec fn local_arrays(arrays: Seq<LocalArray>, count: nat) -> Seq<char>
    decreases count,
{
    if count == 0 {
        Seq::empty()
    } else {
        let array = arrays[count - 1];
        local_arrays(arrays, (count - 1) as nat) + text::fill(
            LOCAL_ARRAY@,
            seq![
                dialect::item_text(array.item),
                text::dec(array.index as nat),
                text::dec(array.size as nat),
            ],
        )
    }
}

fn emit_local_array_declarations(arrays: &Vec<LocalArray>) -> (result: String)
    ensures
        result@ == local_arrays(arrays@, arrays.len() as nat),
{
    let mut result = String::new();
    let mut i: usize = 0;
    while i < arrays.len()
        invariant
            i <= arrays.len(),
            result@ == local_arrays(arrays@, i as nat),
        decreases arrays.len() - i,
    {
        result.append(
            text::fill3(
                LOCAL_ARRAY,
                TtMetalDialect::compile_item(arrays[i].item).as_str(),
                text::dec_text(arrays[i].index as u64).as_str(),
                text::dec_text(arrays[i].size as u64).as_str(),
            ).as_str(),
        );
        i += 1;
    }
    result
}

/// The first `count` pieces of shared memory.
pub open spec fn shared_memories(memories: Seq<SharedMemory>, count: nat) -> Seq<char>
    decreases count,
{
    if count == 0 {
        Seq::empty()
    } else {
        shared_memories(memories, (count - 1) as nat) + dialect::shared_memory_text(
            memories[count - 1],
            "        "@,
        )
    }
}

fn emit_shared_memory_declarations(memories: &Vec<SharedMemory>) -> (result: String)
    requires
        forall|i: int|
            0 <= i < memories.len() ==> crate::ir::shared_memory_wf(#[trigger] memories[i]),
    ensures
        result@ == shared_memories(memories@, memories.len() as nat),
{
    let mut result = String::new();
    let mut i: usize = 0;
    while i < memories.len()
        invariant
            i <= memories.len(),
            forall|i: int|
                0 <= i < memories.len() ==> crate::ir::shared_memory_wf(#[trigger] memories[i]),
            result@ == shared_memories(memories@, i as nat),
        decreases memories.len() - i,
    {
        result.append(
            dialect::shared_memory_declaration(&memories[i], "        ").as_str(),
        );
        i += 1;
    }
    result
}

pub const OUTPUT_POINTER: &'static str = "        $0* buffer_$1 = reinterpret_cast<$0*>(get_write_ptr(cb_out$2)) - global_tile_idx * tile_units;\n";

pub const INPUT_POINTER: &'static str = "        const $0* buffer_$1 = reinterpret_cast<const $0*>(get_read_ptr(cb_in$2)) - global_tile_idx * tile_units;\n";

/// How many of the first `count` bindings are outputs.
pub open spec fn outputs_before(outputs: Seq<usize>, count: nat) -> nat
    decreases count,
{
    if count == 0 {
        0
    } else {
        outputs_before(outputs, (count - 1) as nat) + (if outputs.contains((count - 1) as usize) {
            1nat
        } else {
            0nat
        })
    }
}

/// The pointer of the binding at `at`: each output has the circular buffer that its
/// rank among the outputs gives, each input the one that its rank among the inputs
/// gives.
pub open spec fn buffer_pointer(buffers: Seq<KernelArg>, outputs: Seq<usize>, at: nat) -> Seq<char> {
    let binding = buffers[at as int];
    let rank = outputs_before(outputs, at);
    let name = dialect::item_text(binding.item);
    if outputs.contains(at as usize) {
        text::fill(OUTPUT_POINTER@, seq![name, text::dec(binding.id as nat), text::dec(rank)])
    } else {
        text::fill(
            INPUT_POINTER@,
            seq![name, text::dec(binding.id as nat), text::dec((at - rank) as nat)],
        )
    }
}

/// The pointers of the first `count` bindings.
pub open spec fn buffer_pointers(buffers: Seq<KernelArg>, outputs: Seq<usize>, count: nat) -> Seq<char>
    decreases count,
{
    if count == 0 {
        Seq::empty()
    } else {
        buffer_pointers(buffers, outputs, (count - 1) as nat) + buffer_pointer(
            buffers,
            outputs,
            (count - 1) as nat,
        )
    }
}

fn contains_index(indices: &Vec<usize>, index: usize) -> (found: bool)
    ensures
        found == indices@.contains(index),
{
    let mut i: usize = 0;
    while i < indices.len()
        invariant
            i <= indices.len(),
            forall|j: int| 0 <= j < i ==> indices[j] != index,
        decreases indices.len() - i,
    {
        if indices[i] == index {
            assert(indices@[i as int] == index);
            return true;
        }
        i += 1;
    }
    false
}

fn buffer_pointers_text(buffers: &Vec<KernelArg>, outputs: &Vec<usize>) -> (result: String)
    ensures
        result@ == buffer_pointers(buffers@, outputs@, buffers.len() as nat),
{
    let mut result = String::new();
    let mut read_index: u64 = 0;
    let mut write_index: u64 = 0;
    let mut i: usize = 0;
    while i < buffers.len()
        invariant
            i <= buffers.len(),
            write_index == outputs_before(outputs@, i as nat),
            read_index + write_index == i,
            result@ == buffer_pointers(buffers@, outputs@, i as nat),
        decreases buffers.len() - i,
    {
        let name = TtMetalDialect::compile_item(buffers[i].item);
        let id = text::dec_text(buffers[i].id as u64);
        if contains_index(outputs, i) {
            result.append(
                text::fill3(
                    OUTPUT_POINTER,
                    name.as_str(),
                    id.as_str(),
                    text::dec_text(write_index).as_str(),
                ).as_str(),
            );
            write_index += 1;
        } else {
            result.append(
                text::fill3(
                    INPUT_POINTER,
                    name.as_str(),
                    id.as_str(),
                    text::dec_text(read_index).as_str(),
                ).as_str(),
            );
            read_index += 1;
        }
        i += 1;
    }
    result
}

pub const FLAT_POSITIONS: &'static str = "            uint32_t cube_units = cube_dim_x * cube_dim_y * cube_dim_z;\n            uint32_t flat_cube_pos = cube_units == 0 ? 0 : (unit_idx / cube_units);\n            uint32_t unit_pos = cube_units == 0 ? 0 : (unit_idx % cube_units);\n";

pub const POSITION_COMPONENTS: &'static str = "            uint32_t cube_pos_x = cube_count_x == 0 ? 0 : (flat_cube_pos % cube_count_x);\n            uint32_t cube_pos_y = (cube_count_x == 0 || cube_count_y == 0) ? 0 : ((flat_cube_pos / cube_count_x) % cube_count_y);\n            uint32_t cube_pos_z = (cube_count_x == 0 || cube_count_y == 0) ? 0 : (flat_cube_pos / (cube_count_x * cube_count_y));\n            uint32_t unit_pos_x = cube_dim_x == 0 ? 0 : (unit_pos % cube_dim_x);\n            uint32_t unit_pos_y = (cube_dim_x == 0 || cube_dim_y == 0) ? 0 : ((unit_pos / cube_dim_x) % cube_dim_y);\n            uint32_t unit_pos_z = (cube_dim_x == 0 || cube_dim_y == 0) ? 0 : (unit_pos / (cube_dim_x * cube_dim_y));\n";

pub const ABSOLUTE_POS: &'static str = "            uint32_t absolute_pos = unit_idx;\n";

pub const CUBE_DIM: &'static str = "            uint32_t cube_dim = cube_dim_x * cube_dim_y * cube_dim_z;\n";

pub const CUBE_COUNT: &'static str = "            uint32_t cube_count = cube_count_x * cube_count_y * cube_count_z;\n";

pub const CUBE_POS: &'static str = "            uint32_t cube_pos = cube_pos_x;\n";

pub const PLANE_DIM: &'static str = "            uint32_t plane_dim = 32;\n";

pub const PLANE: &'static str = "            uint32_t unit_pos_plane = unit_pos % 32;\n            uint32_t tt_plane_base = i - unit_pos_plane;\n            uint32_t tt_plane_remaining = tile_unit_count > tt_plane_base ? (tile_unit_count - tt_plane_base) : 0;\n";

pub const PLANE_DIM_CHECKED: &'static str = "            uint32_t plane_dim_checked = tt_plane_remaining < 32 ? tt_plane_remaining : 32;\n";

pub const PLANE_POS: &'static str = "            uint32_t plane_pos = unit_pos_plane;\n";

/// Whether the flattened positions are needed.
pub open spec fn needs_positions(indexes: CubeIndexFlags) -> bool {
    indexes.cube_pos || indexes.cube_pos_tuple || indexes.unit_pos_tuple || indexes.unit_pos
        || indexes.absolute_pos || needs_plane(indexes)
}

/// Whether the position inside the plane is needed.
pub open spec fn needs_plane(indexes: CubeIndexFlags) -> bool {
    indexes.unit_pos_plane || indexes.plane_dim_checked || indexes.plane_pos
}

/// The built-ins that the kernel reads.
pub open spec fn builtin_locals(indexes: CubeIndexFlags) -> Seq<char> {
    text::given(needs_positions(indexes), FLAT_POSITIONS@) + text::given(
        indexes.cube_pos || indexes.cube_pos_tuple || indexes.unit_pos_tuple,
        POSITION_COMPONENTS@,
    ) + text::given(indexes.absolute_pos, ABSOLUTE_POS@) + text::given(
        indexes.cube_dim,
        CUBE_DIM@,
    ) + text::given(indexes.cube_count, CUBE_COUNT@) + text::given(indexes.cube_pos, CUBE_POS@)
        + text::given(indexes.plane_dim, PLANE_DIM@) + text::given(needs_plane(indexes), PLANE@)
        + text::given(indexes.plane_dim_checked, PLANE_DIM_CHECKED@) + text::given(
        indexes.plane_pos,
        PLANE_POS@,
    )
}

/// Emit the built-ins that the kernel reads.
pub fn emit_builtin_locals(indexes: &CubeIndexFlags) -> (result: String)
    ensures
        result@ == builtin_locals(*indexes),
{
    let needs_components = indexes.cube_pos || indexes.cube_pos_tuple || indexes.unit_pos_tuple;
    let needs_plane = indexes.unit_pos_plane || indexes.plane_dim_checked || indexes.plane_pos;
    let needs_positions = needs_components || indexes.unit_pos || indexes.absolute_pos
        || needs_plane;
    let mut result = text::given_text(needs_positions, FLAT_POSITIONS);
    result.append(text::given_text(needs_components, POSITION_COMPONENTS).as_str());
    result.append(text::given_text(indexes.absolute_pos, ABSOLUTE_POS).as_str());
    result.append(text::given_text(indexes.cube_dim, CUBE_DIM).as_str());
    result.append(text::given_text(indexes.cube_count, CUBE_COUNT).as_str());
    result.append(text::given_text(indexes.cube_pos, CUBE_POS).as_str());
    result.append(text::given_text(indexes.plane_dim, PLANE_DIM).as_str());
    result.append(text::given_text(needs_plane, PLANE).as_str());
    result.append(text::given_text(indexes.plane_dim_checked, PLANE_DIM_CHECKED).as_str());
    result.append(text::given_text(indexes.plane_pos, PLANE_POS).as_str());
    result
}

pub const SNAPSHOT: &'static str = "        $0 $1[tile_units];\n        for (uint32_t tt_snapshot_i = 0; tt_snapshot_i < tile_unit_count; ++tt_snapshot_i) {\n            $1[tt_snapshot_i] = $2[tt_snapshot_i];\n        }\n";

pub const RETURN: &'static str = "return;";

pub const RETURN_REPLACEMENT: &'static str = "terminate_kernel = true; goto tt_writer_finish_tile;";

/// The first `count` snapshots.
pub open spec fn snapshots(model: Seq<warp::SnapshotModel>, count: nat) -> Seq<char>
    decreases count,
{
    if count == 0 {
        Seq::empty()
    } else {
        let snapshot = model[count - 1];
        snapshots(model, (count - 1) as nat) + text::fill(
            SNAPSHOT@,
            seq![
                dialect::item_text(snapshot.item),
                warp::snapshot_name(snapshot.buffer),
                snapshot.buffer,
            ],
        )
    }
}

fn snapshots_text(state: &warp::TtWarpLoweringState) -> (result: String)
    requires
        state.wf(),
    ensures
        result@ == snapshots(state.model().snapshots, state.model().snapshots.len()),
{
    let mut result = String::new();
    let mut i: usize = 0;
    while i < state.snapshots.len()
        invariant
            i <= state.snapshots.len(),
            state.wf(),
            state.model().snapshots.len() == state.snapshots.len(),
            result@ == snapshots(state.model().snapshots, i as nat),
        decreases state.snapshots.len() - i,
    {
        let snapshot: &TtWarpSnapshot = &state.snapshots[i];
        assert(state.model().snapshots[i as int] == (warp::SnapshotModel {
            buffer: snapshot.buffer_name@,
            item: snapshot.item,
        }));
        result.append(
            text::fill3(
                SNAPSHOT,
                TtMetalDialect::compile_item(snapshot.item).as_str(),
                snapshot.snapshot_name.as_str(),
                snapshot.buffer_name.as_str(),
            ).as_str(),
        );
        i += 1;
    }
    result
}

/// Whether some instruction leaves the kernel.
pub open spec fn leaves_kernel(s: Seq<Instruction>) -> bool {
    exists|i: int| 0 <= i < s.len() && text::contains((#[trigger] s[i]).text@, RETURN@)
}

fn has_terminate_return(instructions: &Vec<Instruction>) -> (leaves: bool)
    ensures
        leaves == leaves_kernel(instructions@),
{
    let mut i: usize = 0;
    while i < instructions.len()
        invariant
            i <= instructions.len(),
            forall|j: int| 0 <= j < i ==> !text::contains((#[trigger] instructions[j]).text@, RETURN@),
        decreases instructions.len() - i,
    {
        if text::contains_text(instructions[i].text.as_str(), RETURN) {
            assert(text::contains(instructions@[i as int].text@, RETURN@));
            return true;
        }
        i += 1;
    }
    false
}

/// The first `count` instructions, indented. Where the kernel may leave early, each
/// return becomes a jump behind the unit loop, so that the tile is still handed over.
pub open spec fn unit_body(rendered: Seq<Seq<char>>, leaves: bool, count: nat) -> Seq<char>
    decreases count,
{
    if count == 0 {
        Seq::empty()
    } else {
        unit_body(rendered, leaves, (count - 1) as nat) + "            "@ + (if leaves {
            text::replaced(rendered[count - 1], RETURN@, RETURN_REPLACEMENT@)
        } else {
            rendered[count - 1]
        })
    }
}

fn unit_body_text(rendered: &Vec<String>, leaves: bool) -> (result: String)
    ensures
        result@ == unit_body(warp::texts(rendered@), leaves, rendered.len() as nat),
{
    let mut result = String::new();
    let mut i: usize = 0;
    while i < rendered.len()
        invariant
            i <= rendered.len(),
            result@ == unit_body(warp::texts(rendered@), leaves, i as nat),
        decreases rendered.len() - i,
    {
        assert(warp::texts(rendered@)[i as int] == rendered[i as int]@);
        result.append("            ");
        if leaves {
            result.append(
                text::replaced_text(rendered[i].as_str(), RETURN, RETURN_REPLACEMENT).as_str(),
            );
        } else {
            result.append(rendered[i].as_str());
        }
        i += 1;
    }
    result
}

pub const HEADERS: &'static str = "#include <cstdint>\n#include <algorithm>\n\nusing std::max;\nusing std::min;\n\n";

pub const ARGUMENTS: &'static str = "    uint32_t num_tiles = get_arg_val<uint32_t>($0);\n    uint32_t start_tile = get_arg_val<uint32_t>($1);\n    uint32_t num_units = get_arg_val<uint32_t>($2);\n    uint32_t cube_count_x = get_arg_val<uint32_t>($3);\n    uint32_t cube_count_y = get_arg_val<uint32_t>($4);\n    uint32_t cube_count_z = get_arg_val<uint32_t>($5);\n";

pub const CUBE: &'static str = "    constexpr uint32_t tile_units = $0;\n    constexpr uint32_t cube_dim_x = $1;\n    constexpr uint32_t cube_dim_y = $2;\n    constexpr uint32_t cube_dim_z = $3;\n    uint32_t cube_units = cube_dim_x * cube_dim_y * cube_dim_z;\n";

pub const TILE_LOOP: &'static str = "\n    for (uint32_t tile_idx = 0; tile_idx < num_tiles; ++tile_idx) {\n        uint32_t global_tile_idx = start_tile + tile_idx;\n        uint32_t tile_start_unit = global_tile_idx * tile_units;\n        uint32_t tile_unit_count = num_units > tile_start_unit ? std::min(tile_units, num_units - tile_start_unit) : 0;\n";

pub const WAIT_INPUT: &'static str = "        cb_wait_front(cb_in$0, 1);\n";

pub const TERMINATE_FLAG: &'static str = "    bool terminate_kernel = false;\n";

pub const RESERVE_OUTPUT: &'static str = "        cb_reserve_back(cb_out$0, 1);\n";

pub const PREFILL: &'static str = "        uint32_t l1_addr_out$0_prefill = get_write_ptr(cb_out$0);\n        uint32_t page_bytes_out$0_prefill = get_tile_size(cb_out$0);\n        uint64_t dst_noc_addr_out$0_prefill = c$0.get_noc_addr(global_tile_idx);\n        noc_async_read(dst_noc_addr_out$0_prefill, l1_addr_out$0_prefill, page_bytes_out$0_prefill);\n";

pub const READ_BARRIER: &'static str = "        noc_async_read_barrier();\n";

pub const UNIT_LOOP: &'static str = "\n        for (uint32_t i = 0; i < tile_units; ++i) {\n            uint32_t unit_idx = global_tile_idx * tile_units + i;\n            if (unit_idx >= num_units) break;\n";

pub const UNIT_LOOP_END: &'static str = "        }\n";

pub const FINISH_LABEL: &'static str = "tt_writer_finish_tile:\n";

pub const WRITE_PAGE: &'static str = "        cb_push_back(cb_out$0, 1);\n        cb_wait_front(cb_out$0, 1);\n        uint32_t l1_addr_out$0 = get_read_ptr(cb_out$0);\n        uint32_t page_bytes_out$0 = get_tile_size(cb_out$0);\n        uint64_t dst_noc_addr_out$0 = c$0.get_noc_addr(global_tile_idx);\n        noc_async_write(l1_addr_out$0, dst_noc_addr_out$0, page_bytes_out$0);\n";

pub const POP_INPUT: &'static str = "        cb_pop_front(cb_in$0, 1);\n";

pub const TERMINATE: &'static str = "        if (terminate_kernel) break;\n";

/// The place of the info block among the runtime arguments.
pub open spec fn info_offset(num_outputs: nat) -> nat {
    num_outputs + 6
}

/// How many units share a tile.
pub open spec fn tile_units(tile_size_bytes: nat, unit_size: nat) -> nat {
    if tile_size_bytes / unit_size == 0 {
        1
    } else {
        tile_size_bytes / unit_size
    }
}

/// How many units share a tile.
pub fn count_tile_units(tile_size_bytes: u32, unit_size: usize) -> (units: u32)
    requires
        unit_size > 0,
    ensures
        units == tile_units(tile_size_bytes as nat, unit_size as nat),
        units > 0,
{
    let units: u64 = tile_size_bytes as u64 / unit_size as u64;
    proof {
        vstd::arithmetic::div_mod::lemma_div_is_ordered_by_denominator(
            tile_size_bytes as int,
            1,
            unit_size as int,
        );
        assert(tile_size_bytes as int / 1 == tile_size_bytes);
    }
    if units == 0 {
        1
    } else {
        units as u32
    }
}

/// The kernel up to its constants.
pub open spec fn writer_head(kernel: ComputeKernel, num_inputs: nat, num_outputs: nat, units: nat) -> Seq<char> {
    HEADERS@ + vector_definitions(kernel.items@, kernel.items.len() as nat)
        + kernel.info.definition@ + "\nvoid kernel_main() {\n"@ + text::numbered(
        writer::TARGET_ADDRESS@,
        0,
        num_outputs,
    ) + text::fill(
        ARGUMENTS@,
        seq![
            text::dec(num_outputs),
            text::dec(num_outputs + 1),
            text::dec(num_outputs + 2),
            text::dec(num_outputs + 3),
            text::dec(num_outputs + 4),
            text::dec(num_outputs + 5),
        ],
    ) + text::fill(
        CUBE@,
        seq![
            text::dec(units),
            text::dec(kernel.cube_dim.x as nat),
            text::dec(kernel.cube_dim.y as nat),
            text::dec(kernel.cube_dim.z as nat),
        ],
    ) + text::numbered(dataflow::INPUT_BUFFER@, 0, num_inputs) + dataflow::output_buffers(
        num_outputs,
    ) + "\n"@ + dataflow::accessors("c"@, "dst"@, num_outputs) + info_block(
        kernel,
        info_offset(num_outputs),
    ) + const_arrays(kernel.body.const_arrays@, kernel.body.const_arrays.len() as nat)
}

/// A tile up to its units: the inputs have arrived and the outputs hold what is in
/// DRAM, so that units which write nothing change nothing.
pub open spec fn tile_head(kernel: ComputeKernel, num_inputs: nat, outputs: Seq<usize>) -> Seq<char> {
    let num_outputs = outputs.len();
    TILE_LOOP@ + text::numbered(WAIT_INPUT@, 0, num_inputs) + text::given(
        leaves_kernel(kernel.body.instructions@),
        TERMINATE_FLAG@,
    ) + text::numbered(RESERVE_OUTPUT@, 0, num_outputs) + text::numbered(PREFILL@, 0, num_outputs)
        + text::given(num_outputs > 0, READ_BARRIER@) + buffer_pointers(
        kernel.buffers@,
        outputs,
        kernel.buffers.len() as nat,
    ) + shared_memories(kernel.body.shared_memories@, kernel.body.shared_memories.len() as nat)
        + snapshots(
        warp::lowering(kernel.body.instructions@).snapshots,
        warp::lowering(kernel.body.instructions@).snapshots.len(),
    )
}

/// The loop over the units of a tile.
pub open spec fn unit_loop(kernel: ComputeKernel) -> Seq<char> {
    let s = kernel.body.instructions@;
    UNIT_LOOP@ + builtin_locals(kernel.indexes) + local_arrays(
        kernel.body.local_arrays@,
        kernel.body.local_arrays.len() as nat,
    ) + unit_body(warp::rendered_all(s), leaves_kernel(s), s.len()) + UNIT_LOOP_END@
}

/// The end of a tile: its outputs are written back and all buffers are freed.
pub open spec fn tile_end(leaves: bool, num_inputs: nat, num_outputs: nat) -> Seq<char> {
    text::given(leaves, FINISH_LABEL@) + text::numbered(WRITE_PAGE@, 0, num_outputs)
        + writer::WRITE_BARRIER@ + text::numbered(writer::POP@, 0, num_outputs) + text::numbered(
        POP_INPUT@,
        0,
        num_inputs,
    ) + text::given(leaves, TERMINATE@) + "    }\n}\n"@
}

/// The scalar writer of a kernel.
pub open spec fn scalar_writer(kernel: ComputeKernel, num_inputs: nat, outputs: Seq<usize>, units: nat) -> Seq<char> {
    writer_head(kernel, num_inputs, outputs.len(), units) + tile_head(kernel, num_inputs, outputs)
        + unit_loop(kernel) + tile_end(
        leaves_kernel(kernel.body.instructions@),
        num_inputs,
        outputs.len(),
    )
}

fn writer_head_text(kernel: &ComputeKernel, num_inputs: u32, num_outputs: u32, units: u32) -> (result: String)
    requires
        kernel.wf(),
        num_outputs <= kernel.buffers.len(),
    ensures
        result@ == writer_head(*kernel, num_inputs as nat, num_outputs as nat, units as nat),
{
    let mut result = HEADERS.to_owned();
    result.append(scalar_writer_vectorized_definitions(&kernel.items).as_str());
    result.append(kernel.info.definition.as_str());
    result.append("\nvoid kernel_main() {\n");
    result.append(text::numbered_text(writer::TARGET_ADDRESS, 0, num_outputs).as_str());
    result.append(
        text::fill6(
            ARGUMENTS,
            text::dec_text(num_outputs as u64).as_str(),
            text::dec_text(num_outputs as u64 + 1).as_str(),
            text::dec_text(num_outputs as u64 + 2).as_str(),
            text::dec_text(num_outputs as u64 + 3).as_str(),
            text::dec_text(num_outputs as u64 + 4).as_str(),
            text::dec_text(num_outputs as u64 + 5).as_str(),
        ).as_str(),
    );
    result.append(
        text::fill4(
            CUBE,
            text::dec_text(units as u64).as_str(),
            text::dec_text(kernel.cube_dim.x as u64).as_str(),
            text::dec_text(kernel.cube_dim.y as u64).as_str(),
            text::dec_text(kernel.cube_dim.z as u64).as_str(),
        ).as_str(),
    );
    result.append(text::numbered_text(dataflow::INPUT_BUFFER, 0, num_inputs).as_str());
    result.append(dataflow::output_buffers_text(num_outputs).as_str());
    result.append("\n");
    result.append(dataflow::accessors_text("c", "dst", num_outputs).as_str());
    result.append(info_block_text(kernel, num_outputs + 6).as_str());
    result.append(const_arrays_text(&kernel.body.const_arrays).as_str());
    result
}

fn tile_head_text(
    kernel: &ComputeKernel,
    num_inputs: u32,
    outputs: &Vec<usize>,
    leaves: bool,
    state: &warp::TtWarpLoweringState,
) -> (result: String)
    requires
        kernel.wf(),
        outputs.len() <= kernel.buffers.len(),
        leaves == leaves_kernel(kernel.body.instructions@),
        state.wf(),
        state.model() == warp::lowering(kernel.body.instructions@),
    ensures
        result@ == tile_head(*kernel, num_inputs as nat, outputs@),
{
    let num_outputs: u32 = outputs.len() as u32;
    let mut result = TILE_LOOP.to_owned();
    result.append(text::numbered_text(WAIT_INPUT, 0, num_inputs).as_str());
    result.append(text::given_text(leaves, TERMINATE_FLAG).as_str());
    result.append(text::numbered_text(RESERVE_OUTPUT, 0, num_outputs).as_str());
    result.append(text::numbered_text(PREFILL, 0, num_outputs).as_str());
    result.append(text::given_text(num_outputs > 0, READ_BARRIER).as_str());
    result.append(buffer_pointers_text(&kernel.buffers, outputs).as_str());
    result.append(emit_shared_memory_declarations(&kernel.body.shared_memories).as_str());
    result.append(snapshots_text(state).as_str());
    result
}

/// Generate the source of the scalar writer of a kernel.
pub fn generate_scalar_writer_source(kernel: &ComputeKernel, analysis: &TtKernelAnalysis) -> (source: String)
    requires
        kernel.wf(),
        kind::barriers_supported(kernel.body.instructions@),
        analysis.unit_item.wf(),
        analysis.unit_item.bytes() > 0,
        analysis.num_outputs == analysis.output_binding_indices.len(),
        analysis.num_outputs <= kernel.buffers.len(),
    ensures
        source@ == scalar_writer(
            *kernel,
            analysis.num_inputs as nat,
            analysis.output_binding_indices@,
            tile_units(analysis.tile_size_bytes as nat, analysis.unit_item.bytes()),
        ),
{
    let units: u32 = count_tile_units(analysis.tile_size_bytes, analysis.unit_item.size());
    let leaves = has_terminate_return(&kernel.body.instructions);
    let (state, rendered) = warp::analyze_tt_warp_lowering(&kernel.body.instructions);
    let mut source = writer_head_text(kernel, analysis.num_inputs, analysis.num_outputs, units);
    source.append(
        tile_head_text(
            kernel,
            analysis.num_inputs,
            &analysis.output_binding_indices,
            leaves,
            &state,
        ).as_str(),
    );
    let mut units_text = UNIT_LOOP.to_owned();
    units_text.append(emit_builtin_locals(&kernel.indexes).as_str());
    units_text.append(emit_local_array_declarations(&kernel.body.local_arrays).as_str());
    assert(rendered.len() == kernel.body.instructions.len()) by {
        assert(warp::texts(rendered@).len() == rendered.len());
    }
    units_text.append(unit_body_text(&rendered, leaves).as_str());
    units_text.append(UNIT_LOOP_END);
    source.append(units_text.as_str());
    let mut end = text::given_text(leaves, FINISH_LABEL);
    end.append(text::numbered_text(WRITE_PAGE, 0, analysis.num_outputs).as_str());
    end.append(writer::WRITE_BARRIER);
    end.append(text::numbered_text(writer::POP, 0, analysis.num_outputs).as_str());
    end.append(text::numbered_text(POP_INPUT, 0, analysis.num_inputs).as_str());
    end.append(text::given_text(leaves, TERMINATE).as_str());
    end.append("    }\n}\n");
    source.append(end.as_str());
    source
}

} // verus!

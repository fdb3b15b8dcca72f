//! What the generated sources declare: vectors, arrays and shared memory, each with the type,
//! the number and the extent that the kernel gives it; and how they copy and leave.
use crate::connections;
use crate::dialect;
use crate::ir::{BarrierOp, ComputeKernel, ConstArray, Item, LocalArray, SharedMemory};
use crate::positions;
use crate::scalar_writer;
use crate::text;
use crate::warp;
use crate::writer;
use vstd::prelude::*;

verus! {

/// A vector type, aligned to its size.
pub open spec fn vector_opened(size: Seq<char>, name: Seq<char>) -> Seq<char> {
    "\nstruct alignas("@ + size + ") "@ + name + " {"@
}

#[verifier::spinoff_prover]
#[verifier::rlimit(60)]
proof fn lemma_vector_opened(size: Seq<char>, name: Seq<char>)
    ensures
        text::fill(scalar_writer::STRUCT_HEAD@, seq![size, name]) == vector_opened(size, name),
{
    reveal_strlit("\nstruct alignas(");
    reveal_strlit("\nstruct alignas($0) $1 {");
    reveal_strlit(" {");
    reveal_strlit(") ");
    let segments = seq!["\nstruct alignas("@, ") "@, " {"@];
    let indices = seq![0nat, 1nat];
    let args = seq![size, name];
    reveal_with_fuel(text::skeleton, 3);
    reveal_with_fuel(text::fleshed, 3);
    assert(scalar_writer::STRUCT_HEAD@ =~= text::skeleton(segments, indices, 0));
    text::law_segments_are_kept(segments, indices, args, 0);
    assert(text::fill(scalar_writer::STRUCT_HEAD@, args) =~= vector_opened(size, name));
}

/// A field of a vector type.
pub open spec fn vector_field(elem: Seq<char>, at: Seq<char>) -> Seq<char> {
    "\n    "@ + elem + " i_"@ + at + ";"@
}

#[verifier::spinoff_prover]
#[verifier::rlimit(60)]
proof fn lemma_vector_field(elem: Seq<char>, at: Seq<char>)
    ensures
        text::fill(scalar_writer::STRUCT_FIELD@, seq![elem, at]) == vector_field(elem, at),
{
    reveal_strlit("\n    ");
    reveal_strlit("\n    $0 i_$1;");
    reveal_strlit(" i_");
    reveal_strlit(";");
    let segments = seq!["\n    "@, " i_"@, ";"@];
    let indices = seq![0nat, 1nat];
    let args = seq![elem, at];
    reveal_with_fuel(text::skeleton, 3);
    reveal_with_fuel(text::fleshed, 3);
    assert(scalar_writer::STRUCT_FIELD@ =~= text::skeleton(segments, indices, 0));
    text::law_segments_are_kept(segments, indices, args, 0);
    assert(text::fill(scalar_writer::STRUCT_FIELD@, args) =~= vector_field(elem, at));
}

/// An array of constants.
pub open spec fn constants_declared(name: Seq<char>, index: Seq<char>, size: Seq<char>, values: Seq<char>) -> Seq<char> {
    "    const "@ + name + " arrays_"@ + index + "["@ + size + "] = {"@ + values + "};\n"@
}

#[verifier::spinoff_prover]
#[verifier::rlimit(60)]
proof fn lemma_constants_declared(name: Seq<char>, index: Seq<char>, size: Seq<char>, values: Seq<char>)
    ensures
        text::fill(scalar_writer::CONST_ARRAY@, seq![name, index, size, values]) == constants_declared(name, index, size, values),
{
    reveal_strlit("    const ");
    reveal_strlit("    const $0 arrays_$1[$2] = {$3};\n");
    reveal_strlit(" arrays_");
    reveal_strlit("[");
    reveal_strlit("] = {");
    reveal_strlit("};\n");
    let segments = seq!["    const "@, " arrays_"@, "["@, "] = {"@, "};\n"@];
    let indices = seq![0nat, 1nat, 2nat, 3nat];
    let args = seq![name, index, size, values];
    reveal_with_fuel(text::skeleton, 5);
    reveal_with_fuel(text::fleshed, 5);
    assert(scalar_writer::CONST_ARRAY@ =~= text::skeleton(segments, indices, 0));
    text::law_segments_are_kept(segments, indices, args, 0);
    assert(text::fill(scalar_writer::CONST_ARRAY@, args) =~= constants_declared(name, index, size, values));
}

/// An array of a unit.
pub open spec fn local_declared(name: Seq<char>, index: Seq<char>, size: Seq<char>) -> Seq<char> {
    "            "@ + name + " l_arr_"@ + index + "["@ + size + "];\n"@
}

#[verifier::spinoff_prover]
#[verifier::rlimit(60)]
proof fn lemma_local_declared(name: Seq<char>, index: Seq<char>, size: Seq<char>)
    ensures
        text::fill(scalar_writer::LOCAL_ARRAY@, seq![name, index, size]) == local_declared(name, index, size),
{
    reveal_strlit("            ");
    reveal_strlit("            $0 l_arr_$1[$2];\n");
    reveal_strlit(" l_arr_");
    reveal_strlit("[");
    reveal_strlit("];\n");
    let segments = seq!["            "@, " l_arr_"@, "["@, "];\n"@];
    let indices = seq![0nat, 1nat, 2nat];
    let args = seq![name, index, size];
    reveal_with_fuel(text::skeleton, 4);
    reveal_with_fuel(text::fleshed, 4);
    assert(scalar_writer::LOCAL_ARRAY@ =~= text::skeleton(segments, indices, 0));
    text::law_segments_are_kept(segments, indices, args, 0);
    assert(text::fill(scalar_writer::LOCAL_ARRAY@, args) =~= local_declared(name, index, size));
}

/// An array that units share.
pub open spec fn shared_array(indent: Seq<char>, length: Seq<char>, size: Seq<char>, align: Seq<char>, name: Seq<char>, index: Seq<char>) -> Seq<char> {
    indent + "// TT shared scratch array size: "@ + length + ", "@ + size + " bytes\n"@ + indent + "alignas("@ + align + ") "@ + name + " shared_memory_"@ + index + "["@ + length + "];\n"@
}

#[verifier::spinoff_prover]
#[verifier::rlimit(60)]
proof fn lemma_shared_array(indent: Seq<char>, length: Seq<char>, size: Seq<char>, align: Seq<char>, name: Seq<char>, index: Seq<char>)
    ensures
        text::fill(dialect::SHARED_ARRAY@, seq![indent, length, size, align, name, index]) == shared_array(indent, length, size, align, name, index),
{
    reveal_strlit(" bytes\n");
    reveal_strlit(" shared_memory_");
    reveal_strlit("$0// TT shared scratch array size: $1, $2 bytes\n$0alignas($3) $4 shared_memory_$5[$1];\n");
    reveal_strlit(") ");
    reveal_strlit(", ");
    reveal_strlit("// TT shared scratch array size: ");
    reveal_strlit("[");
    reveal_strlit("];\n");
    reveal_strlit("alignas(");
    reveal_strlit("");
    let segments = seq![""@, "// TT shared scratch array size: "@, ", "@, " bytes\n"@, "alignas("@, ") "@, " shared_memory_"@, "["@, "];\n"@];
    let indices = seq![0nat, 1nat, 2nat, 0nat, 3nat, 4nat, 5nat, 1nat];
    let args = seq![indent, length, size, align, name, index];
    reveal_with_fuel(text::skeleton, 9);
    reveal_with_fuel(text::fleshed, 9);
    assert(dialect::SHARED_ARRAY@ =~= text::skeleton(segments, indices, 0));
    text::law_segments_are_kept(segments, indices, args, 0);
    assert(text::fill(dialect::SHARED_ARRAY@, args) =~= shared_array(indent, length, size, align, name, index));
}

/// A value that units share.
pub open spec fn shared_value(indent: Seq<char>, size: Seq<char>, align: Seq<char>, name: Seq<char>, index: Seq<char>) -> Seq<char> {
    indent + "// TT shared scratch value size: "@ + size + " bytes\n"@ + indent + "alignas("@ + align + ") "@ + name + " shared_memory_"@ + index + ";\n"@
}

#[verifier::spinoff_prover]
#[verifier::rlimit(60)]
proof fn lemma_shared_value(indent: Seq<char>, size: Seq<char>, align: Seq<char>, name: Seq<char>, index: Seq<char>)
    ensures
        text::fill(dialect::SHARED_VALUE@, seq![indent, size, align, name, index]) == shared_value(indent, size, align, name, index),
{
    reveal_strlit(" bytes\n");
    reveal_strlit(" shared_memory_");
    reveal_strlit("$0// TT shared scratch value size: $1 bytes\n$0alignas($2) $3 shared_memory_$4;\n");
    reveal_strlit(") ");
    reveal_strlit("// TT shared scratch value size: ");
    reveal_strlit(";\n");
    reveal_strlit("alignas(");
    reveal_strlit("");
    let segments = seq![""@, "// TT shared scratch value size: "@, " bytes\n"@, "alignas("@, ") "@, " shared_memory_"@, ";\n"@];
    let indices = seq![0nat, 1nat, 0nat, 2nat, 3nat, 4nat];
    let args = seq![indent, size, align, name, index];
    reveal_with_fuel(text::skeleton, 7);
    reveal_with_fuel(text::fleshed, 7);
    assert(dialect::SHARED_VALUE@ =~= text::skeleton(segments, indices, 0));
    text::law_segments_are_kept(segments, indices, args, 0);
    assert(text::fill(dialect::SHARED_VALUE@, args) =~= shared_value(indent, size, align, name, index));
}

/// A loop that copies elements, each to its place.
pub open spec fn copied(length: Seq<char>, destination: Seq<char>, to: Seq<char>, source: Seq<char>, source_start: Seq<char>) -> Seq<char> {
    "for (uint32_t tt_barrier_copy_i = 0; tt_barrier_copy_i < "@ + length + "; ++tt_barrier_copy_i) {\n                "@ + destination + "["@ + to + " + tt_barrier_copy_i] = "@ + source + "["@ + source_start + " + tt_barrier_copy_i];\n            }\n"@
}

#[verifier::spinoff_prover]
#[verifier::rlimit(60)]
proof fn lemma_copied(length: Seq<char>, destination: Seq<char>, to: Seq<char>, source: Seq<char>, source_start: Seq<char>)
    ensures
        text::fill(warp::BARRIER_COPY@, seq![length, destination, to, source, source_start]) == copied(length, destination, to, source, source_start),
{
    reveal_strlit(" + tt_barrier_copy_i] = ");
    reveal_strlit(" + tt_barrier_copy_i];\n            }\n");
    reveal_strlit("; ++tt_barrier_copy_i) {\n                ");
    reveal_strlit("[");
    reveal_strlit("for (uint32_t tt_barrier_copy_i = 0; tt_barrier_copy_i < ");
    reveal_strlit("for (uint32_t tt_barrier_copy_i = 0; tt_barrier_copy_i < $0; ++tt_barrier_copy_i) {\n                $1[$2 + tt_barrier_copy_i] = $3[$4 + tt_barrier_copy_i];\n            }\n");
    let segments = seq!["for (uint32_t tt_barrier_copy_i = 0; tt_barrier_copy_i < "@, "; ++tt_barrier_copy_i) {\n                "@, "["@, " + tt_barrier_copy_i] = "@, "["@, " + tt_barrier_copy_i];\n            }\n"@];
    let indices = seq![0nat, 1nat, 2nat, 3nat, 4nat];
    let args = seq![length, destination, to, source, source_start];
    reveal_with_fuel(text::skeleton, 6);
    reveal_with_fuel(text::fleshed, 6);
    assert(warp::BARRIER_COPY@ =~= text::skeleton(segments, indices, 0));
    text::law_segments_are_kept(segments, indices, args, 0);
    assert(text::fill(warp::BARRIER_COPY@, args) =~= copied(length, destination, to, source, source_start));
}

/// The fields of a vector type: as many as it has elements, numbered from zero.
pub open spec fn fields_of(item: Item) -> Seq<Seq<char>> {
    Seq::new(
        item.vectorization as nat,
        |i: int| vector_field(dialect::elem_text(item.elem), text::dec(i as nat)),
    )
}

proof fn lemma_fields(item: Item, count: nat)
    requires
        count <= item.vectorization,
    ensures
        scalar_writer::vector_fields(dialect::elem_text(item.elem), count) == text::joined(
            fields_of(item),
            count,
        ),
    decreases count,
{
    if count > 0 {
        lemma_fields(item, (count - 1) as nat);
        lemma_vector_field(dialect::elem_text(item.elem), text::dec((count - 1) as nat));
        if count == 1 {
            assert(scalar_writer::vector_fields(dialect::elem_text(item.elem), 1)
                =~= fields_of(item)[0]);
        }
    }
}

/// Every vector of a kernel's items has its type defined: aligned to the size of the vector,
/// with a field for each element. The definition is that of the first vector of its name.
pub proof fn law_vectors_are_defined(
    kernel: ComputeKernel,
    num_inputs: nat,
    outputs: Seq<usize>,
    units: nat,
    at: int,
)
    requires
        0 <= at < kernel.items.len(),
        kernel.items[at].vectorization > 1,
    ensures
        exists|i: int|
            {
                &&& 0 <= i <= at
                &&& dialect::item_text(#[trigger] kernel.items[i]) == dialect::item_text(
                    kernel.items[at],
                )
                &&& kernel.items[i].vectorization > 1
                &&& text::contains(
                    scalar_writer::scalar_writer(kernel, num_inputs, outputs, units),
                    vector_opened(
                        text::dec(kernel.items[i].bytes()),
                        dialect::item_text(kernel.items[i]),
                    ) + text::joined(
                        fields_of(kernel.items[i]),
                        kernel.items[i].vectorization as nat,
                    ) + "\n};"@,
                )
            },
{
    let items = kernel.items@;
    let i = first_with_name(items, at);
    lemma_first_with_name(items, at);
    let item = items[i];
    lemma_definitions_hold(items, i, items.len());
    lemma_vector_opened(text::dec(item.bytes()), dialect::item_text(item));
    lemma_fields(item, item.vectorization as nat);
    positions::lemma_writer_has_its_sections(kernel, num_inputs, outputs, units);
    positions::lemma_head_has_its_parts(kernel, num_inputs, outputs.len(), units);
    let source = scalar_writer::scalar_writer(kernel, num_inputs, outputs, units);
    let head = scalar_writer::writer_head(kernel, num_inputs, outputs.len(), units);
    let definitions = scalar_writer::vector_definitions(items, items.len());
    text::law_containment_is_transitive(
        head,
        definitions,
        scalar_writer::vector_definition(item),
    );
    text::law_containment_is_transitive(source, head, scalar_writer::vector_definition(item));
    assert(kernel.items[i] == item);
}

/// The position of the first vector with the name of the one at `at`.
spec fn first_with_name(items: Seq<Item>, at: int) -> int
    decreases at,
{
    if at <= 0 || scalar_writer::first_of_its_name(items, at) {
        at
    } else {
        let before = choose|j: int|
            0 <= j < at && (#[trigger] items[j]).vectorization > 1 && dialect::item_text(items[j])
                == dialect::item_text(items[at]);
        if 0 <= before < at {
            first_with_name(items, before)
        } else {
            at
        }
    }
}

proof fn lemma_first_with_name(items: Seq<Item>, at: int)
    requires
        0 <= at < items.len(),
        items[at].vectorization > 1,
    ensures
        ({
            let i = first_with_name(items, at);
            &&& 0 <= i <= at
            &&& scalar_writer::first_of_its_name(items, i)
            &&& dialect::item_text(items[i]) == dialect::item_text(items[at])
        }),
    decreases at,
{
    if !scalar_writer::first_of_its_name(items, at) {
        let before = choose|j: int|
            0 <= j < at && (#[trigger] items[j]).vectorization > 1 && dialect::item_text(items[j])
                == dialect::item_text(items[at]);
        lemma_first_with_name(items, before);
    }
}

proof fn lemma_definitions_hold(items: Seq<Item>, at: int, count: nat)
    requires
        0 <= at < count <= items.len(),
        scalar_writer::first_of_its_name(items, at),
    ensures
        text::contains(
            scalar_writer::vector_definitions(items, count),
            scalar_writer::vector_definition(items[at]),
        ),
    decreases count,
{
    let before = scalar_writer::vector_definitions(items, (count - 1) as nat);
    let last = text::given(
        scalar_writer::first_of_its_name(items, count - 1),
        scalar_writer::vector_definition(items[count - 1]),
    );
    if at < count - 1 {
        lemma_definitions_hold(items, at, (count - 1) as nat);
    }
    lemma_pair_holds(before, last, scalar_writer::vector_definition(items[at]));
}

/// What stands in one of two parts stands in both together.
proof fn lemma_pair_holds(a: Seq<char>, b: Seq<char>, line: Seq<char>)
    ensures
        text::contains(a, line) ==> text::contains(a + b, line),
        text::contains(b, line) ==> text::contains(a + b, line),
        text::contains(b, b),
{
    let none = Seq::<char>::empty();
    text::law_parts_are_contained(none, a, b);
    text::law_parts_are_contained(a, b, none);
    text::law_parts_are_contained(none, b, none);
    assert(none + a + b =~= a + b);
    assert(a + b + none =~= a + b);
    assert(none + b + none =~= b);
    if text::contains(a, line) {
        text::law_containment_is_transitive(a + b, a, line);
    }
    if text::contains(b, line) {
        text::law_containment_is_transitive(a + b, b, line);
    }
}

/// The declaration of a local array.
pub open spec fn local_line(array: LocalArray) -> Seq<char> {
    local_declared(
        dialect::item_text(array.item),
        text::dec(array.index as nat),
        text::dec(array.size as nat),
    )
}

/// The declaration of a constant array.
pub open spec fn constants_line(array: ConstArray) -> Seq<char> {
    constants_declared(
        dialect::item_text(array.item),
        text::dec(array.index as nat),
        text::dec(array.size as nat),
        text::joined(values_of(array), array.values.len() as nat),
    )
}

/// The values of a constant array, each with a comma.
pub open spec fn values_of(array: ConstArray) -> Seq<Seq<char>> {
    Seq::new(array.values.len() as nat, |i: int| array.values[i]@ + ","@)
}

/// The declaration of shared memory: aligned as it asks for, where it does.
pub open spec fn shared_lines(memory: SharedMemory) -> Seq<char> {
    match memory {
        SharedMemory::Array { index, item, length, align } => shared_array(
            "        "@,
            text::dec(length as nat),
            text::dec(length as nat * item.bytes()),
            text::dec(if align > 0 { align as nat } else { 1 }),
            dialect::item_text(item),
            text::dec(index as nat),
        ),
        SharedMemory::Value { index, item, align } => shared_value(
            "        "@,
            text::dec(item.bytes()),
            text::dec(if align > 0 { align as nat } else { 1 }),
            dialect::item_text(item),
            text::dec(index as nat),
        ),
    }
}

proof fn lemma_listed(array: ConstArray, count: nat)
    requires
        count <= array.values.len(),
    ensures
        scalar_writer::listed(array.values@, count) == text::joined(values_of(array), count),
    decreases count,
{
    if count > 0 {
        lemma_listed(array, (count - 1) as nat);
        let before = scalar_writer::listed(array.values@, (count - 1) as nat);
        assert(before + array.values@[count - 1]@ + ","@ =~= before + values_of(array)[count - 1]);
        if count == 1 {
            assert(before + values_of(array)[0] =~= values_of(array)[0]);
        }
    }
}

proof fn lemma_locals_hold(list: Seq<LocalArray>, at: int, count: nat)
    requires
        0 <= at < count <= list.len(),
    ensures
        text::contains(scalar_writer::local_arrays(list, count), local_line(list[at])),
    decreases count,
{
    let before = scalar_writer::local_arrays(list, (count - 1) as nat);
    let array = list[count - 1];
    let last = local_line(array);
    lemma_local_declared(
        dialect::item_text(array.item),
        text::dec(array.index as nat),
        text::dec(array.size as nat),
    );
    if at < count - 1 {
        lemma_locals_hold(list, at, (count - 1) as nat);
    }
    lemma_pair_holds(before, last, local_line(list[at]));
}

proof fn lemma_constants_hold(list: Seq<ConstArray>, at: int, count: nat)
    requires
        0 <= at < count <= list.len(),
    ensures
        text::contains(scalar_writer::const_arrays(list, count), constants_line(list[at])),
    decreases count,
{
    let before = scalar_writer::const_arrays(list, (count - 1) as nat);
    let array = list[count - 1];
    let last = constants_line(array);
    lemma_listed(array, array.values.len() as nat);
    lemma_constants_declared(
        dialect::item_text(array.item),
        text::dec(array.index as nat),
        text::dec(array.size as nat),
        scalar_writer::listed(array.values@, array.values.len() as nat),
    );
    if at < count - 1 {
        lemma_constants_hold(list, at, (count - 1) as nat);
    }
    lemma_pair_holds(before, last, constants_line(list[at]));
}

proof fn lemma_shared_hold(list: Seq<SharedMemory>, at: int, count: nat)
    requires
        0 <= at < count <= list.len(),
    ensures
        text::contains(scalar_writer::shared_memories(list, count), shared_lines(list[at])),
    decreases count,
{
    let before = scalar_writer::shared_memories(list, (count - 1) as nat);
    let array = list[count - 1];
    let last = shared_lines(array);
    lemma_shared_lines(array);
    if at < count - 1 {
        lemma_shared_hold(list, at, (count - 1) as nat);
    }
    lemma_pair_holds(before, last, shared_lines(list[at]));
}

proof fn lemma_shared_lines(memory: SharedMemory)
    ensures
        dialect::shared_memory_text(memory, "        "@) == shared_lines(memory),
{
    match memory {
        SharedMemory::Array { index, item, length, align } => {
            lemma_shared_array(
                "        "@,
                text::dec(length as nat),
                text::dec((length * item.bytes()) as nat),
                text::dec(dialect::alignment(align)),
                dialect::item_text(item),
                text::dec(index as nat),
            );
        },
        SharedMemory::Value { index, item, align } => {
            lemma_shared_value(
                "        "@,
                text::dec(item.bytes()),
                text::dec(dialect::alignment(align)),
                dialect::item_text(item),
                text::dec(index as nat),
            );
        },
    }
}

/// Every array and every piece of shared memory of a kernel is declared: under its number,
/// with its type and its extent, constants with their values in order, and shared memory with
/// its alignment. Units have arrays of their own; a tile has the shared memory.
pub proof fn law_memory_is_declared(
    kernel: ComputeKernel,
    num_inputs: nat,
    outputs: Seq<usize>,
    units: nat,
    at: int,
)
    requires
        0 <= at,
    ensures
        at < kernel.body.const_arrays.len() ==> text::contains(
            scalar_writer::writer_head(kernel, num_inputs, outputs.len(), units),
            constants_line(kernel.body.const_arrays[at]),
        ),
        at < kernel.body.shared_memories.len() ==> text::contains(
            scalar_writer::tile_head(kernel, num_inputs, outputs),
            shared_lines(kernel.body.shared_memories[at]),
        ),
        at < kernel.body.local_arrays.len() ==> text::contains(
            scalar_writer::unit_loop(kernel),
            local_line(kernel.body.local_arrays[at]),
        ),
{
    let constants = kernel.body.const_arrays@;
    let shared = kernel.body.shared_memories@;
    let locals = kernel.body.local_arrays@;
    if at < constants.len() {
        lemma_constants_hold(constants, at, constants.len());
        positions::lemma_head_has_its_parts(kernel, num_inputs, outputs.len(), units);
        text::law_containment_is_transitive(
            scalar_writer::writer_head(kernel, num_inputs, outputs.len(), units),
            scalar_writer::const_arrays(constants, constants.len()),
            constants_line(constants[at]),
        );
    }
    if at < shared.len() {
        lemma_shared_hold(shared, at, shared.len());
        connections::lemma_tile_head_has_its_pieces(kernel, num_inputs, outputs);
        text::law_containment_is_transitive(
            scalar_writer::tile_head(kernel, num_inputs, outputs),
            scalar_writer::shared_memories(shared, shared.len()),
            shared_lines(shared[at]),
        );
    }
    if at < locals.len() {
        lemma_locals_hold(locals, at, locals.len());
        let s = kernel.body.instructions@;
        let before = scalar_writer::UNIT_LOOP@ + scalar_writer::builtin_locals(kernel.indexes);
        let own = scalar_writer::local_arrays(locals, locals.len());
        let after = scalar_writer::unit_body(
            warp::rendered_all(s),
            scalar_writer::leaves_kernel(s),
            s.len(),
        ) + scalar_writer::UNIT_LOOP_END@;
        text::law_parts_are_contained(before, own, after);
        assert(before + own + after =~= scalar_writer::unit_loop(kernel));
        text::law_containment_is_transitive(
            scalar_writer::unit_loop(kernel),
            own,
            local_line(locals[at]),
        );
    }
}

/// A copy behind a barrier moves as many elements as the source has, each from its place
/// behind the offset in the source to the same place behind the offset in the destination.
/// All other barrier operations are comments.
pub proof fn law_copies_keep_their_places(op: BarrierOp)
    ensures
        op matches BarrierOp::MemCopyAsync(copy) ==> warp::barrier_text(op) == copied(
            copy.source_length@,
            copy.destination@,
            copy.offset_out@,
            copy.source@,
            copy.offset_source@,
        ),
        op is Declare || op is Init || op is ArriveAndWait ==> {
            let comment = warp::barrier_text(op);
            &&& comment.len() > 2
            &&& comment[0] == '/'
            &&& comment[1] == '/'
            &&& comment.last() == '\n'
            &&& forall|i: int| 0 <= i < comment.len() - 1 ==> comment[i] != '\n'
        },
{
    match op {
        BarrierOp::MemCopyAsync(copy) => {
            lemma_copied(
                copy.source_length@,
                copy.destination@,
                copy.offset_out@,
                copy.source@,
                copy.offset_source@,
            );
        },
        _ => {
            lemma_comments(op);
        },
    }
}

#[verifier::spinoff_prover]
#[verifier::rlimit(60)]
proof fn lemma_comments(op: BarrierOp)
    ensures
        op is Declare || op is Init || op is ArriveAndWait ==> {
            let comment = warp::barrier_text(op);
            &&& comment.len() > 2
            &&& comment[0] == '/'
            &&& comment[1] == '/'
            &&& comment.last() == '\n'
            &&& forall|i: int| 0 <= i < comment.len() - 1 ==> comment[i] != '\n'
        },
{
    reveal_strlit("// TT cube barrier arrive_and_wait elided; generic writer serializes unit execution over shared scratch\n");
    reveal_strlit("// TT cube barrier declare elided; generic writer serializes unit execution over shared scratch\n");
    reveal_strlit("// TT cube barrier init elided; generic writer serializes unit execution over shared scratch\n");
    reveal_strlit("// TT unit barrier arrive_and_wait elided; single-unit kernels are already synchronized\n");
    reveal_strlit("// TT unit barrier declare elided in generic writer\n");
    reveal_strlit("// TT unit barrier init elided; single-unit kernels are already synchronized\n");
}

/// The text of an instruction of a kernel that may leave: where it leaves, it jumps behind
/// the units, so that the tile is still written back.
pub open spec fn jumping(line: Seq<char>) -> Seq<char> {
    text::replaced(line, "return;"@, "terminate_kernel = true; goto tt_writer_finish_tile;"@)
}

proof fn lemma_jumps_are_in_order(rendered: Seq<Seq<char>>, count: nat)
    requires
        count <= rendered.len(),
    ensures
        text::in_order(
            scalar_writer::unit_body(rendered, true, count),
            rendered.take(count as int).map_values(|line: Seq<char>| jumping(line)),
        ),
    decreases count,
{
    let all = rendered.take(count as int).map_values(|line: Seq<char>| jumping(line));
    if count == 0 {
        assert(all.len() == 0);
    } else {
        let before = scalar_writer::unit_body(rendered, true, (count - 1) as nat);
        let last = jumping(rendered[count - 1]);
        let none = Seq::<char>::empty();
        let lines = rendered.take(count - 1).map_values(|line: Seq<char>| jumping(line));
        lemma_jumps_are_in_order(rendered, (count - 1) as nat);
        text::law_line_is_in_order(last);
        text::law_order_is_kept_inside("            "@, last, none, seq![last]);
        text::law_order_is_joined(before, lines, "            "@ + last + none, seq![last]);
        assert(before + ("            "@ + last + none) =~= scalar_writer::unit_body(
            rendered,
            true,
            count,
        ));
        assert(lines + seq![last] =~= all);
    }
}

/// The units of a kernel that may leave run its instructions in their order, and jump where
/// these leave. The jump goes to the end of the tile: the outputs are written back there, and
/// then the kernel ends.
pub proof fn law_leaving_kernels_finish_their_tile(
    kernel: ComputeKernel,
    num_inputs: nat,
    outputs: Seq<usize>,
)
    requires
        scalar_writer::leaves_kernel(kernel.body.instructions@),
    ensures
        text::in_order(
            scalar_writer::unit_loop(kernel),
            warp::rendered_all(kernel.body.instructions@).map_values(
                |line: Seq<char>| jumping(line),
            ),
        ),
        text::contains(
            scalar_writer::tile_head(kernel, num_inputs, outputs),
            "    bool terminate_kernel = false;\n"@,
        ),
        text::in_order(
            scalar_writer::tile_end(true, num_inputs, outputs.len()),
            seq![
                "tt_writer_finish_tile:\n"@,
                text::numbered(scalar_writer::WRITE_PAGE@, 0, outputs.len()),
                writer::WRITE_BARRIER@,
                "        if (terminate_kernel) break;\n"@,
            ],
        ),
{
    let s = kernel.body.instructions@;
    let rendered = warp::rendered_all(s);
    let jumps = rendered.map_values(|line: Seq<char>| jumping(line));
    lemma_jumps_are_in_order(rendered, s.len());
    assert(rendered.take(s.len() as int) =~= rendered);
    text::law_order_is_kept_inside(
        scalar_writer::UNIT_LOOP@ + scalar_writer::builtin_locals(kernel.indexes)
            + scalar_writer::local_arrays(
            kernel.body.local_arrays@,
            kernel.body.local_arrays.len() as nat,
        ),
        scalar_writer::unit_body(rendered, true, s.len()),
        scalar_writer::UNIT_LOOP_END@,
        jumps,
    );
    let flag = scalar_writer::TERMINATE_FLAG@;
    let before = scalar_writer::TILE_LOOP@ + text::numbered(
        scalar_writer::WAIT_INPUT@,
        0,
        num_inputs,
    );
    let head = scalar_writer::tile_head(kernel, num_inputs, outputs);
    let after = head.skip((before + flag).len() as int);
    text::law_parts_are_contained(before, flag, after);
    assert(before + flag + after =~= head);
    lemma_end_is_in_order(num_inputs, outputs.len());
}

proof fn lemma_end_is_in_order(num_inputs: nat, num_outputs: nat)
    ensures
        text::in_order(
            scalar_writer::tile_end(true, num_inputs, num_outputs),
            seq![
                scalar_writer::FINISH_LABEL@,
                text::numbered(scalar_writer::WRITE_PAGE@, 0, num_outputs),
                writer::WRITE_BARRIER@,
                scalar_writer::TERMINATE@,
            ],
        ),
{
    let label = scalar_writer::FINISH_LABEL@;
    let pages = text::numbered(scalar_writer::WRITE_PAGE@, 0, num_outputs);
    let barrier = writer::WRITE_BARRIER@;
    let freed = text::numbered(writer::POP@, 0, num_outputs) + text::numbered(
        scalar_writer::POP_INPUT@,
        0,
        num_inputs,
    );
    let terminate = scalar_writer::TERMINATE@;
    let close = "    }\n}\n"@;
    let none = Seq::<char>::empty();
    text::law_line_is_in_order(label);
    text::law_line_is_in_order(pages);
    text::law_line_is_in_order(barrier);
    text::law_line_is_in_order(terminate);
    text::law_order_is_kept_inside(freed, terminate, close, seq![terminate]);
    text::law_order_is_joined(label, seq![label], pages, seq![pages]);
    text::law_order_is_joined(label + pages, seq![label] + seq![pages], barrier, seq![barrier]);
    text::law_order_is_joined(
        label + pages + barrier,
        seq![label] + seq![pages] + seq![barrier],
        freed + terminate + close,
        seq![terminate],
    );
    assert(label + pages + barrier + (freed + terminate + close) =~= scalar_writer::tile_end(
        true,
        num_inputs,
        num_outputs,
    ));
    assert(seq![label] + seq![pages] + seq![barrier] + seq![terminate] =~= seq![
        label,
        pages,
        barrier,
        terminate,
    ]);
}

} // verus!

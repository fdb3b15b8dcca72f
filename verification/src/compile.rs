//! From a kernel to the sources of its three device kernels.
use crate::error::CompileError;
use crate::ir::{
    ComputeKernel, Elem, Instruction, Item, KernelArg, Op, PlainOp, SwitchCase, Visibility,
};
use crate::kernel::{TtBinaryComputeOp, TtIoDataLayout, TtKernelSources, TtUnaryComputeOp};
use crate::kind;
use crate::kind::SupportedComputeKind;
use crate::math;
use crate::reader;
use crate::scalar_writer;
use crate::writer;
use vstd::prelude::*;

verus! {

/// What a kernel needs from the code generator.
#[derive(Debug)]
pub struct TtKernelAnalysis {
    pub kind: SupportedComputeKind,
    pub num_inputs: u32,
    pub num_outputs: u32,
    pub input_binding_indices: Vec<usize>,
    pub output_binding_indices: Vec<usize>,
    pub num_tiles: u32,
    pub tile_size_bytes: u32,
    pub data_format_tt: u8,
    pub unit_item: Item,
    pub unit_item_size_bytes: u32,
    pub buffer_item_sizes: Vec<u32>,
    pub info_static_len: usize,
}

/// Whether an instruction, or one inside its blocks, updates an atomic that has to
/// be written back.
pub open spec fn instruction_writes_atomics(instruction: Instruction) -> bool
    decreases instruction,
{
    match instruction.op {
        Op::AtomicLoad(_) | Op::AtomicStore(_) | Op::AtomicAdd(_) | Op::AtomicMax(_)
        | Op::AtomicMin(_) => true,
        Op::Plain(op) => op is AtomicSub,
        Op::RangeLoop { instructions } => writes_atomics(instructions@),
        Op::Loop { instructions } => writes_atomics(instructions@),
        Op::If { cond, instructions } => writes_atomics(instructions@),
        Op::IfElse { instructions_if, instructions_else } => writes_atomics(instructions_if@)
            || writes_atomics(instructions_else@),
        Op::Switch { instructions_default, instructions_cases } => writes_atomics(
            instructions_default@,
        ) || cases_write_atomics(instructions_cases@),
        _ => false,
    }
}

pub open spec fn writes_atomics(s: Seq<Instruction>) -> bool
    decreases s,
{
    s.len() > 0 && (instruction_writes_atomics(s[0]) || writes_atomics(
        s.subrange(1, s.len() as int),
    ))
}

pub open spec fn cases_write_atomics(cases: Seq<SwitchCase>) -> bool
    decreases cases,
{
    cases.len() > 0 && (writes_atomics(cases[0].instructions@) || cases_write_atomics(
        cases.subrange(1, cases.len() as int),
    ))
}

fn instruction_uses_atomic_writer_output(instruction: &Instruction) -> (uses: bool)
    ensures
        uses == instruction_writes_atomics(*instruction),
    decreases instruction,
{
    match &instruction.op {
        Op::AtomicLoad(_) | Op::AtomicStore(_) | Op::AtomicAdd(_) | Op::AtomicMax(_)
        | Op::AtomicMin(_) => true,
        Op::Plain(op) => matches!(op, PlainOp::AtomicSub),
        Op::RangeLoop { instructions } => uses_atomic_writer_output(instructions),
        Op::Loop { instructions } => uses_atomic_writer_output(instructions),
        Op::If { instructions, .. } => uses_atomic_writer_output(instructions),
        Op::IfElse { instructions_if, instructions_else } => uses_atomic_writer_output(
            instructions_if,
        ) || uses_atomic_writer_output(instructions_else),
        Op::Switch { instructions_default, instructions_cases } => uses_atomic_writer_output(
            instructions_default,
        ) || cases_use_atomic_writer_output(instructions_cases),
        _ => false,
    }
}

fn cases_use_atomic_writer_output(cases: &Vec<SwitchCase>) -> (uses: bool)
    ensures
        uses == cases_write_atomics(cases@),
    decreases cases,
{
    let mut i: usize = 0;
    assert(cases@.subrange(0, cases.len() as int) =~= cases@);
    while i < cases.len()
        invariant
            i <= cases.len(),
            cases_write_atomics(cases@) == cases_write_atomics(
                cases@.subrange(i as int, cases.len() as int),
            ),
        decreases cases.len() - i,
    {
        let ghost rest = cases@.subrange(i as int, cases.len() as int);
        proof {
            assert(rest.subrange(1, rest.len() as int) =~= cases@.subrange(
                i + 1,
                cases.len() as int,
            ));
            assert(decreases_to!(cases => cases@));
            assert(decreases_to!(cases@ => cases@[i as int]));
        }
        if uses_atomic_writer_output(&cases[i].instructions) {
            return true;
        }
        i += 1;
    }
    false
}

/// Whether the instructions, or those inside their blocks, update an atomic that has
/// to be written back.
pub fn uses_atomic_writer_output(instructions: &Vec<Instruction>) -> (uses: bool)
    ensures
        uses == writes_atomics(instructions@),
    decreases instructions,
{
    let mut i: usize = 0;
    assert(instructions@.subrange(0, instructions.len() as int) =~= instructions@);
    while i < instructions.len()
        invariant
            i <= instructions.len(),
            writes_atomics(instructions@) == writes_atomics(
                instructions@.subrange(i as int, instructions.len() as int),
            ),
        decreases instructions.len() - i,
    {
        let ghost rest = instructions@.subrange(i as int, instructions.len() as int);
        proof {
            assert(rest.subrange(1, rest.len() as int) =~= instructions@.subrange(
                i + 1,
                instructions.len() as int,
            ));
            assert(decreases_to!(instructions => instructions@));
            assert(decreases_to!(instructions@ => instructions@[i as int]));
        }
        if instruction_uses_atomic_writer_output(&instructions[i]) {
            return true;
        }
        i += 1;
    }
    false
}

/// Whether a buffer is written: it says so, or it holds atomics that the kernel
/// updates.
pub open spec fn is_output(binding: KernelArg, atomics: bool) -> bool {
    binding.vis is ReadWrite || (atomics && binding.item.elem is Atomic)
}

/// The positions of the outputs, or of the inputs, among the first `count` buffers.
pub open spec fn positions(buffers: Seq<KernelArg>, atomics: bool, outputs: bool, count: nat) -> Seq<usize>
    decreases count,
{
    if count == 0 {
        Seq::empty()
    } else {
        let before = positions(buffers, atomics, outputs, (count - 1) as nat);
        if is_output(buffers[count - 1], atomics) == outputs {
            before.push((count - 1) as usize)
        } else {
            before
        }
    }
}

proof fn lemma_positions_len(buffers: Seq<KernelArg>, atomics: bool, count: nat)
    ensures
        positions(buffers, atomics, true, count).len() + positions(
            buffers,
            atomics,
            false,
            count,
        ).len() == count,
    decreases count,
{
    if count > 0 {
        lemma_positions_len(buffers, atomics, (count - 1) as nat);
    }
}

pub(crate) fn binding_indices(buffers: &Vec<KernelArg>, atomics: bool, outputs: bool) -> (indices: Vec<usize>)
    ensures
        indices@ == positions(buffers@, atomics, outputs, buffers.len() as nat),
{
    let mut indices: Vec<usize> = Vec::new();
    let mut i: usize = 0;
    while i < buffers.len()
        invariant
            i <= buffers.len(),
            indices@ == positions(buffers@, atomics, outputs, i as nat),
        decreases buffers.len() - i,
    {
        let written = matches!(buffers[i].vis, Visibility::ReadWrite) || (atomics
            && buffers[i].item.is_atomic());
        if written == outputs {
            indices.push(i);
        }
        i += 1;
    }
    indices
}

/// The element that stands in memory: that of the scalar behind an atomic.
pub open spec fn stored_elem(elem: Elem) -> Elem {
    match elem.single() {
        Elem::Atomic(kind) => kind.elem(),
        other => other,
    }
}

pub open spec fn elem_supported(elem: Elem) -> bool {
    elem is BF16 || elem is F16 || elem is F32 || elem is I8 || elem is U8 || elem is I16
        || elem is U16 || elem is I32 || elem is U32 || elem is Bool
}

fn normalize_buffer_elem(elem: Elem) -> (stored: Elem)
    ensures
        stored == stored_elem(elem),
{
    match elem.unpacked() {
        Elem::Atomic(kind) => kind.as_elem(),
        other => other,
    }
}

fn is_supported_buffer_elem(elem: Elem) -> (supported: bool)
    ensures
        supported == elem_supported(elem),
{
    matches!(
        elem,
        Elem::BF16 | Elem::F16 | Elem::F32 | Elem::I8 | Elem::U8 | Elem::I16 | Elem::U16 | Elem::I32
            | Elem::U32 | Elem::Bool
    )
}

/// The first buffer, from `from` on, whose element the device cannot hold.
pub open spec fn first_unsupported(buffers: Seq<KernelArg>, from: nat) -> Option<Elem>
    decreases buffers.len() - from,
{
    if from >= buffers.len() {
        None
    } else if !elem_supported(stored_elem(buffers[from as int].item.elem)) {
        Some(stored_elem(buffers[from as int].item.elem))
    } else {
        first_unsupported(buffers, from + 1)
    }
}

fn find_unsupported(buffers: &Vec<KernelArg>) -> (elem: Option<Elem>)
    ensures
        elem == first_unsupported(buffers@, 0),
        elem is None ==> forall|i: int|
            0 <= i < buffers.len() ==> elem_supported(
                stored_elem((#[trigger] buffers[i]).item.elem),
            ),
{
    let mut i: usize = 0;
    while i < buffers.len()
        invariant
            i <= buffers.len(),
            first_unsupported(buffers@, 0) == first_unsupported(buffers@, i as nat),
            forall|j: int|
                0 <= j < i ==> elem_supported(stored_elem((#[trigger] buffers[j]).item.elem)),
        decreases buffers.len() - i,
    {
        let elem = normalize_buffer_elem(buffers[i].item.elem);
        if !is_supported_buffer_elem(elem) {
            return Some(elem);
        }
        i += 1;
    }
    None
}

/// The item of the first buffer, from `from` on, of the given visibility; of width
/// one only, where `scalar` says so.
pub open spec fn first_item(buffers: Seq<KernelArg>, vis: Visibility, scalar: bool, from: nat) -> Option<Item>
    decreases buffers.len() - from,
{
    if from >= buffers.len() {
        None
    } else {
        let binding = buffers[from as int];
        if binding.vis == vis && (scalar ==> binding.item.vectorization == 1) {
            Some(binding.item)
        } else {
            first_item(buffers, vis, scalar, from + 1)
        }
    }
}

/// The item that one unit works on: that of a scalar output, else of a scalar input,
/// else of an output, else of the first buffer.
pub open spec fn unit_item(buffers: Seq<KernelArg>) -> Option<Item> {
    match first_item(buffers, Visibility::ReadWrite, true, 0) {
        Some(item) => Some(item),
        None => match first_item(buffers, Visibility::Read, true, 0) {
            Some(item) => Some(item),
            None => match first_item(buffers, Visibility::ReadWrite, false, 0) {
                Some(item) => Some(item),
                None => if buffers.len() > 0 {
                    Some(buffers[0].item)
                } else {
                    None
                },
            },
        },
    }
}

fn find_item(buffers: &Vec<KernelArg>, vis: Visibility, scalar: bool) -> (item: Option<Item>)
    ensures
        item == first_item(buffers@, vis, scalar, 0),
        item matches Some(item) ==> exists|i: int|
            0 <= i < buffers.len() && (#[trigger] buffers[i]).item == item,
{
    let mut i: usize = 0;
    while i < buffers.len()
        invariant
            i <= buffers.len(),
            first_item(buffers@, vis, scalar, 0) == first_item(buffers@, vis, scalar, i as nat),
        decreases buffers.len() - i,
    {
        let binding = &buffers[i];
        if binding.vis == vis && (!scalar || binding.item.vectorization == 1) {
            assert(buffers@[i as int].item == binding.item);
            return Some(binding.item);
        }
        i += 1;
    }
    None
}

pub(crate) fn select_unit_item(buffers: &Vec<KernelArg>) -> (item: Option<Item>)
    ensures
        item == unit_item(buffers@),
        item matches Some(item) ==> exists|i: int|
            0 <= i < buffers.len() && (#[trigger] buffers[i]).item == item,
{
    if let Some(item) = find_item(buffers, Visibility::ReadWrite, true) {
        return Some(item);
    }
    if let Some(item) = find_item(buffers, Visibility::Read, true) {
        return Some(item);
    }
    if let Some(item) = find_item(buffers, Visibility::ReadWrite, false) {
        return Some(item);
    }
    if buffers.len() > 0 {
        assert(buffers@[0].item == buffers[0].item);
        Some(buffers[0].item)
    } else {
        None
    }
}

/// The device's code for the format of an element.
pub open spec fn data_format(elem: Elem) -> Option<u8> {
    match elem {
        Elem::BF16 => Some(5),
        Elem::F16 => Some(1),
        Elem::F32 => Some(0),
        Elem::I8 | Elem::U8 | Elem::Bool => Some(30),
        Elem::I16 | Elem::U16 => Some(9),
        Elem::I32 => Some(8),
        Elem::U32 => Some(24),
        _ => None,
    }
}

/// The size of a tile in bytes. Tiles of 32-bit integers follow the page granularity
/// of the device's buffers; all others hold 32 rows of 32 elements.
pub open spec fn tile_size(elem: Elem) -> nat {
    match elem {
        Elem::I32 | Elem::U32 => 2048,
        _ => 1024 * elem.bytes(),
    }
}

/// An element with a format has tiles that hold something, of at most four bytes an
/// element.
pub proof fn law_tile_size_is_bounded(elem: Elem)
    requires
        data_format(elem) is Some,
    ensures
        1024 <= tile_size(elem) <= 4096,
{
    assert(elem.bytes() <= 4);
    assert(elem.bytes() >= 1);
    assert(tile_size(elem) == 2048 || tile_size(elem) == 1024 * elem.bytes());
}

/// The format code and the tile size of an element.
pub fn infer_data_format_and_tile_size(elem: Elem) -> (result: Result<(u8, u32), CompileError>)
    ensures
        match result {
            Ok((format, size)) => data_format(elem) == Some(format) && size == tile_size(elem),
            Err(error) => data_format(elem) is None && error == CompileError::TileFormat(elem),
        },
        elem_supported(elem) ==> result is Ok,
{
    let format: u8 = match elem {
        Elem::BF16 => 5,
        Elem::F16 => 1,
        Elem::F32 => 0,
        Elem::I8 | Elem::U8 | Elem::Bool => 30,
        Elem::I16 | Elem::U16 => 9,
        Elem::I32 => 8,
        Elem::U32 => 24,
        other => {
            return Err(CompileError::TileFormat(other));
        },
    };
    assert(elem.bytes() <= 4);
    let size: u32 = match elem {
        Elem::I32 | Elem::U32 => 2048,
        _ => 1024 * elem.size() as u32,
    };
    Ok((format, size))
}

fn supports_cube_shared_barrier_subset(instructions: &Vec<Instruction>) -> (supported: bool)
    ensures
        supported == kind::barriers_supported(instructions@),
{
    let mut i: usize = 0;
    while i < instructions.len()
        invariant
            i <= instructions.len(),
            forall|j: int|
                0 <= j < i ==> ((#[trigger] instructions[j]).op matches Op::Barrier(op)
                    ==> kind::barrier_supported(op)),
        decreases instructions.len() - i,
    {
        if let Op::Barrier(op) = &instructions[i].op {
            if !kind::is_barrier_supported(op) {
                assert(!(instructions@[i as int].op matches Op::Barrier(op)
                    ==> kind::barrier_supported(op)));
                return false;
            }
        }
        i += 1;
    }
    true
}

/// The first reason why a kernel cannot be compiled.
pub open spec fn refusal(kernel: ComputeKernel) -> Option<CompileError> {
    let s = kernel.body.instructions@;
    let atomics = writes_atomics(s);
    if kernel.num_tensor_maps > 0 {
        Some(CompileError::TensorMaps)
    } else if atomics && kernel.cube_dim.units() != 1 {
        Some(CompileError::AtomicCubeDim)
    } else if kernel.body.num_pipelines > 0 {
        Some(CompileError::Pipelines)
    } else if kernel.cube_dim.z != 1 {
        Some(CompileError::CubeDimDepth)
    } else if is_clustered(kernel) {
        Some(CompileError::Cluster)
    } else if positions(kernel.buffers@, atomics, true, kernel.buffers.len() as nat).len() == 0 {
        Some(CompileError::NoOutput)
    } else if let Some(elem) = first_unsupported(kernel.buffers@, 0) {
        Some(CompileError::BufferElem(elem))
    } else if let Some(error) = kind::first_rejection(kind::effects(s)) {
        Some(error)
    } else if kernel.body.shared_memories.len() > 0 && kernel.cube_dim.units() != 1
        && !kind::barriers_supported(s) {
        Some(CompileError::SharedMemory)
    } else {
        None
    }
}

/// Whether the kernel asks for a cluster of more than one cube.
pub open spec fn is_clustered(kernel: ComputeKernel) -> bool {
    match kernel.cluster_dim {
        Some(dim) => dim.x != 1 || dim.y != 1 || dim.z != 1,
        None => false,
    }
}

/// The kind that the instructions amount to; they have one, and only one.
pub open spec fn compute_kind(s: Seq<Instruction>) -> SupportedComputeKind {
    choose|kind: SupportedComputeKind| kind::is_kind(kind::effects(s), kind)
}

/// The tile operation of a kind with two operands.
pub open spec fn binary_op(kind: SupportedComputeKind) -> Option<TtBinaryComputeOp> {
    match kind {
        SupportedComputeKind::Add => Some(TtBinaryComputeOp::Add),
        SupportedComputeKind::Sub => Some(TtBinaryComputeOp::Sub),
        SupportedComputeKind::Mul => Some(TtBinaryComputeOp::Mul),
        SupportedComputeKind::Div => Some(TtBinaryComputeOp::Div),
        _ => None,
    }
}

/// The tile operation of a kind with one operand.
pub open spec fn unary_op(kind: SupportedComputeKind) -> Option<TtUnaryComputeOp> {
    match kind {
        SupportedComputeKind::Abs => Some(TtUnaryComputeOp::Abs),
        SupportedComputeKind::Sqrt => Some(TtUnaryComputeOp::Sqrt),
        SupportedComputeKind::Rsqrt => Some(TtUnaryComputeOp::Rsqrt),
        SupportedComputeKind::Sin => Some(TtUnaryComputeOp::Sin),
        SupportedComputeKind::Cos => Some(TtUnaryComputeOp::Cos),
        SupportedComputeKind::Tan => Some(TtUnaryComputeOp::Tan),
        SupportedComputeKind::Tanh => Some(TtUnaryComputeOp::Tanh),
        SupportedComputeKind::Exp => Some(TtUnaryComputeOp::Exp),
        SupportedComputeKind::Log => Some(TtUnaryComputeOp::Log),
        _ => None,
    }
}

fn binary_op_of(kind: SupportedComputeKind) -> (op: Option<TtBinaryComputeOp>)
    ensures
        op == binary_op(kind),
{
    match kind {
        SupportedComputeKind::Add => Some(TtBinaryComputeOp::Add),
        SupportedComputeKind::Sub => Some(TtBinaryComputeOp::Sub),
        SupportedComputeKind::Mul => Some(TtBinaryComputeOp::Mul),
        SupportedComputeKind::Div => Some(TtBinaryComputeOp::Div),
        _ => None,
    }
}

fn unary_op_of(kind: SupportedComputeKind) -> (op: Option<TtUnaryComputeOp>)
    ensures
        op == unary_op(kind),
{
    match kind {
        SupportedComputeKind::Abs => Some(TtUnaryComputeOp::Abs),
        SupportedComputeKind::Sqrt => Some(TtUnaryComputeOp::Sqrt),
        SupportedComputeKind::Rsqrt => Some(TtUnaryComputeOp::Rsqrt),
        SupportedComputeKind::Sin => Some(TtUnaryComputeOp::Sin),
        SupportedComputeKind::Cos => Some(TtUnaryComputeOp::Cos),
        SupportedComputeKind::Tan => Some(TtUnaryComputeOp::Tan),
        SupportedComputeKind::Tanh => Some(TtUnaryComputeOp::Tanh),
        SupportedComputeKind::Exp => Some(TtUnaryComputeOp::Exp),
        SupportedComputeKind::Log => Some(TtUnaryComputeOp::Log),
        _ => None,
    }
}

/// Whether a kind runs on this many buffers: one output, and as many inputs as its
/// tile operation has operands.
pub open spec fn shape_fits(kind: SupportedComputeKind, inputs: nat, outputs: nat) -> bool {
    if kind is Generic {
        true
    } else if binary_op(kind) is Some {
        inputs == 2 && outputs == 1
    } else {
        inputs == 1 && outputs == 1
    }
}

/// The kind that is generated: the scalar path also takes the kernels that use shared
/// memory and those whose buffers do not fit their tile operation.
pub open spec fn settled_kind(kind: SupportedComputeKind, inputs: nat, outputs: nat, shares: bool) -> SupportedComputeKind {
    if shares || !shape_fits(kind, inputs, outputs) {
        SupportedComputeKind::Generic
    } else {
        kind
    }
}

fn count_tiles(units: u32, tile_units: u32) -> (tiles: u32)
    requires
        tile_units > 0,
    ensures
        tiles == math::at_least_one(math::ceil_div(units as int, tile_units as int)),
{
    math::max_one(math::div_ceil(units as u64, tile_units as u64)) as u32
}

/// The number of tiles: what the caller asks for on the tile path, what the cube's
/// units fill on the scalar path, and at least one.
pub open spec fn num_tiles(
    kernel: ComputeKernel,
    kind: SupportedComputeKind,
    requested: u32,
    tile_bytes: nat,
    unit: Item,
) -> int {
    if kind is Generic {
        math::at_least_one(
            math::ceil_div(
                kernel.cube_dim.units(),
                scalar_writer::tile_units(tile_bytes, unit.bytes()) as int,
            ),
        )
    } else {
        math::at_least_one(requested as int)
    }
}

impl TtKernelAnalysis {
    /// Whether this is the analysis of a kernel.
    pub open spec fn describes(self, kernel: ComputeKernel, requested_num_tiles: u32) -> bool {
        let s = kernel.body.instructions@;
        let atomics = writes_atomics(s);
        let count = kernel.buffers.len() as nat;
        &&& self.input_binding_indices@ == positions(kernel.buffers@, atomics, false, count)
        &&& self.output_binding_indices@ == positions(kernel.buffers@, atomics, true, count)
        &&& self.num_inputs == self.input_binding_indices.len()
        &&& self.num_outputs == self.output_binding_indices.len()
        &&& self.kind == settled_kind(
            compute_kind(s),
            self.num_inputs as nat,
            self.num_outputs as nat,
            kernel.body.shared_memories.len() > 0,
        )
        &&& unit_item(kernel.buffers@) == Some(self.unit_item)
        &&& self.unit_item_size_bytes == self.unit_item.bytes() as u32
        &&& data_format(stored_elem(self.unit_item.elem)) == Some(self.data_format_tt)
        &&& self.tile_size_bytes == tile_size(stored_elem(self.unit_item.elem))
        &&& self.num_tiles == num_tiles(
            kernel,
            self.kind,
            requested_num_tiles,
            self.tile_size_bytes as nat,
            self.unit_item,
        )
        &&& self.buffer_item_sizes@ == buffer_sizes(kernel.buffers@)
        &&& self.info_static_len == kernel.body.info_static_len
    }
}

/// The item sizes of the buffers, as the device counts them.
pub open spec fn buffer_sizes(buffers: Seq<KernelArg>) -> Seq<u32> {
    buffers.map_values(|binding: KernelArg| binding.item.bytes() as u32)
}

pub(crate) fn item_sizes(buffers: &Vec<KernelArg>) -> (sizes: Vec<u32>)
    requires
        forall|i: int| 0 <= i < buffers.len() ==> (#[trigger] buffers[i]).item.wf(),
    ensures
        sizes@ == buffer_sizes(buffers@),
{
    let mut sizes: Vec<u32> = Vec::new();
    let mut i: usize = 0;
    while i < buffers.len()
        invariant
            i <= buffers.len(),
            forall|i: int| 0 <= i < buffers.len() ==> (#[trigger] buffers[i]).item.wf(),
            sizes@ == buffer_sizes(buffers@).take(i as int),
        decreases buffers.len() - i,
    {
        sizes.push(buffers[i].item.size() as u32);
        assert(buffer_sizes(buffers@).take(i + 1) =~= buffer_sizes(buffers@).take(i as int).push(
            buffer_sizes(buffers@)[i as int],
        ));
        i += 1;
    }
    assert(buffer_sizes(buffers@).take(i as int) =~= buffer_sizes(buffers@));
    sizes
}

/// Find out what a kernel needs from the code generator, or why it cannot be
/// compiled.
pub fn analyze_kernel(kernel: &ComputeKernel, requested_num_tiles: u32) -> (result: Result<
    TtKernelAnalysis,
    CompileError,
>)
    requires
        kernel.wf(),
    ensures
        match result {
            Ok(analysis) => refusal(*kernel) is None && analysis.describes(
                *kernel,
                requested_num_tiles,
            ) && analysis.unit_item.wf() && analysis.unit_item.bytes() > 0,
            Err(error) => refusal(*kernel) == Some(error),
        },
{
    if kernel.num_tensor_maps > 0 {
        return Err(CompileError::TensorMaps);
    }
    let atomics = uses_atomic_writer_output(&kernel.body.instructions);
    if atomics && kernel.cube_dim.num_elems() != 1 {
        return Err(CompileError::AtomicCubeDim);
    }
    if kernel.body.num_pipelines > 0 {
        return Err(CompileError::Pipelines);
    }
    if kernel.cube_dim.z != 1 {
        return Err(CompileError::CubeDimDepth);
    }
    if let Some(dim) = kernel.cluster_dim {
        if dim.x != 1 || dim.y != 1 || dim.z != 1 {
            return Err(CompileError::Cluster);
        }
    }
    let input_binding_indices = binding_indices(&kernel.buffers, atomics, false);
    let output_binding_indices = binding_indices(&kernel.buffers, atomics, true);
    proof {
        lemma_positions_len(kernel.buffers@, atomics, kernel.buffers.len() as nat);
    }
    let num_inputs: u32 = input_binding_indices.len() as u32;
    let num_outputs: u32 = output_binding_indices.len() as u32;
    if num_outputs == 0 {
        return Err(CompileError::NoOutput);
    }
    if let Some(elem) = find_unsupported(&kernel.buffers) {
        return Err(CompileError::BufferElem(elem));
    }
    let unit_item = match select_unit_item(&kernel.buffers) {
        Some(item) => item,
        None => {
            return Err(CompileError::NoBuffer);
        },
    };
    let (data_format_tt, tile_size_bytes) = match infer_data_format_and_tile_size(
        normalize_buffer_elem(unit_item.elem),
    ) {
        Ok(format) => format,
        Err(error) => {
            return Err(error);
        },
    };
    let buffer_item_sizes = item_sizes(&kernel.buffers);
    let subset = supports_cube_shared_barrier_subset(&kernel.body.instructions);
    let detected = match kind::detect_supported_compute_kind(&kernel.body.instructions) {
        Ok(kind) => kind,
        Err(error) => {
            return Err(error);
        },
    };
    proof {
        kind::law_kind_is_unique(
            kind::effects(kernel.body.instructions@),
            detected,
            compute_kind(kernel.body.instructions@),
        );
    }
    let shares = kernel.body.shared_memories.len() > 0;
    if shares && kernel.cube_dim.num_elems() != 1 && !subset {
        return Err(CompileError::SharedMemory);
    }
    let fits = if matches!(detected, SupportedComputeKind::Generic) {
        true
    } else if binary_op_of(detected).is_some() {
        num_inputs == 2 && num_outputs == 1
    } else {
        num_inputs == 1 && num_outputs == 1
    };
    let kind = if shares || !fits {
        SupportedComputeKind::Generic
    } else {
        detected
    };
    let unit_size: usize = unit_item.size();
    let num_tiles: u32 = if matches!(kind, SupportedComputeKind::Generic) {
        count_tiles(
            kernel.cube_dim.num_elems(),
            scalar_writer::count_tile_units(tile_size_bytes, unit_size),
        )
    } else if requested_num_tiles < 1 {
        1
    } else {
        requested_num_tiles
    };
    Ok(
        TtKernelAnalysis {
            kind,
            num_inputs,
            num_outputs,
            input_binding_indices,
            output_binding_indices,
            num_tiles,
            tile_size_bytes,
            data_format_tt,
            unit_item,
            unit_item_size_bytes: unit_size as u32,
            buffer_item_sizes,
            info_static_len: kernel.body.info_static_len,
        },
    )
}

/// The positions of the inputs of a kernel among its buffers.
pub open spec fn input_positions(kernel: ComputeKernel) -> Seq<usize> {
    positions(
        kernel.buffers@,
        writes_atomics(kernel.body.instructions@),
        false,
        kernel.buffers.len() as nat,
    )
}

/// The positions of the outputs of a kernel among its buffers.
pub open spec fn output_positions(kernel: ComputeKernel) -> Seq<usize> {
    positions(
        kernel.buffers@,
        writes_atomics(kernel.body.instructions@),
        true,
        kernel.buffers.len() as nat,
    )
}

/// The kind that is generated for a kernel.
pub open spec fn generated_kind(kernel: ComputeKernel) -> SupportedComputeKind {
    settled_kind(
        compute_kind(kernel.body.instructions@),
        input_positions(kernel).len(),
        output_positions(kernel).len(),
        kernel.body.shared_memories.len() > 0,
    )
}

/// The size of a tile of a kernel: that of its unit's element, unless the scalar path
/// is asked to follow the pages of its buffers.
pub open spec fn tile_bytes(kernel: ComputeKernel, page_size: Option<u32>) -> nat {
    match page_size {
        Some(page_size) if generated_kind(kernel) is Generic => page_size as nat,
        _ => tile_size(stored_elem(unit_item(kernel.buffers@)->0.elem)),
    }
}

/// The compute kernel of a kind.
pub open spec fn compute_text(kind: SupportedComputeKind) -> Seq<char> {
    if kind is Copy {
        writer::COPY_COMPUTE@
    } else if let Some(op) = binary_op(kind) {
        writer::binary_compute(op)
    } else if let Some(op) = unary_op(kind) {
        writer::unary_compute(op)
    } else {
        writer::NOOP_COMPUTE@
    }
}

/// Whether these are the sources of a kernel. On the tile path the tile reader, the
/// compute kernel of its operation and the tile writer work on tiled buffers; on the
/// scalar path the page reader and the scalar writer work on logical buffers, and the
/// tiles may be split over cores.
pub open spec fn is_generated(
    sources: TtKernelSources,
    kernel: ComputeKernel,
    requested_num_tiles: u32,
    page_size: Option<u32>,
    staged: bool,
) -> bool {
    let inputs = input_positions(kernel);
    let outputs = output_positions(kernel);
    let unit = unit_item(kernel.buffers@)->0;
    let kind = generated_kind(kernel);
    let bytes = tile_bytes(kernel, page_size);
    &&& sources.reader_source@ == (if kind is Generic {
        reader::page_reader(inputs.len(), staged)
    } else {
        reader::tile_reader(inputs.len())
    })
    &&& sources.compute_source@ == compute_text(kind)
    &&& sources.writer_source@ == (if kind is Generic {
        scalar_writer::scalar_writer(
            kernel,
            inputs.len(),
            outputs,
            scalar_writer::tile_units(bytes, unit.bytes()),
        )
    } else {
        writer::tile_writer(1)
    })
    &&& sources.num_inputs == inputs.len()
    &&& sources.num_outputs == outputs.len()
    &&& sources.num_tiles == num_tiles(kernel, kind, requested_num_tiles, bytes, unit)
    &&& sources.tile_size_bytes == bytes
    &&& Some(sources.data_format_tt) == data_format(stored_elem(unit.elem))
    &&& sources.unit_item_size_bytes == unit.bytes() as u32
    &&& sources.io_layout == (if kind is Generic {
        TtIoDataLayout::Logical
    } else {
        TtIoDataLayout::Tiled
    })
    &&& sources.supports_core_partitioning == (kind is Generic)
    &&& sources.input_binding_indices@ == inputs
    &&& sources.output_binding_indices@ == outputs
    &&& sources.buffer_item_sizes@ == buffer_sizes(kernel.buffers@)
    &&& sources.info_static_len == kernel.body.info_static_len
    &&& sources.reader_compile_args@ == Seq::<u32>::empty()
    &&& sources.writer_compile_args@ == Seq::<u32>::empty()
    &&& sources.reader_runtime_args@ == Seq::<u32>::empty()
    &&& sources.writer_runtime_args@ == Seq::<u32>::empty()
    &&& sources.compute_runtime_args@ == Seq::<u32>::empty()
    &&& sources.full_input_staging_tiles == 0
}

/// Generate the sources of a kernel with the scalar path on pages of the given size,
/// the whole first input staged where asked for.
pub fn runtime_sources_from_repr_with_page_size_and_staging(
    repr: &ComputeKernel,
    num_tiles: u32,
    page_size: Option<u32>,
    full_input_staging: bool,
) -> (result: Result<TtKernelSources, CompileError>)
    requires
        repr.wf(),
    ensures
        match result {
            Ok(sources) => refusal(*repr) is None && is_generated(
                sources,
                *repr,
                num_tiles,
                page_size,
                full_input_staging,
            ),
            Err(error) => refusal(*repr) == Some(error),
        },
{
    let mut analysis = match analyze_kernel(repr, num_tiles) {
        Ok(analysis) => analysis,
        Err(error) => {
            return Err(error);
        },
    };
    proof {
        lemma_positions_len(
            repr.buffers@,
            writes_atomics(repr.body.instructions@),
            repr.buffers.len() as nat,
        );
        kind::law_accepted_barriers_are_supported(repr.body.instructions@);
    }
    let sources = if matches!(analysis.kind, SupportedComputeKind::Copy) {
        TtKernelSources::copy_kernel_with_format(
            analysis.num_tiles,
            analysis.tile_size_bytes,
            analysis.data_format_tt,
            analysis.unit_item_size_bytes,
        )
    } else if let Some(op) = binary_op_of(analysis.kind) {
        TtKernelSources::binary_kernel_with_format(
            op,
            analysis.num_tiles,
            analysis.tile_size_bytes,
            analysis.data_format_tt,
            analysis.unit_item_size_bytes,
        )
    } else if let Some(op) = unary_op_of(analysis.kind) {
        TtKernelSources::unary_kernel_with_format(
            op,
            analysis.num_tiles,
            analysis.tile_size_bytes,
            analysis.data_format_tt,
            analysis.unit_item_size_bytes,
        )
    } else {
        if let Some(page_size) = page_size {
            analysis.tile_size_bytes = page_size;
            analysis.num_tiles =
            count_tiles(
                repr.cube_dim.num_elems(),
                scalar_writer::count_tile_units(page_size, analysis.unit_item.size()),
            );
        }
        TtKernelSources::new(
            reader::generate_scalar_reader_source(analysis.num_inputs, full_input_staging),
            writer::generate_noop_compute_source(),
            scalar_writer::generate_scalar_writer_source(repr, &analysis),
            analysis.num_inputs,
            analysis.num_outputs,
            analysis.num_tiles,
            analysis.tile_size_bytes,
            analysis.data_format_tt,
            analysis.unit_item_size_bytes,
        ).with_core_partitioning(true)
    };
    Ok(
        sources.with_binding_indices(
            analysis.input_binding_indices,
            analysis.output_binding_indices,
        ).with_buffer_item_sizes(analysis.buffer_item_sizes).with_info_static_len(
            analysis.info_static_len,
        ),
    )
}

/// Generate the sources of a kernel.
pub fn sources_from_repr(repr: &ComputeKernel, num_tiles: u32) -> (result: Result<
    TtKernelSources,
    CompileError,
>)
    requires
        repr.wf(),
    ensures
        match result {
            Ok(sources) => refusal(*repr) is None && is_generated(
                sources,
                *repr,
                num_tiles,
                None,
                false,
            ),
            Err(error) => refusal(*repr) == Some(error),
        },
{
    runtime_sources_from_repr_with_page_size_and_staging(repr, num_tiles, None, false)
}

/// Generate the sources of a kernel whose tiles the caller takes to be of the given
/// size; a kernel with tiles of another size is refused.
pub fn compile_to_tt_sources(kernel: &ComputeKernel, num_tiles: u32, tile_size_bytes: u32) -> (result: Result<
    TtKernelSources,
    CompileError,
>)
    requires
        kernel.wf(),
    ensures
        match result {
            Ok(sources) => refusal(*kernel) is None && tile_bytes(*kernel, None) == tile_size_bytes
                && is_generated(sources, *kernel, num_tiles, None, false),
            Err(error) => match refusal(*kernel) {
                Some(refused) => error == refused,
                None => tile_bytes(*kernel, None) != tile_size_bytes && error
                    == (CompileError::TileSize {
                    requested: tile_size_bytes,
                    required: tile_bytes(*kernel, None) as u32,
                }),
            },
        },
{
    match sources_from_repr(kernel, num_tiles) {
        Ok(sources) => {
            if tile_size_bytes != sources.tile_size_bytes {
                return Err(
                    CompileError::TileSize {
                        requested: tile_size_bytes,
                        required: sources.tile_size_bytes,
                    },
                );
            }
            Ok(sources)
        },
        Err(error) => Err(error),
    }
}

/// A tile operation is generated only for the buffers that it works on: one output,
/// and one input or two.
pub proof fn law_tile_operations_have_their_shape(kernel: ComputeKernel)
    ensures
        shape_fits(
            generated_kind(kernel),
            input_positions(kernel).len(),
            output_positions(kernel).len(),
        ),
{
}

/// Every buffer of a kernel is an input or an output.
pub proof fn law_inputs_and_outputs_are_all_buffers(kernel: ComputeKernel)
    ensures
        input_positions(kernel).len() + output_positions(kernel).len() == kernel.buffers.len(),
{
    lemma_positions_len(
        kernel.buffers@,
        writes_atomics(kernel.body.instructions@),
        kernel.buffers.len() as nat,
    );
}

/// Whether a buffer is the first that is wanted.
pub open spec fn is_first(buffers: Seq<KernelArg>, at: int, wanted: spec_fn(KernelArg) -> bool) -> bool {
    &&& 0 <= at < buffers.len()
    &&& wanted(buffers[at])
    &&& forall|i: int| 0 <= i < at ==> !wanted(#[trigger] buffers[i])
}

/// Whether no buffer is wanted.
pub open spec fn has_none(buffers: Seq<KernelArg>, wanted: spec_fn(KernelArg) -> bool) -> bool {
    forall|i: int| 0 <= i < buffers.len() ==> !wanted(#[trigger] buffers[i])
}

proof fn lemma_first_item_from(
    buffers: Seq<KernelArg>,
    vis: Visibility,
    scalar: bool,
    from: nat,
    at: int,
)
    requires
        from <= at <= buffers.len(),
        forall|i: int|
            from <= i < at ==> (#[trigger] buffers[i]).vis != vis || (scalar
                && buffers[i].item.vectorization != 1),
        at < buffers.len() ==> buffers[at].vis == vis && (scalar
            ==> buffers[at].item.vectorization == 1),
    ensures
        first_item(buffers, vis, scalar, from) == (if at < buffers.len() {
            Some(buffers[at].item)
        } else {
            None
        }),
    decreases at - from,
{
    if from < at {
        assert(buffers[from as int] == buffers[from as int]);
        lemma_first_item_from(buffers, vis, scalar, from + 1, at);
    }
}

/// The unit of a kernel is the item of its first output of width one. An input decides
/// only where there is no such output: then it is the first input of width one. Where no
/// buffer has width one the first output decides, and where there is no output at all the
/// first buffer.
pub proof fn law_outputs_decide_the_unit(buffers: Seq<KernelArg>, at: int)
    ensures
        ({
            let scalar_output = |b: KernelArg| b.vis is ReadWrite && b.item.vectorization == 1;
            let scalar_input = |b: KernelArg| b.vis is Read && b.item.vectorization == 1;
            let output = |b: KernelArg| b.vis is ReadWrite;
            &&& is_first(buffers, at, scalar_output) ==> unit_item(buffers) == Some(
                buffers[at].item,
            )
            &&& has_none(buffers, scalar_output) && is_first(buffers, at, scalar_input)
                ==> unit_item(buffers) == Some(buffers[at].item)
            &&& has_none(buffers, scalar_output) && has_none(buffers, scalar_input) && is_first(
                buffers,
                at,
                output,
            ) ==> unit_item(buffers) == Some(buffers[at].item)
            &&& has_none(buffers, output) && has_none(buffers, scalar_input) && buffers.len() > 0
                ==> unit_item(buffers) == Some(buffers[0].item)
            &&& buffers.len() == 0 <==> unit_item(buffers) is None
        }),
{
    let scalar_output = |b: KernelArg| b.vis is ReadWrite && b.item.vectorization == 1;
    let scalar_input = |b: KernelArg| b.vis is Read && b.item.vectorization == 1;
    let output = |b: KernelArg| b.vis is ReadWrite;
    let count = buffers.len() as int;
    if is_first(buffers, at, scalar_output) {
        assert(forall|i: int| 0 <= i < at ==> !scalar_output(#[trigger] buffers[i]));
        lemma_first_item_from(buffers, Visibility::ReadWrite, true, 0, at);
    }
    if has_none(buffers, output) {
        assert(forall|i: int| 0 <= i < count ==> !output(#[trigger] buffers[i]));
        assert(has_none(buffers, scalar_output));
        lemma_first_item_from(buffers, Visibility::ReadWrite, false, 0, count);
    }
    if has_none(buffers, scalar_output) {
        assert(forall|i: int| 0 <= i < count ==> !scalar_output(#[trigger] buffers[i]));
        lemma_first_item_from(buffers, Visibility::ReadWrite, true, 0, count);
        if is_first(buffers, at, scalar_input) {
            assert(forall|i: int| 0 <= i < at ==> !scalar_input(#[trigger] buffers[i]));
            lemma_first_item_from(buffers, Visibility::Read, true, 0, at);
        }
        if has_none(buffers, scalar_input) {
            assert(forall|i: int| 0 <= i < count ==> !scalar_input(#[trigger] buffers[i]));
            lemma_first_item_from(buffers, Visibility::Read, true, 0, count);
            if is_first(buffers, at, output) {
                assert(forall|i: int| 0 <= i < at ==> !output(#[trigger] buffers[i]));
                lemma_first_item_from(buffers, Visibility::ReadWrite, false, 0, at);
            }
        }
    }
}

proof fn lemma_positions(buffers: Seq<KernelArg>, atomics: bool, outputs: bool, count: nat)
    requires
        count <= usize::MAX,
    ensures
        ({
            let found = positions(buffers, atomics, outputs, count);
            &&& forall|i: int, j: int| 0 <= i < j < found.len() ==> found[i] < found[j]
            &&& forall|i: int| 0 <= i < found.len() ==> found[i] < count
            &&& forall|p: usize|
                p < count ==> #[trigger] found.contains(p) == (is_output(
                    buffers[p as int],
                    atomics,
                ) == outputs)
        }),
    decreases count,
{
    if count > 0 {
        let shorter = (count - 1) as nat;
        lemma_positions(buffers, atomics, outputs, shorter);
        let before = positions(buffers, atomics, outputs, shorter);
        let found = positions(buffers, atomics, outputs, count);
        assert forall|p: usize| p < count implies #[trigger] found.contains(p) == (is_output(
            buffers[p as int],
            atomics,
        ) == outputs) by {
            if p < shorter {
                assert(before.contains(p) == (is_output(buffers[p as int], atomics) == outputs));
                if before.contains(p) {
                    let k = choose|k: int| 0 <= k < before.len() && before[k] == p;
                    assert(found[k] == p);
                }
                if found.contains(p) {
                    let k = choose|k: int| 0 <= k < found.len() && found[k] == p;
                    assert(before[k] == p);
                }
            } else {
                if found.contains(p) {
                    let k = choose|k: int| 0 <= k < found.len() && found[k] == p;
                    if k < before.len() {
                        assert(before[k] < shorter);
                    }
                }
                if is_output(buffers[p as int], atomics) == outputs {
                    assert(found[before.len() as int] == p);
                }
            }
        }
    }
}

/// The outputs of a kernel are the buffers that may be written, and those of atomics where
/// the kernel updates atomics; all others are its inputs. Both stand in the order of the
/// buffers, each buffer once.
pub proof fn law_outputs_are_what_is_written(kernel: ComputeKernel, at: usize)
    requires
        at < kernel.buffers.len(),
    ensures
        ({
            let buffer = kernel.buffers[at as int];
            let written = buffer.vis is ReadWrite || (buffer.item.elem is Atomic && writes_atomics(
                kernel.body.instructions@,
            ));
            &&& output_positions(kernel).contains(at) <==> written
            &&& input_positions(kernel).contains(at) <==> !written
        }),
        forall|i: int, j: int|
            0 <= i < j < output_positions(kernel).len() ==> output_positions(kernel)[i]
                < output_positions(kernel)[j],
        forall|i: int, j: int|
            0 <= i < j < input_positions(kernel).len() ==> input_positions(kernel)[i]
                < input_positions(kernel)[j],
{
    let atomics = writes_atomics(kernel.body.instructions@);
    lemma_positions(kernel.buffers@, atomics, true, kernel.buffers.len() as nat);
    lemma_positions(kernel.buffers@, atomics, false, kernel.buffers.len() as nat);
}

/// The blocks of an instruction.
pub open spec fn blocks(op: Op) -> Seq<Seq<Instruction>> {
    match op {
        Op::RangeLoop { instructions } => seq![instructions@],
        Op::Loop { instructions } => seq![instructions@],
        Op::If { cond, instructions } => seq![instructions@],
        Op::IfElse { instructions_if, instructions_else } => seq![
            instructions_if@,
            instructions_else@,
        ],
        Op::Switch { instructions_default, instructions_cases } => seq![instructions_default@]
            + instructions_cases@.map_values(|case: SwitchCase| case.instructions@),
        _ => Seq::empty(),
    }
}

proof fn lemma_atomics_anywhere(s: Seq<Instruction>)
    ensures
        writes_atomics(s) <==> exists|i: int|
            0 <= i < s.len() && instruction_writes_atomics(#[trigger] s[i]),
    decreases s.len(),
{
    if s.len() > 0 {
        let rest = s.subrange(1, s.len() as int);
        lemma_atomics_anywhere(rest);
        if writes_atomics(s) {
            if instruction_writes_atomics(s[0]) {
            } else {
                let k = choose|k: int| 0 <= k < rest.len() && instruction_writes_atomics(#[trigger] rest[k]);
                assert(s[k + 1] == rest[k]);
            }
        }
        if exists|i: int| 0 <= i < s.len() && instruction_writes_atomics(#[trigger] s[i]) {
            let k = choose|k: int| 0 <= k < s.len() && instruction_writes_atomics(#[trigger] s[k]);
            if k > 0 {
                assert(rest[k - 1] == s[k]);
            }
        }
    }
}

proof fn lemma_atomics_in_cases(cases: Seq<SwitchCase>)
    ensures
        cases_write_atomics(cases) <==> exists|i: int|
            0 <= i < cases.len() && writes_atomics((#[trigger] cases[i]).instructions@),
    decreases cases.len(),
{
    if cases.len() > 0 {
        let rest = cases.subrange(1, cases.len() as int);
        lemma_atomics_in_cases(rest);
        if cases_write_atomics(cases) {
            if !writes_atomics(cases[0].instructions@) {
                let k = choose|k: int|
                    0 <= k < rest.len() && writes_atomics((#[trigger] rest[k]).instructions@);
                assert(cases[k + 1] == rest[k]);
            }
        }
        if exists|i: int| 0 <= i < cases.len() && writes_atomics((#[trigger] cases[i]).instructions@) {
            let k = choose|k: int|
                0 <= k < cases.len() && writes_atomics((#[trigger] cases[k]).instructions@);
            if k > 0 {
                assert(rest[k - 1] == cases[k]);
            }
        }
    }
}

/// Instructions update atomics where one of them does, or one in one of their blocks,
/// however deep.
pub proof fn law_atomics_are_found_in_blocks(s: Seq<Instruction>)
    ensures
        writes_atomics(s) <==> exists|i: int|
            0 <= i < s.len() && {
                let op = (#[trigger] s[i]).op;
                ||| op is AtomicLoad || op is AtomicStore || op is AtomicAdd || op is AtomicMax
                    || op is AtomicMin || op == Op::Plain(PlainOp::AtomicSub)
                ||| exists|b: int|
                    0 <= b < blocks(op).len() && writes_atomics(#[trigger] blocks(op)[b])
            },
{
    lemma_atomics_anywhere(s);
    assert forall|i: int| 0 <= i < s.len() implies instruction_writes_atomics(#[trigger] s[i]) == ({
        let op = s[i].op;
        ||| op is AtomicLoad || op is AtomicStore || op is AtomicAdd || op is AtomicMax
            || op is AtomicMin || op == Op::Plain(PlainOp::AtomicSub)
        ||| exists|b: int| 0 <= b < blocks(op).len() && writes_atomics(#[trigger] blocks(op)[b])
    }) by {
        let op = s[i].op;
        let all = blocks(op);
        match op {
            Op::RangeLoop { instructions } => {
                assert(all[0] == instructions@);
            },
            Op::Loop { instructions } => {
                assert(all[0] == instructions@);
            },
            Op::If { cond, instructions } => {
                assert(all[0] == instructions@);
            },
            Op::IfElse { instructions_if, instructions_else } => {
                assert(all[0] == instructions_if@);
                assert(all[1] == instructions_else@);
            },
            Op::Switch { instructions_default, instructions_cases } => {
                lemma_atomics_in_cases(instructions_cases@);
                assert(all[0] == instructions_default@);
                assert forall|k: int| 0 <= k < instructions_cases.len() implies all[k + 1] == (
                #[trigger] instructions_cases@[k]).instructions@ by {}
                assert forall|b: int| 0 < b < all.len() implies #[trigger] all[b]
                    == instructions_cases@[b - 1].instructions@ by {}
                if cases_write_atomics(instructions_cases@) {
                    let k = choose|k: int|
                        0 <= k < instructions_cases@.len() && writes_atomics(
                            (#[trigger] instructions_cases@[k]).instructions@,
                        );
                    assert(writes_atomics(all[k + 1]));
                }
            },
            _ => {},
        }
    }
    if writes_atomics(s) {
        let k = choose|k: int| 0 <= k < s.len() && instruction_writes_atomics(#[trigger] s[k]);
        assert(s[k] == s[k]);
    }
}

/// A tile holds 32 rows of 32 elements, save for integers of 32 bits, of which it holds
/// half as many.
pub proof fn law_tiles_hold_their_elements(elem: Elem)
    requires
        data_format(elem) is Some,
    ensures
        elem is I32 || elem is U32 ==> tile_size(elem) == 16 * 32 * elem.bytes(),
        !(elem is I32 || elem is U32) ==> tile_size(elem) == 32 * 32 * elem.bytes(),
{
    if elem is I32 || elem is U32 {
        assert(elem.bytes() == 4);
    }
}

/// The tiles of the scalar path are as few as have room for all units of a cube, and at
/// least one.
pub proof fn law_scalar_tiles_are_as_few_as_can_be(
    kernel: ComputeKernel,
    requested: u32,
    tile_bytes: nat,
    unit: Item,
)
    requires
        kernel.cube_dim.units() >= 0,
        unit.bytes() > 0,
    ensures
        ({
            let tiles = num_tiles(kernel, SupportedComputeKind::Generic, requested, tile_bytes, unit);
            let each = scalar_writer::tile_units(tile_bytes, unit.bytes());
            &&& tiles >= 1
            &&& tiles * each >= kernel.cube_dim.units()
            &&& tiles > 1 ==> (tiles - 1) * each < kernel.cube_dim.units()
            &&& each >= 1
            &&& each * unit.bytes() <= tile_bytes || each == 1
            &&& (each + 1) * unit.bytes() > tile_bytes
        }),
{
    let size = unit.bytes() as int;
    let each = scalar_writer::tile_units(tile_bytes, unit.bytes()) as int;
    let q = tile_bytes as int / size;
    assert(q * size <= tile_bytes && (q + 1) * size > tile_bytes && q >= 0) by (nonlinear_arith)
        requires
            q == tile_bytes as int / size,
            size > 0,
            tile_bytes >= 0,
    ;
    assert((each + 1) * size > tile_bytes) by (nonlinear_arith)
        requires
            (q + 1) * size > tile_bytes,
            each >= q,
            size > 0,
    ;
    math::law_ceil_div_is_least(kernel.cube_dim.units(), each);
    let tiles = num_tiles(kernel, SupportedComputeKind::Generic, requested, tile_bytes, unit);
    let least = math::ceil_div(kernel.cube_dim.units(), each);
    assert(tiles * each >= kernel.cube_dim.units()) by (nonlinear_arith)
        requires
            least * each >= kernel.cube_dim.units(),
            tiles >= least,
            each > 0,
    ;
}

proof fn lemma_positions_grow(
    buffers: Seq<KernelArg>,
    atomics: bool,
    outputs: bool,
    shorter: nat,
    count: nat,
)
    requires
        shorter <= count,
    ensures
        positions(buffers, atomics, outputs, shorter).len() <= positions(
            buffers,
            atomics,
            outputs,
            count,
        ).len(),
        positions(buffers, atomics, outputs, count).take(
            positions(buffers, atomics, outputs, shorter).len() as int,
        ) == positions(buffers, atomics, outputs, shorter),
    decreases count,
{
    let small = positions(buffers, atomics, outputs, shorter);
    let all = positions(buffers, atomics, outputs, count);
    if shorter == count {
        assert(all.take(small.len() as int) =~= small);
    } else {
        lemma_positions_grow(buffers, atomics, outputs, shorter, (count - 1) as nat);
        let before = positions(buffers, atomics, outputs, (count - 1) as nat);
        assert(all.take(small.len() as int) =~= before.take(small.len() as int));
    }
}

proof fn lemma_rank_is_count(buffers: Seq<KernelArg>, atomics: bool, outputs: bool, at: nat, rank: int)
    requires
        at < buffers.len() <= usize::MAX,
        0 <= rank < positions(buffers, atomics, outputs, buffers.len()).len(),
        positions(buffers, atomics, outputs, buffers.len())[rank] == at,
    ensures
        positions(buffers, atomics, outputs, at).len() == rank,
{
    let all = positions(buffers, atomics, outputs, buffers.len());
    let small = positions(buffers, atomics, outputs, at);
    let next = positions(buffers, atomics, outputs, at + 1);
    lemma_positions(buffers, atomics, outputs, buffers.len());
    lemma_positions(buffers, atomics, outputs, at);
    lemma_positions_grow(buffers, atomics, outputs, at, buffers.len());
    lemma_positions_grow(buffers, atomics, outputs, at + 1, buffers.len());
    assert(all.contains(at as usize));
    assert(next == small.push(at as usize));
    assert(all.take(next.len() as int)[small.len() as int] == at);
    if rank < small.len() {
        assert(all[rank] < all[small.len() as int]);
    } else if rank > small.len() {
        assert(all[small.len() as int] < all[rank]);
    }
}

proof fn lemma_outputs_before(buffers: Seq<KernelArg>, atomics: bool, at: nat)
    requires
        at <= buffers.len() <= usize::MAX,
    ensures
        scalar_writer::outputs_before(positions(buffers, atomics, true, buffers.len()), at)
            == positions(buffers, atomics, true, at).len(),
    decreases at,
{
    if at > 0 {
        lemma_outputs_before(buffers, atomics, (at - 1) as nat);
        lemma_positions(buffers, atomics, true, buffers.len());
        let all = positions(buffers, atomics, true, buffers.len());
        let p = (at - 1) as usize;
        assert(all.contains(p) == (is_output(buffers[p as int], atomics) == true));
    }
}

/// The rank of a buffer among the outputs, or among the inputs, is the number of outputs, or
/// inputs, before it.
pub proof fn law_buffers_have_their_ranks(kernel: ComputeKernel, at: nat, rank: int)
    requires
        at < kernel.buffers.len(),
    ensures
        0 <= rank < output_positions(kernel).len() && output_positions(kernel)[rank] == at
            ==> scalar_writer::outputs_before(output_positions(kernel), at) == rank,
        0 <= rank < input_positions(kernel).len() && input_positions(kernel)[rank] == at ==> at
            - scalar_writer::outputs_before(output_positions(kernel), at) == rank,
{
    let atomics = writes_atomics(kernel.body.instructions@);
    let buffers = kernel.buffers@;
    lemma_outputs_before(buffers, atomics, at);
    lemma_positions_len(buffers, atomics, at);
    if 0 <= rank < output_positions(kernel).len() && output_positions(kernel)[rank] == at {
        lemma_rank_is_count(buffers, atomics, true, at, rank);
    }
    if 0 <= rank < input_positions(kernel).len() && input_positions(kernel)[rank] == at {
        lemma_rank_is_count(buffers, atomics, false, at, rank);
    }
}

/// A kernel is compiled if it meets all limits of the device, and refused for no other reason
/// than one that it does not meet.
pub proof fn law_kernels_are_refused_for_a_reason(kernel: ComputeKernel)
    ensures
        ({
            let s = kernel.body.instructions@;
            &&& refusal(kernel) is None <==> {
                &&& kernel.num_tensor_maps == 0
                &&& kernel.body.num_pipelines == 0
                &&& kernel.cube_dim.z == 1
                &&& kernel.cluster_dim matches Some(dim) ==> dim.x == 1 && dim.y == 1 && dim.z == 1
                &&& writes_atomics(s) ==> kernel.cube_dim.units() == 1
                &&& exists|i: int|
                    0 <= i < kernel.buffers.len() && is_output(
                        #[trigger] kernel.buffers[i],
                        writes_atomics(s),
                    )
                &&& forall|i: int|
                    0 <= i < kernel.buffers.len() ==> data_format(
                        stored_elem((#[trigger] kernel.buffers[i]).item.elem),
                    ) is Some
                &&& kind::first_rejection(kind::effects(s)) is None
                &&& kernel.body.shared_memories.len() > 0 && kernel.cube_dim.units() != 1
                    ==> kind::barriers_supported(s)
            }
            &&& refusal(kernel) is Some && refusal(kernel)->0 is TensorMaps
                ==> kernel.num_tensor_maps > 0 || kind::first_rejection(kind::effects(s))
                == refusal(kernel)
            &&& refusal(kernel) is Some && refusal(kernel)->0 is NoOutput ==> forall|i: int|
                0 <= i < kernel.buffers.len() ==> (#[trigger] kernel.buffers[i]).vis is Read
                    || kind::first_rejection(kind::effects(s)) == refusal(kernel)
        }),
{
    let s = kernel.body.instructions@;
    lemma_outputs_are_found(kernel.buffers@, writes_atomics(s), kernel.buffers.len() as nat);
    lemma_unsupported_is_found(kernel.buffers@, 0);
}

proof fn lemma_outputs_are_found(buffers: Seq<KernelArg>, atomics: bool, count: nat)
    requires
        count <= buffers.len(),
    ensures
        positions(buffers, atomics, true, count).len() > 0 <==> exists|i: int|
            0 <= i < count && is_output(#[trigger] buffers[i], atomics),
    decreases count,
{
    if count > 0 {
        lemma_outputs_are_found(buffers, atomics, (count - 1) as nat);
        if is_output(buffers[count - 1], atomics) {
            assert(0 <= count - 1 < count);
        }
    }
}

proof fn lemma_unsupported_is_found(buffers: Seq<KernelArg>, from: nat)
    requires
        from <= buffers.len(),
    ensures
        first_unsupported(buffers, from) is None <==> forall|i: int|
            from <= i < buffers.len() ==> data_format(
                stored_elem((#[trigger] buffers[i]).item.elem),
            ) is Some,
    decreases buffers.len() - from,
{
    if from < buffers.len() {
        lemma_unsupported_is_found(buffers, from + 1);
        law_supported_elements_have_a_format(stored_elem(buffers[from as int].item.elem));
    }
}

/// The device holds the elements that it has a format for, and no others.
pub proof fn law_supported_elements_have_a_format(elem: Elem)
    ensures
        elem_supported(elem) <==> data_format(elem) is Some,
        stored_elem(elem).bytes() == elem.single().bytes(),
        !(stored_elem(elem) is Atomic),
{
}

/// The element that a kernel is refused for stands in one of its buffers, and those of the
/// buffers before it are held.
pub proof fn law_first_unsupported_element_is_named(buffers: Seq<KernelArg>, from: nat)
    requires
        first_unsupported(buffers, from) is Some,
    ensures
        exists|i: int|
            {
                &&& from <= i < buffers.len()
                &&& stored_elem((#[trigger] buffers[i]).item.elem) == first_unsupported(
                    buffers,
                    from,
                )->0
                &&& data_format(stored_elem(buffers[i].item.elem)) is None
                &&& forall|j: int|
                    from <= j < i ==> data_format(
                        stored_elem((#[trigger] buffers[j]).item.elem),
                    ) is Some
            },
    decreases buffers.len() - from,
{
    law_supported_elements_have_a_format(stored_elem(buffers[from as int].item.elem));
    if elem_supported(stored_elem(buffers[from as int].item.elem)) {
        law_first_unsupported_element_is_named(buffers, from + 1);
        let i = choose|i: int|
            {
                &&& from + 1 <= i < buffers.len()
                &&& stored_elem((#[trigger] buffers[i]).item.elem) == first_unsupported(
                    buffers,
                    from + 1,
                )->0
                &&& data_format(stored_elem(buffers[i].item.elem)) is None
                &&& forall|j: int|
                    from + 1 <= j < i ==> data_format(
                        stored_elem((#[trigger] buffers[j]).item.elem),
                    ) is Some
            };
        assert(stored_elem(buffers[i].item.elem) == first_unsupported(buffers, from)->0);
    } else {
        assert(stored_elem(buffers[from as int].item.elem) == first_unsupported(buffers, from)->0);
    }
}

/// A kernel runs on tiles only where its operation has the buffers for it and no memory is
/// shared, and then it does; its sources then work on tiled buffers and on one core, and all
/// others on logical buffers that may be split over cores.
pub proof fn law_tile_path_is_taken_where_it_fits(
    sources: TtKernelSources,
    kernel: ComputeKernel,
    requested_num_tiles: u32,
    page_size: Option<u32>,
    staged: bool,
)
    requires
        is_generated(sources, kernel, requested_num_tiles, page_size, staged),
    ensures
        ({
            let asked = compute_kind(kernel.body.instructions@);
            let operands: nat = if binary_op(asked) is Some {
                2
            } else {
                1
            };
            &&& sources.io_layout is Tiled <==> {
                &&& !(asked is Generic)
                &&& kernel.body.shared_memories.len() == 0
                &&& input_positions(kernel).len() == operands
                &&& output_positions(kernel).len() == 1
            }
            &&& sources.io_layout is Tiled ==> sources.compute_source@ == compute_text(asked)
            &&& sources.io_layout is Tiled <==> !sources.supports_core_partitioning
            &&& sources.num_tiles >= 1
            &&& sources.io_layout is Tiled && requested_num_tiles > 0 ==> sources.num_tiles
                == requested_num_tiles
            &&& sources.io_layout is Logical && page_size is Some ==> Some(sources.tile_size_bytes)
                == page_size
            &&& sources.num_inputs == sources.input_binding_indices.len()
            &&& sources.num_outputs == sources.output_binding_indices.len()
        }),
{
}

} // verus!

//! Why a kernel cannot be compiled for the device.
use crate::ir::Elem;
use crate::text;
use vstd::prelude::*;

verus! {

/// Why a kernel was refused.
#[derive(Debug)]
pub enum CompileError {
    TensorMaps,
    AtomicCubeDim,
    Pipelines,
    CubeDimDepth,
    Cluster,
    NoOutput,
    NoBuffer,
    BufferElem(Elem),
    TileFormat(Elem),
    SharedMemory,
    Barrier,
    Atomic,
    /// An instruction without a lowering, by its description.
    Instruction(String),
    TileSize { requested: u32, required: u32 },
}

pub const BUFFER_ELEM: &'static str = "TT-Metal Phase 1 supports BF16/F16/F32, reinterpret-friendly integer buffer elements, and the proven Atomic<u32> load/store buffer shape only, found $0";

pub const TILE_FORMAT: &'static str = "TT-Metal Phase 1 cannot infer a tile data format for $0";

pub const INSTRUCTION: &'static str = "TT-Metal Phase 1 does not support instruction: $0";

pub const TILE_SIZE: &'static str = "TT-Metal tile size mismatch: caller requested $0 bytes, but kernel element type requires $1 bytes";

impl CompileError {
    /// The message of each reason.
    pub open spec fn message(self) -> Seq<char> {
        match self {
            CompileError::TensorMaps => "TT-Metal Phase 1 does not support tensor maps"@,
            CompileError::AtomicCubeDim => "TT-Metal atomic bring-up currently only supports single-unit cube dimensions"@,
            CompileError::Pipelines => "TT-Metal Phase 1 does not support pipeline operations"@,
            CompileError::CubeDimDepth => "TT-Metal Phase 1 currently only supports z=1 cube dimensions"@,
            CompileError::Cluster => "TT-Metal Phase 1 does not support distributed or clustered execution"@,
            CompileError::NoOutput => "TT-Metal backend currently requires at least one writable output buffer"@,
            CompileError::NoBuffer => "TT-Metal backend requires at least one buffer binding"@,
            CompileError::BufferElem(elem) => text::fill(BUFFER_ELEM@, seq![elem.name()]),
            CompileError::TileFormat(elem) => text::fill(TILE_FORMAT@, seq![elem.name()]),
            CompileError::SharedMemory => "TT-Metal shared-memory bring-up currently only supports single-unit scratch or the proven cube-shared barrier memcpy subset"@,
            CompileError::Barrier => "TT-Metal shared-memory/barrier bring-up currently only supports unit-local barriers and the proven cube-shared memcpy_async subset"@,
            CompileError::Atomic => "TT-Metal atomic bring-up currently only supports single-unit Atomic<i32>/Atomic<u32>/Atomic<f32> load/store/add/min/max"@,
            CompileError::Instruction(debug) => text::fill(INSTRUCTION@, seq![debug@]),
            CompileError::TileSize { requested, required } => text::fill(
                TILE_SIZE@,
                seq![text::dec(requested as nat), text::dec(required as nat)],
            ),
        }
    }

    /// The message that explains the refusal.
    pub fn reason(&self) -> (text: String)
        ensures
            text@ == self.message(),
    {
        match self {
            CompileError::TensorMaps => "TT-Metal Phase 1 does not support tensor maps".to_owned(),
            CompileError::AtomicCubeDim => "TT-Metal atomic bring-up currently only supports single-unit cube dimensions".to_owned(),
            CompileError::Pipelines => "TT-Metal Phase 1 does not support pipeline operations".to_owned(),
            CompileError::CubeDimDepth => "TT-Metal Phase 1 currently only supports z=1 cube dimensions".to_owned(),
            CompileError::Cluster => "TT-Metal Phase 1 does not support distributed or clustered execution".to_owned(),
            CompileError::NoOutput => "TT-Metal backend currently requires at least one writable output buffer".to_owned(),
            CompileError::NoBuffer => "TT-Metal backend requires at least one buffer binding".to_owned(),
            CompileError::BufferElem(elem) => text::fill1(BUFFER_ELEM, elem.ident()),
            CompileError::TileFormat(elem) => text::fill1(TILE_FORMAT, elem.ident()),
            CompileError::SharedMemory => "TT-Metal shared-memory bring-up currently only supports single-unit scratch or the proven cube-shared barrier memcpy subset".to_owned(),
            CompileError::Barrier => "TT-Metal shared-memory/barrier bring-up currently only supports unit-local barriers and the proven cube-shared memcpy_async subset".to_owned(),
            CompileError::Atomic => "TT-Metal atomic bring-up currently only supports single-unit Atomic<i32>/Atomic<u32>/Atomic<f32> load/store/add/min/max".to_owned(),
            CompileError::Instruction(debug) => text::fill1(INSTRUCTION, debug.as_str()),
            CompileError::TileSize { requested, required } => text::fill2(
                TILE_SIZE,
                text::dec_text(*requested as u64).as_str(),
                text::dec_text(*required as u64).as_str(),
            ),
        }
    }
}

} // verus!

//! The kernel representation that the code generator reads.
//!
//! Only what code generation looks at is kept: operands carry their type and the
//! text under which they appear in a C++ source, instructions carry their rendered
//! text beside the operation they perform.
use crate::compile;
use vstd::prelude::*;

verus! {

/// The scalar behind an atomic element.
#[derive(Clone, Copy, Debug, PartialEq, Eq, Structural)]
pub enum AtomicKind {
    I32,
    I64,
    U32,
    U64,
    F16,
    BF16,
    F32,
    F64,
}

impl AtomicKind {
    pub open spec fn elem(self) -> Elem {
        match self {
            AtomicKind::I32 => Elem::I32,
            AtomicKind::I64 => Elem::I64,
            AtomicKind::U32 => Elem::U32,
            AtomicKind::U64 => Elem::U64,
            AtomicKind::F16 => Elem::F16,
            AtomicKind::BF16 => Elem::BF16,
            AtomicKind::F32 => Elem::F32,
            AtomicKind::F64 => Elem::F64,
        }
    }

    /// The plain element of the same scalar.
    pub fn as_elem(self) -> (elem: Elem)
        ensures
            elem == self.elem(),
    {
        match self {
            AtomicKind::I32 => Elem::I32,
            AtomicKind::I64 => Elem::I64,
            AtomicKind::U32 => Elem::U32,
            AtomicKind::U64 => Elem::U64,
            AtomicKind::F16 => Elem::F16,
            AtomicKind::BF16 => Elem::BF16,
            AtomicKind::F32 => Elem::F32,
            AtomicKind::F64 => Elem::F64,
        }
    }
}

/// A scalar element type.
#[derive(Clone, Copy, Debug, PartialEq, Eq)]
pub enum Elem {
    F16,
    F16x2,
    F32,
    F64,
    BF16,
    BF16x2,
    TF32,
    I8,
    I16,
    I32,
    I64,
    U8,
    U16,
    U32,
    U64,
    Bool,
    Atomic(AtomicKind),
    /// An element that the backend knows only by its size in bytes and its short name.
    Other { size: usize, name: &'static str },
}

impl Elem {
    pub open spec fn bytes(self) -> nat
        decreases
            (if self is Atomic {
                1int
            } else {
                0int
            }),
    {
        match self {
            Elem::I8 | Elem::U8 | Elem::Bool => 1,
            Elem::F16 | Elem::BF16 | Elem::I16 | Elem::U16 => 2,
            Elem::F16x2 | Elem::BF16x2 | Elem::F32 | Elem::TF32 | Elem::I32 | Elem::U32 => 4,
            Elem::F64 | Elem::I64 | Elem::U64 => 8,
            Elem::Atomic(kind) => kind.elem().bytes(),
            Elem::Other { size, name } => size as nat,
        }
    }

    /// The size in bytes.
    pub fn size(self) -> (size: usize)
        ensures
            size == self.bytes(),
        decreases
            (if self is Atomic {
                1int
            } else {
                0int
            }),
    {
        match self {
            Elem::I8 | Elem::U8 | Elem::Bool => 1,
            Elem::F16 | Elem::BF16 | Elem::I16 | Elem::U16 => 2,
            Elem::F16x2 | Elem::BF16x2 | Elem::F32 | Elem::TF32 | Elem::I32 | Elem::U32 => 4,
            Elem::F64 | Elem::I64 | Elem::U64 => 8,
            Elem::Atomic(kind) => kind.as_elem().size(),
            Elem::Other { size, .. } => size,
        }
    }

    pub open spec fn single(self) -> Elem {
        match self {
            Elem::F16x2 => Elem::F16,
            Elem::BF16x2 => Elem::BF16,
            other => other,
        }
    }

    /// The element that a packed pair is made of; any other element itself.
    pub fn unpacked(self) -> (elem: Elem)
        ensures
            elem == self.single(),
    {
        match self {
            Elem::F16x2 => Elem::F16,
            Elem::BF16x2 => Elem::BF16,
            other => other,
        }
    }

    pub open spec fn name(self) -> Seq<char>
        decreases
            (if self is Atomic {
                1int
            } else {
                0int
            }),
    {
        match self {
            Elem::F16 => "f16"@,
            Elem::F16x2 => "f16x2"@,
            Elem::F32 => "f32"@,
            Elem::F64 => "f64"@,
            Elem::BF16 => "bf16"@,
            Elem::BF16x2 => "bf16x2"@,
            Elem::TF32 => "tf32"@,
            Elem::I8 => "i8"@,
            Elem::I16 => "i16"@,
            Elem::I32 => "i32"@,
            Elem::I64 => "i64"@,
            Elem::U8 => "u8"@,
            Elem::U16 => "u16"@,
            Elem::U32 => "u32"@,
            Elem::U64 => "u64"@,
            Elem::Bool => "bool"@,
            Elem::Atomic(kind) => kind.elem().name(),
            Elem::Other { size, name } => name@,
        }
    }

    /// The short name used in messages.
    pub fn ident(self) -> (name: &'static str)
        ensures
            name@ == self.name(),
        decreases
            (if self is Atomic {
                1int
            } else {
                0int
            }),
    {
        match self {
            Elem::F16 => "f16",
            Elem::F16x2 => "f16x2",
            Elem::F32 => "f32",
            Elem::F64 => "f64",
            Elem::BF16 => "bf16",
            Elem::BF16x2 => "bf16x2",
            Elem::TF32 => "tf32",
            Elem::I8 => "i8",
            Elem::I16 => "i16",
            Elem::I32 => "i32",
            Elem::I64 => "i64",
            Elem::U8 => "u8",
            Elem::U16 => "u16",
            Elem::U32 => "u32",
            Elem::U64 => "u64",
            Elem::Bool => "bool",
            Elem::Atomic(kind) => kind.as_elem().ident(),
            Elem::Other { name, .. } => name,
        }
    }

    pub open spec fn is_same(self, other: Elem) -> bool {
        match self {
            Elem::Other { size, name } => other is Other && other->size == size && other->name@
                == name@,
            _ => self == other,
        }
    }

    /// Whether two elements are the same.
    pub fn same(self, other: Elem) -> (same: bool)
        ensures
            same == self.is_same(other),
    {
        match (self, other) {
            (Elem::F16, Elem::F16) => true,
            (Elem::F16x2, Elem::F16x2) => true,
            (Elem::F32, Elem::F32) => true,
            (Elem::F64, Elem::F64) => true,
            (Elem::BF16, Elem::BF16) => true,
            (Elem::BF16x2, Elem::BF16x2) => true,
            (Elem::TF32, Elem::TF32) => true,
            (Elem::I8, Elem::I8) => true,
            (Elem::I16, Elem::I16) => true,
            (Elem::I32, Elem::I32) => true,
            (Elem::I64, Elem::I64) => true,
            (Elem::U8, Elem::U8) => true,
            (Elem::U16, Elem::U16) => true,
            (Elem::U32, Elem::U32) => true,
            (Elem::U64, Elem::U64) => true,
            (Elem::Bool, Elem::Bool) => true,
            (Elem::Atomic(kind), Elem::Atomic(other_kind)) => kind == other_kind,
            (
                Elem::Other { size, name },
                Elem::Other { size: other_size, name: other_name },
            ) => size == other_size && name.to_owned() == other_name.to_owned(),
            _ => false,
        }
    }
}

/// An element with a vector width.
#[derive(Clone, Copy, Debug, PartialEq, Eq)]
pub struct Item {
    pub elem: Elem,
    pub vectorization: usize,
}

impl Item {
    pub open spec fn bytes(self) -> nat {
        self.elem.bytes() * self.vectorization as nat
    }

    /// An item whose size a `usize` can count.
    pub open spec fn wf(self) -> bool {
        self.bytes() <= usize::MAX
    }

    /// Whether a `usize` can count the size of the item.
    pub fn is_well_formed(self) -> (ok: bool)
        ensures
            ok == self.wf(),
    {
        self.elem.size().checked_mul(self.vectorization).is_some()
    }

    /// The size in bytes.
    pub fn size(self) -> (size: usize)
        requires
            self.wf(),
        ensures
            size == self.bytes(),
    {
        self.elem.size() * self.vectorization
    }

    pub open spec fn is_same(self, other: Item) -> bool {
        self.elem.is_same(other.elem) && self.vectorization == other.vectorization
    }

    /// Whether two items are the same.
    pub fn same(self, other: Item) -> (same: bool)
        ensures
            same == self.is_same(other),
    {
        self.elem.same(other.elem) && self.vectorization == other.vectorization
    }

    pub fn is_atomic(self) -> (atomic: bool)
        ensures
            atomic == (self.elem is Atomic),
    {
        matches!(self.elem, Elem::Atomic(_))
    }
}

/// What a variable stands for, as far as code generation tells variables apart.
#[derive(Clone, Copy, Debug, PartialEq, Eq, Structural)]
pub enum VariableKind {
    GlobalInputArray,
    GlobalOutputArray,
    Constant,
    UnitPos,
    UnitPosPlane,
    AbsolutePos,
    Other,
}

/// An operand: its role, its type, and its texts as a value and as the target of
/// an assignment.
#[derive(Debug)]
pub struct Variable {
    pub kind: VariableKind,
    pub item: Item,
    pub name: String,
    pub left: String,
}

impl Variable {
    pub open spec fn is_same(self, other: Variable) -> bool {
        self.kind == other.kind && self.item.is_same(other.item) && self.name@ == other.name@
    }

    /// Whether two operands are the same variable.
    pub fn same(&self, other: &Variable) -> (same: bool)
        ensures
            same == self.is_same(*other),
    {
        self.kind == other.kind && self.item.same(other.item) && self.name == other.name
    }
}

#[derive(Debug)]
pub struct Unary {
    pub input: Variable,
    pub out: Variable,
}

#[derive(Debug)]
pub struct Binary {
    pub lhs: Variable,
    pub rhs: Variable,
    pub out: Variable,
}

/// Who takes part in a barrier.
#[derive(Clone, Copy, Debug, PartialEq, Eq, Structural)]
pub enum BarrierLevel {
    Unit,
    Cube,
}

#[derive(Debug)]
pub struct BarrierCopy {
    pub source: String,
    pub destination: String,
    pub source_length: String,
    pub offset_source: String,
    pub offset_out: String,
    pub cooperative: bool,
}

#[derive(Debug)]
pub enum BarrierOp {
    Declare { level: BarrierLevel },
    Init { level: BarrierLevel },
    ArriveAndWait { level: BarrierLevel },
    MemCopyAsync(BarrierCopy),
    /// Any other barrier operation; none is supported.
    Other,
}

/// An operation across the units of a plane.
#[derive(Debug)]
pub enum WarpInstruction {
    ReduceSum { input: Variable, out: Variable },
    ReduceProd { input: Variable, out: Variable },
    ReduceMax { input: Variable, out: Variable },
    ReduceMin { input: Variable, out: Variable },
    InclusiveSum { input: Variable, out: Variable },
    ExclusiveSum { input: Variable, out: Variable },
    InclusiveProd { input: Variable, out: Variable },
    ExclusiveProd { input: Variable, out: Variable },
    Broadcast { input: Variable, id: Variable, out: Variable },
    Shuffle { input: Variable, src_lane: Variable, out: Variable },
    ShuffleXor { input: Variable, mask: Variable, out: Variable },
    ShuffleUp { input: Variable, delta: Variable, out: Variable },
    ShuffleDown { input: Variable, delta: Variable, out: Variable },
    All { input: Variable, out: Variable },
    Any { input: Variable, out: Variable },
    Ballot { input: Variable, out: Variable },
    Elect { out: Variable },
    ElectFallback { out: Variable },
}

/// Operations whose operands code generation never looks at.
#[derive(Clone, Copy, Debug, PartialEq, Eq, Structural)]
pub enum PlainOp {
    DeclareVariable,
    Metadata,
    ExtendedMetadata,
    ConstLength,
    SliceLength,
    Comment,
    Line,
    Return,
    IndexAssign,
    Bitcast,
    Unreachable,
    Not,
    Or,
    And,
    Min,
    Max,
    Slice,
    CheckedSlice,
    ReinterpretSlice,
    Copy,
    CopyBulk,
    SaturatingAdd,
    SaturatingSub,
    HiMul,
    CountBits,
    ReverseBits,
    BitwiseNot,
    LeadingZeros,
    TrailingZeros,
    FindFirstSet,
    VectorSum,
    Break,
    Modulo,
    BitwiseAnd,
    BitwiseOr,
    BitwiseXor,
    ShiftLeft,
    ShiftRight,
    SyncThreads,
    SyncWarp,
    ThreadFence,
    ProxyAsyncToSharedFence,
    BulkCommitGroup,
    BulkWaitGroup,
    BulkWaitGroupRead,
    Wmma,
    AtomicSwap,
    AtomicSub,
    AtomicAnd,
    AtomicOr,
    AtomicXor,
    AtomicCas,
    Neg,
    Magnitude,
    FastMagnitude,
    Normalize,
    FastNormalize,
    FastRecip,
    Remainder,
    Log1p,
    Sinh,
    Cosh,
    ArcCos,
    ArcSin,
    ArcTan,
    ArcSinh,
    ArcCosh,
    ArcTanh,
    Degrees,
    Radians,
    ArcTan2,
    Powf,
    FastPowf,
    Powi,
    Hypot,
    Rhypot,
    Clamp,
    IsNan,
    IsInf,
    Round,
    Ceil,
    Trunc,
    Floor,
    Fma,
    VecInit,
    Dot,
    TmaReplacePointer,
    /// An operation that the backend does not know.
    Unknown,
}

/// Arithmetic that the matrix and vector engines may carry out on whole tiles.
#[derive(Clone, Copy, Debug, PartialEq, Eq, Structural)]
pub enum MathOp {
    Add,
    Sub,
    Mul,
    Div,
    FastDiv,
    Abs,
    Sqrt,
    FastSqrt,
    InverseSqrt,
    FastInverseSqrt,
    Sin,
    FastSin,
    Cos,
    FastCos,
    Tan,
    Tanh,
    FastTanh,
    Exp,
    FastExp,
    Log,
    FastLog,
}

#[derive(Clone, Copy, Debug, PartialEq, Eq, Structural)]
pub enum Comparison {
    Equal,
    NotEqual,
    Lower,
    Greater,
    LowerEqual,
    GreaterEqual,
}

/// The operands of an atomic update.
#[derive(Clone, Copy, Debug, PartialEq, Eq)]
pub struct AtomicUpdate {
    pub lhs: Item,
    pub rhs: Item,
    pub out: Item,
}

#[derive(Debug)]
pub struct SwitchCase {
    pub instructions: Vec<Instruction>,
}

/// What an instruction does.
#[derive(Debug)]
pub enum Op {
    Plain(PlainOp),
    /// Tile arithmetic with the type of its result.
    Math(MathOp, Item),
    Assign(Unary),
    SpecialCast(Unary),
    Index { list: Variable, out: Variable },
    Select { then: Variable, out: Variable },
    Compare(Comparison, Binary),
    If { cond: Variable, instructions: Vec<Instruction> },
    IfElse { instructions_if: Vec<Instruction>, instructions_else: Vec<Instruction> },
    RangeLoop { instructions: Vec<Instruction> },
    Loop { instructions: Vec<Instruction> },
    Switch { instructions_default: Vec<Instruction>, instructions_cases: Vec<SwitchCase> },
    Barrier(BarrierOp),
    AtomicLoad(Item),
    AtomicStore(Item),
    AtomicAdd(AtomicUpdate),
    AtomicMax(AtomicUpdate),
    AtomicMin(AtomicUpdate),
    Warp(WarpInstruction),
}

/// An operation with its C++ text and the text that describes it in messages.
#[derive(Debug)]
pub struct Instruction {
    pub op: Op,
    pub text: String,
    pub debug: String,
}

/// How a kernel may access a buffer.
#[derive(Clone, Copy, Debug, PartialEq, Eq, Structural)]
pub enum Visibility {
    Read,
    ReadWrite,
}

/// A buffer that a kernel is launched with.
#[derive(Clone, Copy, Debug, PartialEq, Eq)]
pub struct KernelArg {
    pub id: u32,
    pub item: Item,
    pub vis: Visibility,
}

/// The extent of a cube in units.
#[derive(Clone, Copy, Debug, PartialEq, Eq, Structural)]
pub struct CubeDim {
    pub x: u32,
    pub y: u32,
    pub z: u32,
}

impl CubeDim {
    pub open spec fn units(self) -> int {
        self.x * self.y * self.z
    }

    /// The number of units.
    pub fn num_elems(self) -> (units: u32)
        requires
            self.x * self.y <= u32::MAX,
            self.units() <= u32::MAX,
        ensures
            units == self.units(),
    {
        self.x * self.y * self.z
    }
}

#[derive(Clone, Copy, Debug, PartialEq, Eq)]
pub enum SharedMemory {
    Array { index: u32, item: Item, length: usize, align: usize },
    Value { index: u32, item: Item, align: usize },
}

/// An array of constants, with the text of each value.
#[derive(Debug)]
pub struct ConstArray {
    pub index: u32,
    pub item: Item,
    pub size: u32,
    pub values: Vec<String>,
}

#[derive(Clone, Copy, Debug, PartialEq, Eq)]
pub struct LocalArray {
    pub index: u32,
    pub item: Item,
    pub size: u32,
}

/// Which of the position built-ins a kernel reads.
#[derive(Clone, Copy, Debug, PartialEq, Eq, Structural)]
pub struct CubeIndexFlags {
    pub absolute_pos: bool,
    pub cube_count: bool,
    pub cube_dim: bool,
    pub cube_pos: bool,
    pub cube_pos_tuple: bool,
    pub plane_dim: bool,
    pub plane_dim_checked: bool,
    pub plane_pos: bool,
    pub unit_pos: bool,
    pub unit_pos_tuple: bool,
    pub unit_pos_plane: bool,
}

/// A group of scalars of one type.
#[derive(Clone, Copy, Debug, PartialEq, Eq)]
pub struct ScalarGroup {
    pub elem: Elem,
    pub count: usize,
}

/// Where the scalars and the metadata stand inside the info block, in bytes, and
/// the C++ definition of that block.
#[derive(Debug)]
pub struct Info {
    pub scalar_offsets: Vec<usize>,
    pub sized_meta_offset: Option<usize>,
    pub dynamic_meta_offset: usize,
    pub definition: String,
}

#[derive(Debug)]
pub struct Body {
    pub instructions: Vec<Instruction>,
    pub shared_memories: Vec<SharedMemory>,
    pub num_pipelines: usize,
    pub const_arrays: Vec<ConstArray>,
    pub local_arrays: Vec<LocalArray>,
    pub info_static_len: usize,
    pub has_dynamic_meta: bool,
    pub address_type: Item,
}

/// A kernel ready for code generation.
#[derive(Debug)]
pub struct ComputeKernel {
    pub buffers: Vec<KernelArg>,
    pub num_tensor_maps: usize,
    pub scalars: Vec<ScalarGroup>,
    pub cube_dim: CubeDim,
    pub cluster_dim: Option<CubeDim>,
    pub body: Body,
    pub info: Info,
    pub items: Vec<Item>,
    pub indexes: CubeIndexFlags,
}

impl ComputeKernel {
    /// What the machine's integers ask of a kernel: sizes that a `usize` can count, a
    /// cube whose units a `u32` can count, and units that have a size at all.
    pub open spec fn wf(self) -> bool {
        &&& self.cube_dim.x * self.cube_dim.y <= u32::MAX
        &&& self.cube_dim.units() <= u32::MAX
        &&& self.buffers.len() <= u32::MAX - 32
        &&& forall|i: int| 0 <= i < self.buffers.len() ==> (#[trigger] self.buffers[i]).item.wf()
        &&& compile::unit_item(self.buffers@) matches Some(unit) ==> unit.bytes() > 0
        &&& forall|i: int| 0 <= i < self.items.len() ==> (#[trigger] self.items[i]).wf()
        &&& forall|i: int|
            0 <= i < self.body.shared_memories.len() ==> shared_memory_wf(
                #[trigger] self.body.shared_memories[i],
            )
        &&& self.buffers.len() + 7 + self.info.dynamic_meta_offset / 4 <= u32::MAX
    }

    /// Whether the machine's integers can count what is counted of the kernel.
    pub fn is_well_formed(&self) -> (ok: bool)
        ensures
            ok == self.wf(),
    {
        assert(0 <= self.cube_dim.x * self.cube_dim.y <= u32::MAX * u32::MAX) by (nonlinear_arith)
            requires
                self.cube_dim.x <= u32::MAX,
                self.cube_dim.y <= u32::MAX,
        ;
        let plane: u64 = self.cube_dim.x as u64 * self.cube_dim.y as u64;
        if plane > u32::MAX as u64 {
            return false;
        }
        assert(0 <= plane * self.cube_dim.z <= u32::MAX * u32::MAX) by (nonlinear_arith)
            requires
                plane <= u32::MAX,
                self.cube_dim.z <= u32::MAX,
        ;
        if plane * self.cube_dim.z as u64 > u32::MAX as u64 {
            return false;
        }
        if self.buffers.len() as u64 > u32::MAX as u64 - 32 {
            return false;
        }
        if self.buffers.len() as u64 + 7 > u32::MAX as u64 || (self.info.dynamic_meta_offset / 4)
            as u64 > u32::MAX as u64 - (self.buffers.len() as u64 + 7) {
            return false;
        }
        let mut i: usize = 0;
        while i < self.buffers.len()
            invariant
                i <= self.buffers.len(),
                forall|j: int| 0 <= j < i ==> (#[trigger] self.buffers[j]).item.wf(),
            decreases self.buffers.len() - i,
        {
            if !self.buffers[i].item.is_well_formed() {
                assert(!self.buffers@[i as int].item.wf());
                return false;
            }
            i += 1;
        }
        if let Some(unit) = compile::select_unit_item(&self.buffers) {
            if unit.size() == 0 {
                return false;
            }
        }
        let mut i: usize = 0;
        while i < self.items.len()
            invariant
                i <= self.items.len(),
                forall|j: int| 0 <= j < i ==> (#[trigger] self.items[j]).wf(),
            decreases self.items.len() - i,
        {
            if !self.items[i].is_well_formed() {
                assert(!self.items@[i as int].wf());
                return false;
            }
            i += 1;
        }
        let mut i: usize = 0;
        while i < self.body.shared_memories.len()
            invariant
                i <= self.body.shared_memories.len(),
                forall|j: int|
                    0 <= j < i ==> shared_memory_wf(#[trigger] self.body.shared_memories[j]),
            decreases self.body.shared_memories.len() - i,
        {
            if !self.body.shared_memories[i].is_well_formed() {
                assert(!shared_memory_wf(self.body.shared_memories@[i as int]));
                return false;
            }
            i += 1;
        }
        true
    }
}

impl SharedMemory {
    /// Whether a `usize` can count the size of the memory.
    pub fn is_well_formed(&self) -> (ok: bool)
        ensures
            ok == shared_memory_wf(*self),
    {
        match self {
            SharedMemory::Array { item, length, .. } => item.is_well_formed()
                && length.checked_mul(item.size()).is_some(),
            SharedMemory::Value { item, .. } => item.is_well_formed(),
        }
    }
}

/// A shared array whose size in bytes a `usize` can count.
pub open spec fn shared_memory_wf(memory: SharedMemory) -> bool {
    match memory {
        SharedMemory::Array { index, item, length, align } => item.wf() && length * item.bytes()
            <= usize::MAX,
        SharedMemory::Value { index, item, align } => item.wf(),
    }
}

} // verus!

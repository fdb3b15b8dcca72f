//! How types, built-ins and single instructions are written in the device's C++.
use crate::ir::{Elem, Item, SharedMemory, Variable};
use crate::text;
use vstd::prelude::*;

verus! {

/// The C++ dialect of the device.
#[derive(Clone, Copy, Debug, Default, PartialEq, Eq, Hash)]
pub struct TtMetalDialect;

/// Extra definitions that an instruction may ask for; there are none.
#[derive(Clone, Copy, Debug, PartialEq, Eq, Hash)]
pub enum TtExtension {
    NoExtension,
}

/// The position built-ins of a kernel.
#[derive(Clone, Copy, Debug, PartialEq, Eq, Structural)]
pub enum CubeBuiltin {
    AbsolutePosBaseName,
    AbsolutePos,
    AbsolutePosX,
    AbsolutePosY,
    AbsolutePosZ,
    CubeCountBaseName,
    CubeCount,
    CubeCountX,
    CubeCountY,
    CubeCountZ,
    CubeDimBaseName,
    CubeDim,
    CubeDimX,
    CubeDimY,
    CubeDimZ,
    CubePosBaseName,
    CubePos,
    CubePosX,
    CubePosY,
    CubePosZ,
    UnitPosBaseName,
    UnitPos,
    UnitPosX,
    UnitPosY,
    UnitPosZ,
    PlaneDim,
    PlaneDimChecked,
    PlanePos,
    UnitPosPlane,
    ClusterPos,
    ClusterPosX,
    ClusterPosY,
    ClusterPosZ,
}

/// The C++ name of an element.
pub open spec fn elem_text(elem: Elem) -> Seq<char>
    decreases
            (if elem is Atomic {
                1int
            } else {
                0int
            }),
{
    match elem {
        Elem::F16 => "uint16_t"@,
        Elem::F16x2 => "uint32_t"@,
        Elem::F32 => "float"@,
        Elem::F64 => "double"@,
        Elem::BF16 | Elem::BF16x2 => "bfloat16"@,
        Elem::TF32 => "float"@,
        Elem::I8 => "int8_t"@,
        Elem::I16 => "int16_t"@,
        Elem::I32 => "int32_t"@,
        Elem::I64 => "int64_t"@,
        Elem::U8 => "uint8_t"@,
        Elem::U16 => "uint16_t"@,
        Elem::U32 => "uint32_t"@,
        Elem::U64 => "uint64_t"@,
        Elem::Bool => "bool"@,
        Elem::Atomic(kind) => elem_text(kind.elem()),
        Elem::Other { size, name } => "uint32_t"@,
    }
}

/// The C++ name of an item: that of its element, with the width behind it where it
/// is a vector.
pub open spec fn item_text(item: Item) -> Seq<char> {
    if item.vectorization == 1 {
        elem_text(item.elem)
    } else {
        elem_text(item.elem) + text::dec(item.vectorization as nat)
    }
}

/// The name of a position built-in.
pub open spec fn builtin_text(builtin: CubeBuiltin) -> Seq<char> {
    match builtin {
        CubeBuiltin::AbsolutePosBaseName | CubeBuiltin::AbsolutePos => "absolute_pos"@,
        CubeBuiltin::AbsolutePosX => "i"@,
        CubeBuiltin::AbsolutePosY | CubeBuiltin::AbsolutePosZ => "0"@,
        CubeBuiltin::CubeCountBaseName | CubeBuiltin::CubeCount => "cube_count"@,
        CubeBuiltin::CubeCountX => "cube_count_x"@,
        CubeBuiltin::CubeCountY => "cube_count_y"@,
        CubeBuiltin::CubeCountZ => "cube_count_z"@,
        CubeBuiltin::CubeDimBaseName | CubeBuiltin::CubeDim => "cube_dim"@,
        CubeBuiltin::CubeDimX => "cube_dim_x"@,
        CubeBuiltin::CubeDimY => "cube_dim_y"@,
        CubeBuiltin::CubeDimZ => "cube_dim_z"@,
        CubeBuiltin::CubePosBaseName | CubeBuiltin::CubePos => "cube_pos"@,
        CubeBuiltin::CubePosX => "cube_pos_x"@,
        CubeBuiltin::CubePosY => "cube_pos_y"@,
        CubeBuiltin::CubePosZ => "cube_pos_z"@,
        CubeBuiltin::UnitPosBaseName | CubeBuiltin::UnitPos => "unit_pos"@,
        CubeBuiltin::UnitPosX => "unit_pos_x"@,
        CubeBuiltin::UnitPosY => "unit_pos_y"@,
        CubeBuiltin::UnitPosZ => "unit_pos_z"@,
        CubeBuiltin::PlaneDim | CubeBuiltin::PlaneDimChecked => "32"@,
        CubeBuiltin::PlanePos => "0"@,
        CubeBuiltin::UnitPosPlane => "i % 32"@,
        CubeBuiltin::ClusterPos | CubeBuiltin::ClusterPosX | CubeBuiltin::ClusterPosY
        | CubeBuiltin::ClusterPosZ => "0"@,
    }
}

pub const INCLUDES: &'static str = "#include <limits>\n#include \"api/compute/common.h\"\n#include \"api/compute/compute_kernel_api.h\"\n";

pub const SHARED_ARRAY: &'static str = "$0// TT shared scratch array size: $1, $2 bytes\n$0alignas($3) $4 shared_memory_$5[$1];\n";

pub const SHARED_VALUE: &'static str = "$0// TT shared scratch value size: $1 bytes\n$0alignas($2) $3 shared_memory_$4;\n";

pub const ATOMIC_LOAD: &'static str = "$0 = *$1;\n";

pub const ATOMIC_STORE: &'static str = "*$0 = $1;\n";

pub const SATURATING_ADD_UNSIGNED: &'static str = "(($0) > (std::numeric_limits<$2>::max() - ($1)) ? std::numeric_limits<$2>::max() : ($0) + ($1))";

pub const SATURATING_ADD_SIGNED: &'static str = "((($1) > 0 && ($0) > (std::numeric_limits<$2>::max() - ($1))) ? std::numeric_limits<$2>::max() : ((($1) < 0 && ($0) < (std::numeric_limits<$2>::min() - ($1))) ? std::numeric_limits<$2>::min() : ($0) + ($1)))";

pub const PLAIN_ADD: &'static str = "($0) + ($1)";

pub const SATURATING_SUB_UNSIGNED: &'static str = "(($0) < ($1) ? $2(0) : ($0) - ($1))";

pub const SATURATING_SUB_SIGNED: &'static str = "((($1) > 0 && ($0) < (std::numeric_limits<$2>::min() + ($1))) ? std::numeric_limits<$2>::min() : ((($1) < 0 && ($0) > (std::numeric_limits<$2>::max() + ($1))) ? std::numeric_limits<$2>::max() : ($0) - ($1)))";

pub const PLAIN_SUB: &'static str = "($0) - ($1)";

pub const POPCOUNT_64: &'static str = "$0(__builtin_popcountll(uint64_t($1)))";

pub const POPCOUNT_32: &'static str = "$0(__builtin_popcount(uint32_t($1)))";

pub const REVERSE_BITS_64: &'static str = "([&]() -> $0 { uint64_t v = uint64_t($1); v = ((v >> 1) & 0x5555555555555555ull) | ((v & 0x5555555555555555ull) << 1); v = ((v >> 2) & 0x3333333333333333ull) | ((v & 0x3333333333333333ull) << 2); v = ((v >> 4) & 0x0F0F0F0F0F0F0F0Full) | ((v & 0x0F0F0F0F0F0F0F0Full) << 4); v = ((v >> 8) & 0x00FF00FF00FF00FFull) | ((v & 0x00FF00FF00FF00FFull) << 8); v = ((v >> 16) & 0x0000FFFF0000FFFFull) | ((v & 0x0000FFFF0000FFFFull) << 16); v = (v >> 32) | (v << 32); return $0(v); }())";

pub const REVERSE_BITS_32: &'static str = "([&]() -> $0 { uint32_t v = uint32_t($1); v = ((v >> 1) & 0x55555555u) | ((v & 0x55555555u) << 1); v = ((v >> 2) & 0x33333333u) | ((v & 0x33333333u) << 2); v = ((v >> 4) & 0x0F0F0F0Fu) | ((v & 0x0F0F0F0Fu) << 4); v = ((v >> 8) & 0x00FF00FFu) | ((v & 0x00FF00FFu) << 8); v = (v >> 16) | (v << 16); return $0(v >> $2); }())";

pub const FIND_FIRST_SET_64: &'static str = "$0(__builtin_ffsll(uint64_t($1)))";

pub const FIND_FIRST_SET_32: &'static str = "$0(__builtin_ffs(uint32_t($1)))";

pub const LEADING_ZEROS_64: &'static str = "(($1) == 0 ? $0(64) : $0(__builtin_clzll(uint64_t($1))))";

pub const LEADING_ZEROS_32: &'static str = "(($1) == 0 ? $0(32) : $0(__builtin_clz(uint32_t($1))))";

pub const LEADING_ZEROS_16: &'static str = "(($1) == 0 ? $0(16) : $0(__builtin_clz(uint32_t($1)) - 16))";

pub const LEADING_ZEROS_8: &'static str = "(($1) == 0 ? $0(8) : $0(__builtin_clz(uint32_t($1)) - 24))";

pub const TRAILING_ZEROS_64: &'static str = "(($1) == 0 ? $0(64) : $0(__builtin_ctzll(uint64_t($1))))";

pub const TRAILING_ZEROS_32: &'static str = "(($1) == 0 ? $0(32) : $0(__builtin_ctz(uint32_t($1))))";

pub const TRAILING_ZEROS_16: &'static str = "(($1) == 0 ? $0(16) : $0(__builtin_ctz(uint32_t($1))))";

pub const TRAILING_ZEROS_8: &'static str = "(($1) == 0 ? $0(8) : $0(__builtin_ctz(uint32_t($1))))";

/// The larger of a declared alignment and one.
pub open spec fn alignment(align: usize) -> nat {
    if align == 0 {
        1
    } else {
        align as nat
    }
}

/// The declaration of a piece of shared memory, each line behind `indent`.
pub open spec fn shared_memory_text(memory: SharedMemory, indent: Seq<char>) -> Seq<char> {
    match memory {
        SharedMemory::Array { index, item, length, align } => text::fill(
            SHARED_ARRAY@,
            seq![
                indent,
                text::dec(length as nat),
                text::dec((length * item.bytes()) as nat),
                text::dec(alignment(align)),
                item_text(item),
                text::dec(index as nat),
            ],
        ),
        SharedMemory::Value { index, item, align } => text::fill(
            SHARED_VALUE@,
            seq![
                indent,
                text::dec(item.bytes()),
                text::dec(alignment(align)),
                item_text(item),
                text::dec(index as nat),
            ],
        ),
    }
}

/// The declaration of a piece of shared memory, each line behind `indent`.
pub fn shared_memory_declaration(memory: &SharedMemory, indent: &str) -> (result: String)
    requires
        crate::ir::shared_memory_wf(*memory),
    ensures
        result@ == shared_memory_text(*memory, indent@),
{
    match memory {
        SharedMemory::Array { index, item, length, align } => {
            let align: usize = if *align == 0 {
                1
            } else {
                *align
            };
            text::fill6(
                SHARED_ARRAY,
                indent,
                text::dec_text(*length as u64).as_str(),
                text::dec_text((*length * item.size()) as u64).as_str(),
                text::dec_text(align as u64).as_str(),
                TtMetalDialect::compile_item(*item).as_str(),
                text::dec_text(*index as u64).as_str(),
            )
        },
        SharedMemory::Value { index, item, align } => {
            let align: usize = if *align == 0 {
                1
            } else {
                *align
            };
            text::fill5(
                SHARED_VALUE,
                indent,
                text::dec_text(item.size() as u64).as_str(),
                text::dec_text(align as u64).as_str(),
                TtMetalDialect::compile_item(*item).as_str(),
                text::dec_text(*index as u64).as_str(),
            )
        },
    }
}

pub open spec fn is_signed(elem: Elem) -> bool {
    elem is I8 || elem is I16 || elem is I32 || elem is I64
}

pub open spec fn is_unsigned(elem: Elem) -> bool {
    elem is U8 || elem is U16 || elem is U32 || elem is U64
}

pub open spec fn is_wide(elem: Elem) -> bool {
    elem is I64 || elem is U64
}

/// The expression template for an integer of 64, 32, 16 or any other width.
pub open spec fn by_width(
    elem: Elem,
    wide: Seq<char>,
    word: Seq<char>,
    half: Seq<char>,
    other: Seq<char>,
) -> Seq<char> {
    match elem {
        Elem::I64 | Elem::U64 => wide,
        Elem::I32 | Elem::U32 => word,
        Elem::I16 | Elem::U16 => half,
        _ => other,
    }
}

fn choose_by_width<'a>(
    elem: Elem,
    wide: &'a str,
    word: &'a str,
    half: &'a str,
    other: &'a str,
) -> (template: &'a str)
    ensures
        template@ == by_width(elem, wide@, word@, half@, other@),
{
    match elem {
        Elem::I64 | Elem::U64 => wide,
        Elem::I32 | Elem::U32 => word,
        Elem::I16 | Elem::U16 => half,
        _ => other,
    }
}

/// The sum of two numbers: at most the largest number of their type, at least the smallest,
/// where they are integers.
pub open spec fn saturating_sum(lhs: Seq<char>, rhs: Seq<char>, elem: Elem) -> Seq<char> {
    if is_unsigned(elem) {
        text::fill(SATURATING_ADD_UNSIGNED@, seq![lhs, rhs, elem_text(elem)])
    } else if is_signed(elem) {
        text::fill(SATURATING_ADD_SIGNED@, seq![lhs, rhs, elem_text(elem)])
    } else {
        text::fill(PLAIN_ADD@, seq![lhs, rhs])
    }
}

/// The difference of two numbers: at most the largest number of their type, at least the
/// smallest, where they are integers.
pub open spec fn saturating_difference(lhs: Seq<char>, rhs: Seq<char>, elem: Elem) -> Seq<char> {
    if is_unsigned(elem) {
        text::fill(SATURATING_SUB_UNSIGNED@, seq![lhs, rhs, elem_text(elem)])
    } else if is_signed(elem) {
        text::fill(SATURATING_SUB_SIGNED@, seq![lhs, rhs, elem_text(elem)])
    } else {
        text::fill(PLAIN_SUB@, seq![lhs, rhs])
    }
}

/// The number of bits that are set.
pub open spec fn bit_count(input: Seq<char>, input_elem: Elem, out_elem: Elem) -> Seq<char> {
    text::fill(
        if is_wide(input_elem) {
            POPCOUNT_64@
        } else {
            POPCOUNT_32@
        },
        seq![elem_text(out_elem), input],
    )
}

/// The bits in reverse; narrow results are shifted down from the word they are reversed in.
pub open spec fn reversed_bits(input: Seq<char>, out_elem: Elem) -> Seq<char> {
    if is_wide(out_elem) {
        text::fill(REVERSE_BITS_64@, seq![elem_text(out_elem), input])
    } else {
        text::fill(
            REVERSE_BITS_32@,
            seq![elem_text(out_elem), input, text::dec(((4 - out_elem.bytes()) * 8) as nat)],
        )
    }
}

/// The place of the lowest bit that is set.
pub open spec fn first_set_bit(input: Seq<char>, input_elem: Elem, out_elem: Elem) -> Seq<char> {
    text::fill(
        if is_wide(input_elem) {
            FIND_FIRST_SET_64@
        } else {
            FIND_FIRST_SET_32@
        },
        seq![elem_text(out_elem), input],
    )
}

/// The number of zeros above the highest bit that is set.
pub open spec fn leading_zeros(input: Seq<char>, input_elem: Elem, out_elem: Elem) -> Seq<char> {
    text::fill(
        by_width(
            input_elem,
            LEADING_ZEROS_64@,
            LEADING_ZEROS_32@,
            LEADING_ZEROS_16@,
            LEADING_ZEROS_8@,
        ),
        seq![elem_text(out_elem), input],
    )
}

/// The number of zeros below the lowest bit that is set.
pub open spec fn trailing_zeros(input: Seq<char>, input_elem: Elem, out_elem: Elem) -> Seq<char> {
    text::fill(
        by_width(
            input_elem,
            TRAILING_ZEROS_64@,
            TRAILING_ZEROS_32@,
            TRAILING_ZEROS_16@,
            TRAILING_ZEROS_8@,
        ),
        seq![elem_text(out_elem), input],
    )
}

/// The update of an atomic: the old value is loaded, the new one computed and stored.
pub open spec fn atomic_update(
    atomic: Seq<char>,
    out: Seq<char>,
    update: Seq<char>,
    tmp: Seq<char>,
) -> Seq<char> {
    text::fill(ATOMIC_LOAD@, seq![out, atomic]) + update + text::fill(
        ATOMIC_STORE@,
        seq![atomic, tmp],
    )
}

impl TtMetalDialect {
    pub fn compile_includes() -> (result: String)
        ensures
            result@ == INCLUDES@,
    {
        INCLUDES.to_owned()
    }

    /// No extension needs a definition.
    pub fn compile_extensions(_extensions: &Vec<TtExtension>) -> (result: String)
        ensures
            result@.len() == 0,
    {
        String::new()
    }

    pub fn compile_elem(elem: Elem) -> (name: &'static str)
        ensures
            name@ == elem_text(elem),
        decreases
            (if elem is Atomic {
                1int
            } else {
                0int
            }),
    {
        match elem {
            Elem::F16 => "uint16_t",
            Elem::F16x2 => "uint32_t",
            Elem::F32 => "float",
            Elem::F64 => "double",
            Elem::BF16 | Elem::BF16x2 => "bfloat16",
            Elem::TF32 => "float",
            Elem::I8 => "int8_t",
            Elem::I16 => "int16_t",
            Elem::I32 => "int32_t",
            Elem::I64 => "int64_t",
            Elem::U8 => "uint8_t",
            Elem::U16 => "uint16_t",
            Elem::U32 => "uint32_t",
            Elem::U64 => "uint64_t",
            Elem::Bool => "bool",
            Elem::Atomic(kind) => Self::compile_elem(kind.as_elem()),
            Elem::Other { .. } => "uint32_t",
        }
    }

    pub fn compile_item(item: Item) -> (name: String)
        ensures
            name@ == item_text(item),
    {
        let mut name = Self::compile_elem(item.elem).to_owned();
        if item.vectorization == 1 {
            return name;
        }
        name.append(text::dec_text(item.vectorization as u64).as_str());
        name
    }

    pub fn compile_shared_memory_declaration(shared: &SharedMemory) -> (result: String)
        requires
            crate::ir::shared_memory_wf(*shared),
        ensures
            result@ == shared_memory_text(*shared, ""@),
    {
        shared_memory_declaration(shared, "")
    }

    /// Every kernel has the same signature: its arguments are read at run time.
    pub fn compile_kernel_signature() -> (result: String)
        ensures
            result@ == "void kernel_main()\n"@,
    {
        "void kernel_main()\n".to_owned()
    }

    pub fn compile_builtin(builtin: CubeBuiltin) -> (name: &'static str)
        ensures
            name@ == builtin_text(builtin),
    {
        match builtin {
            CubeBuiltin::AbsolutePosBaseName | CubeBuiltin::AbsolutePos => "absolute_pos",
            CubeBuiltin::AbsolutePosX => "i",
            CubeBuiltin::AbsolutePosY | CubeBuiltin::AbsolutePosZ => "0",
            CubeBuiltin::CubeCountBaseName | CubeBuiltin::CubeCount => "cube_count",
            CubeBuiltin::CubeCountX => "cube_count_x",
            CubeBuiltin::CubeCountY => "cube_count_y",
            CubeBuiltin::CubeCountZ => "cube_count_z",
            CubeBuiltin::CubeDimBaseName | CubeBuiltin::CubeDim => "cube_dim",
            CubeBuiltin::CubeDimX => "cube_dim_x",
            CubeBuiltin::CubeDimY => "cube_dim_y",
            CubeBuiltin::CubeDimZ => "cube_dim_z",
            CubeBuiltin::CubePosBaseName | CubeBuiltin::CubePos => "cube_pos",
            CubeBuiltin::CubePosX => "cube_pos_x",
            CubeBuiltin::CubePosY => "cube_pos_y",
            CubeBuiltin::CubePosZ => "cube_pos_z",
            CubeBuiltin::UnitPosBaseName | CubeBuiltin::UnitPos => "unit_pos",
            CubeBuiltin::UnitPosX => "unit_pos_x",
            CubeBuiltin::UnitPosY => "unit_pos_y",
            CubeBuiltin::UnitPosZ => "unit_pos_z",
            CubeBuiltin::PlaneDim | CubeBuiltin::PlaneDimChecked => "32",
            CubeBuiltin::PlanePos => "0",
            CubeBuiltin::UnitPosPlane => "i % 32",
            CubeBuiltin::ClusterPos | CubeBuiltin::ClusterPosX | CubeBuiltin::ClusterPosY
            | CubeBuiltin::ClusterPosZ => "0",
        }
    }

    pub fn compile_unit_pos_computation() -> (result: String)
        ensures
            result@ == text::fill(
                "$0 $1 = unit_idx;\n"@,
                seq![elem_text(Elem::U32), builtin_text(CubeBuiltin::UnitPos)],
            ),
    {
        text::fill2(
            "$0 $1 = unit_idx;\n",
            Self::compile_elem(Elem::U32),
            Self::compile_builtin(CubeBuiltin::UnitPos),
        )
    }

    pub fn compile_atomic_load(input: &Variable, out: &Variable) -> (result: String)
        ensures
            result@ == text::fill(ATOMIC_LOAD@, seq![out.left@, input.name@]),
    {
        text::fill2(ATOMIC_LOAD, out.left.as_str(), input.name.as_str())
    }

    pub fn compile_atomic_store(input: &Variable, out: &Variable) -> (result: String)
        ensures
            result@ == text::fill(ATOMIC_STORE@, seq![out.name@, input.name@]),
    {
        text::fill2(ATOMIC_STORE, out.name.as_str(), input.name.as_str())
    }

    /// An atomic addition, maximum or minimum: load the old value, compute the new
    /// one into `tmp` by the text of `update`, and store it.
    pub fn compile_atomic_update(lhs: &Variable, out: &Variable, update: &str, tmp: &str) -> (result: String)
        ensures
            result@ == atomic_update(lhs.name@, out.left@, update@, tmp@),
    {
        let mut result = text::fill2(ATOMIC_LOAD, out.left.as_str(), lhs.name.as_str());
        result.append(update);
        result.append(text::fill2(ATOMIC_STORE, lhs.name.as_str(), tmp).as_str());
        result
    }

    pub fn compile_saturating_add(lhs: &str, rhs: &str, item: Item) -> (result: String)
        ensures
            result@ == saturating_sum(lhs@, rhs@, item.elem),
    {
        let name = Self::compile_elem(item.elem);
        match item.elem {
            Elem::U8 | Elem::U16 | Elem::U32 | Elem::U64 => text::fill3(
                SATURATING_ADD_UNSIGNED,
                lhs,
                rhs,
                name,
            ),
            Elem::I8 | Elem::I16 | Elem::I32 | Elem::I64 => text::fill3(
                SATURATING_ADD_SIGNED,
                lhs,
                rhs,
                name,
            ),
            _ => text::fill2(PLAIN_ADD, lhs, rhs),
        }
    }

    pub fn compile_saturating_sub(lhs: &str, rhs: &str, item: Item) -> (result: String)
        ensures
            result@ == saturating_difference(lhs@, rhs@, item.elem),
    {
        let name = Self::compile_elem(item.elem);
        match item.elem {
            Elem::U8 | Elem::U16 | Elem::U32 | Elem::U64 => text::fill3(
                SATURATING_SUB_UNSIGNED,
                lhs,
                rhs,
                name,
            ),
            Elem::I8 | Elem::I16 | Elem::I32 | Elem::I64 => text::fill3(
                SATURATING_SUB_SIGNED,
                lhs,
                rhs,
                name,
            ),
            _ => text::fill2(PLAIN_SUB, lhs, rhs),
        }
    }

    pub fn compile_instruction_popcount_scalar(input: &str, input_elem: Elem, out_elem: Elem) -> (result: String)
        ensures
            result@ == bit_count(input@, input_elem, out_elem),
    {
        let template = match input_elem {
            Elem::I64 | Elem::U64 => POPCOUNT_64,
            _ => POPCOUNT_32,
        };
        text::fill2(template, Self::compile_elem(out_elem), input)
    }

    /// Narrow results are shifted down from the word they are reversed in.
    pub fn compile_instruction_reverse_bits_scalar(input: &str, out_elem: Elem) -> (result: String)
        requires
            is_wide(out_elem) || out_elem.bytes() <= 4,
        ensures
            result@ == reversed_bits(input@, out_elem),
    {
        let name = Self::compile_elem(out_elem);
        match out_elem {
            Elem::I64 | Elem::U64 => text::fill2(REVERSE_BITS_64, name, input),
            _ => {
                let shift: usize = (4 - out_elem.size()) * 8;
                text::fill3(REVERSE_BITS_32, name, input, text::dec_text(shift as u64).as_str())
            },
        }
    }

    pub fn compile_instruction_find_first_set(input: &str, input_elem: Elem, out_elem: Elem) -> (result: String)
        ensures
            result@ == first_set_bit(input@, input_elem, out_elem),
    {
        let template = match input_elem {
            Elem::I64 | Elem::U64 => FIND_FIRST_SET_64,
            _ => FIND_FIRST_SET_32,
        };
        text::fill2(template, Self::compile_elem(out_elem), input)
    }

    pub fn compile_instruction_leading_zeros_scalar(input: &str, input_elem: Elem, out_elem: Elem) -> (result: String)
        ensures
            result@ == leading_zeros(input@, input_elem, out_elem),
    {
        let template = choose_by_width(
            input_elem,
            LEADING_ZEROS_64,
            LEADING_ZEROS_32,
            LEADING_ZEROS_16,
            LEADING_ZEROS_8,
        );
        text::fill2(template, Self::compile_elem(out_elem), input)
    }

    pub fn compile_instruction_trailing_zeros_scalar(input: &str, input_elem: Elem, out_elem: Elem) -> (result: String)
        ensures
            result@ == trailing_zeros(input@, input_elem, out_elem),
    {
        let template = choose_by_width(
            input_elem,
            TRAILING_ZEROS_64,
            TRAILING_ZEROS_32,
            TRAILING_ZEROS_16,
            TRAILING_ZEROS_8,
        );
        text::fill2(template, Self::compile_elem(out_elem), input)
    }

    pub fn compile_instruction_max_function_name() -> (name: &'static str)
        ensures
            name@ == "max"@,
    {
        "max"
    }

    pub fn compile_instruction_min_function_name() -> (name: &'static str)
        ensures
            name@ == "min"@,
    {
        "min"
    }

    /// A core runs one unit at a time, so a shuffle hands back the unit's own value.
    pub fn compile_warp_shuffle(var: &str) -> (result: String)
        ensures
            result@ == var@,
    {
        var.to_owned()
    }

    /// Of one unit, all and any are the unit's own value.
    pub fn compile_warp_vote(input: &str) -> (result: String)
        ensures
            result@ == input@,
    {
        input.to_owned()
    }

    /// There is no thread mask.
    pub fn compile_warp_ballot() -> (result: String)
        ensures
            result@ == "0"@,
    {
        "0".to_owned()
    }

    pub fn compile_unreachable() -> (result: String)
        ensures
            result@ == "__builtin_unreachable();"@,
    {
        "__builtin_unreachable();".to_owned()
    }
}

} // verus!

//! Pieces that the reader and the writer kernels have in common.
use crate::text;
use vstd::prelude::*;

verus! {

/// The first circular buffer that carries an output.
pub const FIRST_OUTPUT_BUFFER: u32 = 16;

pub const PROLOGUE: &'static str = "#include <cstdint>\n\nvoid kernel_main() {\n";

/// The body of a kernel that moves nothing.
pub const IDLE: &'static str = "    (void)get_arg_val<uint32_t>(0);\n}\n";

pub const INPUT_BUFFER: &'static str = "    constexpr uint32_t cb_in$0 = $0;\n";

pub const OUTPUT_BUFFER: &'static str = "    constexpr uint32_t cb_out$0 = $1;\n";

pub const FIRST_ACCESSOR: &'static str = "    constexpr auto $1$0_args = TensorAccessorArgs<0>();\n    const auto $1$0 = TensorAccessor($1$0_args, $2$0_addr);\n";

pub const NEXT_ACCESSOR: &'static str = "    constexpr auto $1$0_args = TensorAccessorArgs<$1$3_args.next_compile_time_args_offset()>();\n    const auto $1$0 = TensorAccessor($1$0_args, $2$0_addr);\n";

/// The accessor of one buffer. The first takes its compile-time arguments from the
/// start, each other from where those of its predecessor end.
pub open spec fn accessor(prefix: Seq<char>, address: Seq<char>, index: nat) -> Seq<char> {
    if index == 0 {
        text::fill(FIRST_ACCESSOR@, seq![text::dec(index), prefix, address])
    } else {
        text::fill(
            NEXT_ACCESSOR@,
            seq![text::dec(index), prefix, address, text::dec((index - 1) as nat)],
        )
    }
}

/// The accessors of the first `count` buffers.
pub open spec fn accessors(prefix: Seq<char>, address: Seq<char>, count: nat) -> Seq<char>
    decreases count,
{
    if count == 0 {
        Seq::empty()
    } else {
        accessors(prefix, address, (count - 1) as nat) + accessor(
            prefix,
            address,
            (count - 1) as nat,
        )
    }
}

pub fn accessors_text(prefix: &str, address: &str, count: u32) -> (result: String)
    ensures
        result@ == accessors(prefix@, address@, count as nat),
{
    let mut result = String::new();
    let mut index: u32 = 0;
    while index < count
        invariant
            index <= count,
            result@ == accessors(prefix@, address@, index as nat),
        decreases count - index,
    {
        let number = text::dec_text(index as u64);
        let one = if index == 0 {
            text::fill3(FIRST_ACCESSOR, number.as_str(), prefix, address)
        } else {
            let previous = text::dec_text((index - 1) as u64);
            text::fill4(NEXT_ACCESSOR, number.as_str(), prefix, address, previous.as_str())
        };
        result.append(one.as_str());
        index += 1;
    }
    result
}

/// The circular buffers of the first `count` outputs.
pub open spec fn output_buffers(count: nat) -> Seq<char>
    decreases count,
{
    if count == 0 {
        Seq::empty()
    } else {
        output_buffers((count - 1) as nat) + text::fill(
            OUTPUT_BUFFER@,
            seq![
                text::dec((count - 1) as nat),
                text::dec((FIRST_OUTPUT_BUFFER + count - 1) as nat),
            ],
        )
    }
}

pub fn output_buffers_text(count: u32) -> (result: String)
    requires
        count <= u32::MAX - FIRST_OUTPUT_BUFFER,
    ensures
        result@ == output_buffers(count as nat),
{
    let mut result = String::new();
    let mut index: u32 = 0;
    while index < count
        invariant
            index <= count <= u32::MAX - FIRST_OUTPUT_BUFFER,
            result@ == output_buffers(index as nat),
        decreases count - index,
    {
        let number = text::dec_text(index as u64);
        let buffer = text::dec_text((FIRST_OUTPUT_BUFFER + index) as u64);
        result.append(text::fill2(OUTPUT_BUFFER, number.as_str(), buffer.as_str()).as_str());
        index += 1;
    }
    result
}

/// A template with the number `n` for its argument.
pub open spec fn with_number(template: Seq<char>, n: nat) -> Seq<char> {
    text::fill(template, seq![text::dec(n)])
}

pub fn with_number_text(template: &str, n: u32) -> (result: String)
    ensures
        result@ == with_number(template@, n as nat),
{
    text::fill1(template, text::dec_text(n as u64).as_str())
}

} // verus!

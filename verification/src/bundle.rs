//! Source bundles for the TT-Metalium host API: a scaffold of the host program and of
//! the reader, compute and writer kernels, with what is known of a kernel in comments.
use crate::ir::{CubeDim, Visibility};
use crate::text;
use crate::warp;
use vstd::prelude::*;

verus! {

/// How bundles are made.
#[derive(Clone, Copy, Debug, PartialEq, Eq, Structural)]
pub struct MetaliumCompilationOptions {
    /// Emit the scaffold of the host program beside those of the kernels.
    pub include_host_stub: bool,
}

impl Default for MetaliumCompilationOptions {
    fn default() -> (options: Self)
        ensures
            options.include_host_stub,
    {
        MetaliumCompilationOptions { include_host_stub: true }
    }
}

/// The compiler of bundles.
#[derive(Clone, Copy, Debug, Default, PartialEq, Eq)]
pub struct MetaliumCompiler;

/// One source of a bundle.
#[derive(Debug)]
pub struct MetaliumKernelSection {
    pub name: &'static str,
    pub source: String,
}

/// The sources of a kernel, with notes on what they leave open.
#[derive(Debug)]
pub struct MetaliumSourceBundle {
    pub kernel_name: String,
    pub notes: Vec<String>,
    pub sections: Vec<MetaliumKernelSection>,
}

pub type MetaliumExecutable = MetaliumSourceBundle;

/// A buffer or a tensor map of a kernel, with the text of its type.
#[derive(Debug)]
pub struct BindingInfo {
    pub id: u32,
    pub visibility: Visibility,
    pub ty: String,
}

/// A group of scalars of a kernel, with the text of its type.
#[derive(Debug)]
pub struct ScalarInfo {
    pub ty: String,
    pub count: usize,
}

/// What a bundle says of a kernel.
#[derive(Debug)]
pub struct KernelInfo {
    pub name: String,
    pub buffers: Vec<BindingInfo>,
    pub tensor_maps: Vec<BindingInfo>,
    pub scalars: Vec<ScalarInfo>,
    pub cube_dim: CubeDim,
}

/// The position of the first line feed, from `from` on, or the length of the text.
pub open spec fn line_end(content: Seq<char>, from: nat) -> nat
    decreases content.len() - from,
{
    if from >= content.len() {
        content.len()
    } else if content[from as int] == '\n' {
        from
    } else {
        line_end(content, from + 1)
    }
}

/// A line ends inside the text, not before it starts.
pub proof fn lemma_line_end(content: Seq<char>, from: nat)
    requires
        from <= content.len(),
    ensures
        from <= line_end(content, from) <= content.len(),
    decreases content.len() - from,
{
    if from < content.len() && content[from as int] != '\n' {
        lemma_line_end(content, from + 1);
    }
}

/// A line without the carriage return that belongs to its end.
pub open spec fn line_text(line: Seq<char>, ended: bool) -> Seq<char> {
    if ended && line.len() > 0 && line.last() == '\r' {
        line.drop_last()
    } else {
        line
    }
}

/// The lines of a text from `from` on, each behind four blanks. Lines end with a line
/// feed, or with a carriage return and a line feed; the last may have no end.
pub open spec fn indented(content: Seq<char>, from: nat) -> Seq<char>
    decreases content.len() - from,
{
    if from >= content.len() {
        Seq::empty()
    } else {
        let end = line_end(content, from);
        proof {
            lemma_line_end(content, from);
        }
        "    "@ + line_text(
            content.subrange(from as int, end as int),
            end < content.len(),
        ) + "\n"@ + (if end < content.len() {
            indented(content, end + 1)
        } else {
            Seq::empty()
        })
    }
}

/// The lines of a text, each behind four blanks.
pub fn indent_lines(content: &str) -> (result: String)
    ensures
        result@ == indented(content@, 0),
{
    let chars = text::chars_of(content);
    let mut result = String::new();
    let mut from: usize = 0;
    assert(result@ + indented(content@, 0) =~= indented(content@, 0));
    while from < chars.len()
        invariant
            chars@ == content@,
            result@ + indented(content@, from as nat) == indented(content@, 0),
        decreases chars.len() - from,
    {
        let ghost before = result@;
        let mut line = String::new();
        let mut end: usize = from;
        while end < chars.len() && chars[end] != '\n'
            invariant
                chars@ == content@,
                from <= end <= chars.len(),
                line@ == content@.subrange(from as int, end as int),
                line_end(content@, from as nat) == line_end(content@, end as nat),
            decreases chars.len() - end,
        {
            line.push(chars[end]);
            assert(content@.subrange(from as int, end + 1) =~= content@.subrange(
                from as int,
                end as int,
            ).push(content@[end as int]));
            end += 1;
        }
        assert(line_end(content@, from as nat) == end);
        let stripped = strip_return(line, end < chars.len());
        result.append("    ");
        result.append(stripped.as_str());
        result.append("\n");
        if end == chars.len() {
            assert(result@ =~= before + indented(content@, from as nat));
            from = end;
            assert(result@ + indented(content@, from as nat) =~= result@);
        } else {
            from = end + 1;
            assert(result@ + indented(content@, from as nat) =~= before + (("    "@ + stripped@
                + "\n"@) + indented(content@, from as nat)));
        }
    }
    assert(result@ + indented(content@, from as nat) =~= result@);
    result
}

fn strip_return(line: String, ended: bool) -> (result: String)
    ensures
        result@ == line_text(line@, ended),
{
    let chars = text::chars_of(line.as_str());
    if ended && chars.len() > 0 && chars[chars.len() - 1] == '\r' {
        let mut result = String::new();
        let mut i: usize = 0;
        while i < chars.len() - 1
            invariant
                chars@ == line@,
                chars.len() > 0,
                i <= chars.len() - 1,
                result@ == line@.take(i as int),
            decreases chars.len() - 1 - i,
        {
            result.push(chars[i]);
            assert(line@.take(i + 1) =~= line@.take(i as int).push(line@[i as int]));
            i += 1;
        }
        assert(line@.take(i as int) =~= line@.drop_last());
        result
    } else {
        line
    }
}

/// A comment: on its line, or between delimiters where it has several lines.
pub open spec fn comment_text(content: Seq<char>) -> Seq<char> {
    if text::contains(content, "\n"@) {
        "/* "@ + content + " */\n"@
    } else {
        "// "@ + content + "\n"@
    }
}

fn comment(content: &str) -> (result: String)
    ensures
        result@ == comment_text(content@),
{
    if text::contains_text(content, "\n") {
        let mut result = "/* ".to_owned();
        result.append(content);
        result.append(" */\n");
        result
    } else {
        let mut result = "// ".to_owned();
        result.append(content);
        result.append("\n");
        result
    }
}

/// Lines of text, each behind `head` and before a line feed.
pub open spec fn listed_lines(head: Seq<char>, lines: Seq<Seq<char>>, count: nat) -> Seq<char>
    decreases count,
{
    if count == 0 {
        Seq::empty()
    } else {
        listed_lines(head, lines, (count - 1) as nat) + head + lines[count - 1] + "\n"@
    }
}

fn list_lines(head: &str, lines: &Vec<String>) -> (result: String)
    ensures
        result@ == listed_lines(head@, warp::texts(lines@), lines.len() as nat),
{
    let mut result = String::new();
    let mut i: usize = 0;
    while i < lines.len()
        invariant
            i <= lines.len(),
            result@ == listed_lines(head@, warp::texts(lines@), i as nat),
        decreases lines.len() - i,
    {
        assert(warp::texts(lines@)[i as int] == lines[i as int]@);
        result.append(head);
        result.append(lines[i].as_str());
        result.append("\n");
        i += 1;
    }
    result
}

/// Comments, one after another, indented.
pub open spec fn comments(body: Seq<Seq<char>>, count: nat) -> Seq<char>
    decreases count,
{
    if count == 0 {
        Seq::empty()
    } else {
        comments(body, (count - 1) as nat) + indented(comment_text(body[count - 1]), 0)
    }
}

fn comments_text(body: &Vec<String>) -> (result: String)
    ensures
        result@ == comments(warp::texts(body@), body.len() as nat),
{
    let mut result = String::new();
    let mut i: usize = 0;
    while i < body.len()
        invariant
            i <= body.len(),
            result@ == comments(warp::texts(body@), i as nat),
        decreases body.len() - i,
    {
        assert(warp::texts(body@)[i as int] == body[i as int]@);
        result.append(indent_lines(comment(body[i].as_str()).as_str()).as_str());
        i += 1;
    }
    result
}

/// A source: headers, what stands before the function, and the function with a body of
/// comments. Blank lines part what is there.
pub open spec fn section_text(
    headers: Seq<Seq<char>>,
    prelude: Seq<Seq<char>>,
    signature: Seq<char>,
    body: Seq<Seq<char>>,
) -> Seq<char> {
    listed_lines("#include "@, headers, headers.len()) + text::given(
        headers.len() > 0 && (prelude.len() > 0 || body.len() > 0),
        "\n"@,
    ) + listed_lines(""@, prelude, prelude.len()) + text::given(prelude.len() > 0, "\n"@)
        + signature + " {\n"@ + comments(body, body.len()) + "}\n"@
}

fn section_source(headers: &Vec<String>, prelude: &Vec<String>, signature: &str, body: &Vec<String>) -> (source: String)
    ensures
        source@ == section_text(
            warp::texts(headers@),
            warp::texts(prelude@),
            signature@,
            warp::texts(body@),
        ),
{
    let mut source = list_lines("#include ", headers);
    source.append(
        text::given_text(headers.len() > 0 && (prelude.len() > 0 || body.len() > 0), "\n").as_str(),
    );
    source.append(list_lines("", prelude).as_str());
    source.append(text::given_text(prelude.len() > 0, "\n").as_str());
    source.append(signature);
    source.append(" {\n");
    source.append(comments_text(body).as_str());
    source.append("}\n");
    source
}

fn push_line(lines: &mut Vec<String>, line: String)
    ensures
        warp::texts(final(lines)@) == warp::texts(old(lines)@).push(line@),
{
    lines.push(line);
    assert(warp::texts(lines@) =~= warp::texts(old(lines)@).push(line@));
}

fn no_lines() -> (lines: Vec<String>)
    ensures
        warp::texts(lines@) == Seq::<Seq<char>>::empty(),
{
    let lines: Vec<String> = Vec::new();
    assert(warp::texts(lines@) =~= Seq::<Seq<char>>::empty());
    lines
}

pub const BINDING: &'static str = "$0 $1: id=$2, visibility=$3, type=$4";

pub const WRITABLE: &'static str = "Writable buffer $0: id=$1, type=$2";

pub const SCALAR_GROUP: &'static str = "Scalar group $0: type=$1, count=$2";

pub const CUBE_DIMS: &'static str = "Cube dims: ($0, $1, $2).";

pub const COUNTS_NOTE: &'static str = "Kernel uses $0 buffer bindings, $1 tensor-map bindings, and $2 scalar groups.";

pub const CUBE_NOTE: &'static str = "Cube dimensions are ($0, $1, $2); TT core mapping must be chosen by the runtime/program builder.";

pub const ALLOCATE: &'static str = "TODO: Allocate MeshBuffer objects for the $0 buffer bindings.";

pub open spec fn visibility_text(visibility: Visibility) -> Seq<char> {
    match visibility {
        Visibility::Read => "read"@,
        Visibility::ReadWrite => "read_write"@,
    }
}

fn visibility_name(visibility: Visibility) -> (name: &'static str)
    ensures
        name@ == visibility_text(visibility),
{
    match visibility {
        Visibility::Read => "read",
        Visibility::ReadWrite => "read_write",
    }
}

/// `lines` with one more for each of the first `count` bindings.
pub open spec fn with_bindings(lines: Seq<Seq<char>>, prefix: Seq<char>, bindings: Seq<BindingInfo>, count: nat) -> Seq<
    Seq<char>,
>
    decreases count,
{
    if count == 0 {
        lines
    } else {
        let binding = bindings[count - 1];
        with_bindings(lines, prefix, bindings, (count - 1) as nat).push(
            text::fill(
                BINDING@,
                seq![
                    prefix,
                    text::dec((count - 1) as nat),
                    text::dec(binding.id as nat),
                    visibility_text(binding.visibility),
                    binding.ty@,
                ],
            ),
        )
    }
}

fn binding_comments(lines: &mut Vec<String>, prefix: &str, bindings: &Vec<BindingInfo>)
    ensures
        warp::texts(final(lines)@) == with_bindings(
            warp::texts(old(lines)@),
            prefix@,
            bindings@,
            bindings.len() as nat,
        ),
{
    let mut i: usize = 0;
    while i < bindings.len()
        invariant
            i <= bindings.len(),
            warp::texts(lines@) == with_bindings(
                warp::texts(old(lines)@),
                prefix@,
                bindings@,
                i as nat,
            ),
        decreases bindings.len() - i,
    {
        let binding = &bindings[i];
        push_line(
            lines,
            text::fill5(
                BINDING,
                prefix,
                text::dec_text(i as u64).as_str(),
                text::dec_text(binding.id as u64).as_str(),
                visibility_name(binding.visibility),
                binding.ty.as_str(),
            ),
        );
        i += 1;
    }
}

/// `lines` with one more for each writable of the first `count` buffers.
pub open spec fn with_writable(lines: Seq<Seq<char>>, bindings: Seq<BindingInfo>, count: nat) -> Seq<Seq<char>>
    decreases count,
{
    if count == 0 {
        lines
    } else {
        let binding = bindings[count - 1];
        let before = with_writable(lines, bindings, (count - 1) as nat);
        if binding.visibility is ReadWrite {
            before.push(
                text::fill(
                    WRITABLE@,
                    seq![
                        text::dec((count - 1) as nat),
                        text::dec(binding.id as nat),
                        binding.ty@,
                    ],
                ),
            )
        } else {
            before
        }
    }
}

fn writable_comments(lines: &mut Vec<String>, bindings: &Vec<BindingInfo>)
    ensures
        warp::texts(final(lines)@) == with_writable(
            warp::texts(old(lines)@),
            bindings@,
            bindings.len() as nat,
        ),
{
    let mut i: usize = 0;
    while i < bindings.len()
        invariant
            i <= bindings.len(),
            warp::texts(lines@) == with_writable(warp::texts(old(lines)@), bindings@, i as nat),
        decreases bindings.len() - i,
    {
        let binding = &bindings[i];
        if matches!(binding.visibility, Visibility::ReadWrite) {
            push_line(
                lines,
                text::fill3(
                    WRITABLE,
                    text::dec_text(i as u64).as_str(),
                    text::dec_text(binding.id as u64).as_str(),
                    binding.ty.as_str(),
                ),
            );
        }
        i += 1;
    }
}

/// `lines` with one more for each of the first `count` groups of scalars.
pub open spec fn with_scalars(lines: Seq<Seq<char>>, scalars: Seq<ScalarInfo>, count: nat) -> Seq<Seq<char>>
    decreases count,
{
    if count == 0 {
        lines
    } else {
        let scalar = scalars[count - 1];
        with_scalars(lines, scalars, (count - 1) as nat).push(
            text::fill(
                SCALAR_GROUP@,
                seq![text::dec((count - 1) as nat), scalar.ty@, text::dec(scalar.count as nat)],
            ),
        )
    }
}

fn scalar_comments(lines: &mut Vec<String>, scalars: &Vec<ScalarInfo>)
    ensures
        warp::texts(final(lines)@) == with_scalars(
            warp::texts(old(lines)@),
            scalars@,
            scalars.len() as nat,
        ),
{
    let mut i: usize = 0;
    while i < scalars.len()
        invariant
            i <= scalars.len(),
            warp::texts(lines@) == with_scalars(warp::texts(old(lines)@), scalars@, i as nat),
        decreases scalars.len() - i,
    {
        push_line(
            lines,
            text::fill3(
                SCALAR_GROUP,
                text::dec_text(i as u64).as_str(),
                scalars[i].ty.as_str(),
                text::dec_text(scalars[i].count as u64).as_str(),
            ),
        );
        i += 1;
    }
}

fn cube_text(template: &str, dim: CubeDim) -> (result: String)
    ensures
        result@ == cube_filled(template@, dim),
{
    text::fill3(
        template,
        text::dec_text(dim.x as u64).as_str(),
        text::dec_text(dim.y as u64).as_str(),
        text::dec_text(dim.z as u64).as_str(),
    )
}

pub open spec fn cube_filled(template: Seq<char>, dim: CubeDim) -> Seq<char> {
    text::fill(
        template,
        seq![text::dec(dim.x as nat), text::dec(dim.y as nat), text::dec(dim.z as nat)],
    )
}

/// The comments of the host program.
pub open spec fn host_body(kernel: KernelInfo) -> Seq<Seq<char>> {
    let opening = Seq::<Seq<char>>::empty()
        .push("Create the unit mesh device and command queue."@)
        .push("MeshDevice / MeshCommandQueue setup is still performed by the future cxx bridge."@)
        .push("CreateProgram() and CoreCoord selection belong here."@);
    with_bindings(opening, "Buffer binding"@, kernel.buffers@, kernel.buffers.len() as nat)
        .push(text::fill(ALLOCATE@, seq![text::dec(kernel.buffers.len() as nat)]))
        .push("TODO: Choose page sizes / layouts and create circular buffers for the lowered pipeline."@)
        .push("TODO: Create reader / compute / writer kernels from the generated source sections."@)
        .push("TODO: Set runtime args for DRAM/L1 addresses, scalar values, and work partitioning."@)
        .push("TODO: Add the program to MeshWorkload and enqueue it on the mesh command queue."@)
        .push("return program;"@)
}

pub open spec fn host_section(kernel: KernelInfo) -> Seq<char> {
    section_text(
        Seq::<Seq<char>>::empty().push("<tt-metalium/host_api.hpp>"@).push("<tt-metalium/device.hpp>"@).push("<tt-metalium/distributed.hpp>"@),
        Seq::<Seq<char>>::empty().push("using namespace tt;"@).push("using namespace tt::tt_metal;"@),
        text::fill("Program build_$0()"@, seq![kernel.name@]),
        host_body(kernel),
    )
}

fn build_host_section(kernel: &KernelInfo) -> (source: String)
    ensures
        source@ == host_section(*kernel),
{
    let mut body = no_lines();
    push_line(&mut body, "Create the unit mesh device and command queue.".to_owned());
    push_line(&mut body, "MeshDevice / MeshCommandQueue setup is still performed by the future cxx bridge.".to_owned());
    push_line(&mut body, "CreateProgram() and CoreCoord selection belong here.".to_owned());
    binding_comments(&mut body, "Buffer binding", &kernel.buffers);
    push_line(&mut body, text::fill1(ALLOCATE, text::dec_text(kernel.buffers.len() as u64).as_str()));
    push_line(&mut body, "TODO: Choose page sizes / layouts and create circular buffers for the lowered pipeline.".to_owned());
    push_line(&mut body, "TODO: Create reader / compute / writer kernels from the generated source sections.".to_owned());
    push_line(&mut body, "TODO: Set runtime args for DRAM/L1 addresses, scalar values, and work partitioning.".to_owned());
    push_line(&mut body, "TODO: Add the program to MeshWorkload and enqueue it on the mesh command queue.".to_owned());
    push_line(&mut body, "return program;".to_owned());
    let mut headers = no_lines();
    push_line(&mut headers, "<tt-metalium/host_api.hpp>".to_owned());
    push_line(&mut headers, "<tt-metalium/device.hpp>".to_owned());
    push_line(&mut headers, "<tt-metalium/distributed.hpp>".to_owned());
    let mut prelude = no_lines();
    push_line(&mut prelude, "using namespace tt;".to_owned());
    push_line(&mut prelude, "using namespace tt::tt_metal;".to_owned());
    section_source(&headers, &prelude, text::fill1("Program build_$0()", kernel.name.as_str()).as_str(), &body)
}

/// The comments of the reader kernel.
pub open spec fn reader_body(kernel: KernelInfo) -> Seq<Seq<char>> {
    let opening = Seq::<Seq<char>>::empty()
        .push(text::fill("Reader scaffold for `$0`."@, seq![kernel.name@]))
        .push("TODO: Lower CubeCL buffer/tensor-map reads into TT-Metalium DRAM -> L1 or circular-buffer transfers."@);
    let buffers = with_bindings(opening, "Buffer"@, kernel.buffers@, kernel.buffers.len() as nat);
    with_bindings(buffers, "Tensor map"@, kernel.tensor_maps@, kernel.tensor_maps.len() as nat)
        .push("Suggested next step: group contiguous reads into page- or tile-sized transfers and push them into circular buffers."@)
}

pub open spec fn reader_section(kernel: KernelInfo) -> Seq<char> {
    section_text(
        Seq::<Seq<char>>::empty().push("<cstdint>"@).push("\"api/dataflow/dataflow_api.h\""@),
        Seq::<Seq<char>>::empty(),
        "void kernel_main()"@,
        reader_body(kernel),
    )
}

fn build_reader_section(kernel: &KernelInfo) -> (source: String)
    ensures
        source@ == reader_section(*kernel),
{
    let mut body = no_lines();
    push_line(&mut body, text::fill1("Reader scaffold for `$0`.", kernel.name.as_str()));
    push_line(&mut body, "TODO: Lower CubeCL buffer/tensor-map reads into TT-Metalium DRAM -> L1 or circular-buffer transfers.".to_owned());
    binding_comments(&mut body, "Buffer", &kernel.buffers);
    binding_comments(&mut body, "Tensor map", &kernel.tensor_maps);
    push_line(&mut body, "Suggested next step: group contiguous reads into page- or tile-sized transfers and push them into circular buffers.".to_owned());
    let mut headers = no_lines();
    push_line(&mut headers, "<cstdint>".to_owned());
    push_line(&mut headers, "\"api/dataflow/dataflow_api.h\"".to_owned());
    let prelude = no_lines();
    section_source(&headers, &prelude, "void kernel_main()", &body)
}

/// `lines` with one more for each group of scalars, or one that says there is none.
pub open spec fn scalar_lines(lines: Seq<Seq<char>>, scalars: Seq<ScalarInfo>) -> Seq<Seq<char>> {
    if scalars.len() == 0 {
        lines.push("No scalar groups were captured for this kernel."@)
    } else {
        with_scalars(lines, scalars, scalars.len())
    }
}

/// The comments of the compute kernel.
pub open spec fn compute_body(kernel: KernelInfo) -> Seq<Seq<char>> {
    let opening = Seq::<Seq<char>>::empty()
        .push(text::fill("Compute scaffold for `$0`."@, seq![kernel.name@]))
        .push(cube_filled(CUBE_DIMS@, kernel.cube_dim))
        .push("TODO: Lower CubeCL arithmetic/control flow into either:"@)
        .push("1. a page-oriented Baby RISC-V kernel for correctness-first execution, or"@)
        .push("2. a tiled TT compute kernel plus circular-buffer orchestration for performance."@);
    scalar_lines(opening, kernel.scalars@)
        .push("Kernel body lowering is intentionally left as a TODO until buffer movement and core mapping are explicit."@)
}

pub open spec fn compute_section(kernel: KernelInfo) -> Seq<char> {
    section_text(
        Seq::<Seq<char>>::empty().push("<cstdint>"@).push("\"api/compute/compute_kernel_api.h\""@),
        Seq::<Seq<char>>::empty(),
        "void kernel_main()"@,
        compute_body(kernel),
    )
}

fn build_compute_section(kernel: &KernelInfo) -> (source: String)
    ensures
        source@ == compute_section(*kernel),
{
    let mut body = no_lines();
    push_line(&mut body, text::fill1("Compute scaffold for `$0`.", kernel.name.as_str()));
    push_line(&mut body, cube_text(CUBE_DIMS, kernel.cube_dim));
    push_line(&mut body, "TODO: Lower CubeCL arithmetic/control flow into either:".to_owned());
    push_line(&mut body, "1. a page-oriented Baby RISC-V kernel for correctness-first execution, or".to_owned());
    push_line(&mut body, "2. a tiled TT compute kernel plus circular-buffer orchestration for performance.".to_owned());
    if kernel.scalars.len() == 0 {
        push_line(&mut body, "No scalar groups were captured for this kernel.".to_owned());
    } else {
        scalar_comments(&mut body, &kernel.scalars);
    }
    push_line(&mut body, "Kernel body lowering is intentionally left as a TODO until buffer movement and core mapping are explicit.".to_owned());
    let mut headers = no_lines();
    push_line(&mut headers, "<cstdint>".to_owned());
    push_line(&mut headers, "\"api/compute/compute_kernel_api.h\"".to_owned());
    let prelude = no_lines();
    section_source(&headers, &prelude, "void kernel_main()", &body)
}

/// The comments of the writer kernel.
pub open spec fn writer_body(kernel: KernelInfo) -> Seq<Seq<char>> {
    let opening = Seq::<Seq<char>>::empty()
        .push(text::fill("Writer scaffold for `$0`."@, seq![kernel.name@]))
        .push("TODO: Lower CubeCL writeback into TT-Metalium L1/circular-buffer -> DRAM transfers."@);
    with_writable(opening, kernel.buffers@, kernel.buffers.len() as nat)
        .push("Suggested next step: assign output circular buffers and emit matching SetRuntimeArgs host wiring."@)
}

pub open spec fn writer_section(kernel: KernelInfo) -> Seq<char> {
    section_text(
        Seq::<Seq<char>>::empty().push("<cstdint>"@).push("\"api/dataflow/dataflow_api.h\""@),
        Seq::<Seq<char>>::empty(),
        "void kernel_main()"@,
        writer_body(kernel),
    )
}

fn build_writer_section(kernel: &KernelInfo) -> (source: String)
    ensures
        source@ == writer_section(*kernel),
{
    let mut body = no_lines();
    push_line(&mut body, text::fill1("Writer scaffold for `$0`.", kernel.name.as_str()));
    push_line(&mut body, "TODO: Lower CubeCL writeback into TT-Metalium L1/circular-buffer -> DRAM transfers.".to_owned());
    writable_comments(&mut body, &kernel.buffers);
    push_line(&mut body, "Suggested next step: assign output circular buffers and emit matching SetRuntimeArgs host wiring.".to_owned());
    let mut headers = no_lines();
    push_line(&mut headers, "<cstdint>".to_owned());
    push_line(&mut headers, "\"api/dataflow/dataflow_api.h\"".to_owned());
    let prelude = no_lines();
    section_source(&headers, &prelude, "void kernel_main()", &body)
}

/// The notes on a bundle.
pub open spec fn bundle_notes(kernel: KernelInfo, mode: Seq<char>, address_type: Seq<char>) -> Seq<Seq<char>> {
    let notes = Seq::<Seq<char>>::empty().push(
        "CubeCL global-buffer IR still needs an explicit lowering pass into TT-Metalium host/dataflow/compute kernels."@,
    ).push(
        "This bundle is a scaffold intended for backend bring-up, inspection, and iterative lowering."@,
    ).push(
        text::fill(
            COUNTS_NOTE@,
            seq![
                text::dec(kernel.buffers.len() as nat),
                text::dec(kernel.tensor_maps.len() as nat),
                text::dec(kernel.scalars.len() as nat),
            ],
        ),
    ).push(cube_filled(CUBE_NOTE@, kernel.cube_dim)).push(
        text::fill("Execution mode during compilation: $0."@, seq![mode]),
    ).push(text::fill("Kernel address type: $0."@, seq![address_type]));
    if kernel.tensor_maps.len() > 0 {
        notes.push(
            "Tensor-map bindings are preserved in metadata only for now; no TT tensor accessor lowering is implemented yet."@,
        )
    } else {
        notes
    }
}

fn build_notes(kernel: &KernelInfo, mode: &str, address_type: &str) -> (notes: Vec<String>)
    ensures
        warp::texts(notes@) == bundle_notes(*kernel, mode@, address_type@),
{
    let mut notes = no_lines();
    push_line(
        &mut notes,
        "CubeCL global-buffer IR still needs an explicit lowering pass into TT-Metalium host/dataflow/compute kernels.".to_owned(),
    );
    push_line(
        &mut notes,
        "This bundle is a scaffold intended for backend bring-up, inspection, and iterative lowering.".to_owned(),
    );
    push_line(
        &mut notes,
        text::fill3(
            COUNTS_NOTE,
            text::dec_text(kernel.buffers.len() as u64).as_str(),
            text::dec_text(kernel.tensor_maps.len() as u64).as_str(),
            text::dec_text(kernel.scalars.len() as u64).as_str(),
        ),
    );
    push_line(&mut notes, cube_text(CUBE_NOTE, kernel.cube_dim));
    push_line(&mut notes, text::fill1("Execution mode during compilation: $0.", mode));
    push_line(&mut notes, text::fill1("Kernel address type: $0.", address_type));
    if kernel.tensor_maps.len() > 0 {
        push_line(
            &mut notes,
            "Tensor-map bindings are preserved in metadata only for now; no TT tensor accessor lowering is implemented yet.".to_owned(),
        );
    }
    notes
}

impl MetaliumKernelSection {
    pub open spec fn is_section(self, name: Seq<char>, source: Seq<char>) -> bool {
        self.name@ == name && self.source@ == source
    }
}

impl MetaliumSourceBundle {
    /// Whether this is the bundle of a kernel: its notes, and the sources of the host
    /// program, where it is asked for, the reader, the compute kernel and the writer.
    pub open spec fn is_bundle(self, kernel: KernelInfo, host: bool, mode: Seq<char>, address_type: Seq<char>) -> bool {
        let first: int = if host {
            1
        } else {
            0
        };
        &&& self.kernel_name@ == kernel.name@
        &&& warp::texts(self.notes@) == bundle_notes(kernel, mode, address_type)
        &&& self.sections.len() == first + 3
        &&& host ==> self.sections[0].is_section("host"@, host_section(kernel))
        &&& self.sections[first].is_section("reader"@, reader_section(kernel))
        &&& self.sections[first + 1].is_section("compute"@, compute_section(kernel))
        &&& self.sections[first + 2].is_section("writer"@, writer_section(kernel))
    }

    /// The position of the first section of a name, from `from` on.
    pub open spec fn position(self, name: Seq<char>, from: nat) -> Option<nat>
        decreases self.sections.len() - from,
    {
        if from >= self.sections.len() {
            None
        } else if self.sections[from as int].name@ == name {
            Some(from)
        } else {
            self.position(name, from + 1)
        }
    }

    /// The source of the first section of a name.
    pub open spec fn source_of(self, name: Seq<char>) -> Option<Seq<char>> {
        match self.position(name, 0) {
            Some(at) => Some(self.sections[at as int].source@),
            None => None,
        }
    }

    /// The first section of a name.
    pub fn section(&self, name: &str) -> (section: Option<&MetaliumKernelSection>)
        ensures
            match section {
                Some(section) => self.position(name@, 0) matches Some(at) && *section
                    == self.sections[at as int] && at < self.sections.len(),
                None => self.position(name@, 0) is None,
            },
    {
        let mut i: usize = 0;
        while i < self.sections.len()
            invariant
                i <= self.sections.len(),
                self.position(name@, 0) == self.position(name@, i as nat),
            decreases self.sections.len() - i,
        {
            if text::same_text(self.sections[i].name, name) {
                return Some(&self.sections[i]);
            }
            i += 1;
        }
        None
    }

    fn source(&self, name: &str) -> (source: Option<&str>)
        ensures
            match source {
                Some(source) => self.source_of(name@) == Some(source@),
                None => self.source_of(name@) is None,
            },
    {
        match self.section(name) {
            Some(section) => Some(section.source.as_str()),
            None => None,
        }
    }

    pub fn host_source(&self) -> (source: Option<&str>)
        ensures
            match source {
                Some(source) => self.source_of("host"@) == Some(source@),
                None => self.source_of("host"@) is None,
            },
    {
        self.source("host")
    }

    pub fn reader_source(&self) -> (source: Option<&str>)
        ensures
            match source {
                Some(source) => self.source_of("reader"@) == Some(source@),
                None => self.source_of("reader"@) is None,
            },
    {
        self.source("reader")
    }

    pub fn compute_source(&self) -> (source: Option<&str>)
        ensures
            match source {
                Some(source) => self.source_of("compute"@) == Some(source@),
                None => self.source_of("compute"@) is None,
            },
    {
        self.source("compute")
    }

    pub fn writer_source(&self) -> (source: Option<&str>)
        ensures
            match source {
                Some(source) => self.source_of("writer"@) == Some(source@),
                None => self.source_of("writer"@) is None,
            },
    {
        self.source("writer")
    }

    /// The first `count` sections, each behind its title.
    pub open spec fn titled_sections(self, count: nat) -> Seq<char>
        decreases count,
    {
        if count == 0 {
            Seq::empty()
        } else {
            self.titled_sections((count - 1) as nat) + text::fill(
                "\n// ===== $0 =====\n$1\n"@,
                seq![self.sections[count - 1].name@, self.sections[count - 1].source@],
            )
        }
    }

    /// The whole bundle as one text.
    pub open spec fn whole(self) -> Seq<char> {
        text::fill("// TT-Metalium source bundle for `$0`\n"@, seq![self.kernel_name@])
            + text::given(
            self.notes.len() > 0,
            "// Notes:\n"@ + listed_lines(
                "// - "@,
                warp::texts(self.notes@),
                self.notes.len() as nat,
            ),
        ) + self.titled_sections(self.sections.len() as nat)
    }

    /// The whole bundle as one text.
    pub fn to_text(&self) -> (result: String)
        ensures
            result@ == self.whole(),
    {
        let mut result = text::fill1(
            "// TT-Metalium source bundle for `$0`\n",
            self.kernel_name.as_str(),
        );
        let mut notes = "// Notes:\n".to_owned();
        notes.append(list_lines("// - ", &self.notes).as_str());
        result.append(text::given_text(self.notes.len() > 0, notes.as_str()).as_str());
        let mut sections = String::new();
        let mut i: usize = 0;
        while i < self.sections.len()
            invariant
                i <= self.sections.len(),
                sections@ == self.titled_sections(i as nat),
            decreases self.sections.len() - i,
        {
            sections.append(
                text::fill2(
                    "\n// ===== $0 =====\n$1\n",
                    self.sections[i].name,
                    self.sections[i].source.as_str(),
                ).as_str(),
            );
            i += 1;
        }
        result.append(sections.as_str());
        result
    }

    /// A copy of the bundle.
    pub fn duplicate(&self) -> (copy: Self)
        ensures
            copy.same_as(*self),
    {
        let mut notes: Vec<String> = Vec::new();
        let mut i: usize = 0;
        while i < self.notes.len()
            invariant
                i <= self.notes.len(),
                notes@ == self.notes@.take(i as int),
            decreases self.notes.len() - i,
        {
            notes.push(self.notes[i].clone());
            assert(self.notes@.take(i + 1) =~= self.notes@.take(i as int).push(
                self.notes@[i as int],
            ));
            i += 1;
        }
        assert(self.notes@.take(i as int) =~= self.notes@);
        let mut sections: Vec<MetaliumKernelSection> = Vec::new();
        i = 0;
        while i < self.sections.len()
            invariant
                i <= self.sections.len(),
                sections@ == self.sections@.take(i as int),
            decreases self.sections.len() - i,
        {
            sections.push(
                MetaliumKernelSection {
                    name: self.sections[i].name,
                    source: self.sections[i].source.clone(),
                },
            );
            assert(self.sections@.take(i + 1) =~= self.sections@.take(i as int).push(
                self.sections@[i as int],
            ));
            i += 1;
        }
        assert(self.sections@.take(i as int) =~= self.sections@);
        MetaliumSourceBundle { kernel_name: self.kernel_name.clone(), notes, sections }
    }

    /// Whether two bundles hold the same.
    pub open spec fn same_as(self, other: MetaliumSourceBundle) -> bool {
        self.kernel_name == other.kernel_name && self.notes@ == other.notes@ && self.sections@
            == other.sections@
    }
}

impl MetaliumCompiler {
    /// Make the bundle of a kernel. `mode` and `address_type` are the texts of the
    /// execution mode and of the address type.
    pub fn compile(
        &self,
        kernel: &KernelInfo,
        options: &MetaliumCompilationOptions,
        mode: &str,
        address_type: &str,
    ) -> (bundle: MetaliumSourceBundle)
        ensures
            bundle.is_bundle(*kernel, options.include_host_stub, mode@, address_type@),
    {
        let mut sections: Vec<MetaliumKernelSection> = Vec::new();
        if options.include_host_stub {
            sections.push(
                MetaliumKernelSection { name: "host", source: build_host_section(kernel) },
            );
        }
        sections.push(
            MetaliumKernelSection { name: "reader", source: build_reader_section(kernel) },
        );
        sections.push(
            MetaliumKernelSection { name: "compute", source: build_compute_section(kernel) },
        );
        sections.push(
            MetaliumKernelSection { name: "writer", source: build_writer_section(kernel) },
        );
        MetaliumSourceBundle {
            kernel_name: kernel.name.clone(),
            notes: build_notes(kernel, mode, address_type),
            sections,
        }
    }

    /// The file extension of bundles.
    pub fn extension(&self) -> (extension: &'static str)
        ensures
            extension@ == "ttmetal.cpp"@,
    {
        "ttmetal.cpp"
    }
}

/// The sources of a bundle are found under their names; that of the host program only
/// where it was asked for.
pub proof fn law_sections_are_found(
    bundle: MetaliumSourceBundle,
    kernel: KernelInfo,
    host: bool,
    mode: Seq<char>,
    address_type: Seq<char>,
)
    requires
        bundle.is_bundle(kernel, host, mode, address_type),
    ensures
        bundle.source_of("host"@) == (if host {
            Some(host_section(kernel))
        } else {
            None
        }),
        bundle.source_of("reader"@) == Some(reader_section(kernel)),
        bundle.source_of("compute"@) == Some(compute_section(kernel)),
        bundle.source_of("writer"@) == Some(writer_section(kernel)),
{
    reveal_strlit("host");
    reveal_strlit("reader");
    reveal_strlit("compute");
    reveal_strlit("writer");
    assert("host"@ != "reader"@ && "host"@ != "compute"@ && "host"@ != "writer"@) by {
        assert("host"@.len() == 4);
    }
    assert("reader"@[0] != "writer"@[0]);
    assert("reader"@.len() != "compute"@.len());
    assert("writer"@.len() != "compute"@.len());
    reveal_with_fuel(MetaliumSourceBundle::position, 5);
}

/// A comment says what it is given, and hides all of it from the compiler: on its line where it
/// has no other, else between delimiters.
pub proof fn law_comments_hide_their_text(content: Seq<char>)
    ensures
        ({
            let comment = comment_text(content);
            &&& text::contains(comment, content)
            &&& text::contains(content, "\n"@) ==> text::stands_at(comment, "/* "@, 0)
                && text::stands_at(comment, " */\n"@, comment.len() - 4)
            &&& !text::contains(content, "\n"@) ==> text::stands_at(comment, "// "@, 0)
                && comment.last() == '\n'
        }),
{
    reveal_strlit("/* ");
    reveal_strlit(" */\n");
    reveal_strlit("// ");
    reveal_strlit("\n");
    let comment = comment_text(content);
    if text::contains(content, "\n"@) {
        text::law_parts_are_contained("/* "@, content, " */\n"@);
        assert(comment.subrange(0, 3) =~= "/* "@);
        assert(comment.subrange(comment.len() - 4, comment.len() as int) =~= " */\n"@);
    } else {
        text::law_parts_are_contained("// "@, content, "\n"@);
        assert(comment.subrange(0, 3) =~= "// "@);
    }
}

proof fn lemma_listed_hold(head: Seq<char>, lines: Seq<Seq<char>>, count: nat, at: int)
    requires
        0 <= at < count <= lines.len(),
    ensures
        text::contains(listed_lines(head, lines, count), head + lines[at] + "\n"@),
    decreases count,
{
    let before = listed_lines(head, lines, (count - 1) as nat);
    let last = head + lines[count - 1] + "\n"@;
    let all = listed_lines(head, lines, count);
    let none = Seq::<char>::empty();
    if at == count - 1 {
        text::law_parts_are_contained(before, last, none);
        assert(before + last + none =~= all);
    } else {
        lemma_listed_hold(head, lines, (count - 1) as nat, at);
        text::law_parts_are_contained(none, before, last);
        assert(none + before + last =~= all);
        text::law_containment_is_transitive(all, before, head + lines[at] + "\n"@);
    }
}

/// A source names each of its headers, and then its function.
pub proof fn law_sources_name_their_headers(
    headers: Seq<Seq<char>>,
    prelude: Seq<Seq<char>>,
    signature: Seq<char>,
    body: Seq<Seq<char>>,
    at: int,
)
    ensures
        ({
            let source = section_text(headers, prelude, signature, body);
            &&& 0 <= at < headers.len() ==> text::contains(
                source,
                "#include "@ + headers[at] + "\n"@,
            )
            &&& text::contains(source, signature + " {\n"@ + comments(body, body.len()) + "}\n"@)
        }),
{
    let source = section_text(headers, prelude, signature, body);
    let named = listed_lines("#include "@, headers, headers.len());
    let function = signature + " {\n"@ + comments(body, body.len()) + "}\n"@;
    let none = Seq::<char>::empty();
    let between = text::given(
        headers.len() > 0 && (prelude.len() > 0 || body.len() > 0),
        "\n"@,
    ) + listed_lines(""@, prelude, prelude.len()) + text::given(prelude.len() > 0, "\n"@);
    text::law_parts_are_contained(none, named, between + function);
    assert(none + named + (between + function) =~= source);
    text::law_parts_are_contained(named + between, function, none);
    assert(named + between + function + none =~= source);
    if 0 <= at < headers.len() {
        lemma_listed_hold("#include "@, headers, headers.len(), at);
        text::law_containment_is_transitive(source, named, "#include "@ + headers[at] + "\n"@);
    }
}

} // verus!

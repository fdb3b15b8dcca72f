//! What the messages of refusals and the comments of bundles tell: each number and each name
//! in its own place.
use crate::bundle;
use crate::bundle::{BindingInfo, KernelInfo, ScalarInfo};
use crate::command::{BridgeError, IoError};
use crate::error::CompileError;
use crate::launch::LaunchError;
use crate::program::ProgramError;
use crate::text;
use vstd::prelude::*;

verus! {

#[verifier::spinoff_prover]
#[verifier::rlimit(60)]
proof fn lemma_told_1(a: Seq<char>, b: Seq<char>)
    ensures
        text::fill("resource/buffer arity mismatch: $0 runtime resources for $1 compiled buffers"@, seq![a, b]) == "resource/buffer arity mismatch: "@ + a + " runtime resources for "@ + b + " compiled buffers"@,
{
    reveal_strlit(" compiled buffers");
    reveal_strlit(" runtime resources for ");
    reveal_strlit("resource/buffer arity mismatch: ");
    reveal_strlit("resource/buffer arity mismatch: $0 runtime resources for $1 compiled buffers");
    let segments = seq!["resource/buffer arity mismatch: "@, " runtime resources for "@, " compiled buffers"@];
    let indices = seq![0nat, 1nat];
    let args = seq![a, b];
    reveal_with_fuel(text::skeleton, 3);
    reveal_with_fuel(text::fleshed, 3);
    assert("resource/buffer arity mismatch: $0 runtime resources for $1 compiled buffers"@ =~= text::skeleton(segments, indices, 0));
    text::law_segments_are_kept(segments, indices, args, 0);
    assert(text::fill("resource/buffer arity mismatch: $0 runtime resources for $1 compiled buffers"@, args) =~= "resource/buffer arity mismatch: "@ + a + " runtime resources for "@ + b + " compiled buffers"@);
}

#[verifier::spinoff_prover]
#[verifier::rlimit(60)]
proof fn lemma_told_2(a: Seq<char>, b: Seq<char>)
    ensures
        text::fill("reader binding index $0 out of range for $1 runtime bindings"@, seq![a, b]) == "reader binding index "@ + a + " out of range for "@ + b + " runtime bindings"@,
{
    reveal_strlit(" out of range for ");
    reveal_strlit(" runtime bindings");
    reveal_strlit("reader binding index ");
    reveal_strlit("reader binding index $0 out of range for $1 runtime bindings");
    let segments = seq!["reader binding index "@, " out of range for "@, " runtime bindings"@];
    let indices = seq![0nat, 1nat];
    let args = seq![a, b];
    reveal_with_fuel(text::skeleton, 3);
    reveal_with_fuel(text::fleshed, 3);
    assert("reader binding index $0 out of range for $1 runtime bindings"@ =~= text::skeleton(segments, indices, 0));
    text::law_segments_are_kept(segments, indices, args, 0);
    assert(text::fill("reader binding index $0 out of range for $1 runtime bindings"@, args) =~= "reader binding index "@ + a + " out of range for "@ + b + " runtime bindings"@);
}

#[verifier::spinoff_prover]
#[verifier::rlimit(60)]
proof fn lemma_told_3(a: Seq<char>, b: Seq<char>)
    ensures
        text::fill("writer binding index $0 out of range for $1 runtime bindings"@, seq![a, b]) == "writer binding index "@ + a + " out of range for "@ + b + " runtime bindings"@,
{
    reveal_strlit(" out of range for ");
    reveal_strlit(" runtime bindings");
    reveal_strlit("writer binding index ");
    reveal_strlit("writer binding index $0 out of range for $1 runtime bindings");
    let segments = seq!["writer binding index "@, " out of range for "@, " runtime bindings"@];
    let indices = seq![0nat, 1nat];
    let args = seq![a, b];
    reveal_with_fuel(text::skeleton, 3);
    reveal_with_fuel(text::fleshed, 3);
    assert("writer binding index $0 out of range for $1 runtime bindings"@ =~= text::skeleton(segments, indices, 0));
    text::law_segments_are_kept(segments, indices, args, 0);
    assert(text::fill("writer binding index $0 out of range for $1 runtime bindings"@, args) =~= "writer binding index "@ + a + " out of range for "@ + b + " runtime bindings"@);
}

#[verifier::spinoff_prover]
#[verifier::rlimit(60)]
proof fn lemma_told_4(a: Seq<char>, b: Seq<char>)
    ensures
        text::fill("reader source expects $0 inputs but runtime provided $1"@, seq![a, b]) == "reader source expects "@ + a + " inputs but runtime provided "@ + b,
{
    reveal_strlit(" inputs but runtime provided ");
    reveal_strlit("reader source expects ");
    reveal_strlit("reader source expects $0 inputs but runtime provided $1");
    reveal_strlit("");
    let segments = seq!["reader source expects "@, " inputs but runtime provided "@, ""@];
    let indices = seq![0nat, 1nat];
    let args = seq![a, b];
    reveal_with_fuel(text::skeleton, 3);
    reveal_with_fuel(text::fleshed, 3);
    assert("reader source expects $0 inputs but runtime provided $1"@ =~= text::skeleton(segments, indices, 0));
    text::law_segments_are_kept(segments, indices, args, 0);
    assert(text::fill("reader source expects $0 inputs but runtime provided $1"@, args) =~= "reader source expects "@ + a + " inputs but runtime provided "@ + b);
}

#[verifier::spinoff_prover]
#[verifier::rlimit(60)]
proof fn lemma_told_5(a: Seq<char>, b: Seq<char>)
    ensures
        text::fill("writer source expects $0 outputs but runtime provided $1"@, seq![a, b]) == "writer source expects "@ + a + " outputs but runtime provided "@ + b,
{
    reveal_strlit(" outputs but runtime provided ");
    reveal_strlit("writer source expects ");
    reveal_strlit("writer source expects $0 outputs but runtime provided $1");
    reveal_strlit("");
    let segments = seq!["writer source expects "@, " outputs but runtime provided "@, ""@];
    let indices = seq![0nat, 1nat];
    let args = seq![a, b];
    reveal_with_fuel(text::skeleton, 3);
    reveal_with_fuel(text::fleshed, 3);
    assert("writer source expects $0 outputs but runtime provided $1"@ =~= text::skeleton(segments, indices, 0));
    text::law_segments_are_kept(segments, indices, args, 0);
    assert(text::fill("writer source expects $0 outputs but runtime provided $1"@, args) =~= "writer source expects "@ + a + " outputs but runtime provided "@ + b);
}

#[verifier::spinoff_prover]
#[verifier::rlimit(60)]
proof fn lemma_told_6(a: Seq<char>, b: Seq<char>)
    ensures
        text::fill("static metadata expects $0 buffer item sizes but runtime provided $1 resources"@, seq![a, b]) == "static metadata expects "@ + a + " buffer item sizes but runtime provided "@ + b + " resources"@,
{
    reveal_strlit(" buffer item sizes but runtime provided ");
    reveal_strlit(" resources");
    reveal_strlit("static metadata expects ");
    reveal_strlit("static metadata expects $0 buffer item sizes but runtime provided $1 resources");
    let segments = seq!["static metadata expects "@, " buffer item sizes but runtime provided "@, " resources"@];
    let indices = seq![0nat, 1nat];
    let args = seq![a, b];
    reveal_with_fuel(text::skeleton, 3);
    reveal_with_fuel(text::fleshed, 3);
    assert("static metadata expects $0 buffer item sizes but runtime provided $1 resources"@ =~= text::skeleton(segments, indices, 0));
    text::law_segments_are_kept(segments, indices, args, 0);
    assert(text::fill("static metadata expects $0 buffer item sizes but runtime provided $1 resources"@, args) =~= "static metadata expects "@ + a + " buffer item sizes but runtime provided "@ + b + " resources"@);
}

#[verifier::spinoff_prover]
#[verifier::rlimit(60)]
proof fn lemma_told_7(a: Seq<char>, b: Seq<char>, c: Seq<char>)
    ensures
        text::fill("buffer item size mismatch at binding $0: compiler expected $1 bytes but runtime binding uses $2 bytes"@, seq![a, b, c]) == "buffer item size mismatch at binding "@ + a + ": compiler expected "@ + b + " bytes but runtime binding uses "@ + c + " bytes"@,
{
    reveal_strlit(" bytes");
    reveal_strlit(" bytes but runtime binding uses ");
    reveal_strlit(": compiler expected ");
    reveal_strlit("buffer item size mismatch at binding ");
    reveal_strlit("buffer item size mismatch at binding $0: compiler expected $1 bytes but runtime binding uses $2 bytes");
    let segments = seq!["buffer item size mismatch at binding "@, ": compiler expected "@, " bytes but runtime binding uses "@, " bytes"@];
    let indices = seq![0nat, 1nat, 2nat];
    let args = seq![a, b, c];
    reveal_with_fuel(text::skeleton, 4);
    reveal_with_fuel(text::fleshed, 4);
    assert("buffer item size mismatch at binding $0: compiler expected $1 bytes but runtime binding uses $2 bytes"@ =~= text::skeleton(segments, indices, 0));
    text::law_segments_are_kept(segments, indices, args, 0);
    assert(text::fill("buffer item size mismatch at binding $0: compiler expected $1 bytes but runtime binding uses $2 bytes"@, args) =~= "buffer item size mismatch at binding "@ + a + ": compiler expected "@ + b + " bytes but runtime binding uses "@ + c + " bytes"@);
}

#[verifier::spinoff_prover]
#[verifier::rlimit(60)]
proof fn lemma_told_8(a: Seq<char>, b: Seq<char>, c: Seq<char>)
    ensures
        text::fill("TT-Metal tiled I/O path requires a uniform element size across bindings; binding 0 uses $0 bytes but binding $1 uses $2 bytes"@, seq![a, b, c]) == "TT-Metal tiled I/O path requires a uniform element size across bindings; binding 0 uses "@ + a + " bytes but binding "@ + b + " uses "@ + c + " bytes"@,
{
    reveal_strlit(" bytes");
    reveal_strlit(" bytes but binding ");
    reveal_strlit(" uses ");
    reveal_strlit("TT-Metal tiled I/O path requires a uniform element size across bindings; binding 0 uses ");
    reveal_strlit("TT-Metal tiled I/O path requires a uniform element size across bindings; binding 0 uses $0 bytes but binding $1 uses $2 bytes");
    let segments = seq!["TT-Metal tiled I/O path requires a uniform element size across bindings; binding 0 uses "@, " bytes but binding "@, " uses "@, " bytes"@];
    let indices = seq![0nat, 1nat, 2nat];
    let args = seq![a, b, c];
    reveal_with_fuel(text::skeleton, 4);
    reveal_with_fuel(text::fleshed, 4);
    assert("TT-Metal tiled I/O path requires a uniform element size across bindings; binding 0 uses $0 bytes but binding $1 uses $2 bytes"@ =~= text::skeleton(segments, indices, 0));
    text::law_segments_are_kept(segments, indices, args, 0);
    assert(text::fill("TT-Metal tiled I/O path requires a uniform element size across bindings; binding 0 uses $0 bytes but binding $1 uses $2 bytes"@, args) =~= "TT-Metal tiled I/O path requires a uniform element size across bindings; binding 0 uses "@ + a + " bytes but binding "@ + b + " uses "@ + c + " bytes"@);
}

#[verifier::spinoff_prover]
#[verifier::rlimit(60)]
proof fn lemma_told_9(a: Seq<char>, b: Seq<char>, c: Seq<char>)
    ensures
        text::fill("TT-Metal tiled I/O path currently requires matching logical buffer sizes across bindings; binding 0 uses $0 bytes but binding $1 uses $2 bytes"@, seq![a, b, c]) == "TT-Metal tiled I/O path currently requires matching logical buffer sizes across bindings; binding 0 uses "@ + a + " bytes but binding "@ + b + " uses "@ + c + " bytes"@,
{
    reveal_strlit(" bytes");
    reveal_strlit(" bytes but binding ");
    reveal_strlit(" uses ");
    reveal_strlit("TT-Metal tiled I/O path currently requires matching logical buffer sizes across bindings; binding 0 uses ");
    reveal_strlit("TT-Metal tiled I/O path currently requires matching logical buffer sizes across bindings; binding 0 uses $0 bytes but binding $1 uses $2 bytes");
    let segments = seq!["TT-Metal tiled I/O path currently requires matching logical buffer sizes across bindings; binding 0 uses "@, " bytes but binding "@, " uses "@, " bytes"@];
    let indices = seq![0nat, 1nat, 2nat];
    let args = seq![a, b, c];
    reveal_with_fuel(text::skeleton, 4);
    reveal_with_fuel(text::fleshed, 4);
    assert("TT-Metal tiled I/O path currently requires matching logical buffer sizes across bindings; binding 0 uses $0 bytes but binding $1 uses $2 bytes"@ =~= text::skeleton(segments, indices, 0));
    text::law_segments_are_kept(segments, indices, args, 0);
    assert(text::fill("TT-Metal tiled I/O path currently requires matching logical buffer sizes across bindings; binding 0 uses $0 bytes but binding $1 uses $2 bytes"@, args) =~= "TT-Metal tiled I/O path currently requires matching logical buffer sizes across bindings; binding 0 uses "@ + a + " bytes but binding "@ + b + " uses "@ + c + " bytes"@);
}

#[verifier::spinoff_prover]
#[verifier::rlimit(60)]
proof fn lemma_told_10(a: Seq<char>, b: Seq<char>)
    ensures
        text::fill("cannot derive static metadata for $0 bindings from $1 item sizes"@, seq![a, b]) == "cannot derive static metadata for "@ + a + " bindings from "@ + b + " item sizes"@,
{
    reveal_strlit(" bindings from ");
    reveal_strlit(" item sizes");
    reveal_strlit("cannot derive static metadata for ");
    reveal_strlit("cannot derive static metadata for $0 bindings from $1 item sizes");
    let segments = seq!["cannot derive static metadata for "@, " bindings from "@, " item sizes"@];
    let indices = seq![0nat, 1nat];
    let args = seq![a, b];
    reveal_with_fuel(text::skeleton, 3);
    reveal_with_fuel(text::fleshed, 3);
    assert("cannot derive static metadata for $0 bindings from $1 item sizes"@ =~= text::skeleton(segments, indices, 0));
    text::law_segments_are_kept(segments, indices, args, 0);
    assert(text::fill("cannot derive static metadata for $0 bindings from $1 item sizes"@, args) =~= "cannot derive static metadata for "@ + a + " bindings from "@ + b + " item sizes"@);
}

#[verifier::spinoff_prover]
#[verifier::rlimit(60)]
proof fn lemma_told_11(a: Seq<char>, b: Seq<char>)
    ensures
        text::fill("compute runtime args mismatch: derived $0 static args for info_static_len $1"@, seq![a, b]) == "compute runtime args mismatch: derived "@ + a + " static args for info_static_len "@ + b,
{
    reveal_strlit(" static args for info_static_len ");
    reveal_strlit("compute runtime args mismatch: derived ");
    reveal_strlit("compute runtime args mismatch: derived $0 static args for info_static_len $1");
    reveal_strlit("");
    let segments = seq!["compute runtime args mismatch: derived "@, " static args for info_static_len "@, ""@];
    let indices = seq![0nat, 1nat];
    let args = seq![a, b];
    reveal_with_fuel(text::skeleton, 3);
    reveal_with_fuel(text::fleshed, 3);
    assert("compute runtime args mismatch: derived $0 static args for info_static_len $1"@ =~= text::skeleton(segments, indices, 0));
    text::law_segments_are_kept(segments, indices, args, 0);
    assert(text::fill("compute runtime args mismatch: derived $0 static args for info_static_len $1"@, args) =~= "compute runtime args mismatch: derived "@ + a + " static args for info_static_len "@ + b);
}

/// Every error of a launch tells what was expected and what was found, each in its place.
pub proof fn law_launch_errors_tell_their_numbers(error: LaunchError)
    ensures
        match error {
            LaunchError::Arity { resources, buffers } => error.message() == "resource/buffer arity mismatch: "@ + text::dec(resources as nat) + " runtime resources for "@ + text::dec(buffers as nat) + " compiled buffers"@,
            LaunchError::ReaderIndex { index, bindings } => error.message() == "reader binding index "@ + text::dec(index as nat) + " out of range for "@ + text::dec(bindings as nat) + " runtime bindings"@,
            LaunchError::WriterIndex { index, bindings } => error.message() == "writer binding index "@ + text::dec(index as nat) + " out of range for "@ + text::dec(bindings as nat) + " runtime bindings"@,
            LaunchError::InputCount { expected, found } => error.message() == "reader source expects "@ + text::dec(expected as nat) + " inputs but runtime provided "@ + text::dec(found as nat),
            LaunchError::OutputCount { expected, found } => error.message() == "writer source expects "@ + text::dec(expected as nat) + " outputs but runtime provided "@ + text::dec(found as nat),
            LaunchError::ItemSizeCount { expected, found } => error.message() == "static metadata expects "@ + text::dec(expected as nat) + " buffer item sizes but runtime provided "@ + text::dec(found as nat) + " resources"@,
            LaunchError::ItemSize { index, expected, found } => error.message() == "buffer item size mismatch at binding "@ + text::dec(index as nat) + ": compiler expected "@ + text::dec(expected as nat) + " bytes but runtime binding uses "@ + text::dec(found as nat) + " bytes"@,
            LaunchError::MixedItemSize { first, index, found } => error.message() == "TT-Metal tiled I/O path requires a uniform element size across bindings; binding 0 uses "@ + text::dec(first as nat) + " bytes but binding "@ + text::dec(index as nat) + " uses "@ + text::dec(found as nat) + " bytes"@,
            LaunchError::MixedLength { first, index, found } => error.message() == "TT-Metal tiled I/O path currently requires matching logical buffer sizes across bindings; binding 0 uses "@ + text::dec(first as nat) + " bytes but binding "@ + text::dec(index as nat) + " uses "@ + text::dec(found as nat) + " bytes"@,
            LaunchError::StaticMetadata { bindings, sizes } => error.message() == "cannot derive static metadata for "@ + text::dec(bindings as nat) + " bindings from "@ + text::dec(sizes as nat) + " item sizes"@,
            LaunchError::StaticArguments { derived, expected } => error.message() == "compute runtime args mismatch: derived "@ + text::dec(derived as nat) + " static args for info_static_len "@ + text::dec(expected as nat),
            _ => true,
        },
{
    match error {
        LaunchError::Arity { resources, buffers } => {
            lemma_told_1(text::dec(resources as nat), text::dec(buffers as nat));
        },
        LaunchError::ReaderIndex { index, bindings } => {
            lemma_told_2(text::dec(index as nat), text::dec(bindings as nat));
        },
        LaunchError::WriterIndex { index, bindings } => {
            lemma_told_3(text::dec(index as nat), text::dec(bindings as nat));
        },
        LaunchError::InputCount { expected, found } => {
            lemma_told_4(text::dec(expected as nat), text::dec(found as nat));
        },
        LaunchError::OutputCount { expected, found } => {
            lemma_told_5(text::dec(expected as nat), text::dec(found as nat));
        },
        LaunchError::ItemSizeCount { expected, found } => {
            lemma_told_6(text::dec(expected as nat), text::dec(found as nat));
        },
        LaunchError::ItemSize { index, expected, found } => {
            lemma_told_7(text::dec(index as nat), text::dec(expected as nat), text::dec(found as nat));
        },
        LaunchError::MixedItemSize { first, index, found } => {
            lemma_told_8(text::dec(first as nat), text::dec(index as nat), text::dec(found as nat));
        },
        LaunchError::MixedLength { first, index, found } => {
            lemma_told_9(text::dec(first as nat), text::dec(index as nat), text::dec(found as nat));
        },
        LaunchError::StaticMetadata { bindings, sizes } => {
            lemma_told_10(text::dec(bindings as nat), text::dec(sizes as nat));
        },
        LaunchError::StaticArguments { derived, expected } => {
            lemma_told_11(text::dec(derived as nat), text::dec(expected as nat));
        },
        _ => {},
    }
}

#[verifier::spinoff_prover]
#[verifier::rlimit(60)]
proof fn lemma_told_12(a: Seq<char>)
    ensures
        text::fill(crate::error::BUFFER_ELEM@, seq![a]) == "TT-Metal Phase 1 supports BF16/F16/F32, reinterpret-friendly integer buffer elements, and the proven Atomic<u32> load/store buffer shape only, found "@ + a,
{
    reveal_strlit("TT-Metal Phase 1 supports BF16/F16/F32, reinterpret-friendly integer buffer elements, and the proven Atomic<u32> load/store buffer shape only, found ");
    reveal_strlit("TT-Metal Phase 1 supports BF16/F16/F32, reinterpret-friendly integer buffer elements, and the proven Atomic<u32> load/store buffer shape only, found $0");
    reveal_strlit("");
    let segments = seq!["TT-Metal Phase 1 supports BF16/F16/F32, reinterpret-friendly integer buffer elements, and the proven Atomic<u32> load/store buffer shape only, found "@, ""@];
    let indices = seq![0nat];
    let args = seq![a];
    reveal_with_fuel(text::skeleton, 2);
    reveal_with_fuel(text::fleshed, 2);
    assert(crate::error::BUFFER_ELEM@ =~= text::skeleton(segments, indices, 0));
    text::law_segments_are_kept(segments, indices, args, 0);
    assert(text::fill(crate::error::BUFFER_ELEM@, args) =~= "TT-Metal Phase 1 supports BF16/F16/F32, reinterpret-friendly integer buffer elements, and the proven Atomic<u32> load/store buffer shape only, found "@ + a);
}

#[verifier::spinoff_prover]
#[verifier::rlimit(60)]
proof fn lemma_told_13(a: Seq<char>)
    ensures
        text::fill(crate::error::TILE_FORMAT@, seq![a]) == "TT-Metal Phase 1 cannot infer a tile data format for "@ + a,
{
    reveal_strlit("TT-Metal Phase 1 cannot infer a tile data format for ");
    reveal_strlit("TT-Metal Phase 1 cannot infer a tile data format for $0");
    reveal_strlit("");
    let segments = seq!["TT-Metal Phase 1 cannot infer a tile data format for "@, ""@];
    let indices = seq![0nat];
    let args = seq![a];
    reveal_with_fuel(text::skeleton, 2);
    reveal_with_fuel(text::fleshed, 2);
    assert(crate::error::TILE_FORMAT@ =~= text::skeleton(segments, indices, 0));
    text::law_segments_are_kept(segments, indices, args, 0);
    assert(text::fill(crate::error::TILE_FORMAT@, args) =~= "TT-Metal Phase 1 cannot infer a tile data format for "@ + a);
}

#[verifier::spinoff_prover]
#[verifier::rlimit(60)]
proof fn lemma_told_14(a: Seq<char>)
    ensures
        text::fill(crate::error::INSTRUCTION@, seq![a]) == "TT-Metal Phase 1 does not support instruction: "@ + a,
{
    reveal_strlit("TT-Metal Phase 1 does not support instruction: ");
    reveal_strlit("TT-Metal Phase 1 does not support instruction: $0");
    reveal_strlit("");
    let segments = seq!["TT-Metal Phase 1 does not support instruction: "@, ""@];
    let indices = seq![0nat];
    let args = seq![a];
    reveal_with_fuel(text::skeleton, 2);
    reveal_with_fuel(text::fleshed, 2);
    assert(crate::error::INSTRUCTION@ =~= text::skeleton(segments, indices, 0));
    text::law_segments_are_kept(segments, indices, args, 0);
    assert(text::fill(crate::error::INSTRUCTION@, args) =~= "TT-Metal Phase 1 does not support instruction: "@ + a);
}

#[verifier::spinoff_prover]
#[verifier::rlimit(60)]
proof fn lemma_told_15(a: Seq<char>, b: Seq<char>)
    ensures
        text::fill(crate::error::TILE_SIZE@, seq![a, b]) == "TT-Metal tile size mismatch: caller requested "@ + a + " bytes, but kernel element type requires "@ + b + " bytes"@,
{
    reveal_strlit(" bytes");
    reveal_strlit(" bytes, but kernel element type requires ");
    reveal_strlit("TT-Metal tile size mismatch: caller requested ");
    reveal_strlit("TT-Metal tile size mismatch: caller requested $0 bytes, but kernel element type requires $1 bytes");
    let segments = seq!["TT-Metal tile size mismatch: caller requested "@, " bytes, but kernel element type requires "@, " bytes"@];
    let indices = seq![0nat, 1nat];
    let args = seq![a, b];
    reveal_with_fuel(text::skeleton, 3);
    reveal_with_fuel(text::fleshed, 3);
    assert(crate::error::TILE_SIZE@ =~= text::skeleton(segments, indices, 0));
    text::law_segments_are_kept(segments, indices, args, 0);
    assert(text::fill(crate::error::TILE_SIZE@, args) =~= "TT-Metal tile size mismatch: caller requested "@ + a + " bytes, but kernel element type requires "@ + b + " bytes"@);
}

/// Every error of the compiler tells what it is about.
pub proof fn law_compile_errors_tell_their_elements(error: CompileError)
    ensures
        match error {
            CompileError::BufferElem(elem) => error.message() == "TT-Metal Phase 1 supports BF16/F16/F32, reinterpret-friendly integer buffer elements, and the proven Atomic<u32> load/store buffer shape only, found "@ + elem.name(),
            CompileError::TileFormat(elem) => error.message() == "TT-Metal Phase 1 cannot infer a tile data format for "@ + elem.name(),
            CompileError::Instruction(debug) => error.message() == "TT-Metal Phase 1 does not support instruction: "@ + debug@,
            CompileError::TileSize { requested, required } => error.message() == "TT-Metal tile size mismatch: caller requested "@ + text::dec(requested as nat) + " bytes, but kernel element type requires "@ + text::dec(required as nat) + " bytes"@,
            _ => true,
        },
{
    match error {
        CompileError::BufferElem(elem) => {
            lemma_told_12(elem.name());
        },
        CompileError::TileFormat(elem) => {
            lemma_told_13(elem.name());
        },
        CompileError::Instruction(debug) => {
            lemma_told_14(debug@);
        },
        CompileError::TileSize { requested, required } => {
            lemma_told_15(text::dec(requested as nat), text::dec(required as nat));
        },
        _ => {},
    }
}

#[verifier::spinoff_prover]
#[verifier::rlimit(60)]
proof fn lemma_told_16(a: Seq<char>)
    ensures
        text::fill("unsupported TT data format code: $0"@, seq![a]) == "unsupported TT data format code: "@ + a,
{
    reveal_strlit("unsupported TT data format code: ");
    reveal_strlit("unsupported TT data format code: $0");
    reveal_strlit("");
    let segments = seq!["unsupported TT data format code: "@, ""@];
    let indices = seq![0nat];
    let args = seq![a];
    reveal_with_fuel(text::skeleton, 2);
    reveal_with_fuel(text::fleshed, 2);
    assert("unsupported TT data format code: $0"@ =~= text::skeleton(segments, indices, 0));
    text::law_segments_are_kept(segments, indices, args, 0);
    assert(text::fill("unsupported TT data format code: $0"@, args) =~= "unsupported TT data format code: "@ + a);
}

/// An error about a format tells its code.
pub proof fn law_program_errors_tell_their_format(error: ProgramError)
    ensures
        match error {
            ProgramError::DataFormat(code) => error.message() == "unsupported TT data format code: "@ + text::dec(code as nat),
            _ => true,
        },
{
    match error {
        ProgramError::DataFormat(code) => {
            lemma_told_16(text::dec(code as nat));
        },
        _ => {},
    }
}

#[verifier::spinoff_prover]
#[verifier::rlimit(60)]
proof fn lemma_told_17(a: Seq<char>)
    ensures
        text::fill(crate::command::NOT_REPLICATED@, seq![a]) == a + " only supports replicated TT buffers today"@,
{
    reveal_strlit(" only supports replicated TT buffers today");
    reveal_strlit("$0 only supports replicated TT buffers today");
    reveal_strlit("");
    let segments = seq![""@, " only supports replicated TT buffers today"@];
    let indices = seq![0nat];
    let args = seq![a];
    reveal_with_fuel(text::skeleton, 2);
    reveal_with_fuel(text::fleshed, 2);
    assert(crate::command::NOT_REPLICATED@ =~= text::skeleton(segments, indices, 0));
    text::law_segments_are_kept(segments, indices, args, 0);
    assert(text::fill(crate::command::NOT_REPLICATED@, args) =~= a + " only supports replicated TT buffers today"@);
}

#[verifier::spinoff_prover]
#[verifier::rlimit(60)]
proof fn lemma_told_18(a: Seq<char>, b: Seq<char>)
    ensures
        text::fill(crate::command::READ_TOO_LONG@, seq![a, b]) == "read_resource_bytes: logical read "@ + a + " exceeds resource size "@ + b,
{
    reveal_strlit(" exceeds resource size ");
    reveal_strlit("read_resource_bytes: logical read ");
    reveal_strlit("read_resource_bytes: logical read $0 exceeds resource size $1");
    reveal_strlit("");
    let segments = seq!["read_resource_bytes: logical read "@, " exceeds resource size "@, ""@];
    let indices = seq![0nat, 1nat];
    let args = seq![a, b];
    reveal_with_fuel(text::skeleton, 3);
    reveal_with_fuel(text::fleshed, 3);
    assert(crate::command::READ_TOO_LONG@ =~= text::skeleton(segments, indices, 0));
    text::law_segments_are_kept(segments, indices, args, 0);
    assert(text::fill(crate::command::READ_TOO_LONG@, args) =~= "read_resource_bytes: logical read "@ + a + " exceeds resource size "@ + b);
}

#[verifier::spinoff_prover]
#[verifier::rlimit(60)]
proof fn lemma_told_19(a: Seq<char>, b: Seq<char>)
    ensures
        text::fill(crate::command::WRITE_TOO_LONG@, seq![a, b]) == "write_resource_bytes: logical write "@ + a + " exceeds resource size "@ + b,
{
    reveal_strlit(" exceeds resource size ");
    reveal_strlit("write_resource_bytes: logical write ");
    reveal_strlit("write_resource_bytes: logical write $0 exceeds resource size $1");
    reveal_strlit("");
    let segments = seq!["write_resource_bytes: logical write "@, " exceeds resource size "@, ""@];
    let indices = seq![0nat, 1nat];
    let args = seq![a, b];
    reveal_with_fuel(text::skeleton, 3);
    reveal_with_fuel(text::fleshed, 3);
    assert(crate::command::WRITE_TOO_LONG@ =~= text::skeleton(segments, indices, 0));
    text::law_segments_are_kept(segments, indices, args, 0);
    assert(text::fill(crate::command::WRITE_TOO_LONG@, args) =~= "write_resource_bytes: logical write "@ + a + " exceeds resource size "@ + b);
}

#[verifier::spinoff_prover]
#[verifier::rlimit(60)]
proof fn lemma_told_20(a: Seq<char>, b: Seq<char>)
    ensures
        text::fill(crate::command::DATA_TOO_SHORT@, seq![a, b]) == "write_to_gpu: data size "@ + a + " < expected "@ + b,
{
    reveal_strlit(" < expected ");
    reveal_strlit("write_to_gpu: data size ");
    reveal_strlit("write_to_gpu: data size $0 < expected $1");
    reveal_strlit("");
    let segments = seq!["write_to_gpu: data size "@, " < expected "@, ""@];
    let indices = seq![0nat, 1nat];
    let args = seq![a, b];
    reveal_with_fuel(text::skeleton, 3);
    reveal_with_fuel(text::fleshed, 3);
    assert(crate::command::DATA_TOO_SHORT@ =~= text::skeleton(segments, indices, 0));
    text::law_segments_are_kept(segments, indices, args, 0);
    assert(text::fill(crate::command::DATA_TOO_SHORT@, args) =~= "write_to_gpu: data size "@ + a + " < expected "@ + b);
}

/// Every error of a transfer tells how much was asked for and how much there is.
pub proof fn law_transfer_errors_tell_their_sizes(error: IoError)
    ensures
        match error {
            IoError::NotReplicated(transfer) => error.message() == transfer.label() + " only supports replicated TT buffers today"@,
            IoError::ReadTooLong { asked, size } => error.message() == "read_resource_bytes: logical read "@ + text::dec(asked as nat) + " exceeds resource size "@ + text::dec(size as nat),
            IoError::WriteTooLong { asked, size } => error.message() == "write_resource_bytes: logical write "@ + text::dec(asked as nat) + " exceeds resource size "@ + text::dec(size as nat),
            IoError::DataTooShort { found, expected } => error.message() == "write_to_gpu: data size "@ + text::dec(found as nat) + " < expected "@ + text::dec(expected as nat),
            _ => true,
        },
{
    match error {
        IoError::NotReplicated(transfer) => {
            lemma_told_17(transfer.label());
        },
        IoError::ReadTooLong { asked, size } => {
            lemma_told_18(text::dec(asked as nat), text::dec(size as nat));
        },
        IoError::WriteTooLong { asked, size } => {
            lemma_told_19(text::dec(asked as nat), text::dec(size as nat));
        },
        IoError::DataTooShort { found, expected } => {
            lemma_told_20(text::dec(found as nat), text::dec(expected as nat));
        },
        _ => {},
    }
}

#[verifier::spinoff_prover]
#[verifier::rlimit(60)]
proof fn lemma_told_21(a: Seq<char>, b: Seq<char>)
    ensures
        text::fill(crate::command::RESOURCE_COUNT@, seq![a, b]) == "TT tiled I/O bridge expected "@ + a + " resources but got "@ + b,
{
    reveal_strlit(" resources but got ");
    reveal_strlit("TT tiled I/O bridge expected ");
    reveal_strlit("TT tiled I/O bridge expected $0 resources but got $1");
    reveal_strlit("");
    let segments = seq!["TT tiled I/O bridge expected "@, " resources but got "@, ""@];
    let indices = seq![0nat, 1nat];
    let args = seq![a, b];
    reveal_with_fuel(text::skeleton, 3);
    reveal_with_fuel(text::fleshed, 3);
    assert(crate::command::RESOURCE_COUNT@ =~= text::skeleton(segments, indices, 0));
    text::law_segments_are_kept(segments, indices, args, 0);
    assert(text::fill(crate::command::RESOURCE_COUNT@, args) =~= "TT tiled I/O bridge expected "@ + a + " resources but got "@ + b);
}

#[verifier::spinoff_prover]
#[verifier::rlimit(60)]
proof fn lemma_told_22(a: Seq<char>, b: Seq<char>)
    ensures
        text::fill(crate::command::OUTPUT_TOO_SHORT@, seq![a, b]) == "TT tiled output bridge produced "@ + a + " bytes, expected at least "@ + b,
{
    reveal_strlit(" bytes, expected at least ");
    reveal_strlit("TT tiled output bridge produced ");
    reveal_strlit("TT tiled output bridge produced $0 bytes, expected at least $1");
    reveal_strlit("");
    let segments = seq!["TT tiled output bridge produced "@, " bytes, expected at least "@, ""@];
    let indices = seq![0nat, 1nat];
    let args = seq![a, b];
    reveal_with_fuel(text::skeleton, 3);
    reveal_with_fuel(text::fleshed, 3);
    assert(crate::command::OUTPUT_TOO_SHORT@ =~= text::skeleton(segments, indices, 0));
    text::law_segments_are_kept(segments, indices, args, 0);
    assert(text::fill(crate::command::OUTPUT_TOO_SHORT@, args) =~= "TT tiled output bridge produced "@ + a + " bytes, expected at least "@ + b);
}

/// Every error of a bridge tells what was expected and what was found.
pub proof fn law_bridge_errors_tell_their_sizes(error: BridgeError)
    ensures
        match error {
            BridgeError::ResourceCount { expected, found } => error.message() == "TT tiled I/O bridge expected "@ + text::dec(expected as nat) + " resources but got "@ + text::dec(found as nat),
            BridgeError::OutputTooShort { found, expected } => error.message() == "TT tiled output bridge produced "@ + text::dec(found as nat) + " bytes, expected at least "@ + text::dec(expected as nat),
            _ => true,
        },
{
    match error {
        BridgeError::ResourceCount { expected, found } => {
            lemma_told_21(text::dec(expected as nat), text::dec(found as nat));
        },
        BridgeError::OutputTooShort { found, expected } => {
            lemma_told_22(text::dec(found as nat), text::dec(expected as nat));
        },
        _ => {},
    }
}

#[verifier::spinoff_prover]
#[verifier::rlimit(60)]
proof fn lemma_told_23(a: Seq<char>, b: Seq<char>, c: Seq<char>, d: Seq<char>, e: Seq<char>)
    ensures
        text::fill(bundle::BINDING@, seq![a, b, c, d, e]) == a + " "@ + b + ": id="@ + c + ", visibility="@ + d + ", type="@ + e,
{
    reveal_strlit(" ");
    reveal_strlit("$0 $1: id=$2, visibility=$3, type=$4");
    reveal_strlit(", type=");
    reveal_strlit(", visibility=");
    reveal_strlit(": id=");
    reveal_strlit("");
    let segments = seq![""@, " "@, ": id="@, ", visibility="@, ", type="@, ""@];
    let indices = seq![0nat, 1nat, 2nat, 3nat, 4nat];
    let args = seq![a, b, c, d, e];
    reveal_with_fuel(text::skeleton, 6);
    reveal_with_fuel(text::fleshed, 6);
    assert(bundle::BINDING@ =~= text::skeleton(segments, indices, 0));
    text::law_segments_are_kept(segments, indices, args, 0);
    assert(text::fill(bundle::BINDING@, args) =~= a + " "@ + b + ": id="@ + c + ", visibility="@ + d + ", type="@ + e);
}

#[verifier::spinoff_prover]
#[verifier::rlimit(60)]
proof fn lemma_told_24(a: Seq<char>, b: Seq<char>, c: Seq<char>)
    ensures
        text::fill(bundle::WRITABLE@, seq![a, b, c]) == "Writable buffer "@ + a + ": id="@ + b + ", type="@ + c,
{
    reveal_strlit(", type=");
    reveal_strlit(": id=");
    reveal_strlit("Writable buffer ");
    reveal_strlit("Writable buffer $0: id=$1, type=$2");
    reveal_strlit("");
    let segments = seq!["Writable buffer "@, ": id="@, ", type="@, ""@];
    let indices = seq![0nat, 1nat, 2nat];
    let args = seq![a, b, c];
    reveal_with_fuel(text::skeleton, 4);
    reveal_with_fuel(text::fleshed, 4);
    assert(bundle::WRITABLE@ =~= text::skeleton(segments, indices, 0));
    text::law_segments_are_kept(segments, indices, args, 0);
    assert(text::fill(bundle::WRITABLE@, args) =~= "Writable buffer "@ + a + ": id="@ + b + ", type="@ + c);
}

#[verifier::spinoff_prover]
#[verifier::rlimit(60)]
proof fn lemma_told_25(a: Seq<char>, b: Seq<char>, c: Seq<char>)
    ensures
        text::fill(bundle::SCALAR_GROUP@, seq![a, b, c]) == "Scalar group "@ + a + ": type="@ + b + ", count="@ + c,
{
    reveal_strlit(", count=");
    reveal_strlit(": type=");
    reveal_strlit("Scalar group ");
    reveal_strlit("Scalar group $0: type=$1, count=$2");
    reveal_strlit("");
    let segments = seq!["Scalar group "@, ": type="@, ", count="@, ""@];
    let indices = seq![0nat, 1nat, 2nat];
    let args = seq![a, b, c];
    reveal_with_fuel(text::skeleton, 4);
    reveal_with_fuel(text::fleshed, 4);
    assert(bundle::SCALAR_GROUP@ =~= text::skeleton(segments, indices, 0));
    text::law_segments_are_kept(segments, indices, args, 0);
    assert(text::fill(bundle::SCALAR_GROUP@, args) =~= "Scalar group "@ + a + ": type="@ + b + ", count="@ + c);
}

#[verifier::spinoff_prover]
#[verifier::rlimit(60)]
proof fn lemma_told_26(a: Seq<char>, b: Seq<char>, c: Seq<char>)
    ensures
        text::fill(bundle::CUBE_DIMS@, seq![a, b, c]) == "Cube dims: ("@ + a + ", "@ + b + ", "@ + c + ")."@,
{
    reveal_strlit(").");
    reveal_strlit(", ");
    reveal_strlit("Cube dims: (");
    reveal_strlit("Cube dims: ($0, $1, $2).");
    let segments = seq!["Cube dims: ("@, ", "@, ", "@, ")."@];
    let indices = seq![0nat, 1nat, 2nat];
    let args = seq![a, b, c];
    reveal_with_fuel(text::skeleton, 4);
    reveal_with_fuel(text::fleshed, 4);
    assert(bundle::CUBE_DIMS@ =~= text::skeleton(segments, indices, 0));
    text::law_segments_are_kept(segments, indices, args, 0);
    assert(text::fill(bundle::CUBE_DIMS@, args) =~= "Cube dims: ("@ + a + ", "@ + b + ", "@ + c + ")."@);
}

#[verifier::spinoff_prover]
#[verifier::rlimit(60)]
proof fn lemma_told_27(a: Seq<char>, b: Seq<char>, c: Seq<char>)
    ensures
        text::fill(bundle::CUBE_NOTE@, seq![a, b, c]) == "Cube dimensions are ("@ + a + ", "@ + b + ", "@ + c + "); TT core mapping must be chosen by the runtime/program builder."@,
{
    reveal_strlit("); TT core mapping must be chosen by the runtime/program builder.");
    reveal_strlit(", ");
    reveal_strlit("Cube dimensions are (");
    reveal_strlit("Cube dimensions are ($0, $1, $2); TT core mapping must be chosen by the runtime/program builder.");
    let segments = seq!["Cube dimensions are ("@, ", "@, ", "@, "); TT core mapping must be chosen by the runtime/program builder."@];
    let indices = seq![0nat, 1nat, 2nat];
    let args = seq![a, b, c];
    reveal_with_fuel(text::skeleton, 4);
    reveal_with_fuel(text::fleshed, 4);
    assert(bundle::CUBE_NOTE@ =~= text::skeleton(segments, indices, 0));
    text::law_segments_are_kept(segments, indices, args, 0);
    assert(text::fill(bundle::CUBE_NOTE@, args) =~= "Cube dimensions are ("@ + a + ", "@ + b + ", "@ + c + "); TT core mapping must be chosen by the runtime/program builder."@);
}

#[verifier::spinoff_prover]
#[verifier::rlimit(60)]
proof fn lemma_told_28(a: Seq<char>, b: Seq<char>, c: Seq<char>)
    ensures
        text::fill(bundle::COUNTS_NOTE@, seq![a, b, c]) == "Kernel uses "@ + a + " buffer bindings, "@ + b + " tensor-map bindings, and "@ + c + " scalar groups."@,
{
    reveal_strlit(" buffer bindings, ");
    reveal_strlit(" scalar groups.");
    reveal_strlit(" tensor-map bindings, and ");
    reveal_strlit("Kernel uses ");
    reveal_strlit("Kernel uses $0 buffer bindings, $1 tensor-map bindings, and $2 scalar groups.");
    let segments = seq!["Kernel uses "@, " buffer bindings, "@, " tensor-map bindings, and "@, " scalar groups."@];
    let indices = seq![0nat, 1nat, 2nat];
    let args = seq![a, b, c];
    reveal_with_fuel(text::skeleton, 4);
    reveal_with_fuel(text::fleshed, 4);
    assert(bundle::COUNTS_NOTE@ =~= text::skeleton(segments, indices, 0));
    text::law_segments_are_kept(segments, indices, args, 0);
    assert(text::fill(bundle::COUNTS_NOTE@, args) =~= "Kernel uses "@ + a + " buffer bindings, "@ + b + " tensor-map bindings, and "@ + c + " scalar groups."@);
}

/// What is told of a binding.
pub open spec fn binding_line(prefix: Seq<char>, at: nat, binding: BindingInfo) -> Seq<char> {
    prefix + " "@ + text::dec(at) + ": id="@ + text::dec(binding.id as nat) + ", visibility="@ + (if binding.visibility is ReadWrite { "read_write"@ } else { "read"@ }) + ", type="@ + binding.ty@
}

/// What is told of a writable buffer.
pub open spec fn writable_line(at: nat, binding: BindingInfo) -> Seq<char> {
    "Writable buffer "@ + text::dec(at) + ": id="@ + text::dec(binding.id as nat) + ", type="@ + binding.ty@
}

/// What is told of a group of scalars.
pub open spec fn scalar_line(at: nat, scalar: ScalarInfo) -> Seq<char> {
    "Scalar group "@ + text::dec(at) + ": type="@ + scalar.ty@ + ", count="@ + text::dec(scalar.count as nat)
}

/// Every binding has a line behind those before it, in the order of the bindings: with its
/// position, its identifier, whether it is written, and its type.
pub proof fn law_bindings_are_listed(
    lines: Seq<Seq<char>>,
    prefix: Seq<char>,
    bindings: Seq<BindingInfo>,
    count: nat,
    at: int,
)
    requires
        count <= bindings.len(),
    ensures
        ({
            let all = bundle::with_bindings(lines, prefix, bindings, count);
            &&& all.len() == lines.len() + count
            &&& 0 <= at < lines.len() ==> all[at] == lines[at]
            &&& 0 <= at < count ==> all[lines.len() + at] == binding_line(
                prefix,
                at as nat,
                bindings[at],
            )
        }),
    decreases count,
{
    if count > 0 {
        law_bindings_are_listed(lines, prefix, bindings, (count - 1) as nat, at);
        let binding = bindings[count - 1];
        lemma_told_23(
            prefix,
            text::dec((count - 1) as nat),
            text::dec(binding.id as nat),
            bundle::visibility_text(binding.visibility),
            binding.ty@,
        );
    }
}

/// Every buffer that is written has a line behind those before it, and no other buffer has.
pub proof fn law_writable_buffers_are_listed(
    lines: Seq<Seq<char>>,
    bindings: Seq<BindingInfo>,
    count: nat,
    at: int,
)
    requires
        count <= bindings.len(),
    ensures
        ({
            let all = bundle::with_writable(lines, bindings, count);
            &&& all.len() >= lines.len()
            &&& 0 <= at < lines.len() ==> all[at] == lines[at]
            &&& 0 <= at < count && bindings[at].visibility is ReadWrite ==> exists|i: int|
                lines.len() <= i < all.len() && #[trigger] all[i] == writable_line(
                    at as nat,
                    bindings[at],
                )
            &&& lines.len() <= at < all.len() ==> exists|i: int|
                {
                    &&& 0 <= i < count
                    &&& (#[trigger] bindings[i]).visibility is ReadWrite
                    &&& all[at] == writable_line(i as nat, bindings[i])
                }
        }),
    decreases count,
{
    if count > 0 {
        law_writable_buffers_are_listed(lines, bindings, (count - 1) as nat, at);
        let before = bundle::with_writable(lines, bindings, (count - 1) as nat);
        let all = bundle::with_writable(lines, bindings, count);
        let binding = bindings[count - 1];
        lemma_told_24(text::dec((count - 1) as nat), text::dec(binding.id as nat), binding.ty@);
        if binding.visibility is ReadWrite {
            assert(all[before.len() as int] == writable_line((count - 1) as nat, binding));
        }
        if 0 <= at < count - 1 && bindings[at].visibility is ReadWrite {
            let i = choose|i: int|
                lines.len() <= i < before.len() && #[trigger] before[i] == writable_line(
                    at as nat,
                    bindings[at],
                );
            assert(all[i] == before[i]);
        }
        if lines.len() <= at < before.len() {
            assert(all[at] == before[at]);
        }
    }
}

/// Every group of scalars has a line behind those before it, in their order: with its
/// position, its type, and how many there are.
pub proof fn law_scalars_are_listed(
    lines: Seq<Seq<char>>,
    scalars: Seq<ScalarInfo>,
    count: nat,
    at: int,
)
    requires
        count <= scalars.len(),
    ensures
        ({
            let all = bundle::with_scalars(lines, scalars, count);
            &&& all.len() == lines.len() + count
            &&& 0 <= at < lines.len() ==> all[at] == lines[at]
            &&& 0 <= at < count ==> all[lines.len() + at] == scalar_line(at as nat, scalars[at])
        }),
    decreases count,
{
    if count > 0 {
        law_scalars_are_listed(lines, scalars, (count - 1) as nat, at);
        let scalar = scalars[count - 1];
        lemma_told_25(text::dec((count - 1) as nat), scalar.ty@, text::dec(scalar.count as nat));
    }
}

/// The extents of a cube are told along x, y and z, and so are the numbers of bindings.
pub proof fn law_notes_tell_their_numbers(
    kernel: KernelInfo,
    mode: Seq<char>,
    address_type: Seq<char>,
)
    ensures
        ({
            let notes = bundle::bundle_notes(kernel, mode, address_type);
            let dim = kernel.cube_dim;
            &&& notes[2] == "Kernel uses "@ + text::dec(kernel.buffers.len() as nat) + " buffer bindings, "@ + text::dec(kernel.tensor_maps.len() as nat) + " tensor-map bindings, and "@ + text::dec(kernel.scalars.len() as nat) + " scalar groups."@
            &&& notes[3] == "Cube dimensions are ("@ + text::dec(dim.x as nat) + ", "@ + text::dec(dim.y as nat) + ", "@ + text::dec(dim.z as nat) + "); TT core mapping must be chosen by the runtime/program builder."@
            &&& bundle::cube_filled(bundle::CUBE_DIMS@, dim) == "Cube dims: ("@ + text::dec(dim.x as nat) + ", "@ + text::dec(dim.y as nat) + ", "@ + text::dec(dim.z as nat) + ")."@
        }),
{
    let dim = kernel.cube_dim;
    lemma_told_28(
        text::dec(kernel.buffers.len() as nat),
        text::dec(kernel.tensor_maps.len() as nat),
        text::dec(kernel.scalars.len() as nat),
    );
    lemma_told_27(text::dec(dim.x as nat), text::dec(dim.y as nat), text::dec(dim.z as nat));
    lemma_told_26(text::dec(dim.x as nat), text::dec(dim.y as nat), text::dec(dim.z as nat));
}

} // verus!

//! What the operations of the server do with the errors of a stream, and the launch of
//! sources that are made already.
use crate::kernel::TtKernelSources;
use crate::storage::copy_words;
use crate::stream::StreamErrorMode;
use vstd::prelude::*;

verus! {

/// The operations of the server.
#[derive(Clone, Copy, Debug, PartialEq, Eq, Structural)]
pub enum Operation {
    Staging,
    InitializeMemory,
    Read,
    Write,
    Launch,
    LaunchFromSources,
    Flush,
    Sync,
    GetResource,
    MemoryUsage,
    MemoryCleanup,
    AllocationMode,
}

impl Operation {
    /// The mode that an operation asks for. That of reading, flushing and waiting reports
    /// the errors of a stream and clears them; that of asking for the memory in use
    /// reports them and keeps them; that of everything else goes on in spite of them.
    ///
    /// Flushing and waiting hand their mode to the errors of the stream. The others, and
    /// reading among them, only go by whether it ignores errors: where it does not, they
    /// are refused on a stream that has some.
    pub open spec fn mode(self) -> StreamErrorMode {
        match self {
            Operation::Read | Operation::Flush | Operation::Sync => StreamErrorMode {
                ignore: false,
                flush: true,
            },
            Operation::MemoryUsage => StreamErrorMode { ignore: false, flush: false },
            _ => StreamErrorMode { ignore: true, flush: false },
        }
    }

    /// How an operation looks at the errors of its stream.
    pub fn error_mode(&self) -> (mode: StreamErrorMode)
        ensures
            mode == self.mode(),
    {
        match self {
            Operation::Read | Operation::Flush | Operation::Sync => StreamErrorMode {
                ignore: false,
                flush: true,
            },
            Operation::MemoryUsage => StreamErrorMode { ignore: false, flush: false },
            _ => StreamErrorMode { ignore: true, flush: false },
        }
    }
}

/// Sources with the compile-time arguments that they are launched with; nothing else of
/// them changes.
pub fn sources_to_launch(
    sources: &TtKernelSources,
    reader_compile_args: &Vec<u32>,
    writer_compile_args: &Vec<u32>,
) -> (launched: TtKernelSources)
    ensures
        launched.reader_compile_args@ == reader_compile_args@,
        launched.writer_compile_args@ == writer_compile_args@,
        exists|copy: TtKernelSources| #[trigger]
            copy.same_as(*sources) && launched == (TtKernelSources {
                reader_compile_args: launched.reader_compile_args,
                writer_compile_args: launched.writer_compile_args,
                ..copy
            }),
{
    let copy = sources.duplicate();
    let launched = copy.with_compile_args(
        copy_words(reader_compile_args),
        copy_words(writer_compile_args),
    );
    assert(copy.same_as(*sources));
    launched
}

/// Errors are reported once: after they were reported by a flush or a wait, no operation
/// reports them again.
pub proof fn law_errors_are_reported_once(errors: Seq<String>, first: Operation, second: Operation)
    requires
        first is Flush || first is Sync,
    ensures
        first.mode().reported(errors) is None <==> errors.len() == 0,
        second.mode().reported(first.mode().kept(errors)) is None,
{
}

/// No error is lost: errors that are not reported are all kept, whatever the operation in
/// whose mode they are flushed.
pub proof fn law_no_error_is_lost(errors: Seq<String>, operation: Operation)
    ensures
        operation.mode().reported(errors) is Some || operation.mode().kept(errors) == errors,
{
}

/// An operation that hands results back is refused on a stream with errors, and so is one that
/// waits; all others go on in spite of them. Errors are cleared only where they are reported.
pub proof fn law_errors_stop_what_hands_results_back(errors: Seq<String>, operation: Operation)
    requires
        errors.len() > 0,
    ensures
        operation is Read || operation is Flush || operation is Sync || operation is MemoryUsage
            <==> operation.mode().reported(errors) == Some(errors),
        operation.mode().kept(errors).len() == 0 ==> operation.mode().reported(errors) == Some(
            errors,
        ),
        operation.mode().kept(errors) == errors || operation.mode().kept(errors).len() == 0,
{
}

} // verus!

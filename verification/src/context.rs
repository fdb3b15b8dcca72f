//! The kernels that were compiled so far, and how their launches are made.
use crate::compile;
use crate::dataflow;
use crate::ir::ComputeKernel;
use crate::kernel::TtKernelSources;
use crate::launch;
use crate::launch::{CubeCount, LaunchError, PreparedLaunch};
use crate::program;
use crate::program::{ProgramError, ProgramPlan};
use crate::storage::TtResource;
use std::collections::HashMap;
use vstd::prelude::*;

verus! {

/// What a compiled kernel leaves in the file cache.
#[derive(Clone, Debug, PartialEq, Eq)]
pub struct CompilationCacheEntry {
    pub entrypoint_name: String,
    pub shared_mem_bytes: usize,
    pub binary: Vec<i8>,
}

/// A kernel with its sources.
#[derive(Debug)]
pub struct CachedCubeTaskLaunch {
    pub repr: ComputeKernel,
    pub sources: TtKernelSources,
}

impl CachedCubeTaskLaunch {
    /// The sources are those of the kernel.
    pub open spec fn wf(self) -> bool {
        &&& self.repr.wf()
        &&& compile::refusal(self.repr) is None
        &&& compile::is_generated(self.sources, self.repr, 1, None, false)
    }
}

/// The kernels that were compiled so far, by their identifiers.
#[derive(Debug)]
pub struct TtContext {
    pub compiled_sources: HashMap<u64, CachedCubeTaskLaunch>,
}

/// The page size that the first buffer with one has, from `from` on.
pub open spec fn first_page_size(resources: Seq<TtResource>, from: nat) -> Option<u32>
    decreases resources.len() - from,
{
    if from >= resources.len() {
        None
    } else if resources[from as int].compile_args.len() > 1 {
        Some(resources[from as int].compile_args[1])
    } else {
        first_page_size(resources, from + 1)
    }
}

fn find_page_size(resources: &Vec<TtResource>) -> (page_size: Option<u32>)
    ensures
        page_size == first_page_size(resources@, 0),
{
    let mut i: usize = 0;
    while i < resources.len()
        invariant
            i <= resources.len(),
            first_page_size(resources@, 0) == first_page_size(resources@, i as nat),
        decreases resources.len() - i,
    {
        if resources[i].compile_args.len() > 1 {
            return Some(resources[i].compile_args[1]);
        }
        i += 1;
    }
    None
}

/// Whether a launch is that of the kernel's sources, on pages of the size that its
/// buffers have.
pub open spec fn is_task_launch(
    prepared: PreparedLaunch,
    kernel: ComputeKernel,
    resources: Seq<TtResource>,
    words: Seq<u32>,
    count: CubeCount,
) -> bool {
    exists|sources: TtKernelSources| #[trigger]
        compile::is_generated(sources, kernel, 1, first_page_size(resources, 0), false)
            && launch::refusal(kernel, sources, resources, words.len() > 0) is None
            && prepared.is_launch(kernel, sources, resources, words, count)
}

/// Whether `after` is `before` with one more kernel.
pub open spec fn adds(
    after: Map<u64, CachedCubeTaskLaunch>,
    before: Map<u64, CachedCubeTaskLaunch>,
    kernel_id: u64,
    repr: ComputeKernel,
) -> bool {
    &&& after.dom().contains(kernel_id)
    &&& after[kernel_id].repr == repr
    &&& after == before.insert(kernel_id, after[kernel_id])
}

/// Why the launch of a kernel is refused.
pub open spec fn is_task_refusal(
    error: LaunchError,
    kernel: ComputeKernel,
    resources: Seq<TtResource>,
    has_info: bool,
) -> bool {
    exists|sources: TtKernelSources| #[trigger]
        compile::is_generated(sources, kernel, 1, first_page_size(resources, 0), false)
            && launch::refusal(kernel, sources, resources, has_info) == Some(error)
}

/// The outcome of the launch of a kernel with an info block.
pub open spec fn is_task_result(
    result: Result<PreparedLaunch, LaunchError>,
    kernel: ComputeKernel,
    resources: Seq<TtResource>,
    info: Seq<u64>,
    count: CubeCount,
) -> bool {
    match result {
        Ok(prepared) => exists|words: Seq<u32>|
            launch::are_info_words(info, words) && #[trigger] is_task_launch(
                prepared,
                kernel,
                resources,
                words,
                count,
            ),
        Err(error) => is_task_refusal(error, kernel, resources, info.len() > 0),
    }
}

/// What comes of the launch of a kernel, and the kernels that are known before and
/// after it.
pub open spec fn is_task_outcome(
    before: Map<u64, CachedCubeTaskLaunch>,
    after: Map<u64, CachedCubeTaskLaunch>,
    kernel_id: u64,
    repr: Option<ComputeKernel>,
    count: CubeCount,
    resources: Seq<TtResource>,
    info: Seq<u64>,
    result: Result<PreparedLaunch, LaunchError>,
) -> bool {
    if before.dom().contains(kernel_id) {
        &&& after == before
        &&& is_task_result(result, before[kernel_id].repr, resources, info, count)
    } else {
        match repr {
            None => result == Err::<PreparedLaunch, LaunchError>(LaunchError::NoRepresentation)
                && after == before,
            Some(repr) => match compile::refusal(repr) {
                Some(error) => result == Err::<PreparedLaunch, LaunchError>(
                    LaunchError::Compilation(error),
                ) && after == before,
                None => adds(after, before, kernel_id, repr) && is_task_result(
                    result,
                    repr,
                    resources,
                    info,
                    count,
                ),
            },
        }
    }
}

/// Why a kernel was not made a program.
#[derive(Debug)]
pub enum TaskError {
    Launch(LaunchError),
    Program(ProgramError),
}

/// The kernel that is launched: the one that was compiled before, or else that of the
/// representation, where it can be compiled.
pub open spec fn task_kernel(
    known: Map<u64, CachedCubeTaskLaunch>,
    kernel_id: u64,
    repr: Option<ComputeKernel>,
) -> Option<ComputeKernel> {
    if known.dom().contains(kernel_id) {
        Some(known[kernel_id].repr)
    } else {
        match repr {
            Some(repr) if compile::refusal(repr) is None => Some(repr),
            _ => None,
        }
    }
}

/// Whether the launch of a kernel is not refused.
pub open spec fn is_launchable(
    kernel: ComputeKernel,
    resources: Seq<TtResource>,
    has_info: bool,
) -> bool {
    exists|sources: TtKernelSources| #[trigger]
        compile::is_generated(sources, kernel, 1, first_page_size(resources, 0), false)
            && launch::refusal(kernel, sources, resources, has_info) is None
}

/// Whether the program of a kernel can be counted: its outputs, each of which has a
/// number in a byte, and two of the pages that its tiles follow, where they do.
pub open spec fn task_fits(kernel: ComputeKernel, resources: Seq<TtResource>) -> bool {
    &&& compile::output_positions(kernel).len() <= u8::MAX - dataflow::FIRST_OUTPUT_BUFFER + 1
    &&& compile::generated_kind(kernel) is Generic ==> (first_page_size(
        resources,
        0,
    ) matches Some(size) ==> 2 * size <= u32::MAX)
}

proof fn lemma_task_fits(
    prepared: PreparedLaunch,
    kernel: ComputeKernel,
    resources: Seq<TtResource>,
    words: Seq<u32>,
    count: CubeCount,
)
    requires
        is_task_launch(prepared, kernel, resources, words, count),
        is_launchable(kernel, resources, words.len() > 0) ==> task_fits(kernel, resources),
    ensures
        program::sizes_fit(prepared.sources),
{
    let sources = choose|sources: TtKernelSources| #[trigger]
        compile::is_generated(sources, kernel, 1, first_page_size(resources, 0), false)
            && launch::refusal(kernel, sources, resources, words.len() > 0) is None
            && prepared.is_launch(kernel, sources, resources, words, count);
    compile::law_tile_size_is_bounded(
        compile::stored_elem(compile::unit_item(kernel.buffers@)->0.elem),
    );
}

impl TtContext {
    pub open spec fn wf(self) -> bool {
        forall|id: u64| #[trigger]
            self.compiled_sources@.dom().contains(id) ==> self.compiled_sources@[id].wf()
    }

    pub fn new() -> (context: Self)
        ensures
            context.wf(),
            context.compiled_sources@ == Map::<u64, CachedCubeTaskLaunch>::empty(),
    {
        broadcast use vstd::std_specs::hash::group_hash_axioms;

        TtContext { compiled_sources: HashMap::new() }
    }

    /// Whether a kernel was compiled before.
    pub fn is_compiled(&self, kernel_id: u64) -> (compiled: bool)
        ensures
            compiled == self.compiled_sources@.dom().contains(kernel_id),
    {
        broadcast use vstd::std_specs::hash::group_hash_axioms;

        self.compiled_sources.contains_key(&kernel_id)
    }

    /// Take in the representation of a kernel that was not compiled before.
    pub fn add_kernel(&mut self, kernel_id: u64, repr: Option<ComputeKernel>) -> (result: Result<
        (),
        LaunchError,
    >)
        requires
            old(self).wf(),
            !old(self).compiled_sources@.dom().contains(kernel_id),
            repr matches Some(repr) ==> repr.wf(),
        ensures
            final(self).wf(),
            match repr {
                None => result == Err::<(), LaunchError>(LaunchError::NoRepresentation)
                    && final(self).compiled_sources@ == old(self).compiled_sources@,
                Some(repr) => match compile::refusal(repr) {
                    Some(error) => result == Err::<(), LaunchError>(
                        LaunchError::Compilation(error),
                    ) && final(self).compiled_sources@ == old(self).compiled_sources@,
                    None => result is Ok && adds(
                        final(self).compiled_sources@,
                        old(self).compiled_sources@,
                        kernel_id,
                        repr,
                    ),
                },
            },
    {
        broadcast use vstd::std_specs::hash::group_hash_axioms;

        match repr {
            None => Err(LaunchError::NoRepresentation),
            Some(repr) => match compile::sources_from_repr(&repr, 1) {
                Ok(sources) => {
                    self.compiled_sources.insert(kernel_id, CachedCubeTaskLaunch { repr, sources });
                    Ok(())
                },
                Err(error) => Err(LaunchError::Compilation(error)),
            },
        }
    }

    /// The launch of a compiled kernel, its info block split into words.
    pub fn prepare_compiled_launch(
        &self,
        kernel_id: u64,
        count: CubeCount,
        resources: &Vec<TtResource>,
        info_words: Vec<u32>,
    ) -> (result: Result<PreparedLaunch, LaunchError>)
        requires
            self.wf(),
            self.compiled_sources@.dom().contains(kernel_id),
        ensures
            match result {
                Ok(prepared) => is_task_launch(
                    prepared,
                    self.compiled_sources@[kernel_id].repr,
                    resources@,
                    info_words@,
                    count,
                ),
                Err(error) => is_task_refusal(
                    error,
                    self.compiled_sources@[kernel_id].repr,
                    resources@,
                    info_words.len() > 0,
                ),
            },
    {
        broadcast use vstd::std_specs::hash::group_hash_axioms;

        let cached = match self.compiled_sources.get(&kernel_id) {
            Some(cached) => cached,
            None => {
                return Err(LaunchError::NoRepresentation);
            },
        };
        let page_size = find_page_size(resources);
        let sources = if cached.sources.supports_core_partitioning
            && !cached.sources.requires_tiled_io() && page_size.is_some() {
            match compile::runtime_sources_from_repr_with_page_size_and_staging(
                &cached.repr,
                1,
                page_size,
                false,
            ) {
                Ok(sources) => sources,
                Err(error) => {
                    return Err(LaunchError::Compilation(error));
                },
            }
        } else {
            cached.sources.duplicate()
        };
        assert(compile::is_generated(
            sources,
            cached.repr,
            1,
            first_page_size(resources@, 0),
            false,
        ));
        proof {
            compile::law_tile_size_is_bounded(
                compile::stored_elem(compile::unit_item(cached.repr.buffers@)->0.elem),
            );
        }
        launch::prepare_launch_from_words(&cached.repr, sources, resources, info_words, count)
    }

    /// The launch of a kernel. A kernel that was not compiled before is taken in, with
    /// the representation that its compiler gave.
    pub fn prepare_cube_task_launch(
        &mut self,
        kernel_id: u64,
        repr: Option<ComputeKernel>,
        count: CubeCount,
        resources: &Vec<TtResource>,
        info: &Vec<u64>,
    ) -> (result: Result<PreparedLaunch, LaunchError>)
        requires
            old(self).wf(),
            repr matches Some(repr) ==> repr.wf(),
        ensures
            final(self).wf(),
            is_task_outcome(
                old(self).compiled_sources@,
                final(self).compiled_sources@,
                kernel_id,
                repr,
                count,
                resources@,
                info@,
                result,
            ),
    {
        if !self.is_compiled(kernel_id) {
            match self.add_kernel(kernel_id, repr) {
                Ok(()) => {},
                Err(error) => {
                    return Err(error);
                },
            }
        }
        let words = launch::info_words(info);
        self.prepare_compiled_launch(kernel_id, count, resources, words)
    }

    /// Make the program of a launch on a grid of the given size.
    pub fn compile_kernel(
        &self,
        sources: &TtKernelSources,
        input_addrs: &Vec<u32>,
        output_addrs: &Vec<u32>,
        allow_core_partitioning: bool,
        grid_x: u32,
        grid_y: u32,
    ) -> (result: Result<ProgramPlan, ProgramError>)
        requires
            program::refusal(*sources) is None ==> program::sizes_fit(*sources),
        ensures
            match result {
                Ok(plan) => program::refusal(*sources) is None && plan.is_for(
                    *sources,
                    input_addrs@,
                    output_addrs@,
                    program::core_count(*sources, allow_core_partitioning, grid_x, grid_y),
                ),
                Err(error) => program::refusal(*sources) == Some(error),
            },
    {
        program::compile_kernel(
            sources,
            input_addrs,
            output_addrs,
            allow_core_partitioning,
            grid_x,
            grid_y,
        )
    }

    /// Make the program of a kernel that is launched as one cube on a grid of the given
    /// size.
    pub fn compile_cube_task(
        &mut self,
        kernel_id: u64,
        repr: Option<ComputeKernel>,
        resources: &Vec<TtResource>,
        info: &Vec<u64>,
        grid_x: u32,
        grid_y: u32,
    ) -> (result: Result<ProgramPlan, TaskError>)
        requires
            old(self).wf(),
            repr matches Some(repr) ==> repr.wf(),
            task_kernel(old(self).compiled_sources@, kernel_id, repr) matches Some(kernel)
                ==> is_launchable(kernel, resources@, info.len() > 0) ==> task_fits(
                kernel,
                resources@,
            ),
        ensures
            final(self).wf(),
            exists|launch: Result<PreparedLaunch, LaunchError>| #[trigger]
                is_task_outcome(
                    old(self).compiled_sources@,
                    final(self).compiled_sources@,
                    kernel_id,
                    repr,
                    CubeCount::Static(1, 1, 1),
                    resources@,
                    info@,
                    launch,
                ) && match launch {
                    Err(error) => result == Err::<ProgramPlan, TaskError>(TaskError::Launch(error)),
                    Ok(launch) => match program::refusal(launch.sources) {
                        Some(error) => result == Err::<ProgramPlan, TaskError>(
                            TaskError::Program(error),
                        ),
                        None => result matches Ok(plan) && plan.is_for(
                            launch.sources,
                            launch.input_addrs@,
                            launch.output_addrs@,
                            program::core_count(launch.sources, true, grid_x, grid_y),
                        ),
                    },
                },
    {
        let ghost kernel = if old(self).compiled_sources@.dom().contains(kernel_id) {
            old(self).compiled_sources@[kernel_id].repr
        } else {
            repr->0
        };
        let launch = self.prepare_cube_task_launch(
            kernel_id,
            repr,
            CubeCount::Static(1, 1, 1),
            resources,
            info,
        );
        match launch {
            Err(error) => {
                assert(is_task_outcome(
                    old(self).compiled_sources@,
                    self.compiled_sources@,
                    kernel_id,
                    repr,
                    CubeCount::Static(1, 1, 1),
                    resources@,
                    info@,
                    Err(error),
                ));
                Err(TaskError::Launch(error))
            },
            Ok(prepared) => {
                proof {
                    let words = choose|words: Seq<u32>|
                        launch::are_info_words(info@, words) && #[trigger] is_task_launch(
                            prepared,
                            kernel,
                            resources@,
                            words,
                            CubeCount::Static(1, 1, 1),
                        );
                    lemma_task_fits(
                        prepared,
                        kernel,
                        resources@,
                        words,
                        CubeCount::Static(1, 1, 1),
                    );
                }
                assert(is_task_outcome(
                    old(self).compiled_sources@,
                    self.compiled_sources@,
                    kernel_id,
                    repr,
                    CubeCount::Static(1, 1, 1),
                    resources@,
                    info@,
                    Ok(prepared),
                ));
                match self.compile_kernel(
                    &prepared.sources,
                    &prepared.input_addrs,
                    &prepared.output_addrs,
                    true,
                    grid_x,
                    grid_y,
                ) {
                    Ok(plan) => Ok(plan),
                    Err(error) => Err(TaskError::Program(error)),
                }
            },
        }
    }
}

/// Pages have the size of the first buffer that says so.
pub proof fn law_pages_follow_the_first_buffer(resources: Seq<TtResource>, from: nat)
    requires
        from <= resources.len(),
    ensures
        first_page_size(resources, from) is None <==> forall|i: int|
            from <= i < resources.len() ==> (#[trigger] resources[i]).compile_args.len() <= 1,
        first_page_size(resources, from) matches Some(size) ==> exists|i: int|
            {
                &&& from <= i < resources.len()
                &&& (#[trigger] resources[i]).compile_args.len() > 1
                &&& resources[i].compile_args[1] == size
                &&& forall|j: int|
                    from <= j < i ==> (#[trigger] resources[j]).compile_args.len() <= 1
            },
    decreases resources.len() - from,
{
    if from < resources.len() {
        law_pages_follow_the_first_buffer(resources, from + 1);
        if resources[from as int].compile_args.len() > 1 {
            assert(resources[from as int].compile_args.len() > 1);
        }
    }
}

/// A kernel is compiled once: what a launch under a known identifier brings along has no
/// influence on it, and the known kernels stay as they are.
pub proof fn law_known_kernels_are_not_compiled_again(
    before: Map<u64, CachedCubeTaskLaunch>,
    after: Map<u64, CachedCubeTaskLaunch>,
    kernel_id: u64,
    first: Option<ComputeKernel>,
    second: Option<ComputeKernel>,
    count: CubeCount,
    resources: Seq<TtResource>,
    info: Seq<u64>,
    result: Result<PreparedLaunch, LaunchError>,
    other: u64,
)
    ensures
        before.dom().contains(kernel_id) ==> is_task_outcome(
            before,
            after,
            kernel_id,
            first,
            count,
            resources,
            info,
            result,
        ) == is_task_outcome(before, after, kernel_id, second, count, resources, info, result),
        is_task_outcome(before, after, kernel_id, first, count, resources, info, result)
            && before.dom().contains(other) ==> after.dom().contains(other) && after[other]
            == before[other],
        is_task_outcome(before, after, kernel_id, first, count, resources, info, result)
            && after.dom().contains(other) && !before.dom().contains(other) ==> other == kernel_id,
{
}

} // verus!

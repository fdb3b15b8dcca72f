//! The server of source bundles: it keeps host memory, makes a bundle for each kernel
//! that is launched and hands it to a bridge to the host API.
use crate::bundle::{MetaliumExecutable, MetaliumKernelSection, MetaliumSourceBundle};
use crate::device::DeviceId;
use crate::runtime::{HardwareProperties, MemoryProperties};
use crate::strides;
use crate::text;
use std::collections::HashMap;
use vstd::prelude::*;

verus! {

broadcast use vstd::std_specs::hash::group_hash_axioms;

/// A device by its index.
#[derive(Clone, Copy, Debug, Default, PartialEq, Eq, Hash, Structural)]
pub struct MetaliumDevice {
    pub device_id: u16,
}

impl MetaliumDevice {
    pub fn from_id(device_id: DeviceId) -> (device: Self)
        ensures
            device.device_id == device_id.index_id,
    {
        MetaliumDevice { device_id: device_id.index_id }
    }

    pub open spec fn id(self) -> DeviceId {
        DeviceId { type_id: 0, index_id: self.device_id }
    }

    pub fn to_id(&self) -> (device_id: DeviceId)
        ensures
            device_id == self.id(),
    {
        DeviceId { type_id: 0, index_id: self.device_id }
    }
}

/// The identifier of a device names the device itself.
pub proof fn law_metalium_id_roundtrip(device: MetaliumDevice, found: MetaliumDevice)
    requires
        found.device_id == device.id().index_id,
    ensures
        found == device,
{
}

/// The runtime of the source bundles.
#[derive(Clone, Copy, Debug)]
pub struct MetaliumRuntime;

impl MetaliumRuntime {
    pub fn name() -> (name: &'static str)
        ensures
            name@ == "metalium"@,
    {
        "metalium"
    }

    /// Whether kernels are handed the lengths of their arrays.
    pub fn require_array_lengths() -> (required: bool)
        ensures
            required,
    {
        true
    }

    /// The most cubes that a launch can have in each dimension.
    pub fn max_cube_count() -> (count: (u32, u32, u32))
        ensures
            count == (0xffffu32, 0xffffu32, 1u32),
    {
        (0xffff, 0xffff, 1)
    }

    /// Whether a tensor can be read from the host: scalars and dense tensors can.
    pub fn can_read_tensor(shape: &Vec<usize>, strides: &Vec<usize>) -> (readable: bool)
        requires
            strides::dense_fits(shape@),
        ensures
            readable == (shape.len() == 0 || strides::is_dense(shape@, strides@)),
    {
        if shape.len() == 0 {
            return true;
        }
        strides::is_contiguous(shape, strides)
    }

    /// There is one device.
    pub fn enumerate_devices() -> (ids: Vec<DeviceId>)
        ensures
            ids@ == seq![(DeviceId { type_id: 0, index_id: 0 })],
    {
        let mut ids: Vec<DeviceId> = Vec::new();
        ids.push(DeviceId { type_id: 0, index_id: 0 });
        ids
    }

    pub fn hardware_properties() -> (properties: HardwareProperties)
        ensures
            properties == (HardwareProperties {
                load_width: 64,
                plane_size_min: 1,
                plane_size_max: 1,
                max_bindings: 32,
                max_shared_memory_size: 1048576,
                max_cube_count: (0xffff, 0xffff, 1),
                max_units_per_cube: 1,
                max_cube_dim: (1, 1, 1),
                num_streaming_multiprocessors: None,
                min_tensor_cores_dim: Some(32),
                max_vector_size: usize::MAX,
            }),
    {
        HardwareProperties {
            load_width: 64,
            plane_size_min: 1,
            plane_size_max: 1,
            max_bindings: 32,
            max_shared_memory_size: 1024 * 1024,
            max_cube_count: (0xffff, 0xffff, 1),
            max_units_per_cube: 1,
            max_cube_dim: (1, 1, 1),
            num_streaming_multiprocessors: None,
            min_tensor_cores_dim: Some(32),
            max_vector_size: usize::MAX,
        }
    }

    pub fn memory_properties() -> (properties: MemoryProperties)
        ensures
            properties.max_page_size == 134217728,
            properties.alignment == 64,
    {
        MemoryProperties { max_page_size: 128 * 1024 * 1024, alignment: 64 }
    }

    /// What is known of the bridge: that there is none.
    pub fn info() -> (info: MetaliumRuntimeInfo)
        ensures
            info.bridge_name@ == "unavailable"@,
            !info.ffi_available,
    {
        MetaliumRuntimeInfo { bridge_name: UnavailableBridge::name(), ffi_available: false }
    }
}

/// What is known of the bridge.
#[derive(Clone, Copy, Debug)]
pub struct MetaliumRuntimeInfo {
    pub bridge_name: &'static str,
    pub ffi_available: bool,
}

/// What is handed to the bridge for a launch.
#[derive(Debug)]
pub struct MetaliumLaunchDescriptor {
    pub kernel_id: u64,
    pub kernel_name: String,
    pub cube_count: [u32; 3],
    pub buffer_count: usize,
    pub tensor_map_count: usize,
    pub source_bundle: MetaliumExecutable,
}

impl MetaliumLaunchDescriptor {
    /// Whether this is what is handed to the bridge for a launch.
    pub open spec fn is_launch(
        self,
        kernel_id: u64,
        kernel_name: String,
        count: MetaliumCubeCount,
        buffer_count: usize,
        tensor_map_count: usize,
        bundle: MetaliumSourceBundle,
    ) -> bool {
        &&& self.kernel_id == kernel_id
        &&& self.kernel_name == kernel_name
        &&& count.is_count(self.cube_count@)
        &&& self.buffer_count == buffer_count
        &&& self.tensor_map_count == tensor_map_count
        &&& self.source_bundle.same_as(bundle)
    }
}

/// Why an operation of the server failed.
#[derive(Debug)]
pub enum MetaliumError {
    /// The strides are not those of a dense tensor.
    UnsupportedStrides,
    /// There is no staging memory.
    UnsupportedIoOperation,
    /// The memory manager did not find a resource.
    Resource(String),
    /// The buffer of a dynamic cube count is too short.
    CubeCountBytes,
    /// A kernel was not compiled.
    Compilation(String),
    /// The bridge refused a launch.
    Launch(String),
}

impl MetaliumError {
    /// A copy of the error.
    pub fn duplicate(&self) -> (copy: Self)
        ensures
            copy == *self,
    {
        match self {
            MetaliumError::UnsupportedStrides => MetaliumError::UnsupportedStrides,
            MetaliumError::UnsupportedIoOperation => MetaliumError::UnsupportedIoOperation,
            MetaliumError::Resource(reason) => MetaliumError::Resource(reason.clone()),
            MetaliumError::CubeCountBytes => MetaliumError::CubeCountBytes,
            MetaliumError::Compilation(reason) => MetaliumError::Compilation(reason.clone()),
            MetaliumError::Launch(reason) => MetaliumError::Launch(reason.clone()),
        }
    }

    /// The text of the error.
    pub open spec fn message(self) -> Seq<char> {
        match self {
            MetaliumError::UnsupportedStrides => "unsupported strides"@,
            MetaliumError::UnsupportedIoOperation => "unsupported I/O operation"@,
            MetaliumError::Resource(reason) => reason@,
            MetaliumError::CubeCountBytes =>
                "Dynamic cube-count buffer must contain at least 3 u32 values"@,
            MetaliumError::Compilation(reason) => reason@,
            MetaliumError::Launch(reason) => reason@,
        }
    }

    /// The text of the error.
    pub fn reason(&self) -> (reason: String)
        ensures
            reason@ == self.message(),
    {
        match self {
            MetaliumError::UnsupportedStrides => "unsupported strides".to_owned(),
            MetaliumError::UnsupportedIoOperation => "unsupported I/O operation".to_owned(),
            MetaliumError::Resource(reason) => reason.clone(),
            MetaliumError::CubeCountBytes =>
                "Dynamic cube-count buffer must contain at least 3 u32 values".to_owned(),
            MetaliumError::Compilation(reason) => reason.clone(),
            MetaliumError::Launch(reason) => reason.clone(),
        }
    }
}

/// The way to the host API. Nothing is known of what a bridge answers.
pub trait MetaliumBridge {
    fn submit(&mut self, launch: MetaliumLaunchDescriptor) -> (answer: Result<(), MetaliumError>);
}

/// A bridge that refuses every launch.
#[derive(Clone, Copy, Debug, Default)]
pub struct UnavailableBridge;

pub const UNAVAILABLE: &'static str = "TT-Metalium bundle for `$0` was generated, but no host API bridge is linked yet. Next step: connect this launch path to a `cxx` bridge over `tt_metal::Program`, `CreateKernel`, buffer setup, and command queue submission.\n\nGenerated sections: $1";

/// The names of the first `count` sections, with commas between them.
pub open spec fn joined_names(sections: Seq<MetaliumKernelSection>, count: nat) -> Seq<char>
    decreases count,
{
    if count == 0 {
        Seq::empty()
    } else if count == 1 {
        sections[0].name@
    } else {
        joined_names(sections, (count - 1) as nat) + ", "@ + sections[count - 1].name@
    }
}

fn join_names(sections: &Vec<MetaliumKernelSection>) -> (joined: String)
    ensures
        joined@ == joined_names(sections@, sections.len() as nat),
{
    let mut joined = String::new();
    let mut i: usize = 0;
    while i < sections.len()
        invariant
            i <= sections.len(),
            joined@ == joined_names(sections@, i as nat),
        decreases sections.len() - i,
    {
        if i > 0 {
            joined.append(", ");
        }
        let ghost before = joined@;
        joined.append(sections[i].name);
        proof {
            if i == 0 {
                assert(before + sections@[0].name@ =~= sections@[0].name@);
            }
        }
        i += 1;
    }
    joined
}

/// What the missing bridge says of a launch.
pub open spec fn missing_bridge(kernel_name: Seq<char>, sections: Seq<MetaliumKernelSection>) -> Seq<
    char,
> {
    text::fill(UNAVAILABLE@, seq![kernel_name, joined_names(sections, sections.len())])
}

impl UnavailableBridge {
    pub fn name() -> (name: &'static str)
        ensures
            name@ == "unavailable"@,
    {
        "unavailable"
    }
}

impl MetaliumBridge for UnavailableBridge {
    fn submit(&mut self, launch: MetaliumLaunchDescriptor) -> (answer: Result<(), MetaliumError>)
        ensures
            answer matches Err(MetaliumError::Launch(reason)) && reason@ == missing_bridge(
                launch.kernel_name@,
                launch.source_bundle.sections@,
            ),
    {
        Err(
            MetaliumError::Launch(
                text::fill2(
                    UNAVAILABLE,
                    launch.kernel_name.as_str(),
                    join_names(&launch.source_bundle.sections).as_str(),
                ),
            ),
        )
    }
}

/// The number that bytes write, the least significant first.
pub open spec fn little_endian(bytes: Seq<u8>) -> int
    decreases bytes.len(),
{
    if bytes.len() == 0 {
        0
    } else {
        bytes[0] + 256 * little_endian(bytes.drop_first())
    }
}

/// The number that bytes write, the most significant first.
pub open spec fn big_endian(bytes: Seq<u8>) -> int
    decreases bytes.len(),
{
    if bytes.len() == 0 {
        0
    } else {
        bytes.last() + 256 * big_endian(bytes.drop_last())
    }
}

/// The number that bytes write in the order of a machine.
pub open spec fn number(bytes: Seq<u8>, little: bool) -> int {
    if little {
        little_endian(bytes)
    } else {
        big_endian(bytes)
    }
}

/// The number that four bytes write in the order of the machine.
///
/// Trusted: `u32::from_ne_bytes` reads the bytes in the order of the machine. Which of
/// the two it is, and that it is the same at every call, is not stated.
#[verifier::external_body]
fn native_word(bytes: [u8; 4]) -> (word: u32)
    ensures
        word == number(bytes@, true) || word == number(bytes@, false),
{
    u32::from_ne_bytes(bytes)
}

/// Whether the machine, asked for its order, may say that it writes the least
/// significant byte first, or last: it reads a one with zeros behind it as one, or not.
pub closed spec fn is_machine_order(little: bool) -> bool {
    exists|bytes: [u8; 4], word: u32|
        {
            &&& #[trigger] call_ensures(native_word, (bytes,), word)
            &&& bytes@ == seq![1u8, 0u8, 0u8, 0u8]
            &&& little == (word == 1)
        }
}

/// Ask the machine for its order. All words of a block go by one answer.
fn machine_is_little() -> (little: bool)
    ensures
        is_machine_order(little),
{
    let bytes: [u8; 4] = [1, 0, 0, 0];
    let word: u32 = native_word(bytes);
    assert(bytes@ =~= seq![1u8, 0u8, 0u8, 0u8]);
    assert(call_ensures(native_word, (bytes,), word));
    word == 1
}

/// The lowest `count` digits of a number to the base of a byte, the lowest first.
pub open spec fn digits(value: int, count: nat) -> Seq<u8>
    decreases count,
{
    if count == 0 {
        Seq::empty()
    } else {
        seq![(value % 256) as u8] + digits(value / 256, (count - 1) as nat)
    }
}

/// Whether a number has no more than `count` digits.
pub open spec fn has_digits(value: int, count: nat) -> bool
    decreases count,
{
    if count == 0 {
        value == 0
    } else {
        has_digits(value / 256, (count - 1) as nat)
    }
}

proof fn lemma_digits_write(value: int, count: nat)
    requires
        0 <= value,
        has_digits(value, count),
    ensures
        digits(value, count).len() == count,
        little_endian(digits(value, count)) == value,
    decreases count,
{
    if count > 0 {
        lemma_digits_write(value / 256, (count - 1) as nat);
        assert(digits(value, count).drop_first() =~= digits(value / 256, (count - 1) as nat));
    }
}

proof fn lemma_reversed(bytes: Seq<u8>)
    ensures
        big_endian(bytes.reverse()) == little_endian(bytes),
    decreases bytes.len(),
{
    if bytes.len() > 0 {
        lemma_reversed(bytes.drop_first());
        assert(bytes.reverse().drop_last() =~= bytes.drop_first().reverse());
    }
}

/// The eight bytes of a number, the lowest first.
fn low_digits(word: u64) -> (bytes: Vec<u8>)
    ensures
        bytes.len() == 8,
        little_endian(bytes@) == word,
{
    let mut bytes: Vec<u8> = Vec::new();
    let mut rest: u64 = word;
    let mut i: usize = 0;
    assert(digits(word as int, 8) =~= bytes@ + digits(rest as int, 8));
    while i < 8
        invariant
            i <= 8,
            bytes@ + digits(rest as int, (8 - i) as nat) == digits(word as int, 8),
        decreases 8 - i,
    {
        let ghost before = bytes@;
        bytes.push((rest % 256) as u8);
        assert(bytes@ + digits(rest as int / 256, (8 - i - 1) as nat) =~= before + digits(
            rest as int,
            (8 - i) as nat,
        ));
        rest = rest / 256;
        i += 1;
    }
    assert(bytes@ =~= digits(word as int, 8));
    proof {
        assert(has_digits(word as int, 8)) by {
            reveal_with_fuel(has_digits, 9);
        }
        lemma_digits_write(word as int, 8);
    }
    bytes
}

/// Append the eight bytes of a number.
fn push_word(bytes: &mut Vec<u8>, word: u64, little: bool)
    ensures
        final(bytes).len() == old(bytes).len() + 8,
        final(bytes)@.take(old(bytes).len() as int) == old(bytes)@,
        number(final(bytes)@.skip(old(bytes).len() as int), little) == word,
{
    let low = low_digits(word);
    let ghost written = if little {
        low@
    } else {
        low@.reverse()
    };
    let mut i: usize = 0;
    while i < 8
        invariant
            i <= 8,
            low.len() == 8,
            written == (if little {
                low@
            } else {
                low@.reverse()
            }),
            bytes@ == old(bytes)@ + written.take(i as int),
        decreases 8 - i,
    {
        let at: usize = if little {
            i
        } else {
            7 - i
        };
        bytes.push(low[at]);
        assert(written.take(i + 1) =~= written.take(i as int).push(low@[at as int]));
        i += 1;
    }
    proof {
        assert(written.take(8) =~= written);
        assert(bytes@.take(old(bytes).len() as int) =~= old(bytes)@);
        assert(bytes@.skip(old(bytes).len() as int) =~= written);
        lemma_reversed(low@);
    }
}

/// Whether bytes hold words one behind the other, all in one order.
pub open spec fn holds_words(bytes: Seq<u8>, words: Seq<u64>, little: bool) -> bool {
    &&& bytes.len() == 8 * words.len()
    &&& forall|i: int|
        0 <= i < words.len() ==> number(#[trigger] bytes.subrange(8 * i, 8 * i + 8), little)
            == words[i]
}

/// The bytes of words in an order.
pub fn ordered_bytes(words: &Vec<u64>, little: bool) -> (bytes: Vec<u8>)
    ensures
        holds_words(bytes@, words@, little),
{
    let mut bytes: Vec<u8> = Vec::new();
    let mut i: usize = 0;
    while i < words.len()
        invariant
            i <= words.len(),
            holds_words(bytes@, words@.take(i as int), little),
        decreases words.len() - i,
    {
        let ghost before = bytes@;
        push_word(&mut bytes, words[i], little);
        proof {
            let taken = words@.take(i as int);
            let next = words@.take(i + 1);
            assert forall|k: int| 0 <= k < next.len() implies number(
                #[trigger] bytes@.subrange(8 * k, 8 * k + 8),
                little,
            ) == next[k] by {
                if k < i {
                    assert(bytes@.subrange(8 * k, 8 * k + 8) =~= bytes@.take(
                        before.len() as int,
                    ).subrange(8 * k, 8 * k + 8));
                    assert(taken[k] == next[k]);
                } else {
                    assert(bytes@.subrange(8 * k, 8 * k + 8) =~= bytes@.skip(
                        before.len() as int,
                    ));
                }
            }
        }
        i += 1;
    }
    assert(words@.take(i as int) =~= words@);
    bytes
}

/// The bytes of the information that a kernel is launched with, all words in the order
/// of the machine.
pub fn info_bytes(words: &Vec<u64>) -> (bytes: Vec<u8>)
    ensures
        exists|little: bool| #[trigger]
            is_machine_order(little) && holds_words(bytes@, words@, little),
{
    ordered_bytes(words, machine_is_little())
}

/// The number of cubes of a launch: given, or to be found in a resource that the
/// memory manager found or did not.
#[derive(Debug)]
pub enum MetaliumCubeCount {
    Static(u32, u32, u32),
    Dynamic(Result<Vec<u8>, String>),
}

impl MetaliumCubeCount {
    /// The error of a count that cannot be known.
    pub open spec fn refusal(self) -> Option<MetaliumError> {
        match self {
            MetaliumCubeCount::Static(..) => None,
            MetaliumCubeCount::Dynamic(Err(reason)) => Some(MetaliumError::Resource(reason)),
            MetaliumCubeCount::Dynamic(Ok(bytes)) => if bytes.len() < 12 {
                Some(MetaliumError::CubeCountBytes)
            } else {
                None
            },
        }
    }

    /// Whether this is the count: that given, or that written in the first bytes, all
    /// its words in one order.
    pub open spec fn is_count_in(self, count: Seq<u32>, little: bool) -> bool {
        &&& count.len() == 3
        &&& match self {
            MetaliumCubeCount::Static(x, y, z) => count == seq![x, y, z],
            MetaliumCubeCount::Dynamic(Ok(bytes)) => {
                &&& count[0] == number(bytes@.subrange(0, 4), little)
                &&& count[1] == number(bytes@.subrange(4, 8), little)
                &&& count[2] == number(bytes@.subrange(8, 12), little)
            },
            MetaliumCubeCount::Dynamic(Err(_)) => false,
        }
    }

    /// Whether this is the count, in the order of the machine.
    pub open spec fn is_count(self, count: Seq<u32>) -> bool {
        exists|little: bool| #[trigger] is_machine_order(little) && self.is_count_in(count, little)
    }
}

fn word_at(bytes: &Vec<u8>, at: usize, little: bool) -> (word: u32)
    requires
        at + 4 <= bytes.len(),
    ensures
        word == number(bytes@.subrange(at as int, at + 4), little),
{
    proof {
        let written = bytes@.subrange(at as int, at + 4);
        reveal_with_fuel(little_endian, 5);
        reveal_with_fuel(big_endian, 5);
        assert(written.drop_first().drop_first()[0] == bytes@[at + 2]);
        assert(written.drop_first().drop_first().drop_first()[0] == bytes@[at + 3]);
        assert(written.drop_last().drop_last().last() == bytes@[at + 1]);
        assert(written.drop_last().drop_last().drop_last().last() == bytes@[at as int]);
    }
    if little {
        bytes[at] as u32 + 256 * bytes[at + 1] as u32 + 65536 * bytes[at + 2] as u32 + 16777216
            * bytes[at + 3] as u32
    } else {
        bytes[at + 3] as u32 + 256 * bytes[at + 2] as u32 + 65536 * bytes[at + 1] as u32 + 16777216
            * bytes[at] as u32
    }
}

/// Find the number of cubes of a launch on a machine.
pub fn resolve_cube_count_in(count: &MetaliumCubeCount, little: bool) -> (resolved: Result<
    [u32; 3],
    MetaliumError,
>)
    ensures
        match resolved {
            Ok(resolved) => count.refusal() is None && count.is_count_in(resolved@, little),
            Err(error) => count.refusal() == Some(error),
        },
{
    match count {
        MetaliumCubeCount::Static(x, y, z) => {
            let resolved: [u32; 3] = [*x, *y, *z];
            assert(resolved@ =~= seq![*x, *y, *z]);
            Ok(resolved)
        },
        MetaliumCubeCount::Dynamic(Err(reason)) => Err(MetaliumError::Resource(reason.clone())),
        MetaliumCubeCount::Dynamic(Ok(bytes)) => {
            if bytes.len() < 12 {
                return Err(MetaliumError::CubeCountBytes);
            }
            Ok([word_at(bytes, 0, little), word_at(bytes, 4, little), word_at(bytes, 8, little)])
        },
    }
}

/// Find the number of cubes of a launch, its words in the order of the machine.
pub fn resolve_cube_count(count: &MetaliumCubeCount) -> (resolved: Result<[u32; 3], MetaliumError>)
    ensures
        match resolved {
            Ok(resolved) => count.refusal() is None && count.is_count(resolved@),
            Err(error) => count.refusal() == Some(error),
        },
{
    resolve_cube_count_in(count, machine_is_little())
}

/// A part of a tensor that is read: its shape and strides, what the memory manager
/// found, and how many bytes of it are used.
#[derive(Debug)]
pub struct MetaliumRead {
    pub shape: Vec<usize>,
    pub strides: Vec<usize>,
    pub resource: Result<Vec<u8>, String>,
    pub size: usize,
}

impl MetaliumRead {
    /// Whether the strides can be checked, and the used bytes are there where they are
    /// read.
    pub open spec fn wf(self) -> bool {
        &&& strides::dense_fits(self.shape@)
        &&& self.refusal() is None ==> self.size <= self.resource->Ok_0.len()
    }

    /// Why this cannot be read.
    pub open spec fn refusal(self) -> Option<MetaliumError> {
        copy_refusal(
            self.shape@,
            self.strides@,
            match self.resource {
                Ok(_) => None,
                Err(reason) => Some(reason),
            },
        )
    }

    /// The used bytes.
    pub open spec fn bytes(self) -> Seq<u8> {
        self.resource->Ok_0@.take(self.size as int)
    }
}

/// Why bytes of a tensor cannot be copied: its strides, or else what the memory
/// manager says.
pub open spec fn copy_refusal(shape: Seq<usize>, strides: Seq<usize>, fault: Option<String>) -> Option<
    MetaliumError,
> {
    if !strides::is_dense(shape, strides) {
        Some(MetaliumError::UnsupportedStrides)
    } else {
        match fault {
            Some(reason) => Some(MetaliumError::Resource(reason)),
            None => None,
        }
    }
}

/// The refusal of the first part that cannot be read, from `from` on.
pub open spec fn first_refusal(reads: Seq<MetaliumRead>, from: int) -> Option<MetaliumError>
    decreases reads.len() - from,
{
    if from >= reads.len() {
        None
    } else {
        match reads[from].refusal() {
            Some(error) => Some(error),
            None => first_refusal(reads, from + 1),
        }
    }
}

/// Whether a part is looked at: none before it is refused.
pub open spec fn is_reached(reads: Seq<MetaliumRead>, at: int) -> bool {
    forall|i: int| 0 <= i < at ==> (#[trigger] reads[i]).refusal() is None
}

/// The server: the bundles of the kernels that were launched, the way to the host API,
/// and the first error since the server was made, if there was one.
#[derive(Debug)]
pub struct MetaliumServer<B> {
    pub bridge: B,
    pub compilation_cache: HashMap<u64, MetaliumSourceBundle>,
    pub pending_error: Option<MetaliumError>,
}

impl<B> MetaliumServer<B> {
    pub fn new(bridge: B) -> (server: Self)
        ensures
            server.bridge == bridge,
            server.compilation_cache@ == Map::<u64, MetaliumSourceBundle>::empty(),
            server.pending_error is None,
    {
        MetaliumServer { bridge, compilation_cache: HashMap::new(), pending_error: None }
    }

    /// An error makes the server refuse what comes after it.
    pub fn ensure_healthy(&self) -> (health: Result<(), MetaliumError>)
        ensures
            match health {
                Ok(()) => self.pending_error is None,
                Err(error) => self.pending_error == Some(error),
            },
    {
        match &self.pending_error {
            Some(error) => Err(error.duplicate()),
            None => Ok(()),
        }
    }

    /// Whether only the error differs.
    pub open spec fn same_but_error(self, other: Self) -> bool {
        self.bridge == other.bridge && self.compilation_cache@ == other.compilation_cache@
    }

    pub fn set_error(&mut self, error: MetaliumError)
        ensures
            final(self).pending_error == Some(error),
            final(self).same_but_error(*old(self)),
    {
        self.pending_error = Some(error);
    }

    /// There is no staging memory.
    pub fn staging(&self) -> (error: MetaliumError)
        ensures
            error == match self.pending_error {
                Some(error) => error,
                None => MetaliumError::UnsupportedIoOperation,
            },
    {
        match self.ensure_healthy() {
            Ok(()) => MetaliumError::UnsupportedIoOperation,
            Err(error) => error,
        }
    }

    /// Read parts of tensors: the used bytes of each, or the first error.
    pub fn read(&self, reads: &Vec<MetaliumRead>) -> (bytes: Result<Vec<Vec<u8>>, MetaliumError>)
        requires
            self.pending_error is None ==> forall|i: int|
                0 <= i < reads.len() && is_reached(reads@, i) ==> (#[trigger] reads[i]).wf(),
        ensures
            match bytes {
                Ok(bytes) => {
                    &&& self.pending_error is None
                    &&& first_refusal(reads@, 0) is None
                    &&& bytes.len() == reads.len()
                    &&& forall|i: int|
                        0 <= i < reads.len() ==> (#[trigger] bytes[i])@ == reads[i].bytes()
                },
                Err(error) => match self.pending_error {
                    Some(pending) => error == pending,
                    None => first_refusal(reads@, 0) == Some(error),
                },
            },
    {
        match self.ensure_healthy() {
            Ok(()) => {},
            Err(error) => {
                return Err(error);
            },
        }
        let mut bytes: Vec<Vec<u8>> = Vec::new();
        let mut i: usize = 0;
        while i < reads.len()
            invariant
                i <= reads.len(),
                self.pending_error is None,
                forall|j: int|
                    0 <= j < reads.len() && is_reached(reads@, j) ==> (#[trigger] reads[j]).wf(),
                is_reached(reads@, i as int),
                first_refusal(reads@, 0) == first_refusal(reads@, i as int),
                bytes.len() == i,
                forall|j: int| 0 <= j < i ==> (#[trigger] bytes[j])@ == reads[j].bytes(),
            decreases reads.len() - i,
        {
            let part = &reads[i];
            assert(reads[i as int].wf());
            if !strides::is_contiguous(&part.shape, &part.strides) {
                return Err(MetaliumError::UnsupportedStrides);
            }
            match &part.resource {
                Err(reason) => {
                    return Err(MetaliumError::Resource(reason.clone()));
                },
                Ok(found) => {
                    bytes.push(taken(found, part.size));
                },
            }
            i += 1;
        }
        Ok(bytes)
    }

    /// Whether bytes can be copied to a part of a tensor, where the memory manager
    /// found it or gave a reason why not. A refusal is kept as the error of the
    /// server.
    pub fn admit_write(&mut self, shape: &Vec<usize>, strides: &Vec<usize>, fault: Option<String>) -> (admitted: bool)
        requires
            old(self).pending_error is None ==> strides::dense_fits(shape@),
        ensures
            admitted == (old(self).pending_error is None && copy_refusal(shape@, strides@, fault)
                is None),
            final(self).pending_error == (if old(self).pending_error is Some {
                old(self).pending_error
            } else {
                copy_refusal(shape@, strides@, fault)
            }),
            final(self).same_but_error(*old(self)),
    {
        if self.pending_error.is_some() {
            return false;
        }
        if !strides::is_contiguous(shape, strides) {
            self.set_error(MetaliumError::UnsupportedStrides);
            return false;
        }
        match fault {
            Some(reason) => {
                self.set_error(MetaliumError::Resource(reason));
                false
            },
            None => true,
        }
    }

    /// Whether the bundle of a kernel was made before.
    pub fn is_compiled(&self, kernel_id: u64) -> (compiled: bool)
        ensures
            compiled == self.compilation_cache@.contains_key(kernel_id),
    {
        self.compilation_cache.contains_key(&kernel_id)
    }

    /// The bundle of a kernel: that made before, or else the one that its compilation
    /// gives, which is kept.
    pub fn compile_bundle(
        &mut self,
        kernel_id: u64,
        compiled: Result<MetaliumSourceBundle, String>,
    ) -> (bundle: Result<MetaliumSourceBundle, MetaliumError>)
        ensures
            final(self).bridge == old(self).bridge,
            final(self).pending_error == old(self).pending_error,
            if old(self).compilation_cache@.contains_key(kernel_id) {
                &&& bundle matches Ok(bundle) && bundle.same_as(
                    old(self).compilation_cache@[kernel_id],
                )
                &&& final(self).compilation_cache@ == old(self).compilation_cache@
            } else {
                match compiled {
                    Ok(compiled) => {
                        &&& bundle matches Ok(bundle) && bundle.same_as(compiled)
                        &&& final(self).compilation_cache@ == old(self).compilation_cache@.insert(
                            kernel_id,
                            compiled,
                        )
                    },
                    Err(reason) => {
                        &&& bundle == Err::<MetaliumSourceBundle, MetaliumError>(
                            MetaliumError::Compilation(reason),
                        )
                        &&& final(self).compilation_cache@ == old(self).compilation_cache@
                    },
                }
            },
    {
        if let Some(bundle) = self.compilation_cache.get(&kernel_id) {
            return Ok(bundle.duplicate());
        }
        match compiled {
            Ok(bundle) => {
                let copy = bundle.duplicate();
                self.compilation_cache.insert(kernel_id, bundle);
                Ok(copy)
            },
            Err(reason) => Err(MetaliumError::Compilation(reason)),
        }
    }

    /// What stops a launch before it reaches the bridge.
    pub open spec fn launch_refusal(
        self,
        kernel_id: u64,
        count: MetaliumCubeCount,
        compiled: Result<MetaliumSourceBundle, String>,
    ) -> Option<MetaliumError> {
        if self.pending_error is Some {
            self.pending_error
        } else if count.refusal() is Some {
            count.refusal()
        } else if self.compilation_cache@.contains_key(kernel_id) {
            None
        } else {
            match compiled {
                Ok(_) => None,
                Err(reason) => Some(MetaliumError::Compilation(reason)),
            }
        }
    }

    /// The bundle that a launch uses.
    pub open spec fn bundle_of(
        self,
        kernel_id: u64,
        compiled: Result<MetaliumSourceBundle, String>,
    ) -> MetaliumSourceBundle {
        if self.compilation_cache@.contains_key(kernel_id) {
            self.compilation_cache@[kernel_id]
        } else {
            compiled->Ok_0
        }
    }

    /// The bundles that are kept once a launch has been prepared.
    pub open spec fn bundles_after(
        self,
        kernel_id: u64,
        compiled: Result<MetaliumSourceBundle, String>,
    ) -> Map<u64, MetaliumSourceBundle> {
        if self.compilation_cache@.contains_key(kernel_id) {
            self.compilation_cache@
        } else {
            self.compilation_cache@.insert(kernel_id, compiled->Ok_0)
        }
    }

    /// Prepare a launch: what is handed to the bridge, unless something stops it
    /// before. What stops it is kept as the error of the server. So is what the memory
    /// manager says where it does not find the memory of the info block, but that does
    /// not stop the launch.
    pub fn prepare_launch(
        &mut self,
        kernel_id: u64,
        kernel_name: String,
        count: &MetaliumCubeCount,
        compiled: Result<MetaliumSourceBundle, String>,
        buffer_count: usize,
        tensor_map_count: usize,
        info_fault: Option<String>,
    ) -> (launch: Option<MetaliumLaunchDescriptor>)
        ensures
            final(self).bridge == old(self).bridge,
            match launch {
                Some(launch) => {
                    &&& old(self).launch_refusal(kernel_id, *count, compiled) is None
                    &&& final(self).pending_error == info_error(info_fault)
                    &&& final(self).compilation_cache@ == old(self).bundles_after(
                        kernel_id,
                        compiled,
                    )
                    &&& launch.is_launch(
                        kernel_id,
                        kernel_name,
                        *count,
                        buffer_count,
                        tensor_map_count,
                        old(self).bundle_of(kernel_id, compiled),
                    )
                },
                None => {
                    &&& old(self).launch_refusal(kernel_id, *count, compiled) is Some
                    &&& final(self).pending_error == old(self).launch_refusal(
                        kernel_id,
                        *count,
                        compiled,
                    )
                    &&& final(self).compilation_cache@ == old(self).compilation_cache@
                },
            },
    {
        if self.pending_error.is_some() {
            return None;
        }
        if let Some(reason) = info_fault {
            self.set_error(MetaliumError::Resource(reason));
        }
        let cube_count = match resolve_cube_count(count) {
            Ok(cube_count) => cube_count,
            Err(error) => {
                self.set_error(error);
                return None;
            },
        };
        let source_bundle = match self.compile_bundle(kernel_id, compiled) {
            Ok(bundle) => bundle,
            Err(error) => {
                self.set_error(error);
                return None;
            },
        };
        Some(
            MetaliumLaunchDescriptor {
                kernel_id,
                kernel_name,
                cube_count,
                buffer_count,
                tensor_map_count,
                source_bundle,
            },
        )
    }

    /// Keep what the bridge answered as the error of the server, if it is one.
    pub fn finish_launch(&mut self, answer: Result<(), MetaliumError>)
        ensures
            final(self).pending_error == (match answer {
                Ok(()) => old(self).pending_error,
                Err(error) => Some(error),
            }),
            final(self).same_but_error(*old(self)),
    {
        match answer {
            Ok(()) => {},
            Err(error) => self.set_error(error),
        }
    }
}

/// The error of an info block whose memory is not found.
pub open spec fn info_error(fault: Option<String>) -> Option<MetaliumError> {
    match fault {
        Some(reason) => Some(MetaliumError::Resource(reason)),
        None => None,
    }
}

/// The error that is kept of a launch that was handed to the bridge: that of the
/// bridge, or else that of the info block.
pub open spec fn kept_error(answer: Result<(), MetaliumError>, info_fault: Option<String>) -> Option<
    MetaliumError,
> {
    match answer {
        Ok(()) => info_error(info_fault),
        Err(error) => Some(error),
    }
}

/// The first `count` bytes.
fn taken(bytes: &Vec<u8>, count: usize) -> (result: Vec<u8>)
    requires
        count <= bytes.len(),
    ensures
        result@ == bytes@.take(count as int),
{
    let mut result: Vec<u8> = Vec::new();
    let mut i: usize = 0;
    while i < count
        invariant
            i <= count <= bytes.len(),
            result@ == bytes@.take(i as int),
        decreases count - i,
    {
        result.push(bytes[i]);
        assert(bytes@.take(i + 1) =~= bytes@.take(i as int).push(bytes@[i as int]));
        i += 1;
    }
    result
}

impl<B: MetaliumBridge> MetaliumServer<B> {
    /// What a launch does: what stops it is kept as the error of the server; else it is
    /// handed to the bridge, and so is an error that the bridge answers.
    pub open spec fn launches(
        self,
        after: Self,
        kernel_id: u64,
        kernel_name: String,
        count: MetaliumCubeCount,
        compiled: Result<MetaliumSourceBundle, String>,
        buffer_count: usize,
        tensor_map_count: usize,
        info_fault: Option<String>,
    ) -> bool {
        match self.launch_refusal(kernel_id, count, compiled) {
            Some(error) => {
                &&& after.pending_error == Some(error)
                &&& after.same_but_error(self)
            },
            None => {
                &&& after.compilation_cache@ == self.bundles_after(kernel_id, compiled)
                &&& exists|
                    bridge: &mut B,
                    launch: MetaliumLaunchDescriptor,
                    answer: Result<(), MetaliumError>,
                |
                    {
                        &&& #[trigger] call_ensures(B::submit, (bridge, launch), answer)
                        &&& *bridge == self.bridge
                        &&& launch.is_launch(
                            kernel_id,
                            kernel_name,
                            count,
                            buffer_count,
                            tensor_map_count,
                            self.bundle_of(kernel_id, compiled),
                        )
                        &&& after.pending_error == kept_error(answer, info_fault)
                    }
            },
        }
    }

    /// Launch a kernel: prepare the launch, hand it to the bridge, once, and keep its
    /// answer. Nothing is known of what a bridge answers.
    pub fn launch(
        &mut self,
        kernel_id: u64,
        kernel_name: String,
        count: &MetaliumCubeCount,
        compiled: Result<MetaliumSourceBundle, String>,
        buffer_count: usize,
        tensor_map_count: usize,
        info_fault: Option<String>,
    )
        ensures
            old(self).launches(
                *final(self),
                kernel_id,
                kernel_name,
                *count,
                compiled,
                buffer_count,
                tensor_map_count,
                info_fault,
            ),
            old(self).launch_refusal(kernel_id, *count, compiled) is None ==> exists|
                bridge: &mut B,
                launch: MetaliumLaunchDescriptor,
                answer: Result<(), MetaliumError>,
            |
                {
                    &&& #[trigger] call_ensures(B::submit, (bridge, launch), answer)
                    &&& *bridge == old(self).bridge
                    &&& *final(bridge) == final(self).bridge
                    &&& launch.is_launch(
                        kernel_id,
                        kernel_name,
                        *count,
                        buffer_count,
                        tensor_map_count,
                        old(self).bundle_of(kernel_id, compiled),
                    )
                    &&& final(self).pending_error == kept_error(answer, info_fault)
                },
    {
        if let Some(launch) = self.prepare_launch(
            kernel_id,
            kernel_name,
            count,
            compiled,
            buffer_count,
            tensor_map_count,
            info_fault,
        ) {
            let answer = self.bridge.submit(launch);
            self.finish_launch(answer);
        }
    }
}

/// Without a bridge every launch leaves an error: that which stopped it before, or that
/// of the missing bridge, which names the kernel and its sections.
pub proof fn law_missing_bridge_is_surfaced(
    before: MetaliumServer<UnavailableBridge>,
    after: MetaliumServer<UnavailableBridge>,
    kernel_id: u64,
    kernel_name: String,
    count: MetaliumCubeCount,
    compiled: Result<MetaliumSourceBundle, String>,
    buffer_count: usize,
    tensor_map_count: usize,
    info_fault: Option<String>,
)
    requires
        before.launches(
            after,
            kernel_id,
            kernel_name,
            count,
            compiled,
            buffer_count,
            tensor_map_count,
            info_fault,
        ),
    ensures
        match before.launch_refusal(kernel_id, count, compiled) {
            Some(error) => after.pending_error == Some(error),
            None => after.pending_error matches Some(error) && error.message() == missing_bridge(
                kernel_name@,
                before.bundle_of(kernel_id, compiled).sections@,
            ),
        },
{
}

/// A server that has an error keeps it: no launch reaches the bridge any more.
pub proof fn law_error_stops_launches<B>(
    server: MetaliumServer<B>,
    kernel_id: u64,
    count: MetaliumCubeCount,
    compiled: Result<MetaliumSourceBundle, String>,
)
    requires
        server.pending_error is Some,
    ensures
        server.launch_refusal(kernel_id, count, compiled) == server.pending_error,
{
}

/// A kernel is compiled once: when its bundle is kept, what a later compilation gives
/// has no influence on a launch.
pub proof fn law_kernels_are_compiled_once<B>(
    server: MetaliumServer<B>,
    kernel_id: u64,
    count: MetaliumCubeCount,
    first: Result<MetaliumSourceBundle, String>,
    second: Result<MetaliumSourceBundle, String>,
)
    requires
        server.compilation_cache@.contains_key(kernel_id),
    ensures
        server.launch_refusal(kernel_id, count, first) == server.launch_refusal(
            kernel_id,
            count,
            second,
        ),
        server.bundle_of(kernel_id, first) == server.bundle_of(kernel_id, second),
        server.bundles_after(kernel_id, first) == server.bundles_after(kernel_id, second),
{
}

/// Bytes in one order are the bytes of the same number in the other order, turned round.
pub proof fn law_orders_are_each_other_turned_round(bytes: Seq<u8>)
    ensures
        number(bytes, false) == number(bytes.reverse(), true),
    decreases bytes.len(),
{
    if bytes.len() > 0 {
        law_orders_are_each_other_turned_round(bytes.drop_last());
        assert(bytes.reverse().drop_first() =~= bytes.drop_last().reverse());
        assert(bytes.reverse()[0] == bytes.last());
    }
}

/// A count is that given, along each axis, or else what the words of the memory say, one for
/// each axis in their order; memory without three words is refused.
pub proof fn law_counts_have_a_word_for_each_axis(
    given: MetaliumCubeCount,
    count: Seq<u32>,
    little: bool,
    axis: int,
)
    requires
        given.is_count_in(count, little),
        0 <= axis < 3,
    ensures
        given matches MetaliumCubeCount::Static(x, y, z) ==> count[0] == x && count[1] == y
            && count[2] == z,
        given matches MetaliumCubeCount::Dynamic(Ok(bytes)) ==> count[axis] == number(
            bytes@.subrange(4 * axis, 4 * axis + 4),
            little,
        ),
        given.refusal() is None <==> (given matches MetaliumCubeCount::Dynamic(Ok(bytes))
            ==> bytes.len() >= 3 * 4),
{
}

/// Parts of tensors are all read, or none: the first that cannot be read says why.
pub proof fn law_first_fault_is_reported(reads: Seq<MetaliumRead>, from: int)
    requires
        0 <= from <= reads.len(),
    ensures
        first_refusal(reads, from) is None <==> forall|i: int|
            from <= i < reads.len() ==> (#[trigger] reads[i]).refusal() is None,
        first_refusal(reads, from) is Some ==> exists|i: int|
            {
                &&& from <= i < reads.len()
                &&& (#[trigger] reads[i]).refusal() == first_refusal(reads, from)
                &&& forall|j: int| from <= j < i ==> (#[trigger] reads[j]).refusal() is None
            },
    decreases reads.len() - from,
{
    if from < reads.len() {
        law_first_fault_is_reported(reads, from + 1);
        if reads[from].refusal() is Some {
            assert(reads[from].refusal() == first_refusal(reads, from));
        }
    }
}

/// A tensor is copied where it is dense and its memory is found.
pub proof fn law_dense_tensors_are_copied(
    shape: Seq<usize>,
    strides: Seq<usize>,
    fault: Option<String>,
)
    ensures
        copy_refusal(shape, strides, fault) is None <==> strides::is_dense(shape, strides)
            && fault is None,
        copy_refusal(shape, strides, fault) matches Some(error) ==> error.message() == (
        if strides::is_dense(shape, strides) {
            fault->0@
        } else {
            "unsupported strides"@
        }),
{
}

/// A launch reaches the bridge where the server has no error, the number of cubes is known and
/// the kernel is compiled, before or now. Afterwards the server is without an error where the
/// bridge took the launch and the memory of the info block was found.
pub proof fn law_launches_reach_the_bridge<B>(
    server: MetaliumServer<B>,
    kernel_id: u64,
    count: MetaliumCubeCount,
    compiled: Result<MetaliumSourceBundle, String>,
    answer: Result<(), MetaliumError>,
    info_fault: Option<String>,
)
    ensures
        server.launch_refusal(kernel_id, count, compiled) is None <==> {
            &&& server.pending_error is None
            &&& count.refusal() is None
            &&& server.compilation_cache@.contains_key(kernel_id) || compiled is Ok
        },
        kept_error(answer, info_fault) is None <==> answer is Ok && info_fault is None,
        answer matches Err(error) ==> kept_error(answer, info_fault) == Some(error),
        server.launch_refusal(kernel_id, count, compiled) is None ==> {
            &&& server.bundles_after(kernel_id, compiled).contains_key(kernel_id)
            &&& server.bundles_after(kernel_id, compiled)[kernel_id] == server.bundle_of(
                kernel_id,
                compiled,
            )
        },
{
}

} // verus!

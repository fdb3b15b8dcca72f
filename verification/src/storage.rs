//! Bookkeeping of the device's replicated buffers.
use crate::math;
use crate::runtime::{TT_DEFAULT_BUFFER_PAGE_SIZE_BYTES, TT_MEMORY_ALIGNMENT};
use std::collections::HashMap;
use vstd::prelude::*;

verus! {

/// How a buffer is spread over the devices of a mesh.
#[derive(Clone, Copy, Debug, PartialEq, Eq, Structural)]
pub enum TtBufferLayout {
    Replicated,
    Sharded,
}

/// A buffer of the device, or a part of one, that a kernel or a copy works on.
#[derive(Debug)]
pub struct TtResource {
    pub storage_id: u64,
    pub owner_stream: u64,
    pub address: u32,
    pub size: u64,
    pub allocation_size: u64,
    pub allocation_offset: u64,
    pub compile_args: Vec<u32>,
    pub layout: TtBufferLayout,
}

/// A part of a buffer.
#[derive(Clone, Copy, Debug, PartialEq, Eq, Structural)]
pub struct StorageHandle {
    pub id: u64,
    pub offset: u64,
    pub size: u64,
}

/// What the device told about a buffer when it was made.
#[derive(Debug)]
pub struct TtBufferAllocation {
    pub address: u32,
    pub size: u64,
    pub compile_args: Vec<u32>,
    pub layout: TtBufferLayout,
}

/// A copy of a list of words.
pub fn copy_words(words: &Vec<u32>) -> (copy: Vec<u32>)
    ensures
        copy@ == words@,
{
    let mut copy: Vec<u32> = Vec::new();
    let mut i: usize = 0;
    while i < words.len()
        invariant
            i <= words.len(),
            copy@ == words@.take(i as int),
        decreases words.len() - i,
    {
        copy.push(words[i]);
        assert(words@.take(i + 1) =~= words@.take(i as int).push(words@[i as int]));
        i += 1;
    }
    assert(words@.take(i as int) =~= words@);
    copy
}

/// A copy of a list of positions.
pub fn copy_indices(indices: &Vec<usize>) -> (copy: Vec<usize>)
    ensures
        copy@ == indices@,
{
    let mut copy: Vec<usize> = Vec::new();
    let mut i: usize = 0;
    while i < indices.len()
        invariant
            i <= indices.len(),
            copy@ == indices@.take(i as int),
        decreases indices.len() - i,
    {
        copy.push(indices[i]);
        assert(indices@.take(i + 1) =~= indices@.take(i as int).push(indices@[i as int]));
        i += 1;
    }
    assert(indices@.take(i as int) =~= indices@);
    copy
}

/// The buffers of a device.
#[derive(Debug)]
pub struct TtStorage {
    pub buffers: HashMap<u64, TtBufferAllocation>,
    pub next_id: u64,
    pub page_size: u64,
}

impl TtStorage {
    /// Buffers consist of whole pages, and an identifier that was not handed out yet
    /// names no buffer.
    pub open spec fn wf(self) -> bool {
        &&& self.page_size > 0
        &&& forall|id: u64| #[trigger] self.buffers@.dom().contains(id) ==> id < self.next_id
    }

    pub fn new() -> (storage: Self)
        ensures
            storage.wf(),
            storage.buffers@ == Map::<u64, TtBufferAllocation>::empty(),
            storage.next_id == 0,
            storage.page_size == TT_DEFAULT_BUFFER_PAGE_SIZE_BYTES,
    {
        broadcast use vstd::std_specs::hash::group_hash_axioms;

        TtStorage {
            buffers: HashMap::new(),
            next_id: 0,
            page_size: TT_DEFAULT_BUFFER_PAGE_SIZE_BYTES,
        }
    }

    pub fn alignment(&self) -> (alignment: usize)
        ensures
            alignment == TT_MEMORY_ALIGNMENT,
    {
        TT_MEMORY_ALIGNMENT as usize
    }

    /// The number of bytes to ask the device for: whole pages that hold `size`.
    pub fn aligned_size(&self, size: u64) -> (aligned: u64)
        requires
            self.wf(),
            math::ceil_div(size as int, self.page_size as int) * self.page_size <= u64::MAX,
        ensures
            aligned == math::ceil_div(size as int, self.page_size as int) * self.page_size,
            size <= aligned < size + self.page_size,
    {
        proof {
            math::law_ceil_div_is_least(size as int, self.page_size as int);
            let q = math::ceil_div(size as int, self.page_size as int);
            assert((q - 1) * self.page_size == q * self.page_size - self.page_size)
                by (nonlinear_arith);
            assert(q == 0 ==> q * self.page_size == 0) by (nonlinear_arith);
        }
        math::div_ceil(size, self.page_size) * self.page_size
    }

    /// Take in a buffer of `size` used bytes that the device has made.
    pub fn insert(&mut self, size: u64, address: u32, allocation_size: u64, compile_args: Vec<u32>) -> (handle: StorageHandle)
        requires
            old(self).wf(),
            old(self).next_id < u64::MAX,
        ensures
            final(self).wf(),
            handle == (StorageHandle { id: old(self).next_id, offset: 0, size }),
            !old(self).buffers@.dom().contains(handle.id),
            final(self).buffers@ == old(self).buffers@.insert(
                handle.id,
                (TtBufferAllocation {
                    address,
                    size: allocation_size,
                    compile_args,
                    layout: TtBufferLayout::Replicated,
                }),
            ),
            final(self).next_id == old(self).next_id + 1,
            final(self).page_size == old(self).page_size,
    {
        broadcast use vstd::std_specs::hash::group_hash_axioms;

        let id: u64 = self.next_id;
        self.next_id = id + 1;
        self.buffers.insert(
            id,
            TtBufferAllocation {
                address,
                size: allocation_size,
                compile_args,
                layout: TtBufferLayout::Replicated,
            },
        );
        StorageHandle { id, offset: 0, size }
    }

    /// Forget a buffer.
    pub fn dealloc(&mut self, id: u64)
        requires
            old(self).wf(),
        ensures
            final(self).wf(),
            final(self).buffers@ == old(self).buffers@.remove(id),
            final(self).next_id == old(self).next_id,
            final(self).page_size == old(self).page_size,
    {
        broadcast use vstd::std_specs::hash::group_hash_axioms;

        self.buffers.remove(&id);
    }

    /// The layout of a buffer.
    pub fn get_layout(&self, id: u64) -> (layout: TtBufferLayout)
        requires
            self.buffers@.dom().contains(id),
        ensures
            layout == self.buffers@[id].layout,
    {
        broadcast use vstd::std_specs::hash::group_hash_axioms;

        match self.buffers.get(&id) {
            Some(buffer) => buffer.layout,
            None => TtBufferLayout::Replicated,
        }
    }

    /// The part of a buffer that a handle names.
    pub fn get(&self, handle: &StorageHandle) -> (resource: TtResource)
        requires
            self.buffers@.dom().contains(handle.id),
            self.buffers@[handle.id].address + handle.offset <= u32::MAX,
        ensures
            resource.storage_id == handle.id,
            resource.owner_stream == 0,
            resource.address == self.buffers@[handle.id].address + handle.offset,
            resource.size == handle.size,
            resource.allocation_size == self.buffers@[handle.id].size,
            resource.allocation_offset == handle.offset,
            resource.compile_args@ == self.buffers@[handle.id].compile_args@,
            resource.layout == self.buffers@[handle.id].layout,
            handle.offset + handle.size <= self.buffers@[handle.id].size <= usize::MAX
                ==> resource.fits(),
    {
        broadcast use vstd::std_specs::hash::group_hash_axioms;

        let (address, allocation_size, compile_args, layout) = match self.buffers.get(&handle.id) {
            Some(buffer) => (
                buffer.address + handle.offset as u32,
                buffer.size,
                copy_words(&buffer.compile_args),
                buffer.layout,
            ),
            None => (0, 0, Vec::new(), TtBufferLayout::Replicated),
        };
        TtResource {
            storage_id: handle.id,
            owner_stream: 0,
            address,
            size: handle.size,
            allocation_size,
            allocation_offset: handle.offset,
            compile_args,
            layout,
        }
    }
}

} // verus!

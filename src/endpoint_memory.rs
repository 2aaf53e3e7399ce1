use vstd::prelude::*;

use crate::constants::{BUFFER_ALIGN, EP_MEM_ADDR, EP_MEM_SIZE, EP_REGISTERS_SIZE};
use crate::error::UsbError;

verus! {

/// The first multiple of the buffer alignment at or after `n`.
pub open spec fn align_up(n: nat) -> nat {
    (((n + 63) / 64) * 64) as nat
}

/// Where a buffer of `size` bytes lands when the bump pointer stands at
/// `next`, or `None` when it does not fit in the region.
pub open spec fn alloc_step(next: nat, size: nat) -> Option<nat> {
    if align_up(next) + size <= EP_MEM_SIZE {
        Some(align_up(next))
    } else {
        None
    }
}

/// The bump pointer after asking for `size` bytes at `next`.
pub open spec fn next_after(next: nat, size: nat) -> nat {
    match alloc_step(next, size) {
        Some(o) => o + size,
        None => next,
    }
}

/// The bump pointer after asking for each of `sizes` in turn.
pub open spec fn run_next(next: nat, sizes: Seq<nat>) -> nat
    decreases sizes.len(),
{
    if sizes.len() == 0 {
        next
    } else {
        next_after(run_next(next, sizes.drop_last()), sizes.last())
    }
}

/// Where the `i`-th of `sizes` lands when they are asked for in turn.
pub open spec fn run_offset(next: nat, sizes: Seq<nat>, i: int) -> Option<nat> {
    alloc_step(run_next(next, sizes.take(i)), sizes[i])
}

/// One allocated sub-region of the endpoint buffer region, together with the
/// bytes it currently holds.
pub struct EndpointBuffer {
    offset: usize,
    mem: Vec<u8>,
}

impl EndpointBuffer {
    /// Offset of the region from the start of the endpoint buffer region.
    pub closed spec fn spec_offset(&self) -> nat {
        self.offset as nat
    }

    /// The bytes the region holds; its length is the capacity.
    pub closed spec fn bytes(&self) -> Seq<u8> {
        self.mem@
    }

    /// A zero-filled region of `size` bytes at `offset`.
    pub fn new(offset: usize, size: usize) -> (r: Self)
        ensures
            r.spec_offset() == offset,
            r.bytes() == Seq::new(size as nat, |i: int| 0u8),
    {
        let mut mem: Vec<u8> = Vec::new();
        let mut i: usize = 0;
        while i < size
            invariant
                i <= size,
                mem@ == Seq::new(i as nat, |k: int| 0u8),
            decreases size - i,
        {
            mem.push(0u8);
            i = i + 1;
            assert(mem@ =~= Seq::new(i as nat, |k: int| 0u8));
        }
        EndpointBuffer { offset, mem }
    }

    /// Copies `min(buf.len(), capacity)` bytes of the region into `buf`.
    pub fn read(&self, buf: &mut [u8]) -> (n: usize)
        ensures
            n == if old(buf)@.len() < self.bytes().len() {
                old(buf)@.len()
            } else {
                self.bytes().len()
            },
            final(buf)@ == self.bytes().take(n as int) + old(buf)@.skip(n as int),
    {
        let count: usize = if buf.len() < self.mem.len() {
            buf.len()
        } else {
            self.mem.len()
        };
        self.read_prefix(buf, count);
        count
    }

    /// Copies the first `count` bytes of the region into `buf`.
    pub fn read_prefix(&self, buf: &mut [u8], count: usize)
        requires
            count <= old(buf)@.len(),
            count <= self.bytes().len(),
        ensures
            final(buf)@ == self.bytes().take(count as int) + old(buf)@.skip(count as int),
    {
        let mut i: usize = 0;
        while i < count
            invariant
                i <= count,
                count <= buf@.len(),
                count <= self.mem@.len(),
                buf@.len() == old(buf)@.len(),
                buf@ == self.mem@.take(i as int) + old(buf)@.skip(i as int),
            decreases count - i,
        {
            buf[i] = self.mem[i];
            i = i + 1;
            assert(buf@ =~= self.mem@.take(i as int) + old(buf)@.skip(i as int));
        }
        assert(buf@ =~= self.mem@.take(count as int) + old(buf)@.skip(count as int));
    }

    /// Copies `min(buf.len(), capacity)` bytes of `buf` into the region; the
    /// rest of `buf` is dropped.
    pub fn write(&mut self, buf: &[u8]) -> (n: usize)
        ensures
            n == if buf@.len() < old(self).bytes().len() {
                buf@.len()
            } else {
                old(self).bytes().len()
            },
            final(self).spec_offset() == old(self).spec_offset(),
            final(self).bytes() == buf@.take(n as int) + old(self).bytes().skip(n as int),
    {
        let count: usize = if buf.len() < self.mem.len() {
            buf.len()
        } else {
            self.mem.len()
        };
        let mut i: usize = 0;
        while i < count
            invariant
                i <= count,
                count <= buf@.len(),
                count <= old(self).mem@.len(),
                self.offset == old(self).offset,
                self.mem@.len() == old(self).mem@.len(),
                self.mem@ == buf@.take(i as int) + old(self).mem@.skip(i as int),
            decreases count - i,
        {
            self.mem.set(i, buf[i]);
            i = i + 1;
            assert(self.mem@ =~= buf@.take(i as int) + old(self).mem@.skip(i as int));
        }
        count
    }

    /// Offset of the region from the start of the endpoint buffer region.
    pub fn offset(&self) -> (r: usize)
        ensures
            r == self.spec_offset(),
    {
        self.offset
    }

    /// Absolute address of the region, as programmed into descriptors.
    pub fn addr(&self) -> (r: u32)
        requires
            self.spec_offset() + EP_MEM_ADDR <= u32::MAX,
        ensures
            r == EP_MEM_ADDR + self.spec_offset(),
    {
        (EP_MEM_ADDR + self.offset) as u32
    }

    pub fn capacity(&self) -> (r: usize)
        ensures
            r == self.bytes().len(),
    {
        self.mem.len()
    }

    pub fn is_empty(&self) -> (r: bool)
        ensures
            r == (self.bytes().len() == 0),
    {
        self.mem.len() == 0
    }
}

/// Bump allocator over the endpoint buffer region.
#[derive(Clone, Copy)]
pub struct EndpointMemoryAllocator {
    next_free_offset: usize,
}

impl EndpointMemoryAllocator {
    /// The bump pointer: where the free area starts.
    pub closed spec fn next_free(&self) -> nat {
        self.next_free_offset as nat
    }

    pub open spec fn wf(&self) -> bool {
        EP_REGISTERS_SIZE <= self.next_free() <= EP_MEM_SIZE
    }

    /// An allocator whose free area starts right after the descriptor table.
    pub fn new() -> (r: Self)
        ensures
            r.wf(),
            r.next_free() == EP_REGISTERS_SIZE,
    {
        EndpointMemoryAllocator { next_free_offset: EP_REGISTERS_SIZE }
    }

    /// Carves `size` bytes out of the region at the next 64-byte boundary.
    /// Fails, and changes nothing, when the buffer would pass the end of the
    /// region. A new buffer starts at or after the bump pointer and ends at
    /// its new value, and the bump pointer never moves back, so every buffer
    /// handed out lies after all earlier ones.
    pub fn allocate_buffer(&mut self, size: usize) -> (r: Result<EndpointBuffer, UsbError>)
        requires
            old(self).wf(),
        ensures
            final(self).wf(),
            final(self).next_free() == next_after(old(self).next_free(), size as nat),
            final(self).next_free() >= old(self).next_free(),
            r matches Ok(b) ==> b.spec_offset() % 64 == 0 && old(self).next_free()
                <= b.spec_offset() && b.spec_offset() + b.bytes().len() == final(self).next_free(),
            match alloc_step(old(self).next_free(), size as nat) {
                Some(o) => r matches Ok(b) && b.spec_offset() == o && b.bytes() == Seq::new(
                    size as nat,
                    |i: int| 0u8,
                ),
                None => r == Err::<EndpointBuffer, UsbError>(UsbError::EndpointMemoryOverflow),
            },
    {
        let offset: usize = (self.next_free_offset + (BUFFER_ALIGN - 1)) / BUFFER_ALIGN
            * BUFFER_ALIGN;
        assert(offset == align_up(self.next_free_offset as nat));
        proof {
            lemma_next_after_ge(self.next_free_offset as nat, size as nat);
        }
        if size > EP_MEM_SIZE || offset > EP_MEM_SIZE - size {
            return Err(UsbError::EndpointMemoryOverflow);
        }
        self.next_free_offset = offset + size;
        Ok(EndpointBuffer::new(offset, size))
    }
}

impl Default for EndpointMemoryAllocator {
    fn default() -> (r: Self)
        ensures
            r.wf(),
            r.next_free() == EP_REGISTERS_SIZE,
    {
        EndpointMemoryAllocator::new()
    }
}

/// A request never moves the bump pointer back, and a buffer that fits
/// starts on a 64-byte boundary at or after the bump pointer.
pub proof fn lemma_next_after_ge(next: nat, size: nat)
    ensures
        next_after(next, size) >= next,
        alloc_step(next, size) matches Some(o) ==> o % 64 == 0 && o >= next && next_after(
            next,
            size,
        ) == o + size,
{
    assert(align_up(next) >= next && align_up(next) % 64 == 0) by (nonlinear_arith)
        requires
            align_up(next) == (((next + 63) / 64) * 64) as nat,
    ;
}

proof fn lemma_run_next_mono(next: nat, sizes: Seq<nat>, i: int, j: int)
    requires
        0 <= i <= j <= sizes.len(),
    ensures
        run_next(next, sizes.take(i)) <= run_next(next, sizes.take(j)),
    decreases j - i,
{
    if i < j {
        lemma_run_next_mono(next, sizes, i, j - 1);
        assert(sizes.take(j).drop_last() =~= sizes.take(j - 1));
        lemma_next_after_ge(run_next(next, sizes.take(j - 1)), sizes[j - 1]);
    }
}

/// Over any sequence of requests, every buffer handed out starts on a
/// 64-byte boundary, lies after the descriptor table and inside the region,
/// and ends before every later buffer begins; a request fails exactly when
/// its aligned end would pass the region's end, and then leaves the bump
/// pointer where it was.
pub proof fn lemma_allocations_disjoint(next: nat, sizes: Seq<nat>)
    requires
        EP_REGISTERS_SIZE <= next,
    ensures
        forall|i: int|
            0 <= i < sizes.len() ==> (#[trigger] run_offset(next, sizes, i) matches Some(o) ==> o % 64 == 0
                && EP_REGISTERS_SIZE <= o && o + sizes[i] <= EP_MEM_SIZE),
        forall|i: int|
            0 <= i < sizes.len() ==> (#[trigger] run_offset(next, sizes, i) is None <==> align_up(
                run_next(next, sizes.take(i)),
            ) + sizes[i] > EP_MEM_SIZE),
        forall|i: int|
            0 <= i < sizes.len() && #[trigger] run_offset(next, sizes, i) is None ==> run_next(
                next,
                sizes.take(i + 1),
            ) == run_next(next, sizes.take(i)),
        forall|i: int, j: int|
            #![trigger run_offset(next, sizes, i), run_offset(next, sizes, j)]
            0 <= i < j < sizes.len() && run_offset(next, sizes, i) is Some && run_offset(
                next,
                sizes,
                j,
            ) is Some ==> run_offset(next, sizes, i)->0 + sizes[i] <= run_offset(next, sizes, j)->0,
{
    assert forall|i: int| 0 <= i < sizes.len() implies #[trigger] run_next(next, sizes.take(i + 1))
        == next_after(run_next(next, sizes.take(i)), sizes[i]) by {
        assert(sizes.take(i + 1).drop_last() =~= sizes.take(i));
    }
    assert forall|i: int|
        0 <= i < sizes.len() implies (#[trigger] run_offset(next, sizes, i) matches Some(o) ==> o % 64 == 0
            && EP_REGISTERS_SIZE <= o && o + sizes[i] <= EP_MEM_SIZE) by {
        lemma_run_next_mono(next, sizes, 0, i);
        assert(sizes.take(0) =~= Seq::<nat>::empty());
        lemma_next_after_ge(run_next(next, sizes.take(i)), sizes[i]);
    }
    assert forall|i: int, j: int|
        #![trigger run_offset(next, sizes, i), run_offset(next, sizes, j)]
        0 <= i < j < sizes.len() && run_offset(next, sizes, i) is Some && run_offset(
            next,
            sizes,
            j,
        ) is Some implies run_offset(next, sizes, i)->0 + sizes[i] <= run_offset(
        next,
        sizes,
        j,
    )->0 by {
        lemma_run_next_mono(next, sizes, i + 1, j);
        lemma_next_after_ge(run_next(next, sizes.take(i)), sizes[i]);
        lemma_next_after_ge(run_next(next, sizes.take(j)), sizes[j]);
    }
}

/// Writing `data` into a buffer and reading back as many bytes gives
/// `data` again, for every length up to the capacity; a longer write keeps
/// only its first `capacity` bytes.
pub proof fn lemma_write_read_round_trip(held: Seq<u8>, data: Seq<u8>)
    ensures
        data.len() <= held.len() ==> (data.take(data.len() as int) + held.skip(
            data.len() as int,
        )).take(data.len() as int) == data,
        data.len() > held.len() ==> data.take(held.len() as int) + held.skip(held.len() as int)
            == data.take(held.len() as int),
{
    if data.len() <= held.len() {
        assert((data.take(data.len() as int) + held.skip(data.len() as int)).take(
            data.len() as int,
        ) =~= data);
    } else {
        assert(data.take(held.len() as int) + held.skip(held.len() as int) =~= data.take(
            held.len() as int,
        ));
    }
}

} // verus!

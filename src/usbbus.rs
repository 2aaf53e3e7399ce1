use vstd::prelude::*;

use crate::constants::{EP_MEM_ADDR, EP_MEM_SIZE, EP_REGISTERS_SIZE, NUM_ENDPOINTS};
use crate::endpoint::{
    armed_out, idle_in, idle_setup, read_outcome, write_outcome, Endpoint, EndpointAddress,
    EndpointType, UsbDirection,
};
use crate::endpoint_memory::{alloc_step, next_after, EndpointMemoryAllocator};
use crate::error::UsbError;
use crate::usbhs::{EpDescriptor, UsbHS};

verus! {

/// Whether endpoint `ep` can take a `dir` buffer of type `ty`: its type is
/// unset or equal, and that direction has no buffer yet.
pub open spec fn is_candidate(ep: Endpoint, dir: UsbDirection, ty: EndpointType) -> bool {
    &&& (ep.ep_type is None || ep.ep_type == Some(ty))
    &&& !ep.has_buf(dir)
}

/// The lowest index in `lo..hi` whose endpoint is a candidate.
pub open spec fn first_candidate(
    eps: Seq<Endpoint>,
    lo: int,
    hi: int,
    dir: UsbDirection,
    ty: EndpointType,
) -> Option<int>
    decreases hi - lo,
{
    if lo >= hi {
        None
    } else if is_candidate(eps[lo], dir, ty) {
        Some(lo)
    } else {
        first_candidate(eps, lo + 1, hi, dir, ty)
    }
}

/// Size of the data buffer allocated for endpoint `index`: one byte more on
/// the control endpoint's OUT side, for zero-length-packet timing.
pub open spec fn buf_size(index: int, dir: UsbDirection, max_packet_size: u16) -> nat {
    if dir == UsbDirection::Out && index == 0 {
        (max_packet_size + 1) as nat
    } else {
        max_packet_size as nat
    }
}

/// Whether the allocation needs a setup buffer too.
pub open spec fn needs_setup(index: int, dir: UsbDirection) -> bool {
    dir == UsbDirection::Out && index == 0
}

/// Whether every buffer that endpoint `index` needs fits, the bump pointer
/// standing at `next`.
pub open spec fn fits(next: nat, index: int, dir: UsbDirection, max_packet_size: u16) -> bool {
    match alloc_step(next, buf_size(index, dir, max_packet_size)) {
        Some(o) => needs_setup(index, dir) ==> alloc_step(
            o + buf_size(index, dir, max_packet_size),
            8,
        ) is Some,
        None => false,
    }
}

/// The candidate range of an allocation request.
pub open spec fn range_lo(ep_addr: Option<EndpointAddress>) -> int {
    match ep_addr {
        Some(a) => a.index as int,
        None => 1,
    }
}

pub open spec fn range_hi(ep_addr: Option<EndpointAddress>) -> int {
    match ep_addr {
        Some(a) => a.index + 1,
        None => NUM_ENDPOINTS as int,
    }
}

/// The highest index below `n` with a bound buffer, or 0.
pub open spec fn highest_used(eps: Seq<Endpoint>, n: int) -> int
    decreases n,
{
    if n <= 0 {
        0
    } else if eps[n - 1].out_buf is Some || eps[n - 1].in_buf is Some {
        n - 1
    } else {
        highest_used(eps, n - 1)
    }
}


/// The descriptor entry an address names.
pub open spec fn desc_of(regs: UsbHS, a: EndpointAddress) -> EpDescriptor {
    match a.direction {
        UsbDirection::In => regs.ep_in@[a.index as int],
        UsbDirection::Out => regs.ep_out@[a.index as int],
    }
}

/// Whether the stall bit of `a` reads set.
pub open spec fn stalled_spec(regs: UsbHS, a: EndpointAddress) -> bool {
    a.index < NUM_ENDPOINTS && desc_of(regs, a).stalled
}

/// Whether changing the stall bit of `a` must wait for the transfer in
/// flight: a non-control endpoint whose entry is still active.
pub open spec fn stall_blocked(regs: UsbHS, a: EndpointAddress, stalled: bool) -> bool {
    &&& a.index < NUM_ENDPOINTS
    &&& stalled_spec(regs, a) != stalled
    &&& a.index > 0
    &&& desc_of(regs, a).active
}

/// Whether `regs2` is the register file after a request, made on `regs`,
/// to set the stall bit of `a` to `stalled`.
pub open spec fn stall_step(regs: UsbHS, a: EndpointAddress, stalled: bool, regs2: UsbHS) -> bool {
    if a.index >= NUM_ENDPOINTS || stalled_spec(regs, a) == stalled || stall_blocked(
        regs,
        a,
        stalled,
    ) {
        regs2 == regs
    } else {
        match a.direction {
            UsbDirection::In => {
                &&& regs2 == (UsbHS { ep_in: regs2.ep_in, ..regs })
                &&& regs2.ep_in@ == regs.ep_in@.update(
                    a.index as int,
                    EpDescriptor { stalled, ..regs.ep_in@[a.index as int] },
                )
            },
            UsbDirection::Out => {
                &&& regs2 == (UsbHS { ep_out: regs2.ep_out, ..regs })
                &&& regs2.ep_out@ == regs.ep_out@.update(
                    a.index as int,
                    EpDescriptor { stalled, ..regs.ep_out@[a.index as int] },
                )
            },
        }
    }
}

/// Asking twice in a row for the same stall state of an address leaves the
/// registers as asking once does, and once the request is not held up by a
/// transfer in flight, the stall bit reads what was last asked for.
pub proof fn lemma_stall_idempotent(
    regs: UsbHS,
    a: EndpointAddress,
    stalled: bool,
    once: UsbHS,
    twice: UsbHS,
)
    requires
        regs.wf(),
        stall_step(regs, a, stalled, once),
        stall_step(once, a, stalled, twice),
    ensures
        twice == once,
        a.index < NUM_ENDPOINTS && !stall_blocked(regs, a, stalled) ==> stalled_spec(once, a)
            == stalled,
{
}

/// What one call of `poll` reports.
#[derive(Clone, Copy, Debug, PartialEq, Eq, Structural)]
pub enum PollResult {
    /// Nothing to report.
    Idle,
    /// A bus reset was detected.
    Reset,
    /// Endpoint events, one bit per endpoint index.
    Data { ep_out: u16, ep_in_complete: u16, ep_setup: u16 },
    /// The bus is suspended.
    Suspend,
}

/// Bit `k` of a 32-bit register.
pub open spec fn bit32(x: u32, k: int) -> bool {
    (x >> (k as u32)) & 1u32 == 1u32
}

/// Bit `k` of a 16-bit mask.
pub open spec fn bit16(x: u16, k: int) -> bool {
    (x >> (k as u16)) & 1u16 == 1u16
}

/// An OUT packet waits on endpoint `i`, scanning up to `max`.
pub open spec fn out_event(regs: UsbHS, max: int, i: int) -> bool {
    if i == 0 {
        bit32(regs.intstat, 0) && !regs.setup
    } else {
        1 <= i <= max && bit32(regs.intstat, 2 * i)
    }
}

/// A SETUP packet waits on endpoint `i`.
pub open spec fn setup_event(regs: UsbHS, i: int) -> bool {
    i == 0 && bit32(regs.intstat, 0) && regs.setup
}

/// An IN transfer completed on endpoint `i`, scanning up to `max`: its
/// interrupt bit is set and, off the control endpoint, the hardware reports
/// the entry inactive.
pub open spec fn in_event(regs: UsbHS, max: int, i: int) -> bool {
    if i == 0 {
        bit32(regs.intstat, 1)
    } else {
        1 <= i <= max && bit32(regs.intstat, 2 * i + 1) && !regs.ep_in@[i].active
    }
}

/// Some event waits on endpoint `i`.
pub open spec fn event_at(regs: UsbHS, max: int, i: int) -> bool {
    out_event(regs, max, i) || in_event(regs, max, i) || setup_event(regs, i)
}

/// Whether interrupt bit `k` is the bit of an event that `poll` reports on
/// an endpoint below `n`: the OUT bit of an OUT or SETUP packet, the IN bit
/// of a completion.
pub open spec fn acked_below(regs: UsbHS, max: int, k: int, n: int) -> bool {
    ||| (k % 2 == 0 && k / 2 < n && (out_event(regs, max, k / 2) || setup_event(regs, k / 2)))
    ||| (k % 2 == 1 && (k - 1) / 2 < n && in_event(regs, max, (k - 1) / 2))
}

/// Whether `poll` acknowledges interrupt bit `k`: the device interrupt, and
/// the bit of every event it reports.
pub open spec fn acked(regs: UsbHS, max: int, k: int) -> bool {
    k == 31 || acked_below(regs, max, k, 16)
}

proof fn lemma_set_bit16(x: u16, k: u16, j: u16)
    requires
        k < 16,
        j < 16,
    ensures
        ((x | (1u16 << k)) >> j) & 1u16 == 1u16 <==> ((x >> j) & 1u16 == 1u16 || j == k),
{
    assert(((x | (1u16 << k)) >> j) & 1u16 == 1u16 <==> ((x >> j) & 1u16 == 1u16 || j == k))
        by (bit_vector)
        requires
            k < 16,
            j < 16,
    ;
}


proof fn lemma_clear_bit32(x: u32, k: u32, j: u32)
    requires
        k < 32,
        j < 32,
    ensures
        ((x & !(1u32 << k)) >> j) & 1u32 == 1u32 <==> ((x >> j) & 1u32 == 1u32 && j != k),
{
    assert(((x & !(1u32 << k)) >> j) & 1u32 == 1u32 <==> ((x >> j) & 1u32 == 1u32 && j != k))
        by (bit_vector)
        requires
            k < 32,
            j < 32,
    ;
}

/// `mask` with bit `i` set when `cond` holds.
fn set_bit_if(mask: u16, i: usize, cond: bool) -> (r: u16)
    requires
        i < 16,
    ensures
        forall|j: int| 0 <= j < 16 ==> (#[trigger] bit16(r, j) <==> (bit16(mask, j) || (cond && j == i))),
{
    if cond {
        proof {
            assert forall|j: int| 0 <= j < 16 implies (#[trigger] bit16(mask | (1u16 << (i as u16)), j) <==> (
            bit16(mask, j) || j == i)) by {
                lemma_set_bit16(mask, i as u16, j as u16);
            }
        }
        mask | (1u16 << (i as u16))
    } else {
        mask
    }
}

/// `x` with bit `k` cleared.
fn clear_bit32(x: u32, k: u32) -> (r: u32)
    requires
        k < 32,
    ensures
        forall|j: int| 0 <= j < 32 ==> (#[trigger] bit32(r, j) <==> (bit32(x, j) && j != k)),
{
    proof {
        assert forall|j: int| 0 <= j < 32 implies (#[trigger] bit32(x & !(1u32 << k), j) <==> (bit32(x, j)
            && j != k)) by {
            lemma_clear_bit32(x, k, j as u32);
        }
    }
    x & !(1u32 << k)
}

proof fn lemma_mask16(x: u16)
    ensures
        x == 0 ==> forall|j: int| 0 <= j < 16 ==> !bit16(x, j),
        x != 0 ==> exists|j: int| 0 <= j < 16 && bit16(x, j),
{
    assert forall|j: int| 0 <= j < 16 implies !bit16(0u16, j) by {
        let jj = j as u16;
        assert((0u16 >> jj) & 1u16 == 0u16) by (bit_vector);
    }
    if x != 0 {
        assert(x == 0u16 || (x >> 0u16) & 1u16 == 1u16 || (x >> 1u16) & 1u16 == 1u16 || (x
            >> 2u16) & 1u16 == 1u16 || (x >> 3u16) & 1u16 == 1u16 || (x >> 4u16) & 1u16 == 1u16
            || (x >> 5u16) & 1u16 == 1u16 || (x >> 6u16) & 1u16 == 1u16 || (x >> 7u16) & 1u16
            == 1u16 || (x >> 8u16) & 1u16 == 1u16 || (x >> 9u16) & 1u16 == 1u16 || (x >> 10u16)
            & 1u16 == 1u16 || (x >> 11u16) & 1u16 == 1u16 || (x >> 12u16) & 1u16 == 1u16 || (x
            >> 13u16) & 1u16 == 1u16 || (x >> 14u16) & 1u16 == 1u16 || (x >> 15u16) & 1u16
            == 1u16) by (bit_vector);
        assert(bit16(x, 0) || bit16(x, 1) || bit16(x, 2) || bit16(x, 3) || bit16(x, 4) || bit16(
            x,
            5,
        ) || bit16(x, 6) || bit16(x, 7) || bit16(x, 8) || bit16(x, 9) || bit16(x, 10) || bit16(
            x,
            11,
        ) || bit16(x, 12) || bit16(x, 13) || bit16(x, 14) || bit16(x, 15));
    }
}

proof fn lemma_first_candidate_none(
    eps: Seq<Endpoint>,
    lo: int,
    hi: int,
    dir: UsbDirection,
    ty: EndpointType,
)
    requires
        forall|j: int| lo <= j < hi ==> !is_candidate(#[trigger] eps[j], dir, ty),
    ensures
        first_candidate(eps, lo, hi, dir, ty) is None,
    decreases hi - lo,
{
    if lo < hi {
        lemma_first_candidate_none(eps, lo + 1, hi, dir, ty);
    }
}

/// Asking for a fixed endpoint whose type is already set to another type
/// fails with `InvalidEndpoint`; asking without an address while every
/// non-control endpoint has another type fails with `EndpointOverflow`.
pub proof fn lemma_alloc_refused(
    eps: Seq<Endpoint>,
    ep_addr: Option<EndpointAddress>,
    dir: UsbDirection,
    ty: EndpointType,
)
    requires
        eps.len() == NUM_ENDPOINTS,
        ep_addr matches Some(a) ==> a.index < NUM_ENDPOINTS && eps[a.index as int].ep_type is Some
            && eps[a.index as int].ep_type != Some(ty),
        ep_addr is None ==> forall|j: int|
            1 <= j < NUM_ENDPOINTS ==> (#[trigger] eps[j]).ep_type is Some && eps[j].ep_type
                != Some(ty),
    ensures
        first_candidate(eps, range_lo(ep_addr), range_hi(ep_addr), dir, ty) is None,
{
    lemma_first_candidate_none(eps, range_lo(ep_addr), range_hi(ep_addr), dir, ty);
}

proof fn lemma_mask_eq(x: u16, v: u16)
    requires
        forall|j: int| 0 <= j < 16 ==> (bit16(x, j) <==> bit16(v, j)),
    ensures
        x == v,
{
    assert(bit16(x, 0) == bit16(v, 0) && bit16(x, 1) == bit16(v, 1) && bit16(x, 2) == bit16(v, 2)
        && bit16(x, 3) == bit16(v, 3) && bit16(x, 4) == bit16(v, 4) && bit16(x, 5) == bit16(v, 5)
        && bit16(x, 6) == bit16(v, 6) && bit16(x, 7) == bit16(v, 7) && bit16(x, 8) == bit16(v, 8)
        && bit16(x, 9) == bit16(v, 9) && bit16(x, 10) == bit16(v, 10) && bit16(x, 11) == bit16(
        v,
        11,
    ) && bit16(x, 12) == bit16(v, 12) && bit16(x, 13) == bit16(v, 13) && bit16(x, 14) == bit16(
        v,
        14,
    ) && bit16(x, 15) == bit16(v, 15));
    assert(x == v) by (bit_vector)
        requires
            ((x >> 0u16) & 1u16 == 1u16) == ((v >> 0u16) & 1u16 == 1u16),
            ((x >> 1u16) & 1u16 == 1u16) == ((v >> 1u16) & 1u16 == 1u16),
            ((x >> 2u16) & 1u16 == 1u16) == ((v >> 2u16) & 1u16 == 1u16),
            ((x >> 3u16) & 1u16 == 1u16) == ((v >> 3u16) & 1u16 == 1u16),
            ((x >> 4u16) & 1u16 == 1u16) == ((v >> 4u16) & 1u16 == 1u16),
            ((x >> 5u16) & 1u16 == 1u16) == ((v >> 5u16) & 1u16 == 1u16),
            ((x >> 6u16) & 1u16 == 1u16) == ((v >> 6u16) & 1u16 == 1u16),
            ((x >> 7u16) & 1u16 == 1u16) == ((v >> 7u16) & 1u16 == 1u16),
            ((x >> 8u16) & 1u16 == 1u16) == ((v >> 8u16) & 1u16 == 1u16),
            ((x >> 9u16) & 1u16 == 1u16) == ((v >> 9u16) & 1u16 == 1u16),
            ((x >> 10u16) & 1u16 == 1u16) == ((v >> 10u16) & 1u16 == 1u16),
            ((x >> 11u16) & 1u16 == 1u16) == ((v >> 11u16) & 1u16 == 1u16),
            ((x >> 12u16) & 1u16 == 1u16) == ((v >> 12u16) & 1u16 == 1u16),
            ((x >> 13u16) & 1u16 == 1u16) == ((v >> 13u16) & 1u16 == 1u16),
            ((x >> 14u16) & 1u16 == 1u16) == ((v >> 14u16) & 1u16 == 1u16),
            ((x >> 15u16) & 1u16 == 1u16) == ((v >> 15u16) & 1u16 == 1u16),
    ;
}

/// With no reset, suspend or SETUP pending, a poll limit of at least 2, and
/// endpoint interrupt bits exactly OUT on endpoint 2 and IN on endpoint 0,
/// the masks that `poll` reports are `0b100` for OUT, `0b1` for IN
/// completion and 0 for SETUP.
pub proof fn lemma_poll_out2_in0(
    regs: UsbHS,
    max: int,
    ep_out: u16,
    ep_in_complete: u16,
    ep_setup: u16,
)
    requires
        regs.wf(),
        2 <= max < NUM_ENDPOINTS,
        !regs.setup,
        forall|k: int| 0 <= k < 31 ==> (#[trigger] bit32(regs.intstat, k) <==> (k == 4 || k == 1)),
        forall|j: int|
            0 <= j < 16 ==> (#[trigger] bit16(ep_out, j) <==> out_event(regs, max, j)) && (bit16(
                ep_in_complete,
                j,
            ) <==> in_event(regs, max, j)) && (bit16(ep_setup, j) <==> setup_event(regs, j)),
    ensures
        ep_out == 0b100u16,
        ep_in_complete == 0b1u16,
        ep_setup == 0u16,
{
    assert forall|j: int| 0 <= j < 16 implies (bit16(ep_out, j) <==> bit16(0b100u16, j)) && (
    bit16(ep_in_complete, j) <==> bit16(0b1u16, j)) && (bit16(ep_setup, j) <==> bit16(0u16, j))
        by {
        let jj = j as u16;
        assert(((0b100u16 >> jj) & 1u16 == 1u16) <==> jj == 2u16) by (bit_vector)
            requires
                jj < 16,
        ;
        assert(((0b1u16 >> jj) & 1u16 == 1u16) <==> jj == 0u16) by (bit_vector)
            requires
                jj < 16,
        ;
        assert((0u16 >> jj) & 1u16 == 0u16) by (bit_vector);
        assert(bit32(regs.intstat, 0) == false);
        assert(bit32(regs.intstat, 1));
        assert(1 <= j <= max ==> (bit32(regs.intstat, 2 * j) <==> j == 2));
        assert(1 <= j <= max ==> !bit32(regs.intstat, 2 * j + 1));
        assert(jj as int == j);
        assert(bit16(0b100u16, j) <==> j == 2);
        assert(bit16(0b1u16, j) <==> j == 0);
        assert(!bit16(0u16, j));
        assert(out_event(regs, max, j) <==> j == 2);
        assert(in_event(regs, max, j) <==> j == 0);
        assert(!setup_event(regs, j));
        assert(bit16(ep_out, j) <==> out_event(regs, max, j));
        assert(bit16(ep_in_complete, j) <==> in_event(regs, max, j));
        assert(bit16(ep_setup, j) <==> setup_event(regs, j));
    }
    lemma_mask_eq(ep_out, 0b100u16);
    lemma_mask_eq(ep_in_complete, 0b1u16);
    lemma_mask_eq(ep_setup, 0u16);
}

/// A poll that decodes endpoint events acknowledges each one it reports, so
/// a second poll at once, with no new hardware event in between, finds no
/// reset, no suspend and no event: it returns `Idle`.
pub proof fn lemma_second_poll_idle(r0: UsbHS, max: int, r1: UsbHS)
    requires
        r0.wf(),
        0 <= max < NUM_ENDPOINTS,
        !r0.dres_c,
        !(r0.dsus_c || r0.lpm_sus),
        r1 == (UsbHS { intstat: r1.intstat, ep_in: r1.ep_in, ..r0 }),
        r1.ep_in@ == if bit32(r0.intstat, 1) {
            r0.ep_in@.update(0, EpDescriptor { active: false, ..r0.ep_in@[0] })
        } else {
            r0.ep_in@
        },
        forall|k: int|
            0 <= k < 32 ==> (#[trigger] bit32(r1.intstat, k) <==> (bit32(r0.intstat, k) && !acked(
                r0,
                max,
                k,
            ))),
    ensures
        !r1.dres_c && !(r1.dsus_c || r1.lpm_sus),
        forall|j: int| 0 <= j < 16 ==> !#[trigger] event_at(r1, max, j),
{
    assert forall|j: int| 0 <= j < 16 implies !#[trigger] event_at(r1, max, j) by {
        assert(bit32(r1.intstat, 0) ==> acked(r0, max, 0) == bit32(r0.intstat, 0));
        assert(bit32(r1.intstat, 1) ==> acked(r0, max, 1) == bit32(r0.intstat, 1));
        if 1 <= j <= max {
            assert(r1.ep_in@[j] == r0.ep_in@[j]);
            assert(bit32(r1.intstat, 2 * j) ==> !acked(r0, max, 2 * j));
            assert((2 * j) % 2 == 0 && (2 * j) / 2 == j);
            assert(bit32(r1.intstat, 2 * j + 1) ==> !acked(r0, max, 2 * j + 1));
            assert((2 * j + 1) % 2 == 1 && (2 * j + 1 - 1) / 2 == j);
        }
    }
}

/// Whether every buffer bound to `eps` lies after the descriptor table and
/// ends at or before `n`.
pub open spec fn all_bufs_below(eps: Seq<Endpoint>, n: nat) -> bool {
    forall|j: int| 0 <= j < eps.len() ==> (#[trigger] eps[j]).bufs_between(EP_REGISTERS_SIZE as nat, n)
}

/// The bus controller: the register file, one state per endpoint, the
/// buffer allocator, and the highest endpoint that `poll` scans.
pub struct UsbHSBus {
    pub usb_regs: UsbHS,
    endpoints: Vec<Endpoint>,
    ep_allocator: EndpointMemoryAllocator,
    max_endpoint: usize,
}

impl UsbHSBus {
    pub closed spec fn regs(&self) -> UsbHS {
        self.usb_regs
    }

    pub closed spec fn eps(&self) -> Seq<Endpoint> {
        self.endpoints@
    }

    pub closed spec fn next_free(&self) -> nat {
        self.ep_allocator.next_free()
    }

    pub closed spec fn max_ep(&self) -> int {
        self.max_endpoint as int
    }

    pub closed spec fn wf(&self) -> bool {
        &&& self.usb_regs.wf()
        &&& self.endpoints@.len() == NUM_ENDPOINTS
        &&& forall|i: int|
            0 <= i < NUM_ENDPOINTS ==> (#[trigger] self.endpoints@[i]).wf()
                && self.endpoints@[i].index == i
        &&& self.ep_allocator.wf()
        &&& self.max_endpoint < NUM_ENDPOINTS
        &&& all_bufs_below(self.endpoints@, self.ep_allocator.next_free())
    }

    /// What a well-formed bus guarantees: a well-formed register file, one
    /// well-formed endpoint per index holding its own index, a poll limit
    /// below the endpoint count, and every bound buffer between the
    /// descriptor table and the bump pointer, which itself stays in the
    /// region.
    pub proof fn lemma_wf(&self)
        requires
            self.wf(),
        ensures
            self.regs().wf(),
            self.eps().len() == NUM_ENDPOINTS,
            forall|i: int|
                0 <= i < NUM_ENDPOINTS ==> (#[trigger] self.eps()[i]).wf() && self.eps()[i].index
                    == i,
            0 <= self.max_ep() < NUM_ENDPOINTS,
            EP_REGISTERS_SIZE <= self.next_free() <= EP_MEM_SIZE,
            all_bufs_below(self.eps(), self.next_free()),
    {
    }

    /// A bus over `usb_device` with every endpoint untyped and unbound.
    pub fn new(usb_device: UsbHS) -> (r: Self)
        requires
            usb_device.wf(),
        ensures
            r.wf(),
            r.regs() == usb_device,
            r.max_ep() == 0,
            r.next_free() == EP_REGISTERS_SIZE,
            forall|i: int|
                0 <= i < NUM_ENDPOINTS ==> (#[trigger] r.eps()[i]).index == i
                    && r.eps()[i].ep_type is None
                    && r.eps()[i].out_buf is None && r.eps()[i].in_buf is None
                    && r.eps()[i].setup_buf is None,
    {
        let mut endpoints: Vec<Endpoint> = Vec::new();
        let mut i: usize = 0;
        while i < NUM_ENDPOINTS
            invariant
                i <= NUM_ENDPOINTS,
                endpoints@.len() == i,
                forall|k: int|
                    0 <= k < i ==> (#[trigger] endpoints@[k]).index == k
                        && endpoints@[k].ep_type is None && endpoints@[k].out_buf is None
                        && endpoints@[k].in_buf is None && endpoints@[k].setup_buf is None,
            decreases NUM_ENDPOINTS - i,
        {
            endpoints.push(Endpoint::new(i as u8));
            i = i + 1;
        }
        UsbHSBus {
            usb_regs: usb_device,
            endpoints,
            ep_allocator: EndpointMemoryAllocator::new(),
            max_endpoint: 0,
        }
    }

    /// Claims a `ep_dir` buffer of `max_packet_size` bytes on the first
    /// candidate endpoint: the requested index, or else 1 upwards. On the
    /// control endpoint's OUT side an 8-byte setup buffer is bound too. On
    /// any error nothing changes.
    pub fn alloc_ep(
        &mut self,
        ep_dir: UsbDirection,
        ep_addr: Option<EndpointAddress>,
        ep_type: EndpointType,
        max_packet_size: u16,
        _interval: u8,
    ) -> (r: Result<EndpointAddress, UsbError>)
        requires
            old(self).wf(),
        ensures
            final(self).wf(),
            final(self).regs() == old(self).regs(),
            final(self).max_ep() == old(self).max_ep(),
            r is Err ==> *final(self) == *old(self),
            if ep_addr matches Some(a) && a.index >= NUM_ENDPOINTS {
                r == Err::<EndpointAddress, UsbError>(UsbError::InvalidEndpoint)
            } else {
                match first_candidate(
                    old(self).eps(),
                    range_lo(ep_addr),
                    range_hi(ep_addr),
                    ep_dir,
                    ep_type,
                ) {
                    None => r == Err::<EndpointAddress, UsbError>(
                        if ep_addr is Some {
                            UsbError::InvalidEndpoint
                        } else {
                            UsbError::EndpointOverflow
                        },
                    ),
                    Some(i) => if !fits(old(self).next_free(), i, ep_dir, max_packet_size) {
                        r == Err::<EndpointAddress, UsbError>(UsbError::EndpointMemoryOverflow)
                    } else {
                        let size = buf_size(i, ep_dir, max_packet_size);
                        let o = alloc_step(old(self).next_free(), size)->0;
                        let e = final(self).eps()[i];
                        let e0 = old(self).eps()[i];
                        &&& r == Ok::<EndpointAddress, UsbError>(
                            EndpointAddress { index: i as usize, direction: ep_dir },
                        )
                        &&& final(self).eps().len() == old(self).eps().len()
                        &&& forall|j: int|
                            0 <= j < NUM_ENDPOINTS && j != i ==> #[trigger] final(self).eps()[j]
                                == old(self).eps()[j]
                        &&& e.index == e0.index
                        &&& e.ep_type == Some(ep_type)
                        &&& all_bufs_below(old(self).eps(), o)
                        &&& match ep_dir {
                            UsbDirection::Out => {
                                &&& e.in_buf == e0.in_buf
                                &&& e.out_buf matches Some(b) && b.spec_offset() == o
                                    && b.bytes().len() == size
                                &&& if needs_setup(i, ep_dir) {
                                    &&& e0.setup_buf is None
                                    &&& e.setup_buf matches Some(sb) && sb.spec_offset()
                                        == alloc_step(o + size, 8)->0 && sb.bytes().len() == 8
                                    &&& final(self).next_free() == next_after(o + size, 8)
                                } else {
                                    &&& e.setup_buf == e0.setup_buf
                                    &&& final(self).next_free() == o + size
                                }
                            },
                            UsbDirection::In => {
                                &&& e.out_buf == e0.out_buf
                                &&& e.setup_buf == e0.setup_buf
                                &&& e.in_buf matches Some(b) && b.spec_offset() == o
                                    && b.bytes().len() == size
                                &&& final(self).next_free() == o + size
                            },
                        }
                    },
                }
            },
    {
        let (lo, hi): (usize, usize) = match ep_addr {
            Some(a) => {
                if a.index >= NUM_ENDPOINTS {
                    return Err(UsbError::InvalidEndpoint);
                }
                (a.index, a.index + 1)
            },
            None => (1, NUM_ENDPOINTS),
        };
        let mut index: usize = lo;
        while index < hi
            invariant
                lo <= index <= hi <= NUM_ENDPOINTS,
                lo == range_lo(ep_addr),
                hi == range_hi(ep_addr),
                *self == *old(self),
                self.wf(),
                first_candidate(self.eps(), lo as int, hi as int, ep_dir, ep_type)
                    == first_candidate(self.eps(), index as int, hi as int, ep_dir, ep_type),
            decreases hi - index,
        {
            let type_ok = match self.endpoints[index].ep_type() {
                None => true,
                Some(t) => t == ep_type,
            };
            let has_buf = match ep_dir {
                UsbDirection::Out => self.endpoints[index].is_out_buf_set(),
                UsbDirection::In => self.endpoints[index].is_in_buf_set(),
            };
            if type_ok && !has_buf {
                let setup_too = index == 0 && ep_dir == UsbDirection::Out;
                let size: usize = if setup_too {
                    max_packet_size as usize + 1
                } else {
                    max_packet_size as usize
                };
                let mut trial = self.ep_allocator;
                let buffer = match trial.allocate_buffer(size) {
                    Ok(b) => b,
                    Err(e) => {
                        return Err(e);
                    },
                };
                let setup = if setup_too {
                    match trial.allocate_buffer(8) {
                        Ok(b) => Some(b),
                        Err(e) => {
                            return Err(e);
                        },
                    }
                } else {
                    None
                };
                self.ep_allocator = trial;
                let ep = &mut self.endpoints[index];
                ep.ep_type = Some(ep_type);
                match ep_dir {
                    UsbDirection::Out => {
                        ep.out_buf = Some(buffer);
                        if setup_too {
                            ep.setup_buf = setup;
                        }
                    },
                    UsbDirection::In => {
                        ep.in_buf = Some(buffer);
                    },
                }
                return Ok(EndpointAddress { index, direction: ep_dir });
            }
            index = index + 1;
        }
        match ep_addr {
            Some(_) => Err(UsbError::InvalidEndpoint),
            None => Err(UsbError::EndpointOverflow),
        }
    }

    /// Records the highest bound endpoint as the poll limit, re-arms every
    /// bound buffer, programs the buffer and descriptor-table bases, opens
    /// the PHY clock gate, enables and connects the device, and enables the
    /// interrupts of every endpoint in both directions (bits 0 to 11) and the
    /// device interrupt (bit 31).
    pub fn enable(&mut self)
        requires
            old(self).wf(),
        ensures
            final(self).wf(),
            final(self).eps() == old(self).eps(),
            final(self).next_free() == old(self).next_free(),
            final(self).max_ep() == highest_used(old(self).eps(), NUM_ENDPOINTS as int),
            final(self).regs() == (UsbHS {
                databufstart: EP_MEM_ADDR as u32,
                epliststart: (EP_MEM_ADDR as u32) >> 8u32,
                phy_clkgate: false,
                dev_en: true,
                dcon: true,
                inten: old(self).regs().inten | 0x8000_0fffu32,
                ep_out: final(self).regs().ep_out,
                ep_in: final(self).regs().ep_in,
                setup_desc: final(self).regs().setup_desc,
                ..old(self).regs()
            }),
            forall|i: int|
                0 <= i < NUM_ENDPOINTS ==> #[trigger] final(self).regs().ep_out@[i] == match old(
                    self,
                ).eps()[i].out_buf {
                    Some(b) => armed_out(b, old(self).regs().ep_out@[i]),
                    None => old(self).regs().ep_out@[i],
                },
            forall|i: int|
                0 <= i < NUM_ENDPOINTS ==> #[trigger] final(self).regs().ep_in@[i] == match old(
                    self,
                ).eps()[i].in_buf {
                    Some(b) => idle_in(b, old(self).regs().ep_in@[i]),
                    None => old(self).regs().ep_in@[i],
                },
            final(self).regs().setup_desc == match old(self).eps()[0].setup_buf {
                Some(b) => idle_setup(b),
                None => old(self).regs().setup_desc,
            },
    {
        let mut max: usize = 0;
        let mut index: usize = 0;
        while index < NUM_ENDPOINTS
            invariant
                index <= NUM_ENDPOINTS,
                self.wf(),
                self.endpoints@ == old(self).endpoints@,
                self.ep_allocator == old(self).ep_allocator,
                self.max_endpoint == old(self).max_endpoint,
                max as int == highest_used(self.endpoints@, index as int),
                max < NUM_ENDPOINTS,
                self.usb_regs == (UsbHS {
                    ep_out: self.usb_regs.ep_out,
                    ep_in: self.usb_regs.ep_in,
                    setup_desc: self.usb_regs.setup_desc,
                    ..old(self).usb_regs
                }),
                forall|i: int|
                    0 <= i < NUM_ENDPOINTS ==> #[trigger] self.usb_regs.ep_out@[i] == if i
                        < index {
                        match self.endpoints@[i].out_buf {
                            Some(b) => armed_out(b, old(self).usb_regs.ep_out@[i]),
                            None => old(self).usb_regs.ep_out@[i],
                        }
                    } else {
                        old(self).usb_regs.ep_out@[i]
                    },
                forall|i: int|
                    0 <= i < NUM_ENDPOINTS ==> #[trigger] self.usb_regs.ep_in@[i] == if i
                        < index {
                        match self.endpoints@[i].in_buf {
                            Some(b) => idle_in(b, old(self).usb_regs.ep_in@[i]),
                            None => old(self).usb_regs.ep_in@[i],
                        }
                    } else {
                        old(self).usb_regs.ep_in@[i]
                    },
                self.usb_regs.setup_desc == if index > 0 {
                    match self.endpoints@[0].setup_buf {
                        Some(b) => idle_setup(b),
                        None => old(self).usb_regs.setup_desc,
                    }
                } else {
                    old(self).usb_regs.setup_desc
                },
            decreases NUM_ENDPOINTS - index,
        {
            let ep = &self.endpoints[index];
            if ep.is_out_buf_set() || ep.is_in_buf_set() {
                max = index;
                ep.rearm(&mut self.usb_regs);
            }
            index = index + 1;
        }
        self.max_endpoint = max;
        self.usb_regs.databufstart = EP_MEM_ADDR as u32;
        self.usb_regs.epliststart = (EP_MEM_ADDR as u32) >> 8u32;
        self.usb_regs.phy_clkgate = false;
        self.usb_regs.dev_en = true;
        self.usb_regs.dcon = true;
        let inten0 = self.usb_regs.inten;
        self.usb_regs.inten = inten0 | 0xfffu32;
        self.usb_regs.inten = self.usb_regs.inten | 0x8000_0000u32;
        assert((inten0 | 0xfffu32) | 0x8000_0000u32 == inten0 | 0x8000_0fffu32) by (bit_vector);
    }

    /// Sets the device address to 0, reprograms every endpoint from its
    /// bindings, and clears every pending interrupt flag.
    pub fn reset(&mut self)
        requires
            old(self).wf(),
        ensures
            final(self).wf(),
            final(self).eps() == old(self).eps(),
            final(self).next_free() == old(self).next_free(),
            final(self).max_ep() == old(self).max_ep(),
            final(self).regs() == (UsbHS {
                dev_addr: 0,
                intstat: 0,
                ep_out: final(self).regs().ep_out,
                ep_in: final(self).regs().ep_in,
                setup_desc: final(self).regs().setup_desc,
                ..old(self).regs()
            }),
            forall|i: int|
                0 <= i < NUM_ENDPOINTS ==> #[trigger] final(self).regs().ep_out@[i] == match old(
                    self,
                ).eps()[i].out_buf {
                    Some(b) => armed_out(b, EpDescriptor::idle_spec()),
                    None => EpDescriptor::idle_spec(),
                },
            forall|i: int|
                0 <= i < NUM_ENDPOINTS ==> #[trigger] final(self).regs().ep_in@[i] == match old(
                    self,
                ).eps()[i].in_buf {
                    Some(b) => idle_in(b, EpDescriptor::idle_spec()),
                    None => EpDescriptor::idle_spec(),
                },
            final(self).regs().setup_desc == match old(self).eps()[0].setup_buf {
                Some(b) => idle_setup(b),
                None => old(self).regs().setup_desc,
            },
    {
        self.usb_regs.dev_addr = 0;
        let mut index: usize = 0;
        while index < NUM_ENDPOINTS
            invariant
                index <= NUM_ENDPOINTS,
                self.wf(),
                self.endpoints@ == old(self).endpoints@,
                self.ep_allocator == old(self).ep_allocator,
                self.max_endpoint == old(self).max_endpoint,
                self.usb_regs == (UsbHS {
                    dev_addr: 0,
                    ep_out: self.usb_regs.ep_out,
                    ep_in: self.usb_regs.ep_in,
                    setup_desc: self.usb_regs.setup_desc,
                    ..old(self).usb_regs
                }),
                forall|i: int|
                    0 <= i < NUM_ENDPOINTS ==> #[trigger] self.usb_regs.ep_out@[i] == if i
                        < index {
                        match self.endpoints@[i].out_buf {
                            Some(b) => armed_out(b, EpDescriptor::idle_spec()),
                            None => EpDescriptor::idle_spec(),
                        }
                    } else {
                        old(self).usb_regs.ep_out@[i]
                    },
                forall|i: int|
                    0 <= i < NUM_ENDPOINTS ==> #[trigger] self.usb_regs.ep_in@[i] == if i
                        < index {
                        match self.endpoints@[i].in_buf {
                            Some(b) => idle_in(b, EpDescriptor::idle_spec()),
                            None => EpDescriptor::idle_spec(),
                        }
                    } else {
                        old(self).usb_regs.ep_in@[i]
                    },
                self.usb_regs.setup_desc == if index > 0 {
                    match self.endpoints@[0].setup_buf {
                        Some(b) => idle_setup(b),
                        None => old(self).usb_regs.setup_desc,
                    }
                } else {
                    old(self).usb_regs.setup_desc
                },
            decreases NUM_ENDPOINTS - index,
        {
            self.endpoints[index].configure(&mut self.usb_regs);
            index = index + 1;
        }
        self.usb_regs.intstat = 0;
    }

    /// Programs the device address register.
    pub fn set_device_address(&mut self, addr: u8)
        requires
            old(self).wf(),
        ensures
            final(self).wf(),
            final(self).eps() == old(self).eps(),
            final(self).next_free() == old(self).next_free(),
            final(self).max_ep() == old(self).max_ep(),
            final(self).regs() == (UsbHS { dev_addr: addr, ..old(self).regs() }),
    {
        self.usb_regs.dev_addr = addr;
    }

    /// Reads a pending packet of an OUT endpoint into `buf`.
    pub fn read(&mut self, ep_addr: EndpointAddress, buf: &mut [u8]) -> (r: Result<usize, UsbError>)
        requires
            old(self).wf(),
        ensures
            final(self).wf(),
            final(self).eps() == old(self).eps(),
            final(self).next_free() == old(self).next_free(),
            final(self).max_ep() == old(self).max_ep(),
            if ep_addr.direction != UsbDirection::Out || ep_addr.index >= NUM_ENDPOINTS {
                &&& r == Err::<usize, UsbError>(UsbError::InvalidEndpoint)
                &&& final(self).regs() == old(self).regs()
                &&& final(buf)@ == old(buf)@
            } else {
                read_outcome(
                    old(self).eps()[ep_addr.index as int],
                    old(self).regs(),
                    old(buf)@,
                    r,
                    final(self).regs(),
                    final(buf)@,
                )
            },
    {
        if ep_addr.direction != UsbDirection::Out || ep_addr.index >= NUM_ENDPOINTS {
            return Err(UsbError::InvalidEndpoint);
        }
        self.endpoints[ep_addr.index].read(buf, &mut self.usb_regs)
    }

    /// Stages `buf` for transmission on an IN endpoint.
    pub fn write(&mut self, ep_addr: EndpointAddress, buf: &[u8]) -> (r: Result<usize, UsbError>)
        requires
            old(self).wf(),
        ensures
            final(self).wf(),
            final(self).next_free() == old(self).next_free(),
            final(self).max_ep() == old(self).max_ep(),
            if ep_addr.direction != UsbDirection::In || ep_addr.index >= NUM_ENDPOINTS {
                &&& r == Err::<usize, UsbError>(UsbError::InvalidEndpoint)
                &&& *final(self) == *old(self)
            } else {
                &&& final(self).eps() == old(self).eps().update(
                    ep_addr.index as int,
                    final(self).eps()[ep_addr.index as int],
                )
                &&& write_outcome(
                    old(self).eps()[ep_addr.index as int],
                    old(self).regs(),
                    buf@,
                    r,
                    final(self).eps()[ep_addr.index as int],
                    final(self).regs(),
                )
            },
    {
        if ep_addr.direction != UsbDirection::In || ep_addr.index >= NUM_ENDPOINTS {
            return Err(UsbError::InvalidEndpoint);
        }
        let r = self.endpoints[ep_addr.index].write(buf, &mut self.usb_regs);
        assert(self.endpoints@ =~= old(self).endpoints@.update(
            ep_addr.index as int,
            self.endpoints@[ep_addr.index as int],
        ));
        r
    }

    /// Whether the stall bit of `ep_addr` is set.
    pub fn is_stalled(&self, ep_addr: EndpointAddress) -> (r: bool)
        requires
            self.wf(),
        ensures
            r == stalled_spec(self.regs(), ep_addr),
    {
        if ep_addr.index >= NUM_ENDPOINTS {
            return false;
        }
        match ep_addr.direction {
            UsbDirection::In => self.usb_regs.ep_in[ep_addr.index].stalled,
            UsbDirection::Out => self.usb_regs.ep_out[ep_addr.index].stalled,
        }
    }

    /// Sets or clears the stall bit of `ep_addr`; nothing to do when it is
    /// already in that state. On a non-control endpoint the bit may only be
    /// touched once its transfer has left the hardware: while the entry is
    /// active nothing changes and `false` comes back, and the caller waits
    /// for the hardware and asks again.
    pub fn set_stalled(&mut self, ep_addr: EndpointAddress, stalled: bool) -> (done: bool)
        requires
            old(self).wf(),
        ensures
            final(self).wf(),
            final(self).eps() == old(self).eps(),
            final(self).next_free() == old(self).next_free(),
            final(self).max_ep() == old(self).max_ep(),
            done == !stall_blocked(old(self).regs(), ep_addr, stalled),
            stall_step(old(self).regs(), ep_addr, stalled, final(self).regs()),
    {
        if ep_addr.index >= NUM_ENDPOINTS || self.is_stalled(ep_addr) == stalled {
            return true;
        }
        let i = ep_addr.index;
        match ep_addr.direction {
            UsbDirection::In => {
                let d = self.usb_regs.ep_in[i];
                if i > 0 && d.active {
                    return false;
                }
                self.usb_regs.ep_in.set(i, EpDescriptor { stalled, ..d });
            },
            UsbDirection::Out => {
                let d = self.usb_regs.ep_out[i];
                if i > 0 && d.active {
                    return false;
                }
                self.usb_regs.ep_out.set(i, EpDescriptor { stalled, ..d });
            },
        }
        true
    }

    /// Suspend is handled by the layers above; nothing to do here.
    pub fn suspend(&self) {
    }

    /// Leaves low-power suspend when a remote wakeup is pending, then
    /// clears the suspend bit.
    pub fn resume(&mut self)
        requires
            old(self).wf(),
        ensures
            final(self).wf(),
            final(self).eps() == old(self).eps(),
            final(self).next_free() == old(self).next_free(),
            final(self).max_ep() == old(self).max_ep(),
            final(self).regs() == (UsbHS {
                lpm_sus: old(self).regs().lpm_sus && !old(self).regs().lpm_rewp,
                dsus: false,
                ..old(self).regs()
            }),
    {
        if self.usb_regs.lpm_rewp {
            self.usb_regs.lpm_sus = false;
        }
        self.usb_regs.dsus = false;
    }

    /// Turns the interrupt state into one event. A bus reset comes first
    /// (and its flag is cleared), then suspend (its flag stays set);
    /// otherwise the interrupt-status register is read once and decoded per
    /// endpoint, IN completions and the device interrupt are acknowledged,
    /// and the control endpoint's IN entry is made inactive by hand.
    #[verifier::rlimit(60)]
    #[verifier::spinoff_prover]
    pub fn poll(&mut self) -> (r: PollResult)
        requires
            old(self).wf(),
        ensures
            final(self).wf(),
            final(self).eps() == old(self).eps(),
            final(self).next_free() == old(self).next_free(),
            final(self).max_ep() == old(self).max_ep(),
            if old(self).regs().dres_c {
                &&& r == PollResult::Reset
                &&& final(self).regs() == (UsbHS { dres_c: false, ..old(self).regs() })
            } else if old(self).regs().dsus_c || old(self).regs().lpm_sus {
                &&& r == PollResult::Suspend
                &&& final(self).regs() == old(self).regs()
            } else {
                let r0 = old(self).regs();
                let max = old(self).max_ep();
                &&& final(self).regs() == (UsbHS {
                    intstat: final(self).regs().intstat,
                    ep_in: final(self).regs().ep_in,
                    ..r0
                })
                &&& final(self).regs().ep_in@ == if bit32(r0.intstat, 1) {
                    r0.ep_in@.update(0, EpDescriptor { active: false, ..r0.ep_in@[0] })
                } else {
                    r0.ep_in@
                }
                &&& forall|k: int|
                    0 <= k < 32 ==> (#[trigger] bit32(final(self).regs().intstat, k) <==> (
                    bit32(r0.intstat, k) && !acked(r0, max, k)))
                &&& (r == PollResult::Idle <==> forall|j: int|
                    0 <= j < 16 ==> !#[trigger] event_at(r0, max, j))
                &&& (r is Idle || r is Data)
                &&& (r matches PollResult::Data { ep_out, ep_in_complete, ep_setup } ==> forall|
                    j: int,
                |
                    0 <= j < 16 ==> (#[trigger] bit16(ep_out, j) <==> out_event(r0, max, j)) && (
                    bit16(ep_in_complete, j) <==> in_event(r0, max, j)) && (bit16(ep_setup, j)
                        <==> setup_event(r0, j)))
            },
    {
        if self.usb_regs.dres_c {
            self.usb_regs.dres_c = false;
            return PollResult::Reset;
        }
        if self.usb_regs.dsus_c || self.usb_regs.lpm_sus {
            return PollResult::Suspend;
        }
        let ghost r0 = self.usb_regs;
        let max = self.max_endpoint;
        let snap = self.usb_regs.intstat;
        let mut ep_out: u16 = 0;
        let mut ep_in_complete: u16 = 0;
        let mut ep_setup: u16 = 0;
        proof {
            lemma_mask16(0u16);
            assert forall|j: int| 0 <= j < 16 implies (bit16(0u16 | (1u16 << 0u16), j) <==> j
                == 0) by {
                lemma_set_bit16(0u16, 0u16, j as u16);
                assert(!bit16(0u16, j));
            }
        }
        if (snap >> 0u32) & 1u32 == 1u32 {
            if self.usb_regs.setup {
                ep_setup = ep_setup | (1u16 << 0u16);
            } else {
                ep_out = ep_out | (1u16 << 0u16);
            }
            self.usb_regs.intstat = clear_bit32(self.usb_regs.intstat, 0u32);
        }
        if (snap >> 1u32) & 1u32 == 1u32 {
            self.usb_regs.intstat = clear_bit32(self.usb_regs.intstat, 1u32);
            ep_in_complete = ep_in_complete | (1u16 << 0u16);
            let d = self.usb_regs.ep_in[0];
            self.usb_regs.ep_in.set(0, EpDescriptor { active: false, ..d });
        }
        proof {
            assert forall|k: int| 0 <= k < 32 implies (#[trigger] bit32(self.usb_regs.intstat, k)
                <==> (bit32(snap, k) && !acked_below(r0, max as int, k, 1))) by {
                assert((k % 2 == 0 && k / 2 < 1) <==> k == 0);
                assert((k % 2 == 1 && (k - 1) / 2 < 1) <==> k == 1);
            }
        }
        proof {
            assert(out_event(r0, max as int, 0) ==> ep_out == 0u16 | (1u16 << 0u16));
            assert(!out_event(r0, max as int, 0) ==> ep_out == 0u16);
            assert(setup_event(r0, 0) ==> ep_setup == 0u16 | (1u16 << 0u16));
            assert(!setup_event(r0, 0) ==> ep_setup == 0u16);
            assert(in_event(r0, max as int, 0) ==> ep_in_complete == 0u16 | (1u16 << 0u16));
            assert(!in_event(r0, max as int, 0) ==> ep_in_complete == 0u16);
        }
        let mut i: usize = 1;
        while i <= max
            invariant
                1 <= i <= max + 1,
                max == self.max_endpoint,
                max < NUM_ENDPOINTS,
                r0 == old(self).usb_regs,
                r0.wf(),
                snap == r0.intstat,
                !r0.dres_c,
                self.endpoints@ == old(self).endpoints@,
                self.ep_allocator == old(self).ep_allocator,
                self.wf(),
                self.usb_regs == (UsbHS {
                    intstat: self.usb_regs.intstat,
                    ep_in: self.usb_regs.ep_in,
                    ..r0
                }),
                self.usb_regs.ep_in@ == if bit32(r0.intstat, 1) {
                    r0.ep_in@.update(0, EpDescriptor { active: false, ..r0.ep_in@[0] })
                } else {
                    r0.ep_in@
                },
                forall|k: int|
                    0 <= k < 32 ==> (#[trigger] bit32(self.usb_regs.intstat, k) <==> (bit32(
                        snap,
                        k,
                    ) && !acked_below(r0, max as int, k, i as int))),
                forall|j: int|
                    0 <= j < 16 ==> (#[trigger] bit16(ep_out, j) <==> (j < i && out_event(
                        r0,
                        max as int,
                        j,
                    ))),
                forall|j: int|
                    0 <= j < 16 ==> (#[trigger] bit16(ep_in_complete, j) <==> (j < i && in_event(
                        r0,
                        max as int,
                        j,
                    ))),
                forall|j: int|
                    0 <= j < 16 ==> (#[trigger] bit16(ep_setup, j) <==> (j < i && setup_event(
                        r0,
                        j,
                    ))),
            decreases max + 1 - i,
        {
            let out_int = (snap >> ((2 * i) as u32)) & 1u32 == 1u32;
            assert(out_int == out_event(r0, max as int, i as int));
            ep_out = set_bit_if(ep_out, i, out_int);
            if out_int {
                self.usb_regs.intstat = clear_bit32(self.usb_regs.intstat, (2 * i) as u32);
            }
            assert(self.usb_regs.ep_in@[i as int] == r0.ep_in@[i as int]);
            let in_inactive = !self.usb_regs.ep_in[i].active;
            let in_int = (snap >> ((2 * i + 1) as u32)) & 1u32 == 1u32;
            assert((in_int && in_inactive) == in_event(r0, max as int, i as int));
            ep_in_complete = set_bit_if(ep_in_complete, i, in_int && in_inactive);
            if in_int && in_inactive {
                self.usb_regs.intstat = clear_bit32(self.usb_regs.intstat, (2 * i + 1) as u32);
            }
            proof {
                assert(!setup_event(r0, i as int));
                assert forall|k: int| 0 <= k < 32 implies (#[trigger] bit32(self.usb_regs.intstat, k)
                    <==> (bit32(snap, k) && !acked_below(r0, max as int, k, i + 1))) by {
                    assert((k % 2 == 0 && k / 2 == i) <==> k == 2 * i);
                    assert((k % 2 == 1 && (k - 1) / 2 == i) <==> k == 2 * i + 1);
                }
            }
            i = i + 1;
        }
        proof {
            let cur = self.usb_regs.intstat;
            assert forall|k: int| 0 <= k < 32 implies (bit32(cur & !(1u32 << 31u32), k) <==> (
            bit32(r0.intstat, k) && !acked(r0, max as int, k))) by {
                lemma_clear_bit32(cur, 31u32, k as u32);
                assert(bit32(cur & !(1u32 << 31u32), k) <==> (bit32(cur, k) && k != 31));
                assert(i == max + 1);
                assert(acked_below(r0, max as int, k, 16) == acked_below(r0, max as int, k, i as int));
            }
            lemma_mask16(ep_out);
            lemma_mask16(ep_in_complete);
            lemma_mask16(ep_setup);
            assert forall|j: int| 0 <= j < 16 implies (bit16(ep_out, j) <==> out_event(
                r0,
                max as int,
                j,
            )) && (bit16(ep_in_complete, j) <==> in_event(r0, max as int, j)) && (bit16(
                ep_setup,
                j,
            ) <==> setup_event(r0, j)) by {}
        }
        self.usb_regs.intstat = self.usb_regs.intstat & !(1u32 << 31u32);
        if ep_out != 0 || ep_in_complete != 0 || ep_setup != 0 {
            proof {
                let j_ev = if ep_out != 0 {
                    choose|j: int| 0 <= j < 16 && bit16(ep_out, j)
                } else if ep_in_complete != 0 {
                    choose|j: int| 0 <= j < 16 && bit16(ep_in_complete, j)
                } else {
                    choose|j: int| 0 <= j < 16 && bit16(ep_setup, j)
                };
                assert(event_at(r0, max as int, j_ev));
            }
            PollResult::Data { ep_out, ep_in_complete, ep_setup }
        } else {
            proof {
                assert forall|j: int| 0 <= j < 16 implies !#[trigger] event_at(r0, max as int, j) by {
                    assert(!bit16(ep_out, j) && !bit16(ep_in_complete, j) && !bit16(ep_setup, j));
                }
            }
            PollResult::Idle
        }
    }
}

} // verus!

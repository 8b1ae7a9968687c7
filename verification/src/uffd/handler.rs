//! What a page fault asks for.

use vstd::arithmetic::power2::is_pow2;
use vstd::prelude::*;

use super::page::{align_to_page, is_power_of_two, page_start};
use super::region::{
    create_mem_regions, pages_for, GuestRegionUffdMapping, MemPageState, MemRegion,
};

verus! {

/// What is to be done about a page fault.
#[derive(Clone, Copy, Debug, PartialEq, Eq, Structural)]
pub enum FaultAction {
    /// Copy `len` bytes of saved memory from `src` to `dst`.
    Copy { src: u64, dst: u64, len: usize },
    /// Fill the `len` bytes at `addr` with zeros.
    ZeroPage { addr: u64, len: usize },
}

impl FaultAction {
    /// Where the pages start that the action fills.
    pub open spec fn start(self) -> nat {
        match self {
            FaultAction::Copy { dst, .. } => dst as nat,
            FaultAction::ZeroPage { addr, .. } => addr as nat,
        }
    }

    /// Where they end.
    pub open spec fn end(self) -> nat {
        match self {
            FaultAction::Copy { dst, len, .. } => (dst + len) as nat,
            FaultAction::ZeroPage { addr, len } => (addr + len) as nat,
        }
    }

    /// The state that they have then.
    pub open spec fn state(self) -> MemPageState {
        match self {
            FaultAction::Copy { .. } => MemPageState::FromFile,
            FaultAction::ZeroPage { .. } => MemPageState::Anonymous,
        }
    }
}

/// The sum of the sizes of the regions.
pub open spec fn total_size(mappings: Seq<GuestRegionUffdMapping>) -> nat
    decreases mappings.len(),
{
    if mappings.len() == 0 {
        0
    } else {
        total_size(mappings.drop_last()) + mappings.last().size as nat
    }
}

/// What a fault cannot be served for.
#[derive(Clone, Copy, Debug, PartialEq, Eq, Structural)]
pub enum FaultError {
    /// No region has a page there.
    NoPage,
    /// The saved bytes, or the end of what is to be filled, have no address.
    OutOfRange,
}

/// Mappings that a handler takes for `size` bytes of saved memory: there is one at least, their
/// sizes sum up to `size`, the page size, which is that of the first, is a power of two, and all
/// their pages have addresses.
pub open spec fn acceptable(mappings: Seq<GuestRegionUffdMapping>, size: usize) -> bool {
    &&& mappings.len() > 0
    &&& total_size(mappings) == size
    &&& is_pow2(mappings[0].page_size_kib as int)
    &&& forall|i: int|
        0 <= i < mappings.len() ==> (#[trigger] mappings[i]).fits(mappings[0].page_size_kib as nat)
}

/// Whether the pages of a region have addresses.
fn has_addresses(mapping: &GuestRegionUffdMapping, page_size: usize) -> (yes: bool)
    requires
        page_size > 0,
    ensures
        yes == mapping.fits(page_size as nat),
{
    let size: u128 = mapping.size as u128;
    let p: u128 = page_size as u128;
    let n: u128 = (size + p - 1) / p;
    proof {
        vstd::arithmetic::div_mod::lemma_fundamental_div_mod(size + p - 1, p as int);
        vstd::arithmetic::div_mod::lemma_mod_bound(size + p - 1, p as int);
        assert(n * p == p * n) by (nonlinear_arith);
        assert(n == pages_for(mapping.size as nat, page_size as nat));
    }
    let end: u128 = mapping.base_host_virt_addr as u128 + n * p;
    end <= u64::MAX as u128
}

/// The sum of the sizes of the regions; `None` where it is out of range.
fn sum_sizes(mappings: &Vec<GuestRegionUffdMapping>) -> (sum: Option<usize>)
    ensures
        sum is Some <==> total_size(mappings@) <= usize::MAX,
        sum matches Some(n) ==> n == total_size(mappings@),
{
    let mut sum: usize = 0;
    let mut i: usize = 0;
    while i < mappings.len()
        invariant
            i <= mappings@.len(),
            sum == total_size(mappings@.take(i as int)),
        decreases mappings@.len() - i,
    {
        let ghost head = mappings@.take(i + 1);
        assert(head.drop_last() =~= mappings@.take(i as int));
        assert(head.last() == mappings@[i as int]);
        match sum.checked_add(mappings[i].size) {
            Some(next) => {
                sum = next;
            },
            None => {
                proof {
                    lemma_total_size_grows(mappings@, i + 1);
                }
                return None;
            },
        }
        i = i + 1;
    }
    assert(mappings@.take(i as int) =~= mappings@);
    Some(sum)
}

/// Some of the regions are no larger than all of them.
proof fn lemma_total_size_grows(mappings: Seq<GuestRegionUffdMapping>, k: int)
    requires
        0 <= k <= mappings.len(),
    ensures
        total_size(mappings.take(k)) <= total_size(mappings),
    decreases mappings.len(),
{
    if k == mappings.len() {
        assert(mappings.take(k) =~= mappings);
    } else {
        lemma_total_size_grows(mappings.drop_last(), k);
        assert(mappings.drop_last().take(k) =~= mappings.take(k));
    }
}

/// The regions hold the first of them with a page at `page` at position `i`.
pub open spec fn first_with_page(regions: Seq<MemRegion>, page: nat, i: int) -> bool {
    &&& 0 <= i < regions.len()
    &&& regions[i].state_at(page) is Some
    &&& forall|j: int| 0 <= j < i ==> (#[trigger] regions[j]).state_at(page) is None
}

/// What a fault on the page at `page` of a region asks for: a page that was never touched or was
/// filled from the saved memory is filled from there, and one that was given back to the host or
/// filled with zeros is filled with zeros.
pub open spec fn action_for(
    region: MemRegion,
    backing_buffer: u64,
    page: nat,
    page_size: usize,
    len: usize,
) -> FaultAction
    recommends
        region.state_at(page) is Some,
{
    match region.state_at(page)->0 {
        MemPageState::Uninitialized | MemPageState::FromFile => FaultAction::Copy {
            src: (backing_buffer + region.mapping.offset + (page
                - region.mapping.base_host_virt_addr)) as u64,
            dst: page as u64,
            len,
        },
        MemPageState::Removed | MemPageState::Anonymous => FaultAction::ZeroPage {
            addr: page as u64,
            len: page_size,
        },
    }
}

/// Whether what an action for the page at `page` of a region touches has addresses. A page to be
/// filled with zeros always has.
pub open spec fn in_range(region: MemRegion, backing_buffer: u64, page: nat, len: usize) -> bool {
    match region.state_at(page)->0 {
        MemPageState::Uninitialized | MemPageState::FromFile => {
            &&& backing_buffer + region.mapping.offset + (page - region.mapping.base_host_virt_addr)
                <= u64::MAX
            &&& page + len <= u64::MAX
        },
        MemPageState::Removed | MemPageState::Anonymous => true,
    }
}

/// The regions afterwards are those before, but for the state of all pages that start from
/// `start` up to, but not at, `end`.
pub open spec fn only_states_set(
    before: Seq<MemRegion>,
    after: Seq<MemRegion>,
    start: nat,
    end: nat,
    state: MemPageState,
) -> bool {
    &&& after.len() == before.len()
    &&& forall|i: int|
        0 <= i < after.len() ==> {
            &&& (#[trigger] after[i]).mapping == before[i].mapping
            &&& after[i].page_size == before[i].page_size
        }
    &&& forall|i: int, addr: nat|
        0 <= i < after.len() ==> (#[trigger] after[i].state_at(addr)) == if before[i].state_at(
            addr,
        ) is Some && start <= addr < end {
            Some(state)
        } else {
            before[i].state_at(addr)
        }
}

/// The page fault handler of one virtual machine.
#[derive(Debug)]
pub struct UffdHandler {
    pub mem_regions: Vec<MemRegion>,
    pub page_size: usize,
    /// Address at which the saved memory is mapped.
    pub backing_buffer: u64,
}

impl UffdHandler {
    /// What holds of every handler.
    pub open spec fn wf(&self) -> bool {
        &&& is_pow2(self.page_size as int)
        &&& forall|i: int|
            0 <= i < self.mem_regions@.len() ==> {
                &&& (#[trigger] self.mem_regions@[i]).wf()
                &&& self.mem_regions@[i].page_size == self.page_size
            }
    }

    /// A handler for the given mappings, with `size` bytes of saved memory at `backing_buffer`;
    /// `None` where the mappings are not acceptable.
    pub fn from_mappings(
        mappings: &Vec<GuestRegionUffdMapping>,
        backing_buffer: u64,
        size: usize,
    ) -> (handler: Option<Self>)
        ensures
            handler is Some <==> acceptable(mappings@, size),
            handler is Some <==> {
                &&& mappings@.len() > 0
                &&& total_size(mappings@) == size
                &&& is_pow2(mappings@[0].page_size_kib as int)
                &&& forall|i: int|
                    0 <= i < mappings@.len() ==> (#[trigger] mappings@[i]).base_host_virt_addr + (
                    mappings@[i].size + mappings@[0].page_size_kib - 1)
                        / mappings@[0].page_size_kib as int * mappings@[0].page_size_kib <= u64::MAX
            },
            handler matches Some(h) ==> {
                &&& h.wf()
                &&& h.page_size == mappings@[0].page_size_kib
                &&& h.backing_buffer == backing_buffer
                &&& h.mem_regions@.len() == mappings@.len()
                &&& forall|i: int|
                    0 <= i < mappings@.len() ==> (#[trigger] h.mem_regions@[i]).mapping
                        == mappings@[i]
                &&& forall|i: int, addr: nat|
                    0 <= i < mappings@.len() ==> (#[trigger] h.mem_regions@[i].state_at(addr))
                        == if mappings@[i].has_page(h.page_size as nat, addr) {
                        Some(MemPageState::Uninitialized)
                    } else {
                        None
                    }
            },
    {
        if mappings.len() == 0 {
            return None;
        }
        match sum_sizes(mappings) {
            None => {
                return None;
            },
            Some(sum) => {
                if sum != size {
                    return None;
                }
            },
        }
        let page_size: usize = mappings[0].page_size_kib;
        if !is_power_of_two(page_size) {
            return None;
        }
        proof {
            reveal(is_pow2);
        }
        let mut i: usize = 0;
        while i < mappings.len()
            invariant
                mappings@.len() > 0,
                page_size > 0,
                page_size == mappings@[0].page_size_kib,
                i <= mappings@.len(),
                forall|j: int|
                    0 <= j < i ==> (#[trigger] mappings@[j]).fits(page_size as nat),
            decreases mappings@.len() - i,
        {
            if !has_addresses(&mappings[i], page_size) {
                assert(!mappings@[i as int].fits(page_size as nat));
                return None;
            }
            i = i + 1;
        }
        let mem_regions = create_mem_regions(mappings, page_size);
        Some(UffdHandler { mem_regions, page_size, backing_buffer })
    }

    /// Gives all pages, of whatever region, that start from `start` up to, but not at, `end` a
    /// new state.
    pub fn update_mem_state_mappings(&mut self, start: u64, end: u64, state: MemPageState)
        requires
            old(self).wf(),
        ensures
            final(self).wf(),
            final(self).page_size == old(self).page_size,
            final(self).backing_buffer == old(self).backing_buffer,
            only_states_set(
                old(self).mem_regions@,
                final(self).mem_regions@,
                start as nat,
                end as nat,
                state,
            ),
    {
        let ghost before = self.mem_regions@;
        let n: usize = self.mem_regions.len();
        let mut i: usize = 0;
        while i < n
            invariant
                self.wf(),
                self.page_size == old(self).page_size,
                self.backing_buffer == old(self).backing_buffer,
                n == before.len(),
                before == old(self).mem_regions@,
                self.mem_regions@.len() == n,
                i <= n,
                only_states_set(
                    before.take(i as int),
                    self.mem_regions@.take(i as int),
                    start as nat,
                    end as nat,
                    state,
                ),
                forall|j: int| i <= j < n ==> #[trigger] self.mem_regions@[j] == before[j],
            decreases n - i,
        {
            let ghost mid = self.mem_regions@;
            assert(mid[i as int].wf());
            let region: &mut MemRegion = &mut self.mem_regions[i];
            region.set_states(start, end, state);
            proof {
                let now = self.mem_regions@;
                assert(now =~= mid.update(i as int, now[i as int]));
                assert forall|j: int, addr: nat| 0 <= j < i + 1 implies (
                #[trigger] now.take(i + 1)[j].state_at(addr)) == if before.take(i + 1)[j].state_at(
                    addr,
                ) is Some && start <= addr < end {
                    Some(state)
                } else {
                    before.take(i + 1)[j].state_at(addr)
                } by {
                    if j < i {
                        assert(now[j] == mid.take(i as int)[j]);
                        assert(before.take(i as int)[j] == before[j]);
                    }
                }
                assert forall|j: int| 0 <= j < i + 1 implies (#[trigger] now.take(i + 1)[j]).mapping
                    == before.take(i + 1)[j].mapping && now.take(i + 1)[j].page_size
                    == before.take(i + 1)[j].page_size by {
                    if j < i {
                        assert(now[j] == mid.take(i as int)[j]);
                        assert(before.take(i as int)[j] == before[j]);
                    }
                }
            }
            i = i + 1;
        }
        assert(self.mem_regions@.take(n as int) =~= self.mem_regions@);
        assert(before.take(n as int) =~= before);
    }

    /// Decides what a fault at `addr` asks for, where `len` bytes at a time are filled from the
    /// saved memory, and takes it for done: the caller carries it out, and does not go on where
    /// that fails. A fault that cannot be served changes nothing.
    pub fn serve_pf(&mut self, addr: u64, len: usize) -> (action: Result<FaultAction, FaultError>)
        requires
            old(self).wf(),
        ensures
            final(self).wf(),
            final(self).page_size == old(self).page_size,
            final(self).backing_buffer == old(self).backing_buffer,
            ({
                let page = page_start(addr as nat, old(self).page_size as nat);
                let regions = old(self).mem_regions@;
                let backing = old(self).backing_buffer;
                match action {
                    Err(FaultError::NoPage) => *final(self) == *old(self) && forall|i: int|
                        0 <= i < regions.len() ==> (#[trigger] regions[i]).state_at(page) is None,
                    Err(FaultError::OutOfRange) => *final(self) == *old(self) && exists|i: int|
                        #[trigger]
                        first_with_page(regions, page, i) && !in_range(
                            regions[i],
                            backing,
                            page,
                            len,
                        ),
                    Ok(a) => {
                        &&& exists|i: int| #[trigger]
                            first_with_page(regions, page, i) && in_range(
                                regions[i],
                                backing,
                                page,
                                len,
                            ) && a == action_for(regions[i], backing, page, old(self).page_size, len)
                        &&& only_states_set(
                            regions,
                            final(self).mem_regions@,
                            a.start(),
                            a.end(),
                            a.state(),
                        )
                    },
                }
            }),
            ({
                let page = (addr - addr as int % old(self).page_size as int) as nat;
                let regions = old(self).mem_regions@;
                &&& action == Err::<FaultAction, FaultError>(FaultError::NoPage) <==> forall|i: int|
                    0 <= i < regions.len() ==> (#[trigger] regions[i]).state_at(page) is None
                &&& forall|i: int| #[trigger]
                    first_with_page(regions, page, i) ==> {
                        let src = old(self).backing_buffer + regions[i].mapping.offset + (page
                            - regions[i].mapping.base_host_virt_addr);
                        match regions[i].state_at(page)->0 {
                            MemPageState::Uninitialized | MemPageState::FromFile => {
                                &&& src <= u64::MAX && page + len <= u64::MAX ==> (action matches Ok(
                                    FaultAction::Copy { src: from, dst, len: count },
                                ) && from == src && dst == page && count == len)
                                &&& src > u64::MAX || page + len > u64::MAX ==> action == Err::<
                                    FaultAction,
                                    FaultError,
                                >(FaultError::OutOfRange)
                            },
                            MemPageState::Removed | MemPageState::Anonymous => (action matches Ok(
                                FaultAction::ZeroPage { addr: start, len: count },
                            ) && start == page && count == old(self).page_size),
                        }
                    }
                &&& action matches Ok(FaultAction::Copy { .. }) ==> forall|i: int, a: nat|
                    0 <= i < regions.len() ==> (#[trigger] final(self).mem_regions@[i].state_at(a))
                        == if regions[i].state_at(a) is Some && page <= a < page + len {
                        Some(MemPageState::FromFile)
                    } else {
                        regions[i].state_at(a)
                    }
                &&& action matches Ok(FaultAction::ZeroPage { .. }) ==> forall|i: int, a: nat|
                    0 <= i < regions.len() ==> (#[trigger] final(self).mem_regions@[i].state_at(a))
                        == if regions[i].state_at(a) is Some && page <= a < page + old(
                        self,
                    ).page_size {
                        Some(MemPageState::Anonymous)
                    } else {
                        regions[i].state_at(a)
                    }
            }),
    {
        proof {
            reveal(is_pow2);
        }
        let page: u64 = align_to_page(addr, self.page_size as u64);
        let mut i: usize = 0;
        while i < self.mem_regions.len()
            invariant
                *self == *old(self),
                self.wf(),
                page == page_start(addr as nat, self.page_size as nat),
                i <= self.mem_regions@.len(),
                forall|j: int|
                    0 <= j < i ==> (#[trigger] self.mem_regions@[j]).state_at(page as nat) is None,
            decreases self.mem_regions@.len() - i,
        {
            assert(self.mem_regions@[i as int].wf());
            let mapping: GuestRegionUffdMapping = self.mem_regions[i].mapping;
            match self.mem_regions[i].get(page) {
                Some(MemPageState::Uninitialized) | Some(MemPageState::FromFile) => {
                    assert(first_with_page(self.mem_regions@, page as nat, i as int));
                    let distance: u64 = page - mapping.base_host_virt_addr;
                    let src: u128 = self.backing_buffer as u128 + mapping.offset as u128
                        + distance as u128;
                    let end: u128 = page as u128 + len as u128;
                    if src > u64::MAX as u128 || end > u64::MAX as u128 {
                        return Err(FaultError::OutOfRange);
                    }
                    self.update_mem_state_mappings(page, end as u64, MemPageState::FromFile);
                    return Ok(FaultAction::Copy { src: src as u64, dst: page, len });
                },
                Some(MemPageState::Removed) | Some(MemPageState::Anonymous) => {
                    assert(first_with_page(self.mem_regions@, page as nat, i as int));
                    let page_size: usize = self.page_size;
                    proof {
                        self.mem_regions@[i as int].lemma_page_end(page as nat);
                    }
                    self.update_mem_state_mappings(
                        page,
                        page + page_size as u64,
                        MemPageState::Anonymous,
                    );
                    return Ok(FaultAction::ZeroPage { addr: page, len: page_size });
                },
                None => {},
            }
            i = i + 1;
        }
        Err(FaultError::NoPage)
    }
}

} // verus!

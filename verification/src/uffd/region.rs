//! Guest memory regions and the state of their pages.

use std::collections::HashMap;

use vstd::prelude::*;

verus! {

/// Where the contents of a guest memory region are to go and where they come from: `size` bytes
/// at `offset` in the backend belong at `base_host_virt_addr`.
#[derive(Clone, Copy, Debug, PartialEq, Eq, Structural)]
pub struct GuestRegionUffdMapping {
    /// Host virtual address at which the contents of the region belong.
    pub base_host_virt_addr: u64,
    /// Region size.
    pub size: usize,
    /// Offset in the backend at which the contents of the region are.
    pub offset: u64,
    /// The configured page size for this memory region.
    pub page_size_kib: usize,
}

/// The state of a guest page.
#[derive(Clone, Copy, Debug, PartialEq, Eq, Structural)]
pub enum MemPageState {
    /// Never touched.
    Uninitialized,
    /// Filled from the saved memory.
    FromFile,
    /// Given back to the host.
    Removed,
    /// Filled with zeros.
    Anonymous,
}

impl GuestRegionUffdMapping {
    /// Whether an address is where a page of the region starts.
    pub open spec fn has_page(self, page_size: nat, addr: nat) -> bool {
        &&& self.base_host_virt_addr <= addr < self.base_host_virt_addr + self.size
        &&& (addr - self.base_host_virt_addr) % page_size as int == 0
    }

    /// The address after the last page of the region fits in 64 bits.
    pub open spec fn fits(self, page_size: nat) -> bool {
        self.base_host_virt_addr + pages_for(self.size as nat, page_size) * page_size <= u64::MAX
    }
}

/// How many pages hold `size` bytes.
pub open spec fn pages_for(size: nat, page_size: nat) -> nat
    recommends
        page_size > 0,
{
    ((size + page_size - 1) / page_size as int) as nat
}

/// A page starts below `size` exactly if it is one of those that hold `size` bytes.
proof fn lemma_pages_for(size: nat, page_size: nat, k: nat)
    requires
        page_size > 0,
    ensures
        k * page_size < size <==> k < pages_for(size, page_size),
{
    let n = pages_for(size, page_size) as int;
    let p = page_size as int;
    let s = size as int;
    vstd::arithmetic::div_mod::lemma_fundamental_div_mod(s + p - 1, p);
    vstd::arithmetic::div_mod::lemma_mod_bound(s + p - 1, p);
    vstd::arithmetic::div_mod::lemma_div_pos_is_pos(s + p - 1, p);
    assert(n == (s + p - 1) / p);
    if k < n {
        assert(k * p < s) by (nonlinear_arith)
            requires
                k + 1 <= n,
                p * n <= s + p - 1,
                p > 0,
        ;
    } else {
        assert(k * p >= s) by (nonlinear_arith)
            requires
                k >= n,
                s + p - 1 < p * n + p,
                p > 0,
        ;
    }
}

/// Between the starts of two pages that follow each other no other page starts, and a page that
/// starts before the page after `k` others starts a page before it at least.
proof fn lemma_on_grid(base: int, page_size: int, k: int, addr: int)
    requires
        page_size > 0,
        base <= addr,
        (addr - base) % page_size == 0,
    ensures
        addr == base + (addr - base) / page_size * page_size,
        base + k * page_size <= addr < base + (k + 1) * page_size ==> addr == base + k * page_size,
        addr < base + k * page_size ==> addr <= base + (k - 1) * page_size,
{
    let m = (addr - base) / page_size;
    vstd::arithmetic::div_mod::lemma_fundamental_div_mod(addr - base, page_size);
    assert(m * page_size == page_size * m) by (nonlinear_arith);
    if k <= m {
        assert(m * page_size < (k + 1) * page_size ==> m < k + 1) by (nonlinear_arith)
            requires
                page_size > 0,
        ;
        assert(k * page_size <= m * page_size) by (nonlinear_arith)
            requires
                k <= m,
                page_size > 0,
        ;
    } else {
        assert(m * page_size <= (k - 1) * page_size) by (nonlinear_arith)
            requires
                m <= k - 1,
                page_size > 0,
        ;
        assert((k - 1) * page_size < k * page_size) by (nonlinear_arith)
            requires
                page_size > 0,
        ;
    }
}

/// The start of the page after `k` others is on the grid.
proof fn lemma_grid(page_size: int, k: int)
    requires
        page_size > 0,
        k >= 0,
    ensures
        (k * page_size) % page_size == 0,
        k * page_size >= 0,
        (k + 1) * page_size == k * page_size + page_size,
        (k - 1) * page_size == k * page_size - page_size,
{
    assert(k * page_size >= 0) by (nonlinear_arith)
        requires
            k >= 0,
            page_size > 0,
    ;
    vstd::arithmetic::div_mod::lemma_fundamental_div_mod_converse(
        k * page_size,
        page_size,
        k,
        0,
    );
    assert((k + 1) * page_size == k * page_size + page_size) by (nonlinear_arith);
    assert((k - 1) * page_size == k * page_size - page_size) by (nonlinear_arith);
}

/// A page that starts in a region ends before the end of its last page.
proof fn lemma_next_page_fits(mapping: GuestRegionUffdMapping, page_size: nat, k: nat)
    requires
        page_size > 0,
        mapping.fits(page_size),
        k * page_size < mapping.size,
    ensures
        mapping.base_host_virt_addr + (k + 1) * page_size <= u64::MAX,
{
    let n = pages_for(mapping.size as nat, page_size);
    lemma_pages_for(mapping.size as nat, page_size, k);
    assert((k + 1) * page_size <= n * page_size) by (nonlinear_arith)
        requires
            k + 1 <= n,
    ;
}

/// A region of guest memory with the state of each of its pages.
#[derive(Debug)]
pub struct MemRegion {
    pub mapping: GuestRegionUffdMapping,
    /// The size of its pages.
    pub page_size: u64,
    /// The state of each page, by the address at which it starts.
    pub page_states: HashMap<u64, MemPageState>,
}

impl MemRegion {
    /// What holds of every region: it has a state for each page that starts in it, and for
    /// nothing else.
    pub open spec fn wf(&self) -> bool {
        &&& self.page_size > 0
        &&& self.mapping.fits(self.page_size as nat)
        &&& forall|addr: u64| #[trigger]
            self.page_states@.contains_key(addr) <==> self.mapping.has_page(
                self.page_size as nat,
                addr as nat,
            )
    }

    /// The state of the page that starts at `addr`; `None` where no page of the region does.
    pub open spec fn state_at(&self, addr: nat) -> Option<MemPageState> {
        if addr <= u64::MAX && self.page_states@.contains_key(addr as u64) {
            Some(self.page_states@[addr as u64])
        } else {
            None
        }
    }

    /// The end of a page of the region has an address.
    pub(crate) proof fn lemma_page_end(&self, addr: nat)
        requires
            self.wf(),
            self.state_at(addr) is Some,
        ensures
            self.mapping.base_host_virt_addr <= addr,
            addr + self.page_size <= u64::MAX,
    {
        let base = self.mapping.base_host_virt_addr as int;
        let p = self.page_size as int;
        assert(self.mapping.has_page(self.page_size as nat, (addr as u64) as nat));
        lemma_on_grid(base, p, 0, addr as int);
        let m = (addr - base) / p;
        vstd::arithmetic::div_mod::lemma_div_pos_is_pos(addr - base, p);
        lemma_next_page_fits(self.mapping, self.page_size as nat, m as nat);
        lemma_grid(p, m);
    }

    /// A region none of whose pages was touched.
    fn new(mapping: GuestRegionUffdMapping, page_size: u64) -> (region: Self)
        requires
            page_size > 0,
            mapping.fits(page_size as nat),
        ensures
            region.wf(),
            region.mapping == mapping,
            region.page_size == page_size,
            forall|addr: nat| #[trigger]
                region.state_at(addr) == if mapping.has_page(page_size as nat, addr) {
                    Some(MemPageState::Uninitialized)
                } else {
                    None
                },
    {
        broadcast use vstd::std_specs::hash::group_hash_axioms;

        let mut page_states: HashMap<u64, MemPageState> = HashMap::new();
        let mut addr: u64 = mapping.base_host_virt_addr;
        let ghost base = mapping.base_host_virt_addr as int;
        let ghost p = page_size as int;
        let ghost mut k: nat = 0;
        proof {
            let n = pages_for(mapping.size as nat, page_size as nat);
            lemma_pages_for(mapping.size as nat, page_size as nat, n);
        }
        let end_addr: u64 = mapping.base_host_virt_addr + mapping.size as u64;
        while addr < end_addr
            invariant
                vstd::std_specs::hash::obeys_key_model::<u64>(),
                vstd::std_specs::hash::builds_valid_hashers::<std::hash::RandomState>(),
                page_size > 0,
                mapping.fits(page_size as nat),
                base == mapping.base_host_virt_addr,
                p == page_size,
                end_addr == base + mapping.size,
                addr == base + k * p,
                k > 0 ==> addr - p < end_addr,
                forall|a: u64| #[trigger]
                    page_states@.contains_key(a) <==> base <= a < addr && (a - base) % p == 0,
                forall|a: u64| #[trigger]
                    page_states@.contains_key(a) ==> page_states@[a]
                        == MemPageState::Uninitialized,
            decreases u64::MAX - addr,
        {
            let ghost before = page_states@;
            proof {
                lemma_grid(p, k as int);
                lemma_next_page_fits(mapping, page_size as nat, k);
            }
            page_states.insert(addr, MemPageState::Uninitialized);
            proof {
                assert forall|a: u64| #[trigger]
                    page_states@.contains_key(a) <==> base <= a < addr + p && (a - base) % p == 0 by {
                    if base <= a && (a - base) % p == 0 {
                        lemma_on_grid(base, p, k as int, a as int);
                    }
                    assert(page_states@.contains_key(a) <==> before.contains_key(a) || a == addr);
                }
                k = k + 1;
            }
            addr = addr + page_size;
        }
        let region = MemRegion { mapping, page_size, page_states };
        proof {
            assert forall|a: u64| #[trigger]
                region.page_states@.contains_key(a) <==> mapping.has_page(
                    page_size as nat,
                    a as nat,
                ) by {
                if base <= a && (a - base) % p == 0 {
                    lemma_on_grid(base, p, k as int, a as int);
                    lemma_grid(p, k as int);
                }
            }
            assert forall|a: nat| #[trigger]
                region.state_at(a) == if mapping.has_page(page_size as nat, a) {
                    Some(MemPageState::Uninitialized)
                } else {
                    None
                } by {
                assert(region.page_states@.contains_key(a as u64) <==> mapping.has_page(
                    page_size as nat,
                    (a as u64) as nat,
                ));
            }
        }
        region
    }

    /// The state of the page that starts at `addr`.
    pub fn get(&self, addr: u64) -> (state: Option<MemPageState>)
        requires
            self.wf(),
        ensures
            state == self.state_at(addr as nat),
    {
        broadcast use vstd::std_specs::hash::group_hash_axioms;

        match self.page_states.get(&addr) {
            Some(state) => Some(*state),
            None => None,
        }
    }

    /// Gives all pages that start from `start` up to, but not at, `end` a new state.
    pub fn set_states(&mut self, start: u64, end: u64, state: MemPageState)
        requires
            old(self).wf(),
        ensures
            final(self).wf(),
            final(self).mapping == old(self).mapping,
            final(self).page_size == old(self).page_size,
            forall|addr: nat| #[trigger]
                final(self).state_at(addr) == if old(self).state_at(addr) is Some && start <= addr
                    < end {
                    Some(state)
                } else {
                    old(self).state_at(addr)
                },
    {
        broadcast use vstd::std_specs::hash::group_hash_axioms;

        let ghost before = *self;
        let ghost base = self.mapping.base_host_virt_addr as int;
        let ghost p = self.page_size as int;
        let ghost mut k: nat = 0;
        let mut addr: u64 = self.mapping.base_host_virt_addr;
        proof {
            let n = pages_for(self.mapping.size as nat, self.page_size as nat);
            lemma_pages_for(self.mapping.size as nat, self.page_size as nat, n);
        }
        let end_addr: u64 = self.mapping.base_host_virt_addr + self.mapping.size as u64;
        while addr < end_addr
            invariant
                vstd::std_specs::hash::obeys_key_model::<u64>(),
                vstd::std_specs::hash::builds_valid_hashers::<std::hash::RandomState>(),
                self.wf(),
                before.wf(),
                self.mapping == before.mapping,
                self.page_size == before.page_size,
                base == self.mapping.base_host_virt_addr,
                p == self.page_size,
                end_addr == base + self.mapping.size,
                addr == base + k * p,
                forall|a: u64| #[trigger]
                    self.page_states@.contains_key(a) ==> self.page_states@[a] == if a < addr
                        && start <= a < end {
                        state
                    } else {
                        before.page_states@[a]
                    },
            decreases u64::MAX - addr,
        {
            let ghost mid = self.page_states@;
            proof {
                lemma_grid(p, k as int);
                lemma_next_page_fits(self.mapping, self.page_size as nat, k);
                assert(mid.contains_key(addr));
            }
            if addr >= start && addr < end {
                self.page_states.insert(addr, state);
            }
            proof {
                assert forall|a: u64| #[trigger]
                    self.page_states@.contains_key(a) <==> self.mapping.has_page(
                        self.page_size as nat,
                        a as nat,
                    ) by {
                    assert(self.page_states@.contains_key(a) <==> mid.contains_key(a));
                }
                assert forall|a: u64| #[trigger]
                    self.page_states@.contains_key(a) implies self.page_states@[a] == if a < addr
                    + p && start <= a < end {
                    state
                } else {
                    before.page_states@[a]
                } by {
                    assert(mid.contains_key(a));
                    lemma_on_grid(base, p, k as int, a as int);
                }
                k = k + 1;
            }
            addr = addr + self.page_size;
        }
        proof {
            assert forall|a: nat| #[trigger]
                self.state_at(a) == if before.state_at(a) is Some && start <= a < end {
                    Some(state)
                } else {
                    before.state_at(a)
                } by {
                let key = a as u64;
                assert(self.page_states@.contains_key(key) <==> before.page_states@.contains_key(
                    key,
                ));
            }
        }
    }
}

/// Makes a region for each mapping, none of whose pages was touched.
pub fn create_mem_regions(mappings: &Vec<GuestRegionUffdMapping>, page_size: usize) -> (regions: Vec<
    MemRegion,
>)
    requires
        page_size > 0,
        forall|i: int| 0 <= i < mappings@.len() ==> (#[trigger] mappings@[i]).fits(page_size as nat),
    ensures
        regions@.len() == mappings@.len(),
        forall|i: int| 0 <= i < regions@.len() ==> (#[trigger] regions@[i]).wf(),
        forall|i: int|
            0 <= i < regions@.len() ==> (#[trigger] regions@[i]).mapping == mappings@[i]
                && regions@[i].page_size == page_size,
        forall|i: int, addr: nat|
            0 <= i < regions@.len() ==> (#[trigger] regions@[i].state_at(addr)) == if mappings@[i].has_page(
                page_size as nat,
                addr,
            ) {
                Some(MemPageState::Uninitialized)
            } else {
                None
            },
{
    let mut regions: Vec<MemRegion> = Vec::with_capacity(mappings.len());
    let mut i: usize = 0;
    while i < mappings.len()
        invariant
            page_size > 0,
            forall|j: int|
                0 <= j < mappings@.len() ==> (#[trigger] mappings@[j]).fits(page_size as nat),
            i <= mappings@.len(),
            regions@.len() == i,
            forall|j: int| 0 <= j < i ==> (#[trigger] regions@[j]).wf(),
            forall|j: int|
                0 <= j < i ==> (#[trigger] regions@[j]).mapping == mappings@[j]
                    && regions@[j].page_size == page_size,
            forall|j: int, addr: nat|
                0 <= j < i ==> (#[trigger] regions@[j].state_at(addr)) == if mappings@[j].has_page(
                    page_size as nat,
                    addr,
                ) {
                    Some(MemPageState::Uninitialized)
                } else {
                    None
                },
        decreases mappings@.len() - i,
    {
        assert(mappings@[i as int].fits(page_size as nat));
        regions.push(MemRegion::new(mappings[i], page_size as u64));
        i = i + 1;
    }
    regions
}

} // verus!

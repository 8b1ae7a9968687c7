//! Which bytes of saved memory go where: one page at a time, or all that is missing at once.

use vstd::prelude::*;

use super::page::PAGE_SIZE;

verus! {

/// The most bytes that one write moves.
pub const MAX_WRITE_SIZE: u64 = 2_147_479_552;

/// The pages in the most bytes that one write moves.
pub const MAX_WRITE_PAGES: u64 = 524_287;

/// Bytes to be moved: `len` of them, from the address `src` to the guest physical address `gpa`.
#[derive(Clone, Copy, Debug, PartialEq, Eq, Structural)]
pub struct Transfer {
    pub src: u64,
    pub gpa: u64,
    pub len: u64,
}

/// The transfer of the page frame with the number `gfn`, the saved memory being at
/// `backing_buffer`.
pub fn frame_transfer(backing_buffer: u64, gfn: u64) -> (transfer: Transfer)
    requires
        backing_buffer + gfn * PAGE_SIZE <= u64::MAX,
    ensures
        transfer.src == backing_buffer + gfn * PAGE_SIZE,
        transfer.gpa == gfn * PAGE_SIZE,
        transfer.len == PAGE_SIZE,
{
    let gpa: u64 = PAGE_SIZE * gfn;
    Transfer { src: backing_buffer + gpa, gpa, len: PAGE_SIZE }
}

/// The number of the page frame that a fault lies in, at the host address `useraddr` of a region
/// that starts at `region_base`.
pub fn event_frame(region_base: u64, useraddr: u64) -> (gfn: u64)
    requires
        region_base <= useraddr,
    ensures
        gfn == (useraddr - region_base) / PAGE_SIZE as int,
{
    (useraddr - region_base) / PAGE_SIZE
}

/// The transfer for a fault at the host address `useraddr` of a region that starts at
/// `region_base`. It goes to the page that the fault lies in, and comes from the saved byte of
/// the faulting address on: they agree where the address is that of a page, as it is where the
/// kernel reports faults by page.
pub fn event_transfer(backing_buffer: u64, region_base: u64, useraddr: u64) -> (transfer: Transfer)
    requires
        region_base <= useraddr,
        backing_buffer + (useraddr - region_base) <= u64::MAX,
    ensures
        transfer.src == backing_buffer + (useraddr - region_base),
        transfer.gpa == (useraddr - region_base) / PAGE_SIZE as int * PAGE_SIZE,
        transfer.len == PAGE_SIZE,
{
    let gpa: u64 = useraddr - region_base;
    let gfn: u64 = event_frame(region_base, useraddr);
    Transfer { src: backing_buffer + gpa, gpa: PAGE_SIZE * gfn, len: PAGE_SIZE }
}

/// Page frames to be filled by one write: `count` of them from `first` on.
#[derive(Clone, Copy, Debug, PartialEq, Eq, Structural)]
pub struct Chunk {
    pub first: u64,
    pub count: u64,
}

impl Chunk {
    /// The number after that of the last page frame.
    pub open spec fn end(self) -> int {
        self.first + self.count
    }

    /// Whether a page frame is among them.
    pub open spec fn has(self, page: int) -> bool {
        self.first <= page < self.end()
    }

    /// The transfer of the page frames, the saved memory being at `backing_buffer`.
    pub fn transfer(&self, backing_buffer: u64) -> (transfer: Transfer)
        requires
            backing_buffer + self.first * PAGE_SIZE <= u64::MAX,
            self.count * PAGE_SIZE <= u64::MAX,
        ensures
            transfer.src == backing_buffer + self.first * PAGE_SIZE,
            transfer.gpa == self.first * PAGE_SIZE,
            transfer.len == self.count * PAGE_SIZE,
    {
        let gpa: u64 = self.first * PAGE_SIZE;
        Transfer { src: backing_buffer + gpa, gpa, len: self.count * PAGE_SIZE }
    }
}

/// The chunks fill exactly the page frames that are missing, in order and each once, and each
/// is as long as it can be.
pub open spec fn is_plan(populated: Seq<bool>, chunks: Seq<Chunk>) -> bool {
    &&& forall|k: int|
        0 <= k < chunks.len() ==> {
            &&& 0 < (#[trigger] chunks[k]).count <= MAX_WRITE_PAGES
            &&& chunks[k].end() <= populated.len()
        }
    &&& forall|k: int, m: int|
        0 <= k < m < chunks.len() ==> (#[trigger] chunks[k]).end() <= (#[trigger] chunks[m]).first
    &&& forall|k: int, page: int|
        0 <= k < chunks.len() && #[trigger] chunks[k].has(page) ==> !populated[page]
    &&& forall|page: int|
        0 <= page < populated.len() && !(#[trigger] populated[page]) ==> in_chunks(chunks, page)
    &&& forall|k: int|
        0 <= k < chunks.len() ==> (#[trigger] chunks[k]).count == MAX_WRITE_PAGES || chunks[k].end()
            == populated.len() || populated[chunks[k].end()]
}

/// Whether a page frame is in one of the chunks.
pub open spec fn in_chunks(chunks: Seq<Chunk>, page: int) -> bool {
    exists|k: int| 0 <= k < chunks.len() && #[trigger] chunks[k].has(page)
}

/// Which page frames of a machine have been filled.
#[derive(Debug)]
pub struct FillMap {
    populated: Vec<bool>,
}

impl View for FillMap {
    type V = Seq<bool>;

    closed spec fn view(&self) -> Seq<bool> {
        self.populated@
    }
}

impl FillMap {
    /// The map of a machine with `pages` page frames, none of which has been filled.
    pub fn new(pages: usize) -> (map: Self)
        ensures
            map@ == Seq::new(pages as nat, |i: int| false),
    {
        let mut populated: Vec<bool> = Vec::new();
        let mut i: usize = 0;
        while i < pages
            invariant
                i <= pages,
                populated@ == Seq::new(i as nat, |i: int| false),
            decreases pages - i,
        {
            populated.push(false);
            i = i + 1;
            assert(populated@ =~= Seq::new(i as nat, |i: int| false));
        }
        FillMap { populated }
    }

    /// Takes a page frame for filled, and tells whether it was missing.
    pub fn fill(&mut self, gfn: usize) -> (missing: bool)
        requires
            gfn < old(self)@.len(),
        ensures
            missing == !old(self)@[gfn as int],
            final(self)@ == old(self)@.update(gfn as int, true),
    {
        let missing: bool = !self.populated[gfn];
        self.populated.set(gfn, true);
        missing
    }

    /// Takes all page frames for filled, and gives the chunks in which to fill those that were
    /// missing.
    pub fn fill_all(&mut self) -> (chunks: Vec<Chunk>)
        ensures
            is_plan(old(self)@, chunks@),
            final(self)@ == Seq::new(old(self)@.len(), |i: int| true),
    {
        let ghost before = self.populated@;
        let mut chunks: Vec<Chunk> = Vec::new();
        let n: usize = self.populated.len();
        let mut i: usize = 0;
        while i < n
            invariant
                i <= n,
                n == before.len(),
                self.populated@.len() == n,
                before == old(self)@,
                forall|p: int| 0 <= p < i ==> #[trigger] self.populated@[p],
                forall|p: int| i <= p < n ==> #[trigger] self.populated@[p] == before[p],
                forall|k: int|
                    0 <= k < chunks@.len() ==> {
                        &&& 0 < (#[trigger] chunks@[k]).count <= MAX_WRITE_PAGES
                        &&& chunks@[k].end() <= i
                    },
                forall|k: int, m: int|
                    0 <= k < m < chunks@.len() ==> (#[trigger] chunks@[k]).end() <= (
                    #[trigger] chunks@[m]).first,
                forall|k: int, page: int|
                    0 <= k < chunks@.len() && #[trigger] chunks@[k].has(page) ==> !before[page],
                forall|page: int|
                    0 <= page < i && !(#[trigger] before[page]) ==> in_chunks(chunks@, page),
                forall|k: int|
                    0 <= k < chunks@.len() ==> (#[trigger] chunks@[k]).count == MAX_WRITE_PAGES
                        || chunks@[k].end() == n || before[chunks@[k].end()],
            decreases n - i,
        {
            if self.populated[i] {
                i = i + 1;
            } else {
                let start: usize = i;
                while i < n && !self.populated[i] && ((i - start) as u64) < MAX_WRITE_PAGES
                    invariant
                        start <= i <= n,
                        i - start <= MAX_WRITE_PAGES,
                        n == before.len(),
                        self.populated@.len() == n,
                        forall|p: int| 0 <= p < i ==> #[trigger] self.populated@[p],
                        forall|p: int| i <= p < n ==> #[trigger] self.populated@[p] == before[p],
                        forall|p: int| start <= p < i ==> !(#[trigger] before[p]),
                    decreases n - i,
                {
                    self.populated.set(i, true);
                    i = i + 1;
                }
                assert(i > start);
                let ghost head = chunks@;
                let chunk = Chunk { first: start as u64, count: (i - start) as u64 };
                chunks.push(chunk);
                proof {
                    assert forall|page: int| 0 <= page < i && !(#[trigger] before[page]) implies in_chunks(
                        chunks@,
                        page,
                    ) by {
                        if page < start {
                            assert(in_chunks(head, page));
                            let k = choose|k: int| 0 <= k < head.len() && #[trigger] head[k].has(page);
                            assert(chunks@[k].has(page));
                        } else {
                            assert(chunks@[head.len() as int].has(page));
                        }
                    }
                }
            }
        }
        assert(self.populated@ =~= Seq::new(n as nat, |i: int| true));
        chunks
    }
}

} // verus!

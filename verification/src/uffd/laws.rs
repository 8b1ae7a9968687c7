//! What holds of page fault handling across its operations.

use vstd::arithmetic::power2::is_pow2;
use vstd::prelude::*;

use super::fill::{
    event_frame, event_transfer, frame_transfer, in_chunks, is_plan, Chunk, FillMap, Transfer,
    MAX_WRITE_PAGES, MAX_WRITE_SIZE,
};
use super::handler::{
    acceptable, action_for, first_with_page, in_range, only_states_set, total_size, FaultAction,
    FaultError, UffdHandler,
};
use super::page::{align_to_page, is_power_of_two, page_start, PAGE_SIZE};
use super::protocol::{
    async_fault_frame, be_bytes, be_value, classify_message, dispatch, encode_reply, frame_of,
    read_be, ready_left, skips_stream, MessageKind, Ready,
};
use super::region::{
    create_mem_regions, pages_for, GuestRegionUffdMapping, MemPageState, MemRegion,
};

verus! {

/// Reading a number gives back what writing it wrote.
pub proof fn law_number_roundtrip(value: u64)
    ensures
        be_bytes(value).len() == 8,
        be_value(be_bytes(value)) == value,
{
    let v1 = value / 0x100;
    let v2 = v1 / 0x100;
    let v3 = v2 / 0x100;
    let v4 = v3 / 0x100;
    let v5 = v4 / 0x100;
    let v6 = v5 / 0x100;
    let v7 = v6 / 0x100;
    assert(value / 0x1_0000 == v2);
    assert(value / 0x100_0000 == v3);
    assert(value / 0x1_0000_0000 == v4);
    assert(value / 0x100_0000_0000 == v5);
    assert(value / 0x1_0000_0000_0000 == v6);
    assert(value / 0x100_0000_0000_0000 == v7);
}

/// Each of the three numbers of a reply is found at its place.
pub proof fn law_reply_roundtrip(ack: u64, gpa: u64, len: u64)
    ensures
        ({
            let bytes = be_bytes(ack) + be_bytes(gpa) + be_bytes(len);
            &&& bytes.len() == 24
            &&& be_value(bytes.subrange(0, 8)) == ack
            &&& be_value(bytes.subrange(8, 16)) == gpa
            &&& be_value(bytes.subrange(16, 24)) == len
        }),
{
    let bytes = be_bytes(ack) + be_bytes(gpa) + be_bytes(len);
    assert(bytes.subrange(0, 8) =~= be_bytes(ack));
    assert(bytes.subrange(8, 16) =~= be_bytes(gpa));
    assert(bytes.subrange(16, 24) =~= be_bytes(len));
    law_number_roundtrip(ack);
    law_number_roundtrip(gpa);
    law_number_roundtrip(len);
}

/// Different numbers have different bytes.
pub proof fn law_numbers_differ_in_bytes(a: u64, b: u64)
    requires
        be_bytes(a) == be_bytes(b),
    ensures
        a == b,
{
    law_number_roundtrip(a);
    law_number_roundtrip(b);
}

/// There is only one plan for filling what is missing.
pub proof fn law_plan_is_unique(populated: Seq<bool>, a: Seq<Chunk>, b: Seq<Chunk>)
    requires
        is_plan(populated, a),
        is_plan(populated, b),
    ensures
        a == b,
{
    lemma_same_prefix(populated, a, b, a.len());
    lemma_same_prefix(populated, b, a, b.len());
    assert(a =~= b);
}

/// Where one chunk ends, or zero before the first: the next chunk starts with the first page
/// frame from there on that is missing.
spec fn reached(chunks: Seq<Chunk>, k: int) -> int {
    if k == 0 {
        0
    } else {
        chunks[k - 1].end()
    }
}

/// A chunk is the first to hold anything that is missing after the chunks before it.
proof fn lemma_chunk_is_next(populated: Seq<bool>, chunks: Seq<Chunk>, k: int, page: int)
    requires
        is_plan(populated, chunks),
        0 <= k <= chunks.len(),
        reached(chunks, k) <= page < populated.len(),
        !populated[page],
    ensures
        k < chunks.len(),
        chunks[k].first <= page,
        reached(chunks, k) <= chunks[k].first,
        !populated[chunks[k].first as int],
{
    assert(in_chunks(chunks, page));
    let m = choose|m: int| 0 <= m < chunks.len() && #[trigger] chunks[m].has(page);
    if m < k {
        if m < k - 1 {
            assert(chunks[m].end() <= chunks[k - 1].first);
            assert(chunks[k - 1].count > 0);
        }
        assert(false);
    }
    if k < m {
        assert(chunks[k].end() <= chunks[m].first);
    }
    if k > 0 {
        assert(chunks[k - 1].end() <= chunks[k].first);
    }
    assert(chunks[k].has(chunks[k].first as int));
}

/// Two plans agree in their first chunks.
proof fn lemma_same_prefix(populated: Seq<bool>, a: Seq<Chunk>, b: Seq<Chunk>, n: nat)
    requires
        is_plan(populated, a),
        is_plan(populated, b),
        n <= a.len(),
    ensures
        n <= b.len(),
        forall|k: int| 0 <= k < n ==> a[k] == b[k],
    decreases n,
{
    if n > 0 {
        let k = n - 1;
        lemma_same_prefix(populated, a, b, k as nat);
        assert(reached(a, k) == reached(b, k)) by {
            if k > 0 {
                assert(a[k - 1] == b[k - 1]);
            }
        }
        assert(0 < a[k].count);
        if k > 0 {
            assert(a[k - 1].end() <= a[k].first);
        }
        assert(a[k].has(a[k].first as int));
        lemma_chunk_is_next(populated, b, k, a[k].first as int);
        assert(0 < b[k].count);
        lemma_chunk_is_next(populated, a, k, b[k].first as int);
        assert(a[k].first == b[k].first);
        if a[k].count < b[k].count {
            assert(b[k].has(a[k].end()));
        }
        if b[k].count < a[k].count {
            assert(a[k].has(b[k].end()));
        }
    }
}

/// No write of a plan moves more bytes than one write can, and none runs past the guest's
/// memory.
pub proof fn law_plan_writes_fit(populated: Seq<bool>, chunks: Seq<Chunk>, k: int)
    requires
        is_plan(populated, chunks),
        0 <= k < chunks.len(),
    ensures
        0 < chunks[k].count * PAGE_SIZE <= MAX_WRITE_SIZE,
        (chunks[k].first + chunks[k].count) * PAGE_SIZE <= populated.len() * PAGE_SIZE,
{
    assert(0 < chunks[k].count <= MAX_WRITE_PAGES);
}

/// Where everything is there, there is nothing to fill.
pub proof fn law_nothing_missing_nothing_written(populated: Seq<bool>, chunks: Seq<Chunk>)
    requires
        is_plan(populated, chunks),
        forall|page: int| 0 <= page < populated.len() ==> #[trigger] populated[page],
    ensures
        chunks.len() == 0,
{
    if chunks.len() > 0 {
        assert(0 < chunks[0].count);
        assert(chunks[0].has(chunks[0].first as int));
    }
}

/// A page that faults again is served in the same way as before, filled from the saved memory or
/// with zeros, as long as at least one byte is filled at a time.
pub proof fn law_fault_repeats(
    before: Seq<MemRegion>,
    after: Seq<MemRegion>,
    backing_buffer: u64,
    page: nat,
    page_size: usize,
    len: usize,
    i: int,
)
    requires
        first_with_page(before, page, i),
        page <= u64::MAX,
        len > 0,
        page_size > 0,
        ({
            let a = action_for(before[i], backing_buffer, page, page_size, len);
            only_states_set(before, after, a.start(), a.end(), a.state())
        }),
    ensures
        first_with_page(after, page, i),
        after[i].state_at(page) == Some(
            action_for(before[i], backing_buffer, page, page_size, len).state(),
        ),
        action_for(after[i], backing_buffer, page, page_size, len) == action_for(
            before[i],
            backing_buffer,
            page,
            page_size,
            len,
        ),
{
    assert(after[i].mapping == before[i].mapping);
    assert(after[i].state_at(page) is Some);
    assert forall|j: int| 0 <= j < i implies (#[trigger] after[j]).state_at(page) is None by {
        assert(before[j].state_at(page) is None);
        assert(after[j].state_at(page) == before[j].state_at(page));
    }
}

/// A page that was given back to the host is never filled from the saved memory: a fault on it
/// asks for zeros.
pub proof fn law_removed_page_is_zeroed(
    before: Seq<MemRegion>,
    after: Seq<MemRegion>,
    start: nat,
    end: nat,
    backing_buffer: u64,
    page: nat,
    page_size: usize,
    len: usize,
    i: int,
)
    requires
        only_states_set(before, after, start, end, MemPageState::Removed),
        start <= page < end,
        first_with_page(before, page, i),
    ensures
        first_with_page(after, page, i),
        action_for(after[i], backing_buffer, page, page_size, len) == (FaultAction::ZeroPage {
            addr: page as u64,
            len: page_size,
        }),
{
    assert(after[i].state_at(page) == Some(MemPageState::Removed));
    assert forall|j: int| 0 <= j < i implies (#[trigger] after[j]).state_at(page) is None by {
        assert(before[j].state_at(page) is None);
        assert(after[j].state_at(page) == before[j].state_at(page));
    }
}

/// A copy brings to a page the saved bytes that belong there: as far into the region's part of
/// the saved memory as the page is into the region.
pub proof fn law_copy_source(
    region: MemRegion,
    backing_buffer: u64,
    page: nat,
    page_size: usize,
    len: usize,
)
    requires
        region.wf(),
        region.state_at(page) is Some,
        backing_buffer + region.mapping.offset + (page - region.mapping.base_host_virt_addr)
            <= u64::MAX,
    ensures
        action_for(region, backing_buffer, page, page_size, len) matches FaultAction::Copy {
            src,
            dst,
            len: n,
        } ==> {
            &&& dst == page
            &&& n == len
            &&& src - backing_buffer - region.mapping.offset == dst
                - region.mapping.base_host_virt_addr
        },
{
    region.lemma_page_end(page);
}

/// An address lies in its page: the page starts at or before it, ends after it, and starts at a
/// multiple of the page size.
pub proof fn law_page_start(addr: nat, page_size: nat)
    requires
        page_size > 0,
    ensures
        page_start(addr, page_size) <= addr < page_start(addr, page_size) + page_size,
        page_start(addr, page_size) % page_size == 0,
{
    let a = addr as int;
    let p = page_size as int;
    let q = a / p;
    vstd::arithmetic::div_mod::lemma_fundamental_div_mod(a, p);
    vstd::arithmetic::div_mod::lemma_mod_bound(a, p);
    vstd::arithmetic::div_mod::lemma_div_pos_is_pos(a, p);
    assert(0 <= q * p == p * q) by (nonlinear_arith)
        requires
            q >= 0,
            p > 0,
    ;
    vstd::arithmetic::div_mod::lemma_fundamental_div_mod_converse(q * p, p, q, 0);
}

/// The pages of a region are enough for its bytes, and one fewer would not be.
pub proof fn law_pages_for(size: nat, page_size: nat)
    requires
        page_size > 0,
    ensures
        size <= pages_for(size, page_size) * page_size < size + page_size,
{
    let p = page_size as int;
    let n = pages_for(size, page_size) as int;
    vstd::arithmetic::div_mod::lemma_fundamental_div_mod(size + p - 1, p);
    vstd::arithmetic::div_mod::lemma_mod_bound(size + p - 1, p);
    vstd::arithmetic::div_mod::lemma_div_pos_is_pos(size + p - 1, p);
    assert(n * p == p * n) by (nonlinear_arith);
}

/// The pages of a region follow each other from its base on: the one after `k` others starts `k`
/// page sizes after the base, and is there exactly if it starts before the end; and nothing else
/// is the start of a page.
pub proof fn law_pages_of_region(
    mapping: GuestRegionUffdMapping,
    page_size: nat,
    k: nat,
    addr: nat,
)
    requires
        page_size > 0,
    ensures
        mapping.has_page(page_size, (mapping.base_host_virt_addr + k * page_size) as nat)
            <==> k * page_size < mapping.size,
        mapping.has_page(page_size, addr) <==> mapping.base_host_virt_addr <= addr
            < mapping.base_host_virt_addr + mapping.size && (addr - mapping.base_host_virt_addr)
            % page_size as int == 0,
{
    let p = page_size as int;
    assert(k * p >= 0) by (nonlinear_arith)
        requires
            k >= 0,
            p > 0,
    ;
    vstd::arithmetic::div_mod::lemma_fundamental_div_mod_converse(k * p, p, k as int, 0);
}

/// A region fits exactly if the end of its last page, which is the first multiple of the page size
/// after the base that is not before the end of its bytes, is an address.
pub proof fn law_fits(mapping: GuestRegionUffdMapping, page_size: nat, pages: nat)
    requires
        page_size > 0,
        mapping.size <= pages * page_size < mapping.size + page_size,
    ensures
        mapping.fits(page_size) <==> mapping.base_host_virt_addr + pages * page_size <= u64::MAX,
{
    let n = pages_for(mapping.size as nat, page_size);
    law_pages_for(mapping.size as nat, page_size);
    assert(n == pages) by (nonlinear_arith)
        requires
            mapping.size <= pages * page_size < mapping.size + page_size,
            mapping.size <= n * page_size < mapping.size + page_size,
            page_size > 0,
    ;
}

/// In a valid region exactly the starts of its pages have a state, and each has one.
pub proof fn law_state_at(region: MemRegion, addr: nat)
    requires
        region.wf(),
    ensures
        region.page_size > 0,
        region.state_at(addr) is Some <==> region.mapping.base_host_virt_addr <= addr
            < region.mapping.base_host_virt_addr + region.mapping.size && (addr
            - region.mapping.base_host_virt_addr) % region.page_size as int == 0,
        region.state_at(addr) matches Some(state) ==> addr <= u64::MAX
            && region.page_states@[addr as u64] == state,
{
    law_pages_for(region.mapping.size as nat, region.page_size as nat);
    if addr <= u64::MAX {
        assert(region.page_states@.contains_key(addr as u64) <==> region.mapping.has_page(
            region.page_size as nat,
            (addr as u64) as nat,
        ));
    }
}

/// The sizes of the regions are added up.
pub proof fn law_total_size(mappings: Seq<GuestRegionUffdMapping>, more: GuestRegionUffdMapping)
    ensures
        total_size(Seq::empty()) == 0,
        total_size(mappings.push(more)) == total_size(mappings) + more.size,
{
    assert(mappings.push(more).drop_last() =~= mappings);
}

/// The total of two lists of regions is that of the one and that of the other.
pub proof fn law_total_size_of_both(
    a: Seq<GuestRegionUffdMapping>,
    b: Seq<GuestRegionUffdMapping>,
)
    ensures
        total_size(a + b) == total_size(a) + total_size(b),
    decreases b.len(),
{
    if b.len() == 0 {
        assert(a + b =~= a);
    } else {
        law_total_size_of_both(a, b.drop_last());
        assert((a + b).drop_last() =~= a + b.drop_last());
    }
}

/// Mappings are accepted whenever there is one at least, their sizes add up to that of the saved
/// memory, the page size of the first is a power of two, and each region's last page, where
/// `pages[i]` pages hold region `i`, ends at an address.
pub proof fn law_mappings_are_accepted(
    mappings: Seq<GuestRegionUffdMapping>,
    size: usize,
    pages: Seq<nat>,
)
    requires
        mappings.len() > 0,
        total_size(mappings) == size,
        is_pow2(mappings[0].page_size_kib as int),
        pages.len() == mappings.len(),
        forall|i: int|
            0 <= i < mappings.len() ==> {
                &&& (#[trigger] mappings[i]).size <= pages[i] * mappings[0].page_size_kib
                    < mappings[i].size + mappings[0].page_size_kib
                &&& mappings[i].base_host_virt_addr + pages[i] * mappings[0].page_size_kib
                    <= u64::MAX
            },
    ensures
        acceptable(mappings, size),
{
    reveal(is_pow2);
    assert forall|i: int| 0 <= i < mappings.len() implies (#[trigger] mappings[i]).fits(
        mappings[0].page_size_kib as nat,
    ) by {
        law_fits(mappings[i], mappings[0].page_size_kib as nat, pages[i]);
    }
}

/// Mappings that are accepted are one at least, add up to the saved memory, have a power of two
/// for page size, and end at addresses.
pub proof fn law_accepted_mappings(mappings: Seq<GuestRegionUffdMapping>, size: usize, i: int)
    requires
        acceptable(mappings, size),
        0 <= i < mappings.len(),
    ensures
        mappings.len() > 0,
        total_size(mappings) == size,
        is_pow2(mappings[0].page_size_kib as int),
        mappings[i].base_host_virt_addr + mappings[i].size <= u64::MAX,
{
    reveal(is_pow2);
    assert(mappings[i].fits(mappings[0].page_size_kib as nat));
    law_pages_for(mappings[i].size as nat, mappings[0].page_size_kib as nat);
}

/// The region that serves a page is one that has it, and none that has it comes before; so there
/// is one exactly if any region has the page, and only one.
pub proof fn law_serving_region(regions: Seq<MemRegion>, page: nat, i: int, j: int)
    requires
        0 <= j < regions.len(),
        regions[j].state_at(page) is Some,
    ensures
        first_with_page(regions, page, i) ==> 0 <= i <= j && regions[i].state_at(page) is Some,
        first_with_page(regions, page, i) && first_with_page(regions, page, j) ==> i == j,
        exists|k: int| first_with_page(regions, page, k),
    decreases j,
{
    if forall|k: int| 0 <= k < j ==> (#[trigger] regions[k]).state_at(page) is None {
        assert(first_with_page(regions, page, j));
    } else {
        let k = choose|k: int| 0 <= k < j && (#[trigger] regions[k]).state_at(page) is Some;
        law_serving_region(regions, page, i, k);
    }
}

/// What a fault asks for. A page that was never touched, or was filled from the saved memory, is
/// copied from there, from as far into the region's part of it as the page is into the region. A
/// page that was given back, or was filled with zeros, is filled with zeros.
pub proof fn law_fault_action(
    region: MemRegion,
    backing_buffer: u64,
    page: nat,
    page_size: usize,
    len: usize,
)
    requires
        region.wf(),
        region.state_at(page) is Some,
    ensures
        ({
            let state = region.state_at(page)->0;
            let from_file = state == MemPageState::Uninitialized || state == MemPageState::FromFile;
            let source = backing_buffer + region.mapping.offset + (page
                - region.mapping.base_host_virt_addr);
            let action = action_for(region, backing_buffer, page, page_size, len);
            &&& action is Copy <==> from_file
            &&& action is ZeroPage <==> state == MemPageState::Removed || state
                == MemPageState::Anonymous
            &&& action matches FaultAction::Copy { src, dst, len: n } ==> dst == page && n == len && (
            source <= u64::MAX ==> src == source)
            &&& action matches FaultAction::ZeroPage { addr, len: n } ==> addr == page && n
                == page_size
            &&& in_range(region, backing_buffer, page, len) <==> (from_file ==> source <= u64::MAX
                && page + len <= u64::MAX)
        }),
{
    law_state_at(region, page);
    region.lemma_page_end(page);
}

/// What an action fills: a copy the bytes from its destination on, which are then from the file,
/// and a zeroing the bytes from its address on, which are then anonymous.
pub proof fn law_action_extent(src: u64, addr: u64, len: usize)
    ensures
        (FaultAction::Copy { src, dst: addr, len }).start() == addr,
        (FaultAction::Copy { src, dst: addr, len }).end() == addr + len,
        (FaultAction::Copy { src, dst: addr, len }).state() == MemPageState::FromFile,
        (FaultAction::ZeroPage { addr, len }).start() == addr,
        (FaultAction::ZeroPage { addr, len }).end() == addr + len,
        (FaultAction::ZeroPage { addr, len }).state() == MemPageState::Anonymous,
{
}

/// When states are set, a page that starts in the range has the new state, any other has the one
/// it had, what is no page has none, and the regions are otherwise what they were.
pub proof fn law_states_set(
    before: Seq<MemRegion>,
    after: Seq<MemRegion>,
    start: nat,
    end: nat,
    state: MemPageState,
    i: int,
    addr: nat,
)
    requires
        only_states_set(before, after, start, end, state),
        0 <= i < before.len(),
    ensures
        after.len() == before.len(),
        after[i].mapping == before[i].mapping,
        after[i].page_size == before[i].page_size,
        after[i].state_at(addr) is Some <==> before[i].state_at(addr) is Some,
        before[i].state_at(addr) is Some && start <= addr < end ==> after[i].state_at(addr)
            == Some(state),
        addr < start || addr >= end ==> after[i].state_at(addr) == before[i].state_at(addr),
{
    assert(after[i].mapping == before[i].mapping);
    assert(after[i].state_at(addr) is Some <==> before[i].state_at(addr) is Some);
}

/// The page frame of an address is the one it lies in.
pub proof fn law_frame_of(gpa: int)
    ensures
        frame_of(gpa) * 4096 <= gpa < (frame_of(gpa) + 1) * 4096,
        PAGE_SIZE == 4096,
{
}

/// The bytes of a number are its digits to the base 256, the first the most significant.
pub proof fn law_most_significant_byte_first(bytes: Seq<u8>)
    requires
        bytes.len() == 8,
    ensures
        0 <= be_value(bytes) <= u64::MAX,
        be_value(bytes) / 0x100_0000_0000_0000 == bytes[0],
        be_value(bytes) / 0x1_0000_0000_0000 % 0x100 == bytes[1],
        be_value(bytes) / 0x100_0000_0000 % 0x100 == bytes[2],
        be_value(bytes) / 0x1_0000_0000 % 0x100 == bytes[3],
        be_value(bytes) / 0x100_0000 % 0x100 == bytes[4],
        be_value(bytes) / 0x1_0000 % 0x100 == bytes[5],
        be_value(bytes) / 0x100 % 0x100 == bytes[6],
        be_value(bytes) % 0x100 == bytes[7],
{
    let v0 = bytes[0] as int;
    let v1 = v0 * 0x100 + bytes[1];
    let v2 = v1 * 0x100 + bytes[2];
    let v3 = v2 * 0x100 + bytes[3];
    let v4 = v3 * 0x100 + bytes[4];
    let v5 = v4 * 0x100 + bytes[5];
    let v6 = v5 * 0x100 + bytes[6];
    let v = be_value(bytes);
    assert(v == v6 * 0x100 + bytes[7]);
    assert(v / 0x100 == v6);
    assert(v / 0x1_0000 == v5);
    assert(v / 0x100_0000 == v4);
    assert(v / 0x1_0000_0000 == v3);
    assert(v / 0x100_0000_0000 == v2);
    assert(v / 0x1_0000_0000_0000 == v1);
    assert(v / 0x100_0000_0000_0000 == v0);
}

/// Writing a number gives back the bytes that it was read from.
pub proof fn law_bytes_roundtrip(bytes: Seq<u8>)
    requires
        bytes.len() == 8,
    ensures
        be_bytes(be_value(bytes) as u64) == bytes,
{
    law_most_significant_byte_first(bytes);
    assert(be_bytes(be_value(bytes) as u64) =~= bytes);
}

/// A plan in terms of page frames: one that is missing is in a chunk and in no other, one that is
/// there is in none, chunks come in the order of their page frames, and each ends at a page frame
/// that is there, at the end of memory, or at the most that one write moves.
pub proof fn law_plan_covers_what_is_missing(
    populated: Seq<bool>,
    chunks: Seq<Chunk>,
    page: int,
    k: int,
    m: int,
)
    requires
        is_plan(populated, chunks),
        0 <= page < populated.len(),
        0 <= k < chunks.len(),
        0 <= m < chunks.len(),
    ensures
        !populated[page] <==> exists|j: int|
            0 <= j < chunks.len() && (#[trigger] chunks[j]).first <= page < chunks[j].first
                + chunks[j].count,
        chunks[k].first <= page < chunks[k].first + chunks[k].count && chunks[m].first <= page
            < chunks[m].first + chunks[m].count ==> k == m,
        k < m ==> chunks[k].first + chunks[k].count <= chunks[m].first,
        1 <= chunks[k].count <= 524_287,
        chunks[k].first + chunks[k].count <= populated.len(),
        chunks[k].count == 524_287 || chunks[k].first + chunks[k].count == populated.len()
            || populated[chunks[k].first + chunks[k].count],
{
    if !populated[page] {
        assert(in_chunks(chunks, page));
        let j = choose|j: int| 0 <= j < chunks.len() && #[trigger] chunks[j].has(page);
        assert(chunks[j].first <= page < chunks[j].first + chunks[j].count);
    } else {
        assert forall|j: int| 0 <= j < chunks.len() implies !((#[trigger] chunks[j]).first <= page
            < chunks[j].first + chunks[j].count) by {
            if chunks[j].first <= page < chunks[j].first + chunks[j].count {
                assert(chunks[j].has(page));
            }
        }
    }
    assert(0 < chunks[k].count <= MAX_WRITE_PAGES);
    if k < m {
        assert(chunks[k].end() <= chunks[m].first);
    }
    if m < k {
        assert(chunks[m].end() <= chunks[k].first);
    }
    assert(chunks[k].count == MAX_WRITE_PAGES || chunks[k].end() == populated.len()
        || populated[chunks[k].end()]);
}

/// A plan without chunks is one for memory that lacks nothing.
pub proof fn law_empty_plan(populated: Seq<bool>, chunks: Seq<Chunk>, page: int)
    requires
        is_plan(populated, chunks),
        chunks.len() == 0,
        0 <= page < populated.len(),
    ensures
        populated[page],
{
    if !populated[page] {
        assert(in_chunks(chunks, page));
    }
}

/// The most bytes that one write moves are whole pages.
pub proof fn law_write_limit()
    ensures
        MAX_WRITE_SIZE == 2_147_479_552,
        MAX_WRITE_PAGES * 4096 == MAX_WRITE_SIZE,
{
}

/// The call `read_be` gives the number whose digits to the base 256 the bytes are, and no two
/// different runs of eight bytes give the same.
pub proof fn law_calls_of_read_be(a: &[u8], b: &[u8], x: u64, y: u64)
    requires
        a@.len() == 8,
        b@.len() == 8,
        call_ensures(read_be, (a,), x),
        call_ensures(read_be, (b,), y),
    ensures
        x == a@[0] * 0x100_0000_0000_0000 + a@[1] * 0x1_0000_0000_0000 + a@[2] * 0x100_0000_0000
            + a@[3] * 0x1_0000_0000 + a@[4] * 0x100_0000 + a@[5] * 0x1_0000 + a@[6] * 0x100 + a@[7],
        x == y <==> a@ == b@,
{
    law_bytes_roundtrip(a@);
    law_bytes_roundtrip(b@);
}

/// The numbers that are read from the three parts of a reply are those that it was made of.
pub proof fn law_reply_is_read_back(
    ack: u64,
    gpa: u64,
    len: u64,
    bytes: Vec<u8>,
    part: &[u8],
    k: int,
    value: u64,
)
    requires
        call_ensures(encode_reply, (ack, gpa, len), bytes),
        0 <= k < 3,
        part@ == bytes@.subrange(8 * k, 8 * k + 8),
        call_ensures(read_be, (part,), value),
    ensures
        bytes@.len() == 24,
        value == if k == 0 {
            ack
        } else if k == 1 {
            gpa
        } else {
            len
        },
{
    law_reply_roundtrip(ack, gpa, len);
}

/// A message with a descriptor is about a new machine whatever its bytes are; without one, eight
/// bytes are the address of a byte in the page frame that is told, and no other number of bytes is
/// a message.
pub proof fn law_call_of_classify_message(
    first_fd: i32,
    bytes: &[u8],
    kind: MessageKind,
    gpa: u64,
)
    requires
        call_ensures(classify_message, (first_fd, bytes), kind),
        bytes@.len() == 8 ==> call_ensures(read_be, (bytes,), gpa),
    ensures
        kind is NewConnection <==> first_fd != 0,
        kind is Malformed <==> first_fd == 0 && bytes@.len() != 8,
        kind is Gfn <==> first_fd == 0 && bytes@.len() == 8,
        kind matches MessageKind::Gfn(gfn) ==> gfn * 4096 <= gpa < gfn * 4096 + 4096,
{
}

/// The page frame of an asynchronous fault is the one that the low half of the event lies in; the
/// high half does not matter.
pub proof fn law_calls_of_async_fault_frame(low: u32, high_a: u32, high_b: u32, a: u64, b: u64)
    requires
        call_ensures(async_fault_frame, ((high_a * 0x1_0000_0000 + low) as u64,), a),
        call_ensures(async_fault_frame, ((high_b * 0x1_0000_0000 + low) as u64,), b),
    ensures
        a * 4096 <= low < a * 4096 + 4096,
        a == b,
{
    let x = (high_a * 0x1_0000_0000 + low) as int;
    let y = (high_b * 0x1_0000_0000 + low) as int;
    vstd::arithmetic::div_mod::lemma_fundamental_div_mod_converse(
        x,
        0x1_0000_0000,
        high_a as int,
        low as int,
    );
    vstd::arithmetic::div_mod::lemma_fundamental_div_mod_converse(
        y,
        0x1_0000_0000,
        high_b as int,
        low as int,
    );
}

/// A fault that is told by its guest physical address, in a message or as the low half of an event,
/// is answered with the page frame that the address lies in, and with its saved bytes.
pub proof fn law_frame_of_a_message_is_transferred(
    bytes: &[u8],
    gpa: u64,
    gfn: u64,
    backing_buffer: u64,
    transfer: Transfer,
)
    requires
        bytes@.len() == 8,
        call_ensures(read_be, (bytes,), gpa),
        call_ensures(classify_message, (0i32, bytes), MessageKind::Gfn(gfn)),
        backing_buffer + gfn * 4096 <= u64::MAX,
        call_ensures(frame_transfer, (backing_buffer, gfn), transfer),
    ensures
        transfer.gpa <= gpa < transfer.gpa + transfer.len,
        transfer.src - backing_buffer == transfer.gpa,
        transfer.gpa % 4096 == 0,
        transfer.len == 4096,
{
}

/// What a descriptor asks for: a hangup goes before everything else, then that there is nothing to
/// read, and what there is to read goes by whose descriptor it is.
pub proof fn law_call_of_dispatch(
    hangup: bool,
    readable: bool,
    fd: i32,
    stream_fd: i32,
    apf_fd: i32,
    ready: Ready,
)
    requires
        call_ensures(dispatch, (hangup, readable, fd, stream_fd, apf_fd), ready),
    ensures
        ready is Hangup <==> hangup,
        ready is Idle <==> !hangup && !readable,
        ready is Message <==> !hangup && readable && fd == stream_fd,
        ready is AsyncFault <==> !hangup && readable && fd != stream_fd && fd == apf_fd,
        ready is Event <==> !hangup && readable && fd != stream_fd && fd != apf_fd,
{
}

/// A descriptor that was served is one of those that the poll counted; an idle one, and one that
/// has hung up, is not.
pub proof fn law_call_of_ready_left(ready_count: i32, ready: Ready, left: i32)
    requires
        ready_count > 0,
        call_ensures(ready_left, (ready_count, ready), left),
    ensures
        left >= 0,
        left == ready_count || left + 1 == ready_count,
        left + 1 == ready_count <==> ready is Message || ready is AsyncFault || ready is Event,
{
}

/// The monitor's socket is left out only after a new machine, and then exactly if it was closed.
pub proof fn law_call_of_skips_stream(
    new_connection: bool,
    read_hangup: bool,
    hangup: bool,
    skip: bool,
)
    requires
        call_ensures(skips_stream, (new_connection, read_hangup, hangup), skip),
    ensures
        skip ==> new_connection,
        skip ==> read_hangup || hangup,
        new_connection && read_hangup ==> skip,
        new_connection && hangup ==> skip,
{
}

/// The bytes of a page frame are as far into the saved memory as they are into the guest's.
pub proof fn law_call_of_frame_transfer(backing_buffer: u64, gfn: u64, transfer: Transfer)
    requires
        backing_buffer + gfn * 4096 <= u64::MAX,
        call_ensures(frame_transfer, (backing_buffer, gfn), transfer),
    ensures
        transfer.gpa == gfn * 4096,
        transfer.src - backing_buffer == transfer.gpa,
        transfer.len == 4096,
{
}

/// A fault in a region is in the page frame that is told, goes to that page frame, and comes from
/// as far into the saved memory as it is into the region. Where it is at the start of a page it is
/// transferred as the page frame is.
pub proof fn law_calls_for_an_event(
    backing_buffer: u64,
    region_base: u64,
    useraddr: u64,
    gfn: u64,
    transfer: Transfer,
    of_frame: Transfer,
)
    requires
        region_base <= useraddr,
        backing_buffer + (useraddr - region_base) <= u64::MAX,
        call_ensures(event_frame, (region_base, useraddr), gfn),
        call_ensures(event_transfer, (backing_buffer, region_base, useraddr), transfer),
        call_ensures(frame_transfer, (backing_buffer, gfn), of_frame),
    ensures
        gfn * 4096 <= useraddr - region_base < gfn * 4096 + 4096,
        transfer.gpa == gfn * 4096,
        transfer.len == 4096,
        transfer.src - backing_buffer == useraddr - region_base,
        (useraddr - region_base) % 4096 == 0 ==> transfer == of_frame,
{
}

/// The transfer of a chunk is that of its page frames: it starts where that of the first does and
/// is a page long for each.
pub proof fn law_call_of_chunk_transfer(chunk: Chunk, backing_buffer: u64, transfer: Transfer)
    requires
        backing_buffer + chunk.first * 4096 <= u64::MAX,
        chunk.count * 4096 <= u64::MAX,
        call_ensures(Chunk::transfer, (&chunk, backing_buffer), transfer),
    ensures
        transfer.gpa == chunk.first * 4096,
        transfer.src - backing_buffer == transfer.gpa,
        transfer.len == chunk.count * 4096,
{
}

/// A new map lacks all of its page frames.
pub proof fn law_call_of_new_map(pages: usize, map: FillMap)
    requires
        call_ensures(FillMap::new, (pages,), map),
    ensures
        map@.len() == pages,
        forall|i: int| 0 <= i < pages ==> !(#[trigger] map@[i]),
{
}

/// A page frame is missing until it is filled, is not missing afterwards, and the others are as they
/// were.
pub proof fn law_calls_of_fill(
    map: &mut FillMap,
    gfn: usize,
    missing: bool,
    again: &mut FillMap,
    still_missing: bool,
    other: int,
)
    requires
        gfn < old(map)@.len(),
        call_ensures(FillMap::fill, (map, gfn), missing),
        old(again)@ == final(map)@,
        call_ensures(FillMap::fill, (again, gfn), still_missing),
        0 <= other < old(map)@.len(),
    ensures
        missing <==> !old(map)@[gfn as int],
        !still_missing,
        final(map)@.len() == old(map)@.len(),
        final(map)@[gfn as int],
        other != gfn ==> final(map)@[other] == old(map)@[other],
        final(again)@ == final(map)@,
{
    assert(final(again)@ =~= final(map)@);
}

/// Filling all at once fills exactly what is missing: a page frame is in a chunk exactly if it was
/// missing, and in one only; the chunks are in order, none is empty or more than one write can
/// move; nothing is missing afterwards; and filling all again finds nothing to fill.
pub proof fn law_calls_of_fill_all(
    map: &mut FillMap,
    chunks: Vec<Chunk>,
    again: &mut FillMap,
    none: Vec<Chunk>,
    page: int,
    k: int,
    m: int,
)
    requires
        call_ensures(FillMap::fill_all, (map,), chunks),
        old(again)@ == final(map)@,
        call_ensures(FillMap::fill_all, (again,), none),
        0 <= page < old(map)@.len(),
    ensures
        final(map)@.len() == old(map)@.len(),
        final(map)@[page],
        none@.len() == 0,
        !old(map)@[page] <==> exists|j: int|
            0 <= j < chunks@.len() && (#[trigger] chunks@[j]).first <= page < chunks@[j].first
                + chunks@[j].count,
        0 <= k < m < chunks@.len() ==> chunks@[k].first + chunks@[k].count <= chunks@[m].first,
        0 <= k < chunks@.len() ==> 1 <= chunks@[k].count && chunks@[k].count * 4096
            <= 2_147_479_552 && chunks@[k].first + chunks@[k].count <= old(map)@.len(),
{
    law_nothing_missing_nothing_written(old(again)@, none@);
    if chunks@.len() == 0 {
        law_empty_plan(old(map)@, chunks@, page);
    } else if 0 <= k < m < chunks@.len() {
        law_plan_covers_what_is_missing(old(map)@, chunks@, page, k, m);
    } else if 0 <= k < chunks@.len() {
        law_plan_covers_what_is_missing(old(map)@, chunks@, page, k, k);
    } else {
        law_plan_covers_what_is_missing(old(map)@, chunks@, page, 0, 0);
    }
}

/// An aligned address is the start of the page that the address lies in, and aligning it again
/// changes nothing.
pub proof fn law_calls_of_align_to_page(addr: u64, page_size: u64, start: u64, again: u64)
    requires
        is_pow2(page_size as int),
        call_ensures(align_to_page, (addr, page_size), start),
        call_ensures(align_to_page, (start, page_size), again),
    ensures
        start <= addr < start + page_size,
        start % page_size == 0,
        again == start,
{
}

/// A number is a power of two exactly if it is one or is twice a power of two.
pub proof fn law_calls_of_is_power_of_two(n: usize, yes: bool, half: bool)
    requires
        call_ensures(is_power_of_two, (n,), yes),
        call_ensures(is_power_of_two, ((n / 2) as usize,), half),
    ensures
        n == 0 ==> !yes,
        n == 1 ==> yes,
        n > 1 ==> (yes <==> n % 2 == 0 && half),
{
    reveal(is_pow2);
}

/// Each mapping has its region, none of whose pages was touched: a page starts at each multiple of
/// the page size from the base on that is before the end, and nowhere else.
pub proof fn law_call_of_create_mem_regions(
    mappings: Vec<GuestRegionUffdMapping>,
    page_size: usize,
    regions: Vec<MemRegion>,
    i: int,
    addr: nat,
)
    requires
        page_size > 0,
        call_ensures(create_mem_regions, (&mappings, page_size), regions),
        0 <= i < mappings@.len(),
    ensures
        regions@.len() == mappings@.len(),
        regions@[i].wf(),
        regions@[i].mapping == mappings@[i],
        regions@[i].page_size == page_size,
        regions@[i].state_at(addr) == if mappings@[i].base_host_virt_addr <= addr
            < mappings@[i].base_host_virt_addr + mappings@[i].size && (addr
            - mappings@[i].base_host_virt_addr) % page_size as int == 0 {
            Some(MemPageState::Uninitialized)
        } else {
            None
        },
{
    law_pages_of_region(mappings@[i], page_size as nat, 0, addr);
    assert(regions@[i].wf());
    assert(regions@[i].mapping == mappings@[i]);
}

/// What is read of a page after states were set is the new state where its start is in the range,
/// and what was read before where it is not; and nothing becomes a page or ceases to be one.
pub proof fn law_calls_of_get_and_set_states(
    region: &mut MemRegion,
    start: u64,
    end: u64,
    state: MemPageState,
    addr: u64,
    before: Option<MemPageState>,
    after: Option<MemPageState>,
)
    requires
        old(region).wf(),
        call_ensures(MemRegion::get, (&*old(region), addr), before),
        call_ensures(MemRegion::set_states, (region, start, end, state), ()),
        call_ensures(MemRegion::get, (&*final(region), addr), after),
    ensures
        final(region).wf(),
        final(region).mapping == old(region).mapping,
        final(region).page_size == old(region).page_size,
        before is Some <==> {
            let mapping = old(region).mapping;
            &&& mapping.base_host_virt_addr <= addr < mapping.base_host_virt_addr + mapping.size
            &&& (addr - mapping.base_host_virt_addr) % old(region).page_size as int == 0
        },
        after is Some <==> before is Some,
        before is Some && start <= addr < end ==> after == Some(state),
        addr < start || addr >= end ==> after == before,
{
    law_state_at(*old(region), addr as nat);
    assert(final(region).state_at(addr as nat) is Some <==> old(region).state_at(
        addr as nat,
    ) is Some);
}

/// A handler is made exactly if there is a mapping, the sizes add up to that of the saved memory,
/// the page size of the first is a power of two, and each region's last page, where `pages[i]` pages
/// hold region `i`, ends at an address. How large the sizes, the addresses or the offsets are does
/// not matter otherwise.
pub proof fn law_call_of_from_mappings(
    mappings: Vec<GuestRegionUffdMapping>,
    backing_buffer: u64,
    size: usize,
    pages: Seq<nat>,
    handler: Option<UffdHandler>,
)
    requires
        mappings@.len() > 0 && mappings@[0].page_size_kib > 0 ==> pages.len() == mappings@.len()
            && forall|i: int|
            0 <= i < mappings@.len() ==> (#[trigger] mappings@[i]).size <= pages[i]
                * mappings@[0].page_size_kib < mappings@[i].size + mappings@[0].page_size_kib,
        call_ensures(UffdHandler::from_mappings, (&mappings, backing_buffer, size), handler),
    ensures
        handler is Some <==> {
            &&& mappings@.len() > 0
            &&& mappings@.fold_left(0int, |sum: int, m: GuestRegionUffdMapping| sum + m.size)
                == size
            &&& is_pow2(mappings@[0].page_size_kib as int)
            &&& forall|i: int|
                0 <= i < mappings@.len() ==> (#[trigger] mappings@[i]).base_host_virt_addr
                    + pages[i] * mappings@[0].page_size_kib <= u64::MAX
        },
        handler matches Some(h) ==> {
            &&& h.wf()
            &&& h.page_size == mappings@[0].page_size_kib
            &&& h.backing_buffer == backing_buffer
            &&& h.mem_regions@.len() == mappings@.len()
            &&& forall|i: int|
                0 <= i < mappings@.len() ==> (#[trigger] h.mem_regions@[i]).mapping == mappings@[i]
            &&& forall|i: int, addr: nat|
                0 <= i < mappings@.len() ==> (#[trigger] h.mem_regions@[i].state_at(addr)) == if {
                    &&& mappings@[i].base_host_virt_addr <= addr
                    &&& addr < mappings@[i].base_host_virt_addr + mappings@[i].size
                    &&& (addr - mappings@[i].base_host_virt_addr) % h.page_size as int == 0
                } {
                    Some(MemPageState::Uninitialized)
                } else {
                    None
                }
        },
{
    lemma_total_size_is_fold(mappings@);
    if mappings@.len() > 0 && mappings@[0].page_size_kib > 0 {
        let p = mappings@[0].page_size_kib as nat;
        assert forall|i: int| 0 <= i < mappings@.len() implies ((#[trigger] mappings@[i]).fits(p)
            <==> mappings@[i].base_host_virt_addr + pages[i] * p <= u64::MAX) by {
            law_fits(mappings@[i], p, pages[i]);
        }
        if handler is Some {
            assert forall|i: int| 0 <= i < mappings@.len() implies (
            #[trigger] mappings@[i]).base_host_virt_addr + pages[i] * p <= u64::MAX by {
                assert(mappings@[i].fits(p));
            }
        } else if forall|i: int|
            0 <= i < mappings@.len() ==> (#[trigger] mappings@[i]).base_host_virt_addr + pages[i]
                * p <= u64::MAX {
            assert forall|i: int| 0 <= i < mappings@.len() implies (#[trigger] mappings@[i]).fits(
                p,
            ) by {
                assert(mappings@[i].base_host_virt_addr + pages[i] * p <= u64::MAX);
            }
        }
    } else {
        reveal(is_pow2);
    }
}

/// The total of the sizes is what adding them up from the first to the last gives.
proof fn lemma_total_size_is_fold(mappings: Seq<GuestRegionUffdMapping>)
    ensures
        total_size(mappings) == mappings.fold_left(
            0int,
            |sum: int, m: GuestRegionUffdMapping| sum + m.size,
        ),
    decreases mappings.len(),
{
    reveal_with_fuel(Seq::fold_left, 2);
    if mappings.len() > 0 {
        lemma_total_size_is_fold(mappings.drop_last());
    }
}

/// Setting states sets those of the pages that start in the range, in whatever region, and changes
/// nothing else of the handler.
pub proof fn law_call_of_update_mem_state_mappings(
    handler: &mut UffdHandler,
    start: u64,
    end: u64,
    state: MemPageState,
    i: int,
    addr: nat,
)
    requires
        old(handler).wf(),
        call_ensures(
            UffdHandler::update_mem_state_mappings,
            (handler, start, end, state),
            (),
        ),
        0 <= i < old(handler).mem_regions@.len(),
    ensures
        final(handler).wf(),
        final(handler).page_size == old(handler).page_size,
        final(handler).backing_buffer == old(handler).backing_buffer,
        final(handler).mem_regions@.len() == old(handler).mem_regions@.len(),
        ({
            let before = old(handler).mem_regions@[i];
            let after = final(handler).mem_regions@[i];
            &&& after.mapping == before.mapping
            &&& after.state_at(addr) is Some <==> before.state_at(addr) is Some
            &&& before.state_at(addr) is Some && start <= addr < end ==> after.state_at(addr)
                == Some(state)
            &&& addr < start || addr >= end ==> after.state_at(addr) == before.state_at(addr)
        }),
{
    law_states_set(
        old(handler).mem_regions@,
        final(handler).mem_regions@,
        start as nat,
        end as nat,
        state,
        i,
        addr,
    );
}

/// A fault is served by the first region that has a page where the page starts that the fault lies
/// in. A page that was never touched, or was filled from the saved memory, is copied from there:
/// from as far into the region's part of the saved memory as the page is into the region, wherever
/// in the 64 bits of address space that is. A page that was given back, or was filled with zeros, is
/// filled with zeros.
pub proof fn law_call_of_serve_pf(
    handler: &mut UffdHandler,
    addr: u64,
    len: usize,
    action: Result<FaultAction, FaultError>,
    page: u64,
    i: int,
)
    requires
        old(handler).wf(),
        call_ensures(UffdHandler::serve_pf, (handler, addr, len), action),
        page <= addr < page + old(handler).page_size,
        page as int % old(handler).page_size as int == 0,
        0 <= i < old(handler).mem_regions@.len(),
        old(handler).mem_regions@[i].state_at(page as nat) is Some,
        forall|j: int|
            0 <= j < i ==> (#[trigger] old(handler).mem_regions@[j]).state_at(page as nat) is None,
    ensures
        ({
            let mapping = old(handler).mem_regions@[i].mapping;
            let state = old(handler).mem_regions@[i].state_at(page as nat)->0;
            let from_file = state == MemPageState::Uninitialized || state == MemPageState::FromFile;
            let source = old(handler).backing_buffer + mapping.offset + (page
                - mapping.base_host_virt_addr);
            let fits = source <= u64::MAX && page + len <= u64::MAX;
            &&& final(handler).wf()
            &&& from_file && fits ==> (action matches Ok(
                FaultAction::Copy { src, dst, len: count },
            ) && src == source && dst == page && count == len)
            &&& from_file && !fits ==> (action matches Err(FaultError::OutOfRange))
                && *final(handler) == *old(handler)
            &&& !from_file ==> (action matches Ok(FaultAction::ZeroPage { addr: start, len: count })
                && start == page && count == old(handler).page_size)
            &&& from_file && fits && len > 0 ==> final(handler).mem_regions@[i].state_at(
                page as nat,
            ) == Some(MemPageState::FromFile)
            &&& !from_file ==> final(handler).mem_regions@[i].state_at(page as nat) == Some(
                MemPageState::Anonymous,
            )
        }),
{
    reveal(is_pow2);
    law_start_of_page(addr as nat, old(handler).page_size as nat, page as nat);
    let regions = old(handler).mem_regions@;
    assert(first_with_page(regions, page as nat, i));
}

/// There is only one multiple of the page size at or before an address from which a page reaches
/// beyond it.
pub proof fn law_start_of_page(addr: nat, page_size: nat, start: nat)
    requires
        page_size > 0,
        start <= addr < start + page_size,
        start % page_size == 0,
    ensures
        page_start(addr, page_size) == start,
        addr - addr as int % page_size as int == start,
{
    let p = page_size as int;
    let k = start as int / p;
    vstd::arithmetic::div_mod::lemma_fundamental_div_mod(start as int, p);
    assert(k * p == p * k) by (nonlinear_arith);
    vstd::arithmetic::div_mod::lemma_fundamental_div_mod_converse(
        addr as int,
        p,
        k,
        addr - start,
    );
}

/// A fault where no region has a page cannot be served and changes nothing; anywhere else it does
/// not fail for want of a page.
pub proof fn law_fault_without_a_page(
    handler: &mut UffdHandler,
    addr: u64,
    len: usize,
    action: Result<FaultAction, FaultError>,
    page: u64,
)
    requires
        old(handler).wf(),
        call_ensures(UffdHandler::serve_pf, (handler, addr, len), action),
        page <= addr < page + old(handler).page_size,
        page as int % old(handler).page_size as int == 0,
    ensures
        (action matches Err(FaultError::NoPage)) <==> forall|j: int|
            0 <= j < old(handler).mem_regions@.len() ==> (
            #[trigger] old(handler).mem_regions@[j]).state_at(page as nat) is None,
        action is Err ==> *final(handler) == *old(handler),
{
    reveal(is_pow2);
    law_start_of_page(addr as nat, old(handler).page_size as nat, page as nat);
}

/// Two faults on one page, one after the other, are served in the same way, as long as at least one
/// byte is filled at a time.
pub proof fn law_second_fault_is_served_like_the_first(
    first: &mut UffdHandler,
    second: &mut UffdHandler,
    a: u64,
    b: u64,
    len: usize,
    one: Result<FaultAction, FaultError>,
    two: Result<FaultAction, FaultError>,
    page: u64,
)
    requires
        old(first).wf(),
        len > 0,
        call_ensures(UffdHandler::serve_pf, (first, a, len), one),
        *old(second) == *final(first),
        call_ensures(UffdHandler::serve_pf, (second, b, len), two),
        page <= a < page + old(first).page_size,
        page <= b < page + old(first).page_size,
        page as int % old(first).page_size as int == 0,
    ensures
        one == two,
{
    reveal(is_pow2);
    law_start_of_page(a as nat, old(first).page_size as nat, page as nat);
    law_start_of_page(b as nat, old(first).page_size as nat, page as nat);
    let before = old(first).mem_regions@;
    let after = final(first).mem_regions@;
    if exists|j: int|
        0 <= j < before.len() && (#[trigger] before[j]).state_at(page as nat) is Some {
        let j = choose|j: int|
            0 <= j < before.len() && (#[trigger] before[j]).state_at(page as nat) is Some;
        law_serving_region(before, page as nat, j, j);
        let i = choose|i: int| first_with_page(before, page as nat, i);
        before[i].lemma_page_end(page as nat);
        law_call_of_serve_pf(first, a, len, one, page, i);
        if one is Ok {
            law_fault_repeats(
                before,
                after,
                old(first).backing_buffer,
                page as nat,
                old(first).page_size,
                len,
                i,
            );
            assert(after[i].mapping == before[i].mapping);
            assert(first_with_page(after, page as nat, i));
        }
        law_call_of_serve_pf(second, b, len, two, page, i);
    } else {
        law_fault_without_a_page(first, a, len, one, page);
        law_fault_without_a_page(second, b, len, two, page);
    }
}

/// A fault on a page that was given back to the host asks for zeros, whatever the page held before.
pub proof fn law_fault_after_removal(
    removing: &mut UffdHandler,
    start: u64,
    end: u64,
    faulting: &mut UffdHandler,
    addr: u64,
    len: usize,
    action: Result<FaultAction, FaultError>,
    page: u64,
    j: int,
)
    requires
        old(removing).wf(),
        call_ensures(
            UffdHandler::update_mem_state_mappings,
            (removing, start, end, MemPageState::Removed),
            (),
        ),
        *old(faulting) == *final(removing),
        call_ensures(UffdHandler::serve_pf, (faulting, addr, len), action),
        page <= addr < page + old(removing).page_size,
        page as int % old(removing).page_size as int == 0,
        start <= page < end,
        0 <= j < old(removing).mem_regions@.len(),
        old(removing).mem_regions@[j].state_at(page as nat) is Some,
    ensures
        action matches Ok(FaultAction::ZeroPage { addr: at, len: count }) && at == page && count
            == old(removing).page_size,
{
    reveal(is_pow2);
    let before = old(removing).mem_regions@;
    let after = final(removing).mem_regions@;
    law_serving_region(before, page as nat, j, j);
    let i = choose|i: int| first_with_page(before, page as nat, i);
    law_removed_page_is_zeroed(
        before,
        after,
        start as nat,
        end as nat,
        old(removing).backing_buffer,
        page as nat,
        old(removing).page_size,
        len,
        i,
    );
    assert(after[i].state_at(page as nat) == Some(MemPageState::Removed));
    law_call_of_serve_pf(faulting, addr, len, action, page, i);
}

/// Which calls about messages may be made: any message, event and poll can be told apart, and any
/// numbers can be replied with.
pub proof fn law_calls_about_messages_may_be_made(
    fd: i32,
    other_fd: i32,
    apf_fd: i32,
    bytes: &[u8],
    event: u64,
    gpa: u64,
    len: u64,
    a: bool,
    b: bool,
    c: bool,
    ready: Ready,
    ready_count: i32,
)
    ensures
        call_requires(classify_message, (fd, bytes)),
        bytes@.len() == 8 ==> call_requires(read_be, (bytes,)),
        call_requires(async_fault_frame, (event,)),
        call_requires(dispatch, (a, b, fd, other_fd, apf_fd)),
        ready_count > 0 ==> call_requires(ready_left, (ready_count, ready)),
        call_requires(skips_stream, (a, b, c)),
        call_requires(encode_reply, (event, gpa, len)),
{
}

/// Which calls about transfers may be made: those for which the saved bytes and the guest's have
/// addresses.
pub proof fn law_calls_about_transfers_may_be_made(
    backing_buffer: u64,
    gfn: u64,
    region_base: u64,
    useraddr: u64,
    chunk: Chunk,
    pages: usize,
    map: &mut FillMap,
    frame: usize,
)
    ensures
        backing_buffer + gfn * 4096 <= u64::MAX ==> call_requires(
            frame_transfer,
            (backing_buffer, gfn),
        ),
        region_base <= useraddr ==> call_requires(event_frame, (region_base, useraddr)),
        region_base <= useraddr && backing_buffer + (useraddr - region_base) <= u64::MAX
            ==> call_requires(event_transfer, (backing_buffer, region_base, useraddr)),
        backing_buffer + chunk.first * 4096 <= u64::MAX && chunk.count * 4096 <= u64::MAX
            ==> call_requires(Chunk::transfer, (&chunk, backing_buffer)),
        call_requires(FillMap::new, (pages,)),
        frame < old(map)@.len() ==> call_requires(FillMap::fill, (map, frame)),
        call_requires(FillMap::fill_all, (map,)),
{
}

/// Which calls about faults may be made: a handler may be asked for with any mappings, and a valid
/// one takes a fault at any address, for any number of bytes, and a new state for any range.
pub proof fn law_calls_about_faults_may_be_made(
    mappings: Vec<GuestRegionUffdMapping>,
    backing_buffer: u64,
    size: usize,
    handler: &mut UffdHandler,
    region: &mut MemRegion,
    addr: u64,
    end: u64,
    len: usize,
    state: MemPageState,
    page_size: u64,
)
    requires
        old(handler).wf(),
        old(region).wf(),
    ensures
        call_requires(UffdHandler::from_mappings, (&mappings, backing_buffer, size)),
        call_requires(UffdHandler::serve_pf, (handler, addr, len)),
        call_requires(UffdHandler::update_mem_state_mappings, (handler, addr, end, state)),
        call_requires(MemRegion::get, (&*old(region), addr)),
        call_requires(MemRegion::set_states, (region, addr, end, state)),
        call_requires(is_power_of_two, (len,)),
        is_pow2(page_size as int) ==> call_requires(align_to_page, (addr, page_size)),
        len > 0 && (forall|i: int|
            0 <= i < mappings@.len() ==> (#[trigger] mappings@[i]).fits(len as nat))
            ==> call_requires(create_mem_regions, (&mappings, len)),
{
}

} // verus!

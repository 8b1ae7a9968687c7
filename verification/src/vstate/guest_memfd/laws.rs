//! What holds of the requests for guest memory, and of making it private from the first step to
//! the last.

use vstd::prelude::*;

use super::{
    create_guest_memfd, created_guest_memfd, fault_address, ioctl_code, is_empty_outcome,
    is_last_error, is_outcome, kvm_async_pf_ready, kvm_create_guest_memfd, kvm_fault,
    kvm_memory_attributes, kvm_userspace_memory_region2, private_request, read_fault, step_kind,
    GuestRegion, IoctlRequest, MemoryError, MmapRequest, PrivateStep, StartMicrovmError, StepKind,
    Vm, VmError, Vmm, KVM_ASYNC_PF_READY, KVM_CREATE_GUEST_MEMFD, KVM_GMEM_NO_DIRECT_MAP,
    KVM_GUEST_MEMFD_COPY, KVM_MEMORY_ATTRIBUTE_PRIVATE, KVM_MEMORY_ATTRIBUTE_USERFAULT,
    KVM_MEM_PRIVATE, KVM_READ_USERFAULT, KVM_SET_MEMORY_ATTRIBUTES, KVM_SET_USER_MEMORY_REGION2,
    KVM_X86_SW_PROTECTED_VM,
};

verus! {

/// How many ioctls are made in all, and whether the end is success, when each step is carried
/// out and the ioctl for region `i` returns `rets(i)`.
pub open spec fn carried_out(
    regions: nat,
    issued: nat,
    last_ret: i32,
    rets: spec_fn(nat) -> i32,
) -> (nat, bool)
    decreases regions - issued,
{
    match step_kind(regions, issued, last_ret) {
        StepKind::Issue(i) => carried_out(regions, issued + 1, rets(i), rets),
        StepKind::Finished(success) => (issued, success),
    }
}

/// Guest memory becomes private as a whole or the first failure is the end: it is a success
/// exactly if no region's ioctl fails, each region having had one, and otherwise the last ioctl
/// made is the first to fail.
pub proof fn law_private_all_or_first_failure(
    regions: nat,
    before: i32,
    rets: spec_fn(nat) -> i32,
)
    ensures
        ({
            let (made, success) = carried_out(regions, 0, before, rets);
            &&& made <= regions
            &&& success <==> (forall|i: nat| i < regions ==> #[trigger] rets(i) != -1)
            &&& success ==> made == regions
            &&& !success ==> made > 0 && rets((made - 1) as nat) == -1
            &&& forall|i: nat| i + 1 < made ==> #[trigger] rets(i) != -1
        }),
{
    if regions > 0 {
        assert(carried_out(regions, 0, before, rets) == carried_out(regions, 1, rets(0), rets));
        lemma_carried_out(regions, 1, rets);
    }
}

/// The same from the point on where some ioctls have been made.
proof fn lemma_carried_out(regions: nat, issued: nat, rets: spec_fn(nat) -> i32)
    requires
        0 < issued <= regions,
        forall|i: nat| i + 1 < issued ==> #[trigger] rets(i) != -1,
    ensures
        ({
            let (made, success) = carried_out(regions, issued, rets((issued - 1) as nat), rets);
            &&& issued <= made <= regions
            &&& success <==> (forall|i: nat| i < regions ==> #[trigger] rets(i) != -1)
            &&& success ==> made == regions
            &&& !success ==> made > 0 && rets((made - 1) as nat) == -1
            &&& forall|i: nat| i + 1 < made ==> #[trigger] rets(i) != -1
        }),
    decreases regions - issued,
{
    let last = rets((issued - 1) as nat);
    if last != -1 && issued < regions {
        assert(rets(((issued + 1) - 1) as nat) == rets(issued));
        lemma_carried_out(regions, issued + 1, rets);
    } else if last != -1 {
        assert forall|i: nat| i < regions implies #[trigger] rets(i) != -1 by {
            if i + 1 == issued {
                assert(i == (issued - 1) as nat);
            }
        }
    }
}

/// A region that is made private has both its attribute bits set and no other, and the flags of
/// a registered region are the one bit for private memory.
pub proof fn law_attribute_bits(vm_fd: i32, region: GuestRegion)
    ensures
        private_request(vm_fd, region).arg.attributes & KVM_MEMORY_ATTRIBUTE_PRIVATE
            == KVM_MEMORY_ATTRIBUTE_PRIVATE,
        private_request(vm_fd, region).arg.attributes & KVM_MEMORY_ATTRIBUTE_USERFAULT
            == KVM_MEMORY_ATTRIBUTE_USERFAULT,
        private_request(vm_fd, region).arg.attributes == 24,
        KVM_MEM_PRIVATE == 4,
{
    assert(1u64 << 3 == 8) by (bit_vector);
    assert(1u64 << 4 == 16) by (bit_vector);
    assert(1u32 << 2 == 4) by (bit_vector);
    assert(8u64 | 16u64 == 24u64) by (bit_vector);
    assert(24u64 & 8u64 == 8u64) by (bit_vector);
    assert(24u64 & 16u64 == 16u64) by (bit_vector);
}

/// The ioctl for a region is one on the machine's descriptor that sets the attributes of exactly
/// the region's bytes: it starts where the region starts and is as long, so that an address is in
/// its range exactly if it is in the region.
pub proof fn law_private_request_covers_region(vm_fd: i32, region: GuestRegion, addr: int)
    ensures
        ({
            let request = private_request(vm_fd, region);
            &&& request.fd == vm_fd
            &&& request.code == 0x4020_AED2
            &&& request.arg.address == region.start_addr
            &&& request.arg.size == region.len
            &&& request.arg.attributes == 24
            &&& request.arg.flags == 0
            &&& request.arg.address <= addr < request.arg.address + request.arg.size
                <==> region.start_addr <= addr < region.start_addr + region.len
        }),
{
    law_attribute_bits(vm_fd, region);
}

/// The requests for different regions differ.
pub proof fn law_private_requests_differ(vm_fd: i32, a: GuestRegion, b: GuestRegion)
    ensures
        private_request(vm_fd, a) == private_request(vm_fd, b) <==> a == b,
{
    law_private_request_covers_region(vm_fd, a, 0);
    law_private_request_covers_region(vm_fd, b, 0);
}

/// What comes next: after a failure the end, without success; otherwise the ioctl for the next
/// region as long as there is one; and then the end, with success. What was returned before the
/// first ioctl does not matter.
pub proof fn law_next_step(regions: nat, issued: nat, last_ret: i32)
    ensures
        step_kind(regions, issued, last_ret) == StepKind::Finished(false) <==> issued > 0
            && last_ret == -1,
        step_kind(regions, issued, last_ret) == StepKind::Issue(issued) <==> issued < regions && (
        issued == 0 || last_ret != -1),
        step_kind(regions, issued, last_ret) == StepKind::Finished(true) <==> issued >= regions && (
        issued == 0 || last_ret != -1),
        step_kind(regions, issued, last_ret) matches StepKind::Issue(i) ==> i == issued,
{
}

/// When no ioctl fails, each region has had its own, and every address of guest memory, and no
/// other, is in the range of one of them.
pub proof fn law_guest_memory_is_covered(
    vm_fd: i32,
    memory: Seq<GuestRegion>,
    before: i32,
    rets: spec_fn(nat) -> i32,
    addr: int,
)
    requires
        forall|i: nat| i < memory.len() ==> #[trigger] rets(i) != -1,
    ensures
        carried_out(memory.len(), 0, before, rets) == (memory.len(), true),
        (exists|i: int|
            0 <= i < memory.len() && (#[trigger] memory[i]).start_addr <= addr < memory[i].start_addr
                + memory[i].len) <==> (exists|i: int|
            0 <= i < memory.len() && {
                let arg = private_request(vm_fd, #[trigger] memory[i]).arg;
                arg.address <= addr < arg.address + arg.size
            }),
{
    law_private_all_or_first_failure(memory.len(), before, rets);
    assert forall|i: int| 0 <= i < memory.len() implies {
        let arg = private_request(vm_fd, #[trigger] memory[i]).arg;
        arg.address <= addr < arg.address + arg.size <==> memory[i].start_addr <= addr
            < memory[i].start_addr + memory[i].len
    } by {
        law_private_request_covers_region(vm_fd, memory[i], addr);
    }
}

/// The values of the constants that requests are made with.
pub proof fn law_constants()
    ensures
        KVM_X86_SW_PROTECTED_VM == 1,
        KVM_GMEM_NO_DIRECT_MAP == 1,
        KVM_MEM_PRIVATE == 4,
        KVM_MEMORY_ATTRIBUTE_PRIVATE == 8,
        KVM_MEMORY_ATTRIBUTE_USERFAULT == 16,
{
    assert(1u64 << 3 == 8) by (bit_vector);
    assert(1u64 << 4 == 16) by (bit_vector);
    assert(1u32 << 2 == 4) by (bit_vector);
}

/// The number of an ioctl of KVM tells, from the highest bits on, which way its argument goes, how
/// many bytes that has, that the ioctl is one of KVM, and which of them it is.
pub proof fn law_calls_of_ioctl_numbers(
    create: u64,
    region: u64,
    attributes: u64,
    ready: u64,
    copy: u64,
    fault: u64,
)
    requires
        call_ensures(KVM_CREATE_GUEST_MEMFD, (), create),
        call_ensures(KVM_SET_USER_MEMORY_REGION2, (), region),
        call_ensures(KVM_SET_MEMORY_ATTRIBUTES, (), attributes),
        call_ensures(KVM_ASYNC_PF_READY, (), ready),
        call_ensures(KVM_GUEST_MEMFD_COPY, (), copy),
        call_ensures(KVM_READ_USERFAULT, (), fault),
    ensures
        create == 3 * 0x4000_0000 + 64 * 0x1_0000 + 174 * 0x100 + 0xd4,
        region == 1 * 0x4000_0000 + 160 * 0x1_0000 + 174 * 0x100 + 0x49,
        attributes == 1 * 0x4000_0000 + 32 * 0x1_0000 + 174 * 0x100 + 0xd2,
        ready == 1 * 0x4000_0000 + 16 * 0x1_0000 + 174 * 0x100 + 0xd6,
        copy == 1 * 0x4000_0000 + 32 * 0x1_0000 + 174 * 0x100 + 0xd7,
        fault == 2 * 0x4000_0000 + 8 * 0x1_0000 + 174 * 0x100 + 0xd5,
{
}

/// The number of an ioctl holds its parts in places of their own, so that each can be read off.
pub proof fn law_ioctl_code(dir: u32, ty: u32, nr: u32, size: u32)
    requires
        dir < 4,
        size < 0x4000,
        ty < 0x100,
        nr < 0x100,
    ensures
        ioctl_code(dir, ty, nr, size) == dir * 0x4000_0000 + size * 0x1_0000 + ty * 0x100 + nr,
{
    assert(((dir << 30) | (ty << 8) | nr | (size << 16)) as u64 == dir * 0x4000_0000 + size
        * 0x1_0000 + ty * 0x100 + nr) by (bit_vector)
        requires
            dir < 4,
            size < 0x4000,
            ty < 0x100,
            nr < 0x100,
    ;
}

/// A `guest_memfd` is asked for on the machine's descriptor, with as many bytes as are wanted and
/// out of the direct map; what the ioctl returns is the new descriptor unless it is -1.
pub proof fn law_calls_of_create_guest_memfd(
    vm_fd: i32,
    size: u64,
    request: IoctlRequest<kvm_create_guest_memfd>,
    code: u64,
    ret: i32,
    fd: Result<i32, MemoryError>,
)
    requires
        call_ensures(create_guest_memfd, (vm_fd, size), request),
        call_ensures(KVM_CREATE_GUEST_MEMFD, (), code),
        call_ensures(created_guest_memfd, (ret,), fd),
    ensures
        request.fd == vm_fd,
        request.code == code,
        request.arg.size == size,
        request.arg.flags == 1,
        forall|i: int| 0 <= i < 6 ==> request.arg.reserved@[i] == 0,
        ret == -1 <==> fd is Err,
        ret != -1 ==> fd == Ok::<i32, MemoryError>(ret),
        fd matches Err(error) ==> error is GuestMemfd && is_outcome(ret, Err(error->GuestMemfd_0)),
{
}

/// Where the guest faulted is asked on the machine's descriptor, and is what the kernel wrote.
pub proof fn law_calls_of_read_fault(
    vm_fd: i32,
    request: IoctlRequest<kvm_fault>,
    code: u64,
    ret: i32,
    fault: kvm_fault,
    address: u64,
)
    requires
        call_ensures(read_fault, (vm_fd,), request),
        call_ensures(KVM_READ_USERFAULT, (), code),
        ret != -1,
        call_ensures(fault_address, (ret, fault), address),
    ensures
        request.fd == vm_fd,
        request.code == code,
        request.arg.address == 0,
        address == fault.address,
{
}

/// A region is registered on the machine's descriptor in the slot asked for, as private memory at
/// its own guest physical address and with its own length, its bytes being as far into the
/// `guest_memfd` as they are into the guest's memory; and only a negative return value is a failure.
pub proof fn law_calls_of_set_userspace_memory_region2(
    vm: Vm,
    slot: u32,
    region: GuestRegion,
    userspace_addr: u64,
    guest_memfd: i32,
    request: IoctlRequest<kvm_userspace_memory_region2>,
    code: u64,
    ret: i32,
    result: Result<(), VmError>,
)
    requires
        call_ensures(
            Vm::set_userspace_memory_region2,
            (&vm, slot, &region, userspace_addr, guest_memfd),
            request,
        ),
        call_ensures(KVM_SET_USER_MEMORY_REGION2, (), code),
        call_ensures(Vm::registered_userspace_memory_region2, (&vm, ret), result),
    ensures
        request.fd == vm.fd,
        request.code == code,
        request.arg.slot == slot,
        request.arg.flags == 4,
        request.arg.guest_phys_addr == region.start_addr,
        request.arg.memory_size == region.len,
        request.arg.userspace_addr == userspace_addr,
        request.arg.guest_memfd_offset == request.arg.guest_phys_addr,
        guest_memfd >= 0 ==> request.arg.guest_memfd == guest_memfd,
        request.arg.pad1 == 0,
        forall|i: int| 0 <= i < 14 ==> request.arg.pad2@[i] == 0,
        result is Ok <==> ret >= 0,
        result matches Err(VmError::SetUserMemoryRegion(error)) ==> is_last_error(error),
{
}

/// The host's own mapping of a region is as long as the region, readable and writable, private,
/// without file and swap space, and wherever the kernel puts it.
pub proof fn law_call_of_userspace_mapping(vm: Vm, region: GuestRegion, request: MmapRequest)
    requires
        call_ensures(Vm::userspace_mapping, (&vm, &region), request),
    ensures
        request.addr == 0,
        region.len <= usize::MAX ==> request.len == region.len,
        request.prot == 1 + 2,
        request.flags == 0x4000 + 2 + 0x20,
        request.fd == -1,
        request.offset == 0,
{
}

/// One step towards private memory: after a failure it is the end, with that failure; otherwise it
/// is the ioctl for exactly the bytes of the next region; and after the last region it is the end,
/// with success.
pub proof fn law_call_of_set_guest_memory_private(
    vmm: Vmm,
    issued: usize,
    last_ret: i32,
    step: PrivateStep,
    code: u64,
)
    requires
        issued <= vmm.guest_memory@.len(),
        call_ensures(Vmm::set_guest_memory_private, (&vmm, issued, last_ret), step),
        call_ensures(KVM_SET_MEMORY_ATTRIBUTES, (), code),
    ensures
        ({
            let failed = issued > 0 && last_ret == -1;
            let region = vmm.guest_memory@[issued as int];
            &&& failed ==> (step matches PrivateStep::Finished(
                Err(StartMicrovmError::GuestMemory(MemoryError::SetMemoryAttributes(error))),
            ) && is_empty_outcome(last_ret, Err(error)))
            &&& !failed && issued < vmm.guest_memory@.len() ==> (step matches PrivateStep::Issue(
                request,
            ) && request.fd == vmm.vm.fd && request.code == code && request.arg.address
                == region.start_addr && request.arg.address + request.arg.size == region.start_addr
                + region.len && request.arg.attributes == 8 + 16 && request.arg.flags == 0)
            &&& !failed && issued == vmm.guest_memory@.len() ==> step == PrivateStep::Finished(
                Ok::<(), StartMicrovmError>(()),
            )
        }),
{
}

/// The ioctls of two steps lie as far apart, and differ as much in length, as the two regions do,
/// and are the same exactly if the regions are.
pub proof fn law_calls_for_two_regions(
    vmm: Vmm,
    i: usize,
    j: usize,
    ret_i: i32,
    ret_j: i32,
    a: IoctlRequest<kvm_memory_attributes>,
    b: IoctlRequest<kvm_memory_attributes>,
)
    requires
        i < vmm.guest_memory@.len(),
        j < vmm.guest_memory@.len(),
        call_ensures(Vmm::set_guest_memory_private, (&vmm, i, ret_i), PrivateStep::Issue(a)),
        call_ensures(Vmm::set_guest_memory_private, (&vmm, j, ret_j), PrivateStep::Issue(b)),
    ensures
        b.arg.address - a.arg.address == vmm.guest_memory@[j as int].start_addr
            - vmm.guest_memory@[i as int].start_addr,
        b.arg.size - a.arg.size == vmm.guest_memory@[j as int].len - vmm.guest_memory@[i as int].len,
        a == b <==> vmm.guest_memory@[i as int] == vmm.guest_memory@[j as int],
{
}

/// The arguments of ioctls that are made with nothing filled in are zero throughout.
pub proof fn law_calls_of_default(
    create: kvm_create_guest_memfd,
    region: kvm_userspace_memory_region2,
    attributes: kvm_memory_attributes,
    ready: kvm_async_pf_ready,
    fault: kvm_fault,
)
    requires
        call_ensures(<kvm_create_guest_memfd as Default>::default, (), create),
        call_ensures(<kvm_userspace_memory_region2 as Default>::default, (), region),
        call_ensures(<kvm_memory_attributes as Default>::default, (), attributes),
        call_ensures(<kvm_async_pf_ready as Default>::default, (), ready),
        call_ensures(<kvm_fault as Default>::default, (), fault),
    ensures
        create.size == 0 && create.flags == 0,
        forall|i: int| 0 <= i < 6 ==> create.reserved@[i] == 0,
        region.slot == 0 && region.flags == 0 && region.guest_phys_addr == 0,
        region.memory_size == 0 && region.userspace_addr == 0 && region.guest_memfd_offset == 0,
        region.guest_memfd == 0 && region.pad1 == 0,
        forall|i: int| 0 <= i < 14 ==> region.pad2@[i] == 0,
        attributes.address == 0 && attributes.size == 0,
        attributes.attributes == 0 && attributes.flags == 0,
        ready.gpa == 0 && ready.token == 0 && ready.notpresent_injected == 0,
        fault.address == 0,
{
}

/// Which calls may be made: any region, size, slot and descriptor can be asked about, the return
/// value of any ioctl can be interpreted, but for a failure to read a fault, and a step towards
/// private memory can be taken after any return value as long as no more ioctls were made than there
/// are regions.
pub proof fn law_calls_may_be_made(
    vm: Vm,
    vmm: Vmm,
    region: GuestRegion,
    slot: u32,
    size: u64,
    userspace_addr: u64,
    fd: i32,
    ret: i32,
    fault: kvm_fault,
    issued: usize,
)
    ensures
        call_requires(create_guest_memfd, (fd, size)),
        call_requires(created_guest_memfd, (ret,)),
        call_requires(read_fault, (fd,)),
        ret != -1 ==> call_requires(fault_address, (ret, fault)),
        call_requires(Vm::userspace_mapping, (&vm, &region)),
        call_requires(
            Vm::set_userspace_memory_region2,
            (&vm, slot, &region, userspace_addr, fd),
        ),
        call_requires(Vm::registered_userspace_memory_region2, (&vm, ret)),
        issued <= vmm.guest_memory@.len() ==> call_requires(
            Vmm::set_guest_memory_private,
            (&vmm, issued, ret),
        ),
{
}

} // verus!

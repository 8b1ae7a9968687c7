//! Structs, ioctl numbers, constants and functions for guest memory in a `guest_memfd`.
//!
//! An operation on the machine is an ioctl with something decided before and after it. Here the
//! first part gives the request, which says on which descriptor the ioctl is made, with which
//! number and which argument, and the second part says what the return value means. The caller
//! makes the ioctl in between, and hands its return value on before anything else can change
//! the thread's error number.

use vmm_sys_util::ioctl::ioctl_expr;
use vmm_sys_util::syscall::SyscallReturnCode;
use vstd::prelude::*;

pub mod laws;

use crate::vstate::guest_memfd::laws::law_attribute_bits;

verus! {

/// VM type that supports guest private memory.
pub const KVM_X86_SW_PROTECTED_VM: u64 = 1;

/// Flag of a `guest_memfd` whose pages are taken out of the host's direct map.
pub const KVM_GMEM_NO_DIRECT_MAP: u64 = 1;

/// Flag for [`KVM_SET_USER_MEMORY_REGION2`] that says that a region supports private memory.
pub const KVM_MEM_PRIVATE: u32 = 1u32 << 2;

/// Attribute that marks page frames as private.
pub const KVM_MEMORY_ATTRIBUTE_PRIVATE: u64 = 1u64 << 3;

/// Attribute that has faults on page frames reported to userspace.
pub const KVM_MEMORY_ATTRIBUTE_USERFAULT: u64 = 1u64 << 4;

/// The direction bit of an ioctl number for an argument that the kernel reads.
pub const IOC_WRITE: u32 = 1;

/// The direction bit of an ioctl number for an argument that the kernel writes.
pub const IOC_READ: u32 = 2;

/// Protection of mapped memory that can be read.
pub const PROT_READ: i32 = 1;

/// Protection of mapped memory that can be written.
pub const PROT_WRITE: i32 = 2;

/// Flag of a mapping whose changes nobody else sees.
pub const MAP_PRIVATE: i32 = 2;

/// Flag of a mapping that is backed by no file.
pub const MAP_ANONYMOUS: i32 = 0x20;

/// Flag of a mapping for which no swap space is set aside.
pub const MAP_NORESERVE: i32 = 0x4000;

/// Argument of [`KVM_CREATE_GUEST_MEMFD`].
#[allow(non_camel_case_types)]
#[derive(Copy, Clone, Debug)]
pub struct kvm_create_guest_memfd {
    pub size: u64,
    pub flags: u64,
    pub reserved: [u64; 6],
}

/// Argument of [`KVM_SET_USER_MEMORY_REGION2`].
#[allow(non_camel_case_types)]
#[derive(Copy, Clone, Debug)]
pub struct kvm_userspace_memory_region2 {
    pub slot: u32,
    pub flags: u32,
    pub guest_phys_addr: u64,
    pub memory_size: u64,
    pub userspace_addr: u64,
    pub guest_memfd_offset: u64,
    pub guest_memfd: u32,
    pub pad1: u32,
    pub pad2: [u64; 14],
}

/// Argument of [`KVM_SET_MEMORY_ATTRIBUTES`].
#[allow(non_camel_case_types)]
#[derive(Copy, Clone, Debug, PartialEq, Eq, Structural)]
pub struct kvm_memory_attributes {
    pub address: u64,
    pub size: u64,
    pub attributes: u64,
    pub flags: u64,
}

/// Argument of [`KVM_ASYNC_PF_READY`].
#[allow(non_camel_case_types)]
#[derive(Copy, Clone, Debug, PartialEq, Eq, Structural)]
pub struct kvm_async_pf_ready {
    pub gpa: u64,
    pub token: u32,
    pub notpresent_injected: u32,
}

/// Argument of [`KVM_GUEST_MEMFD_COPY`]. `from` is the address of the bytes to copy.
#[allow(non_camel_case_types)]
#[derive(Copy, Clone, Debug, PartialEq, Eq, Structural)]
pub struct kvm_guest_memfd_copy {
    pub guest_memfd: u32,
    pub from: u64,
    pub offset: u64,
    pub len: u64,
}

/// Argument of [`KVM_READ_USERFAULT`].
#[allow(non_camel_case_types)]
#[derive(Copy, Clone, Debug, PartialEq, Eq, Structural)]
pub struct kvm_fault {
    pub address: u64,
}

/// Size in bytes of [`kvm_create_guest_memfd`] as the kernel lays it out: eight words of eight
/// bytes.
pub const CREATE_GUEST_MEMFD_SIZE: u32 = 64;

/// Size in bytes of [`kvm_userspace_memory_region2`] as the kernel lays it out: four words of
/// four bytes and eighteen of eight.
pub const USERSPACE_MEMORY_REGION2_SIZE: u32 = 160;

/// Size in bytes of [`kvm_memory_attributes`] as the kernel lays it out: four words of eight
/// bytes.
pub const MEMORY_ATTRIBUTES_SIZE: u32 = 32;

/// Size in bytes of [`kvm_async_pf_ready`] as the kernel lays it out: one word of eight bytes and
/// two of four.
pub const ASYNC_PF_READY_SIZE: u32 = 16;

/// Size in bytes of [`kvm_guest_memfd_copy`] as the kernel lays it out: a word of four bytes, four
/// bytes of padding, and three words of eight.
pub const GUEST_MEMFD_COPY_SIZE: u32 = 32;

/// Size in bytes of [`kvm_fault`] as the kernel lays it out: one word of eight bytes.
pub const FAULT_SIZE: u32 = 8;

impl Default for kvm_create_guest_memfd {
    /// All fields zero.
    fn default() -> (arg: Self)
        ensures
            arg.size == 0,
            arg.flags == 0,
            forall|i: int| 0 <= i < 6 ==> arg.reserved@[i] == 0,
    {
        kvm_create_guest_memfd { size: 0, flags: 0, reserved: [0; 6] }
    }
}

impl Default for kvm_userspace_memory_region2 {
    /// All fields zero.
    fn default() -> (arg: Self)
        ensures
            arg.slot == 0,
            arg.flags == 0,
            arg.guest_phys_addr == 0,
            arg.memory_size == 0,
            arg.userspace_addr == 0,
            arg.guest_memfd_offset == 0,
            arg.guest_memfd == 0,
            arg.pad1 == 0,
            forall|i: int| 0 <= i < 14 ==> arg.pad2@[i] == 0,
    {
        kvm_userspace_memory_region2 {
            slot: 0,
            flags: 0,
            guest_phys_addr: 0,
            memory_size: 0,
            userspace_addr: 0,
            guest_memfd_offset: 0,
            guest_memfd: 0,
            pad1: 0,
            pad2: [0; 14],
        }
    }
}

impl Default for kvm_memory_attributes {
    /// All fields zero.
    fn default() -> (arg: Self)
        ensures
            arg == (kvm_memory_attributes { address: 0, size: 0, attributes: 0, flags: 0 }),
    {
        kvm_memory_attributes { address: 0, size: 0, attributes: 0, flags: 0 }
    }
}

impl Default for kvm_async_pf_ready {
    /// All fields zero.
    fn default() -> (arg: Self)
        ensures
            arg == (kvm_async_pf_ready { gpa: 0, token: 0, notpresent_injected: 0 }),
    {
        kvm_async_pf_ready { gpa: 0, token: 0, notpresent_injected: 0 }
    }
}

impl Default for kvm_fault {
    /// All fields zero.
    fn default() -> (arg: Self)
        ensures
            arg == (kvm_fault { address: 0 }),
    {
        kvm_fault { address: 0 }
    }
}

/// An ioctl to be made: on which descriptor, with which number and which argument.
#[derive(Debug)]
pub struct IoctlRequest<T> {
    pub fd: i32,
    pub code: u64,
    pub arg: T,
}

/// The number of an ioctl: two bits of direction, fourteen of argument size, eight of type and
/// eight of sequence number.
pub open spec fn ioctl_code(dir: u32, ty: u32, nr: u32, size: u32) -> u64 {
    ((dir << 30) | (ty << 8) | nr | (size << 16)) as u64
}

/// `vmm_sys_util::ioctl::ioctl_expr` puts an ioctl number together, each part shifted to its
/// place. What does not fit in 32 bits is shifted out.
pub assume_specification[ vmm_sys_util::ioctl::ioctl_expr ](dir: u32, ty: u32, nr: u32, size: u32) -> (code: u64)
    ensures
        code == ioctl_code(dir, ty, nr, size),
;

/// Reads `kvm_bindings::KVMIO`, the type of the ioctls of KVM.
#[verifier::external_body]
fn kvmio() -> (ty: u32)
    ensures
        ty == 174,
{
    kvm_bindings::KVMIO
}

/// Creates a `guest_memfd`. Made on a VM descriptor, to which the new one is bound: it can only
/// back memory in that machine.
#[allow(non_snake_case)]
pub fn KVM_CREATE_GUEST_MEMFD() -> (code: u64)
    ensures
        code == 0xC040_AED4,
{
    assert(2u32 | 1u32 == 3u32) by (bit_vector);
    assert(((3u32 << 30) | (174u32 << 8) | 0xD4u32 | (64u32 << 16)) as u64 == 0xC040_AED4)
        by (bit_vector);
    ioctl_expr(IOC_READ | IOC_WRITE, kvmio(), 0xd4, CREATE_GUEST_MEMFD_SIZE)
}

/// Registers a memory region that has a `guest_memfd`. Made on a VM descriptor.
#[allow(non_snake_case)]
pub fn KVM_SET_USER_MEMORY_REGION2() -> (code: u64)
    ensures
        code == 0x40A0_AE49,
{
    assert(((1u32 << 30) | (174u32 << 8) | 0x49u32 | (160u32 << 16)) as u64 == 0x40A0_AE49)
        by (bit_vector);
    ioctl_expr(IOC_WRITE, kvmio(), 0x49, USERSPACE_MEMORY_REGION2_SIZE)
}

/// Marks guest page frames as shared or private. Made on a VM descriptor.
#[allow(non_snake_case)]
pub fn KVM_SET_MEMORY_ATTRIBUTES() -> (code: u64)
    ensures
        code == 0x4020_AED2,
{
    assert(((1u32 << 30) | (174u32 << 8) | 0xd2u32 | (32u32 << 16)) as u64 == 0x4020_AED2)
        by (bit_vector);
    ioctl_expr(IOC_WRITE, kvmio(), 0xd2, MEMORY_ATTRIBUTES_SIZE)
}

/// Tells that a page that was faulted on asynchronously is ready. Made on a VM descriptor.
#[allow(non_snake_case)]
pub fn KVM_ASYNC_PF_READY() -> (code: u64)
    ensures
        code == 0x4010_AED6,
{
    assert(((1u32 << 30) | (174u32 << 8) | 0xd6u32 | (16u32 << 16)) as u64 == 0x4010_AED6)
        by (bit_vector);
    ioctl_expr(IOC_WRITE, kvmio(), 0xd6, ASYNC_PF_READY_SIZE)
}

/// Copies bytes into a `guest_memfd`. Made on a VM descriptor.
#[allow(non_snake_case)]
pub fn KVM_GUEST_MEMFD_COPY() -> (code: u64)
    ensures
        code == 0x4020_AED7,
{
    assert(((1u32 << 30) | (174u32 << 8) | 0xd7u32 | (32u32 << 16)) as u64 == 0x4020_AED7)
        by (bit_vector);
    ioctl_expr(IOC_WRITE, kvmio(), 0xd7, GUEST_MEMFD_COPY_SIZE)
}

/// Reads where the guest faulted. Made on a VM descriptor.
#[allow(non_snake_case)]
pub fn KVM_READ_USERFAULT() -> (code: u64)
    ensures
        code == 0x8008_AED5,
{
    assert(((2u32 << 30) | (174u32 << 8) | 0xd5u32 | (8u32 << 16)) as u64 == 0x8008_AED5)
        by (bit_vector);
    ioctl_expr(IOC_READ, kvmio(), 0xd5, FAULT_SIZE)
}

/// `std::io::Error`, carried without looking inside.
#[verifier::external_type_specification]
#[verifier::external_body]
pub struct ExIoError(std::io::Error);

/// `kvm_ioctls::Error`, an error number, carried without looking inside.
#[verifier::external_type_specification]
#[verifier::external_body]
pub struct ExKvmError(kvm_ioctls::Error);

/// Calls `vmm_sys_util::syscall::SyscallReturnCode::into_result`, which takes -1 for a failure
/// and any other return value for a result. Which error a failure carries is left open: it is
/// the thread's last error number.
#[verifier::external_body]
fn syscall_result(ret: i32) -> (result: Result<i32, std::io::Error>)
    ensures
        result is Err <==> ret == -1,
        result is Ok ==> result->Ok_0 == ret,
{
    SyscallReturnCode(ret).into_result()
}

/// Calls `vmm_sys_util::syscall::SyscallReturnCode::into_empty_result`, which takes -1 for a
/// failure and any other return value for success. Which error a failure carries is left open:
/// it is the thread's last error number.
#[verifier::external_body]
fn syscall_empty_result(ret: i32) -> (result: Result<(), std::io::Error>)
    ensures
        result is Err <==> ret == -1,
{
    SyscallReturnCode(ret).into_empty_result()
}

/// `kvm_ioctls::Error::last` gives the thread's last error number, of which nothing is claimed.
#[verifier::external_body]
fn last_kvm_error() -> kvm_ioctls::Error {
    kvm_ioctls::Error::last()
}

/// Whether a result is one that a system call's return value can stand for.
pub closed spec fn is_outcome(ret: i32, outcome: Result<i32, std::io::Error>) -> bool {
    call_ensures(syscall_result, (ret,), outcome)
}

/// Whether a result without value is one that a system call's return value can stand for.
pub closed spec fn is_empty_outcome(ret: i32, outcome: Result<(), std::io::Error>) -> bool {
    call_ensures(syscall_empty_result, (ret,), outcome)
}

/// Whether an error is one that the thread can have had last.
pub closed spec fn is_last_error(error: kvm_ioctls::Error) -> bool {
    call_ensures(last_kvm_error, (), error)
}

/// An outcome is one that the interpretation of the return value gave, and a last error is one that
/// the thread's error number gave. Only -1 stands for a failure.
proof fn law_outcomes_are_of_the_call(
    ret: i32,
    outcome: Result<i32, std::io::Error>,
    empty: Result<(), std::io::Error>,
    error: kvm_ioctls::Error,
)
    ensures
        is_outcome(ret, outcome) <==> call_ensures(syscall_result, (ret,), outcome),
        is_empty_outcome(ret, empty) <==> call_ensures(syscall_empty_result, (ret,), empty),
        is_last_error(error) <==> call_ensures(last_kvm_error, (), error),
        is_outcome(ret, outcome) ==> (outcome is Err <==> ret == -1),
        is_empty_outcome(ret, empty) ==> (empty is Err <==> ret == -1),
{
}

/// What can go wrong with guest memory.
#[derive(Debug)]
pub enum MemoryError {
    /// A `guest_memfd` could not be created.
    GuestMemfd(std::io::Error),
    /// The attributes of guest page frames could not be set.
    SetMemoryAttributes(std::io::Error),
}

/// What can go wrong with a virtual machine.
#[derive(Debug)]
pub enum VmError {
    /// A memory region could not be registered.
    SetUserMemoryRegion(kvm_ioctls::Error),
}

/// What can go wrong when a microVM is started.
#[derive(Debug)]
pub enum StartMicrovmError {
    /// Guest memory could not be set up.
    GuestMemory(MemoryError),
}

/// A region of guest memory: its guest physical address and its length in bytes.
#[derive(Copy, Clone, Debug, PartialEq, Eq, Structural)]
pub struct GuestRegion {
    pub start_addr: u64,
    pub len: u64,
}

/// The request that creates a `guest_memfd` of `size` bytes, tied to the machine behind
/// `vm_fd`.
pub fn create_guest_memfd(vm_fd: i32, size: u64) -> (request: IoctlRequest<kvm_create_guest_memfd>)
    ensures
        request.fd == vm_fd,
        request.code == 0xC040_AED4,
        request.arg.size == size,
        request.arg.flags == KVM_GMEM_NO_DIRECT_MAP,
        request.arg.flags == 1,
        forall|i: int| 0 <= i < 6 ==> request.arg.reserved@[i] == 0,
{
    IoctlRequest {
        fd: vm_fd,
        code: KVM_CREATE_GUEST_MEMFD(),
        arg: kvm_create_guest_memfd { size, flags: KVM_GMEM_NO_DIRECT_MAP, ..Default::default() },
    }
}

/// What the ioctl of [`create_guest_memfd`] returned: the new descriptor, or an error.
pub fn created_guest_memfd(ret: i32) -> (fd: Result<i32, MemoryError>)
    ensures
        fd is Err <==> ret == -1,
        fd is Ok ==> fd->Ok_0 == ret,
        fd matches Err(error) ==> error is GuestMemfd && is_outcome(ret, Err(error->GuestMemfd_0)),
{
    match syscall_result(ret) {
        Ok(guest_memfd) => Ok(guest_memfd),
        Err(error) => Err(MemoryError::GuestMemfd(error)),
    }
}

/// The request that asks the machine behind `vm_fd` where the guest faulted.
pub fn read_fault(vm_fd: i32) -> (request: IoctlRequest<kvm_fault>)
    ensures
        request == (IoctlRequest { fd: vm_fd, code: 0x8008_AED5, arg: kvm_fault { address: 0 } }),
{
    IoctlRequest { fd: vm_fd, code: KVM_READ_USERFAULT(), arg: kvm_fault { address: 0 } }
}

/// Where the guest faulted, from the return value of the ioctl of [`read_fault`] and what the
/// kernel wrote into its argument. The ioctl must not have failed.
pub fn fault_address(ret: i32, fault: kvm_fault) -> (address: u64)
    requires
        ret != -1,
    ensures
        address == fault.address,
{
    let _ = syscall_result(ret).unwrap();
    fault.address
}

/// A mapping to be made: the arguments of `mmap`, of which `addr` is zero where the kernel is to
/// choose the address.
#[derive(Copy, Clone, Debug, PartialEq, Eq, Structural)]
pub struct MmapRequest {
    pub addr: u64,
    pub len: usize,
    pub prot: i32,
    pub flags: i32,
    pub fd: i32,
    pub offset: i64,
}

/// A virtual machine, by its descriptor.
#[derive(Debug)]
pub struct Vm {
    pub fd: i32,
}

impl Vm {
    /// The mapping for the accesses of the host to a region: private, anonymous memory of the
    /// region's length, readable and writable, at an address that the kernel chooses. It is not
    /// a mapping of the region's `guest_memfd`.
    pub fn userspace_mapping(&self, region: &GuestRegion) -> (request: MmapRequest)
        ensures
            request.addr == 0,
            request.len == region.len as usize,
            request.prot == PROT_READ | PROT_WRITE,
            request.flags == MAP_NORESERVE | MAP_PRIVATE | MAP_ANONYMOUS,
            request.prot == 3,
            request.flags == 0x4022,
            request.fd == -1,
            request.offset == 0,
    {
        assert(1i32 | 2i32 == 3i32) by (bit_vector);
        assert(0x4000i32 | 2i32 | 0x20i32 == 0x4022i32) by (bit_vector);
        MmapRequest {
            addr: 0,
            len: region.len as usize,
            prot: PROT_READ | PROT_WRITE,
            flags: MAP_NORESERVE | MAP_PRIVATE | MAP_ANONYMOUS,
            fd: -1,
            offset: 0,
        }
    }

    /// The request that registers a region in `slot`, backed by `guest_memfd` at the region's own
    /// guest physical address. `userspace_addr` is what the `mmap` of
    /// [`userspace_mapping`](Self::userspace_mapping) returned; a failure of it is not looked for
    /// here.
    pub fn set_userspace_memory_region2(
        &self,
        slot: u32,
        region: &GuestRegion,
        userspace_addr: u64,
        guest_memfd: i32,
    ) -> (request: IoctlRequest<kvm_userspace_memory_region2>)
        ensures
            request.fd == self.fd,
            request.code == 0x40A0_AE49,
            request.arg.slot == slot,
            request.arg.flags == KVM_MEM_PRIVATE,
            request.arg.flags == 4,
            request.arg.guest_phys_addr == region.start_addr,
            request.arg.memory_size == region.len,
            request.arg.userspace_addr == userspace_addr,
            request.arg.guest_memfd_offset == region.start_addr,
            request.arg.guest_memfd == guest_memfd as u32,
            request.arg.pad1 == 0,
            forall|i: int| 0 <= i < 14 ==> request.arg.pad2@[i] == 0,
    {
        proof {
            law_attribute_bits(self.fd, *region);
        }
        IoctlRequest {
            fd: self.fd,
            code: KVM_SET_USER_MEMORY_REGION2(),
            arg: kvm_userspace_memory_region2 {
                slot,
                guest_phys_addr: region.start_addr,
                memory_size: region.len,
                userspace_addr,
                guest_memfd_offset: region.start_addr,
                guest_memfd: guest_memfd as u32,
                flags: KVM_MEM_PRIVATE,
                ..Default::default()
            },
        }
    }

    /// What the ioctl of [`set_userspace_memory_region2`](Self::set_userspace_memory_region2)
    /// returned: an error for any negative value.
    pub fn registered_userspace_memory_region2(&self, ret: i32) -> (result: Result<(), VmError>)
        ensures
            ret < 0 <==> result is Err,
            result matches Err(VmError::SetUserMemoryRegion(error)) ==> is_last_error(error),
    {
        if ret < 0 {
            Err(VmError::SetUserMemoryRegion(last_kvm_error()))
        } else {
            Ok(())
        }
    }
}

/// A microVM: the machine and the regions of its guest memory.
#[derive(Debug)]
pub struct Vmm {
    pub vm: Vm,
    pub guest_memory: Vec<GuestRegion>,
}

/// What to do next to make guest memory private.
#[derive(Debug)]
pub enum PrivateStep {
    /// Make this ioctl.
    Issue(IoctlRequest<kvm_memory_attributes>),
    /// There is nothing more to do.
    Finished(Result<(), StartMicrovmError>),
}

/// The request that makes a region of the machine behind `vm_fd` private and has faults on it
/// reported to userspace.
pub open spec fn private_request(vm_fd: i32, region: GuestRegion) -> IoctlRequest<
    kvm_memory_attributes,
> {
    IoctlRequest {
        fd: vm_fd,
        code: 0x4020_AED2,
        arg: kvm_memory_attributes {
            address: region.start_addr,
            size: region.len,
            attributes: KVM_MEMORY_ATTRIBUTE_PRIVATE | KVM_MEMORY_ATTRIBUTE_USERFAULT,
            flags: 0,
        },
    }
}

/// What the next step is, by kind.
pub enum StepKind {
    /// The ioctl for the region of this number.
    Issue(nat),
    /// The end: success or failure.
    Finished(bool),
}

/// What the next step is for `regions` regions, of which the first `issued` had their ioctl, the
/// last of them with the return value `last_ret`.
pub open spec fn step_kind(regions: nat, issued: nat, last_ret: i32) -> StepKind {
    if issued > 0 && last_ret == -1 {
        StepKind::Finished(false)
    } else if issued < regions {
        StepKind::Issue(issued)
    } else {
        StepKind::Finished(true)
    }
}

impl Vmm {
    /// The next step in making all guest memory private, when the ioctls for the first `issued`
    /// regions have been made and the last of them returned `last_ret`, which before the first
    /// ioctl may be anything. A region is one ioctl, in order, and a failure ends it.
    pub fn set_guest_memory_private(&self, issued: usize, last_ret: i32) -> (step: PrivateStep)
        requires
            issued <= self.guest_memory@.len(),
        ensures
            match step_kind(self.guest_memory@.len(), issued as nat, last_ret) {
                StepKind::Issue(i) => step == PrivateStep::Issue(
                    private_request(self.vm.fd, self.guest_memory@[i as int]),
                ),
                StepKind::Finished(true) => step == PrivateStep::Finished(
                    Ok::<(), StartMicrovmError>(()),
                ),
                StepKind::Finished(false) => step matches PrivateStep::Finished(
                    Err(StartMicrovmError::GuestMemory(MemoryError::SetMemoryAttributes(error))),
                ) && is_empty_outcome(last_ret, Err(error)),
            },
            step matches PrivateStep::Finished(Err(_)) <==> issued > 0 && last_ret == -1,
            step matches PrivateStep::Issue(_) <==> issued < self.guest_memory@.len() && !(issued > 0
                && last_ret == -1),
            step matches PrivateStep::Issue(request) ==> {
                &&& request.fd == self.vm.fd
                &&& request.code == 0x4020_AED2
                &&& request.arg.address == self.guest_memory@[issued as int].start_addr
                &&& request.arg.size == self.guest_memory@[issued as int].len
                &&& request.arg.attributes == 24
                &&& request.arg.flags == 0
            },
    {
        if issued > 0 {
            match syscall_empty_result(last_ret) {
                Ok(_) => {},
                Err(error) => {
                    return PrivateStep::Finished(
                        Err(
                            StartMicrovmError::GuestMemory(MemoryError::SetMemoryAttributes(error)),
                        ),
                    );
                },
            }
        }
        if issued < self.guest_memory.len() {
            let region: &GuestRegion = &self.guest_memory[issued];
            proof {
                law_attribute_bits(self.vm.fd, *region);
            }
            PrivateStep::Issue(
                IoctlRequest {
                    fd: self.vm.fd,
                    code: KVM_SET_MEMORY_ATTRIBUTES(),
                    arg: kvm_memory_attributes {
                        address: region.start_addr,
                        size: region.len,
                        attributes: KVM_MEMORY_ATTRIBUTE_PRIVATE | KVM_MEMORY_ATTRIBUTE_USERFAULT,
                        ..Default::default()
                    },
                },
            )
        } else {
            PrivateStep::Finished(Ok(()))
        }
    }
}

} // verus!

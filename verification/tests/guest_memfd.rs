use vmm::vstate::guest_memfd::{
    create_guest_memfd, created_guest_memfd, fault_address, kvm_async_pf_ready,
    kvm_create_guest_memfd, kvm_fault, kvm_memory_attributes, kvm_userspace_memory_region2,
    read_fault, GuestRegion, MemoryError, PrivateStep, StartMicrovmError, Vm, VmError, Vmm,
    IOC_READ, IOC_WRITE, KVM_ASYNC_PF_READY, KVM_CREATE_GUEST_MEMFD, KVM_GMEM_NO_DIRECT_MAP,
    KVM_GUEST_MEMFD_COPY, KVM_MEMORY_ATTRIBUTE_PRIVATE, KVM_MEMORY_ATTRIBUTE_USERFAULT,
    KVM_MEM_PRIVATE, KVM_READ_USERFAULT, KVM_SET_MEMORY_ATTRIBUTES, KVM_SET_USER_MEMORY_REGION2,
    KVM_X86_SW_PROTECTED_VM, MAP_ANONYMOUS, MAP_NORESERVE, MAP_PRIVATE, PROT_READ, PROT_WRITE,
};

#[test]
fn ioctl_numbers() {
    assert_eq!(KVM_CREATE_GUEST_MEMFD(), 0xC040_AED4);
    assert_eq!(KVM_SET_USER_MEMORY_REGION2(), 0x40A0_AE49);
    assert_eq!(KVM_SET_MEMORY_ATTRIBUTES(), 0x4020_AED2);
    assert_eq!(KVM_ASYNC_PF_READY(), 0x4010_AED6);
    assert_eq!(KVM_GUEST_MEMFD_COPY(), 0x4020_AED7);
    assert_eq!(KVM_READ_USERFAULT(), 0x8008_AED5);
}

#[test]
fn constants() {
    assert_eq!(KVM_X86_SW_PROTECTED_VM, 1);
    assert_eq!(KVM_GMEM_NO_DIRECT_MAP, 1);
    assert_eq!(KVM_MEM_PRIVATE, 4);
    assert_eq!(KVM_MEMORY_ATTRIBUTE_PRIVATE, 8);
    assert_eq!(KVM_MEMORY_ATTRIBUTE_USERFAULT, 16);
    assert_eq!(IOC_WRITE, vmm_sys_util::ioctl::_IOC_WRITE);
    assert_eq!(IOC_READ, vmm_sys_util::ioctl::_IOC_READ);
    assert_eq!(PROT_READ, libc::PROT_READ);
    assert_eq!(PROT_WRITE, libc::PROT_WRITE);
    assert_eq!(MAP_PRIVATE, libc::MAP_PRIVATE);
    assert_eq!(MAP_ANONYMOUS, libc::MAP_ANONYMOUS);
    assert_eq!(MAP_NORESERVE, libc::MAP_NORESERVE);
}

#[test]
fn sizes_in_memory() {
    // No field needs more room here than where the kernel lays it out.
    assert_eq!(size_of::<kvm_create_guest_memfd>(), 64);
    assert_eq!(size_of::<kvm_userspace_memory_region2>(), 160);
    assert_eq!(size_of::<kvm_memory_attributes>(), 32);
    assert_eq!(size_of::<kvm_async_pf_ready>(), 16);
    assert_eq!(size_of::<kvm_fault>(), 8);
}

#[test]
fn defaults_are_zero() {
    assert_eq!(
        kvm_memory_attributes::default(),
        kvm_memory_attributes {
            address: 0,
            size: 0,
            attributes: 0,
            flags: 0
        }
    );
    assert_eq!(
        kvm_async_pf_ready::default(),
        kvm_async_pf_ready {
            gpa: 0,
            token: 0,
            notpresent_injected: 0
        }
    );
    assert_eq!(kvm_fault::default(), kvm_fault { address: 0 });
    let arg = kvm_create_guest_memfd::default();
    assert_eq!((arg.size, arg.flags, arg.reserved), (0, 0, [0; 6]));
    let arg = kvm_userspace_memory_region2::default();
    assert_eq!((arg.slot, arg.flags, arg.pad1, arg.pad2), (0, 0, 0, [0; 14]));
}

#[test]
fn guest_memfd_request() {
    let request = create_guest_memfd(11, 0x8000_0000);
    assert_eq!(request.fd, 11);
    assert_eq!(request.code, 0xC040_AED4);
    assert_eq!(request.arg.size, 0x8000_0000);
    assert_eq!(request.arg.flags, 1);
    assert_eq!(request.arg.reserved, [0; 6]);
}

#[test]
fn guest_memfd_outcome() {
    assert_eq!(created_guest_memfd(0).unwrap(), 0);
    assert_eq!(created_guest_memfd(42).unwrap(), 42);
    assert_eq!(created_guest_memfd(-2).unwrap(), -2);
    let last = std::io::Error::last_os_error().raw_os_error();
    match created_guest_memfd(-1) {
        Err(MemoryError::GuestMemfd(error)) => assert_eq!(error.raw_os_error(), last),
        other => panic!("unexpected {other:?}"),
    }
}

#[test]
fn fault_is_read() {
    let request = read_fault(9);
    assert_eq!((request.fd, request.code), (9, 0x8008_AED5));
    assert_eq!(request.arg, kvm_fault { address: 0 });
    assert_eq!(fault_address(0, kvm_fault { address: 0x1234 }), 0x1234);
}

#[test]
fn userspace_mapping_is_anonymous() {
    let region = GuestRegion {
        start_addr: 0x1000,
        len: 0x4000_0000,
    };
    let request = Vm { fd: 5 }.userspace_mapping(&region);
    assert_eq!(request.addr, 0);
    assert_eq!(request.len, 0x4000_0000);
    assert_eq!(request.prot, 3);
    assert_eq!(request.flags, 0x4022);
    assert_eq!(request.fd, -1);
    assert_eq!(request.offset, 0);
}

#[test]
fn memory_region_request() {
    let vm = Vm { fd: 5 };
    let region = GuestRegion {
        start_addr: 0x1_0000_0000,
        len: 0x4000_0000,
    };
    let request = vm.set_userspace_memory_region2(3, &region, 0x7f00_0000_0000, 8);
    assert_eq!((request.fd, request.code), (5, 0x40A0_AE49));
    let arg = request.arg;
    assert_eq!(arg.slot, 3);
    assert_eq!(arg.flags, 4);
    assert_eq!(arg.guest_phys_addr, 0x1_0000_0000);
    assert_eq!(arg.memory_size, 0x4000_0000);
    assert_eq!(arg.userspace_addr, 0x7f00_0000_0000);
    assert_eq!(arg.guest_memfd_offset, 0x1_0000_0000);
    assert_eq!(arg.guest_memfd, 8);
    assert_eq!((arg.pad1, arg.pad2), (0, [0; 14]));
}

#[test]
fn memory_region_outcome() {
    let vm = Vm { fd: 5 };
    assert!(vm.registered_userspace_memory_region2(0).is_ok());
    assert!(vm.registered_userspace_memory_region2(1).is_ok());
    for ret in [-1, -22] {
        let last = std::io::Error::last_os_error().raw_os_error();
        match vm.registered_userspace_memory_region2(ret) {
            Err(VmError::SetUserMemoryRegion(error)) => assert_eq!(Some(error.errno()), last),
            other => panic!("unexpected {other:?}"),
        }
    }
}

fn three_regions() -> Vmm {
    let region = |start_addr: u64, len: u64| GuestRegion { start_addr, len };
    Vmm {
        vm: Vm { fd: 6 },
        guest_memory: vec![region(0, 0xA000), region(0x10_0000, 0x1000), region(1 << 32, 7)],
    }
}

/// Carries the steps out with the given return values, and gives the ioctls made.
fn carry_out(
    vmm: &Vmm,
    rets: &[i32],
) -> (Vec<kvm_memory_attributes>, Result<(), StartMicrovmError>) {
    let mut made = Vec::new();
    let mut issued: usize = 0;
    let mut last_ret: i32 = -1;
    loop {
        match vmm.set_guest_memory_private(issued, last_ret) {
            PrivateStep::Issue(request) => {
                assert_eq!((request.fd, request.code), (6, 0x4020_AED2));
                made.push(request.arg);
                last_ret = rets[issued];
                issued += 1;
            }
            PrivateStep::Finished(result) => return (made, result),
        }
    }
}

#[test]
fn all_memory_becomes_private() {
    let vmm = three_regions();
    let (made, result) = carry_out(&vmm, &[0, 0, 0]);
    assert!(result.is_ok());
    let expected: Vec<kvm_memory_attributes> = [(0u64, 0xA000u64), (0x10_0000, 0x1000), (1 << 32, 7)]
        .iter()
        .map(|(address, size)| kvm_memory_attributes {
            address: *address,
            size: *size,
            attributes: 24,
            flags: 0,
        })
        .collect();
    assert_eq!(made, expected);
}

#[test]
fn first_failure_ends_it() {
    let vmm = three_regions();
    let (made, result) = carry_out(&vmm, &[0, -1, 0]);
    assert_eq!(made.len(), 2);
    assert!(matches!(
        result,
        Err(StartMicrovmError::GuestMemory(
            MemoryError::SetMemoryAttributes(_)
        ))
    ));
    let (made, result) = carry_out(&vmm, &[0, 0, -1]);
    assert_eq!(made.len(), 3);
    assert!(result.is_err());
}

#[test]
fn machine_without_memory_has_nothing_to_do() {
    let vmm = Vmm {
        vm: Vm { fd: 6 },
        guest_memory: Vec::new(),
    };
    let (made, result) = carry_out(&vmm, &[]);
    assert!(made.is_empty());
    assert!(result.is_ok());
}

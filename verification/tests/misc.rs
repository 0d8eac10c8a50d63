use hadron_kernel::arch::VirtAddr;
use hadron_kernel::dev::drivers::qemu::vga::{
    endianness_from_register, framebuffer_pages, framebuffer_size, is_known_id, Endianness,
};
use hadron_kernel::dev::helpers::identity_vendor_id;
use hadron_kernel::drivers::DeviceId;
use hadron_kernel::mm::page_table::mapped_address;
use hadron_kernel::util::cpu::CpuFeatures;
use hadron_kernel::util::kprint::LogLevel;
use hadron_kernel::util::machine_state::MachineState;

#[test]
fn cpu_features() {
    assert!(CpuFeatures::from_extended_edx(1 << 11).fast_syscall);
    assert!(!CpuFeatures::from_extended_edx(!(1 << 11)).fast_syscall);
}

#[test]
fn log_levels() {
    assert_eq!(LogLevel::Debug.name(), "DEBUG");
    assert_eq!(LogLevel::Warn.name(), "WARN");
    assert_eq!(LogLevel::Fatal.name(), "FATAL");
    assert!(LogLevel::Info.rank() < LogLevel::Error.rank());
}

#[test]
fn machine_state_from_stack_frame() {
    let s = MachineState::with_registers(0x1000, 0x2000, 0x3000, [8, 16, 16, 16, 0, 0]);
    assert_eq!((s.rip, s.rsp, s.rbp, s.cs, s.ss), (0x1000, 0x2000, 0x3000, 8, 16));
    assert_eq!(s.rax, 0);
    let mut s = s;
    s.rax = 5;
    s.cr3 = 0x1000;
    let t = s.from_stack_frame(0x4000, 0x5000, 0x2B);
    assert_eq!((t.rip, t.rsp, t.ss, t.rbp, t.cs, t.ds), (0x4000, 0x5000, 0x2B, 0x3000, 8, 16));
    assert_eq!((t.rax, t.cr3, t.rflags), (0, 0, 0));
}

#[test]
fn vendor_names() {
    assert_eq!(identity_vendor_id(0x1234), Some("QEMU"));
    assert_eq!(identity_vendor_id(0x8086), Some("Intel"));
    assert_eq!(identity_vendor_id(0x10DE), Some("Nvidia"));
    assert_eq!(identity_vendor_id(0x1111), None);
}

#[test]
fn device_ids() {
    let id = DeviceId::from_parts(0x1234, 0x1111);
    assert_eq!(id.vendor(), 0x1234);
    assert_eq!(id.device(), 0x1111);
    assert!(hadron_kernel::dev::drivers::qemu::vga::matches(&id));
    assert!(!hadron_kernel::dev::drivers::qemu::vga::matches(&DeviceId::from_parts(0x1234, 0x1112)));
    // vendor first, then device
    assert!(DeviceId::from_parts(1, 0xFFFF) < DeviceId::from_parts(2, 0));
    assert!(DeviceId::from_parts(1, 5) > DeviceId::from_parts(1, 4));
    assert!(DeviceId::from_parts(7, 7) <= DeviceId::from_parts(7, 7));
}

#[test]
fn vga_registers() {
    assert_eq!(endianness_from_register(0x1e1e1e1e), Endianness::Little);
    assert_eq!(endianness_from_register(0xbebebebe), Endianness::Big);
    assert_eq!(endianness_from_register(0x1234_5678), Endianness::Little);
    assert!(is_known_id(0xB0C5));
    assert!(!is_known_id(0xB0C0));
    assert_eq!(framebuffer_size(800, 600, 32), 1_920_000);
    assert_eq!(framebuffer_pages(1_920_000), 469);
    assert_eq!(framebuffer_pages(4096), 1);
    assert_eq!(framebuffer_pages(0), 0);
}

#[test]
fn addresses_of_table_indices() {
    assert_eq!(mapped_address(511, 510, 0, 1), VirtAddr::new(0xFFFF_FFFF_8000_1000));
    assert_eq!(mapped_address(1, 0, 0, 0), VirtAddr::new(0x80_0000_0000));
    assert_eq!(mapped_address(256, 0, 0, 0), VirtAddr::new(0xFFFF_8000_0000_0000));
    let a = mapped_address(300, 7, 9, 11);
    assert_eq!((a.p4_index(), a.p3_index(), a.p2_index(), a.p1_index()), (300, 7, 9, 11));
}

#[test]
fn register_dump_text() {
    let mut s = MachineState::with_registers(0xFFFF_FFFF_8000_1234, 0x7FFF_F000, 0xABCD_EF01, [0x08, 0x10, 0x18, 0x20, 0x2B, 0x33]);
    s.rax = 1;
    s.r15 = u64::MAX;
    s.efer = 0xD01;
    let text = String::from_utf8(s.register_dump()).unwrap();
    let mut expected = String::new();
    expected += &format!("rsp:   0x{:016X}    rbp:   0x{:016X}\n", s.rsp, s.rbp);
    expected += &format!("rax:   0x{:016X}    rbx:   0x{:016X}\n", s.rax, s.rbx);
    expected += &format!("rcx:   0x{:016X}    rdx:   0x{:016X}\n", s.rcx, s.rdx);
    expected += &format!("rdi:   0x{:016X}    rsi:   0x{:016X}\n", s.rdi, s.rsi);
    expected += &format!("r8:    0x{:016X}    r9:    0x{:016X}\n", s.r8, s.r9);
    expected += &format!("r10:   0x{:016X}    r11:   0x{:016X}\n", s.r10, s.r11);
    expected += &format!("r12:   0x{:016X}    r13:   0x{:016X}\n", s.r12, s.r13);
    expected += &format!("r14:   0x{:016X}    r15:   0x{:016X}\n", s.r14, s.r15);
    expected += &format!("rip:   0x{:016X}    rflags:0x{:016X}\n", s.rip, s.rflags);
    expected += &format!("cs:    0x{:04X}    ss:    0x{:04X}    ds:    0x{:04X}\n", s.cs, s.ss, s.ds);
    expected += &format!("es:    0x{:04X}    fs:    0x{:04X}    gs:    0x{:04X}\n", s.es, s.fs, s.gs);
    expected += &format!("cr0:   0x{:016X}    cr2:   0x{:016X}\n", s.cr0, s.cr2);
    expected += &format!("cr3:   0x{:016X}    cr4:   0x{:016X}\n", s.cr3, s.cr4);
    expected += &format!("efer:  0x{:016X}\n", s.efer);
    assert_eq!(text, expected);
    assert!(text.starts_with("rsp:   0x000000007FFFF000    rbp:   0x00000000ABCDEF01\n"));
    assert!(text.contains("r14:   0x0000000000000000    r15:   0xFFFFFFFFFFFFFFFF\n"));
}

#[test]
fn device_ids_from_equal_parts_are_equal() {
    assert_eq!(DeviceId::from_parts(0x1234, 0x1111), DeviceId::from_parts(0x1234, 0x1111));
    assert_ne!(DeviceId::from_parts(0x1234, 0x1111), DeviceId::from_parts(0x1111, 0x1234));
    assert_eq!(DeviceId::from_parts(0xABCD, 0x0102).vendor(), 0xABCD);
    assert_eq!(DeviceId::from_parts(0xABCD, 0x0102).device(), 0x0102);
}

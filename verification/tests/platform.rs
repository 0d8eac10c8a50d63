use hadron_kernel::dev::platform::{
    boot_platform_devices, next_matching_driver, same_name, PlatformDev, PlatformDevAddr, PlatformDevMatcher,
    PlatformDevType, PlatformDeviceTree, PlatformDrv,
};

fn serial(port: u16) -> PlatformDev {
    PlatformDev::new("io_dev", PlatformDevType::IoDevice, PlatformDevAddr::io_port(port))
}

#[test]
fn names_compare_by_bytes() {
    assert!(same_name("efi_fb", "efi_fb"));
    assert!(!same_name("efi_fb", "efi_fb0"));
    assert!(!same_name("io_dev", "io_dex"));
    assert!(same_name("", ""));
}

#[test]
fn port_bits_of_addresses() {
    assert_eq!(PlatformDevAddr::io_port(0x3F8).port_bits(), 0x3F8);
    assert_eq!(PlatformDevAddr::addr(0x1234_5678).port_bits(), 0x5678);
}

#[test]
fn matcher_checks_name_and_port() {
    let m = PlatformDevMatcher { name: "io_dev", addr: Some(PlatformDevAddr::io_port(0x3F8)) };
    assert!(m.matches(&serial(0x3F8)));
    assert!(!m.matches(&serial(0x2F8)));
    let any_port = PlatformDevMatcher { name: "io_dev", addr: None };
    assert!(any_port.matches(&serial(0x2F8)));
    let other = PlatformDevMatcher { name: "efi_fb", addr: None };
    assert!(!other.matches(&serial(0x3F8)));
}

#[test]
fn driver_choice_takes_the_first_match() {
    let drivers = vec![
        PlatformDrv { name: "fb", matchers: vec![PlatformDevMatcher { name: "efi_fb", addr: None }] },
        PlatformDrv {
            name: "com2",
            matchers: vec![PlatformDevMatcher { name: "io_dev", addr: Some(PlatformDevAddr::io_port(0x2F8)) }],
        },
        PlatformDrv {
            name: "uart",
            matchers: vec![
                PlatformDevMatcher { name: "io_dev", addr: Some(PlatformDevAddr::io_port(0x3F8)) },
                PlatformDevMatcher { name: "io_dev", addr: Some(PlatformDevAddr::io_port(0x2F8)) },
            ],
        },
    ];
    let dev = serial(0x2F8);
    assert!(drivers[2].matches(&dev));
    assert_eq!(next_matching_driver(&drivers, &dev, 0), Some(1));
    // the driver at 1 declined: ask again after it
    assert_eq!(next_matching_driver(&drivers, &dev, 2), Some(2));
    assert_eq!(next_matching_driver(&drivers, &dev, 3), None);
    assert_eq!(next_matching_driver(&drivers, &serial(0x3E8), 0), None);
}

#[test]
fn boot_devices() {
    let mut devs = PlatformDeviceTree::empty();
    boot_platform_devices(&mut devs, Some(0x3F8), 0x1000);
    assert_eq!(devs.len(), 2);
    assert_eq!(devs.get(0).name, "io_dev");
    assert_eq!(devs.get(0).class, PlatformDevType::IoDevice);
    assert_eq!(devs.get(0).addr, PlatformDevAddr::IoPort(0x3F8));
    assert_eq!(devs.get(1).name, "efi_fb");
    assert_eq!(devs.get(1).class, PlatformDevType::Framebuffer);
    assert_eq!(devs.get(1).addr, PlatformDevAddr::Addr(0x1000));
    let mut devs = PlatformDeviceTree::empty();
    boot_platform_devices(&mut devs, None, 0x2000);
    assert_eq!(devs.len(), 1);
    assert_eq!(devs.get(0).name, "efi_fb");
    boot_platform_devices(&mut devs, Some(0x2F8), 0x3000);
    assert_eq!(devs.len(), 3);
    assert_eq!(devs.get(0).addr, PlatformDevAddr::Addr(0x2000));
    assert_eq!(devs.get(1).addr, PlatformDevAddr::IoPort(0x2F8));
    assert_eq!(devs.get(2).addr, PlatformDevAddr::Addr(0x3000));
}

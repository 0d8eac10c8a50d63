use hadron_kernel::arch::VirtAddr;
use hadron_kernel::util::timer::hpet::{frequency, period_from_capabilities, time_since_boot, Hpet, HpetInfo};
use chrono::{Datelike, Timelike};
use hadron_kernel::util::timer::rtc::{bcd_to_binary, decode_time, is_bcd, rtc_date_time, update_in_progress, RtcTime};
use hadron_kernel::util::timer::TimerTicks;

#[test]
fn bcd_values() {
    assert_eq!(bcd_to_binary(0x59), 59);
    assert_eq!(bcd_to_binary(0x00), 0);
    assert_eq!(bcd_to_binary(0x23), 23);
    assert!(is_bcd(0x02));
    assert!(!is_bcd(0x06));
    assert!(update_in_progress(0x80));
    assert!(!update_in_progress(0x26));
}

#[test]
fn rtc_time_decoding() {
    let raw = RtcTime { seconds: 0x45, minutes: 0x30, hours: 0x12, day: 0x31, month: 0x12, year: 0x24 };
    let t = decode_time(raw, true);
    assert_eq!(t, RtcTime { seconds: 45, minutes: 30, hours: 12, day: 31, month: 12, year: 24 });
    assert_eq!(decode_time(raw, false), raw);
}

#[test]
fn hpet_period_and_time() {
    // a period of 10,000,000 femtoseconds (100ns) in the upper half
    let caps = 0x0098_9680_8086_A201u64;
    let period = period_from_capabilities(caps);
    assert_eq!(period, 10_000_000);
    assert_eq!(frequency(period), 100_000_000);
    assert_eq!(time_since_boot(30_000_000, period), (0, 300_000_000));
    assert_eq!(time_since_boot(25_000_000_000, period), (250, 0));
    assert_eq!(time_since_boot(0, period), (0, 0));
}

#[test]
fn hpet_configuration() {
    let info = HpetInfo { is_64bit: true, num_comparators: 3, legacy_replacement: true, minimum_tick: 128 };
    let hpet = Hpet::new(VirtAddr::new(0xFED0_0000), info);
    assert_eq!(hpet.enable_config(), 3);
    let hpet = Hpet::new(VirtAddr::new(0xFED0_0000), HpetInfo { legacy_replacement: false, ..info });
    assert_eq!(hpet.enable_config(), 1);
    assert_eq!(Hpet::SIZE, 0x400);
    assert_eq!(TimerTicks::new(5).0, 5);
}

#[test]
fn clock_registers_to_date_time() {
    let raw = RtcTime { seconds: 0x45, minutes: 0x30, hours: 0x12, day: 0x29, month: 0x02, year: 0x24 };
    let t = rtc_date_time(raw, true).unwrap();
    assert_eq!((t.year(), t.month(), t.day()), (2024, 2, 29));
    assert_eq!((t.hour(), t.minute(), t.second()), (12, 30, 45));
    // 2023 is no leap year
    assert!(rtc_date_time(RtcTime { year: 0x23, ..raw }, true).is_none());
    // binary registers
    let bin = RtcTime { seconds: 59, minutes: 59, hours: 23, day: 31, month: 12, year: 99 };
    let t = rtc_date_time(bin, false).unwrap();
    assert_eq!((t.year(), t.month(), t.day(), t.hour()), (2099, 12, 31, 23));
    assert!(rtc_date_time(RtcTime { hours: 24, ..bin }, false).is_none());
    assert!(rtc_date_time(RtcTime { month: 13, ..bin }, false).is_none());
    assert!(rtc_date_time(RtcTime { day: 0, ..bin }, false).is_none());
}

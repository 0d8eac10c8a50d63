//! The High Precision Event Timer.
use crate::arch::VirtAddr;
use vstd::prelude::*;

verus! {

/// What the ACPI table reports about the HPET.
#[derive(Debug, Clone, Copy)]
pub struct HpetInfo {
    pub is_64bit: bool,
    pub num_comparators: u8,
    pub legacy_replacement: bool,
    pub minimum_tick: u64,
}

/// An HPET mapped at `addr`.
#[derive(Debug, Clone, Copy)]
pub struct Hpet {
    pub info: HpetInfo,
    pub addr: VirtAddr,
}

/// Femtoseconds per second.
pub const FEMTOS_PER_SECOND: u64 = 1_000_000_000_000_000;

/// Nanoseconds per second.
pub const NANOS_PER_SECOND: u64 = 1_000_000_000;

/// Offset of the general capabilities register.
pub const CAPABILITIES_OFFSET: u64 = 0x000;

/// Offset of the general configuration register.
pub const CONFIG_OFFSET: u64 = 0x010;

/// Offset of the interrupt status register.
pub const INTERRUPT_STATUS_OFFSET: u64 = 0x020;

/// Offset of the main counter register.
pub const MAIN_COUNTER_OFFSET: u64 = 0x0F0;

impl Hpet {
    /// The size of the register block.
    pub const SIZE: u32 = 0x400;

    pub fn new(addr: VirtAddr, info: HpetInfo) -> (r: Self)
        ensures
            r.addr == addr,
            r.info == info,
    {
        Self { info, addr }
    }

    /// The configuration written when the timer is started: enabled, with legacy
    /// replacement routing if the timer supports it.
    pub fn enable_config(&self) -> (r: u64)
        ensures
            r == if self.info.legacy_replacement {
                3u64
            } else {
                1u64
            },
    {
        let mut config = 0u64;
        config = config | 1;
        if self.info.legacy_replacement {
            config = config | 2;
        }
        proof {
            assert((0u64 | 1u64) == 1u64 && (1u64 | 2u64) == 3u64) by (bit_vector);
        }
        config
    }
}

/// The counter period in femtoseconds, held in the upper half of the
/// capabilities register.
pub fn period_from_capabilities(capabilities: u64) -> (r: u64)
    ensures
        r == capabilities / 0x1_0000_0000,
{
    let r = (capabilities >> 32u64) & 0xFFFF_FFFF;
    proof {
        assert((capabilities >> 32u64) & 0xFFFF_FFFFu64 == capabilities / 0x1_0000_0000u64) by (bit_vector);
    }
    r
}

/// Counter ticks per second for a period of `period` femtoseconds.
pub fn frequency(period: u64) -> (r: u64)
    requires
        period > 0,
    ensures
        r == FEMTOS_PER_SECOND / period,
{
    FEMTOS_PER_SECOND / period
}

/// The time since boot, as seconds and nanoseconds, for counter value `now`
/// and period `period` in femtoseconds.
pub fn time_since_boot(now: u64, period: u64) -> (r: (u64, u32))
    requires
        now * period <= u64::MAX,
    ensures
        r.0 == (now * period) / 1_000_000 / (NANOS_PER_SECOND as int),
        r.1 == ((now * period) / 1_000_000) % (NANOS_PER_SECOND as int),
{
    let ns = (now * period) / 1_000_000;
    (ns / NANOS_PER_SECOND, (ns % NANOS_PER_SECOND) as u32)
}

} // verus!

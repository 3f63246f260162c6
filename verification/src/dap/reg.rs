//! Registers and constants that the autonomous detection uses.
use vstd::prelude::*;

verus! {

/// ABORT: clear every sticky flag.
pub const DP_ABORT_CLEAR: u32 = 0x1E;

/// CTRL/STAT: request power for the system and the debug domain.
pub const CTRLSTAT_PWRUPREQ: u32 = 0x5000_0000;

/// CSW: 32-bit accesses, single increment.
pub const AP_CSW_32BIT: u32 = 0x2300_0052;

/// CPUID of a Cortex-M core.
pub const CPUID: u32 = 0xE000_ED00;

/// Device identifier of STM32 and GD32 parts.
pub const DBGMCU_IDCODE: u32 = 0xE004_2000;

/// Part number of Nordic parts.
pub const NORDIC_FICR_PART: u32 = 0x1000_0100;

/// Peripheral identification 1 of the ROM table at 0xE00FF000.
pub const ROM_PIDR1: u32 = 0xE00F_FFE4;

/// Peripheral identification 2 of the ROM table.
pub const ROM_PIDR2: u32 = 0xE00F_FFE8;

/// Peripheral identification 4 of the ROM table.
pub const ROM_PIDR4: u32 = 0xE00F_FFD0;

/// Option register of the F2, F4 and F7 families.
pub const FLASH_OPTCR: u32 = 0x4002_3C14;

/// Option register of the F0, F1 and F3 families.
pub const FLASH_OBR: u32 = 0x4002_201C;

/// Option register of the L4, G0 and G4 families.
pub const FLASH_OPTR: u32 = 0x4002_2020;

/// DPIDR of the RP2040, whose debug port is multidrop.
pub const RP2040_DPIDR: u32 = 0x0BC1_2477;

/// TARGETSEL value that selects core 0 of the RP2040.
pub const RP2040_TS_CORE0: u32 = 0x0100_2927;

/// Device identifier under which an RP2040 is filed; no STM32 part has it.
pub const RP2040_DEVID_MARK: u16 = 0xFFE;

} // verus!

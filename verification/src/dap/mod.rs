//! The CMSIS-DAP core. SWD only: JTAG and SWO are not offered.
//!
//! [`Dap::execute_command`] takes one DAP packet and writes its answer. Where the command
//! needs the wire, a pin or time, it says what is to be done instead, and is called again
//! with what came of it.
use vstd::prelude::*;

use crate::dap::swd::SwdConfig;
use crate::probe::{clock_divider, line_test, LineStep, Probe};

pub mod command;
pub mod detect;
pub mod quality;
pub mod reg;
pub mod script;
pub mod sequence;
pub mod swd;
pub mod transfer;
pub mod types;
pub mod wake;

verus! {

/// The probe as the host sees it.
#[derive(Clone, Copy)]
pub struct Dap {
    pub probe: Probe,
    /// Serial number reported to the host.
    pub serial: &'static str,
    /// Product name reported to the host.
    pub product: &'static str,
    /// How transfers are made.
    pub cfg: SwdConfig,
    /// Highest SWCLK, in kHz, at which the AP was found to work; 0 where none is known.
    /// The host cannot go above it.
    pub stable_khz: u32,
    /// The host has chosen an SWCLK.
    pub host_clk_set: bool,
    /// The target is an RP2040, which has to be selected on its multidrop bus.
    pub rp2040: bool,
}

impl Dap {
    pub open spec fn wf(self) -> bool {
        self.probe.wf() && self.cfg.wf()
    }

    /// A probe that has not been configured by a host and has seen no target.
    pub fn new(probe: Probe, serial: &'static str, product: &'static str) -> (r: Self)
        requires
            probe.wf(),
        ensures
            r.wf(),
            r == (Dap {
                probe,
                serial,
                product,
                cfg: SwdConfig {
                    idle_cycles: 0,
                    retry_count: 100,
                    turnaround: 1,
                    data_phase: false,
                },
                stable_khz: 0,
                host_clk_set: false,
                rp2040: false,
            }),
    {
        Dap {
            probe,
            serial,
            product,
            cfg: SwdConfig { idle_cycles: 0, retry_count: 100, turnaround: 1, data_phase: false },
            stable_khz: 0,
            host_clk_set: false,
            rp2040: false,
        }
    }

    /// Sets SWCLK; gives the divider register that brings it about.
    pub fn set_swclk_khz(&mut self, khz: u32) -> (r: u32)
        requires
            old(self).wf(),
            khz > 0,
        ensures
            final(self).wf(),
            *final(self) == (Dap {
                probe: Probe { cached_freq_khz: khz, ..old(self).probe },
                ..*old(self)
            }),
            r == 0x100 * clock_divider(old(self).probe.sys_hz as int, khz as int),
    {
        self.probe.set_swclk_freq(khz)
    }

    /// The SWCLK in force.
    pub fn swclk_khz(&self) -> (r: u32)
        ensures
            r == self.probe.cached_freq_khz,
    {
        self.probe.freq_khz()
    }

    /// Notes the highest SWCLK at which the AP was found to work.
    pub fn set_stable_khz(&mut self, khz: u32)
        ensures
            *final(self) == (Dap { stable_khz: khz, ..*old(self) }),
    {
        self.stable_khz = khz;
    }

    /// The SWCLK that a scan of the target leaves behind: the stable one where the host has
    /// chosen none and one is known, otherwise the one from before.
    pub open spec fn restored_khz(self, saved: u32) -> u32 {
        if !self.host_clk_set && self.stable_khz > 0 {
            self.stable_khz
        } else {
            saved
        }
    }

    /// Sets SWCLK after a scan of the target; gives the divider register.
    pub fn restore_clk(&mut self, saved: u32) -> (r: u32)
        requires
            old(self).wf(),
            saved > 0,
        ensures
            final(self).wf(),
            *final(self) == (Dap {
                probe: Probe {
                    cached_freq_khz: old(self).restored_khz(saved),
                    ..old(self).probe
                },
                ..*old(self)
            }),
            r == 0x100 * clock_divider(
                old(self).probe.sys_hz as int,
                old(self).restored_khz(saved) as int,
            ),
    {
        let khz: u32 = if !self.host_clk_set && self.stable_khz > 0 {
            self.stable_khz
        } else {
            saved
        };
        self.probe.set_swclk_freq(khz)
    }

    /// The steps of the wire test.
    pub fn probe_lines(&self) -> (r: Vec<LineStep>)
        ensures
            r@ == line_test(),
    {
        Probe::probe_lines()
    }
}

} // verus!

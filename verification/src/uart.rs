//! The bridge between the host's serial port and the target's UART.
use vstd::prelude::*;

use crate::autobaud::MAGIC_BAUD;

verus! {

/// What a rate that the host sets asks for.
#[derive(Clone, Copy, PartialEq, Eq, Structural, Debug)]
pub enum BaudCommand {
    /// Find out the target's rate.
    Auto,
    /// Use this rate.
    Fixed(u32),
    /// Leave everything as it is.
    Ignore,
}

impl BaudCommand {
    /// What the rate `baud` asks for.
    pub open spec fn of_rate(baud: u32) -> BaudCommand {
        if baud == MAGIC_BAUD {
            BaudCommand::Auto
        } else if baud == 0 {
            BaudCommand::Ignore
        } else {
            BaudCommand::Fixed(baud)
        }
    }

    /// What a rate that the host sets asks for.
    pub fn from_rate(baud: u32) -> (r: Self)
        ensures
            r == BaudCommand::of_rate(baud),
    {
        if baud == MAGIC_BAUD {
            BaudCommand::Auto
        } else if baud > 0 {
            BaudCommand::Fixed(baud)
        } else {
            BaudCommand::Ignore
        }
    }

    /// The rate that the UART is set to, given the one that was found out where that was
    /// asked for; none where it is left alone.
    pub fn rate(self, detected: Option<u32>) -> (r: Option<u32>)
        ensures
            r == match self {
                BaudCommand::Auto => detected,
                BaudCommand::Fixed(baud) => Some(baud),
                BaudCommand::Ignore => None,
            },
    {
        match self {
            BaudCommand::Auto => detected,
            BaudCommand::Fixed(baud) => Some(baud),
            BaudCommand::Ignore => None,
        }
    }
}

/// What woke the bridge.
#[derive(Clone, Copy, PartialEq, Eq, Structural, Debug)]
pub enum BridgeEvent {
    /// The target sent this many bytes; none where the read failed.
    FromTarget(Option<usize>),
    /// The host sent this many bytes; none where the read failed.
    FromHost(Option<usize>),
    /// The host changed the settings of its serial port; this is the rate.
    Settings(u32),
}

/// What the bridge does.
#[derive(Clone, Copy, PartialEq, Eq, Structural, Debug)]
pub enum BridgeAction {
    Nothing,
    /// Send the bytes that were read, so many, to the host.
    ToHost(usize),
    /// Send the bytes that were read, so many, to the target.
    ToTarget(usize),
    /// Set the rate.
    Rate(BaudCommand),
}

/// Bytes that went each way; the counts wrap round.
#[derive(Clone, Copy, PartialEq, Eq, Structural, Debug)]
pub struct Bridge {
    /// From the target to the host.
    pub rx_bytes: u32,
    /// From the host to the target.
    pub tx_bytes: u32,
}

/// A count after `n` more bytes.
pub open spec fn counted(count: u32, n: usize) -> u32 {
    ((count + n) % 0x1_0000_0000) as u32
}

impl Bridge {
    /// The bridge after an event, and what it does.
    pub open spec fn after(self, event: BridgeEvent) -> (Bridge, BridgeAction) {
        match event {
            BridgeEvent::FromTarget(Some(n)) if n > 0 => (
                Bridge { rx_bytes: counted(self.rx_bytes, n), ..self },
                BridgeAction::ToHost(n),
            ),
            BridgeEvent::FromHost(Some(n)) if n > 0 => (
                Bridge { tx_bytes: counted(self.tx_bytes, n), ..self },
                BridgeAction::ToTarget(n),
            ),
            BridgeEvent::Settings(baud) => (self, BridgeAction::Rate(BaudCommand::of_rate(baud))),
            _ => (self, BridgeAction::Nothing),
        }
    }

    pub fn new() -> (r: Self)
        ensures
            r == (Bridge { rx_bytes: 0, tx_bytes: 0 }),
    {
        Bridge { rx_bytes: 0, tx_bytes: 0 }
    }

    /// Decides what an event leads to: bytes are counted and passed on, a failed or empty
    /// read does nothing, new settings set the rate.
    pub fn step(&mut self, event: BridgeEvent) -> (r: BridgeAction)
        ensures
            (*final(self), r) == old(self).after(event),
            match event {
                BridgeEvent::FromTarget(Some(n)) if n > 0 => {
                    &&& r == BridgeAction::ToHost(n)
                    &&& *final(self) == (Bridge {
                        rx_bytes: counted(old(self).rx_bytes, n),
                        ..*old(self)
                    })
                },
                BridgeEvent::FromHost(Some(n)) if n > 0 => {
                    &&& r == BridgeAction::ToTarget(n)
                    &&& *final(self) == (Bridge {
                        tx_bytes: counted(old(self).tx_bytes, n),
                        ..*old(self)
                    })
                },
                BridgeEvent::Settings(baud) => {
                    &&& r == BridgeAction::Rate(BaudCommand::of_rate(baud))
                    &&& *final(self) == *old(self)
                },
                _ => r == BridgeAction::Nothing && *final(self) == *old(self),
            },
    {
        match event {
            BridgeEvent::FromTarget(Some(n)) => {
                if n == 0 {
                    return BridgeAction::Nothing;
                }
                self.rx_bytes = add_count(self.rx_bytes, n);
                BridgeAction::ToHost(n)
            },
            BridgeEvent::FromHost(Some(n)) => {
                if n == 0 {
                    return BridgeAction::Nothing;
                }
                self.tx_bytes = add_count(self.tx_bytes, n);
                BridgeAction::ToTarget(n)
            },
            BridgeEvent::Settings(baud) => BridgeAction::Rate(BaudCommand::from_rate(baud)),
            _ => BridgeAction::Nothing,
        }
    }
}

fn add_count(count: u32, n: usize) -> (r: u32)
    ensures
        r == counted(count, n),
{
    let more: u32 = (n as u64 % 0x1_0000_0000) as u32;
    count.wrapping_add(more)
}

/// The rate 9728 asks for the true one to be found out, 0 for nothing, any other for itself;
/// the UART is set accordingly, and left alone where nothing was found out.
pub proof fn rates_mean_themselves_but_two(baud: u32, detected: Option<u32>, r: Option<u32>)
    requires
        call_ensures(BaudCommand::rate, (BaudCommand::of_rate(baud), detected), r),
    ensures
        r == if baud == 9728 {
            detected
        } else if baud == 0 {
            None
        } else {
            Some(baud)
        },
        BaudCommand::of_rate(baud) is Auto <==> baud == 9728,
        BaudCommand::of_rate(baud) is Ignore <==> baud == 0,
{
}

/// Counts add up, in 32 bits.
pub proof fn counts_add_up(count: u32, n: usize, m: usize)
    ensures
        count + n <= 0xFFFF_FFFF ==> counted(count, n) == count + n,
        (counted(count, n) - count - n) % 0x1_0000_0000 == 0,
        (counted(counted(count, n), m) - (count + n + m)) % 0x1_0000_0000 == 0,
{
}

/// Bytes go to the other side, all of them, and are counted on the way they went; nothing is
/// counted or passed on for a read that failed or brought nothing, nor for new settings.
pub proof fn bytes_go_to_the_other_side(b: Bridge, n: usize, baud: u32)
    ensures
        n > 0 ==> {
            let (t, from_target) = b.after(BridgeEvent::FromTarget(Some(n)));
            let (h, from_host) = b.after(BridgeEvent::FromHost(Some(n)));
            &&& from_target == BridgeAction::ToHost(n) && from_host == BridgeAction::ToTarget(n)
            &&& t.tx_bytes == b.tx_bytes && (t.rx_bytes - b.rx_bytes - n) % 0x1_0000_0000 == 0
            &&& h.rx_bytes == b.rx_bytes && (h.tx_bytes - b.tx_bytes - n) % 0x1_0000_0000 == 0
        },
        b.after(BridgeEvent::FromTarget(Some(0))) == (b, BridgeAction::Nothing),
        b.after(BridgeEvent::FromHost(Some(0))) == (b, BridgeAction::Nothing),
        b.after(BridgeEvent::FromTarget(None)) == (b, BridgeAction::Nothing),
        b.after(BridgeEvent::FromHost(None)) == (b, BridgeAction::Nothing),
        b.after(BridgeEvent::Settings(baud)).0 == b,
        b.after(BridgeEvent::Settings(baud)).1 == BridgeAction::Rate(
            if baud == 9728 {
                BaudCommand::Auto
            } else if baud == 0 {
                BaudCommand::Ignore
            } else {
                BaudCommand::Fixed(baud)
            },
        ),
{
}

} // verus!

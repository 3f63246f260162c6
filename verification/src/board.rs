//! The boards that the probe runs on.
use vstd::prelude::*;

verus! {

/// How SWDIO is wired.
#[derive(Clone, Copy, PartialEq, Eq, Structural, Debug)]
pub enum IoMode {
    /// SWCLK and SWDIO go straight to the target.
    Raw,
    /// SWDIO goes through a level shifter and is read back on a pin of its own.
    Swdi,
    /// SWDIO has an output-enable pin, active low.
    Oen,
}

/// The pins of the SWD port.
#[derive(Clone, Copy, PartialEq, Eq, Structural, Debug)]
pub struct Pins {
    pub offset: u8,
    pub swclk: u8,
    pub swdio: u8,
    /// Where SWDIO is read back.
    pub swdi: Option<u8>,
    /// The output-enable pin of SWDIO.
    pub swdioen: Option<u8>,
    /// The target's reset, active low.
    pub reset: Option<u8>,
}

impl Pins {
    /// The pin on which the target's answers are read: the one that SWDIO is read back on,
    /// where there is one, otherwise SWDIO itself.
    pub fn input(&self) -> (r: u8)
        ensures
            r == match self.swdi {
                Some(p) => p,
                None => self.swdio,
            },
    {
        match self.swdi {
            Some(p) => p,
            None => self.swdio,
        }
    }
}

/// The pins and settings of the UART bridge.
#[derive(Clone, Copy, PartialEq, Eq, Structural, Debug)]
pub struct UartPins {
    pub tx: u8,
    pub rx: u8,
    pub baudrate: u32,
    pub cts: Option<u8>,
    pub rts: Option<u8>,
    pub dtr: Option<u8>,
    pub hwfc: bool,
}

/// The pins of the lamps, where the board has them.
#[derive(Clone, Copy, PartialEq, Eq, Structural, Debug)]
pub struct Leds {
    pub usb_connected: Option<u8>,
    pub dap_connected: Option<u8>,
    pub dap_running: Option<u8>,
    pub uart_rx: Option<u8>,
    pub uart_tx: Option<u8>,
}

/// A board.
#[derive(Clone, Copy)]
pub struct BoardConfig {
    /// The product name that USB and DAP_Info report.
    pub product: &'static str,
    pub io_mode: IoMode,
    pub probe_sm: usize,
    pub pins: Pins,
    pub uart: UartPins,
    pub leds: Leds,
}

/// The boards.
#[derive(Clone, Copy, PartialEq, Eq, Structural, Debug)]
pub enum Board {
    /// Raspberry Pi Debug Probe.
    DebugProbe,
    /// Raspberry Pi Pico.
    Pico,
    /// Raspberry Pi Pico 2.
    Pico2,
}

/// The UART of every board: pins 4 and 5, 115200 baud, no flow control.
pub open spec fn bridge_pins() -> UartPins {
    UartPins { tx: 4, rx: 5, baudrate: 115_200, cts: None, rts: None, dtr: None, hwfc: false }
}

/// The SWD pins of a Pico: two wires from pin 2 on, reset on pin 1.
pub open spec fn pico_pins() -> Pins {
    Pins { offset: 2, swclk: 2, swdio: 3, swdi: None, swdioen: None, reset: Some(1) }
}

/// The one lamp of a Pico.
pub open spec fn pico_leds() -> Leds {
    Leds {
        usb_connected: Some(25),
        dap_connected: None,
        dap_running: None,
        uart_rx: None,
        uart_tx: None,
    }
}

impl Board {
    /// The settings of the board.
    pub open spec fn settings(self) -> BoardConfig {
        match self {
            Board::DebugProbe => BoardConfig {
                product: "Debug Probe (CMSIS-DAP)",
                io_mode: IoMode::Swdi,
                probe_sm: 0,
                pins: Pins {
                    offset: 12,
                    swclk: 12,
                    swdio: 14,
                    swdi: Some(13),
                    swdioen: None,
                    reset: None,
                },
                uart: bridge_pins(),
                leds: Leds {
                    usb_connected: Some(2),
                    dap_connected: Some(15),
                    dap_running: Some(16),
                    uart_rx: Some(7),
                    uart_tx: Some(8),
                },
            },
            Board::Pico => BoardConfig {
                product: "Debugprobe on Pico (CMSIS-DAP)",
                io_mode: IoMode::Raw,
                probe_sm: 0,
                pins: pico_pins(),
                uart: bridge_pins(),
                leds: pico_leds(),
            },
            Board::Pico2 => BoardConfig {
                product: "Debugprobe on Pico 2 (CMSIS-DAP)",
                io_mode: IoMode::Raw,
                probe_sm: 0,
                pins: pico_pins(),
                uart: bridge_pins(),
                leds: pico_leds(),
            },
        }
    }

    /// The settings of the board.
    pub fn config(self) -> (r: BoardConfig)
        ensures
            r == self.settings(),
    {
        let uart = UartPins {
            tx: 4,
            rx: 5,
            baudrate: 115_200,
            cts: None,
            rts: None,
            dtr: None,
            hwfc: false,
        };
        let pins = Pins { offset: 2, swclk: 2, swdio: 3, swdi: None, swdioen: None, reset: Some(1) };
        let leds = Leds {
            usb_connected: Some(25),
            dap_connected: None,
            dap_running: None,
            uart_rx: None,
            uart_tx: None,
        };
        match self {
            Board::DebugProbe => BoardConfig {
                product: "Debug Probe (CMSIS-DAP)",
                io_mode: IoMode::Swdi,
                probe_sm: 0,
                pins: Pins {
                    offset: 12,
                    swclk: 12,
                    swdio: 14,
                    swdi: Some(13),
                    swdioen: None,
                    reset: None,
                },
                uart,
                leds: Leds {
                    usb_connected: Some(2),
                    dap_connected: Some(15),
                    dap_running: Some(16),
                    uart_rx: Some(7),
                    uart_tx: Some(8),
                },
            },
            Board::Pico => BoardConfig {
                product: "Debugprobe on Pico (CMSIS-DAP)",
                io_mode: IoMode::Raw,
                probe_sm: 0,
                pins,
                uart,
                leds,
            },
            Board::Pico2 => BoardConfig {
                product: "Debugprobe on Pico 2 (CMSIS-DAP)",
                io_mode: IoMode::Raw,
                probe_sm: 0,
                pins,
                uart,
                leds,
            },
        }
    }
}

/// The pins that a board uses, one entry for each use.
pub open spec fn pins_in_use(c: BoardConfig) -> Seq<Option<u8>> {
    seq![
        Some(c.pins.swclk),
        Some(c.pins.swdio),
        c.pins.swdi,
        c.pins.swdioen,
        c.pins.reset,
        Some(c.uart.tx),
        Some(c.uart.rx),
        c.uart.cts,
        c.uart.rts,
        c.uart.dtr,
        c.leds.usb_connected,
        c.leds.dap_connected,
        c.leds.dap_running,
        c.leds.uart_rx,
        c.leds.uart_tx,
    ]
}

/// Every board is wired in a way that the port can drive: both SWD pins are there, the pin
/// that SWDIO is read back on exists just where the wiring has one, and no pin has two uses,
/// lamps counted.
pub proof fn boards_are_wired_consistently(b: Board)
    ensures
        ({
            let c = b.settings();
            &&& c.pins.swclk < 32 && c.pins.swdio < 32
            &&& c.pins.swclk == c.pins.offset
            &&& c.io_mode is Swdi <==> c.pins.swdi is Some
            &&& c.io_mode is Oen <==> c.pins.swdioen is Some
            &&& forall|i: int, j: int|
                0 <= i < j < pins_in_use(c).len() && (#[trigger] pins_in_use(c)[i]) is Some
                    ==> pins_in_use(c)[i] != #[trigger] pins_in_use(c)[j]
        }),
{
}

/// How each board is wired: the Debug Probe reads SWDIO back on a pin between its two wires
/// and has no reset line; a Pico has its two wires side by side and reset on the pin before
/// them. On every board the bridge runs at 115200 baud, without flow control.
pub proof fn boards_have_their_wires(b: Board)
    ensures
        ({
            let c = b.settings();
            &&& b is DebugProbe ==> (c.pins.swclk, c.pins.swdio, c.pins.swdi, c.pins.reset) == (
                12u8,
                14u8,
                Some(13u8),
                None::<u8>,
            )
            &&& !(b is DebugProbe) ==> (c.pins.swclk, c.pins.swdio, c.pins.swdi, c.pins.reset)
                == (2u8, 3u8, None::<u8>, Some(1u8))
            &&& (c.uart.tx, c.uart.rx, c.uart.baudrate, c.uart.hwfc) == (4u8, 5u8, 115_200u32, false)
            &&& c.uart.cts is None && c.uart.rts is None && c.uart.dtr is None
            &&& b is DebugProbe ==> (c.leds.usb_connected, c.leds.dap_connected, c.leds.dap_running)
                == (Some(2u8), Some(15u8), Some(16u8))
            &&& b is DebugProbe ==> (c.leds.uart_rx, c.leds.uart_tx) == (Some(7u8), Some(8u8))
            &&& !(b is DebugProbe) ==> c.leds.usb_connected == Some(25u8)
            &&& c.probe_sm == 0
        }),
{
}

/// The target's answers are read on the pin of their own, where there is one.
pub proof fn answers_are_read_where_they_come_in(b: Board, r: u8)
    requires
        call_ensures(Pins::input, (&b.settings().pins,), r),
    ensures
        b is DebugProbe ==> r == 13,
        !(b is DebugProbe) ==> r == 3,
{
}

} // verus!

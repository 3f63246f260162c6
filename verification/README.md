# debugprobe

The logic of a CMSIS-DAP debug probe for SWD targets, written and proved in Verus: the DAP
commands, the SWD transfers, the detection of the target and the quality of the link, the
scan that looks after the wiring while no host uses the port, the UART bridge with its
automatic baud rate, and everything that the small display shows.

## Layout

- `src/` is the verified library. It never touches a pin. What has to happen outside is
  handed out as a value (a wire operation, an effect, an action), and the library is called
  again with what came of it.
  - `dap/` - packets and their answers (`command`, `sequence`, `transfer`), SWD transfers
    (`swd`), waking and selecting a target (`wake`), detection (`detect`), link quality
    (`quality`). `script` is how procedures of many transfers are written down.
  - `probe`, `wiring`, `logic`, `scan` - the SWD port, the verdict on the wires, the sampled
    waveform, the rounds of the scan.
  - `state`, `display`, `tasks`, `chipdb`, `text` - what the tasks share and how it is shown.
  - `uart`, `autobaud`, `serial`, `usb`, `board`, `targets` - the bridge, the serial number,
    the USB identity, the boards, and the firmware of the boards the probe is tried out on.
- `app/` is the firmware for the RP2040 around it: PIO programs, USB, UART, I2C and tasks.
- `tests/` runs the library, on a simulated target where it needs one.

## What is trusted

`heapless` strings and vectors and one conversion of `fixed` are called through small
functions marked `external_body`. Each says in its comment what is taken for granted.

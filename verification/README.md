# jlink

A verified driver for SEGGER J-Link debug probes.

- `src/` is the driver: JTAG scans, SWD transfers, register accesses with their
  retries and faults, the choice of interface, speed and device. It is written in
  Verus and does no input or output. Each operation is a state machine that asks
  for commands and is resumed with the replies of the probe.
- `app/` opens probes on the USB with the `jaylink` crate, performs the commands
  and hands back the replies.
- `tests/` runs the driver on concrete conversations.

The contract of each `resume` function gives the next step as a function of state
and reply. On top of that, the public proof functions whose names start with
`law_` state what holds of whole conversations: that scans take the TAP controller
from idle to idle and shift in exactly the data, that a register is selected
before it is accessed, that a read only ever gives a value that came with the
right parity, that requests are repeated and time out, that no speed above the
requested one is set.

One function of `jaylink` is called from `src/`: `CommunicationSpeed::khz`. Its
contract in `src/link.rs` is trusted.

# inverter

Verified drivers for hybrid solar/battery inverters over Modbus. Supports
FoxESS H1 G1/G2 and a simulated inverter.

An override (hold, charge, discharge, export) always carries a time to live.
A driver accepts it only if the inverter itself will end it in time, so a
controller that dies leaves the inverter to return to self-use on its own. The
contracts say so for every driver, and the public proof functions whose names
begin with `law_` say what holds of the library as a whole.

## Layout

| Path | What it holds |
|---|---|
| `src/driver.rs` | `Inverter`, the interface of every driver, and `InverterExt` |
| `src/mode.rs`, `src/command.rs`, `src/capabilities.rs`, `src/telemetry.rs`, `src/error.rs` | the values that drivers take and give |
| `src/decimal.rs` | quantities, exact to 10^-15 |
| `src/register.rs` | register definitions, decoding and encoding |
| `src/frame.rs`, `src/crc.rs` | Modbus frames: building, reassembly, checking |
| `src/modbus.rs`, `src/record.rs` | access to one unit, retries, and the record of what was asked of a bus |
| `src/foxess.rs`, `src/foxess/` | the FoxESS driver: register maps, the order of its writes, and what that order guarantees |
| `src/mock.rs`, `src/mock/` | the simulated inverter and its relay indicator |
| `src/factory.rs` | choosing a driver from configuration |
| `src/commissioning.rs`, `src/commissioning/` | one bounded commissioning command: parsing, limits, and the course of the test |
| `src/text.rs`, `src/time.rs` | messages, and what is relied on from the standard library's clock |
| `tests/` | the library at work on concrete values |
| `app/` | serial ports, TCP bridges, signals and floating-point numbers around the library |

## What is trusted

Frames are built and checked by `rmodbus`; the six functions in `src/frame.rs`
that call it state what it does. `src/time.rs` states what
`std::time` does. A few more give a name to what the standard library prints or
parses. Everything else is proved.

## FoxESS

Commands use function 6, with at least 30 ms after every write:

1. Disable remote control, select self-use and clear the old power setpoint.
2. Enable remote control, then set and read back the timeout at `44001`.
3. Write power to `44002`, loading the watchdog.

H1 G2 resets the timeout to 60 seconds when enabled, so it must be written
afterwards. Programming failures trigger a best-effort return to passive.
Requested times to live range from 1 to 65,535 seconds; fractions round down.

`discharge()` is unsupported because this control cannot guarantee house-only
discharge as load changes; use `export()` for export-capable discharge. Remote
charging does not respect the inverter's maximum SoC setting; the controller
must enforce it.

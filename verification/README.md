# pax

A Bluetooth toolkit in verified Rust: discovery, pairing, file transfer and diagnostics over one
backend interface, with a deterministic mock backend that needs no hardware.

What the library's functions do is stated in contracts that
[Verus](https://github.com/verus-lang/verus) proves. The observer that does nothing has none, nor
have the methods of the interfaces whose behaviour is up to whoever implements them. Contracts are
stated over plain mathematical values: each type has a view, and each operation says what it
returns or changes in terms of views alone.

## Layout

- `src/` is the library.
  - Vocabulary: `address`, `device`, `uuid`, `version`, `standards`, `hardware`, `peer`, `time`,
    `event`, `observe`, `error`, and `text` underneath them.
  - Backends: `backend` is the interface; `pairing`, `agents`, `transfer` and `transport_error`
    are its parts; `mock`, `mock_device`, `mock_model`, `mock_laws` and
    `mock_workflows` are the mock.
  - Workflows: `workflow` pairs with one device, `batch` with many, `upload` pushes files,
    `progress` follows them.
  - Diagnostics: `recorder`, `metrics`, `analyze`, `report`.
  - Decisions of backends for real adapters: `adapter`, `live`, `bridge`, `mgmt`, `obex`,
    `obexd`, `phone_push`, `port_auth`, `wpa`.
  - `cli` holds the commands of the command line.
- `tests/` runs the library.
- `app/` is the `pax` program and the backends for real adapters: sockets, D-Bus, JNI, clocks,
  and whatever is measured in floating point.

## How a workflow is stated

A backend is seen through the states that it passes through. The ghost relation
`BluetoothBackend::does` says what a call, with its arguments and its result, may do to a backend;
of the calls that a backend may lack, a contract speaks through their own contracts. A workflow's
contract says which calls lead from the state before it to the state after it, in which order, with
which pairing agent, and how its own result follows from theirs. So a workflow is proved for every
backend, whatever the radio does, and what it gives on the mock follows from what the mock does.

What the mock does is stated completely in `mock_model`: the state and the events after each
operation are a function of the state before it, of the arguments, and of what the pairing agent
answers.

## What is taken on trust

- `String::push` appends a character.
- `str::to_lowercase` and `char::is_alphanumeric` depend on their argument alone.
- Nothing is claimed of what the system clock reads.

## Real adapters

The mock is always there. The backends for BlueZ, btleplug and iOS are compiled into the program
with `--cfg feature="bluez"`, `--cfg feature="btleplug"` and `--cfg feature="ios"`; the first two
need the D-Bus development headers on Linux. The Android backend is made to be embedded in an app.

```text
pax scan                             # list every device in range
pax pair AA:BB:CC:DD:EE:FF           # pair with one device
pax pair-many A B C                  # pair with several
pax accept --window 30               # accept pairings for a while
pax send AA:BB:CC:DD:EE:FF file.bin  # push a file
pax gatt read AA:.. 180a 2a29        # read a GATT characteristic
pax spoof 02:00:00:11:22:33          # change the local address
pax doctor                           # run a session and report on it
```

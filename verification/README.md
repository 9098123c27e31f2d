# bebop

A cycle-level model of the Buckyball NPU and of the Gemmini accelerator,
with the behaviour of each unit stated in contracts and proved with Verus.

## Layout

- `src/` is the verified library.
  - `arch/buckyball/`: the units of the Buckyball pipeline (reservation
    station, memory controller and banks, scoreboard, DMA loader and storer,
    systolic array, vector unit, matrix-set allocator), each a state machine
    from state and event to next state and action.
  - `arch/gemmini/`: the Gemmini accelerator: configuration, move-in
    placement, the systolic tile in both dataflows, normalisation, move-out
    and pooling, the `loop_ws` and `loop_conv_ws` command generators, and the
    instruction dispatch.
  - `arch/bemu.rs`: the in-tree emulator of the NPU's instructions.
  - `buckyball/`: the bank map table, the decoder and reorder buffer of the
    pipeline, and the front-end and memory-domain units.
  - `message.rs`: the JSON bodies the units exchange, read through
    `serde_json`.
- `tests/` runs the library on concrete values.
- `app/` is the simulator around the library: the command line, the DEVS
  simulation of `sim`, the host DMA channels, and the single-precision
  scaling steps of Gemmini.

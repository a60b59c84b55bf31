# dora-lerobot-hal

Device protocol drivers and local safety state machines for LeRobot-compatible arms
(SO-ARM with Feetech servos, B601-DM with Damiao motors, B601-RS with RobStride motors),
written in Verus with their contracts proved.

Layout:

- `src/` — the verified library. Protocol codecs (`feetech`, `damiao`, `damiao_bridge`,
  `rs_mit`), the Feetech bus (`feetech_bus`), the robot lifecycle and safety machines
  (`so_arm`, `dm_adapter`, `rs_adapter`) and the node rules (`node`). The machines are
  sans-I/O: each `step` takes the owner's report of what happened and returns the next piece
  of transport work, following a spec function (`bus_step`, `so_step`, `dm_step`, `rs_step`)
  over which the safety laws are proved.
- `app/` — ordinary Rust around the library: async transports and the drivers that run the
  machines over them, floating-point unit conversions and rate limiting, HAL sessions, YAML
  configuration and the Dora nodes.
- `tests/` — tests of the library through its public API, with in-memory transports.

# vision_lab

The verified core of Vision Lab, a local vision experimentation system in
which a camera, a vision processor, a recorder and a system mirror talk
through commands, events, state snapshots and a latest-frame stream.

`src/` is a Verus library. It holds the decisions each component makes and
the formats it reads and writes, each with a contract:

- `comm`: identities, random ids and their text, envelopes, receipts, API
  errors and their messages.
- `counter`: monotonic sequence/revision counters and the tally of a
  latest-value stream.
- `camera`, `sim_frame`: device and format selection, the simulated camera's
  lifecycle and the frames it draws.
- `native_camera`, `pixel_convert`: the native camera's permission,
  connection and streaming transitions, format lookup, and the conversion of
  captured pixel buffers to grayscale.
- `frame`, `payload`: frame layout, grayscale packing, the detectors' image
  and the base64 frame payload shown to the operator.
- `vision`: algorithm selection, template and processing lifecycle, input
  frame accounting.
- `recorder`, `pgm`, `ordering`, `text`: the recorder's state machine,
  session and frame file names, the PGM frame file (written and read back),
  record lookup and stable ordering.
- `mirror`: per-source sequence-gap detection, refresh planning and the
  bounded recent event log.

`app/` is ordinary Rust around the library: tokio channels and timers, file
access, the floating-point detectors and rates, and serde copies of the
library's types. `tests/` exercises the library from outside.

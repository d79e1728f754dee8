# onnx_serving

A server for ONNX models with an HTTP interface and a gRPC interface, written as a
Verus library with a thin program around it.

- `src/` is the library: reading payloads (CSV, JSON, JSON lines) into model input,
  choosing columns, building tensors, writing predictions out, and the steps of a
  request over each interface. Every function states what it gives for every input.
- `src/laws/` states what holds of the service as a whole, above all that both
  interfaces answer alike.
- `app/` holds what the library leaves out: sockets, files, waiting for permits, the
  model runtime, and all floating-point arithmetic.
- `tests/` runs the library.

Numbers are held by their text in the library. Which texts read as numbers is stated
in `src/numeral.rs`; what they come to as floating-point numbers is left to `app/`.

A request is worked on in steps. Between two steps the program does what only it can
do: it waits for a permit, loads the model, or runs it. Over HTTP the steps are
`http_invocations`, `PendingRequest::proceed` and `PendingInference::finish`; over gRPC
they are `InferenceGrpcService::predict`, `OpenedCall::after_permit`,
`PermittedCall::after_load` and `PendingPrediction::finish`.

`Cargo.toml` names two crates for reasons that do not show in the code: `prost` is what
the messages in `app/grpc.rs` are derived with, and `kstring`, which `tract-onnx` brings
in through `liquid-core`, is held to the newest version that builds with the
`rust-version` stated there.

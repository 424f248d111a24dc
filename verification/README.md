# ioc

The verified core of an input/output/control framework for small robots and
remotely operated devices: named inputs and outputs, transformers between
them, a state store that a web UI watches, camera control and MJPEG framing.

- `src/` is the library, written and proved with Verus. Floating-point values
  travel through it as their IEEE-754 bit patterns (`ieee.rs`), so that the
  configuration rules, state stores, subscriptions, stream framing and device
  register arithmetic can be stated and proved exactly.
- `tests/` runs the library on concrete values.
- `app/` is the program around it: configuration loading, GPIO and I2C access,
  the web server, the camera process, and the floating-point control loops.

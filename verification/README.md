# helic

Verified logic of the HELIC-DAQ data-acquisition platform: the control and
stream wire formats, the parameter registry and request handling of the
firmware, the integer signal-generation state, sensor stream parsers, and
the broker's client, stream, history and recording bookkeeping.

- `src/` is the library, written in Verus. Every function carries a
  contract that the verifier proves; the laws the platform promises (round
  trips of every codec, parser recovery, history retention, exclusive table
  uploads, delivery only to live clients, and more) stand as public proof
  functions beside the code they are about.
- `tests/` exercises the library on concrete values.
- `app/` is the broker program around the library: command-line handling,
  TCP and UDP networking with tokio, and HDF5 recording. It holds no
  decisions of its own; those are library calls.

Floating-point work (PLL, PID, RPM estimation, lookup tables, volt
conversion) and the embedded firmware tasks are outside the library.

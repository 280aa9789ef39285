# RF-Rig

A circuit-level guitar pedalboard: seven pedals (compressor, overdrive,
distortion, fuzz, chorus, delay, reverb) in whatever order their `position`
parameters describe, behind one flat block of host parameters.

## Layout

- `src/` is the verified library (Verus). It holds the parameter contract and
  its pages, the pedal table and the chain-order rule, the factory boards, the
  serialised state and its migration rule, the circular delay line and the
  memory block the time-based pedals share, the adapter's bus and automation
  rules, and the bench's manifest and command-line readers. Every public
  function carries a contract, and the properties that span functions (the
  chain is a unique stable permutation, a saved block loads back unchanged,
  an earlier layout still loads, a restore is all or nothing and keeps the
  defaults of what a shorter block predates, a write moves every tap of a delay line back
  by one, automation lands on its frame, every factory board stays inside the
  contract) are proof functions.
- `tests/` runs the library on concrete values.
- `app/` is the audio engine, the circuit models, the host adapter and the
  bench binary: the floating-point arithmetic, file I/O and JSON rendering,
  built on the library's tables and decisions.

# uuid7-rs

A UUID version 7 generator and UUID value type for Python, with its core
written in Verus and proved against its contracts.

## Layout

- `src/` — the verified library.
  - `model.rs`: the mathematical model (the 128-bit value of a UUID, its
    bytes, hexadecimal digits, text forms and fields) and the lemmas about it.
  - `hex/`: formatting and parsing of the 32-digit and dashed text forms.
  - `parse.rs`: reading a UUID from text, bytes, `bytes_le`, an integer or
    six fields; writing its bytes.
  - `rng.rs`: the generator state, the monotonic clock step, the fast and
    secure generators, and the monotonicity law.
  - `uuid/`: the UUID value and its Python-visible properties, comparisons
    and hash; how the constructor and `uuid7()` read their arguments.
  - `roundtrip.rs`: the laws that each form reads back as the UUID it came
    from.
  - `unix/`: the system clock (`SystemClock`), through the standard library.
  - `windows/`: the arithmetic of the Windows interrupt-time clock and its
    epoch offset, on readings passed in. The generator reads whichever clock
    (`rng::MsClock`) it is handed: `app/` hands it the Windows clock on
    Windows and the system clock elsewhere.
  - `python/`: errors with their Python exception classes and messages, the
    plain values read of call arguments, and the integer digit layout.
- `app/` — the Python extension module (pyo3): it converts Python objects to
  the plain values the library takes and back, and reads the Windows
  counters.
- `tests/` — tests of the library on concrete values.

# flint_render

Verified rendering-support logic for the Flint engine, written in Verus.

* `src/` — the library. Every function carries a `requires`/`ensures`
  contract proved by Verus; `law_*` proof functions state properties that
  span several operations (cycling of debug modes, read-after-write of the
  atlas registry, uniqueness and coverage of wireframe edges, rounding of
  displayed counts, sprite batching, readback padding, buffer growth, glyph
  cells, adapter override handling).
* `tests/` — executable tests against the compiled library.
* `app/` — ordinary Rust around the library: file and environment access,
  the process-wide adapter override slot, `Display` for errors, and the
  floating-point parts (UV division, text advance, UI fill, Euler angles,
  frame timing).

TOML documents are parsed by the `toml` crate behind one trusted wrapper and
handed to the verified code as a plain tree (`toml_doc::TomlValue`).

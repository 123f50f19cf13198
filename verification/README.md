# flarion

The decision logic of the Flarion inference gateway, written in Verus and
proved against its contracts.

- `src/` is the verified library: configuration and its validation, VRAM
  budgets and reservations, upstream URL checks, `${VAR}` interpolation,
  the OpenAI and Anthropic request and response conversions, error
  mapping, the chat handler's admission and bookkeeping, the request
  tracker, the local model's load/unload/eviction state machines, the
  generation run and the order of a stream's chunks, the client-side
  endpoint file, and the CLI's text output. Calls into outside crates
  (NVML, `url`, `regex`, `serde_json`, `reqwest`'s status codes, `subtle`)
  go through small trusted wrappers whose contracts say what those crates
  document.
- `tests/` exercises the library from outside.
- `app/` is the program around it: argument parsing, reading and writing
  files, HTTP client calls, and the metrics exporter.

Public proof functions named `law_*` state the properties that hold across
calls (for example that the reserved VRAM total is the sum of the
reservations, or that a stream sends at most one final chunk, last).

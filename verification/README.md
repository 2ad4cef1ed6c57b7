# condor_eye

A screen-capture service for agents: it captures screen regions, asks a
vision model about them, compares order books read off the screen with a
ground-truth feed, and taps the audio of meeting applications into
transcribed chunks.

## Layout

- `src/` is the library, written and proved with Verus. It holds the
  configuration, the order-book comparison, the capture planning and the
  HTTP answers, the audio chunking and tap registry, file naming and
  retention, and the message formats of the outside services. Each public
  function states its result in `ensures`; the `law_*` proof functions state
  what holds across calls.
- `app/` is the program around it: the HTTP servers, the platform's screen,
  window, keyboard and audio APIs, files and the network.
- `tests/` runs the library on concrete values.

Prices are fixed-point integers (millionths of a price unit) and costs are
counted in 10^-12 dollars, so the library holds no floating point.

## Design notes

- **Tap registry.** Taps are kept in a `Vec` whose entries have distinct
  ids (the registry's invariant), looked up by id. A map keyed by the tap id
  string would need facts about `String` hashing and equality that the
  verifier does not have; with the vector, every operation's effect on the
  registry is stated and proved exactly.
- **Chunk plan.** Any chunk length is accepted: a length of 0 counts as one
  second, and the overlap is cut to the chunk's length (it is a `u16` of
  milliseconds, so it never exceeds 65.535 s).
- **Settings.** Besides the documented variables, the library reads
  `CONDOR_AUDIO_CHUNK_SECONDS` (default 10), `CONDOR_AUDIO_STITCH_MS`
  (default 1500), `CONDOR_INTEL_URL` (default `http://localhost:8791`) and
  the switch `CONDOR_AUDIO_AUTO_WATCH` (on for `1`, `true`, `yes` or `on`,
  ignoring case and surrounding blanks; off otherwise).
- **Provider names.** The default vision model and the program names of the
  review tools are derived in `app/` from the review provider's wire name;
  the library takes them as arguments and states what it does with them.

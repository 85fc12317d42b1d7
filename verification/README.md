# recur64

The bookkeeping core of a self-play / replay / learning loop for a chess
engine, written in Verus and proved against its contracts.

## Layout

- `src/` — the verified library.
  - `rng` — SplitMix64 with its exact output stream.
  - `rules` — colors, outcomes, terminations and their stable labels.
  - `text`, `hashing` — character helpers, decimal parsing and printing,
    CRC-32 (stated bit by bit, with a proof that it catches every
    single-byte error) and SHA-256, each behind a small trusted wrapper, and
    lower-case hex.
  - `replay::{schema, frame, writer, reader, capacity, sampler, audit}` —
    replay records, shard framing and integrity checks, shard naming and
    manifest accounting, capacity archiving plans, the recency-weighted
    sampler index, and the replay audit.
  - `config`, `identity`, `sweep` — run configuration resolution
    (collection shape, effective batch, learning-rate schedule), the
    scientific identity of a run, and sweep cells.
  - `coordinator`, `pilot`, `learner`, `puct`, `gpu_telemetry`, `run_dir`,
    `cancel`, `evaluator` — per-game seeds and collection counts, pilot
    stop/promotion decisions, the accepted trajectory and the model lineage, training order and
    sample provenance, the root move choice, GPU sample folding and query
    parsing, run-directory layout and metadata, cancellation, evaluation
    errors.
- `tests/` — tests of the library through its public API.
- `app/` — the I/O, serialization and floating-point parts around the
  library: shard and manifest files, TOML configs and JSON records, Ctrl+C,
  `nvidia-smi`, the PUCT search and the learning-rate curve.

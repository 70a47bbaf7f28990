# ternary-transfer

Transfer learning for ternary agents: move knowledge learned in a source domain
into a target domain, measure the domain gap between them, and flag negative
transfer.

## Layout

- `src/` — the verified library (Verus):
  - `ternary.rs` — the trit type {-1, 0, +1} and its integer round trip;
  - `task.rs` — feature tags (name and expected ternary direction), the first
    position of a name, and the features a source shares with a target;
  - `domain.rs` — the name matching behind the domain gap (partners, shared
    count, bias disagreements) and its laws: the overlap is at most one for
    distinct source names, disagreements never exceed shared features, and a
    task compared with itself shares everything;
  - `strategy.rs` — strategy kinds and their names, and the slot plans of the
    direct copy (padded or truncated to the target) and the selective transfer;
  - `seed.rs` — the 64-bit linear congruential stream behind seeded knowledge
    matrices, read as signed 32-bit samples;
  - `negative.rs` — risk levels and the advice for a verdict.
- `app/` — the `f64` interface: knowledge matrices, domain gap, transfer score,
  strategies and the negative-transfer detector, whose arithmetic is floating
  point and so stays outside the verified library; they call the library for
  the name matching and its counts, the direct-copy and selective slot plans,
  the seed stream, the strategy names and the advice text. The float formulas
  built on those counts (the domain gap's ratios and the score) stay here.
- `tests/` — tests of the library.

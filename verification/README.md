# imads

A deterministic, multi-fidelity mesh adaptive direct search (MADS) engine whose
integer and combinatorial core is verified with Verus.

## Layout

- `src/` — the verified library (`imads`):
  - `types` — identifiers, mesh points, fidelity steps, candidate state, cache keys;
  - `mesh`, `poll` — integer mesh lattices, refinement, the sealed positive-spanning poll;
  - `ladder` — default levels, the staircase fidelity ladder, paired checkpoints,
    audit targets, the objective-pruning gate;
  - `hashing`, `audit` — FNV-1a digests of run metadata and keys, hash-threshold audit selection;
  - `engine` — the step rule that moves a candidate through its life cycle, dispatch,
    statistics, executor chunking;
  - `store`, `iteration` — the run-global candidate store and per-iteration control;
  - `calibrator`, `kstats`, `window` — audit bookkeeping, solver-bias interval keys,
    bounded sample windows;
  - `dids`, `scheduler`, `search`, `evaluator` — DIDS history and assignment
    bookkeeping, the FIFO scheduler, SplitMix64 and coordinate picks, the toy
    evaluator's seeds;
  - `config`, `presets`, `c_api` — integer configuration rules, the preset catalogue,
    plain descriptors for foreign callers.
- `app/` — the runtime around it: floating-point estimates and margins, search
  proposals, calibration controllers, executors, the engine loop, preset
  configurations and the C ABI.
- `tests/` — tests of the library.

Every function in `src/` carries a `requires`/`ensures` contract proved by Verus;
the laws of the library (ladder monotonicity, nested meshes, audit stickiness,
ledger consistency, unique identifiers in the store, and others) are public proof
functions next to the code they describe.

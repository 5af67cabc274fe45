# cp_ai

The AI players of *Colonizing Pirkanmaa*, a turn-based territory game: a
heuristic CPU with a family of preset personalities, and a policy network
that chooses among macro-action candidates, with test-time tree search and
self-play around it.

## Layout

- `src/` — the verified library (Verus). The decision rules are stated here
  as contracts over plain values and proved:
  the economy metrics and affordability guards (`metrics`, `safety`), the
  heuristic CPU's presets and phase gates (`hard_ai`, `assault`, `defence`,
  `march`, `placement`, `staffing`), the policy's candidate gates and turn
  loop (`intents`, `candidates`), the stable priority orders they share
  (`order`), HQ-connectivity cuts and distances (`spatial`), the tensor
  layout, generators and network shapes (`cnn`, `policy`, `mlp`,
  `policy_spatial`, `spatial_arch`, `planes`, `features`), and game
  bookkeeping (`run`, `selfplay`, `search`).
- `app/` — the runtime around it: the floating-point networks and their
  trainers, genome files, the scaling of the board channels to floats, and
  the drivers that read the game engine into the library's views, call its
  rules in the order of a turn, and carry out its decisions (which tiles are
  reachable, which unit moves, and the engine's own checks stay there).
- `tests/` — scenario tests of the library.

# softbody

The core of a small soft-body simulator, verified with Verus.

- `src/` is the verified library:
  - `aux`: the sparse map from state points to auxiliary points
    (`Weight`, `AuxRow`, `AuxState`, fixed-point `Lin` weights);
  - `matrix`: the block layout of dense matrices (`join_right`,
    `join_down`, `identity`, `to_matrix`) for any entry type;
  - `force::spring`: where a spring writes its restoring blocks and
    residual terms (`stamp_spring`);
  - `pade`: the exact factorial terms of the Padé coefficients of `exp`.
- `app/` holds the f64 numerics (points, states, kinematics, LU, the
  Padé exponential, the Krylov step, springs), which call the library for
  layout and coefficients.
- `tests/` runs the library on concrete values.

# monstertruck_ops

Planar shell/thicken, hollow and draft of B-rep solids, path sweeping, and
the kind dispatch of the modeling geometry enums.

- `src/` is the verified library (Verus). It holds the decisions and the
  topology bookkeeping of the operations, on integer ids and the results of
  the caller's floating-point tests:
  - `topology`: vertex/face incidence, id interning, face-id resolution,
    shared-edge detection;
  - `planar`: merging the plane constraints around a vertex and choosing
    the system that places it;
  - `shell`, `draft`, `path_sweep`: the checks of each operation, in order,
    and the face layout of thickened and hollowed results, with laws on
    face counts and on hollowing without open faces;
  - `geometry`: which concrete computation applies to which curve and
    surface variants;
  - `small`: the short inline index lists (`smallvec`) that the incidence
    tables use.
- `app/` is ordinary Rust: the monstertruck types, the floating-point
  geometry, the error types with their `Display` (thiserror), serde, and
  the public operations that call into the library.
- `tests/` exercises the library on concrete values.

# geosolve_linkage

Planar and spatial rigid-body linkage topology, verified with Verus.

The library (`src/`) holds the discrete side of the linkage model, with
contracts proved by Verus:

- `linkage`, `slots`: the editable planar linkage (bodies, body-local point and
  axis features, joints, drivers, branch monitors) in slot-map stores, with
  referential integrity kept by every operation. Floating-point values travel
  as IEEE 754 bit patterns; finiteness and sign are read from the bits.
- `model`, `runtime_ids`, `ids`, `text`: shared vocabulary, runtime and
  persistent identities, hexadecimal identity text, label trimming.
- `planar`, `planar_capture`, `planar_lowering`, `planar_document_lowering`,
  `idmap`: persistent planar documents — structural validation, capture of a
  runtime linkage, lowering of sources and of whole documents into a linkage,
  reading accepted state back, persistent/runtime identity maps.
- `union_find`, `connectivity`, `components`, `gauge`: connected components of
  the body incidence graph and the numerical gauge policy over them.
- `spatial`, `spatial_structure`, `spatial_builder`, `spatial_growth`,
  `spatial_document`, `spatial_document_structure`, `spatial_hysteresis`:
  spatial assemblies — identity namespaces, structural validation, builders
  that keep the structure valid, documents, and branch-boundary latches.
- `spatial_lowering`, `spatial_capture`, `spatial_boundaries`: the branch
  boundaries a topology implies; lowering persistent sources,
  coordinates, monitors and accepted boundary latches into an assembly, and
  capturing an assembly into persistent records, with the round trips between
  the two.
- `spatial_edits`: transaction edits of an assembly (each value edited at most
  once, every edit replacing one value of one existing object).

`app/` is ordinary Rust around the library: JSON documents (serde), error
messages (thiserror), slot-map key conversions, and the floating-point checks
and arithmetic (axis normalization, work-plane checks, clearance bands, weld
angles, spatial distances, angles and driver targets) whose verdicts the
library takes as inputs.

Numbers are kept as bit patterns wherever the original keeps them: a
captured planar document holds the linkage's accepted poses, local feature
values, weld angles, driver steps and targets, and spatial records hold body
pose guesses, feature local geometry, ground target poses, mate distances,
angles and offset frames.

Not part of this crate: compiling assemblies into the shared constraint
solver, solving, numerical continuation, solver-backed sessions and their
scenarios, and the JSON form of spatial documents. Each rests on an outside
solver crate or on floating-point arithmetic that is not available here.

`tests/` exercises the library on concrete values.

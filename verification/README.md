# libmtk

Verified core of a Minecraft voxel toolkit, written in Verus.

- `src/` is the library. Every function there carries a contract that Verus
  proves, except two trusted wrappers around `str::to_uppercase` and
  `str::to_lowercase` (and a specification of `String::push`) in `src/text.rs`,
  whose contracts Verus takes as given. The library covers directions and
  direction masks, voxel index layouts, light levels, attribute arrays and mesh buffers (vertex, index and face buffers with named
  custom attributes), the face-culling engine (block state parsing, culling
  categories, occlusion shapes, exact 2D box subtraction, the culling rules and
  a bounded metadata cache), culling of coincident faces in imported meshes,
  extrusion topology, and pipeline bookkeeping. Properties that span several
  operations are stated as proof functions (`lemma_*`), mostly in the `laws`
  modules.
- Geometry in the library is exact: face and block coordinates are fixed-point
  integers (`constants::geometry::UNITS_PER_BLOCK` units per block), and
  floating-point mesh components are stored as IEEE-754 bit patterns that the
  library moves but never computes on.
- `app/` is the `mtk` command-line program (`mtk verify cull`) and the
  floating-point geometry around the library: UV analysis, subdivision,
  extrusion, float boxes and coordinate transforms, and the spatial search of
  mesh culling.
- `tests/` exercise the library through its public API.

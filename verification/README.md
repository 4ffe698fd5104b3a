# field_gen

A voxel-field slicer for STL models, with its core verified in Verus.

`src/` is the verified library:

- `grid`, `occupancy`: the x-fastest voxel layout, seed selection in the
  lowest occupied slice, and face-connected component labelling.
- `kernel`, `kernel_file`: the 26-neighbourhood and explicit propagation
  kernels (which moves may be taken, with endpoint or swept-path checks),
  and the rules of the kernel file format.
- `mesh`: boundary edges and vertices of triangle meshes, and vertex
  neighbour lists.
- `bmp`, `ply`, `stl`: the slice-atlas BMP encoding, the binary PLY
  encoding of isosurfaces, and the framing and tokenising of STL files.
- `cli`, `config`, `settings`, `settings_form`, `paths`: the command-line
  grammar, the settings file location, the settings rules and defaults,
  the settings form and how it is applied, the run switches, and the
  output file names.
- `job`, `progress`, `clip`: the output plan of a slice job with its
  cancellation checks, cancellation,
  progress throttling, and the clipping classification rules.
- `text`, `binary64`: decimal text and the binary64 predicates that the
  rules use.

`app/` is the `field-gen` program: argument handling, file I/O, JSON, and
the binary64 geometry (voxelisation, field propagation, isosurface
extraction, clipping) that drives the library.

`tests/` exercises the library on concrete values.

# ray_tracing

A billiard-table ray tracer. The verified library (`src/`) holds the scene
logic: the ball and felt palettes (colours in thousandths), the parsing of
colour names, ball numbers and command-line scene descriptions, the layout
of the default rack, and the permutation tables of the Perlin felt texture.
`app/` holds the program around it: vectors, rays, intersection, materials
and shading, all of which work on `f64`, and the rendering loop that writes
PPM frames.

- `src/color.rs` – the fixed-point colour type
- `src/common.rs` – billiard and felt palettes, colour names
- `src/text.rs` – trimming, integer parsing and lowering of arguments
- `src/material.rs` – number types, matte material, Perlin lattice tables
- `src/scene_builder.rs` – custom scenes from the command line
- `src/random_scene.rs` – the rack of the default scene
- `src/cli.rs` – frame count and the `--custom` flag

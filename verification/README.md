# houtu

Verified core of a quadtree-based 3D globe renderer.

- `src/` (Verus): tile keys and their quadtree relations, the tile grid of a
  geographic tiling scheme, load queues, the imagery cache, the imagery and
  terrain state machines and the walk over a tile's imageries, visibility and
  imagery-range decisions, texture-array extents and shader definitions, and
  the construction of WMTS and XYZ tile URLs and query strings (through the
  `url` and `new_string_template` crates).
- `app/`: floating-point geometry (rectangles, geographic and Web Mercator
  tile rectangles, texel-spacing levels, texture-coordinate packing) and the
  driver loops that run the state machines against an image loader.
- `tests/`: tests of the library.

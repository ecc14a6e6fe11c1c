# grafito_render

Verified integer logic of a GPU-accelerated 2D/3D plot renderer, written in
Verus. Public functions state in their `ensures` what they return, except
where the result is a clock reading; the laws that relate several calls are
public proof functions.

Layout of `src/`:

- `gpu_readback.rs`: a `map_async` readback polled once per frame, with a
  deadline; the first non-pending answer is kept.
- `bytecode.rs`: the stack discipline of the shaders' bytecode interpreters.
- `complex_compute.rs`, `domain_coloring_compute.rs`: which complex programs
  the vertex and grid shaders run, dispatch shapes, and the banding of grids
  above the per-dispatch cell budget.
- `implicit_compute.rs`, `function_compute.rs`: opcodes and their encoding,
  the scalar compiler from expression trees to RPN bytecode with its
  constant limit and stack-depth check, and the per-frame decisions
  of background jobs.
- `parametric_compute.rs`: budgets and buffer layout of curve and surface
  dispatches, and the split of a batched readback back to its curves.
- `vector_compute.rs`, `gpu_timing.rs`: the sample layout of vector fields
  and the timestamp slots of timed compute passes.
- `fill_compute.rs`, `dispatch.rs`: budgets, operator codes and workgroup
  counts.
- `transformed_cache.rs`, `projection_cache.rs`: the bounded caches of
  transformed geometry and of projected polytopes.
- `icosphere.rs`: the triangle topology of subdivided icospheres.
- `depth_3d.rs`: the output budget of the four world-mesh streams, the CPU
  work budget, admission of a 3D scene, the per-object decisions of the
  world-mesh builder, polytope index checks, and rollback.
- `lib.rs`: 2D geometry caps, grid coordinates, fractal sizes, and the 2D
  paint order.

`tests/` exercises the library on concrete values. `app/` holds the
floating-point side that the library leaves to its caller: converting
readbacks into samples, narrowing shader inputs to `f32`, and placing the
vertices of 2D primitives whose indices the library builds.

//! Verified preflight and bookkeeping of a GPU-accelerated 2D/3D plot renderer.
//!
//! Everything the renderer decides with integers before or around a GPU
//! dispatch lives here with its contract: which bytecode programs the
//! compute shaders can run, how large a dispatch may be and how an oversized
//! grid is split, how many workgroups it launches, how a readback is polled
//! across frames, how the four streams of the 3D world mesh are budgeted,
//! and in which order 2D objects are painted.

use vstd::prelude::*;
use vstd::seq_lib::{to_multiset_build, to_multiset_insert};

pub mod bytecode;
pub mod complex_compute;
pub mod depth_3d;
pub mod dispatch;
pub mod domain_coloring_compute;
pub mod fill_compute;
pub mod function_compute;
pub mod gpu_readback;
pub mod gpu_timing;
pub mod icosphere;
pub mod implicit_compute;
pub mod parametric_compute;
pub mod projection_cache;
pub mod transformed_cache;
pub mod vector_compute;

verus! {

/// Detail level of a render pass.
#[derive(Debug, Clone, Copy, PartialEq, Eq, Structural)]
pub enum RenderQuality {
    /// Interactive preview: coarser grids, no filled polytope faces.
    Preview,
    /// Default quality.
    Normal,
    /// Export quality.
    High,
}

/// Samples of a 3D vector field of the given density: the density is
/// clamped to `3..=15` and each axis takes `density + 1` samples.
pub open spec fn vector_field_samples(density: int) -> int {
    let d = if density < 3 {
        3
    } else if density > 15 {
        15
    } else {
        density
    };
    (d + 1) * (d + 1) * (d + 1)
}

/// Samples of a 3D vector field: `(clamp(density, 3, 15) + 1)³`.
pub fn vector_field_3d_sample_count(density: usize) -> (samples: Option<usize>)
    ensures
        samples == Some(vector_field_samples(density as int) as usize),
        vector_field_samples(density as int) <= 4096,
{
    let d: usize = if density < 3 {
        3
    } else if density > 15 {
        15
    } else {
        density
    };
    let side = d + 1;
    assert(side * side <= 256 && side * side * side <= 4096) by (nonlinear_arith)
        requires
            4 <= side <= 16,
    ;
    Some(side * side * side)
}

/// Per-frame ceiling on the number of polygon vertices one object may emit.
pub const MAX_POLYGON_VERTICES: usize = 65_536;

/// A polygon is drawn only with between three and `MAX_POLYGON_VERTICES` vertices.
pub fn polygon_geometry_is_within_limit(vertex_count: usize) -> (ok: bool)
    ensures
        ok == (3 <= vertex_count && vertex_count <= MAX_POLYGON_VERTICES),
{
    3 <= vertex_count && vertex_count <= MAX_POLYGON_VERTICES
}

/// Vertices the 2D geometry buffers may hold.
pub const MAX_GEOMETRY_VERTICES: usize = 1_000_000;

/// Indices the 2D geometry buffers may hold.
pub const MAX_GEOMETRY_INDICES: usize = 3_000_000;

/// Entries kept by the cache of transformed geometry.
pub const TRANSFORMED_CACHE_CAP: usize = 64;

/// Largest number of base vertices of a prism.
pub const MAX_PRISM_BASE_VERTICES: usize = 64;

/// Appending to geometry of `current_*` elements stays within the caps, and
/// every vertex stays addressable by a `u32` index.
pub open spec fn geometry_has_room(
    current_vertices: int,
    current_indices: int,
    additional_vertices: int,
    additional_indices: int,
) -> bool {
    &&& current_vertices + additional_vertices <= MAX_GEOMETRY_VERTICES
    &&& current_vertices + additional_vertices <= u32::MAX
    &&& current_indices + additional_indices <= MAX_GEOMETRY_INDICES
}

/// Whether `additional_*` more vertices and indices may be appended before
/// the buffers or the `u32` index space would overflow.
pub fn can_append_geometry(
    current_vertices: usize,
    current_indices: usize,
    additional_vertices: usize,
    additional_indices: usize,
) -> (ok: bool)
    ensures
        ok == geometry_has_room(
            current_vertices as int,
            current_indices as int,
            additional_vertices as int,
            additional_indices as int,
        ),
{
    let vertices_ok = match current_vertices.checked_add(additional_vertices) {
        Some(count) => count <= MAX_GEOMETRY_VERTICES && count <= u32::MAX as usize,
        None => false,
    };
    let indices_ok = match current_indices.checked_add(additional_indices) {
        Some(count) => count <= MAX_GEOMETRY_INDICES,
        None => false,
    };
    vertices_ok && indices_ok
}

/// Row-major cells and indices of a `resolution` × `resolution` grid
/// correspond one to one: every index inside the grid has a row and a
/// column inside it that give the index back, and every row and column
/// inside the grid give an index inside it whose row and column they are.
pub proof fn lemma_row_major_cells_roundtrip(index: int, row: int, column: int, resolution: int)
    requires
        resolution > 0,
    ensures
        0 <= index < resolution * resolution ==> (0 <= index / resolution < resolution && 0 <= index
            % resolution < resolution && (index / resolution) * resolution + index % resolution
            == index),
        0 <= row < resolution && 0 <= column < resolution ==> (row * resolution + column
            < resolution * resolution && (row * resolution + column) / resolution == row && (row
            * resolution + column) % resolution == column),
{
    if 0 <= index < resolution * resolution {
        vstd::arithmetic::div_mod::lemma_fundamental_div_mod(index, resolution);
        let q = index / resolution;
        let r = index % resolution;
        assert(0 <= r < resolution);
        assert(q * resolution + r == index) by (nonlinear_arith)
            requires
                index == resolution * q + r,
        ;
        assert(0 <= q < resolution) by (nonlinear_arith)
            requires
                resolution > 0,
                index == q * resolution + r,
                0 <= r < resolution,
                0 <= index < resolution * resolution,
        ;
    }
    if 0 <= row < resolution && 0 <= column < resolution {
        assert(row * resolution + column < resolution * resolution) by (nonlinear_arith)
            requires
                0 <= row < resolution,
                0 <= column < resolution,
        ;
        vstd::arithmetic::div_mod::lemma_fundamental_div_mod_converse(
            row * resolution + column,
            resolution,
            row,
            column,
        );
    }
}

/// Row (outer, x) and column (inner, y) of cell `index` of a
/// `resolution` × `resolution` grid stored row-major; `None` outside the grid.
pub fn row_major_cell_coordinates(index: usize, resolution: usize) -> (cell: Option<(usize, usize)>)
    ensures
        cell is Some <==> (resolution > 0 && resolution * resolution <= usize::MAX && index
            < resolution * resolution),
        cell matches Some((row, column)) ==> row == index / resolution && column == index
            % resolution,
        cell matches Some((row, column)) ==> row < resolution && column < resolution && row
            * resolution + column == index,
{
    if resolution == 0 {
        return None;
    }
    let cells = match resolution.checked_mul(resolution) {
        Some(cells) => cells,
        None => {
            return None;
        },
    };
    if index >= cells {
        return None;
    }
    let row = index / resolution;
    let column = index % resolution;
    proof {
        assert(row * resolution + column == index && column < resolution) by (nonlinear_arith)
            requires
                resolution > 0,
                row == index / resolution,
                column == index % resolution,
        ;
        assert(row < resolution) by (nonlinear_arith)
            requires
                resolution > 0,
                row * resolution + column == index,
                column >= 0,
                index < resolution * resolution,
        ;
    }
    Some((row, column))
}

/// Cells of an escape-time fractal grid as the 2D renderer reads them: its
/// side in pixels, and whether its domain is usable (finite bounds with
/// `min < max` on both axes and an iteration budget the fractal module
/// accepts), which the caller decides.
#[derive(Debug, Clone, Copy)]
pub struct FractalGrid {
    pub resolution: usize,
    pub domain_valid: bool,
}

/// Vertices and indices of a fractal drawn as one quad per pixel:
/// `(4 × pixels, 6 × pixels)` for `resolution²` pixels.
pub open spec fn fractal_requirements_spec(grid: FractalGrid) -> Option<(int, int)> {
    let pixels = grid.resolution * grid.resolution;
    if grid.resolution == 0 || !grid.domain_valid || 6 * pixels > usize::MAX {
        None
    } else {
        Some((4 * pixels, 6 * pixels))
    }
}

/// Vertices and indices one fractal adds; `None` for an empty or invalid
/// grid or when a count overflows.
pub fn fractal_geometry_requirements(grid: &FractalGrid) -> (req: Option<(usize, usize)>)
    ensures
        req is Some <==> fractal_requirements_spec(*grid) is Some,
        req matches Some((v, i)) ==> fractal_requirements_spec(*grid) == Some((v as int, i as int)),
{
    if grid.resolution == 0 || !grid.domain_valid {
        return None;
    }
    let pixels = match grid.resolution.checked_mul(grid.resolution) {
        Some(p) => p,
        None => {
            assert(6 * (grid.resolution * grid.resolution) > usize::MAX) by (nonlinear_arith)
                requires
                    grid.resolution * grid.resolution > usize::MAX,
            ;
            return None;
        },
    };
    let indices = match pixels.checked_mul(6) {
        Some(i) => i,
        None => {
            return None;
        },
    };
    Some((pixels * 4, indices))
}

/// Whether a fractal still fits geometry of `current_*` elements; a second
/// fractal that does not fit leaves a partial scene.
pub fn fractal_geometry_fits(current_vertices: usize, current_indices: usize, grid: &FractalGrid) -> (ok:
    bool)
    ensures
        ok == (fractal_requirements_spec(*grid) matches Some((v, i)) && geometry_has_room(
            current_vertices as int,
            current_indices as int,
            v,
            i,
        )),
{
    match fractal_geometry_requirements(grid) {
        Some((additional_vertices, additional_indices)) => can_append_geometry(
            current_vertices,
            current_indices,
            additional_vertices,
            additional_indices,
        ),
        None => false,
    }
}

/// Side of the grid of a complex-plane grid object: the density clamped by
/// render mode (domain colouring `1`: `50..=500`, mode `2`: `50..=400`,
/// otherwise `1..=128`), then capped by quality (preview: 32 for mode 0 and 64
/// otherwise; normal: 200; high: 300).
pub open spec fn complex_grid_resolution_spec(render_mode: u32, density: int, quality: RenderQuality) -> int {
    let base = if render_mode == 1 {
        clamp_int(density, 50, 500)
    } else if render_mode == 2 {
        clamp_int(density, 50, 400)
    } else {
        clamp_int(density, 1, 128)
    };
    let cap = match quality {
        RenderQuality::Preview => if render_mode == 0 {
            32
        } else {
            64
        },
        RenderQuality::Normal => 200,
        RenderQuality::High => 300,
    };
    if base < cap {
        base
    } else {
        cap
    }
}

/// `x` clamped to `lo..=hi`.
pub open spec fn clamp_int(x: int, lo: int, hi: int) -> int {
    if x < lo {
        lo
    } else if x > hi {
        hi
    } else {
        x
    }
}

/// `x` clamped to `lo..=hi`.
pub(crate) fn clamp(x: usize, lo: usize, hi: usize) -> (c: usize)
    requires
        lo <= hi,
    ensures
        c == clamp_int(x as int, lo as int, hi as int),
{
    if x < lo {
        lo
    } else if x > hi {
        hi
    } else {
        x
    }
}

/// Grid side of a complex-plane grid object at a quality.
pub fn complex_grid_resolution(render_mode: u32, density: usize, quality: RenderQuality) -> (res:
    usize)
    ensures
        res == complex_grid_resolution_spec(render_mode, density as int, quality),
{
    let base = if render_mode == 1 {
        clamp(density, 50, 500)
    } else if render_mode == 2 {
        clamp(density, 50, 400)
    } else {
        clamp(density, 1, 128)
    };
    let cap: usize = match quality {
        RenderQuality::Preview => if render_mode == 0 {
            32
        } else {
            64
        },
        RenderQuality::Normal => 200,
        RenderQuality::High => 300,
    };
    if base < cap {
        base
    } else {
        cap
    }
}

/// Segments a phase portrait of the given density may hold:
/// `(density + 1)²`, `None` when that overflows `usize`.
pub fn phase_portrait_capacity_for_density(density: u32) -> (capacity: Option<usize>)
    ensures
        (density + 1) * (density + 1) <= usize::MAX ==> capacity == Some(
            ((density + 1) * (density + 1)) as usize,
        ),
        (density + 1) * (density + 1) > usize::MAX ==> capacity is None,
{
    let d = density as usize;
    if d == usize::MAX {
        assert((d + 1) * (d + 1) > usize::MAX) by (nonlinear_arith)
            requires
                d == usize::MAX,
        ;
        return None;
    }
    let side = d + 1;
    side.checked_mul(side)
}

/// `perm` is a permutation of the three axes.
pub open spec fn is_axis_permutation(perm: [usize; 3]) -> bool {
    &&& perm[0] < 3 && perm[1] < 3 && perm[2] < 3
    &&& perm[0] != perm[1] && perm[0] != perm[2] && perm[1] != perm[2]
}

/// Moves component `i` of `values` to axis `perm[i]`; `None` when `perm` is
/// not a permutation of the three axes.
pub fn apply_quadric_axis_permutation<T: Copy>(perm: [usize; 3], values: [T; 3]) -> (moved: Option<
    [T; 3],
>)
    ensures
        moved is Some <==> is_axis_permutation(perm),
        moved matches Some(out) ==> forall|i: int| 0 <= i < 3 ==> #[trigger] out[perm[i] as int] == values[i],
{
    if !(perm[0] < 3 && perm[1] < 3 && perm[2] < 3 && perm[0] != perm[1] && perm[0] != perm[2]
        && perm[1] != perm[2]) {
        return None;
    }
    let out = [
        pick_axis(perm, values, 0),
        pick_axis(perm, values, 1),
        pick_axis(perm, values, 2),
    ];
    Some(out)
}

/// The component of `values` that `perm` moves to axis `axis`.
fn pick_axis<T: Copy>(perm: [usize; 3], values: [T; 3], axis: usize) -> (v: T)
    requires
        is_axis_permutation(perm),
        axis < 3,
    ensures
        forall|i: int| 0 <= i < 3 && perm[i] == axis ==> v == values[i],
{
    if perm[0] == axis {
        values[0]
    } else if perm[1] == axis {
        values[1]
    } else {
        values[2]
    }
}

/// Paint layers of the 2D scene, back to front.
#[derive(Debug, Clone, Copy, PartialEq, Eq, PartialOrd, Ord, Hash, Structural)]
pub enum SceneLayer2D {
    Background,
    Region,
    Curve,
    Marker,
    Annotation,
}

/// Position of a layer in paint order.
pub open spec fn layer_rank(layer: SceneLayer2D) -> u8 {
    match layer {
        SceneLayer2D::Background => 0,
        SceneLayer2D::Region => 1,
        SceneLayer2D::Curve => 2,
        SceneLayer2D::Marker => 3,
        SceneLayer2D::Annotation => 4,
    }
}

impl SceneLayer2D {
    /// Position of the layer in paint order.
    pub fn rank(self) -> (r: u8)
        ensures
            r == layer_rank(self),
    {
        match self {
            SceneLayer2D::Background => 0,
            SceneLayer2D::Region => 1,
            SceneLayer2D::Curve => 2,
            SceneLayer2D::Marker => 3,
            SceneLayer2D::Annotation => 4,
        }
    }
}

/// Kinds of 2D objects that decide the paint layer; every other 2D object
/// is a curve.
#[derive(Debug, Clone, Copy, PartialEq, Eq, Structural)]
pub enum ObjectKind2D {
    Fractal,
    ComplexGrid,
    Circle,
    Polygon,
    Ellipse,
    Histogram,
    BoxPlot,
    Sector,
    Point,
    ScatterPlot,
    Text,
    ComplexIntegral,
    /// Functions, lines, conics, parametric and implicit curves, fields and
    /// every other 2D object.
    OtherCurve,
}

/// Layer of each kind of 2D object.
pub open spec fn layer_of(kind: ObjectKind2D) -> SceneLayer2D {
    match kind {
        ObjectKind2D::Fractal | ObjectKind2D::ComplexGrid => SceneLayer2D::Background,
        ObjectKind2D::Circle
        | ObjectKind2D::Polygon
        | ObjectKind2D::Ellipse
        | ObjectKind2D::Histogram
        | ObjectKind2D::BoxPlot
        | ObjectKind2D::Sector => SceneLayer2D::Region,
        ObjectKind2D::Point | ObjectKind2D::ScatterPlot => SceneLayer2D::Marker,
        ObjectKind2D::Text | ObjectKind2D::ComplexIntegral => SceneLayer2D::Annotation,
        ObjectKind2D::OtherCurve => SceneLayer2D::Curve,
    }
}

/// Paint layer of a 2D object: fills and backgrounds first, then regions,
/// curves, markers and annotations.
pub fn scene_layer_2d(kind: ObjectKind2D) -> (layer: SceneLayer2D)
    ensures
        layer == layer_of(kind),
{
    match kind {
        ObjectKind2D::Fractal | ObjectKind2D::ComplexGrid => SceneLayer2D::Background,
        ObjectKind2D::Circle
        | ObjectKind2D::Polygon
        | ObjectKind2D::Ellipse
        | ObjectKind2D::Histogram
        | ObjectKind2D::BoxPlot
        | ObjectKind2D::Sector => SceneLayer2D::Region,
        ObjectKind2D::Point | ObjectKind2D::ScatterPlot => SceneLayer2D::Marker,
        ObjectKind2D::Text | ObjectKind2D::ComplexIntegral => SceneLayer2D::Annotation,
        ObjectKind2D::OtherCurve => SceneLayer2D::Curve,
    }
}

/// Kinds of 2D objects as the GPU 2D pass tells them apart.
#[derive(Debug, Clone, Copy, PartialEq, Eq, Structural)]
pub enum GpuObjectKind {
    Function,
    Fractal2D,
    ParametricCurve2D,
    PolarCurve,
    PhasePortrait,
    ComplexGrid,
    Transformed,
    ComplexMapping,
    Point,
    Line,
    Circle,
    Polygon,
    Pencil,
    ImplicitCurve,
    Ellipse,
    Parabola,
    Hyperbola,
    RegressionLine,
    VectorField2D,
    /// Any other object.
    Other,
}

/// The kinds whose image under a conformal map the GPU pass draws.
pub open spec fn mappable_target(kind: GpuObjectKind) -> bool {
    match kind {
        GpuObjectKind::Point | GpuObjectKind::Line | GpuObjectKind::Circle | GpuObjectKind::Polygon
        | GpuObjectKind::Pencil | GpuObjectKind::Function | GpuObjectKind::ImplicitCurve
        | GpuObjectKind::ParametricCurve2D | GpuObjectKind::PolarCurve | GpuObjectKind::Ellipse
        | GpuObjectKind::Parabola | GpuObjectKind::Hyperbola | GpuObjectKind::RegressionLine
        | GpuObjectKind::VectorField2D => true,
        _ => false,
    }
}

/// Whether the GPU 2D pass emits the base geometry of an object.
pub open spec fn gpu_2d_base_owns_spec(
    kind: GpuObjectKind,
    mapping_is_conformal: bool,
    target: Option<GpuObjectKind>,
) -> bool {
    match kind {
        GpuObjectKind::Function | GpuObjectKind::Fractal2D | GpuObjectKind::ParametricCurve2D
        | GpuObjectKind::PolarCurve | GpuObjectKind::PhasePortrait | GpuObjectKind::ComplexGrid
        | GpuObjectKind::Transformed => true,
        GpuObjectKind::ComplexMapping => mapping_is_conformal && match target {
            Some(t) => mappable_target(t),
            None => false,
        },
        _ => false,
    }
}

/// Whether the GPU 2D pass emits the base geometry of an object of kind
/// `kind`: functions, fractals, parametric and polar curves, phase portraits,
/// complex grids and transformed objects always; a complex mapping when its
/// expression is a conformal map (`mapping_is_conformal`, decided by the
/// complex-analysis code) and its target (`None` when the document has no
/// such object) is a point, line, circle, polygon, pencil stroke, function,
/// implicit, parametric or polar curve, conic, regression line or vector
/// field; nothing else.
pub fn gpu_2d_base_owns(
    kind: GpuObjectKind,
    mapping_is_conformal: bool,
    target: Option<GpuObjectKind>,
) -> (owns: bool)
    ensures
        owns == gpu_2d_base_owns_spec(kind, mapping_is_conformal, target),
{
    match kind {
        GpuObjectKind::Function | GpuObjectKind::Fractal2D | GpuObjectKind::ParametricCurve2D
        | GpuObjectKind::PolarCurve | GpuObjectKind::PhasePortrait | GpuObjectKind::ComplexGrid
        | GpuObjectKind::Transformed => true,
        GpuObjectKind::ComplexMapping => {
            mapping_is_conformal && match target {
                Some(t) => match t {
                    GpuObjectKind::Point | GpuObjectKind::Line | GpuObjectKind::Circle
                    | GpuObjectKind::Polygon | GpuObjectKind::Pencil | GpuObjectKind::Function
                    | GpuObjectKind::ImplicitCurve | GpuObjectKind::ParametricCurve2D
                    | GpuObjectKind::PolarCurve | GpuObjectKind::Ellipse | GpuObjectKind::Parabola
                    | GpuObjectKind::Hyperbola | GpuObjectKind::RegressionLine
                    | GpuObjectKind::VectorField2D => true,
                    _ => false,
                },
                None => false,
            }
        },
        _ => false,
    }
}

/// One object of a document as the 2D paint order reads it.
#[derive(Debug, Clone, Copy, PartialEq, Eq, Structural)]
pub struct SceneEntry2D {
    /// Identifier of the object in its document.
    pub id: u64,
    /// Layer the document puts the object on; lower layers paint first.
    pub layer: u32,
    pub kind: ObjectKind2D,
    pub visible: bool,
    pub is_3d: bool,
}

/// `a` paints no later than `b`: a lower document layer first; within a
/// document layer, a lower paint layer of its kind first; then by identifier.
pub open spec fn paints_before(a: SceneEntry2D, b: SceneEntry2D) -> bool {
    a.layer < b.layer || (a.layer == b.layer && (layer_rank(layer_of(a.kind)) < layer_rank(
        layer_of(b.kind),
    ) || (layer_rank(layer_of(a.kind)) == layer_rank(layer_of(b.kind)) && a.id <= b.id)))
}

/// Within one document layer, objects paint by what they are: fractals and
/// complex grids first, then regions (circles, polygons, ellipses,
/// histograms, box plots, sectors), then curves, then markers (points and
/// scatter plots), then annotations (text and complex integrals); each
/// group strictly before every later one, whatever the identifiers.
pub proof fn lemma_kinds_paint_in_groups(a: SceneEntry2D, b: SceneEntry2D)
    requires
        a.layer == b.layer,
    ensures
        (a.kind is Fractal || a.kind is ComplexGrid) && !(b.kind is Fractal || b.kind is ComplexGrid)
            ==> paints_before(a, b) && !paints_before(b, a),
        (a.kind is Circle || a.kind is Polygon || a.kind is Ellipse || a.kind is Histogram
            || a.kind is BoxPlot || a.kind is Sector) && (b.kind is OtherCurve || b.kind is Point
            || b.kind is ScatterPlot || b.kind is Text || b.kind is ComplexIntegral) ==> paints_before(
            a,
            b,
        ) && !paints_before(b, a),
        a.kind is OtherCurve && (b.kind is Point || b.kind is ScatterPlot || b.kind is Text
            || b.kind is ComplexIntegral) ==> paints_before(a, b) && !paints_before(b, a),
        (a.kind is Point || a.kind is ScatterPlot) && (b.kind is Text || b.kind is ComplexIntegral)
            ==> paints_before(a, b) && !paints_before(b, a),
{
}

/// Objects on a lower document layer paint first, whatever they are.
pub proof fn lemma_document_layer_first(a: SceneEntry2D, b: SceneEntry2D)
    requires
        a.layer < b.layer,
    ensures
        paints_before(a, b),
        !paints_before(b, a),
{
}

/// The entries painted by the 2D pass: visible, not 3D.
pub open spec fn is_painted_2d(e: SceneEntry2D) -> bool {
    e.visible && !e.is_3d
}

/// `s` is in paint order.
pub open spec fn in_paint_order(s: Seq<SceneEntry2D>) -> bool {
    forall|i: int, j: int| 0 <= i < j < s.len() ==> paints_before(#[trigger] s[i], #[trigger] s[j])
}

fn entry_paints_before(a: &SceneEntry2D, b: &SceneEntry2D) -> (before: bool)
    ensures
        before == paints_before(*a, *b),
{
    let ra = scene_layer_2d(a.kind).rank();
    let rb = scene_layer_2d(b.kind).rank();
    a.layer < b.layer || (a.layer == b.layer && (ra < rb || (ra == rb && a.id <= b.id)))
}

/// The visible 2D objects in the one order used to paint them and to admit
/// their geometry: by document layer, then by the paint layer of their kind,
/// then by identifier. The result holds exactly
/// the visible 2D entries of `entries`.
pub fn ordered_visible_2d_objects(entries: &[SceneEntry2D]) -> (ordered: Vec<SceneEntry2D>)
    ensures
        in_paint_order(ordered@),
        ordered@.to_multiset() == entries@.filter(|e: SceneEntry2D| is_painted_2d(e)).to_multiset(),
{
    let ghost pred = |e: SceneEntry2D| is_painted_2d(e);
    let mut ordered: Vec<SceneEntry2D> = Vec::new();
    let mut i: usize = 0;
    assert(entries@.take(0).filter(pred) =~= Seq::<SceneEntry2D>::empty());
    while i < entries.len()
        invariant
            i <= entries.len(),
            pred == (|e: SceneEntry2D| is_painted_2d(e)),
            in_paint_order(ordered@),
            ordered@.to_multiset() == entries@.take(i as int).filter(pred).to_multiset(),
        decreases entries.len() - i,
    {
        let entry = entries[i];
        assert(entries@.take(i as int + 1) =~= entries@.take(i as int).push(entry));
        proof {
            entries@.take(i as int).lemma_filter_push(entry, pred);
        }
        if !(entry.visible && !entry.is_3d) {
            assert(!pred(entry));
        }
        if entry.visible && !entry.is_3d {
            let mut pos: usize = 0;
            while pos < ordered.len() && entry_paints_before(&ordered[pos], &entry)
                invariant
                    pos <= ordered.len(),
                    forall|k: int| 0 <= k < pos ==> paints_before(#[trigger] ordered@[k], entry),
                decreases ordered.len() - pos,
            {
                pos += 1;
            }
            let ghost before = ordered@;
            proof {
                to_multiset_insert(before, pos as int, entry);
                assert forall|k: int| pos <= k < before.len() implies !paints_before(
                    #[trigger] before[k],
                    entry,
                ) by {
                    assert(paints_before(before[pos as int], before[k]) || k == pos);
                }
            }
            ordered.insert(pos, entry);
            assert(ordered@ =~= before.insert(pos as int, entry));
            proof {
                to_multiset_build(entries@.take(i as int).filter(pred), entry);
                assert(pred(entry));
            }
            assert forall|a: int, b: int| 0 <= a < b < ordered@.len() implies paints_before(
                #[trigger] ordered@[a],
                #[trigger] ordered@[b],
            ) by {
                if b < pos {
                    assert(paints_before(before[a], before[b]));
                } else if b == pos {
                    assert(paints_before(before[a], entry));
                } else if a < pos {
                    assert(paints_before(before[a], before[b - 1]));
                } else if a == pos {
                    assert(!paints_before(before[b - 1], entry));
                } else {
                    assert(paints_before(before[a - 1], before[b - 1]));
                }
            }
        }
        i += 1;
    }
    assert(entries@.take(entries.len() as int) =~= entries@);
    ordered
}

/// Relation between the two sides of an implicit curve.
#[derive(Debug, Clone, Copy, PartialEq, Eq, Structural)]
pub enum RelationOperator {
    /// `lhs = rhs`: a contour only.
    Eq,
    Less,
    LessEq,
    Greater,
    GreaterEq,
}

/// Whether a document needs the fill pipeline: some implicit curve of it has
/// a fillable operator (anything but `Eq`). `operators` lists the operators
/// of the document's implicit curves.
pub fn document_needs_fill_compute(operators: &[RelationOperator]) -> (needs: bool)
    ensures
        needs == exists|k: int|
            0 <= k < operators@.len() && #[trigger] operators@[k] != RelationOperator::Eq,
{
    let mut k: usize = 0;
    while k < operators.len()
        invariant
            k <= operators.len(),
            forall|m: int| 0 <= m < k ==> #[trigger] operators@[m] == RelationOperator::Eq,
        decreases operators.len() - k,
    {
        if operators[k] != RelationOperator::Eq {
            return true;
        }
        k += 1;
    }
    false
}

/// Reserves room in 2D geometry buffers and returns the index of the first
/// new vertex; `None` when the caps would be exceeded or the allocation
/// fails. The buffers' contents never change.
pub fn reserve_geometry<V>(
    vertices: &mut Vec<V>,
    indices: &mut Vec<u32>,
    additional_vertices: usize,
    additional_indices: usize,
) -> (base: Option<u32>)
    ensures
        final(vertices)@ == old(vertices)@,
        final(indices)@ == old(indices)@,
        !geometry_has_room(
            old(vertices)@.len() as int,
            old(indices)@.len() as int,
            additional_vertices as int,
            additional_indices as int,
        ) ==> base is None,
        base matches Some(b) ==> b == old(vertices)@.len() && geometry_has_room(
            old(vertices)@.len() as int,
            old(indices)@.len() as int,
            additional_vertices as int,
            additional_indices as int,
        ),
{
    if !can_append_geometry(vertices.len(), indices.len(), additional_vertices, additional_indices) {
        return None;
    }
    if vertices.try_reserve(additional_vertices).is_err() {
        return None;
    }
    if indices.try_reserve(additional_indices).is_err() {
        return None;
    }
    Some(vertices.len() as u32)
}

/// The two triangles of a quad whose four corners were appended from `base`
/// on, in order around the quad.
pub fn quad_indices(base: u32) -> (quad: [u32; 6])
    requires
        base + 3 <= u32::MAX,
    ensures
        quad@ == seq![base, (base + 1) as u32, (base + 2) as u32, base, (base + 2) as u32, (base
            + 3) as u32],
{
    let quad: [u32; 6] = [base, base + 1, base + 2, base, base + 2, base + 3];
    assert(quad@ =~= seq![base, (base + 1) as u32, (base + 2) as u32, base, (base + 2) as u32, (base
        + 3) as u32]);
    quad
}

/// Index `k` of a triangle fan around vertex `center`, whose rim vertices
/// follow it: triangle `i` joins the center with rim vertices `i` and `i + 1`.
pub open spec fn fan_index(center: int, k: int) -> int {
    if k % 3 == 0 {
        center
    } else {
        center + k / 3 + k % 3
    }
}

/// Appends the `segments` triangles of a fan around vertex `center` over
/// the `segments + 1` rim vertices appended after it.
pub fn append_fan_indices(indices: &mut Vec<u32>, center: u32, segments: usize)
    requires
        center + segments + 1 <= u32::MAX,
    ensures
        final(indices)@.len() == old(indices)@.len() + 3 * segments,
        final(indices)@.take(old(indices)@.len() as int) == old(indices)@,
        forall|k: int|
            0 <= k < 3 * segments ==> #[trigger] final(indices)@[old(indices)@.len() + k]
                == fan_index(center as int, k),
        forall|k: int|
            old(indices)@.len() <= k < final(indices)@.len() ==> center
                <= #[trigger] final(indices)@[k] <= center + segments + 1,
{
    let ghost start = indices@;
    let mut i: usize = 0;
    while i < segments
        invariant
            center + segments + 1 <= u32::MAX,
            i <= segments,
            indices@.len() == start.len() + 3 * i,
            indices@.take(start.len() as int) == start,
            forall|k: int|
                0 <= k < 3 * i ==> #[trigger] indices@[start.len() + k] == fan_index(
                    center as int,
                    k,
                ),
        decreases segments - i,
    {
        let step: u32 = i as u32;
        let ghost before = indices@;
        indices.push(center);
        indices.push(center + 1 + step);
        indices.push(center + 2 + step);
        proof {
            assert(indices@.take(start.len() as int) =~= before.take(start.len() as int));
            assert forall|k: int| 0 <= k < 3 * (i + 1) implies #[trigger] indices@[start.len() + k]
                == fan_index(center as int, k) by {
                if k < 3 * i {
                    assert(indices@[start.len() + k] == before[start.len() + k]);
                } else {
                    vstd::arithmetic::div_mod::lemma_fundamental_div_mod_converse(
                        k,
                        3,
                        i as int,
                        k - 3 * i,
                    );
                }
            }
        }
        i = i + 1;
    }
    proof {
        assert forall|k: int| start.len() <= k < indices@.len() implies center
            <= #[trigger] indices@[k] <= center + segments + 1 by {
            let j = k - start.len();
            assert(indices@[start.len() + j] == fan_index(center as int, j));
            assert(0 <= j / 3 < segments) by {
                vstd::arithmetic::div_mod::lemma_div_is_ordered(j, 3 * segments - 1, 3);
                vstd::arithmetic::div_mod::lemma_div_multiples_vanish(segments as int - 1, 3);
                vstd::arithmetic::div_mod::lemma_div_pos_is_pos(j, 3);
            }
        }
    }
}

/// Index `k` of a ring strip over pairs of (inner, outer) vertices from
/// `base` on: segment `i` joins pair `i` with pair `i + 1` in two triangles.
pub open spec fn ring_index(base: int, k: int) -> int {
    let i0 = base + 2 * (k / 6);
    let c = k % 6;
    if c == 0 {
        i0
    } else if c == 1 || c == 4 {
        i0 + 2
    } else if c == 2 || c == 3 {
        i0 + 1
    } else {
        i0 + 3
    }
}

/// Appends the `2 * segments` triangles of a ring strip over the
/// `segments + 1` (inner, outer) vertex pairs appended from `base` on.
pub fn append_ring_strip_indices(indices: &mut Vec<u32>, base: u32, segments: usize)
    requires
        base + 2 * segments + 1 <= u32::MAX,
    ensures
        final(indices)@.len() == old(indices)@.len() + 6 * segments,
        final(indices)@.take(old(indices)@.len() as int) == old(indices)@,
        forall|k: int|
            0 <= k < 6 * segments ==> #[trigger] final(indices)@[old(indices)@.len() + k]
                == ring_index(base as int, k),
        forall|k: int|
            old(indices)@.len() <= k < final(indices)@.len() ==> base
                <= #[trigger] final(indices)@[k] <= base + 2 * segments + 1,
{
    let ghost start = indices@;
    let mut i: usize = 0;
    while i < segments
        invariant
            base + 2 * segments + 1 <= u32::MAX,
            i <= segments,
            indices@.len() == start.len() + 6 * i,
            indices@.take(start.len() as int) == start,
            forall|k: int|
                0 <= k < 6 * i ==> #[trigger] indices@[start.len() + k] == ring_index(
                    base as int,
                    k,
                ),
        decreases segments - i,
    {
        let i0: u32 = base + 2 * (i as u32);
        let ghost before = indices@;
        indices.push(i0);
        indices.push(i0 + 2);
        indices.push(i0 + 1);
        indices.push(i0 + 1);
        indices.push(i0 + 2);
        indices.push(i0 + 3);
        proof {
            assert(indices@.take(start.len() as int) =~= before.take(start.len() as int));
            assert forall|k: int| 0 <= k < 6 * (i + 1) implies #[trigger] indices@[start.len() + k]
                == ring_index(base as int, k) by {
                if k < 6 * i {
                    assert(indices@[start.len() + k] == before[start.len() + k]);
                } else {
                    vstd::arithmetic::div_mod::lemma_fundamental_div_mod_converse(
                        k,
                        6,
                        i as int,
                        k - 6 * i,
                    );
                }
            }
        }
        i = i + 1;
    }
    proof {
        assert forall|k: int| start.len() <= k < indices@.len() implies base
            <= #[trigger] indices@[k] <= base + 2 * segments + 1 by {
            let j = k - start.len();
            assert(indices@[start.len() + j] == ring_index(base as int, j));
            assert(0 <= j / 6 < segments) by {
                vstd::arithmetic::div_mod::lemma_div_is_ordered(j, 6 * segments - 1, 6);
                vstd::arithmetic::div_mod::lemma_div_multiples_vanish(segments as int - 1, 6);
                vstd::arithmetic::div_mod::lemma_div_pos_is_pos(j, 6);
            }
        }
    }
}

/// `index` moved past the `base` vertices already in the buffer fits a `u32`.
pub open spec fn rebase_fits(base: u32, index: u32) -> bool {
    base + index <= u32::MAX
}

/// Local indices moved past `base`.
pub open spec fn rebased(base: u32, local: Seq<u32>) -> Seq<u32> {
    local.map_values(|index: u32| (base + index) as u32)
}

/// `after` is `before` followed by the first `p` local indices moved past
/// `base`, where `p` is the position of the first index that does not fit,
/// or all of them.
pub open spec fn rebased_up_to(
    base: u32,
    local: Seq<u32>,
    p: int,
    before: Seq<u32>,
    after: Seq<u32>,
) -> bool {
    &&& 0 <= p <= local.len()
    &&& forall|k: int| 0 <= k < p ==> rebase_fits(base, #[trigger] local[k])
    &&& (p == local.len() || !rebase_fits(base, local[p]))
    &&& after == before + rebased(base, local.take(p))
}

/// Appends the indices of a locally indexed mesh whose vertices were
/// appended from `base` on. Stops at the first index that does not fit a
/// `u32`, keeping those before it, and then reports `false`.
pub fn append_rebased_indices(indices: &mut Vec<u32>, base: u32, local: &[u32]) -> (ok: bool)
    ensures
        ok == forall|k: int| 0 <= k < local@.len() ==> rebase_fits(base, #[trigger] local@[k]),
        exists|p: int| #[trigger]
            rebased_up_to(base, local@, p, old(indices)@, final(indices)@),
{
    let ghost start = indices@;
    let mut k: usize = 0;
    while k < local.len()
        invariant
            start == old(indices)@,
            k <= local@.len(),
            forall|q: int| 0 <= q < k ==> rebase_fits(base, #[trigger] local@[q]),
            indices@ == start + rebased(base, local@.take(k as int)),
        decreases local@.len() - k,
    {
        let index: u32 = local[k];
        match base.checked_add(index) {
            Some(moved) => {
                indices.push(moved);
                proof {
                    assert(local@.take(k as int + 1) =~= local@.take(k as int).push(index));
                    assert(rebased(base, local@.take(k as int + 1)) =~= rebased(
                        base,
                        local@.take(k as int),
                    ).push(moved));
                }
            },
            None => {
                assert(rebased_up_to(base, local@, k as int, start, indices@));
                return false;
            },
        }
        k = k + 1;
    }
    assert(local@.take(k as int) =~= local@);
    assert(rebased_up_to(base, local@, k as int, start, indices@));
    true
}

/// Index range an object added to the 2D geometry, as `u32` bounds; `None`
/// when the object added no index or a bound does not fit a `u32`.
pub fn object_index_range(index_start: usize, index_end: usize) -> (range: Option<
    std::ops::Range<u32>,
>)
    ensures
        range is Some <==> (index_end > index_start && index_end <= u32::MAX),
        range matches Some(r) ==> r.start == index_start && r.end == index_end,
{
    if index_end <= index_start || index_end > u32::MAX as usize {
        return None;
    }
    Some(std::ops::Range { start: index_start as u32, end: index_end as u32 })
}

/// A 2D scene is complete when every fractal fitted and the smallest quad
/// (four vertices, six indices) still fits: otherwise some later object may
/// have been cut at the cap, and the caller keeps its CPU fallback.
pub fn geometry_scene_complete(fractals_complete: bool, vertices: usize, indices: usize) -> (complete:
    bool)
    ensures
        complete == (fractals_complete && geometry_has_room(vertices as int, indices as int, 4, 6)),
{
    fractals_complete && can_append_geometry(vertices, indices, 4, 6)
}

} // verus!

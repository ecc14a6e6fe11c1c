//! Output and work accounting of the world-space 3D mesh.
//!
//! The mesh has four streams: opaque vertices and indices, written to the
//! depth buffer, and wire vertices and indices, drawn as depth-tested
//! overlays (wireframes and translucent solids). Each stream has a hard cap,
//! and the CPU work spent sampling surfaces, curves, attractors and vector
//! fields for one mesh is capped too. A scene is admitted only when every
//! visible object fits what the earlier ones left.

use crate::RenderQuality;
use std::collections::TryReserveError;
use std::sync::OnceLock;
use vstd::prelude::*;

verus! {

/// Vertices each stream may hold.
pub const MAX_WORLD_MESH_VERTICES: usize = 524_288;

/// Indices each stream may hold.
pub const MAX_WORLD_MESH_INDICES: usize = 786_432;

/// Attractors one mesh may sample.
pub const MAX_WORLD_MESH_ATTRACTORS: usize = 8;

/// Steps one attractor may contribute.
pub const MAX_WORLD_MESH_ATTRACTOR_STEPS: usize = 16_000;

/// CPU sample/evaluation units one mesh may consume.
pub const MAX_WORLD_MESH_WORK_UNITS: usize = 65_536;

/// Samples of one parametric 3D curve.
pub const WORLD_MESH_CURVE_STEPS: usize = 4_000;

/// Output of one object in the four streams, in the order (opaque vertices,
/// opaque indices, wire vertices, wire indices).
#[derive(Debug, Clone, Copy)]
pub struct WorldMeshStreamUsage {
    opaque_vertices: usize,
    opaque_indices: usize,
    wire_vertices: usize,
    wire_indices: usize,
}

impl View for WorldMeshStreamUsage {
    type V = (usize, usize, usize, usize);

    closed spec fn view(&self) -> (usize, usize, usize, usize) {
        (self.opaque_vertices, self.opaque_indices, self.wire_vertices, self.wire_indices)
    }
}

impl Default for WorldMeshStreamUsage {
    fn default() -> (usage: Self)
        ensures
            usage@ == (0usize, 0usize, 0usize, 0usize),
    {
        WorldMeshStreamUsage {
            opaque_vertices: 0,
            opaque_indices: 0,
            wire_vertices: 0,
            wire_indices: 0,
        }
    }
}

/// Stream output of opaque triangles, wire triangles and wire segments: a
/// triangle takes three vertices and three indices, a segment (drawn as a
/// quad) four vertices and six indices.
pub open spec fn primitives_usage(opaque_triangles: int, wire_triangles: int, wire_segments: int) -> (
    int,
    int,
    int,
    int,
) {
    (
        3 * opaque_triangles,
        3 * opaque_triangles,
        3 * wire_triangles + 4 * wire_segments,
        3 * wire_triangles + 6 * wire_segments,
    )
}

/// Each of the four counts fits a `usize`.
pub open spec fn fits_usize(c: (int, int, int, int)) -> bool {
    &&& c.0 <= usize::MAX
    &&& c.1 <= usize::MAX
    &&& c.2 <= usize::MAX
    &&& c.3 <= usize::MAX
}

/// The four counts of a usage, as integers.
pub open spec fn usage_counts(u: (usize, usize, usize, usize)) -> (int, int, int, int) {
    (u.0 as int, u.1 as int, u.2 as int, u.3 as int)
}

impl WorldMeshStreamUsage {
    /// Output of the given primitives; `None` when a count overflows `usize`.
    pub fn from_primitives(opaque_triangles: usize, wire_triangles: usize, wire_segments: usize) -> (usage:
        Option<Self>)
        ensures
            usage is Some <==> fits_usize(
                primitives_usage(
                    opaque_triangles as int,
                    wire_triangles as int,
                    wire_segments as int,
                ),
            ),
            usage matches Some(u) ==> usage_counts(u@) == primitives_usage(
                opaque_triangles as int,
                wire_triangles as int,
                wire_segments as int,
            ),
    {
        let opaque_vertices = opaque_triangles.checked_mul(3)?;
        let opaque_indices = opaque_vertices;
        let wire_triangle_vertices = wire_triangles.checked_mul(3)?;
        let wire_triangle_indices = wire_triangle_vertices;
        let segment_vertices = wire_segments.checked_mul(4)?;
        let wire_vertices = wire_triangle_vertices.checked_add(segment_vertices)?;
        let segment_indices = wire_segments.checked_mul(6)?;
        let wire_indices = wire_triangle_indices.checked_add(segment_indices)?;
        Some(WorldMeshStreamUsage { opaque_vertices, opaque_indices, wire_vertices, wire_indices })
    }
}

/// Conservative running total of the four streams of one mesh.
#[derive(Debug, Clone, Copy)]
pub struct WorldMeshOutputBudget {
    opaque_vertices: usize,
    opaque_indices: usize,
    wire_vertices: usize,
    wire_indices: usize,
}

impl View for WorldMeshOutputBudget {
    type V = (usize, usize, usize, usize);

    closed spec fn view(&self) -> (usize, usize, usize, usize) {
        (self.opaque_vertices, self.opaque_indices, self.wire_vertices, self.wire_indices)
    }
}

impl Default for WorldMeshOutputBudget {
    fn default() -> (budget: Self)
        ensures
            budget@ == (0usize, 0usize, 0usize, 0usize),
    {
        WorldMeshOutputBudget {
            opaque_vertices: 0,
            opaque_indices: 0,
            wire_vertices: 0,
            wire_indices: 0,
        }
    }
}

/// Adding `u` to `b` stays within every stream's cap.
pub open spec fn budget_fits(b: (usize, usize, usize, usize), u: (usize, usize, usize, usize)) -> bool {
    &&& b.0 + u.0 <= MAX_WORLD_MESH_VERTICES
    &&& b.1 + u.1 <= MAX_WORLD_MESH_INDICES
    &&& b.2 + u.2 <= MAX_WORLD_MESH_VERTICES
    &&& b.3 + u.3 <= MAX_WORLD_MESH_INDICES
}

/// `a + b`, saturated at `cap`.
pub open spec fn add_capped(a: int, b: int, cap: int) -> int {
    if a + b <= cap {
        a + b
    } else {
        cap
    }
}

/// The budget after charging `u` to `b`, each stream saturating at its cap.
pub open spec fn budget_after(b: (usize, usize, usize, usize), u: (usize, usize, usize, usize)) -> (
    int,
    int,
    int,
    int,
) {
    (
        add_capped(b.0 as int, u.0 as int, MAX_WORLD_MESH_VERTICES as int),
        add_capped(b.1 as int, u.1 as int, MAX_WORLD_MESH_INDICES as int),
        add_capped(b.2 as int, u.2 as int, MAX_WORLD_MESH_VERTICES as int),
        add_capped(b.3 as int, u.3 as int, MAX_WORLD_MESH_INDICES as int),
    )
}

/// Every stream of the budget is within its cap.
pub open spec fn budget_within_caps(b: (usize, usize, usize, usize)) -> bool {
    &&& b.0 <= MAX_WORLD_MESH_VERTICES
    &&& b.1 <= MAX_WORLD_MESH_INDICES
    &&& b.2 <= MAX_WORLD_MESH_VERTICES
    &&& b.3 <= MAX_WORLD_MESH_INDICES
}

/// Whether `a + b` neither overflows nor exceeds `cap`.
fn sum_within(a: usize, b: usize, cap: usize) -> (ok: bool)
    ensures
        ok == (a + b <= cap),
{
    match a.checked_add(b) {
        Some(count) => count <= cap,
        None => false,
    }
}

fn add_saturating_capped(a: usize, b: usize, cap: usize) -> (sum: usize)
    ensures
        sum == add_capped(a as int, b as int, cap as int),
{
    let total = a.saturating_add(b);
    if total <= cap {
        total
    } else {
        cap
    }
}

impl WorldMeshOutputBudget {
    /// Whether the whole output of `usage` fits without any stream exceeding its cap.
    pub fn fits(&self, usage: WorldMeshStreamUsage) -> (ok: bool)
        ensures
            ok == budget_fits(self@, usage@),
    {
        sum_within(self.opaque_vertices, usage.opaque_vertices, MAX_WORLD_MESH_VERTICES)
            && sum_within(self.opaque_indices, usage.opaque_indices, MAX_WORLD_MESH_INDICES)
            && sum_within(self.wire_vertices, usage.wire_vertices, MAX_WORLD_MESH_VERTICES)
            && sum_within(self.wire_indices, usage.wire_indices, MAX_WORLD_MESH_INDICES)
    }

    /// Charges `usage`, saturating each stream at its cap.
    pub fn consume(&mut self, usage: WorldMeshStreamUsage)
        ensures
            usage_counts(final(self)@) == budget_after(old(self)@, usage@),
    {
        self.opaque_vertices = add_saturating_capped(
            self.opaque_vertices,
            usage.opaque_vertices,
            MAX_WORLD_MESH_VERTICES,
        );
        self.opaque_indices = add_saturating_capped(
            self.opaque_indices,
            usage.opaque_indices,
            MAX_WORLD_MESH_INDICES,
        );
        self.wire_vertices = add_saturating_capped(
            self.wire_vertices,
            usage.wire_vertices,
            MAX_WORLD_MESH_VERTICES,
        );
        self.wire_indices = add_saturating_capped(
            self.wire_indices,
            usage.wire_indices,
            MAX_WORLD_MESH_INDICES,
        );
    }
}

/// Charging a usage that fits adds it exactly, and charging any usage keeps
/// every stream of the budget within its cap and never lowers it.
pub proof fn lemma_budget_charge(b: (usize, usize, usize, usize), u: (usize, usize, usize, usize))
    ensures
        budget_fits(b, u) ==> budget_after(b, u) == (b.0 + u.0, b.1 + u.1, b.2 + u.2, b.3 + u.3),
        budget_after(b, u).0 <= MAX_WORLD_MESH_VERTICES,
        budget_after(b, u).1 <= MAX_WORLD_MESH_INDICES,
        budget_after(b, u).2 <= MAX_WORLD_MESH_VERTICES,
        budget_after(b, u).3 <= MAX_WORLD_MESH_INDICES,
        budget_within_caps(b) ==> b.0 <= budget_after(b, u).0 && b.1 <= budget_after(b, u).1
            && b.2 <= budget_after(b, u).2 && b.3 <= budget_after(b, u).3,
{
}

/// Work units of a surface sampled at `resolution`: `(resolution + 1)²`.
pub fn surface_work_units(resolution: usize) -> (units: Option<usize>)
    ensures
        (resolution + 1) * (resolution + 1) <= usize::MAX ==> units == Some(
            ((resolution + 1) * (resolution + 1)) as usize,
        ),
        (resolution + 1) * (resolution + 1) > usize::MAX ==> units is None,
{
    if resolution == usize::MAX {
        assert((resolution + 1) * (resolution + 1) > usize::MAX) by (nonlinear_arith)
            requires
                resolution == usize::MAX,
        ;
        return None;
    }
    let side = resolution + 1;
    side.checked_mul(side)
}

/// Work units left for one mesh.
#[derive(Debug)]
pub struct WorldMeshWorkBudget {
    remaining: usize,
}

impl WorldMeshWorkBudget {
    /// Work units not yet reserved.
    pub closed spec fn remaining_spec(&self) -> usize {
        self.remaining
    }

    /// A fresh budget of `MAX_WORLD_MESH_WORK_UNITS` units.
    pub fn new() -> (budget: Self)
        ensures
            budget.remaining_spec() == MAX_WORLD_MESH_WORK_UNITS,
    {
        WorldMeshWorkBudget { remaining: MAX_WORLD_MESH_WORK_UNITS }
    }

    /// Reserves `units` when that many are left; otherwise reserves nothing.
    pub fn reserve(&mut self, units: usize) -> (ok: bool)
        ensures
            ok == (units <= old(self).remaining_spec()),
            ok ==> final(self).remaining_spec() == old(self).remaining_spec() - units,
            !ok ==> final(self).remaining_spec() == old(self).remaining_spec(),
    {
        match self.remaining.checked_sub(units) {
            Some(remaining) => {
                self.remaining = remaining;
                true
            },
            None => false,
        }
    }
}

/// How the solid faces of an object are drawn. The caller classifies the
/// fill's alpha: below 0.999 the solid is translucent.
#[derive(Debug, Clone, Copy, PartialEq, Eq, Structural)]
pub enum SolidFill {
    /// Written to the depth buffer with the opaque stream.
    Opaque,
    /// Drawn with the wire stream as a depth-tested overlay.
    Translucent,
}

/// Opaque and wire triangle counts of `triangles` solid triangles with fill
/// `fill`; an object without fill emits none.
pub open spec fn solid_split(triangles: usize, fill: Option<SolidFill>) -> (usize, usize) {
    match fill {
        Some(SolidFill::Translucent) => (0, triangles),
        Some(SolidFill::Opaque) => (triangles, 0),
        None => (0, 0),
    }
}

/// Routes solid triangles to the opaque or the wire stream by their fill.
pub fn solid_stream_triangles(triangles: usize, fill: Option<SolidFill>) -> (split: (usize, usize))
    ensures
        split == solid_split(triangles, fill),
{
    match fill {
        Some(SolidFill::Translucent) => (0, triangles),
        Some(SolidFill::Opaque) => (triangles, 0),
        None => (0, 0),
    }
}

/// Lengths of the four streams of a mesh, taken before appending an object
/// so that a partial append can be rolled back.
#[derive(Debug, Clone, Copy, PartialEq, Eq, Structural)]
pub struct WorldMeshCheckpoint {
    pub opaque_vertices: usize,
    pub opaque_indices: usize,
    pub wire_vertices: usize,
    pub wire_indices: usize,
}

/// The four streams of the world mesh. The vertex type is the caller's;
/// this module only counts and truncates streams.
#[derive(Debug)]
pub struct WorldMesh<V> {
    pub opaque_vertices: Vec<V>,
    pub opaque_indices: Vec<u32>,
    pub wire_vertices: Vec<V>,
    pub wire_indices: Vec<u32>,
    /// Whether every visible object admitted by this path fits the mesh.
    pub complete: bool,
}

impl<V> WorldMesh<V> {
    /// Lengths of the four streams.
    pub open spec fn lengths(&self) -> WorldMeshCheckpoint {
        WorldMeshCheckpoint {
            opaque_vertices: self.opaque_vertices@.len() as usize,
            opaque_indices: self.opaque_indices@.len() as usize,
            wire_vertices: self.wire_vertices@.len() as usize,
            wire_indices: self.wire_indices@.len() as usize,
        }
    }

    /// An empty, complete mesh.
    pub fn new() -> (mesh: Self)
        ensures
            mesh.opaque_vertices@.len() == 0,
            mesh.opaque_indices@.len() == 0,
            mesh.wire_vertices@.len() == 0,
            mesh.wire_indices@.len() == 0,
            mesh.complete,
    {
        WorldMesh {
            opaque_vertices: Vec::new(),
            opaque_indices: Vec::new(),
            wire_vertices: Vec::new(),
            wire_indices: Vec::new(),
            complete: true,
        }
    }

    /// Whether every visible object admitted by this path fits the mesh.
    pub fn is_complete(&self) -> (complete: bool)
        ensures
            complete == self.complete,
    {
        self.complete
    }

}

/// Lengths of the four streams of `mesh`.
pub fn world_mesh_checkpoint<V>(mesh: &WorldMesh<V>) -> (checkpoint: WorldMeshCheckpoint)
    ensures
        checkpoint == mesh.lengths(),
{
    WorldMeshCheckpoint {
        opaque_vertices: mesh.opaque_vertices.len(),
        opaque_indices: mesh.opaque_indices.len(),
        wire_vertices: mesh.wire_vertices.len(),
        wire_indices: mesh.wire_indices.len(),
    }
}

/// `s` cut back to at most `len` elements.
pub open spec fn truncated<T>(s: Seq<T>, len: usize) -> Seq<T> {
    if len <= s.len() {
        s.subrange(0, len as int)
    } else {
        s
    }
}

/// Cuts every stream of `mesh` back to its length in `checkpoint`, undoing a
/// partial append.
pub fn rollback_world_mesh<V>(mesh: &mut WorldMesh<V>, checkpoint: WorldMeshCheckpoint)
    ensures
        final(mesh).opaque_vertices@ == truncated(old(mesh).opaque_vertices@, checkpoint.opaque_vertices),
        final(mesh).opaque_indices@ == truncated(old(mesh).opaque_indices@, checkpoint.opaque_indices),
        final(mesh).wire_vertices@ == truncated(old(mesh).wire_vertices@, checkpoint.wire_vertices),
        final(mesh).wire_indices@ == truncated(old(mesh).wire_indices@, checkpoint.wire_indices),
        final(mesh).complete == old(mesh).complete,
{
    mesh.opaque_vertices.truncate(checkpoint.opaque_vertices);
    mesh.opaque_indices.truncate(checkpoint.opaque_indices);
    mesh.wire_vertices.truncate(checkpoint.wire_vertices);
    mesh.wire_indices.truncate(checkpoint.wire_indices);
}

/// Rolling back to a checkpoint taken before an append restores the streams
/// exactly as they were when the checkpoint was taken.
pub proof fn lemma_rollback_undoes_append<V>(before: Seq<V>, appended: Seq<V>, checkpoint: usize)
    requires
        checkpoint == before.len(),
    ensures
        truncated(before + appended, checkpoint) == before,
{
    assert((before + appended).subrange(0, before.len() as int) =~= before);
}

/// A stream holding `vertices` vertices and `indices` indices can take
/// `extra_vertices` and `extra_indices` more: vertices stay within the cap and
/// addressable by a `u32` index, indices within theirs.
pub open spec fn part_has_room(vertices: int, indices: int, extra_vertices: int, extra_indices: int) -> bool {
    &&& vertices + extra_vertices <= MAX_WORLD_MESH_VERTICES
    &&& vertices + extra_vertices <= u32::MAX
    &&& indices + extra_indices <= MAX_WORLD_MESH_INDICES
}

fn part_room(
    vertices: usize,
    indices: usize,
    additional_vertices: usize,
    additional_indices: usize,
) -> (ok: bool)
    ensures
        ok == part_has_room(
            vertices as int,
            indices as int,
            additional_vertices as int,
            additional_indices as int,
        ),
{
    sum_within(vertices, additional_vertices, MAX_WORLD_MESH_VERTICES) && sum_within(
        indices,
        additional_indices,
        MAX_WORLD_MESH_INDICES,
    )
}

/// Whether one stream has room for `additional_*` more vertices and indices.
pub fn mesh_part_has_room<V>(
    vertices: &[V],
    indices: &[u32],
    additional_vertices: usize,
    additional_indices: usize,
) -> (ok: bool)
    ensures
        ok == part_has_room(
            vertices@.len() as int,
            indices@.len() as int,
            additional_vertices as int,
            additional_indices as int,
        ),
{
    part_room(vertices.len(), indices.len(), additional_vertices, additional_indices)
}

/// Reserves room in one stream and returns the index of the first new
/// vertex; `None` when the stream has no room or the allocation fails. The
/// stream's contents never change.
pub fn reserve_mesh_part<V>(
    vertices: &mut Vec<V>,
    indices: &mut Vec<u32>,
    additional_vertices: usize,
    additional_indices: usize,
) -> (base: Option<u32>)
    ensures
        final(vertices)@ == old(vertices)@,
        final(indices)@ == old(indices)@,
        !part_has_room(
            old(vertices)@.len() as int,
            old(indices)@.len() as int,
            additional_vertices as int,
            additional_indices as int,
        ) ==> base is None,
        base matches Some(b) ==> b == old(vertices)@.len() && part_has_room(
            old(vertices)@.len() as int,
            old(indices)@.len() as int,
            additional_vertices as int,
            additional_indices as int,
        ),
{
    if !part_room(vertices.len(), indices.len(), additional_vertices, additional_indices) {
        return None;
    }
    if vertices.try_reserve(additional_vertices).is_err() {
        return None;
    }
    if indices.try_reserve(additional_indices).is_err() {
        return None;
    }
    Some(vertices.len() as u32)
}

/// Neither stream has room for its smallest primitive (a triangle in the
/// opaque stream, a segment quad in the wire stream).
pub fn world_mesh_is_output_exhausted<V>(mesh: &WorldMesh<V>) -> (exhausted: bool)
    ensures
        exhausted == (!part_has_room(
            mesh.lengths().opaque_vertices as int,
            mesh.lengths().opaque_indices as int,
            3,
            3,
        ) && !part_has_room(
            mesh.lengths().wire_vertices as int,
            mesh.lengths().wire_indices as int,
            4,
            6,
        )),
{
    let lens = world_mesh_checkpoint(mesh);
    let mesh = &lens;
    !part_room(mesh.opaque_vertices, mesh.opaque_indices, 3, 3) && !part_room(
        mesh.wire_vertices,
        mesh.wire_indices,
        4,
        6,
    )
}

/// The wire stream has room for `segment_count` segments.
pub fn wire_object_fits<V>(mesh: &WorldMesh<V>, segment_count: usize) -> (ok: bool)
    ensures
        ok == part_has_room(
            mesh.lengths().wire_vertices as int,
            mesh.lengths().wire_indices as int,
            4 * segment_count,
            6 * segment_count,
        ),
{
    let lens = world_mesh_checkpoint(mesh);
    wire_fits_lengths(&lens, segment_count)
}

fn wire_fits_lengths(lens: &WorldMeshCheckpoint, segment_count: usize) -> (ok: bool)
    ensures
        ok == part_has_room(
            lens.wire_vertices as int,
            lens.wire_indices as int,
            4 * segment_count,
            6 * segment_count,
        ),
{
    let vertices = match segment_count.checked_mul(4) {
        Some(v) => v,
        None => {
            return false;
        },
    };
    let indices = match segment_count.checked_mul(6) {
        Some(i) => i,
        None => {
            return false;
        },
    };
    part_room(lens.wire_vertices, lens.wire_indices, vertices, indices)
}

/// Whether a surface sampled at `resolution` fits: its wireframe (two
/// segments per cell) always goes to the wire stream; a solid surface adds
/// two triangles per cell, to the wire stream when translucent and to the
/// opaque stream otherwise.
pub open spec fn surface_fits_spec(
    mesh: WorldMeshCheckpoint,
    solid: bool,
    translucent: bool,
    resolution: int,
) -> bool {
    let cells = resolution * resolution;
    let wire_vertices = 8 * cells;
    let wire_indices = 12 * cells;
    let solid_vertices = 6 * cells;
    if !solid {
        part_has_room(
            mesh.wire_vertices as int,
            mesh.wire_indices as int,
            wire_vertices,
            wire_indices,
        )
    } else if translucent {
        part_has_room(
            mesh.wire_vertices as int,
            mesh.wire_indices as int,
            wire_vertices + solid_vertices,
            wire_indices + solid_vertices,
        )
    } else {
        part_has_room(
            mesh.wire_vertices as int,
            mesh.wire_indices as int,
            wire_vertices,
            wire_indices,
        ) && part_has_room(
            mesh.opaque_vertices as int,
            mesh.opaque_indices as int,
            solid_vertices,
            solid_vertices,
        )
    }
}

/// Whether a surface of `resolution` × `resolution` cells fits the mesh.
pub fn surface_output_fits<V>(
    mesh: &WorldMesh<V>,
    solid: bool,
    translucent: bool,
    resolution: usize,
) -> (ok: bool)
    ensures
        ok == surface_fits_spec(mesh.lengths(), solid, translucent, resolution as int),
{
    let lens = world_mesh_checkpoint(mesh);
    surface_fits_lengths(&lens, solid, translucent, resolution)
}

fn surface_fits_lengths(
    mesh: &WorldMeshCheckpoint,
    solid: bool,
    translucent: bool,
    resolution: usize,
) -> (ok: bool)
    ensures
        ok == surface_fits_spec(*mesh, solid, translucent, resolution as int),
{
    let cells = match resolution.checked_mul(resolution) {
        Some(c) => c,
        None => {
            return false;
        },
    };
    let wire_segments = match cells.checked_mul(2) {
        Some(c) => c,
        None => {
            return false;
        },
    };
    let wire_vertices = match wire_segments.checked_mul(4) {
        Some(c) => c,
        None => {
            return false;
        },
    };
    let wire_indices = match wire_segments.checked_mul(6) {
        Some(c) => c,
        None => {
            return false;
        },
    };
    if !solid {
        return part_room(
            mesh.wire_vertices,
            mesh.wire_indices,
            wire_vertices,
            wire_indices,
        );
    }
    let solid_vertices = match cells.checked_mul(6) {
        Some(c) => c,
        None => {
            return false;
        },
    };
    if translucent {
        let total_vertices = match wire_vertices.checked_add(solid_vertices) {
            Some(c) => c,
            None => {
                return false;
            },
        };
        let total_indices = match wire_indices.checked_add(solid_vertices) {
            Some(c) => c,
            None => {
                return false;
            },
        };
        part_room(mesh.wire_vertices, mesh.wire_indices, total_vertices, total_indices)
    } else {
        part_room(mesh.wire_vertices, mesh.wire_indices, wire_vertices, wire_indices)
            && part_room(
            mesh.opaque_vertices,
            mesh.opaque_indices,
            solid_vertices,
            solid_vertices,
        )
    }
}

/// Both streams of `mesh` have room for `usage`.
pub open spec fn mesh_has_room_for(mesh: WorldMeshCheckpoint, usage: (usize, usize, usize, usize)) -> bool {
    &&& part_has_room(
        mesh.opaque_vertices as int,
        mesh.opaque_indices as int,
        usage.0 as int,
        usage.1 as int,
    )
    &&& part_has_room(mesh.wire_vertices as int, mesh.wire_indices as int, usage.2 as int, usage.3 as int)
}

/// Reserves room for the whole output of one object in all four streams;
/// `false` when some stream has no room or an allocation fails. The streams'
/// contents never change.
pub fn reserve_world_mesh_usage<V>(mesh: &mut WorldMesh<V>, usage: WorldMeshStreamUsage) -> (ok:
    bool)
    ensures
        final(mesh).opaque_vertices@ == old(mesh).opaque_vertices@,
        final(mesh).opaque_indices@ == old(mesh).opaque_indices@,
        final(mesh).wire_vertices@ == old(mesh).wire_vertices@,
        final(mesh).wire_indices@ == old(mesh).wire_indices@,
        final(mesh).complete == old(mesh).complete,
        ok ==> mesh_has_room_for(old(mesh).lengths(), usage@),
        !mesh_has_room_for(old(mesh).lengths(), usage@) ==> !ok,
{
    if !(part_room(
        mesh.opaque_vertices.len(),
        mesh.opaque_indices.len(),
        usage.opaque_vertices,
        usage.opaque_indices,
    ) && part_room(
        mesh.wire_vertices.len(),
        mesh.wire_indices.len(),
        usage.wire_vertices,
        usage.wire_indices,
    )) {
        return false;
    }
    mesh.opaque_vertices.try_reserve(usage.opaque_vertices).is_ok()
        && mesh.opaque_indices.try_reserve(usage.opaque_indices).is_ok()
        && mesh.wire_vertices.try_reserve(usage.wire_vertices).is_ok()
        && mesh.wire_indices.try_reserve(usage.wire_indices).is_ok()
}

/// Whether exactly `usage` was appended to `mesh` since `checkpoint`.
pub fn world_mesh_usage_was_appended<V>(
    mesh: &WorldMesh<V>,
    checkpoint: WorldMeshCheckpoint,
    usage: WorldMeshStreamUsage,
) -> (ok: bool)
    ensures
        ok == (checkpoint.opaque_vertices + usage@.0 == mesh.lengths().opaque_vertices
            && checkpoint.opaque_indices + usage@.1 == mesh.lengths().opaque_indices
            && checkpoint.wire_vertices + usage@.2 == mesh.lengths().wire_vertices
            && checkpoint.wire_indices + usage@.3 == mesh.lengths().wire_indices),
{
    let lens = world_mesh_checkpoint(mesh);
    let after = &lens;
    sum_is(checkpoint.opaque_vertices, usage.opaque_vertices, after.opaque_vertices) && sum_is(
        checkpoint.opaque_indices,
        usage.opaque_indices,
        after.opaque_indices,
    ) && sum_is(checkpoint.wire_vertices, usage.wire_vertices, after.wire_vertices) && sum_is(
        checkpoint.wire_indices,
        usage.wire_indices,
        after.wire_indices,
    )
}

fn sum_is(a: usize, b: usize, total: usize) -> (ok: bool)
    ensures
        ok == (a + b == total),
{
    match a.checked_add(b) {
        Some(sum) => sum == total,
        None => false,
    }
}

/// Vertex count and index lists of a regular polytope's topology: edges as
/// vertex pairs and, for 4D polytopes, faces as vertex cycles.
#[derive(Debug)]
pub struct PolytopeTopologyIndices {
    pub vertex_count: usize,
    pub edges: Vec<[usize; 2]>,
    pub faces: Vec<Vec<usize>>,
}

/// Every edge joins two distinct projected vertices.
pub open spec fn edges_valid(edges: Seq<[usize; 2]>, projected: int) -> bool {
    forall|k: int|
        0 <= k < edges.len() ==> #[trigger] edges[k][0] < projected && edges[k][1] < projected
            && edges[k][0] != edges[k][1]
}

/// Every face has at least three vertices, all of them projected.
pub open spec fn faces_valid(faces: Seq<Vec<usize>>, projected: int) -> bool {
    forall|k: int|
        0 <= k < faces.len() ==> #[trigger] faces[k]@.len() >= 3 && forall|j: int|
            0 <= j < faces[k]@.len() ==> #[trigger] faces[k]@[j] < projected
}

fn edges_are_valid(edges: &Vec<[usize; 2]>, projected: usize) -> (ok: bool)
    ensures
        ok == edges_valid(edges@, projected as int),
{
    let mut k: usize = 0;
    while k < edges.len()
        invariant
            k <= edges.len(),
            forall|m: int|
                0 <= m < k ==> #[trigger] edges@[m][0] < projected && edges@[m][1] < projected
                    && edges@[m][0] != edges@[m][1],
        decreases edges.len() - k,
    {
        let edge = edges[k];
        if !(edge[0] < projected && edge[1] < projected && edge[0] != edge[1]) {
            return false;
        }
        k += 1;
    }
    true
}

fn face_is_valid(face: &Vec<usize>, projected: usize) -> (ok: bool)
    ensures
        ok == (face@.len() >= 3 && forall|j: int| 0 <= j < face@.len() ==> #[trigger] face@[j] < projected),
{
    if face.len() < 3 {
        return false;
    }
    let mut j: usize = 0;
    while j < face.len()
        invariant
            j <= face.len(),
            forall|m: int| 0 <= m < j ==> #[trigger] face@[m] < projected,
        decreases face.len() - j,
    {
        if face[j] >= projected {
            return false;
        }
        j += 1;
    }
    true
}

/// The topology of a 4D polytope addresses exactly `projected` projected
/// vertices: the counts agree, every edge joins two distinct vertices and
/// every face has at least three vertices, all in range.
pub fn polychoron_indices_are_valid(topology: &PolytopeTopologyIndices, projected: usize) -> (ok:
    bool)
    ensures
        ok == (topology.vertex_count == projected && edges_valid(topology.edges@, projected as int)
            && faces_valid(topology.faces@, projected as int)),
{
    if topology.vertex_count != projected || !edges_are_valid(&topology.edges, projected) {
        return false;
    }
    let mut k: usize = 0;
    while k < topology.faces.len()
        invariant
            k <= topology.faces.len(),
            forall|m: int|
                0 <= m < k ==> #[trigger] topology.faces@[m]@.len() >= 3 && forall|j: int|
                    0 <= j < topology.faces@[m]@.len() ==> #[trigger] topology.faces@[m]@[j]
                        < projected,
        decreases topology.faces.len() - k,
    {
        if !face_is_valid(&topology.faces[k], projected) {
            return false;
        }
        k += 1;
    }
    true
}

/// The topology of an N-D polytope (edges only) addresses exactly `projected`
/// projected vertices.
pub fn generic_polytope_indices_are_valid(topology: &PolytopeTopologyIndices, projected: usize) -> (ok:
    bool)
    ensures
        ok == (topology.vertex_count == projected && edges_valid(
            topology.edges@,
            projected as int,
        )),
{
    topology.vertex_count == projected && edges_are_valid(&topology.edges, projected)
}

/// Triangles of the first `n` faces when each face is fanned into
/// `len - 2` triangles; `None` when a face has fewer than two vertices or a
/// partial sum overflows `usize`.
pub open spec fn face_triangles_prefix(faces: Seq<Vec<usize>>, n: int) -> Option<int>
    decreases n,
{
    if n <= 0 {
        Some(0)
    } else {
        match face_triangles_prefix(faces, n - 1) {
            Some(sum) => if faces[n - 1]@.len() < 2 || sum + faces[n - 1]@.len() - 2
                > usize::MAX {
                None
            } else {
                Some(sum + faces[n - 1]@.len() - 2)
            },
            None => None,
        }
    }
}

/// Once a prefix of faces has no triangle count, no longer prefix has one.
proof fn lemma_face_triangles_none_persists(faces: Seq<Vec<usize>>, i: int, n: int)
    requires
        0 <= i <= n,
        face_triangles_prefix(faces, i) is None,
    ensures
        face_triangles_prefix(faces, n) is None,
    decreases n - i,
{
    if i < n {
        assert(face_triangles_prefix(faces, i + 1) is None);
        lemma_face_triangles_none_persists(faces, i + 1, n);
    }
}

/// Stream output of a projected 4D polytope: its edges as wire segments and,
/// when it has a fill and the quality is not `Preview`, its faces fanned into
/// triangles routed by the fill.
pub open spec fn polychoron_usage_spec(
    faces: Seq<Vec<usize>>,
    edge_count: int,
    fill: Option<SolidFill>,
    quality: RenderQuality,
) -> Option<(int, int, int, int)> {
    let triangles = if quality != RenderQuality::Preview && fill is Some {
        face_triangles_prefix(faces, faces.len() as int)
    } else {
        Some(0int)
    };
    match triangles {
        Some(t) => {
            let split = solid_split(t as usize, fill);
            let usage = primitives_usage(split.0 as int, split.1 as int, edge_count);
            if fits_usize(usage) {
                Some(usage)
            } else {
                None
            }
        },
        None => None,
    }
}

/// Stream output of one projected 4D polytope.
pub fn polychoron_topology_usage(
    topology: &PolytopeTopologyIndices,
    fill: Option<SolidFill>,
    quality: RenderQuality,
) -> (usage: Option<WorldMeshStreamUsage>)
    ensures
        usage is Some <==> polychoron_usage_spec(
            topology.faces@,
            topology.edges@.len() as int,
            fill,
            quality,
        ) is Some,
        usage matches Some(u) ==> Some(usage_counts(u@)) == polychoron_usage_spec(
            topology.faces@,
            topology.edges@.len() as int,
            fill,
            quality,
        ),
{
    let mut face_triangles: usize = 0;
    if quality != RenderQuality::Preview && fill.is_some() {
        let mut k: usize = 0;
        while k < topology.faces.len()
            invariant
                k <= topology.faces.len(),
                quality != RenderQuality::Preview && fill is Some,
                face_triangles_prefix(topology.faces@, k as int) == Some(face_triangles as int),
            decreases topology.faces.len() - k,
        {
            let len = topology.faces[k].len();
            if len < 2 {
                proof {
                    lemma_face_triangles_none_persists(
                        topology.faces@,
                        k as int + 1,
                        topology.faces@.len() as int,
                    );
                }
                return None;
            }
            face_triangles = match face_triangles.checked_add(len - 2) {
                Some(sum) => sum,
                None => {
                    proof {
                        lemma_face_triangles_none_persists(
                            topology.faces@,
                            k as int + 1,
                            topology.faces@.len() as int,
                        );
                    }
                    return None;
                },
            };
            k += 1;
        }
    }
    let (opaque, wire) = solid_stream_triangles(face_triangles, fill);
    WorldMeshStreamUsage::from_primitives(opaque, wire, topology.edges.len())
}

/// The six convex regular 4D polytopes.
#[derive(Debug, Clone, Copy, PartialEq, Eq, Structural)]
pub enum RegularPolychoron {
    Pentachoron,
    Tesseract,
    SixteenCell,
    TwentyFourCell,
    OneTwentyCell,
    SixHundredCell,
}

/// Number of 2-faces of each regular 4D polytope (its f-vector's third entry).
pub open spec fn polychoron_faces(kind: RegularPolychoron) -> int {
    match kind {
        RegularPolychoron::Pentachoron => 10,
        RegularPolychoron::Tesseract => 24,
        RegularPolychoron::SixteenCell => 32,
        RegularPolychoron::TwentyFourCell => 96,
        RegularPolychoron::OneTwentyCell => 720,
        RegularPolychoron::SixHundredCell => 1200,
    }
}

/// Number of edges of each regular 4D polytope.
pub open spec fn polychoron_edges(kind: RegularPolychoron) -> int {
    match kind {
        RegularPolychoron::Pentachoron => 10,
        RegularPolychoron::Tesseract => 32,
        RegularPolychoron::SixteenCell => 24,
        RegularPolychoron::TwentyFourCell => 96,
        RegularPolychoron::OneTwentyCell => 1200,
        RegularPolychoron::SixHundredCell => 720,
    }
}

/// Vertices of each 2-face: squares for the tesseract, pentagons for the
/// 120-cell, triangles otherwise.
pub open spec fn polychoron_face_vertices(kind: RegularPolychoron) -> int {
    match kind {
        RegularPolychoron::Tesseract => 4,
        RegularPolychoron::OneTwentyCell => 5,
        _ => 3,
    }
}

/// Number of vertices of each regular 4D polytope.
pub open spec fn polychoron_vertices(kind: RegularPolychoron) -> int {
    match kind {
        RegularPolychoron::Pentachoron => 5,
        RegularPolychoron::Tesseract => 16,
        RegularPolychoron::SixteenCell => 8,
        RegularPolychoron::TwentyFourCell => 24,
        RegularPolychoron::OneTwentyCell => 600,
        RegularPolychoron::SixHundredCell => 120,
    }
}

/// Number of 3-cells of each regular 4D polytope.
pub open spec fn polychoron_cells(kind: RegularPolychoron) -> int {
    match kind {
        RegularPolychoron::Pentachoron => 5,
        RegularPolychoron::Tesseract => 8,
        RegularPolychoron::SixteenCell => 16,
        RegularPolychoron::TwentyFourCell => 24,
        RegularPolychoron::OneTwentyCell => 120,
        RegularPolychoron::SixHundredCell => 600,
    }
}

/// 2-faces that meet at each edge of each regular 4D polytope.
pub open spec fn polychoron_faces_per_edge(kind: RegularPolychoron) -> int {
    match kind {
        RegularPolychoron::SixteenCell => 4,
        RegularPolychoron::SixHundredCell => 5,
        _ => 3,
    }
}

/// The face and edge counts are those of the regular 4D polytopes: they obey
/// Euler's relation `V − E + F − C = 0` for a 4-polytope, every face has
/// `face vertices` edges each shared by `faces per edge` faces
/// (`F · face vertices = E · faces per edge`), and the 600-cell, for one,
/// has the f-vector (120, 720, 1200, 600), so its fanned faces hold 1200
/// triangles.
pub proof fn lemma_polychoron_counts_are_f_vectors(kind: RegularPolychoron)
    ensures
        polychoron_vertices(kind) - polychoron_edges(kind) + polychoron_faces(kind)
            - polychoron_cells(kind) == 0,
        polychoron_faces(kind) * polychoron_face_vertices(kind) == polychoron_edges(kind)
            * polychoron_faces_per_edge(kind),
        polychoron_faces(RegularPolychoron::SixHundredCell) == 1200,
        polychoron_edges(RegularPolychoron::SixHundredCell) == 720,
        polychoron_faces(RegularPolychoron::SixHundredCell) * (polychoron_face_vertices(
            RegularPolychoron::SixHundredCell,
        ) - 2) == 1200,
        polychoron_faces(RegularPolychoron::OneTwentyCell) == 720,
        polychoron_faces(RegularPolychoron::TwentyFourCell) == 96,
        polychoron_faces(RegularPolychoron::SixteenCell) == 32,
        polychoron_faces(RegularPolychoron::Tesseract) == 24,
        polychoron_faces(RegularPolychoron::Pentachoron) == 10,
{
}

impl RegularPolychoron {
    /// Number of 2-faces.
    pub fn face_count(self) -> (count: usize)
        ensures
            count == polychoron_faces(self),
    {
        match self {
            RegularPolychoron::Pentachoron => 10,
            RegularPolychoron::Tesseract => 24,
            RegularPolychoron::SixteenCell => 32,
            RegularPolychoron::TwentyFourCell => 96,
            RegularPolychoron::OneTwentyCell => 720,
            RegularPolychoron::SixHundredCell => 1200,
        }
    }

    /// Number of edges.
    pub fn edge_count(self) -> (count: usize)
        ensures
            count == polychoron_edges(self),
    {
        match self {
            RegularPolychoron::Pentachoron => 10,
            RegularPolychoron::Tesseract => 32,
            RegularPolychoron::SixteenCell => 24,
            RegularPolychoron::TwentyFourCell => 96,
            RegularPolychoron::OneTwentyCell => 1200,
            RegularPolychoron::SixHundredCell => 720,
        }
    }
}

/// Slot of each regular 4D polytope in the topology cache.
pub fn polychoron_cache_slot(kind: RegularPolychoron) -> (slot: usize)
    ensures
        slot < POLYCHORON_TOPOLOGY_CACHE_SLOTS,
        forall|other: RegularPolychoron| #[trigger]
            polychoron_slot_spec(other) == slot ==> other == kind,
        slot == polychoron_slot_spec(kind),
{
    match kind {
        RegularPolychoron::Pentachoron => 0,
        RegularPolychoron::Tesseract => 1,
        RegularPolychoron::SixteenCell => 2,
        RegularPolychoron::TwentyFourCell => 3,
        RegularPolychoron::OneTwentyCell => 4,
        RegularPolychoron::SixHundredCell => 5,
    }
}

/// Slots of the topology cache of regular 4D polytopes.
pub const POLYCHORON_TOPOLOGY_CACHE_SLOTS: usize = 6;

/// Cache slot of each regular 4D polytope.
pub open spec fn polychoron_slot_spec(kind: RegularPolychoron) -> int {
    match kind {
        RegularPolychoron::Pentachoron => 0,
        RegularPolychoron::Tesseract => 1,
        RegularPolychoron::SixteenCell => 2,
        RegularPolychoron::TwentyFourCell => 3,
        RegularPolychoron::OneTwentyCell => 4,
        RegularPolychoron::SixHundredCell => 5,
    }
}

/// Families of regular polytopes of any dimension.
#[derive(Debug, Clone, Copy, PartialEq, Eq, Structural)]
pub enum RegularPolytopeFamily {
    Simplex,
    Hypercube,
    CrossPolytope,
}

/// Position of a family among the families.
pub open spec fn family_index(family: RegularPolytopeFamily) -> int {
    match family {
        RegularPolytopeFamily::Simplex => 0,
        RegularPolytopeFamily::Hypercube => 1,
        RegularPolytopeFamily::CrossPolytope => 2,
    }
}

/// Dimensions `min_dimension..=max_dimension` the generic topology cache
/// keeps one slot each for, per family.
pub open spec fn dimension_slots(min_dimension: int, max_dimension: int) -> int {
    max_dimension - min_dimension + 1
}

/// Slot of a family and dimension in the generic topology cache: families
/// one after another, each with one slot per supported dimension.
pub open spec fn generic_slot_spec(
    family: RegularPolytopeFamily,
    dimension: int,
    min_dimension: int,
    max_dimension: int,
) -> int {
    family_index(family) * dimension_slots(min_dimension, max_dimension) + (dimension
        - min_dimension)
}

/// Slot of a family and dimension in the generic topology cache, or `None`
/// for a dimension outside `min_dimension..=max_dimension`.
pub fn generic_polytope_cache_slot(
    family: RegularPolytopeFamily,
    dimension: usize,
    min_dimension: usize,
    max_dimension: usize,
) -> (slot: Option<usize>)
    requires
        min_dimension <= max_dimension,
        3 * dimension_slots(min_dimension as int, max_dimension as int) <= usize::MAX,
    ensures
        slot is Some <==> min_dimension <= dimension <= max_dimension,
        slot matches Some(s) ==> {
            &&& s == generic_slot_spec(family, dimension as int, min_dimension as int, max_dimension as int)
            &&& s < 3 * dimension_slots(min_dimension as int, max_dimension as int)
        },
{
    if dimension < min_dimension {
        return None;
    }
    let dimension_slot: usize = dimension - min_dimension;
    let slots: usize = max_dimension - min_dimension + 1;
    if dimension_slot >= slots {
        return None;
    }
    let family_slot: usize = match family {
        RegularPolytopeFamily::Simplex => 0,
        RegularPolytopeFamily::Hypercube => 1,
        RegularPolytopeFamily::CrossPolytope => 2,
    };
    assert(family_slot * slots + dimension_slot < 3 * slots) by (nonlinear_arith)
        requires
            family_slot <= 2,
            dimension_slot < slots,
    ;
    Some(family_slot * slots + dimension_slot)
}

/// Two distinct supported (family, dimension) pairs never share a slot of
/// the generic topology cache.
pub proof fn lemma_generic_slots_distinct(
    a: RegularPolytopeFamily,
    da: int,
    b: RegularPolytopeFamily,
    db: int,
    min_dimension: int,
    max_dimension: int,
)
    requires
        min_dimension <= da <= max_dimension,
        min_dimension <= db <= max_dimension,
        a != b || da != db,
    ensures
        generic_slot_spec(a, da, min_dimension, max_dimension) != generic_slot_spec(
            b,
            db,
            min_dimension,
            max_dimension,
        ),
{
    let n = dimension_slots(min_dimension, max_dimension);
    let fa = family_index(a);
    let fb = family_index(b);
    assert(fa != fb || da != db);
    assert(fa * n + (da - min_dimension) != fb * n + (db - min_dimension)) by (nonlinear_arith)
        requires
            0 <= da - min_dimension < n,
            0 <= db - min_dimension < n,
            fa != fb || da != db,
    ;
}

/// Triangles of the fanned faces of a regular 4D polytope:
/// `faces × (vertices per face − 2)`.
pub fn polychoron_face_triangle_count(kind: RegularPolychoron) -> (count: Option<usize>)
    ensures
        count == Some((polychoron_faces(kind) * (polychoron_face_vertices(kind) - 2)) as usize),
{
    let vertices_per_face: usize = match kind {
        RegularPolychoron::Pentachoron
        | RegularPolychoron::SixteenCell
        | RegularPolychoron::TwentyFourCell
        | RegularPolychoron::SixHundredCell => 3,
        RegularPolychoron::Tesseract => 4,
        RegularPolychoron::OneTwentyCell => 5,
    };
    kind.face_count().checked_mul(vertices_per_face - 2)
}

/// What the world mesh reads of one visible 3D object: its kind and the
/// plain values that decide its output. Fills are classified by the caller
/// (see `SolidFill`).
#[derive(Debug, Clone, Copy)]
#[allow(inconsistent_fields)]
pub enum WorldMeshObject {
    /// A point, drawn as a two-triangle billboard.
    Point { fill: SolidFill },
    /// A segment or a line: one wire segment.
    Segment,
    /// A plane patch: two triangles and a four-segment outline.
    Plane { fill: SolidFill },
    Sphere { fill: Option<SolidFill> },
    Cube { fill: Option<SolidFill> },
    Tetrahedron { fill: Option<SolidFill> },
    Polychoron { kind: RegularPolychoron, fill: Option<SolidFill> },
    /// An N-D regular polytope, wireframe only; `edges` is `None` when its
    /// family has no topology in that dimension.
    PolytopeND { edges: Option<usize> },
    Pyramid { fill: Option<SolidFill> },
    Cone { fill: Option<SolidFill> },
    Cylinder { fill: Option<SolidFill> },
    Torus { fill: SolidFill },
    Moebius { fill: SolidFill },
    Surface { mesh_res: usize, solid: bool, fill: SolidFill },
    ParametricCurve,
    Attractor { steps: usize },
    VectorField { density: usize },
    /// Any object the world mesh does not draw.
    Other,
}

/// Opaque triangles, wire triangles and wire segments of one object at a
/// quality; `None` for objects the world mesh does not draw.
pub open spec fn object_primitives(object: WorldMeshObject, quality: RenderQuality) -> Option<
    (int, int, int),
> {
    let with_fill = |triangles: int, fill: Option<SolidFill>, segments: int|
        {
            let split = solid_split(triangles as usize, fill);
            Some((split.0 as int, split.1 as int, segments))
        };
    match object {
        WorldMeshObject::Point { fill } => with_fill(2, Some(fill), 0),
        WorldMeshObject::Segment => Some((0, 0, 1)),
        WorldMeshObject::Plane { fill } => with_fill(2, Some(fill), 4),
        WorldMeshObject::Sphere { fill } => with_fill(1600, fill, 96),
        WorldMeshObject::Cube { fill } => with_fill(12, fill, 12),
        WorldMeshObject::Tetrahedron { fill } => with_fill(4, fill, 6),
        WorldMeshObject::Polychoron { kind, fill } => {
            let triangles = if quality == RenderQuality::Preview {
                0
            } else {
                polychoron_faces(kind) * (polychoron_face_vertices(kind) - 2)
            };
            with_fill(triangles, fill, polychoron_edges(kind))
        },
        WorldMeshObject::PolytopeND { edges } => match edges {
            Some(e) => Some((0, 0, e as int)),
            None => None,
        },
        WorldMeshObject::Pyramid { fill } => with_fill(6, fill, 8),
        WorldMeshObject::Cone { fill } => with_fill(64, fill, 40),
        WorldMeshObject::Cylinder { fill } => with_fill(128, fill, 68),
        WorldMeshObject::Torus { fill } => with_fill(1024, Some(fill), 304),
        WorldMeshObject::Moebius { fill } => with_fill(1024, Some(fill), 352),
        WorldMeshObject::Surface { mesh_res, solid, fill } => {
            let side = crate::clamp_int(mesh_res as int, 2, 128);
            let cells = side * side;
            if solid {
                with_fill(2 * cells, Some(fill), 2 * cells)
            } else {
                with_fill(0, None, 2 * cells)
            }
        },
        WorldMeshObject::ParametricCurve => Some((0, 0, WORLD_MESH_CURVE_STEPS as int)),
        WorldMeshObject::Attractor { steps } => Some(
            (
                0,
                0,
                if steps < MAX_WORLD_MESH_ATTRACTOR_STEPS {
                    steps as int
                } else {
                    MAX_WORLD_MESH_ATTRACTOR_STEPS as int
                },
            ),
        ),
        WorldMeshObject::VectorField { density } => Some(
            (0, 0, crate::vector_field_samples(density as int)),
        ),
        WorldMeshObject::Other => None,
    }
}

/// Stream output of one object at a quality.
pub open spec fn object_usage(object: WorldMeshObject, quality: RenderQuality) -> Option<
    (int, int, int, int),
> {
    match object_primitives(object, quality) {
        Some(p) => {
            let usage = primitives_usage(p.0, p.1, p.2);
            if fits_usize(usage) {
                Some(usage)
            } else {
                None
            }
        },
        None => None,
    }
}

fn usage_with_fill(triangles: usize, fill: Option<SolidFill>, segments: usize) -> (usage: Option<
    WorldMeshStreamUsage,
>)
    ensures
        ({
            let split = solid_split(triangles, fill);
            let counts = primitives_usage(split.0 as int, split.1 as int, segments as int);
            &&& usage is Some <==> fits_usize(counts)
            &&& usage matches Some(u) ==> usage_counts(u@) == counts
        }),
{
    let (opaque, wire) = solid_stream_triangles(triangles, fill);
    WorldMeshStreamUsage::from_primitives(opaque, wire, segments)
}

/// Conservative stream output of one visible object at normal quality.
pub fn world_mesh_output_usage(object: &WorldMeshObject) -> (usage: Option<WorldMeshStreamUsage>)
    ensures
        usage is Some <==> object_usage(*object, RenderQuality::Normal) is Some,
        usage matches Some(u) ==> Some(usage_counts(u@)) == object_usage(
            *object,
            RenderQuality::Normal,
        ),
{
    world_mesh_output_usage_for_quality(object, RenderQuality::Normal)
}

/// Conservative stream output of one visible object at a quality, matching
/// how the mesh routes translucent solid triangles to the wire stream.
/// Counts come from the objects' published shapes, so no topology is built.
pub fn world_mesh_output_usage_for_quality(object: &WorldMeshObject, quality: RenderQuality) -> (usage:
    Option<WorldMeshStreamUsage>)
    ensures
        usage is Some <==> object_usage(*object, quality) is Some,
        usage matches Some(u) ==> Some(usage_counts(u@)) == object_usage(*object, quality),
{
    match *object {
        WorldMeshObject::Point { fill } => usage_with_fill(2, Some(fill), 0),
        WorldMeshObject::Segment => usage_with_fill(0, None, 1),
        WorldMeshObject::Plane { fill } => usage_with_fill(2, Some(fill), 4),
        WorldMeshObject::Sphere { fill } => usage_with_fill(1600, fill, 96),
        WorldMeshObject::Cube { fill } => usage_with_fill(12, fill, 12),
        WorldMeshObject::Tetrahedron { fill } => usage_with_fill(4, fill, 6),
        WorldMeshObject::Polychoron { kind, fill } => {
            let triangles = if quality == RenderQuality::Preview {
                0
            } else {
                match polychoron_face_triangle_count(kind) {
                    Some(t) => t,
                    None => {
                        return None;
                    },
                }
            };
            usage_with_fill(triangles, fill, kind.edge_count())
        },
        WorldMeshObject::PolytopeND { edges } => match edges {
            Some(e) => usage_with_fill(0, None, e),
            None => None,
        },
        WorldMeshObject::Pyramid { fill } => usage_with_fill(6, fill, 8),
        WorldMeshObject::Cone { fill } => usage_with_fill(64, fill, 40),
        WorldMeshObject::Cylinder { fill } => usage_with_fill(128, fill, 68),
        WorldMeshObject::Torus { fill } => usage_with_fill(1024, Some(fill), 304),
        WorldMeshObject::Moebius { fill } => usage_with_fill(1024, Some(fill), 352),
        WorldMeshObject::Surface { mesh_res, solid, fill } => {
            let side = crate::clamp(mesh_res, 2, 128);
            assert(side * side <= 16384) by (nonlinear_arith)
                requires
                    2 <= side <= 128,
            ;
            let cells = side * side;
            if solid {
                usage_with_fill(2 * cells, Some(fill), 2 * cells)
            } else {
                usage_with_fill(0, None, 2 * cells)
            }
        },
        WorldMeshObject::ParametricCurve => usage_with_fill(0, None, WORLD_MESH_CURVE_STEPS),
        WorldMeshObject::Attractor { steps } => {
            let capped = if steps < MAX_WORLD_MESH_ATTRACTOR_STEPS {
                steps
            } else {
                MAX_WORLD_MESH_ATTRACTOR_STEPS
            };
            usage_with_fill(0, None, capped)
        },
        WorldMeshObject::VectorField { density } => match crate::vector_field_3d_sample_count(
            density,
        ) {
            Some(samples) => usage_with_fill(0, None, samples),
            None => None,
        },
        WorldMeshObject::Other => None,
    }
}

/// One object of a scene as the world-mesh admission reads it.
#[derive(Debug, Clone, Copy)]
pub struct WorldMeshSceneObject {
    /// Hidden objects are skipped.
    pub visible: bool,
    /// Whether the object's geometry can be built at all (a tetrahedron whose
    /// vertices are not renderable makes the whole scene inadmissible).
    pub renderable: bool,
    /// What the object contributes to the mesh.
    pub object: WorldMeshObject,
}

/// State of the admission of a scene: output budget, work units left, and
/// attractors admitted so far.
pub type SceneAdmission = ((usize, usize, usize, usize), usize, usize);

/// Output budget after charging `u`, as a tuple of `usize`.
pub open spec fn budget_after_usize(b: (usize, usize, usize, usize), u: (int, int, int, int)) -> (
    usize,
    usize,
    usize,
    usize,
) {
    let after = budget_after(b, (u.0 as usize, u.1 as usize, u.2 as usize, u.3 as usize));
    (after.0 as usize, after.1 as usize, after.2 as usize, after.3 as usize)
}

/// Work units an object needs from the budget (`None`: none at all); an
/// attractor's units are its capped steps.
pub open spec fn object_work_units(object: WorldMeshObject) -> Option<int> {
    match object {
        WorldMeshObject::Surface { mesh_res, .. } => {
            let side = crate::clamp_int(mesh_res as int, 2, 128);
            Some((side + 1) * (side + 1))
        },
        WorldMeshObject::ParametricCurve => Some(WORLD_MESH_CURVE_STEPS + 1),
        WorldMeshObject::Attractor { steps } => Some(
            if steps < MAX_WORLD_MESH_ATTRACTOR_STEPS {
                steps as int
            } else {
                MAX_WORLD_MESH_ATTRACTOR_STEPS as int
            },
        ),
        WorldMeshObject::VectorField { density } => Some(crate::vector_field_samples(density as int)),
        _ => None,
    }
}

/// Admission of one object: `None` rejects the scene; otherwise the state
/// after the object. A visible object must be renderable, its output must fit
/// the output budget, at most `MAX_WORLD_MESH_ATTRACTORS` attractors are
/// admitted, and its work units must fit the work budget.
pub open spec fn admit_object(
    state: SceneAdmission,
    item: WorldMeshSceneObject,
    quality: RenderQuality,
) -> Option<SceneAdmission> {
    let (budget, remaining, attractors) = state;
    if !item.visible {
        Some(state)
    } else if !item.renderable {
        None
    } else {
        let budget_ok = match object_usage(item.object, quality) {
            Some(u) => budget_fits(budget, (u.0 as usize, u.1 as usize, u.2 as usize, u.3 as usize)),
            None => true,
        };
        let next_budget = match object_usage(item.object, quality) {
            Some(u) => budget_after_usize(budget, u),
            None => budget,
        };
        if !budget_ok {
            None
        } else if item.object is Attractor && attractors == MAX_WORLD_MESH_ATTRACTORS {
            None
        } else {
            let next_attractors = if item.object is Attractor {
                (attractors + 1) as usize
            } else {
                attractors
            };
            match object_work_units(item.object) {
                Some(units) => if units <= remaining {
                    Some((next_budget, (remaining - units) as usize, next_attractors))
                } else {
                    None
                },
                None => Some((next_budget, remaining, next_attractors)),
            }
        }
    }
}

/// Whether every object of `items`, admitted in order from `state`, fits.
pub open spec fn admit_scene(
    items: Seq<WorldMeshSceneObject>,
    state: SceneAdmission,
    quality: RenderQuality,
) -> bool
    decreases items.len(),
{
    if items.len() == 0 {
        true
    } else {
        match admit_object(state, items[0], quality) {
            Some(next) => admit_scene(items.drop_first(), next, quality),
            None => false,
        }
    }
}

/// The admission state of an empty mesh.
pub open spec fn initial_admission() -> SceneAdmission {
    ((0usize, 0usize, 0usize, 0usize), MAX_WORLD_MESH_WORK_UNITS, 0usize)
}

/// Admitting an object keeps every stream of the output budget within its
/// cap, never returns work units, and never admits more than
/// `MAX_WORLD_MESH_ATTRACTORS` attractors.
pub proof fn lemma_admission_keeps_limits(
    state: SceneAdmission,
    item: WorldMeshSceneObject,
    quality: RenderQuality,
)
    requires
        budget_within_caps(state.0),
        state.1 <= MAX_WORLD_MESH_WORK_UNITS,
        state.2 <= MAX_WORLD_MESH_ATTRACTORS,
    ensures
        admit_object(state, item, quality) matches Some(next) ==> budget_within_caps(next.0)
            && next.1 <= state.1 && next.2 <= MAX_WORLD_MESH_ATTRACTORS,
{
    if let Some(u) = object_usage(item.object, quality) {
        lemma_budget_charge(state.0, (u.0 as usize, u.1 as usize, u.2 as usize, u.3 as usize));
    }
}

/// Whether a scene fits the world mesh: every visible object is renderable,
/// the streams of all visible objects fit their caps, at most
/// `MAX_WORLD_MESH_ATTRACTORS` attractors are present, and the sampling work
/// fits `MAX_WORLD_MESH_WORK_UNITS`.
pub fn world_mesh_scene_fits_limits(items: &[WorldMeshSceneObject], quality: RenderQuality) -> (ok:
    bool)
    ensures
        ok == admit_scene(items@, initial_admission(), quality),
{
    let mut output_budget = WorldMeshOutputBudget::default();
    let mut work_budget = WorldMeshWorkBudget::new();
    let mut attractor_count: usize = 0;
    let mut i: usize = 0;
    assert(items@.skip(0) =~= items@);
    while i < items.len()
        invariant
            i <= items.len(),
            attractor_count <= MAX_WORLD_MESH_ATTRACTORS,
            admit_scene(items@, initial_admission(), quality) == admit_scene(
                items@.skip(i as int),
                (output_budget@, work_budget.remaining_spec(), attractor_count),
                quality,
            ),
        decreases items.len() - i,
    {
        let item = items[i];
        let ghost state = (output_budget@, work_budget.remaining_spec(), attractor_count);
        assert(items@.skip(i as int).drop_first() =~= items@.skip(i as int + 1));
        assert(items@.skip(i as int)[0] == item);
        if !item.visible {
            i += 1;
            continue;
        }
        if !item.renderable {
            return false;
        }
        match world_mesh_output_usage_for_quality(&item.object, quality) {
            Some(usage) => {
                if !output_budget.fits(usage) {
                    return false;
                }
                output_budget.consume(usage);
            },
            None => {},
        }
        let units = match item.object {
            WorldMeshObject::Surface { mesh_res, .. } => {
                let resolution = crate::clamp(mesh_res, 2, 128);
                match surface_work_units(resolution) {
                    Some(units) => units,
                    None => {
                        assert((resolution + 1) * (resolution + 1) <= usize::MAX) by (
                        nonlinear_arith)
                            requires
                                2 <= resolution <= 128,
                        ;
                        return false;
                    },
                }
            },
            WorldMeshObject::ParametricCurve => WORLD_MESH_CURVE_STEPS + 1,
            WorldMeshObject::Attractor { steps } => {
                if attractor_count == MAX_WORLD_MESH_ATTRACTORS {
                    return false;
                }
                attractor_count += 1;
                if steps < MAX_WORLD_MESH_ATTRACTOR_STEPS {
                    steps
                } else {
                    MAX_WORLD_MESH_ATTRACTOR_STEPS
                }
            },
            WorldMeshObject::VectorField { density } => match crate::vector_field_3d_sample_count(
                density,
            ) {
                Some(units) => units,
                None => {
                    i += 1;
                    continue;
                },
            },
            _ => {
                i += 1;
                continue;
            },
        };
        if !work_budget.reserve(units) {
            return false;
        }
        i += 1;
    }
    true
}

/// Neither stream of a mesh of these lengths has room for its smallest
/// primitive.
pub open spec fn output_exhausted(l: WorldMeshCheckpoint) -> bool {
    !part_has_room(l.opaque_vertices as int, l.opaque_indices as int, 3, 3) && !part_has_room(
        l.wire_vertices as int,
        l.wire_indices as int,
        4,
        6,
    )
}

/// The wire stream of a mesh of these lengths has room for `segments`
/// segments.
pub open spec fn wire_fits_spec(l: WorldMeshCheckpoint, segments: int) -> bool {
    part_has_room(l.wire_vertices as int, l.wire_indices as int, 4 * segments, 6 * segments)
}

/// What the mesh builder does with one object of the scene.
#[derive(Debug, Clone, Copy, PartialEq, Eq, Structural)]
pub enum WorldMeshStep {
    /// Nothing to draw: go on to the next object; the mesh stays complete.
    Skip,
    /// Append the object's geometry, then go on.
    Append,
    /// The object does not fit its output or work budget: leave it out, mark
    /// the mesh incomplete, and go on.
    SkipIncomplete,
    /// The mesh is full: mark it incomplete and stop.
    StopIncomplete,
}

/// The decision on one object, given the lengths of the mesh so far, the
/// attractors drawn so far and the work units left; with the attractors and
/// work units after it.
pub open spec fn world_mesh_step_spec(
    l: WorldMeshCheckpoint,
    item: WorldMeshSceneObject,
    attractors: usize,
    remaining: usize,
) -> (WorldMeshStep, usize, usize) {
    let give_up = (WorldMeshStep::SkipIncomplete, attractors, remaining);
    if !item.visible {
        (WorldMeshStep::Skip, attractors, remaining)
    } else if output_exhausted(l) {
        (WorldMeshStep::StopIncomplete, attractors, remaining)
    } else {
        match item.object {
            WorldMeshObject::Surface { mesh_res, solid, fill } => {
                let res = crate::clamp_int(mesh_res as int, 2, 128);
                let units = (res + 1) * (res + 1);
                if !surface_fits_spec(l, solid, fill == SolidFill::Translucent, res) || units
                    > remaining {
                    give_up
                } else {
                    (WorldMeshStep::Append, attractors, (remaining - units) as usize)
                }
            },
            WorldMeshObject::ParametricCurve => {
                if !wire_fits_spec(l, WORLD_MESH_CURVE_STEPS as int) || WORLD_MESH_CURVE_STEPS + 1
                    > remaining {
                    give_up
                } else {
                    (
                        WorldMeshStep::Append,
                        attractors,
                        (remaining - (WORLD_MESH_CURVE_STEPS + 1)) as usize,
                    )
                }
            },
            WorldMeshObject::Attractor { steps } => {
                let capped = if steps < MAX_WORLD_MESH_ATTRACTOR_STEPS {
                    steps
                } else {
                    MAX_WORLD_MESH_ATTRACTOR_STEPS
                };
                if attractors >= MAX_WORLD_MESH_ATTRACTORS || !wire_fits_spec(l, capped as int)
                    || capped > remaining {
                    give_up
                } else {
                    (WorldMeshStep::Append, (attractors + 1) as usize, (remaining - capped) as usize)
                }
            },
            WorldMeshObject::VectorField { density } => {
                let vectors = crate::vector_field_samples(density as int);
                if !wire_fits_spec(l, vectors) || vectors > remaining {
                    give_up
                } else {
                    (WorldMeshStep::Append, attractors, (remaining - vectors) as usize)
                }
            },
            WorldMeshObject::Other => (WorldMeshStep::Skip, attractors, remaining),
            _ => (WorldMeshStep::Append, attractors, remaining),
        }
    }
}

/// The builder stops exactly when the mesh is full: a visible object stops
/// the build when neither the opaque stream has room for one more triangle
/// (three vertices and indices) nor the wire stream for one more segment
/// quad (four vertices, six indices), and never otherwise; so a visible
/// segment is appended whenever the wire stream has room for its quad, even
/// with a full opaque stream.
pub proof fn lemma_step_stops_only_when_both_streams_are_full(
    l: WorldMeshCheckpoint,
    item: WorldMeshSceneObject,
    attractors: usize,
    remaining: usize,
)
    ensures
        item.visible ==> (world_mesh_step_spec(l, item, attractors, remaining).0
            == WorldMeshStep::StopIncomplete <==> ((l.opaque_vertices + 3 > MAX_WORLD_MESH_VERTICES
            || l.opaque_indices + 3 > MAX_WORLD_MESH_INDICES) && (l.wire_vertices + 4
            > MAX_WORLD_MESH_VERTICES || l.wire_indices + 6 > MAX_WORLD_MESH_INDICES))),
        item.visible && item.object is Segment && l.wire_vertices + 4 <= MAX_WORLD_MESH_VERTICES
            && l.wire_indices + 6 <= MAX_WORLD_MESH_INDICES ==> world_mesh_step_spec(
            l,
            item,
            attractors,
            remaining,
        ).0 == WorldMeshStep::Append,
{
}

/// A step never adds work units, and never counts an attractor past
/// `MAX_WORLD_MESH_ATTRACTORS`; a hidden object is always skipped.
pub proof fn lemma_step_keeps_budgets(
    l: WorldMeshCheckpoint,
    item: WorldMeshSceneObject,
    attractors: usize,
    remaining: usize,
)
    requires
        attractors <= MAX_WORLD_MESH_ATTRACTORS,
    ensures
        world_mesh_step_spec(l, item, attractors, remaining).2 <= remaining,
        world_mesh_step_spec(l, item, attractors, remaining).1 <= MAX_WORLD_MESH_ATTRACTORS,
        !item.visible ==> world_mesh_step_spec(l, item, attractors, remaining).0
            == WorldMeshStep::Skip,
        world_mesh_step_spec(l, item, attractors, remaining).0 != WorldMeshStep::Append
            ==> world_mesh_step_spec(l, item, attractors, remaining).2 == remaining,
{
}

/// Starts the world mesh of a scene: empty streams; incomplete when the
/// screen is usable but the scene is over the limits (then nothing is drawn,
/// so that the caller keeps its fallback). Objects are stepped only when the
/// screen is usable and the scene fits.
pub fn begin_world_mesh<V>(screen_ok: bool, scene_fits: bool) -> (m: WorldMesh<V>)
    ensures
        m.opaque_vertices@.len() == 0,
        m.opaque_indices@.len() == 0,
        m.wire_vertices@.len() == 0,
        m.wire_indices@.len() == 0,
        m.complete == (!screen_ok || scene_fits),
{
    let mut mesh: WorldMesh<V> = WorldMesh::new();
    if screen_ok && !scene_fits {
        mesh.complete = false;
    }
    mesh
}

/// Decides what the mesh builder does with one object: skip a hidden or
/// undrawable one; stop when the mesh is full; leave out (and mark the mesh
/// incomplete) an object whose output does not fit, an attractor past
/// `MAX_WORLD_MESH_ATTRACTORS`, or an object whose work does not fit the
/// budget; otherwise append it, charging its work units and counting
/// attractors. An object that is left out reserves no work.
pub fn world_mesh_step(
    lengths: WorldMeshCheckpoint,
    item: WorldMeshSceneObject,
    attractors: &mut usize,
    work: &mut WorldMeshWorkBudget,
) -> (s: WorldMeshStep)
    ensures
        (s, *final(attractors), final(work).remaining_spec()) == world_mesh_step_spec(
            lengths,
            item,
            *old(attractors),
            old(work).remaining_spec(),
        ),
{
    if !item.visible {
        return WorldMeshStep::Skip;
    }
    if !part_room(lengths.opaque_vertices, lengths.opaque_indices, 3, 3) && !part_room(
        lengths.wire_vertices,
        lengths.wire_indices,
        4,
        6,
    ) {
        return WorldMeshStep::StopIncomplete;
    }
    match item.object {
        WorldMeshObject::Surface { mesh_res, solid, fill } => {
            let res: usize = crate::clamp(mesh_res, 2, 128);
            assert((res + 1) * (res + 1) <= 129 * 129) by (nonlinear_arith)
                requires
                    res <= 128,
            ;
            let units: usize = (res + 1) * (res + 1);
            let translucent = match fill {
                SolidFill::Translucent => true,
                SolidFill::Opaque => false,
            };
            if !surface_fits_lengths(&lengths, solid, translucent, res) || !work.reserve(units) {
                return WorldMeshStep::SkipIncomplete;
            }
            WorldMeshStep::Append
        },
        WorldMeshObject::ParametricCurve => {
            if !wire_fits_lengths(&lengths, WORLD_MESH_CURVE_STEPS) || !work.reserve(
                WORLD_MESH_CURVE_STEPS + 1,
            ) {
                return WorldMeshStep::SkipIncomplete;
            }
            WorldMeshStep::Append
        },
        WorldMeshObject::Attractor { steps } => {
            if *attractors >= MAX_WORLD_MESH_ATTRACTORS {
                return WorldMeshStep::SkipIncomplete;
            }
            let capped: usize = if steps < MAX_WORLD_MESH_ATTRACTOR_STEPS {
                steps
            } else {
                MAX_WORLD_MESH_ATTRACTOR_STEPS
            };
            if !wire_fits_lengths(&lengths, capped) || !work.reserve(capped) {
                return WorldMeshStep::SkipIncomplete;
            }
            *attractors = *attractors + 1;
            WorldMeshStep::Append
        },
        WorldMeshObject::VectorField { density } => {
            let vectors: usize = match crate::vector_field_3d_sample_count(density) {
                Some(n) => n,
                None => {
                    return WorldMeshStep::Skip;
                },
            };
            if !wire_fits_lengths(&lengths, vectors) || !work.reserve(vectors) {
                return WorldMeshStep::SkipIncomplete;
            }
            WorldMeshStep::Append
        },
        WorldMeshObject::Other => WorldMeshStep::Skip,
        _ => WorldMeshStep::Append,
    }
}

#[verifier::external_type_specification]
#[verifier::external_body]
#[verifier::reject_recursive_types(T)]
pub struct ExOnceLock<T>(OnceLock<T>);

/// `std::sync::OnceLock::new`: an empty cell. Nothing about the cell is
/// stated, since its contents are not visible to the proofs.
#[verifier::external_body]
fn once_lock_new<T>() -> OnceLock<T> {
    OnceLock::new()
}

/// `std::vec::Vec::try_reserve_exact`: reserves capacity or reports an
/// allocation failure; either way the contents are unchanged. Whether it
/// succeeds depends on the allocator and is not stated.
#[verifier::external_body]
pub(crate) fn vec_try_reserve_exact<T>(v: &mut Vec<T>, additional: usize) -> (result: Result<
    (),
    TryReserveError,
>)
    ensures
        final(v)@ == old(v)@,
{
    v.try_reserve_exact(additional)
}

/// `count` empty cache cells, or `Err` when the allocation fails.
pub fn once_lock_slots<T>(count: usize) -> (slots: Result<Vec<OnceLock<T>>, ()>)
    ensures
        slots matches Ok(v) ==> v@.len() == count,
{
    let mut entries: Vec<OnceLock<T>> = Vec::new();
    if vec_try_reserve_exact(&mut entries, count).is_err() {
        return Err(());
    }
    let mut i: usize = 0;
    while i < count
        invariant
            i <= count,
            entries@.len() == i,
        decreases count - i,
    {
        entries.push(once_lock_new());
        i += 1;
    }
    Ok(entries)
}

/// Every index addresses one of `vertex_count` vertices.
pub open spec fn indices_in_range(indices: Seq<u32>, vertex_count: int) -> bool {
    forall|k: int| 0 <= k < indices.len() ==> (#[trigger] indices[k]) < vertex_count
}

/// Checks one stream: its indices form whole triangles, its vertex data is
/// finite (decided by the caller), and every index addresses a vertex of the
/// stream. The first failing check names the error.
pub fn validate_part<V>(vertices: &[V], vertices_finite: bool, indices: &[u32]) -> (result: Result<
    (),
    &'static str,
>)
    ensures
        indices@.len() % 3 != 0 ==> result == Err::<(), &'static str>(
            "3D mesh indices must form triangles",
        ),
        indices@.len() % 3 == 0 && !vertices_finite ==> result == Err::<(), &'static str>(
            "3D mesh contains non-finite vertex data",
        ),
        indices@.len() % 3 == 0 && vertices_finite && !indices_in_range(
            indices@,
            vertices@.len() as int,
        ) ==> result == Err::<(), &'static str>("3D mesh index is outside its vertex stream"),
        result is Ok <==> (indices@.len() % 3 == 0 && vertices_finite && indices_in_range(
            indices@,
            vertices@.len() as int,
        )),
{
    if indices.len() % 3 != 0 {
        return Err("3D mesh indices must form triangles");
    }
    if !vertices_finite {
        return Err("3D mesh contains non-finite vertex data");
    }
    let mut k: usize = 0;
    while k < indices.len()
        invariant
            k <= indices.len(),
            indices@.len() % 3 == 0,
            vertices_finite,
            forall|m: int| 0 <= m < k ==> (#[trigger] indices@[m]) < vertices@.len(),
        decreases indices.len() - k,
    {
        if indices[k] as usize >= vertices.len() {
            return Err("3D mesh index is outside its vertex stream");
        }
        k += 1;
    }
    Ok(())
}

impl<V> WorldMesh<V> {
    /// Checks the opaque stream, then the wire stream; the finiteness of
    /// each stream's vertex data is decided by the caller.
    pub fn validate(&self, opaque_finite: bool, wire_finite: bool) -> (result: Result<(), &'static str>)
        ensures
            result is Ok <==> (self.opaque_indices@.len() % 3 == 0 && opaque_finite
                && indices_in_range(self.opaque_indices@, self.opaque_vertices@.len() as int)
                && self.wire_indices@.len() % 3 == 0 && wire_finite && indices_in_range(
                self.wire_indices@,
                self.wire_vertices@.len() as int,
            )),
    {
        match validate_part(self.opaque_vertices.as_slice(), opaque_finite, self.opaque_indices.as_slice()) {
            Ok(()) => validate_part(self.wire_vertices.as_slice(), wire_finite, self.wire_indices.as_slice()),
            Err(e) => Err(e),
        }
    }
}

} // verus!

//! Budgets and buffer layout of the GPU pipeline that samples parametric
//! curves and surfaces.
//!
//! A curve of `steps` steps is sampled at `steps + 1` parameter values and
//! writes two values per sample (three for a 3D curve); a surface of
//! resolution `res` writes one height per point of a `(res + 1)²` grid. All
//! of them share one values buffer. Several curves can be evaluated in one
//! submit: their outputs are copied back to back into one readback buffer and
//! split again afterwards, one result per prepared curve.

use vstd::prelude::*;
use crate::dispatch::{workgroup_count, workgroups_for};

verus! {

/// Samples of one parametric curve are `steps + 1`, with `steps` at most this.
pub const MAX_CURVE_STEPS: usize = 4000;

/// Largest side of a parametric surface grid evaluated on the GPU.
pub const MAX_SURFACE_RES: usize = 128;

/// A surface resolution is evaluated only within `1..=MAX_SURFACE_RES`;
/// above the budget it is rejected rather than clamped.
pub fn surface_res_within_budget(res: usize) -> (ok: bool)
    ensures
        ok == (1 <= res && res <= MAX_SURFACE_RES),
{
    1 <= res && res <= MAX_SURFACE_RES
}

/// Threads of one workgroup of a curve dispatch.
pub const CURVE_WORKGROUP_SIZE: u32 = 64;

/// Threads along each axis of one workgroup of a surface dispatch.
pub const SURFACE_WORKGROUP_SIDE: u32 = 16;

/// Shader mode of a surface evaluation.
pub const SURFACE_MODE: u32 = 3;

/// The kinds of curves the parametric shader samples.
#[derive(Debug, Clone, Copy, PartialEq, Eq, Structural)]
pub enum CurveKind {
    /// `(x(t), y(t))`.
    Curve2D,
    /// `(x(t), y(t), z(t))`.
    Curve3D,
    /// `r(t)`, written back as a point of the plane.
    Polar,
}

/// Values written per sample of a curve of the given kind.
pub open spec fn curve_components(kind: CurveKind) -> int {
    match kind {
        CurveKind::Curve3D => 3,
        _ => 2,
    }
}

/// Shader mode of a curve of the given kind.
pub open spec fn curve_mode(kind: CurveKind) -> u32 {
    match kind {
        CurveKind::Curve2D => 0,
        CurveKind::Curve3D => 1,
        CurveKind::Polar => 2,
    }
}

impl CurveKind {
    /// Values written per sample.
    pub fn components(&self) -> (c: usize)
        ensures
            c == curve_components(*self),
    {
        match self {
            CurveKind::Curve3D => 3,
            _ => 2,
        }
    }

    /// The shader mode that samples this kind of curve.
    pub fn mode(&self) -> (m: u32)
        ensures
            m == curve_mode(*self),
            m != SURFACE_MODE,
    {
        match self {
            CurveKind::Curve2D => 0,
            CurveKind::Curve3D => 1,
            CurveKind::Polar => 2,
        }
    }
}

/// What one dispatch samples: `n` points along the first axis, `m` along the
/// second (zero for a curve), and `output_count` values written back.
#[derive(Debug, Clone, Copy, PartialEq, Eq, Structural)]
pub struct SampleLayout {
    pub n: u32,
    pub m: u32,
    pub output_count: usize,
}

/// The step count of a curve once clamped to `1..=max_curve_samples`.
pub open spec fn clamped_steps(steps: int, max_curve_samples: int) -> int {
    if steps < 1 {
        1
    } else if steps > max_curve_samples {
        max_curve_samples
    } else {
        steps
    }
}

/// Values written back by a curve of the given kind and step count.
pub open spec fn curve_output(kind: CurveKind, steps: int, max_curve_samples: int) -> int {
    (clamped_steps(steps, max_curve_samples) + 1) * curve_components(kind)
}

/// Values written back by a surface of resolution `res`.
pub open spec fn surface_output(res: int) -> int {
    (res + 1) * (res + 1)
}

/// Values the shared values buffer holds: enough for the longest 3D curve and
/// for the finest surface.
pub open spec fn values_capacity(max_curve_samples: int, max_surface_res: int) -> int {
    let curves = (max_curve_samples + 1) * 3;
    let surfaces = surface_output(max_surface_res);
    if curves >= surfaces {
        curves
    } else {
        surfaces
    }
}

/// The layout of one curve dispatch: the step count is clamped to
/// `1..=max_curve_samples` (never rejected), the shader samples `steps + 1`
/// parameter values and writes `components` values for each.
pub fn curve_layout(kind: CurveKind, steps: usize, max_curve_samples: usize) -> (layout:
    SampleLayout)
    requires
        1 <= max_curve_samples,
        max_curve_samples < u32::MAX,
        (max_curve_samples + 1) * 3 <= usize::MAX,
    ensures
        layout.n == clamped_steps(steps as int, max_curve_samples as int) + 1,
        layout.m == 0,
        layout.output_count == curve_output(kind, steps as int, max_curve_samples as int),
{
    let clamped: usize = if steps < 1 {
        1
    } else if steps > max_curve_samples {
        max_curve_samples
    } else {
        steps
    };
    let samples: usize = clamped + 1;
    let components: usize = kind.components();
    assert(samples * components <= (max_curve_samples + 1) * 3) by (nonlinear_arith)
        requires
            samples <= max_curve_samples + 1,
            components <= 3,
    ;
    SampleLayout { n: samples as u32, m: 0, output_count: samples * components }
}

/// The layout of one surface dispatch. A resolution of zero is evaluated as
/// one; above `max_surface_res` the surface is left to the CPU (`None`)
/// rather than clamped.
pub fn surface_layout(res: usize, max_surface_res: usize) -> (layout: Option<SampleLayout>)
    requires
        max_surface_res < u32::MAX,
        surface_output(max_surface_res as int) <= usize::MAX,
    ensures
        layout is None <==> (if res == 0 { 1 } else { res }) > max_surface_res,
        layout matches Some(l) ==> {
            let r = if res == 0 { 1 } else { res as int };
            &&& l.n == r + 1
            &&& l.m == r + 1
            &&& l.output_count == surface_output(r)
        },
{
    let r: usize = if res == 0 {
        1
    } else {
        res
    };
    if r > max_surface_res {
        return None;
    }
    let side: usize = r + 1;
    assert(side * side <= surface_output(max_surface_res as int)) by (nonlinear_arith)
        requires
            side <= max_surface_res + 1,
    ;
    Some(SampleLayout { n: side as u32, m: side as u32, output_count: side * side })
}

/// Values of the buffer shared by every dispatch of a pipeline built for
/// curves of up to `max_curve_samples` steps and surfaces of resolution up to
/// `max_surface_res`.
pub fn parametric_values_capacity(max_curve_samples: usize, max_surface_res: usize) -> (capacity:
    usize)
    requires
        (max_curve_samples + 1) * 3 <= usize::MAX,
        surface_output(max_surface_res as int) <= usize::MAX,
    ensures
        capacity == values_capacity(max_curve_samples as int, max_surface_res as int),
{
    let curves: usize = (max_curve_samples + 1) * 3;
    assert(max_surface_res + 1 <= surface_output(max_surface_res as int)) by (nonlinear_arith)
        requires
            max_surface_res >= 0,
    ;
    let side: usize = max_surface_res + 1;
    let surfaces: usize = side * side;
    if curves >= surfaces {
        curves
    } else {
        surfaces
    }
}

/// Every curve layout and every accepted surface layout fits in the values
/// buffer of the pipeline.
pub proof fn lemma_layouts_fit_values_buffer(
    kind: CurveKind,
    steps: int,
    res: int,
    max_curve_samples: int,
    max_surface_res: int,
)
    requires
        1 <= max_curve_samples,
        1 <= res <= max_surface_res,
    ensures
        curve_output(kind, steps, max_curve_samples) <= values_capacity(
            max_curve_samples,
            max_surface_res,
        ),
        surface_output(res) <= values_capacity(max_curve_samples, max_surface_res),
{
    let c = clamped_steps(steps, max_curve_samples);
    assert((c + 1) * curve_components(kind) <= (max_curve_samples + 1) * 3) by (nonlinear_arith)
        requires
            1 <= c <= max_curve_samples,
            2 <= curve_components(kind) <= 3,
    ;
    assert(surface_output(res) <= surface_output(max_surface_res)) by (nonlinear_arith)
        requires
            1 <= res <= max_surface_res,
    ;
}

/// Workgroups of a dispatch in the given shader mode: a surface is tiled in
/// 16×16 workgroups over its `n × m` grid, a curve in workgroups of 64
/// samples along one axis.
pub fn parametric_workgroups(mode: u32, n: u32, m: u32) -> (groups: (u32, u32))
    ensures
        mode == SURFACE_MODE ==> groups.0 == workgroups_for(n as int, SURFACE_WORKGROUP_SIDE as int)
            && groups.1 == workgroups_for(m as int, SURFACE_WORKGROUP_SIDE as int),
        mode != SURFACE_MODE ==> groups.0 == workgroups_for(n as int, CURVE_WORKGROUP_SIZE as int)
            && groups.1 == 1,
{
    if mode == SURFACE_MODE {
        (workgroup_count(n, SURFACE_WORKGROUP_SIDE), workgroup_count(m, SURFACE_WORKGROUP_SIDE))
    } else {
        (workgroup_count(n, CURVE_WORKGROUP_SIZE), 1)
    }
}

/// Index in the readback of the height at column `i` and row `j` of a
/// surface of resolution `res`: rows of `res + 1` heights, one after another.
pub fn surface_value_index(i: usize, j: usize, res: usize) -> (index: usize)
    requires
        i <= res,
        j <= res,
        surface_output(res as int) <= usize::MAX,
    ensures
        index == j * (res + 1) + i,
        index < surface_output(res as int),
{
    assert(j * (res + 1) + i < surface_output(res as int) && res + 1 <= surface_output(res as int))
        by (nonlinear_arith)
        requires
            i <= res,
            j <= res,
    ;
    j * (res + 1) + i
}

/// Sum of the output counts of a batch of curves.
pub open spec fn total_outputs(counts: Seq<usize>) -> int
    decreases counts.len(),
{
    if counts.len() == 0 {
        0
    } else {
        total_outputs(counts.drop_last()) + counts.last()
    }
}

/// Where the output of the `k`-th curve of a batch starts in the readback.
pub open spec fn batch_offset(counts: Seq<usize>, k: int) -> int {
    total_outputs(counts.take(k))
}

proof fn lemma_batch_offset_step(counts: Seq<usize>, k: int)
    requires
        0 <= k < counts.len(),
    ensures
        batch_offset(counts, k + 1) == batch_offset(counts, k) + counts[k],
{
    assert(counts.take(k + 1).drop_last() =~= counts.take(k));
}

proof fn lemma_batch_offset_bounded(counts: Seq<usize>, k: int)
    requires
        0 <= k <= counts.len(),
    ensures
        0 <= batch_offset(counts, k) <= total_outputs(counts),
    decreases counts.len() - k,
{
    if k == counts.len() {
        assert(counts.take(k) =~= counts);
        lemma_total_nonneg(counts);
    } else {
        lemma_batch_offset_bounded(counts, k + 1);
        lemma_batch_offset_step(counts, k);
        lemma_total_nonneg(counts.take(k));
    }
}

proof fn lemma_total_nonneg(counts: Seq<usize>)
    ensures
        total_outputs(counts) >= 0,
    decreases counts.len(),
{
    if counts.len() > 0 {
        lemma_total_nonneg(counts.drop_last());
    }
}

/// Where each curve's output starts in the readback of a batch, followed by
/// the total, which sizes the readback buffer.
pub fn batch_output_offsets(counts: &[usize]) -> (offsets: Vec<usize>)
    requires
        total_outputs(counts@) <= usize::MAX,
    ensures
        offsets@.len() == counts@.len() + 1,
        forall|k: int| 0 <= k <= counts@.len() ==> offsets@[k] == batch_offset(counts@, k),
        offsets@[counts@.len() as int] == total_outputs(counts@),
{
    let mut offsets: Vec<usize> = Vec::new();
    let mut acc: usize = 0;
    offsets.push(0);
    assert(counts@.take(0) =~= Seq::<usize>::empty());
    let mut k: usize = 0;
    while k < counts.len()
        invariant
            k <= counts@.len(),
            total_outputs(counts@) <= usize::MAX,
            acc == batch_offset(counts@, k as int),
            offsets@.len() == k + 1,
            forall|q: int| 0 <= q <= k ==> offsets@[q] == batch_offset(counts@, q),
        decreases counts@.len() - k,
    {
        proof {
            lemma_batch_offset_step(counts@, k as int);
            lemma_batch_offset_bounded(counts@, k as int + 1);
        }
        acc = acc + counts[k];
        offsets.push(acc);
        k = k + 1;
    }
    assert(counts@.take(counts@.len() as int) =~= counts@);
    offsets
}

/// The tail of a batched readback: when the buffer was mapped, one result
/// per curve holding its values, cut from the readback at its offset;
/// otherwise no result for any curve.
pub fn batch_readback_results<T: Copy>(mapped: bool, values: &[T], counts: &[usize]) -> (results:
    Vec<Option<Vec<T>>>)
    requires
        mapped ==> total_outputs(counts@) <= values@.len(),
    ensures
        results@.len() == counts@.len(),
        forall|k: int|
            0 <= k < counts@.len() ==> (#[trigger] results@[k] is Some) == mapped,
        forall|k: int|
            0 <= k < counts@.len() && mapped ==> (#[trigger] results@[k])->0@ == values@.subrange(
                batch_offset(counts@, k),
                batch_offset(counts@, k) + counts@[k],
            ),
{
    let mut results: Vec<Option<Vec<T>>> = Vec::new();
    let values_len: usize = values.len();
    let mut offset: usize = 0;
    let mut k: usize = 0;
    assert(counts@.take(0) =~= Seq::<usize>::empty());
    while k < counts.len()
        invariant
            k <= counts@.len(),
            values_len == values@.len(),
            mapped ==> total_outputs(counts@) <= values@.len(),
            mapped ==> offset == batch_offset(counts@, k as int),
            results@.len() == k,
            forall|q: int| 0 <= q < k ==> (#[trigger] results@[q] is Some) == mapped,
            forall|q: int|
                0 <= q < k && mapped ==> (#[trigger] results@[q])->0@ == values@.subrange(
                    batch_offset(counts@, q),
                    batch_offset(counts@, q) + counts@[q],
                ),
        decreases counts@.len() - k,
    {
        if mapped {
            proof {
                lemma_batch_offset_step(counts@, k as int);
                lemma_batch_offset_bounded(counts@, k as int + 1);
            }
            let count: usize = counts[k];
            let end: usize = offset + count;
            let mut piece: Vec<T> = Vec::new();
            let mut idx: usize = offset;
            while idx < end
                invariant
                    offset <= idx <= end,
                    end <= values@.len(),
                    piece@ =~= values@.subrange(offset as int, idx as int),
                decreases end - idx,
            {
                piece.push(values[idx]);
                idx = idx + 1;
            }
            results.push(Some(piece));
            offset = end;
        } else {
            results.push(None);
        }
        k = k + 1;
    }
    results
}

/// Number of prepared curves among the first `i` curves of a batch: the
/// position of curve `i`'s result among the results of the batch.
pub open spec fn prepared_before(prepared: Seq<bool>, i: int) -> int
    decreases i,
{
    if i <= 0 {
        0
    } else {
        prepared_before(prepared, i - 1) + if prepared[i - 1] {
            1int
        } else {
            0int
        }
    }
}

proof fn lemma_prepared_before_monotone(prepared: Seq<bool>, i: int, j: int)
    requires
        0 <= i <= j,
    ensures
        0 <= prepared_before(prepared, i) <= prepared_before(prepared, j),
        prepared_before(prepared, i) <= i,
    decreases j,
{
    if j > i {
        lemma_prepared_before_monotone(prepared, i, j - 1);
    } else if i > 0 {
        lemma_prepared_before_monotone(prepared, i - 1, i - 1);
    }
}

/// What curve `i` of a batch gets back: nothing when it was not prepared,
/// otherwise the result at its position among the prepared curves, or
/// nothing when the batch returned fewer results.
pub open spec fn batch_result_for<T>(prepared: Seq<bool>, results: Seq<Option<T>>, i: int) -> Option<
    T,
> {
    let rank = prepared_before(prepared, i);
    if prepared[i] && rank < results.len() {
        results[rank]
    } else {
        None
    }
}

/// Hands the results of a batch of prepared curves back to the curves of the
/// request, in order: curve `i` gets the result of the `k`-th prepared curve
/// when it is that curve, and nothing when it was not prepared.
pub fn redistribute_batch_results<T>(prepared: &[bool], results: Vec<Option<T>>) -> (per_curve: Vec<
    Option<T>,
>)
    ensures
        per_curve@.len() == prepared@.len(),
        forall|i: int|
            0 <= i < prepared@.len() ==> #[trigger] per_curve@[i] == batch_result_for(
                prepared@,
                results@,
                i,
            ),
{
    let ghost original = results@;
    let n: usize = prepared.len();
    let mut per_curve: Vec<Option<T>> = Vec::new();
    let mut fill: usize = 0;
    while fill < n
        invariant
            fill <= n,
            n == prepared@.len(),
            per_curve@.len() == fill,
            forall|q: int| 0 <= q < fill ==> per_curve@[q] is None,
        decreases n - fill,
    {
        per_curve.push(None);
        fill = fill + 1;
    }
    let mut count: usize = 0;
    let mut c: usize = 0;
    while c < n
        invariant
            c <= n,
            n == prepared@.len(),
            count == prepared_before(prepared@, c as int),
            count <= c,
        decreases n - c,
    {
        if prepared[c] {
            count = count + 1;
        }
        c = c + 1;
    }
    let mut results = results;
    results.truncate(count);
    let mut i: usize = n;
    while i > 0
        invariant
            i <= n,
            n == prepared@.len(),
            per_curve@.len() == n,
            count == prepared_before(prepared@, i as int),
            results@ =~= original.take(
                if original.len() < count {
                    original.len() as int
                } else {
                    count as int
                },
            ),
            forall|q: int|
                i <= q < n ==> #[trigger] per_curve@[q] == batch_result_for(prepared@, original, q),
            forall|q: int| 0 <= q < i ==> per_curve@[q] is None,
        decreases i,
    {
        let k: usize = i - 1;
        proof {
            lemma_prepared_before_monotone(prepared@, k as int, k as int);
        }
        if prepared[k] {
            if results.len() == count {
                let ghost before = results@;
                let item = results.pop();
                proof {
                    assert(before.subrange(0, before.len() - 1) =~= original.take(count - 1));
                }
                match item {
                    Some(value) => {
                        per_curve.set(k, value);
                    },
                    None => {},
                }
            }
            count = count - 1;
        }
        i = k;
    }
    per_curve
}

} // verus!

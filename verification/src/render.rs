//! One mesh through the pipeline: triangle assembly, rasterization, shading
//! and the depth-tested write.

use vstd::prelude::*;
use crate::fragment::Fragment;
use crate::framebuffer::{Canvas, Framebuffer, Plot};
use crate::shaders::{
    fragment_shader, sample_points, sample_points_of, samples_of, select_shader, shaded,
    shader_of, NoiseChannel, NoiseSamples, SamplePoint,
};
use crate::triangle::{raster, triangle};
use crate::uniforms::Uniforms;
use crate::vertex::TransformedVertex;

verus! {

/// Three transformed vertices, in the order in which the mesh lists them.
#[derive(Clone, Copy, Debug, PartialEq, Eq, Structural)]
pub struct Triangle {
    pub v0: TransformedVertex,
    pub v1: TransformedVertex,
    pub v2: TransformedVertex,
}

/// A source of coherent noise: a sample, as a fixed-point real, for a point
/// of the noise domain given as fixed-point reals.
pub trait NoiseField {
    fn sample(&self, channel: NoiseChannel, x: i64, y: i64) -> i32;
}

/// The triangles of a vertex list: each window of three vertices in a row,
/// without overlap. One or two vertices left at the end are dropped.
pub open spec fn assembled(vertices: Seq<TransformedVertex>) -> Seq<Triangle> {
    Seq::new(
        (vertices.len() / 3) as nat,
        |i: int| Triangle { v0: vertices[3 * i], v1: vertices[3 * i + 1], v2: vertices[3 * i + 2] },
    )
}

/// The fragments of a list of triangles: those of each triangle, in the
/// order of the list.
pub open spec fn mesh_raster(triangles: Seq<Triangle>, width: int, height: int) -> Seq<Fragment>
    decreases triangles.len(),
{
    if triangles.len() == 0 {
        Seq::empty()
    } else {
        mesh_raster(triangles.drop_last(), width, height) + raster(
            triangles.last().v0,
            triangles.last().v1,
            triangles.last().v2,
            width,
            height,
        )
    }
}

/// The write that a fragment stands for: its pixel and depth, in the color
/// that the selected shader gives it.
pub open spec fn plot_of(uniforms: Uniforms, fragment: Fragment, samples: NoiseSamples) -> Plot {
    Plot {
        x: fragment.x as int,
        y: fragment.y as int,
        depth: fragment.depth,
        color: shaded(fragment, uniforms, samples).packed() as u32,
    }
}

/// The canvas after one fragment: written under the depth test if its pixel
/// lies on the canvas, untouched otherwise.
pub open spec fn drawn_one(
    canvas: Canvas,
    uniforms: Uniforms,
    fragment: Fragment,
    samples: NoiseSamples,
) -> Canvas {
    if canvas.has_pixel(fragment.x as int, fragment.y as int) {
        canvas.painted(plot_of(uniforms, fragment, samples))
    } else {
        canvas
    }
}

/// The canvas after the first `count` fragments, each with the samples at
/// its index.
pub open spec fn drawn_first(
    canvas: Canvas,
    uniforms: Uniforms,
    fragments: Seq<Fragment>,
    samples: Seq<NoiseSamples>,
    count: nat,
) -> Canvas
    decreases count,
{
    if count == 0 {
        canvas
    } else {
        drawn_one(
            drawn_first(canvas, uniforms, fragments, samples, (count - 1) as nat),
            uniforms,
            fragments[count - 1],
            samples[count - 1],
        )
    }
}

/// The canvas after all fragments that have samples, in order.
pub open spec fn drawn(
    canvas: Canvas,
    uniforms: Uniforms,
    fragments: Seq<Fragment>,
    samples: Seq<NoiseSamples>,
) -> Canvas {
    drawn_first(
        canvas,
        uniforms,
        fragments,
        samples,
        if fragments.len() <= samples.len() {
            fragments.len()
        } else {
            samples.len()
        },
    )
}

/// `samples` can come from sampling a fragment: it stands for one value at
/// each sample point of the fragment under the selected shader, in order.
pub open spec fn sampled_for(uniforms: Uniforms, fragment: Fragment, samples: NoiseSamples) -> bool {
    exists|values: Seq<i32>|
        values.len() == sample_points_of(
            shader_of(uniforms.current_shader),
            fragment,
            uniforms.time,
        ).len() && samples == #[trigger] samples_of(values)
}

/// Groups a vertex list into triangles.
pub fn assemble(vertices: &Vec<TransformedVertex>) -> (triangles: Vec<Triangle>)
    ensures
        triangles@ == assembled(vertices@),
{
    let n: usize = vertices.len();
    let mut triangles: Vec<Triangle> = Vec::new();
    let mut i: usize = 0;
    while n - i >= 3
        invariant
            i <= n,
            n == vertices@.len(),
            i == 3 * triangles@.len(),
            forall|k: int|
                0 <= k < triangles@.len() ==> #[trigger] triangles@[k] == (Triangle {
                    v0: vertices@[3 * k],
                    v1: vertices@[3 * k + 1],
                    v2: vertices@[3 * k + 2],
                }),
        decreases n - i,
    {
        triangles.push(Triangle { v0: vertices[i], v1: vertices[i + 1], v2: vertices[i + 2] });
        i += 3;
    }
    assert(triangles@ =~= assembled(vertices@));
    triangles
}

/// Rasterizes a list of triangles on a canvas of `width` by `height`
/// pixels.
pub fn rasterize(triangles: &Vec<Triangle>, width: usize, height: usize) -> (fragments: Vec<
    Fragment,
>)
    ensures
        fragments@ == mesh_raster(triangles@, width as int, height as int),
{
    let mut fragments: Vec<Fragment> = Vec::new();
    let mut i: usize = 0;
    while i < triangles.len()
        invariant
            i <= triangles@.len(),
            fragments@ == mesh_raster(triangles@.take(i as int), width as int, height as int),
        decreases triangles@.len() - i,
    {
        let t: &Triangle = &triangles[i];
        let mut more: Vec<Fragment> = triangle(&t.v0, &t.v1, &t.v2, width, height);
        fragments.append(&mut more);
        proof {
            assert(triangles@.take(i + 1).drop_last() =~= triangles@.take(i as int));
            assert(triangles@.take(i + 1).last() == triangles@[i as int]);
        }
        i += 1;
    }
    assert(triangles@.take(i as int) =~= triangles@);
    fragments
}

/// Shades one fragment and writes it under the depth test. A fragment
/// outside the framebuffer is ignored.
pub fn draw_fragment(
    framebuffer: &mut Framebuffer,
    uniforms: &Uniforms,
    fragment: &Fragment,
    samples: &NoiseSamples,
)
    requires
        old(framebuffer).wf(),
    ensures
        final(framebuffer).wf(),
        final(framebuffer)@ == drawn_one(old(framebuffer)@, *uniforms, *fragment, *samples),
{
    if fragment.x < framebuffer.width() && fragment.y < framebuffer.height() {
        let color = fragment_shader(fragment, uniforms, samples);
        framebuffer.set_current_color(color.to_hex());
        framebuffer.point(fragment.x, fragment.y, fragment.depth);
    }
}

/// Shades and writes a list of fragments in order, each with the noise
/// samples at its index. Fragments beyond the last one that has samples are
/// not drawn.
pub fn draw_fragments(
    framebuffer: &mut Framebuffer,
    uniforms: &Uniforms,
    fragments: &Vec<Fragment>,
    samples: &Vec<NoiseSamples>,
)
    requires
        old(framebuffer).wf(),
    ensures
        final(framebuffer).wf(),
        final(framebuffer)@ == drawn(old(framebuffer)@, *uniforms, fragments@, samples@),
{
    let n: usize = if fragments.len() <= samples.len() {
        fragments.len()
    } else {
        samples.len()
    };
    let mut i: usize = 0;
    while i < n
        invariant
            i <= n,
            n <= fragments@.len(),
            n <= samples@.len(),
            framebuffer.wf(),
            framebuffer@ == drawn_first(
                old(framebuffer)@,
                *uniforms,
                fragments@,
                samples@,
                i as nat,
            ),
        decreases n - i,
    {
        draw_fragment(framebuffer, uniforms, &fragments[i], &samples[i]);
        i += 1;
    }
}

/// Samples the noise of each fragment: `field` is asked once at each sample
/// point of the fragment under the selected shader, in order, and the values
/// that it gives are collected as the fragment's samples.
pub fn gather_samples<N: NoiseField>(
    uniforms: &Uniforms,
    fragments: &Vec<Fragment>,
    field: &N,
) -> (samples: Vec<NoiseSamples>)
    ensures
        samples@.len() == fragments@.len(),
        forall|i: int|
            0 <= i < fragments@.len() ==> sampled_for(*uniforms, fragments@[i], #[trigger] samples@[i]),
{
    let shader = select_shader(uniforms.current_shader);
    let mut samples: Vec<NoiseSamples> = Vec::new();
    let mut i: usize = 0;
    while i < fragments.len()
        invariant
            i <= fragments@.len(),
            samples@.len() == i,
            shader == shader_of(uniforms.current_shader),
            forall|j: int|
                0 <= j < i ==> sampled_for(*uniforms, fragments@[j], #[trigger] samples@[j]),
        decreases fragments@.len() - i,
    {
        let points: Vec<SamplePoint> = sample_points(shader, &fragments[i], uniforms.time);
        let mut values: Vec<i32> = Vec::new();
        let mut k: usize = 0;
        while k < points.len()
            invariant
                k <= points@.len(),
                values@.len() == k,
            decreases points@.len() - k,
        {
            let p: &SamplePoint = &points[k];
            values.push(field.sample(p.channel, p.x, p.y));
            k += 1;
        }
        let collected = NoiseSamples::from_values(&values);
        assert(sampled_for(*uniforms, fragments@[i as int], collected)) by {
            assert(collected == samples_of(values@));
        }
        samples.push(collected);
        i += 1;
    }
    samples
}

/// Renders one mesh into the framebuffer: assembles the triangles of the
/// vertex list, rasterizes them on the framebuffer's canvas, samples `field`
/// at the sample points of each fragment, shades the fragments and writes
/// them under the depth test.
///
/// Nothing is known of what `field` returns, so the contract speaks of some
/// run of samples, one for each fragment and each made of as many values as
/// the fragment has sample points. What the framebuffer holds for given
/// samples is what [`draw_fragments`] states.
pub fn render<N: NoiseField>(
    framebuffer: &mut Framebuffer,
    uniforms: &Uniforms,
    vertex_array: &Vec<TransformedVertex>,
    field: &N,
)
    requires
        old(framebuffer).wf(),
    ensures
        final(framebuffer).wf(),
        exists|samples: Seq<NoiseSamples>|
            samples.len() == mesh_raster(
                assembled(vertex_array@),
                old(framebuffer)@.width as int,
                old(framebuffer)@.height as int,
            ).len() && (forall|i: int|
                0 <= i < samples.len() ==> sampled_for(
                    *uniforms,
                    mesh_raster(
                        assembled(vertex_array@),
                        old(framebuffer)@.width as int,
                        old(framebuffer)@.height as int,
                    )[i],
                    #[trigger] samples[i],
                )) && final(framebuffer)@ == #[trigger] drawn(
                old(framebuffer)@,
                *uniforms,
                mesh_raster(
                    assembled(vertex_array@),
                    old(framebuffer)@.width as int,
                    old(framebuffer)@.height as int,
                ),
                samples,
            ),
{
    let triangles = assemble(vertex_array);
    let fragments = rasterize(&triangles, framebuffer.width(), framebuffer.height());
    let samples = gather_samples(uniforms, &fragments, field);
    draw_fragments(framebuffer, uniforms, &fragments, &samples);
    assert(framebuffer@ == drawn(old(framebuffer)@, *uniforms, fragments@, samples@));
}

/// A run of fragments changes two canvases alike: canvases that agree in
/// size, colors and depths still do after the same fragments with the same
/// samples, whatever draw color each was left with.
pub proof fn lemma_drawn_alike(
    a: Canvas,
    b: Canvas,
    uniforms: Uniforms,
    fragments: Seq<Fragment>,
    samples: Seq<NoiseSamples>,
    count: nat,
)
    requires
        a.width == b.width,
        a.height == b.height,
        a.colors == b.colors,
        a.depths == b.depths,
    ensures
        drawn_first(a, uniforms, fragments, samples, count).width == drawn_first(
            b,
            uniforms,
            fragments,
            samples,
            count,
        ).width,
        drawn_first(a, uniforms, fragments, samples, count).height == drawn_first(
            b,
            uniforms,
            fragments,
            samples,
            count,
        ).height,
        drawn_first(a, uniforms, fragments, samples, count).colors == drawn_first(
            b,
            uniforms,
            fragments,
            samples,
            count,
        ).colors,
        drawn_first(a, uniforms, fragments, samples, count).depths == drawn_first(
            b,
            uniforms,
            fragments,
            samples,
            count,
        ).depths,
    decreases count,
{
    if count > 0 {
        lemma_drawn_alike(a, b, uniforms, fragments, samples, (count - 1) as nat);
    }
}

/// Determinism of a frame: clearing and then drawing the same fragments with
/// the same samples under the same uniforms gives the same colors and depths,
/// whatever the framebuffer held before.
pub proof fn lemma_frame_deterministic(
    a: Canvas,
    b: Canvas,
    uniforms: Uniforms,
    fragments: Seq<Fragment>,
    samples: Seq<NoiseSamples>,
)
    requires
        a.wf(),
        b.wf(),
        a.width == b.width,
        a.height == b.height,
        a.background == b.background,
    ensures
        drawn(a.cleared(), uniforms, fragments, samples).colors == drawn(
            b.cleared(),
            uniforms,
            fragments,
            samples,
        ).colors,
        drawn(a.cleared(), uniforms, fragments, samples).depths == drawn(
            b.cleared(),
            uniforms,
            fragments,
            samples,
        ).depths,
{
    crate::framebuffer::lemma_clear_forgets(a, b);
    let count: nat = if fragments.len() <= samples.len() {
        fragments.len()
    } else {
        samples.len()
    };
    lemma_drawn_alike(a.cleared(), b.cleared(), uniforms, fragments, samples, count);
}

} // verus!

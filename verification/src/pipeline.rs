//! The pipeline orchestrator: per frame it resets the depth buffer,
//! vertex-shades the input, assembles triangles from consecutive triples,
//! and rasterizes every triangle in input order against the shared depth
//! buffer, returning the emitted fragments.

use vstd::prelude::*;

verus! {

use crate::color::Color;
use crate::fragment::Fragment;
use crate::lighting::{is_lighting_intensity, lighting_intensity};
use crate::math::{dot_spec, vec3_bounded, vec3_sub, Vec3, ATTR_MAX, DEPTH_INFINITY, FP};
use crate::rasterizer::{draw_filled_triangle, zbuf_after_triangle};
use crate::triangle::{
    frag_in, pixel_depth, pixel_fragment, pixel_inside, vertex_in_range,
};
use crate::uniforms::{mat4_bounded, Mat4, Uniforms, POS_MAX};
use crate::vertex::Vertex;
use crate::vertex_shader::{vertex_shader, vertex_shader_spec};
use vstd::pervasive::VecAdditionalExecFns;

/// A triangle: an ordered triple of shaded vertices. The order fixes the
/// sign of the edge-function area; either winding is a valid input.
#[derive(Clone, Copy, Debug, PartialEq, Eq, Structural)]
pub struct Triangle {
    pub v0: Vertex,
    pub v1: Vertex,
    pub v2: Vertex,
}

/// Whether all three corners are within the rasterizer's range.
pub open spec fn tri_in_range(t: Triangle) -> bool {
    vertex_in_range(t.v0) && vertex_in_range(t.v1) && vertex_in_range(t.v2)
}

/// An input vertex the pipeline accepts: the object-space position within
/// the vertex stage's range and the remaining attributes within the
/// rasterizer's range.
pub open spec fn vertex_input_ok(v: Vertex) -> bool {
    &&& vec3_bounded(v.position, POS_MAX as int)
    &&& vec3_bounded(v.normal, ATTR_MAX as int)
    &&& -ATTR_MAX <= v.color.r <= ATTR_MAX
    &&& -ATTR_MAX <= v.color.g <= ATTR_MAX
    &&& -ATTR_MAX <= v.color.b <= ATTR_MAX
}

/// The vertex list after the vertex stage, element by element.
pub open spec fn shaded_spec(vs: Seq<Vertex>, u: Uniforms) -> Seq<Vertex> {
    Seq::new(vs.len(), |i: int| vertex_shader_spec(vs[i], u))
}

/// Primitive assembly: consecutive non-overlapping triples in input
/// order; a trailing one or two leftover vertices are discarded.
pub open spec fn assembled_spec(vs: Seq<Vertex>) -> Seq<Triangle> {
    Seq::new(vs.len() / 3, |k: int| Triangle { v0: vs[3 * k], v1: vs[3 * k + 1], v2: vs[3 * k + 2] })
}

/// The depth buffer after rasterizing a sequence of triangles in order.
pub open spec fn zbuf_after_triangles(tris: Seq<Triangle>, zb: Seq<i64>, w: int) -> Seq<i64>
    decreases tris.len(),
{
    if tris.len() == 0 {
        zb
    } else {
        let prev = zbuf_after_triangles(tris.drop_last(), zb, w);
        zbuf_after_triangle(tris.last().v0, tris.last().v1, tris.last().v2, prev, w)
    }
}

/// A freshly reset depth buffer: every entry at the infinite depth.
pub open spec fn inf_buffer(len: nat) -> Seq<i64> {
    Seq::new(len, |i: int| DEPTH_INFINITY)
}

/// Whether f is a fragment that rasterizing t against the depth buffer zb
/// emits: a pixel of the w-by-h target inside t, carrying t's
/// interpolated attributes there, strictly nearer than zb's entry.
pub open spec fn fragment_matches(f: Fragment, t: Triangle, zb: Seq<i64>, w: int, h: int) -> bool {
    &&& 0 <= f.x < w
    &&& 0 <= f.y < h
    &&& pixel_inside(t.v0, t.v1, t.v2, f.x as int, f.y as int)
    &&& f == pixel_fragment(t.v0, t.v1, t.v2, f.x as int, f.y as int)
    &&& f.depth == pixel_depth(t.v0, t.v1, t.v2, f.x as int, f.y as int)
    &&& f.depth < zb[f.y * w + f.x]
}

/// Whether `turns` names, for each fragment of `frags`, the triangle
/// turn that emitted it, with the turns taken from the first `upto`
/// entries of `tris`. Together the clauses say that `frags` is exactly
/// the in-order concatenation of the per-triangle rasterization results
/// with the depth buffer threaded through the turns: each fragment
/// matches its own turn against the buffer as that turn found it, turns
/// never decrease along the list, no two fragments of one turn share a
/// pixel, and every pixel a turn wins appears in that turn's block.
pub open spec fn frags_grouped_by_turns(
    frags: Seq<Fragment>,
    turns: Seq<int>,
    tris: Seq<Triangle>,
    upto: int,
    zb: Seq<i64>,
    w: int,
    h: int,
) -> bool {
    &&& turns.len() == frags.len()
    &&& forall |i: int| 0 <= i < turns.len() ==> 0 <= #[trigger] turns[i] < upto
    &&& forall |i: int, j: int|
        0 <= i <= j < turns.len() ==> #[trigger] turns[i] <= #[trigger] turns[j]
    &&& forall |i: int|
        0 <= i < frags.len() ==> fragment_matches(
            #[trigger] frags[i],
            tris[turns[i]],
            zbuf_after_triangles(tris.take(turns[i]), zb, w),
            w,
            h,
        )
    &&& forall |i: int, j: int|
        0 <= i < j < frags.len() && turns[i] == turns[j] ==> !((#[trigger] frags[i]).x == (
        #[trigger] frags[j]).x && frags[i].y == frags[j].y)
    &&& forall |k: int, px: int, py: int|
        0 <= k < upto && 0 <= px < w && 0 <= py < h && #[trigger] pixel_inside(
            tris[k].v0,
            tris[k].v1,
            tris[k].v2,
            px,
            py,
        ) && pixel_depth(tris[k].v0, tris[k].v1, tris[k].v2, px, py) < zbuf_after_triangles(
            tris.take(k),
            zb,
            w,
        )[py * w + px] ==> exists |i: int|
            #![auto]
            0 <= i < frags.len() && turns[i] == k && frags[i].x == px && frags[i].y == py
}

/// Rasterizing a sequence of triangles keeps the buffer's length.
pub proof fn lemma_zbuf_len(tris: Seq<Triangle>, zb: Seq<i64>, w: int)
    ensures
        zbuf_after_triangles(tris, zb, w).len() == zb.len(),
    decreases tris.len(),
{
    if tris.len() != 0 {
        lemma_zbuf_len(tris.drop_last(), zb, w);
    }
}

/// One rasterization step never raises a depth-buffer entry, and an
/// entry it changes drops strictly, to the triangle's interpolated depth
/// at that pixel: every accepted depth-buffer update is strictly nearer
/// than the value it replaces.
pub proof fn lemma_depth_step_monotone(
    v0: Vertex, v1: Vertex, v2: Vertex, zb: Seq<i64>, w: int, idx: int,
)
    requires
        0 <= idx < zb.len(),
        vertex_in_range(v0),
        vertex_in_range(v1),
        vertex_in_range(v2),
    ensures
        zbuf_after_triangle(v0, v1, v2, zb, w).len() == zb.len(),
        zbuf_after_triangle(v0, v1, v2, zb, w)[idx] <= zb[idx],
        zbuf_after_triangle(v0, v1, v2, zb, w)[idx] != zb[idx] ==> {
            &&& pixel_inside(v0, v1, v2, idx % w, idx / w)
            &&& pixel_depth(v0, v1, v2, idx % w, idx / w) < zb[idx]
            &&& zbuf_after_triangle(v0, v1, v2, zb, w)[idx] == pixel_depth(
                v0, v1, v2, idx % w, idx / w,
            ) as i64
        },
{
    if pixel_inside(v0, v1, v2, idx % w, idx / w) && pixel_depth(v0, v1, v2, idx % w, idx / w)
        < zb[idx] {
        crate::triangle::lemma_pixel_depth_in_range(v0, v1, v2, idx % w, idx / w);
    }
}

/// Depth-buffer monotonicity across a whole frame: after rasterizing any
/// sequence of triangles, no pixel's depth-buffer entry has risen.
pub proof fn lemma_depth_buffer_monotone(tris: Seq<Triangle>, zb: Seq<i64>, w: int, idx: int)
    requires
        0 <= idx < zb.len(),
        forall |k: int| 0 <= k < tris.len() ==> tri_in_range(#[trigger] tris[k]),
    ensures
        zbuf_after_triangles(tris, zb, w)[idx] <= zb[idx],
    decreases tris.len(),
{
    lemma_zbuf_len(tris, zb, w);
    if tris.len() != 0 {
        lemma_zbuf_len(tris.drop_last(), zb, w);
        assert(forall |k: int|
            0 <= k < tris.drop_last().len() ==> #[trigger] tris.drop_last()[k] == tris[k]);
        lemma_depth_buffer_monotone(tris.drop_last(), zb, w, idx);
        assert(tris[tris.len() - 1] == tris.last());
        lemma_depth_step_monotone(
            tris.last().v0,
            tris.last().v1,
            tris.last().v2,
            zbuf_after_triangles(tris.drop_last(), zb, w),
            w,
            idx,
        );
    }
}

/// The pipeline: the per-frame uniforms and the light position the
/// caller configured. The depth buffer is handed in per frame and owned
/// by that frame's invocation alone.
pub struct Pipeline {
    pub uniforms: Uniforms,
    pub light_position: Vec3,
}

impl Pipeline {
    pub fn new(transform_matrix: Mat4, light_position: Vec3) -> (p: Pipeline)
        ensures
            p.uniforms == (Uniforms { transform_matrix }),
            p.light_position == light_position,
    {
        Pipeline { uniforms: Uniforms { transform_matrix }, light_position }
    }

    /// Groups the vertex list into consecutive non-overlapping triples in
    /// input order; a trailing one or two leftover vertices are silently
    /// discarded. No reordering and no deduplication.
    #[verifier::loop_isolation(false)]
    pub fn primitive_assembly(&self, vertices: &Vec<Vertex>) -> (tris: Vec<Triangle>)
        ensures
            tris@ == assembled_spec(vertices@),
            tris@.len() == vertices@.len() / 3,
    {
        let mut tris: Vec<Triangle> = Vec::new();
        let n: usize = vertices.len() / 3;
        proof {
            vstd::arithmetic::div_mod::lemma_fundamental_div_mod(vertices@.len() as int, 3);
        }
        let mut k: usize = 0;
        while k < n
            invariant
                k <= n,
                tris@.len() == k,
                forall |j: int|
                    0 <= j < k ==> #[trigger] tris@[j] == (Triangle {
                        v0: vertices@[3 * j],
                        v1: vertices@[3 * j + 1],
                        v2: vertices@[3 * j + 2],
                    }),
            decreases n - k,
        {
            let t = Triangle {
                v0: vertices[3 * k],
                v1: vertices[3 * k + 1],
                v2: vertices[3 * k + 2],
            };
            tris.push(t);
            k = k + 1;
        }
        proof {
            assert(tris@ =~= assembled_spec(vertices@));
        }
        tris
    }

    /// The flat-shading color of a vertex: its base color modulated by
    /// the Lambertian intensity of its normal against the direction from
    /// the vertex to the pipeline's light position. A light from behind
    /// contributes exactly nothing: the result is black.
    pub fn flat_shading(&self, vertex: &Vertex) -> (c: Color)
        requires
            vec3_bounded(vertex.position, ATTR_MAX as int),
            vec3_bounded(vertex.normal, ATTR_MAX as int),
            vec3_bounded(self.light_position, ATTR_MAX as int),
            -ATTR_MAX <= vertex.color.r <= ATTR_MAX,
            -ATTR_MAX <= vertex.color.g <= ATTR_MAX,
            -ATTR_MAX <= vertex.color.b <= ATTR_MAX,
        ensures
            exists |ii: int|
                #![auto]
                0 <= ii <= FP && is_lighting_intensity(
                    vertex.normal,
                    vec3_sub(self.light_position, vertex.position),
                    ii,
                ) && c.r == vertex.color.r * ii / (FP as int) && c.g == vertex.color.g * ii / (
                FP as int) && c.b == vertex.color.b * ii / (FP as int),
            dot_spec(vertex.normal, vec3_sub(self.light_position, vertex.position)) <= 0 ==> c == (
            Color { r: 0, g: 0, b: 0 }),
    {
        let light_direction = Vec3 {
            x: self.light_position.x - vertex.position.x,
            y: self.light_position.y - vertex.position.y,
            z: self.light_position.z - vertex.position.z,
        };
        let intensity = lighting_intensity(&vertex.normal, &light_direction);
        let c = vertex.color.scaled(intensity);
        proof {
            assert(light_direction == vec3_sub(self.light_position, vertex.position));
            assert(0 <= intensity as int <= FP && is_lighting_intensity(
                vertex.normal,
                vec3_sub(self.light_position, vertex.position),
                intensity as int,
            ) && c.r == vertex.color.r * (intensity as int) / (FP as int) && c.g == vertex.color.g
                * (intensity as int) / (FP as int) && c.b == vertex.color.b * (intensity as int) / (
            FP as int));
        }
        c
    }

    /// Rasterizes the triangles in input order against the shared depth
    /// buffer: the final buffer is the fold of the per-triangle depth
    /// resolution, and the returned list is the in-order concatenation of
    /// the per-triangle results with the buffer threaded through the
    /// turns — each fragment belongs to a turn it matches, turns never
    /// decrease along the list, no turn emits a pixel twice, and every
    /// pixel a triangle wins at its turn is represented in its block.
    #[verifier::loop_isolation(false)]
    pub fn rasterize(
        &self,
        triangles: &Vec<Triangle>,
        z_buffer: &mut Vec<i64>,
        framebuffer_width: usize,
        framebuffer_height: usize,
    ) -> (frags: Vec<Fragment>)
        requires
            forall |k: int| 0 <= k < triangles@.len() ==> tri_in_range(#[trigger] triangles@[k]),
            old(z_buffer)@.len() == framebuffer_width * framebuffer_height,
            framebuffer_width <= 0x10_0000,
            framebuffer_height <= 0x10_0000,
        ensures
            final(z_buffer)@ == zbuf_after_triangles(
                triangles@,
                old(z_buffer)@,
                framebuffer_width as int,
            ),
            forall |i: int|
                0 <= i < frags@.len() ==> exists |k: int|
                    #![auto]
                    0 <= k < triangles@.len() && fragment_matches(
                        #[trigger] frags@[i],
                        triangles@[k],
                        zbuf_after_triangles(
                            triangles@.take(k),
                            old(z_buffer)@,
                            framebuffer_width as int,
                        ),
                        framebuffer_width as int,
                        framebuffer_height as int,
                    ),
            forall |k: int, px: int, py: int|
                0 <= k < triangles@.len() && 0 <= px < framebuffer_width && 0 <= py
                    < framebuffer_height && #[trigger] pixel_inside(
                    triangles@[k].v0,
                    triangles@[k].v1,
                    triangles@[k].v2,
                    px,
                    py,
                ) && pixel_depth(triangles@[k].v0, triangles@[k].v1, triangles@[k].v2, px, py)
                    < zbuf_after_triangles(
                    triangles@.take(k),
                    old(z_buffer)@,
                    framebuffer_width as int,
                )[py * framebuffer_width + px] ==> frag_in(frags@, px, py),
            exists |turns: Seq<int>|
                frags_grouped_by_turns(
                    frags@,
                    turns,
                    triangles@,
                    triangles@.len() as int,
                    old(z_buffer)@,
                    framebuffer_width as int,
                    framebuffer_height as int,
                ),
    {
        let ghost zb0 = z_buffer@;
        let ghost wi = framebuffer_width as int;
        let ghost hi = framebuffer_height as int;
        let ghost mut turns: Seq<int> = Seq::empty();
        let mut frags: Vec<Fragment> = Vec::new();
        let mut k: usize = 0;
        proof {
            assert(triangles@.take(0) =~= Seq::<Triangle>::empty());
        }
        while k < triangles.len()
            invariant
                k <= triangles@.len(),
                z_buffer@.len() == zb0.len(),
                z_buffer@ == zbuf_after_triangles(triangles@.take(k as int), zb0, wi),
                forall |i: int|
                    0 <= i < frags@.len() ==> exists |kk: int|
                        #![auto]
                        0 <= kk < k && fragment_matches(
                            #[trigger] frags@[i],
                            triangles@[kk],
                            zbuf_after_triangles(triangles@.take(kk), zb0, wi),
                            wi,
                            framebuffer_height as int,
                        ),
                forall |kk: int, px: int, py: int|
                    0 <= kk < k && 0 <= px < framebuffer_width && 0 <= py < framebuffer_height
                        && #[trigger] pixel_inside(
                        triangles@[kk].v0,
                        triangles@[kk].v1,
                        triangles@[kk].v2,
                        px,
                        py,
                    ) && pixel_depth(triangles@[kk].v0, triangles@[kk].v1, triangles@[kk].v2, px, py)
                        < zbuf_after_triangles(triangles@.take(kk), zb0, wi)[py * framebuffer_width
                        + px] ==> frag_in(frags@, px, py),
                frags_grouped_by_turns(frags@, turns, triangles@, k as int, zb0, wi, hi),
            decreases triangles@.len() - k,
        {
            let ghost pk = k as int;
            let ghost zb_pre = z_buffer@;
            let t = triangles[k];
            let mut tri_frags = draw_filled_triangle(
                &t.v0,
                &t.v1,
                &t.v2,
                z_buffer,
                framebuffer_width,
                framebuffer_height,
            );
            let ghost tfs = tri_frags@;
            let ghost frags0 = frags@;
            frags.append(&mut tri_frags);
            proof {
                assert(triangles@.take(pk + 1).drop_last() =~= triangles@.take(pk));
                assert(triangles@.take(pk + 1).last() == triangles@[pk]);
                assert(z_buffer@ == zbuf_after_triangles(triangles@.take(pk + 1), zb0, wi));
                assert(frags@ == frags0 + tfs);
                // each new fragment came from this triangle's turn
                assert forall |i: int| 0 <= i < frags@.len() implies exists |kk: int|
                    #![auto]
                    0 <= kk < pk + 1 && fragment_matches(
                        #[trigger] frags@[i],
                        triangles@[kk],
                        zbuf_after_triangles(triangles@.take(kk), zb0, wi),
                        wi,
                        framebuffer_height as int,
                    ) by {
                    if i < frags0.len() {
                        assert(frags@[i] == frags0[i]);
                    } else {
                        let f = tfs[i - frags0.len()];
                        assert(frags@[i] == f);
                        assert(fragment_matches(
                            f,
                            triangles@[pk],
                            zbuf_after_triangles(triangles@.take(pk), zb0, wi),
                            wi,
                            framebuffer_height as int,
                        ));
                    }
                }
                // every pixel a processed triangle won is represented
                assert forall |kk: int, px: int, py: int|
                    0 <= kk < pk + 1 && 0 <= px < framebuffer_width && 0 <= py
                        < framebuffer_height && #[trigger] pixel_inside(
                        triangles@[kk].v0,
                        triangles@[kk].v1,
                        triangles@[kk].v2,
                        px,
                        py,
                    ) && pixel_depth(triangles@[kk].v0, triangles@[kk].v1, triangles@[kk].v2, px, py)
                        < zbuf_after_triangles(triangles@.take(kk), zb0, wi)[py * framebuffer_width
                        + px] implies frag_in(frags@, px, py) by {
                    if kk == pk {
                        assert(frag_in(tfs, px, py));
                        let i = choose |i: int|
                            0 <= i < tfs.len() && #[trigger] tfs[i].x == px && tfs[i].y == py;
                        assert(frags@[frags0.len() + i].x == px && frags@[frags0.len() + i].y == py);
                    } else {
                        assert(frag_in(frags0, px, py));
                        let i = choose |i: int|
                            0 <= i < frags0.len() && #[trigger] frags0[i].x == px && frags0[i].y
                                == py;
                        assert(frags@[i].x == px && frags@[i].y == py);
                    }
                }
                // extend the turn assignment: the appended block belongs
                // to this triangle's turn
                let turns0 = turns;
                turns = turns + Seq::new(tfs.len(), |j: int| pk);
                assert(turns.len() == frags@.len());
                assert forall |i: int| 0 <= i < turns.len() implies 0 <= #[trigger] turns[i] < pk
                    + 1 by {
                    if i < turns0.len() {
                        assert(turns[i] == turns0[i]);
                    } else {
                        assert(turns[i] == pk);
                    }
                }
                assert forall |i: int, j: int| 0 <= i <= j < turns.len() implies #[trigger] turns[i]
                    <= #[trigger] turns[j] by {
                    if j < turns0.len() {
                        assert(turns[i] == turns0[i] && turns[j] == turns0[j]);
                    } else if i < turns0.len() {
                        assert(turns[i] == turns0[i] && turns[j] == pk);
                    } else {
                        assert(turns[i] == pk && turns[j] == pk);
                    }
                }
                assert forall |i: int| 0 <= i < frags@.len() implies fragment_matches(
                    #[trigger] frags@[i],
                    triangles@[turns[i]],
                    zbuf_after_triangles(triangles@.take(turns[i]), zb0, wi),
                    wi,
                    hi,
                ) by {
                    if i < frags0.len() {
                        assert(turns[i] == turns0[i] && frags@[i] == frags0[i]);
                    } else {
                        assert(turns[i] == pk && frags@[i] == tfs[i - frags0.len()]);
                        assert(fragment_matches(
                            tfs[i - frags0.len()],
                            triangles@[pk],
                            zbuf_after_triangles(triangles@.take(pk), zb0, wi),
                            wi,
                            hi,
                        ));
                    }
                }
                assert forall |i: int, j: int|
                    0 <= i < j < frags@.len() && turns[i] == turns[j] implies !((
                    #[trigger] frags@[i]).x == (#[trigger] frags@[j]).x && frags@[i].y
                    == frags@[j].y) by {
                    if j < frags0.len() {
                        assert(turns[i] == turns0[i] && turns[j] == turns0[j]);
                        assert(frags@[i] == frags0[i] && frags@[j] == frags0[j]);
                    } else if i < frags0.len() {
                        // an old fragment's turn is below this one's
                        assert(turns[i] == turns0[i] < pk && turns[j] == pk);
                    } else {
                        // both from this turn: the block's pixels are distinct
                        assert(frags@[i] == tfs[i - frags0.len()] && frags@[j] == tfs[j
                            - frags0.len()]);
                    }
                }
                assert forall |kk: int, px: int, py: int|
                    0 <= kk < pk + 1 && 0 <= px < wi && 0 <= py < hi && #[trigger] pixel_inside(
                        triangles@[kk].v0,
                        triangles@[kk].v1,
                        triangles@[kk].v2,
                        px,
                        py,
                    ) && pixel_depth(triangles@[kk].v0, triangles@[kk].v1, triangles@[kk].v2, px, py)
                        < zbuf_after_triangles(triangles@.take(kk), zb0, wi)[py * wi + px]
                        implies exists |i: int|
                        #![auto]
                        0 <= i < frags@.len() && turns[i] == kk && frags@[i].x == px && frags@[i].y
                            == py by {
                    if kk == pk {
                        assert(frag_in(tfs, px, py));
                        let i = choose |i: int|
                            0 <= i < tfs.len() && #[trigger] tfs[i].x == px && tfs[i].y == py;
                        assert(turns[frags0.len() + i] == pk);
                        assert(frags@[frags0.len() + i].x == px && frags@[frags0.len() + i].y == py);
                    } else {
                        let i = choose |i: int|
                            #![auto]
                            0 <= i < frags0.len() && turns0[i] == kk && frags0[i].x == px
                                && frags0[i].y == py;
                        assert(turns[i] == turns0[i]);
                        assert(frags@[i] == frags0[i]);
                    }
                }
                assert(frags_grouped_by_turns(frags@, turns, triangles@, pk + 1, zb0, wi, hi));
            }
            k = k + 1;
        }
        proof {
            assert(triangles@.take(triangles@.len() as int) =~= triangles@);
            assert forall |i: int| 0 <= i < frags@.len() implies exists |kk: int|
                #![auto]
                0 <= kk < triangles@.len() && fragment_matches(
                    (#[trigger] frags@[i]),
                    triangles@[kk],
                    zbuf_after_triangles(
                        triangles@.take(kk),
                        old(z_buffer)@,
                        framebuffer_width as int,
                    ),
                    framebuffer_width as int,
                    framebuffer_height as int,
                ) by {
                let kk = choose |kk: int|
                    #![auto]
                    0 <= kk < triangles@.len() && fragment_matches(
                        frags@[i],
                        triangles@[kk],
                        zbuf_after_triangles(triangles@.take(kk), zb0, wi),
                        wi,
                        framebuffer_height as int,
                    );
                assert(fragment_matches(
                    frags@[i],
                    triangles@[kk],
                    zbuf_after_triangles(
                        triangles@.take(kk),
                        old(z_buffer)@,
                        framebuffer_width as int,
                    ),
                    framebuffer_width as int,
                    framebuffer_height as int,
                ));
            }
            assert(frags_grouped_by_turns(
                frags@,
                turns,
                triangles@,
                triangles@.len() as int,
                old(z_buffer)@,
                framebuffer_width as int,
                framebuffer_height as int,
            ));
        }
        frags
    }

    /// Runs one frame: resets the depth buffer to the infinite depth,
    /// vertex-shades every input vertex, assembles consecutive triples
    /// into triangles, and rasterizes them in input order, returning the
    /// emitted fragments. The input vertices and the uniforms are only
    /// read, never changed.
    #[verifier::loop_isolation(false)]
    pub fn run(
        &self,
        vertices: &Vec<Vertex>,
        z_buffer: &mut Vec<i64>,
        framebuffer_width: usize,
        framebuffer_height: usize,
    ) -> (frags: Vec<Fragment>)
        requires
            mat4_bounded(self.uniforms.transform_matrix),
            forall |i: int| 0 <= i < vertices@.len() ==> vertex_input_ok(#[trigger] vertices@[i]),
            old(z_buffer)@.len() == framebuffer_width * framebuffer_height,
            framebuffer_width <= 0x10_0000,
            framebuffer_height <= 0x10_0000,
        ensures
            final(z_buffer)@ == zbuf_after_triangles(
                assembled_spec(shaded_spec(vertices@, self.uniforms)),
                inf_buffer(old(z_buffer)@.len()),
                framebuffer_width as int,
            ),
            forall |i: int|
                0 <= i < frags@.len() ==> exists |k: int|
                    #![auto]
                    0 <= k < assembled_spec(shaded_spec(vertices@, self.uniforms)).len()
                        && fragment_matches(
                        (#[trigger] frags@[i]),
                        assembled_spec(shaded_spec(vertices@, self.uniforms))[k],
                        zbuf_after_triangles(
                            assembled_spec(shaded_spec(vertices@, self.uniforms)).take(k),
                            inf_buffer(old(z_buffer)@.len()),
                            framebuffer_width as int,
                        ),
                        framebuffer_width as int,
                        framebuffer_height as int,
                    ),
            forall |k: int, px: int, py: int|
                0 <= k < assembled_spec(shaded_spec(vertices@, self.uniforms)).len() && 0 <= px
                    < framebuffer_width && 0 <= py < framebuffer_height
                    && #[trigger] pixel_inside(
                    assembled_spec(shaded_spec(vertices@, self.uniforms))[k].v0,
                    assembled_spec(shaded_spec(vertices@, self.uniforms))[k].v1,
                    assembled_spec(shaded_spec(vertices@, self.uniforms))[k].v2,
                    px,
                    py,
                ) && pixel_depth(
                    assembled_spec(shaded_spec(vertices@, self.uniforms))[k].v0,
                    assembled_spec(shaded_spec(vertices@, self.uniforms))[k].v1,
                    assembled_spec(shaded_spec(vertices@, self.uniforms))[k].v2,
                    px,
                    py,
                ) < zbuf_after_triangles(
                    assembled_spec(shaded_spec(vertices@, self.uniforms)).take(k),
                    inf_buffer(old(z_buffer)@.len()),
                    framebuffer_width as int,
                )[py * framebuffer_width + px] ==> frag_in(frags@, px, py),
            exists |turns: Seq<int>|
                frags_grouped_by_turns(
                    frags@,
                    turns,
                    assembled_spec(shaded_spec(vertices@, self.uniforms)),
                    assembled_spec(shaded_spec(vertices@, self.uniforms)).len() as int,
                    inf_buffer(old(z_buffer)@.len()),
                    framebuffer_width as int,
                    framebuffer_height as int,
                ),
    {
        let ghost len0 = z_buffer@.len();
        // reset the depth buffer: every pixel starts at the infinite depth
        let mut i: usize = 0;
        while i < z_buffer.len()
            invariant
                i <= z_buffer@.len(),
                z_buffer@.len() == len0,
                forall |j: int| 0 <= j < i ==> #[trigger] z_buffer@[j] == DEPTH_INFINITY,
            decreases z_buffer@.len() - i,
        {
            z_buffer.set(i, DEPTH_INFINITY);
            i = i + 1;
        }
        proof {
            assert(z_buffer@ =~= inf_buffer(len0));
        }
        // vertex-shade every input vertex
        let mut shaded: Vec<Vertex> = Vec::new();
        let mut j: usize = 0;
        while j < vertices.len()
            invariant
                j <= vertices@.len(),
                shaded@.len() == j,
                forall |jj: int|
                    0 <= jj < j ==> #[trigger] shaded@[jj] == vertex_shader_spec(
                        vertices@[jj],
                        self.uniforms,
                    ),
                forall |jj: int| 0 <= jj < j ==> vertex_in_range(#[trigger] shaded@[jj]),
            decreases vertices@.len() - j,
        {
            let sv = vertex_shader(&vertices[j], &self.uniforms);
            shaded.push(sv);
            j = j + 1;
        }
        proof {
            assert(shaded@ =~= shaded_spec(vertices@, self.uniforms));
        }
        // assemble and rasterize
        let tris = self.primitive_assembly(&shaded);
        proof {
            assert forall |k: int| 0 <= k < tris@.len() implies tri_in_range(
                #[trigger] tris@[k],
            ) by {
                vstd::arithmetic::div_mod::lemma_fundamental_div_mod(shaded@.len() as int, 3);
            }
        }
        let ghost zb_in = z_buffer@;
        let frags = self.rasterize(&tris, z_buffer, framebuffer_width, framebuffer_height);
        proof {
            let turns = choose |turns: Seq<int>|
                frags_grouped_by_turns(
                    frags@,
                    turns,
                    tris@,
                    tris@.len() as int,
                    zb_in,
                    framebuffer_width as int,
                    framebuffer_height as int,
                );
            assert(frags_grouped_by_turns(
                frags@,
                turns,
                assembled_spec(shaded_spec(vertices@, self.uniforms)),
                assembled_spec(shaded_spec(vertices@, self.uniforms)).len() as int,
                inf_buffer(old(z_buffer)@.len()),
                framebuffer_width as int,
                framebuffer_height as int,
            ));
        }
        frags
    }
}

} // verus!

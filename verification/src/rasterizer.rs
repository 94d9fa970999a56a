//! The depth-tested rasterizer: for one triangle, every inside pixel is
//! tested against the per-pixel depth buffer, and a fragment is emitted
//! exactly for the pixels whose interpolated depth is strictly nearer
//! than what the buffer held. The buffer entry then drops to that depth.

use vstd::prelude::*;

verus! {

use crate::fragment::Fragment;
use crate::triangle::{
    frag_in, pixel_depth, pixel_fragment, pixel_inside, tri_area, triangle, vertex_in_range,
};
use crate::vertex::Vertex;
use vstd::pervasive::VecAdditionalExecFns;
use vstd::arithmetic::div_mod::{
    lemma_fundamental_div_mod_converse, lemma_div_pos_is_pos, lemma_mod_division_less_than_divisor,
    lemma_multiply_divide_lt,
};

/// The depth buffer after rasterizing one triangle against it: the entry
/// of every pixel inside the triangle whose interpolated depth is
/// strictly nearer drops to that depth; every other entry is unchanged.
pub open spec fn zbuf_after_triangle(
    v0: Vertex, v1: Vertex, v2: Vertex, zb: Seq<i64>, w: int,
) -> Seq<i64> {
    Seq::new(
        zb.len(),
        |idx: int|
            {
                let px = idx % w;
                let py = idx / w;
                if pixel_inside(v0, v1, v2, px, py) && pixel_depth(v0, v1, v2, px, py) < zb[idx] {
                    pixel_depth(v0, v1, v2, px, py) as i64
                } else {
                    zb[idx]
                }
            },
    )
}

/// Rasterizes one triangle with depth resolution. Exactly the inside
/// pixels that win the strict depth test against the buffer as it stood
/// at the call emit a fragment (with interpolated depth, color and
/// normal) and lower their buffer entry; nothing else changes, and a
/// degenerate triangle emits nothing and leaves the buffer as it was.
#[verifier::loop_isolation(false)]
pub fn draw_filled_triangle(
    v0: &Vertex,
    v1: &Vertex,
    v2: &Vertex,
    z_buffer: &mut Vec<i64>,
    framebuffer_width: usize,
    framebuffer_height: usize,
) -> (frags: Vec<Fragment>)
    requires
        vertex_in_range(*v0),
        vertex_in_range(*v1),
        vertex_in_range(*v2),
        old(z_buffer)@.len() == framebuffer_width * framebuffer_height,
        framebuffer_width <= 0x10_0000,
        framebuffer_height <= 0x10_0000,
    ensures
        final(z_buffer)@ == zbuf_after_triangle(
            *v0, *v1, *v2, old(z_buffer)@, framebuffer_width as int,
        ),
        tri_area(*v0, *v1, *v2) == 0 ==> frags@.len() == 0,
        forall |i: int| 0 <= i < frags@.len() ==> {
            &&& 0 <= (#[trigger] frags@[i]).x < framebuffer_width
            &&& 0 <= frags@[i].y < framebuffer_height
            &&& pixel_inside(*v0, *v1, *v2, frags@[i].x as int, frags@[i].y as int)
            &&& frags@[i] == pixel_fragment(*v0, *v1, *v2, frags@[i].x as int, frags@[i].y as int)
            &&& frags@[i].depth == pixel_depth(*v0, *v1, *v2, frags@[i].x as int, frags@[i].y as int)
            &&& frags@[i].depth < old(z_buffer)@[frags@[i].y * framebuffer_width + frags@[i].x]
        },
        forall |px: int, py: int|
            0 <= px < framebuffer_width && 0 <= py < framebuffer_height
                && #[trigger] pixel_inside(*v0, *v1, *v2, px, py)
                && pixel_depth(*v0, *v1, *v2, px, py) < old(z_buffer)@[py * framebuffer_width + px]
                ==> frag_in(frags@, px, py),
        forall |i: int, j: int| 0 <= i < j < frags@.len()
            ==> !((#[trigger] frags@[i]).x == (#[trigger] frags@[j]).x && frags@[i].y
            == frags@[j].y),
{
    let candidates = triangle(v0, v1, v2, framebuffer_width, framebuffer_height);
    let mut frags: Vec<Fragment> = Vec::new();
    let ghost zb0 = z_buffer@;
    let wi: usize = framebuffer_width;
    let n: usize = z_buffer.len();
    let mut k: usize = 0;
    while k < candidates.len()
        invariant
            k <= candidates@.len(),
            frags@.len() <= k,
            z_buffer@.len() == zb0.len(),
            forall |idx: int|
                0 <= idx < z_buffer@.len() ==> #[trigger] z_buffer@[idx] == (if frag_in(
                    candidates@.take(k as int),
                    idx % (wi as int),
                    idx / (wi as int),
                ) && pixel_depth(*v0, *v1, *v2, idx % (wi as int), idx / (wi as int)) < zb0[idx] {
                    pixel_depth(*v0, *v1, *v2, idx % (wi as int), idx / (wi as int)) as i64
                } else {
                    zb0[idx]
                }),
            forall |i: int| 0 <= i < frags@.len() ==> {
                &&& 0 <= (#[trigger] frags@[i]).x < framebuffer_width
                &&& 0 <= frags@[i].y < framebuffer_height
                &&& pixel_inside(*v0, *v1, *v2, frags@[i].x as int, frags@[i].y as int)
                &&& frags@[i] == pixel_fragment(
                    *v0, *v1, *v2, frags@[i].x as int, frags@[i].y as int,
                )
                &&& frags@[i].depth == pixel_depth(
                    *v0, *v1, *v2, frags@[i].x as int, frags@[i].y as int,
                )
                &&& frags@[i].depth < zb0[frags@[i].y * framebuffer_width + frags@[i].x]
                &&& frag_in(candidates@.take(k as int), frags@[i].x as int, frags@[i].y as int)
            },
            forall |px: int, py: int|
                0 <= px < framebuffer_width && 0 <= py < framebuffer_height && #[trigger] frag_in(
                    candidates@.take(k as int),
                    px,
                    py,
                ) && pixel_depth(*v0, *v1, *v2, px, py) < zb0[py * framebuffer_width + px]
                    ==> frag_in(frags@, px, py),
            forall |i: int, j: int| 0 <= i < j < frags@.len()
                ==> !((#[trigger] frags@[i]).x == (#[trigger] frags@[j]).x && frags@[i].y
                == frags@[j].y),
        decreases candidates@.len() - k,
    {
        let f = candidates[k];
        let ghost pk = k as int;
        proof {
            lemma_frag_in_take_step(candidates@, pk);
        }
        let fx: usize = f.x as usize;
        let fy: usize = f.y as usize;
        proof {
            assert(fy * framebuffer_width + fx < framebuffer_width * framebuffer_height)
                by (nonlinear_arith)
                requires
                    0 <= fx < framebuffer_width,
                    0 <= fy < framebuffer_height,
            ;
            assert(fy * framebuffer_width + fx < n);
            lemma_fundamental_div_mod_converse(
                fy * framebuffer_width + fx,
                wi as int,
                fy as int,
                fx as int,
            );
            // the candidate's own pixel has not been processed yet
            if frag_in(candidates@.take(pk), fx as int, fy as int) {
                let j = choose |j: int|
                    0 <= j < pk && 0 <= j < candidates@.take(pk).len()
                        && #[trigger] candidates@.take(pk)[j].x == fx
                        && candidates@.take(pk)[j].y == fy;
                assert(candidates@[j].x == candidates@[pk].x && candidates@[j].y
                    == candidates@[pk].y);
                assert(false);
            }
        }
        let idx: usize = fy * wi + fx;
        let ghost zb_pre = z_buffer@;
        let ghost frags0 = frags@;
        if f.depth < z_buffer[idx] {
            z_buffer.set(idx, f.depth);
            frags.push(f);
            proof {
                lemma_frag_in_push(frags0, f);
            }
        }
        proof {
            // the depth buffer now reflects the candidates processed so far,
            // the emitted fragments match, and pixels stay pairwise distinct
            assert forall |jdx: int| 0 <= jdx < z_buffer@.len() implies #[trigger] z_buffer@[jdx]
                == (if frag_in(candidates@.take(pk + 1), jdx % (wi as int), jdx / (wi as int))
                    && pixel_depth(*v0, *v1, *v2, jdx % (wi as int), jdx / (wi as int)) < zb0[jdx] {
                    pixel_depth(*v0, *v1, *v2, jdx % (wi as int), jdx / (wi as int)) as i64
                } else {
                    zb0[jdx]
                }) by {
                vstd::arithmetic::div_mod::lemma_fundamental_div_mod(jdx, wi as int);
                if jdx == idx {
                    assert(jdx % (wi as int) == fx as int && jdx / (wi as int) == fy as int);
                } else {
                    if jdx % (wi as int) == fx as int && jdx / (wi as int) == fy as int {
                        vstd::arithmetic::div_mod::lemma_fundamental_div_mod(idx as int, wi as int);
                        assert(jdx == idx);
                    }
                    assert(z_buffer@[jdx] == zb_pre[jdx]);
                }
            }
            assert forall |px: int, py: int|
                0 <= px < framebuffer_width && 0 <= py < framebuffer_height && #[trigger] frag_in(
                    candidates@.take(pk + 1),
                    px,
                    py,
                ) && pixel_depth(*v0, *v1, *v2, px, py) < zb0[py * framebuffer_width + px]
                    implies frag_in(frags@, px, py) by {
                if px == fx as int && py == fy as int {
                    assert(py * framebuffer_width + px == idx);
                    assert(f.depth < zb0[idx as int]);
                } else {
                    assert(frag_in(candidates@.take(pk), px, py));
                    assert(frag_in(frags0, px, py));
                    if frags@ != frags0 {
                        lemma_frag_in_push(frags0, f);
                    }
                }
            }
        }
        k = k + 1;
    }
    proof {
        assert(candidates@.take(candidates@.len() as int) =~= candidates@);
        assert forall |px: int, py: int|
            0 <= px < framebuffer_width && 0 <= py < framebuffer_height
                && #[trigger] pixel_inside(*v0, *v1, *v2, px, py)
                && pixel_depth(*v0, *v1, *v2, px, py) < zb0[py * framebuffer_width + px]
                implies frag_in(frags@, px, py) by {
            assert(frag_in(candidates@, px, py));
        }
        assert(z_buffer@ =~= zbuf_after_triangle(*v0, *v1, *v2, zb0, framebuffer_width as int)) by {
            assert(candidates@.take(candidates@.len() as int) =~= candidates@);
            assert forall |idx: int| 0 <= idx < z_buffer@.len() implies z_buffer@[idx]
                == zbuf_after_triangle(*v0, *v1, *v2, zb0, framebuffer_width as int)[idx] by {
                lemma_mod_division_less_than_divisor(idx, wi as int);
                lemma_div_pos_is_pos(idx, wi as int);
                lemma_multiply_divide_lt(idx, wi as int, framebuffer_height as int);
                let px = idx % (wi as int);
                let py = idx / (wi as int);
                if pixel_inside(*v0, *v1, *v2, px, py) {
                    vstd::arithmetic::div_mod::lemma_fundamental_div_mod(idx, wi as int);
                }
            }
        }
    }
    frags
}

/// Taking one more element of a fragment list adds exactly that
/// element's pixel to the pixels the prefix holds.
proof fn lemma_frag_in_take_step(s: Seq<Fragment>, k: int)
    requires
        0 <= k < s.len(),
    ensures
        forall |px: int, py: int| #[trigger] frag_in(s.take(k + 1), px, py) <==> (frag_in(
            s.take(k),
            px,
            py,
        ) || (s[k].x == px && s[k].y == py)),
{
    assert forall |px: int, py: int| #[trigger] frag_in(s.take(k + 1), px, py) implies (frag_in(
        s.take(k),
        px,
        py,
    ) || (s[k].x == px && s[k].y == py)) by {
        let i = choose |i: int|
            0 <= i < s.take(k + 1).len() && #[trigger] s.take(k + 1)[i].x == px && s.take(k + 1)[i].y
                == py;
        if i < k {
            assert(s.take(k)[i].x == px && s.take(k)[i].y == py);
        } else {
            assert(s.take(k + 1)[i] == s[k]);
        }
    }
    assert forall |px: int, py: int| (frag_in(s.take(k), px, py) || (s[k].x == px && s[k].y == py))
        implies #[trigger] frag_in(s.take(k + 1), px, py) by {
        if frag_in(s.take(k), px, py) {
            let i = choose |i: int|
                0 <= i < s.take(k).len() && #[trigger] s.take(k)[i].x == px && s.take(k)[i].y == py;
            assert(s.take(k + 1)[i].x == px && s.take(k + 1)[i].y == py);
        } else {
            assert(s.take(k + 1)[k].x == px && s.take(k + 1)[k].y == py);
        }
    }
}

/// A fragment list keeps every pixel it had after a push, and gains the
/// pushed fragment's pixel.
proof fn lemma_frag_in_push(s: Seq<Fragment>, f: Fragment)
    ensures
        forall |px: int, py: int| #[trigger] frag_in(s, px, py) ==> frag_in(s.push(f), px, py),
        frag_in(s.push(f), f.x as int, f.y as int),
{
    assert forall |px: int, py: int| #[trigger] frag_in(s, px, py) implies frag_in(
        s.push(f),
        px,
        py,
    ) by {
        let i = choose |i: int| 0 <= i < s.len() && #[trigger] s[i].x == px && s[i].y == py;
        assert(s.push(f)[i].x == px && s.push(f)[i].y == py);
    }
    assert(s.push(f)[s.len() as int].x == f.x && s.push(f)[s.len() as int].y == f.y);
}

} // verus!

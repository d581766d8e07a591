//! Turning the outlines of the scene's objects into marks on a raster.

use vstd::prelude::*;
use vstd::arithmetic::div_mod::lemma_fundamental_div_mod_converse;

verus! {

/// All outline pixels, object after object, skipping objects that have no
/// outline.
pub open spec fn flatten_outlines(outlines: Seq<Option<Vec<[usize; 2]>>>) -> Seq<[usize; 2]>
    decreases outlines.len(),
{
    if outlines.len() == 0 {
        Seq::empty()
    } else {
        let rest = flatten_outlines(outlines.drop_last());
        match outlines.last() {
            Some(pixels) => rest + pixels@,
            None => rest,
        }
    }
}

/// Outlining two groups of objects one after the other gives the first
/// group's pixels followed by the second's; an object without an outline
/// adds nothing, and one with an outline adds exactly its pixels.
pub proof fn lemma_flatten_outlines_append(
    first: Seq<Option<Vec<[usize; 2]>>>,
    second: Seq<Option<Vec<[usize; 2]>>>,
)
    ensures
        flatten_outlines(first + second) == flatten_outlines(first) + flatten_outlines(second),
        flatten_outlines(seq![None]) == Seq::<[usize; 2]>::empty(),
        forall|pixels: Vec<[usize; 2]>| #[trigger] flatten_outlines(seq![Some(pixels)]) == pixels@,
    decreases second.len(),
{
    let nothing = Seq::<Option<Vec<[usize; 2]>>>::empty();
    assert(flatten_outlines(nothing) == Seq::<[usize; 2]>::empty());
    assert forall|pixels: Vec<[usize; 2]>| #[trigger] flatten_outlines(seq![Some(pixels)]) == pixels@ by {
        let one = seq![Some(pixels)];
        assert(one.len() == 1);
        assert(one.last() == Some(pixels));
        assert(one.drop_last() =~= nothing);
        assert(flatten_outlines(one) == flatten_outlines(one.drop_last()) + pixels@);
        assert(Seq::<[usize; 2]>::empty() + pixels@ =~= pixels@);
    }
    let none_only = seq![None::<Vec<[usize; 2]>>];
    assert(none_only.len() == 1);
    assert(none_only.last() is None);
    assert(none_only.drop_last() =~= nothing);
    assert(flatten_outlines(none_only) == flatten_outlines(none_only.drop_last()));
    if second.len() == 0 {
        assert(first + second =~= first);
        assert(flatten_outlines(first) + flatten_outlines(second) =~= flatten_outlines(first));
    } else {
        lemma_flatten_outlines_append(first, second.drop_last());
        assert((first + second).drop_last() =~= first + second.drop_last());
        assert((first + second).last() == second.last());
        match second.last() {
            Some(pixels) => {
                assert(flatten_outlines(first) + flatten_outlines(second.drop_last()) + pixels@
                    =~= flatten_outlines(first) + (flatten_outlines(second.drop_last()) + pixels@));
            },
            None => {},
        }
    }
}

/// The outline of a collection of objects, given the outline of each: all
/// their pixels in order, or no outline when none of them has a pixel.
pub fn combine_outlines(outlines: &Vec<Option<Vec<[usize; 2]>>>) -> (combined: Option<Vec<[usize; 2]>>)
    ensures
        match combined {
            None => flatten_outlines(outlines@).len() == 0,
            Some(pixels) => pixels@ == flatten_outlines(outlines@) && pixels@.len() > 0,
        },
{
    let mut pixels: Vec<[usize; 2]> = Vec::new();
    let mut i: usize = 0;
    while i < outlines.len()
        invariant
            i <= outlines@.len(),
            pixels@ == flatten_outlines(outlines@.subrange(0, i as int)),
        decreases outlines@.len() - i,
    {
        proof {
            assert(outlines@.subrange(0, i + 1).drop_last() =~= outlines@.subrange(0, i as int));
        }
        match &outlines[i] {
            Some(new_pixels) => {
                let ghost before = pixels@;
                let mut j: usize = 0;
                while j < new_pixels.len()
                    invariant
                        j <= new_pixels@.len(),
                        pixels@ == before + new_pixels@.subrange(0, j as int),
                    decreases new_pixels@.len() - j,
                {
                    pixels.push(new_pixels[j]);
                    j += 1;
                    proof {
                        assert(pixels@ =~= before + new_pixels@.subrange(0, j as int));
                    }
                }
                proof {
                    assert(new_pixels@.subrange(0, j as int) =~= new_pixels@);
                }
            },
            None => {},
        }
        i += 1;
    }
    proof {
        assert(outlines@.subrange(0, outlines@.len() as int) =~= outlines@);
    }
    if pixels.len() == 0 {
        None
    } else {
        Some(pixels)
    }
}

/// Where an outline pixel lands in a raster stored top row first: its `y`
/// counts rows from the bottom.
pub open spec fn raster_index(image_width: int, image_height: int, pixel: [usize; 2]) -> int {
    (image_height - pixel[1] - 1) * image_width + pixel[0]
}

/// One of the first `n` outline pixels lands on raster index `k`.
pub open spec fn marked_by(image_width: int, image_height: int, pixels: Seq<[usize; 2]>, n: int, k: int) -> bool {
    exists|i: int| 0 <= i < n && #[trigger] raster_index(image_width, image_height, pixels[i]) == k
}

/// Marks every outline pixel on the raster: the image takes `color` and the
/// depth buffer takes `depth` there; everything else stays as it was.
pub fn rasterize_pixels<P: Copy, Z: Copy>(
    image_pixels: &mut Vec<P>,
    z_buffer: &mut Vec<Z>,
    image_width: usize,
    image_height: usize,
    pixels: &Vec<[usize; 2]>,
    color: P,
    depth: Z,
)
    requires
        forall|i: int|
            0 <= i < pixels@.len() ==> {
                &&& #[trigger] pixels@[i][1] < image_height
                &&& 0 <= raster_index(image_width as int, image_height as int, pixels@[i])
                &&& raster_index(image_width as int, image_height as int, pixels@[i]) < old(
                    image_pixels,
                )@.len()
                &&& raster_index(image_width as int, image_height as int, pixels@[i]) < old(
                    z_buffer,
                )@.len()
            },
    ensures
        final(image_pixels)@.len() == old(image_pixels)@.len(),
        final(z_buffer)@.len() == old(z_buffer)@.len(),
        forall|k: int|
            0 <= k < old(image_pixels)@.len() ==> #[trigger] final(image_pixels)@[k] == if marked_by(
                image_width as int,
                image_height as int,
                pixels@,
                pixels@.len() as int,
                k,
            ) {
                color
            } else {
                old(image_pixels)@[k]
            },
        forall|k: int|
            0 <= k < old(z_buffer)@.len() ==> #[trigger] final(z_buffer)@[k] == if marked_by(
                image_width as int,
                image_height as int,
                pixels@,
                pixels@.len() as int,
                k,
            ) {
                depth
            } else {
                old(z_buffer)@[k]
            },
        forall|i: int|
            #![trigger pixels@[i]]
            0 <= i < pixels@.len() ==> {
                let k = (image_height - 1 - pixels@[i][1]) * image_width + pixels@[i][0];
                &&& final(image_pixels)@[k] == color
                &&& final(z_buffer)@[k] == depth
            },
        forall|k: int|
            0 <= k < old(image_pixels)@.len() && !(exists|i: int|
                0 <= i < pixels@.len() && (image_height - 1 - #[trigger] pixels@[i][1]) * image_width
                    + pixels@[i][0] == k) ==> #[trigger] final(image_pixels)@[k] == old(image_pixels)@[k],
        forall|k: int|
            0 <= k < old(z_buffer)@.len() && !(exists|i: int|
                0 <= i < pixels@.len() && (image_height - 1 - #[trigger] pixels@[i][1]) * image_width
                    + pixels@[i][0] == k) ==> #[trigger] final(z_buffer)@[k] == old(z_buffer)@[k],
{
    let ghost w = image_width as int;
    let ghost h = image_height as int;
    let ghost old_image = image_pixels@;
    let ghost old_depths = z_buffer@;
    let pixel_count = image_pixels.len();
    let mut n: usize = 0;
    while n < pixels.len()
        invariant
            n <= pixels@.len(),
            pixel_count == old_image.len(),
            w == image_width,
            h == image_height,
            forall|i: int|
                0 <= i < pixels@.len() ==> {
                    &&& #[trigger] pixels@[i][1] < image_height
                    &&& 0 <= raster_index(w, h, pixels@[i])
                    &&& raster_index(w, h, pixels@[i]) < old_image.len()
                    &&& raster_index(w, h, pixels@[i]) < old_depths.len()
                },
            image_pixels@.len() == old_image.len(),
            z_buffer@.len() == old_depths.len(),
            forall|k: int|
                0 <= k < old_image.len() ==> #[trigger] image_pixels@[k] == if marked_by(
                    w,
                    h,
                    pixels@,
                    n as int,
                    k,
                ) {
                    color
                } else {
                    old_image[k]
                },
            forall|k: int|
                0 <= k < old_depths.len() ==> #[trigger] z_buffer@[k] == if marked_by(
                    w,
                    h,
                    pixels@,
                    n as int,
                    k,
                ) {
                    depth
                } else {
                    old_depths[k]
                },
        decreases pixels@.len() - n,
    {
        let pixel = pixels[n];
        let ghost target = raster_index(w, h, pixels@[n as int]);
        proof {
            assert(pixels@[n as int][1] < image_height);
            assert((h - pixel[1] - 1) * w >= 0) by (nonlinear_arith)
                requires
                    h - pixel[1] - 1 >= 0,
                    w >= 0,
            ;
        }
        let pixel_index = (image_height - pixel[1] - 1) * image_width + pixel[0];
        image_pixels.set(pixel_index, color);
        z_buffer.set(pixel_index, depth);
        proof {
            assert forall|k: int| 0 <= k < old_image.len() implies #[trigger] image_pixels@[k]
                == if marked_by(w, h, pixels@, n + 1, k) {
                color
            } else {
                old_image[k]
            } by {
                if k == target {
                    assert(raster_index(w, h, pixels@[n as int]) == k);
                } else {
                    if marked_by(w, h, pixels@, n + 1, k) {
                        let i = choose|i: int|
                            0 <= i < n + 1 && #[trigger] raster_index(w, h, pixels@[i]) == k;
                        assert(i != n);
                    }
                }
            }
            assert forall|k: int| 0 <= k < old_depths.len() implies #[trigger] z_buffer@[k]
                == if marked_by(w, h, pixels@, n + 1, k) {
                depth
            } else {
                old_depths[k]
            } by {
                if k == target {
                    assert(raster_index(w, h, pixels@[n as int]) == k);
                } else {
                    if marked_by(w, h, pixels@, n + 1, k) {
                        let i = choose|i: int|
                            0 <= i < n + 1 && #[trigger] raster_index(w, h, pixels@[i]) == k;
                        assert(i != n);
                    }
                }
            }
        }
        n += 1;
    }
    proof {
        assert forall|i: int|
            #![trigger pixels@[i]]
            0 <= i < pixels@.len() implies {
            let k = (h - 1 - pixels@[i][1]) * w + pixels@[i][0];
            &&& image_pixels@[k] == color
            &&& z_buffer@[k] == depth
        } by {
            let k = raster_index(w, h, pixels@[i]);
            assert(marked_by(w, h, pixels@, pixels@.len() as int, k));
        }
    }
}

/// An outline pixel `[x, y]`, with `y` counting rows from the bottom and `x`
/// columns from the left, is stored in row `image_height - 1 - y` from the top
/// and column `x`: at index `(image_height - 1 - y) * image_width + x`. Inside
/// the raster, distinct pixels land on distinct indices within its bounds.
pub proof fn lemma_raster_index_rows_from_bottom(
    image_width: int,
    image_height: int,
    p: [usize; 2],
    q: [usize; 2],
)
    requires
        p[0] < image_width,
        p[1] < image_height,
        q[0] < image_width,
        q[1] < image_height,
    ensures
        raster_index(image_width, image_height, p) == (image_height - 1 - p[1]) * image_width + p[0],
        0 <= raster_index(image_width, image_height, p) < image_width * image_height,
        raster_index(image_width, image_height, p) == raster_index(image_width, image_height, q)
            <==> (p[0] == q[0] && p[1] == q[1]),
{
    let w = image_width;
    let h = image_height;
    let rp = h - 1 - p[1];
    let rq = h - 1 - q[1];
    assert(0 <= rp * w + p[0] < w * h) by (nonlinear_arith)
        requires
            0 <= rp < h,
            0 <= p[0] < w,
    ;
    lemma_fundamental_div_mod_converse(rp * w + p[0], w, rp, p[0] as int);
    lemma_fundamental_div_mod_converse(rq * w + q[0], w, rq, q[0] as int);
}

} // verus!

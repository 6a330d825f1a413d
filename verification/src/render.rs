//! The render: every pixel of the raster, in raster-scan order, is mapped to
//! a point, solved, classified and painted.
//!
//! One registry serves the whole pass, so a cluster's id, and with it a
//! pixel's colour, depends on the pixels before it. The pass is sequential:
//! the same operations on the same rectangle give the same picture.

use crate::cluster::{classified, classified_is_single_valued, Cluster};
use crate::newton::{
    newton, single_valued, solved, solved_is_single_valued, total, AsIndex, MAX_IT,
};
use crate::point::{single_valued_point, Point};
use crate::raster::{can_hold, dense, raster_shape, raster_store, Raster};
use crate::viz::{Color, Colors};
use vstd::arithmetic::div_mod::lemma_fundamental_div_mod_converse;
use vstd::prelude::*;

verus! {

/// The record of a pass: for each pixel, counted row by row, the point it
/// stands for, what the solver found from there and the id this was given;
/// and the registry before the first pixel and after each.
pub struct Pass<P> {
    pub points: Seq<P>,
    pub roots: Seq<Option<P>>,
    pub regs: Seq<Seq<(P, usize)>>,
    pub ids: Seq<int>,
}

/// Channel `c` of a colour: red, green, blue.
pub open spec fn channel(color: Color, c: int) -> u8 {
    if c == 0 {
        color.r
    } else if c == 1 {
        color.g
    } else {
        color.b
    }
}

/// The bytes of a raster whose pixels, row by row, have the colours of `ids`.
pub open spec fn picture_of(ids: Seq<int>) -> Seq<u8> {
    Seq::new(3 * ids.len(), |b: int| channel(Colors::of_id(ids[b / 3]).rgb(), b % 3))
}

/// Pixel `k` of a raster of `width` columns stands for the point `p`:
/// `from_index` was handed the pixel's row and column, the two corners and
/// the raster's size, and gave `p`.
pub open spec fn mapped<P: AsIndex>(
    min: P,
    max: P,
    width: usize,
    height: usize,
    k: int,
    p: P,
) -> bool {
    exists|idx: [usize; 2]|
        {
            &&& idx[0] == k / (width as int)
            &&& idx[1] == k % (width as int)
            &&& #[trigger] call_ensures(P::from_index, (idx, min, max, width, height), p)
        }
}

/// What happened at pixel `k` of a pass: the pixel was mapped to its point,
/// the solver ran from there, and its answer was classified by the registry
/// as the pixels before had left it.
pub open spec fn traced<P: Point + AsIndex, F: Fn(P) -> P, DF: Fn(P) -> P>(
    min: P,
    max: P,
    width: usize,
    height: usize,
    f: &F,
    df: &DF,
    pass: Pass<P>,
    k: int,
) -> bool {
    &&& mapped(min, max, width, height, k, pass.points[k])
    &&& solved(f, df, pass.points[k], MAX_IT as nat, pass.roots[k])
    &&& classified(pass.regs[k], pass.roots[k], pass.regs[k + 1], pass.ids[k])
}

/// A whole pass over a raster of `width` by `height` pixels: it starts from
/// an empty registry, visits every pixel once, and `store` holds the colours
/// of the ids it gave.
pub open spec fn rendering<P: Point + AsIndex, F: Fn(P) -> P, DF: Fn(P) -> P>(
    min: P,
    max: P,
    width: usize,
    height: usize,
    f: &F,
    df: &DF,
    pass: Pass<P>,
    store: Seq<u8>,
) -> bool {
    &&& pass.points.len() == width * height
    &&& pass.roots.len() == width * height
    &&& pass.ids.len() == width * height
    &&& pass.regs.len() == width * height + 1
    &&& pass.regs[0] == Seq::<(P, usize)>::empty()
    &&& forall|k: int| 0 <= k < width * height ==> #[trigger] traced(min, max, width, height, f, df, pass, k)
    &&& store == picture_of(pass.ids)
}

/// The mapping gives one point for one pixel.
pub open spec fn single_valued_mapping<P: AsIndex>() -> bool {
    forall|idx: [usize; 2], min: P, max: P, width: usize, height: usize, x: P, y: P|
        #![trigger
            call_ensures(P::from_index, (idx, min, max, width, height), x),
            call_ensures(P::from_index, (idx, min, max, width, height), y),
        ]
        call_ensures(P::from_index, (idx, min, max, width, height), x) && call_ensures(
            P::from_index,
            (idx, min, max, width, height),
            y,
        ) ==> x == y
}

/// Calls a mapping and keeps what it was called with.
fn point_of<P, T: Fn([usize; 2], P, P, usize, usize) -> P>(
    mapping: T,
    idx: [usize; 2],
    min: P,
    max: P,
    width: usize,
    height: usize,
) -> (p: P)
    requires
        call_requires(mapping, (idx, min, max, width, height)),
    ensures
        call_ensures(mapping, (idx, min, max, width, height), p),
{
    mapping(idx, min, max, width, height)
}

/// Renders the rectangle between `min` and `max` on a raster of `width`
/// columns and `height` rows.
///
/// The pixels are visited row by row. For each, `P::from_index` gives the
/// point, `newton` looks for a root from there, a fresh registry shared by
/// the whole pass classifies what it found, and the id's colour is painted.
/// The result is a dense raster of `height` by `width` pixels that holds
/// such a pass.
pub fn render<P: Point + AsIndex, F: Fn(P) -> P, DF: Fn(P) -> P>(
    min: P,
    max: P,
    width: usize,
    height: usize,
    f: &F,
    df: &DF,
) -> (img: Raster)
    requires
        can_hold(height, width),
        total(f, df),
    ensures
        raster_shape(img) == (height, width, 3usize),
        dense(img),
        exists|pass: Pass<P>| #[trigger] rendering(min, max, width, height, f, df, pass, raster_store(img)),
{
    let mut img = Raster::new(height, width);
    let mut registry: Cluster<P> = Cluster::new();
    let ghost mut pass = Pass::<P> {
        points: Seq::empty(),
        roots: Seq::empty(),
        regs: seq![Seq::<(P, usize)>::empty()],
        ids: Seq::empty(),
    };
    proof {
        assert(width * height * 3 <= isize::MAX) by (nonlinear_arith)
            requires
                can_hold(height, width),
        ;
    }
    let mut row: usize = 0;
    let mut col: usize = 0;
    let mut k: usize = 0;
    while row < height && width > 0
        invariant
            can_hold(height, width),
            width * height * 3 <= isize::MAX,
            total(f, df),
            raster_shape(img) == (height, width, 3usize),
            dense(img),
            raster_store(img).len() == 3 * (width * height),
            row <= height,
            col < width || (width == 0 && col == 0),
            k == row * width + col,
            k <= width * height,
            pass.points.len() == k,
            pass.roots.len() == k,
            pass.ids.len() == k,
            pass.regs.len() == k + 1,
            pass.regs[0] == Seq::<(P, usize)>::empty(),
            pass.regs[k as int] == registry@,
            registry@.len() <= k,
            forall|j: int| 0 <= j < registry@.len() ==> (#[trigger] registry@[j]).1 <= k,
            forall|j: int| 0 <= j < k ==> #[trigger] traced(min, max, width, height, f, df, pass, j),
            forall|b: int|
                0 <= b < 3 * k ==> raster_store(img)[b] == #[trigger] picture_of(pass.ids)[b],
        decreases width * height - k,
    {
        proof {
            assert(k < width * height) by (nonlinear_arith)
                requires
                    k == row * width + col,
                    col < width,
                    row < height,
            ;
        }
        let idx = [row, col];
        let z0 = point_of(P::from_index, idx, min, max, width, height);
        let root = newton(f, df, z0);
        let ghost before = registry@;
        let id = registry.push_maybe(root);
        let ghost store = raster_store(img);
        img.paint(row, col, Colors::from_int(id));
        proof {
            let old_pass = pass;
            pass = Pass {
                points: pass.points.push(z0),
                roots: pass.roots.push(root),
                regs: pass.regs.push(registry@),
                ids: pass.ids.push(id as int),
            };
            lemma_fundamental_div_mod_converse(k as int, width as int, row as int, col as int);
            assert(mapped(min, max, width, height, k as int, z0));
            assert(traced(min, max, width, height, f, df, pass, k as int));
            assert forall|j: int| 0 <= j < k + 1 implies #[trigger] traced(min, max, width, height, f, df, pass, j) by {
                if j < k {
                    assert(traced(min, max, width, height, f, df, old_pass, j));
                }
            }
            assert forall|j: int| 0 <= j < registry@.len() implies (#[trigger] registry@[j]).1 <= k
                + 1 by {
                if j < before.len() {
                    assert(before[j].1 <= k);
                }
            }
            assert forall|b: int| 0 <= b < 3 * (k + 1) implies raster_store(img)[b]
                == #[trigger] picture_of(pass.ids)[b] by {
                if b < 3 * k {
                    assert(store[b] == picture_of(old_pass.ids)[b]);
                    assert(old_pass.ids[b / 3] == pass.ids[b / 3]);
                }
            }
        }
        k += 1;
        col += 1;
        if col == width {
            col = 0;
            row += 1;
        }
        proof {
            assert(k == row * width + col) by (nonlinear_arith)
                requires
                    (k - 1 == (row - 1) * width + (width - 1) && col == 0) || (k - 1 == row * width
                        + (col - 1)),
            ;
        }
    }
    proof {
        assert(k == width * height) by (nonlinear_arith)
            requires
                k == row * width + col,
                k <= width * height,
                (row == height && col == 0) || width == 0,
                col < width || (width == 0 && col == 0),
        ;
        assert(raster_store(img) =~= picture_of(pass.ids));
        assert(rendering(min, max, width, height, f, df, pass, raster_store(img)));
    }
    img
}

/// Two passes over the same rectangle agree up to pixel `n`: on the points,
/// the roots and the ids, and on the registry before and after each pixel.
proof fn passes_agree<P: Point + AsIndex, F: Fn(P) -> P, DF: Fn(P) -> P>(
    min: P,
    max: P,
    width: usize,
    height: usize,
    f: &F,
    df: &DF,
    pass1: Pass<P>,
    store1: Seq<u8>,
    pass2: Pass<P>,
    store2: Seq<u8>,
    n: nat,
)
    requires
        single_valued_mapping::<P>(),
        single_valued_point::<P>(),
        single_valued(f, df),
        rendering(min, max, width, height, f, df, pass1, store1),
        rendering(min, max, width, height, f, df, pass2, store2),
        n <= width * height,
    ensures
        pass1.regs[n as int] == pass2.regs[n as int],
        forall|k: int| 0 <= k < n ==> #[trigger] pass1.points[k] == pass2.points[k],
        forall|k: int| 0 <= k < n ==> #[trigger] pass1.roots[k] == pass2.roots[k],
        forall|k: int| 0 <= k < n ==> #[trigger] pass1.ids[k] == pass2.ids[k],
    decreases n,
{
    if n > 0 {
        let k = n - 1;
        passes_agree(min, max, width, height, f, df, pass1, store1, pass2, store2, k as nat);
        assert(traced(min, max, width, height, f, df, pass1, k));
        assert(traced(min, max, width, height, f, df, pass2, k));
        let idx1 = choose|idx: [usize; 2]|
            {
                &&& idx[0] == k / (width as int)
                &&& idx[1] == k % (width as int)
                &&& #[trigger] call_ensures(
                    P::from_index,
                    (idx, min, max, width, height),
                    pass1.points[k],
                )
            };
        let idx2 = choose|idx: [usize; 2]|
            {
                &&& idx[0] == k / (width as int)
                &&& idx[1] == k % (width as int)
                &&& #[trigger] call_ensures(
                    P::from_index,
                    (idx, min, max, width, height),
                    pass2.points[k],
                )
            };
        assert(idx1 =~= idx2);
        assert(pass1.points[k] == pass2.points[k]);
        solved_is_single_valued(
            f,
            df,
            pass1.points[k],
            MAX_IT as nat,
            pass1.roots[k],
            pass2.roots[k],
        );
        classified_is_single_valued(
            pass1.regs[k],
            pass1.roots[k],
            pass1.regs[k + 1],
            pass1.ids[k],
            pass2.regs[k + 1],
            pass2.ids[k],
        );
    }
}

/// A render is repeatable: where the mapping and the operations are
/// single-valued, two passes over the same rectangle with the same raster
/// size take the same course and leave the same bytes.
pub proof fn rendering_is_single_valued<P: Point + AsIndex, F: Fn(P) -> P, DF: Fn(P) -> P>(
    min: P,
    max: P,
    width: usize,
    height: usize,
    f: &F,
    df: &DF,
    pass1: Pass<P>,
    store1: Seq<u8>,
    pass2: Pass<P>,
    store2: Seq<u8>,
)
    requires
        single_valued_mapping::<P>(),
        single_valued_point::<P>(),
        single_valued(f, df),
        rendering(min, max, width, height, f, df, pass1, store1),
        rendering(min, max, width, height, f, df, pass2, store2),
    ensures
        store1 == store2,
        pass1 == pass2,
{
    passes_agree(min, max, width, height, f, df, pass1, store1, pass2, store2, (width * height) as nat);
    assert(pass1.points =~= pass2.points);
    assert(pass1.ids =~= pass2.ids);
    assert(pass1.roots =~= pass2.roots);
    assert forall|k: int| 0 <= k < pass1.regs.len() implies pass1.regs[k] == pass2.regs[k] by {
        passes_agree(min, max, width, height, f, df, pass1, store1, pass2, store2, k as nat);
    }
    assert(pass1.regs =~= pass2.regs);
}

/// Every id of a pass is `-1`, for a pixel without a root, or the id of a
/// cluster that the registry holds from then on; and the registry never
/// holds more clusters than pixels have been classified.
pub proof fn ids_are_in_range<P: Point + AsIndex, F: Fn(P) -> P, DF: Fn(P) -> P>(
    min: P,
    max: P,
    width: usize,
    height: usize,
    f: &F,
    df: &DF,
    pass: Pass<P>,
    store: Seq<u8>,
    k: int,
)
    requires
        rendering(min, max, width, height, f, df, pass, store),
        0 <= k < width * height,
    ensures
        -1 <= pass.ids[k] < pass.regs[k + 1].len(),
        pass.ids[k] == -1 <==> pass.roots[k] is None,
        pass.regs[k].len() <= pass.regs[k + 1].len() <= k + 1,
    decreases k,
{
    assert(traced(min, max, width, height, f, df, pass, k));
    if k > 0 {
        ids_are_in_range(min, max, width, height, f, df, pass, store, k - 1);
    }
}

} // verus!

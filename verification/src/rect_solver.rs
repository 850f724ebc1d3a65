//! Fit multiple rectangles into one square canvas.
//!
//! The solver implements guillotine packing: rectangles are placed in input
//! order into the first free space they fit, and every placement splits the
//! remaining free area into axis-aligned sub-rectangles.

use vstd::prelude::*;

verus! {

use crate::utils::is_pot;
use vstd::arithmetic::power2::{
    pow2,
    lemma2_to64,
    lemma_pow2_adds,
    lemma_pow2_pos,
    lemma_pow2_strictly_increases,
    lemma_pow2_unfold,
};
use vstd::arithmetic::mul::{lemma_mul_inequality, lemma_mul_upper_bound};

/// Rectangle with a key identifier.  The solver assigns `pos` and sets
/// `rotated`, swapping `size` when a rectangle is placed rotated.
pub struct Rect<K> {
    pub key: K,
    pub pos: [u32; 2],
    pub size: [u32; 2],
    pub rotated: bool,
}

impl<K> Rect<K> {
    pub fn new(key: K, w: u32, h: u32) -> (r: Self)
        ensures
            r.key == key,
            r.pos[0] == 0 && r.pos[1] == 0,
            r.size[0] == w && r.size[1] == h,
            !r.rotated,
    {
        Self { key, pos: [0, 0], size: [w, h], rotated: false }
    }
}

/// Errors that may occur during solving; none is critical and `solve` never
/// panics: callers may just try again with different parameters.
#[derive(Debug, PartialEq, Eq)]
pub enum SolverError {
    /// One of the rectangles cannot fit inside the maximum bounds.
    ImageIsTooBig,
    /// The area of all rectangles together is too big for the maximum bounds.
    AreaIsTooBig,
    /// Not all rectangles fit on one page; holds the index of the first
    /// placement failure.
    CannotFitOnOnePage(usize),
}

/// Empty space that a rectangle can be placed into.
#[derive(Debug, Copy, Clone)]
struct Space {
    pos: (u32, u32),
    size: (u32, u32),
}

/// An axis-aligned box with mathematical-integer coordinates, used to state
/// where padded rectangles and free spaces lie on the canvas.
pub ghost struct PadBox {
    pub x: int,
    pub y: int,
    pub w: int,
    pub h: int,
}

/// The padded bounding box of a placed rectangle: the stored position is inset
/// by the padding, so the box origin is `pos - padding` and the box extent is
/// `size + 2 * padding` on each axis.
pub open spec fn pad_box<K>(r: Rect<K>, pads: [u32; 2]) -> PadBox {
    PadBox {
        x: r.pos[0] - pads[0],
        y: r.pos[1] - pads[1],
        w: r.size[0] + 2 * pads[0],
        h: r.size[1] + 2 * pads[1],
    }
}

/// Two boxes share no interior point.
pub open spec fn box_disjoint(a: PadBox, b: PadBox) -> bool {
    a.x + a.w <= b.x || b.x + b.w <= a.x || a.y + a.h <= b.y || b.y + b.h <= a.y
}

/// The box lies within a square canvas of the given dimension.
pub open spec fn box_in_canvas(b: PadBox, dims: int) -> bool {
    0 <= b.x && 0 <= b.y && b.x + b.w <= dims && b.y + b.h <= dims
}

spec fn space_box(s: Space) -> PadBox {
    PadBox { x: s.pos.0 as int, y: s.pos.1 as int, w: s.size.0 as int, h: s.size.1 as int }
}

/// Nominal (unrotated) width of a rectangle.
pub open spec fn nom_w<K>(r: Rect<K>) -> int {
    if r.rotated {
        r.size[1] as int
    } else {
        r.size[0] as int
    }
}

/// Nominal (unrotated) height of a rectangle.
pub open spec fn nom_h<K>(r: Rect<K>) -> int {
    if r.rotated {
        r.size[0] as int
    } else {
        r.size[1] as int
    }
}

/// The solver leaves a rectangle's key and nominal size unchanged.
pub open spec fn keeps_shape<K>(q: Rect<K>, r: Rect<K>) -> bool {
    q.key == r.key && nom_w(q) == nom_w(r) && nom_h(q) == nom_h(r)
}

/// A rectangle of this nominal size fits into the space unrotated, padding
/// included.
spec fn fits_in(w: int, h: int, pads: [u32; 2], sp: Space) -> bool {
    w + 2 * pads[0] <= sp.size.0 && h + 2 * pads[1] <= sp.size.1
}

/// Padded width of a size request.
pub open spec fn padded_w(w: int, pads: [u32; 2]) -> int {
    w + 2 * pads[0]
}

/// Padded height of a size request.
pub open spec fn padded_h(h: int, pads: [u32; 2]) -> int {
    h + 2 * pads[1]
}

/// A rectangle whose padded size exceeds the maximum bounds on either axis.
pub open spec fn oversize<K>(r: Rect<K>, pads: [u32; 2], max_dims: int) -> bool {
    padded_w(r.size[0] as int, pads) > max_dims || padded_h(r.size[1] as int, pads) > max_dims
}

/// Some rectangle in the sequence is oversize.
pub open spec fn any_oversize<K>(s: Seq<Rect<K>>, pads: [u32; 2], max_dims: int) -> bool {
    exists|i: int| 0 <= i < s.len() && #[trigger] oversize(s[i], pads, max_dims)
}

/// Sum of the padded areas of all rectangles in the sequence.
pub open spec fn total_padded_area<K>(s: Seq<Rect<K>>, pads: [u32; 2]) -> int
    decreases s.len(),
{
    if s.len() == 0 {
        0
    } else {
        total_padded_area(s.drop_last(), pads) + padded_w(s.last().size[0] as int, pads)
            * padded_h(s.last().size[1] as int, pads)
    }
}

/// The nominal sizes of the rectangles, in input order.
pub open spec fn nominal_sizes<K>(rects: Seq<Rect<K>>) -> Seq<(int, int)> {
    rects.map_values(|r: Rect<K>| (nom_w(r), nom_h(r)))
}

/// A padded request of these extents fits into the free space.
pub open spec fn box_fits(rw: int, rh: int, sp: PadBox) -> bool {
    rw <= sp.w && rh <= sp.h
}

/// The first free space, in scan order, that can hold a request of nominal
/// size `(w, h)` with the given doubled paddings; the rotated orientation is
/// taken only where the unrotated one does not fit and rotation is allowed.
pub open spec fn ff_choice(
    spaces: Seq<PadBox>,
    w: int,
    h: int,
    px2: int,
    py2: int,
    can_rotate: bool,
) -> Option<(int, bool)>
    decreases spaces.len(),
{
    if spaces.len() == 0 {
        None
    } else if box_fits(w + px2, h + py2, spaces[0]) {
        Some((0int, false))
    } else if can_rotate && box_fits(h + px2, w + py2, spaces[0]) {
        Some((0int, true))
    } else {
        match ff_choice(spaces.drop_first(), w, h, px2, py2, can_rotate) {
            Some((s, rot)) => Some((s + 1, rot)),
            None => None,
        }
    }
}

/// The free spaces after placing a padded box of the given extents into the
/// space at the index: the space is removed on an exact fit, shrunk where one
/// axis matches exactly, and split into a bottom and a right remainder
/// otherwise.
pub open spec fn ff_split(spaces: Seq<PadBox>, s: int, rw: int, rh: int) -> Seq<PadBox> {
    let sp = spaces[s];
    if sp.w == rw && sp.h == rh {
        spaces.remove(s)
    } else if sp.h == rh {
        spaces.update(s, PadBox { x: sp.x + rw, y: sp.y, w: sp.w - rw, h: sp.h })
    } else if sp.w == rw {
        spaces.update(s, PadBox { x: sp.x, y: sp.y + rh, w: sp.w, h: sp.h - rh })
    } else {
        spaces.update(s, PadBox { x: sp.x, y: sp.y + rh, w: rw, h: sp.h - rh }).push(
            PadBox { x: sp.x + rw, y: sp.y, w: sp.w - rw, h: sp.h },
        )
    }
}

/// The first-fit pass: the requests, taken strictly in input order, are all
/// placed, each into the first free space that can hold it.
pub open spec fn ff_fits(
    sizes: Seq<(int, int)>,
    spaces: Seq<PadBox>,
    px2: int,
    py2: int,
    can_rotate: bool,
) -> bool
    decreases sizes.len(),
{
    if sizes.len() == 0 {
        true
    } else {
        match ff_choice(spaces, sizes[0].0, sizes[0].1, px2, py2, can_rotate) {
            Some((s, rot)) => {
                let rw = if rot {
                    sizes[0].1 + px2
                } else {
                    sizes[0].0 + px2
                };
                let rh = if rot {
                    sizes[0].0 + py2
                } else {
                    sizes[0].1 + py2
                };
                ff_fits(sizes.drop_first(), ff_split(spaces, s, rw, rh), px2, py2, can_rotate)
            },
            None => false,
        }
    }
}

/// The guillotine pass places all rectangles (nominal sizes, in input order)
/// onto one square canvas of the given dimension, first-fit, with the given
/// padding and rotation policy.  This is the solver's placement policy as a
/// mathematical function.
pub open spec fn first_fit_all<K>(
    rects: Seq<Rect<K>>,
    dims: int,
    pads: [u32; 2],
    can_rotate: bool,
) -> bool {
    ff_fits(
        nominal_sizes(rects),
        seq![PadBox { x: 0, y: 0, w: dims, h: dims }],
        2 * pads[0],
        2 * pads[1],
        can_rotate,
    )
}

/// The view of the free-space list as mathematical boxes.
spec fn space_boxes(spaces: Seq<Space>) -> Seq<PadBox> {
    spaces.map_values(|s: Space| space_box(s))
}

/// Where the first space in scan order admits the request at the index `s`
/// under the orientation rule, the model's choice is exactly that.
proof fn lemma_ff_choice_at(
    spaces: Seq<PadBox>,
    w: int,
    h: int,
    px2: int,
    py2: int,
    can_rotate: bool,
    s: int,
    rot: bool,
)
    requires
        0 <= s < spaces.len(),
        forall|j: int|
            0 <= j < s ==> !box_fits(w + px2, h + py2, #[trigger] spaces[j]) && (can_rotate
                ==> !box_fits(h + px2, w + py2, spaces[j])),
        if rot {
            can_rotate && !box_fits(w + px2, h + py2, spaces[s]) && box_fits(
                h + px2,
                w + py2,
                spaces[s],
            )
        } else {
            box_fits(w + px2, h + py2, spaces[s])
        },
    ensures
        ff_choice(spaces, w, h, px2, py2, can_rotate) == Some((s, rot)),
    decreases s,
{
    if s > 0 {
        let rest = spaces.drop_first();
        assert forall|j: int| 0 <= j < s - 1 implies !box_fits(w + px2, h + py2, #[trigger] rest[j])
            && (can_rotate ==> !box_fits(h + px2, w + py2, rest[j])) by {
            assert(rest[j] == spaces[j + 1]);
        }
        assert(rest[s - 1] == spaces[s]);
        lemma_ff_choice_at(rest, w, h, px2, py2, can_rotate, s - 1, rot);
    }
}

/// Where no space in the list admits the request in either allowed
/// orientation, the model finds no choice.
proof fn lemma_ff_choice_none(
    spaces: Seq<PadBox>,
    w: int,
    h: int,
    px2: int,
    py2: int,
    can_rotate: bool,
)
    requires
        forall|j: int|
            0 <= j < spaces.len() ==> !box_fits(w + px2, h + py2, #[trigger] spaces[j]) && (
            can_rotate ==> !box_fits(h + px2, w + py2, spaces[j])),
    ensures
        ff_choice(spaces, w, h, px2, py2, can_rotate) is None,
    decreases spaces.len(),
{
    if spaces.len() > 0 {
        let rest = spaces.drop_first();
        assert forall|j: int| 0 <= j < rest.len() implies !box_fits(
            w + px2,
            h + py2,
            #[trigger] rest[j],
        ) && (can_rotate ==> !box_fits(h + px2, w + py2, rest[j])) by {
            assert(rest[j] == spaces[j + 1]);
        }
        lemma_ff_choice_none(rest, w, h, px2, py2, can_rotate);
    }
}

/// Scan the free-space list in order and return the index of the first space
/// the request fits into, with the rotation used: the rotated orientation is
/// taken only where the unrotated one does not fit and rotation is allowed.
fn find_space(spaces: &Vec<Space>, nw: u32, nh: u32, pads: [u32; 2], can_rotate: bool) -> (r:
    Option<(usize, bool)>)
    ensures
        match r {
            Some((s, rot)) => {
                &&& 0 <= s < spaces@.len()
                &&& if rot {
                    can_rotate && !fits_in(nw as int, nh as int, pads, spaces@[s as int])
                        && fits_in(nh as int, nw as int, pads, spaces@[s as int])
                } else {
                    fits_in(nw as int, nh as int, pads, spaces@[s as int])
                }
                &&& forall|j: int|
                    0 <= j < s ==> !fits_in(nw as int, nh as int, pads, #[trigger] spaces@[j])
                        && (can_rotate ==> !fits_in(nh as int, nw as int, pads, spaces@[j]))
            },
            None => forall|j: int|
                0 <= j < spaces@.len() ==> !fits_in(nw as int, nh as int, pads, #[trigger] spaces@[j])
                    && (can_rotate ==> !fits_in(nh as int, nw as int, pads, spaces@[j])),
        },
{
    let px: u64 = pads[0] as u64 * 2;
    let py: u64 = pads[1] as u64 * 2;
    let mut s: usize = 0;
    while s < spaces.len()
        invariant
            0 <= s <= spaces@.len(),
            px == pads[0] as int * 2,
            py == pads[1] as int * 2,
            forall|j: int|
                0 <= j < s ==> !fits_in(nw as int, nh as int, pads, #[trigger] spaces@[j]) && (
                can_rotate ==> !fits_in(nh as int, nw as int, pads, spaces@[j])),
        decreases spaces@.len() - s,
    {
        let sp = spaces[s];
        if nw as u64 + px <= sp.size.0 as u64 && nh as u64 + py <= sp.size.1 as u64 {
            return Some((s, false));
        }
        if can_rotate && nh as u64 + px <= sp.size.0 as u64 && nw as u64 + py <= sp.size.1 as u64 {
            return Some((s, true));
        }
        s = s + 1;
    }
    None
}

/// One packing attempt at a fixed canvas dimension.  Succeeds exactly when
/// the first-fit pass of the model places every rectangle; then every
/// rectangle lies inside the canvas and the padded boxes are pairwise
/// disjoint.  On failure the rectangles keep their keys and nominal sizes,
/// but their positions are not meaningful.
fn solve_for<K>(dims: u32, pads: [u32; 2], can_rotate: bool, rects: &mut Vec<Rect<K>>) -> (ok:
    bool)
    ensures
        ok == first_fit_all(old(rects)@, dims as int, pads, can_rotate),
        final(rects)@.len() == old(rects)@.len(),
        forall|i: int|
            0 <= i < old(rects)@.len() ==> keeps_shape(#[trigger] final(rects)@[i], old(rects)@[i]),
        forall|i: int|
            0 <= i < old(rects)@.len() ==> (#[trigger] final(rects)@[i].rotated ==> can_rotate
                || old(rects)@[i].rotated),
        ok ==> forall|i: int|
            0 <= i < old(rects)@.len() ==> box_in_canvas(
                pad_box(#[trigger] final(rects)@[i], pads),
                dims as int,
            ),
        ok ==> forall|i: int, j: int|
            0 <= i < j < old(rects)@.len() ==> box_disjoint(
                pad_box(#[trigger] final(rects)@[i], pads),
                pad_box(#[trigger] final(rects)@[j], pads),
            ),
{
    let mut spaces: Vec<Space> = Vec::new();
    spaces.push(Space { pos: (0, 0), size: (dims, dims) });
    proof {
        assert(space_boxes(spaces@) =~= seq![
            PadBox { x: 0, y: 0, w: dims as int, h: dims as int },
        ]);
        assert(nominal_sizes(old(rects)@).skip(0) =~= nominal_sizes(old(rects)@));
    }
    let mut idx: usize = 0;
    while idx < rects.len()
        invariant
            0 <= idx <= rects@.len(),
            rects@.len() == old(rects)@.len(),
            forall|i: int| 0 <= i < old(rects)@.len() ==> keeps_shape(#[trigger] rects@[i], old(rects)@[i]),
            forall|i: int| idx <= i < old(rects)@.len() ==> #[trigger] rects@[i] == old(rects)@[i],
            forall|i: int| 0 <= i < idx ==> (#[trigger] rects@[i].rotated ==> can_rotate),
            forall|i: int|
                0 <= i < idx ==> box_in_canvas(pad_box(#[trigger] rects@[i], pads), dims as int),
            forall|i: int, j: int|
                0 <= i < j < idx ==> box_disjoint(
                    pad_box(#[trigger] rects@[i], pads),
                    pad_box(#[trigger] rects@[j], pads),
                ),
            forall|s: int|
                0 <= s < spaces@.len() ==> box_in_canvas(
                    space_box(#[trigger] spaces@[s]),
                    dims as int,
                ),
            forall|s: int, t: int|
                0 <= s < t < spaces@.len() ==> box_disjoint(
                    space_box(#[trigger] spaces@[s]),
                    space_box(#[trigger] spaces@[t]),
                ),
            forall|i: int, s: int|
                0 <= i < idx && 0 <= s < spaces@.len() ==> box_disjoint(
                    pad_box(#[trigger] rects@[i], pads),
                    space_box(#[trigger] spaces@[s]),
                ),
            ff_fits(
                nominal_sizes(old(rects)@).skip(idx as int),
                space_boxes(spaces@),
                2 * pads[0],
                2 * pads[1],
                can_rotate,
            ) == first_fit_all(old(rects)@, dims as int, pads, can_rotate),
        decreases rects@.len() - idx,
    {
        let ghost pre = rects@;
        // Take the rectangle out and normalize it to its nominal orientation.
        let mut r = rects.remove(idx);
        if r.rotated {
            let s0 = r.size[0];
            let s1 = r.size[1];
            r.size = [s1, s0];
            r.rotated = false;
        }
        let nw = r.size[0];
        let nh = r.size[1];
        match find_space(&spaces, nw, nh, pads, can_rotate) {
            None => {
                rects.insert(idx, r);
                proof {
                    let px2 = 2 * pads[0] as int;
                    let py2 = 2 * pads[1] as int;
                    let msp = space_boxes(spaces@);
                    assert forall|j: int| 0 <= j < msp.len() implies !box_fits(
                        nw + px2,
                        nh + py2,
                        #[trigger] msp[j],
                    ) && (can_rotate ==> !box_fits(nh + px2, nw + py2, msp[j])) by {
                        assert(msp[j] == space_box(spaces@[j]));
                        assert(!fits_in(nw as int, nh as int, pads, spaces@[j]));
                    }
                    lemma_ff_choice_none(msp, nw as int, nh as int, px2, py2, can_rotate);
                    let sizes = nominal_sizes(old(rects)@);
                    assert(pre[idx as int] == old(rects)@[idx as int]);
                    assert(sizes[idx as int] == (nw as int, nh as int));
                    assert(sizes.skip(idx as int)[0] == sizes[idx as int]);
                    assert(sizes.skip(idx as int).len() > 0);
                    assert(!ff_fits(sizes.skip(idx as int), msp, px2, py2, can_rotate));
                    assert(rects@ =~= pre.update(idx as int, r));
                    assert(keeps_shape(r, old(rects)@[idx as int]));
                    assert forall|i: int| 0 <= i < old(rects)@.len() implies keeps_shape(
                        #[trigger] rects@[i],
                        old(rects)@[i],
                    ) by {
                        if i != idx {
                            assert(rects@[i] == pre[i]);
                        }
                    }
                    assert forall|i: int| 0 <= i < old(rects)@.len() implies (#[trigger] rects@[i].rotated
                        ==> can_rotate || old(rects)@[i].rotated) by {
                        if i != idx {
                            assert(rects@[i] == pre[i]);
                        }
                    }
                }
                return false;
            },
            Some((s, rot)) => {
                let sp = spaces[s];
                if rot {
                    r.size = [nh, nw];
                    r.rotated = true;
                }
                // The effective orientation fits the chosen space.
                assert(fits_in(r.size[0] as int, r.size[1] as int, pads, sp));
                let rw = r.size[0] + pads[0] * 2;
                let rh = r.size[1] + pads[1] * 2;
                r.pos = [sp.pos.0 + pads[0], sp.pos.1 + pads[1]];
                let ghost placed_box = pad_box(r, pads);
                proof {
                    assert(placed_box.x == sp.pos.0 as int);
                    assert(placed_box.y == sp.pos.1 as int);
                    assert(placed_box.w == rw as int);
                    assert(placed_box.h == rh as int);
                }
                rects.insert(idx, r);
                proof {
                    assert(rects@ =~= pre.update(idx as int, r));
                }
                // The placed padded box lies within the chosen space, which is
                // disjoint from every other space and every earlier placement.
                assert forall|t: int| 0 <= t < spaces@.len() && t != s implies box_disjoint(
                    placed_box,
                    space_box(spaces@[t]),
                ) by {
                    if t < s {
                        assert(box_disjoint(space_box(spaces@[t]), space_box(spaces@[s as int])));
                    } else {
                        assert(box_disjoint(space_box(spaces@[s as int]), space_box(spaces@[t])));
                    }
                }
                assert forall|i: int| 0 <= i < idx implies box_disjoint(
                    pad_box(rects@[i], pads),
                    placed_box,
                ) by {
                    assert(box_disjoint(pad_box(rects@[i], pads), space_box(spaces@[s as int])));
                }
                let ghost sp_pre = spaces@;
                if sp.size.0 == rw && sp.size.1 == rh {
                    // The placement fills the space exactly: drop the space.
                    spaces.remove(s);
                    assert forall|t: int| 0 <= t < spaces@.len() implies spaces@[t] == (if t < s {
                        sp_pre[t]
                    } else {
                        sp_pre[t + 1]
                    }) by {
                        assert(spaces@ == sp_pre.remove(s as int));
                    }
                } else if sp.size.1 == rh {
                    // Full height: advance the space origin and shrink its width.
                    spaces[s] = Space {
                        pos: (sp.pos.0 + rw, sp.pos.1),
                        size: (sp.size.0 - rw, sp.size.1),
                    };
                } else if sp.size.0 == rw {
                    // Full width: advance the space origin and shrink its height.
                    spaces[s] = Space {
                        pos: (sp.pos.0, sp.pos.1 + rh),
                        size: (sp.size.0, sp.size.1 - rh),
                    };
                } else {
                    // Keep the remainder below the placement and add the
                    // remainder to its right as a new space.
                    spaces[s] = Space { pos: (sp.pos.0, sp.pos.1 + rh), size: (rw, sp.size.1 - rh) };
                    spaces.push(
                        Space { pos: (sp.pos.0 + rw, sp.pos.1), size: (sp.size.0 - rw, sp.size.1) },
                    );
                }
                proof {
                    let px2 = 2 * pads[0] as int;
                    let py2 = 2 * pads[1] as int;
                    let msp = space_boxes(sp_pre);
                    assert forall|j: int| 0 <= j < s implies !box_fits(
                        nw + px2,
                        nh + py2,
                        #[trigger] msp[j],
                    ) && (can_rotate ==> !box_fits(nh + px2, nw + py2, msp[j])) by {
                        assert(msp[j] == space_box(sp_pre[j]));
                        assert(!fits_in(nw as int, nh as int, pads, sp_pre[j]));
                    }
                    assert(msp[s as int] == space_box(sp_pre[s as int]));
                    lemma_ff_choice_at(msp, nw as int, nh as int, px2, py2, can_rotate, s as int, rot);
                    // The placed padded extents agree with the model's.
                    assert(rw as int == (if rot { nh + px2 } else { nw + px2 }));
                    assert(rh as int == (if rot { nw + py2 } else { nh + py2 }));
                    // The updated free spaces are exactly the model's split.
                    assert(space_boxes(spaces@) =~= ff_split(msp, s as int, rw as int, rh as int));
                    // One step of the first-fit pass.
                    let sizes = nominal_sizes(old(rects)@);
                    assert(pre[idx as int] == old(rects)@[idx as int]);
                    assert(sizes[idx as int] == (nw as int, nh as int));
                    assert(sizes.skip(idx as int)[0] == sizes[idx as int]);
                    assert(sizes.skip(idx as int).drop_first() =~= sizes.skip(idx as int + 1));
                    assert(ff_fits(sizes.skip(idx as int), msp, px2, py2, can_rotate) == ff_fits(
                        sizes.skip(idx as int + 1),
                        space_boxes(spaces@),
                        px2,
                        py2,
                        can_rotate,
                    ));
                }
                idx = idx + 1;
            },
        }
    }
    true
}

/// A power-of-two canvas whose square holds the total padded area is at
/// least as large as the smallest power of two whose square does — that is,
/// at least the smallest power of two reaching the square root of the area.
pub proof fn lemma_pot_area_minimal(e: nat, q: nat, area: int)
    requires
        pow2(e) * pow2(e) >= area,
        q > 0 ==> pow2((q - 1) as nat) * pow2((q - 1) as nat) < area,
    ensures
        pow2(e) >= pow2(q),
{
    if e < q {
        lemma_pow2_pos(e);
        lemma_pow2_pos((q - 1) as nat);
        if e < q - 1 {
            lemma_pow2_strictly_increases(e, (q - 1) as nat);
        }
        lemma_mul_upper_bound(
            pow2(e) as int,
            pow2((q - 1) as nat) as int,
            pow2(e) as int,
            pow2((q - 1) as nat) as int,
        );
    } else if e > q {
        lemma_pow2_strictly_increases(q, e);
    }
}

/// 2 to a small power, as a `u32`.
fn pow2_u32(p: u32) -> (r: u32)
    requires
        p <= 31,
    ensures
        r as nat == pow2(p as nat),
        r >= 1,
{
    let mut i: u32 = 0;
    let mut r: u32 = 1;
    proof {
        lemma2_to64();
    }
    while i < p
        invariant
            i <= p <= 31,
            r as nat == pow2(i as nat),
        decreases p - i,
    {
        proof {
            lemma2_to64();
            if ((i + 1) as nat) < 31 {
                lemma_pow2_strictly_increases((i + 1) as nat, 31);
            }
        }
        r = r * 2;
        i = i + 1;
    }
    r
}

/// Solver for a collection of rectangles: packs them onto one square
/// power-of-two canvas no larger than the configured maximum bounds.
pub struct Solver {
    max_dims: u32,
    padding: [u32; 2],
    can_rotate: bool,
}

impl Solver {
    /// The maximum canvas dimension this solver was configured with.
    pub closed spec fn spec_max_dims(&self) -> u32 {
        self.max_dims
    }

    /// The per-axis padding this solver was configured with.
    pub closed spec fn spec_padding(&self) -> [u32; 2] {
        self.padding
    }

    /// Whether this solver may rotate rectangles by 90 degrees.
    pub closed spec fn spec_can_rotate(&self) -> bool {
        self.can_rotate
    }

    pub fn with_params(max_dims: u32, padding: [u32; 2], can_rotate: bool) -> (s: Self)
        ensures
            s.spec_max_dims() == max_dims,
            s.spec_padding() == padding,
            s.spec_can_rotate() == can_rotate,
    {
        Self { max_dims, padding, can_rotate }
    }

    /// Pack the rectangles onto the smallest power-of-two canvas that admits
    /// a first-fit placement, retrying with doubled dimensions up to the
    /// configured maximum.  The input rectangles are size requests, as
    /// `Rect::new` creates them, not yet rotated.  On success every rectangle
    /// is placed inside the canvas and no two padded boxes overlap; every
    /// failure is a typed result and leaves each rectangle's key and nominal
    /// size unchanged.
    pub fn solve<K>(&self, rects: &mut Vec<Rect<K>>) -> (res: Result<[u32; 2], SolverError>)
        requires
            forall|i: int| 0 <= i < old(rects)@.len() ==> !(#[trigger] old(rects)@[i]).rotated,
        ensures
            match res {
                Result::Err(SolverError::ImageIsTooBig) => {
                    &&& *final(rects) == *old(rects)
                    &&& any_oversize(old(rects)@, self.spec_padding(), self.spec_max_dims() as int)
                },
                Result::Err(SolverError::AreaIsTooBig) => {
                    &&& *final(rects) == *old(rects)
                    &&& !any_oversize(old(rects)@, self.spec_padding(), self.spec_max_dims() as int)
                    &&& total_padded_area(old(rects)@, self.spec_padding()) > (
                    self.spec_max_dims() as int) * (self.spec_max_dims() as int)
                },
                Result::Err(SolverError::CannotFitOnOnePage(idx)) => {
                    &&& idx == 0
                    &&& !any_oversize(old(rects)@, self.spec_padding(), self.spec_max_dims() as int)
                    &&& total_padded_area(old(rects)@, self.spec_padding()) <= (
                    self.spec_max_dims() as int) * (self.spec_max_dims() as int)
                    &&& forall|q: int|
                        is_pot(q) && q * q >= total_padded_area(old(rects)@, self.spec_padding())
                            && q <= self.spec_max_dims() ==> !(#[trigger] first_fit_all(
                            old(rects)@,
                            q,
                            self.spec_padding(),
                            self.spec_can_rotate(),
                        ))
                    &&& final(rects)@.len() == old(rects)@.len()
                    &&& forall|i: int|
                        0 <= i < old(rects)@.len() ==> keeps_shape(
                            #[trigger] final(rects)@[i],
                            old(rects)@[i],
                        )
                },
                Result::Ok(d) => {
                    &&& d[0] == d[1]
                    &&& d[0] >= 1
                    &&& is_pot(d[0] as int)
                    &&& (d[0] as int) * (d[0] as int) >= total_padded_area(
                        old(rects)@,
                        self.spec_padding(),
                    )
                    &&& d[0] <= self.spec_max_dims()
                    &&& first_fit_all(
                        old(rects)@,
                        d[0] as int,
                        self.spec_padding(),
                        self.spec_can_rotate(),
                    )
                    &&& forall|q: int|
                        is_pot(q) && q * q >= total_padded_area(old(rects)@, self.spec_padding())
                            && q < d[0] ==> !(#[trigger] first_fit_all(
                            old(rects)@,
                            q,
                            self.spec_padding(),
                            self.spec_can_rotate(),
                        ))
                    &&& !any_oversize(old(rects)@, self.spec_padding(), self.spec_max_dims() as int)
                    &&& total_padded_area(old(rects)@, self.spec_padding()) <= (
                    self.spec_max_dims() as int) * (self.spec_max_dims() as int)
                    &&& final(rects)@.len() == old(rects)@.len()
                    &&& forall|i: int|
                        0 <= i < old(rects)@.len() ==> keeps_shape(
                            #[trigger] final(rects)@[i],
                            old(rects)@[i],
                        )
                    &&& forall|i: int|
                        0 <= i < old(rects)@.len() ==> box_in_canvas(
                            pad_box(#[trigger] final(rects)@[i], self.spec_padding()),
                            d[0] as int,
                        )
                    &&& forall|i: int, j: int|
                        0 <= i < j < old(rects)@.len() ==> box_disjoint(
                            pad_box(#[trigger] final(rects)@[i], self.spec_padding()),
                            pad_box(#[trigger] final(rects)@[j], self.spec_padding()),
                        )
                    &&& forall|i: int|
                        0 <= i < old(rects)@.len() ==> (#[trigger] final(rects)@[i].rotated
                            ==> self.spec_can_rotate())
                },
            },
    {
        let n = rects.len();
        let max64 = self.max_dims as u64;
        let mut total: u128 = 0;
        let mut i: usize = 0;
        // Check every rectangle against the bounds and sum the padded areas.
        while i < n
            invariant
                i <= n,
                n == rects@.len(),
                rects@ == old(rects)@,
                max64 == self.spec_max_dims() as u64,
                forall|k: int|
                    0 <= k < i ==> !oversize(
                        #[trigger] rects@[k],
                        self.spec_padding(),
                        self.spec_max_dims() as int,
                    ),
                total == total_padded_area(rects@.take(i as int), self.spec_padding()),
                total <= (i as int) * 0xFFFF_FFFE_0000_0001,
            decreases n - i,
        {
            let pw = rects[i].size[0] as u64 + 2 * (self.padding[0] as u64);
            let ph = rects[i].size[1] as u64 + 2 * (self.padding[1] as u64);
            if pw > max64 || ph > max64 {
                proof {
                    assert(oversize(rects@[i as int], self.spec_padding(),
                    self.spec_max_dims() as int));
                }
                return Err(SolverError::ImageIsTooBig);
            }
            proof {
                lemma_mul_upper_bound(pw as int, 0xFFFF_FFFFint, ph as int, 0xFFFF_FFFFint);
                lemma_mul_inequality(i as int, 0xFFFF_FFFF_FFFF_FFFFint, 0xFFFF_FFFE_0000_0001);
            }
            let term: u128 = pw as u128 * ph as u128;
            proof {
                assert(rects@.take(i as int + 1).drop_last() =~= rects@.take(i as int));
                assert(rects@.take(i as int + 1).last() == rects@[i as int]);
            }
            total = total + term;
            i = i + 1;
        }
        proof {
            assert(rects@.take(n as int) =~= rects@);
        }
        proof {
            lemma_mul_upper_bound(
                self.spec_max_dims() as int,
                0xFFFF_FFFFint,
                self.spec_max_dims() as int,
                0xFFFF_FFFFint,
            );
        }
        let given_area: u128 = (self.max_dims as u128) * (self.max_dims as u128);
        if total > given_area {
            return Err(SolverError::AreaIsTooBig);
        }
        // Smallest exponent whose power-of-two canvas can hold the total area.
        let mut e: u32 = 0;
        let mut v: u128 = 1;
        proof {
            lemma2_to64();
        }
        while v < total
            invariant
                v == pow2((2 * e) as nat),
                e > 0 ==> pow2((2 * (e - 1)) as nat) < total,
                e <= 32,
                total <= 0xFFFF_FFFE_0000_0001,
            decreases 33 - e,
        {
            proof {
                lemma2_to64();
                if 2 * e >= 64 {
                    if 2 * e > 64 {
                        lemma_pow2_strictly_increases(64, (2 * e) as nat);
                    }
                    assert(false);
                }
                lemma_pow2_adds((2 * e) as nat, 2);
            }
            v = v * 4;
            e = e + 1;
        }
        proof {
            assert forall|k: int| 0 <= k < old(rects)@.len() implies !oversize(
                #[trigger] old(rects)@[k],
                self.spec_padding(),
                self.spec_max_dims() as int,
            ) by {
                assert(!oversize(rects@[k], self.spec_padding(), self.spec_max_dims() as int));
            }
        }
        // Candidate dimensions are powers of two and never exceed the
        // configured bounds; with bounds of zero there is no candidate.
        if self.max_dims == 0 {
            proof {
                assert forall|q: int|
                    is_pot(q) && q * q >= total_padded_area(old(rects)@, self.spec_padding()) && q
                        <= self.spec_max_dims() implies !first_fit_all(
                    old(rects)@,
                    q,
                    self.spec_padding(),
                    self.spec_can_rotate(),
                ) by {
                    let qe = choose|qe2: nat| q == pow2(qe2);
                    lemma_pow2_pos(qe);
                    assert(false);
                }
            }
            return Err(SolverError::CannotFitOnOnePage(0));
        }
        let max_e = crate::utils::next_pot_exp(self.max_dims);
        let cap: u32;
        if max_e > 31 {
            cap = 31;
            proof {
                lemma2_to64();
                if max_e - 1 > 31 {
                    lemma_pow2_strictly_increases(31, (max_e - 1) as nat);
                }
                assert(pow2(cap as nat) <= self.spec_max_dims());
            }
        } else {
            let pm = pow2_u32(max_e);
            if pm == self.max_dims {
                cap = max_e;
                proof {
                    lemma_pow2_unfold((cap + 1) as nat);
                    assert(pow2(cap as nat) <= self.spec_max_dims());
                    assert(cap == 31 || pow2((cap + 1) as nat) > self.spec_max_dims());
                }
            } else {
                proof {
                    lemma2_to64();
                    if max_e == 0 {
                        assert(false);
                    }
                }
                cap = max_e - 1;
                proof {
                    assert(pow2(cap as nat) <= self.spec_max_dims());
                    assert(cap == 31 || pow2((cap + 1) as nat) > self.spec_max_dims());
                }
            }
        }
        let mut p = e;
        while p <= cap
            invariant
                e <= p,
                cap <= 31,
                v == pow2((2 * e) as nat),
                v >= total,
                e > 0 ==> pow2((2 * (e - 1)) as nat) < total,
                total == total_padded_area(old(rects)@, self.spec_padding()),
                total <= (self.spec_max_dims() as int) * (self.spec_max_dims() as int),
                !any_oversize(old(rects)@, self.spec_padding(), self.spec_max_dims() as int),
                pow2(cap as nat) <= self.spec_max_dims(),
                forall|p2: nat|
                    e <= p2 < p ==> !(#[trigger] first_fit_all(
                        old(rects)@,
                        pow2(p2) as int,
                        self.spec_padding(),
                        self.spec_can_rotate(),
                    )),
                rects@.len() == old(rects)@.len(),
                forall|i: int|
                    0 <= i < old(rects)@.len() ==> keeps_shape(
                        #[trigger] rects@[i],
                        old(rects)@[i],
                    ),
                forall|i: int|
                    0 <= i < old(rects)@.len() ==> (#[trigger] rects@[i].rotated
                        ==> self.spec_can_rotate()),
            decreases cap + 1 - p,
        {
            let dim = pow2_u32(p);
            let ghost before = rects@;
            let placed = solve_for(dim, self.padding, self.can_rotate, rects);
            proof {
                // The model does not depend on the leftovers of earlier
                // attempts: nominal sizes are preserved.
                assert forall|i: int| 0 <= i < before.len() implies #[trigger] nominal_sizes(
                    before,
                )[i] == nominal_sizes(old(rects)@)[i] by {
                    assert(keeps_shape(before[i], old(rects)@[i]));
                }
                assert(nominal_sizes(before) =~= nominal_sizes(old(rects)@));
                assert(placed == first_fit_all(
                    old(rects)@,
                    dim as int,
                    self.spec_padding(),
                    self.spec_can_rotate(),
                ));
            }
            if placed {
                proof {
                    lemma2_to64();
                    lemma_pow2_adds(p as nat, p as nat);
                    if e < p {
                        lemma_pow2_strictly_increases((2 * e) as nat, (2 * p) as nat);
                    }
                    // The candidate dimension stays within the bounds.
                    if p < cap {
                        lemma_pow2_strictly_increases(p as nat, cap as nat);
                    }
                    assert(dim <= self.spec_max_dims());
                    assert(is_pot(dim as int)) by {
                        assert(dim as int == pow2(p as nat));
                    }
                    // Every smaller candidate was tried and failed.
                    assert forall|q: int|
                        is_pot(q) && q * q >= total_padded_area(old(rects)@, self.spec_padding())
                            && q < dim as int implies !first_fit_all(
                        old(rects)@,
                        q,
                        self.spec_padding(),
                        self.spec_can_rotate(),
                    ) by {
                        let qe = choose|qe2: nat| q == pow2(qe2);
                        lemma_pow2_adds(qe, qe);
                        if qe < e {
                            if 2 * qe < 2 * (e - 1) {
                                lemma_pow2_strictly_increases((2 * qe) as nat, (2 * (e - 1)) as nat);
                            }
                            assert(false);
                        }
                        if qe >= p {
                            if qe > p {
                                lemma_pow2_strictly_increases(p as nat, qe);
                            }
                            assert(false);
                        }
                        assert(!first_fit_all(
                            old(rects)@,
                            pow2(qe) as int,
                            self.spec_padding(),
                            self.spec_can_rotate(),
                        ));
                    }
                }
                return Ok([dim, dim]);
            }
            p = p + 1;
        }
        proof {
            lemma2_to64();
            assert forall|q: int|
                is_pot(q) && q * q >= total_padded_area(old(rects)@, self.spec_padding()) && q
                    <= self.spec_max_dims() implies !first_fit_all(
                old(rects)@,
                q,
                self.spec_padding(),
                self.spec_can_rotate(),
            ) by {
                let qe = choose|qe2: nat| q == pow2(qe2);
                lemma_pow2_pos(qe);
                lemma_pow2_adds(qe, qe);
                if qe < e {
                    if 2 * qe < 2 * (e - 1) {
                        lemma_pow2_strictly_increases((2 * qe) as nat, (2 * (e - 1)) as nat);
                    }
                    assert(false);
                }
                if qe > cap {
                    if cap == 31 {
                        if qe > 32 {
                            lemma_pow2_strictly_increases(32, qe);
                        }
                        assert(q >= pow2(32));
                        assert(false);
                    } else {
                        if qe > cap + 1 {
                            lemma_pow2_strictly_increases((cap + 1) as nat, qe);
                        }
                        assert(q >= pow2((cap + 1) as nat));
                        assert(false);
                    }
                }
                assert(!first_fit_all(
                    old(rects)@,
                    pow2(qe) as int,
                    self.spec_padding(),
                    self.spec_can_rotate(),
                ));
            }
        }
        Err(SolverError::CannotFitOnOnePage(0))
    }
}

} // verus!

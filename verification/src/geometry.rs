//! Scaling geometry of the two thumbnail tiers: fitting a source to a
//! longest-edge target, halving the large tier to derive the normal tier,
//! and the effect of orientation correction on dimensions.
use vstd::prelude::*;

use vstd::arithmetic::div_mod::lemma_div_multiples_vanish_fancy;
use vstd::arithmetic::mul::lemma_mul_inequality;

verus! {

/// Longest-edge size of the large tier, in pixels.
pub const LARGE_EDGE: u32 = 256;

/// Longest-edge size of the normal tier, in pixels.
pub const NORMAL_EDGE: u32 = 128;

/// The two fixed thumbnail tiers. The set is closed because deriving the
/// normal tier from the large one by a fixed half scale depends on their
/// exact two-to-one relationship.
#[derive(Clone, Copy, Debug, PartialEq, Eq, Structural)]
pub enum Tier {
    Normal,
    Large,
}

impl Tier {
    /// The tier's longest-edge size, in pixels.
    pub open spec fn edge_spec(&self) -> u32 {
        match self {
            Tier::Normal => 128,
            Tier::Large => 256,
        }
    }

    /// Returns the tier's longest-edge size.
    pub fn edge(&self) -> (r: u32)
        ensures
            r == self.edge_spec(),
    {
        match self {
            Tier::Normal => NORMAL_EDGE,
            Tier::Large => LARGE_EDGE,
        }
    }
}

/// The scaled length of one side when the source's longest side `longest`
/// is mapped to `target`: rounded to nearest, never below one pixel.
pub open spec fn scaled_side(side: nat, target: nat, longest: nat) -> nat
    recommends
        longest > 0,
{
    let q = (side * target + longest / 2) / longest;
    if q < 1 {
        1
    } else {
        q
    }
}

/// The dimensions of a thumbnail of a `w` by `h` source whose longest
/// edge is resampled to `target`, keeping the aspect ratio.
pub open spec fn fit_dims(w: nat, h: nat, target: nat) -> (nat, nat)
    recommends
        w > 0,
        h > 0,
        target > 0,
{
    if w >= h {
        (target, scaled_side(h, target, w))
    } else {
        (scaled_side(w, target, h), target)
    }
}

/// One halved side of the normal tier: half of the large side, rounded
/// up, never below one pixel.
pub open spec fn half_dim(n: nat) -> nat {
    let q = (n + 1) / 2;
    if q < 1 {
        1
    } else {
        q
    }
}

/// The dimensions of the normal tier derived from large-tier dimensions
/// by the fixed one-half scale factor.
pub open spec fn half_dims(w: nat, h: nat) -> (nat, nat) {
    (half_dim(w), half_dim(h))
}

/// The dimensions of a frame after orientation correction: a quarter turn
/// either way swaps them; anything else, including the unknown-orientation
/// sentinel, leaves them unchanged.
pub open spec fn oriented_dims(w: nat, h: nat, rotation: i32) -> (nat, nat) {
    if rotation == 90 || rotation == 270 {
        (h, w)
    } else {
        (w, h)
    }
}

proof fn lemma_scaled_side_le_target(side: nat, target: nat, longest: nat)
    requires
        longest >= 1,
        target >= 1,
        side <= longest,
    ensures
        1 <= scaled_side(side, target, longest) <= target,
{
    let a = side * target + longest / 2;
    assert(side * target <= longest * target) by {
        lemma_mul_inequality(side as int, longest as int, target as int);
    }
    assert(longest / 2 < longest);
    if a / longest >= target + 1 {
        assert(a >= longest * (a / longest)) by {
            vstd::arithmetic::div_mod::lemma_fundamental_div_mod(a as int, longest as int);
            vstd::arithmetic::div_mod::lemma_mod_bound(a as int, longest as int);
        }
        assert(longest * (a / longest) >= longest * (target + 1)) by {
            lemma_mul_inequality((target + 1) as int, a as int / longest as int, longest as int);
        }
        assert(longest * (target + 1) == longest * target + longest) by {
            vstd::arithmetic::mul::lemma_mul_is_distributive_add(
                longest as int,
                target as int,
                1,
            );
        }
        assert(false);
    }
}

/// The fitted dimensions of a non-empty source lie between one pixel and
/// the target edge on both sides.
pub proof fn lemma_fit_dims_bounds(w: nat, h: nat, target: nat)
    requires
        w > 0,
        h > 0,
        target > 0,
    ensures
        1 <= fit_dims(w, h, target).0 <= target,
        1 <= fit_dims(w, h, target).1 <= target,
{
    if w >= h {
        lemma_scaled_side_le_target(h, target, w);
    } else {
        lemma_scaled_side_le_target(w, target, h);
    }
}

/// Computes `fit_dims`: the longest edge becomes `target`, the other side
/// scales in proportion; both results lie between one pixel and `target`.
pub fn fit_dimensions(w: u32, h: u32, target: u32) -> (r: (u32, u32))
    requires
        w >= 1,
        h >= 1,
        target >= 1,
    ensures
        (r.0 as nat, r.1 as nat) == fit_dims(w as nat, h as nat, target as nat),
        1 <= r.0 <= target,
        1 <= r.1 <= target,
{
    if w >= h {
        let side = scaled(h, target, w);
        proof {
            lemma_scaled_side_le_target(h as nat, target as nat, w as nat);
        }
        (target, side)
    } else {
        let side = scaled(w, target, h);
        proof {
            lemma_scaled_side_le_target(w as nat, target as nat, h as nat);
        }
        (side, target)
    }
}

/// Computes `scaled_side` in 64-bit arithmetic, which cannot overflow.
fn scaled(side: u32, target: u32, longest: u32) -> (r: u32)
    requires
        longest >= 1,
        target >= 1,
        side <= longest,
    ensures
        r as nat == scaled_side(side as nat, target as nat, longest as nat),
{
    proof {
        lemma_scaled_side_le_target(side as nat, target as nat, longest as nat);
    }
    proof {
        assert((side as u64) * (target as u64) <= 0xFFFF_FFFFu64 * 0xFFFF_FFFFu64)
            by (nonlinear_arith)
            requires
                side as u64 <= 0xFFFF_FFFFu64,
                target as u64 <= 0xFFFF_FFFFu64,
        ;
    }
    let num: u64 = (side as u64) * (target as u64) + (longest as u64) / 2;
    let q: u64 = num / (longest as u64);
    if q < 1 {
        1
    } else {
        q as u32
    }
}

/// Computes `half_dim` without overflow.
pub fn half_dimension(n: u32) -> (r: u32)
    ensures
        r as nat == half_dim(n as nat),
        1 <= r,
        n >= 1 ==> r <= n,
{
    let q: u64 = (n as u64 + 1) / 2;
    if q < 1 {
        1
    } else {
        q as u32
    }
}

/// Computes the dimensions of the normal tier derived from a freshly
/// regenerated large tier: exactly half of the large tier's dimensions,
/// rounded per `half_dim`.
pub fn half_dimensions(w: u32, h: u32) -> (r: (u32, u32))
    ensures
        (r.0 as nat, r.1 as nat) == half_dims(w as nat, h as nat),
        r.0 >= 1,
        r.1 >= 1,
{
    (half_dimension(w), half_dimension(h))
}

/// Swapping a source's width and height swaps its thumbnail dimensions:
/// a quarter-turned frame of the same source yields a thumbnail whose
/// width and height are exchanged.
pub proof fn lemma_fit_dims_swap(w: nat, h: nat, target: nat)
    requires
        w > 0,
        h > 0,
        target > 0,
    ensures
        fit_dims(h, w, target) == (fit_dims(w, h, target).1, fit_dims(w, h, target).0),
{
    if w == h {
        assert(scaled_side(w, target, w) == target) by {
            assert(w * target + w / 2 == w * target + w / 2);
            assert((w * target + w / 2) as int == (w as int) * (target as int) + (w as int) / 2)
                by {
                vstd::arithmetic::mul::lemma_mul_is_commutative(w as int, target as int);
            }
            lemma_div_multiples_vanish_fancy(target as int, (w as int) / 2, w as int);
            assert(((w as int) * (target as int) + (w as int) / 2) / (w as int) == target) by {
                vstd::arithmetic::mul::lemma_mul_is_commutative(w as int, target as int);
            }
        }
    }
}

/// Orientation correction by a quarter turn swaps the dimensions that the
/// tier fitting then works from.
pub proof fn lemma_rotation_swaps_thumbnail(w: nat, h: nat, target: nat)
    requires
        w > 0,
        h > 0,
        target > 0,
    ensures
        ({
            let (rw, rh) = oriented_dims(w, h, 90);
            fit_dims(rw, rh, target) == (fit_dims(w, h, target).1, fit_dims(w, h, target).0)
        }),
{
    lemma_fit_dims_swap(w, h, target);
}

} // verus!

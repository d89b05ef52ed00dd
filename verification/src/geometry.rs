//! Axis-aligned bounding boxes and the half-open overlap test.

use vstd::prelude::*;

verus! {

/// Two boxes overlap when their interiors meet on both axes. The intervals are
/// half-open, so boxes that only touch along an edge or at a corner do not
/// overlap. Stated over mathematical integers, so it holds for every corner
/// and size that fits the machine type.
pub open spec fn overlaps(
    ax: int,
    ay: int,
    aw: int,
    ah: int,
    bx: int,
    by: int,
    bw: int,
    bh: int,
) -> bool {
    ax < bx + bw && ax + aw > bx && ay < by + bh && ay + ah > by
}

/// The overlap test on machine integers. The sums are taken in 64 bits, so no
/// input overflows.
pub fn aabb_overlap(ax: i32, ay: i32, aw: i32, ah: i32, bx: i32, by: i32, bw: i32, bh: i32) -> (r:
    bool)
    ensures
        r == overlaps(
            ax as int,
            ay as int,
            aw as int,
            ah as int,
            bx as int,
            by as int,
            bw as int,
            bh as int,
        ),
{
    let ax: i64 = ax as i64;
    let ay: i64 = ay as i64;
    let aw: i64 = aw as i64;
    let ah: i64 = ah as i64;
    let bx: i64 = bx as i64;
    let by: i64 = by as i64;
    let bw: i64 = bw as i64;
    let bh: i64 = bh as i64;
    ax < bx + bw && ax + aw > bx && ay < by + bh && ay + ah > by
}

/// The test does not depend on the order of its two boxes.
pub proof fn lemma_overlap_symmetric(
    ax: int,
    ay: int,
    aw: int,
    ah: int,
    bx: int,
    by: int,
    bw: int,
    bh: int,
)
    ensures
        overlaps(ax, ay, aw, ah, bx, by, bw, bh) == overlaps(bx, by, bw, bh, ax, ay, aw, ah),
{
}

/// Boxes that share only an edge or a corner do not overlap: as soon as one
/// box ends, on either axis, exactly where the other begins, the test fails.
pub proof fn lemma_touching_is_no_overlap(
    ax: int,
    ay: int,
    aw: int,
    ah: int,
    bx: int,
    by: int,
    bw: int,
    bh: int,
)
    requires
        ax + aw == bx || bx + bw == ax || ay + ah == by || by + bh == ay,
    ensures
        !overlaps(ax, ay, aw, ah, bx, by, bw, bh),
{
}

/// A box with a positive width and height overlaps every box that contains
/// it, and is overlapped by it.
pub proof fn lemma_nested_overlap(
    ax: int,
    ay: int,
    aw: int,
    ah: int,
    bx: int,
    by: int,
    bw: int,
    bh: int,
)
    requires
        bw > 0,
        bh > 0,
        ax <= bx,
        bx + bw <= ax + aw,
        ay <= by,
        by + bh <= ay + ah,
    ensures
        overlaps(ax, ay, aw, ah, bx, by, bw, bh),
        overlaps(bx, by, bw, bh, ax, ay, aw, ah),
{
}

} // verus!

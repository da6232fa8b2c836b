//! Joining the triangle lists of several meshes into one.
use vstd::prelude::*;

verus! {

/// The whole triangles of `indices` (a trailing incomplete triangle is
/// dropped), every index shifted by `base`.
pub open spec fn shifted_triangles(indices: Seq<u32>, base: u32) -> Seq<[u32; 3]> {
    Seq::new(
        indices.len() / 3,
        |t: int|
            [
                (indices[3 * t] + base) as u32,
                (indices[3 * t + 1] + base) as u32,
                (indices[3 * t + 2] + base) as u32,
            ],
    )
}

/// Every index of the whole triangles fits in 32 bits once shifted by `base`.
pub open spec fn shift_fits(indices: Seq<u32>, base: u32) -> bool {
    forall|i: int| 0 <= i < indices.len() / 3 * 3 ==> #[trigger] indices[i] + base <= u32::MAX
}

/// Appends the whole triangles of one mesh's `indices` to `triangles`, every
/// index shifted by `base`, the number of vertices placed before that mesh.
pub fn append_shifted_triangles(triangles: &mut Vec<[u32; 3]>, indices: &[u32], base: u32)
    requires
        shift_fits(indices@, base),
    ensures
        final(triangles)@ == old(triangles)@ + shifted_triangles(indices@, base),
{
    let n = indices.len();
    let count = n / 3;
    let mut t: usize = 0;
    let ghost start = triangles@;
    while t < count
        invariant
            n == indices@.len(),
            count == indices@.len() / 3,
            t <= count,
            shift_fits(indices@, base),
            triangles@ == start + shifted_triangles(indices@, base).take(t as int),
        decreases count - t,
    {
        assert(3 * t + 2 < count * 3) by (nonlinear_arith)
            requires
                t < count,
        ;
        assert(count * 3 <= indices@.len()) by (nonlinear_arith)
            requires
                count == indices@.len() / 3,
        ;
        let a = indices[3 * t];
        let b = indices[3 * t + 1];
        let c = indices[3 * t + 2];
        assert(indices@[3 * t as int] + base <= u32::MAX);
        assert(indices@[3 * t + 1] + base <= u32::MAX);
        assert(indices@[3 * t + 2] + base <= u32::MAX);
        triangles.push([a + base, b + base, c + base]);
        proof {
            assert(shifted_triangles(indices@, base).take(t + 1) =~= shifted_triangles(indices@, base).take(
                t as int,
            ).push(shifted_triangles(indices@, base)[t as int]));
        }
        t = t + 1;
    }
    assert(shifted_triangles(indices@, base).take(count as int) =~= shifted_triangles(indices@, base));
}

/// Joining keeps every whole triangle of a mesh, in order, each of its three
/// corners the mesh's own index moved up by `base`; an incomplete triangle
/// at the end is left out.
pub proof fn law_shifted_corners(indices: Seq<u32>, base: u32)
    requires
        shift_fits(indices, base),
    ensures
        shifted_triangles(indices, base).len() * 3 <= indices.len() < shifted_triangles(indices, base).len()
            * 3 + 3,
        forall|t: int, k: int|
            0 <= t < shifted_triangles(indices, base).len() && 0 <= k < 3 ==> #[trigger] shifted_triangles(
                indices,
                base,
            )[t][k] == indices[3 * t + k] + base,
{
    let n = indices.len() as int;
    assert(n / 3 * 3 <= n < n / 3 * 3 + 3) by (nonlinear_arith)
        requires
            n >= 0,
    ;
    assert forall|t: int, k: int|
        0 <= t < shifted_triangles(indices, base).len() && 0 <= k < 3 implies #[trigger] shifted_triangles(
            indices,
            base,
        )[t][k] == indices[3 * t + k] + base by {
        assert(3 * t + k < n / 3 * 3) by (nonlinear_arith)
            requires
                0 <= t < n / 3,
                0 <= k < 3,
        ;
        assert(indices[3 * t + k] + base <= u32::MAX);
    }
}

} // verus!

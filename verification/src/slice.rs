//! Index lists for line loops and triangle fans.
//!
//! The games draw outlines as line loops and filled shapes as triangle
//! fans. These functions compute the vertex index lists such primitives are
//! built from; an adapter around the rendering library turns a list into a
//! device index buffer.

use vstd::prelude::*;

verus! {

/// The indices of a line loop over `size` vertices: each vertex in order,
/// then back to the first.
pub fn loop_indices(size: u32) -> (r: Vec<u32>)
    ensures
        r@.len() == size + 1,
        forall|k: int| 0 <= k < size ==> r@[k] == k,
        r@[size as int] == 0,
{
    let mut indices: Vec<u32> = Vec::new();
    let mut i: u32 = 0;
    while i < size
        invariant
            i <= size,
            indices@.len() == i,
            forall|k: int| 0 <= k < i ==> indices@[k] == k,
        decreases size - i,
    {
        indices.push(i);
        i += 1;
    }
    indices.push(0);
    indices
}

/// The indices of a line loop over the given vertex indices: each in order,
/// then back to the first.
pub fn loop_indices_with(data: &[u16]) -> (r: Vec<u16>)
    requires
        data@.len() >= 1,
    ensures
        r@.len() == data@.len() + 1,
        forall|k: int| 0 <= k < data@.len() ==> r@[k] == data@[k],
        r@[data@.len() as int] == data@[0],
{
    let first = data[0];
    let mut indices: Vec<u16> = Vec::new();
    let mut i: usize = 0;
    while i < data.len()
        invariant
            i <= data@.len(),
            indices@.len() == i,
            forall|k: int| 0 <= k < i ==> indices@[k] == data@[k],
        decreases data@.len() - i,
    {
        indices.push(data[i]);
        i += 1;
    }
    indices.push(first);
    indices
}

/// The indices of a triangle fan over `size` vertices: one triangle
/// `(0, i, i + 1)` for each vertex `i` between the second and the
/// next-to-last.
pub fn fan_indices(size: u32) -> (r: Vec<u16>)
    requires
        size <= 0x1_0000,
    ensures
        size >= 2 ==> r@.len() == 3 * (size - 2),
        size < 2 ==> r@.len() == 0,
        forall|t: int|
            #![trigger r@[3 * t]]
            0 <= t < size - 2 ==> r@[3 * t] == 0 && r@[3 * t + 1] == t + 1 && r@[3 * t + 2] == t
                + 2,
{
    let mut indices: Vec<u16> = Vec::new();
    if size >= 2 {
        let mut i: u32 = 1;
        while i + 1 < size
            invariant
                size <= 0x1_0000,
                2 <= size,
                1 <= i <= size - 1,
                indices@.len() == 3 * (i - 1),
                forall|t: int|
                    #![trigger indices@[3 * t]]
                    0 <= t < i - 1 ==> indices@[3 * t] == 0 && indices@[3 * t + 1] == t + 1
                        && indices@[3 * t + 2] == t + 2,
            decreases size - i,
        {
            let ghost pre = indices@;
            indices.push(0);
            indices.push(i as u16);
            indices.push((i + 1) as u16);
            proof {
                assert forall|t: int|
                    #![trigger indices@[3 * t]]
                    0 <= t < i implies indices@[3 * t] == 0 && indices@[3 * t + 1] == t + 1
                    && indices@[3 * t + 2] == t + 2 by {
                    if t < i - 1 {
                        assert(pre[3 * t] == 0);
                        assert(indices@[3 * t] == pre[3 * t]);
                        assert(indices@[3 * t + 1] == pre[3 * t + 1]);
                        assert(indices@[3 * t + 2] == pre[3 * t + 2]);
                    } else {
                        assert(3 * t == pre.len());
                    }
                }
            }
            i += 1;
        }
    }
    indices
}

/// The triangle-fan shape of `r` over the vertex indices `data`: one
/// triangle `(data[0], data[t + 1], data[t + 2])` per position, in order.
pub open spec fn is_fan_of(r: Seq<u16>, data: Seq<u16>) -> bool {
    &&& data.len() >= 2 ==> r.len() == 3 * (data.len() - 2)
    &&& data.len() < 2 ==> r.len() == 0
    &&& forall|t: int|
        #![trigger r[3 * t]]
        0 <= t < data.len() - 2 ==> r[3 * t] == data[0] && r[3 * t + 1] == data[t + 1] && r[3 * t
            + 2] == data[t + 2]
}

/// The indices of a triangle fan over the given vertex indices: one triangle
/// `(data[0], data[i], data[i + 1])` for each position `i` between the
/// second and the next-to-last.
pub fn fan_indices_with(data: &[u16]) -> (r: Vec<u16>)
    requires
        data@.len() >= 1,
    ensures
        is_fan_of(r@, data@),
{
    let size = data.len();
    let mut indices: Vec<u16> = Vec::new();
    if size >= 2 {
        let first = data[0];
        let mut i: usize = 1;
        while i + 1 < size
            invariant
                2 <= size == data@.len(),
                1 <= i <= size - 1,
                indices@.len() == 3 * (i - 1),
                forall|t: int|
                    #![trigger indices@[3 * t]]
                    0 <= t < i - 1 ==> indices@[3 * t] == data@[0] && indices@[3 * t + 1]
                        == data@[t + 1] && indices@[3 * t + 2] == data@[t + 2],
                first == data@[0],
            decreases size - i,
        {
            let ghost pre = indices@;
            indices.push(first);
            indices.push(data[i]);
            indices.push(data[i + 1]);
            proof {
                assert forall|t: int|
                    #![trigger indices@[3 * t]]
                    0 <= t < i implies indices@[3 * t] == data@[0] && indices@[3 * t + 1]
                    == data@[t + 1] && indices@[3 * t + 2] == data@[t + 2] by {
                    if t < i - 1 {
                        assert(pre[3 * t] == data@[0]);
                        assert(indices@[3 * t] == pre[3 * t]);
                        assert(indices@[3 * t + 1] == pre[3 * t + 1]);
                        assert(indices@[3 * t + 2] == pre[3 * t + 2]);
                    } else {
                        assert(3 * t == pre.len());
                    }
                }
            }
            i += 1;
        }
        proof {
            assert forall|t: int|
                #![trigger indices@[3 * t]]
                0 <= t < data@.len() - 2 implies indices@[3 * t] == data@[0] && indices@[3 * t
                + 1] == data@[t + 1] && indices@[3 * t + 2] == data@[t + 2] by {
                assert(t < i - 1);
            }
        }
    }
    proof {
        assert(is_fan_of(indices@, data@));
    }
    indices
}

} // verus!

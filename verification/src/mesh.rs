//! Counting and numbering the vertices of a mesh.
//!
//! A model comes as flat lists: three numbers per position, three per
//! normal, two per texture coordinate, and a list of indices into its
//! vertices. Several models become one mesh by laying their vertices end to
//! end and shifting each model's indices past the vertices before it.

use vstd::prelude::*;

verus! {

/// How many chunks of `size` a list of `len` items falls into, a short last
/// chunk counted.
pub open spec fn chunk_count(len: int, size: int) -> int {
    (len + size - 1) / size
}

pub open spec fn min2(a: int, b: int) -> int {
    if a <= b {
        a
    } else {
        b
    }
}

/// How many vertices the three lists of a model give: as many as the
/// shortest list has chunks, provided that each of those chunks is whole.
pub open spec fn vertex_count_spec(positions: int, normals: int, texcoords: int) -> Option<int> {
    let n = min2(
        min2(chunk_count(positions, 3), chunk_count(normals, 3)),
        chunk_count(texcoords, 2),
    );
    if 3 * n <= positions && 3 * n <= normals && 2 * n <= texcoords {
        Some(n)
    } else {
        None
    }
}

/// Counts the vertices of a model from the lengths of its three lists.
/// Returns `None` where a vertex would be cut short.
pub fn vertex_count(positions: usize, normals: usize, texcoords: usize) -> (r: Option<usize>)
    ensures
        match vertex_count_spec(positions as int, normals as int, texcoords as int) {
            Some(n) => r == Some(n as usize) && n <= usize::MAX,
            None => r is None,
        },
{
    let p: usize = positions / 3 + (if positions % 3 != 0 {
        1
    } else {
        0
    });
    let q: usize = normals / 3 + (if normals % 3 != 0 {
        1
    } else {
        0
    });
    let t: usize = texcoords / 2 + (if texcoords % 2 != 0 {
        1
    } else {
        0
    });
    let mut n: usize = p;
    if q < n {
        n = q;
    }
    if t < n {
        n = t;
    }
    if n <= positions / 3 && n <= normals / 3 && n <= texcoords / 2 {
        Some(n)
    } else {
        None
    }
}

/// What the merge needs of one model: the number of its vertices and its
/// indices.
#[derive(Debug, PartialEq, Eq)]
pub struct ModelGeometry {
    pub vertices: usize,
    pub indices: Vec<u32>,
}

/// The vertices of all the models together.
pub open spec fn total_vertices(models: Seq<ModelGeometry>) -> int
    decreases models.len(),
{
    if models.len() == 0 {
        0
    } else {
        total_vertices(models.drop_last()) + models.last().vertices
    }
}

/// Indices moved up by an offset.
pub open spec fn shifted(indices: Seq<u32>, offset: int) -> Seq<int> {
    Seq::new(indices.len(), |i: int| indices[i] + offset)
}

/// The indices of the merged mesh: each model's indices, moved past the
/// vertices of the models before it, one model after the other.
pub open spec fn merged_indices(models: Seq<ModelGeometry>) -> Seq<int>
    decreases models.len(),
{
    if models.len() == 0 {
        Seq::<int>::empty()
    } else {
        merged_indices(models.drop_last()) + shifted(
            models.last().indices@,
            total_vertices(models.drop_last()),
        )
    }
}

/// Every index fits in thirty-two bits.
pub open spec fn indices_fit(indices: Seq<int>) -> bool {
    forall|i: int| 0 <= i < indices.len() ==> #[trigger] indices[i] <= u32::MAX
}

/// The merged indices of the first models are the first of the merged
/// indices of all.
pub proof fn lemma_merged_prefix(models: Seq<ModelGeometry>, k: int)
    requires
        0 <= k <= models.len(),
    ensures
        merged_indices(models.take(k)).len() <= merged_indices(models).len(),
        forall|i: int|
            0 <= i < merged_indices(models.take(k)).len() ==> #[trigger] merged_indices(
                models.take(k),
            )[i] == merged_indices(models)[i],
    decreases models.len() - k,
{
    if k == models.len() {
        assert(models.take(k) =~= models);
    } else {
        lemma_merged_prefix(models, k + 1);
        assert(models.take(k + 1).drop_last() =~= models.take(k));
        let short = merged_indices(models.take(k));
        let long = merged_indices(models.take(k + 1));
        assert(long == short + shifted(
            models.take(k + 1).last().indices@,
            total_vertices(models.take(k)),
        ));
        assert forall|i: int| 0 <= i < short.len() implies #[trigger] short[i] == merged_indices(
            models,
        )[i] by {
            assert(short[i] == long[i]);
        }
    }
}

/// The vertices of the first models are no more than the vertices of all.
pub proof fn lemma_total_vertices_grows(models: Seq<ModelGeometry>, k: int)
    requires
        0 <= k <= models.len(),
    ensures
        0 <= total_vertices(models.take(k)) <= total_vertices(models),
    decreases models.len() - k,
{
    if k == models.len() {
        assert(models.take(k) =~= models);
        lemma_total_vertices_nonnegative(models);
    } else {
        lemma_total_vertices_grows(models, k + 1);
        assert(models.take(k + 1).drop_last() =~= models.take(k));
        lemma_total_vertices_nonnegative(models.take(k));
    }
}

proof fn lemma_total_vertices_nonnegative(models: Seq<ModelGeometry>)
    ensures
        0 <= total_vertices(models),
    decreases models.len(),
{
    if models.len() > 0 {
        lemma_total_vertices_nonnegative(models.drop_last());
    }
}

/// Merges the indices of the models into the indices of one mesh. Returns
/// `None` exactly where some index, moved up, no longer fits in thirty-two
/// bits.
pub fn merge_indices(models: &Vec<ModelGeometry>) -> (r: Option<Vec<u32>>)
    ensures
        indices_fit(merged_indices(models@)) <==> r is Some,
        r matches Some(out) ==> {
            &&& out@.len() == merged_indices(models@).len()
            &&& forall|i: int| 0 <= i < out@.len() ==> #[trigger] out@[i] == merged_indices(models@)[i]
        },
{
    let mut out: Vec<u32> = Vec::new();
    let mut offset: u32 = 0;
    let mut beyond: bool = false;
    let n = models.len();
    let mut k: usize = 0;
    while k < n
        invariant
            k <= n,
            n == models@.len(),
            out@.len() == merged_indices(models@.take(k as int)).len(),
            forall|i: int|
                0 <= i < out@.len() ==> #[trigger] out@[i] == merged_indices(
                    models@.take(k as int),
                )[i],
            !beyond ==> offset == total_vertices(models@.take(k as int)),
            beyond ==> total_vertices(models@.take(k as int)) > u32::MAX,
        decreases n - k,
    {
        let model = &models[k];
        let ghost before = models@.take(k as int);
        let ghost base = total_vertices(before);
        let ghost start = out@;
        proof {
            assert(models@.take(k + 1).drop_last() =~= before);
            assert(models@.take(k + 1).last() == models@[k as int]);
            lemma_total_vertices_grows(models@, k as int);
        }
        let m = model.indices.len();
        let mut j: usize = 0;
        while j < m
            invariant
                j <= m,
                m == model.indices@.len(),
                out@.len() == start.len() + j,
                forall|i: int| 0 <= i < start.len() ==> #[trigger] out@[i] == start[i],
                forall|i: int|
                    0 <= i < j ==> #[trigger] out@[start.len() + i] == model.indices@[i] + base,
                !beyond ==> offset == base,
                beyond ==> base > u32::MAX,
                base >= 0,
                start.len() == merged_indices(before).len(),
                before == models@.take(k as int),
                base == total_vertices(before),
                *model == models@[k as int],
                k < n,
                n == models@.len(),
            decreases m - j,
        {
            let index = model.indices[j];
            if beyond || index > u32::MAX - offset {
                proof {
                    let part = merged_indices(models@.take(k + 1));
                    let at = start.len() + j;
                    assert(models@.take(k + 1).drop_last() =~= before);
                    assert(models@.take(k + 1).last() == models@[k as int]);
                    assert(part[at] == shifted(model.indices@, base)[j as int]);
                    assert(part[at] > u32::MAX);
                    lemma_merged_prefix(models@, k + 1);
                    assert(merged_indices(models@)[at] == part[at]);
                }
                return None;
            }
            out.push(index + offset);
            j += 1;
        }
        proof {
            let part = merged_indices(models@.take(k + 1));
            assert(part =~= merged_indices(before) + shifted(model.indices@, base));
            assert forall|i: int| 0 <= i < out@.len() implies #[trigger] out@[i] == part[i] by {
                if i >= start.len() {
                    assert(out@[start.len() + (i - start.len())] == model.indices@[i - start.len()]
                        + base);
                }
            }
        }
        if !beyond {
            if model.vertices > (u32::MAX - offset) as usize {
                beyond = true;
            } else {
                offset = offset + model.vertices as u32;
            }
        }
        k += 1;
    }
    proof {
        assert(models@.take(n as int) =~= models@);
        assert forall|i: int| 0 <= i < merged_indices(models@).len() implies #[trigger] merged_indices(
            models@,
        )[i] <= u32::MAX by {
            assert(out@[i] == merged_indices(models@)[i]);
        }
    }
    Some(out)
}

} // verus!

//! Packing one imported mesh into its serialized record.
use vstd::prelude::*;
use crate::transform::{ImporterMatrix, ONE_BITS};

verus! {

/// One (vertex, weight) influence of a skin bone; `weight` is a bit pattern.
#[derive(Clone, Copy, Debug, PartialEq, Eq)]
pub struct VertexWeight {
    pub vertex_id: u32,
    pub weight: u32,
}

/// A skin bone of an imported mesh.
#[derive(Clone, Debug)]
pub struct ImportedBone {
    pub name: String,
    pub offset_matrix: ImporterMatrix,
    pub weights: Vec<VertexWeight>,
}

/// A mesh as the importer hands it over. Coordinates are bit patterns.
#[derive(Clone, Debug)]
pub struct ImportedMesh {
    pub vertices: Vec<[u32; 3]>,
    pub normals: Vec<[u32; 3]>,
    /// UV channels, each optional; only channel 0 is used.
    pub texture_coords: Vec<Option<Vec<[u32; 3]>>>,
    pub faces: Vec<Vec<u32>>,
    pub bones: Vec<ImportedBone>,
    pub material_index: u32,
    pub aabb_min: [u32; 3],
    pub aabb_max: [u32; 3],
    /// `aabb_max - aabb_min` per axis (float arithmetic, done by the caller).
    pub aabb_size: [u32; 3],
}

/// The serialized form of one mesh. Floats are bit patterns.
#[derive(Clone, Debug)]
pub struct SerializedMesh {
    pub positions: Vec<[u32; 3]>,
    pub normals: Vec<[u32; 3]>,
    pub uvs: Vec<[u32; 2]>,
    pub indices: Vec<u32>,
    pub material_index: u32,
    pub min_extents: [u32; 3],
    pub max_extents: [u32; 3],
    pub dimensions: [u32; 3],
    pub scale: [u32; 3],
    pub rotation: [u32; 4],
    pub translation: [u32; 3],
    pub bone_indices: Vec<[u32; 4]>,
    pub bone_weights: Vec<[u32; 4]>,
    /// Mesh-local bone list: slot indices point into it until remapping.
    pub bone_names: Vec<String>,
}

/// A weight slot is free while it holds `0.0` or `-0.0`.
pub open spec fn is_free(w: u32) -> bool {
    w == 0 || w == 0x8000_0000
}

/// The first free slot among the four, or 4 when all are taken.
pub open spec fn first_free(w: Seq<u32>) -> int {
    if is_free(w[0]) {
        0
    } else if is_free(w[1]) {
        1
    } else if is_free(w[2]) {
        2
    } else if is_free(w[3]) {
        3
    } else {
        4
    }
}

/// One influence `(local bone index, vertex id, weight)` in processing order.
pub type Influence = (u32, u32, u32);

/// Per-vertex slot contents: bone indices and weights, four of each.
pub type Slots = (Seq<Seq<u32>>, Seq<Seq<u32>>);

/// Writes one influence into the first free slot of its vertex; dropped when
/// all four are taken.
pub open spec fn place(s: Slots, inf: Influence) -> Slots {
    let v = inf.1 as int;
    let k = first_free(s.1[v]);
    if k < 4 {
        (s.0.update(v, s.0[v].update(k, inf.0)), s.1.update(v, s.1[v].update(k, inf.2)))
    } else {
        s
    }
}

/// The slots of `n` vertices after processing `infs` in order from all-zero slots.
pub open spec fn fill_slots(n: nat, infs: Seq<Influence>) -> Slots
    decreases infs.len(),
{
    if infs.len() == 0 {
        (Seq::new(n, |i: int| seq![0u32, 0, 0, 0]), Seq::new(n, |i: int| seq![0u32, 0, 0, 0]))
    } else {
        place(fill_slots(n, infs.drop_last()), infs.last())
    }
}

/// The influences of the first `k` bones, bone by bone, each in listed order.
pub open spec fn influences(bones: Seq<ImportedBone>, k: int) -> Seq<Influence>
    decreases k,
{
    if k <= 0 {
        Seq::empty()
    } else {
        influences(bones, k - 1) + bones[k - 1].weights@.map_values(
            |w: VertexWeight| ((k - 1) as u32, w.vertex_id, w.weight),
        )
    }
}

pub open spec fn slot_views(v: Seq<[u32; 4]>) -> Seq<Seq<u32>> {
    v.map_values(|a: [u32; 4]| a@)
}

/// The influences on vertex `v`, in processing order.
pub open spec fn on_vertex(infs: Seq<Influence>, v: int) -> Seq<Influence>
    decreases infs.len(),
{
    if infs.len() == 0 {
        Seq::empty()
    } else {
        let p = on_vertex(infs.drop_last(), v);
        if infs.last().1 as int == v {
            p.push(infs.last())
        } else {
            p
        }
    }
}

/// Four slots holding the first four of `ks` (bone index or weight, by `weight`), zero-padded.
pub open spec fn first_four(ks: Seq<Influence>, weight: bool) -> Seq<u32> {
    Seq::new(4, |k: int| if k < ks.len() { if weight { ks[k].2 } else { ks[k].0 } } else { 0u32 })
}

/// Every influence carries a nonzero weight and names a vertex below `n`.
pub open spec fn all_weighted(infs: Seq<Influence>, n: nat) -> bool {
    forall|j: int| 0 <= j < infs.len() ==> !is_free((#[trigger] infs[j]).2) && infs[j].1 < n
}

proof fn lemma_on_vertex_weighted(infs: Seq<Influence>, v: int, n: nat)
    requires
        all_weighted(infs, n),
    ensures
        all_weighted(on_vertex(infs, v), n),
    decreases infs.len(),
{
    if infs.len() > 0 {
        let prev = infs.drop_last();
        assert forall|j: int| 0 <= j < prev.len() implies !is_free((#[trigger] prev[j]).2) && prev[j].1 < n by {
            assert(prev[j] == infs[j]);
        }
        lemma_on_vertex_weighted(prev, v, n);
        assert(infs.last() == infs[infs.len() - 1]);
    }
}

proof fn lemma_fill_keeps_first_four(n: nat, infs: Seq<Influence>, v: int)
    requires
        all_weighted(infs, n),
        0 <= v < n,
    ensures
        fill_slots(n, infs).0.len() == n,
        fill_slots(n, infs).1.len() == n,
        fill_slots(n, infs).0[v] == first_four(on_vertex(infs, v), false),
        fill_slots(n, infs).1[v] == first_four(on_vertex(infs, v), true),
    decreases infs.len(),
{
    if infs.len() == 0 {
        assert(first_four(on_vertex(infs, v), false) =~= seq![0u32, 0, 0, 0]);
        assert(first_four(on_vertex(infs, v), true) =~= seq![0u32, 0, 0, 0]);
    } else {
        let prev = infs.drop_last();
        let x = infs.last();
        assert(all_weighted(prev, n)) by {
            assert forall|j: int| 0 <= j < prev.len() implies !is_free((#[trigger] prev[j]).2) && prev[j].1 < n by {
                assert(prev[j] == infs[j]);
            }
        }
        lemma_fill_keeps_first_four(n, prev, v);
        lemma_fill_keeps_first_four(n, prev, x.1 as int);
        let p = on_vertex(prev, v);
        lemma_on_vertex_weighted(prev, v, n);
        assert(!is_free(x.2)) by { assert(x == infs[infs.len() - 1]); }
        if x.1 as int == v {
            let w = first_four(p, true);
            if p.len() < 4 {
                assert(forall|j: int| 0 <= j < p.len() ==> w[j] == p[j].2);
                assert(w[p.len() as int] == 0);
                assert(first_free(w) == p.len());
                assert(first_four(p.push(x), false) =~= first_four(p, false).update(p.len() as int, x.0));
                assert(first_four(p.push(x), true) =~= w.update(p.len() as int, x.2));
            } else {
                assert(forall|j: int| 0 <= j < 4 ==> w[j] == p[j].2);
                assert(!is_free(p[0].2) && !is_free(p[1].2) && !is_free(p[2].2) && !is_free(p[3].2));
                assert(first_free(w) == 4);
                assert(first_four(p.push(x), false) =~= first_four(p, false));
                assert(first_four(p.push(x), true) =~= w);
            }
        }
    }
}

/// A vertex keeps its first four influences in slot order, each with its own
/// bone index and weight; a fifth and later ones are dropped. This holds when
/// every influence has a nonzero weight (a zero weight leaves its slot free).
pub proof fn lemma_first_four_influences_kept(r: SerializedMesh, m: ImportedMesh, v: int)
    requires
        packed_from(r, m),
        skin_in_range(m),
        m.bones@.len() > 0,
        0 <= v < m.vertices@.len(),
        forall|b: int, j: int| 0 <= b < m.bones@.len() && 0 <= j < m.bones@[b].weights@.len()
            ==> !is_free((#[trigger] m.bones@[b].weights@[j]).weight),
    ensures
        r.bone_indices@[v]@ == first_four(on_vertex(influences(m.bones@, m.bones@.len() as int), v), false),
        r.bone_weights@[v]@ == first_four(on_vertex(influences(m.bones@, m.bones@.len() as int), v), true),
{
    let n = m.vertices@.len();
    lemma_influences_weighted(m, m.bones@.len() as int);
    lemma_fill_keeps_first_four(n, influences(m.bones@, m.bones@.len() as int), v);
}

proof fn lemma_influences_weighted(m: ImportedMesh, k: int)
    requires
        skin_in_range(m),
        0 <= k <= m.bones@.len(),
        forall|b: int, j: int| 0 <= b < m.bones@.len() && 0 <= j < m.bones@[b].weights@.len()
            ==> !is_free((#[trigger] m.bones@[b].weights@[j]).weight),
    ensures
        all_weighted(influences(m.bones@, k), m.vertices@.len()),
    decreases k,
{
    if k > 0 {
        lemma_influences_weighted(m, k - 1);
        let pre = influences(m.bones@, k - 1);
        let add = m.bones@[k - 1].weights@.map_values(|w: VertexWeight| ((k - 1) as u32, w.vertex_id, w.weight));
        let all = influences(m.bones@, k);
        assert(all == pre + add);
        assert forall|j: int| 0 <= j < all.len() implies !is_free((#[trigger] all[j]).2) && all[j].1 < m.vertices@.len() by {
            if j >= pre.len() {
                assert(all[j] == add[j - pre.len()]);
                assert(m.bones@[k - 1].weights@[j - pre.len()].vertex_id < m.vertices@.len());
            } else {
                assert(all[j] == pre[j]);
            }
        }
    }
}

proof fn lemma_fill_bounded(n: nat, infs: Seq<Influence>, bound: int)
    requires
        bound > 0,
        forall|j: int| 0 <= j < infs.len() ==> (#[trigger] infs[j]).0 < bound && infs[j].1 < n,
    ensures
        fill_slots(n, infs).0.len() == n,
        fill_slots(n, infs).1.len() == n,
        forall|v: int| 0 <= v < n ==> (#[trigger] fill_slots(n, infs).0[v]).len() == 4,
        forall|v: int| 0 <= v < n ==> (#[trigger] fill_slots(n, infs).1[v]).len() == 4,
        forall|v: int, k: int| 0 <= v < n && 0 <= k < 4 ==> (#[trigger] fill_slots(n, infs).0[v][k]) < bound,
    decreases infs.len(),
{
    if infs.len() > 0 {
        let prev = infs.drop_last();
        assert forall|j: int| 0 <= j < prev.len() implies (#[trigger] prev[j]).0 < bound && prev[j].1 < n by {
            assert(prev[j] == infs[j]);
        }
        lemma_fill_bounded(n, prev, bound);
        assert(infs.last() == infs[infs.len() - 1]);
    }
}

proof fn lemma_influences_bounded(m: ImportedMesh, k: int)
    requires
        skin_in_range(m),
        0 <= k <= m.bones@.len(),
    ensures
        forall|j: int| 0 <= j < influences(m.bones@, k).len() ==>
            (#[trigger] influences(m.bones@, k)[j]).0 < m.bones@.len() && influences(m.bones@, k)[j].1 < m.vertices@.len(),
    decreases k,
{
    if k > 0 {
        lemma_influences_bounded(m, k - 1);
        let pre = influences(m.bones@, k - 1);
        let add = m.bones@[k - 1].weights@.map_values(|w: VertexWeight| ((k - 1) as u32, w.vertex_id, w.weight));
        let all = influences(m.bones@, k);
        assert(all == pre + add);
        assert forall|j: int| 0 <= j < all.len() implies (#[trigger] all[j]).0 < m.bones@.len() && all[j].1 < m.vertices@.len() by {
            if j >= pre.len() {
                assert(all[j] == add[j - pre.len()]);
                assert(m.bones@[k - 1].weights@[j - pre.len()].vertex_id < m.vertices@.len());
            } else {
                assert(all[j] == pre[j]);
            }
        }
    }
}

/// Every bone slot of a packed skinned mesh names one of that mesh's bones.
pub proof fn lemma_packed_slots_bounded(r: SerializedMesh, m: ImportedMesh)
    requires
        packed_from(r, m),
        skin_in_range(m),
    ensures
        forall|v: int, k: int| 0 <= v < r.bone_indices@.len() && 0 <= k < 4
            ==> (#[trigger] r.bone_indices@[v][k]) < m.bones@.len(),
{
    if m.bones@.len() > 0 {
        let n = m.vertices@.len();
        let infs = influences(m.bones@, m.bones@.len() as int);
        lemma_influences_bounded(m, m.bones@.len() as int);
        lemma_fill_bounded(n, infs, m.bones@.len() as int);
        assert forall|v: int, k: int| 0 <= v < r.bone_indices@.len() && 0 <= k < 4
            implies (#[trigger] r.bone_indices@[v][k]) < m.bones@.len() by {
            assert(slot_views(r.bone_indices@)[v] == r.bone_indices@[v]@);
            assert(fill_slots(n, infs).0[v][k] < m.bones@.len());
        }
    }
}

/// Every influence names an existing vertex, and the bone count fits a slot index.
pub open spec fn skin_in_range(m: ImportedMesh) -> bool {
    &&& m.bones@.len() <= u32::MAX
    &&& forall|b: int, j: int|
        0 <= b < m.bones@.len() && 0 <= j < m.bones@[b].weights@.len()
            ==> (#[trigger] m.bones@[b].weights@[j]).vertex_id < m.vertices@.len()
}

/// Fills the per-vertex slots from every bone's influences, as `fill_slots` says.
fn fill_skin(bones: &Vec<ImportedBone>, n: usize) -> (r: (Vec<[u32; 4]>, Vec<[u32; 4]>))
    requires
        bones@.len() <= u32::MAX,
        forall|b: int, j: int|
            0 <= b < bones@.len() && 0 <= j < bones@[b].weights@.len()
                ==> (#[trigger] bones@[b].weights@[j]).vertex_id < n,
    ensures
        (slot_views(r.0@), slot_views(r.1@)) == fill_slots(n as nat, influences(bones@, bones@.len() as int)),
        r.0@.len() == n,
        r.1@.len() == n,
{
    let mut idx: Vec<[u32; 4]> = Vec::new();
    let mut wts: Vec<[u32; 4]> = Vec::new();
    let mut i: usize = 0;
    while i < n
        invariant
            i <= n,
            idx@.len() == i,
            wts@.len() == i,
            forall|k: int| 0 <= k < i ==> (#[trigger] idx@[k])@ == seq![0u32, 0, 0, 0],
            forall|k: int| 0 <= k < i ==> (#[trigger] wts@[k])@ == seq![0u32, 0, 0, 0],
        decreases n - i,
    {
        idx.push([0u32; 4]);
        wts.push([0u32; 4]);
        proof {
            assert(idx@[i as int]@ =~= seq![0u32, 0, 0, 0]);
            assert(wts@[i as int]@ =~= seq![0u32, 0, 0, 0]);
        }
        i = i + 1;
    }
    let ghost stream: Seq<Influence> = Seq::empty();
    assert((slot_views(idx@), slot_views(wts@)) == fill_slots(n as nat, stream)) by {
        assert(slot_views(idx@) =~= Seq::new(n as nat, |i: int| seq![0u32, 0, 0, 0]));
        assert(slot_views(wts@) =~= Seq::new(n as nat, |i: int| seq![0u32, 0, 0, 0]));
    }
    let mut b: usize = 0;
    while b < bones.len()
        invariant
            b <= bones@.len(),
            bones@.len() <= u32::MAX,
            forall|bb: int, j: int|
                0 <= bb < bones@.len() && 0 <= j < bones@[bb].weights@.len()
                    ==> (#[trigger] bones@[bb].weights@[j]).vertex_id < n,
            stream == influences(bones@, b as int),
            idx@.len() == n,
            wts@.len() == n,
            (slot_views(idx@), slot_views(wts@)) == fill_slots(n as nat, stream),
        decreases bones@.len() - b,
    {
        let bone = &bones[b];
        let mut j: usize = 0;
        while j < bone.weights.len()
            invariant
                j <= bone.weights@.len(),
                b < bones@.len(),
                bones@.len() <= u32::MAX,
                *bone == bones@[b as int],
                forall|jj: int| 0 <= jj < bone.weights@.len()
                    ==> (#[trigger] bone.weights@[jj]).vertex_id < n,
                stream == influences(bones@, b as int) + bone.weights@.take(j as int).map_values(
                    |w: VertexWeight| (b as u32, w.vertex_id, w.weight),
                ),
                idx@.len() == n,
                wts@.len() == n,
                (slot_views(idx@), slot_views(wts@)) == fill_slots(n as nat, stream),
            decreases bone.weights@.len() - j,
        {
            let w = bone.weights[j];
            let v = w.vertex_id as usize;
            let ghost before: Slots = (slot_views(idx@), slot_views(wts@));
            let ghost inf: Influence = (b as u32, w.vertex_id, w.weight);
            let mut slot_w = wts[v];
            let mut slot_i = idx[v];
            let mut k: usize = 4;
            if slot_w[0] == 0 || slot_w[0] == 0x8000_0000 {
                k = 0;
            } else if slot_w[1] == 0 || slot_w[1] == 0x8000_0000 {
                k = 1;
            } else if slot_w[2] == 0 || slot_w[2] == 0x8000_0000 {
                k = 2;
            } else if slot_w[3] == 0 || slot_w[3] == 0x8000_0000 {
                k = 3;
            }
            assert(k == first_free(before.1[v as int]));
            if k < 4 {
                slot_w[k] = w.weight;
                slot_i[k] = b as u32;
                wts.set(v, slot_w);
                idx.set(v, slot_i);
            }
            proof {
                let after = place(before, inf);
                assert(slot_views(idx@) =~= after.0);
                assert(slot_views(wts@) =~= after.1);
                let s2 = stream.push(inf);
                assert(s2.drop_last() =~= stream);
                assert(bone.weights@.take(j + 1).map_values(
                    |w: VertexWeight| (b as u32, w.vertex_id, w.weight),
                ) =~= bone.weights@.take(j as int).map_values(
                    |w: VertexWeight| (b as u32, w.vertex_id, w.weight),
                ).push(inf));
                stream = s2;
            }
            j = j + 1;
        }
        proof {
            assert(bone.weights@.take(j as int) =~= bone.weights@);
            assert(influences(bones@, b + 1) == influences(bones@, b as int) + bones@[b as int].weights@.map_values(
                |w: VertexWeight| (b as u32, w.vertex_id, w.weight),
            ));
        }
        b = b + 1;
    }
    (idx, wts)
}

/// Channel 0 of the UV coordinates flattened to 2D; empty when the channel is absent.
pub open spec fn uv_channel0(m: ImportedMesh) -> Seq<[u32; 2]> {
    if m.texture_coords@.len() > 0 && m.texture_coords@[0] is Some {
        m.texture_coords@[0]->Some_0@.map_values(|t: [u32; 3]| [t[0], t[1]])
    } else {
        Seq::empty()
    }
}

/// Every face's indices, face after face.
pub open spec fn flat_indices(faces: Seq<Vec<u32>>) -> Seq<u32> {
    faces.map_values(|f: Vec<u32>| f@).flatten()
}

/// Scale 1, no rotation (unit quaternion x, y, z, w), no translation.
pub open spec fn has_identity_instance(m: SerializedMesh) -> bool {
    &&& m.scale@ == seq![ONE_BITS, ONE_BITS, ONE_BITS]
    &&& m.rotation@ == seq![0u32, 0, 0, ONE_BITS]
    &&& m.translation@ == seq![0u32, 0, 0]
}

/// What packing gives for `m`: geometry copied, identity instance transform,
/// and skin slots filled from the bones when there are any.
pub open spec fn packed_from(r: SerializedMesh, m: ImportedMesh) -> bool {
    &&& r.positions@ == m.vertices@
    &&& r.normals@ == m.normals@
    &&& r.uvs@ == uv_channel0(m)
    &&& r.indices@ == flat_indices(m.faces@)
    &&& r.material_index == m.material_index
    &&& r.min_extents == m.aabb_min
    &&& r.max_extents == m.aabb_max
    &&& r.dimensions == m.aabb_size
    &&& has_identity_instance(r)
    &&& if m.bones@.len() > 0 {
        &&& r.bone_names@.map_values(|s: String| s@) == m.bones@.map_values(|b: ImportedBone| b.name@)
        &&& r.bone_indices@.len() == m.vertices@.len()
        &&& r.bone_weights@.len() == m.vertices@.len()
        &&& (slot_views(r.bone_indices@), slot_views(r.bone_weights@))
            == fill_slots(m.vertices@.len(), influences(m.bones@, m.bones@.len() as int))
    } else {
        &&& r.bone_names@.len() == 0
        &&& r.bone_indices@.len() == 0
        &&& r.bone_weights@.len() == 0
    }
}

fn copy_vec<T: Copy>(v: &Vec<T>) -> (r: Vec<T>)
    ensures
        r@ == v@,
{
    let mut out: Vec<T> = Vec::new();
    let mut i: usize = 0;
    while i < v.len()
        invariant
            i <= v@.len(),
            out@ == v@.take(i as int),
        decreases v@.len() - i,
    {
        out.push(v[i]);
        proof {
            assert(v@.take(i + 1) =~= v@.take(i as int).push(v@[i as int]));
        }
        i = i + 1;
    }
    assert(v@.take(i as int) =~= v@);
    out
}

fn flatten_faces(faces: &Vec<Vec<u32>>) -> (r: Vec<u32>)
    ensures
        r@ == flat_indices(faces@),
{
    let mut out: Vec<u32> = Vec::new();
    let mut i: usize = 0;
    while i < faces.len()
        invariant
            i <= faces@.len(),
            out@ == flat_indices(faces@.take(i as int)),
        decreases faces@.len() - i,
    {
        let face = &faces[i];
        let ghost start = out@;
        let mut j: usize = 0;
        while j < face.len()
            invariant
                j <= face@.len(),
                out@ == start + face@.take(j as int),
            decreases face@.len() - j,
        {
            out.push(face[j]);
            proof {
                assert(face@.take(j + 1) =~= face@.take(j as int).push(face@[j as int]));
            }
            j = j + 1;
        }
        proof {
            assert(face@.take(j as int) =~= face@);
            let pre = faces@.take(i as int).map_values(|f: Vec<u32>| f@);
            assert(faces@.take(i + 1).map_values(|f: Vec<u32>| f@) =~= pre.push(face@));
            pre.lemma_flatten_push(face@);
        }
        i = i + 1;
    }
    assert(faces@.take(i as int) =~= faces@);
    out
}

fn channel0_uvs(coords: &Vec<Option<Vec<[u32; 3]>>>) -> (r: Vec<[u32; 2]>)
    ensures
        r@ == (if coords@.len() > 0 && coords@[0] is Some {
            coords@[0]->Some_0@.map_values(|t: [u32; 3]| [t[0], t[1]])
        } else {
            Seq::empty()
        }),
{
    let mut out: Vec<[u32; 2]> = Vec::new();
    if coords.len() > 0 {
        match &coords[0] {
            Some(channel) => {
                let mut i: usize = 0;
                while i < channel.len()
                    invariant
                        i <= channel@.len(),
                        out@ == channel@.take(i as int).map_values(|t: [u32; 3]| [t[0], t[1]]),
                    decreases channel@.len() - i,
                {
                    let t = channel[i];
                    out.push([t[0], t[1]]);
                    proof {
                        assert(channel@.take(i + 1).map_values(|t: [u32; 3]| [t[0], t[1]])
                            =~= channel@.take(i as int).map_values(|t: [u32; 3]| [t[0], t[1]]).push([t[0], t[1]]));
                    }
                    i = i + 1;
                }
                assert(channel@.take(i as int) =~= channel@);
            },
            None => {},
        }
    }
    out
}

/// Maps one imported mesh into its serialized record. Skin slots are filled
/// left to right with the first free slot; a fifth influence on a vertex is
/// dropped and the kept weights are not renormalized.
pub fn pack_mesh(m: &ImportedMesh) -> (r: SerializedMesh)
    requires
        skin_in_range(*m),
    ensures
        packed_from(r, *m),
{
    let mut bone_names: Vec<String> = Vec::new();
    let mut bone_indices: Vec<[u32; 4]> = Vec::new();
    let mut bone_weights: Vec<[u32; 4]> = Vec::new();
    if m.bones.len() > 0 {
        let slots = fill_skin(&m.bones, m.vertices.len());
        bone_indices = slots.0;
        bone_weights = slots.1;
        let mut b: usize = 0;
        while b < m.bones.len()
            invariant
                b <= m.bones@.len(),
                bone_names@.len() == b,
                forall|k: int| 0 <= k < b ==> (#[trigger] bone_names@[k])@ == m.bones@[k].name@,
            decreases m.bones@.len() - b,
        {
            bone_names.push(m.bones[b].name.clone());
            b = b + 1;
        }
        assert(bone_names@.map_values(|s: String| s@) =~= m.bones@.map_values(|x: ImportedBone| x.name@));
    }
    let r = SerializedMesh {
        positions: copy_vec(&m.vertices),
        normals: copy_vec(&m.normals),
        uvs: channel0_uvs(&m.texture_coords),
        indices: flatten_faces(&m.faces),
        material_index: m.material_index,
        min_extents: m.aabb_min,
        max_extents: m.aabb_max,
        dimensions: m.aabb_size,
        scale: [ONE_BITS, ONE_BITS, ONE_BITS],
        rotation: [0u32, 0, 0, ONE_BITS],
        translation: [0u32, 0, 0],
        bone_indices,
        bone_weights,
        bone_names,
    };
    assert(r.scale@ =~= seq![ONE_BITS, ONE_BITS, ONE_BITS]);
    assert(r.rotation@ =~= seq![0u32, 0, 0, ONE_BITS]);
    assert(r.translation@ =~= seq![0u32, 0, 0]);
    r
}

} // verus!

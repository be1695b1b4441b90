//! The skeleton builder: global bone discovery over the node hierarchy, and
//! the nodes whose world transforms are baked into unskinned meshes.
use vstd::prelude::*;
use crate::transform::{ImporterMatrix, RawMatrix, transposed, matrix_to_raw};
use crate::mesh::{ImportedBone, ImportedMesh, SerializedMesh};

verus! {

/// A node of the scene hierarchy, stored in a flat array in depth-first
/// pre-order. Node 0 is the root; every other node's `parent` is smaller
/// than its own index.
#[derive(Clone, Debug)]
pub struct SceneNode {
    pub name: String,
    pub parent: usize,
    pub transformation: ImporterMatrix,
    pub meshes: Vec<u32>,
}

/// A bone name with its offset ("inverse bind") matrix, column-major.
#[derive(Clone, Debug)]
pub struct SkinEntry {
    pub name: String,
    pub inverse_bind: RawMatrix,
}

/// The global bone list and, per mesh, the node whose world transform is
/// baked into it (none for skinned meshes and meshes attached nowhere).
#[derive(Clone, Debug)]
pub struct Skeleton {
    pub bone_names: Vec<String>,
    pub inverse_bind_matrices: Vec<RawMatrix>,
    pub placements: Vec<Option<usize>>,
}

/// A node array forms a tree rooted at node 0, and attaches only meshes
/// that exist.
pub open spec fn well_formed(nodes: Seq<SceneNode>, mesh_count: nat) -> bool {
    &&& nodes.len() > 0
    &&& forall|i: int| 0 < i < nodes.len() ==> (#[trigger] nodes[i]).parent < i
    &&& forall|i: int, j: int|
        0 <= i < nodes.len() && 0 <= j < nodes[i].meshes@.len()
            ==> (#[trigger] nodes[i].meshes@[j]) < mesh_count
}

/// The skin entries of one mesh, bone by bone.
pub open spec fn mesh_entries(m: ImportedMesh) -> Seq<(Seq<char>, RawMatrix)> {
    m.bones@.map_values(|b: ImportedBone| (b.name@, transposed(b.offset_matrix)))
}

/// The skin entries of all meshes, mesh by mesh.
pub open spec fn all_entries(meshes: Seq<ImportedMesh>) -> Seq<(Seq<char>, RawMatrix)> {
    meshes.map_values(|m: ImportedMesh| mesh_entries(m)).flatten()
}

pub open spec fn entry_views(t: Seq<SkinEntry>) -> Seq<(Seq<char>, RawMatrix)> {
    t.map_values(|e: SkinEntry| (e.name@, e.inverse_bind))
}

pub open spec fn has_bone(entries: Seq<(Seq<char>, RawMatrix)>, name: Seq<char>) -> bool {
    exists|i: int| 0 <= i < entries.len() && (#[trigger] entries[i]).0 == name
}

/// The matrix of the last entry with this name: a later mesh's bone of the
/// same name replaces an earlier one.
pub open spec fn last_offset(entries: Seq<(Seq<char>, RawMatrix)>, name: Seq<char>) -> RawMatrix
    decreases entries.len(),
{
    if entries.len() == 0 {
        [[0u32, 0, 0, 0], [0u32, 0, 0, 0], [0u32, 0, 0, 0], [0u32, 0, 0, 0]]
    } else if entries.last().0 == name {
        entries.last().1
    } else {
        last_offset(entries.drop_last(), name)
    }
}

/// The bone names discovered in the first `k` nodes, in first-discovery order,
/// each once.
pub open spec fn discovered(nodes: Seq<SceneNode>, entries: Seq<(Seq<char>, RawMatrix)>, k: int) -> Seq<Seq<char>>
    decreases k,
{
    if k <= 0 {
        Seq::empty()
    } else {
        let prev = discovered(nodes, entries, k - 1);
        let name = nodes[k - 1].name@;
        if has_bone(entries, name) && !prev.contains(name) {
            prev.push(name)
        } else {
            prev
        }
    }
}

/// Mesh index `m` occurs in `s`.
pub open spec fn lists(s: Seq<u32>, m: int) -> bool {
    exists|q: int| 0 <= q < s.len() && #[trigger] s[q] as int == m
}

/// The last of the first `k` nodes that attaches mesh `m`.
pub open spec fn last_attach(nodes: Seq<SceneNode>, m: int, k: int) -> Option<usize>
    decreases k,
{
    if k <= 0 {
        None
    } else if lists(nodes[k - 1].meshes@, m) {
        Some((k - 1) as usize)
    } else {
        last_attach(nodes, m, k - 1)
    }
}

/// What the builder produces for these nodes, skin entries and skinned flags.
pub open spec fn is_skeleton_of(
    r: Skeleton,
    nodes: Seq<SceneNode>,
    entries: Seq<(Seq<char>, RawMatrix)>,
    skinned: Seq<bool>,
) -> bool {
    let names = discovered(nodes, entries, nodes.len() as int);
    &&& r.bone_names@.map_values(|s: String| s@) == names
    &&& r.inverse_bind_matrices@ == names.map_values(|n: Seq<char>| last_offset(entries, n))
    &&& r.placements@.len() == skinned.len()
    &&& forall|m: int| 0 <= m < skinned.len() ==> #[trigger] r.placements@[m] == (if skinned[m] {
        None
    } else {
        last_attach(nodes, m, nodes.len() as int)
    })
}

/// A node whose name is a skin bone has its name in the global list once the
/// walk has passed it.
pub proof fn lemma_discovered_contains(nodes: Seq<SceneNode>, entries: Seq<(Seq<char>, RawMatrix)>, k: int, j: int)
    requires
        0 <= j < k <= nodes.len(),
        has_bone(entries, nodes[j].name@),
    ensures
        discovered(nodes, entries, k).contains(nodes[j].name@),
    decreases k,
{
    let prev = discovered(nodes, entries, k - 1);
    if j == k - 1 {
        if !prev.contains(nodes[j].name@) {
            assert(discovered(nodes, entries, k) == prev.push(nodes[j].name@));
            assert(discovered(nodes, entries, k)[prev.len() as int] == nodes[j].name@);
        }
    } else {
        lemma_discovered_contains(nodes, entries, k - 1, j);
        let q = choose|q: int| 0 <= q < prev.len() && prev[q] == nodes[j].name@;
        assert(discovered(nodes, entries, k)[q] == nodes[j].name@);
    }
}

proof fn lemma_in_flatten<A>(ss: Seq<Seq<A>>, i: int, j: int)
    requires
        0 <= i < ss.len(),
        0 <= j < ss[i].len(),
    ensures
        ss.flatten().contains(ss[i][j]),
    decreases ss.len(),
{
    assert(ss.flatten() == ss[0] + ss.drop_first().flatten());
    if i == 0 {
        assert(ss.flatten()[j] == ss[0][j]);
    } else {
        lemma_in_flatten(ss.drop_first(), i - 1, j);
        let rest = ss.drop_first().flatten();
        let k = choose|k: int| 0 <= k < rest.len() && rest[k] == ss.drop_first()[i - 1][j];
        assert(ss.flatten()[ss[0].len() + k] == ss[i][j]);
    }
}

/// Every bone of every mesh is among the skin entries.
pub proof fn lemma_mesh_bone_has_entry(meshes: Seq<ImportedMesh>, i: int, b: int)
    requires
        0 <= i < meshes.len(),
        0 <= b < meshes[i].bones@.len(),
    ensures
        has_bone(all_entries(meshes), meshes[i].bones@[b].name@),
{
    let ss = meshes.map_values(|m: ImportedMesh| mesh_entries(m));
    assert(ss[i][b] == (meshes[i].bones@[b].name@, transposed(meshes[i].bones@[b].offset_matrix)));
    lemma_in_flatten(ss, i, b);
    let fl = ss.flatten();
    let k = choose|k: int| 0 <= k < fl.len() && fl[k] == ss[i][b];
    assert(fl[k].0 == meshes[i].bones@[b].name@);
}

/// The global bone order is a function of the scene alone: two runs of the
/// builder on the same nodes and skin entries list the same bones, in the same
/// order, with the same inverse bind matrices.
pub proof fn lemma_bone_order_deterministic(
    a: Skeleton,
    b: Skeleton,
    nodes: Seq<SceneNode>,
    entries: Seq<(Seq<char>, RawMatrix)>,
    skinned: Seq<bool>,
)
    requires
        is_skeleton_of(a, nodes, entries, skinned),
        is_skeleton_of(b, nodes, entries, skinned),
    ensures
        a.bone_names@.map_values(|s: String| s@) == b.bone_names@.map_values(|s: String| s@),
        a.inverse_bind_matrices@ == b.inverse_bind_matrices@,
        a.placements@ == b.placements@,
{
    assert(a.placements@ =~= b.placements@);
}

/// Gathers every mesh's bones with their offset matrices, mesh by mesh.
pub fn collect_skin(meshes: &Vec<ImportedMesh>) -> (r: Vec<SkinEntry>)
    ensures
        entry_views(r@) == all_entries(meshes@),
{
    let mut out: Vec<SkinEntry> = Vec::new();
    let mut i: usize = 0;
    while i < meshes.len()
        invariant
            i <= meshes@.len(),
            entry_views(out@) == all_entries(meshes@.take(i as int)),
        decreases meshes@.len() - i,
    {
        let m = &meshes[i];
        let ghost start = entry_views(out@);
        let mut b: usize = 0;
        while b < m.bones.len()
            invariant
                b <= m.bones@.len(),
                entry_views(out@) == start + mesh_entries(*m).take(b as int),
            decreases m.bones@.len() - b,
        {
            let bone = &m.bones[b];
            let ghost before = out@;
            out.push(SkinEntry { name: bone.name.clone(), inverse_bind: matrix_to_raw(bone.offset_matrix) });
            proof {
                assert(mesh_entries(*m).take(b + 1) =~= mesh_entries(*m).take(b as int).push(mesh_entries(*m)[b as int]));
                assert(entry_views(out@) =~= entry_views(before).push((bone.name@, transposed(bone.offset_matrix))));
                assert(entry_views(out@) =~= start + mesh_entries(*m).take(b + 1));
            }
            b = b + 1;
        }
        proof {
            assert(mesh_entries(*m).take(b as int) =~= mesh_entries(*m));
            let pre = meshes@.take(i as int).map_values(|m: ImportedMesh| mesh_entries(m));
            assert(meshes@.take(i + 1).map_values(|m: ImportedMesh| mesh_entries(m)) =~= pre.push(mesh_entries(*m)));
            pre.lemma_flatten_push(mesh_entries(*m));
        }
        i = i + 1;
    }
    assert(meshes@.take(i as int) =~= meshes@);
    out
}

/// Looks a bone name up among the skin entries; the last entry of that name wins.
pub fn find_offset(table: &Vec<SkinEntry>, name: &String) -> (r: Option<RawMatrix>)
    ensures
        r is Some <==> has_bone(entry_views(table@), name@),
        r is Some ==> r->Some_0 == last_offset(entry_views(table@), name@),
{
    let ghost ev = entry_views(table@);
    let mut i: usize = table.len();
    assert(ev.take(i as int) =~= ev);
    while i > 0
        invariant
            i <= table@.len(),
            ev == entry_views(table@),
            forall|k: int| i <= k < table@.len() ==> (#[trigger] ev[k]).0 != name@,
            last_offset(ev, name@) == last_offset(ev.take(i as int), name@),
        decreases i,
    {
        let e = &table[i - 1];
        if e.name == *name {
            proof {
                let t = ev.take(i as int);
                assert(t.last() == ev[i - 1]);
                assert(ev[i - 1].0 == name@);
            }
            return Some(e.inverse_bind);
        }
        proof {
            let t = ev.take(i as int);
            assert(t.drop_last() =~= ev.take(i - 1));
            assert(ev[i - 1].0 != name@);
        }
        i = i - 1;
    }
    proof {
        if has_bone(ev, name@) {
            let k = choose|k: int| 0 <= k < ev.len() && (#[trigger] ev[k]).0 == name@;
            assert(ev[k].0 != name@);
        }
    }
    None
}

fn contains_name(names: &Vec<String>, name: &String) -> (r: bool)
    ensures
        r == names@.map_values(|s: String| s@).contains(name@),
{
    let ghost v = names@.map_values(|s: String| s@);
    let mut i: usize = 0;
    while i < names.len()
        invariant
            i <= names@.len(),
            v == names@.map_values(|s: String| s@),
            forall|k: int| 0 <= k < i ==> v[k] != name@,
        decreases names@.len() - i,
    {
        if names[i] == *name {
            assert(v[i as int] == name@);
            return true;
        }
        i = i + 1;
    }
    proof {
        if v.contains(name@) {
            let k = choose|k: int| 0 <= k < v.len() && v[k] == name@;
            assert(v[k] != name@);
        }
    }
    false
}

/// Walks the nodes in pre-order once: each node whose name is a skin bone not
/// yet listed joins the global bone list with its offset matrix, and each
/// unskinned mesh the node attaches is placed at that node.
pub fn build_skeleton(nodes: &Vec<SceneNode>, table: &Vec<SkinEntry>, skinned: &Vec<bool>) -> (r: Skeleton)
    requires
        well_formed(nodes@, skinned@.len()),
    ensures
        is_skeleton_of(r, nodes@, entry_views(table@), skinned@),
        r.bone_names@.len() == r.inverse_bind_matrices@.len(),
{
    let ghost ev = entry_views(table@);
    let mut bone_names: Vec<String> = Vec::new();
    let mut inverse_bind_matrices: Vec<RawMatrix> = Vec::new();
    let mut placements: Vec<Option<usize>> = Vec::new();
    let mut m: usize = 0;
    while m < skinned.len()
        invariant
            m <= skinned@.len(),
            placements@.len() == m,
            forall|k: int| 0 <= k < m ==> #[trigger] placements@[k] == None::<usize>,
        decreases skinned@.len() - m,
    {
        placements.push(None);
        m = m + 1;
    }
    let mut i: usize = 0;
    while i < nodes.len()
        invariant
            i <= nodes@.len(),
            well_formed(nodes@, skinned@.len()),
            ev == entry_views(table@),
            bone_names@.map_values(|s: String| s@) == discovered(nodes@, ev, i as int),
            inverse_bind_matrices@ == discovered(nodes@, ev, i as int).map_values(|n: Seq<char>| last_offset(ev, n)),
            placements@.len() == skinned@.len(),
            forall|k: int| 0 <= k < skinned@.len() ==> #[trigger] placements@[k] == (if skinned@[k] {
                None
            } else {
                last_attach(nodes@, k, i as int)
            }),
        decreases nodes@.len() - i,
    {
        let node = &nodes[i];
        let ghost prev = discovered(nodes@, ev, i as int);
        let known = contains_name(&bone_names, &node.name);
        match find_offset(table, &node.name) {
            Some(offset) => {
                if !known {
                    bone_names.push(node.name.clone());
                    inverse_bind_matrices.push(offset);
                    proof {
                        assert(bone_names@.map_values(|s: String| s@) =~= prev.push(node.name@));
                        assert(inverse_bind_matrices@ =~= prev.push(node.name@).map_values(
                            |n: Seq<char>| last_offset(ev, n),
                        ));
                    }
                }
            },
            None => {},
        }
        let mut j: usize = 0;
        while j < node.meshes.len()
            invariant
                j <= node.meshes@.len(),
                i < nodes@.len(),
                *node == nodes@[i as int],
                well_formed(nodes@, skinned@.len()),
                placements@.len() == skinned@.len(),
                forall|k: int| 0 <= k < skinned@.len() ==> #[trigger] placements@[k] == (if skinned@[k] {
                    None
                } else if lists(node.meshes@.take(j as int), k) {
                    Some(i)
                } else {
                    last_attach(nodes@, k, i as int)
                }),
            decreases node.meshes@.len() - j,
        {
            let mi = node.meshes[j] as usize;
            assert(node.meshes@[j as int] < skinned@.len());
            if !skinned[mi] {
                placements.set(mi, Some(i));
            }
            proof {
                assert(node.meshes@.take(j + 1) =~= node.meshes@.take(j as int).push(node.meshes@[j as int]));
                assert forall|k: int| 0 <= k < skinned@.len() implies #[trigger] placements@[k] == (if skinned@[k] {
                    None
                } else if lists(node.meshes@.take(j + 1), k) {
                    Some(i)
                } else {
                    last_attach(nodes@, k, i as int)
                }) by {
                    if k == mi {
                        assert(node.meshes@.take(j + 1)[j as int] as int == k);
                    } else {
                        if lists(node.meshes@.take(j + 1), k) {
                            let q = choose|q: int| 0 <= q < j + 1 && #[trigger] node.meshes@.take(j + 1)[q] as int == k;
                            assert(q != j);
                            assert(node.meshes@.take(j as int)[q] as int == k);
                        }
                        if lists(node.meshes@.take(j as int), k) {
                            let q = choose|q: int| 0 <= q < j && #[trigger] node.meshes@.take(j as int)[q] as int == k;
                            assert(node.meshes@.take(j + 1)[q] as int == k);
                        }
                    }
                }
            }
            j = j + 1;
        }
        assert(node.meshes@.take(j as int) =~= node.meshes@);
        i = i + 1;
    }
    Skeleton { bone_names, inverse_bind_matrices, placements }
}

/// The chain of nodes from the root down to node `i`, following parents.
pub open spec fn path_to(nodes: Seq<SceneNode>, i: int) -> Seq<usize>
    decreases i,
{
    if i <= 0 || i >= nodes.len() || nodes[i].parent >= i {
        seq![0usize]
    } else {
        path_to(nodes, nodes[i].parent as int).push(i as usize)
    }
}

fn push_path(nodes: &Vec<SceneNode>, i: usize, out: &mut Vec<usize>)
    requires
        well_formed(nodes@, 0),
        i < nodes@.len(),
    ensures
        final(out)@ == old(out)@ + path_to(nodes@, i as int),
    decreases i,
{
    if i == 0 {
        out.push(0);
        assert(path_to(nodes@, 0) =~= seq![0usize]);
    } else {
        let p = nodes[i].parent;
        let ghost start = out@;
        push_path(nodes, p, out);
        out.push(i);
        assert(out@ =~= start + path_to(nodes@, p as int).push(i));
    }
}

/// The nodes whose local transforms compose, in this order from the root, to
/// the world transform of node `i`.
pub fn world_path(nodes: &Vec<SceneNode>, i: usize) -> (r: Vec<usize>)
    requires
        well_formed(nodes@, 0),
        i < nodes@.len(),
    ensures
        r@ == path_to(nodes@, i as int),
{
    let mut out: Vec<usize> = Vec::new();
    push_path(nodes, i, &mut out);
    assert(out@ =~= path_to(nodes@, i as int));
    out
}

/// Why a mesh's bone slots could not be rewritten.
#[derive(Clone, Debug)]
pub enum RemapError {
    /// A slot of this mesh and vertex points past the mesh's own bone list.
    SlotOutOfRange { mesh: usize, vertex: usize },
    /// This mesh-local bone name is not in the global bone list.
    MissingBone { mesh: usize, name: String },
}

impl RemapError {
    pub open spec fn mesh(self) -> usize {
        match self {
            RemapError::SlotOutOfRange { mesh, .. } => mesh,
            RemapError::MissingBone { mesh, .. } => mesh,
        }
    }
}

pub open spec fn names_of(v: Seq<String>) -> Seq<Seq<char>> {
    v.map_values(|s: String| s@)
}

/// `p` is the first position of `name` in `global`.
pub open spec fn first_position(global: Seq<Seq<char>>, name: Seq<char>, p: int) -> bool {
    &&& 0 <= p < global.len()
    &&& global[p] == name
    &&& forall|q: int| 0 <= q < p ==> global[q] != name
}

/// Every slot of `m` names one of its own bones, and that name is global.
pub open spec fn resolvable(m: SerializedMesh, global: Seq<Seq<char>>) -> bool {
    forall|v: int, k: int| 0 <= v < m.bone_indices@.len() && 0 <= k < 4 ==> {
        let li = #[trigger] m.bone_indices@[v][k] as int;
        li < m.bone_names@.len() && global.contains(m.bone_names@[li]@)
    }
}

/// `n` holds for each slot of `m` the global position of the bone that slot named.
pub open spec fn remapped_slots(m: SerializedMesh, n: Seq<[u32; 4]>, global: Seq<Seq<char>>) -> bool {
    &&& n.len() == m.bone_indices@.len()
    &&& forall|v: int, k: int| 0 <= v < n.len() && 0 <= k < 4 ==>
        first_position(global, m.bone_names@[m.bone_indices@[v][k] as int]@, #[trigger] n[v][k] as int)
}

/// `n` is `m` with its bone slots rewritten into the global index space.
pub open spec fn remapped(m: SerializedMesh, n: SerializedMesh, global: Seq<Seq<char>>) -> bool {
    &&& remapped_slots(m, n.bone_indices@, global)
    &&& n == SerializedMesh { bone_indices: n.bone_indices, ..m }
}

/// The first position of `name` in the global list.
fn position_of(global: &Vec<String>, name: &String) -> (r: Option<usize>)
    ensures
        r is Some ==> first_position(names_of(global@), name@, r->Some_0 as int),
        r is None ==> !names_of(global@).contains(name@),
{
    let ghost g = names_of(global@);
    let mut i: usize = 0;
    while i < global.len()
        invariant
            i <= global@.len(),
            g == names_of(global@),
            forall|q: int| 0 <= q < i ==> g[q] != name@,
        decreases global@.len() - i,
    {
        if global[i] == *name {
            return Some(i);
        }
        i = i + 1;
    }
    proof {
        if g.contains(name@) {
            let q = choose|q: int| 0 <= q < g.len() && g[q] == name@;
            assert(g[q] != name@);
        }
    }
    None
}

/// The rewritten slots of one mesh, or the first slot that cannot be resolved.
fn remap_mesh_slots(m: &SerializedMesh, mesh: usize, global: &Vec<String>) -> (r: Result<Vec<[u32; 4]>, RemapError>)
    requires
        global@.len() <= u32::MAX,
    ensures
        r is Ok <==> resolvable(*m, names_of(global@)),
        r is Ok ==> remapped_slots(*m, r->Ok_0@, names_of(global@)),
        r is Err ==> r->Err_0.mesh() == mesh,
{
    let ghost g = names_of(global@);
    let mut out: Vec<[u32; 4]> = Vec::new();
    let mut v: usize = 0;
    while v < m.bone_indices.len()
        invariant
            v <= m.bone_indices@.len(),
            g == names_of(global@),
            global@.len() <= u32::MAX,
            out@.len() == v,
            forall|vv: int, k: int| 0 <= vv < v && 0 <= k < 4 ==> {
                let li = #[trigger] m.bone_indices@[vv][k] as int;
                li < m.bone_names@.len() && g.contains(m.bone_names@[li]@)
            },
            forall|vv: int, k: int| 0 <= vv < v && 0 <= k < 4 ==>
                first_position(g, m.bone_names@[m.bone_indices@[vv][k] as int]@, #[trigger] out@[vv][k] as int),
        decreases m.bone_indices@.len() - v,
    {
        let slots = m.bone_indices[v];
        let mut new_slots: [u32; 4] = [0u32; 4];
        let mut k: usize = 0;
        while k < 4
            invariant
                k <= 4,
                v < m.bone_indices@.len(),
                slots == m.bone_indices@[v as int],
                g == names_of(global@),
                global@.len() <= u32::MAX,
                forall|kk: int| 0 <= kk < k ==> {
                    let li = #[trigger] slots[kk] as int;
                    li < m.bone_names@.len() && g.contains(m.bone_names@[li]@)
                },
                forall|kk: int| 0 <= kk < k ==>
                    first_position(g, m.bone_names@[slots[kk] as int]@, #[trigger] new_slots[kk] as int),
            decreases 4 - k,
        {
            let li = slots[k] as usize;
            if li >= m.bone_names.len() {
                return Err(RemapError::SlotOutOfRange { mesh, vertex: v });
            }
            match position_of(global, &m.bone_names[li]) {
                Some(p) => {
                    new_slots[k] = p as u32;
                },
                None => {
                    return Err(RemapError::MissingBone { mesh, name: m.bone_names[li].clone() });
                },
            }
            k = k + 1;
        }
        out.push(new_slots);
        v = v + 1;
    }
    Ok(out)
}

/// Rewrites every mesh's bone slots from mesh-local indices to positions in
/// the global bone list. On failure the error names the first mesh whose slots
/// cannot be resolved; meshes before it may already be rewritten.
pub fn remap_bone_indices(meshes: &mut Vec<SerializedMesh>, global: &Vec<String>) -> (r: Result<(), RemapError>)
    requires
        global@.len() <= u32::MAX,
    ensures
        r is Ok <==> forall|i: int| 0 <= i < old(meshes)@.len() ==> resolvable(#[trigger] old(meshes)@[i], names_of(global@)),
        r is Ok ==> final(meshes)@.len() == old(meshes)@.len(),
        r is Ok ==> forall|i: int| 0 <= i < old(meshes)@.len()
            ==> remapped(#[trigger] old(meshes)@[i], final(meshes)@[i], names_of(global@)),
        r is Err ==> r->Err_0.mesh() < old(meshes)@.len(),
        r is Err ==> !resolvable(old(meshes)@[r->Err_0.mesh() as int], names_of(global@)),
{
    let ghost g = names_of(global@);
    let ghost orig = meshes@;
    let mut i: usize = 0;
    while i < meshes.len()
        invariant
            i <= meshes@.len(),
            meshes@.len() == orig.len(),
            orig == old(meshes)@,
            g == names_of(global@),
            global@.len() <= u32::MAX,
            forall|q: int| 0 <= q < i ==> resolvable(#[trigger] orig[q], g),
            forall|q: int| 0 <= q < i ==> remapped(#[trigger] orig[q], meshes@[q], g),
            forall|q: int| i <= q < meshes@.len() ==> #[trigger] meshes@[q] == orig[q],
        decreases meshes@.len() - i,
    {
        let mut m = meshes.remove(i);
        assert(m == orig[i as int]);
        match remap_mesh_slots(&m, i, global) {
            Ok(slots) => {
                let ghost before = m;
                m.bone_indices = slots;
                assert(remapped(before, m, g));
                meshes.insert(i, m);
            },
            Err(e) => {
                meshes.insert(i, m);
                assert(e.mesh() == i);
                assert(!resolvable(orig[i as int], g));
                assert(!(forall|q: int| 0 <= q < orig.len() ==> resolvable(#[trigger] orig[q], g)));
                return Err(e);
            },
        }
        i = i + 1;
    }
    Ok(())
}

} // verus!

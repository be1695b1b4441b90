//! The serialized model aggregate and the conversion pipeline that builds it.
use vstd::prelude::*;
use crate::transform::RawMatrix;
use crate::mesh::{ImportedBone, ImportedMesh, SerializedMesh, lemma_packed_slots_bounded, pack_mesh, packed_from, skin_in_range};
use crate::material::{ImportedMaterial, SerializedMaterial, extract_material, extracted_from};
use crate::skeleton::{
    SceneNode, Skeleton, RemapError, all_entries, build_skeleton, collect_skin, discovered, entry_views,
    is_skeleton_of, lemma_discovered_contains, lemma_mesh_bone_has_entry, names_of, remap_bone_indices, remapped,
    resolvable, well_formed,
};

verus! {

/// Everything the binary asset holds. `inverse_bind_matrices[j]` belongs to
/// `bone_names[j]`.
#[derive(Clone, Debug)]
pub struct SerializedModel {
    pub meshes: Vec<SerializedMesh>,
    pub materials: Vec<SerializedMaterial>,
    pub bone_names: Vec<String>,
    pub inverse_bind_matrices: Vec<RawMatrix>,
}

/// A converted scene: the model, and for each mesh the node whose world
/// transform is to be baked into its instance placement, if any.
#[derive(Clone, Debug)]
pub struct Conversion {
    pub model: SerializedModel,
    pub placements: Vec<Option<usize>>,
}

/// Which meshes carry skin data.
pub open spec fn skinned_flags(meshes: Seq<ImportedMesh>) -> Seq<bool> {
    meshes.map_values(|m: ImportedMesh| m.bones@.len() > 0)
}

/// `out` is `m` packed, with its bone slots rewritten into the global list `g`.
pub open spec fn converted_mesh(m: ImportedMesh, out: SerializedMesh, g: Seq<Seq<char>>) -> bool {
    exists|p: SerializedMesh| #[trigger] packed_from(p, m) && remapped(p, out, g)
}

/// Every bone of every mesh is the name of some node of the hierarchy.
pub open spec fn bones_named_by_nodes(meshes: Seq<ImportedMesh>, nodes: Seq<SceneNode>) -> bool {
    forall|i: int, b: int| 0 <= i < meshes.len() && 0 <= b < meshes[i].bones@.len()
        ==> exists|j: int| 0 <= j < nodes.len() && (#[trigger] nodes[j].name@) == (#[trigger] meshes[i].bones@[b]).name@
}

/// Every bone slot of every mesh holds an index into the global bone list.
pub open spec fn slots_in_range(model: SerializedModel) -> bool {
    forall|i: int, v: int, k: int|
        0 <= i < model.meshes@.len() && 0 <= v < model.meshes@[i].bone_indices@.len() && 0 <= k < 4
            ==> (#[trigger] model.meshes@[i].bone_indices@[v][k]) < model.bone_names@.len()
}

pub proof fn lemma_discovered_len(nodes: Seq<SceneNode>, entries: Seq<(Seq<char>, RawMatrix)>, k: int)
    ensures
        discovered(nodes, entries, k).len() <= if k < 0 { 0 } else { k },
    decreases k,
{
    if k > 0 {
        lemma_discovered_len(nodes, entries, k - 1);
    }
}

/// Runs the whole conversion: packs every mesh, builds the skeleton over the
/// node hierarchy, rewrites bone slots to the global bone list when any mesh
/// is skinned, and extracts every material.
pub fn convert_scene(
    meshes: &Vec<ImportedMesh>,
    nodes: &Vec<SceneNode>,
    materials: &Vec<ImportedMaterial>,
) -> (r: Result<Conversion, RemapError>)
    requires
        well_formed(nodes@, meshes@.len()),
        nodes@.len() <= u32::MAX,
        forall|i: int| 0 <= i < meshes@.len() ==> skin_in_range(#[trigger] meshes@[i]),
    ensures
        r is Ok ==> {
            let c = r->Ok_0;
            let g = names_of(c.model.bone_names@);
            &&& is_skeleton_of(
                (Skeleton {
                    bone_names: c.model.bone_names,
                    inverse_bind_matrices: c.model.inverse_bind_matrices,
                    placements: c.placements,
                }),
                nodes@,
                all_entries(meshes@),
                skinned_flags(meshes@),
            )
            &&& c.model.bone_names@.len() == c.model.inverse_bind_matrices@.len()
            &&& c.model.meshes@.len() == meshes@.len()
            &&& forall|i: int| 0 <= i < meshes@.len()
                ==> converted_mesh(#[trigger] meshes@[i], c.model.meshes@[i], g)
            &&& slots_in_range(c.model)
            &&& c.model.materials@.len() == materials@.len()
            &&& forall|i: int| 0 <= i < materials@.len()
                ==> extracted_from(#[trigger] c.model.materials@[i], materials@[i])
        },
        bones_named_by_nodes(meshes@, nodes@) ==> r is Ok,
        r is Err ==> {
            let e = r->Err_0;
            &&& e.mesh() < meshes@.len()
            &&& exists|p: SerializedMesh| #[trigger] packed_from(p, meshes@[e.mesh() as int])
                && !resolvable(p, discovered(nodes@, all_entries(meshes@), nodes@.len() as int))
        },
{
    let mut packed: Vec<SerializedMesh> = Vec::new();
    let mut skinned: Vec<bool> = Vec::new();
    let mut any_skinned = false;
    let mut i: usize = 0;
    while i < meshes.len()
        invariant
            i <= meshes@.len(),
            forall|k: int| 0 <= k < meshes@.len() ==> skin_in_range(#[trigger] meshes@[k]),
            packed@.len() == i,
            skinned@ == skinned_flags(meshes@).take(i as int),
            forall|k: int| 0 <= k < i ==> packed_from(#[trigger] packed@[k], meshes@[k]),
            !any_skinned ==> forall|k: int| 0 <= k < i ==> (#[trigger] meshes@[k]).bones@.len() == 0,
        decreases meshes@.len() - i,
    {
        packed.push(pack_mesh(&meshes[i]));
        let s = meshes[i].bones.len() > 0;
        skinned.push(s);
        if s {
            any_skinned = true;
        }
        assert(skinned@ =~= skinned_flags(meshes@).take(i + 1));
        i = i + 1;
    }
    assert(skinned@ =~= skinned_flags(meshes@));
    let table = collect_skin(meshes);
    let skeleton = build_skeleton(nodes, &table, &skinned);
    let ghost g = names_of(skeleton.bone_names@);
    proof {
        lemma_discovered_len(nodes@, entry_views(table@), nodes@.len() as int);
        assert(g == discovered(nodes@, all_entries(meshes@), nodes@.len() as int));
    }
    let ghost pk = packed@;
    proof {
        if bones_named_by_nodes(meshes@, nodes@) {
            assert forall|i: int| 0 <= i < pk.len() implies resolvable(#[trigger] pk[i], g) by {
                let m = meshes@[i];
                assert(packed_from(pk[i], m));
                lemma_packed_slots_bounded(pk[i], m);
                assert forall|v: int, k: int| 0 <= v < pk[i].bone_indices@.len() && 0 <= k < 4 implies {
                    let li = #[trigger] pk[i].bone_indices@[v][k] as int;
                    li < pk[i].bone_names@.len() && g.contains(pk[i].bone_names@[li]@)
                } by {
                    let li = pk[i].bone_indices@[v][k] as int;
                    assert(m.bones@.len() > 0);
                    assert(li < m.bones@.len());
                    assert(pk[i].bone_names@.map_values(|s: String| s@) == m.bones@.map_values(|b: ImportedBone| b.name@));
                    assert(pk[i].bone_names@.map_values(|s: String| s@).len() == pk[i].bone_names@.len());
                    assert(li < pk[i].bone_names@.len());
                    assert(pk[i].bone_names@.map_values(|s: String| s@)[li] == pk[i].bone_names@[li]@);
                    assert(pk[i].bone_names@[li]@ == m.bones@[li].name@);
                    let j = choose|j: int| 0 <= j < nodes@.len() && (#[trigger] nodes@[j].name@) == m.bones@[li].name@;
                    lemma_mesh_bone_has_entry(meshes@, i, li);
                    lemma_discovered_contains(nodes@, all_entries(meshes@), nodes@.len() as int, j);
                }
            }
        }
    }
    if any_skinned {
        match remap_bone_indices(&mut packed, &skeleton.bone_names) {
            Ok(()) => {},
            Err(e) => {
                assert(packed_from(pk[e.mesh() as int], meshes@[e.mesh() as int]));
                return Err(e);
            },
        }
    } else {
        assert forall|k: int| 0 <= k < pk.len() implies remapped(#[trigger] pk[k], packed@[k], g) by {
            assert(packed_from(pk[k], meshes@[k]));
            assert(!skinned_flags(meshes@)[k]);
            assert(pk[k].bone_indices@.len() == 0);
        }
    }
    assert forall|k: int| 0 <= k < meshes@.len() implies converted_mesh(#[trigger] meshes@[k], packed@[k], g) by {
        assert(packed_from(pk[k], meshes@[k]));
        assert(remapped(pk[k], packed@[k], g));
    }
    let mut out_materials: Vec<SerializedMaterial> = Vec::new();
    let mut j: usize = 0;
    while j < materials.len()
        invariant
            j <= materials@.len(),
            out_materials@.len() == j,
            forall|k: int| 0 <= k < j ==> extracted_from(#[trigger] out_materials@[k], materials@[k]),
        decreases materials@.len() - j,
    {
        out_materials.push(extract_material(&materials[j]));
        j = j + 1;
    }
    let model = SerializedModel {
        meshes: packed,
        materials: out_materials,
        bone_names: skeleton.bone_names,
        inverse_bind_matrices: skeleton.inverse_bind_matrices,
    };
    assert forall|i: int, v: int, k: int|
        0 <= i < model.meshes@.len() && 0 <= v < model.meshes@[i].bone_indices@.len() && 0 <= k < 4
            implies (#[trigger] model.meshes@[i].bone_indices@[v][k]) < model.bone_names@.len() by {
        assert(remapped(pk[i], model.meshes@[i], g));
    }
    Ok(Conversion { model, placements: skeleton.placements })
}

} // verus!

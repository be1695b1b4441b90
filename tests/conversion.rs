use assimp2msgpack::encode::{encode_model, is_encodable, put_float};
use assimp2msgpack::material::{
    extract_material, ImportedMaterial, MaterialProperty, PropertyTypeInfo, SerializedMaterial, TextureSlot,
    TextureType,
};
use assimp2msgpack::mesh::{pack_mesh, ImportedBone, ImportedMesh, SerializedMesh, VertexWeight};
use assimp2msgpack::model::{convert_scene, SerializedModel};
use assimp2msgpack::skeleton::{
    build_skeleton, collect_skin, find_offset, remap_bone_indices, world_path, RemapError, SceneNode,
};
use assimp2msgpack::transform::{matrix_to_raw, ImporterMatrix, ONE_BITS};
use msgpacker::Unpackable;

fn b(x: f32) -> u32 {
    x.to_bits()
}

fn identity() -> ImporterMatrix {
    let o = b(1.0);
    ImporterMatrix { rows: [[o, 0, 0, 0], [0, o, 0, 0], [0, 0, o, 0], [0, 0, 0, o]] }
}

fn numbered() -> ImporterMatrix {
    let mut rows = [[0u32; 4]; 4];
    for r in 0..4 {
        for c in 0..4 {
            rows[r][c] = (10 * (r + 1) + c + 1) as u32;
        }
    }
    ImporterMatrix { rows }
}

fn triangle(bones: Vec<ImportedBone>) -> ImportedMesh {
    ImportedMesh {
        vertices: vec![[b(0.0), b(0.0), b(0.0)], [b(1.0), b(0.0), b(0.0)], [b(0.0), b(1.0), b(0.0)]],
        normals: vec![[b(0.0), b(0.0), b(1.0)]; 3],
        texture_coords: vec![Some(vec![[b(0.0), b(0.0), b(9.0)], [b(1.0), b(0.0), b(9.0)], [b(0.0), b(1.0), b(9.0)]])],
        faces: vec![vec![0, 1, 2]],
        bones,
        material_index: 0,
        aabb_min: [b(0.0), b(0.0), b(0.0)],
        aabb_max: [b(1.0), b(1.0), b(0.0)],
        aabb_size: [b(1.0), b(1.0), b(0.0)],
    }
}

fn bone(name: &str, weights: &[(u32, f32)]) -> ImportedBone {
    ImportedBone {
        name: name.to_string(),
        offset_matrix: numbered(),
        weights: weights.iter().map(|&(v, w)| VertexWeight { vertex_id: v, weight: b(w) }).collect(),
    }
}

fn node(name: &str, parent: usize, meshes: Vec<u32>) -> SceneNode {
    SceneNode { name: name.to_string(), parent, transformation: identity(), meshes }
}

fn text_prop(key: &str, semantic: TextureType, val: &str) -> MaterialProperty {
    MaterialProperty { key: key.to_string(), semantic, data: PropertyTypeInfo::String(val.to_string()) }
}

fn red_material() -> ImportedMaterial {
    ImportedMaterial {
        properties: vec![
            text_prop("$mat.name", TextureType::Other, "Red"),
            text_prop("$tex.file", TextureType::Diffuse, "red.png"),
        ],
        textures: vec![],
    }
}

#[test]
fn matrix_to_raw_transposes() {
    let raw = matrix_to_raw(numbered());
    assert_eq!(raw[0], [11, 21, 31, 41]);
    assert_eq!(raw[1], [12, 22, 32, 42]);
    assert_eq!(raw[3], [14, 24, 34, 44]);
    assert_eq!(raw[2][1], 23);
}

#[test]
fn pack_mesh_copies_geometry_with_identity_instance() {
    let mut m = triangle(vec![]);
    m.texture_coords.push(Some(vec![[b(5.0), b(5.0), b(5.0)]]));
    let r = pack_mesh(&m);
    assert_eq!(r.positions, m.vertices);
    assert_eq!(r.normals, m.normals);
    assert_eq!(r.uvs, vec![[b(0.0), b(0.0)], [b(1.0), b(0.0)], [b(0.0), b(1.0)]]);
    assert_eq!(r.indices, vec![0, 1, 2]);
    assert_eq!(r.dimensions, [b(1.0), b(1.0), b(0.0)]);
    assert_eq!(r.scale, [ONE_BITS; 3]);
    assert_eq!(r.rotation, [0, 0, 0, ONE_BITS]);
    assert_eq!(r.translation, [0, 0, 0]);
    assert!(r.bone_indices.is_empty() && r.bone_weights.is_empty() && r.bone_names.is_empty());
}

#[test]
fn pack_mesh_absent_uv_channel_gives_no_uvs() {
    let mut m = triangle(vec![]);
    m.texture_coords = vec![None, Some(vec![[b(1.0), b(1.0), b(1.0)]; 3])];
    assert!(pack_mesh(&m).uvs.is_empty());
    m.texture_coords = vec![];
    assert!(pack_mesh(&m).uvs.is_empty());
}

#[test]
fn pack_mesh_flattens_faces_in_order() {
    let mut m = triangle(vec![]);
    m.faces = vec![vec![0, 1, 2], vec![2, 1, 0]];
    assert_eq!(pack_mesh(&m).indices, vec![0, 1, 2, 2, 1, 0]);
}

#[test]
fn four_influences_are_all_kept() {
    let bones = vec![
        bone("a", &[(0, 0.1)]),
        bone("b", &[(0, 0.2)]),
        bone("c", &[(0, 0.3)]),
        bone("d", &[(0, 0.4)]),
    ];
    let r = pack_mesh(&triangle(bones));
    assert_eq!(r.bone_indices[0], [0, 1, 2, 3]);
    assert_eq!(r.bone_weights[0], [b(0.1), b(0.2), b(0.3), b(0.4)]);
    assert_eq!(r.bone_weights[1], [0, 0, 0, 0]);
    assert_eq!(r.bone_names, vec!["a", "b", "c", "d"]);
}

#[test]
fn fifth_influence_is_dropped() {
    let bones = vec![
        bone("a", &[(1, 0.1)]),
        bone("b", &[(1, 0.2)]),
        bone("c", &[(1, 0.3)]),
        bone("d", &[(1, 0.2)]),
        bone("e", &[(1, 0.2)]),
    ];
    let r = pack_mesh(&triangle(bones));
    assert_eq!(r.bone_indices[1], [0, 1, 2, 3]);
    assert_eq!(r.bone_weights[1], [b(0.1), b(0.2), b(0.3), b(0.2)]);
}

#[test]
fn zero_weight_influence_leaves_slot_free() {
    let bones = vec![bone("a", &[(2, 0.0)]), bone("b", &[(2, 0.5)])];
    let r = pack_mesh(&triangle(bones));
    assert_eq!(r.bone_indices[2], [1, 0, 0, 0]);
    assert_eq!(r.bone_weights[2], [b(0.5), 0, 0, 0]);
}

fn shared_spine_scene() -> (Vec<ImportedMesh>, Vec<SceneNode>) {
    let meshes = vec![triangle(vec![bone("Spine", &[(0, 1.0), (1, 1.0)])]), triangle(vec![bone("Spine", &[(2, 1.0)])])];
    let nodes = vec![node("Root", 0, vec![]), node("Spine", 0, vec![]), node("Body", 0, vec![0, 1])];
    (meshes, nodes)
}

#[test]
fn shared_bone_resolves_to_index_zero() {
    let (meshes, nodes) = shared_spine_scene();
    let c = convert_scene(&meshes, &nodes, &vec![]).ok().unwrap();
    assert_eq!(c.model.bone_names, vec!["Spine"]);
    assert_eq!(c.model.inverse_bind_matrices.len(), 1);
    assert_eq!(c.model.inverse_bind_matrices[0], matrix_to_raw(numbered()));
    for m in &c.model.meshes {
        for slots in &m.bone_indices {
            assert_eq!(*slots, [0, 0, 0, 0]);
        }
    }
    assert_eq!(c.placements, vec![None, None]);
}

fn two_bone_scene() -> (Vec<ImportedMesh>, Vec<SceneNode>) {
    let meshes = vec![
        triangle(vec![bone("Hand", &[(0, 1.0)]), bone("Arm", &[(1, 0.5), (2, 1.0)])]),
        triangle(vec![bone("Arm", &[(0, 1.0)])]),
        triangle(vec![]),
    ];
    let nodes = vec![
        node("Root", 0, vec![]),
        node("Arm", 0, vec![]),
        node("Hand", 1, vec![]),
        node("Arm", 0, vec![]),
        node("Prop", 2, vec![0, 2]),
    ];
    (meshes, nodes)
}

#[test]
fn global_bones_follow_first_discovery_order() {
    let (meshes, nodes) = two_bone_scene();
    let c = convert_scene(&meshes, &nodes, &vec![]).ok().unwrap();
    assert_eq!(c.model.bone_names, vec!["Arm", "Hand"]);
    assert_eq!(c.model.bone_names.len(), c.model.inverse_bind_matrices.len());
    assert_eq!(c.model.meshes[0].bone_indices[0], [1, 1, 1, 1]);
    assert_eq!(c.model.meshes[0].bone_indices[1], [0, 1, 1, 1]);
    assert_eq!(c.model.meshes[1].bone_indices[0], [0, 0, 0, 0]);
    for m in &c.model.meshes {
        for slots in &m.bone_indices {
            assert!(slots.iter().all(|&i| (i as usize) < c.model.bone_names.len()));
        }
    }
    assert_eq!(c.placements, vec![None, None, Some(4)]);
}

#[test]
fn skeleton_builder_is_deterministic() {
    let (meshes, nodes) = two_bone_scene();
    let table = collect_skin(&meshes);
    let flags: Vec<bool> = meshes.iter().map(|m| !m.bones.is_empty()).collect();
    let a = build_skeleton(&nodes, &table, &flags);
    let b2 = build_skeleton(&nodes, &table, &flags);
    assert_eq!(a.bone_names, b2.bone_names);
    assert_eq!(a.inverse_bind_matrices, b2.inverse_bind_matrices);
}

#[test]
fn later_mesh_bone_offset_wins() {
    let mut second = bone("Arm", &[]);
    second.offset_matrix = identity();
    let meshes = vec![triangle(vec![bone("Arm", &[])]), triangle(vec![second])];
    let table = collect_skin(&meshes);
    assert_eq!(table.len(), 2);
    assert_eq!(find_offset(&table, &"Arm".to_string()), Some(matrix_to_raw(identity())));
    assert_eq!(find_offset(&table, &"Leg".to_string()), None);
}

#[test]
fn unskinned_mesh_placed_at_its_node() {
    let meshes = vec![triangle(vec![])];
    let nodes = vec![node("Root", 0, vec![]), node("A", 0, vec![]), node("B", 1, vec![0])];
    let c = convert_scene(&meshes, &nodes, &vec![]).ok().unwrap();
    assert_eq!(c.placements, vec![Some(2)]);
    assert!(c.model.bone_names.is_empty());
    assert_eq!(world_path(&nodes, 2), vec![0, 1, 2]);
    assert_eq!(world_path(&nodes, 0), vec![0]);
}

#[test]
fn missing_bone_is_reported() {
    let meshes = vec![triangle(vec![bone("Ghost", &[(0, 1.0)])])];
    let nodes = vec![node("Root", 0, vec![0])];
    match convert_scene(&meshes, &nodes, &vec![]) {
        Err(RemapError::MissingBone { mesh, name }) => {
            assert_eq!(mesh, 0);
            assert_eq!(name, "Ghost");
        }
        other => panic!("unexpected {:?}", other.map(|c| c.model.bone_names)),
    }
}

#[test]
fn slot_out_of_range_is_reported() {
    let mut m = pack_mesh(&triangle(vec![bone("A", &[(0, 1.0)])]));
    m.bone_indices[2] = [7, 0, 0, 0];
    let mut meshes = vec![m];
    let r = remap_bone_indices(&mut meshes, &vec!["A".to_string()]);
    assert!(matches!(r, Err(RemapError::SlotOutOfRange { mesh: 0, vertex: 2 })));
}

#[test]
fn material_reads_name_and_paths() {
    let r = extract_material(&red_material());
    assert_eq!(r.name, "Red");
    assert_eq!(r.diffuse_texture_path, "red.png");
    assert_eq!(r.normals_texture_path, "");
    assert_eq!(r.specular_texture_path, "");
}

#[test]
fn texture_slot_map_wins_over_properties() {
    let mut m = red_material();
    m.properties.push(text_prop("$tex.file", TextureType::Normals, "n.png"));
    m.properties.push(MaterialProperty {
        key: "$mat.name".to_string(),
        semantic: TextureType::Other,
        data: PropertyTypeInfo::IntegerArray,
    });
    m.properties.push(text_prop("$tex.file", TextureType::Specular, "ignored.png"));
    m.textures = vec![
        TextureSlot { kind: TextureType::Diffuse, filename: "slot.png".to_string() },
        TextureSlot { kind: TextureType::Specular, filename: "spec.png".to_string() },
    ];
    let r = extract_material(&m);
    assert_eq!(r.name, "Red");
    assert_eq!(r.diffuse_texture_path, "slot.png");
    assert_eq!(r.normals_texture_path, "n.png");
    assert_eq!(r.specular_texture_path, "spec.png");
}

#[test]
fn empty_model_encodes_four_empty_arrays() {
    let m = SerializedModel { meshes: vec![], materials: vec![], bone_names: vec![], inverse_bind_matrices: vec![] };
    assert!(is_encodable(&m));
    assert_eq!(encode_model(&m), Some(vec![0x90, 0x90, 0x90, 0x90]));
}

#[test]
fn float_encoding_is_marker_then_big_endian() {
    let mut buf = vec![];
    put_float(&mut buf, b(1.5));
    assert_eq!(buf, vec![0xca, 0x3f, 0xc0, 0x00, 0x00]);
}

#[test]
fn names_and_indices_use_msgpack_sizes() {
    let m = SerializedModel {
        meshes: vec![],
        materials: vec![SerializedMaterial {
            name: "x".repeat(40),
            diffuse_texture_path: String::new(),
            normals_texture_path: "n".to_string(),
            specular_texture_path: String::new(),
        }],
        bone_names: vec!["é".to_string()],
        inverse_bind_matrices: vec![[[0; 4]; 4]],
    };
    let bytes = encode_model(&m).unwrap();
    let mut expected = vec![0x90, 0x91, 0xd9, 40];
    expected.extend(std::iter::repeat(b'x').take(40));
    expected.extend([0xa0, 0xa1, b'n', 0xa0, 0x91, 0xa2, 0xc3, 0xa9, 0x91]);
    for _ in 0..16 {
        expected.extend([0xca, 0, 0, 0, 0]);
    }
    assert_eq!(bytes, expected);
}

fn take<T: Unpackable>(buf: &[u8], at: &mut usize) -> T {
    let (n, v) = T::unpack_with_ofs(&buf[*at..]).ok().unwrap();
    *at += n;
    v
}

#[test]
fn single_red_triangle_scene() {
    let meshes = vec![triangle(vec![])];
    let nodes = vec![node("Root", 0, vec![0])];
    let c = convert_scene(&meshes, &nodes, &vec![red_material()]).ok().unwrap();
    let model = &c.model;
    assert_eq!(model.meshes.len(), 1);
    let mesh: &SerializedMesh = &model.meshes[0];
    assert_eq!(mesh.positions.len(), 3);
    assert_eq!(mesh.indices.len() / 3, 1);
    assert_eq!(mesh.scale, [b(1.0); 3]);
    assert_eq!(mesh.rotation, [b(0.0), b(0.0), b(0.0), b(1.0)]);
    assert_eq!(mesh.translation, [b(0.0); 3]);
    assert_eq!(model.materials.len(), 1);
    assert_eq!(model.materials[0].name, "Red");
    assert_eq!(model.materials[0].diffuse_texture_path, "red.png");
    assert_eq!(model.materials[0].normals_texture_path, "");
    assert_eq!(model.materials[0].specular_texture_path, "");
    assert_eq!(c.placements, vec![Some(0)]);
}

#[test]
fn encoded_model_decodes_to_same_fields() {
    let (mut meshes, mut nodes) = two_bone_scene();
    meshes.truncate(1);
    nodes[4].meshes = vec![0];
    let c = convert_scene(&meshes, &nodes, &vec![red_material()]).ok().unwrap();
    let model = c.model;
    let bytes = encode_model(&model).unwrap();
    let mut at = 0usize;
    assert_eq!(bytes[0], 0x91);
    at += 1;
    let m = &model.meshes[0];
    let positions: Vec<[f32; 3]> = take(&bytes, &mut at);
    assert_eq!(positions.iter().map(|p| p.map(f32::to_bits)).collect::<Vec<_>>(), m.positions);
    let normals: Vec<[f32; 3]> = take(&bytes, &mut at);
    assert_eq!(normals.iter().map(|p| p.map(f32::to_bits)).collect::<Vec<_>>(), m.normals);
    let uvs: Vec<[f32; 2]> = take(&bytes, &mut at);
    assert_eq!(uvs.iter().map(|p| p.map(f32::to_bits)).collect::<Vec<_>>(), m.uvs);
    let indices: Vec<u32> = take(&bytes, &mut at);
    assert_eq!(indices, m.indices);
    let material_index: u32 = take(&bytes, &mut at);
    assert_eq!(material_index, m.material_index);
    for expected in [m.min_extents, m.max_extents, m.dimensions, m.scale] {
        let v: [f32; 3] = take(&bytes, &mut at);
        assert_eq!(v.map(f32::to_bits), expected);
    }
    let rotation: [f32; 4] = take(&bytes, &mut at);
    assert_eq!(rotation.map(f32::to_bits), m.rotation);
    let translation: [f32; 3] = take(&bytes, &mut at);
    assert_eq!(translation.map(f32::to_bits), m.translation);
    let bone_indices: Vec<[u32; 4]> = take(&bytes, &mut at);
    assert_eq!(bone_indices, m.bone_indices);
    let bone_weights: Vec<[f32; 4]> = take(&bytes, &mut at);
    assert_eq!(bone_weights.iter().map(|p| p.map(f32::to_bits)).collect::<Vec<_>>(), m.bone_weights);
    assert_eq!(bytes[at], 0x91);
    at += 1;
    for expected in ["Red", "red.png", "", ""] {
        let s: String = take(&bytes, &mut at);
        assert_eq!(s, expected);
    }
    let names: Vec<String> = take(&bytes, &mut at);
    assert_eq!(names, model.bone_names);
    let matrices: Vec<[[f32; 4]; 4]> = take(&bytes, &mut at);
    assert_eq!(matrices.iter().map(|m| m.map(|c| c.map(f32::to_bits))).collect::<Vec<_>>(), model.inverse_bind_matrices);
    assert_eq!(at, bytes.len());
}

#[test]
fn wide_lengths_and_values_use_wider_headers() {
    let mut mesh = pack_mesh(&triangle(vec![]));
    mesh.indices = vec![300, 70000];
    mesh.material_index = 200;
    let m = SerializedModel {
        meshes: vec![mesh],
        materials: vec![],
        bone_names: (0..16).map(|i| format!("b{}", i % 10)).collect(),
        inverse_bind_matrices: vec![],
    };
    let bytes = encode_model(&m).unwrap();
    let find = |pat: &[u8]| bytes.windows(pat.len()).any(|w| w == pat);
    assert!(find(&[0x92, 0xcd, 0x01, 0x2c, 0xce, 0x00, 0x01, 0x11, 0x70, 0xcc, 200]));
    assert!(find(&[0x90, 0xdc, 0x00, 0x10, 0xa2, b'b', b'0']));
    assert_eq!(&bytes[bytes.len() - 1..], &[0x90]);
}

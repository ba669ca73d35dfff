use glam::{Mat4, Quat, Vec2, Vec3};
use small_gl_core::assimp_scene::combine_flags;
use small_gl_core::error::Error;
use small_gl_core::model::{
    apply_weights, check_weights, MeshBone, ModelBuilder, VertexWeight,
};
use small_gl_core::model_animation::{
    check_channels, BoneData, BoneDataMap, ModelAnimation, NodeData, MAX_BONES,
};
use small_gl_core::model_mesh::ModelVertex;
use small_gl_core::names::find_named;
use small_gl_core::node_animation::{KeyPosition, KeyRotation, KeyScale, NodeAnimation};
use small_gl_core::texture::{TextureFilter, TextureType, TextureWrap};

fn bone(name: &str, weights: &[(u32, f32)]) -> MeshBone {
    MeshBone {
        name: name.to_string(),
        offset_matrix: Mat4::from_translation(Vec3::new(1.0, 2.0, 3.0)),
        weights: weights
            .iter()
            .map(|(vertex_id, weight)| VertexWeight { vertex_id: *vertex_id, weight: weight.to_bits() })
            .collect(),
    }
}

fn builder() -> ModelBuilder {
    ModelBuilder::new("guy".to_string(), "assets/guy.fbx".to_string())
}

#[test]
fn bone_indices_are_dense_in_first_seen_order() {
    let mut builder = builder();
    let mut first_mesh = vec![ModelVertex::new(); 3];
    let mut second_mesh = vec![ModelVertex::new(); 2];
    let done = builder.extract_bone_weights_for_vertices(
        &mut first_mesh,
        &vec![bone("Hip", &[(0, 1.0)]), bone("Spine", &[(1, 1.0)]), bone("Hip", &[(2, 0.5)])],
    );
    assert_eq!(done, Ok(()));
    let done = builder.extract_bone_weights_for_vertices(
        &mut second_mesh,
        &vec![bone("Head", &[(0, 1.0)]), bone("Spine", &[(1, 1.0)])],
    );
    assert_eq!(done, Ok(()));
    let names: Vec<&str> = builder.bone_data_map.bones.iter().map(|b| b.name.as_str()).collect();
    assert_eq!(names, vec!["Hip", "Spine", "Head"]);
    let mut indices: Vec<i32> = builder.bone_data_map.bones.iter().map(|b| b.bone_index).collect();
    indices.sort();
    assert_eq!(indices, vec![0, 1, 2]);
    assert_eq!(builder.bone_count, 3);
    assert_eq!(builder.bone_data_map.len(), 3);
    assert_eq!(first_mesh[2].bone_ids, [0, -1, -1, -1]);
    assert_eq!(second_mesh[1].bone_ids, [1, -1, -1, -1]);
    assert_eq!(second_mesh[0].bone_ids, [2, -1, -1, -1]);
}

#[test]
fn registered_bone_keeps_its_index_and_offset() {
    let mut bones = BoneDataMap::new();
    let first = Mat4::from_translation(Vec3::new(1.0, 0.0, 0.0));
    let second = Mat4::from_translation(Vec3::new(0.0, 7.0, 0.0));
    assert_eq!(bones.register(&"Hip".to_string(), first), Ok(0));
    assert_eq!(bones.register(&"Spine".to_string(), second), Ok(1));
    assert_eq!(bones.register(&"Hip".to_string(), second), Ok(0));
    assert_eq!(bones.len(), 2);
    let hip = bones.get(&"Hip".to_string()).unwrap();
    assert_eq!(hip.bone_index, 0);
    assert_eq!(hip.offset_transform.translation, Vec3::new(1.0, 0.0, 0.0));
    assert!(bones.get(&"Head".to_string()).is_none());
}

#[test]
fn more_bones_than_matrices_are_refused() {
    let mut bones = BoneDataMap::new();
    for i in 0..MAX_BONES {
        assert_eq!(bones.register(&format!("bone{}", i), Mat4::IDENTITY), Ok(i as i32));
    }
    assert_eq!(bones.register(&"one more".to_string(), Mat4::IDENTITY), Err(Error::TooManyBones));
    assert_eq!(bones.len(), MAX_BONES);
    assert_eq!(bones.register(&"bone42".to_string(), Mat4::IDENTITY), Ok(42));

    let mut builder = builder();
    builder.bone_data_map = bones;
    builder.bone_count = MAX_BONES as i32;
    let mut vertices = vec![ModelVertex::new(); 1];
    let done = builder.extract_bone_weights_for_vertices(
        &mut vertices,
        &vec![bone("bone7", &[(0, 1.0)]), bone("new", &[(0, 1.0)])],
    );
    assert_eq!(done, Err(Error::TooManyBones));
    assert_eq!(vertices[0].bone_ids, [7, -1, -1, -1]);
}

#[test]
fn weight_on_a_missing_vertex_is_refused() {
    let mut builder = builder();
    let mut vertices = vec![ModelVertex::new(); 2];
    let done = builder.extract_bone_weights_for_vertices(
        &mut vertices,
        &vec![bone("Hip", &[(0, 1.0), (2, 1.0)])],
    );
    assert_eq!(done, Err(Error::VertexOutOfRange));
    assert!(!check_weights(&bone("Hip", &[(2, 1.0)]).weights, 2));
    assert!(check_weights(&bone("Hip", &[(1, 1.0)]).weights, 2));
}

#[test]
fn vertex_takes_four_bones_and_no_more() {
    let mut vertex = ModelVertex::new();
    assert_eq!(vertex.bone_ids, [-1; 4]);
    assert_eq!(vertex.bone_weights, [0; 4]);
    for (id, weight) in [(7, 0.4f32), (3, 0.3), (9, 0.2), (1, 0.1), (5, 0.05)] {
        vertex.set_bone_data(id, weight.to_bits());
    }
    assert_eq!(vertex.bone_ids, [7, 3, 9, 1]);
    let weights: Vec<f32> = vertex.bone_weights.iter().map(|bits| f32::from_bits(*bits)).collect();
    assert_eq!(weights, vec![0.4, 0.3, 0.2, 0.1]);
    vertex.set_bone_data_to_default();
    assert_eq!(vertex.bone_ids, [-1; 4]);
    assert_eq!(vertex.bone_weights, [0; 4]);
}

#[test]
fn new_vertex_lies_at_the_origin() {
    let vertex = ModelVertex::new();
    assert_eq!(vertex.position, Vec3::ZERO);
    assert_eq!(vertex.normal, Vec3::ZERO);
    assert_eq!(vertex.uv, Vec2::ZERO);
    assert_eq!(vertex.tangent, Vec3::ZERO);
    assert_eq!(vertex.bi_tangent, Vec3::ZERO);
    let other = ModelVertex::default();
    assert_eq!(other.bone_ids, [-1; 4]);
}

#[test]
fn weights_go_to_their_vertices_in_order() {
    let mut vertices = vec![ModelVertex::new(); 3];
    vertices[1].position = Vec3::new(1.0, 1.0, 1.0);
    let weights = bone("Hip", &[(1, 0.5), (0, 0.25), (1, 0.75)]).weights;
    apply_weights(&mut vertices, &weights, 6);
    assert_eq!(vertices[0].bone_ids, [6, -1, -1, -1]);
    assert_eq!(vertices[1].bone_ids, [6, 6, -1, -1]);
    assert_eq!(vertices[1].bone_weights[0], 0.5f32.to_bits());
    assert_eq!(vertices[1].bone_weights[1], 0.75f32.to_bits());
    assert_eq!(vertices[2].bone_ids, [-1; 4]);
    assert_eq!(vertices[1].position, Vec3::new(1.0, 1.0, 1.0));
}

#[test]
fn builder_collects_its_settings() {
    let plain = builder();
    assert_eq!(plain.name, "guy");
    assert_eq!(plain.filepath, "assets/guy.fbx");
    assert!(plain.load_textures && !plain.flip_v && !plain.flip_h && !plain.gamma_correction);
    assert_eq!(plain.mesh_count, 0);
    let built = builder()
        .flipv()
        .correct_gamma()
        .skip_textures()
        .add_texture("body".to_string(), TextureType::Diffuse, "body.png".to_string())
        .add_texture("body".to_string(), TextureType::Normal, "body_n.png".to_string());
    assert!(built.flip_v && built.gamma_correction && !built.load_textures);
    assert_eq!(built.added_textures.len(), 2);
    assert_eq!(built.added_textures[1].texture_filename, "body_n.png");
    assert_eq!(built.added_textures[1].texture_type, TextureType::Normal);
    assert_eq!(built.added_textures[0].mesh_name, "body");
    let config = built.texture_config(TextureType::Specular);
    assert_eq!(config.texture_type, TextureType::Specular);
    assert_eq!(config.filter, TextureFilter::Linear);
    assert_eq!(config.wrap, TextureWrap::Repeat);
    assert!(config.flip_v && config.gamma_correction);
}

#[test]
fn bone_data_splits_its_offset_matrix() {
    let offset = Mat4::from_scale_rotation_translation(
        Vec3::splat(2.0),
        Quat::from_rotation_z(0.5),
        Vec3::new(4.0, 5.0, 6.0),
    );
    let made = BoneData::new("Hip", 3, offset);
    assert_eq!(made.name, "Hip");
    assert_eq!(made.bone_index, 3);
    assert!(made.offset_transform.translation.abs_diff_eq(Vec3::new(4.0, 5.0, 6.0), 1e-6));
    assert!(made.offset_transform.scale.abs_diff_eq(Vec3::splat(2.0), 1e-6));
    assert!(made.offset_transform.rotation.abs_diff_eq(Quat::from_rotation_z(0.5), 1e-6));
}

#[test]
fn node_keeps_its_matrix_and_its_parts() {
    let matrix = Mat4::from_translation(Vec3::new(0.0, 1.0, 0.0));
    let made = NodeData::with_matrix("Hip".to_string(), matrix, vec![NodeData::new()], vec![2]);
    assert_eq!(made.transform_matrix, matrix);
    assert_eq!(made.transform.translation, Vec3::new(0.0, 1.0, 0.0));
    assert_eq!(made.children.len(), 1);
    assert_eq!(made.children[0].name, "");
    assert_eq!(made.children[0].transform_matrix, Mat4::IDENTITY);
    assert_eq!(made.meshes, vec![2]);
    assert!(made.meshes_in_range(3));
    assert!(!made.meshes_in_range(2));
    let empty = NodeData::default();
    assert_eq!(empty.transform.scale, Vec3::ONE);
    assert!(empty.meshes_in_range(0));
}

#[test]
fn mesh_check_looks_below_the_node() {
    let deep = NodeData::with_matrix("Deep".to_string(), Mat4::IDENTITY, vec![], vec![10]);
    let middle = NodeData::with_matrix("Middle".to_string(), Mat4::IDENTITY, vec![deep], vec![]);
    let top = NodeData::with_matrix("Top".to_string(), Mat4::IDENTITY, vec![middle], vec![1]);
    assert!(top.meshes_in_range(11));
    assert!(!top.meshes_in_range(10));
}

#[test]
fn channels_are_checked_against_the_bones() {
    let channel = |name: &str| {
        NodeAnimation::new(
            name.to_string(),
            vec![KeyPosition { position: Vec3::ZERO, time_stamp: 0 }],
            vec![KeyRotation { orientation: Quat::IDENTITY, time_stamp: 0 }],
            vec![KeyScale { scale: Vec3::ONE, time_stamp: 0 }],
        )
        .unwrap()
    };
    let mut bones = BoneDataMap::new();
    bones.register(&"Hip".to_string(), Mat4::IDENTITY).unwrap();
    bones.register(&"Spine".to_string(), Mat4::IDENTITY).unwrap();
    assert!(check_channels(&vec![channel("Spine"), channel("Hip")], &bones));
    assert!(!check_channels(&vec![channel("Spine"), channel("Tail")], &bones));
    assert!(check_channels(&vec![], &bones));
    assert_eq!(find_named(&bones.bones, &"Spine".to_string()), Some(1));
    assert_eq!(find_named(&bones.bones, &"Tail".to_string()), None);
}

#[test]
fn default_model_animation_is_empty() {
    let empty = ModelAnimation::default();
    assert_eq!(empty.duration, 0);
    assert_eq!(empty.ticks_per_second, 0);
    assert_eq!(empty.bone_data_map.len(), 0);
    assert_eq!(empty.global_inverse_transform, Mat4::IDENTITY);
}

#[test]
fn import_flags_are_folded_with_or() {
    assert_eq!(combine_flags(&vec![]), 0);
    assert_eq!(combine_flags(&vec![0x8, 0x40, 0x800000, 0x1, 0x20000]), 0x820049);
    assert_eq!(combine_flags(&vec![0x8, 0x8, 0xC]), 0xC);
}

#[test]
fn bone_map_with_a_gap_is_not_valid() {
    let mut bones = BoneDataMap::new();
    assert!(bones.is_valid());
    bones.register(&"Hip".to_string(), Mat4::IDENTITY).unwrap();
    bones.register(&"Spine".to_string(), Mat4::IDENTITY).unwrap();
    assert!(bones.is_valid());
    bones.bones[1].bone_index = 2;
    assert!(!bones.is_valid());
    bones.bones[1].bone_index = 1;
    bones.bones[1].name = "Hip".to_string();
    assert!(!bones.is_valid());
}

#[test]
fn builder_is_valid_while_its_count_matches() {
    let mut builder = builder();
    assert!(builder.is_valid());
    let mut vertices = vec![ModelVertex::new(); 1];
    builder
        .extract_bone_weights_for_vertices(&mut vertices, &vec![bone("Hip", &[(0, 1.0)])])
        .unwrap();
    assert!(builder.is_valid());
    builder.bone_count = 5;
    assert!(!builder.is_valid());
}

#[test]
fn faulty_bone_leaves_no_trace() {
    let mut builder = builder();
    let mut vertices = vec![ModelVertex::new(); 2];
    let done = builder.extract_bone_weights_for_vertices(
        &mut vertices,
        &vec![bone("Hip", &[(1, 1.0)]), bone("Spine", &[(0, 1.0), (5, 1.0)]), bone("Head", &[(0, 1.0)])],
    );
    assert_eq!(done, Err(Error::VertexOutOfRange));
    assert_eq!(builder.bone_data_map.len(), 1);
    assert_eq!(builder.bone_count, 1);
    assert_eq!(vertices[0].bone_ids, [-1; 4]);
    assert_eq!(vertices[1].bone_ids, [0, -1, -1, -1]);
}

#[test]
fn model_animation_is_valid_as_built() {
    let root = NodeData::with_matrix("Root".to_string(), Mat4::IDENTITY, vec![], vec![1]);
    let mut model = ModelAnimation::new(root, None, BoneDataMap::new()).unwrap();
    assert!(model.is_valid());
    model.root_node.meshes.push(50);
    assert!(!model.is_valid());
    model.root_node.meshes.pop();
    model.node_animations.push(NodeAnimation {
        name: "Root".to_string(),
        positions: vec![],
        rotations: vec![],
        scales: vec![],
    });
    assert!(!model.is_valid());
    assert!(!model.node_animations[0].is_valid());
}

use glam::{Mat4, Quat, Vec3};
use small_gl_core::animator::{
    calculate_transform_maps, step_ticks, AnimationClip, AnimationRepeat, AnimationTransition,
    Animator, NodeEntry, NodeTransform, PlayingAnimation,
};
use small_gl_core::error::Error;
use small_gl_core::math::Ratio;
use small_gl_core::model_animation::{
    AnimationData, BoneDataMap, ModelAnimation, NodeData, MAX_BONES, MAX_MESHES,
};
use small_gl_core::node_animation::{KeyPosition, KeyRotation, KeyScale, NodeAnimation};
use small_gl_core::transform::Transform;

const TICK: i64 = 1_000_000;
const SECOND: u64 = 1_000_000;

fn node(name: &str, matrix: Mat4, children: Vec<NodeData>, meshes: Vec<u32>) -> NodeData {
    NodeData::with_matrix(name.to_string(), matrix, children, meshes)
}

fn channel(name: &str, keys: &[(i64, Vec3)]) -> NodeAnimation {
    NodeAnimation::new(
        name.to_string(),
        keys.iter().map(|(t, p)| KeyPosition { position: *p, time_stamp: *t * TICK }).collect(),
        vec![KeyRotation { orientation: Quat::IDENTITY, time_stamp: 0 }],
        vec![KeyScale { scale: Vec3::ONE, time_stamp: 0 }],
    )
    .unwrap()
}

fn playing(start: i64, end: i64, repeat: AnimationRepeat, rate: u64) -> PlayingAnimation {
    PlayingAnimation::start(AnimationClip::new(start * TICK, end * TICK, repeat), rate)
}

fn spine_model(rate: u64) -> ModelAnimation {
    let root = node(
        "Root",
        Mat4::IDENTITY,
        vec![node("Spine", Mat4::IDENTITY, vec![], vec![0])],
        vec![],
    );
    let mut bones = BoneDataMap::new();
    assert_eq!(bones.register(&"Spine".to_string(), Mat4::IDENTITY), Ok(0));
    let data = AnimationData {
        duration: 10 * TICK,
        ticks_per_second: rate,
        channels: vec![channel("Spine", &[(0, Vec3::ZERO), (10, Vec3::new(0.0, 5.0, 0.0))])],
    };
    ModelAnimation::new(root, Some(data), bones).unwrap()
}

fn translation_of(matrix: &Mat4) -> Vec3 {
    matrix.w_axis.truncate()
}

#[test]
fn first_update_starts_from_the_first_tick() {
    let mut clip = playing(3, 10, AnimationRepeat::Once, 30);
    assert_eq!(clip.current_tick, -1);
    clip.update(0);
    assert_eq!(clip.current_tick, 3 * TICK);
}

#[test]
fn update_moves_by_rate_times_time() {
    let mut clip = playing(0, 100, AnimationRepeat::Once, 30);
    clip.update(100_000);
    assert_eq!(clip.current_tick, 3 * TICK);
    clip.update(SECOND);
    assert_eq!(clip.current_tick, 33 * TICK);
    assert_eq!(step_ticks(30, 100_000), 3_000_000);
    assert_eq!(step_ticks(u64::MAX, u64::MAX), u64::MAX as u128 * u64::MAX as u128);
}

#[test]
fn endless_clip_wraps_to_its_first_tick() {
    let mut clip = playing(2, 10, AnimationRepeat::Forever, 10);
    clip.update(500_000);
    assert_eq!(clip.current_tick, 7 * TICK);
    // 7 + 5 = 12 is past the end: the position goes back to the first tick
    // itself, and what it ran over is not carried on.
    clip.update(500_000);
    assert_eq!(clip.current_tick, 2 * TICK);
    clip.update(100_000);
    assert_eq!(clip.current_tick, 3 * TICK);
}

#[test]
fn reaching_the_end_exactly_is_not_running_past_it() {
    let mut clip = playing(0, 10, AnimationRepeat::Forever, 10);
    clip.update(SECOND);
    assert_eq!(clip.current_tick, 10 * TICK);
    clip.update(1);
    assert_eq!(clip.current_tick, 0);
}

#[test]
fn clip_played_once_stops_on_its_last_tick() {
    let mut clip = playing(0, 10, AnimationRepeat::Once, 10);
    clip.update(2 * SECOND);
    assert_eq!(clip.current_tick, 10 * TICK);
    clip.update(SECOND);
    assert_eq!(clip.current_tick, 10 * TICK);
    clip.update(0);
    assert_eq!(clip.current_tick, 10 * TICK);
    clip.update(u64::MAX);
    assert_eq!(clip.current_tick, 10 * TICK);
}

#[test]
fn counted_clip_holds_its_last_tick() {
    let mut clip = playing(0, 10, AnimationRepeat::Count(3), 10);
    clip.update(2 * SECOND);
    assert_eq!(clip.current_tick, 10 * TICK);
    clip.update(SECOND);
    assert_eq!(clip.current_tick, 10 * TICK);
    assert_eq!(clip.repeat_completions, 0);
}

#[test]
fn huge_steps_do_not_overflow() {
    let mut clip = PlayingAnimation::start(
        AnimationClip::new(0, i64::MAX, AnimationRepeat::Once),
        u64::MAX,
    );
    clip.update(u64::MAX);
    assert_eq!(clip.current_tick, i64::MAX);
    let mut clip = PlayingAnimation::start(
        AnimationClip::new(i64::MIN, i64::MAX, AnimationRepeat::Once),
        1,
    );
    clip.update(u64::MAX);
    assert_eq!(clip.current_tick, i64::MAX);
}

#[test]
fn transition_weight_falls_in_a_straight_line() {
    let mut animator = Animator::new(spine_model(30));
    let clip = AnimationClip::new(0, 5 * TICK, AnimationRepeat::Forever);
    animator.play_clip_with_transition(&clip, 2 * SECOND);
    assert_eq!(animator.transitions.len(), 1);
    assert_eq!(animator.transitions[0].current_weight(), Ratio::new(2 * SECOND, 2 * SECOND));
    animator.update_transitions(SECOND / 2);
    animator.update_transitions(SECOND / 2);
    let weight = animator.transitions[0].current_weight();
    assert_eq!(weight, Ratio::new(SECOND, 2 * SECOND));
    assert_eq!(weight.num * 2, weight.den);
    animator.update_transitions(SECOND - 1);
    assert_eq!(animator.transitions.len(), 1);
    animator.update_transitions(1);
    assert_eq!(animator.transitions.len(), 0);
}

#[test]
fn transition_of_no_length_leaves_at_once() {
    let mut animator = Animator::new(spine_model(30));
    let clip = AnimationClip::new(0, 5 * TICK, AnimationRepeat::Forever);
    animator.play_clip_with_transition(&clip, 0);
    assert_eq!(animator.transitions.len(), 1);
    animator.update_animation(0);
    assert_eq!(animator.transitions.len(), 0);
}

#[test]
fn transitions_fade_each_on_its_own_and_keep_their_order() {
    let mut animator = Animator::new(spine_model(30));
    let first = AnimationClip::new(0, 5 * TICK, AnimationRepeat::Once);
    let second = AnimationClip::new(1 * TICK, 6 * TICK, AnimationRepeat::Once);
    let third = AnimationClip::new(2 * TICK, 7 * TICK, AnimationRepeat::Once);
    animator.play_clip_with_transition(&first, 3 * SECOND);
    animator.update_transitions(SECOND);
    animator.play_clip_with_transition(&second, SECOND);
    animator.play_clip_with_transition(&third, 4 * SECOND);
    assert_eq!(animator.transitions.len(), 3);
    animator.update_transitions(SECOND);
    // the second transition had one second and is gone
    assert_eq!(animator.transitions.len(), 2);
    assert_eq!(animator.transitions[0].time_left, SECOND);
    assert_eq!(animator.transitions[0].fade_time, 3 * SECOND);
    assert_eq!(animator.transitions[0].animation.animation_clip.end_tick, 10 * TICK);
    assert_eq!(animator.transitions[1].time_left, 3 * SECOND);
    assert_eq!(animator.transitions[1].animation.animation_clip, second);
    assert_eq!(animator.current_animation.animation_clip, third);
}

#[test]
fn play_clip_cuts_to_the_clip_unstarted() {
    let mut animator = Animator::new(spine_model(30));
    animator.update_animation(100_000);
    let clip = AnimationClip::new(4 * TICK, 8 * TICK, AnimationRepeat::Once);
    animator.play_clip(&clip);
    assert_eq!(animator.current_animation.animation_clip, clip);
    assert_eq!(animator.current_animation.current_tick, -1);
    assert_eq!(animator.current_animation.ticks_per_second, 30);
    assert_eq!(animator.transitions.len(), 0);
    animator.update_animation(0);
    assert_eq!(animator.current_animation.current_tick, 4 * TICK);
}

#[test]
fn new_animator_plays_the_whole_animation_without_end() {
    let animator = Animator::new(spine_model(24));
    assert_eq!(
        animator.current_animation,
        PlayingAnimation {
            animation_clip: AnimationClip {
                start_tick: 0,
                end_tick: 10 * TICK,
                repeat: AnimationRepeat::Forever
            },
            current_tick: -1,
            ticks_per_second: 24,
            repeat_completions: 0,
        }
    );
    assert_eq!(animator.final_bone_matrices.len(), MAX_BONES);
    assert_eq!(animator.final_node_matrices.len(), MAX_MESHES);
    assert!(animator.final_bone_matrices.iter().all(|m| *m == Mat4::IDENTITY));
    assert!(animator.final_node_matrices.iter().all(|m| *m == Mat4::IDENTITY));
    assert!(animator.node_transforms.is_empty());
}

#[test]
fn end_to_end_one_tick_of_a_ten_tick_clip() {
    let mut animator = Animator::new(spine_model(30));
    // a thirtieth of a second is not a whole number of microseconds: 33 333
    // of them move the clip 0.99999 ticks
    animator.update_animation(33_333);
    assert_eq!(animator.current_animation.current_tick, 999_990);
    let spine = animator.model_animation.bone_data_map.get(&"Spine".to_string()).unwrap();
    let matrix = animator.final_bone_matrices[spine.bone_index as usize];
    assert!(translation_of(&matrix).abs_diff_eq(Vec3::new(0.0, 0.5, 0.0), 1e-4));
    assert!(animator.final_node_matrices[0].abs_diff_eq(matrix, 1e-6));
}

#[test]
fn end_to_end_exactly_one_tick() {
    let mut animator = Animator::new(spine_model(25));
    animator.update_animation(40_000);
    assert_eq!(animator.current_animation.current_tick, TICK);
    let matrix = animator.final_bone_matrices[0];
    assert!(translation_of(&matrix).abs_diff_eq(Vec3::new(0.0, 0.5, 0.0), 1e-6));
    assert_eq!(animator.final_bone_matrices[1], Mat4::IDENTITY);
    assert_eq!(animator.final_node_matrices[1], Mat4::IDENTITY);
}

#[test]
fn static_hierarchy_under_identity_reproduces_local_transforms() {
    let hip = Mat4::from_scale_rotation_translation(
        Vec3::new(1.0, 2.0, 1.0),
        Quat::from_rotation_y(0.4),
        Vec3::new(1.0, 0.0, -1.0),
    );
    let hand = Mat4::from_translation(Vec3::new(0.0, 3.0, 0.0));
    let root = node(
        "Root",
        Mat4::IDENTITY,
        vec![node("Hip", hip, vec![], vec![]), node("Hand", hand, vec![], vec![])],
        vec![],
    );
    let mut map: Vec<NodeEntry> = Vec::new();
    calculate_transform_maps(&root, &vec![], &mut map, Transform::identity(), 7, Ratio::new(1, 1));
    assert_eq!(map.len(), 3);
    assert_eq!(map[0].name, "Root");
    assert_eq!(map[1].name, "Hip");
    assert_eq!(map[2].name, "Hand");
    for (entry, local) in map.iter().zip([&root, &root.children[0], &root.children[1]]) {
        assert!(entry.node.transform.translation.abs_diff_eq(local.transform.translation, 1e-6));
        assert!(entry.node.transform.rotation.abs_diff_eq(local.transform.rotation, 1e-6));
        assert!(entry.node.transform.scale.abs_diff_eq(local.transform.scale, 1e-6));
    }
}

#[test]
fn walk_visits_parents_before_children_and_composes_down() {
    let step = Mat4::from_translation(Vec3::new(1.0, 0.0, 0.0));
    let root = node(
        "A",
        step,
        vec![
            node("B", step, vec![node("C", step, vec![], vec![2])], vec![1]),
            node("D", step, vec![], vec![]),
        ],
        vec![0],
    );
    let mut map: Vec<NodeEntry> = Vec::new();
    calculate_transform_maps(&root, &vec![], &mut map, Transform::identity(), 0, Ratio::new(1, 1));
    let names: Vec<&str> = map.iter().map(|e| e.name.as_str()).collect();
    assert_eq!(names, vec!["A", "B", "C", "D"]);
    let xs: Vec<f32> = map.iter().map(|e| e.node.transform.translation.x).collect();
    assert_eq!(xs, vec![1.0, 2.0, 3.0, 2.0]);
    assert_eq!(map[2].node.meshes, vec![2]);
}

#[test]
fn second_walk_blends_into_the_entries_of_the_first() {
    let root = node("A", Mat4::IDENTITY, vec![node("B", Mat4::IDENTITY, vec![], vec![])], vec![]);
    let channels = vec![channel("B", &[(0, Vec3::ZERO), (8, Vec3::new(8.0, 0.0, 0.0))])];
    let mut map: Vec<NodeEntry> = Vec::new();
    let parent = Transform::identity();
    calculate_transform_maps(&root, &channels, &mut map, parent, 2 * TICK, Ratio::new(1, 1));
    assert_eq!(map[1].node.transform.translation, Vec3::new(2.0, 0.0, 0.0));
    calculate_transform_maps(&root, &channels, &mut map, parent, 6 * TICK, Ratio::new(1, 2));
    assert_eq!(map.len(), 2);
    assert_eq!(map[1].node.transform.translation, Vec3::new(4.0, 0.0, 0.0));
    calculate_transform_maps(&root, &channels, &mut map, parent, 8 * TICK, Ratio::new(1, 1));
    assert_eq!(map[1].node.transform.translation, Vec3::new(8.0, 0.0, 0.0));
    calculate_transform_maps(&root, &channels, &mut map, parent, 0, Ratio::new(0, 1));
    assert_eq!(map[1].node.transform.translation, Vec3::new(8.0, 0.0, 0.0));
}

#[test]
fn fading_clip_is_blended_behind_the_current_one() {
    let mut animator = Animator::new(spine_model(1));
    // the whole animation has run for 8 s when the fade to a clip of its
    // first two ticks begins
    animator.update_animation(8 * SECOND);
    assert_eq!(animator.current_animation.current_tick, 8 * TICK);
    let clip = AnimationClip::new(0, 2 * TICK, AnimationRepeat::Once);
    animator.play_clip_with_transition(&clip, 4 * SECOND);
    animator.update_animation(SECOND);
    // current: tick 1, y = 0.5; fading: tick 9, y = 4.5, weight 3/4
    assert_eq!(animator.current_animation.current_tick, TICK);
    assert_eq!(animator.transitions[0].animation.current_tick, 9 * TICK);
    assert_eq!(animator.transitions[0].current_weight(), Ratio::new(3 * SECOND, 4 * SECOND));
    let y = translation_of(&animator.final_bone_matrices[0]).y;
    assert!((y - 3.5).abs() < 1e-5);
}

#[test]
fn bone_matrix_applies_the_offset_of_the_bone() {
    let root = node("Root", Mat4::IDENTITY, vec![node("Spine", Mat4::IDENTITY, vec![], vec![])], vec![]);
    let mut bones = BoneDataMap::new();
    let offset = Mat4::from_translation(Vec3::new(0.0, 0.0, -2.0));
    bones.register(&"Spine".to_string(), offset).unwrap();
    let data = AnimationData {
        duration: 10 * TICK,
        ticks_per_second: 1,
        channels: vec![channel("Spine", &[(0, Vec3::new(1.0, 0.0, 0.0))])],
    };
    let mut animator = Animator::new(ModelAnimation::new(root, Some(data), bones).unwrap());
    animator.update_animation(SECOND);
    assert!(translation_of(&animator.final_bone_matrices[0])
        .abs_diff_eq(Vec3::new(1.0, 0.0, -2.0), 1e-6));
}

#[test]
fn root_placement_is_taken_out_of_every_node() {
    let placed = Mat4::from_translation(Vec3::new(0.0, 100.0, 0.0));
    let root = node("Root", placed, vec![node("Spine", Mat4::IDENTITY, vec![], vec![3])], vec![]);
    let mut bones = BoneDataMap::new();
    bones.register(&"Spine".to_string(), Mat4::IDENTITY).unwrap();
    let data = AnimationData { duration: 10 * TICK, ticks_per_second: 1, channels: vec![] };
    let model = ModelAnimation::new(root, Some(data), bones).unwrap();
    assert!(model.global_inverse_transform.abs_diff_eq(placed.inverse(), 1e-6));
    let mut animator = Animator::new(model);
    animator.update_animation(SECOND);
    assert!(translation_of(&animator.final_bone_matrices[0]).abs_diff_eq(Vec3::ZERO, 1e-5));
    assert!(translation_of(&animator.final_node_matrices[3]).abs_diff_eq(Vec3::ZERO, 1e-5));
}

#[test]
fn matrices_without_an_entry_stay_as_they_were() {
    let mut animator = Animator::new(spine_model(1));
    let marker = Mat4::from_scale(Vec3::splat(9.0));
    animator.final_bone_matrices[1] = marker;
    animator.final_node_matrices[7] = marker;
    animator.update_animation(SECOND);
    assert_eq!(animator.final_bone_matrices[1], marker);
    assert_eq!(animator.final_node_matrices[7], marker);
    assert_ne!(animator.final_bone_matrices[0], Mat4::IDENTITY);
}

#[test]
fn last_node_with_a_mesh_decides_its_matrix() {
    let a = Mat4::from_translation(Vec3::new(1.0, 0.0, 0.0));
    let b = Mat4::from_translation(Vec3::new(0.0, 2.0, 0.0));
    let root = node(
        "Root",
        Mat4::IDENTITY,
        vec![node("A", a, vec![], vec![4]), node("B", b, vec![], vec![4, 5])],
        vec![],
    );
    let data = AnimationData { duration: TICK, ticks_per_second: 1, channels: vec![] };
    let model = ModelAnimation::new(root, Some(data), BoneDataMap::new()).unwrap();
    let mut animator = Animator::new(model);
    animator.update_animation(0);
    assert!(translation_of(&animator.final_node_matrices[4]).abs_diff_eq(Vec3::new(0.0, 2.0, 0.0), 1e-6));
    assert!(translation_of(&animator.final_node_matrices[5]).abs_diff_eq(Vec3::new(0.0, 2.0, 0.0), 1e-6));
}

#[test]
fn node_transform_keeps_what_it_is_given() {
    let transform = Transform {
        translation: Vec3::new(1.0, 2.0, 3.0),
        rotation: Quat::from_rotation_x(1.0),
        scale: Vec3::splat(2.0),
    };
    let meshes = vec![3, 1, 4];
    let made = NodeTransform::new(transform, &meshes);
    assert_eq!(made.transform, transform);
    assert_eq!(made.meshes, meshes);
}

#[test]
fn clip_keeps_its_bounds() {
    let clip = AnimationClip::new(5, 9, AnimationRepeat::Count(2));
    assert_eq!(clip.start_tick, 5);
    assert_eq!(clip.end_tick, 9);
    assert_eq!(clip.repeat, AnimationRepeat::Count(2));
}

#[test]
fn transition_reports_its_weight() {
    let transition = AnimationTransition {
        time_left: 3,
        fade_time: 12,
        animation: playing(0, 1, AnimationRepeat::Once, 1),
    };
    assert_eq!(transition.current_weight(), Ratio { num: 3, den: 12 });
}

#[test]
fn model_without_an_animation_is_empty() {
    let root = node("Root", Mat4::from_scale(Vec3::splat(2.0)), vec![], vec![99]);
    let model = ModelAnimation::new(root, None, BoneDataMap::new()).unwrap();
    assert_eq!(model.duration, 0);
    assert_eq!(model.ticks_per_second, 0);
    assert_eq!(model.root_node.name, "");
    assert!(model.root_node.children.is_empty());
    assert!(model.node_animations.is_empty());
    assert_eq!(model.global_inverse_transform, Mat4::IDENTITY);
    let mut animator = Animator::new(model);
    animator.update_animation(SECOND);
    assert_eq!(animator.current_animation.current_tick, 0);
}

#[test]
fn channel_without_a_bone_is_refused() {
    let root = node("Root", Mat4::IDENTITY, vec![], vec![]);
    let data = AnimationData {
        duration: TICK,
        ticks_per_second: 1,
        channels: vec![channel("Tail", &[(0, Vec3::ZERO)])],
    };
    let made = ModelAnimation::new(root, Some(data), BoneDataMap::new());
    assert_eq!(made.err(), Some(Error::MissingBone));
}

#[test]
fn mesh_without_a_node_matrix_is_refused() {
    let root = node(
        "Root",
        Mat4::IDENTITY,
        vec![node("Deep", Mat4::IDENTITY, vec![], vec![MAX_MESHES as u32])],
        vec![(MAX_MESHES - 1) as u32],
    );
    let data = AnimationData { duration: TICK, ticks_per_second: 1, channels: vec![] };
    let made = ModelAnimation::new(root, Some(data), BoneDataMap::new());
    assert_eq!(made.err(), Some(Error::MeshOutOfRange));
}

#[test]
fn animator_is_valid_with_all_its_matrices() {
    let mut animator = Animator::new(spine_model(30));
    assert!(animator.is_valid());
    animator.update_animation(SECOND);
    assert!(animator.is_valid());
    animator.final_bone_matrices.pop();
    assert!(!animator.is_valid());
    animator.final_bone_matrices.push(Mat4::IDENTITY);
    animator.node_transforms[0].node.meshes.push(MAX_MESHES as u32);
    assert!(!animator.is_valid());
}

#[test]
fn each_node_has_one_entry_however_many_clips_meet() {
    let mut animator = Animator::new(spine_model(1));
    let clip = AnimationClip::new(0, 4 * TICK, AnimationRepeat::Forever);
    animator.play_clip_with_transition(&clip, 10 * SECOND);
    animator.play_clip_with_transition(&clip, 10 * SECOND);
    animator.update_animation(SECOND);
    assert_eq!(animator.transitions.len(), 2);
    let names: Vec<&str> = animator.node_transforms.iter().map(|e| e.name.as_str()).collect();
    assert_eq!(names, vec!["Root", "Spine"]);
    assert_eq!(Ratio::full(), Ratio::new(1, 1));
}

//! Playback: the position of a clip that is playing, the clips that fade out
//! behind it, and the walk over a model's hierarchy that turns them into bone
//! matrices, once per frame.
//!
//! A frame's length is a whole number of microseconds and a clip position a
//! whole number of micro-ticks, so a rate of `r` ticks per second moves the
//! position by `r` micro-ticks in each microsecond.
use crate::math::Ratio;
use crate::model_animation::{channels_wf, BoneData, ModelAnimation, NodeData, MAX_BONES, MAX_MESHES};
use crate::names::{
    distinct, find_named, last_position, lemma_absent_is_no_position, lemma_first_is_position,
    lemma_last_is_first, lemma_last_position, lemma_position, names, position, Named,
};
use crate::node_animation::NodeAnimation;
use crate::transform::Transform;
use vstd::prelude::*;

verus! {

/// What a clip does when it reaches its end.
#[derive(Debug, Clone, Copy, PartialEq, Eq, Structural)]
pub enum AnimationRepeat {
    /// Stay on the last tick.
    Once,
    /// Stay on the last tick; the count is kept for the caller.
    Count(u32),
    /// Start again from the first tick.
    Forever,
}

/// A stretch of an animation, from `start_tick` to `end_tick`.
#[derive(Debug, Clone, Copy, PartialEq, Eq, Structural)]
pub struct AnimationClip {
    pub start_tick: i64,
    pub end_tick: i64,
    pub repeat: AnimationRepeat,
}

impl AnimationClip {
    pub fn new(start_tick: i64, end_tick: i64, repeat: AnimationRepeat) -> (clip: Self)
        ensures
            clip == (AnimationClip { start_tick, end_tick, repeat }),
    {
        AnimationClip { start_tick, end_tick, repeat }
    }

    /// Where a position that has run past the end of this clip is put.
    pub open spec fn after_end(self) -> int {
        match self.repeat {
            AnimationRepeat::Once => self.end_tick as int,
            AnimationRepeat::Count(_) => self.end_tick as int,
            AnimationRepeat::Forever => self.start_tick as int,
        }
    }
}

/// A clip being played. A negative `current_tick` says that it has not
/// started; the first update starts it from the clip's first tick.
#[derive(Debug, Clone, Copy, PartialEq, Eq, Structural)]
pub struct PlayingAnimation {
    pub animation_clip: AnimationClip,
    pub current_tick: i64,
    pub ticks_per_second: u64,
    pub repeat_completions: u32,
}

impl PlayingAnimation {
    /// The position from which an update moves on: the clip's first tick if
    /// the clip has not started.
    pub open spec fn base_tick(self) -> int {
        if self.current_tick < 0 {
            self.animation_clip.start_tick as int
        } else {
            self.current_tick as int
        }
    }

    /// The position after `delta_time` microseconds: moved on by the rate,
    /// and put where the repeat policy says if that is past the end.
    pub open spec fn tick_after(self, delta_time: int) -> int {
        let moved = self.base_tick() + self.ticks_per_second * delta_time;
        if moved > self.animation_clip.end_tick {
            self.animation_clip.after_end()
        } else {
            moved
        }
    }

    /// This animation after `delta_time` microseconds.
    pub open spec fn advanced(self, delta_time: int) -> PlayingAnimation {
        PlayingAnimation { current_tick: self.tick_after(delta_time) as i64, ..self }
    }

    /// A clip that has not started, to be played at the given rate.
    pub fn start(clip: AnimationClip, ticks_per_second: u64) -> (playing: Self)
        ensures
            playing == (PlayingAnimation {
                animation_clip: clip,
                current_tick: -1i64,
                ticks_per_second,
                repeat_completions: 0,
            }),
    {
        PlayingAnimation {
            animation_clip: clip,
            current_tick: -1,
            ticks_per_second,
            repeat_completions: 0,
        }
    }

    /// Moves the position on by `delta_time` microseconds. Past the end of
    /// the clip, `Once` and `Count` stay on the last tick and `Forever`
    /// starts again from the first tick.
    pub fn update(&mut self, delta_time: u64)
        ensures
            *final(self) == old(self).advanced(delta_time as int),
            final(self).current_tick == old(self).tick_after(delta_time as int),
    {
        if self.current_tick < 0 {
            self.current_tick = self.animation_clip.start_tick;
        }
        let step: u128 = step_ticks(self.ticks_per_second, delta_time);
        let end_tick: i64 = self.animation_clip.end_tick;
        let past_end: bool = if self.current_tick > end_tick {
            true
        } else {
            let room: u128 = (end_tick as i128 - self.current_tick as i128) as u128;
            step > room
        };
        if past_end {
            match self.animation_clip.repeat {
                AnimationRepeat::Once => {
                    self.current_tick = end_tick;
                },
                AnimationRepeat::Count(_) => {
                    self.current_tick = end_tick;
                },
                AnimationRepeat::Forever => {
                    self.current_tick = self.animation_clip.start_tick;
                },
            }
        } else {
            self.current_tick = (self.current_tick as i128 + step as i128) as i64;
        }
    }
}

/// The micro-ticks that a clip at `ticks_per_second` moves in `delta_time`
/// microseconds.
pub fn step_ticks(ticks_per_second: u64, delta_time: u64) -> (step: u128)
    ensures
        step == ticks_per_second * delta_time,
{
    assert(ticks_per_second * delta_time <= u64::MAX * u64::MAX) by (nonlinear_arith)
        requires
            ticks_per_second <= u64::MAX,
            delta_time <= u64::MAX,
    ;
    ticks_per_second as u128 * delta_time as u128
}

/// An endless clip that runs past its end starts again from its first tick.
pub proof fn lemma_forever_wraps(playing: PlayingAnimation, delta_time: int)
    requires
        playing.animation_clip.repeat == AnimationRepeat::Forever,
        playing.base_tick() + playing.ticks_per_second * delta_time
            > playing.animation_clip.end_tick,
    ensures
        playing.advanced(delta_time).current_tick == playing.animation_clip.start_tick,
{
}

/// A clip played once that runs past its end stops on its last tick, and
/// every later update leaves it there.
pub proof fn lemma_once_clamps(playing: PlayingAnimation, delta_time: int, later: int)
    requires
        playing.animation_clip.repeat == AnimationRepeat::Once,
        playing.animation_clip.end_tick >= 0,
        delta_time >= 0,
        later >= 0,
        playing.base_tick() + playing.ticks_per_second * delta_time
            > playing.animation_clip.end_tick,
    ensures
        playing.advanced(delta_time).current_tick == playing.animation_clip.end_tick,
        playing.advanced(delta_time).advanced(later).current_tick
            == playing.animation_clip.end_tick,
{
    let stopped = playing.advanced(delta_time);
    assert(stopped.current_tick == playing.animation_clip.end_tick);
    assert(stopped.base_tick() == playing.animation_clip.end_tick);
    assert(stopped.ticks_per_second * later >= 0) by (nonlinear_arith)
        requires
            stopped.ticks_per_second >= 0,
            later >= 0,
    ;
}

/// A clip with its first tick at or after zero and before its last stays
/// within its bounds once it has started, whatever time passes.
pub proof fn lemma_stays_in_clip(playing: PlayingAnimation, delta_time: int)
    requires
        0 <= playing.animation_clip.start_tick <= playing.animation_clip.end_tick,
        playing.current_tick < 0 || playing.animation_clip.start_tick <= playing.current_tick,
        delta_time >= 0,
    ensures
        playing.animation_clip.start_tick <= playing.advanced(delta_time).current_tick
            <= playing.animation_clip.end_tick,
{
    assert(playing.ticks_per_second * delta_time >= 0) by (nonlinear_arith)
        requires
            playing.ticks_per_second >= 0,
            delta_time >= 0,
    ;
}

/// The blended transform of one node in the current frame, with the meshes
/// that hang on the node.
#[derive(Debug, Clone)]
pub struct NodeTransform {
    pub transform: Transform,
    pub meshes: Vec<u32>,
}

impl NodeTransform {
    pub fn new(transform: Transform, meshes_vec: &Vec<u32>) -> (node: Self)
        ensures
            node.transform == transform,
            node.meshes@ == meshes_vec@,
    {
        NodeTransform { transform, meshes: copy_meshes(meshes_vec) }
    }
}

/// A copy of a list of mesh indices.
pub fn copy_meshes(meshes: &Vec<u32>) -> (copy: Vec<u32>)
    ensures
        copy@ == meshes@,
{
    let mut copy: Vec<u32> = Vec::new();
    let mut i: usize = 0;
    while i < meshes.len()
        invariant
            i <= meshes.len(),
            copy@ == meshes@.take(i as int),
        decreases meshes.len() - i,
    {
        copy.push(meshes[i]);
        assert(meshes@.take(i + 1) == meshes@.take(i as int).push(meshes@[i as int]));
        i += 1;
    }
    assert(meshes@.take(meshes@.len() as int) == meshes@);
    copy
}

/// An entry of the frame's node map: a node's name and what was accumulated
/// for it. The entries stand in the order in which their names were first
/// met.
#[derive(Debug, Clone)]
pub struct NodeEntry {
    pub name: String,
    pub node: NodeTransform,
}

impl Named for NodeEntry {
    open spec fn spec_name(&self) -> Seq<char> {
        self.name@
    }

    fn name(&self) -> (name: &String) {
        &self.name
    }
}

/// What an entry of the node map says: a name, a transform, mesh indices.
pub struct NodeView {
    pub name: Seq<char>,
    pub transform: Transform,
    pub meshes: Seq<u32>,
}

impl View for NodeEntry {
    type V = NodeView;

    open spec fn view(&self) -> NodeView {
        NodeView { name: self.name@, transform: self.node.transform, meshes: self.node.meshes@ }
    }
}

/// What the entries of a node map say, in their order.
pub open spec fn map_view(entries: Seq<NodeEntry>) -> Seq<NodeView> {
    Seq::new(entries.len(), |i: int| entries[i]@)
}

/// The names in a node map, in the order of its entries.
pub open spec fn map_names(map: Seq<NodeView>) -> Seq<Seq<char>> {
    Seq::new(map.len(), |i: int| map[i].name)
}

/// Every mesh index in the map is less than `limit`.
pub open spec fn map_meshes_below(map: Seq<NodeView>, limit: int) -> bool {
    forall|i: int, k: int|
        0 <= i < map.len() && 0 <= k < map[i].meshes.len() ==> (#[trigger] map[i].meshes[k])
            < limit
}

/// The map after a node's global transform has been put into it: blended at
/// `weight` into the entry of that name, or added as a new entry at the end
/// where the name has none.
pub open spec fn accumulate(
    map: Seq<NodeView>,
    name: Seq<char>,
    global: Transform,
    meshes: Seq<u32>,
    weight: Ratio,
) -> Seq<NodeView> {
    match position(map_names(map), name) {
        Some(i) => map.update(
            i,
            NodeView { transform: map[i].transform.blend(global, weight), ..map[i] },
        ),
        None => map.push(NodeView { name, transform: global, meshes }),
    }
}

/// The transform of a node relative to its parent at clip time `tick`: what
/// the first channel of the node's name gives, or the node's own transform
/// where no channel has its name.
pub open spec fn local_transform(node: NodeData, channels: Seq<NodeAnimation>, tick: int) -> Transform {
    match position(names(channels), node.name@) {
        Some(i) => channels[i].sample(tick),
        None => node.transform,
    }
}

/// The map after the children of `node` from the index `from` on have been
/// walked, each with everything below it, before the next; `global` is the
/// global transform of `node`.
pub open spec fn walk_from(
    node: NodeData,
    from: int,
    channels: Seq<NodeAnimation>,
    map: Seq<NodeView>,
    global: Transform,
    tick: int,
    weight: Ratio,
) -> Seq<NodeView>
    decreases node, node.children@.len() - from,
{
    if from < 0 || from >= node.children@.len() {
        map
    } else {
        let child = node.children@[from];
        let child_global = global.compose(local_transform(child, channels, tick));
        let with_child = accumulate(map, child.name@, child_global, child.meshes@, weight);
        let below = walk_from(child, 0, channels, with_child, child_global, tick, weight);
        walk_from(node, from + 1, channels, below, global, tick, weight)
    }
}

/// The map after `node` and everything below it have been walked, parents
/// before children: each node's global transform is its parent's global
/// transform composed with its own local transform, and is put into the map
/// under the node's name.
pub open spec fn walk(
    node: NodeData,
    channels: Seq<NodeAnimation>,
    map: Seq<NodeView>,
    parent: Transform,
    tick: int,
    weight: Ratio,
) -> Seq<NodeView> {
    let global = parent.compose(local_transform(node, channels, tick));
    walk_from(
        node,
        0,
        channels,
        accumulate(map, node.name@, global, node.meshes@, weight),
        global,
        tick,
        weight,
    )
}

/// The names of the entries are the names of what the entries say.
pub proof fn lemma_map_names(entries: Seq<NodeEntry>)
    ensures
        map_names(map_view(entries)) == names(entries),
{
    assert(map_names(map_view(entries)) =~= names(entries));
}

/// Computes the global transform of one node and puts it into the map.
pub fn calculate_transform(
    node_data: &NodeData,
    node_animations: &Vec<NodeAnimation>,
    node_map: &mut Vec<NodeEntry>,
    parent_transform: Transform,
    current_tick: i64,
    weight: Ratio,
) -> (global: Transform)
    requires
        channels_wf(node_animations@),
    ensures
        global == parent_transform.compose(
            local_transform(*node_data, node_animations@, current_tick as int),
        ),
        map_view(final(node_map)@) == accumulate(
            map_view(old(node_map)@),
            node_data.name@,
            global,
            node_data.meshes@,
            weight,
        ),
{
    let global_transform = match find_named(node_animations, &node_data.name) {
        Some(i) => {
            let node_transform = node_animations[i].get_animation_transform(current_tick);
            parent_transform.mul_transform(node_transform)
        },
        None => parent_transform.mul_transform(node_data.transform),
    };
    proof {
        lemma_map_names(node_map@);
    }
    match find_named(node_map, &node_data.name) {
        Some(i) => {
            let blended = node_map[i].node.transform.mul_transform_weighted(
                global_transform,
                weight,
            );
            node_map[i].node.transform = blended;
            assert(map_view(node_map@) =~= accumulate(
                map_view(old(node_map)@),
                node_data.name@,
                global_transform,
                node_data.meshes@,
                weight,
            ));
        },
        None => {
            node_map.push(
                NodeEntry {
                    name: node_data.name.clone(),
                    node: NodeTransform::new(global_transform, &node_data.meshes),
                },
            );
            assert(map_view(node_map@) =~= accumulate(
                map_view(old(node_map)@),
                node_data.name@,
                global_transform,
                node_data.meshes@,
                weight,
            ));
        },
    }
    global_transform
}

/// Putting a node into a map keeps the mesh indices of the map below a
/// limit that the node's own mesh indices keep.
pub proof fn lemma_accumulate_meshes(
    map: Seq<NodeView>,
    name: Seq<char>,
    global: Transform,
    meshes: Seq<u32>,
    weight: Ratio,
    limit: int,
)
    requires
        map_meshes_below(map, limit),
        forall|k: int| 0 <= k < meshes.len() ==> meshes[k] < limit,
    ensures
        map_meshes_below(accumulate(map, name, global, meshes, weight), limit),
{
    lemma_position(map_names(map), name);
    let after = accumulate(map, name, global, meshes, weight);
    assert forall|i: int, k: int|
        0 <= i < after.len() && 0 <= k < after[i].meshes.len() implies (#[trigger] after[i].meshes[k])
        < limit by {
        if i < map.len() {
            assert(after[i].meshes == map[i].meshes);
            assert(map[i].meshes[k] < limit);
        }
    }
}

/// Walks `node_data` and everything below it, parents before children, and
/// puts each node's global transform into the map: sampled from the channel
/// of the node's name at `current_tick` where there is one, the node's own
/// transform where there is none, and composed with the parent's global
/// transform.
pub fn calculate_transform_maps(
    node_data: &NodeData,
    node_animations: &Vec<NodeAnimation>,
    node_map: &mut Vec<NodeEntry>,
    parent_transform: Transform,
    current_tick: i64,
    weight: Ratio,
)
    requires
        channels_wf(node_animations@),
    ensures
        map_view(final(node_map)@) == walk(
            *node_data,
            node_animations@,
            map_view(old(node_map)@),
            parent_transform,
            current_tick as int,
            weight,
        ),
        forall|limit: int|
            node_data.meshes_below(limit) && map_meshes_below(map_view(old(node_map)@), limit)
                ==> map_meshes_below(map_view(final(node_map)@), limit),
    decreases *node_data,
{
    let global_transformation = calculate_transform(
        node_data,
        node_animations,
        node_map,
        parent_transform,
        current_tick,
        weight,
    );
    let ghost with_self = map_view(node_map@);
    proof {
        assert forall|limit: int|
            node_data.meshes_below(limit) && map_meshes_below(
                map_view(old(node_map)@),
                limit,
            ) implies map_meshes_below(with_self, limit) by {
            lemma_accumulate_meshes(
                map_view(old(node_map)@),
                node_data.name@,
                global_transformation,
                node_data.meshes@,
                weight,
                limit,
            );
        }
    }
    let mut c: usize = 0;
    while c < node_data.children.len()
        invariant
            c <= node_data.children.len(),
            channels_wf(node_animations@),
            walk_from(
                *node_data,
                c as int,
                node_animations@,
                map_view(node_map@),
                global_transformation,
                current_tick as int,
                weight,
            ) == walk_from(
                *node_data,
                0,
                node_animations@,
                with_self,
                global_transformation,
                current_tick as int,
                weight,
            ),
            forall|limit: int|
                node_data.meshes_below(limit) && map_meshes_below(with_self, limit)
                    ==> map_meshes_below(map_view(node_map@), limit),
        decreases node_data.children.len() - c,
    {
        let ghost before = map_view(node_map@);
        calculate_transform_maps(
            &node_data.children[c],
            node_animations,
            node_map,
            global_transformation,
            current_tick,
            weight,
        );
        proof {
            assert forall|limit: int|
                node_data.meshes_below(limit) && map_meshes_below(
                    with_self,
                    limit,
                ) implies map_meshes_below(map_view(node_map@), limit) by {
                assert(node_data.children@[c as int].meshes_below(limit));
                assert(map_meshes_below(before, limit));
            }
        }
        c += 1;
    }
}

/// A clip that is fading out behind the current one. Its weight is the part
/// of its fade time that is left: one when the fade begins, falling in a
/// straight line to nothing when the fade time has passed.
#[derive(Debug, Clone, Copy, PartialEq, Eq, Structural)]
pub struct AnimationTransition {
    /// The microseconds of the fade that are left.
    pub time_left: u64,
    /// The microseconds that the whole fade takes.
    pub fade_time: u64,
    /// The clip that is fading out.
    pub animation: PlayingAnimation,
}

impl AnimationTransition {
    /// The weight at which the fading clip is blended in.
    pub open spec fn weight(self) -> Ratio {
        Ratio { num: self.time_left, den: self.fade_time }
    }

    /// Whether the fade is still going on after `delta_time` microseconds.
    pub open spec fn outlasts(self, delta_time: int) -> bool {
        self.time_left > delta_time
    }

    /// The transition with `delta_time` microseconds less to go.
    pub open spec fn faded(self, delta_time: int) -> AnimationTransition {
        AnimationTransition { time_left: (self.time_left - delta_time) as u64, ..self }
    }

    /// The transition with its clip moved on by `delta_time` microseconds.
    pub open spec fn moved_on(self, delta_time: int) -> AnimationTransition {
        AnimationTransition { animation: self.animation.advanced(delta_time), ..self }
    }

    /// The weight at which the fading clip is blended in.
    pub fn current_weight(&self) -> (weight: Ratio)
        ensures
            weight == self.weight(),
    {
        Ratio { num: self.time_left, den: self.fade_time }
    }
}

/// The transitions that are left after `delta_time` microseconds, in their
/// order, each with that much less to go: a transition whose weight has
/// fallen to nothing is gone.
pub open spec fn transitions_after(
    transitions: Seq<AnimationTransition>,
    delta_time: int,
) -> Seq<AnimationTransition>
    decreases transitions.len(),
{
    if transitions.len() == 0 {
        Seq::empty()
    } else {
        let earlier = transitions_after(transitions.drop_last(), delta_time);
        if transitions.last().outlasts(delta_time) {
            earlier.push(transitions.last().faded(delta_time))
        } else {
            earlier
        }
    }
}

/// The transitions with each clip moved on by `delta_time` microseconds.
pub open spec fn transitions_moved_on(
    transitions: Seq<AnimationTransition>,
    delta_time: int,
) -> Seq<AnimationTransition> {
    Seq::new(transitions.len(), |i: int| transitions[i].moved_on(delta_time))
}

/// The map after the hierarchy has been walked once more for each of the
/// transitions, in their order, each at its own clip time and weight.
pub open spec fn blended(
    model: ModelAnimation,
    map: Seq<NodeView>,
    transitions: Seq<AnimationTransition>,
) -> Seq<NodeView>
    decreases transitions.len(),
{
    if transitions.len() == 0 {
        map
    } else {
        walk(
            model.root_node,
            model.node_animations@,
            blended(model, map, transitions.drop_last()),
            Transform::of_matrix(model.global_inverse_transform),
            transitions.last().animation.current_tick as int,
            transitions.last().weight(),
        )
    }
}

/// The node map of a frame: the hierarchy walked for the current clip at
/// full weight into an empty map, then for each transition.
pub open spec fn frame_map(
    model: ModelAnimation,
    current_tick: int,
    transitions: Seq<AnimationTransition>,
) -> Seq<NodeView> {
    blended(
        model,
        walk(
            model.root_node,
            model.node_animations@,
            Seq::empty(),
            Transform::of_matrix(model.global_inverse_transform),
            current_tick,
            Ratio::one(),
        ),
        transitions,
    )
}

/// The last entry of the map on which the mesh hangs, if there is one.
pub open spec fn last_with_mesh(map: Seq<NodeView>, mesh: u32) -> Option<int>
    decreases map.len(),
{
    if map.len() == 0 {
        None
    } else if map.last().meshes.contains(mesh) {
        Some(map.len() - 1)
    } else {
        last_with_mesh(map.drop_last(), mesh)
    }
}

/// The last entry with a mesh is an entry on which the mesh hangs, and the
/// mesh hangs on no later entry; without one the mesh hangs on no entry.
pub proof fn lemma_last_with_mesh(map: Seq<NodeView>, mesh: u32)
    ensures
        match last_with_mesh(map, mesh) {
            Some(index) => {
                &&& 0 <= index < map.len()
                &&& map[index].meshes.contains(mesh)
                &&& forall|j: int| index < j < map.len() ==> !map[j].meshes.contains(mesh)
            },
            None => forall|j: int| 0 <= j < map.len() ==> !map[j].meshes.contains(mesh),
        },
    decreases map.len(),
{
    if map.len() > 0 && !map.last().meshes.contains(mesh) {
        let shorter = map.drop_last();
        lemma_last_with_mesh(shorter, mesh);
        assert forall|j: int| 0 <= j < shorter.len() implies shorter[j] == map[j] by {}
        match last_with_mesh(shorter, mesh) {
            Some(index) => {
                assert forall|j: int| index < j < map.len() implies !map[j].meshes.contains(
                    mesh,
                ) by {
                    if j < shorter.len() {
                        assert(!shorter[j].meshes.contains(mesh));
                    }
                }
            },
            None => {
                assert forall|j: int| 0 <= j < map.len() implies !map[j].meshes.contains(mesh) by {
                    if j < shorter.len() {
                        assert(!shorter[j].meshes.contains(mesh));
                    }
                }
            },
        }
    }
}

/// The matrix of a bone after a frame: the transform accumulated under the
/// bone's name, composed with the bone's offset; the matrix from before where
/// the map has no entry of that name.
pub open spec fn bone_matrix(map: Seq<NodeView>, bone: BoneData, before: glam::Mat4) -> glam::Mat4 {
    match last_position(map_names(map), bone.name@) {
        Some(i) => map[i].transform.compose(bone.offset_transform).matrix(),
        None => before,
    }
}

/// The node matrix of a mesh after a frame: the transform accumulated for the
/// last node on which the mesh hangs; the matrix from before where it hangs
/// on none.
pub open spec fn mesh_matrix(map: Seq<NodeView>, mesh: u32, before: glam::Mat4) -> glam::Mat4 {
    match last_with_mesh(map, mesh) {
        Some(i) => map[i].transform.matrix(),
        None => before,
    }
}

/// The bone matrices after a frame with the given node map.
pub open spec fn bone_matrices_after(
    map: Seq<NodeView>,
    bones: Seq<BoneData>,
    before: Seq<glam::Mat4>,
) -> Seq<glam::Mat4> {
    Seq::new(
        before.len(),
        |j: int|
            if j < bones.len() {
                bone_matrix(map, bones[j], before[j])
            } else {
                before[j]
            },
    )
}

/// The node matrices after a frame with the given node map.
pub open spec fn mesh_matrices_after(map: Seq<NodeView>, before: Seq<glam::Mat4>) -> Seq<glam::Mat4> {
    Seq::new(before.len(), |m: int| mesh_matrix(map, m as u32, before[m]))
}

/// In a map in which no name stands twice, the matrix of a bone comes from
/// the one entry of the bone's name.
pub proof fn lemma_bone_matrix_of_entry(map: Seq<NodeView>, bone: BoneData, before: glam::Mat4)
    requires
        distinct(map_names(map)),
    ensures
        bone_matrix(map, bone, before) == (match position(map_names(map), bone.name@) {
            Some(i) => map[i].transform.compose(bone.offset_transform).matrix(),
            None => before,
        }),
{
    lemma_last_is_first(map_names(map), bone.name@);
}

/// One more entry at the end of the map decides the matrix of the bone of
/// its name, and leaves the matrices of the other bones as they were.
pub proof fn lemma_bone_matrix_step(
    seen: Seq<NodeView>,
    entry: NodeView,
    bone: BoneData,
    before: glam::Mat4,
)
    ensures
        bone_matrix(seen.push(entry), bone, before) == (if entry.name == bone.name@ {
            entry.transform.compose(bone.offset_transform).matrix()
        } else {
            bone_matrix(seen, bone, before)
        }),
{
    let next = seen.push(entry);
    assert(next.drop_last() == seen);
    assert(map_names(next).drop_last() == map_names(seen));
    assert(map_names(next).last() == entry.name);
    lemma_last_position(map_names(seen), bone.name@);
}

/// One more entry at the end of the map decides the node matrix of each mesh
/// that hangs on it, and leaves the node matrices of the other meshes as they
/// were.
pub proof fn lemma_mesh_matrix_step(
    seen: Seq<NodeView>,
    entry: NodeView,
    mesh: u32,
    before: glam::Mat4,
)
    ensures
        mesh_matrix(seen.push(entry), mesh, before) == (if entry.meshes.contains(mesh) {
            entry.transform.matrix()
        } else {
            mesh_matrix(seen, mesh, before)
        }),
{
    let next = seen.push(entry);
    assert(next.drop_last() == seen);
    assert(next.last() == entry);
    lemma_last_with_mesh(seen, mesh);
}

/// Plays the animation of one model: keeps the current clip and the clips
/// that fade out, and works out the bone and node matrices of each frame.
#[derive(Debug)]
pub struct Animator {
    pub model_animation: ModelAnimation,
    pub current_animation: PlayingAnimation,
    pub transitions: Vec<AnimationTransition>,
    pub node_transforms: Vec<NodeEntry>,
    pub final_bone_matrices: Vec<glam::Mat4>,
    pub final_node_matrices: Vec<glam::Mat4>,
}

/// A list of `count` copies of a matrix.
pub fn repeat_matrix(matrix: glam::Mat4, count: usize) -> (list: Vec<glam::Mat4>)
    ensures
        list@.len() == count,
        forall|i: int| 0 <= i < count ==> list@[i] == matrix,
{
    let mut list: Vec<glam::Mat4> = Vec::new();
    let mut i: usize = 0;
    while i < count
        invariant
            i <= count,
            list@.len() == i,
            forall|k: int| 0 <= k < i ==> list@[k] == matrix,
        decreases count - i,
    {
        list.push(matrix);
        i += 1;
    }
    list
}

impl Animator {
    /// The data can be played and there is a matrix for every bone index and
    /// every mesh index.
    pub open spec fn wf(&self) -> bool {
        &&& self.model_animation.wf()
        &&& self.final_bone_matrices@.len() == MAX_BONES
        &&& self.final_node_matrices@.len() == MAX_MESHES
        &&& map_meshes_below(map_view(self.node_transforms@), MAX_MESHES as int)
    }

    /// Whether the data can be played and there is a matrix for every bone
    /// index and every mesh index.
    pub fn is_valid(&self) -> (valid: bool)
        ensures
            valid == self.wf(),
    {
        if !self.model_animation.is_valid() || self.final_bone_matrices.len() != MAX_BONES
            || self.final_node_matrices.len() != MAX_MESHES {
            return false;
        }
        let ghost map = map_view(self.node_transforms@);
        let mut i: usize = 0;
        while i < self.node_transforms.len()
            invariant
                i <= self.node_transforms.len(),
                map == map_view(self.node_transforms@),
                forall|e: int, k: int|
                    0 <= e < i && 0 <= k < map[e].meshes.len() ==> (#[trigger] map[e].meshes[k])
                        < MAX_MESHES,
            decreases self.node_transforms.len() - i,
        {
            let mut k: usize = 0;
            while k < self.node_transforms[i].node.meshes.len()
                invariant
                    i < self.node_transforms.len(),
                    map == map_view(self.node_transforms@),
                    k <= self.node_transforms@[i as int].node.meshes@.len(),
                    forall|q: int| 0 <= q < k ==> (#[trigger] map[i as int].meshes[q]) < MAX_MESHES,
                decreases self.node_transforms@[i as int].node.meshes@.len() - k,
            {
                if self.node_transforms[i].node.meshes[k] as usize >= MAX_MESHES {
                    assert(map[i as int].meshes[k as int] >= MAX_MESHES);
                    return false;
                }
                k += 1;
            }
            i += 1;
        }
        true
    }

    /// An animator that plays the whole animation of the model without end,
    /// not yet started, with all matrices at identity.
    pub fn new(model_animation: ModelAnimation) -> (animator: Self)
        requires
            model_animation.wf(),
        ensures
            animator.wf(),
            animator.model_animation == model_animation,
            animator.current_animation == (PlayingAnimation {
                animation_clip: AnimationClip {
                    start_tick: 0,
                    end_tick: model_animation.duration,
                    repeat: AnimationRepeat::Forever,
                },
                current_tick: -1i64,
                ticks_per_second: model_animation.ticks_per_second,
                repeat_completions: 0,
            }),
            animator.transitions@.len() == 0,
            animator.node_transforms@.len() == 0,
            forall|i: int|
                0 <= i < MAX_BONES ==> animator.final_bone_matrices@[i]
                    == Transform::spec_identity().matrix(),
            forall|i: int|
                0 <= i < MAX_MESHES ==> animator.final_node_matrices@[i]
                    == Transform::spec_identity().matrix(),
    {
        let identity = Transform::identity().compute_matrix();
        let final_bone_matrices = repeat_matrix(identity, MAX_BONES);
        let final_node_matrices = repeat_matrix(identity, MAX_MESHES);
        let animation_clip = AnimationClip {
            start_tick: 0,
            end_tick: model_animation.duration,
            repeat: AnimationRepeat::Forever,
        };
        let current_animation = PlayingAnimation::start(
            animation_clip,
            model_animation.ticks_per_second,
        );
        Animator {
            model_animation,
            current_animation,
            transitions: Vec::new(),
            node_transforms: Vec::new(),
            final_bone_matrices,
            final_node_matrices,
        }
    }

    /// Cuts to `clip`: it becomes the current clip, not yet started.
    pub fn play_clip(&mut self, clip: &AnimationClip)
        ensures
            *final(self) == (Animator {
                current_animation: PlayingAnimation {
                    animation_clip: *clip,
                    current_tick: -1i64,
                    ticks_per_second: old(self).model_animation.ticks_per_second,
                    repeat_completions: 0,
                },
                ..*old(self)
            }),
    {
        self.current_animation = PlayingAnimation::start(
            *clip,
            self.model_animation.ticks_per_second,
        );
    }

    /// Fades to `clip` over `transition_duration` microseconds: `clip`
    /// becomes the current clip, not yet started, and the clip that was
    /// current joins the transitions at the end, at full weight.
    pub fn play_clip_with_transition(&mut self, clip: &AnimationClip, transition_duration: u64)
        ensures
            final(self).current_animation == (PlayingAnimation {
                animation_clip: *clip,
                current_tick: -1i64,
                ticks_per_second: old(self).model_animation.ticks_per_second,
                repeat_completions: 0,
            }),
            final(self).transitions@ == old(self).transitions@.push(
                AnimationTransition {
                    time_left: transition_duration,
                    fade_time: transition_duration,
                    animation: old(self).current_animation,
                },
            ),
            final(self).model_animation == old(self).model_animation,
            final(self).node_transforms == old(self).node_transforms,
            final(self).final_bone_matrices == old(self).final_bone_matrices,
            final(self).final_node_matrices == old(self).final_node_matrices,
    {
        let animation = self.current_animation;
        self.current_animation = PlayingAnimation::start(
            *clip,
            self.model_animation.ticks_per_second,
        );
        let transition = AnimationTransition {
            time_left: transition_duration,
            fade_time: transition_duration,
            animation,
        };
        self.transitions.push(transition);
    }

    /// Lets `delta_time` microseconds pass for the transitions: each has
    /// that much less to go, and those whose weight falls to nothing leave.
    pub fn update_transitions(&mut self, delta_time: u64)
        ensures
            final(self).transitions@ == transitions_after(
                old(self).transitions@,
                delta_time as int,
            ),
            final(self).model_animation == old(self).model_animation,
            final(self).current_animation == old(self).current_animation,
            final(self).node_transforms == old(self).node_transforms,
            final(self).final_bone_matrices == old(self).final_bone_matrices,
            final(self).final_node_matrices == old(self).final_node_matrices,
    {
        let mut kept: Vec<AnimationTransition> = Vec::new();
        let mut i: usize = 0;
        while i < self.transitions.len()
            invariant
                i <= self.transitions.len(),
                *self == *old(self),
                kept@ == transitions_after(self.transitions@.take(i as int), delta_time as int),
            decreases self.transitions.len() - i,
        {
            let transition = self.transitions[i];
            assert(self.transitions@.take(i + 1).drop_last() == self.transitions@.take(i as int));
            if transition.time_left > delta_time {
                kept.push(
                    AnimationTransition {
                        time_left: transition.time_left - delta_time,
                        fade_time: transition.fade_time,
                        animation: transition.animation,
                    },
                );
            }
            i += 1;
        }
        assert(self.transitions@.take(self.transitions@.len() as int) == self.transitions@);
        self.transitions = kept;
    }
}

impl Animator {
    /// Builds the node map of the frame: empties it, walks the hierarchy for
    /// the current clip at full weight, then moves each transition's clip on
    /// by `delta_time` microseconds and walks the hierarchy for it at the
    /// transition's weight, in the order of the transitions.
    pub fn update_node_map(&mut self, delta_time: u64)
        requires
            old(self).wf(),
        ensures
            final(self).wf(),
            final(self).transitions@ == transitions_moved_on(
                old(self).transitions@,
                delta_time as int,
            ),
            map_view(final(self).node_transforms@) == frame_map(
                old(self).model_animation,
                old(self).current_animation.current_tick as int,
                final(self).transitions@,
            ),
            final(self).model_animation == old(self).model_animation,
            final(self).current_animation == old(self).current_animation,
            final(self).final_bone_matrices == old(self).final_bone_matrices,
            final(self).final_node_matrices == old(self).final_node_matrices,
    {
        self.node_transforms = Vec::new();
        let inverse_transform = Transform::from_matrix(
            self.model_animation.global_inverse_transform,
        );
        assert(map_view(self.node_transforms@) =~= Seq::<NodeView>::empty());
        calculate_transform_maps(
            &self.model_animation.root_node,
            &self.model_animation.node_animations,
            &mut self.node_transforms,
            inverse_transform,
            self.current_animation.current_tick,
            Ratio::full(),
        );
        let ghost base = map_view(self.node_transforms@);
        let ghost model = self.model_animation;
        let mut i: usize = 0;
        while i < self.transitions.len()
            invariant
                i <= self.transitions.len(),
                self.wf(),
                self.model_animation == old(self).model_animation,
                model == self.model_animation,
                inverse_transform == Transform::of_matrix(model.global_inverse_transform),
                self.current_animation == old(self).current_animation,
                self.final_bone_matrices == old(self).final_bone_matrices,
                self.final_node_matrices == old(self).final_node_matrices,
                self.transitions@.len() == old(self).transitions@.len(),
                forall|k: int|
                    0 <= k < i ==> self.transitions@[k] == old(self).transitions@[k].moved_on(
                        delta_time as int,
                    ),
                forall|k: int|
                    i <= k < self.transitions@.len() ==> self.transitions@[k] == old(
                        self,
                    ).transitions@[k],
                map_view(self.node_transforms@) == blended(
                    model,
                    base,
                    self.transitions@.take(i as int),
                ),
            decreases self.transitions.len() - i,
        {
            let ghost earlier = self.transitions@.take(i as int);
            let mut transition = self.transitions[i];
            transition.animation.update(delta_time);
            self.transitions[i] = transition;
            assert(self.transitions@.take(i as int) == earlier);
            assert(self.transitions@.take(i + 1).drop_last() == earlier);
            assert(self.transitions@.take(i + 1).last() == transition);
            calculate_transform_maps(
                &self.model_animation.root_node,
                &self.model_animation.node_animations,
                &mut self.node_transforms,
                inverse_transform,
                transition.animation.current_tick,
                transition.current_weight(),
            );
            i += 1;
        }
        assert(self.transitions@.take(i as int) == self.transitions@);
        assert(self.transitions@ =~= transitions_moved_on(
            old(self).transitions@,
            delta_time as int,
        ));
    }

    /// Writes the matrices of the frame from the node map, entry by entry:
    /// for an entry that has the name of a bone, the bone's matrix is the
    /// entry's transform composed with the bone's offset; for each mesh that
    /// hangs on the entry's node, the node matrix is the entry's transform.
    /// A matrix for which the map has no entry stays as it was.
    pub fn update_final_transforms(&mut self)
        requires
            old(self).wf(),
        ensures
            final(self).wf(),
            final(self).final_bone_matrices@ == bone_matrices_after(
                map_view(old(self).node_transforms@),
                old(self).model_animation.bone_data_map.bones@,
                old(self).final_bone_matrices@,
            ),
            final(self).final_node_matrices@ == mesh_matrices_after(
                map_view(old(self).node_transforms@),
                old(self).final_node_matrices@,
            ),
            final(self).model_animation == old(self).model_animation,
            final(self).current_animation == old(self).current_animation,
            final(self).transitions == old(self).transitions,
            final(self).node_transforms == old(self).node_transforms,
    {
        let ghost map = map_view(self.node_transforms@);
        let ghost bones = self.model_animation.bone_data_map.bones@;
        let ghost bones_before = self.final_bone_matrices@;
        let ghost nodes_before = self.final_node_matrices@;
        let mut k: usize = 0;
        while k < self.node_transforms.len()
            invariant
                k <= self.node_transforms.len(),
                self.wf(),
                self.model_animation == old(self).model_animation,
                self.current_animation == old(self).current_animation,
                self.transitions == old(self).transitions,
                self.node_transforms == old(self).node_transforms,
                map == map_view(self.node_transforms@),
                bones == self.model_animation.bone_data_map.bones@,
                bones_before.len() == MAX_BONES,
                nodes_before.len() == MAX_MESHES,
                forall|j: int|
                    0 <= j < MAX_BONES ==> self.final_bone_matrices@[j] == (if j < bones.len() {
                        bone_matrix(map.take(k as int), bones[j], bones_before[j])
                    } else {
                        bones_before[j]
                    }),
                forall|m: int|
                    0 <= m < MAX_MESHES ==> self.final_node_matrices@[m] == mesh_matrix(
                        map.take(k as int),
                        m as u32,
                        nodes_before[m],
                    ),
            decreases self.node_transforms.len() - k,
        {
            let ghost seen = map.take(k as int);
            let ghost next = map.take(k + 1);
            proof {
                assert(next == seen.push(map[k as int]));
            }
            let transform = self.node_transforms[k].node.transform;
            match find_named(&self.model_animation.bone_data_map.bones, &self.node_transforms[k].name) {
                Some(b) => {
                    let index = self.model_animation.bone_data_map.bones[b].bone_index as usize;
                    let offset = self.model_animation.bone_data_map.bones[b].offset_transform;
                    let transform_matrix = transform.mul_transform(offset).compute_matrix();
                    self.final_bone_matrices[index] = transform_matrix;
                    proof {
                        assert(index == b);
                        assert(names(bones)[b as int] == map[k as int].name);
                        assert forall|j: int| 0 <= j < MAX_BONES implies self.final_bone_matrices@[j]
                            == (if j < bones.len() {
                            bone_matrix(next, bones[j], bones_before[j])
                        } else {
                            bones_before[j]
                        }) by {
                            if j < bones.len() {
                                lemma_bone_matrix_step(seen, map[k as int], bones[j], bones_before[j]);
                                if j != b {
                                    assert(names(bones)[j] != names(bones)[b as int]);
                                }
                            }
                        }
                    }
                },
                None => {
                    proof {
                        lemma_position(names(bones), map[k as int].name);
                        assert forall|j: int| 0 <= j < MAX_BONES implies self.final_bone_matrices@[j]
                            == (if j < bones.len() {
                            bone_matrix(next, bones[j], bones_before[j])
                        } else {
                            bones_before[j]
                        }) by {
                            if j < bones.len() {
                                lemma_bone_matrix_step(seen, map[k as int], bones[j], bones_before[j]);
                                assert(names(bones)[j] != map[k as int].name);
                            }
                        }
                    }
                },
            }
            let node_matrix = transform.compute_matrix();
            let ghost meshes = map[k as int].meshes;
            let count: usize = self.node_transforms[k].node.meshes.len();
            let mut q: usize = 0;
            while q < count
                invariant
                    q <= count,
                    k < self.node_transforms.len(),
                    count == self.node_transforms@[k as int].node.meshes@.len(),
                    self.wf(),
                    self.model_animation == old(self).model_animation,
                    self.current_animation == old(self).current_animation,
                    self.transitions == old(self).transitions,
                    self.node_transforms == old(self).node_transforms,
                    map == map_view(self.node_transforms@),
                    meshes == map[k as int].meshes,
                    meshes == self.node_transforms@[k as int].node.meshes@,
                    seen == map.take(k as int),
                    node_matrix == map[k as int].transform.matrix(),
                    bones == self.model_animation.bone_data_map.bones@,
                    bones_before.len() == MAX_BONES,
                    nodes_before.len() == MAX_MESHES,
                    forall|j: int|
                        0 <= j < MAX_BONES ==> self.final_bone_matrices@[j] == (if j < bones.len() {
                            bone_matrix(map.take(k + 1), bones[j], bones_before[j])
                        } else {
                            bones_before[j]
                        }),
                    forall|m: int|
                        0 <= m < MAX_MESHES ==> self.final_node_matrices@[m] == (if meshes.take(
                            q as int,
                        ).contains(m as u32) {
                            node_matrix
                        } else {
                            mesh_matrix(seen, m as u32, nodes_before[m])
                        }),
                decreases count - q,
            {
                let mesh_index = self.node_transforms[k].node.meshes[q];
                assert(map[k as int].meshes[q as int] < MAX_MESHES);
                self.final_node_matrices[mesh_index as usize] = node_matrix;
                proof {
                    let shorter = meshes.take(q as int);
                    let longer = meshes.take(q + 1);
                    assert(longer == shorter.push(mesh_index));
                    assert forall|m: int| 0 <= m < MAX_MESHES implies self.final_node_matrices@[m]
                        == (if longer.contains(m as u32) {
                        node_matrix
                    } else {
                        mesh_matrix(seen, m as u32, nodes_before[m])
                    }) by {
                        if m == mesh_index {
                            assert(longer[q as int] == mesh_index);
                        } else if shorter.contains(m as u32) {
                            let at = choose|at: int| 0 <= at < shorter.len() && shorter[at] == m as u32;
                            assert(longer[at] == m as u32);
                        } else if longer.contains(m as u32) {
                            let at = choose|at: int| 0 <= at < longer.len() && longer[at] == m as u32;
                            assert(at < q);
                            assert(shorter[at] == m as u32);
                        }
                    }
                }
                q += 1;
            }
            proof {
                assert(meshes.take(count as int) == meshes);
                assert forall|m: int| 0 <= m < MAX_MESHES implies self.final_node_matrices@[m]
                    == mesh_matrix(next, m as u32, nodes_before[m]) by {
                    lemma_mesh_matrix_step(seen, map[k as int], m as u32, nodes_before[m]);
                }
            }
            k += 1;
        }
        proof {
            assert(map.take(k as int) == map);
            assert(self.final_bone_matrices@ =~= bone_matrices_after(map, bones, bones_before));
            assert(self.final_node_matrices@ =~= mesh_matrices_after(map, nodes_before));
        }
    }

    /// Plays one frame of `delta_time` microseconds: moves the current clip
    /// on, lets the transitions fade and drops those that are over, builds
    /// the node map of the frame, and writes the bone and node matrices.
    pub fn update_animation(&mut self, delta_time: u64)
        requires
            old(self).wf(),
        ensures
            final(self).wf(),
            final(self).model_animation == old(self).model_animation,
            final(self).current_animation == old(self).current_animation.advanced(
                delta_time as int,
            ),
            final(self).transitions@ == transitions_moved_on(
                transitions_after(old(self).transitions@, delta_time as int),
                delta_time as int,
            ),
            map_view(final(self).node_transforms@) == frame_map(
                old(self).model_animation,
                final(self).current_animation.current_tick as int,
                final(self).transitions@,
            ),
            final(self).final_bone_matrices@ == bone_matrices_after(
                map_view(final(self).node_transforms@),
                old(self).model_animation.bone_data_map.bones@,
                old(self).final_bone_matrices@,
            ),
            final(self).final_node_matrices@ == mesh_matrices_after(
                map_view(final(self).node_transforms@),
                old(self).final_node_matrices@,
            ),
    {
        self.current_animation.update(delta_time);
        self.update_transitions(delta_time);
        self.update_node_map(delta_time);
        self.update_final_transforms();
    }
}

/// The weight of a transition falls in a straight line: what two stretches
/// of time take from it is what their sum takes, a transition that began at
/// full weight is at half weight when half its fade time has passed, and it
/// stays among the transitions as long as some of its fade time is left.
pub proof fn lemma_transition_decay(transition: AnimationTransition, first: int, second: int)
    requires
        transition.time_left == transition.fade_time,
        0 <= first,
        0 <= second,
        first + second < transition.fade_time,
    ensures
        transition.faded(first).faded(second) == transition.faded(first + second),
        transition.faded(first).weight() == (Ratio {
            num: (transition.fade_time - first) as u64,
            den: transition.fade_time,
        }),
        2 * first == transition.fade_time ==> transition.faded(first).weight().same_value(
            Ratio { num: 1, den: 2 },
        ),
        transitions_after(seq![transition], first) == seq![transition.faded(first)],
{
    let one = seq![transition];
    assert(one.drop_last() == Seq::<AnimationTransition>::empty());
    assert(one.last() == transition);
    assert(transitions_after(one.drop_last(), first) == Seq::<AnimationTransition>::empty());
    assert(Seq::<AnimationTransition>::empty().push(transition.faded(first)) == seq![
        transition.faded(first),
    ]);
    if 2 * first == transition.fade_time {
        let half = transition.faded(first).weight();
        assert(half.num == transition.fade_time - first);
        assert(half.num * 2 == 1 * half.den);
    }
}

/// A transition whose fade time has passed is gone.
pub proof fn lemma_transition_ends(transition: AnimationTransition, delta_time: int)
    requires
        delta_time >= transition.time_left,
    ensures
        transitions_after(seq![transition], delta_time) == Seq::<AnimationTransition>::empty(),
{
    let one = seq![transition];
    assert(one.drop_last() == Seq::<AnimationTransition>::empty());
    assert(one.last() == transition);
    assert(transitions_after(one.drop_last(), delta_time) == Seq::<AnimationTransition>::empty());
}

/// Every transition that is left after a stretch of time has some weight,
/// and no more than it had.
pub proof fn lemma_transitions_keep_weight(
    transitions: Seq<AnimationTransition>,
    delta_time: int,
)
    requires
        delta_time >= 0,
    ensures
        transitions_after(transitions, delta_time).len() <= transitions.len(),
        forall|i: int|
            0 <= i < transitions_after(transitions, delta_time).len() ==> 0 < (
            #[trigger] transitions_after(transitions, delta_time)[i]).time_left,
        (forall|i: int|
            0 <= i < transitions.len() ==> (#[trigger] transitions[i]).time_left
                <= transitions[i].fade_time) ==> forall|i: int|
            0 <= i < transitions_after(transitions, delta_time).len() ==> (
            #[trigger] transitions_after(transitions, delta_time)[i]).time_left
                <= transitions_after(transitions, delta_time)[i].fade_time,
    decreases transitions.len(),
{
    if transitions.len() > 0 {
        let earlier = transitions.drop_last();
        lemma_transitions_keep_weight(earlier, delta_time);
        assert forall|i: int| 0 <= i < earlier.len() implies earlier[i] == transitions[i] by {}
    }
}

/// Where no channel animates anything, a node's local transform is its own
/// transform at every clip time.
pub proof fn lemma_static_local(node: NodeData, tick: int)
    ensures
        local_transform(node, Seq::<NodeAnimation>::empty(), tick) == node.transform,
{
    lemma_absent_is_no_position(names(Seq::<NodeAnimation>::empty()), node.name@);
}

/// Where no channel animates anything, the walk below a node gives the same
/// map at every clip time.
pub proof fn lemma_static_walk_from(
    node: NodeData,
    from: int,
    map: Seq<NodeView>,
    global: Transform,
    tick: int,
    other_tick: int,
    weight: Ratio,
)
    ensures
        walk_from(node, from, Seq::<NodeAnimation>::empty(), map, global, tick, weight)
            == walk_from(node, from, Seq::<NodeAnimation>::empty(), map, global, other_tick, weight),
    decreases node, node.children@.len() - from,
{
    if 0 <= from < node.children@.len() {
        let none = Seq::<NodeAnimation>::empty();
        let child = node.children@[from];
        lemma_static_local(child, tick);
        lemma_static_local(child, other_tick);
        let child_global = global.compose(child.transform);
        let with_child = accumulate(map, child.name@, child_global, child.meshes@, weight);
        lemma_static_walk_from(child, 0, with_child, child_global, tick, other_tick, weight);
        let below = walk_from(child, 0, none, with_child, child_global, tick, weight);
        lemma_static_walk_from(node, from + 1, below, global, tick, other_tick, weight);
    }
}

/// The pose of a hierarchy that no channel animates: the root's global
/// transform is the parent transform composed with the root's own transform,
/// it is the first thing put into the map, and the whole map is the same at
/// every clip time.
pub proof fn lemma_static_pose(
    node: NodeData,
    map: Seq<NodeView>,
    parent: Transform,
    tick: int,
    other_tick: int,
    weight: Ratio,
)
    ensures
        walk(node, Seq::<NodeAnimation>::empty(), map, parent, tick, weight) == walk_from(
            node,
            0,
            Seq::<NodeAnimation>::empty(),
            accumulate(map, node.name@, parent.compose(node.transform), node.meshes@, weight),
            parent.compose(node.transform),
            tick,
            weight,
        ),
        walk(node, Seq::<NodeAnimation>::empty(), map, parent, tick, weight) == walk(
            node,
            Seq::<NodeAnimation>::empty(),
            map,
            parent,
            other_tick,
            weight,
        ),
{
    lemma_static_local(node, tick);
    lemma_static_local(node, other_tick);
    let global = parent.compose(node.transform);
    lemma_static_walk_from(
        node,
        0,
        accumulate(map, node.name@, global, node.meshes@, weight),
        global,
        tick,
        other_tick,
        weight,
    );
}

/// Putting a node into a map in which no name stands twice leaves a map in
/// which no name stands twice, with the names that were there in their
/// places.
pub proof fn lemma_accumulate_names(
    map: Seq<NodeView>,
    name: Seq<char>,
    global: Transform,
    meshes: Seq<u32>,
    weight: Ratio,
)
    requires
        distinct(map_names(map)),
    ensures
        distinct(map_names(accumulate(map, name, global, meshes, weight))),
        map.len() <= accumulate(map, name, global, meshes, weight).len(),
        map_names(accumulate(map, name, global, meshes, weight)).take(map.len() as int)
            == map_names(map),
        position(map_names(accumulate(map, name, global, meshes, weight)), name).is_some(),
{
    let after = accumulate(map, name, global, meshes, weight);
    lemma_position(map_names(map), name);
    match position(map_names(map), name) {
        Some(i) => {
            assert(map_names(after) =~= map_names(map));
            assert(map_names(after).take(map.len() as int) =~= map_names(map));
        },
        None => {
            assert(map_names(after) =~= map_names(map).push(name));
            assert(map_names(after).take(map.len() as int) =~= map_names(map));
            assert(map_names(after)[map.len() as int] == name);
            lemma_first_is_position(map_names(after), name, map.len() as int);
        },
    }
}

/// The walk below a node keeps a map in which no name stands twice that way.
pub proof fn lemma_walk_from_names(
    node: NodeData,
    from: int,
    channels: Seq<NodeAnimation>,
    map: Seq<NodeView>,
    global: Transform,
    tick: int,
    weight: Ratio,
)
    requires
        distinct(map_names(map)),
    ensures
        distinct(map_names(walk_from(node, from, channels, map, global, tick, weight))),
    decreases node, node.children@.len() - from,
{
    if 0 <= from < node.children@.len() {
        let child = node.children@[from];
        let child_global = global.compose(local_transform(child, channels, tick));
        let with_child = accumulate(map, child.name@, child_global, child.meshes@, weight);
        lemma_accumulate_names(map, child.name@, child_global, child.meshes@, weight);
        lemma_walk_from_names(child, 0, channels, with_child, child_global, tick, weight);
        let below = walk_from(child, 0, channels, with_child, child_global, tick, weight);
        lemma_walk_from_names(node, from + 1, channels, below, global, tick, weight);
    }
}

/// In the node map of a frame no name stands twice: each name has one entry,
/// however many nodes and clips meet in it.
pub proof fn lemma_frame_names(
    model: ModelAnimation,
    current_tick: int,
    transitions: Seq<AnimationTransition>,
)
    ensures
        distinct(map_names(frame_map(model, current_tick, transitions))),
    decreases transitions.len(),
{
    let parent = Transform::of_matrix(model.global_inverse_transform);
    let root = model.root_node;
    let channels = model.node_animations@;
    let full = Ratio::one();
    let empty = Seq::<NodeView>::empty();
    let base = walk(root, channels, empty, parent, current_tick, full);
    if transitions.len() == 0 {
        let global = parent.compose(local_transform(root, channels, current_tick));
        lemma_accumulate_names(empty, root.name@, global, root.meshes@, full);
        lemma_walk_from_names(
            root,
            0,
            channels,
            accumulate(empty, root.name@, global, root.meshes@, full),
            global,
            current_tick,
            full,
        );
    } else {
        let earlier = transitions.drop_last();
        lemma_frame_names(model, current_tick, earlier);
        let before = blended(model, base, earlier);
        assert(before == frame_map(model, current_tick, earlier));
        let last = transitions.last();
        let tick = last.animation.current_tick as int;
        let global = parent.compose(local_transform(root, channels, tick));
        lemma_accumulate_names(before, root.name@, global, root.meshes@, last.weight());
        lemma_walk_from_names(
            root,
            0,
            channels,
            accumulate(before, root.name@, global, root.meshes@, last.weight()),
            global,
            tick,
            last.weight(),
        );
    }
}

} // verus!

//! What the walk over a hierarchy comes to when every node has a name of its
//! own: the first walk of a frame lists the nodes with their global
//! transforms, parents before children, and every further walk blends each
//! node's new global transform into the node's entry.
use crate::animator::{
    accumulate, blended, frame_map, local_transform, map_names, walk, walk_from,
    AnimationTransition, NodeView,
};
use crate::math::Ratio;
use crate::model_animation::{ModelAnimation, NodeData};
use crate::names::{
    distinct, is_absent, lemma_absent_is_no_position, lemma_first_is_position, lemma_position,
    position,
};
use crate::node_animation::NodeAnimation;
use crate::transform::Transform;
use vstd::prelude::*;

verus! {

/// The entry of a node whose global transform is `global`.
pub open spec fn posed(node: NodeData, global: Transform) -> NodeView {
    NodeView { name: node.name@, transform: global, meshes: node.meshes@ }
}

/// The entries of everything below `node` from its child `from` on, parents
/// before children: each node with the global transform that its parent's
/// global transform and its own local transform compose to.
pub open spec fn poses_from(
    node: NodeData,
    from: int,
    channels: Seq<NodeAnimation>,
    global: Transform,
    tick: int,
) -> Seq<NodeView>
    decreases node, node.children@.len() - from,
{
    if from < 0 || from >= node.children@.len() {
        Seq::empty()
    } else {
        let child = node.children@[from];
        let child_global = global.compose(local_transform(child, channels, tick));
        seq![posed(child, child_global)] + poses_from(child, 0, channels, child_global, tick)
            + poses_from(node, from + 1, channels, global, tick)
    }
}

/// The entries of `node` and everything below it, parents before children.
pub open spec fn poses(
    node: NodeData,
    channels: Seq<NodeAnimation>,
    parent: Transform,
    tick: int,
) -> Seq<NodeView> {
    let global = parent.compose(local_transform(node, channels, tick));
    seq![posed(node, global)] + poses_from(node, 0, channels, global, tick)
}

/// The names of everything below `node` from its child `from` on, parents
/// before children.
pub open spec fn names_from(node: NodeData, from: int) -> Seq<Seq<char>>
    decreases node, node.children@.len() - from,
{
    if from < 0 || from >= node.children@.len() {
        Seq::empty()
    } else {
        let child = node.children@[from];
        seq![child.name@] + names_from(child, 0) + names_from(node, from + 1)
    }
}

/// The names of `node` and everything below it, parents before children.
pub open spec fn node_names(node: NodeData) -> Seq<Seq<char>> {
    seq![node.name@] + names_from(node, 0)
}

/// The map with each entry blended towards the pose of its name, where
/// there is one.
pub open spec fn blend_entry(entry: NodeView, towards: Seq<NodeView>, weight: Ratio) -> NodeView {
    match position(map_names(towards), entry.name) {
        Some(j) => NodeView {
            transform: entry.transform.blend(towards[j].transform, weight),
            ..entry
        },
        None => entry,
    }
}

/// The map with every entry blended towards the pose of its name.
pub open spec fn blend_map(map: Seq<NodeView>, towards: Seq<NodeView>, weight: Ratio) -> Seq<
    NodeView,
> {
    Seq::new(map.len(), |i: int| blend_entry(map[i], towards, weight))
}

/// The node map of a frame, node by node: the poses of the current clip,
/// blended in turn towards the poses of each transition at its weight.
pub open spec fn frame_poses(
    model: ModelAnimation,
    current_tick: int,
    transitions: Seq<AnimationTransition>,
) -> Seq<NodeView>
    decreases transitions.len(),
{
    let parent = Transform::of_matrix(model.global_inverse_transform);
    if transitions.len() == 0 {
        poses(model.root_node, model.node_animations@, parent, current_tick)
    } else {
        blend_map(
            frame_poses(model, current_tick, transitions.drop_last()),
            poses(
                model.root_node,
                model.node_animations@,
                parent,
                transitions.last().animation.current_tick as int,
            ),
            transitions.last().weight(),
        )
    }
}

/// The names of two maps put together are the names of the one followed by
/// the names of the other.
pub proof fn lemma_names_of_concat(first: Seq<NodeView>, second: Seq<NodeView>)
    ensures
        map_names(first + second) == map_names(first) + map_names(second),
{
    assert(map_names(first + second) =~= map_names(first) + map_names(second));
}

/// The poses of a hierarchy have the names of its nodes, whatever the clip
/// and the time.
pub proof fn lemma_pose_names_from(
    node: NodeData,
    from: int,
    channels: Seq<NodeAnimation>,
    global: Transform,
    tick: int,
)
    ensures
        map_names(poses_from(node, from, channels, global, tick)) == names_from(node, from),
    decreases node, node.children@.len() - from,
{
    if 0 <= from < node.children@.len() {
        let child = node.children@[from];
        let child_global = global.compose(local_transform(child, channels, tick));
        let head = seq![posed(child, child_global)];
        let below = poses_from(child, 0, channels, child_global, tick);
        let rest = poses_from(node, from + 1, channels, global, tick);
        lemma_pose_names_from(child, 0, channels, child_global, tick);
        lemma_pose_names_from(node, from + 1, channels, global, tick);
        lemma_names_of_concat(head, below);
        lemma_names_of_concat(head + below, rest);
        assert(map_names(head) =~= seq![child.name@]);
    } else {
        assert(map_names(Seq::<NodeView>::empty()) =~= Seq::<Seq<char>>::empty());
    }
}

/// The poses of a node and everything below it have the names of the nodes.
pub proof fn lemma_pose_names(
    node: NodeData,
    channels: Seq<NodeAnimation>,
    parent: Transform,
    tick: int,
)
    ensures
        map_names(poses(node, channels, parent, tick)) == node_names(node),
{
    let global = parent.compose(local_transform(node, channels, tick));
    let head = seq![posed(node, global)];
    lemma_pose_names_from(node, 0, channels, global, tick);
    lemma_names_of_concat(head, poses_from(node, 0, channels, global, tick));
    assert(map_names(head) =~= seq![node.name@]);
}

/// Where no name stands twice in a list, none stands twice in its front part
/// or in its back part, and no name of the front stands in the back.
pub proof fn lemma_distinct_parts(front: Seq<Seq<char>>, back: Seq<Seq<char>>)
    requires
        distinct(front + back),
    ensures
        distinct(front),
        distinct(back),
        forall|i: int| 0 <= i < front.len() ==> is_absent(back, #[trigger] front[i]),
        forall|j: int| 0 <= j < back.len() ==> is_absent(front, #[trigger] back[j]),
{
    let all = front + back;
    assert forall|i: int, j: int| 0 <= i < j < front.len() implies front[i] != front[j] by {
        assert(all[i] == front[i] && all[j] == front[j]);
    }
    assert forall|i: int, j: int| 0 <= i < j < back.len() implies back[i] != back[j] by {
        assert(all[front.len() + i] == back[i] && all[front.len() + j] == back[j]);
    }
    assert forall|i: int| 0 <= i < front.len() implies is_absent(back, #[trigger] front[i]) by {
        assert forall|j: int| 0 <= j < back.len() implies back[j] != front[i] by {
            assert(all[i] == front[i] && all[front.len() + j] == back[j]);
        }
    }
    assert forall|j: int| 0 <= j < back.len() implies is_absent(front, #[trigger] back[j]) by {
        assert forall|i: int| 0 <= i < front.len() implies front[i] != back[j] by {
            assert(all[i] == front[i] && all[front.len() + j] == back[j]);
        }
    }
}

/// Walking nodes whose names are new to the map adds their poses at the end
/// of the map and changes nothing that is there.
pub proof fn lemma_walk_from_fresh(
    node: NodeData,
    from: int,
    channels: Seq<NodeAnimation>,
    map: Seq<NodeView>,
    global: Transform,
    tick: int,
    weight: Ratio,
)
    requires
        distinct(map_names(map) + names_from(node, from)),
    ensures
        walk_from(node, from, channels, map, global, tick, weight) == map + poses_from(
            node,
            from,
            channels,
            global,
            tick,
        ),
    decreases node, node.children@.len() - from,
{
    if 0 <= from < node.children@.len() {
        let child = node.children@[from];
        let child_global = global.compose(local_transform(child, channels, tick));
        let head = seq![posed(child, child_global)];
        let below = poses_from(child, 0, channels, child_global, tick);
        let rest = poses_from(node, from + 1, channels, global, tick);
        let known = map_names(map);
        let head_names = seq![child.name@];
        let below_names = names_from(child, 0);
        let rest_names = names_from(node, from + 1);
        assert(known + names_from(node, from) =~= (known + head_names + below_names) + rest_names);
        lemma_distinct_parts(known + head_names + below_names, rest_names);
        lemma_distinct_parts(known + head_names, below_names);
        lemma_distinct_parts(known, head_names);
        assert(head_names[0] == child.name@);
        assert(is_absent(known, child.name@));
        lemma_absent_is_no_position(known, child.name@);
        let with_child = accumulate(map, child.name@, child_global, child.meshes@, weight);
        assert(with_child == map.push(posed(child, child_global)));
        assert(with_child =~= map + head);
        lemma_names_of_concat(map, head);
        assert(map_names(head) =~= head_names);
        lemma_walk_from_fresh(child, 0, channels, with_child, child_global, tick, weight);
        let after_child = walk_from(child, 0, channels, with_child, child_global, tick, weight);
        assert(after_child == with_child + below);
        lemma_names_of_concat(with_child, below);
        lemma_pose_names_from(child, 0, channels, child_global, tick);
        assert(map_names(after_child) == known + head_names + below_names);
        lemma_walk_from_fresh(node, from + 1, channels, after_child, global, tick, weight);
        assert((map + head + below) + rest =~= map + (head + below + rest));
    } else {
        assert(map + Seq::<NodeView>::empty() =~= map);
    }
}

/// The first walk of a hierarchy in which every node has a name of its own
/// lists the poses of its nodes, parents before children.
pub proof fn lemma_first_walk(
    node: NodeData,
    channels: Seq<NodeAnimation>,
    parent: Transform,
    tick: int,
    weight: Ratio,
)
    requires
        distinct(node_names(node)),
    ensures
        walk(node, channels, Seq::empty(), parent, tick, weight) == poses(
            node,
            channels,
            parent,
            tick,
        ),
{
    let empty = Seq::<NodeView>::empty();
    let global = parent.compose(local_transform(node, channels, tick));
    let head = seq![posed(node, global)];
    assert(map_names(empty) =~= Seq::<Seq<char>>::empty());
    lemma_absent_is_no_position(map_names(empty), node.name@);
    let with_node = accumulate(empty, node.name@, global, node.meshes@, weight);
    assert(with_node =~= head);
    assert(map_names(head) =~= seq![node.name@]);
    lemma_walk_from_fresh(node, 0, channels, with_node, global, tick, weight);
}

/// The position of a name in two lists put together: its position in the
/// first, or else its position in the second, counted on from the first.
pub proof fn lemma_position_concat(front: Seq<Seq<char>>, back: Seq<Seq<char>>, name: Seq<char>)
    ensures
        position(front + back, name) == (match position(front, name) {
            Some(i) => Some(i),
            None => match position(back, name) {
                Some(j) => Some(front.len() + j),
                None => None,
            },
        }),
{
    let all = front + back;
    lemma_position(front, name);
    lemma_position(back, name);
    match position(front, name) {
        Some(i) => {
            assert(all[i] == front[i]);
            assert forall|k: int| 0 <= k < i implies all[k] != name by {
                assert(all[k] == front[k]);
            }
            lemma_first_is_position(all, name, i);
        },
        None => {
            match position(back, name) {
                Some(j) => {
                    assert(all[front.len() + j] == back[j]);
                    assert forall|k: int| 0 <= k < front.len() + j implies all[k] != name by {
                        if k < front.len() {
                            assert(all[k] == front[k]);
                        } else {
                            assert(all[k] == back[k - front.len()]);
                        }
                    }
                    lemma_first_is_position(all, name, front.len() + j);
                },
                None => {
                    assert forall|k: int| 0 <= k < all.len() implies all[k] != name by {
                        if k < front.len() {
                            assert(all[k] == front[k]);
                        } else {
                            assert(all[k] == back[k - front.len()]);
                        }
                    }
                    lemma_absent_is_no_position(all, name);
                },
            }
        },
    }
}

/// Blending keeps the names and the meshes of a map, entry by entry.
pub proof fn lemma_blend_names(map: Seq<NodeView>, towards: Seq<NodeView>, weight: Ratio)
    ensures
        map_names(blend_map(map, towards, weight)) == map_names(map),
        blend_map(map, towards, weight).len() == map.len(),
        forall|i: int|
            0 <= i < map.len() ==> (#[trigger] blend_map(map, towards, weight)[i]).meshes
                == map[i].meshes,
{
    assert(map_names(blend_map(map, towards, weight)) =~= map_names(map));
}

/// Blending towards one list of poses and then towards another, where no
/// name stands in both or twice in one, is blending towards the two lists
/// put together.
pub proof fn lemma_blend_concat(
    map: Seq<NodeView>,
    first: Seq<NodeView>,
    second: Seq<NodeView>,
    weight: Ratio,
)
    requires
        distinct(map_names(first) + map_names(second)),
    ensures
        blend_map(blend_map(map, first, weight), second, weight) == blend_map(
            map,
            first + second,
            weight,
        ),
{
    let once = blend_map(map, first, weight);
    let twice = blend_map(once, second, weight);
    let both = blend_map(map, first + second, weight);
    lemma_names_of_concat(first, second);
    lemma_distinct_parts(map_names(first), map_names(second));
    assert forall|i: int| 0 <= i < map.len() implies twice[i] == both[i] by {
        let name = map[i].name;
        lemma_position_concat(map_names(first), map_names(second), name);
        lemma_position(map_names(first), name);
        lemma_position(map_names(second), name);
        match position(map_names(first), name) {
            Some(j) => {
                assert(map_names(first)[j] == name);
                assert(is_absent(map_names(second), map_names(first)[j]));
                lemma_absent_is_no_position(map_names(second), name);
                assert((first + second)[j] == first[j]);
            },
            None => {
                match position(map_names(second), name) {
                    Some(k) => {
                        assert((first + second)[first.len() + k] == second[k]);
                    },
                    None => {},
                }
            },
        }
    }
    assert(twice =~= both);
}

/// Putting a node into a map that has an entry of its name, and no name
/// twice, blends the node's pose into that entry and leaves the others.
pub proof fn lemma_accumulate_known(
    map: Seq<NodeView>,
    node: NodeData,
    global: Transform,
    weight: Ratio,
)
    requires
        distinct(map_names(map)),
        position(map_names(map), node.name@).is_some(),
    ensures
        accumulate(map, node.name@, global, node.meshes@, weight) == blend_map(
            map,
            seq![posed(node, global)],
            weight,
        ),
{
    let one = seq![posed(node, global)];
    let after = accumulate(map, node.name@, global, node.meshes@, weight);
    let at = position(map_names(map), node.name@).unwrap();
    lemma_position(map_names(map), node.name@);
    assert(map_names(one) =~= seq![node.name@]);
    assert forall|i: int| 0 <= i < map.len() implies after[i] == blend_entry(
        map[i],
        one,
        weight,
    ) by {
        lemma_position(map_names(one), map[i].name);
        if i == at {
            assert(map_names(map)[at] == node.name@);
            lemma_first_is_position(map_names(one), map[i].name, 0);
        } else {
            assert(map_names(map)[i] != map_names(map)[at]);
            assert(is_absent(map_names(one), map[i].name));
            lemma_absent_is_no_position(map_names(one), map[i].name);
        }
    }
    assert(after =~= blend_map(map, one, weight));
}

/// Every name of `some` stands in `all`.
pub open spec fn all_known(all: Seq<Seq<char>>, some: Seq<Seq<char>>) -> bool {
    forall|k: int| 0 <= k < some.len() ==> position(all, #[trigger] some[k]).is_some()
}

/// Walking nodes that all have an entry in the map, where no name stands
/// twice in the map or among the nodes, blends each node's pose into its
/// entry.
pub proof fn lemma_walk_from_known(
    node: NodeData,
    from: int,
    channels: Seq<NodeAnimation>,
    map: Seq<NodeView>,
    global: Transform,
    tick: int,
    weight: Ratio,
)
    requires
        distinct(map_names(map)),
        distinct(names_from(node, from)),
        all_known(map_names(map), names_from(node, from)),
    ensures
        walk_from(node, from, channels, map, global, tick, weight) == blend_map(
            map,
            poses_from(node, from, channels, global, tick),
            weight,
        ),
    decreases node, node.children@.len() - from,
{
    if 0 <= from < node.children@.len() {
        let child = node.children@[from];
        let child_global = global.compose(local_transform(child, channels, tick));
        let head = seq![posed(child, child_global)];
        let below = poses_from(child, 0, channels, child_global, tick);
        let rest = poses_from(node, from + 1, channels, global, tick);
        let head_names = seq![child.name@];
        let below_names = names_from(child, 0);
        let rest_names = names_from(node, from + 1);
        let all_names = names_from(node, from);
        assert(all_names =~= (head_names + below_names) + rest_names);
        lemma_distinct_parts(head_names + below_names, rest_names);
        lemma_distinct_parts(head_names, below_names);
        assert(all_names[0] == child.name@);
        assert forall|k: int| 0 <= k < below_names.len() implies position(
            map_names(map),
            #[trigger] below_names[k],
        ).is_some() by {
            assert(all_names[1 + k] == below_names[k]);
        }
        assert forall|k: int| 0 <= k < rest_names.len() implies position(
            map_names(map),
            #[trigger] rest_names[k],
        ).is_some() by {
            assert(all_names[1 + below_names.len() + k] == rest_names[k]);
        }
        lemma_accumulate_known(map, child, child_global, weight);
        let with_child = accumulate(map, child.name@, child_global, child.meshes@, weight);
        lemma_blend_names(map, head, weight);
        lemma_walk_from_known(child, 0, channels, with_child, child_global, tick, weight);
        let after_child = walk_from(child, 0, channels, with_child, child_global, tick, weight);
        lemma_blend_names(with_child, below, weight);
        lemma_walk_from_known(node, from + 1, channels, after_child, global, tick, weight);
        lemma_pose_names_from(child, 0, channels, child_global, tick);
        lemma_pose_names_from(node, from + 1, channels, global, tick);
        assert(map_names(head) =~= head_names);
        lemma_blend_concat(map, head, below, weight);
        lemma_names_of_concat(head, below);
        lemma_blend_concat(map, head + below, rest, weight);
    } else {
        let none = Seq::<NodeView>::empty();
        assert(map_names(none) =~= Seq::<Seq<char>>::empty());
        assert forall|i: int| 0 <= i < map.len() implies blend_entry(map[i], none, weight)
            == map[i] by {
            lemma_absent_is_no_position(map_names(none), map[i].name);
        }
        assert(blend_map(map, none, weight) =~= map);
    }
}

/// A further walk of a hierarchy whose nodes all have an entry in the map,
/// each under a name of its own, blends each node's pose into its entry.
pub proof fn lemma_further_walk(
    node: NodeData,
    channels: Seq<NodeAnimation>,
    map: Seq<NodeView>,
    parent: Transform,
    tick: int,
    weight: Ratio,
)
    requires
        distinct(node_names(node)),
        map_names(map) == node_names(node),
    ensures
        walk(node, channels, map, parent, tick, weight) == blend_map(
            map,
            poses(node, channels, parent, tick),
            weight,
        ),
{
    let global = parent.compose(local_transform(node, channels, tick));
    let head = seq![posed(node, global)];
    let below = poses_from(node, 0, channels, global, tick);
    let head_names = seq![node.name@];
    let below_names = names_from(node, 0);
    let all_names = node_names(node);
    lemma_distinct_parts(head_names, below_names);
    assert(all_names[0] == node.name@);
    lemma_first_is_position(all_names, node.name@, 0);
    assert forall|k: int| 0 <= k < below_names.len() implies position(
        map_names(map),
        #[trigger] below_names[k],
    ).is_some() by {
        assert(all_names[1 + k] == below_names[k]);
        lemma_position(all_names, below_names[k]);
    }
    lemma_accumulate_known(map, node, global, weight);
    let with_node = accumulate(map, node.name@, global, node.meshes@, weight);
    lemma_blend_names(map, head, weight);
    lemma_walk_from_known(node, 0, channels, with_node, global, tick, weight);
    lemma_pose_names_from(node, 0, channels, global, tick);
    assert(map_names(head) =~= head_names);
    lemma_blend_concat(map, head, below, weight);
}

/// The node map of a frame, for a hierarchy in which every node has a name
/// of its own: one entry for each node, parents before children, holding the
/// node's pose in the current clip blended in turn towards its pose in each
/// transition, at that transition's weight.
pub proof fn lemma_frame_poses(
    model: ModelAnimation,
    current_tick: int,
    transitions: Seq<AnimationTransition>,
)
    requires
        distinct(node_names(model.root_node)),
    ensures
        frame_map(model, current_tick, transitions) == frame_poses(
            model,
            current_tick,
            transitions,
        ),
        map_names(frame_map(model, current_tick, transitions)) == node_names(model.root_node),
    decreases transitions.len(),
{
    let parent = Transform::of_matrix(model.global_inverse_transform);
    let root = model.root_node;
    let channels = model.node_animations@;
    let full = Ratio::one();
    let base = walk(root, channels, Seq::empty(), parent, current_tick, full);
    if transitions.len() == 0 {
        lemma_first_walk(root, channels, parent, current_tick, full);
        lemma_pose_names(root, channels, parent, current_tick);
    } else {
        let earlier = transitions.drop_last();
        let last = transitions.last();
        lemma_frame_poses(model, current_tick, earlier);
        let before = blended(model, base, earlier);
        assert(before == frame_map(model, current_tick, earlier));
        lemma_further_walk(
            root,
            channels,
            before,
            parent,
            last.animation.current_tick as int,
            last.weight(),
        );
        lemma_blend_names(
            before,
            poses(root, channels, parent, last.animation.current_tick as int),
            last.weight(),
        );
    }
}

} // verus!

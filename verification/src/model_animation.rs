//! What a model holds that does not change while it plays: the hierarchy of
//! its nodes, the bones that its meshes are skinned to, and the channels of
//! its animation.
use crate::error::Error;
use crate::math::{invert_mat4, mat4_inverse};
use crate::names::{distinct, find_named, lemma_position, names, position, Named};
use crate::node_animation::NodeAnimation;
use crate::transform::Transform;
use vstd::prelude::*;

verus! {

/// The number of bone matrices that the shader takes.
pub const MAX_BONES: usize = 100;

/// The number of meshes for which a node matrix is kept.
pub const MAX_MESHES: usize = 50;

/// A node of the hierarchy: its place relative to its parent when no channel
/// animates it, its children, and the meshes that hang on it.
#[derive(Debug)]
pub struct NodeData {
    pub name: String,
    pub transform_matrix: glam::Mat4,
    pub transform: Transform,
    pub children: Vec<NodeData>,
    pub meshes: Vec<u32>,
}

impl Named for NodeData {
    open spec fn spec_name(&self) -> Seq<char> {
        self.name@
    }

    fn name(&self) -> (name: &String) {
        &self.name
    }
}

impl NodeData {
    /// Every mesh index in this node and below it is less than `limit`.
    pub open spec fn meshes_below(self, limit: int) -> bool
        decreases self,
    {
        &&& forall|k: int| 0 <= k < self.meshes@.len() ==> self.meshes@[k] < limit
        &&& forall|c: int|
            0 <= c < self.children@.len() ==> (#[trigger] self.children@[c]).meshes_below(limit)
    }

    /// A node without a name, children or meshes, in the place of its parent.
    pub fn new() -> (node: Self)
        ensures
            node.name@ == Seq::<char>::empty(),
            node.transform == Transform::spec_identity(),
            node.transform_matrix == Transform::spec_identity().matrix(),
            node.children@.len() == 0,
            node.meshes@.len() == 0,
    {
        let transform = Transform::identity();
        NodeData {
            name: String::new(),
            transform_matrix: transform.compute_matrix(),
            transform,
            children: Vec::new(),
            meshes: Vec::new(),
        }
    }

    /// A node with the given local matrix, which is also kept split into its
    /// parts.
    pub fn with_matrix(
        name: String,
        transform_matrix: glam::Mat4,
        children: Vec<NodeData>,
        meshes: Vec<u32>,
    ) -> (node: Self)
        ensures
            node.name == name,
            node.transform_matrix == transform_matrix,
            node.transform == Transform::of_matrix(transform_matrix),
            node.children == children,
            node.meshes == meshes,
    {
        NodeData {
            name,
            transform_matrix,
            transform: Transform::from_matrix(transform_matrix),
            children,
            meshes,
        }
    }

    /// Whether every mesh index in this node and below it is less than
    /// `limit`.
    pub fn meshes_in_range(&self, limit: u32) -> (all: bool)
        ensures
            all == self.meshes_below(limit as int),
        decreases *self,
    {
        let mut k: usize = 0;
        while k < self.meshes.len()
            invariant
                k <= self.meshes.len(),
                forall|i: int| 0 <= i < k ==> self.meshes@[i] < limit,
            decreases self.meshes.len() - k,
        {
            if self.meshes[k] >= limit {
                return false;
            }
            k += 1;
        }
        let mut c: usize = 0;
        while c < self.children.len()
            invariant
                c <= self.children.len(),
                forall|i: int| 0 <= i < self.meshes@.len() ==> self.meshes@[i] < limit,
                forall|i: int| 0 <= i < c ==> (#[trigger] self.children@[i]).meshes_below(limit as int),
            decreases self.children.len() - c,
        {
            if !self.children[c].meshes_in_range(limit) {
                return false;
            }
            c += 1;
        }
        true
    }
}

impl Default for NodeData {
    fn default() -> (node: Self)
        ensures
            node.name@ == Seq::<char>::empty(),
            node.transform == Transform::spec_identity(),
            node.children@.len() == 0,
            node.meshes@.len() == 0,
    {
        NodeData::new()
    }
}

/// A bone that vertices are skinned to: its name, the index of its matrix in
/// the shader, and the transform from mesh space into the bone's own space.
#[derive(Debug, Clone)]
pub struct BoneData {
    pub name: String,
    pub bone_index: i32,
    pub offset_transform: Transform,
}

impl Named for BoneData {
    open spec fn spec_name(&self) -> Seq<char> {
        self.name@
    }

    fn name(&self) -> (name: &String) {
        &self.name
    }
}

impl BoneData {
    pub fn new(name: &str, id: i32, offset: glam::Mat4) -> (bone: Self)
        ensures
            bone.name@ == name@,
            bone.bone_index == id,
            bone.offset_transform == Transform::of_matrix(offset),
    {
        BoneData {
            name: name.to_owned(),
            bone_index: id,
            offset_transform: Transform::from_matrix(offset),
        }
    }
}

/// The bones of a model by name. A bone is registered once, when its name is
/// first met, and gets the next free index.
#[derive(Debug, Clone)]
pub struct BoneDataMap {
    pub bones: Vec<BoneData>,
}

impl BoneDataMap {
    /// The bones are numbered in the order in which they were registered,
    /// without a gap, no two have the same name, and there are no more of
    /// them than the shader has matrices.
    pub open spec fn wf(&self) -> bool {
        &&& self.bones@.len() <= MAX_BONES
        &&& forall|i: int| 0 <= i < self.bones@.len() ==> (#[trigger] self.bones@[i]).bone_index == i
        &&& distinct(names(self.bones@))
    }

    /// The index numbers that have been given out.
    pub open spec fn indices(&self) -> Set<int> {
        Set::new(
            |index: int|
                exists|i: int|
                    0 <= i < self.bones@.len() && (#[trigger] self.bones@[i]).bone_index == index,
        )
    }

    /// A map without bones.
    pub fn new() -> (map: Self)
        ensures
            map.wf(),
            map.bones@.len() == 0,
    {
        BoneDataMap { bones: Vec::new() }
    }

    /// Whether the bones are numbered without a gap, no two have the same
    /// name, and there are no more of them than the shader has matrices.
    pub fn is_valid(&self) -> (valid: bool)
        ensures
            valid == self.wf(),
    {
        if self.bones.len() > MAX_BONES {
            return false;
        }
        let mut i: usize = 0;
        while i < self.bones.len()
            invariant
                i <= self.bones.len(),
                self.bones@.len() <= MAX_BONES,
                forall|k: int| 0 <= k < i ==> (#[trigger] self.bones@[k]).bone_index == k,
                forall|a: int, b: int|
                    0 <= a < b < i ==> names(self.bones@)[a] != names(self.bones@)[b],
            decreases self.bones.len() - i,
        {
            if self.bones[i].bone_index != i as i32 {
                return false;
            }
            let mut j: usize = 0;
            while j < i
                invariant
                    j <= i,
                    i < self.bones.len(),
                    forall|a: int| 0 <= a < j ==> names(self.bones@)[a] != names(self.bones@)[i as int],
                decreases i - j,
            {
                if self.bones[j].name == self.bones[i].name {
                    assert(names(self.bones@)[j as int] == names(self.bones@)[i as int]);
                    return false;
                }
                assert(names(self.bones@)[j as int] != names(self.bones@)[i as int]);
                j += 1;
            }
            i += 1;
        }
        true
    }

    /// The number of bones.
    pub fn len(&self) -> (count: usize)
        ensures
            count == self.bones@.len(),
    {
        self.bones.len()
    }

    /// The bone with the given name, if it is registered.
    pub fn get(&self, name: &String) -> (found: Option<&BoneData>)
        ensures
            match found {
                Some(bone) => position(names(self.bones@), name@).is_some() && *bone
                    == self.bones@[position(names(self.bones@), name@).unwrap()] && bone.name@
                    == name@,
                None => position(names(self.bones@), name@).is_none(),
            },
    {
        match find_named(&self.bones, name) {
            Some(index) => Some(&self.bones[index]),
            None => None,
        }
    }

    /// Registers the bone `name` with the given offset matrix and returns its
    /// index. A name that is registered keeps its index and its offset. A new
    /// name gets the next index, unless all indices are taken.
    pub fn register(&mut self, name: &String, offset: glam::Mat4) -> (registered: Result<
        i32,
        Error,
    >)
        requires
            old(self).wf(),
        ensures
            final(self).wf(),
            match position(names(old(self).bones@), name@) {
                Some(index) => registered == Ok::<i32, Error>(index as i32) && final(self).bones@
                    == old(self).bones@,
                None => if old(self).bones@.len() >= MAX_BONES {
                    registered == Err::<i32, Error>(Error::TooManyBones) && final(self).bones@
                        == old(self).bones@
                } else {
                    &&& registered == Ok::<i32, Error>(old(self).bones@.len() as i32)
                    &&& final(self).bones@.len() == old(self).bones@.len() + 1
                    &&& final(self).bones@.subrange(0, old(self).bones@.len() as int) == old(
                        self,
                    ).bones@
                    &&& final(self).bones@.last().name@ == name@
                    &&& final(self).bones@.last().bone_index == old(self).bones@.len()
                    &&& final(self).bones@.last().offset_transform == Transform::of_matrix(offset)
                },
            },
    {
        match find_named(&self.bones, name) {
            Some(index) => Ok(self.bones[index].bone_index),
            None => {
                if self.bones.len() >= MAX_BONES {
                    Err(Error::TooManyBones)
                } else {
                    let id: i32 = self.bones.len() as i32;
                    let bone = BoneData::new(name.as_str(), id, offset);
                    self.bones.push(bone);
                    proof {
                        let before = old(self).bones@;
                        let after = self.bones@;
                        assert(after.subrange(0, before.len() as int) == before);
                        lemma_position(names(before), name@);
                        assert forall|i: int, j: int| 0 <= i < j < after.len() implies names(
                            after,
                        )[i] != names(after)[j] by {
                            assert(names(after)[i] == names(before)[i]);
                            if j < before.len() {
                                assert(names(after)[j] == names(before)[j]);
                            }
                        }
                    }
                    Ok(id)
                }
            },
        }
    }
}

/// The indices given out to the bones of a map are the numbers from 0 up to
/// the number of bones, each given to one bone only.
pub proof fn lemma_bone_indices_dense(map: BoneDataMap)
    requires
        map.wf(),
    ensures
        map.indices() == Set::new(|index: int| 0 <= index < map.bones@.len()),
        forall|i: int, j: int|
            0 <= i < j < map.bones@.len() ==> map.bones@[i].bone_index != map.bones@[j].bone_index,
        forall|i: int, j: int|
            0 <= i < j < map.bones@.len() ==> map.bones@[i].name@ != map.bones@[j].name@,
{
    assert forall|index: int| map.indices().contains(index) <==> 0 <= index < map.bones@.len() by {
        if 0 <= index < map.bones@.len() {
            assert(map.bones@[index].bone_index == index);
        }
    }
    assert(map.indices() =~= Set::new(|index: int| 0 <= index < map.bones@.len()));
    assert forall|i: int, j: int| 0 <= i < j < map.bones@.len() implies map.bones@[i].name@
        != map.bones@[j].name@ by {
        assert(names(map.bones@)[i] != names(map.bones@)[j]);
    }
}

/// One animation as it comes from a scene: its length in micro-ticks, its
/// rate in ticks per second, and one channel for each node that it moves.
#[derive(Debug, Clone)]
pub struct AnimationData {
    pub duration: i64,
    pub ticks_per_second: u64,
    pub channels: Vec<NodeAnimation>,
}

/// Every channel can be sampled.
pub open spec fn channels_wf(channels: Seq<NodeAnimation>) -> bool {
    forall|i: int| 0 <= i < channels.len() ==> (#[trigger] channels[i]).wf()
}

/// Every channel animates a registered bone.
pub open spec fn channels_are_bones(channels: Seq<NodeAnimation>, bones: Seq<BoneData>) -> bool {
    forall|i: int|
        0 <= i < channels.len() ==> position(names(bones), (#[trigger] channels[i]).name@).is_some()
}

/// Whether every channel can be sampled.
pub fn check_tracks(channels: &Vec<NodeAnimation>) -> (all: bool)
    ensures
        all == channels_wf(channels@),
{
    let mut i: usize = 0;
    while i < channels.len()
        invariant
            i <= channels.len(),
            forall|k: int| 0 <= k < i ==> (#[trigger] channels@[k]).wf(),
        decreases channels.len() - i,
    {
        if !channels[i].is_valid() {
            return false;
        }
        i += 1;
    }
    true
}

/// Whether every channel animates a registered bone.
pub fn check_channels(channels: &Vec<NodeAnimation>, bone_data_map: &BoneDataMap) -> (all: bool)
    ensures
        all == channels_are_bones(channels@, bone_data_map.bones@),
{
    let mut i: usize = 0;
    while i < channels.len()
        invariant
            i <= channels.len(),
            forall|k: int|
                0 <= k < i ==> position(
                    names(bone_data_map.bones@),
                    (#[trigger] channels@[k]).name@,
                ).is_some(),
        decreases channels.len() - i,
    {
        if find_named(&bone_data_map.bones, &channels[i].name).is_none() {
            return false;
        }
        i += 1;
    }
    true
}

/// The data of a model that is bound to one animation and does not change
/// while it plays.
#[derive(Debug)]
pub struct ModelAnimation {
    pub duration: i64,
    pub ticks_per_second: u64,
    pub root_node: NodeData,
    pub node_animations: Vec<NodeAnimation>,
    pub bone_data_map: BoneDataMap,
    pub global_inverse_transform: glam::Mat4,
}

impl ModelAnimation {
    /// The data can be played: every channel can be sampled and animates a
    /// registered bone, the bones are numbered without a gap, and there is a
    /// node matrix for every mesh of the hierarchy.
    pub open spec fn wf(&self) -> bool {
        &&& channels_wf(self.node_animations@)
        &&& channels_are_bones(self.node_animations@, self.bone_data_map.bones@)
        &&& self.bone_data_map.wf()
        &&& self.root_node.meshes_below(MAX_MESHES as int)
    }

    /// Whether the data can be played.
    pub fn is_valid(&self) -> (valid: bool)
        ensures
            valid == self.wf(),
    {
        check_tracks(&self.node_animations) && check_channels(
            &self.node_animations,
            &self.bone_data_map,
        ) && self.bone_data_map.is_valid() && self.root_node.meshes_in_range(MAX_MESHES as u32)
    }

    /// There is nothing to play: no length, no channels, no bones, and a
    /// hierarchy of one empty node.
    pub open spec fn is_empty(&self) -> bool {
        &&& self.duration == 0
        &&& self.ticks_per_second == 0
        &&& self.root_node.name@ == Seq::<char>::empty()
        &&& self.root_node.children@.len() == 0
        &&& self.root_node.meshes@.len() == 0
        &&& self.root_node.transform == Transform::spec_identity()
        &&& self.node_animations@.len() == 0
        &&& self.bone_data_map.bones@.len() == 0
        &&& self.global_inverse_transform == Transform::spec_identity().matrix()
    }

    /// What is wrong with the data of a model, if anything: a channel without
    /// a bone, or a mesh without a node matrix.
    pub open spec fn fault(
        root_node: NodeData,
        channels: Seq<NodeAnimation>,
        bones: Seq<BoneData>,
    ) -> Option<Error> {
        if !channels_are_bones(channels, bones) {
            Some(Error::MissingBone)
        } else if !root_node.meshes_below(MAX_MESHES as int) {
            Some(Error::MeshOutOfRange)
        } else {
            None
        }
    }

    /// Binds a hierarchy and its bones to an animation. Without an animation
    /// the result is empty, whatever the hierarchy. With one, the channels
    /// must animate registered bones and the meshes must have node matrices;
    /// the inverse of the root's matrix is kept to take the root's own
    /// placement out of every bone.
    pub fn new(
        root_node: NodeData,
        animation: Option<AnimationData>,
        bone_data_map: BoneDataMap,
    ) -> (made: Result<ModelAnimation, Error>)
        requires
            bone_data_map.wf(),
            animation.is_some() ==> channels_wf(animation.unwrap().channels@),
        ensures
            match animation {
                None => made.is_ok() && made.unwrap().is_empty() && made.unwrap().wf(),
                Some(data) => match ModelAnimation::fault(
                    root_node,
                    data.channels@,
                    bone_data_map.bones@,
                ) {
                    Some(fault) => made == Err::<ModelAnimation, Error>(fault),
                    None => {
                        &&& made.is_ok()
                        &&& made.unwrap().wf()
                        &&& made.unwrap().duration == data.duration
                        &&& made.unwrap().ticks_per_second == data.ticks_per_second
                        &&& made.unwrap().root_node == root_node
                        &&& made.unwrap().node_animations == data.channels
                        &&& made.unwrap().bone_data_map == bone_data_map
                        &&& made.unwrap().global_inverse_transform == mat4_inverse(
                            root_node.transform_matrix,
                        )
                    },
                },
            },
    {
        match animation {
            None => Ok(ModelAnimation::default()),
            Some(data) => {
                if !check_channels(&data.channels, &bone_data_map) {
                    return Err(Error::MissingBone);
                }
                if !root_node.meshes_in_range(MAX_MESHES as u32) {
                    return Err(Error::MeshOutOfRange);
                }
                let global_inverse_transform = invert_mat4(&root_node.transform_matrix);
                Ok(
                    ModelAnimation {
                        duration: data.duration,
                        ticks_per_second: data.ticks_per_second,
                        root_node,
                        node_animations: data.channels,
                        bone_data_map,
                        global_inverse_transform,
                    },
                )
            },
        }
    }
}

impl Default for ModelAnimation {
    fn default() -> (empty: Self)
        ensures
            empty.is_empty(),
            empty.wf(),
    {
        ModelAnimation {
            duration: 0,
            ticks_per_second: 0,
            root_node: NodeData::new(),
            node_animations: Vec::new(),
            bone_data_map: BoneDataMap::new(),
            global_inverse_transform: Transform::identity().compute_matrix(),
        }
    }
}

} // verus!

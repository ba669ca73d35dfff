//! Putting a model together: the settings of a build, and the registry of
//! bones that is filled from the meshes, one mesh after another.
use crate::error::Error;
use crate::model_animation::{BoneDataMap, MAX_BONES};
use crate::model_mesh::{Influences, ModelVertex};
use crate::names::{distinct, lemma_first_is_position, lemma_position, names, position};
use crate::texture::{TextureConfig, TextureFilter, TextureType, TextureWrap};
use vstd::prelude::*;

verus! {

/// A texture that the caller adds to a mesh by hand.
#[derive(Debug, Clone)]
pub struct AddedTextures {
    pub mesh_name: String,
    pub texture_type: TextureType,
    pub texture_filename: String,
}

/// The weight of one bone on one vertex. The weight is kept as the 32 bits
/// of a single-precision number.
#[derive(Debug, Clone, Copy, PartialEq, Eq, Structural)]
pub struct VertexWeight {
    pub vertex_id: u32,
    pub weight: u32,
}

/// A bone as a mesh names it: its offset matrix and the vertices that it
/// weighs on.
#[derive(Debug)]
pub struct MeshBone {
    pub name: String,
    pub offset_matrix: glam::Mat4,
    pub weights: Vec<VertexWeight>,
}

/// The names that are registered after the bones have been met in their
/// order: to the names known before, each new name is added when it is first
/// met.
pub open spec fn names_after(known: Seq<Seq<char>>, bones: Seq<MeshBone>) -> Seq<Seq<char>>
    decreases bones.len(),
{
    if bones.len() == 0 {
        known
    } else {
        let earlier = names_after(known, bones.drop_last());
        if position(earlier, bones.last().name@).is_some() {
            earlier
        } else {
            earlier.push(bones.last().name@)
        }
    }
}

/// Every weight is on a vertex that the mesh has.
pub open spec fn weights_in_range(weights: Seq<VertexWeight>, vertex_count: int) -> bool {
    forall|w: int| 0 <= w < weights.len() ==> (#[trigger] weights[w]).vertex_id < vertex_count
}

/// What is wrong with a bone that is met when the given names are
/// registered: it weighs on a vertex that the mesh does not have, or its
/// name is new and all bone indices are taken.
pub open spec fn bone_fault(
    registered: Seq<Seq<char>>,
    vertex_count: int,
    bone: MeshBone,
) -> Option<Error> {
    if !weights_in_range(bone.weights@, vertex_count) {
        Some(Error::VertexOutOfRange)
    } else if position(registered, bone.name@).is_none() && registered.len() >= MAX_BONES {
        Some(Error::TooManyBones)
    } else {
        None
    }
}

/// The number of bones that are gone through: all the bones before the first
/// one with a fault.
pub open spec fn taken(known: Seq<Seq<char>>, vertex_count: int, bones: Seq<MeshBone>) -> int
    decreases bones.len(),
{
    if bones.len() == 0 {
        0
    } else {
        let before = taken(known, vertex_count, bones.drop_last());
        if before == bones.len() - 1 && bone_fault(
            names_after(known, bones.drop_last()),
            vertex_count,
            bones.last(),
        ).is_none() {
            before + 1
        } else {
            before
        }
    }
}

/// The fault of the first bone that has one, if any bone has.
pub open spec fn extraction_fault(
    known: Seq<Seq<char>>,
    vertex_count: int,
    bones: Seq<MeshBone>,
) -> Option<Error> {
    let count = taken(known, vertex_count, bones);
    if 0 <= count < bones.len() {
        bone_fault(names_after(known, bones.take(count)), vertex_count, bones[count])
    } else {
        None
    }
}

/// The influences on the vertices after the bone `bone_id` has been put on
/// each vertex that it weighs on, in the order of its weights.
pub open spec fn weighed(
    influences: Seq<Influences>,
    weights: Seq<VertexWeight>,
    bone_id: i32,
) -> Seq<Influences>
    decreases weights.len(),
{
    if weights.len() == 0 {
        influences
    } else {
        let earlier = weighed(influences, weights.drop_last(), bone_id);
        let last = weights.last();
        if last.vertex_id < earlier.len() {
            earlier.update(
                last.vertex_id as int,
                earlier[last.vertex_id as int].with_bone(bone_id, last.weight),
            )
        } else {
            earlier
        }
    }
}

/// The influences on the vertices after all the bones have been put on them
/// in their order, each under the index at which its name is registered.
pub open spec fn influences_after(
    influences: Seq<Influences>,
    known: Seq<Seq<char>>,
    bones: Seq<MeshBone>,
) -> Seq<Influences>
    decreases bones.len(),
{
    if bones.len() == 0 {
        influences
    } else {
        let earlier = influences_after(influences, known, bones.drop_last());
        let bone_id = position(names_after(known, bones), bones.last().name@).unwrap();
        weighed(earlier, bones.last().weights@, bone_id as i32)
    }
}

/// The influences on each vertex of a list.
pub open spec fn influences_of(vertices: Seq<ModelVertex>) -> Seq<Influences> {
    Seq::new(vertices.len(), |i: int| vertices[i].influences())
}

/// Whether every weight is on a vertex that the mesh has.
pub fn check_weights(weights: &Vec<VertexWeight>, vertex_count: usize) -> (all: bool)
    ensures
        all == weights_in_range(weights@, vertex_count as int),
{
    let mut w: usize = 0;
    while w < weights.len()
        invariant
            w <= weights.len(),
            forall|k: int| 0 <= k < w ==> (#[trigger] weights@[k]).vertex_id < vertex_count,
        decreases weights.len() - w,
    {
        if weights[w].vertex_id as usize >= vertex_count {
            return false;
        }
        w += 1;
    }
    true
}

/// Puts the bone `bone_id` on each vertex that it weighs on.
pub fn apply_weights(vertices: &mut Vec<ModelVertex>, weights: &Vec<VertexWeight>, bone_id: i32)
    requires
        weights_in_range(weights@, old(vertices)@.len() as int),
    ensures
        final(vertices)@.len() == old(vertices)@.len(),
        influences_of(final(vertices)@) == weighed(influences_of(old(vertices)@), weights@, bone_id),
        forall|i: int|
            0 <= i < old(vertices)@.len() ==> (#[trigger] final(vertices)@[i]).same_place(
                old(vertices)@[i],
            ),
{
    let mut w: usize = 0;
    while w < weights.len()
        invariant
            w <= weights.len(),
            vertices@.len() == old(vertices)@.len(),
            weights_in_range(weights@, vertices@.len() as int),
            influences_of(vertices@) == weighed(
                influences_of(old(vertices)@),
                weights@.take(w as int),
                bone_id,
            ),
            forall|i: int|
                0 <= i < vertices@.len() ==> (#[trigger] vertices@[i]).same_place(old(vertices)@[i]),
        decreases weights.len() - w,
    {
        let ghost before = vertices@;
        let vertex_id = weights[w].vertex_id as usize;
        let weight = weights[w].weight;
        assert(weights@[w as int].vertex_id < vertices@.len());
        vertices[vertex_id].set_bone_data(bone_id, weight);
        proof {
            assert(weights@.take(w + 1).drop_last() == weights@.take(w as int));
            assert(weights@.take(w + 1).last() == weights@[w as int]);
            assert(influences_of(vertices@) =~= influences_of(before).update(
                vertex_id as int,
                influences_of(before)[vertex_id as int].with_bone(bone_id, weight),
            ));
        }
        w += 1;
    }
    assert(weights@.take(w as int) == weights@);
}

/// What is to be built: where the model comes from, how its textures are to
/// be treated, and the bones registered so far.
#[derive(Debug)]
pub struct ModelBuilder {
    pub name: String,
    pub bone_data_map: BoneDataMap,
    pub bone_count: i32,
    pub filepath: String,
    pub gamma_correction: bool,
    pub flip_v: bool,
    pub flip_h: bool,
    pub load_textures: bool,
    pub added_textures: Vec<AddedTextures>,
    pub mesh_count: i32,
}

impl ModelBuilder {
    /// The bones are numbered without a gap and `bone_count` is their number.
    pub open spec fn wf(&self) -> bool {
        &&& self.bone_data_map.wf()
        &&& self.bone_count == self.bone_data_map.bones@.len()
    }

    /// Whether the bones are numbered without a gap and `bone_count` is
    /// their number.
    pub fn is_valid(&self) -> (valid: bool)
        ensures
            valid == self.wf(),
    {
        self.bone_data_map.is_valid() && self.bone_count >= 0 && self.bone_count as usize
            == self.bone_data_map.len()
    }

    /// A build of the model `name` from the file at `path`, with textures
    /// loaded as they are and no bone registered.
    pub fn new(name: String, path: String) -> (builder: Self)
        ensures
            builder.wf(),
            builder.name == name,
            builder.filepath == path,
            builder.bone_data_map.bones@.len() == 0,
            builder.bone_count == 0,
            builder.mesh_count == 0,
            !builder.gamma_correction,
            !builder.flip_v,
            !builder.flip_h,
            builder.load_textures,
            builder.added_textures@.len() == 0,
    {
        ModelBuilder {
            name,
            bone_data_map: BoneDataMap::new(),
            bone_count: 0,
            filepath: path,
            gamma_correction: false,
            flip_v: false,
            flip_h: false,
            load_textures: true,
            added_textures: Vec::new(),
            mesh_count: 0,
        }
    }

    /// Asks for textures to be flipped top to bottom.
    pub fn flipv(self) -> (builder: Self)
        ensures
            builder == (ModelBuilder { flip_v: true, ..self }),
    {
        let mut builder = self;
        builder.flip_v = true;
        builder
    }

    /// Asks for colour textures to be stored gamma-corrected.
    pub fn correct_gamma(self) -> (builder: Self)
        ensures
            builder == (ModelBuilder { gamma_correction: true, ..self }),
    {
        let mut builder = self;
        builder.gamma_correction = true;
        builder
    }

    /// Asks for the model's own textures to be left out.
    pub fn skip_textures(self) -> (builder: Self)
        ensures
            builder == (ModelBuilder { load_textures: false, ..self }),
    {
        let mut builder = self;
        builder.load_textures = false;
        builder
    }

    /// Adds a texture to the mesh `mesh_name`, after those added before.
    pub fn add_texture(
        self,
        mesh_name: String,
        texture_type: TextureType,
        texture_filename: String,
    ) -> (builder: Self)
        ensures
            builder.added_textures@ == self.added_textures@.push(
                AddedTextures { mesh_name, texture_type, texture_filename },
            ),
            builder.name == self.name,
            builder.bone_data_map == self.bone_data_map,
            builder.bone_count == self.bone_count,
            builder.filepath == self.filepath,
            builder.gamma_correction == self.gamma_correction,
            builder.flip_v == self.flip_v,
            builder.flip_h == self.flip_h,
            builder.load_textures == self.load_textures,
            builder.mesh_count == self.mesh_count,
    {
        let mut builder = self;
        builder.added_textures.push(AddedTextures { mesh_name, texture_type, texture_filename });
        builder
    }

    /// The settings with which a texture of the given kind is loaded for
    /// this model.
    pub fn texture_config(&self, texture_type: TextureType) -> (config: TextureConfig)
        ensures
            config == (TextureConfig {
                texture_type,
                filter: TextureFilter::Linear,
                wrap: TextureWrap::Repeat,
                flip_v: self.flip_v,
                gamma_correction: self.gamma_correction,
            }),
    {
        TextureConfig {
            texture_type,
            filter: TextureFilter::Linear,
            wrap: TextureWrap::Repeat,
            flip_v: self.flip_v,
            gamma_correction: self.gamma_correction,
        }
    }

    /// Goes through the bones of a mesh in their order: registers each bone
    /// whose name is new under the next free index, and puts each bone on the
    /// vertices that it weighs on. Stops before the first bone that weighs on
    /// a vertex the mesh does not have or that cannot be registered; what the
    /// bones before it have done stays.
    pub fn extract_bone_weights_for_vertices(
        &mut self,
        vertices: &mut Vec<ModelVertex>,
        bones: &Vec<MeshBone>,
    ) -> (done: Result<(), Error>)
        requires
            old(self).wf(),
        ensures
            final(self).wf(),
            final(vertices)@.len() == old(vertices)@.len(),
            forall|i: int|
                0 <= i < old(vertices)@.len() ==> (#[trigger] final(vertices)@[i]).same_place(
                    old(vertices)@[i],
                ),
            final(self).bone_data_map.bones@.len() >= old(self).bone_data_map.bones@.len(),
            final(self).bone_data_map.bones@.take(old(self).bone_data_map.bones@.len() as int)
                == old(self).bone_data_map.bones@,
            done == (match extraction_fault(
                names(old(self).bone_data_map.bones@),
                old(vertices)@.len() as int,
                bones@,
            ) {
                Some(fault) => Err::<(), Error>(fault),
                None => Ok(()),
            }),
            names(final(self).bone_data_map.bones@) == names_after(
                names(old(self).bone_data_map.bones@),
                bones@.take(
                    taken(
                        names(old(self).bone_data_map.bones@),
                        old(vertices)@.len() as int,
                        bones@,
                    ),
                ),
            ),
            influences_of(final(vertices)@) == influences_after(
                influences_of(old(vertices)@),
                names(old(self).bone_data_map.bones@),
                bones@.take(
                    taken(
                        names(old(self).bone_data_map.bones@),
                        old(vertices)@.len() as int,
                        bones@,
                    ),
                ),
            ),
            done.is_ok() <==> taken(
                names(old(self).bone_data_map.bones@),
                old(vertices)@.len() as int,
                bones@,
            ) == bones@.len(),
            final(self).name == old(self).name,
            final(self).filepath == old(self).filepath,
            final(self).gamma_correction == old(self).gamma_correction,
            final(self).flip_v == old(self).flip_v,
            final(self).flip_h == old(self).flip_h,
            final(self).load_textures == old(self).load_textures,
            final(self).added_textures == old(self).added_textures,
            final(self).mesh_count == old(self).mesh_count,
    {
        let ghost known = names(self.bone_data_map.bones@);
        let ghost start = influences_of(vertices@);
        let ghost vertex_count = vertices@.len() as int;
        let mut b: usize = 0;
        while b < bones.len()
            invariant
                b <= bones.len(),
                self.wf(),
                vertices@.len() == old(vertices)@.len(),
                vertex_count == vertices@.len(),
                forall|i: int|
                    0 <= i < vertices@.len() ==> (#[trigger] vertices@[i]).same_place(
                        old(vertices)@[i],
                    ),
                known == names(old(self).bone_data_map.bones@),
                start == influences_of(old(vertices)@),
                self.bone_data_map.bones@.len() >= old(self).bone_data_map.bones@.len(),
                self.bone_data_map.bones@.take(old(self).bone_data_map.bones@.len() as int) == old(
                    self,
                ).bone_data_map.bones@,
                taken(known, vertex_count, bones@.take(b as int)) == b,
                names(self.bone_data_map.bones@) == names_after(known, bones@.take(b as int)),
                influences_of(vertices@) == influences_after(start, known, bones@.take(b as int)),
                self.name == old(self).name,
                self.filepath == old(self).filepath,
                self.gamma_correction == old(self).gamma_correction,
                self.flip_v == old(self).flip_v,
                self.flip_h == old(self).flip_h,
                self.load_textures == old(self).load_textures,
                self.added_textures == old(self).added_textures,
                self.mesh_count == old(self).mesh_count,
            decreases bones.len() - b,
        {
            let ghost seen = bones@.take(b as int);
            let ghost next = bones@.take(b + 1);
            let ghost registered = self.bone_data_map.bones@;
            proof {
                assert(next.drop_last() == seen);
                assert(next.last() == bones@[b as int]);
                lemma_position(names(registered), bones@[b as int].name@);
            }
            if !check_weights(&bones[b].weights, vertices.len()) {
                proof {
                    lemma_taken_stops(known, vertex_count, bones@, b + 1);
                }
                return Err(Error::VertexOutOfRange);
            }
            let bone_id = match self.bone_data_map.register(&bones[b].name, bones[b].offset_matrix) {
                Ok(id) => id,
                Err(fault) => {
                    proof {
                        lemma_taken_stops(known, vertex_count, bones@, b + 1);
                    }
                    return Err(fault);
                },
            };
            self.bone_count = self.bone_data_map.bones.len() as i32;
            proof {
                let after = self.bone_data_map.bones@;
                if position(names(registered), bones@[b as int].name@).is_none() {
                    assert(after.take(registered.len() as int) == registered);
                    assert(names(after) =~= names(registered).push(bones@[b as int].name@));
                    assert(after.take(old(self).bone_data_map.bones@.len() as int) =~= old(
                        self,
                    ).bone_data_map.bones@);
                    lemma_first_is_position(
                        names(after),
                        bones@[b as int].name@,
                        registered.len() as int,
                    );
                } else {
                    assert(after == registered);
                }
                assert(names(after) == names_after(known, next));
                assert(position(names(after), bones@[b as int].name@) == Some(bone_id as int));
            }
            apply_weights(vertices, &bones[b].weights, bone_id);
            b += 1;
        }
        proof {
            assert(bones@.take(b as int) == bones@);
        }
        Ok(())
    }
}

/// The bones that are gone through are at the front of the list, and once a
/// bone with a fault is met no bone after it is gone through.
pub proof fn lemma_taken_stops(
    known: Seq<Seq<char>>,
    vertex_count: int,
    bones: Seq<MeshBone>,
    upto: int,
)
    requires
        0 <= upto <= bones.len(),
    ensures
        0 <= taken(known, vertex_count, bones.take(upto)) <= upto,
        taken(known, vertex_count, bones.take(upto)) < upto ==> taken(known, vertex_count, bones)
            == taken(known, vertex_count, bones.take(upto)),
    decreases bones.len() - upto, upto,
{
    lemma_taken_bound(known, vertex_count, bones.take(upto));
    if upto < bones.len() {
        assert(bones.take(upto + 1).drop_last() == bones.take(upto));
        lemma_taken_stops(known, vertex_count, bones, upto + 1);
    } else {
        assert(bones.take(upto) == bones);
    }
}

/// No more bones are gone through than there are.
pub proof fn lemma_taken_bound(known: Seq<Seq<char>>, vertex_count: int, bones: Seq<MeshBone>)
    ensures
        0 <= taken(known, vertex_count, bones) <= bones.len(),
    decreases bones.len(),
{
    if bones.len() > 0 {
        lemma_taken_bound(known, vertex_count, bones.drop_last());
    }
}

/// Some bone of the list has the given name.
pub open spec fn names_a_bone(bones: Seq<MeshBone>, name: Seq<char>) -> bool {
    exists|b: int| 0 <= b < bones.len() && (#[trigger] bones[b]).name@ == name
}

/// The names registered after a list of bones: no name stands twice, the
/// names known before keep their places, every bone of the list has its name
/// among them, and every name among them was known before or is the name of
/// a bone of the list. So their number is the number of different names met.
pub proof fn lemma_names_after(known: Seq<Seq<char>>, bones: Seq<MeshBone>)
    requires
        distinct(known),
    ensures
        distinct(names_after(known, bones)),
        known.len() <= names_after(known, bones).len(),
        names_after(known, bones).take(known.len() as int) == known,
        forall|b: int|
            0 <= b < bones.len() ==> position(
                names_after(known, bones),
                (#[trigger] bones[b]).name@,
            ).is_some(),
        forall|i: int|
            known.len() <= i < names_after(known, bones).len() ==> names_a_bone(
                bones,
                #[trigger] names_after(known, bones)[i],
            ),
    decreases bones.len(),
{
    let after = names_after(known, bones);
    if bones.len() == 0 {
        assert(after.take(known.len() as int) == known);
    } else {
        let shorter = bones.drop_last();
        let earlier = names_after(known, shorter);
        let last = bones.last().name@;
        lemma_names_after(known, shorter);
        lemma_position(earlier, last);
        assert forall|b: int| 0 <= b < shorter.len() implies shorter[b] == bones[b] by {}
        if position(earlier, last).is_none() {
            assert(after == earlier.push(last));
            assert(after.take(known.len() as int) =~= earlier.take(known.len() as int));
            lemma_first_is_position(after, last, earlier.len() as int);
        }
        assert forall|b: int| 0 <= b < bones.len() implies position(
            after,
            (#[trigger] bones[b]).name@,
        ).is_some() by {
            if b < shorter.len() {
                let name = shorter[b].name@;
                lemma_position(earlier, name);
                let at = position(earlier, name).unwrap();
                assert(after[at] == name);
                lemma_position(after, name);
            }
        }
        assert forall|i: int| known.len() <= i < after.len() implies names_a_bone(
            bones,
            #[trigger] after[i],
        ) by {
            if i < earlier.len() {
                assert(names_a_bone(shorter, earlier[i]));
                let b = choose|b: int|
                    0 <= b < shorter.len() && (#[trigger] shorter[b]).name@ == earlier[i];
                assert(bones[b].name@ == after[i]);
            } else {
                assert(bones[bones.len() - 1].name@ == after[i]);
            }
        }
    }
}

} // verus!

//! The vertices of a skinned mesh, and the bones that weigh on each.
use crate::math::{vec2_from_ints, vec2_of_ints, vec3_from_ints, vec3_of_ints};
use vstd::prelude::*;

verus! {

/// The number of bones that can weigh on one vertex.
pub const MAX_BONE_INFLUENCE: usize = 4;

/// A vertex of a skinned mesh. A slot of `bone_ids` is free while it holds a
/// negative number. A weight is kept as the 32 bits of the single-precision
/// number that the shader reads; nothing here looks into it.
#[derive(Debug, Copy, Clone)]
pub struct ModelVertex {
    pub position: glam::Vec3,
    pub normal: glam::Vec3,
    pub uv: glam::Vec2,
    pub tangent: glam::Vec3,
    pub bi_tangent: glam::Vec3,
    pub bone_ids: [i32; 4],
    pub bone_weights: [u32; 4],
}

/// The bones that weigh on a vertex: the index of each bone and its weight,
/// slot by slot.
pub struct Influences {
    pub ids: Seq<i32>,
    pub weights: Seq<u32>,
}

/// The first free slot, if there is one.
pub open spec fn first_free(ids: Seq<i32>) -> Option<int>
    decreases ids.len(),
{
    if ids.len() == 0 {
        None
    } else if ids[0] < 0 {
        Some(0)
    } else {
        match first_free(ids.drop_first()) {
            Some(slot) => Some(slot + 1),
            None => None,
        }
    }
}

/// The first free slot is free, no slot before it is, and where there is
/// none no slot is free.
pub proof fn lemma_first_free(ids: Seq<i32>)
    ensures
        match first_free(ids) {
            Some(slot) => {
                &&& 0 <= slot < ids.len()
                &&& ids[slot] < 0
                &&& forall|j: int| 0 <= j < slot ==> ids[j] >= 0
            },
            None => forall|j: int| 0 <= j < ids.len() ==> ids[j] >= 0,
        },
    decreases ids.len(),
{
    if ids.len() > 0 && ids[0] >= 0 {
        let rest = ids.drop_first();
        lemma_first_free(rest);
        assert forall|j: int| 0 <= j < rest.len() implies rest[j] == ids[j + 1] by {}
        match first_free(rest) {
            Some(slot) => {
                assert forall|j: int| 0 <= j < slot + 1 implies ids[j] >= 0 by {
                    if j > 0 {
                        assert(rest[j - 1] >= 0);
                    }
                }
            },
            None => {
                assert forall|j: int| 0 <= j < ids.len() implies ids[j] >= 0 by {
                    if j > 0 {
                        assert(rest[j - 1] >= 0);
                    }
                }
            },
        }
    }
}

/// A slot that is free, with no free slot before it, is the first free slot.
pub proof fn lemma_is_first_free(ids: Seq<i32>, slot: int)
    requires
        0 <= slot < ids.len(),
        ids[slot] < 0,
        forall|j: int| 0 <= j < slot ==> ids[j] >= 0,
    ensures
        first_free(ids) == Some(slot),
{
    lemma_first_free(ids);
}

impl Influences {
    /// The influences with one more bone: in the first free slot, or
    /// unchanged where no slot is free.
    pub open spec fn with_bone(self, bone_id: i32, weight: u32) -> Influences {
        match first_free(self.ids) {
            Some(slot) => Influences {
                ids: self.ids.update(slot, bone_id),
                weights: self.weights.update(slot, weight),
            },
            None => self,
        }
    }
}

impl ModelVertex {
    /// The bones that weigh on this vertex.
    pub open spec fn influences(self) -> Influences {
        Influences { ids: self.bone_ids@, weights: self.bone_weights@ }
    }

    /// The vertex apart from its bones.
    pub open spec fn same_place(self, other: ModelVertex) -> bool {
        &&& self.position == other.position
        &&& self.normal == other.normal
        &&& self.uv == other.uv
        &&& self.tangent == other.tangent
        &&& self.bi_tangent == other.bi_tangent
    }

    /// No bone weighs on the vertex: every slot is free and every weight is
    /// zero.
    pub open spec fn unweighted(self) -> bool {
        &&& forall|i: int| 0 <= i < MAX_BONE_INFLUENCE ==> self.bone_ids@[i] == -1
        &&& forall|i: int| 0 <= i < MAX_BONE_INFLUENCE ==> self.bone_weights@[i] == 0
    }

    /// A vertex at the origin on which no bone weighs.
    pub fn new() -> (vertex: ModelVertex)
        ensures
            vertex.position == vec3_of_ints(0, 0, 0),
            vertex.normal == vec3_of_ints(0, 0, 0),
            vertex.uv == vec2_of_ints(0, 0),
            vertex.tangent == vec3_of_ints(0, 0, 0),
            vertex.bi_tangent == vec3_of_ints(0, 0, 0),
            vertex.unweighted(),
    {
        let origin = vec3_from_ints(0, 0, 0);
        ModelVertex {
            position: origin,
            normal: origin,
            uv: vec2_from_ints(0, 0),
            tangent: origin,
            bi_tangent: origin,
            bone_ids: [-1, -1, -1, -1],
            bone_weights: [0, 0, 0, 0],
        }
    }

    /// Frees every slot.
    pub fn set_bone_data_to_default(&mut self)
        ensures
            final(self).unweighted(),
            final(self).same_place(*old(self)),
    {
        let mut i: usize = 0;
        while i < MAX_BONE_INFLUENCE
            invariant
                i <= MAX_BONE_INFLUENCE,
                self.same_place(*old(self)),
                forall|k: int| 0 <= k < i ==> self.bone_ids@[k] == -1,
                forall|k: int| 0 <= k < i ==> self.bone_weights@[k] == 0,
            decreases MAX_BONE_INFLUENCE - i,
        {
            self.bone_ids[i] = -1;
            self.bone_weights[i] = 0;
            i += 1;
        }
    }

    /// Lets the bone `bone_id` weigh on the vertex: it takes the first free
    /// slot. With no slot free the vertex stays as it is.
    pub fn set_bone_data(&mut self, bone_id: i32, weight: u32)
        ensures
            final(self).influences() == old(self).influences().with_bone(bone_id, weight),
            final(self).same_place(*old(self)),
    {
        let mut i: usize = 0;
        while i < MAX_BONE_INFLUENCE
            invariant
                i <= MAX_BONE_INFLUENCE,
                *self == *old(self),
                forall|k: int| 0 <= k < i ==> self.bone_ids@[k] >= 0,
            decreases MAX_BONE_INFLUENCE - i,
        {
            if self.bone_ids[i] < 0 {
                proof {
                    lemma_is_first_free(self.bone_ids@, i as int);
                }
                self.bone_ids[i] = bone_id;
                self.bone_weights[i] = weight;
                assert(self.bone_ids@ =~= old(self).bone_ids@.update(i as int, bone_id));
                assert(self.bone_weights@ =~= old(self).bone_weights@.update(i as int, weight));
                return ;
            }
            i += 1;
        }
        proof {
            lemma_first_free(self.bone_ids@);
        }
    }
}

impl Default for ModelVertex {
    fn default() -> (vertex: Self)
        ensures
            vertex.unweighted(),
    {
        ModelVertex::new()
    }
}

} // verus!

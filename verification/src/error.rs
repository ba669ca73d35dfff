//! What can be wrong with the data of a model when it is put together.
use vstd::prelude::*;

verus! {

/// A fault in the data handed to the library while a model is built. Once a
/// model is built, playing it does not fail.
#[derive(Debug, Clone, Copy, PartialEq, Eq, Structural)]
pub enum Error {
    /// A channel has a track without a single key.
    EmptyTrack,
    /// The keys of a track are not in ascending order of time.
    UnorderedTrack,
    /// A channel animates a node that is not a registered bone.
    MissingBone,
    /// The model has more bones than the shader has bone matrices.
    TooManyBones,
    /// A node refers to a mesh for which there is no node matrix.
    MeshOutOfRange,
    /// A bone weighs on a vertex that the mesh does not have.
    VertexOutOfRange,
}

} // verus!

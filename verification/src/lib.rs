//! Skeletal animation for skinned models: keyframe tracks sampled at a clip
//! time, transforms composed down a hierarchy of nodes, clips blended while
//! one fades into another, and the bone matrices of each frame.
//!
//! Time is kept in whole numbers: a clip position in micro-ticks, a frame's
//! length in microseconds. The vector arithmetic is `glam`'s and is taken on
//! trust; everything that decides which numbers are combined, and in which
//! order, is proved.
pub mod animator;
pub mod assimp_scene;
pub mod error;
pub mod math;
pub mod model;
pub mod model_animation;
pub mod model_mesh;
pub mod names;
pub mod node_animation;
pub mod pose;
pub mod sprite_model;
pub mod texture;
pub mod transform;

//! The animation of one node: three tracks of keys (position, rotation,
//! scale), each sampled on its own at a clip time.
//!
//! Clip time is a whole number of micro-ticks (millionths of a tick). A track
//! holds at least one key, in ascending order of time. Before its first key a
//! track holds the first key's value, from its last key on the last key's
//! value; between two keys it interpolates.
use crate::error::Error;
use crate::math::{lerp_vec3, quat_slerp, slerp_quat, vec3_lerp, Ratio};
use crate::names::Named;
use crate::transform::Transform;
use vstd::prelude::*;

verus! {

#[derive(Debug, Clone, Copy)]
pub struct KeyPosition {
    pub position: glam::Vec3,
    pub time_stamp: i64,
}

#[derive(Debug, Clone, Copy)]
pub struct KeyRotation {
    pub orientation: glam::Quat,
    pub time_stamp: i64,
}

#[derive(Debug, Clone, Copy)]
pub struct KeyScale {
    pub scale: glam::Vec3,
    pub time_stamp: i64,
}

/// A key of a track: something with a time.
pub trait TimeStamped: Sized {
    /// The clip time of this key.
    spec fn time(&self) -> int;

    /// The clip time of this key.
    fn stamp(&self) -> (t: i64)
        ensures
            t == self.time(),
    ;
}

impl TimeStamped for KeyPosition {
    open spec fn time(&self) -> int {
        self.time_stamp as int
    }

    fn stamp(&self) -> (t: i64) {
        self.time_stamp
    }
}

impl TimeStamped for KeyRotation {
    open spec fn time(&self) -> int {
        self.time_stamp as int
    }

    fn stamp(&self) -> (t: i64) {
        self.time_stamp
    }
}

impl TimeStamped for KeyScale {
    open spec fn time(&self) -> int {
        self.time_stamp as int
    }

    fn stamp(&self) -> (t: i64) {
        self.time_stamp
    }
}

/// The times of the keys of a track, in the order of the keys.
pub open spec fn times<K: TimeStamped>(keys: Seq<K>) -> Seq<int> {
    Seq::new(keys.len(), |i: int| keys[i].time())
}

/// No key is earlier than a key before it.
pub open spec fn ascending(times: Seq<int>) -> bool {
    forall|i: int, j: int| 0 <= i <= j < times.len() ==> times[i] <= times[j]
}

/// A track that can be sampled: at least one key, in ascending order.
pub open spec fn track_ok(times: Seq<int>) -> bool {
    times.len() > 0 && ascending(times)
}

/// The first index at or after `i` whose next key is later than `t`; the
/// last index where there is none.
pub open spec fn segment_from(times: Seq<int>, t: int, i: int) -> int
    decreases times.len() - i,
{
    if 0 <= i && i + 1 < times.len() && times[i + 1] <= t {
        segment_from(times, t, i + 1)
    } else {
        i
    }
}

/// The index of the key that begins the segment in which `t` lies: the first
/// index whose next key is later than `t`.
pub open spec fn segment_index(times: Seq<int>, t: int) -> int {
    segment_from(times, t, 0)
}

/// Where a clip time falls in a track.
#[derive(Debug, Clone, Copy, PartialEq, Eq, Structural)]
pub enum Sampling {
    /// On the value of the key at `index`, without interpolation.
    Hold { index: usize },
    /// Between the key at `index` and the next one, `factor` of the way.
    Between { index: usize, factor: Ratio },
}

/// Where the clip time `t` falls in a track with the given key times.
pub open spec fn sampling(times: Seq<int>, t: int) -> Sampling {
    if times.len() <= 1 || t < times[0] {
        Sampling::Hold { index: 0 }
    } else if t >= times.last() {
        Sampling::Hold { index: (times.len() - 1) as usize }
    } else {
        let i = segment_index(times, t);
        Sampling::Between {
            index: i as usize,
            factor: Ratio { num: (t - times[i]) as u64, den: (times[i + 1] - times[i]) as u64 },
        }
    }
}

/// From an index at which the search may start, the segment found is the one
/// that holds `t`.
pub proof fn lemma_segment_from(times: Seq<int>, t: int, i: int)
    requires
        ascending(times),
        0 <= i < times.len(),
        times[i] <= t < times.last(),
    ensures
        i <= segment_from(times, t, i) < times.len() - 1,
        times[segment_from(times, t, i)] <= t < times[segment_from(times, t, i) + 1],
    decreases times.len() - i,
{
    if i + 1 < times.len() && times[i + 1] <= t {
        lemma_segment_from(times, t, i + 1);
    }
}

/// For a time within a track, the segment index is the index `i` with
/// `times[i] <= t < times[i + 1]`, and it is the last key at or before `t`.
pub proof fn lemma_segment_index(times: Seq<int>, t: int)
    requires
        track_ok(times),
        times[0] <= t < times.last(),
    ensures
        0 <= segment_index(times, t) < times.len() - 1,
        times[segment_index(times, t)] <= t < times[segment_index(times, t) + 1],
        forall|j: int| segment_index(times, t) < j < times.len() ==> t < times[j],
{
    lemma_segment_from(times, t, 0);
}

/// Where a time falls in a track that can be sampled: on a key of the track,
/// or between two neighbouring keys of which the first is at or before the
/// time and the second after it, at the fraction of the way between them
/// that has passed; that fraction is less than one.
pub proof fn lemma_sampling(times: Seq<int>, t: int)
    requires
        track_ok(times),
        times.len() <= usize::MAX,
        forall|i: int| 0 <= i < times.len() ==> i64::MIN <= #[trigger] times[i] <= i64::MAX,
    ensures
        match sampling(times, t) {
            Sampling::Hold { index } => {
                &&& 0 <= index < times.len()
                &&& times.len() == 1 || t < times[0] || t >= times.last()
                &&& t < times[0] ==> index == 0
                &&& times.len() > 1 && t >= times.last() ==> index == times.len() - 1
            },
            Sampling::Between { index, factor } => {
                &&& 0 <= index < times.len() - 1
                &&& times[index as int] <= t < times[index + 1]
                &&& factor.num == t - times[index as int]
                &&& factor.den == times[index + 1] - times[index as int]
                &&& factor.num < factor.den
            },
        },
{
    if times.len() > 1 && times[0] <= t < times.last() {
        lemma_segment_index(times, t);
    }
}

/// Finds the index of the key that begins the segment of `t`.
pub fn segment_of<K: TimeStamped>(keys: &Vec<K>, t: i64) -> (index: usize)
    requires
        keys.len() >= 2,
        t < times(keys@).last(),
    ensures
        index as int == segment_index(times(keys@), t as int),
        index + 1 < keys.len(),
        t < times(keys@)[index + 1],
        index > 0 ==> times(keys@)[index as int] <= t,
{
    let ghost ts = times(keys@);
    let mut index: usize = 0;
    while index + 1 < keys.len() && keys[index + 1].stamp() <= t
        invariant
            ts == times(keys@),
            keys.len() >= 2,
            t < ts.last(),
            index < keys.len(),
            segment_from(ts, t as int, index as int) == segment_index(ts, t as int),
            index > 0 ==> ts[index as int] <= t,
        decreases keys.len() - index,
    {
        index += 1;
    }
    index
}

/// Says where `t` falls in the track `keys`.
pub fn locate<K: TimeStamped>(keys: &Vec<K>, t: i64) -> (place: Sampling)
    requires
        track_ok(times(keys@)),
    ensures
        place == sampling(times(keys@), t as int),
        match place {
            Sampling::Hold { index } => index < keys.len(),
            Sampling::Between { index, factor } => index + 1 < keys.len() && factor.num < factor.den,
        },
{
    let ghost ts = times(keys@);
    let last: usize = keys.len() - 1;
    if keys.len() == 1 || t < keys[0].stamp() {
        Sampling::Hold { index: 0 }
    } else if t >= keys[last].stamp() {
        Sampling::Hold { index: last }
    } else {
        let index = segment_of(keys, t);
        proof {
            lemma_segment_index(ts, t as int);
        }
        let factor = get_scale_factor(keys[index].stamp(), keys[index + 1].stamp(), t);
        Sampling::Between { index, factor }
    }
}

/// How far `animation_time` is from `last_timestamp` towards
/// `next_timestamp`, as a fraction of the distance between the two.
pub fn get_scale_factor(last_timestamp: i64, next_timestamp: i64, animation_time: i64) -> (factor:
    Ratio)
    requires
        last_timestamp <= animation_time,
        last_timestamp <= next_timestamp,
    ensures
        factor.num == animation_time - last_timestamp,
        factor.den == next_timestamp - last_timestamp,
{
    let mid_way_length: i128 = animation_time as i128 - last_timestamp as i128;
    let frames_diff: i128 = next_timestamp as i128 - last_timestamp as i128;
    Ratio { num: mid_way_length as u64, den: frames_diff as u64 }
}

/// What is wrong with a track, if anything: it is empty, or its keys are
/// out of order.
pub open spec fn track_fault(times: Seq<int>) -> Option<Error> {
    if times.len() == 0 {
        Some(Error::EmptyTrack)
    } else if !ascending(times) {
        Some(Error::UnorderedTrack)
    } else {
        None
    }
}

/// Checks that a track has a key and that its keys are in ascending order.
pub fn check_track<K: TimeStamped>(keys: &Vec<K>) -> (checked: Result<(), Error>)
    ensures
        checked == (match track_fault(times(keys@)) {
            Some(fault) => Err::<(), Error>(fault),
            None => Ok(()),
        }),
        checked.is_ok() <==> track_ok(times(keys@)),
{
    let ghost ts = times(keys@);
    if keys.len() == 0 {
        return Err(Error::EmptyTrack);
    }
    let mut k: usize = 1;
    while k < keys.len()
        invariant
            ts == times(keys@),
            1 <= k <= keys.len(),
            forall|i: int, j: int| 0 <= i <= j < k ==> ts[i] <= ts[j],
        decreases keys.len() - k,
    {
        if keys[k - 1].stamp() > keys[k].stamp() {
            assert(ts[k - 1] > ts[k as int]);
            return Err(Error::UnorderedTrack);
        }
        assert forall|i: int, j: int| 0 <= i <= j < k + 1 implies ts[i] <= ts[j] by {
            if j == k && i < k {
                assert(ts[i] <= ts[k - 1]);
            }
        }
        k += 1;
    }
    Ok(())
}

/// The animation of one node in one clip.
#[derive(Debug, Clone)]
pub struct NodeAnimation {
    pub name: String,
    pub positions: Vec<KeyPosition>,
    pub rotations: Vec<KeyRotation>,
    pub scales: Vec<KeyScale>,
}

impl Named for NodeAnimation {
    open spec fn spec_name(&self) -> Seq<char> {
        self.name@
    }

    fn name(&self) -> (name: &String) {
        &self.name
    }
}

impl NodeAnimation {
    /// Each of the three tracks has a key, and its keys are in order.
    pub open spec fn wf(&self) -> bool {
        &&& track_ok(times(self.positions@))
        &&& track_ok(times(self.rotations@))
        &&& track_ok(times(self.scales@))
    }

    /// The position of the node at clip time `t`.
    pub open spec fn position_at(&self, t: int) -> glam::Vec3 {
        match sampling(times(self.positions@), t) {
            Sampling::Hold { index } => self.positions@[index as int].position,
            Sampling::Between { index, factor } => vec3_lerp(
                self.positions@[index as int].position,
                self.positions@[index + 1].position,
                factor.num as int,
                factor.den as int,
            ),
        }
    }

    /// The rotation of the node at clip time `t`.
    pub open spec fn rotation_at(&self, t: int) -> glam::Quat {
        match sampling(times(self.rotations@), t) {
            Sampling::Hold { index } => self.rotations@[index as int].orientation,
            Sampling::Between { index, factor } => quat_slerp(
                self.rotations@[index as int].orientation,
                self.rotations@[index + 1].orientation,
                factor.num as int,
                factor.den as int,
            ),
        }
    }

    /// The scale of the node at clip time `t`.
    pub open spec fn scale_at(&self, t: int) -> glam::Vec3 {
        match sampling(times(self.scales@), t) {
            Sampling::Hold { index } => self.scales@[index as int].scale,
            Sampling::Between { index, factor } => vec3_lerp(
                self.scales@[index as int].scale,
                self.scales@[index + 1].scale,
                factor.num as int,
                factor.den as int,
            ),
        }
    }

    /// The transform of the node at clip time `t`: the three tracks, each
    /// sampled on its own.
    pub open spec fn sample(&self, t: int) -> Transform {
        Transform {
            translation: self.position_at(t),
            rotation: self.rotation_at(t),
            scale: self.scale_at(t),
        }
    }

    /// The first fault among the three tracks, positions first, then
    /// rotations, then scales.
    pub open spec fn first_fault(
        positions: Seq<KeyPosition>,
        rotations: Seq<KeyRotation>,
        scales: Seq<KeyScale>,
    ) -> Option<Error> {
        if track_fault(times(positions)).is_some() {
            track_fault(times(positions))
        } else if track_fault(times(rotations)).is_some() {
            track_fault(times(rotations))
        } else {
            track_fault(times(scales))
        }
    }

    /// Makes the animation of the node `name` from its three tracks, or says
    /// what is wrong with the first track that cannot be sampled.
    pub fn new(
        name: String,
        positions: Vec<KeyPosition>,
        rotations: Vec<KeyRotation>,
        scales: Vec<KeyScale>,
    ) -> (made: Result<NodeAnimation, Error>)
        ensures
            match made {
                Ok(animation) => {
                    &&& NodeAnimation::first_fault(positions@, rotations@, scales@).is_none()
                    &&& animation.wf()
                    &&& animation.name == name
                    &&& animation.positions == positions
                    &&& animation.rotations == rotations
                    &&& animation.scales == scales
                },
                Err(fault) => NodeAnimation::first_fault(positions@, rotations@, scales@) == Some(
                    fault,
                ),
            },
    {
        match check_track(&positions) {
            Err(fault) => {
                return Err(fault);
            },
            Ok(_) => {},
        }
        match check_track(&rotations) {
            Err(fault) => {
                return Err(fault);
            },
            Ok(_) => {},
        }
        match check_track(&scales) {
            Err(fault) => {
                return Err(fault);
            },
            Ok(_) => {},
        }
        Ok(NodeAnimation { name, positions, rotations, scales })
    }

    /// Whether each of the three tracks has a key and has its keys in order.
    pub fn is_valid(&self) -> (valid: bool)
        ensures
            valid == self.wf(),
    {
        check_track(&self.positions).is_ok() && check_track(&self.rotations).is_ok()
            && check_track(&self.scales).is_ok()
    }

    /// The index of the position key that begins the segment of
    /// `animation_time`.
    pub fn get_position_index(&self, animation_time: i64) -> (index: usize)
        requires
            self.positions.len() >= 2,
            animation_time < times(self.positions@).last(),
        ensures
            index as int == segment_index(times(self.positions@), animation_time as int),
            index + 1 < self.positions.len(),
    {
        segment_of(&self.positions, animation_time)
    }

    /// The index of the rotation key that begins the segment of
    /// `animation_time`.
    pub fn get_rotation_index(&self, animation_time: i64) -> (index: usize)
        requires
            self.rotations.len() >= 2,
            animation_time < times(self.rotations@).last(),
        ensures
            index as int == segment_index(times(self.rotations@), animation_time as int),
            index + 1 < self.rotations.len(),
    {
        segment_of(&self.rotations, animation_time)
    }

    /// The index of the scale key that begins the segment of
    /// `animation_time`.
    pub fn get_scale_index(&self, animation_time: i64) -> (index: usize)
        requires
            self.scales.len() >= 2,
            animation_time < times(self.scales@).last(),
        ensures
            index as int == segment_index(times(self.scales@), animation_time as int),
            index + 1 < self.scales.len(),
    {
        segment_of(&self.scales, animation_time)
    }

    /// The position at `animation_time`: a single key's value as it is, else
    /// the straight-line interpolation between the two keys around the time.
    pub fn interpolate_position(&self, animation_time: i64) -> (position: glam::Vec3)
        requires
            track_ok(times(self.positions@)),
        ensures
            position == self.position_at(animation_time as int),
            self.positions.len() == 1 ==> position == self.positions[0].position,
    {
        match locate(&self.positions, animation_time) {
            Sampling::Hold { index } => self.positions[index].position,
            Sampling::Between { index, factor } => lerp_vec3(
                self.positions[index].position,
                self.positions[index + 1].position,
                factor,
            ),
        }
    }

    /// The rotation at `animation_time`: a single key's value as it is, else
    /// the interpolation along the arc between the two keys around the time.
    pub fn interpolate_rotation(&self, animation_time: i64) -> (rotation: glam::Quat)
        requires
            track_ok(times(self.rotations@)),
        ensures
            rotation == self.rotation_at(animation_time as int),
            self.rotations.len() == 1 ==> rotation == self.rotations[0].orientation,
    {
        match locate(&self.rotations, animation_time) {
            Sampling::Hold { index } => self.rotations[index].orientation,
            Sampling::Between { index, factor } => slerp_quat(
                self.rotations[index].orientation,
                self.rotations[index + 1].orientation,
                factor,
            ),
        }
    }

    /// The scale at `animation_time`: a single key's value as it is, else the
    /// straight-line interpolation between the two keys around the time.
    pub fn interpolate_scaling(&self, animation_time: i64) -> (scale: glam::Vec3)
        requires
            track_ok(times(self.scales@)),
        ensures
            scale == self.scale_at(animation_time as int),
            self.scales.len() == 1 ==> scale == self.scales[0].scale,
    {
        match locate(&self.scales, animation_time) {
            Sampling::Hold { index } => self.scales[index].scale,
            Sampling::Between { index, factor } => lerp_vec3(
                self.scales[index].scale,
                self.scales[index + 1].scale,
                factor,
            ),
        }
    }

    /// The transform of the node at `animation_time`.
    pub fn get_animation_transform(&self, animation_time: i64) -> (transform: Transform)
        requires
            self.wf(),
        ensures
            transform == self.sample(animation_time as int),
    {
        Transform {
            translation: self.interpolate_position(animation_time),
            rotation: self.interpolate_rotation(animation_time),
            scale: self.interpolate_scaling(animation_time),
        }
    }

    /// The matrix of the node's transform at `animation_time`.
    pub fn get_animation_transform_matrix(&self, animation_time: i64) -> (matrix: glam::Mat4)
        requires
            self.wf(),
        ensures
            matrix == self.sample(animation_time as int).matrix(),
    {
        self.get_animation_transform(animation_time).compute_matrix()
    }
}

/// A track with a single key holds that key's value at every time.
pub proof fn lemma_single_key_hold(animation: NodeAnimation, t: int)
    requires
        animation.positions.len() == 1,
        animation.rotations.len() == 1,
        animation.scales.len() == 1,
    ensures
        animation.sample(t) == (Transform {
            translation: animation.positions[0].position,
            rotation: animation.rotations[0].orientation,
            scale: animation.scales[0].scale,
        }),
{
}

/// On a track of two keys at `t0 < t1`: at `t0` the sample lies at factor 0
/// of the segment, at a time halfway at a factor that equals one half, and at
/// `t1` it holds the second key.
pub proof fn lemma_two_key_boundaries(first: int, second: int, t: int)
    requires
        i64::MIN <= first < second <= i64::MAX,
        first <= t <= second,
    ensures
        sampling(seq![first, second], first) == (Sampling::Between {
            index: 0,
            factor: Ratio { num: 0, den: (second - first) as u64 },
        }),
        sampling(seq![first, second], second) == (Sampling::Hold { index: 1 }),
        t < second ==> sampling(seq![first, second], t) == (Sampling::Between {
            index: 0,
            factor: Ratio { num: (t - first) as u64, den: (second - first) as u64 },
        }),
        2 * t == first + second ==> sampling(seq![first, second], t) == (Sampling::Between {
            index: 0,
            factor: Ratio { num: (t - first) as u64, den: (second - first) as u64 },
        }) && (Ratio { num: (t - first) as u64, den: (second - first) as u64 }).same_value(
            Ratio { num: 1, den: 2 },
        ),
{
    let ts = seq![first, second];
    assert(ts.len() == 2);
    assert(ts[0] == first && ts[1] == second);
    assert(ts.last() == second);
    assert(segment_from(ts, first, 0) == 0);
    if t < second {
        assert(segment_from(ts, t, 0) == 0);
    }
    if 2 * t == first + second {
        let half = Ratio { num: (t - first) as u64, den: (second - first) as u64 };
        assert(half.num == t - first);
        assert(half.den == second - first);
        assert(half.num * 2 == 1 * half.den);
    }
}

} // verus!

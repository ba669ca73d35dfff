//! The glyph of a sprite that is shown at a time: a sprite whose glyphs run
//! back and forth steps through them on a timer.
use vstd::prelude::*;

verus! {

/// How the glyphs of a sprite follow one another.
#[derive(Debug, Clone, Copy, PartialEq, Eq, Structural)]
pub enum SpriteAnimationType {
    /// One glyph, always the same.
    Still,
    Once,
    Cycle,
    /// From the first glyph to the third and back, step by step.
    BackAndForth,
}

/// The microseconds for which one glyph is shown.
pub const STEP_TIME: i64 = 200_000;

/// The number of the last glyph of a run back and forth.
pub const LAST_STEP: i32 = 2;

/// Which glyph of a sprite is shown, and for how long yet.
#[derive(Debug, Clone, Copy, PartialEq, Eq, Structural)]
pub struct SpriteData {
    pub animation_type: SpriteAnimationType,
    pub num_steps: u32,
    /// The microseconds until the next step; the step is due when this is
    /// zero or less.
    pub step_timer: i64,
    /// The number of the glyph that is shown.
    pub step_count: i32,
    /// The direction of the next step: one glyph on, or one glyph back.
    pub step_increment: i32,
}

impl SpriteData {
    /// The glyph after a step from `step_count` by `step_increment`: past
    /// either end the run turns round on the middle glyph.
    pub open spec fn stepped(self) -> SpriteData {
        let count = self.step_count + self.step_increment;
        if count > LAST_STEP {
            SpriteData { step_timer: STEP_TIME, step_count: 1, step_increment: -1i32, ..self }
        } else if count < 0 {
            SpriteData { step_timer: STEP_TIME, step_count: 1, step_increment: 1, ..self }
        } else {
            SpriteData { step_timer: STEP_TIME, step_count: count as i32, ..self }
        }
    }

    /// The timer after `delta_time` microseconds; it does not fall below the
    /// least number that it can hold.
    pub open spec fn timer_after(timer: int, delta_time: int) -> int {
        if timer - delta_time < i64::MIN {
            i64::MIN as int
        } else {
            timer - delta_time
        }
    }

    /// The sprite after `delta_time` microseconds of running back and forth:
    /// a step that is due is taken first, then the time passes.
    pub open spec fn after_back_and_forth(self, delta_time: int) -> SpriteData {
        let due = if self.step_timer <= 0 {
            self.stepped()
        } else {
            self
        };
        SpriteData {
            step_timer: SpriteData::timer_after(due.step_timer as int, delta_time) as i64,
            ..due
        }
    }

    /// The sprite after `delta_time` microseconds.
    pub open spec fn after(self, delta_time: int) -> SpriteData {
        match self.animation_type {
            SpriteAnimationType::BackAndForth => self.after_back_and_forth(delta_time),
            _ => self,
        }
    }

    /// Lets `delta_time` microseconds pass for a sprite that runs back and
    /// forth.
    pub fn update_back_and_forth(&mut self, delta_time: u64)
        ensures
            *final(self) == old(self).after_back_and_forth(delta_time as int),
    {
        if self.step_timer <= 0 {
            self.step_timer = STEP_TIME;
            let count: i64 = self.step_count as i64 + self.step_increment as i64;
            if count > LAST_STEP as i64 {
                self.step_count = 1;
                self.step_increment = -1;
            } else if count < 0 {
                self.step_count = 1;
                self.step_increment = 1;
            } else {
                self.step_count = count as i32;
            }
        }
        let left: i128 = self.step_timer as i128 - delta_time as i128;
        if left < i64::MIN as i128 {
            self.step_timer = i64::MIN;
        } else {
            self.step_timer = left as i64;
        }
    }

    /// Lets `delta_time` microseconds pass: only a sprite that runs back and
    /// forth changes.
    pub fn update(&mut self, delta_time: u64)
        ensures
            *final(self) == old(self).after(delta_time as int),
    {
        match self.animation_type {
            SpriteAnimationType::Still => {},
            SpriteAnimationType::Once => {},
            SpriteAnimationType::Cycle => {},
            SpriteAnimationType::BackAndForth => self.update_back_and_forth(delta_time),
        }
    }
}

/// A sprite that shows one of its three glyphs and steps by one keeps
/// showing one of the three, whatever time passes.
pub proof fn lemma_step_stays_in_run(sprite: SpriteData, delta_time: int)
    requires
        0 <= sprite.step_count <= LAST_STEP,
        sprite.step_increment == 1 || sprite.step_increment == -1,
    ensures
        0 <= sprite.after(delta_time).step_count <= LAST_STEP,
        sprite.after(delta_time).step_increment == 1 || sprite.after(delta_time).step_increment
            == -1,
{
}

} // verus!

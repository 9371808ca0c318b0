//! Drives a periodic glitch burst effect.
//!
//! Random values are injected by the caller rather than generated here so
//! that the timer is deterministic for any given inputs.

use vstd::prelude::*;

verus! {

/// The intensity sample a fresh timer holds: the top of the 0–1023 range
/// (full intensity).
pub const FULL_INTENSITY_LEVEL: u32 = 1023;

#[derive(Clone, Copy, Debug, PartialEq, Eq)]
pub struct GlitchTimer {
    /// Frames remaining until the next burst begins (0 → burst starts next tick).
    pub cooldown_remaining: u32,
    /// Frames remaining in the current burst (0 → not glitching).
    pub burst_remaining: u32,
    /// Total duration of the current burst in frames.
    pub burst_duration: u32,
    /// The random sample the current burst's intensity comes from: the
    /// intensity is `0.2 + 0.8 × intensity_level / 1023`. Set once when the
    /// burst starts and held constant for its duration.
    pub intensity_level: u32,
}

/// One frame of the timer: a running burst counts down; otherwise a running
/// cooldown counts down; otherwise a new burst starts, with its duration,
/// the following cooldown and its intensity taken from the random samples.
pub open spec fn glitch_tick(t: GlitchTimer, rand_cooldown: u32, rand_burst: u32, rand_intensity: u32) -> GlitchTimer {
    if t.burst_remaining > 0 {
        GlitchTimer { burst_remaining: (t.burst_remaining - 1) as u32, ..t }
    } else if t.cooldown_remaining > 0 {
        GlitchTimer { cooldown_remaining: (t.cooldown_remaining - 1) as u32, ..t }
    } else {
        GlitchTimer {
            burst_duration: (8 + rand_burst % 12) as u32,
            burst_remaining: (8 + rand_burst % 12) as u32,
            cooldown_remaining: (120 + rand_cooldown % 300) as u32,
            intensity_level: rand_intensity,
        }
    }
}

impl GlitchTimer {
    pub fn new() -> (t: Self)
        ensures
            t == (GlitchTimer {
                cooldown_remaining: 360,
                burst_remaining: 0,
                burst_duration: 1,
                intensity_level: FULL_INTENSITY_LEVEL,
            }),
    {
        GlitchTimer {
            cooldown_remaining: 360,  // ~6 s at 60 fps before first glitch
            burst_remaining: 0,
            burst_duration: 1,
            intensity_level: FULL_INTENSITY_LEVEL,
        }
    }

    /// Advance one frame.
    ///
    /// `rand_cooldown`, `rand_burst`, and `rand_intensity` are consumed only
    /// when a burst is about to start (i.e. `cooldown_remaining` has reached 0).
    pub fn tick(&mut self, rand_cooldown: u32, rand_burst: u32, rand_intensity: u32)
        ensures
            *final(self) == glitch_tick(*old(self), rand_cooldown, rand_burst, rand_intensity),
    {
        if self.burst_remaining > 0 {
            self.burst_remaining = self.burst_remaining - 1;
        } else if self.cooldown_remaining > 0 {
            self.cooldown_remaining = self.cooldown_remaining - 1;
        } else {
            // Cooldown expired — start a new burst.
            self.burst_duration = 8 + rand_burst % 12;  // 8–19 frames
            self.burst_remaining = self.burst_duration;
            self.cooldown_remaining = 120 + rand_cooldown % 300;  // 2–7 s
            self.intensity_level = rand_intensity;
        }
    }

    /// Returns `true` during an active glitch burst.
    pub fn is_glitching(&self) -> (glitching: bool)
        ensures
            glitching == (self.burst_remaining > 0),
    {
        self.burst_remaining > 0
    }
}

/// A burst that starts lasts 8 to 19 frames and is followed by a cooldown of
/// 120 to 419 frames; its intensity is the sample it started with.
pub proof fn law_burst_bounds(t: GlitchTimer, rand_cooldown: u32, rand_burst: u32, rand_intensity: u32)
    requires
        t.burst_remaining == 0,
        t.cooldown_remaining == 0,
    ensures
        ({
            let n = glitch_tick(t, rand_cooldown, rand_burst, rand_intensity);
            &&& 8 <= n.burst_duration <= 19
            &&& n.burst_remaining == n.burst_duration
            &&& 120 <= n.cooldown_remaining <= 419
            &&& n.intensity_level == rand_intensity
        }),
{
}

/// While a burst runs, whatever the random samples, a frame only shortens the
/// burst by one: the cooldown, the duration and the intensity stay as they were.
pub proof fn law_burst_holds_settings(t: GlitchTimer, rand_cooldown: u32, rand_burst: u32, rand_intensity: u32)
    requires
        t.burst_remaining > 0,
    ensures
        glitch_tick(t, rand_cooldown, rand_burst, rand_intensity) == (GlitchTimer {
            burst_remaining: (t.burst_remaining - 1) as u32,
            ..t
        }),
{
}

/// The timer after `k` frames, with every random sample fixed.
pub open spec fn glitch_after(t: GlitchTimer, rand_cooldown: u32, rand_burst: u32, rand_intensity: u32, k: nat) -> GlitchTimer
    decreases k,
{
    if k == 0 {
        t
    } else {
        glitch_after(glitch_tick(t, rand_cooldown, rand_burst, rand_intensity), rand_cooldown, rand_burst, rand_intensity, (k - 1) as nat)
    }
}

/// A burst with `r` frames left is over after exactly `r` frames, and the
/// cooldown it set is still intact at that point.
pub proof fn law_burst_drains_in_remaining_frames(t: GlitchTimer, rand_cooldown: u32, rand_burst: u32, rand_intensity: u32)
    ensures
        glitch_after(t, rand_cooldown, rand_burst, rand_intensity, t.burst_remaining as nat) == (GlitchTimer {
            burst_remaining: 0,
            ..t
        }),
        forall|k: nat| k < t.burst_remaining ==> #[trigger] glitch_after(t, rand_cooldown, rand_burst, rand_intensity, k).burst_remaining > 0,
    decreases t.burst_remaining,
{
    if t.burst_remaining > 0 {
        let n = glitch_tick(t, rand_cooldown, rand_burst, rand_intensity);
        law_burst_drains_in_remaining_frames(n, rand_cooldown, rand_burst, rand_intensity);
        assert forall|k: nat| k < t.burst_remaining implies #[trigger] glitch_after(t, rand_cooldown, rand_burst, rand_intensity, k).burst_remaining > 0 by {
            if k > 0 {
                assert(glitch_after(t, rand_cooldown, rand_burst, rand_intensity, k) == glitch_after(n, rand_cooldown, rand_burst, rand_intensity, (k - 1) as nat));
            }
        }
    }
}

} // verus!

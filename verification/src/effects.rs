//! Which aliens the screen effects fall on in a frame: the explosion phases
//! (a short glitch, then sparks), the brief distortion "pops" on live
//! aliens, and how these share the shader's distortion slots.

use vstd::prelude::*;
use crate::game::state::{Alien, EXPLOSION_FRAMES, GameState, Ufo};

verus! {

/// Frames at the start of an explosion that show only a glitch, before sparks.
pub const PRE_GLITCH_FRAMES: u8 = 6;
/// At most this many aliens glitch before their sparks in one frame.
pub const MAX_PRE_GLITCH: usize = 2;
/// At most this many spark bursts are drawn in one frame.
pub const MAX_SPARKS: usize = 8;
/// Distortion slots the shader offers.
pub const MAX_DISTORTIONS: usize = 4;
/// Frames a distortion pop shows, after the frame that starts it.
pub const POP_FRAMES: u32 = 30;
/// Shortest quiet gap between pops, in frames.
pub const MIN_QUIET_FRAMES: u32 = 120;
/// The quiet gap is lengthened by less than this many frames.
pub const QUIET_SPREAD: u32 = 120;

// ── Explosion phases ─────────────────────────────────────────────────────────

/// A dead alien whose explosion is still showing.
pub open spec fn exploding(a: Alien) -> bool {
    !a.alive && a.explosion_timer > 0
}

/// An exploding alien within the first `PRE_GLITCH_FRAMES` frames of its explosion.
pub open spec fn in_pre_glitch(a: Alien) -> bool {
    exploding(a) && a.explosion_timer > EXPLOSION_FRAMES - PRE_GLITCH_FRAMES
}

/// An exploding alien past its glitch, throwing sparks.
pub open spec fn in_sparks(a: Alien) -> bool {
    exploding(a) && a.explosion_timer <= EXPLOSION_FRAMES - PRE_GLITCH_FRAMES
}

/// The indices below `n`, in order, of the aliens in the glitch phase
/// (`sparks == false`) or in the spark phase (`sparks == true`).
pub open spec fn phase_indices(aliens: Seq<Alien>, sparks: bool, n: int) -> Seq<usize>
    decreases n,
{
    if n <= 0 {
        Seq::empty()
    } else {
        let a = aliens[n - 1];
        phase_indices(aliens, sparks, n - 1) + if (sparks && in_sparks(a)) || (!sparks && in_pre_glitch(a)) {
            seq![(n - 1) as usize]
        } else {
            Seq::empty()
        }
    }
}

/// The first `k` elements of `s`, or all of them when there are fewer.
pub open spec fn first_at_most<T>(s: Seq<T>, k: int) -> Seq<T> {
    if s.len() <= k {
        s
    } else {
        s.take(k)
    }
}

/// A UFO is present and its explosion is showing.
pub open spec fn ufo_exploding<P>(ufo: Option<Ufo<P>>) -> bool {
    match ufo {
        Some(u) => u.explosion_timer > 0,
        None => false,
    }
}

/// The exploding aliens of one frame, split by phase (indices into the
/// alien list, in order), and whether the UFO's explosion joins the sparks.
pub struct ExplosionPhases {
    pub pre_glitch: Vec<usize>,
    pub sparks: Vec<usize>,
    pub ufo_sparks: bool,
}

/// Sort the explosions of this frame: the first `MAX_PRE_GLITCH` aliens still
/// in their glitch phase, the first `MAX_SPARKS` throwing sparks, and the
/// exploding UFO as one more spark burst when there is room for it.
pub fn explosion_phases<P>(state: &GameState<P>) -> (phases: ExplosionPhases)
    ensures
        phases.pre_glitch@ == first_at_most(
            phase_indices(state.aliens@, false, state.aliens@.len() as int),
            MAX_PRE_GLITCH as int,
        ),
        phases.sparks@ == first_at_most(
            phase_indices(state.aliens@, true, state.aliens@.len() as int),
            MAX_SPARKS as int,
        ),
        phases.ufo_sparks == (phases.sparks@.len() < MAX_SPARKS && ufo_exploding(state.ufo)),
{
    let n = state.aliens.len();
    let mut pre: Vec<usize> = Vec::new();
    let mut sparks: Vec<usize> = Vec::new();
    for i in 0..n
        invariant
            n == state.aliens@.len(),
            pre@ == first_at_most(phase_indices(state.aliens@, false, i as int), MAX_PRE_GLITCH as int),
            sparks@ == first_at_most(phase_indices(state.aliens@, true, i as int), MAX_SPARKS as int),
    {
        let a = state.aliens[i];
        let ghost pre_before = phase_indices(state.aliens@, false, i as int);
        let ghost sparks_before = phase_indices(state.aliens@, true, i as int);
        if !a.alive && a.explosion_timer > 0 {
            if a.explosion_timer > EXPLOSION_FRAMES - PRE_GLITCH_FRAMES {
                if pre.len() < MAX_PRE_GLITCH {
                    pre.push(i);
                }
            } else if sparks.len() < MAX_SPARKS {
                sparks.push(i);
            }
        }
        proof {
            let pre_after = phase_indices(state.aliens@, false, i + 1);
            let sparks_after = phase_indices(state.aliens@, true, i + 1);
            if in_pre_glitch(a) {
                assert(pre_after =~= pre_before.push(i));
                assert(sparks_after =~= sparks_before);
                if pre_before.len() >= MAX_PRE_GLITCH {
                    assert(pre_after.take(MAX_PRE_GLITCH as int) =~= pre_before.take(MAX_PRE_GLITCH as int));
                }
            } else if in_sparks(a) {
                assert(sparks_after =~= sparks_before.push(i));
                assert(pre_after =~= pre_before);
                if sparks_before.len() >= MAX_SPARKS {
                    assert(sparks_after.take(MAX_SPARKS as int) =~= sparks_before.take(MAX_SPARKS as int));
                }
            } else {
                assert(pre_after =~= pre_before);
                assert(sparks_after =~= sparks_before);
            }
        }
    }
    let ufo_exploding = match &state.ufo {
        Some(u) => u.explosion_timer > 0,
        None => false,
    };
    let ufo_sparks = sparks.len() < MAX_SPARKS && ufo_exploding;
    ExplosionPhases { pre_glitch: pre, sparks, ufo_sparks }
}

// ── Distortion slots ─────────────────────────────────────────────────────────

/// What fills the distortion slots: the current pops first, then glitching
/// explosions, then sparking ones, as long as slots are free. Pops are never
/// cut, even beyond the slot count.
pub open spec fn slots_filled<T>(pops: Seq<T>, glitches: Seq<T>, sparks: Seq<T>) -> Seq<T> {
    if pops.len() >= MAX_DISTORTIONS {
        pops
    } else {
        first_at_most(pops + glitches + sparks, MAX_DISTORTIONS as int)
    }
}

/// Append items of `more` to `out` while it holds fewer than `MAX_DISTORTIONS`.
fn fill_slots<T: Copy>(out: &mut Vec<T>, more: &Vec<T>)
    ensures
        final(out)@ == if old(out)@.len() >= MAX_DISTORTIONS {
            old(out)@
        } else {
            first_at_most(old(out)@ + more@, MAX_DISTORTIONS as int)
        },
{
    let ghost start = out@;
    let n = more.len();
    let mut i: usize = 0;
    while i < n && out.len() < MAX_DISTORTIONS
        invariant
            i <= n,
            n == more@.len(),
            start.len() >= MAX_DISTORTIONS ==> out@ == start,
            start.len() < MAX_DISTORTIONS ==> out@ == start + more@.take(i as int) && out@.len()
                <= MAX_DISTORTIONS,
        decreases n - i,
    {
        out.push(more[i]);
        assert(start + more@.take(i + 1) =~= (start + more@.take(i as int)).push(more@[i as int]));
        i = i + 1;
    }
    proof {
        if start.len() < MAX_DISTORTIONS {
            let all = start + more@;
            if i == n {
                assert(more@.take(n as int) =~= more@);
            } else {
                assert(out@ =~= all.take(MAX_DISTORTIONS as int));
            }
        }
    }
}

/// The distortion list for one frame (see `slots_filled`).
pub fn distortion_slots<T: Copy>(pops: &Vec<T>, glitches: &Vec<T>, sparks: &Vec<T>) -> (slots: Vec<T>)
    ensures
        slots@ == slots_filled(pops@, glitches@, sparks@),
{
    let mut out: Vec<T> = Vec::new();
    let n = pops.len();
    for i in 0..n
        invariant
            n == pops@.len(),
            out@ == pops@.take(i as int),
    {
        out.push(pops[i]);
        assert(out@ =~= pops@.take(i + 1));
    }
    assert(out@ =~= pops@);
    fill_slots(&mut out, glitches);
    fill_slots(&mut out, sparks);
    proof {
        let p = pops@;
        let g = glitches@;
        let s = sparks@;
        if p.len() < MAX_DISTORTIONS {
            let pg = p + g;
            if pg.len() <= MAX_DISTORTIONS {
                assert(pg + s =~= p + g + s);
            } else {
                assert(pg.take(MAX_DISTORTIONS as int) =~= (p + g + s).take(MAX_DISTORTIONS as int));
            }
        }
    }
    out
}

// ── Distortion pops ──────────────────────────────────────────────────────────

/// The rhythm of the distortion pops: a pop on one or two live aliens for
/// `POP_FRAMES` frames, then a quiet gap, then the next pop.
#[derive(Clone, Copy, Debug, PartialEq, Eq, Structural)]
pub struct DistortionPulse {
    /// Frames left in the current pop or gap; at zero the next frame switches.
    pub timer: u32,
    /// A pop is showing.
    pub on: bool,
}

/// What a frame of the pulse does to the aliens being distorted.
#[derive(Clone, Copy, Debug, PartialEq, Eq, Structural)]
pub enum PulseChange {
    /// Keep the current targets.
    Keep,
    /// The pop ended: no targets.
    Clear,
    /// A pop starts on these live aliens (indices among the live aliens).
    Aim { first: usize, second: Option<usize> },
}

/// One frame of the pulse. `quiet_extra` lengthens a gap that starts now;
/// `pick0`, `pick1` choose the live aliens for a pop that starts now.
pub open spec fn pulse_step(p: DistortionPulse, quiet_extra: u32) -> DistortionPulse {
    if p.timer > 0 {
        DistortionPulse { timer: (p.timer - 1) as u32, on: p.on }
    } else if p.on {
        DistortionPulse { timer: (MIN_QUIET_FRAMES + quiet_extra) as u32, on: false }
    } else {
        DistortionPulse { timer: POP_FRAMES, on: true }
    }
}

/// The pulse after one step per element of `extras`.
pub open spec fn pulse_after(p: DistortionPulse, extras: Seq<u32>) -> DistortionPulse
    decreases extras.len(),
{
    if extras.len() == 0 {
        p
    } else {
        pulse_after(pulse_step(p, extras[0]), extras.drop_first())
    }
}

impl DistortionPulse {
    /// Quiet, with the first pop starting on the next frame.
    pub fn new() -> (p: Self)
        ensures
            p == (DistortionPulse { timer: 0, on: false }),
    {
        DistortionPulse { timer: 0, on: false }
    }

    /// Advance one frame with `alive` live aliens. A gap starting now lasts
    /// `MIN_QUIET_FRAMES + quiet_extra` frames; a pop starting now aims at
    /// live aliens `pick0` and `pick1` (one alien when they agree, none when
    /// no alien is alive).
    pub fn tick(&mut self, alive: usize, quiet_extra: u32, pick0: usize, pick1: usize) -> (change: PulseChange)
        requires
            quiet_extra < QUIET_SPREAD,
            alive > 0 ==> pick0 < alive && pick1 < alive,
        ensures
            *final(self) == pulse_step(*old(self), quiet_extra),
            change == if old(self).timer > 0 {
                PulseChange::Keep
            } else if old(self).on {
                PulseChange::Clear
            } else if alive == 0 {
                PulseChange::Keep
            } else {
                PulseChange::Aim { first: pick0, second: if pick0 == pick1 { None } else { Some(pick1) } }
            },
    {
        if self.timer == 0 {
            if self.on {
                self.on = false;
                self.timer = MIN_QUIET_FRAMES + quiet_extra;
                PulseChange::Clear
            } else {
                self.on = true;
                self.timer = POP_FRAMES;
                if alive > 0 {
                    PulseChange::Aim { first: pick0, second: if pick0 == pick1 { None } else { Some(pick1) } }
                } else {
                    PulseChange::Keep
                }
            }
        } else {
            self.timer = self.timer - 1;
            PulseChange::Keep
        }
    }
}

/// A pop or gap runs its course whatever chance brings: for as many frames as
/// its timer shows it keeps its state and counts down; the frame after, it
/// switches, into a gap of `MIN_QUIET_FRAMES` to `MIN_QUIET_FRAMES +
/// QUIET_SPREAD - 1` frames or into a pop of `POP_FRAMES` frames.
pub proof fn law_pulse_runs_its_course(p: DistortionPulse, extras: Seq<u32>)
    requires
        extras.len() == p.timer + 1,
        forall|i: int| 0 <= i < extras.len() ==> #[trigger] extras[i] < QUIET_SPREAD,
    ensures
        forall|k: int| 0 <= k <= p.timer ==> #[trigger] pulse_after(p, extras.take(k)) == (DistortionPulse {
            timer: (p.timer - k) as u32,
            on: p.on,
        }),
        pulse_after(p, extras).on == !p.on,
        p.on ==> MIN_QUIET_FRAMES <= pulse_after(p, extras).timer < MIN_QUIET_FRAMES + QUIET_SPREAD,
        !p.on ==> pulse_after(p, extras).timer == POP_FRAMES,
    decreases p.timer,
{
    if p.timer == 0 {
        assert(extras.take(0) =~= Seq::<u32>::empty());
        assert(extras.drop_first() =~= Seq::<u32>::empty());
        assert(extras[0] < QUIET_SPREAD);
        assert(pulse_after(p, extras) == pulse_after(pulse_step(p, extras[0]), extras.drop_first()));
    } else {
        let q = pulse_step(p, extras[0]);
        let rest = extras.drop_first();
        assert forall|i: int| 0 <= i < rest.len() implies #[trigger] rest[i] < QUIET_SPREAD by {
            assert(rest[i] == extras[i + 1]);
        }
        law_pulse_runs_its_course(q, rest);
        assert(pulse_after(p, extras) == pulse_after(q, rest));
        assert forall|k: int| 0 <= k <= p.timer implies #[trigger] pulse_after(p, extras.take(k)) == (DistortionPulse {
            timer: (p.timer - k) as u32,
            on: p.on,
        }) by {
            if k > 0 {
                assert(extras.take(k).drop_first() =~= rest.take(k - 1));
                assert(extras.take(k)[0] == extras[0]);
                assert(pulse_after(q, rest.take(k - 1)) == (DistortionPulse { timer: (q.timer - (k - 1)) as u32, on: q.on }));
            } else {
                assert(extras.take(0) =~= Seq::<u32>::empty());
            }
        }
    }
}

} // verus!

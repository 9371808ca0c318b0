//! The alien march: a cycle of bass notes kept in step with the grid.
//!
//! Pure frame counting, so it is independent of any audio output.

use vstd::prelude::*;

verus! {

/// Number of notes in the march cycle (C3 A2 G2 E2).
pub const MARCH_NOTE_COUNT: usize = 4;

pub struct MarchEngine {
    pub note_index: usize,
    frames_since_last: u32,
}

impl MarchEngine {
    /// Index of the note the march sounds next.
    pub closed spec fn note(&self) -> usize {
        self.note_index
    }

    /// Frames counted since the last note.
    pub closed spec fn frames(&self) -> u32 {
        self.frames_since_last
    }

    /// The frame counter can always be advanced once more.
    pub closed spec fn wf(&self) -> bool {
        self.frames_since_last < u32::MAX
    }

    pub fn new() -> (engine: Self)
        ensures
            engine.wf(),
            engine.note() == 0,
            engine.frames() == 0,
    {
        MarchEngine { note_index: 0, frames_since_last: 0 }
    }

    /// Called every animation frame.
    /// Returns `Some(note_index)` when a march note should fire, `None` otherwise.
    /// `tick_interval` is frames-between-grid-moves.
    pub fn tick(&mut self, tick_interval: u32) -> (note: Option<usize>)
        requires
            old(self).wf(),
            old(self).note() < usize::MAX,
        ensures
            final(self).wf(),
            // a note index within the cycle stays within it
            old(self).note() < MARCH_NOTE_COUNT ==> final(self).note() < MARCH_NOTE_COUNT,
            ({
                let (n, f, out) = march_step(
                    old(self).note() as nat,
                    old(self).frames() as nat,
                    tick_interval as nat,
                );
                &&& final(self).note() == n
                &&& final(self).frames() == f
                &&& note == match out {
                    Some(k) => Some(k as usize),
                    None => None,
                }
            }),
    {
        self.frames_since_last = self.frames_since_last + 1;
        if self.frames_since_last >= tick_interval {
            self.frames_since_last = 0;
            let note = self.note_index;
            self.note_index = (self.note_index + 1) % MARCH_NOTE_COUNT;
            Some(note)
        } else {
            None
        }
    }
}

/// Default mute state (false = unmuted).
pub fn muted_default() -> (muted: bool)
    ensures
        !muted,
{
    false
}

/// The mute flag after S.
pub open spec fn toggled(muted: bool) -> bool {
    !muted
}

/// Flip the mute flag. Returns the new state.
pub fn toggle_mute(muted: &mut bool) -> (now_muted: bool)
    ensures
        *final(muted) == toggled(*old(muted)),
        now_muted == *final(muted),
{
    *muted = !*muted;
    *muted
}

/// S twice leaves the sound as it was.
pub proof fn law_toggle_twice_restores(muted: bool)
    ensures
        toggled(toggled(muted)) == muted,
{
}

/// One frame of the march, as a function of the note index, the frame
/// counter and the interval: the new index, the new counter and the note
/// sounded, if any.
pub open spec fn march_step(note: nat, frames: nat, tick_interval: nat) -> (nat, nat, Option<nat>) {
    if frames + 1 >= tick_interval {
        ((note + 1) % (MARCH_NOTE_COUNT as nat), 0, Some(note))
    } else {
        (note, frames + 1, None)
    }
}

/// The notes sounded over `k` frames at a fixed interval, frame by frame.
pub open spec fn march_run(note: nat, frames: nat, tick_interval: nat, k: nat) -> Seq<Option<nat>>
    decreases k,
{
    if k == 0 {
        Seq::empty()
    } else {
        let (n, f, out) = march_step(note, frames, tick_interval);
        seq![out] + march_run(n, f, tick_interval, (k - 1) as nat)
    }
}

/// Before the counter reaches the interval, the march stays silent.
proof fn lemma_march_silent_prefix(note: nat, frames: nat, tick_interval: nat, k: nat)
    requires
        frames + k < tick_interval,
    ensures
        march_run(note, frames, tick_interval, k) == Seq::new(k, |i: int| None::<nat>),
    decreases k,
{
    if k > 0 {
        lemma_march_silent_prefix(note, frames + 1, tick_interval, (k - 1) as nat);
        assert(march_run(note, frames, tick_interval, k) =~= Seq::new(k, |i: int| None::<nat>));
    }
}

/// Running `a + b` frames is running `a` frames, then `b` more.
proof fn lemma_march_run_split(note: nat, frames: nat, tick_interval: nat, a: nat, b: nat)
    ensures
        march_run(note, frames, tick_interval, a + b) == march_run(note, frames, tick_interval, a)
            + march_run(
            march_state_after(note, frames, tick_interval, a).0,
            march_state_after(note, frames, tick_interval, a).1,
            tick_interval,
            b,
        ),
    decreases a,
{
    if a > 0 {
        let (n, f, out) = march_step(note, frames, tick_interval);
        lemma_march_run_split(n, f, tick_interval, (a - 1) as nat, b);
        assert((a + b - 1) as nat == (a - 1) as nat + b);
        assert(march_run(note, frames, tick_interval, a + b) =~= march_run(note, frames, tick_interval, a)
            + march_run(
            march_state_after(note, frames, tick_interval, a).0,
            march_state_after(note, frames, tick_interval, a).1,
            tick_interval,
            b,
        ));
    } else {
        assert(march_run(note, frames, tick_interval, 0) =~= Seq::<Option<nat>>::empty());
    }
}

/// Note index and frame counter after `k` frames at a fixed interval.
pub open spec fn march_state_after(note: nat, frames: nat, tick_interval: nat, k: nat) -> (nat, nat)
    decreases k,
{
    if k == 0 {
        (note, frames)
    } else {
        let (n, f, out) = march_step(note, frames, tick_interval);
        march_state_after(n, f, tick_interval, (k - 1) as nat)
    }
}

/// At a fixed interval `n >= 1` and starting from a fresh counter, the march
/// is silent for `n - 1` frames and then sounds the current note, after which
/// the counter is fresh again and the next note of the cycle is due.
pub proof fn law_march_sounds_once_per_interval(note: nat, tick_interval: nat)
    requires
        tick_interval >= 1,
    ensures
        march_run(note, 0, tick_interval, tick_interval) == Seq::new(
            (tick_interval - 1) as nat,
            |i: int| None::<nat>,
        ).push(Some(note)),
        march_state_after(note, 0, tick_interval, tick_interval) == (
            (note + 1) % (MARCH_NOTE_COUNT as nat),
            0nat,
        ),
{
    let m = (tick_interval - 1) as nat;
    lemma_march_silent_prefix(note, 0, tick_interval, m);
    lemma_march_state_silent(note, 0, tick_interval, m);
    lemma_march_run_split(note, 0, tick_interval, m, 1);
    lemma_march_state_split(note, 0, tick_interval, m, 1);
    reveal_with_fuel(march_run, 2);
    reveal_with_fuel(march_state_after, 2);
    assert(m + 1 == tick_interval);
    assert(march_run(note, m, tick_interval, 0) =~= Seq::<Option<nat>>::empty());
    assert(march_run(note, m, tick_interval, 1) =~= seq![Some(note)]);
    assert(march_run(note, 0, tick_interval, tick_interval) =~= Seq::new(m, |i: int| None::<nat>).push(
        Some(note),
    ));
}

/// From a fresh engine at a fixed interval `n >= 1`: after `k` frames the
/// next note is `(k / n) % 4` with `k % n` frames counted, and frame `j + 1`
/// (the `j`-th entry) sounds note `((j + 1) / n - 1) % 4` exactly when
/// `j + 1` is a multiple of `n`, and nothing otherwise.
pub proof fn law_march_from_fresh(tick_interval: nat, k: nat)
    requires
        tick_interval >= 1,
    ensures
        march_state_after(0, 0, tick_interval, k) == (
            ((k / tick_interval) % (MARCH_NOTE_COUNT as nat)) as nat,
            (k % tick_interval) as nat,
        ),
        march_run(0, 0, tick_interval, k).len() == k,
        forall|j: int|
            0 <= j < k ==> #[trigger] march_run(0, 0, tick_interval, k)[j] == if (j + 1) % (tick_interval as int)
                == 0 {
                Some((((j + 1) / (tick_interval as int) - 1) % (MARCH_NOTE_COUNT as int)) as nat)
            } else {
                None
            },
    decreases k,
{
    let n = tick_interval as int;
    if k == 0 {
        assert(march_run(0, 0, tick_interval, 0) =~= Seq::<Option<nat>>::empty());
    } else {
        let p = (k - 1) as nat;
        law_march_from_fresh(tick_interval, p);
        lemma_march_run_split(0, 0, tick_interval, p, 1);
        lemma_march_state_split(0, 0, tick_interval, p, 1);
        let q = p as int / n;
        let r = p as int % n;
        vstd::arithmetic::div_mod::lemma_fundamental_div_mod(p as int, n);
        vstd::arithmetic::div_mod::lemma_mod_pos_bound(p as int, n);
        assert(n * q == q * n) by (nonlinear_arith);
        let note = (q % 4) as nat;
        let before = march_run(0, 0, tick_interval, p);
        let tail = march_run(note, r as nat, tick_interval, 1);
        reveal_with_fuel(march_run, 2);
        reveal_with_fuel(march_state_after, 2);
        if r + 1 >= n {
            assert(r == n - 1);
            assert(k == (q + 1) * n + 0) by (nonlinear_arith)
                requires
                    p == q * n + r,
                    r == n - 1,
                    k == p + 1,
            ;
            vstd::arithmetic::div_mod::lemma_fundamental_div_mod_converse(k as int, n, q + 1, 0);
            assert(tail =~= seq![Some(note)]);
            assert(((q % 4) + 1) % 4 == (q + 1) % 4);
        } else {
            assert(k == q * n + (r + 1));
            vstd::arithmetic::div_mod::lemma_fundamental_div_mod_converse(k as int, n, q, r + 1);
            assert(tail =~= seq![None::<nat>]);
        }
        let whole = march_run(0, 0, tick_interval, k);
        assert(whole =~= before + tail);
        assert forall|j: int| 0 <= j < k implies #[trigger] whole[j] == if (j + 1) % n == 0 {
            Some((((j + 1) / n - 1) % (MARCH_NOTE_COUNT as int)) as nat)
        } else {
            None
        } by {
            if j < p {
                assert(whole[j] == before[j]);
            }
        }
    }
}

/// The state after silent frames: same note, counter advanced.
proof fn lemma_march_state_silent(note: nat, frames: nat, tick_interval: nat, k: nat)
    requires
        frames + k < tick_interval,
    ensures
        march_state_after(note, frames, tick_interval, k) == (note, frames + k),
    decreases k,
{
    if k > 0 {
        lemma_march_state_silent(note, frames + 1, tick_interval, (k - 1) as nat);
    }
}

/// The state after `a + b` frames is the state after `b` more frames from the state after `a`.
proof fn lemma_march_state_split(note: nat, frames: nat, tick_interval: nat, a: nat, b: nat)
    ensures
        march_state_after(note, frames, tick_interval, a + b) == march_state_after(
            march_state_after(note, frames, tick_interval, a).0,
            march_state_after(note, frames, tick_interval, a).1,
            tick_interval,
            b,
        ),
    decreases a,
{
    if a > 0 {
        let (n, f, out) = march_step(note, frames, tick_interval);
        lemma_march_state_split(n, f, tick_interval, (a - 1) as nat, b);
        assert((a + b - 1) as nat == (a - 1) as nat + b);
    }
}

} // verus!

//! The mystery UFO: when it appears, how it flies and what hitting it earns.

use vstd::prelude::*;
use crate::game::levels::{LEVEL_COUNT, level_spec, spec_level};
use crate::game::state::{
    GamePhase, GameState, UFO_EXPLOSION_FRAMES, Ufo, all_aliens_dead, spec_all_dead,
};

verus! {

/// Where the UFO would be after one step at a given speed, and whether it
/// has then left the canvas.
#[derive(Clone, Copy, Debug, PartialEq)]
pub struct UfoMove<P> {
    pub x: P,
    pub off_screen: bool,
}

/// The UFO appears: none is in flight, the player has fired enough shots
/// since the last one, and the grid has dropped at least once.
pub open spec fn ufo_spawns<P>(state: GameState<P>) -> bool {
    &&& state.ufo is None
    &&& state.ufo_shot_counter >= state.ufo_shots_to_next
    &&& state.grid.offset_rows != 0
}

/// Spawn the mystery UFO if the shot-count threshold has been reached and no UFO is
/// currently active. `direction` is +1 for left to right or -1 for right to
/// left (chosen by the caller so that the game logic stays free of randomness).
/// A left-to-right UFO starts at `left_start_x`, any other at `right_start_x`
/// (just off the appropriate edge); `ufo_y` is the height it flies at.
/// The next UFO then waits for the current level's `ufo_repeat_shots` shots
/// (levels past the table's end wrap round, as `advance_level` does).
pub fn try_spawn_ufo<P: Copy>(
    state: &mut GameState<P>,
    direction: i8,
    left_start_x: P,
    right_start_x: P,
    ufo_y: P,
)
    ensures
        !ufo_spawns(*old(state)) ==> *final(state) == *old(state),
        ufo_spawns(*old(state)) ==> *final(state) == (GameState {
            ufo: Some(
                Ufo {
                    x: if direction == 1 { left_start_x } else { right_start_x },
                    y: ufo_y,
                    direction: direction,
                    explosion_timer: 0,
                    score: 0,
                },
            ),
            ufo_shot_counter: 0,
            ufo_shots_to_next: spec_level((old(state).level as int) % (LEVEL_COUNT as int)).ufo_repeat_shots,
            ..*old(state)
        }),
{
    if state.ufo.is_some() {
        return;
    }
    if state.ufo_shot_counter < state.ufo_shots_to_next {
        return;
    }
    if state.grid.offset_rows == 0 {
        return;
    }
    let x = if direction == 1 { left_start_x } else { right_start_x };
    state.ufo = Some(Ufo { x, y: ufo_y, direction, explosion_timer: 0, score: 0 });
    state.ufo_shot_counter = 0;
    state.ufo_shots_to_next = level_spec(state.level % LEVEL_COUNT).ufo_repeat_shots;
}

/// The UFO speeds away when the aliens are all dead or the game is over.
pub open spec fn ufo_evacuating<P>(state: GameState<P>) -> bool {
    spec_all_dead(state.aliens@) || state.phase == GamePhase::GameOver
}

/// The UFO after one frame, or `None` once it has gone: an exploding UFO
/// counts down and vanishes at zero; a flying one moves by `mv` and vanishes
/// once off screen.
pub open spec fn ufo_after_frame<P>(u: Ufo<P>, mv: UfoMove<P>) -> Option<Ufo<P>> {
    if u.explosion_timer > 0 {
        if u.explosion_timer == 1 {
            None
        } else {
            Some(Ufo { explosion_timer: (u.explosion_timer - 1) as u8, ..u })
        }
    } else if mv.off_screen {
        None
    } else {
        Some(Ufo { x: mv.x, ..u })
    }
}

/// Advance the UFO each frame: move it if alive, tick down explosion timer if hit.
/// `cruise` and `evacuate` are the UFO's move at normal and at evacuation
/// speed. Removes the UFO once it exits the canvas or its explosion timer
/// reaches zero. Nothing happens while paused.
pub fn tick_ufo<P: Copy>(state: &mut GameState<P>, cruise: UfoMove<P>, evacuate: UfoMove<P>)
    ensures
        old(state).phase == GamePhase::Paused || old(state).ufo is None ==> *final(state) == *old(state),
        old(state).phase != GamePhase::Paused ==> (old(state).ufo matches Some(u) ==> *final(state) == (GameState {
            ufo: ufo_after_frame(u, if ufo_evacuating(*old(state)) { evacuate } else { cruise }),
            ..*old(state)
        })),
{
    if state.phase == GamePhase::Paused {
        return;
    }
    let evacuating = all_aliens_dead(state) || state.phase == GamePhase::GameOver;
    let u = match state.ufo {
        None => return,
        Some(u) => u,
    };
    if u.explosion_timer > 0 {
        let timer = u.explosion_timer - 1;
        if timer == 0 {
            state.ufo = None;
        } else {
            state.ufo = Some(Ufo { explosion_timer: timer, ..u });
        }
    } else {
        let mv = if evacuating { evacuate } else { cruise };
        if mv.off_screen {
            state.ufo = None;
        } else {
            state.ufo = Some(Ufo { x: mv.x, ..u });
        }
    }
}

/// The bullet hits the UFO: both are present, the UFO is not already
/// exploding, and the bullet lies on it.
pub open spec fn ufo_hit<P>(state: GameState<P>, bullet_on_ufo: bool) -> bool {
    &&& state.bullet is Some
    &&& state.ufo matches Some(u) && u.explosion_timer == 0
    &&& bullet_on_ufo
}

/// Check whether the player bullet has hit the UFO; `bullet_on_ufo` tells
/// whether the bullet lies within the UFO's sprite.
/// `score` is the bonus to award (caller picks randomly from `UFO_SCORES`).
/// On a hit: awards score, stores it on the UFO for display, starts explosion timer,
/// and clears the player bullet. Does nothing if the UFO is absent or already exploding.
pub fn check_ufo_hit<P: Copy>(state: &mut GameState<P>, score: u32, bullet_on_ufo: bool)
    requires
        ufo_hit(*old(state), bullet_on_ufo) ==> old(state).score + score <= u32::MAX,
    ensures
        !ufo_hit(*old(state), bullet_on_ufo) ==> *final(state) == *old(state),
        ufo_hit(*old(state), bullet_on_ufo) ==> *final(state) == (GameState {
            score: (old(state).score + score) as u32,
            bullet: None,
            ufo: Some(Ufo { explosion_timer: UFO_EXPLOSION_FRAMES, score: score, ..old(state).ufo.unwrap() }),
            ..*old(state)
        }),
{
    if state.bullet.is_none() {
        return;
    }
    let hit = match state.ufo {
        Some(u) => u.explosion_timer == 0 && bullet_on_ufo,
        None => false,
    };
    if hit {
        state.score = state.score + score;
        state.bullet = None;
        if let Some(u) = state.ufo {
            state.ufo = Some(Ufo { explosion_timer: UFO_EXPLOSION_FRAMES, score, ..u });
        }
    }
}

} // verus!

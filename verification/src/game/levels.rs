//! Level table, alien grid patterns, and the transitions that load a level.

use vstd::prelude::*;
use vstd::string::StrSliceExecFns;
use crate::strings::string_clear;
use crate::game::state::{
    Alien, AlienKind, GamePhase, GameState, GridMotion, LEVEL_CLEAR_PAUSE, START_LIVES,
    all_aliens_dead, spec_all_dead,
};

verus! {

/// Level grid pattern: 5 rows, 11 columns each.
/// Each char maps to an AlienKind: 'S' = Squid, 'C' = Crab, 'O' = Octopus.
/// Rows are top-to-bottom; any other character leaves its cell empty.
pub type LevelPattern = [&'static str; 5];

pub const LEVEL_1: LevelPattern = [
    "SSSSSSSSSSS",
    "CCCCCCCCCCC",
    "CCCCCCCCCCC",
    "OOOOOOOOOOO",
    "OOOOOOOOOOO",
];

pub const LEVEL_2: LevelPattern = [
    "SSSSSSSSSSS",
    "SSSSSSSSSSS",
    "CCCCCCCCCCC",
    "OOOOOOOOOOO",
    "OOOOOOOOOOO",
];

pub const LEVEL_3: LevelPattern = [
    "SSSSSSSSSSS",
    "SSSSSSSSSSS",
    "SSSSSSSSSSS",
    "CCCCCCCCCCC",
    "OOOOOOOOOOO",
];

// Levels 4–7: alternating rows introduce visual variety while escalating type mix.
pub const LEVEL_4: LevelPattern = [
    "SSSSSSSSSSS",
    "SSSSSSSSSSS",
    "SSSSSSSSSSS",
    "CCCCCCCCCCC",
    "CCCCCCCCCCC",
];

pub const LEVEL_5: LevelPattern = [
    "SSSSSSSSSSS",
    "CSCSCSCSCSC",
    "SSSSSSSSSSS",
    "CSCSCSCSCSC",
    "SSSSSSSSSSS",
];

pub const LEVEL_6: LevelPattern = [
    "SSSSSSSSSSS",
    "SSSSSSSSSSS",
    "SCSCSCSCSCS",
    "SSSSSSSSSSS",
    "SSSSSSSSSSS",
];

pub const LEVEL_7: LevelPattern = [
    "SSSSSSSSSSS",
    "SSSSSSSSSSS",
    "SSSSSSSSSSS",
    "SSSSSSSSSSS",
    "CCCCCCCCCCC",
];

/// Number of levels; `advance_level` cycles through them and wraps back to 0.
pub const LEVEL_COUNT: usize = 10;

/// All tunable parameters for a single level.
#[derive(Clone, Copy, Debug)]
pub struct LevelSpec {
    /// Alien type grid — rows of 'S', 'C', 'O' characters.
    pub pattern: LevelPattern,
    /// Frames between alien shots (lower = more frequent fire).
    pub alien_fire_interval: u32,
    /// Multiplier on tick intervals in hundredths (< 100 = faster grid movement).
    pub speed_scale_percent: u32,
    /// Rows of `CELL_H` pixels the alien grid starts lower on screen.
    pub grid_y_offset_rows: u32,
    /// Player shots before the first UFO appears.
    pub ufo_first_shot: u32,
    /// Player shots between subsequent UFOs.
    pub ufo_repeat_shots: u32,
    /// Maximum alien bullets in flight simultaneously.
    pub max_alien_bullets: usize,
}

/// The level table, by zero-based level index.
pub open spec fn spec_level(index: int) -> LevelSpec {
    if index == 0 {
        LevelSpec {
            pattern: LEVEL_1,
            alien_fire_interval: 90,
            speed_scale_percent: 120,
            grid_y_offset_rows: 0,
            ufo_first_shot: 23,
            ufo_repeat_shots: 15,
            max_alien_bullets: 3,
        }
    } else if index == 1 {
        LevelSpec {
            pattern: LEVEL_2,
            alien_fire_interval: 65,
            speed_scale_percent: 95,
            grid_y_offset_rows: 0,
            ufo_first_shot: 20,
            ufo_repeat_shots: 12,
            max_alien_bullets: 3,
        }
    } else if index == 2 {
        LevelSpec {
            pattern: LEVEL_3,
            alien_fire_interval: 45,
            speed_scale_percent: 80,
            grid_y_offset_rows: 1,
            ufo_first_shot: 15,
            ufo_repeat_shots: 10,
            max_alien_bullets: 3,
        }
    } else if index == 3 {
        LevelSpec {
            pattern: LEVEL_4,
            alien_fire_interval: 38,
            speed_scale_percent: 70,
            grid_y_offset_rows: 1,
            ufo_first_shot: 12,
            ufo_repeat_shots: 8,
            max_alien_bullets: 4,
        }
    } else if index == 4 {
        LevelSpec {
            pattern: LEVEL_5,
            alien_fire_interval: 32,
            speed_scale_percent: 60,
            grid_y_offset_rows: 2,
            ufo_first_shot: 10,
            ufo_repeat_shots: 7,
            max_alien_bullets: 4,
        }
    } else if index == 5 {
        LevelSpec {
            pattern: LEVEL_6,
            alien_fire_interval: 27,
            speed_scale_percent: 50,
            grid_y_offset_rows: 2,
            ufo_first_shot: 8,
            ufo_repeat_shots: 6,
            max_alien_bullets: 5,
        }
    } else if index == 6 {
        LevelSpec {
            pattern: LEVEL_7,
            alien_fire_interval: 23,
            speed_scale_percent: 45,
            grid_y_offset_rows: 3,
            ufo_first_shot: 7,
            ufo_repeat_shots: 5,
            max_alien_bullets: 5,
        }
    } else if index == 7 {
        LevelSpec {
            pattern: LEVEL_6,
            alien_fire_interval: 20,
            speed_scale_percent: 40,
            grid_y_offset_rows: 3,
            ufo_first_shot: 6,
            ufo_repeat_shots: 4,
            max_alien_bullets: 6,
        }
    } else if index == 8 {
        LevelSpec {
            pattern: LEVEL_7,
            alien_fire_interval: 17,
            speed_scale_percent: 36,
            grid_y_offset_rows: 3,
            ufo_first_shot: 5,
            ufo_repeat_shots: 3,
            max_alien_bullets: 6,
        }
    } else {
        LevelSpec {
            pattern: LEVEL_6,
            alien_fire_interval: 15,
            speed_scale_percent: 32,
            grid_y_offset_rows: 4,
            ufo_first_shot: 4,
            ufo_repeat_shots: 3,
            max_alien_bullets: 7,
        }
    }
}

/// The parameters of level `index` (zero-based).
pub fn level_spec(index: usize) -> (spec: LevelSpec)
    requires
        index < LEVEL_COUNT,
    ensures
        spec == spec_level(index as int),
{
    if index == 0 {
        LevelSpec {
            pattern: LEVEL_1,
            alien_fire_interval: 90,
            speed_scale_percent: 120,
            grid_y_offset_rows: 0,
            ufo_first_shot: 23,
            ufo_repeat_shots: 15,
            max_alien_bullets: 3,
        }
    } else if index == 1 {
        LevelSpec {
            pattern: LEVEL_2,
            alien_fire_interval: 65,
            speed_scale_percent: 95,
            grid_y_offset_rows: 0,
            ufo_first_shot: 20,
            ufo_repeat_shots: 12,
            max_alien_bullets: 3,
        }
    } else if index == 2 {
        LevelSpec {
            pattern: LEVEL_3,
            alien_fire_interval: 45,
            speed_scale_percent: 80,
            grid_y_offset_rows: 1,
            ufo_first_shot: 15,
            ufo_repeat_shots: 10,
            max_alien_bullets: 3,
        }
    } else if index == 3 {
        LevelSpec {
            pattern: LEVEL_4,
            alien_fire_interval: 38,
            speed_scale_percent: 70,
            grid_y_offset_rows: 1,
            ufo_first_shot: 12,
            ufo_repeat_shots: 8,
            max_alien_bullets: 4,
        }
    } else if index == 4 {
        LevelSpec {
            pattern: LEVEL_5,
            alien_fire_interval: 32,
            speed_scale_percent: 60,
            grid_y_offset_rows: 2,
            ufo_first_shot: 10,
            ufo_repeat_shots: 7,
            max_alien_bullets: 4,
        }
    } else if index == 5 {
        LevelSpec {
            pattern: LEVEL_6,
            alien_fire_interval: 27,
            speed_scale_percent: 50,
            grid_y_offset_rows: 2,
            ufo_first_shot: 8,
            ufo_repeat_shots: 6,
            max_alien_bullets: 5,
        }
    } else if index == 6 {
        LevelSpec {
            pattern: LEVEL_7,
            alien_fire_interval: 23,
            speed_scale_percent: 45,
            grid_y_offset_rows: 3,
            ufo_first_shot: 7,
            ufo_repeat_shots: 5,
            max_alien_bullets: 5,
        }
    } else if index == 7 {
        LevelSpec {
            pattern: LEVEL_6,
            alien_fire_interval: 20,
            speed_scale_percent: 40,
            grid_y_offset_rows: 3,
            ufo_first_shot: 6,
            ufo_repeat_shots: 4,
            max_alien_bullets: 6,
        }
    } else if index == 8 {
        LevelSpec {
            pattern: LEVEL_7,
            alien_fire_interval: 17,
            speed_scale_percent: 36,
            grid_y_offset_rows: 3,
            ufo_first_shot: 5,
            ufo_repeat_shots: 3,
            max_alien_bullets: 6,
        }
    } else {
        LevelSpec {
            pattern: LEVEL_6,
            alien_fire_interval: 15,
            speed_scale_percent: 32,
            grid_y_offset_rows: 4,
            ufo_first_shot: 4,
            ufo_repeat_shots: 3,
            max_alien_bullets: 7,
        }
    }
}

/// Later levels are never easier: fire at least as often, move at least as
/// fast, start at least as low, and allow at least as many bullets.
pub proof fn law_levels_never_get_easier(i: int, j: int)
    requires
        0 <= i <= j < LEVEL_COUNT,
    ensures
        spec_level(j).alien_fire_interval <= spec_level(i).alien_fire_interval,
        spec_level(j).speed_scale_percent <= spec_level(i).speed_scale_percent,
        spec_level(j).grid_y_offset_rows >= spec_level(i).grid_y_offset_rows,
        spec_level(j).max_alien_bullets >= spec_level(i).max_alien_bullets,
{
}

/// The kind of alien a pattern character places, if any.
pub open spec fn kind_of_char(ch: char) -> Option<AlienKind> {
    if ch == 'S' {
        Some(AlienKind::Squid)
    } else if ch == 'C' {
        Some(AlienKind::Crab)
    } else if ch == 'O' {
        Some(AlienKind::Octopus)
    } else {
        None
    }
}

/// A fresh, alive alien at (`col`, `row`).
pub open spec fn fresh_alien(col: int, row: int, kind: AlienKind) -> Alien {
    Alien {
        col: col as usize as u32,
        row: row as usize as u32,
        alive: true,
        sprite: kind,
        explosion_timer: 0,
    }
}

/// The aliens placed by the first `n` characters of row `row`.
pub open spec fn row_aliens(line: Seq<char>, row: int, n: int) -> Seq<Alien>
    decreases n,
{
    if n <= 0 {
        Seq::empty()
    } else {
        row_aliens(line, row, n - 1) + match kind_of_char(line[n - 1]) {
            Some(kind) => seq![fresh_alien(n - 1, row, kind)],
            None => Seq::empty(),
        }
    }
}

/// The aliens placed by the first `n` rows of a pattern, row by row.
pub open spec fn grid_aliens(rows: Seq<Seq<char>>, n: int) -> Seq<Alien>
    decreases n,
{
    if n <= 0 {
        Seq::empty()
    } else {
        grid_aliens(rows, n - 1) + row_aliens(rows[n - 1], n - 1, rows[n - 1].len() as int)
    }
}

/// The characters of each row of a pattern.
pub open spec fn pattern_rows(pattern: Seq<&str>) -> Seq<Seq<char>> {
    pattern.map_values(|line: &str| line@)
}

/// The alien grid a pattern describes: rows top to bottom, each row left to right.
pub open spec fn spec_alien_grid(pattern: Seq<&str>) -> Seq<Alien> {
    grid_aliens(pattern_rows(pattern), pattern.len() as int)
}

/// Builds the alien grid for `pattern`, every alien alive.
pub fn build_alien_grid(pattern: LevelPattern) -> (aliens: Vec<Alien>)
    ensures
        aliens@ == spec_alien_grid(pattern@),
{
    let ghost rows = pattern_rows(pattern@);
    let mut aliens: Vec<Alien> = Vec::new();
    let n_rows = pattern.len();
    for row in 0..n_rows
        invariant
            n_rows == pattern@.len(),
            rows == pattern_rows(pattern@),
            aliens@ == grid_aliens(rows, row as int),
    {
        let line: &str = pattern[row];
        let n_cols = line.unicode_len();
        let ghost before = aliens@;
        assert(rows[row as int] == line@);
        for col in 0..n_cols
            invariant
                n_cols == line@.len(),
                rows == pattern_rows(pattern@),
                rows[row as int] == line@,
                aliens@ == before + row_aliens(line@, row as int, col as int),
        {
            let ch = line.get_char(col);
            let ghost prev = aliens@;
            let sprite = if ch == 'S' {
                Some(AlienKind::Squid)
            } else if ch == 'C' {
                Some(AlienKind::Crab)
            } else if ch == 'O' {
                Some(AlienKind::Octopus)
            } else {
                None
            };
            match sprite {
                Some(kind) => {
                    aliens.push(
                        Alien {
                            col: col as u32,
                            row: row as u32,
                            alive: true,
                            sprite: kind,
                            explosion_timer: 0,
                        },
                    );
                    assert(aliens@ =~= before + row_aliens(line@, row as int, col + 1));
                },
                None => {
                    assert(aliens@ =~= before + row_aliens(line@, row as int, col + 1));
                },
            }
        }
        assert(aliens@ =~= grid_aliens(rows, row + 1));
    }
    aliens
}

/// The grid motion a level starts with: centred, `rows` rows down, moving right.
pub open spec fn level_start_grid<P>(zero: P, rows: u32) -> GridMotion<P> {
    GridMotion { offset_x: zero, offset_rows: rows, direction: 1, tick: 0, anim_frame: false }
}

/// The state after `reset_game`: level 1 loaded, score and lives restored,
/// nothing in flight, ship back at `ship_x`, playing.
pub open spec fn spec_reset<P>(old: GameState<P>, new: GameState<P>, ship_x: P, zero: P) -> bool {
    let spec = spec_level(0);
    &&& new.aliens@ == spec_alien_grid(spec.pattern@)
    &&& new.alien_bullets@.len() == 0
    &&& new.ground_explosions@.len() == 0
    &&& new.name_input@.len() == 0
    &&& new == (GameState {
        aliens: new.aliens,
        alien_bullets: new.alien_bullets,
        ground_explosions: new.ground_explosions,
        name_input: new.name_input,
        lives: START_LIVES,
        score: 0,
        level: 0,
        grid: level_start_grid(zero, spec.grid_y_offset_rows),
        bullet: None,
        pause_timer: 0,
        game_over_timer: 0,
        ship: crate::game::state::Ship { x: ship_x, y: old.ship.y },
        phase: GamePhase::Playing,
        ufo: None,
        ufo_shot_counter: 0,
        ufo_shots_to_next: spec.ufo_first_shot,
        alien_fire_interval: spec.alien_fire_interval,
        speed_scale_percent: spec.speed_scale_percent,
        max_alien_bullets: spec.max_alien_bullets,
        ..old
    })
}

/// Reset to a fresh game from any phase — used by both Attract→Playing and
/// GameOver→Playing. `ship_x` is the ship's centred position and `zero` the
/// grid's centred horizontal offset.
pub fn reset_game<P: Copy>(state: &mut GameState<P>, ship_x: P, zero: P)
    ensures
        spec_reset(*old(state), *final(state), ship_x, zero),
        final(state).grid == (GridMotion {
            offset_x: zero,
            offset_rows: spec_level(0).grid_y_offset_rows,
            direction: 1,
            tick: 0,
            anim_frame: false,
        }),
        final(state).score == 0,
        final(state).lives == START_LIVES,
{
    let spec = level_spec(0);
    state.lives = START_LIVES;
    state.score = 0;
    state.level = 0;
    state.aliens = build_alien_grid(spec.pattern);
    state.grid = GridMotion {
        offset_x: zero,
        offset_rows: spec.grid_y_offset_rows,
        direction: 1,
        tick: 0,
        anim_frame: false,
    };
    state.bullet = None;
    state.alien_bullets.clear();
    state.ground_explosions.clear();
    state.pause_timer = 0;
    state.game_over_timer = 0;
    state.ship.x = ship_x;
    state.phase = GamePhase::Playing;
    state.ufo = None;
    state.ufo_shot_counter = 0;
    state.ufo_shots_to_next = spec.ufo_first_shot;
    state.alien_fire_interval = spec.alien_fire_interval;
    state.speed_scale_percent = spec.speed_scale_percent;
    state.max_alien_bullets = spec.max_alien_bullets;
    string_clear(&mut state.name_input);
}

/// Quit the current game and return to the attract screen.
/// Resets all state (score, lives, level) without starting a new game.
pub fn quit_game<P: Copy>(state: &mut GameState<P>, ship_x: P, zero: P)
    ensures
        spec_reset(*old(state), GameState { phase: GamePhase::Playing, ..*final(state) }, ship_x, zero),
        final(state).phase == GamePhase::Attract,
{
    reset_game(state, ship_x, zero);
    state.phase = GamePhase::Attract;
}

/// The state after `advance_level`: the next level (wrapping) loaded with its
/// grid, settings and UFO threshold; nothing in flight.
pub open spec fn spec_advance<P>(old: GameState<P>, new: GameState<P>, zero: P) -> bool {
    let level = ((old.level + 1) % (LEVEL_COUNT as int)) as usize;
    let spec = spec_level(level as int);
    &&& new.aliens@ == spec_alien_grid(spec.pattern@)
    &&& new.alien_bullets@.len() == 0
    &&& new.ground_explosions@.len() == 0
    &&& new == (GameState {
        aliens: new.aliens,
        alien_bullets: new.alien_bullets,
        ground_explosions: new.ground_explosions,
        level: level,
        grid: level_start_grid(zero, spec.grid_y_offset_rows),
        bullet: None,
        alien_fire_interval: spec.alien_fire_interval,
        speed_scale_percent: spec.speed_scale_percent,
        max_alien_bullets: spec.max_alien_bullets,
        ufo_shots_to_next: spec.ufo_first_shot,
        ufo_shot_counter: 0,
        ..old
    })
}

/// Advance to the next level: increment `state.level` (wrapping), load the
/// corresponding alien grid, reset grid motion, and clear any in-flight bullets.
pub fn advance_level<P: Copy>(state: &mut GameState<P>, zero: P)
    requires
        old(state).level < usize::MAX,
    ensures
        spec_advance(*old(state), *final(state), zero),
        final(state).score == old(state).score,
        final(state).lives == old(state).lives,
        final(state).phase == old(state).phase,
{
    state.level = (state.level + 1) % LEVEL_COUNT;
    let spec = level_spec(state.level);
    state.aliens = build_alien_grid(spec.pattern);
    state.grid = GridMotion {
        offset_x: zero,
        offset_rows: spec.grid_y_offset_rows,
        direction: 1,
        tick: 0,
        anim_frame: false,
    };
    state.bullet = None;
    state.alien_bullets.clear();
    state.ground_explosions.clear();
    state.alien_fire_interval = spec.alien_fire_interval;
    state.speed_scale_percent = spec.speed_scale_percent;
    state.max_alien_bullets = spec.max_alien_bullets;
    state.ufo_shots_to_next = spec.ufo_first_shot;
    state.ufo_shot_counter = 0;
}

/// If all aliens are dead, no UFO is in flight and the game is still Playing,
/// transition to LevelClear and reset the pause timer.
pub fn check_level_clear<P>(state: &mut GameState<P>)
    ensures
        (old(state).phase == GamePhase::Playing && spec_all_dead(old(state).aliens@)
            && old(state).ufo is None) ==> *final(state) == (GameState {
            phase: GamePhase::LevelClear,
            pause_timer: 0,
            ..*old(state)
        }),
        !(old(state).phase == GamePhase::Playing && spec_all_dead(old(state).aliens@)
            && old(state).ufo is None) ==> *final(state) == *old(state),
{
    if state.phase != GamePhase::Playing {
        return;
    }
    if all_aliens_dead(state) && state.ufo.is_none() {
        state.phase = GamePhase::LevelClear;
        state.pause_timer = 0;
    }
}

/// Advance the pause timer while in the LevelClear phase.
/// When the timer reaches LEVEL_CLEAR_PAUSE, loads the next level and
/// returns to Playing. Does nothing in any other phase.
pub fn tick_level_clear<P: Copy>(state: &mut GameState<P>, zero: P)
    requires
        old(state).phase == GamePhase::LevelClear ==> old(state).pause_timer < u32::MAX,
        old(state).phase == GamePhase::LevelClear && old(state).pause_timer + 1 >= LEVEL_CLEAR_PAUSE
            ==> old(state).level < usize::MAX,
    ensures
        old(state).phase != GamePhase::LevelClear ==> *final(state) == *old(state),
        old(state).phase == GamePhase::LevelClear && old(state).pause_timer + 1 < LEVEL_CLEAR_PAUSE
            ==> *final(state) == (GameState { pause_timer: (old(state).pause_timer + 1) as u32, ..*old(state) }),
        old(state).phase == GamePhase::LevelClear && old(state).pause_timer + 1 >= LEVEL_CLEAR_PAUSE
            ==> spec_advance(
            GameState { pause_timer: (old(state).pause_timer + 1) as u32, ..*old(state) },
            GameState { phase: GamePhase::LevelClear, ..*final(state) },
            zero,
        ) && final(state).phase == GamePhase::Playing,
{
    if state.phase != GamePhase::LevelClear {
        return;
    }
    state.pause_timer = state.pause_timer + 1;
    if state.pause_timer >= LEVEL_CLEAR_PAUSE {
        advance_level(state, zero);
        state.phase = GamePhase::Playing;
    }
}

/// A reset starts a fresh game whatever the old one was: the grid back at
/// level 1's starting place (centred, level 1's starting row, marching right,
/// counter and animation cleared), score 0, three lives, level 1, playing,
/// with nothing in flight and no UFO.
pub proof fn law_reset_starts_fresh<P>(old: GameState<P>, new: GameState<P>, ship_x: P, zero: P)
    requires
        spec_reset(old, new, ship_x, zero),
    ensures
        new.grid == (GridMotion {
            offset_x: zero,
            offset_rows: spec_level(0).grid_y_offset_rows,
            direction: 1,
            tick: 0,
            anim_frame: false,
        }),
        new.score == 0,
        new.lives == 3,
        new.level == 0,
        new.phase == GamePhase::Playing,
        new.bullet is None,
        new.ufo is None,
        new.alien_bullets@.len() == 0,
        new.ground_explosions@.len() == 0,
        new.ship.x == ship_x,
        new.ship.y == old.ship.y,
{
}

/// Clearing a level changes the level, not the player's standing: score,
/// lives, phase, name and ship are kept; the level number goes up by one,
/// wrapping after the last; the grid starts afresh at the new level's row.
pub proof fn law_advance_keeps_the_player<P>(old: GameState<P>, new: GameState<P>, zero: P)
    requires
        spec_advance(old, new, zero),
    ensures
        new.score == old.score,
        new.lives == old.lives,
        new.phase == old.phase,
        new.name_input == old.name_input,
        new.ship == old.ship,
        new.level == (old.level + 1) % 10,
        new.grid == (GridMotion {
            offset_x: zero,
            offset_rows: spec_level(new.level as int).grid_y_offset_rows,
            direction: 1,
            tick: 0,
            anim_frame: false,
        }),
        new.bullet is None,
        new.alien_bullets@.len() == 0,
{
}

} // verus!

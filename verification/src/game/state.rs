//! The game's state: aliens, the ship and everything in flight, the phase,
//! score, lives and level.
//!
//! Positions are carried as values of a coordinate type `P` that this crate
//! never inspects: every decision that depends on geometry takes its outcome
//! as a plain argument, computed by whoever owns the coordinate arithmetic.

use vstd::prelude::*;

verus! {

#[derive(Clone, Copy, Debug, PartialEq, Eq, Structural)]
pub enum AlienKind {
    Crab,
    Squid,
    Octopus,
}

#[derive(Clone, Copy, Debug, PartialEq, Eq, Structural)]
pub struct Alien {
    /// Column index in grid (0-based).
    pub col: u32,
    /// Row index in grid (0-based).
    pub row: u32,
    pub alive: bool,
    pub sprite: AlienKind,
    /// Counts down each frame while the explosion is displayed. Zero = no explosion.
    pub explosion_timer: u8,
}

/// Gameplay properties of an alien type's bullet.
#[derive(Clone, Copy, Debug, PartialEq, Eq)]
pub struct BulletProfile {
    /// CSS colour string used by the renderer.
    pub color: &'static str,
    /// Pixels the bullet travels downward per frame.
    pub speed: u32,
    /// When true, a GroundExplosion is spawned if the bullet reaches the floor.
    pub ground_explosion: bool,
}

/// Pixels a kind's bullets fall per frame.
pub open spec fn spec_bullet_speed(kind: AlienKind) -> u32 {
    match kind {
        AlienKind::Squid => 6,
        AlienKind::Crab => 4,
        AlienKind::Octopus => 3,
    }
}

/// The CSS colour a kind's bullets are drawn in.
pub open spec fn spec_bullet_color(kind: AlienKind) -> Seq<char> {
    match kind {
        AlienKind::Squid => "#ff2244"@,
        AlienKind::Crab => "#ff8800"@,
        AlienKind::Octopus => "#ffff44"@,
    }
}

/// A kind's bullets burst when they reach the floor.
pub open spec fn spec_ground_explosion(kind: AlienKind) -> bool {
    kind == AlienKind::Squid
}

impl AlienKind {
    pub fn bullet_profile(&self) -> (profile: BulletProfile)
        ensures
            profile.color@ == spec_bullet_color(*self),
            profile.speed == spec_bullet_speed(*self),
            profile.ground_explosion == spec_ground_explosion(*self),
    {
        match self {
            AlienKind::Squid => BulletProfile { color: "#ff2244", speed: 6, ground_explosion: true },
            AlienKind::Crab => BulletProfile {
                color: "#ff8800",
                speed: 4,
                ground_explosion: false,
            },
            AlienKind::Octopus => BulletProfile {
                color: "#ffff44",
                speed: 3,
                ground_explosion: false,
            },
        }
    }
}

#[derive(Clone, Copy, Debug, PartialEq)]
pub struct Ship<P> {
    /// Canvas x of ship centre.
    pub x: P,
    /// Canvas y of ship centre.
    pub y: P,
}

#[derive(Clone, Copy, Debug, PartialEq)]
pub struct Bullet<P> {
    pub x: P,
    pub y: P,
}

#[derive(Clone, Copy, Debug, PartialEq)]
pub struct AlienBullet<P> {
    pub x: P,
    pub y: P,
    /// The alien type that fired this bullet — determines its profile.
    pub kind: AlienKind,
}

/// Small particle effect spawned when a bullet with `ground_explosion = true` hits the floor.
#[derive(Clone, Copy, Debug, PartialEq)]
pub struct GroundExplosion<P> {
    pub x: P,
    pub y: P,
    pub timer: u8,
}

pub const GROUND_EXPLOSION_FRAMES: u8 = 15;

#[derive(Clone, Copy, Debug, PartialEq)]
pub struct Ufo<P> {
    pub x: P,
    pub y: P,
    /// +1 = left to right, -1 = right to left.
    pub direction: i8,
    /// Counts down after being hit; 0 = alive.
    pub explosion_timer: u8,
    /// Score value to display while exploding.
    pub score: u32,
}

/// Tracks the alien grid's position and movement direction.
/// `offset_x` is the signed shift from the grid's centred position;
/// `offset_rows` counts the rows (of `CELL_H` pixels) the grid has dropped.
/// `tick` counts every frame so `step_grid` can gate movement to every N frames.
/// `anim_frame` toggles on every actual move.
#[derive(Clone, Copy, Debug, PartialEq)]
pub struct GridMotion<P> {
    pub offset_x: P,
    pub offset_rows: u32,
    /// +1 = right, -1 = left.
    pub direction: i8,
    pub tick: u32,
    pub anim_frame: bool,
}

#[derive(Clone, Copy, PartialEq, Eq, Debug, Structural)]
pub enum GamePhase {
    Attract,
    Playing,
    Paused,
    LevelClear,
    GameOver,
    /// Player is typing their name after a game ends.
    NameEntry,
    /// Player is viewing the high score table from the attract screen.
    Scoreboard,
}

/// Which way the player moves the ship.
#[derive(Clone, Copy, PartialEq, Eq, Debug, Structural)]
pub enum Direction {
    Left,
    Right,
}

pub struct GameState<P> {
    pub width: u32,
    pub height: u32,
    pub aliens: Vec<Alien>,
    pub ship: Ship<P>,
    pub bullet: Option<Bullet<P>>,
    pub alien_bullets: Vec<AlienBullet<P>>,
    pub ground_explosions: Vec<GroundExplosion<P>>,
    pub grid: GridMotion<P>,
    pub score: u32,
    pub lives: u32,
    /// Zero-based level index — increments each time the level is cleared.
    pub level: usize,
    pub phase: GamePhase,
    /// Counts frames spent in the LevelClear phase before advancing.
    pub pause_timer: u32,
    /// Counts frames spent in the GameOver phase — prompt is shown after GAME_OVER_PAUSE.
    pub game_over_timer: u32,
    /// The mystery UFO when it is in flight; None otherwise.
    pub ufo: Option<Ufo<P>>,
    /// How many shots the player has fired since the last UFO spawned (or game start).
    pub ufo_shot_counter: u32,
    /// Shot count threshold before the next UFO appears.
    pub ufo_shots_to_next: u32,
    /// Frames between alien shots for the current level.
    pub alien_fire_interval: u32,
    /// Grid speed multiplier for the current level, in hundredths.
    pub speed_scale_percent: u32,
    /// Maximum alien bullets in flight simultaneously.
    pub max_alien_bullets: usize,
    /// Name being typed during the NameEntry phase.
    pub name_input: String,
}

/// Columns in the alien grid.
pub const GRID_COLS: u32 = 11;
/// Rows in the alien grid.
pub const GRID_ROWS: u32 = 5;
/// Pixels the player's bullet travels upward per frame.
pub const BULLET_STEP: u32 = 14;
/// Pixels an alien bullet travels downward per frame at the slowest profile.
pub const ALIEN_BULLET_STEP: u32 = 4;
/// How many frames an explosion sprite is shown after an alien is shot.
pub const EXPLOSION_FRAMES: u8 = 20;
/// Frames between grid moves at a full formation (slowest).
pub const GRID_TICK_MAX: u32 = 30;
/// Frames between grid moves when only one alien remains (fastest).
pub const GRID_TICK_MIN: u32 = 4;
/// Starting lives.
pub const START_LIVES: u32 = 3;
/// Maximum number of alien bullets in flight on the first level.
pub const MAX_ALIEN_BULLETS: usize = 3;
/// Player shots before the first UFO appears (classic: 23).
pub const UFO_FIRST_SHOT: u32 = 23;
/// Player shots between subsequent UFO appearances (classic: 15).
pub const UFO_REPEAT_SHOTS: u32 = 15;
/// Frames the score value is displayed at the UFO position after a hit.
pub const UFO_EXPLOSION_FRAMES: u8 = 60;
/// Possible score values awarded for hitting the UFO (chosen randomly by the caller).
pub const UFO_SCORES: [u32; 4] = [50, 100, 150, 300];
/// Frames the "GAME OVER" message is shown before the restart prompt appears.
pub const GAME_OVER_PAUSE: u32 = 120;
/// Frames the "LEVEL CLEAR" screen is shown before loading the next level.
pub const LEVEL_CLEAR_PAUSE: u32 = 120;
/// Maximum characters in a player name.
pub const MAX_NAME_LEN: usize = 10;

impl<P: Copy> GameState<P> {
    /// A fresh state on the attract screen: no aliens, nothing in flight,
    /// three lives, level 0 settings. `ship` is the ship's starting position
    /// and `zero` the grid's centred horizontal offset.
    pub fn new(width: u32, height: u32, ship: Ship<P>, zero: P) -> (state: Self)
        ensures
            state.width == width,
            state.height == height,
            state.aliens@ == Seq::<Alien>::empty(),
            state.ship == ship,
            state.bullet is None,
            state.alien_bullets@ == Seq::<AlienBullet<P>>::empty(),
            state.ground_explosions@ == Seq::<GroundExplosion<P>>::empty(),
            state.grid == (GridMotion { offset_x: zero, offset_rows: 0, direction: 1, tick: 0, anim_frame: false }),
            state.score == 0,
            state.lives == START_LIVES,
            state.level == 0,
            state.phase == GamePhase::Attract,
            state.pause_timer == 0,
            state.game_over_timer == 0,
            state.ufo is None,
            state.ufo_shot_counter == 0,
            state.ufo_shots_to_next == UFO_FIRST_SHOT,
            state.alien_fire_interval == 90,
            state.speed_scale_percent == 120,
            state.max_alien_bullets == 3,
            state.name_input@ == Seq::<char>::empty(),
    {
        GameState {
            width,
            height,
            aliens: Vec::new(),
            ship,
            bullet: None,
            alien_bullets: Vec::new(),
            ground_explosions: Vec::new(),
            grid: GridMotion { offset_x: zero, offset_rows: 0, direction: 1, tick: 0, anim_frame: false },
            score: 0,
            lives: START_LIVES,
            level: 0,
            phase: GamePhase::Attract,
            pause_timer: 0,
            game_over_timer: 0,
            ufo: None,
            ufo_shot_counter: 0,
            ufo_shots_to_next: UFO_FIRST_SHOT,
            alien_fire_interval: 90,
            speed_scale_percent: 120,
            max_alien_bullets: 3,
            name_input: String::new(),
        }
    }
}

/// Every alien in the grid is dead (or the grid is empty).
pub open spec fn spec_all_dead(aliens: Seq<Alien>) -> bool {
    forall|i: int| 0 <= i < aliens.len() ==> !(#[trigger] aliens[i]).alive
}

/// Returns `true` if every alien in the grid is dead (or the grid is empty).
pub fn all_aliens_dead<P>(state: &GameState<P>) -> (dead: bool)
    ensures
        dead == spec_all_dead(state.aliens@),
{
    let n = state.aliens.len();
    for i in 0..n
        invariant
            n == state.aliens@.len(),
            forall|k: int| 0 <= k < i ==> !(#[trigger] state.aliens@[k]).alive,
    {
        if state.aliens[i].alive {
            return false;
        }
    }
    true
}

/// Number of alive aliens among the first `n` of `aliens`.
pub open spec fn alive_prefix_count(aliens: Seq<Alien>, n: int) -> nat
    decreases n,
{
    if n <= 0 {
        0
    } else {
        alive_prefix_count(aliens, n - 1) + if aliens[n - 1].alive { 1nat } else { 0nat }
    }
}

/// Number of alive aliens.
pub open spec fn spec_alive_count(aliens: Seq<Alien>) -> nat {
    alive_prefix_count(aliens, aliens.len() as int)
}

/// At most `n` of the first `n` aliens are alive.
proof fn lemma_alive_prefix_count_bound(aliens: Seq<Alien>, n: int)
    requires
        0 <= n <= aliens.len(),
    ensures
        alive_prefix_count(aliens, n) <= n,
    decreases n,
{
    if n > 0 {
        lemma_alive_prefix_count_bound(aliens, n - 1);
    }
}

/// No alien is alive exactly when the alive count is zero.
proof fn lemma_alive_count_zero(aliens: Seq<Alien>, n: int)
    requires
        0 <= n <= aliens.len(),
    ensures
        (alive_prefix_count(aliens, n) == 0) <==> (forall|i: int| 0 <= i < n ==> !(#[trigger] aliens[i]).alive),
    decreases n,
{
    if n > 0 {
        lemma_alive_count_zero(aliens, n - 1);
    }
}

/// The aliens are all dead exactly when none is counted alive.
pub proof fn law_all_dead_iff_none_alive(aliens: Seq<Alien>)
    ensures
        spec_all_dead(aliens) <==> spec_alive_count(aliens) == 0,
{
    lemma_alive_count_zero(aliens, aliens.len() as int);
}

proof fn lemma_alive_prefix_update(aliens: Seq<Alien>, i: int, a: Alien, n: int)
    requires
        0 <= i < aliens.len(),
        0 <= n <= aliens.len(),
    ensures
        alive_prefix_count(aliens.update(i, a), n) + (if i < n && aliens[i].alive { 1int } else { 0int })
            == alive_prefix_count(aliens, n) + (if i < n && a.alive { 1int } else { 0int }),
    decreases n,
{
    if n > 0 {
        lemma_alive_prefix_update(aliens, i, a, n - 1);
    }
}

/// Each alien counts once, exactly while it is alive: replacing one alien
/// changes the count by what its `alive` flag changes (killing an alive
/// alien lowers the count by one), and the count never exceeds the aliens.
pub proof fn law_alive_count_tracks_each_alien(aliens: Seq<Alien>, i: int, a: Alien)
    requires
        0 <= i < aliens.len(),
    ensures
        spec_alive_count(aliens.update(i, a)) + (if aliens[i].alive { 1int } else { 0int }) == spec_alive_count(
            aliens,
        ) + (if a.alive { 1int } else { 0int }),
        spec_alive_count(aliens) <= aliens.len(),
{
    lemma_alive_prefix_update(aliens, i, a, aliens.len() as int);
    lemma_alive_prefix_count_bound(aliens, aliens.len() as int);
}

/// How many aliens are alive.
pub fn alive_count<P>(state: &GameState<P>) -> (count: usize)
    ensures
        count == spec_alive_count(state.aliens@),
{
    let n = state.aliens.len();
    let mut count: usize = 0;
    for i in 0..n
        invariant
            n == state.aliens@.len(),
            count == alive_prefix_count(state.aliens@, i as int),
    {
        proof {
            lemma_alive_prefix_count_bound(state.aliens@, i as int);
        }
        if state.aliens[i].alive {
            count = count + 1;
        }
    }
    count
}

} // verus!

//! Shooting, collisions, explosions and the marching grid.
//!
//! Where geometry decides something (is the bullet inside an
//! alien's hit box? has a bullet left the screen?), the caller computes that
//! outcome for each entity and passes it in; these functions do everything
//! else: which entity it applies to, and what changes.

use vstd::prelude::*;
use crate::game::state::{
    Alien, AlienBullet, Bullet, EXPLOSION_FRAMES, GROUND_EXPLOSION_FRAMES, GamePhase, GameState,
    GridMotion, GroundExplosion, all_aliens_dead, spec_all_dead, spec_ground_explosion,
};

verus! {

/// Fire a bullet from the ship's current position.
/// Does nothing if a bullet is already in flight.
pub fn fire<P: Copy>(state: &mut GameState<P>)
    requires
        old(state).bullet is None ==> old(state).ufo_shot_counter < u32::MAX,
    ensures
        old(state).bullet is None ==> *final(state) == (GameState {
            bullet: Some(Bullet { x: old(state).ship.x, y: old(state).ship.y }),
            ufo_shot_counter: (old(state).ufo_shot_counter + 1) as u32,
            ..*old(state)
        }),
        old(state).bullet is Some ==> *final(state) == *old(state),
{
    if state.bullet.is_none() {
        state.bullet = Some(Bullet { x: state.ship.x, y: state.ship.y });
        state.ufo_shot_counter = state.ufo_shot_counter + 1;
    }
}

/// Advance the bullet upward. `stepped_y` is the bullet's height after one
/// step; `above_top` tells whether that height is above the top boundary, in
/// which case the bullet is cleared.
pub fn step_bullet<P: Copy>(state: &mut GameState<P>, stepped_y: P, above_top: bool)
    ensures
        old(state).bullet is None ==> *final(state) == *old(state),
        old(state).bullet matches Some(b) ==> *final(state) == (GameState {
            bullet: if above_top { None } else { Some(Bullet { x: b.x, y: stepped_y }) },
            ..*old(state)
        }),
{
    if let Some(b) = state.bullet {
        if above_top {
            state.bullet = None;
        } else {
            state.bullet = Some(Bullet { x: b.x, y: stepped_y });
        }
    }
}

/// The first alive alien, at or after `start`, whose hit box holds the bullet.
pub open spec fn first_hit_from(aliens: Seq<Alien>, in_hit_box: Seq<bool>, start: int) -> Option<int>
    decreases aliens.len() - start,
{
    if start >= aliens.len() || start < 0 {
        None
    } else if aliens[start].alive && in_hit_box[start] {
        Some(start)
    } else {
        first_hit_from(aliens, in_hit_box, start + 1)
    }
}

/// The alien a bullet kills: the first alive one whose hit box holds it.
pub open spec fn first_hit(aliens: Seq<Alien>, in_hit_box: Seq<bool>) -> Option<int> {
    first_hit_from(aliens, in_hit_box, 0)
}

/// What `first_hit_from` finds: the first alive alien at or after `start`
/// whose hit box holds the bullet.
proof fn lemma_first_hit_from(aliens: Seq<Alien>, in_hit_box: Seq<bool>, start: int)
    requires
        0 <= start,
    ensures
        first_hit_from(aliens, in_hit_box, start) matches Some(i) ==> {
            &&& start <= i < aliens.len()
            &&& aliens[i].alive && in_hit_box[i]
            &&& forall|k: int| start <= k < i ==> !(aliens[k].alive && in_hit_box[k])
        },
        first_hit_from(aliens, in_hit_box, start) is None ==> forall|k: int|
            start <= k < aliens.len() ==> !(aliens[k].alive && in_hit_box[k]),
    decreases aliens.len() - start,
{
    if start < aliens.len() && !(aliens[start].alive && in_hit_box[start]) {
        lemma_first_hit_from(aliens, in_hit_box, start + 1);
    }
}

/// A bullet kills an alien: it is marked dead with its explosion started.
pub open spec fn killed(a: Alien) -> Alien {
    Alien { alive: false, explosion_timer: EXPLOSION_FRAMES, ..a }
}

/// Check whether the player bullet has hit an alive alien.
/// `in_hit_box[i]` tells whether the bullet lies inside alien `i`'s hit box.
/// On a hit: the alien is marked dead, the bullet is cleared, and score is incremented.
/// Only the first hit alien is processed per call (one bullet = one kill).
pub fn check_bullet_hit<P: Copy>(state: &mut GameState<P>, in_hit_box: &Vec<bool>)
    requires
        in_hit_box@.len() == old(state).aliens@.len(),
        old(state).bullet is Some && first_hit(old(state).aliens@, in_hit_box@) is Some
            ==> old(state).score < u32::MAX,
    ensures
        old(state).bullet is None || first_hit(old(state).aliens@, in_hit_box@) is None
            ==> *final(state) == *old(state),
        old(state).bullet is Some ==> (first_hit(old(state).aliens@, in_hit_box@) matches Some(i)
            ==> {
            &&& final(state).aliens@ == old(state).aliens@.update(i, killed(old(state).aliens@[i]))
            &&& *final(state) == (GameState {
                aliens: final(state).aliens,
                bullet: None,
                score: (old(state).score + 1) as u32,
                ..*old(state)
            })
        }),
{
    if state.bullet.is_none() {
        return;
    }
    let n = state.aliens.len();
    proof {
        lemma_first_hit_from(state.aliens@, in_hit_box@, 0);
    }
    for i in 0..n
        invariant
            n == state.aliens@.len(),
            in_hit_box@.len() == n,
            state == old(state),
            old(state).bullet is Some,
            first_hit(old(state).aliens@, in_hit_box@) is Some ==> old(state).score < u32::MAX,
            first_hit(state.aliens@, in_hit_box@) == first_hit_from(state.aliens@, in_hit_box@, i as int),
    {
        proof {
            lemma_first_hit_from(state.aliens@, in_hit_box@, i as int);
        }
        let a = state.aliens[i];
        if a.alive && in_hit_box[i] {
            state.aliens.set(i, Alien { alive: false, explosion_timer: EXPLOSION_FRAMES, ..a });
            state.bullet = None;
            state.score = state.score + 1;
            return;
        }
    }
}

/// One frame of an alien's explosion: dead aliens with a running timer count down.
pub open spec fn explosion_ticked(a: Alien) -> Alien {
    if !a.alive && a.explosion_timer > 0 {
        Alien { explosion_timer: (a.explosion_timer - 1) as u8, ..a }
    } else {
        a
    }
}

/// Tick down explosion timers on dead aliens.
/// Only decrements when the alien is dead (`!alive`) and has a non-zero timer.
pub fn tick_explosions<P>(state: &mut GameState<P>)
    ensures
        final(state).aliens@ == old(state).aliens@.map_values(|a: Alien| explosion_ticked(a)),
        *final(state) == (GameState { aliens: final(state).aliens, ..*old(state) }),
{
    let n = state.aliens.len();
    for i in 0..n
        invariant
            n == state.aliens@.len(),
            n == old(state).aliens@.len(),
            forall|k: int| 0 <= k < i ==> state.aliens@[k] == explosion_ticked(#[trigger] old(state).aliens@[k]),
            forall|k: int| i <= k < n ==> state.aliens@[k] == #[trigger] old(state).aliens@[k],
            *state == (GameState { aliens: state.aliens, ..*old(state) }),
    {
        let a = state.aliens[i];
        if !a.alive && a.explosion_timer > 0 {
            state.aliens.set(i, Alien { explosion_timer: a.explosion_timer - 1, ..a });
        }
    }
    assert(state.aliens@ =~= old(state).aliens@.map_values(|a: Alien| explosion_ticked(a)));
}

/// The alien that fires for column `col` among the first `n` aliens: the
/// alive one in that column lowest on screen (highest row); among equally
/// low ones, the last in the list.
pub open spec fn lowest_in_col_prefix(aliens: Seq<Alien>, col: u32, n: int) -> Option<int>
    decreases n,
{
    if n <= 0 {
        None
    } else {
        let prev = lowest_in_col_prefix(aliens, col, n - 1);
        let a = aliens[n - 1];
        if a.alive && a.col == col && (prev matches Some(p) ==> aliens[p].row <= a.row) {
            Some(n - 1)
        } else {
            prev
        }
    }
}

/// The alive alien lowest on screen in column `col`, if any.
pub open spec fn lowest_in_col(aliens: Seq<Alien>, col: u32) -> Option<int> {
    lowest_in_col_prefix(aliens, col, aliens.len() as int)
}

/// The alien picked for a column is alive, stands in that column and is at
/// least as low as every other alive alien of the column; when none is
/// picked, the column has no alive alien.
pub proof fn law_lowest_in_col(aliens: Seq<Alien>, col: u32, n: int)
    requires
        0 <= n <= aliens.len(),
    ensures
        lowest_in_col_prefix(aliens, col, n) matches Some(k) ==> {
            &&& 0 <= k < n
            &&& aliens[k].alive
            &&& aliens[k].col == col
            &&& forall|j: int| 0 <= j < n && aliens[j].alive && aliens[j].col == col ==> #[trigger] aliens[j].row <= aliens[k].row
        },
        lowest_in_col_prefix(aliens, col, n) is None ==> forall|j: int|
            0 <= j < n ==> !(#[trigger] aliens[j].alive && aliens[j].col == col),
    decreases n,
{
    if n > 0 {
        law_lowest_in_col(aliens, col, n - 1);
    }
}

/// Fire an alien bullet from the lowest alive alien in `col`.
/// `spawn_x[i]`, `spawn_y[i]` are where a bullet fired by alien `i` starts.
/// Does nothing if `state.max_alien_bullets` are already in flight or no alive alien occupies that column.
pub fn fire_alien_bullet<P: Copy>(state: &mut GameState<P>, col: u32, spawn_x: &Vec<P>, spawn_y: &Vec<P>)
    requires
        spawn_x@.len() == old(state).aliens@.len(),
        spawn_y@.len() == old(state).aliens@.len(),
    ensures
        // never more bullets in flight than the level allows
        old(state).alien_bullets@.len() <= old(state).max_alien_bullets
            ==> final(state).alien_bullets@.len() <= final(state).max_alien_bullets,
        old(state).alien_bullets@.len() >= old(state).max_alien_bullets ==> *final(state) == *old(state),
        old(state).alien_bullets@.len() < old(state).max_alien_bullets ==> match lowest_in_col(old(state).aliens@, col) {
            None => *final(state) == *old(state),
            Some(k) => {
                &&& final(state).alien_bullets@ == old(state).alien_bullets@.push(
                    AlienBullet { x: spawn_x@[k], y: spawn_y@[k], kind: old(state).aliens@[k].sprite },
                )
                &&& *final(state) == (GameState { alien_bullets: final(state).alien_bullets, ..*old(state) })
            },
        },
{
    if state.alien_bullets.len() >= state.max_alien_bullets {
        return;
    }
    let n = state.aliens.len();
    let mut lowest: Option<usize> = None;
    for i in 0..n
        invariant
            n == state.aliens@.len(),
            state == old(state),
            lowest matches Some(k) ==> k < i,
            lowest_in_col_prefix(state.aliens@, col, i as int) == match lowest {
                Some(k) => Some(k as int),
                None => None,
            },
    {
        let a = state.aliens[i];
        if a.alive && a.col == col {
            match lowest {
                None => {
                    lowest = Some(i);
                },
                Some(k) => {
                    if state.aliens[k].row <= a.row {
                        lowest = Some(i);
                    }
                },
            }
        }
    }
    if let Some(k) = lowest {
        let kind = state.aliens[k].sprite;
        state.alien_bullets.push(AlienBullet { x: spawn_x[k], y: spawn_y[k], kind });
    }
}

/// The bullets still in flight among the first `n`, each at its stepped height.
pub open spec fn surviving_bullets<P>(
    bullets: Seq<AlienBullet<P>>,
    stepped_y: Seq<P>,
    past_floor: Seq<bool>,
    n: int,
) -> Seq<AlienBullet<P>>
    decreases n,
{
    if n <= 0 {
        Seq::empty()
    } else {
        surviving_bullets(bullets, stepped_y, past_floor, n - 1) + if past_floor[n - 1] {
            Seq::empty()
        } else {
            seq![AlienBullet { y: stepped_y[n - 1], ..bullets[n - 1] }]
        }
    }
}

/// The ground explosions spawned by the first `n` bullets: one, at the floor,
/// for each bullet that passed the floor and whose kind explodes on the ground.
pub open spec fn floor_explosions<P>(
    bullets: Seq<AlienBullet<P>>,
    past_floor: Seq<bool>,
    floor: P,
    n: int,
) -> Seq<GroundExplosion<P>>
    decreases n,
{
    if n <= 0 {
        Seq::empty()
    } else {
        floor_explosions(bullets, past_floor, floor, n - 1) + if past_floor[n - 1]
            && spec_ground_explosion(bullets[n - 1].kind) {
            seq![GroundExplosion { x: bullets[n - 1].x, y: floor, timer: GROUND_EXPLOSION_FRAMES }]
        } else {
            Seq::empty()
        }
    }
}

/// Advance all alien bullets downward at their per-kind speed.
/// `stepped_y[i]` is bullet `i`'s height after its step and `past_floor[i]`
/// whether that is below the floor at height `floor`.
/// Bullets past the floor are removed; those whose kind has
/// `ground_explosion = true` also spawn a GroundExplosion on exit.
pub fn step_alien_bullets<P: Copy>(
    state: &mut GameState<P>,
    stepped_y: &Vec<P>,
    past_floor: &Vec<bool>,
    floor: P,
)
    requires
        stepped_y@.len() == old(state).alien_bullets@.len(),
        past_floor@.len() == old(state).alien_bullets@.len(),
    ensures
        final(state).alien_bullets@ == surviving_bullets(
            old(state).alien_bullets@,
            stepped_y@,
            past_floor@,
            old(state).alien_bullets@.len() as int,
        ),
        // bullets only ever leave
        final(state).alien_bullets@.len() <= old(state).alien_bullets@.len(),
        // exactly the bullets not past the floor stay
        final(state).alien_bullets@.len() == clear_count(past_floor@, past_floor@.len() as int),
        final(state).ground_explosions@ == old(state).ground_explosions@ + floor_explosions(
            old(state).alien_bullets@,
            past_floor@,
            floor,
            old(state).alien_bullets@.len() as int,
        ),
        *final(state) == (GameState {
            alien_bullets: final(state).alien_bullets,
            ground_explosions: final(state).ground_explosions,
            ..*old(state)
        }),
{
    let n = state.alien_bullets.len();
    let mut kept: Vec<AlienBullet<P>> = Vec::new();
    for i in 0..n
        invariant
            n == old(state).alien_bullets@.len(),
            stepped_y@.len() == n,
            past_floor@.len() == n,
            state.alien_bullets@ == old(state).alien_bullets@,
            kept@ == surviving_bullets(old(state).alien_bullets@, stepped_y@, past_floor@, i as int),
            state.ground_explosions@ == old(state).ground_explosions@ + floor_explosions(
                old(state).alien_bullets@,
                past_floor@,
                floor,
                i as int,
            ),
            *state == (GameState { ground_explosions: state.ground_explosions, ..*old(state) }),
    {
        let b = state.alien_bullets[i];
        if past_floor[i] {
            if b.kind.bullet_profile().ground_explosion {
                state.ground_explosions.push(
                    GroundExplosion { x: b.x, y: floor, timer: GROUND_EXPLOSION_FRAMES },
                );
            }
        } else {
            kept.push(AlienBullet { y: stepped_y[i], ..b });
        }
        assert(kept@ =~= surviving_bullets(old(state).alien_bullets@, stepped_y@, past_floor@, i + 1));
        assert(state.ground_explosions@ =~= old(state).ground_explosions@ + floor_explosions(
            old(state).alien_bullets@,
            past_floor@,
            floor,
            i + 1,
        ));
    }
    proof {
        lemma_surviving_bullets_len(old(state).alien_bullets@, stepped_y@, past_floor@, n as int);
        law_surviving_bullets(old(state).alien_bullets@, stepped_y@, past_floor@, n as int);
    }
    state.alien_bullets = kept;
}

/// Stepping bullets never adds any.
proof fn lemma_surviving_bullets_len<P>(
    bullets: Seq<AlienBullet<P>>,
    stepped_y: Seq<P>,
    past_floor: Seq<bool>,
    n: int,
)
    requires
        n >= 0,
    ensures
        surviving_bullets(bullets, stepped_y, past_floor, n).len() <= n,
    decreases n,
{
    if n > 0 {
        lemma_surviving_bullets_len(bullets, stepped_y, past_floor, n - 1);
    }
}

/// The ground explosions among the first `n` still showing after one more frame.
pub open spec fn ticked_ground_explosions<P>(explosions: Seq<GroundExplosion<P>>, n: int) -> Seq<GroundExplosion<P>>
    decreases n,
{
    if n <= 0 {
        Seq::empty()
    } else {
        ticked_ground_explosions(explosions, n - 1) + if explosions[n - 1].timer > 1 {
            seq![GroundExplosion { timer: (explosions[n - 1].timer - 1) as u8, ..explosions[n - 1] }]
        } else {
            Seq::empty()
        }
    }
}

/// Tick down ground explosion timers; remove expired ones.
pub fn tick_ground_explosions<P: Copy>(state: &mut GameState<P>)
    ensures
        final(state).ground_explosions@ == ticked_ground_explosions(
            old(state).ground_explosions@,
            old(state).ground_explosions@.len() as int,
        ),
        *final(state) == (GameState { ground_explosions: final(state).ground_explosions, ..*old(state) }),
{
    let n = state.ground_explosions.len();
    let mut kept: Vec<GroundExplosion<P>> = Vec::new();
    for i in 0..n
        invariant
            n == old(state).ground_explosions@.len(),
            *state == *old(state),
            kept@ == ticked_ground_explosions(old(state).ground_explosions@, i as int),
    {
        let ge = state.ground_explosions[i];
        let timer = ge.timer.saturating_sub(1);
        if timer > 0 {
            kept.push(GroundExplosion { timer, ..ge });
        }
        assert(kept@ =~= ticked_ground_explosions(old(state).ground_explosions@, i + 1));
    }
    state.ground_explosions = kept;
}

/// The first index from `start` on whose flag is set.
pub open spec fn first_true_from(flags: Seq<bool>, start: int) -> Option<int>
    decreases flags.len() - start,
{
    if start >= flags.len() || start < 0 {
        None
    } else if flags[start] {
        Some(start)
    } else {
        first_true_from(flags, start + 1)
    }
}

/// What `first_true_from` finds: the first set flag at or after `start`.
proof fn lemma_first_true_from(flags: Seq<bool>, start: int)
    requires
        0 <= start,
    ensures
        first_true_from(flags, start) matches Some(i) ==> start <= i < flags.len() && flags[i]
            && forall|k: int| start <= k < i ==> !flags[k],
        first_true_from(flags, start) is None ==> forall|k: int| start <= k < flags.len() ==> !flags[k],
    decreases flags.len() - start,
{
    if start < flags.len() && !flags[start] {
        lemma_first_true_from(flags, start + 1);
    }
}

/// Check whether any alien bullet overlaps the ship; `overlaps[i]` tells
/// whether bullet `i` does.
/// On a hit: `lives` is decremented (saturating), the hitting bullet is removed,
/// and the game is over once no lives remain.
/// Only one hit is processed per call (one impact per frame).
pub fn check_alien_hit_ship<P: Copy>(state: &mut GameState<P>, overlaps: &Vec<bool>)
    requires
        overlaps@.len() == old(state).alien_bullets@.len(),
    ensures
        first_true_from(overlaps@, 0) is None ==> *final(state) == *old(state),
        first_true_from(overlaps@, 0) matches Some(i) ==> {
            let lives = if old(state).lives == 0 { 0u32 } else { (old(state).lives - 1) as u32 };
            &&& final(state).alien_bullets@ == old(state).alien_bullets@.remove(i)
            &&& *final(state) == (GameState {
                alien_bullets: final(state).alien_bullets,
                lives: lives,
                phase: if lives == 0 { GamePhase::GameOver } else { old(state).phase },
                ..*old(state)
            })
        },
{
    let n = overlaps.len();
    proof {
        lemma_first_true_from(overlaps@, 0);
    }
    let mut i: usize = 0;
    while i < n && !overlaps[i]
        invariant
            n == overlaps@.len(),
            i <= n,
            first_true_from(overlaps@, 0) == first_true_from(overlaps@, i as int),
        decreases n - i,
    {
        proof {
            lemma_first_true_from(overlaps@, i as int);
        }
        i = i + 1;
    }
    proof {
        lemma_first_true_from(overlaps@, i as int);
    }
    let hit: Option<usize> = if i < n { Some(i) } else { None };
    if let Some(idx) = hit {
        state.alien_bullets.remove(idx);
        state.lives = state.lives.saturating_sub(1);
        if state.lives == 0 {
            state.phase = GamePhase::GameOver;
        }
    }
}

/// The alien lowest on screen among the first `n` alive ones: the highest
/// row; among equally low ones, the last in the list.
pub open spec fn lowest_alive_prefix(aliens: Seq<Alien>, n: int) -> Option<int>
    decreases n,
{
    if n <= 0 {
        None
    } else {
        let prev = lowest_alive_prefix(aliens, n - 1);
        let a = aliens[n - 1];
        if a.alive && (prev matches Some(p) ==> aliens[p].row <= a.row) {
            Some(n - 1)
        } else {
            prev
        }
    }
}

/// The alive alien lowest on screen, if any.
pub open spec fn lowest_alive(aliens: Seq<Alien>) -> Option<int> {
    lowest_alive_prefix(aliens, aliens.len() as int)
}

/// The lowest alive alien is alive and no alive alien is lower; when there is
/// none, no alien is alive.
pub proof fn law_lowest_alive(aliens: Seq<Alien>, n: int)
    requires
        0 <= n <= aliens.len(),
    ensures
        lowest_alive_prefix(aliens, n) matches Some(k) ==> {
            &&& 0 <= k < n
            &&& aliens[k].alive
            &&& forall|j: int| 0 <= j < n && aliens[j].alive ==> #[trigger] aliens[j].row <= aliens[k].row
        },
        lowest_alive_prefix(aliens, n) is None ==> forall|j: int| 0 <= j < n ==> !(#[trigger] aliens[j].alive),
    decreases n,
{
    if n > 0 {
        law_lowest_alive(aliens, n - 1);
    }
}

/// Check whether the lowest surviving alien has descended to the ship's level (invasion).
/// `reaches_ship[i]` tells whether the bottom edge of alien `i`'s row, at the
/// grid's current drop, is at or below the ship.
/// Only the lowest alive alien's row is checked. Does nothing if no aliens are alive.
pub fn check_invasion<P>(state: &mut GameState<P>, reaches_ship: &Vec<bool>)
    requires
        reaches_ship@.len() == old(state).aliens@.len(),
    ensures
        (lowest_alive(old(state).aliens@) matches Some(k) && reaches_ship@[k])
            ==> *final(state) == (GameState { phase: GamePhase::GameOver, ..*old(state) }),
        !(lowest_alive(old(state).aliens@) matches Some(k) && reaches_ship@[k])
            ==> *final(state) == *old(state),
{
    let n = state.aliens.len();
    let mut lowest: Option<usize> = None;
    for i in 0..n
        invariant
            n == state.aliens@.len(),
            state == old(state),
            lowest matches Some(k) ==> k < i,
            lowest_alive_prefix(state.aliens@, i as int) == match lowest {
                Some(k) => Some(k as int),
                None => None,
            },
    {
        let a = state.aliens[i];
        if a.alive {
            match lowest {
                None => {
                    lowest = Some(i);
                },
                Some(k) => {
                    if state.aliens[k].row <= a.row {
                        lowest = Some(i);
                    }
                },
            }
        }
    }
    if let Some(k) = lowest {
        if reaches_ship[k] {
            state.phase = GamePhase::GameOver;
        }
    }
}

/// The frame counter after one more frame (wrapping).
pub open spec fn next_tick(tick: u32) -> u32 {
    if tick == u32::MAX { 0 } else { (tick + 1) as u32 }
}

/// The grid moves this frame: some alien is alive and the frame counter,
/// once advanced, is a multiple of the tick interval.
pub open spec fn grid_moves<P>(state: GameState<P>, tick_interval: u32) -> bool {
    !spec_all_dead(state.aliens@) && next_tick(state.grid.tick) % tick_interval == 0
}

/// Advance the alien grid one step in its current direction.
/// `tick_interval` is the number of frames between moves for the current
/// number of alive aliens, `moved_x` the horizontal offset one step further in
/// the current direction, and `hits_wall` whether that offset reaches the
/// edge of the play area. At the edge the grid instead reverses direction and
/// drops down by one row without moving horizontally (the row count stops
/// at `u32::MAX`, far below any screen).
/// Does nothing if no aliens are alive.
pub fn step_grid<P: Copy>(state: &mut GameState<P>, tick_interval: u32, moved_x: P, hits_wall: bool)
    requires
        !spec_all_dead(old(state).aliens@) ==> tick_interval > 0,
        grid_moves(*old(state), tick_interval) && hits_wall ==> old(state).grid.direction != i8::MIN,
    ensures
        // the grid only ever drops, and keeps marching left or right
        final(state).grid.offset_rows >= old(state).grid.offset_rows,
        old(state).grid.direction == 1 || old(state).grid.direction == -1 ==> final(state).grid.direction == 1
            || final(state).grid.direction == -1,
        spec_all_dead(old(state).aliens@) ==> *final(state) == *old(state),
        !spec_all_dead(old(state).aliens@) && !grid_moves(*old(state), tick_interval) ==> *final(state) == (GameState {
            grid: GridMotion { tick: next_tick(old(state).grid.tick), ..old(state).grid },
            ..*old(state)
        }),
        grid_moves(*old(state), tick_interval) && hits_wall ==> *final(state) == (GameState {
            grid: GridMotion {
                tick: next_tick(old(state).grid.tick),
                anim_frame: !old(state).grid.anim_frame,
                direction: (-old(state).grid.direction) as i8,
                offset_rows: if old(state).grid.offset_rows == u32::MAX {
                    u32::MAX
                } else {
                    (old(state).grid.offset_rows + 1) as u32
                },
                ..old(state).grid
            },
            ..*old(state)
        }),
        grid_moves(*old(state), tick_interval) && !hits_wall ==> *final(state) == (GameState {
            grid: GridMotion {
                tick: next_tick(old(state).grid.tick),
                anim_frame: !old(state).grid.anim_frame,
                offset_x: moved_x,
                ..old(state).grid
            },
            ..*old(state)
        }),
{
    if all_aliens_dead(state) {
        return;
    }
    state.grid.tick = state.grid.tick.wrapping_add(1);
    if state.grid.tick % tick_interval != 0 {
        return;
    }
    state.grid.anim_frame = !state.grid.anim_frame;
    if hits_wall {
        state.grid.direction = -state.grid.direction;
        state.grid.offset_rows = state.grid.offset_rows.saturating_add(1);
    } else {
        state.grid.offset_x = moved_x;
    }
}

/// How many of the first `n` flags are clear.
pub open spec fn clear_count(flags: Seq<bool>, n: int) -> nat
    decreases n,
{
    if n <= 0 {
        0
    } else {
        clear_count(flags, n - 1) + if flags[n - 1] { 0nat } else { 1nat }
    }
}

proof fn lemma_clear_count_grows(flags: Seq<bool>, i: int, n: int)
    requires
        0 <= i <= n,
    ensures
        clear_count(flags, i) <= clear_count(flags, n),
    decreases n - i,
{
    if i < n {
        lemma_clear_count_grows(flags, i, n - 1);
    }
}

/// A step keeps exactly the bullets that have not passed the floor, whatever
/// their kind: as many as there are clear flags, and bullet `i`, when its flag
/// is clear, is the survivor numbered by the clear flags before it, at its
/// stepped height and otherwise unchanged.
pub proof fn law_surviving_bullets<P>(
    bullets: Seq<AlienBullet<P>>,
    stepped_y: Seq<P>,
    past_floor: Seq<bool>,
    n: int,
)
    requires
        0 <= n <= bullets.len(),
        n <= stepped_y.len(),
        n <= past_floor.len(),
    ensures
        surviving_bullets(bullets, stepped_y, past_floor, n).len() == clear_count(past_floor, n),
        forall|i: int|
            0 <= i < n && !past_floor[i] ==> #[trigger] surviving_bullets(bullets, stepped_y, past_floor, n)[clear_count(
                past_floor,
                i,
            ) as int] == (AlienBullet { x: bullets[i].x, y: stepped_y[i], kind: bullets[i].kind }),
    decreases n,
{
    if n > 0 {
        law_surviving_bullets(bullets, stepped_y, past_floor, n - 1);
        let prev = surviving_bullets(bullets, stepped_y, past_floor, n - 1);
        let cur = surviving_bullets(bullets, stepped_y, past_floor, n);
        assert forall|i: int| 0 <= i < n && !past_floor[i] implies #[trigger] cur[clear_count(past_floor, i) as int]
            == (AlienBullet { x: bullets[i].x, y: stepped_y[i], kind: bullets[i].kind }) by {
            if i < n - 1 {
                lemma_clear_count_grows(past_floor, i + 1, n - 1);
                assert(cur[clear_count(past_floor, i) as int] == prev[clear_count(past_floor, i) as int]);
            }
        }
    }
}

} // verus!

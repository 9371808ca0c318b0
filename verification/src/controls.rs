//! The per-frame decisions driven by the keyboard outside of moment-to-moment
//! play: starting, pausing, quitting, the high score screen and name entry.

use vstd::prelude::*;
use vstd::string::StrSliceExecFns;
use crate::game::levels::{quit_game, reset_game, spec_reset};
use crate::game::phase::{
    begin_name_entry, byte_len, close_scoreboard, handle_name_backspace, handle_name_char,
    is_ascii_graphic, name_char_accepted, open_scoreboard, pause_game, paused, scoreboard_closed,
    scoreboard_opened, submit_name,
};
use crate::game::state::{GAME_OVER_PAUSE, GRID_COLS, GamePhase, GameState, MAX_NAME_LEN};
use vstd::utf8::encode_utf8;
use crate::scoreboard::{EntryView, Scoreboard, score_qualifies, table_after_insert};
use crate::strings::{str_eq, string_clear};

verus! {

/// Which of the action keys (Space, P, Q, S, H) are involved.
#[derive(Clone, Copy, Debug, PartialEq, Eq, Structural)]
pub struct ActionKeys {
    pub space: bool,
    pub p: bool,
    pub q: bool,
    pub s: bool,
    pub h: bool,
}

/// Remembers which action keys were held on the previous frame, so that a
/// held key acts once, on the frame it goes down.
#[derive(Clone, Copy, Debug, PartialEq, Eq, Structural)]
pub struct KeyLatch {
    pub was_held: ActionKeys,
}

impl KeyLatch {
    pub fn new() -> (latch: Self)
        ensures
            latch.was_held == (ActionKeys { space: false, p: false, q: false, s: false, h: false }),
    {
        KeyLatch { was_held: ActionKeys { space: false, p: false, q: false, s: false, h: false } }
    }

    /// The keys pressed this frame (held now, not held on the previous
    /// frame); the latch then remembers `held` for the next frame.
    pub fn presses(&mut self, held: ActionKeys) -> (pressed: ActionKeys)
        ensures
            pressed == (ActionKeys {
                space: held.space && !old(self).was_held.space,
                p: held.p && !old(self).was_held.p,
                q: held.q && !old(self).was_held.q,
                s: held.s && !old(self).was_held.s,
                h: held.h && !old(self).was_held.h,
            }),
            final(self).was_held == held,
    {
        let prev = self.was_held;
        self.was_held = held;
        ActionKeys {
            space: held.space && !prev.space,
            p: held.p && !prev.p,
            q: held.q && !prev.q,
            s: held.s && !prev.s,
            h: held.h && !prev.h,
        }
    }
}

/// What the caller must do after the action keys were handled.
#[derive(Clone, Copy, Debug, PartialEq, Eq, Structural)]
pub struct MenuActions {
    /// Resume audio output (the first Space press unlocks audio).
    pub resume_audio: bool,
    /// Flip the sound on/off.
    pub toggle_sound: bool,
}

/// The phase after Space: a new game from the attract screen; after the
/// game-over pause, name entry if the score makes the table, else the
/// attract screen.
pub open spec fn phase_after_space<P>(state: GameState<P>, table: Seq<EntryView>) -> GamePhase {
    match state.phase {
        GamePhase::Attract => GamePhase::Playing,
        GamePhase::GameOver => if state.game_over_timer >= GAME_OVER_PAUSE {
            if score_qualifies(table, state.score) {
                GamePhase::NameEntry
            } else {
                GamePhase::Attract
            }
        } else {
            GamePhase::GameOver
        },
        _ => state.phase,
    }
}

/// What Space does to the state: a fresh game from the attract screen; after
/// the game-over pause, name entry (with an empty name) if the score makes
/// the table, else the attract screen; nothing otherwise.
pub open spec fn space_step<P>(s0: GameState<P>, s1: GameState<P>, table: Seq<EntryView>, ship_x: P, zero: P) -> bool {
    match s0.phase {
        GamePhase::Attract => spec_reset(s0, s1, ship_x, zero),
        GamePhase::GameOver => if s0.game_over_timer >= GAME_OVER_PAUSE {
            if score_qualifies(table, s0.score) {
                &&& s1.name_input@.len() == 0
                &&& s1 == (GameState { phase: GamePhase::NameEntry, name_input: s1.name_input, ..s0 })
            } else {
                s1 == (GameState { phase: GamePhase::Attract, ..s0 })
            }
        } else {
            s1 == s0
        },
        _ => s1 == s0,
    }
}

/// What H does: open the high scores from the attract screen, close them
/// from the high scores; nothing otherwise.
pub open spec fn h_step<P>(s: GameState<P>) -> GameState<P> {
    if s.phase == GamePhase::Attract {
        scoreboard_opened(s)
    } else {
        scoreboard_closed(s)
    }
}

/// The frame's keys taken in order from `s0` to `s4`, with `s1` the state
/// after Space: Space, then H, then — unless a name is being typed — P and Q.
pub open spec fn menu_path<P>(
    s0: GameState<P>,
    s1: GameState<P>,
    s4: GameState<P>,
    table: Seq<EntryView>,
    pressed: ActionKeys,
    ship_x: P,
    zero: P,
) -> bool {
    let s2 = if pressed.h { h_step(s1) } else { s1 };
    let typing = s2.phase == GamePhase::NameEntry;
    let s3 = if pressed.p && !typing { paused(s2) } else { s2 };
    &&& if pressed.space { space_step(s0, s1, table, ship_x, zero) } else { s1 == s0 }
    &&& if pressed.q && !typing {
        &&& spec_reset(s3, GameState { phase: GamePhase::Playing, ..s4 }, ship_x, zero)
        &&& s4.phase == GamePhase::Attract
    } else {
        s4 == s3
    }
}

/// Handle the action keys pressed this frame, in order: Space (start, or
/// leave the game-over screen), H (open or close the high scores), then — unless
/// the player is typing a name, when these letters are name characters —
/// P (pause/resume), Q (quit to the attract screen) and S (sound on/off).
/// `audio_resumed` tells whether audio has already been unlocked; `ship_x`
/// and `zero` are what a new game starts with.
pub fn handle_menu_keys<P: Copy>(
    state: &mut GameState<P>,
    board: &Scoreboard,
    pressed: ActionKeys,
    audio_resumed: bool,
    ship_x: P,
    zero: P,
) -> (actions: MenuActions)
    ensures
        exists|s1: GameState<P>| #[trigger] menu_path(*old(state), s1, *final(state), board@, pressed, ship_x, zero),
        actions.resume_audio == (pressed.space && !audio_resumed),
        actions.toggle_sound == (pressed.s && !({
            let after_space = if pressed.space { phase_after_space(*old(state), board@) } else { old(state).phase };
            let after_h = if pressed.h && after_space == GamePhase::Attract {
                GamePhase::Scoreboard
            } else if pressed.h && after_space == GamePhase::Scoreboard {
                GamePhase::Attract
            } else {
                after_space
            };
            after_h == GamePhase::NameEntry
        })),
        // nothing pressed: nothing happens
        !pressed.space && !pressed.h && !pressed.p && !pressed.q ==> *final(state) == *old(state),
        // Space alone on the attract screen starts a new game
        pressed.space && !pressed.h && !pressed.p && !pressed.q && old(state).phase == GamePhase::Attract
            ==> spec_reset(*old(state), *final(state), ship_x, zero),
        // Space alone after the game-over pause leaves the game-over screen
        pressed.space && !pressed.h && !pressed.p && !pressed.q && old(state).phase == GamePhase::GameOver
            && old(state).game_over_timer >= GAME_OVER_PAUSE ==> final(state).phase == phase_after_space(*old(state), board@)
            && final(state).score == old(state).score,
        // P alone toggles pause
        !pressed.space && !pressed.h && pressed.p && !pressed.q && old(state).phase == GamePhase::Playing
            ==> *final(state) == (GameState { phase: GamePhase::Paused, ..*old(state) }),
        !pressed.space && !pressed.h && pressed.p && !pressed.q && old(state).phase == GamePhase::Paused
            ==> *final(state) == (GameState { phase: GamePhase::Playing, ..*old(state) }),
        // Q alone, outside name entry, quits to the attract screen
        !pressed.space && !pressed.h && !pressed.p && pressed.q && old(state).phase != GamePhase::NameEntry
            ==> final(state).phase == GamePhase::Attract && final(state).score == 0,
        // H alone switches between the attract screen and the high scores
        !pressed.space && pressed.h && !pressed.p && !pressed.q && old(state).phase == GamePhase::Attract
            ==> *final(state) == (GameState { phase: GamePhase::Scoreboard, ..*old(state) }),
        !pressed.space && pressed.h && !pressed.p && !pressed.q && old(state).phase == GamePhase::Scoreboard
            ==> *final(state) == (GameState { phase: GamePhase::Attract, ..*old(state) }),
        // keys typed during name entry never pause or quit
        old(state).phase == GamePhase::NameEntry && !pressed.space && !pressed.h ==> *final(state) == *old(state),
{
    let ghost s0 = *state;
    if pressed.space {
        match state.phase {
            GamePhase::Attract => reset_game(state, ship_x, zero),
            GamePhase::GameOver => {
                if state.game_over_timer >= GAME_OVER_PAUSE {
                    if board.qualifies(state.score) {
                        begin_name_entry(state);
                    } else {
                        state.phase = GamePhase::Attract;
                    }
                }
            },
            _ => {},
        }
    }
    let ghost s1 = *state;
    if pressed.h {
        match state.phase {
            GamePhase::Attract => open_scoreboard(state),
            GamePhase::Scoreboard => close_scoreboard(state),
            _ => {},
        }
    }
    let accepting_text = state.phase == GamePhase::NameEntry;
    if pressed.p && !accepting_text {
        pause_game(state);
    }
    if pressed.q && !accepting_text {
        quit_game(state, ship_x, zero);
    }
    assert(menu_path(s0, s1, *state, board@, pressed, ship_x, zero));
    MenuActions { resume_audio: pressed.space && !audio_resumed, toggle_sound: pressed.s && !accepting_text }
}

/// ASCII letters 'a'–'z' in upper case; every other character unchanged.
pub open spec fn ascii_upper(ch: char) -> char {
    if 'a' <= ch && ch <= 'z' {
        (((ch as u8) - 32) as u8) as char
    } else {
        ch
    }
}

/// The state of name entry that a typed key acts on.
pub struct NameEntryView {
    pub phase: GamePhase,
    pub name: Seq<char>,
    pub table: Seq<EntryView>,
}

/// One typed key during name entry: Enter submits the name (a non-empty one
/// goes on the table), Escape leaves without saving, Backspace deletes the
/// last character, and a single-character key adds that character in upper case.
pub open spec fn name_key_step(m: NameEntryView, key: Seq<char>, score: u32, level: usize) -> NameEntryView {
    if key == "Enter"@ {
        NameEntryView {
            phase: GamePhase::Attract,
            name: m.name,
            table: if m.name.len() > 0 {
                table_after_insert(m.table, EntryView { name: m.name, score: score, level: ((level as u32) + 1) as u32 })
            } else {
                m.table
            },
        }
    } else if key == "Escape"@ {
        NameEntryView { phase: GamePhase::Attract, name: Seq::empty(), table: m.table }
    } else if key == "Backspace"@ {
        NameEntryView {
            name: if m.phase == GamePhase::NameEntry && m.name.len() > 0 { m.name.drop_last() } else { m.name },
            ..m
        }
    } else if byte_len(key) == 1 && key.len() > 0 {
        let ch = ascii_upper(key[0]);
        NameEntryView {
            name: if m.phase == GamePhase::NameEntry && byte_len(m.name) < 10 && is_ascii_graphic(ch) { m.name.push(ch) } else { m.name },
            ..m
        }
    } else {
        m
    }
}

/// Handle one key typed during name entry (see `name_key_step`). Returns
/// `true` when a name was put on the table, so the table should be saved.
pub fn handle_name_key<P>(state: &mut GameState<P>, board: &mut Scoreboard, key: &str) -> (saved: bool)
    requires
        old(board).wf(),
        key@ == "Enter"@ && old(state).name_input@.len() > 0 ==> (old(state).level as u32) < u32::MAX,
    ensures
        final(board).wf(),
        ({
            let m = name_key_step(
                NameEntryView { phase: old(state).phase, name: old(state).name_input@, table: old(board)@ },
                key@,
                old(state).score,
                old(state).level,
            );
            &&& final(state).phase == m.phase
            &&& final(state).name_input@ == m.name
            &&& final(board)@ == m.table
        }),
        saved == (key@ == "Enter"@ && old(state).name_input@.len() > 0),
        *final(state) == (GameState { phase: final(state).phase, name_input: final(state).name_input, ..*old(state) }),
{
    if str_eq(key, "Enter") {
        match submit_name(state) {
            Some(entry) => {
                board.insert(entry);
                true
            },
            None => false,
        }
    } else if str_eq(key, "Escape") {
        string_clear(&mut state.name_input);
        submit_name(state);
        false
    } else if str_eq(key, "Backspace") {
        handle_name_backspace(state);
        false
    } else if key.len() == 1 && key.unicode_len() > 0 {
        let ch = key.get_char(0);
        let upper = if ch >= 'a' && ch <= 'z' { ((ch as u8) - 32) as char } else { ch };
        handle_name_char(state, upper);
        false
    } else {
        false
    }
}

/// The UFO's flight tone should play: a UFO is flying (not exploding) and
/// the game is not over.
pub fn ufo_tone_wanted<P>(state: &GameState<P>) -> (wanted: bool)
    ensures
        wanted == (state.ufo matches Some(u) && u.explosion_timer == 0 && state.phase != GamePhase::GameOver),
{
    let flying = match &state.ufo {
        Some(u) => u.explosion_timer == 0,
        None => false,
    };
    flying && state.phase != GamePhase::GameOver
}

/// Aliens fire on every `fire_interval`-th frame, cycling through the
/// columns: the column that fires on `frame`, if any.
pub fn alien_fire_column(frame: u32, fire_interval: u32) -> (col: Option<u32>)
    requires
        fire_interval > 0,
    ensures
        frame % fire_interval == 0 ==> col == Some(((frame / fire_interval) % GRID_COLS) as u32),
        frame % fire_interval != 0 ==> col is None,
{
    if frame % fire_interval == 0 {
        Some((frame / fire_interval) % GRID_COLS)
    } else {
        None
    }
}

/// Typing a printable ASCII character during name entry, while the name is
/// shorter than `MAX_NAME_LEN` bytes, appends it (letters in upper case) and
/// changes nothing else: digits and punctuation are name characters too.
pub proof fn law_typed_character_is_added(m: NameEntryView, c: char, score: u32, level: usize)
    requires
        m.phase == GamePhase::NameEntry,
        byte_len(m.name) < MAX_NAME_LEN,
        '!' <= c && c <= '~',
    ensures
        name_key_step(m, seq![c], score, level) == (NameEntryView {
            phase: m.phase,
            name: m.name.push(if 'a' <= c && c <= 'z' { (((c as u8) - 32) as u8) as char } else { c }),
            table: m.table,
        }),
{
    reveal_strlit("Enter");
    reveal_strlit("Escape");
    reveal_strlit("Backspace");
    let key = seq![c];
    assert(key != "Enter"@ && key != "Escape"@ && key != "Backspace"@) by {
        assert("Enter"@.len() == 5);
        assert("Escape"@.len() == 6);
        assert("Backspace"@.len() == 9);
    }
    assert(key.drop_first() =~= Seq::<char>::empty());
    assert(encode_utf8(key.drop_first()) =~= Seq::<u8>::empty());
    assert(encode_utf8(key).len() == 1);
    assert(key[0] == c);
}

} // verus!

//! Phase changes driven by the player: pausing, the game-over timer, name
//! entry and the high score screen.

use vstd::prelude::*;
use vstd::utf8::{encode_scalar, encode_utf8};
use crate::game::state::{GamePhase, GameState, MAX_NAME_LEN};
use crate::scoreboard::ScoreEntry;
use crate::strings::{string_clear, string_pop, string_push};

verus! {

/// The state after P: Playing and Paused swap; every other phase ignores it.
pub open spec fn paused<P>(state: GameState<P>) -> GameState<P> {
    match state.phase {
        GamePhase::Playing => GameState { phase: GamePhase::Paused, ..state },
        GamePhase::Paused => GameState { phase: GamePhase::Playing, ..state },
        _ => state,
    }
}

/// Toggle pause: Playing → Paused or Paused → Playing.
/// Ignored in all other phases.
pub fn pause_game<P>(state: &mut GameState<P>)
    ensures
        *final(state) == paused(*old(state)),
{
    match state.phase {
        GamePhase::Playing => state.phase = GamePhase::Paused,
        GamePhase::Paused => state.phase = GamePhase::Playing,
        _ => {},
    }
}

/// Advance the game-over timer while in the GameOver phase. Saturates at u32::MAX.
/// Does nothing in any other phase.
pub fn tick_game_over<P>(state: &mut GameState<P>)
    ensures
        old(state).phase == GamePhase::GameOver ==> *final(state) == (GameState {
            game_over_timer: if old(state).game_over_timer == u32::MAX { u32::MAX } else { (old(state).game_over_timer + 1) as u32 },
            ..*old(state)
        }),
        old(state).phase != GamePhase::GameOver ==> *final(state) == *old(state),
{
    if state.phase == GamePhase::GameOver {
        state.game_over_timer = state.game_over_timer.saturating_add(1);
    }
}

/// Transition from GameOver into NameEntry, clearing any previous buffer.
pub fn begin_name_entry<P>(state: &mut GameState<P>)
    ensures
        final(state).name_input@.len() == 0,
        *final(state) == (GameState { phase: GamePhase::NameEntry, name_input: final(state).name_input, ..*old(state) }),
{
    string_clear(&mut state.name_input);
    state.phase = GamePhase::NameEntry;
}

/// A printable, non-space ASCII character ('!' through '~').
pub open spec fn is_ascii_graphic(ch: char) -> bool {
    '!' <= ch && ch <= '~'
}

/// Length in bytes of text with these characters, as `str::len` reports it.
pub open spec fn byte_len(text: Seq<char>) -> usize {
    encode_utf8(text).len() as usize
}

/// `ch` is appended to the name: the phase is NameEntry, the name is still
/// shorter than `MAX_NAME_LEN` bytes and `ch` is printable ASCII.
pub open spec fn name_char_accepted<P>(state: GameState<P>, ch: char) -> bool {
    &&& state.phase == GamePhase::NameEntry
    &&& byte_len(state.name_input@) < MAX_NAME_LEN
    &&& is_ascii_graphic(ch)
}

/// Append a printable ASCII character to the name buffer (up to MAX_NAME_LEN).
/// Does nothing outside NameEntry phase.
pub fn handle_name_char<P>(state: &mut GameState<P>, ch: char)
    ensures
        name_char_accepted(*old(state), ch) ==> final(state).name_input@ == old(state).name_input@.push(ch),
        !name_char_accepted(*old(state), ch) ==> final(state).name_input@ == old(state).name_input@,
        *final(state) == (GameState { name_input: final(state).name_input, ..*old(state) }),
{
    if state.phase != GamePhase::NameEntry {
        return;
    }
    if state.name_input.as_str().len() < MAX_NAME_LEN && ch >= '!' && ch <= '~' {
        string_push(&mut state.name_input, ch);
    }
}

/// Remove the last character from the name buffer.
/// Does nothing on an empty buffer or outside NameEntry phase.
pub fn handle_name_backspace<P>(state: &mut GameState<P>)
    ensures
        old(state).phase == GamePhase::NameEntry && old(state).name_input@.len() > 0
            ==> final(state).name_input@ == old(state).name_input@.drop_last(),
        !(old(state).phase == GamePhase::NameEntry && old(state).name_input@.len() > 0)
            ==> final(state).name_input@ == old(state).name_input@,
        *final(state) == (GameState { name_input: final(state).name_input, ..*old(state) }),
{
    if state.phase != GamePhase::NameEntry {
        return;
    }
    string_pop(&mut state.name_input);
}

/// Confirm name entry. Returns `Some(ScoreEntry)` if the name is non-empty,
/// `None` if the player skipped. Always transitions to the Attract phase.
pub fn submit_name<P>(state: &mut GameState<P>) -> (entry: Option<ScoreEntry>)
    requires
        old(state).name_input@.len() > 0 ==> (old(state).level as u32) < u32::MAX,
    ensures
        *final(state) == (GameState { phase: GamePhase::Attract, ..*old(state) }),
        old(state).name_input@.len() == 0 ==> entry is None,
        old(state).name_input@.len() > 0 ==> (entry matches Some(e) && e.name@ == old(state).name_input@
            && e.score == old(state).score && e.level == (old(state).level as u32) + 1),
{
    let entry = if state.name_input.as_str().is_empty() {
        None
    } else {
        Some(ScoreEntry {
            name: state.name_input.clone(),
            score: state.score,
            level: state.level as u32 + 1,
        })
    };
    state.phase = GamePhase::Attract;
    entry
}

/// The state after opening the high scores: only the attract screen opens them.
pub open spec fn scoreboard_opened<P>(state: GameState<P>) -> GameState<P> {
    if state.phase == GamePhase::Attract {
        GameState { phase: GamePhase::Scoreboard, ..state }
    } else {
        state
    }
}

/// The state after closing the high scores: back to the attract screen.
pub open spec fn scoreboard_closed<P>(state: GameState<P>) -> GameState<P> {
    if state.phase == GamePhase::Scoreboard {
        GameState { phase: GamePhase::Attract, ..state }
    } else {
        state
    }
}

/// Open the scoreboard from the Attract screen. Does nothing in other phases.
pub fn open_scoreboard<P>(state: &mut GameState<P>)
    ensures
        *final(state) == scoreboard_opened(*old(state)),
{
    if state.phase == GamePhase::Attract {
        state.phase = GamePhase::Scoreboard;
    }
}

/// Return to the Attract screen from the Scoreboard. Does nothing in other phases.
pub fn close_scoreboard<P>(state: &mut GameState<P>)
    ensures
        *final(state) == scoreboard_closed(*old(state)),
{
    if state.phase == GamePhase::Scoreboard {
        state.phase = GamePhase::Attract;
    }
}

/// P twice is no P at all: pausing and resuming gives back the very state
/// the game was in, whatever the phase.
pub proof fn law_pause_twice_restores<P>(state: GameState<P>)
    ensures
        paused(paused(state)) == state,
{
}

/// Opening the high scores from the attract screen and closing them again
/// returns to the attract screen with nothing else changed.
pub proof fn law_high_scores_round_trip<P>(state: GameState<P>)
    requires
        state.phase == GamePhase::Attract,
    ensures
        scoreboard_closed(scoreboard_opened(state)) == state,
{
}

/// The name being typed never grows past `MAX_NAME_LEN` bytes: a character
/// is taken only while there is room, and it is one byte long.
pub proof fn law_name_stays_within_limit<P>(state: GameState<P>, ch: char)
    requires
        encode_utf8(state.name_input@).len() <= MAX_NAME_LEN,
    ensures
        name_char_accepted(state, ch) ==> encode_utf8(state.name_input@.push(ch)).len() == encode_utf8(
            state.name_input@,
        ).len() + 1,
        encode_utf8(
            if name_char_accepted(state, ch) { state.name_input@.push(ch) } else { state.name_input@ },
        ).len() <= MAX_NAME_LEN,
{
    if name_char_accepted(state, ch) {
        lemma_encode_utf8_push(state.name_input@, ch);
        assert(encode_scalar(ch as u32).len() == 1);
    }
}

/// Backspace takes back the character just typed.
pub proof fn law_backspace_undoes_typing<P>(state: GameState<P>, ch: char)
    requires
        name_char_accepted(state, ch),
    ensures
        state.name_input@.push(ch).len() > 0,
        state.name_input@.push(ch).drop_last() == state.name_input@,
{
    assert(state.name_input@.push(ch).drop_last() =~= state.name_input@);
}

/// Encoding a character more appends that character's encoding.
proof fn lemma_encode_utf8_push(text: Seq<char>, ch: char)
    ensures
        encode_utf8(text.push(ch)) == encode_utf8(text) + encode_scalar(ch as u32),
    decreases text.len(),
{
    if text.len() == 0 {
        assert(text.push(ch).drop_first() =~= Seq::<char>::empty());
        assert(encode_utf8(Seq::<char>::empty()) =~= Seq::<u8>::empty());
        assert(encode_utf8(text.push(ch)) =~= encode_utf8(text) + encode_scalar(ch as u32));
    } else {
        lemma_encode_utf8_push(text.drop_first(), ch);
        assert(text.push(ch).drop_first() =~= text.drop_first().push(ch));
        assert(text.push(ch)[0] == text[0]);
        assert(encode_utf8(text.push(ch)) =~= encode_utf8(text) + encode_scalar(ch as u32));
    }
}

} // verus!

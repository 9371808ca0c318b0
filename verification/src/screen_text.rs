//! The text and sprite choices of the screen: which sprite an alien shows,
//! the HUD lines, the name-entry prompt and the high score rows.

use vstd::prelude::*;
use vstd::string::StrSliceExecFns;
use crate::game::phase::byte_len;
use crate::game::state::{AlienKind, MAX_NAME_LEN};
use crate::score_text::{decimal, push_decimal};
use crate::scoreboard::ScoreEntry;
use crate::strings::{string_push, string_push_str};

verus! {

/// The sprite an alien of `kind` shows; the second animation frame has its
/// own sprite.
pub open spec fn sprite_name(kind: AlienKind, anim_frame: bool) -> Seq<char> {
    match kind {
        AlienKind::Crab => if anim_frame { "crab_f2"@ } else { "crab"@ },
        AlienKind::Squid => if anim_frame { "squid_f2"@ } else { "squid"@ },
        AlienKind::Octopus => if anim_frame { "octopus_f2"@ } else { "octopus"@ },
    }
}

pub fn alien_sprite_name(kind: AlienKind, anim_frame: bool) -> (name: &'static str)
    ensures
        name@ == sprite_name(kind, anim_frame),
{
    match kind {
        AlienKind::Crab => if anim_frame { "crab_f2" } else { "crab" },
        AlienKind::Squid => if anim_frame { "squid_f2" } else { "squid" },
        AlienKind::Octopus => if anim_frame { "octopus_f2" } else { "octopus" },
    }
}

/// The cursor after the name being typed: shown while there is room for
/// another character.
pub fn name_cursor(name: &str) -> (cursor: &'static str)
    ensures
        byte_len(name@) < MAX_NAME_LEN ==> cursor@ == "_"@,
        byte_len(name@) >= MAX_NAME_LEN ==> cursor@ == ""@,
{
    if name.len() < MAX_NAME_LEN {
        "_"
    } else {
        ""
    }
}

/// `n` spaces.
pub open spec fn spaces(n: int) -> Seq<char> {
    Seq::new(if n > 0 { n as nat } else { 0 }, |i: int| ' ')
}

/// `s` right-aligned in a field `width` characters wide (`{:>width}`).
pub open spec fn pad_left(s: Seq<char>, width: int) -> Seq<char> {
    spaces(width - s.len()) + s
}

/// `s` left-aligned in a field `width` characters wide (`{:<width}`).
pub open spec fn pad_right(s: Seq<char>, width: int) -> Seq<char> {
    s + spaces(width - s.len())
}

/// Append `n` spaces.
fn push_spaces(out: &mut String, n: usize)
    ensures
        final(out)@ == old(out)@ + spaces(n as int),
{
    let ghost start = out@;
    for i in 0..n
        invariant
            out@ == start + spaces(i as int),
    {
        string_push(out, ' ');
        assert(out@ =~= start + spaces(i + 1));
    }
}

/// Append `n` in decimal, right-aligned (`alignment_right`) or left-aligned in
/// a field `width` characters wide.
fn push_number(out: &mut String, n: u64, width: usize, alignment_right: bool)
    ensures
        alignment_right ==> final(out)@ == old(out)@ + pad_left(decimal(n as nat), width as int),
        !alignment_right ==> final(out)@ == old(out)@ + pad_right(decimal(n as nat), width as int),
{
    let mut digits = String::new();
    push_decimal(&mut digits, n);
    assert(digits@ =~= decimal(n as nat));
    let len = digits.as_str().unicode_len();
    let pad = if len < width { width - len } else { 0 };
    assert(spaces(pad as int) =~= spaces(width - decimal(n as nat).len()));
    if alignment_right {
        push_spaces(out, pad);
        string_push_str(out, digits.as_str());
        assert(final(out)@ =~= old(out)@ + pad_left(decimal(n as nat), width as int));
    } else {
        string_push_str(out, digits.as_str());
        push_spaces(out, pad);
        assert(final(out)@ =~= old(out)@ + pad_right(decimal(n as nat), width as int));
    }
}

/// The HUD's score, right-aligned in six columns.
pub open spec fn spec_hud_score(score: u32) -> Seq<char> {
    "SCORE  "@ + pad_left(decimal(score as nat), 6)
}

pub fn hud_score(score: u32) -> (text: String)
    ensures
        text@ == spec_hud_score(score),
{
    let mut out = String::new();
    string_push_str(&mut out, "SCORE  ");
    push_number(&mut out, score as u64, 6, true);
    assert(out@ =~= spec_hud_score(score));
    out
}

/// The HUD's level, counted from 1.
pub open spec fn spec_hud_level(level: usize) -> Seq<char> {
    "LEVEL  "@ + decimal(level as nat + 1)
}

pub fn hud_level(level: usize) -> (text: String)
    requires
        level < usize::MAX,
    ensures
        text@ == spec_hud_level(level),
{
    let mut out = String::new();
    string_push_str(&mut out, "LEVEL  ");
    push_decimal(&mut out, (level + 1) as u64);
    assert(out@ =~= spec_hud_level(level));
    out
}

/// The line above the name being typed: the score and the level reached.
pub open spec fn spec_entry_summary(score: u32, level: usize) -> Seq<char> {
    "SCORE: "@ + decimal(score as nat) + "   LEVEL: "@ + decimal(level as nat + 1)
}

pub fn entry_summary(score: u32, level: usize) -> (text: String)
    requires
        level < usize::MAX,
    ensures
        text@ == spec_entry_summary(score, level),
{
    let mut out = String::new();
    string_push_str(&mut out, "SCORE: ");
    push_decimal(&mut out, score as u64);
    string_push_str(&mut out, "   LEVEL: ");
    push_decimal(&mut out, (level + 1) as u64);
    assert(out@ =~= spec_entry_summary(score, level));
    out
}

/// A row of the high score table: rank, score and level in columns four,
/// six and five wide, then the name.
pub open spec fn spec_score_row(rank: usize, score: u32, level: u32, name: Seq<char>) -> Seq<char> {
    pad_right(decimal(rank as nat), 4) + "  "@ + pad_left(decimal(score as nat), 6) + "  "@
        + pad_left(decimal(level as nat), 5) + "  "@ + name
}

pub fn score_row(rank: usize, entry: &ScoreEntry) -> (text: String)
    ensures
        text@ == spec_score_row(rank, entry.score, entry.level, entry.name@),
{
    let mut out = String::new();
    push_number(&mut out, rank as u64, 4, false);
    string_push_str(&mut out, "  ");
    push_number(&mut out, entry.score as u64, 6, true);
    string_push_str(&mut out, "  ");
    push_number(&mut out, entry.level as u64, 5, true);
    string_push_str(&mut out, "  ");
    string_push_str(&mut out, entry.name.as_str());
    assert(out@ =~= spec_score_row(rank, entry.score, entry.level, entry.name@));
    out
}

/// The points the UFO was worth, shown where it was hit.
pub fn ufo_score_text(score: u32) -> (text: String)
    ensures
        text@ == decimal(score as nat),
{
    let mut out = String::new();
    push_decimal(&mut out, score as u64);
    assert(out@ =~= decimal(score as nat));
    out
}

} // verus!

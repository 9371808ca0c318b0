//! The high score table: at most five entries, best score first.

use vstd::prelude::*;

verus! {

/// Number of entries the high score table retains.
pub const MAX_SCOREBOARD_ENTRIES: usize = 5;

#[derive(Clone, Debug, PartialEq)]
pub struct ScoreEntry {
    pub name: String,
    pub score: u32,
    /// 1-indexed level reached (ready to display).
    pub level: u32,
}

/// What a score entry says, with the name as its characters.
pub struct EntryView {
    pub name: Seq<char>,
    pub score: u32,
    pub level: u32,
}

impl View for ScoreEntry {
    type V = EntryView;

    open spec fn view(&self) -> EntryView {
        EntryView { name: self.name@, score: self.score, level: self.level }
    }
}

pub struct Scoreboard {
    entries: Vec<ScoreEntry>,
}

/// Scores never increase from one entry to the next.
pub open spec fn sorted_by_score_desc(s: Seq<EntryView>) -> bool {
    forall|i: int, j: int| 0 <= i <= j < s.len() ==> s[i].score >= s[j].score
}

/// A well-formed table: best score first and no more than
/// `MAX_SCOREBOARD_ENTRIES` entries.
pub open spec fn table_wf(s: Seq<EntryView>) -> bool {
    &&& s.len() <= MAX_SCOREBOARD_ENTRIES
    &&& sorted_by_score_desc(s)
}

/// `score` earns a place: the table has room, or `score` beats its last entry.
pub open spec fn score_qualifies(s: Seq<EntryView>, score: u32) -> bool {
    s.len() < MAX_SCOREBOARD_ENTRIES || (s.len() > 0 && score > s.last().score)
}

/// Where an entry with `score` lands: after every entry whose score is at
/// least `score` (earlier entries win ties), before every lower one.
pub open spec fn insert_position(s: Seq<EntryView>, score: u32) -> nat
    decreases s.len(),
{
    if s.len() == 0 {
        0
    } else if s[0].score >= score {
        1 + insert_position(s.drop_first(), score)
    } else {
        0
    }
}

/// The table after offering `e`: unchanged when `e` does not qualify;
/// otherwise `e` placed by score and the table cut back to its capacity.
pub open spec fn table_after_insert(s: Seq<EntryView>, e: EntryView) -> Seq<EntryView> {
    if score_qualifies(s, e.score) {
        let merged = s.insert(insert_position(s, e.score) as int, e);
        if merged.len() > MAX_SCOREBOARD_ENTRIES {
            merged.take(MAX_SCOREBOARD_ENTRIES as int)
        } else {
            merged
        }
    } else {
        s
    }
}

/// The insertion point lies within the table, after every entry scoring at
/// least `score` and, when inside, at an entry scoring less.
proof fn lemma_insert_position_bounds(s: Seq<EntryView>, score: u32)
    ensures
        insert_position(s, score) <= s.len(),
        forall|i: int| 0 <= i < insert_position(s, score) ==> #[trigger] s[i].score >= score,
        insert_position(s, score) < s.len() ==> s[insert_position(s, score) as int].score < score,
    decreases s.len(),
{
    if s.len() > 0 && s[0].score >= score {
        lemma_insert_position_bounds(s.drop_first(), score);
        assert forall|i: int| 0 <= i < insert_position(s, score) implies #[trigger] s[i].score
            >= score by {
            if i > 0 {
                assert(s[i] == s.drop_first()[i - 1]);
            }
        }
    }
}

/// In a table sorted best-first, the entries at or above the insertion point
/// are exactly those scoring at least `score`.
proof fn lemma_insert_position_sorted(s: Seq<EntryView>, score: u32)
    requires
        sorted_by_score_desc(s),
    ensures
        insert_position(s, score) <= s.len(),
        forall|i: int| 0 <= i < insert_position(s, score) ==> #[trigger] s[i].score >= score,
        forall|i: int| insert_position(s, score) <= i < s.len() ==> #[trigger] s[i].score < score,
{
    lemma_insert_position_bounds(s, score);
}

/// Placing `e` at its insertion point keeps a best-first table best-first.
proof fn lemma_merged_sorted(s: Seq<EntryView>, e: EntryView)
    requires
        sorted_by_score_desc(s),
    ensures
        sorted_by_score_desc(s.insert(insert_position(s, e.score) as int, e)),
{
    let p = insert_position(s, e.score) as int;
    lemma_insert_position_sorted(s, e.score);
    let merged = s.insert(p, e);
    assert forall|i: int, j: int| 0 <= i <= j < merged.len() implies merged[i].score
        >= merged[j].score by {
        if i < p {
            assert(merged[i] == s[i]);
        } else if i == p {
            assert(merged[i] == e);
        } else {
            assert(merged[i] == s[i - 1]);
        }
        if j < p {
            assert(merged[j] == s[j]);
        } else if j == p {
            assert(merged[j] == e);
        } else {
            assert(merged[j] == s[j - 1]);
        }
    }
}

/// Offering an entry keeps a well-formed table well formed.
proof fn lemma_insert_keeps_order(s: Seq<EntryView>, e: EntryView)
    requires
        table_wf(s),
    ensures
        table_wf(table_after_insert(s, e)),
{
    if score_qualifies(s, e.score) {
        lemma_merged_sorted(s, e);
    }
}

/// An entry no better than any on a table with room lands at its end.
pub proof fn lemma_insert_at_end(s: Seq<EntryView>, e: EntryView)
    requires
        s.len() < MAX_SCOREBOARD_ENTRIES,
        forall|i: int| 0 <= i < s.len() ==> #[trigger] s[i].score >= e.score,
    ensures
        table_after_insert(s, e) == s.push(e),
{
    lemma_insert_position_bounds(s, e.score);
    assert(insert_position(s, e.score) == s.len());
    assert(s.insert(s.len() as int, e) =~= s.push(e));
}

impl View for Scoreboard {
    type V = Seq<EntryView>;

    /// The entries, best score first.
    closed spec fn view(&self) -> Seq<EntryView> {
        self.entries@.map_values(|e: ScoreEntry| e@)
    }
}

impl Scoreboard {
    /// Every table this type hands out is well formed: sorted best first,
    /// with at most `MAX_SCOREBOARD_ENTRIES` entries.
    pub open spec fn wf(&self) -> bool {
        table_wf(self@)
    }

    pub fn new() -> (board: Self)
        ensures
            board.wf(),
            board@ == Seq::<EntryView>::empty(),
    {
        let board = Scoreboard { entries: Vec::new() };
        assert(board@ =~= Seq::<EntryView>::empty());
        board
    }

    pub fn entries(&self) -> (entries: &[ScoreEntry])
        ensures
            entries@.map_values(|e: ScoreEntry| e@) == self@,
    {
        self.entries.as_slice()
    }

    /// Returns `true` if `score` would be accepted by `insert` without
    /// mutating the board — i.e. there is still room, or the score beats the
    /// current lowest entry.
    pub fn qualifies(&self, score: u32) -> (ok: bool)
        ensures
            ok == score_qualifies(self@, score),
    {
        let n = self.entries.len();
        if n < MAX_SCOREBOARD_ENTRIES {
            return true;
        }
        score > self.entries[n - 1].score
    }

    /// Insert an entry if there is room or the score beats the current minimum.
    /// Returns `true` if the entry was added.
    pub fn insert(&mut self, entry: ScoreEntry) -> (added: bool)
        requires
            old(self).wf(),
        ensures
            final(self).wf(),
            added == score_qualifies(old(self)@, entry.score),
            final(self)@ == table_after_insert(old(self)@, entry@),
    {
        proof {
            lemma_insert_keeps_order(self@, entry@);
            lemma_insert_position_sorted(self@, entry.score);
        }
        let qualifies = self.qualifies(entry.score);
        if qualifies {
            let ghost s = self@;
            let ghost e = entry@;
            let mut p: usize = 0;
            while p < self.entries.len() && self.entries[p].score >= entry.score
                invariant
                    self@ == s,
                    self.entries@.len() == s.len(),
                    sorted_by_score_desc(s),
                    p <= s.len(),
                    p <= insert_position(s, entry.score),
                    insert_position(s, entry.score) <= s.len(),
                    forall|i: int| insert_position(s, entry.score) <= i < s.len() ==> #[trigger] s[i].score
                        < entry.score,
                    forall|i: int| 0 <= i < insert_position(s, entry.score) ==> #[trigger] s[i].score
                        >= entry.score,
                decreases s.len() - p,
            {
                assert(s[p as int].score == self.entries@[p as int].score);
                p = p + 1;
            }
            if p < self.entries.len() {
                assert(s[p as int].score == self.entries@[p as int].score);
            }
            assert(p == insert_position(s, entry.score));
            let ghost before = self.entries@;
            self.entries.insert(p, entry);
            assert(self@ =~= s.insert(p as int, e)) by {
                assert forall|i: int| 0 <= i < self.entries@.len() implies #[trigger] self@[i] == s.insert(p as int, e)[i] by {
                    if i < p {
                        assert(self.entries@[i] == before[i]);
                    } else if i > p {
                        assert(self.entries@[i] == before[i - 1]);
                    }
                }
            }
            let ghost merged = self@;
            self.entries.truncate(MAX_SCOREBOARD_ENTRIES);
            assert(merged.len() > MAX_SCOREBOARD_ENTRIES ==> self@ =~= merged.take(MAX_SCOREBOARD_ENTRIES as int));
            assert(merged.len() <= MAX_SCOREBOARD_ENTRIES ==> self@ =~= merged);
        }
        qualifies
    }
}

/// Offering an entry either leaves the table as it was (the entry did not
/// qualify) or puts that very entry on the table (it did).
pub proof fn law_offered_entry_kept_iff_qualifies(s: Seq<EntryView>, e: EntryView)
    requires
        table_wf(s),
    ensures
        !score_qualifies(s, e.score) ==> table_after_insert(s, e) == s,
        score_qualifies(s, e.score) ==> table_after_insert(s, e).contains(e),
        table_wf(table_after_insert(s, e)),
{
    lemma_insert_keeps_order(s, e);
    if score_qualifies(s, e.score) {
        lemma_insert_position_sorted(s, e.score);
        let p = insert_position(s, e.score) as int;
        if s.len() >= MAX_SCOREBOARD_ENTRIES {
            assert(p < s.len());
        }
        assert(table_after_insert(s, e)[p] == e);
    }
}

/// What a full table drops to make room is never better than what it keeps:
/// every entry of the old table either survives or scores no more than every
/// survivor.
pub proof fn law_insert_drops_only_the_lowest(s: Seq<EntryView>, e: EntryView)
    requires
        table_wf(s),
    ensures
        forall|i: int|
            0 <= i < s.len() && !table_after_insert(s, e).contains(#[trigger] s[i]) ==> forall|
                k: int,
            |
                0 <= k < table_after_insert(s, e).len() ==> table_after_insert(s, e)[k].score
                    >= s[i].score,
{
    if score_qualifies(s, e.score) {
        lemma_insert_position_sorted(s, e.score);
        lemma_merged_sorted(s, e);
        let p = insert_position(s, e.score) as int;
        let merged = s.insert(p, e);
        let t = table_after_insert(s, e);
        assert forall|i: int|
            0 <= i < s.len() && !t.contains(#[trigger] s[i]) implies forall|k: int|
            0 <= k < t.len() ==> t[k].score >= s[i].score by {
            // s[i] sits in `merged` at i or i + 1; it was cut off, so it is the last one
            if i < p {
                assert(merged[i] == s[i]);
                if i < t.len() {
                    assert(t[i] == s[i]);
                }
            } else {
                assert(merged[i + 1] == s[i]);
                if i + 1 < t.len() {
                    assert(t[i + 1] == s[i]);
                }
            }
            assert forall|k: int| 0 <= k < t.len() implies t[k].score >= s[i].score by {
                if i < p {
                    assert(merged[i] == s[i]);
                    assert(merged[k].score >= merged[i].score);
                } else {
                    assert(merged[i + 1] == s[i]);
                    assert(merged[k].score >= merged[i + 1].score);
                }
            }
        }
    }
}

/// Every board that `new`, `insert` or reading a stored table hands out is
/// well formed (their contracts keep `wf`), so its entries are sorted best
/// first and there are at most `MAX_SCOREBOARD_ENTRIES` of them.
pub proof fn law_board_sorted_and_short(board: Scoreboard)
    requires
        board.wf(),
    ensures
        board@.len() <= MAX_SCOREBOARD_ENTRIES,
        forall|i: int, j: int| 0 <= i <= j < board@.len() ==> board@[i].score >= board@[j].score,
{
}

} // verus!

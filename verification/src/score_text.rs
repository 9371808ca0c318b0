//! The text form in which the high score table is stored: one line per
//! entry, `name<TAB>score<TAB>level`, lines joined by newlines.

use vstd::prelude::*;
use vstd::string::StrSliceExecFns;
use crate::scoreboard::{
    EntryView, ScoreEntry, Scoreboard, lemma_insert_at_end, table_after_insert, table_wf,
};
use crate::game::phase::name_char_accepted;
use crate::game::state::GameState;
use crate::strings::{string_push, string_push_str};

verus! {

// ── Writing ──────────────────────────────────────────────────────────────────

/// The character of decimal digit `d`.
pub open spec fn digit_char(d: nat) -> char {
    ((d + 48) as u8) as char
}

/// The decimal digits of `n`, most significant first, without leading zeros.
pub open spec fn decimal(n: nat) -> Seq<char>
    decreases n,
{
    if n < 10 {
        seq![digit_char(n)]
    } else {
        decimal(n / 10).push(digit_char(n % 10))
    }
}

/// One entry as a line: name, score and level separated by tabs.
pub open spec fn encode_entry(e: EntryView) -> Seq<char> {
    e.name + seq!['\t'] + decimal(e.score as nat) + seq!['\t'] + decimal(e.level as nat)
}

/// The whole table: its entries' lines joined by newlines.
pub open spec fn encode_table(t: Seq<EntryView>) -> Seq<char>
    decreases t.len(),
{
    if t.len() == 0 {
        Seq::empty()
    } else if t.len() == 1 {
        encode_entry(t[0])
    } else {
        encode_entry(t[0]) + seq!['\n'] + encode_table(t.drop_first())
    }
}

/// The text still to come after `i` entries were written.
spec fn rest_of_text(t: Seq<EntryView>, i: int) -> Seq<char> {
    if i == 0 {
        encode_table(t)
    } else if i < t.len() {
        seq!['\n'] + encode_table(t.skip(i))
    } else {
        Seq::empty()
    }
}

/// Append the decimal digits of `n`.
pub(crate) fn push_decimal(out: &mut String, n: u64)
    ensures
        final(out)@ == old(out)@ + decimal(n as nat),
    decreases n,
{
    if n >= 10 {
        push_decimal(out, n / 10);
    }
    let d = (n % 10) as u8;
    string_push(out, (d + 48) as char);
    assert(final(out)@ =~= old(out)@ + decimal(n as nat));
}

/// The table as text, one `name<TAB>score<TAB>level` line per entry.
pub fn encode_scoreboard(board: &Scoreboard) -> (text: String)
    ensures
        text@ == encode_table(board@),
{
    let entries = board.entries();
    let ghost t = board@;
    let mut out = String::new();
    let n = entries.len();
    for i in 0..n
        invariant
            n == t.len(),
            entries@.map_values(|e: ScoreEntry| e@) == t,
            out@ + rest_of_text(t, i as int) == encode_table(t),
    {
        let ghost before = out@;
        let e = &entries[i];
        assert(e@ == t[i as int]);
        if i > 0 {
            string_push(&mut out, '\n');
        }
        string_push_str(&mut out, e.name.as_str());
        string_push(&mut out, '\t');
        push_decimal(&mut out, e.score as u64);
        string_push(&mut out, '\t');
        push_decimal(&mut out, e.level as u64);
        proof {
            let rest = t.skip(i as int);
            assert(rest[0] == t[i as int]);
            assert(rest.drop_first() =~= t.skip(i + 1));
            if i + 1 < n {
                assert(encode_table(rest) == encode_entry(rest[0]) + seq!['\n'] + encode_table(rest.drop_first()));
            } else {
                assert(rest.len() == 1);
            }
            if i == 0 {
                assert(t.skip(0) =~= t);
            }
            assert(out@ + rest_of_text(t, i + 1) =~= encode_table(t));
        }
    }
    proof {
        if n == 0 {
            assert(out@ =~= encode_table(t));
        }
    }
    out
}

// ── Reading ──────────────────────────────────────────────────────────────────

/// The first index at or after `i` holding `c`, or the length when there is none.
pub open spec fn find_from(s: Seq<char>, c: char, i: int) -> int
    decreases s.len() - i,
{
    if i >= s.len() {
        s.len() as int
    } else if s[i] == c {
        i
    } else {
        find_from(s, c, i + 1)
    }
}

/// What `find_from` finds: the first `c` at or after `i`, or the length.
pub proof fn lemma_find_from(s: Seq<char>, c: char, i: int)
    requires
        0 <= i,
    ensures
        i <= s.len() ==> i <= find_from(s, c, i) <= s.len(),
        i > s.len() ==> find_from(s, c, i) == s.len(),
        forall|k: int| i <= k < find_from(s, c, i) ==> s[k] != c,
        find_from(s, c, i) < s.len() ==> s[find_from(s, c, i)] == c,
    decreases s.len() - i,
{
    if i < s.len() && s[i] != c {
        lemma_find_from(s, c, i + 1);
    }
}

/// A line's text without a carriage return that preceded its newline.
pub open spec fn strip_cr(line: Seq<char>) -> Seq<char> {
    if line.len() > 0 && line.last() == '\r' {
        line.drop_last()
    } else {
        line
    }
}

/// The lines of `s` from index `start` on, as `str::lines` yields them:
/// split at each newline; a line ended by a newline loses a carriage return
/// just before it; text after the last newline, if any, is the last line.
pub open spec fn lines_from(s: Seq<char>, start: int) -> Seq<Seq<char>>
    decreases s.len() - start,
{
    if start < 0 || start >= s.len() {
        Seq::empty()
    } else {
        let j = find_from(s, '\n', start);
        proof {
            lemma_find_from(s, '\n', start);
        }
        if j >= s.len() {
            seq![s.subrange(start, s.len() as int)]
        } else {
            seq![strip_cr(s.subrange(start, j))] + lines_from(s, j + 1)
        }
    }
}

/// Every character is an ASCII digit.
pub open spec fn all_digits(d: Seq<char>) -> bool {
    forall|i: int| 0 <= i < d.len() ==> '0' <= #[trigger] d[i] && d[i] <= '9'
}

/// The number the digits spell, most significant first.
pub open spec fn digits_value(d: Seq<char>) -> nat
    decreases d.len(),
{
    if d.len() == 0 {
        0
    } else {
        digits_value(d.drop_last()) * 10 + ((d.last() as u32) - 48) as nat
    }
}

/// `u32::from_str`: an optional `+`, then one or more decimal digits whose
/// value fits in a `u32`.
pub open spec fn parse_u32(t: Seq<char>) -> Option<u32> {
    let d = if t.len() > 0 && t[0] == '+' { t.subrange(1, t.len() as int) } else { t };
    if d.len() > 0 && all_digits(d) && digits_value(d) <= u32::MAX {
        Some(digits_value(d) as u32)
    } else {
        None
    }
}

/// A stored line read back: it needs at least two tabs; the text before the
/// first is the name, between the first two the score, after the second the
/// level, and both numbers must parse.
pub open spec fn parse_entry(line: Seq<char>) -> Option<EntryView> {
    let i = find_from(line, '\t', 0);
    if i >= line.len() {
        None
    } else {
        let j = find_from(line, '\t', i + 1);
        if j >= line.len() {
            None
        } else {
            match (parse_u32(line.subrange(i + 1, j)), parse_u32(line.subrange(j + 1, line.len() as int))) {
                (Some(score), Some(level)) => Some(EntryView { name: line.subrange(0, i), score: score, level: level }),
                _ => None,
            }
        }
    }
}

/// A table after reading `lines` in order, offering each entry that parses.
pub open spec fn load_lines(t: Seq<EntryView>, lines: Seq<Seq<char>>) -> Seq<EntryView>
    decreases lines.len(),
{
    if lines.len() == 0 {
        t
    } else {
        let next = match parse_entry(lines[0]) {
            Some(e) => table_after_insert(t, e),
            None => t,
        };
        load_lines(next, lines.drop_first())
    }
}

/// The table stored as `text`: an empty table offered every well-formed line.
pub open spec fn decode_table(text: Seq<char>) -> Seq<EntryView> {
    load_lines(Seq::empty(), lines_from(text, 0))
}

/// The characters of `s`.
fn chars_of(s: &str) -> (chars: Vec<char>)
    ensures
        chars@ == s@,
{
    let n = s.unicode_len();
    let mut chars: Vec<char> = Vec::new();
    for i in 0..n
        invariant
            n == s@.len(),
            chars@ == s@.subrange(0, i as int),
    {
        chars.push(s.get_char(i));
        assert(chars@ =~= s@.subrange(0, i + 1));
    }
    assert(chars@ =~= s@);
    chars
}

/// The first index at or after `i` holding `c`, or the length.
fn find_char(cs: &Vec<char>, c: char, i: usize) -> (j: usize)
    requires
        i <= cs@.len(),
    ensures
        j == find_from(cs@, c, i as int),
{
    proof {
        lemma_find_from(cs@, c, i as int);
    }
    let mut j = i;
    while j < cs.len() && cs[j] != c
        invariant
            i <= j <= cs@.len(),
            find_from(cs@, c, i as int) == find_from(cs@, c, j as int),
        decreases cs@.len() - j,
    {
        j = j + 1;
    }
    j
}

/// A prefix of a digit string spells no more than the whole string.
proof fn lemma_digits_value_grows(d: Seq<char>, k: int)
    requires
        0 <= k <= d.len(),
        all_digits(d),
    ensures
        digits_value(d.subrange(0, k)) <= digits_value(d),
    decreases d.len() - k,
{
    if k == d.len() {
        assert(d.subrange(0, k) =~= d);
    } else {
        lemma_digits_value_grows(d, k + 1);
        let p = d.subrange(0, k + 1);
        assert(p.drop_last() =~= d.subrange(0, k));
        assert(p.last() == d[k]);
    }
}

/// `u32::from_str` on the characters `cs[lo..hi]`.
fn parse_u32_range(cs: &Vec<char>, lo: usize, hi: usize) -> (n: Option<u32>)
    requires
        lo <= hi <= cs@.len(),
    ensures
        n == parse_u32(cs@.subrange(lo as int, hi as int)),
{
    let ghost t = cs@.subrange(lo as int, hi as int);
    let mut k = lo;
    if k < hi && cs[k] == '+' {
        k = k + 1;
    }
    let ghost d = if t.len() > 0 && t[0] == '+' { t.subrange(1, t.len() as int) } else { t };
    assert(d =~= cs@.subrange(k as int, hi as int));
    if k == hi {
        return None;
    }
    let start = k;
    let mut acc: u64 = 0;
    while k < hi
        invariant
            start <= k <= hi <= cs@.len(),
            start < hi,
            t == cs@.subrange(lo as int, hi as int),
            d == (if t.len() > 0 && t[0] == '+' { t.subrange(1, t.len() as int) } else { t }),
            d == cs@.subrange(start as int, hi as int),
            all_digits(cs@.subrange(start as int, k as int)),
            acc == digits_value(cs@.subrange(start as int, k as int)),
            acc <= u32::MAX,
        decreases hi - k,
    {
        let c = cs[k];
        if c < '0' || c > '9' {
            assert(d[k - start] == c);
            return None;
        }
        let ghost prefix = cs@.subrange(start as int, k as int);
        let ghost next = cs@.subrange(start as int, k + 1);
        assert(next.drop_last() =~= prefix);
        assert(next.last() == c);
        acc = acc * 10 + ((c as u32) - 48) as u64;
        assert(all_digits(next));
        if acc > 0xffff_ffff {
            proof {
                assert(next =~= d.subrange(0, (k + 1 - start) as int));
                if all_digits(d) {
                    lemma_digits_value_grows(d, (k + 1 - start) as int);
                }
            }
            return None;
        }
        k = k + 1;
    }
    assert(cs@.subrange(start as int, k as int) =~= d);
    Some(acc as u32)
}

/// The characters `cs[lo..hi]` as a string.
fn string_from_range(cs: &Vec<char>, lo: usize, hi: usize) -> (s: String)
    requires
        lo <= hi <= cs@.len(),
    ensures
        s@ == cs@.subrange(lo as int, hi as int),
{
    let mut s = String::new();
    for k in lo..hi
        invariant
            hi <= cs@.len(),
            s@ == cs@.subrange(lo as int, k as int),
    {
        string_push(&mut s, cs[k]);
        assert(s@ =~= cs@.subrange(lo as int, k + 1));
    }
    s
}

/// Read one stored line (the characters `cs[lo..hi]`) back into an entry.
fn parse_entry_range(cs: &Vec<char>, lo: usize, hi: usize) -> (entry: Option<ScoreEntry>)
    requires
        lo <= hi <= cs@.len(),
    ensures
        match (entry, parse_entry(cs@.subrange(lo as int, hi as int))) {
            (Some(e), Some(v)) => e@ == v,
            (None, None) => true,
            _ => false,
        },
{
    let ghost line = cs@.subrange(lo as int, hi as int);
    let i = find_char(cs, '\t', lo);
    proof {
        lemma_find_from(cs@, '\t', lo as int);
        lemma_find_from_in_range(cs@, '\t', lo as int, hi as int, 0);
    }
    if i >= hi {
        return None;
    }
    let j = find_char(cs, '\t', i + 1);
    proof {
        lemma_find_from(cs@, '\t', i + 1);
        lemma_find_from_in_range(cs@, '\t', lo as int, hi as int, i + 1 - lo);
    }
    if j >= hi {
        return None;
    }
    assert(line.subrange((i - lo) + 1, (j - lo) as int) =~= cs@.subrange(i + 1, j as int));
    assert(line.subrange((j - lo) + 1, line.len() as int) =~= cs@.subrange(j + 1, hi as int));
    assert(line.subrange(0, (i - lo) as int) =~= cs@.subrange(lo as int, i as int));
    let score = parse_u32_range(cs, i + 1, j);
    let level = parse_u32_range(cs, j + 1, hi);
    match (score, level) {
        (Some(score), Some(level)) => {
            let name = string_from_range(cs, lo, i);
            Some(ScoreEntry { name, score, level })
        },
        _ => None,
    }
}

/// Searching a range of `s` is searching the subsequence, shifted: within
/// `s[lo..hi]`, the first `c` at or after offset `k` is where it is in `s`
/// (or `hi` and beyond when there is none in range).
proof fn lemma_find_from_in_range(s: Seq<char>, c: char, lo: int, hi: int, k: int)
    requires
        0 <= lo <= hi <= s.len(),
        0 <= k <= hi - lo,
    ensures
        ({
            let line = s.subrange(lo, hi);
            let f = find_from(s, c, lo + k);
            &&& f < hi ==> find_from(line, c, k) == f - lo
            &&& f >= hi ==> find_from(line, c, k) == line.len()
        }),
    decreases hi - lo - k,
{
    let line = s.subrange(lo, hi);
    lemma_find_from(s, c, lo + k);
    if k < hi - lo && s[lo + k] != c {
        assert(line[k] == s[lo + k]);
        lemma_find_from_in_range(s, c, lo, hi, k + 1);
    } else if k < hi - lo {
        assert(line[k] == s[lo + k]);
    }
}

/// Read a stored table back: every line that holds a well-formed entry is
/// offered to an empty table, in order; other lines are skipped.
pub fn decode_scoreboard(data: &str) -> (board: Scoreboard)
    ensures
        board.wf(),
        board@ == decode_table(data@),
{
    let cs = chars_of(data);
    let ghost s = cs@;
    let n = cs.len();
    let mut board = Scoreboard::new();
    let mut start: usize = 0;
    while start < n
        invariant
            n == s.len(),
            s == cs@,
            start <= n,
            board.wf(),
            load_lines(board@, lines_from(s, start as int)) == decode_table(s),
        decreases n - start,
    {
        let j = find_char(&cs, '\n', start);
        proof {
            lemma_find_from(s, '\n', start as int);
        }
        let end = if j < n && j > start && cs[j - 1] == '\r' { j - 1 } else { j };
        let ghost line = if j >= n { s.subrange(start as int, n as int) } else { strip_cr(s.subrange(start as int, j as int)) };
        assert(line =~= s.subrange(start as int, end as int));
        let ghost rest = if j >= n { Seq::<Seq<char>>::empty() } else { lines_from(s, j + 1) };
        assert(lines_from(s, start as int) == seq![line] + rest);
        assert((seq![line] + rest)[0] == line);
        assert((seq![line] + rest).drop_first() =~= rest);
        match parse_entry_range(&cs, start, end) {
            Some(entry) => {
                board.insert(entry);
            },
            None => {},
        }
        start = if j < n { j + 1 } else { n };
        proof {
            if j >= n {
                assert(lines_from(s, start as int) =~= Seq::<Seq<char>>::empty());
            }
        }
    }
    board
}

// ── Reading back what was written ────────────────────────────────────────────

/// A name that can be stored: it holds no tab and no newline.
pub open spec fn storable_name(name: Seq<char>) -> bool {
    forall|k: int| 0 <= k < name.len() ==> #[trigger] name[k] != '\t' && name[k] != '\n'
}

/// Every entry of the table has a storable name.
pub open spec fn names_storable(t: Seq<EntryView>) -> bool {
    forall|i: int| 0 <= i < t.len() ==> storable_name(#[trigger] t[i].name)
}

/// The lines a table is written as, one per entry.
spec fn entry_lines(t: Seq<EntryView>) -> Seq<Seq<char>> {
    t.map_values(|e: EntryView| encode_entry(e))
}

/// A digit character is an ASCII digit and reads back as its value.
proof fn lemma_digit_char(d: nat)
    requires
        d < 10,
    ensures
        '0' <= digit_char(d) <= '9',
        (digit_char(d) as u32) - 48 == d,
{
}

/// The decimal form of `n` is a non-empty string of digits that spells `n`.
proof fn lemma_decimal(n: nat)
    ensures
        decimal(n).len() >= 1,
        all_digits(decimal(n)),
        digits_value(decimal(n)) == n,
    decreases n,
{
    lemma_digit_char(n % 10);
    if n < 10 {
        assert(decimal(n).drop_last() =~= Seq::<char>::empty());
        assert(digits_value(Seq::<char>::empty()) == 0);
        assert(decimal(n).last() == digit_char(n));
    } else {
        lemma_decimal(n / 10);
        let d = decimal(n);
        assert(d.drop_last() =~= decimal(n / 10));
        assert(d.last() == digit_char(n % 10));
        assert(digits_value(d) == digits_value(decimal(n / 10)) * 10 + n % 10);
        assert((n / 10) * 10 + n % 10 == n);
        assert forall|i: int| 0 <= i < d.len() implies '0' <= #[trigger] d[i] && d[i] <= '9' by {
            if i < d.len() - 1 {
                assert(d[i] == decimal(n / 10)[i]);
            }
        }
    }
}

/// `u32::from_str` reads back the decimal form of every `u32`.
proof fn lemma_parse_decimal(n: u32)
    ensures
        parse_u32(decimal(n as nat)) == Some(n),
{
    lemma_decimal(n as nat);
    let t = decimal(n as nat);
    assert('0' <= t[0] && t[0] <= '9');
}

/// Searching past characters that are not `c` changes nothing.
proof fn lemma_find_from_skip(s: Seq<char>, c: char, i: int, j: int)
    requires
        0 <= i <= j <= s.len(),
        forall|k: int| i <= k < j ==> s[k] != c,
    ensures
        find_from(s, c, i) == find_from(s, c, j),
    decreases j - i,
{
    if i < j {
        lemma_find_from_skip(s, c, i + 1, j);
    }
}

/// Searching the second part of a concatenation is searching it alone, shifted.
proof fn lemma_find_from_shift(x: Seq<char>, y: Seq<char>, c: char, k: int)
    requires
        0 <= k <= y.len(),
    ensures
        find_from(x + y, c, x.len() + k) == x.len() + find_from(y, c, k),
    decreases y.len() - k,
{
    let s = x + y;
    if k < y.len() {
        assert(s[x.len() + k] == y[k]);
        if y[k] != c {
            lemma_find_from_shift(x, y, c, k + 1);
        }
    }
}

/// The lines of the second part of a concatenation, read from its start,
/// are its own lines.
proof fn lemma_lines_from_shift(x: Seq<char>, y: Seq<char>, k: int)
    requires
        0 <= k <= y.len(),
    ensures
        lines_from(x + y, x.len() + k) == lines_from(y, k),
    decreases y.len() - k,
{
    let s = x + y;
    if k < y.len() {
        lemma_find_from_shift(x, y, '\n', k);
        lemma_find_from(y, '\n', k);
        let j = find_from(y, '\n', k);
        if j < y.len() {
            lemma_lines_from_shift(x, y, j + 1);
            assert(s.subrange(x.len() + k, x.len() + j) =~= y.subrange(k, j));
        } else {
            assert(s.subrange(x.len() + k, s.len() as int) =~= y.subrange(k, y.len() as int));
        }
    }
}

/// A stored line: no newline in it, it does not end in a carriage return,
/// and it reads back as the entry it was written from.
proof fn lemma_encoded_entry(e: EntryView)
    requires
        storable_name(e.name),
    ensures
        forall|k: int| 0 <= k < encode_entry(e).len() ==> #[trigger] encode_entry(e)[k] != '\n',
        encode_entry(e).len() > 0,
        encode_entry(e).last() != '\r',
        parse_entry(encode_entry(e)) == Some(e),
{
    let d1 = decimal(e.score as nat);
    let d2 = decimal(e.level as nat);
    lemma_decimal(e.score as nat);
    lemma_decimal(e.level as nat);
    lemma_parse_decimal(e.score);
    lemma_parse_decimal(e.level);
    let line = encode_entry(e);
    let a = e.name.len() as int;
    let b = a + 1 + d1.len();
    assert(line =~= e.name + seq!['\t'] + d1 + seq!['\t'] + d2);
    assert forall|k: int| 0 <= k < line.len() implies #[trigger] line[k] != '\n' && (k != a && k != b ==> line[k] != '\t') by {
        if k < a {
            assert(line[k] == e.name[k]);
        } else if a < k < b {
            assert(line[k] == d1[k - a - 1]);
        } else if k > b {
            assert(line[k] == d2[k - b - 1]);
        }
    }
    assert(line.last() == d2[d2.len() - 1]);
    lemma_find_from_skip(line, '\t', 0, a);
    lemma_find_from_skip(line, '\t', a + 1, b);
    assert(line.subrange(0, a) =~= e.name);
    assert(line.subrange(a + 1, b) =~= d1);
    assert(line.subrange(b + 1, line.len() as int) =~= d2);
}

/// A table written out splits back into the lines of its entries.
proof fn lemma_lines_of_table(t: Seq<EntryView>)
    requires
        names_storable(t),
    ensures
        lines_from(encode_table(t), 0) == entry_lines(t),
    decreases t.len(),
{
    if t.len() == 0 {
        assert(entry_lines(t) =~= Seq::<Seq<char>>::empty());
    } else {
        let a = encode_entry(t[0]);
        lemma_encoded_entry(t[0]);
        if t.len() == 1 {
            lemma_find_from_skip(a, '\n', 0, a.len() as int);
            assert(a.subrange(0, a.len() as int) =~= a);
            assert(entry_lines(t) =~= seq![a]);
        } else {
            let rest = t.drop_first();
            assert forall|i: int| 0 <= i < rest.len() implies storable_name(#[trigger] rest[i].name) by {
                assert(rest[i] == t[i + 1]);
            }
            lemma_lines_of_table(rest);
            let x = a + seq!['\n'];
            let b = encode_table(rest);
            let s = encode_table(t);
            assert(s =~= x + b);
            assert forall|k: int| 0 <= k < a.len() implies s[k] != '\n' by {
                assert(s[k] == a[k]);
            }
            lemma_find_from_skip(s, '\n', 0, a.len() as int);
            assert(s[a.len() as int] == '\n');
            assert(s.subrange(0, a.len() as int) =~= a);
            lemma_lines_from_shift(x, b, 0);
            assert(entry_lines(t) =~= seq![a] + entry_lines(rest));
        }
    }
}

/// Offering the entries of a best-first table, in order, to its first `k`
/// entries rebuilds the whole table.
proof fn lemma_load_entry_lines(t: Seq<EntryView>, k: int)
    requires
        table_wf(t),
        names_storable(t),
        0 <= k <= t.len(),
    ensures
        load_lines(t.take(k), entry_lines(t).skip(k)) == t,
    decreases t.len() - k,
{
    let lines = entry_lines(t).skip(k);
    if k == t.len() {
        assert(t.take(k) =~= t);
        assert(lines =~= Seq::<Seq<char>>::empty());
    } else {
        assert(lines[0] == encode_entry(t[k]));
        lemma_encoded_entry(t[k]);
        let prefix = t.take(k);
        assert forall|i: int| 0 <= i < prefix.len() implies #[trigger] prefix[i].score >= t[k].score by {
            assert(prefix[i] == t[i]);
        }
        lemma_insert_at_end(prefix, t[k]);
        assert(prefix.push(t[k]) =~= t.take(k + 1));
        assert(lines.drop_first() =~= entry_lines(t).skip(k + 1));
        lemma_load_entry_lines(t, k + 1);
    }
}

/// Reading back a stored table gives the table that was stored, provided no
/// name holds a tab or a newline.
pub proof fn law_decode_reads_back_encode(t: Seq<EntryView>)
    requires
        table_wf(t),
        names_storable(t),
    ensures
        decode_table(encode_table(t)) == t,
{
    lemma_lines_of_table(t);
    assert(t.take(0) =~= Seq::<EntryView>::empty());
    assert(entry_lines(t).skip(0) =~= entry_lines(t));
    lemma_load_entry_lines(t, 0);
}

/// Saving a board and reading the text back gives the same entries in the
/// same order, provided no name holds a tab or a newline.
pub proof fn law_stored_board_reads_back(board: Scoreboard)
    requires
        board.wf(),
        names_storable(board@),
    ensures
        decode_table(encode_table(board@)) == board@,
{
    law_decode_reads_back_encode(board@);
}

/// A name typed key by key stays storable: the characters name entry
/// accepts are printable ASCII, never a tab or a newline.
pub proof fn law_typed_names_are_storable<P>(state: GameState<P>, ch: char)
    requires
        storable_name(state.name_input@),
    ensures
        storable_name(if name_char_accepted(state, ch) { state.name_input@.push(ch) } else { state.name_input@ }),
{
    if name_char_accepted(state, ch) {
        let next = state.name_input@.push(ch);
        assert forall|k: int| 0 <= k < next.len() implies #[trigger] next[k] != '\t' && next[k] != '\n' by {
            if k < state.name_input@.len() {
                assert(next[k] == state.name_input@[k]);
            }
        }
    }
}

} // verus!

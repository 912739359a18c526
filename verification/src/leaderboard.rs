//! The score board: one entry for each player, with the best score and the
//! level it was reached on.

use vstd::prelude::*;
use vstd::string::{StrSliceExecFns, StringExecFns};
use core::cmp::Ordering;
use crate::game::GameContext;

verus! {

/// The best result of one player.
#[derive(Debug)]
pub struct Entry {
    pub level: u64,
    pub score: u64,
    pub username: String,
}

/// Why the score board could not do what was asked.
#[derive(Copy, Clone, Debug, PartialEq, Eq, Structural)]
pub enum EntryError {
    /// The board has no entry under the given name.
    EntryNotFount,
}

/// The entries of all players, in the order in which they were added.
pub struct LeaderBoard {
    pub entrys: Vec<Entry>,
}

/// The character of one decimal digit.
pub open spec fn digit(d: int) -> char {
    if d == 0 {
        '0'
    } else if d == 1 {
        '1'
    } else if d == 2 {
        '2'
    } else if d == 3 {
        '3'
    } else if d == 4 {
        '4'
    } else if d == 5 {
        '5'
    } else if d == 6 {
        '6'
    } else if d == 7 {
        '7'
    } else if d == 8 {
        '8'
    } else {
        '9'
    }
}

/// `n` in decimal, without leading zeros.
pub open spec fn decimal(n: nat) -> Seq<char>
    decreases n,
{
    if n < 10 {
        seq![digit(n as int)]
    } else {
        decimal(n / 10).push(digit((n % 10) as int))
    }
}

/// The spaces that fill a text of `len` characters up to `width`.
pub open spec fn padding(width: int, len: int) -> Seq<char> {
    Seq::new(if width > len { (width - len) as nat } else { 0 }, |i: int| ' ')
}

/// One line of the board: the name, filled with spaces to 20 characters, a
/// colon and a space, the score, filled to 10, the word for the level between
/// spaces with a colon, the level, set to the right of 3 characters, and a
/// line feed. A longer text is not cut.
pub open spec fn entry_line(username: Seq<char>, score: u64, level: u64) -> Seq<char> {
    username + padding(20, username.len() as int) + seq![':', ' '] + decimal(score as nat)
        + padding(10, decimal(score as nat).len() as int) + seq![
        ' ',
        'l',
        'e',
        'v',
        'e',
        'l',
        ' ',
        ':',
        ' ',
    ] + padding(3, decimal(level as nat).len() as int) + decimal(level as nat) + seq!['\n']
}

/// The lines of `entries`, one after the other.
pub open spec fn board_text(entries: Seq<Entry>) -> Seq<char>
    decreases entries.len(),
{
    if entries.len() == 0 {
        Seq::empty()
    } else {
        board_text(entries.drop_last()) + entries.last().line()
    }
}

/// The first index at or after `from` whose entry is under `username`, or the
/// number of entries if there is none.
pub open spec fn first_named(entries: Seq<Entry>, username: Seq<char>, from: int) -> int
    decreases entries.len() - from,
{
    if 0 <= from < entries.len() && entries[from].username@ != username {
        first_named(entries, username, from + 1)
    } else {
        from
    }
}

/// The first entry under a name lies at or after the start of the search, and
/// no entry between the two is under that name.
pub proof fn lemma_first_named(entries: Seq<Entry>, username: Seq<char>, from: int)
    requires
        0 <= from <= entries.len(),
    ensures
        from <= first_named(entries, username, from) <= entries.len(),
        first_named(entries, username, from) < entries.len() ==> entries[first_named(
            entries,
            username,
            from,
        )].username@ == username,
        forall|i: int|
            from <= i < first_named(entries, username, from) ==> (#[trigger] entries[i]).username@
                != username,
    decreases entries.len() - from,
{
    if from < entries.len() && entries[from].username@ != username {
        lemma_first_named(entries, username, from + 1);
    }
}

/// `std`'s `format!` of one number with `Display`, which writes an unsigned
/// integer in decimal: its digits alone, the highest first, with no leading
/// zero but for zero itself.
#[verifier::external_body]
fn decimal_text(n: u64) -> (text: String)
    ensures
        text@ == decimal(n as nat),
{
    format!("{}", n)
}

/// Appends to `text` the spaces that fill a field of `len` characters up to
/// `width`.
fn pad(text: &mut String, width: usize, len: usize)
    ensures
        final(text)@ == old(text)@ + padding(width as int, len as int),
{
    proof {
        reveal_strlit(" ");
        assert(text@ =~= old(text)@ + Seq::new(0, |i: int| ' '));
    }
    let mut filled: usize = len;
    while filled < width
        invariant
            len <= filled,
            filled <= width || filled == len,
            text@ == old(text)@ + Seq::new((filled - len) as nat, |i: int| ' '),
        decreases width - filled,
    {
        text.append(" ");
        proof {
            reveal_strlit(" ");
            assert(text@ =~= old(text)@ + Seq::new((filled + 1 - len) as nat, |i: int| ' '));
        }
        filled += 1;
    }
}

impl Entry {
    /// The entry of the player of `context`, with the score and the level
    /// that the game stands at.
    pub fn new(context: &GameContext) -> (entry: Entry)
        ensures
            entry.level == context.level,
            entry.score == context.score,
            entry.username == context.username,
    {
        Entry { level: context.level, score: context.score, username: context.username.clone() }
    }

    /// The entry's line on the board.
    pub open spec fn line(self) -> Seq<char> {
        entry_line(self.username@, self.score, self.level)
    }

    /// The entry's line on the board, as text.
    pub fn to_string(&self) -> (line: String)
        ensures
            line@ == self.line(),
    {
        let score = decimal_text(self.score);
        let level = decimal_text(self.level);
        let mut line = String::new();
        line.append(self.username.as_str());
        pad(&mut line, 20, self.username.as_str().unicode_len());
        line.append(": ");
        line.append(score.as_str());
        pad(&mut line, 10, score.as_str().unicode_len());
        line.append(" level : ");
        pad(&mut line, 3, level.as_str().unicode_len());
        line.append(level.as_str());
        line.append("\n");
        proof {
            reveal_strlit(": ");
            reveal_strlit(" level : ");
            reveal_strlit("\n");
            assert(": "@ =~= seq![':', ' ']);
            assert(" level : "@ =~= seq![' ', 'l', 'e', 'v', 'e', 'l', ' ', ':', ' ']);
            assert("\n"@ =~= seq!['\n']);
            assert(line@ =~= self.line());
        }
        line
    }
}

impl PartialEq for Entry {
    /// Two entries are equal where their scores are.
    fn eq(&self, other: &Entry) -> (same: bool) {
        self.score == other.score
    }
}

impl vstd::std_specs::cmp::PartialEqSpecImpl for Entry {
    open spec fn obeys_eq_spec() -> bool {
        true
    }

    open spec fn eq_spec(&self, other: &Entry) -> bool {
        self.score == other.score
    }
}

impl PartialOrd for Entry {
    /// Entries are ordered by their scores.
    fn partial_cmp(&self, other: &Entry) -> (order: Option<Ordering>) {
        if self.score > other.score {
            Some(Ordering::Greater)
        } else if self.score == other.score {
            Some(Ordering::Equal)
        } else {
            Some(Ordering::Less)
        }
    }
}

impl vstd::std_specs::cmp::PartialOrdSpecImpl for Entry {
    open spec fn obeys_partial_cmp_spec() -> bool {
        true
    }

    open spec fn partial_cmp_spec(&self, other: &Entry) -> Option<Ordering> {
        if self.score > other.score {
            Some(Ordering::Greater)
        } else if self.score == other.score {
            Some(Ordering::Equal)
        } else {
            Some(Ordering::Less)
        }
    }
}

impl LeaderBoard {
    /// The index of the first entry under `username`, or the number of
    /// entries if there is none.
    pub open spec fn position(self, username: Seq<char>) -> int {
        first_named(self.entrys@, username, 0)
    }

    /// Adds `entry` at the end of the board.
    pub fn add_entry(&mut self, entry: Entry)
        ensures
            final(self).entrys@ == old(self).entrys@.push(entry),
    {
        self.entrys.push(entry);
    }

    /// The first entry under `username`, to be changed in place, or `None`
    /// if the board has none under that name.
    pub fn get_entry(&mut self, username: &str) -> (found: Option<&mut Entry>)
        ensures
            found is Some <==> old(self).position(username@) < old(self).entrys.len(),
            match found {
                Some(entry) => {
                    &&& entry.username@ == username@
                    &&& *entry == old(self).entrys@[old(self).position(username@)]
                    &&& final(self).entrys@ == old(self).entrys@.update(
                        old(self).position(username@),
                        *final(entry),
                    )
                },
                None => final(self).entrys@ == old(self).entrys@,
            },
    {
        let wanted = username.to_owned();
        let mut i: usize = 0;
        proof {
            lemma_first_named(self.entrys@, username@, 0);
        }
        while i < self.entrys.len()
            invariant
                i <= self.entrys.len(),
                *self == *old(self),
                wanted@ == username@,
                first_named(self.entrys@, username@, i as int) == self.position(username@),
            decreases self.entrys.len() - i,
        {
            if self.entrys[i].username == wanted {
                return Some(&mut self.entrys[i]);
            }
            i += 1;
        }
        None
    }

    /// Raises the score and the level of the first entry under `username` to
    /// the given ones if `score` is above the entry's score, and leaves the
    /// entry as it is if not. Fails if the board has no entry under that name.
    pub fn update_entry(&mut self, username: &str, score: u64, level: u64) -> (done: Result<
        (),
        EntryError,
    >)
        ensures
            done is Ok <==> old(self).position(username@) < old(self).entrys.len(),
            final(self).entrys@ == old(self).updated(username@, score, level),
    {
        let entry: &mut Entry = match self.get_entry(username) {
            Some(entry) => entry,
            None => {
                return Err(EntryError::EntryNotFount);
            },
        };
        proof {
            lemma_first_named(old(self).entrys@, username@, 0);
        }
        if score > entry.score {
            entry.level = level;
            entry.score = score;
        }
        assert(self.entrys@ =~= old(self).updated(username@, score, level));
        Ok(())
    }

    /// The entries after `score` and `level` are offered under `username`:
    /// the first entry under that name takes them if `score` is above its own.
    pub open spec fn updated(self, username: Seq<char>, score: u64, level: u64) -> Seq<Entry> {
        let k = self.position(username);
        if k < self.entrys@.len() && score > self.entrys@[k].score {
            self.entrys@.update(k, Entry { level, score, username: self.entrys@[k].username })
        } else {
            self.entrys@
        }
    }

    /// The whole board as text, one line for each entry, in the board's
    /// order.
    pub fn to_string(&self) -> (text: String)
        ensures
            text@ == board_text(self.entrys@),
    {
        let mut text = String::new();
        let mut i: usize = 0;
        while i < self.entrys.len()
            invariant
                i <= self.entrys.len(),
                text@ == board_text(self.entrys@.take(i as int)),
            decreases self.entrys.len() - i,
        {
            let line = self.entrys[i].to_string();
            text.append(line.as_str());
            proof {
                assert(self.entrys@.take(i + 1).drop_last() =~= self.entrys@.take(i as int));
            }
            i += 1;
        }
        assert(self.entrys@.take(i as int) =~= self.entrys@);
        text
    }
}

} // verus!

use vstd::prelude::*;

use crate::shell::interface::ShellHistoryHandler;
use crate::util::error::{ErrorKind, ShellError};
use crate::util::text::{
    all_digits, chars_of, decimal, digits_value, find_char, first_index, is_all_digits, join_lines,
    join_with_newlines, lemma_first_index, lines, parse_u64, push_decimal, split_lines, string_of, sub_chars, text_option,
};

pub mod laws;

verus! {

/// Reads the clock through `std::time::SystemTime::elapsed` on `UNIX_EPOCH`: the whole
/// seconds since the epoch, or 0 when the clock stands before it. The reading depends on
/// the time, so nothing is stated of it.
#[verifier::external_body]
fn now_epoch_secs() -> u64 {
    std::time::UNIX_EPOCH.elapsed().map(|d| d.as_secs()).unwrap_or(0)
}

/// One command line of the history, with the time at which it was entered.
#[derive(Debug)]
pub struct HistoryEntry {
    /// Whole seconds since the Unix epoch.
    pub timestamp: u64,
    pub command: String,
}

impl View for HistoryEntry {
    type V = (nat, Seq<char>);

    open spec fn view(&self) -> (nat, Seq<char>) {
        (self.timestamp as nat, self.command@)
    }
}

/// What a line of a history file reads as.
pub enum LineParse {
    Entry(nat, Seq<char>),
    /// An error of kind `InvalidData` with this text.
    Error(Seq<char>),
}

/// A line of a history file is `<seconds> <command>`. A line whose part before the first
/// blank is not all digits is kept whole, stamped at the epoch.
pub open spec fn parse_line(line: Seq<char>) -> LineParse {
    let k = first_index(line, ' ');
    if k < 0 {
        LineParse::Error("split failed"@)
    } else {
        let time = line.take(k);
        if !all_digits(time) {
            LineParse::Entry(0, line)
        } else if time.len() == 0 {
            LineParse::Error("cannot parse integer from empty string"@)
        } else if digits_value(time) > u64::MAX {
            LineParse::Error("number too large to fit in target type"@)
        } else {
            LineParse::Entry(digits_value(time), line.skip(k + 1))
        }
    }
}

/// The line holds a time too far from the epoch for the system clock to represent
/// (reading it stops the program).
pub open spec fn line_beyond_clock(line: Seq<char>) -> bool {
    parse_line(line) matches LineParse::Entry(t, _) && t > i64::MAX
}

/// What the lines of a history file read as.
pub enum HistoryParse {
    Entries(Seq<(nat, Seq<char>)>),
    /// The first line that cannot be read gives an error of kind `InvalidData` with this text.
    Error(Seq<char>),
    /// A line before the first unreadable one holds a time beyond the system clock.
    BeyondClock,
}

pub open spec fn prepend_entries(es: Seq<(nat, Seq<char>)>, r: HistoryParse) -> HistoryParse {
    match r {
        HistoryParse::Entries(more) => HistoryParse::Entries(es + more),
        other => other,
    }
}

/// Reading the lines `ls` one by one, stopping at the first that cannot be read.
pub open spec fn parse_lines(ls: Seq<Seq<char>>) -> HistoryParse
    decreases ls.len(),
{
    if ls.len() == 0 {
        HistoryParse::Entries(seq![])
    } else {
        match parse_line(ls[0]) {
            LineParse::Error(m) => HistoryParse::Error(m),
            LineParse::Entry(t, c) => {
                if t > i64::MAX {
                    HistoryParse::BeyondClock
                } else {
                    prepend_entries(seq![(t, c)], parse_lines(ls.drop_first()))
                }
            },
        }
    }
}

/// What the text of a history file reads as.
pub open spec fn parse_history_text(s: Seq<char>) -> HistoryParse {
    parse_lines(lines(s))
}

/// The line that saving writes for an entry.
pub open spec fn entry_line(e: (nat, Seq<char>)) -> Seq<char> {
    decimal(e.0) + seq![' '] + e.1
}

/// The text that saving a history writes: one `<seconds> <command>` line per entry.
pub open spec fn saved_text(es: Seq<(nat, Seq<char>)>) -> Seq<char> {
    join_lines(Seq::new(es.len(), |k: int| entry_line(es[k])))
}

/// The commands joined by `\n`, with a final `\n`.
pub open spec fn commands_text(cs: Seq<Seq<char>>) -> Seq<char> {
    join_lines(cs) + seq!['\n']
}

pub open spec fn commands_of(es: Seq<(nat, Seq<char>)>) -> Seq<Seq<char>> {
    Seq::new(es.len(), |k: int| es[k].1)
}

impl HistoryEntry {
    /// An entry for `command`, stamped with the current time.
    /// An entry for `command`, stamped `timestamp` seconds after the Unix epoch.
    pub fn at(timestamp: u64, command: String) -> (e: Self)
        ensures
            e@ == (timestamp as nat, command@),
    {
        HistoryEntry { timestamp, command }
    }

    pub fn now(command: String) -> (e: Self)
        ensures
            e.command@ == command@,
    {
        Self::at(now_epoch_secs(), command)
    }

    /// Reads a line of a history file.
    pub fn from_line(line: &str) -> (r: Result<Self, ShellError>)
        requires
            !line_beyond_clock(line@),
        ensures
            match parse_line(line@) {
                LineParse::Entry(t, c) => r matches Ok(e) && e@ == (t, c),
                LineParse::Error(m) => r matches Err(e) && e.kind == ErrorKind::InvalidData
                    && e.message@ == m,
            },
    {
        let cs = chars_of(line);
        let n = cs.len();
        proof {
            lemma_first_index(cs@, ' ');
        }
        match find_char(cs.as_slice(), ' ') {
            None => Err(ShellError::from_text(ErrorKind::InvalidData, "split failed")),
            Some(k) => {
                let time = sub_chars(cs.as_slice(), 0, k);
                assert(time@ =~= line@.take(k as int));
                if !is_all_digits(time.as_slice()) {
                    return Ok(HistoryEntry { timestamp: 0, command: String::from_str(line) });
                }
                if time.len() == 0 {
                    return Err(
                        ShellError::from_text(
                            ErrorKind::InvalidData,
                            "cannot parse integer from empty string",
                        ),
                    );
                }
                match parse_u64(time.as_slice()) {
                    None => Err(
                        ShellError::from_text(
                            ErrorKind::InvalidData,
                            "number too large to fit in target type",
                        ),
                    ),
                    Some(t) => {
                        let command = sub_chars(cs.as_slice(), k + 1, n);
                        assert(command@ =~= line@.skip(k + 1));
                        Ok(HistoryEntry { timestamp: t, command: string_of(command.as_slice()) })
                    },
                }
            },
        }
    }
}

/// Whether the line holds a time too far from the epoch for the system clock.
pub fn line_past_clock(line: &str) -> (b: bool)
    ensures
        b == line_beyond_clock(line@),
{
    let cs = chars_of(line);
    proof {
        lemma_first_index(cs@, ' ');
    }
    match find_char(cs.as_slice(), ' ') {
        None => false,
        Some(k) => {
            let time = sub_chars(cs.as_slice(), 0, k);
            assert(time@ =~= line@.take(k as int));
            if !is_all_digits(time.as_slice()) || time.len() == 0 {
                return false;
            }
            match parse_u64(time.as_slice()) {
                None => false,
                Some(t) => t > 9223372036854775807u64,
            }
        },
    }
}

/// Whether reading the text of a history file meets a time beyond the system clock before
/// the first line that cannot be read (reading it then stops the program).
pub fn history_past_clock(content: &str) -> (b: bool)
    ensures
        b == (parse_history_text(content@) is BeyondClock),
{
    let ls = split_lines(content);
    let ghost all = lines(content@);
    let mut i: usize = 0;
    assert(all.skip(0) =~= all);
    while i < ls.len()
        invariant
            i <= ls@.len(),
            ls@.len() == all.len(),
            forall|k: int| 0 <= k < ls@.len() ==> #[trigger] ls@[k]@ == all[k],
            all == lines(content@),
            (parse_lines(all) is BeyondClock) == (parse_lines(all.skip(i as int)) is BeyondClock),
        decreases ls@.len() - i,
    {
        let ghost rest = all.skip(i as int);
        assert(rest[0] == all[i as int]);
        assert(rest.drop_first() =~= all.skip(i + 1));
        assert(ls@[i as int]@ == all[i as int]);
        if line_past_clock(ls[i].as_str()) {
            return true;
        }
        match HistoryEntry::from_line(ls[i].as_str()) {
            Ok(_) => {},
            Err(_) => {
                return false;
            },
        }
        i += 1;
    }
    assert(all.skip(i as int).len() == 0);
    false
}

/// The entry views of a sequence of entries.
pub open spec fn entry_views(v: Seq<HistoryEntry>) -> Seq<(nat, Seq<char>)> {
    Seq::new(v.len(), |k: int| v[k]@)
}

/// Reads the text of a history file.
pub fn parse_history(content: &str) -> (r: Result<Vec<HistoryEntry>, ShellError>)
    requires
        !(parse_history_text(content@) is BeyondClock),
    ensures
        match parse_history_text(content@) {
            HistoryParse::Entries(es) => r matches Ok(v) && entry_views(v@) == es,
            HistoryParse::Error(m) => r matches Err(e) && e.kind == ErrorKind::InvalidData
                && e.message@ == m,
            HistoryParse::BeyondClock => false,
        },
{
    let ls = split_lines(content);
    let ghost all = lines(content@);
    let mut out: Vec<HistoryEntry> = Vec::new();
    let mut i: usize = 0;
    assert(all.skip(0) =~= all);
    assert(prepend_entries(seq![], parse_lines(all)) == parse_lines(all)) by {
        match parse_lines(all) {
            HistoryParse::Entries(es) => {
                assert(Seq::<(nat, Seq<char>)>::empty() + es =~= es);
            },
            _ => {},
        }
    }
    assert(entry_views(out@) =~= seq![]);
    while i < ls.len()
        invariant
            i <= ls@.len(),
            ls@.len() == all.len(),
            forall|k: int| 0 <= k < ls@.len() ==> #[trigger] ls@[k]@ == all[k],
            all == lines(content@),
            !(parse_lines(all) is BeyondClock),
            parse_lines(all) == prepend_entries(entry_views(out@), parse_lines(all.skip(i as int))),
        decreases ls@.len() - i,
    {
        let ghost rest = all.skip(i as int);
        assert(rest[0] == all[i as int]);
        assert(rest.drop_first() =~= all.skip(i + 1));
        assert(ls@[i as int]@ == all[i as int]);
        match HistoryEntry::from_line(ls[i].as_str()) {
            Ok(e) => {
                let ghost before = entry_views(out@);
                out.push(e);
                proof {
                    assert(entry_views(out@) =~= before + seq![e@]);
                    match parse_lines(all.skip(i + 1)) {
                        HistoryParse::Entries(more) => {
                            assert(before + (seq![e@] + more) =~= (before + seq![e@]) + more);
                        },
                        _ => {},
                    }
                }
            },
            Err(err) => {
                return Err(err);
            },
        }
        i += 1;
    }
    proof {
        assert(all.skip(i as int).len() == 0);
        assert(entry_views(out@) + seq![] =~= entry_views(out@));
    }
    Ok(out)
}

/// `h1` is `h0` with `entry` recorded at the end and the cursor moved past it.
pub open spec fn recorded(h0: HistoryHandler, h1: HistoryHandler, entry: Seq<char>) -> bool {
    &&& h1.entries().len() == h0.entries().len() + 1
    &&& h1.entries().drop_last() == h0.entries()
    &&& h1.entries().last().1 == entry
    &&& h1.cursor() == h1.entries().len()
    &&& h1.appended() == h0.appended()
    &&& h1.file() == h0.file()
}

/// Stepping back from `h0` gives `h1` and the command `r`.
pub open spec fn stepped_back(h0: HistoryHandler, h1: HistoryHandler, r: Option<Seq<char>>) -> bool {
    &&& h1.entries() == h0.entries()
    &&& h1.appended() == h0.appended()
    &&& h1.file() == h0.file()
    &&& if h0.cursor() == 0 {
        r is None && h1.cursor() == 0
    } else {
        h1.cursor() == h0.cursor() - 1 && r == Some(h0.commands()[h0.cursor() - 1])
    }
}

/// Stepping forward from `h0` gives `h1` and the command `r`.
pub open spec fn stepped_forward(h0: HistoryHandler, h1: HistoryHandler, r: Option<Seq<char>>) -> bool {
    &&& h1.entries() == h0.entries()
    &&& h1.appended() == h0.appended()
    &&& h1.file() == h0.file()
    &&& if h0.cursor() + 1 >= h0.entries().len() {
        r is None && h1.cursor() == h0.cursor()
    } else {
        h1.cursor() == h0.cursor() + 1 && r == Some(h0.commands()[h0.cursor() + 1 as int])
    }
}

/// The history of entered command lines, with a cursor for stepping through it.
pub struct HistoryHandler {
    current_index: usize,
    appended_index: usize,
    history: Vec<HistoryEntry>,
    path: String,
}

impl HistoryHandler {
    /// The entries, oldest first.
    pub closed spec fn entries(&self) -> Seq<(nat, Seq<char>)> {
        entry_views(self.history@)
    }

    /// The position that stepping back and forth moves from.
    pub closed spec fn cursor(&self) -> nat {
        self.current_index as nat
    }

    /// How many entries an earlier append to a file has written.
    pub closed spec fn appended(&self) -> nat {
        self.appended_index as nat
    }

    /// The file the history is saved to.
    pub closed spec fn file(&self) -> Seq<char> {
        self.path@
    }

    pub open spec fn commands(&self) -> Seq<Seq<char>> {
        commands_of(self.entries())
    }

    /// How many entries there are.
    pub fn commands_len(&self) -> (n: usize)
        ensures
            n == self.entries().len(),
    {
        self.history.len()
    }

    /// Takes the history read from the default file at `path`; without one, starts empty
    /// and unsaved.
    pub fn finish_load(&mut self, loaded: Option<Vec<HistoryEntry>>, path: String)
        ensures
            loaded matches Some(v) ==> final(self).entries() == entry_views(v@) && final(self).file()
                == path@,
            loaded is None ==> final(self).entries() == Seq::<(nat, Seq<char>)>::empty()
                && final(self).file() == Seq::<char>::empty(),
            final(self).cursor() == final(self).entries().len(),
            final(self).appended() == old(self).appended(),
    {
        match loaded {
            Some(v) => {
                self.history = v;
                self.current_index = self.history.len();
                self.path = path;
            },
            None => {
                self.current_index = 0;
                self.history = Vec::new();
                self.path = String::new();
                assert(self.entries() =~= Seq::<(nat, Seq<char>)>::empty());
            },
        }
    }

    /// Adds the entries read from the file at `path`, which becomes the history's file.
    pub fn extend_loaded(&mut self, loaded: Vec<HistoryEntry>, path: String)
        ensures
            final(self).entries() == old(self).entries() + entry_views(loaded@),
            final(self).cursor() == final(self).entries().len(),
            final(self).appended() == old(self).appended(),
            final(self).file() == path@,
    {
        let mut loaded = loaded;
        let ghost added = entry_views(loaded@);
        self.history.append(&mut loaded);
        assert(self.entries() =~= old(self).entries() + added);
        self.current_index = self.history.len();
        self.path = path;
    }

    /// The text that saving the history writes: `<seconds> <command>` lines.
    pub fn save_text(&self) -> (s: String)
        ensures
            s@ == saved_text(self.entries()),
    {
        let mut parts: Vec<String> = Vec::new();
        let mut i: usize = 0;
        while i < self.history.len()
            invariant
                i <= self.history@.len(),
                parts@.len() == i,
                forall|k: int| 0 <= k < i ==> #[trigger] parts@[k]@ == entry_line(self.entries()[k]),
            decreases self.history@.len() - i,
        {
            let mut line = String::new();
            push_decimal(&mut line, self.history[i].timestamp);
            line.push(' ');
            line.append(self.history[i].command.as_str());
            assert(line@ =~= entry_line(self.entries()[i as int]));
            parts.push(line);
            i += 1;
        }
        let s = join_with_newlines(&parts);
        assert(Seq::new(parts@.len(), |k: int| parts@[k]@) =~= Seq::new(
            self.entries().len(),
            |k: int| entry_line(self.entries()[k]),
        ));
        s
    }

    /// The commands, one per line, each line ended by `\n`.
    pub fn commands_text(&self) -> (s: String)
        ensures
            s@ == commands_text(self.commands()),
    {
        let all = self.get_all();
        let mut s = join_with_newlines(&all);
        s.push('\n');
        assert(Seq::new(all@.len(), |k: int| all@[k]@) =~= self.commands());
        s
    }

    /// The commands not yet appended to a file, one per line, each ended by `\n`.
    pub fn unappended_text(&self) -> (s: String)
        ensures
            s@ == commands_text(
                if self.appended() <= self.commands().len() {
                    self.commands().skip(self.appended() as int)
                } else {
                    seq![]
                },
            ),
    {
        let mut parts: Vec<String> = Vec::new();
        let mut i: usize = self.appended_index;
        let ghost start: int = if self.appended() <= self.commands().len() {
            self.appended() as int
        } else {
            self.commands().len() as int
        };
        while i < self.history.len()
            invariant
                self.appended_index <= i || i == self.appended_index,
                start == if self.appended() <= self.commands().len() {
                    self.appended() as int
                } else {
                    self.commands().len() as int
                },
                start <= i <= self.history@.len() || (i == self.appended_index && i
                    > self.history@.len()),
                i >= self.appended_index,
                parts@.len() == if i <= self.history@.len() { i - start } else { 0 },
                forall|k: int| 0 <= k < parts@.len() ==> #[trigger] parts@[k]@ == self.commands()[start + k],
            decreases self.history@.len() - i,
        {
            parts.push(self.history[i].command.clone());
            i += 1;
        }
        let mut s = join_with_newlines(&parts);
        s.push('\n');
        proof {
            let rest = if self.appended() <= self.commands().len() {
                self.commands().skip(self.appended() as int)
            } else {
                seq![]
            };
            assert(Seq::new(parts@.len(), |k: int| parts@[k]@) =~= rest);
        }
        s
    }

    /// Notes that every entry has been appended to a file.
    pub fn mark_appended(&mut self)
        ensures
            final(self).appended() == old(self).entries().len(),
            final(self).entries() == old(self).entries(),
            final(self).cursor() == old(self).cursor(),
            final(self).file() == old(self).file(),
    {
        self.appended_index = self.history.len();
    }

    /// Forgets every entry; the cursor stays where it was.
    pub fn clear_entries(&mut self)
        ensures
            final(self).entries() == Seq::<(nat, Seq<char>)>::empty(),
            final(self).cursor() == old(self).cursor(),
            final(self).appended() == old(self).appended(),
            final(self).file() == old(self).file(),
    {
        self.history = Vec::new();
        assert(self.entries() =~= Seq::<(nat, Seq<char>)>::empty());
    }

    /// The file the history is saved to.
    pub fn path(&self) -> (s: String)
        ensures
            s@ == self.file(),
    {
        self.path.clone()
    }

    /// Makes `path` the history's file, and gives back the previous one.
    pub fn replace_path(&mut self, path: String) -> (previous: String)
        ensures
            previous@ == old(self).file(),
            final(self).file() == path@,
            final(self).entries() == old(self).entries(),
            final(self).cursor() == old(self).cursor(),
            final(self).appended() == old(self).appended(),
    {
        let previous = self.path.clone();
        self.path = path;
        previous
    }
}

impl ShellHistoryHandler for HistoryHandler {
    open spec fn recorded_commands(&self) -> Seq<Seq<char>> {
        self.commands()
    }

    open spec fn position(&self) -> nat {
        self.cursor()
    }

    fn new() -> (h: Self)
        ensures
            h.entries() == Seq::<(nat, Seq<char>)>::empty(),
            h.cursor() == 0,
            h.appended() == 0,
            h.file() == Seq::<char>::empty(),
    {
        let h = HistoryHandler {
            current_index: 0,
            appended_index: 0,
            history: Vec::new(),
            path: String::new(),
        };
        assert(h.entries() =~= Seq::<(nat, Seq<char>)>::empty());
        h
    }

    /// Records `entry`, stamped with the current time, and moves the cursor past the end.
    fn add_entry(&mut self, entry: &str)
        ensures
            recorded(*old(self), *final(self), entry@),
    {
        let e = HistoryEntry::now(String::from_str(entry));
        self.history.push(e);
        self.current_index = self.history.len();
        assert(self.entries().drop_last() =~= old(self).entries());
    }

    /// Removes the entry at `index`; an error of kind `InvalidInput` when there is none.
    fn remove_entry(&mut self, index: usize) -> (r: Result<(), ShellError>)
        ensures
            index >= old(self).entries().len() ==> (r matches Err(e) && e.kind
                == ErrorKind::InvalidInput && e.message@ == "Index out of bounds"@),
            index >= old(self).entries().len() ==> final(self).entries() == old(self).entries(),
            index < old(self).entries().len() ==> r is Ok && final(self).entries() == old(
                self,
            ).entries().remove(index as int),
            final(self).cursor() == old(self).cursor(),
            final(self).appended() == old(self).appended(),
            final(self).file() == old(self).file(),
    {
        if index >= self.history.len() {
            return Err(ShellError::from_text(ErrorKind::InvalidInput, "Index out of bounds"));
        }
        self.history.remove(index);
        assert(self.entries() =~= old(self).entries().remove(index as int));
        Ok(())
    }

    /// Steps back to the previous entry.
    fn get_previous(&mut self) -> (r: Option<String>)
        ensures
            stepped_back(*old(self), *final(self), text_option(r)),
    {
        if self.current_index == 0 {
            return None;
        }
        self.current_index -= 1;
        Some(self.history[self.current_index].command.clone())
    }

    /// Steps forward to the next entry, if the cursor is before the last one.
    fn get_next(&mut self) -> (r: Option<String>)
        ensures
            stepped_forward(*old(self), *final(self), text_option(r)),
    {
        if self.history.len() == 0 || self.current_index >= self.history.len() - 1 {
            return None;
        }
        self.current_index += 1;
        Some(self.history[self.current_index].command.clone())
    }

    /// The command of the `n`-th entry, counting from 0.
    fn get_nth(&self, n: usize) -> (r: Option<String>)
        ensures
            n >= self.entries().len() ==> r is None,
            n < self.entries().len() ==> (r matches Some(s) && s@ == self.commands()[n as int]),
    {
        if n >= self.history.len() {
            return None;
        }
        Some(self.history[n].command.clone())
    }

    /// The commands, oldest first.
    fn get_all(&self) -> (r: Vec<String>)
        ensures
            r@.len() == self.entries().len(),
            forall|k: int| 0 <= k < r@.len() ==> #[trigger] r@[k]@ == self.commands()[k],
    {
        let mut r: Vec<String> = Vec::new();
        let mut i: usize = 0;
        while i < self.history.len()
            invariant
                i <= self.history@.len(),
                r@.len() == i,
                forall|k: int| 0 <= k < i ==> #[trigger] r@[k]@ == self.commands()[k],
            decreases self.history@.len() - i,
        {
            r.push(self.history[i].command.clone());
            i += 1;
        }
        r
    }

    /// Moves the cursor past the last entry.
    fn reset_index(&mut self)
        ensures
            final(self).cursor() == old(self).entries().len(),
            final(self).entries() == old(self).entries(),
            final(self).appended() == old(self).appended(),
            final(self).file() == old(self).file(),
    {
        self.current_index = self.history.len();
    }
}

} // verus!

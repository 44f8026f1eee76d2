use vstd::prelude::*;

use crate::modules::auto_complete::{byte_len, TabState};
use crate::modules::history_handler::{recorded, stepped_back, stepped_forward, HistoryHandler};
use crate::modules::service_container::ServiceContainer;
use crate::modules::tokenizer::token::{models, Token, TokenModel};
use crate::modules::tokenizer::{tokenize_spec, TokenizeOutcome, Tokenizer};
use crate::shell::interface::{
    QueryModel, QueryResult, ShellAutoComplete, ShellHistoryHandler, ShellTokenizer,
};
use crate::util::error::{ErrorKind, ShellError};
use crate::util::text::{
    byte_offset, lines, split_lines, text_option, trim, trim_str,
};

pub mod interface;
pub mod laws;

verus! {

/// A command for the terminal.
#[derive(Debug)]
pub enum TermOp {
    /// Print text on the standard output.
    Print(String),
    /// Move the cursor to a column.
    MoveToColumn(u16),
    /// Move the cursor left by some columns.
    MoveLeft(u16),
    /// Move the cursor right by some columns.
    MoveRight(u16),
    /// Clear the line the cursor is on.
    ClearLine,
    /// Print text on the standard error stream.
    ErrPrint(String),
    /// Move the cursor to a column, through the standard error stream.
    ErrMoveToColumn(u16),
}

/// What a terminal command holds, with texts as sequences of characters.
pub enum OpModel {
    Print(Seq<char>),
    MoveToColumn(u16),
    MoveLeft(u16),
    MoveRight(u16),
    ClearLine,
    ErrPrint(Seq<char>),
    ErrMoveToColumn(u16),
}

impl View for TermOp {
    type V = OpModel;

    open spec fn view(&self) -> OpModel {
        match self {
            TermOp::Print(s) => OpModel::Print(s@),
            TermOp::MoveToColumn(c) => OpModel::MoveToColumn(*c),
            TermOp::MoveLeft(c) => OpModel::MoveLeft(*c),
            TermOp::MoveRight(c) => OpModel::MoveRight(*c),
            TermOp::ClearLine => OpModel::ClearLine,
            TermOp::ErrPrint(s) => OpModel::ErrPrint(s@),
            TermOp::ErrMoveToColumn(c) => OpModel::ErrMoveToColumn(*c),
        }
    }
}

pub open spec fn op_models(v: Seq<TermOp>) -> Seq<OpModel> {
    Seq::new(v.len(), |k: int| v[k]@)
}

/// A key that the shell reads.
#[derive(Clone, Copy, Debug, PartialEq, Eq, Structural)]
pub enum Key {
    Char(char),
    Enter,
    Tab,
    Backspace,
    Left,
    Right,
    Up,
    Down,
    Delete,
    Esc,
}

/// What a key press asks for.
#[derive(Debug)]
pub enum KeyAction {
    /// Send these commands to the terminal.
    Ops(Vec<TermOp>),
    /// End the shell.
    Interrupt,
    /// Run the line.
    Enter,
    /// Complete the command name.
    Tab,
    /// Erase the character before the cursor.
    Backspace,
}

/// What pressing enter leads to.
#[derive(Debug)]
pub enum EnterStep {
    /// The line is handled: send these commands to the terminal.
    Done(Vec<TermOp>),
    /// Send these commands, then run these tokens and give the outcome to `finish_line`.
    Run(Vec<TermOp>, Vec<Token>),
}

/// The interactive shell: the line being edited, the cursor, and the shared services.
pub struct Shell {
    pub buffer: String,
    pub cursor_x: u16,
    pub cursor_y: u16,
    pub services: ServiceContainer,
}

/// The prompt.
pub open spec fn prompt() -> Seq<char> {
    seq!['$', ' ']
}

/// The column just after a prompt followed by `s`, as a terminal column (modulo 2^16).
pub open spec fn column_after(s: Seq<char>) -> u16 {
    ((byte_len(s) % 65536 + 2) % 65536) as u16
}

/// The commands that draw the prompt and `s` on a cleared line, with the cursor at `col`.
pub open spec fn redraw(s: Seq<char>, col: u16) -> Seq<OpModel> {
    seq![
        OpModel::ClearLine,
        OpModel::MoveToColumn(0),
        OpModel::Print(prompt()),
        OpModel::Print(s),
        OpModel::MoveToColumn(col),
    ]
}

/// Each line printed on the standard output, followed by a return to the first column.
pub open spec fn out_lines(ls: Seq<Seq<char>>) -> Seq<OpModel>
    decreases ls.len(),
{
    if ls.len() == 0 {
        seq![]
    } else {
        out_lines(ls.drop_last()) + seq![
            OpModel::Print(ls.last()),
            OpModel::MoveToColumn(0),
            OpModel::Print(seq!['\r', '\n']),
        ]
    }
}

/// Each line printed on the standard error stream, followed by a return to the first column.
pub open spec fn err_lines(ls: Seq<Seq<char>>) -> Seq<OpModel>
    decreases ls.len(),
{
    if ls.len() == 0 {
        seq![]
    } else {
        err_lines(ls.drop_last()) + seq![
            OpModel::ErrPrint(ls.last()),
            OpModel::ErrMoveToColumn(0),
            OpModel::ErrPrint(seq!['\r', '\n']),
        ]
    }
}

/// The parts of the state that editing keys leave alone.
pub open spec fn same_services(a: Shell, b: Shell) -> bool {
    &&& b.services.history_handler == a.services.history_handler
    &&& b.services.auto_complete == a.services.auto_complete
}

/// The completion state is back at its start.
pub open spec fn completion_reset(s: Shell) -> bool {
    s.services.auto_complete.query_text() == Seq::<char>::empty() && s.services.auto_complete.state()
        == TabState::Idle
}

/// Typing `ch` at the cursor: inserted within the line or added at its end.
pub open spec fn typed(a: Shell, b: Shell, ch: char, ops: Seq<OpModel>) -> bool {
    let rel = a.cursor_x - 2;
    &&& if rel < byte_len(a.buffer@) {
        &&& forall|k: int|
            0 <= k <= a.buffer@.len() && byte_offset(a.buffer@, k) == rel ==> b.buffer@
                == a.buffer@.insert(k, ch)
        &&& ops == redraw(b.buffer@, (rel + 3) as u16)
    } else {
        &&& b.buffer@ == a.buffer@.push(ch)
        &&& ops == seq![OpModel::Print(seq![ch])]
    }
    &&& b.cursor_x == a.cursor_x + 1
    &&& b.cursor_y == a.cursor_y
    &&& b.services.history_handler == a.services.history_handler
    &&& completion_reset(b)
}

/// Typing `ch` does not stop the program: the cursor is after the prompt and not at the
/// last column, and when it stands within the line it stands where a character begins.
pub open spec fn can_type(a: Shell) -> bool {
    &&& a.cursor_x >= 2
    &&& a.cursor_x < u16::MAX
    &&& (a.cursor_x - 2 < byte_len(a.buffer@) ==> exists|k: int|
        0 <= k <= a.buffer@.len() && byte_offset(a.buffer@, k) == a.cursor_x - 2)
}

/// Backspace does not stop the program with the terminal cursor at `column`: the column is
/// not before the prompt, and past the prompt it follows a character of the line.
pub open spec fn can_erase(a: Shell, column: u16) -> bool {
    &&& column >= 2
    &&& column - 2 > 0 ==> exists|k: int|
        0 <= k < a.buffer@.len() && byte_offset(a.buffer@, k) == column - 3
}

/// Backspace with the terminal cursor at `column` takes `a` to `b`, sending `ops`: the
/// character before the cursor goes and the line is drawn again, the cursor kept over the
/// same character unless it was at the end; at the prompt nothing happens.
pub open spec fn erased(a: Shell, b: Shell, column: u16, ops: Seq<OpModel>) -> bool {
    &&& column - 2 == 0 ==> ops == Seq::<OpModel>::empty() && b.buffer == a.buffer
        && same_services(a, b)
    &&& column - 2 > 0 ==> {
        &&& forall|k: int|
            0 <= k < a.buffer@.len() && byte_offset(a.buffer@, k) == column - 3 ==> b.buffer@
                == a.buffer@.remove(k)
        &&& ops == redraw(b.buffer@, 0).take(4) + if column - 2 <= byte_len(b.buffer@) {
            seq![OpModel::MoveLeft(1)]
        } else {
            seq![]
        }
        &&& b.services.history_handler == a.services.history_handler
        &&& completion_reset(b)
    }
    &&& b.cursor_x == a.cursor_x
    &&& b.cursor_y == a.cursor_y
}

impl Shell {
    pub fn new() -> (s: Self)
        ensures
            s.buffer@ == Seq::<char>::empty(),
            s.cursor_x == 0,
            s.cursor_y == 0,
            s.services.history_handler.entries() == Seq::<(nat, Seq<char>)>::empty(),
            s.services.history_handler.cursor() == 0,
            completion_reset(s),
    {
        Shell { buffer: String::new(), cursor_x: 0, cursor_y: 0, services: ServiceContainer::new() }
    }

    /// Shows the prompt and puts the cursor after it.
    pub fn begin(&mut self) -> (ops: Vec<TermOp>)
        ensures
            op_models(ops@) == seq![OpModel::Print(prompt())],
            final(self).cursor_x == 2,
            final(self).cursor_y == old(self).cursor_y,
            final(self).buffer == old(self).buffer,
            same_services(*old(self), *final(self)),
    {
        let mut p = String::new();
        p.push('$');
        p.push(' ');
        assert(p@ =~= prompt());
        let ops = vec![TermOp::Print(p)];
        assert(op_models(ops@) =~= seq![OpModel::Print(prompt())]);
        self.cursor_x = 2;
        ops
    }

    fn redraw_ops(&self, col: u16) -> (ops: Vec<TermOp>)
        ensures
            op_models(ops@) == redraw(self.buffer@, col),
    {
        let mut p = String::new();
        p.push('$');
        p.push(' ');
        assert(p@ =~= prompt());
        let ops = vec![
            TermOp::ClearLine,
            TermOp::MoveToColumn(0),
            TermOp::Print(p),
            TermOp::Print(self.buffer.clone()),
            TermOp::MoveToColumn(col),
        ];
        assert(op_models(ops@) =~= redraw(self.buffer@, col));
        ops
    }

    fn column_after_buffer(&self) -> (c: u16)
        ensures
            c == column_after(self.buffer@),
    {
        let len = self.buffer.as_str().len();
        ((len % 65536 + 2) % 65536) as u16
    }

    /// Types `ch` at the cursor.
    pub fn insert_char(&mut self, ch: char) -> (ops: Vec<TermOp>)
        requires
            can_type(*old(self)),
        ensures
            typed(*old(self), *final(self), ch, op_models(ops@)),
    {
        let rel = (self.cursor_x - 2) as usize;
        let ops = if rel < self.buffer.as_str().len() {
            self.buffer.insert(rel, ch);
            self.redraw_ops((rel + 3) as u16)
        } else {
            self.buffer.push(ch);
            let mut s = String::new();
            s.push(ch);
            let ops = vec![TermOp::Print(s)];
            assert(op_models(ops@) =~= seq![OpModel::Print(seq![ch])]);
            ops
        };
        self.cursor_x = self.cursor_x + 1;
        self.services.auto_complete.reset();
        ops
    }

    /// Erases the character before the terminal cursor, which stands at `column`; the line
    /// is drawn again, and the cursor kept over the same character unless it was at the end.
    pub fn erase_before(&mut self, column: u16) -> (ops: Vec<TermOp>)
        requires
            can_erase(*old(self), column),
        ensures
            erased(*old(self), *final(self), column, op_models(ops@)),
    {
        let rel = (column - 2) as usize;
        if rel == 0 {
            let ops: Vec<TermOp> = Vec::new();
            assert(op_models(ops@) =~= Seq::<OpModel>::empty());
            return ops;
        }
        self.buffer.remove(rel - 1);
        let mut p = String::new();
        p.push('$');
        p.push(' ');
        assert(p@ =~= prompt());
        let mut ops = vec![
            TermOp::ClearLine,
            TermOp::MoveToColumn(0),
            TermOp::Print(p),
            TermOp::Print(self.buffer.clone()),
        ];
        if rel <= self.buffer.as_str().len() {
            ops.push(TermOp::MoveLeft(1));
        }
        assert(op_models(ops@) =~= redraw(self.buffer@, 0).take(4) + if rel <= byte_len(
            self.buffer@,
        ) {
            seq![OpModel::MoveLeft(1)]
        } else {
            seq![]
        });
        self.services.auto_complete.reset();
        ops
    }

    /// The command name to look for when the tab key is pressed.
    pub fn tab_query(&mut self) -> (q: String)
        ensures
            old(self).services.auto_complete.query_text().len() == 0 ==> q@ == trim(old(self).buffer@),
            old(self).services.auto_complete.query_text().len() > 0 ==> q@ == old(
                self,
            ).services.auto_complete.query_text(),
            final(self).services.auto_complete.query_text() == q@,
            final(self).services.auto_complete.state() == old(self).services.auto_complete.state(),
            final(self).services.history_handler == old(self).services.history_handler,
            final(self).buffer == old(self).buffer,
            final(self).cursor_x == old(self).cursor_x,
            final(self).cursor_y == old(self).cursor_y,
    {
        self.services.auto_complete.begin_query(self.buffer.as_str())
    }

    /// Completes the command name from the program names found; the cursor position is
    /// not changed.
    pub fn tab_complete(&mut self, names: Vec<String>) -> (ops: Vec<TermOp>)
        ensures
            final(self).cursor_x == old(self).cursor_x,
            final(self).cursor_y == old(self).cursor_y,
            final(self).services.history_handler == old(self).services.history_handler,
            final(self).services.auto_complete.query_text() == old(
                self,
            ).services.auto_complete.query_text(),
            ({
                let (r, st) = crate::modules::auto_complete::completion(
                    old(self).services.auto_complete.query_text(),
                    crate::modules::auto_complete::texts(names@),
                    old(self).services.auto_complete.state(),
                );
                &&& final(self).services.auto_complete.state() == st
                &&& match r {
                    QueryModel::NoMatch => op_models(ops@) == seq![OpModel::Print(seq!['\x07'])]
                        && final(self).buffer == old(self).buffer,
                    QueryModel::Bell => op_models(ops@) == seq![OpModel::Print(seq!['\x07'])]
                        && final(self).buffer == old(self).buffer,
                    QueryModel::CommonPrefix(c) => final(self).buffer@ == c && op_models(ops@)
                        == redraw(c, column_after(c)),
                    QueryModel::ExactMatch(c) => final(self).buffer@ == c.push(' ') && op_models(
                        ops@,
                    ) == redraw(c.push(' '), column_after(c.push(' '))),
                    QueryModel::SingleMatch(c) => final(self).buffer@ == c.push(' ') && op_models(
                        ops@,
                    ) == redraw(c.push(' '), column_after(c.push(' '))),
                    QueryModel::MultipleMatches(ms) => final(self).buffer == old(self).buffer
                        && op_models(ops@) == seq![
                        OpModel::ClearLine,
                        OpModel::MoveToColumn(0),
                        OpModel::Print(
                            prompt() + old(self).buffer@ + seq!['\r', '\n'] + trim(
                                spaced_names(ms),
                            ) + seq!['\r', '\n'] + prompt() + old(self).buffer@,
                        ),
                        OpModel::MoveToColumn(column_after(old(self).buffer@)),
                    ],
                }
            }),
    {
        let result = self.services.auto_complete.complete_query(names);
        match result {
            QueryResult::NoMatch | QueryResult::Bell => {
                let mut s = String::new();
                s.push('\x07');
                let ops = vec![TermOp::Print(s)];
                assert(op_models(ops@) =~= seq![OpModel::Print(seq!['\x07'])]);
                ops
            },
            QueryResult::CommonPrefix(cmd) => {
                self.buffer = cmd;
                let col = self.column_after_buffer();
                self.redraw_ops(col)
            },
            QueryResult::ExactMatch(cmd) | QueryResult::SingleMatch(cmd) => {
                let mut b = cmd;
                b.push(' ');
                self.buffer = b;
                let col = self.column_after_buffer();
                self.redraw_ops(col)
            },
            QueryResult::MultipleMatches(matches) => {
                let mut results = String::new();
                let mut i: usize = 0;
                while i < matches.len()
                    invariant
                        i <= matches@.len(),
                        results@ == spaced_names(
                            Seq::new(matches@.len(), |k: int| matches@[k]@).take(i as int),
                        ),
                    decreases matches@.len() - i,
                {
                    proof {
                        let all = Seq::new(matches@.len(), |k: int| matches@[k]@);
                        assert(all.take(i + 1).drop_last() =~= all.take(i as int));
                    }
                    results.push(' ');
                    results.append(matches[i].as_str());
                    i += 1;
                }
                assert(Seq::new(matches@.len(), |k: int| matches@[k]@).take(matches@.len() as int)
                    =~= Seq::new(matches@.len(), |k: int| matches@[k]@));
                let mut text = String::new();
                text.push('$');
                text.push(' ');
                text.append(self.buffer.as_str());
                text.push('\r');
                text.push('\n');
                let trimmed = trim_str(results.as_str());
                text.append(trimmed.as_str());
                text.push('\r');
                text.push('\n');
                text.push('$');
                text.push(' ');
                text.append(self.buffer.as_str());
                assert(text@ =~= prompt() + old(self).buffer@ + seq!['\r', '\n'] + trim(
                    spaced_names(Seq::new(matches@.len(), |k: int| matches@[k]@)),
                ) + seq!['\r', '\n'] + prompt() + old(self).buffer@);
                let col = self.column_after_buffer();
                let ops = vec![
                    TermOp::ClearLine,
                    TermOp::MoveToColumn(0),
                    TermOp::Print(text),
                    TermOp::MoveToColumn(col),
                ];
                assert(op_models(ops@) =~= seq![
                    OpModel::ClearLine,
                    OpModel::MoveToColumn(0),
                    OpModel::Print(
                        prompt() + old(self).buffer@ + seq!['\r', '\n'] + trim(
                            spaced_names(Seq::new(matches@.len(), |k: int| matches@[k]@)),
                        ) + seq!['\r', '\n'] + prompt() + old(self).buffer@,
                    ),
                    OpModel::MoveToColumn(column_after(old(self).buffer@)),
                ]);
                ops
            },
        }
    }
}

/// The names, each after a blank.
pub open spec fn spaced_names(ms: Seq<Seq<char>>) -> Seq<char>
    decreases ms.len(),
{
    if ms.len() == 0 {
        seq![]
    } else {
        spaced_names(ms.drop_last()) + seq![' '] + ms.last()
    }
}

/// Nothing the shell holds has changed.
pub open spec fn unchanged(a: Shell, b: Shell) -> bool {
    &&& b.buffer == a.buffer
    &&& b.cursor_x == a.cursor_x
    &&& b.cursor_y == a.cursor_y
    &&& same_services(a, b)
}

/// The left arrow: the cursor moves left unless it is just after the prompt.
pub open spec fn moved_left(a: Shell, b: Shell, ops: Seq<OpModel>) -> bool {
    &&& if a.cursor_x - 2 != 0 {
        ops == seq![OpModel::MoveLeft(1)] && b.cursor_x == a.cursor_x - 1
    } else {
        ops == Seq::<OpModel>::empty() && b.cursor_x == a.cursor_x
    }
    &&& b.buffer == a.buffer
    &&& b.cursor_y == a.cursor_y
    &&& same_services(a, b)
}

/// The right arrow: the cursor moves right while it is within the line (counted in bytes).
pub open spec fn moved_right(a: Shell, b: Shell, ops: Seq<OpModel>) -> bool {
    &&& if a.cursor_x - 2 < byte_len(a.buffer@) {
        ops == seq![OpModel::MoveRight(1)] && b.cursor_x == a.cursor_x + 1
    } else {
        ops == Seq::<OpModel>::empty() && b.cursor_x == a.cursor_x
    }
    &&& b.buffer == a.buffer
    &&& b.cursor_y == a.cursor_y
    &&& same_services(a, b)
}

/// A line is done: the prompt's line is the next one, the line and the completion are
/// cleared, and the history is as `a` left it.
pub open spec fn line_closed(a: Shell, b: Shell) -> bool {
    &&& b.buffer@ == Seq::<char>::empty()
    &&& b.cursor_x == 2
    &&& b.cursor_y == a.cursor_y + 1
    &&& completion_reset(b)
    &&& b.services.history_handler == a.services.history_handler
}

/// The commands that show the outcome of a line, then the prompt.
pub open spec fn outcome_ops(result: Result<String, ShellError>) -> Seq<OpModel> {
    match result {
        Ok(t) => if t@.len() > 0 {
            out_lines(lines(t@)) + seq![OpModel::Print(prompt())]
        } else {
            seq![OpModel::Print(prompt())]
        },
        Err(e) => err_lines(lines(e.message@)) + seq![OpModel::Print(prompt())],
    }
}

impl Shell {
    /// Reacts to a key; `ctrl` tells whether the control key is held.
    pub fn on_key(&mut self, key: Key, ctrl: bool) -> (r: KeyAction)
        requires
            !ctrl && key is Char ==> can_type(*old(self)),
            !ctrl && key is Left ==> old(self).cursor_x >= 2,
            !ctrl && key is Right ==> old(self).cursor_x >= 2 && (old(self).cursor_x - 2 < byte_len(
                old(self).buffer@,
            ) ==> old(self).cursor_x < u16::MAX),
        ensures
            ctrl && key == Key::Char('c') ==> r is Interrupt && unchanged(*old(self), *final(self)),
            ctrl && key == Key::Char('j') ==> r is Enter && unchanged(*old(self), *final(self)),
            ctrl && key != Key::Char('c') && key != Key::Char('j') ==> (r matches KeyAction::Ops(ops)
                && ops@.len() == 0) && unchanged(*old(self), *final(self)),
            !ctrl ==> match key {
                Key::Char(ch) => r matches KeyAction::Ops(ops) && typed(
                    *old(self),
                    *final(self),
                    ch,
                    op_models(ops@),
                ),
                Key::Enter => r is Enter && unchanged(*old(self), *final(self)),
                Key::Tab => r is Tab && unchanged(*old(self), *final(self)),
                Key::Backspace => r is Backspace && unchanged(*old(self), *final(self)),
                Key::Left => r matches KeyAction::Ops(ops) && moved_left(
                    *old(self),
                    *final(self),
                    op_models(ops@),
                ),
                Key::Right => r matches KeyAction::Ops(ops) && moved_right(
                    *old(self),
                    *final(self),
                    op_models(ops@),
                ),
                _ => (r matches KeyAction::Ops(ops) && ops@.len() == 0) && unchanged(
                    *old(self),
                    *final(self),
                ),
            },
    {
        if ctrl {
            if key == Key::Char('c') {
                return KeyAction::Interrupt;
            } else if key == Key::Char('j') {
                return KeyAction::Enter;
            }
            return KeyAction::Ops(Vec::new());
        }
        match key {
            Key::Char(ch) => KeyAction::Ops(self.insert_char(ch)),
            Key::Enter => KeyAction::Enter,
            Key::Tab => KeyAction::Tab,
            Key::Backspace => KeyAction::Backspace,
            Key::Left => {
                let mut ops: Vec<TermOp> = Vec::new();
                if self.cursor_x - 2 != 0 {
                    ops.push(TermOp::MoveLeft(1));
                    self.cursor_x = self.cursor_x - 1;
                    assert(op_models(ops@) =~= seq![OpModel::MoveLeft(1)]);
                } else {
                    assert(op_models(ops@) =~= Seq::<OpModel>::empty());
                }
                KeyAction::Ops(ops)
            },
            Key::Right => {
                let mut ops: Vec<TermOp> = Vec::new();
                if ((self.cursor_x - 2) as usize) < self.buffer.as_str().len() {
                    ops.push(TermOp::MoveRight(1));
                    self.cursor_x = self.cursor_x + 1;
                    assert(op_models(ops@) =~= seq![OpModel::MoveRight(1)]);
                } else {
                    assert(op_models(ops@) =~= Seq::<OpModel>::empty());
                }
                KeyAction::Ops(ops)
            },
            _ => KeyAction::Ops(Vec::new()),
        }
    }

    /// Shows the previous command of the history as the line.
    pub fn history_up(&mut self) -> (ops: Vec<TermOp>)
        requires
            old(self).services.history_handler.cursor() <= old(self).services.history_handler.entries().len(),
        ensures
            old(self).services.history_handler.cursor() == 0 ==> {
                &&& op_models(ops@) == Seq::<OpModel>::empty()
                &&& stepped_back(
                    old(self).services.history_handler,
                    final(self).services.history_handler,
                    None,
                )
                &&& final(self).buffer == old(self).buffer
                &&& final(self).cursor_x == old(self).cursor_x
                &&& final(self).cursor_y == old(self).cursor_y
                &&& final(self).services.auto_complete == old(self).services.auto_complete
            },
            old(self).services.history_handler.cursor() > 0 ==> {
                &&& stepped_back(
                    old(self).services.history_handler,
                    final(self).services.history_handler,
                    Some(final(self).buffer@),
                )
                &&& op_models(ops@) == redraw(final(self).buffer@, column_after(final(self).buffer@))
                &&& final(self).cursor_x == column_after(final(self).buffer@)
                &&& final(self).cursor_y == old(self).cursor_y
                &&& final(self).services.auto_complete == old(self).services.auto_complete
            },
    {
        match self.services.history_handler.get_previous() {
            Some(cmd) => {
                self.buffer = cmd;
                let x = self.column_after_buffer();
                let ops = self.redraw_ops(x);
                self.cursor_x = x;
                ops
            },
            None => {
                let ops: Vec<TermOp> = Vec::new();
                assert(op_models(ops@) =~= Seq::<OpModel>::empty());
                ops
            },
        }
    }

    /// Shows the next command of the history as the line.
    pub fn history_down(&mut self) -> (ops: Vec<TermOp>)
        ensures
            old(self).services.history_handler.cursor() + 1 >= old(
                self,
            ).services.history_handler.entries().len() ==> {
                &&& op_models(ops@) == Seq::<OpModel>::empty()
                &&& stepped_forward(
                    old(self).services.history_handler,
                    final(self).services.history_handler,
                    None,
                )
                &&& final(self).buffer == old(self).buffer
                &&& final(self).cursor_x == old(self).cursor_x
                &&& final(self).cursor_y == old(self).cursor_y
                &&& final(self).services.auto_complete == old(self).services.auto_complete
            },
            old(self).services.history_handler.cursor() + 1 < old(
                self,
            ).services.history_handler.entries().len() ==> {
                &&& stepped_forward(
                    old(self).services.history_handler,
                    final(self).services.history_handler,
                    Some(final(self).buffer@),
                )
                &&& op_models(ops@) == redraw(final(self).buffer@, column_after(final(self).buffer@))
                &&& final(self).cursor_x == column_after(final(self).buffer@)
                &&& final(self).cursor_y == old(self).cursor_y
                &&& final(self).services.auto_complete == old(self).services.auto_complete
            },
    {
        match self.services.history_handler.get_next() {
            Some(cmd) => {
                self.buffer = cmd;
                let x = self.column_after_buffer();
                let ops = self.redraw_ops(x);
                self.cursor_x = x;
                ops
            },
            None => {
                let ops: Vec<TermOp> = Vec::new();
                assert(op_models(ops@) =~= Seq::<OpModel>::empty());
                ops
            },
        }
    }

    fn close_line(&mut self)
        requires
            old(self).cursor_y < u16::MAX,
        ensures
            line_closed(*old(self), *final(self)),
    {
        self.cursor_x = 2;
        self.cursor_y = self.cursor_y + 1;
        self.services.auto_complete.reset();
        self.buffer = String::new();
    }

    /// Enter: the line is recorded in the history and tokenized; an empty line only moves
    /// the prompt down.
    pub fn enter_line(&mut self) -> (r: EnterStep)
        requires
            old(self).buffer@.len() > 0 ==> !(tokenize_spec(trim(old(self).buffer@)) is Unfinished),
            old(self).cursor_y < u16::MAX,
        ensures
            old(self).buffer@.len() == 0 ==> (r matches EnterStep::Done(ops) && ops@.len() == 0)
                && line_closed(*old(self), *final(self)),
            old(self).buffer@.len() > 0 ==> recorded(
                old(self).services.history_handler,
                final(self).services.history_handler,
                old(self).buffer@,
            ),
            old(self).buffer@.len() > 0 ==> match tokenize_spec(trim(old(self).buffer@)) {
                TokenizeOutcome::Tokens(ts) => {
                    &&& r matches EnterStep::Run(ops, toks) && models(toks@) == ts && op_models(
                        ops@,
                    ) == seq![OpModel::Print(seq!['\r', '\n']), OpModel::MoveToColumn(0)]
                    &&& final(self).buffer == old(self).buffer
                    &&& final(self).cursor_x == old(self).cursor_x
                    &&& final(self).cursor_y == old(self).cursor_y
                    &&& final(self).services.auto_complete == old(self).services.auto_complete
                },
                TokenizeOutcome::Fail(msg) => {
                    &&& r matches EnterStep::Done(ops) && op_models(ops@) == seq![
                        OpModel::Print(seq!['\r', '\n']),
                        OpModel::MoveToColumn(0),
                        OpModel::ErrPrint(msg),
                        OpModel::Print(seq!['\r', '\n']),
                        OpModel::Print(prompt()),
                    ]
                    &&& final(self).buffer@ == Seq::<char>::empty()
                    &&& final(self).cursor_x == 2
                    &&& final(self).cursor_y == old(self).cursor_y + 1
                    &&& completion_reset(*final(self))
                },
                TokenizeOutcome::Unfinished => false,
            },
    {
        if self.buffer.as_str().is_empty() {
            self.close_line();
            return EnterStep::Done(Vec::new());
        }
        let mut newline = String::new();
        newline.push('\r');
        newline.push('\n');
        assert(newline@ =~= seq!['\r', '\n']);
        let ops = vec![TermOp::Print(newline), TermOp::MoveToColumn(0)];
        self.services.history_handler.add_entry(self.buffer.as_str());
        let line = trim_str(self.buffer.as_str());
        match Tokenizer::tokenize(line.as_str()) {
            Ok(tokens) => {
                assert(op_models(ops@) =~= seq![OpModel::Print(seq!['\r', '\n']), OpModel::MoveToColumn(0)]);
                EnterStep::Run(ops, tokens)
            },
            Err(e) => {
                let ghost msg = e.message@;
                let mut nl0 = String::new();
                nl0.push('\r');
                nl0.push('\n');
                let mut nl = String::new();
                nl.push('\r');
                nl.push('\n');
                let mut p = String::new();
                p.push('$');
                p.push(' ');
                assert(nl0@ =~= seq!['\r', '\n']);
                assert(nl@ =~= seq!['\r', '\n']);
                assert(p@ =~= prompt());
                let ops = vec![
                    TermOp::Print(nl0),
                    TermOp::MoveToColumn(0),
                    TermOp::ErrPrint(e.message),
                    TermOp::Print(nl),
                    TermOp::Print(p),
                ];
                assert(op_models(ops@) =~= seq![
                    OpModel::Print(seq!['\r', '\n']),
                    OpModel::MoveToColumn(0),
                    OpModel::ErrPrint(msg),
                    OpModel::Print(seq!['\r', '\n']),
                    OpModel::Print(prompt()),
                ]);
                let ghost recorded_h = self.services.history_handler;
                self.close_line();
                EnterStep::Done(ops)
            },
        }
    }

    fn line_ops(text: &str, to_error: bool) -> (ops: Vec<TermOp>)
        ensures
            to_error ==> op_models(ops@) == err_lines(lines(text@)),
            !to_error ==> op_models(ops@) == out_lines(lines(text@)),
    {
        let ls = split_lines(text);
        let ghost all = lines(text@);
        let mut ops: Vec<TermOp> = Vec::new();
        let mut i: usize = 0;
        assert(all.take(0) =~= seq![]);
        assert(op_models(ops@) =~= Seq::<OpModel>::empty());
        while i < ls.len()
            invariant
                i <= ls@.len(),
                ls@.len() == all.len(),
                all == lines(text@),
                forall|k: int| 0 <= k < ls@.len() ==> #[trigger] ls@[k]@ == all[k],
                to_error ==> op_models(ops@) == err_lines(all.take(i as int)),
                !to_error ==> op_models(ops@) == out_lines(all.take(i as int)),
            decreases ls@.len() - i,
        {
            let ghost before = op_models(ops@);
            proof {
                assert(all.take(i + 1).drop_last() =~= all.take(i as int));
                assert(all.take(i + 1).last() == ls@[i as int]@);
            }
            let mut nl = String::new();
            nl.push('\r');
            nl.push('\n');
            assert(nl@ =~= seq!['\r', '\n']);
            if to_error {
                ops.push(TermOp::ErrPrint(ls[i].clone()));
                ops.push(TermOp::ErrMoveToColumn(0));
                ops.push(TermOp::ErrPrint(nl));
                assert(op_models(ops@) =~= before + seq![
                    OpModel::ErrPrint(ls@[i as int]@),
                    OpModel::ErrMoveToColumn(0),
                    OpModel::ErrPrint(seq!['\r', '\n']),
                ]);
            } else {
                ops.push(TermOp::Print(ls[i].clone()));
                ops.push(TermOp::MoveToColumn(0));
                ops.push(TermOp::Print(nl));
                assert(op_models(ops@) =~= before + seq![
                    OpModel::Print(ls@[i as int]@),
                    OpModel::MoveToColumn(0),
                    OpModel::Print(seq!['\r', '\n']),
                ]);
            }
            i += 1;
        }
        assert(all.take(ls@.len() as int) =~= all);
        ops
    }

    /// Shows the outcome of the line that `enter_line` handed out, and readies the next
    /// line; an error of kind `Interrupted` ends the shell and is handed back.
    pub fn finish_line(&mut self, result: Result<String, ShellError>) -> (r: Result<Vec<TermOp>, ShellError>)
        requires
            old(self).cursor_y < u16::MAX,
        ensures
            (result matches Err(e) && e.kind == ErrorKind::Interrupted) ==> (r matches Err(e2)
                && e2.kind == ErrorKind::Interrupted && e2.message@ == result->Err_0.message@)
                && unchanged(*old(self), *final(self)),
            !(result matches Err(e) && e.kind == ErrorKind::Interrupted) ==> (r matches Ok(ops)
                && op_models(ops@) == outcome_ops(result)) && line_closed(*old(self), *final(self)),
    {
        let ghost res = result;
        let mut ops = match result {
            Ok(text) => {
                if text.as_str().is_empty() {
                    Vec::new()
                } else {
                    Self::line_ops(text.as_str(), false)
                }
            },
            Err(e) => {
                if e.kind == ErrorKind::Interrupted {
                    return Err(e);
                }
                Self::line_ops(e.message.as_str(), true)
            },
        };
        let ghost before = op_models(ops@);
        let mut p = String::new();
        p.push('$');
        p.push(' ');
        assert(p@ =~= prompt());
        ops.push(TermOp::Print(p));
        assert(op_models(ops@) =~= before + seq![OpModel::Print(prompt())]);
        proof {
            match res {
                Ok(t) => {
                    if t@.len() == 0 {
                        assert(before =~= Seq::<OpModel>::empty());
                    }
                },
                _ => {},
            }
        }
        self.close_line();
        Ok(ops)
    }
}

} // verus!

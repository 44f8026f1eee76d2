use vstd::prelude::*;

use crate::modules::auto_complete::texts;
use crate::modules::provider::{CommandStep, StepModel};
use crate::util::error::{ErrorKind, ShellError};
use crate::util::text::trim;

verus! {

/// What completing a command name with the tab key gives.
#[derive(PartialEq, Eq, Debug)]
pub enum QueryResult {
    /// No program name begins with the query.
    NoMatch,
    /// Nothing to complete: ring the bell.
    Bell,
    /// A program has exactly the query as its name.
    ExactMatch(String),
    /// One program name begins with the query.
    SingleMatch(String),
    /// The names that begin with the query share a longer beginning.
    CommonPrefix(String),
    /// Every name that begins with the query.
    MultipleMatches(Vec<String>),
}

/// What a completion result holds, with texts as sequences of characters.
pub enum QueryModel {
    NoMatch,
    Bell,
    ExactMatch(Seq<char>),
    SingleMatch(Seq<char>),
    CommonPrefix(Seq<char>),
    MultipleMatches(Seq<Seq<char>>),
}

impl View for QueryResult {
    type V = QueryModel;

    open spec fn view(&self) -> QueryModel {
        match self {
            QueryResult::NoMatch => QueryModel::NoMatch,
            QueryResult::Bell => QueryModel::Bell,
            QueryResult::ExactMatch(s) => QueryModel::ExactMatch(s@),
            QueryResult::SingleMatch(s) => QueryModel::SingleMatch(s@),
            QueryResult::CommonPrefix(s) => QueryModel::CommonPrefix(s@),
            QueryResult::MultipleMatches(v) => QueryModel::MultipleMatches(
                Seq::new(v@.len(), |k: int| v@[k]@),
            ),
        }
    }
}

} // verus!

verus! {

/// Splits a command line into tokens of type `T`.
pub trait ShellTokenizer<T> {
    /// Whether `input` can be split as it stands.
    spec fn splits(input: Seq<char>) -> bool;

    /// Whether `r` is what splitting `input` gives.
    spec fn split_as(input: Seq<char>, r: Result<Vec<T>, ShellError>) -> bool;

    fn tokenize(input: &str) -> (r: Result<Vec<T>, ShellError>)
        requires
            Self::splits(input@),
        ensures
            Self::split_as(input@, r),
    ;
}

/// Writes tokens back out as text.
pub trait ShellTokenSerializer {
    /// The text of the tokens from position `skip` on.
    spec fn text_from(&self, skip: nat) -> Seq<char>;

    fn serialize(&self, skip: usize) -> (s: String)
        ensures
            s@ == self.text_from(skip as nat),
    ;
}

/// A builtin command of the shell, run on tokens of type `T` with services `C`.
pub trait ShellCommand<T, C> {
    /// What the command does with `tokens` and `services`; `Crash` where it stops the program.
    spec fn outcome(tokens: Seq<T>, services: C) -> StepModel;

    fn run(tokens: &[T], services: &C) -> (r: CommandStep)
        requires
            !(Self::outcome(tokens@, *services) is Crash),
        ensures
            r@ == Self::outcome(tokens@, *services),
    ;
}

/// Finds and runs the builtin command of a given name.
pub trait ShellCommandProvider<T, C> {
    /// What the builtin `cmd` does with `tokens` and `services`; `Crash` where it stops the
    /// program.
    spec fn outcome(cmd: Seq<char>, tokens: Seq<T>, services: C) -> StepModel;

    /// The names of the builtin commands.
    spec fn command_names() -> Seq<Seq<char>>;

    fn run(cmd: &str, tokens: &[T], services: &C) -> (r: CommandStep)
        requires
            !(Self::outcome(cmd@, tokens@, *services) is Crash),
        ensures
            r@ == Self::outcome(cmd@, tokens@, *services),
    ;

    fn get_commands() -> (r: Vec<&'static str>)
        ensures
            r@.len() == Self::command_names().len(),
            forall|k: int| 0 <= k < r@.len() ==> #[trigger] r@[k]@ == Self::command_names()[k],
    ;
}

/// Completes a command name from the names of the programs that begin with it.
pub trait ShellAutoComplete: Sized {
    /// The query being completed; empty when none is.
    spec fn pending_query(&self) -> Seq<char>;

    /// Whether no tab press has been counted yet.
    spec fn at_rest(&self) -> bool;

    /// Whether completing from `before` with the matching names `names` may answer `r` and
    /// leave `after`.
    spec fn completes(before: Self, names: Seq<Seq<char>>, r: QueryModel, after: Self) -> bool;

    fn new() -> (a: Self)
        ensures
            a.pending_query() == Seq::<char>::empty(),
            a.at_rest(),
    ;

    fn reset(&mut self)
        ensures
            final(self).pending_query() == Seq::<char>::empty(),
            final(self).at_rest(),
    ;

    /// Takes the query from `command` unless one is pending, and gives it back.
    fn begin_query(&mut self, command: &str) -> (q: String)
        ensures
            old(self).pending_query().len() == 0 ==> final(self).pending_query() == trim(command@),
            old(self).pending_query().len() > 0 ==> final(self).pending_query() == old(self).pending_query(),
            final(self).at_rest() == old(self).at_rest(),
            q@ == final(self).pending_query(),
    ;

    /// Answers the pending query from the names of the programs that begin with it.
    fn complete_query(&mut self, names: Vec<String>) -> (r: QueryResult)
        ensures
            final(self).pending_query() == old(self).pending_query(),
            Self::completes(*old(self), texts(names@), r@, *final(self)),
    ;
}

/// The history of the command lines entered, with a cursor for stepping through it.
pub trait ShellHistoryHandler: Sized {
    /// The commands, oldest first.
    spec fn recorded_commands(&self) -> Seq<Seq<char>>;

    /// The position that stepping back and forth moves from.
    spec fn position(&self) -> nat;

    fn new() -> (h: Self)
        ensures
            h.recorded_commands() == Seq::<Seq<char>>::empty(),
            h.position() == 0,
    ;

    fn add_entry(&mut self, entry: &str)
        ensures
            final(self).recorded_commands() == old(self).recorded_commands().push(entry@),
            final(self).position() == final(self).recorded_commands().len(),
    ;

    fn remove_entry(&mut self, index: usize) -> (r: Result<(), ShellError>)
        ensures
            index >= old(self).recorded_commands().len() ==> (r matches Err(e) && e.kind
                == ErrorKind::InvalidInput && final(self).recorded_commands() == old(self).recorded_commands()),
            index < old(self).recorded_commands().len() ==> r is Ok && final(self).recorded_commands() == old(self).recorded_commands().remove(index as int),
            final(self).position() == old(self).position(),
    ;

    fn get_previous(&mut self) -> (r: Option<String>)
        requires
            old(self).position() <= old(self).recorded_commands().len(),
        ensures
            final(self).recorded_commands() == old(self).recorded_commands(),
            old(self).position() == 0 ==> r is None && final(self).position() == 0,
            old(self).position() > 0 ==> final(self).position() == old(self).position() - 1,
            old(self).position() > 0 ==> (r matches Some(s) && s@ == old(
                self
            ).recorded_commands()[old(self).position() - 1]),
    ;

    fn get_next(&mut self) -> (r: Option<String>)
        ensures
            final(self).recorded_commands() == old(self).recorded_commands(),
            old(self).position() + 1 >= old(self).recorded_commands().len() ==> r is None
                && final(self).position() == old(self).position(),
            old(self).position() + 1 < old(self).recorded_commands().len() ==> final(
                self
            ).position() == old(self).position() + 1,
            old(self).position() + 1 < old(self).recorded_commands().len() ==> (r matches Some(
                s
            ) && s@ == old(self).recorded_commands()[old(self).position() + 1 as int]),
    ;

    fn get_all(&self) -> (r: Vec<String>)
        ensures
            r@.len() == self.recorded_commands().len(),
            forall|k: int| 0 <= k < r@.len() ==> #[trigger] r@[k]@ == self.recorded_commands()[k],
    ;

    fn get_nth(&self, n: usize) -> (r: Option<String>)
        ensures
            n >= self.recorded_commands().len() ==> r is None,
            n < self.recorded_commands().len() ==> (r matches Some(s) && s@
                == self.recorded_commands()[n as int]),
    ;

    fn reset_index(&mut self)
        ensures
            final(self).recorded_commands() == old(self).recorded_commands(),
            final(self).position() == final(self).recorded_commands().len(),
    ;
}

} // verus!

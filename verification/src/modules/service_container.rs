use vstd::prelude::*;

use crate::modules::auto_complete::{AutoComplete, TabState};
use crate::modules::history_handler::HistoryHandler;
use crate::shell::interface::{ShellAutoComplete, ShellHistoryHandler};

verus! {

/// The services that the shell's commands share.
pub struct ServiceContainer {
    pub history_handler: HistoryHandler,
    pub auto_complete: AutoComplete,
}

impl ServiceContainer {
    pub fn new() -> (s: Self)
        ensures
            s.history_handler.entries() == Seq::<(nat, Seq<char>)>::empty(),
            s.history_handler.cursor() == 0,
            s.history_handler.appended() == 0,
            s.history_handler.file() == Seq::<char>::empty(),
            s.auto_complete.query_text() == Seq::<char>::empty(),
            s.auto_complete.state() == TabState::Idle,
    {
        ServiceContainer { history_handler: HistoryHandler::new(), auto_complete: AutoComplete::new() }
    }
}

} // verus!

use vstd::prelude::*;

verus! {

/// One decoded client request, tagged with the numeric connection handle of
/// its submitter. Illegal actions are rejected without mutating the session.
#[derive(Debug)]
pub enum Action {
    Join(usize, String),
    DisconnectPlayer(usize),
    Start(usize),
    GiveHint(usize, String),
    FilterHint(usize, String, bool),
    FinishHintFiltering(usize),
    Guess(usize, Option<String>),
    Judge(usize, bool),
    FinishJudging(usize),
    Leave(usize),
}

} // verus!

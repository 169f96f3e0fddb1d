use vstd::prelude::*;

use crate::hints::HintMap;

verus! {

/// Hints are being gathered from the non-active players for `word`.
#[derive(Debug)]
pub struct HintCollection {
    pub word: String,
    pub hints: HintMap,
}

/// The gathered hints are being vetted by the non-active players.
#[derive(Debug)]
pub struct HintFiltering {
    pub word: String,
    pub hints: HintMap,
}

/// The active player is guessing `word` from the allowed hints.
#[derive(Debug)]
pub struct Guessing {
    pub word: String,
    pub hints: HintMap,
    pub guess: Option<String>,
}

/// The non-active players are judging the guess; `success` records the
/// verdict once one of them has judged.
#[derive(Debug)]
pub struct Judging {
    pub word: String,
    pub hints: HintMap,
    pub guess: Option<String>,
    pub success: Option<bool>,
}

impl Default for HintCollection {
    fn default() -> (p: Self)
        ensures
            p.word@ == Seq::<char>::empty(),
            p.hints.entries@.len() == 0,
    {
        HintCollection { word: String::new(), hints: HintMap::new() }
    }
}

impl Default for HintFiltering {
    fn default() -> (p: Self)
        ensures
            p.word@ == Seq::<char>::empty(),
            p.hints.entries@.len() == 0,
    {
        HintFiltering { word: String::new(), hints: HintMap::new() }
    }
}

impl Default for Guessing {
    fn default() -> (p: Self)
        ensures
            p.word@ == Seq::<char>::empty(),
            p.hints.entries@.len() == 0,
            p.guess is None,
    {
        Guessing { word: String::new(), hints: HintMap::new(), guess: None }
    }
}

impl Default for Judging {
    fn default() -> (p: Self)
        ensures
            p.word@ == Seq::<char>::empty(),
            p.hints.entries@.len() == 0,
            p.guess is None,
            p.success is None,
    {
        Judging { word: String::new(), hints: HintMap::new(), guess: None, success: None }
    }
}

/// The five-stage round lifecycle. Exactly one stage is current at a time.
#[derive(Debug)]
pub enum GamePhase {
    GatherPlayers,
    HintCollection(HintCollection),
    HintFiltering(HintFiltering),
    Guessing(Guessing),
    Judging(Judging),
}

impl Default for GamePhase {
    fn default() -> (p: Self)
        ensures
            p is GatherPlayers,
    {
        GamePhase::GatherPlayers
    }
}

/// A value-wise copy of an optional string.
pub fn clone_opt_string(o: &Option<String>) -> (r: Option<String>)
    ensures
        r == *o,
{
    match o {
        Some(s) => Some(s.clone()),
        None => None,
    }
}

impl Clone for Judging {
    fn clone(&self) -> (r: Self)
        ensures
            r.word == self.word,
            r.hints.entries@ == self.hints.entries@,
            r.guess == self.guess,
            r.success == self.success,
    {
        Judging {
            word: self.word.clone(),
            hints: self.hints.clone_map(),
            guess: clone_opt_string(&self.guess),
            success: self.success,
        }
    }
}

} // verus!

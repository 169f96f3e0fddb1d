use vstd::prelude::*;

use crate::action::Action;
use crate::hints::{allowed_contents_of, allowed_names_of, names_of, Hint, HintMap};
use crate::phase::{clone_opt_string, GamePhase, Guessing, HintFiltering, Judging};
use crate::player::{
    clone_past_rounds, clone_players, find_handle, first_handle, has_handle,
    lemma_first_handle_unique, PastRound, Player,
};
use crate::state::State;

verus! {

/// What the active player sees while hints are gathered: only who has
/// submitted, never any content.
#[derive(Debug)]
pub struct ActiveHintCollection {
    pub players_done: Vec<String>,
}

/// What a non-active player sees while hints are gathered: the word, their
/// own hint (so they can edit it), and who has submitted — nobody else's
/// content.
#[derive(Debug)]
pub struct InactiveHintCollection {
    pub word: String,
    pub hint: Option<Hint>,
    pub players_done: Vec<String>,
}

#[derive(Debug)]
pub enum VisibleHintCollection {
    Active(ActiveHintCollection),
    Inactive(InactiveHintCollection),
}

/// What the active player sees during filtering: only the names of the
/// authors whose hint is still allowed.
#[derive(Debug)]
pub struct ActiveHintFiltering {
    pub players_valid_hints: Vec<String>,
}

/// The filtering crew sees everything: the word and the full hint map.
#[derive(Debug)]
pub struct InactiveHintFiltering(pub HintFiltering);

#[derive(Debug)]
pub enum VisibleHintFiltering {
    Active(ActiveHintFiltering),
    Inactive(InactiveHintFiltering),
}

/// A hint content with its authorship stripped.
#[derive(Debug)]
pub struct VisibleHint(pub String);

/// What the guesser sees: the allowed hint contents, anonymised and keyed by
/// nothing but their position.
#[derive(Debug)]
pub struct ActiveGuessing {
    pub hints: Vec<VisibleHint>,
    pub guess: Option<String>,
}

/// A non-guessing player sees the whole guessing state.
#[derive(Debug)]
pub struct InactiveGuessing(pub Guessing);

#[derive(Debug)]
pub enum VisibleGuessing {
    Active(ActiveGuessing),
    Inactive(InactiveGuessing),
}

/// Judgment is public: both sides see the full judging state.
#[derive(Debug)]
pub enum VisibleJudging {
    Active(Judging),
    Inactive(Judging),
}

/// The redacted, per-viewer projection of the current phase.
#[derive(Debug)]
pub enum VisibleGamePhase {
    GatherPlayers,
    HintCollection(VisibleHintCollection),
    HintFiltering(VisibleHintFiltering),
    Guessing(VisibleGuessing),
    Judging(VisibleJudging),
}

impl Default for VisibleGamePhase {
    fn default() -> (p: Self)
        ensures
            p is GatherPlayers,
    {
        VisibleGamePhase::GatherPlayers
    }
}

/// The snapshot pushed to one viewer after every processed action.
#[derive(Debug)]
pub struct PlayerView {
    pub players: Vec<Player>,
    pub me: Option<Player>,
    pub phase: VisibleGamePhase,
    pub actions: Vec<Action>,
    pub past_rounds: Vec<PastRound>,
}

impl Default for VisibleHint {
    fn default() -> (h: Self)
        ensures
            h.0@ == Seq::<char>::empty(),
    {
        VisibleHint(String::new())
    }
}

impl Default for PlayerView {
    /// The view a client holds before the first broadcast arrives.
    fn default() -> (v: Self)
        ensures
            v.players@.len() == 0,
            v.me is None,
            v.phase is GatherPlayers,
            v.actions@.len() == 0,
            v.past_rounds@.len() == 0,
    {
        PlayerView {
            players: Vec::new(),
            me: None,
            phase: VisibleGamePhase::GatherPlayers,
            actions: Vec::new(),
            past_rounds: Vec::new(),
        }
    }
}

/// The anonymised list `vs` carries exactly the strings of `contents`, in
/// order.
pub open spec fn visible_hints_match(vs: Seq<VisibleHint>, contents: Seq<String>) -> bool {
    vs.len() == contents.len() && forall|i: int| 0 <= i < vs.len() ==> vs[i].0 == contents[i]
}

/// Both judging projections carry the full judging state.
pub open spec fn judging_view_ok(j: Judging, vj: Judging) -> bool {
    vj.word == j.word && vj.hints.entries@ == j.hints.entries@ && vj.guess == j.guess && vj.success
        == j.success
}

/// The redaction rules, viewer by viewer. An unregistered viewer sees no
/// phase payload at all. The active player never sees hint contents before
/// judging (during collection only author names, during filtering only the
/// names still allowed, during guessing only anonymised allowed contents),
/// while a non-active player sees the word and, during collection, their own
/// hint but nobody else's.
pub open spec fn phase_view_ok(s: State, id: usize, v: VisibleGamePhase) -> bool {
    if !has_handle(s.players@, id) {
        v is GatherPlayers
    } else {
        let viewer = first_handle(s.players@, id);
        let viewer_name = s.players@[viewer].name;
        let active = viewer == s.active();
        match s.phase {
            GamePhase::GatherPlayers => v is GatherPlayers,
            GamePhase::HintCollection(hc) => {
                if active {
                    v matches VisibleGamePhase::HintCollection(
                        VisibleHintCollection::Active(a),
                    ) && a.players_done@ == names_of(hc.hints.entries@)
                } else {
                    v matches VisibleGamePhase::HintCollection(
                        VisibleHintCollection::Inactive(ia),
                    ) && ia.word == hc.word && ia.hint == hc.hints.spec_get(viewer_name@)
                        && ia.players_done@ == names_of(hc.hints.entries@)
                }
            },
            GamePhase::HintFiltering(hf) => {
                if active {
                    v matches VisibleGamePhase::HintFiltering(
                        VisibleHintFiltering::Active(a),
                    ) && a.players_valid_hints@ == allowed_names_of(hf.hints.entries@)
                } else {
                    v matches VisibleGamePhase::HintFiltering(
                        VisibleHintFiltering::Inactive(ih),
                    ) && ih.0.word == hf.word && ih.0.hints.entries@ == hf.hints.entries@
                }
            },
            GamePhase::Guessing(g) => {
                if active {
                    v matches VisibleGamePhase::Guessing(VisibleGuessing::Active(a))
                        && visible_hints_match(a.hints@, allowed_contents_of(g.hints.entries@))
                        && a.guess is None
                } else {
                    v matches VisibleGamePhase::Guessing(VisibleGuessing::Inactive(ig))
                        && ig.0.word == g.word && ig.0.hints.entries@ == g.hints.entries@
                        && ig.0.guess == g.guess
                }
            },
            GamePhase::Judging(j) => {
                if active {
                    v matches VisibleGamePhase::Judging(VisibleJudging::Active(vj))
                        && judging_view_ok(j, vj)
                } else {
                    v matches VisibleGamePhase::Judging(VisibleJudging::Inactive(vj))
                        && judging_view_ok(j, vj)
                }
            },
        }
    }
}

/// The advisory legal-action list, viewer by viewer: the guard table again,
/// from the client's side. An unregistered viewer gets exactly a join
/// template; every registered viewer gets a leave appended unconditionally.
pub open spec fn actions_ok(s: State, id: usize, r: Seq<Action>) -> bool {
    if !has_handle(s.players@, id) {
        r.len() == 1 && (r[0] matches Action::Join(j, nm) && j == id && nm@ == Seq::<
            char,
        >::empty())
    } else {
        let active = first_handle(s.players@, id) == s.active();
        match s.phase {
            GamePhase::GatherPlayers => {
                if s.players@.len() >= 2 {
                    r.len() == 2 && r[0] == Action::Start(id) && r[1] == Action::Leave(id)
                } else {
                    r.len() == 1 && r[0] == Action::Leave(id)
                }
            },
            GamePhase::HintCollection(_) => {
                if !active {
                    r.len() == 2 && (r[0] matches Action::GiveHint(j, t) && j == id && t@ == Seq::<
                        char,
                    >::empty()) && r[1] == Action::Leave(id)
                } else {
                    r.len() == 1 && r[0] == Action::Leave(id)
                }
            },
            GamePhase::HintFiltering(hf) => {
                if !active {
                    let n = hf.hints.entries@.len() as int;
                    r.len() == n + 2 && (forall|k: int|
                        0 <= k < n ==> r[k] == Action::FilterHint(
                            id,
                            hf.hints.entries@[k].1.content,
                            hf.hints.entries@[k].1.allowed,
                        )) && r[n] == Action::FinishHintFiltering(id) && r[n + 1] == Action::Leave(
                        id,
                    )
                } else {
                    r.len() == 1 && r[0] == Action::Leave(id)
                }
            },
            GamePhase::Guessing(_) => {
                if active {
                    r.len() == 2 && r[0] == Action::Guess(id, None) && r[1] == Action::Leave(id)
                } else {
                    r.len() == 1 && r[0] == Action::Leave(id)
                }
            },
            GamePhase::Judging(j) => {
                if !active {
                    if j.guess is Some {
                        r.len() == 3 && r[0] == Action::Judge(
                            id,
                            !(match j.success {
                                Some(b) => b,
                                None => false,
                            }),
                        ) && r[1] == Action::FinishJudging(id) && r[2] == Action::Leave(id)
                    } else {
                        r.len() == 2 && r[0] == Action::FinishJudging(id) && r[1] == Action::Leave(
                            id,
                        )
                    }
                } else {
                    r.len() == 1 && r[0] == Action::Leave(id)
                }
            },
        }
    }
}

impl State {
    /// The zero-or-more action templates the viewer may currently submit.
    /// Advisory only: it drives client UIs and is redundant with the guards
    /// that `action` itself enforces.
    pub fn list_actions(&self, id: usize) -> (r: Vec<Action>)
        requires
            self.wf(),
        ensures
            actions_ok(*self, id, r@),
    {
        match find_handle(&self.players, id) {
            Some(i) => {
                proof {
                    lemma_first_handle_unique(
                        self.players@,
                        id,
                        first_handle(self.players@, id),
                        i as int,
                    );
                }
                let ai = self.active_index.unwrap_or(0);
                let active = i == ai;
                let mut actions: Vec<Action> = match &self.phase {
                    GamePhase::GatherPlayers => {
                        let mut v: Vec<Action> = Vec::new();
                        if self.players.len() >= 2 {
                            v.push(Action::Start(id));
                        }
                        v
                    },
                    GamePhase::HintCollection(_) => {
                        let mut v: Vec<Action> = Vec::new();
                        if !active {
                            v.push(Action::GiveHint(id, String::new()));
                        }
                        v
                    },
                    GamePhase::HintFiltering(hf) => {
                        let mut v: Vec<Action> = Vec::new();
                        if !active {
                            let n = hf.hints.entries.len();
                            let mut k: usize = 0;
                            while k < n
                                invariant
                                    n == hf.hints.entries@.len(),
                                    0 <= k <= n,
                                    v@.len() == k,
                                    forall|m: int|
                                        0 <= m < k ==> v@[m] == Action::FilterHint(
                                            id,
                                            hf.hints.entries@[m].1.content,
                                            hf.hints.entries@[m].1.allowed,
                                        ),
                                decreases n - k,
                            {
                                v.push(
                                    Action::FilterHint(
                                        id,
                                        hf.hints.entries[k].1.content.clone(),
                                        hf.hints.entries[k].1.allowed,
                                    ),
                                );
                                k = k + 1;
                            }
                            v.push(Action::FinishHintFiltering(id));
                        }
                        v
                    },
                    GamePhase::Guessing(_) => {
                        let mut v: Vec<Action> = Vec::new();
                        if active {
                            v.push(Action::Guess(id, None));
                        }
                        v
                    },
                    GamePhase::Judging(j) => {
                        let mut v: Vec<Action> = Vec::new();
                        if !active {
                            if j.guess.is_some() {
                                let judged = match j.success {
                                    Some(b) => b,
                                    None => false,
                                };
                                v.push(Action::Judge(id, !judged));
                            }
                            v.push(Action::FinishJudging(id));
                        }
                        v
                    },
                };
                actions.push(Action::Leave(id));
                actions
            },
            None => {
                let mut v: Vec<Action> = Vec::new();
                v.push(Action::Join(id, String::new()));
                v
            },
        }
    }

    /// The full per-viewer snapshot: the registry, the viewer's own entry,
    /// the redacted phase, the advisory action list and the round history.
    pub fn get_view(&self, id: usize) -> (r: PlayerView)
        requires
            self.wf(),
        ensures
            r.players@ == self.players@,
            r.past_rounds@ == self.past_rounds@,
            match r.me {
                Some(p) => has_handle(self.players@, id) && p == self.players@[first_handle(
                    self.players@,
                    id,
                )],
                None => !has_handle(self.players@, id),
            },
            phase_view_ok(*self, id, r.phase),
            actions_ok(*self, id, r.actions@),
    {
        let me: Option<Player>;
        let visible_phase: VisibleGamePhase;
        match find_handle(&self.players, id) {
            Some(index) => {
                proof {
                    lemma_first_handle_unique(
                        self.players@,
                        id,
                        first_handle(self.players@, id),
                        index as int,
                    );
                }
                let viewer = self.players[index].clone();
                let ai = self.active_index.unwrap_or(0);
                let active = index == ai;
                visible_phase = match &self.phase {
                    GamePhase::GatherPlayers => VisibleGamePhase::GatherPlayers,
                    GamePhase::HintCollection(hc) => {
                        let done = hc.hints.names();
                        if active {
                            VisibleGamePhase::HintCollection(
                                VisibleHintCollection::Active(
                                    ActiveHintCollection { players_done: done },
                                ),
                            )
                        } else {
                            let own_hint = match hc.hints.get(&viewer.name) {
                                Some(h) => Some(h.clone()),
                                None => None,
                            };
                            VisibleGamePhase::HintCollection(
                                VisibleHintCollection::Inactive(
                                    InactiveHintCollection {
                                        word: hc.word.clone(),
                                        hint: own_hint,
                                        players_done: done,
                                    },
                                ),
                            )
                        }
                    },
                    GamePhase::HintFiltering(hf) => {
                        if active {
                            VisibleGamePhase::HintFiltering(
                                VisibleHintFiltering::Active(
                                    ActiveHintFiltering {
                                        players_valid_hints: hf.hints.allowed_names(),
                                    },
                                ),
                            )
                        } else {
                            VisibleGamePhase::HintFiltering(
                                VisibleHintFiltering::Inactive(
                                    InactiveHintFiltering(
                                        HintFiltering {
                                            word: hf.word.clone(),
                                            hints: hf.hints.clone_map(),
                                        },
                                    ),
                                ),
                            )
                        }
                    },
                    GamePhase::Guessing(g) => {
                        if active {
                            let contents = g.hints.allowed_contents();
                            let mut anonymised: Vec<VisibleHint> = Vec::new();
                            let total = contents.len();
                            let mut k: usize = 0;
                            while k < total
                                invariant
                                    total == contents@.len(),
                                    0 <= k <= total,
                                    anonymised@.len() == k,
                                    forall|m: int|
                                        0 <= m < k ==> anonymised@[m].0 == contents@[m],
                                decreases total - k,
                            {
                                anonymised.push(VisibleHint(contents[k].clone()));
                                k = k + 1;
                            }
                            VisibleGamePhase::Guessing(
                                VisibleGuessing::Active(
                                    ActiveGuessing { hints: anonymised, guess: None },
                                ),
                            )
                        } else {
                            VisibleGamePhase::Guessing(
                                VisibleGuessing::Inactive(
                                    InactiveGuessing(
                                        Guessing {
                                            word: g.word.clone(),
                                            hints: g.hints.clone_map(),
                                            guess: clone_opt_string(&g.guess),
                                        },
                                    ),
                                ),
                            )
                        }
                    },
                    GamePhase::Judging(j) => {
                        if active {
                            VisibleGamePhase::Judging(VisibleJudging::Active(j.clone()))
                        } else {
                            VisibleGamePhase::Judging(VisibleJudging::Inactive(j.clone()))
                        }
                    },
                };
                me = Some(viewer);
            },
            None => {
                visible_phase = VisibleGamePhase::GatherPlayers;
                me = None;
            },
        }
        let actions = self.list_actions(id);
        PlayerView {
            players: clone_players(&self.players),
            me,
            phase: visible_phase,
            actions,
            past_rounds: clone_past_rounds(&self.past_rounds),
        }
    }
}

} // verus!

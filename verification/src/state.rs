use vstd::prelude::*;

use crate::action::Action;
use crate::dictionary::Dictionary;
use crate::hints::{is_filtered, is_insert, Hint, HintMap};
use crate::phase::{clone_opt_string, GamePhase, Guessing, HintCollection, HintFiltering, Judging};
use crate::player::{
    find_handle, find_name, first_handle, first_name, has_handle, has_name, is_first_name,
    lemma_first_handle_unique, lemma_first_name_unique, lemma_names_unique_remove, names_unique,
    PastRound, Player,
};

verus! {

/// The one shared room: the player registry, the current round phase, the
/// round history and the word supply. It is mutated exclusively through
/// `action`.
#[derive(Debug)]
pub struct State {
    pub players: Vec<Player>,
    pub active_index: Option<usize>,
    pub phase: GamePhase,
    pub past_rounds: Vec<PastRound>,
    pub dictionary: Dictionary,
}

impl State {
    /// The position of the player whose turn it is, `-1` while nobody is
    /// registered.
    pub open spec fn active(self) -> int {
        match self.active_index {
            Some(i) => i as int,
            None => -1,
        }
    }

    /// The active position is a valid slot exactly when players exist.
    pub open spec fn active_ok(self) -> bool {
        match self.active_index {
            Some(i) => i < self.players@.len(),
            None => self.players@.len() == 0,
        }
    }

    /// `name` belongs to a registered player other than the active one.
    pub open spec fn hint_key_ok(self, name: Seq<char>) -> bool {
        exists|j: int|
            0 <= j < self.players@.len() && j != self.active() && self.players@[j].name@ == name
    }

    /// What must hold of the hints of a round in progress: at least two
    /// players are present, and the hint authors are pairwise distinct
    /// registered players other than the active one.
    pub open spec fn round_wf(self, hints: HintMap) -> bool {
        &&& self.players@.len() >= 2
        &&& hints.wf()
        &&& forall|i: int|
            0 <= i < hints.entries@.len() ==> self.hint_key_ok(#[trigger] hints.entries@[i].0@)
    }

    /// The per-phase invariant. During hint collection the hint count stays
    /// below the number of non-active players, since reaching it advances the
    /// phase at once.
    pub open spec fn phase_wf(self) -> bool {
        match self.phase {
            GamePhase::GatherPlayers => true,
            GamePhase::HintCollection(hc) => self.round_wf(hc.hints) && hc.hints.entries@.len()
                < self.players@.len() - 1,
            GamePhase::HintFiltering(hf) => self.round_wf(hf.hints),
            GamePhase::Guessing(g) => self.round_wf(g.hints),
            GamePhase::Judging(j) => self.round_wf(j.hints),
        }
    }

    /// The session invariant: every accepted action preserves it.
    pub open spec fn wf(self) -> bool {
        &&& self.dictionary.wf()
        &&& names_unique(self.players@)
        &&& self.active_ok()
        &&& (self.players@.len() == 0 ==> self.phase is GatherPlayers && self.past_rounds@.len()
            == 0)
        &&& self.phase_wf()
    }

    /// The submitter holding handle `id` is the active player.
    pub open spec fn submitter_is_active(self, id: usize) -> bool {
        has_handle(self.players@, id) && first_handle(self.players@, id) == self.active()
    }
}

/// Joining never fails: a taken name is a silent no-op, a disconnected name
/// reattaches, an absent name registers a new player (who becomes active if
/// nobody was).
pub open spec fn join_effect(pre: State, post: State, new_id: usize, new_name: String) -> bool {
    &&& post.phase == pre.phase
    &&& post.past_rounds == pre.past_rounds
    &&& post.dictionary == pre.dictionary
    &&& if has_name(pre.players@, new_name@) {
        &&& post.active_index == pre.active_index
        &&& {
            let i = first_name(pre.players@, new_name@);
            if pre.players@[i].id is Some {
                post.players == pre.players
            } else {
                post.players@ == pre.players@.update(
                    i,
                    Player { id: Some(new_id), name: pre.players@[i].name },
                )
            }
        }
    } else {
        &&& post.players@ == pre.players@.push(Player { id: Some(new_id), name: new_name })
        &&& post.active_index == if pre.active_index is None {
            Some(pre.players@.len() as usize)
        } else {
            pre.active_index
        }
    }
}

/// Disconnecting severs the transport binding of the player holding the
/// handle; the player entry and anything attributed to their name remain.
pub open spec fn disconnect_effect(pre: State, post: State, id: usize) -> bool {
    if has_handle(pre.players@, id) {
        &&& {
            let i = first_handle(pre.players@, id);
            post.players@ == pre.players@.update(
                i,
                Player { id: None, name: pre.players@[i].name },
            )
        }
        &&& post.active_index == pre.active_index
        &&& post.phase == pre.phase
        &&& post.past_rounds == pre.past_rounds
        &&& post.dictionary == pre.dictionary
    } else {
        post == pre
    }
}

/// A phase carried over unchanged between two states with the same active
/// position and the same player names (possibly more players after) stays
/// well-formed.
proof fn lemma_phase_wf_carries(pre: State, post: State)
    requires
        pre.phase_wf(),
        post.phase == pre.phase,
        post.players@.len() >= pre.players@.len(),
        forall|j: int|
            0 <= j < pre.players@.len() ==> post.players@[j].name@ == pre.players@[j].name@,
        post.active() == pre.active(),
    ensures
        post.phase_wf(),
{
    match pre.phase {
        GamePhase::GatherPlayers => {},
        GamePhase::HintCollection(hc) => lemma_round_keys_carry(pre, post, hc.hints),
        GamePhase::HintFiltering(hf) => lemma_round_keys_carry(pre, post, hf.hints),
        GamePhase::Guessing(g) => lemma_round_keys_carry(pre, post, g.hints),
        GamePhase::Judging(j) => lemma_round_keys_carry(pre, post, j.hints),
    }
}

/// Hint authorship stays valid between two states with the same active
/// position and the same player names in place.
proof fn lemma_round_keys_carry(pre: State, post: State, hints: HintMap)
    requires
        forall|i: int|
            0 <= i < hints.entries@.len() ==> pre.hint_key_ok(#[trigger] hints.entries@[i].0@),
        post.players@.len() >= pre.players@.len(),
        forall|j: int|
            0 <= j < pre.players@.len() ==> post.players@[j].name@ == pre.players@[j].name@,
        post.active() == pre.active(),
    ensures
        forall|i: int|
            0 <= i < hints.entries@.len() ==> post.hint_key_ok(#[trigger] hints.entries@[i].0@),
{
    assert forall|i: int| 0 <= i < hints.entries@.len() implies post.hint_key_ok(
        #[trigger] hints.entries@[i].0@,
    ) by {
        assert(pre.hint_key_ok(hints.entries@[i].0@));
        let j = choose|j: int|
            0 <= j < pre.players@.len() && j != pre.active() && pre.players@[j].name@
                == hints.entries@[i].0@;
        assert(0 <= j < post.players@.len() && j != post.active() && post.players@[j].name@
            == hints.entries@[i].0@);
    }
}

/// Starting is legal only while gathering, with at least two players; it
/// draws a word and opens hint collection with no hints yet.
pub open spec fn start_enabled(pre: State) -> bool {
    pre.phase is GatherPlayers && pre.players@.len() >= 2
}

pub open spec fn start_effect(pre: State, post: State) -> bool {
    if start_enabled(pre) {
        &&& post.players == pre.players
        &&& post.active_index == pre.active_index
        &&& post.past_rounds == pre.past_rounds
        &&& post.dictionary == pre.dictionary.spec_draw()
        &&& post.phase matches GamePhase::HintCollection(hc) && hc.word@
            == pre.dictionary.spec_peek() && hc.hints.entries@.len() == 0
    } else {
        post == pre
    }
}

/// A hint is accepted from a registered, non-active submitter during hint
/// collection.
pub open spec fn give_hint_enabled(pre: State, id: usize) -> bool {
    has_handle(pre.players@, id) && pre.phase is HintCollection && !pre.submitter_is_active(id)
}

/// The hint is recorded under the submitter's name (overwriting their earlier
/// one); once every non-active player has one in, the phase advances to
/// filtering.
pub open spec fn give_hint_effect(pre: State, post: State, id: usize, text: String) -> bool {
    if give_hint_enabled(pre, id) {
        &&& post.players == pre.players
        &&& post.active_index == pre.active_index
        &&& post.past_rounds == pre.past_rounds
        &&& post.dictionary == pre.dictionary
        &&& {
            let author = pre.players@[first_handle(pre.players@, id)].name;
            let submitted = Hint { content: text, allowed: true };
            &&& pre.phase matches GamePhase::HintCollection(hc0) ==> {
                &&& (post.phase matches GamePhase::HintCollection(hc1) ==> hc1.word == hc0.word
                    && is_insert(hc0.hints, hc1.hints, author, submitted)
                    && hc1.hints.entries@.len() < pre.players@.len() - 1)
                &&& (post.phase matches GamePhase::HintFiltering(hf) ==> hf.word == hc0.word
                    && is_insert(hc0.hints, hf.hints, author, submitted) && hf.hints.entries@.len()
                    == pre.players@.len() - 1)
                &&& (post.phase is HintCollection || post.phase is HintFiltering)
            }
        }
    } else {
        post == pre
    }
}

/// A filter verdict is accepted from a registered, non-active submitter
/// during hint filtering.
pub open spec fn filter_hint_enabled(pre: State, id: usize) -> bool {
    has_handle(pre.players@, id) && pre.phase is HintFiltering && !pre.submitter_is_active(id)
}

/// Every hint whose content equals the submitted text has its `allowed` flag
/// set; authorship plays no part in the match.
pub open spec fn filter_hint_effect(
    pre: State,
    post: State,
    id: usize,
    text: String,
    allowed: bool,
) -> bool {
    if filter_hint_enabled(pre, id) {
        &&& post.players == pre.players
        &&& post.active_index == pre.active_index
        &&& post.past_rounds == pre.past_rounds
        &&& post.dictionary == pre.dictionary
        &&& pre.phase matches GamePhase::HintFiltering(hf0) ==> post.phase matches
            GamePhase::HintFiltering(hf1) && hf1.word == hf0.word && is_filtered(
            hf0.hints,
            hf1.hints,
            text@,
            allowed,
        )
    } else {
        post == pre
    }
}

/// Any registered, non-active submitter may close filtering; the vetted hints
/// move unchanged into the guessing phase, with no guess yet.
pub open spec fn finish_filtering_enabled(pre: State, id: usize) -> bool {
    has_handle(pre.players@, id) && pre.phase is HintFiltering && !pre.submitter_is_active(id)
}

pub open spec fn finish_filtering_effect(pre: State, post: State, id: usize) -> bool {
    if finish_filtering_enabled(pre, id) {
        &&& post.players == pre.players
        &&& post.active_index == pre.active_index
        &&& post.past_rounds == pre.past_rounds
        &&& post.dictionary == pre.dictionary
        &&& pre.phase matches GamePhase::HintFiltering(hf0) ==> post.phase matches
            GamePhase::Guessing(g) && g.word == hf0.word && g.hints.entries@
            == hf0.hints.entries@ && g.guess is None
    } else {
        post == pre
    }
}

/// Only the active player may guess, and only during the guessing phase; the
/// guess (possibly withheld) moves the round into judging with no verdict
/// yet.
pub open spec fn guess_enabled(pre: State, id: usize) -> bool {
    has_handle(pre.players@, id) && pre.phase is Guessing && pre.submitter_is_active(id)
}

pub open spec fn guess_effect(pre: State, post: State, id: usize, guess: Option<String>) -> bool {
    if guess_enabled(pre, id) {
        &&& post.players == pre.players
        &&& post.active_index == pre.active_index
        &&& post.past_rounds == pre.past_rounds
        &&& post.dictionary == pre.dictionary
        &&& pre.phase matches GamePhase::Guessing(g0) ==> post.phase matches GamePhase::Judging(j)
            && j.word == g0.word && j.hints.entries@ == g0.hints.entries@ && j.guess == guess
            && j.success is None
    } else {
        post == pre
    }
}

/// Any registered, non-active submitter may judge the guess; judging again
/// overwrites the verdict.
pub open spec fn judge_enabled(pre: State, id: usize) -> bool {
    has_handle(pre.players@, id) && pre.phase is Judging && !pre.submitter_is_active(id)
}

pub open spec fn judge_effect(pre: State, post: State, id: usize, correct: bool) -> bool {
    if judge_enabled(pre, id) {
        &&& post.players == pre.players
        &&& post.active_index == pre.active_index
        &&& post.past_rounds == pre.past_rounds
        &&& post.dictionary == pre.dictionary
        &&& pre.phase matches GamePhase::Judging(j0) ==> post.phase matches GamePhase::Judging(j1)
            && j1.word == j0.word && j1.hints.entries@ == j0.hints.entries@ && j1.guess == j0.guess
            && j1.success == Some(correct)
    } else {
        post == pre
    }
}

/// Anybody may close judging. The round is recorded (a missing verdict
/// counts as a failure), the turn rotates to the next player, and a fresh
/// round opens with a newly drawn word.
pub open spec fn finish_judging_enabled(pre: State) -> bool {
    pre.phase is Judging
}

pub open spec fn finish_judging_effect(pre: State, post: State) -> bool {
    if finish_judging_enabled(pre) {
        &&& post.players == pre.players
        &&& post.active_index == Some(
            (((pre.active() + 1) % (pre.players@.len() as int))) as usize,
        )
        &&& pre.phase matches GamePhase::Judging(j0) ==> post.past_rounds@
            == pre.past_rounds@.push(
            PastRound {
                name: pre.players@[pre.active()].name,
                word: j0.word,
                success: match j0.success {
                    Some(b) => b,
                    None => false,
                },
            },
        )
        &&& post.dictionary == pre.dictionary.spec_draw()
        &&& post.phase matches GamePhase::HintCollection(hc) && hc.word@
            == pre.dictionary.spec_peek() && hc.hints.entries@.len() == 0
    } else {
        post == pre
    }
}

/// The registry once the player holding `id` is gone.
pub open spec fn leave_removed(pre: State, id: usize) -> Seq<Player> {
    pre.players@.remove(first_handle(pre.players@, id))
}

/// The name of the player who holds the turn once the leaver is gone: the
/// next seat in rotation order if the leaver was active, the active player
/// otherwise.
pub open spec fn leave_keep_name(pre: State, id: usize) -> Seq<char> {
    let li = first_handle(pre.players@, id);
    if pre.active() == li {
        pre.players@[(pre.active() + 1) % (pre.players@.len() as int)].name@
    } else {
        pre.players@[pre.active()].name@
    }
}

/// What happens to the phase when a player leaves: an untouched gathering
/// stays as it is, an abandoned round restarts fresh while two or more
/// players remain, and falls back to gathering otherwise.
pub open spec fn leave_phase_effect(pre: State, post: State, remaining_len: int) -> bool {
    if pre.phase is GatherPlayers {
        post.phase is GatherPlayers && post.dictionary == pre.dictionary
    } else if remaining_len >= 2 {
        post.phase matches GamePhase::HintCollection(hc) && hc.word@ == pre.dictionary.spec_peek()
            && hc.hints.entries@.len() == 0 && post.dictionary == pre.dictionary.spec_draw()
    } else {
        post.phase is GatherPlayers && post.dictionary == pre.dictionary
    }
}

/// Leaving removes the player outright. The turn passes by value: if the
/// leaver was active, the next seat in rotation order inherits the turn,
/// otherwise the active player keeps it, at whatever position they end up.
/// A round in progress is abandoned (see `leave_phase_effect`), and removing
/// the last player wipes the history but leaves the word cursor where it
/// stands.
pub open spec fn leave_effect(pre: State, post: State, id: usize) -> bool {
    if has_handle(pre.players@, id) {
        let remaining = leave_removed(pre, id);
        if remaining.len() == 0 {
            &&& post.players@.len() == 0
            &&& post.active_index is None
            &&& post.phase is GatherPlayers
            &&& post.past_rounds@.len() == 0
            &&& post.dictionary == pre.dictionary
        } else {
            &&& post.players@ == remaining
            &&& post.past_rounds == pre.past_rounds
            &&& (exists|k: int|
                is_first_name(remaining, leave_keep_name(pre, id), k) && post.active_index == Some(
                    k as usize,
                ))
            &&& leave_phase_effect(pre, post, remaining.len() as int)
        }
    } else {
        post == pre
    }
}

/// Whether the session accepts `a` in its current state: the guard table of
/// the round lifecycle, with `Join` always accepted and `Leave` and
/// `DisconnectPlayer` accepted from any registered handle in any phase.
pub open spec fn action_enabled(pre: State, a: Action) -> bool {
    match a {
        Action::Join(_, _) => true,
        Action::DisconnectPlayer(id) => has_handle(pre.players@, id),
        Action::Start(_) => start_enabled(pre),
        Action::GiveHint(id, _) => give_hint_enabled(pre, id),
        Action::FilterHint(id, _, _) => filter_hint_enabled(pre, id),
        Action::FinishHintFiltering(id) => finish_filtering_enabled(pre, id),
        Action::Guess(id, _) => guess_enabled(pre, id),
        Action::Judge(id, _) => judge_enabled(pre, id),
        Action::FinishJudging(_) => finish_judging_enabled(pre),
        Action::Leave(id) => has_handle(pre.players@, id),
    }
}

/// How one applied action relates the old session to the new one; a rejected
/// action leaves the session exactly as it was.
pub open spec fn action_effect(pre: State, post: State, a: Action) -> bool {
    match a {
        Action::Join(id, name) => join_effect(pre, post, id, name),
        Action::DisconnectPlayer(id) => disconnect_effect(pre, post, id),
        Action::Start(_) => start_effect(pre, post),
        Action::GiveHint(id, text) => give_hint_effect(pre, post, id, text),
        Action::FilterHint(id, text, allowed) => filter_hint_effect(pre, post, id, text, allowed),
        Action::FinishHintFiltering(id) => finish_filtering_effect(pre, post, id),
        Action::Guess(id, g) => guess_effect(pre, post, id, g),
        Action::Judge(id, c) => judge_effect(pre, post, id, c),
        Action::FinishJudging(_) => finish_judging_effect(pre, post),
        Action::Leave(id) => leave_effect(pre, post, id),
    }
}

/// Hint authorship stays valid after one insertion whose author is a valid
/// key.
proof fn lemma_insert_keys_ok(s: State, old_m: HintMap, new_m: HintMap, name: String, h: Hint)
    requires
        is_insert(old_m, new_m, name, h),
        forall|i: int|
            0 <= i < old_m.entries@.len() ==> s.hint_key_ok(#[trigger] old_m.entries@[i].0@),
        s.hint_key_ok(name@),
    ensures
        forall|i: int|
            0 <= i < new_m.entries@.len() ==> s.hint_key_ok(#[trigger] new_m.entries@[i].0@),
{
    assert forall|i: int| 0 <= i < new_m.entries@.len() implies s.hint_key_ok(
        #[trigger] new_m.entries@[i].0@,
    ) by {
        if old_m.contains_name(name@) {
            assert(s.hint_key_ok(old_m.entries@[i].0@));
            assert(new_m.entries@[i].0 == old_m.entries@[i].0);
        } else {
            if i < old_m.entries@.len() {
                assert(s.hint_key_ok(old_m.entries@[i].0@));
                assert(new_m.entries@[i] == old_m.entries@[i]);
            } else {
                assert(new_m.entries@[i] == (name, h));
            }
        }
    }
}

impl State {
    /// A fresh session around a configured word supply.
    pub fn new(dictionary: Dictionary) -> (s: State)
        requires
            dictionary.wf(),
        ensures
            s.wf(),
            s.players@.len() == 0,
            s.active_index is None,
            s.phase is GatherPlayers,
            s.past_rounds@.len() == 0,
            s.dictionary == dictionary,
    {
        State {
            players: Vec::new(),
            active_index: None,
            phase: GamePhase::GatherPlayers,
            past_rounds: Vec::new(),
            dictionary,
        }
    }

    /// Wipes everything but the word supply: its cursor keeps its position.
    fn restart(&mut self)
        requires
            old(self).dictionary.wf(),
        ensures
            final(self).wf(),
            final(self).players@.len() == 0,
            final(self).active_index is None,
            final(self).phase is GatherPlayers,
            final(self).past_rounds@.len() == 0,
            final(self).dictionary == old(self).dictionary,
    {
        self.players = Vec::new();
        self.active_index = None;
        self.phase = GamePhase::GatherPlayers;
        self.past_rounds = Vec::new();
    }

    /// Registers, reattaches or silently ignores a joiner, as `join_effect`
    /// says. The very first joiner becomes the first active player.
    pub fn join(&mut self, new_id: usize, new_name: String) -> (r: Option<()>)
        requires
            old(self).wf(),
        ensures
            final(self).wf(),
            r == Some::<()>(()),
            join_effect(*old(self), *final(self), new_id, new_name),
    {
        match find_name(&self.players, &new_name) {
            Some(i) => {
                proof {
                    lemma_first_name_unique(
                        self.players@,
                        new_name@,
                        first_name(self.players@, new_name@),
                        i as int,
                    );
                }
                if self.players[i].id.is_none() {
                    let kept_name = self.players[i].name.clone();
                    self.players.set(i, Player { id: Some(new_id), name: kept_name });
                    proof {
                        assert(self.players@ =~= old(self).players@.update(
                            i as int,
                            Player { id: Some(new_id), name: old(self).players@[i as int].name },
                        ));
                        assert forall|p: int|
                            0 <= p < self.players@.len() implies self.players@[p].name@ == old(
                            self,
                        ).players@[p].name@ by {}
                        lemma_phase_wf_carries(*old(self), *self);
                    }
                }
                Some(())
            },
            None => {
                self.players.push(Player { id: Some(new_id), name: new_name });
                if self.active_index.is_none() {
                    let idx = self.players.len() - 1;
                    self.active_index = Some(idx);
                }
                proof {
                    assert forall|p: int, q: int|
                        0 <= p < self.players@.len() && 0 <= q < self.players@.len() && p != q
                        implies self.players@[p].name@ != self.players@[q].name@ by {
                        if p < old(self).players@.len() && q < old(self).players@.len() {
                            assert(old(self).players@[p].name@ != old(self).players@[q].name@);
                        }
                    }
                    if old(self).players@.len() > 0 {
                        lemma_phase_wf_carries(*old(self), *self);
                    }
                }
                Some(())
            },
        }
    }

    /// Severs the transport binding of the player holding `id`, as
    /// `disconnect_effect` says; fails if no player holds it.
    pub fn disconnect_player(&mut self, disconnect_id: usize) -> (r: Option<()>)
        requires
            old(self).wf(),
        ensures
            final(self).wf(),
            r is Some <==> has_handle(old(self).players@, disconnect_id),
            disconnect_effect(*old(self), *final(self), disconnect_id),
    {
        match find_handle(&self.players, disconnect_id) {
            Some(i) => {
                proof {
                    lemma_first_handle_unique(
                        self.players@,
                        disconnect_id,
                        first_handle(self.players@, disconnect_id),
                        i as int,
                    );
                }
                let kept_name = self.players[i].name.clone();
                self.players.set(i, Player { id: None, name: kept_name });
                proof {
                    assert(self.players@ =~= old(self).players@.update(
                        i as int,
                        Player { id: None, name: old(self).players@[i as int].name },
                    ));
                    assert forall|p: int|
                        0 <= p < self.players@.len() implies self.players@[p].name@ == old(
                        self,
                    ).players@[p].name@ by {}
                    lemma_phase_wf_carries(*old(self), *self);
                }
                Some(())
            },
            None => None,
        }
    }

    /// Opens a round when at least two players are gathered, as
    /// `start_effect` says.
    pub fn start(&mut self) -> (r: Option<()>)
        requires
            old(self).wf(),
        ensures
            final(self).wf(),
            r is Some <==> start_enabled(*old(self)),
            start_effect(*old(self), *final(self)),
    {
        let gathering = match &self.phase {
            GamePhase::GatherPlayers => true,
            _ => false,
        };
        if gathering && self.players.len() >= 2 {
            let word = self.dictionary.get_word();
            self.phase = GamePhase::HintCollection(
                HintCollection { word, hints: HintMap::new() },
            );
            Some(())
        } else {
            None
        }
    }

    /// Records a hint from a non-active submitter, as `give_hint_effect`
    /// says: the last missing hint advances the phase to filtering.
    pub fn process_hint(&mut self, id: usize, hint: &String) -> (r: Option<()>)
        requires
            old(self).wf(),
        ensures
            final(self).wf(),
            r is Some <==> give_hint_enabled(*old(self), id),
            give_hint_effect(*old(self), *final(self), id, *hint),
    {
        let idx = match find_handle(&self.players, id) {
            Some(i) => i,
            None => {
                return None;
            },
        };
        let ai = match self.active_index {
            Some(a) => a,
            None => {
                return None;
            },
        };
        proof {
            lemma_first_handle_unique(
                self.players@,
                id,
                first_handle(self.players@, id),
                idx as int,
            );
        }
        match &self.phase {
            GamePhase::HintCollection(hc) => {
                if idx != ai {
                    let author = self.players[idx].name.clone();
                    let mut new_hints = hc.hints.clone_map();
                    let submitted = Hint { content: hint.clone(), allowed: true };
                    proof {
                        assert(new_hints.wf());
                    }
                    new_hints.insert(author, submitted);
                    let word = hc.word.clone();
                    let hlen = new_hints.len();
                    let plen = self.players.len();
                    proof {
                        let pre = *old(self);
                        let hc0 = match pre.phase {
                            GamePhase::HintCollection(h) => h,
                            _ => arbitrary(),
                        };
                        assert(is_insert(
                            hc0.hints,
                            new_hints,
                            pre.players@[idx as int].name,
                            Hint { content: *hint, allowed: true },
                        ));
                        assert(pre.hint_key_ok(pre.players@[idx as int].name@));
                        lemma_insert_keys_ok(
                            pre,
                            hc0.hints,
                            new_hints,
                            pre.players@[idx as int].name,
                            Hint { content: *hint, allowed: true },
                        );
                    }
                    if hlen == plen - 1 {
                        self.phase = GamePhase::HintFiltering(
                            HintFiltering { word, hints: new_hints },
                        );
                    } else {
                        self.phase = GamePhase::HintCollection(
                            HintCollection { word, hints: new_hints },
                        );
                    }
                    proof {
                        match &self.phase {
                            GamePhase::HintCollection(hc) => lemma_round_keys_carry(
                                *old(self),
                                *self,
                                hc.hints,
                            ),
                            GamePhase::HintFiltering(hf) => lemma_round_keys_carry(
                                *old(self),
                                *self,
                                hf.hints,
                            ),
                            _ => (),
                        }
                    }
                    Some(())
                } else {
                    None
                }
            },
            _ => None,
        }
    }

    /// Applies one content-addressed filter verdict from a non-active
    /// submitter, as `filter_hint_effect` says.
    pub fn process_hint_filter(&mut self, id: usize, hint: &String, allowed: bool) -> (r: Option<
        (),
    >)
        requires
            old(self).wf(),
        ensures
            final(self).wf(),
            r is Some <==> filter_hint_enabled(*old(self), id),
            filter_hint_effect(*old(self), *final(self), id, *hint, allowed),
    {
        let idx = match find_handle(&self.players, id) {
            Some(i) => i,
            None => {
                return None;
            },
        };
        let ai = match self.active_index {
            Some(a) => a,
            None => {
                return None;
            },
        };
        proof {
            lemma_first_handle_unique(
                self.players@,
                id,
                first_handle(self.players@, id),
                idx as int,
            );
        }
        match &self.phase {
            GamePhase::HintFiltering(hf) => {
                if idx != ai {
                    let word = hf.word.clone();
                    let mut new_hints = hf.hints.clone_map();
                    proof {
                        assert(new_hints.wf());
                    }
                    new_hints.set_allowed_by_content(hint, allowed);
                    proof {
                        let pre = *old(self);
                        let hf0 = match pre.phase {
                            GamePhase::HintFiltering(h) => h,
                            _ => arbitrary(),
                        };
                        lemma_filter_keys_ok(pre, hf0.hints, new_hints, hint@, allowed);
                    }
                    self.phase = GamePhase::HintFiltering(
                        HintFiltering { word, hints: new_hints },
                    );
                    proof {
                        match &self.phase {
                            GamePhase::HintFiltering(hf) => lemma_round_keys_carry(
                                *old(self),
                                *self,
                                hf.hints,
                            ),
                            _ => (),
                        }
                    }
                    Some(())
                } else {
                    None
                }
            },
            _ => None,
        }
    }

    /// Closes filtering on a non-active submitter's request, as
    /// `finish_filtering_effect` says.
    pub fn process_finish_hint_filter(&mut self, id: usize) -> (r: Option<()>)
        requires
            old(self).wf(),
        ensures
            final(self).wf(),
            r is Some <==> finish_filtering_enabled(*old(self), id),
            finish_filtering_effect(*old(self), *final(self), id),
    {
        let idx = match find_handle(&self.players, id) {
            Some(i) => i,
            None => {
                return None;
            },
        };
        let ai = match self.active_index {
            Some(a) => a,
            None => {
                return None;
            },
        };
        proof {
            lemma_first_handle_unique(
                self.players@,
                id,
                first_handle(self.players@, id),
                idx as int,
            );
        }
        match &self.phase {
            GamePhase::HintFiltering(hf) => {
                if idx != ai {
                    let word = hf.word.clone();
                    let new_hints = hf.hints.clone_map();
                    self.phase = GamePhase::Guessing(
                        Guessing { word, hints: new_hints, guess: None },
                    );
                    proof {
                        match &self.phase {
                            GamePhase::Guessing(g) => lemma_round_keys_carry(
                                *old(self),
                                *self,
                                g.hints,
                            ),
                            _ => (),
                        }
                    }
                    Some(())
                } else {
                    None
                }
            },
            _ => None,
        }
    }

    /// Accepts the active player's guess (or their choice not to guess), as
    /// `guess_effect` says, and moves the round into judging.
    pub fn process_guess(&mut self, id: usize, input_guess: &Option<String>) -> (r: Option<()>)
        requires
            old(self).wf(),
        ensures
            final(self).wf(),
            r is Some <==> guess_enabled(*old(self), id),
            guess_effect(*old(self), *final(self), id, *input_guess),
    {
        let idx = match find_handle(&self.players, id) {
            Some(i) => i,
            None => {
                return None;
            },
        };
        let ai = match self.active_index {
            Some(a) => a,
            None => {
                return None;
            },
        };
        proof {
            lemma_first_handle_unique(
                self.players@,
                id,
                first_handle(self.players@, id),
                idx as int,
            );
        }
        match &self.phase {
            GamePhase::Guessing(g) => {
                if idx == ai {
                    let word = g.word.clone();
                    let new_hints = g.hints.clone_map();
                    let guess = clone_opt_string(input_guess);
                    self.phase = GamePhase::Judging(
                        Judging { word, hints: new_hints, guess, success: None },
                    );
                    proof {
                        match &self.phase {
                            GamePhase::Judging(j) => lemma_round_keys_carry(
                                *old(self),
                                *self,
                                j.hints,
                            ),
                            _ => (),
                        }
                    }
                    Some(())
                } else {
                    None
                }
            },
            _ => None,
        }
    }

    /// Records a verdict from a non-active juror, as `judge_effect` says.
    pub fn process_guess_judgement(&mut self, id: usize, correct: bool) -> (r: Option<()>)
        requires
            old(self).wf(),
        ensures
            final(self).wf(),
            r is Some <==> judge_enabled(*old(self), id),
            judge_effect(*old(self), *final(self), id, correct),
    {
        let idx = match find_handle(&self.players, id) {
            Some(i) => i,
            None => {
                return None;
            },
        };
        let ai = match self.active_index {
            Some(a) => a,
            None => {
                return None;
            },
        };
        proof {
            lemma_first_handle_unique(
                self.players@,
                id,
                first_handle(self.players@, id),
                idx as int,
            );
        }
        match &self.phase {
            GamePhase::Judging(j) => {
                if idx != ai {
                    let word = j.word.clone();
                    let new_hints = j.hints.clone_map();
                    let guess = clone_opt_string(&j.guess);
                    self.phase = GamePhase::Judging(
                        Judging { word, hints: new_hints, guess, success: Some(correct) },
                    );
                    proof {
                        match &self.phase {
                            GamePhase::Judging(j1) => lemma_round_keys_carry(
                                *old(self),
                                *self,
                                j1.hints,
                            ),
                            _ => (),
                        }
                    }
                    Some(())
                } else {
                    None
                }
            },
            _ => None,
        }
    }

    /// Closes judging on anybody's request, as `finish_judging_effect` says:
    /// the round is recorded, the turn rotates, a fresh round opens.
    pub fn process_finish_judging(&mut self, _id: usize) -> (r: Option<()>)
        requires
            old(self).wf(),
        ensures
            final(self).wf(),
            r is Some <==> finish_judging_enabled(*old(self)),
            finish_judging_effect(*old(self), *final(self)),
    {
        match &self.phase {
            GamePhase::Judging(j) => {
                let a = match self.active_index {
                    Some(a) => a,
                    None => {
                        return None;
                    },
                };
                let success = match j.success {
                    Some(b) => b,
                    None => false,
                };
                let ended_word = j.word.clone();
                let name = self.players[a].name.clone();
                self.past_rounds.push(PastRound { name, word: ended_word, success });
                let count = self.players.len();
                self.active_index = Some((a + 1) % count);
                let word = self.dictionary.get_word();
                self.phase = GamePhase::HintCollection(
                    HintCollection { word, hints: HintMap::new() },
                );
                Some(())
            },
            _ => None,
        }
    }

    /// Removes the player holding `id` outright, as `leave_effect` says.
    pub fn process_leave(&mut self, id: usize) -> (r: Option<()>)
        requires
            old(self).wf(),
        ensures
            final(self).wf(),
            r is Some <==> has_handle(old(self).players@, id),
            leave_effect(*old(self), *final(self), id),
    {
        let li = match find_handle(&self.players, id) {
            Some(i) => i,
            None => {
                return None;
            },
        };
        let a = match self.active_index {
            Some(a) => a,
            None => {
                return None;
            },
        };
        proof {
            lemma_first_handle_unique(
                self.players@,
                id,
                first_handle(self.players@, id),
                li as int,
            );
        }
        let count = self.players.len();
        let next_name: String = if a == li {
            let ni = (a + 1) % count;
            self.players[ni].name.clone()
        } else {
            self.players[a].name.clone()
        };
        self.players.remove(li);
        proof {
            lemma_names_unique_remove(old(self).players@, li as int);
            if self.players@.len() > 0 {
                let count0 = old(self).players@.len() as int;
                let ni = if a == li {
                    (a + 1) as int % count0
                } else {
                    a as int
                };
                assert(count0 >= 2);
                if a == li {
                    if a + 1 < count0 {
                        vstd::arithmetic::div_mod::lemma_small_mod((a + 1) as nat, count0 as nat);
                        assert((a + 1) as int % count0 == a + 1);
                    } else {
                        assert((a + 1) as int == count0);
                        vstd::arithmetic::div_mod::lemma_mod_self_0(count0);
                        assert((a + 1) as int % count0 == 0);
                    }
                }
                assert(ni != li);
                let target = if ni < li {
                    ni
                } else {
                    ni - 1
                };
                assert(0 <= target < self.players@.len());
                assert(self.players@[target] == old(self).players@[ni]);
                assert(self.players@[target].name@ == next_name@);
            }
        }
        let new_active = find_name(&self.players, &next_name);
        self.active_index = new_active;
        let in_round = match &self.phase {
            GamePhase::GatherPlayers => false,
            _ => true,
        };
        if in_round {
            if self.players.len() >= 2 {
                let word = self.dictionary.get_word();
                self.phase = GamePhase::HintCollection(
                    HintCollection { word, hints: HintMap::new() },
                );
            } else {
                self.phase = GamePhase::GatherPlayers;
            }
        }
        if self.players.len() == 0 {
            self.restart();
        }
        proof {
            let pre = *old(self);
            let remaining = leave_removed(pre, id);
            assert(first_handle(pre.players@, id) == li as int);
            if remaining.len() > 0 {
                assert(self.players@ == remaining);
                assert(leave_keep_name(pre, id) == next_name@);
            }
        }
        Some(())
    }

    /// The single entry point: dispatches one decoded action to its
    /// transition. A rejected action mutates nothing, so racing clients are
    /// harmless: only the first legal submission wins.
    pub fn action(&mut self, action: &Action) -> (r: Option<()>)
        requires
            old(self).wf(),
        ensures
            final(self).wf(),
            r is Some <==> action_enabled(*old(self), *action),
            action_effect(*old(self), *final(self), *action),
    {
        match action {
            Action::Join(new_id, new_name) => self.join(*new_id, new_name.clone()),
            Action::DisconnectPlayer(id) => self.disconnect_player(*id),
            Action::Start(_id) => self.start(),
            Action::GiveHint(id, hint) => self.process_hint(*id, hint),
            Action::FilterHint(id, hint, valid) => self.process_hint_filter(*id, hint, *valid),
            Action::FinishHintFiltering(id) => self.process_finish_hint_filter(*id),
            Action::Guess(id, guess) => self.process_guess(*id, guess),
            Action::Judge(id, correct) => self.process_guess_judgement(*id, *correct),
            Action::FinishJudging(id) => self.process_finish_judging(*id),
            Action::Leave(id) => self.process_leave(*id),
        }
    }
}

/// Hint authorship stays valid after one content-addressed filter step,
/// which never touches the keys.
proof fn lemma_filter_keys_ok(
    s: State,
    old_m: HintMap,
    new_m: HintMap,
    text: Seq<char>,
    allowed: bool,
)
    requires
        is_filtered(old_m, new_m, text, allowed),
        forall|i: int|
            0 <= i < old_m.entries@.len() ==> s.hint_key_ok(#[trigger] old_m.entries@[i].0@),
    ensures
        forall|i: int|
            0 <= i < new_m.entries@.len() ==> s.hint_key_ok(#[trigger] new_m.entries@[i].0@),
{
    assert forall|i: int| 0 <= i < new_m.entries@.len() implies s.hint_key_ok(
        #[trigger] new_m.entries@[i].0@,
    ) by {
        assert(s.hint_key_ok(old_m.entries@[i].0@));
        assert(new_m.entries@[i].0 == old_m.entries@[i].0);
    }
}

} // verus!

use vstd::prelude::*;

use crate::dictionary::Dictionary;
use crate::hints::{is_filtered, names_of, HintMap};
use crate::phase::GamePhase;
use crate::player::{first_handle, first_name, has_handle, has_name, is_first_name, Player};
use crate::action::Action;
use crate::state::{
    action_effect, action_enabled, finish_judging_effect, finish_judging_enabled, join_effect,
    leave_effect, leave_keep_name, leave_removed, State,
};
use crate::view::{phase_view_ok, VisibleGamePhase, VisibleHintCollection};

verus! {

/// Joining under a name already held by a connected player changes nothing
/// at all: the session after the join is the session before it.
pub proof fn lemma_join_taken_name_is_noop(pre: State, post: State, id: usize, name: String)
    requires
        pre.wf(),
        join_effect(pre, post, id, name),
        has_name(pre.players@, name@),
        pre.players@[first_name(pre.players@, name@)].id is Some,
    ensures
        post == pre,
{
    assert(post.players == pre.players);
    assert(post.active_index == pre.active_index);
}

/// Joining under a name whose holder disconnected reattaches the new handle
/// to the old entry and preserves every hint and guess keyed to that name:
/// the phase — which carries them all — does not move.
pub proof fn lemma_rejoin_reattaches(pre: State, post: State, id: usize, name: String)
    requires
        pre.wf(),
        join_effect(pre, post, id, name),
        has_name(pre.players@, name@),
        pre.players@[first_name(pre.players@, name@)].id is None,
    ensures
        post.phase == pre.phase,
        post.past_rounds == pre.past_rounds,
        post.players@.len() == pre.players@.len(),
        post.players@[first_name(pre.players@, name@)].id == Some(id),
        forall|j: int|
            0 <= j < pre.players@.len() ==> post.players@[j].name@ == pre.players@[j].name@,
{
    let i = first_name(pre.players@, name@);
    assert(post.players@ == pre.players@.update(
        i,
        Player { id: Some(id), name: pre.players@[i].name },
    ));
}

/// Closing a round rotates the turn by exactly one seat, modulo the number
/// of players.
pub proof fn lemma_turn_rotates(pre: State, post: State)
    requires
        pre.wf(),
        finish_judging_enabled(pre),
        finish_judging_effect(pre, post),
    ensures
        post.players@ == pre.players@,
        post.active_index == Some(
            (((pre.active() + 1) % (pre.players@.len() as int))) as usize,
        ),
{
}

/// A rejected action performs no mutation at all: whatever a client
/// submits out of turn or out of phase, the session it sees next is
/// exactly the one it saw before.
pub proof fn lemma_rejected_action_mutates_nothing(pre: State, post: State, a: Action)
    requires
        action_effect(pre, post, a),
        !action_enabled(pre, a),
    ensures
        post == pre,
{
}

/// An action of the round lifecycle other than closing the round.
pub open spec fn is_mid_round_action(a: Action) -> bool {
    match a {
        Action::Start(_) => true,
        Action::GiveHint(_, _) => true,
        Action::FilterHint(_, _, _) => true,
        Action::FinishHintFiltering(_) => true,
        Action::Guess(_, _) => true,
        Action::Judge(_, _) => true,
        _ => false,
    }
}

/// Only closing a round moves the turn: every other lifecycle action —
/// accepted or rejected — leaves the registry and the active position
/// exactly as they were.
pub proof fn lemma_only_closing_a_round_moves_turn(pre: State, post: State, a: Action)
    requires
        action_effect(pre, post, a),
        is_mid_round_action(a),
    ensures
        post.players == pre.players,
        post.active_index == pre.active_index,
{
}

/// During hint collection the active player's projection depends on nothing
/// but who has submitted: two sessions whose hint maps agree on the author
/// list — whatever the hint contents — project identically to their active
/// viewers.
pub proof fn lemma_collection_hides_contents_from_active(
    s1: State,
    s2: State,
    id: usize,
    v1: VisibleGamePhase,
    v2: VisibleGamePhase,
)
    requires
        s1.wf(),
        s2.wf(),
        s1.phase is HintCollection,
        s2.phase is HintCollection,
        (match (s1.phase, s2.phase) {
            (GamePhase::HintCollection(hc1), GamePhase::HintCollection(hc2)) => names_of(
                hc1.hints.entries@,
            ) == names_of(hc2.hints.entries@),
            _ => false,
        }),
        has_handle(s1.players@, id),
        has_handle(s2.players@, id),
        first_handle(s1.players@, id) == s1.active(),
        first_handle(s2.players@, id) == s2.active(),
        phase_view_ok(s1, id, v1),
        phase_view_ok(s2, id, v2),
    ensures
        v1 matches VisibleGamePhase::HintCollection(VisibleHintCollection::Active(a1)) && (
        v2 matches VisibleGamePhase::HintCollection(VisibleHintCollection::Active(a2))
            && a1.players_done@ == a2.players_done@),
{
}

/// During hint collection a non-active viewer is shown their own hint and
/// nothing of anybody else's: two sessions that agree on the word, on the
/// author list, on the viewer's seat and name, and on the viewer's own entry
/// — while every other author's content may differ — project identically to
/// that viewer.
pub proof fn lemma_collection_shows_only_own_hint(
    s1: State,
    s2: State,
    id: usize,
    v1: VisibleGamePhase,
    v2: VisibleGamePhase,
)
    requires
        s1.wf(),
        s2.wf(),
        has_handle(s1.players@, id),
        has_handle(s2.players@, id),
        first_handle(s1.players@, id) == first_handle(s2.players@, id),
        first_handle(s1.players@, id) != s1.active(),
        first_handle(s2.players@, id) != s2.active(),
        s1.players@[first_handle(s1.players@, id)].name == s2.players@[first_handle(
            s2.players@,
            id,
        )].name,
        s1.phase is HintCollection,
        s2.phase is HintCollection,
        (match (s1.phase, s2.phase) {
            (GamePhase::HintCollection(hc1), GamePhase::HintCollection(hc2)) => {
                let viewer_name = s1.players@[first_handle(s1.players@, id)].name@;
                &&& hc1.word == hc2.word
                &&& names_of(hc1.hints.entries@) == names_of(hc2.hints.entries@)
                &&& hc1.hints.spec_get(viewer_name) == hc2.hints.spec_get(viewer_name)
            },
            _ => false,
        }),
        phase_view_ok(s1, id, v1),
        phase_view_ok(s2, id, v2),
    ensures
        v1 matches VisibleGamePhase::HintCollection(VisibleHintCollection::Inactive(ia1)) && (
        v2 matches VisibleGamePhase::HintCollection(VisibleHintCollection::Inactive(ia2))
            && ia1.word == ia2.word && ia1.hint == ia2.hint && ia1.players_done@
            == ia2.players_done@),
{
}

/// Filtering is content-keyed, not author-keyed: two entries carrying the
/// same text as the filtered one flip together, whoever wrote them.
pub proof fn lemma_filter_is_content_keyed(
    old_m: HintMap,
    new_m: HintMap,
    text: Seq<char>,
    allowed: bool,
    i: int,
    j: int,
)
    requires
        is_filtered(old_m, new_m, text, allowed),
        0 <= i < old_m.entries@.len(),
        0 <= j < old_m.entries@.len(),
        old_m.entries@[i].1.content@ == text,
        old_m.entries@[j].1.content@ == text,
    ensures
        new_m.entries@[i].1.allowed == allowed,
        new_m.entries@[j].1.allowed == allowed,
        new_m.entries@[i].1.allowed == new_m.entries@[j].1.allowed,
{
}

/// Leaving passes the turn by value: afterwards the turn sits with the
/// player named by `leave_keep_name` — the next seat in rotation order if
/// the leaver was active, the previously active player otherwise — wherever
/// that player ended up.
pub proof fn lemma_leave_passes_turn(pre: State, post: State, id: usize)
    requires
        pre.wf(),
        has_handle(pre.players@, id),
        leave_effect(pre, post, id),
        leave_removed(pre, id).len() > 0,
    ensures
        match post.active_index {
            Some(k) => k < post.players@.len() && post.players@[k as int].name@
                == leave_keep_name(pre, id),
            None => false,
        },
{
    let remaining = leave_removed(pre, id);
    let keep = leave_keep_name(pre, id);
    let k = choose|k: int|
        is_first_name(remaining, keep, k) && post.active_index == Some(k as usize);
    assert(is_first_name(remaining, keep, k) && post.active_index == Some(k as usize));
    assert(post.players@ == remaining);
    assert(post.players.len() == post.players@.len());
    assert(0 <= k < post.players@.len());
    assert((k as usize) as int == k);
    assert(post.players@[k].name@ == keep);
}

/// A round in progress is abandoned when a player leaves: with fewer than
/// two players left the session falls back to gathering players, with two
/// or more a fresh round opens at once with a newly drawn word and no hints.
pub proof fn lemma_leave_abandons_round(pre: State, post: State, id: usize)
    requires
        pre.wf(),
        has_handle(pre.players@, id),
        !(pre.phase is GatherPlayers),
        leave_effect(pre, post, id),
    ensures
        leave_removed(pre, id).len() < 2 ==> post.phase is GatherPlayers,
        leave_removed(pre, id).len() >= 2 ==> (post.phase matches GamePhase::HintCollection(hc)
            && hc.word@ == pre.dictionary.spec_peek() && hc.hints.entries@.len() == 0),
{
}

/// Removing the last remaining player clears the history and resets the
/// phase, but the word cursor stays where it stands: the next drawn word
/// continues the cycle rather than restarting it.
pub proof fn lemma_full_exit_keeps_cursor(pre: State, post: State, id: usize)
    requires
        pre.wf(),
        has_handle(pre.players@, id),
        leave_effect(pre, post, id),
        leave_removed(pre, id).len() == 0,
    ensures
        post.players@.len() == 0,
        post.phase is GatherPlayers,
        post.past_rounds@.len() == 0,
        post.dictionary == pre.dictionary,
        post.dictionary.spec_peek() == pre.dictionary.spec_peek(),
{
}

/// The supply after `k` draws.
pub open spec fn spec_draws(d: Dictionary, k: nat) -> Dictionary
    decreases k,
{
    if k == 0 {
        d
    } else {
        spec_draws(d, (k - 1) as nat).spec_draw()
    }
}

/// The supply cycles deterministically: the words never change and the
/// cursor after `k` draws stands at the starting cursor plus `k`, modulo the
/// list length — the whole list repeats before any word does.
pub proof fn lemma_supply_cycles(d: Dictionary, k: nat)
    requires
        d.wf(),
    ensures
        spec_draws(d, k).wf(),
        spec_draws(d, k).words == d.words,
        spec_draws(d, k).next_index as int == (d.next_index + k) % (d.words@.len() as int),
    decreases k,
{
    let len = d.words@.len() as int;
    assert(d.words.len() == d.words@.len());
    if k == 0 {
        vstd::arithmetic::div_mod::lemma_small_mod(d.next_index as nat, len as nat);
    } else {
        lemma_supply_cycles(d, (k - 1) as nat);
        let p = spec_draws(d, (k - 1) as nat);
        assert(spec_draws(d, k) == p.spec_draw());
        assert(p.next_index as int == (d.next_index + k - 1) % len);
        vstd::arithmetic::div_mod::lemma_add_mod_noop(d.next_index + k - 1, 1, len);
        if len == 1 {
            vstd::arithmetic::div_mod::lemma_mod_self_0(1);
            vstd::arithmetic::div_mod::lemma_mod_division_less_than_divisor(
                d.next_index + k,
                1,
            );
            vstd::arithmetic::div_mod::lemma_mod_division_less_than_divisor(
                d.next_index + k - 1,
                1,
            );
        } else {
            vstd::arithmetic::div_mod::lemma_small_mod(1, len as nat);
            assert((p.next_index as int + 1) % len == (d.next_index + k) % len);
            if p.next_index + 1 < len {
                vstd::arithmetic::div_mod::lemma_small_mod((p.next_index + 1) as nat, len as nat);
                assert(spec_draws(d, k).next_index == p.next_index + 1);
                assert((p.next_index as int + 1) % len == p.next_index as int + 1);
            } else {
                vstd::arithmetic::div_mod::lemma_mod_self_0(len);
                assert(p.next_index as int + 1 == len);
                assert(spec_draws(d, k).next_index == 0);
                assert((p.next_index as int + 1) % len == 0);
            }
        }
    }
}

} // verus!

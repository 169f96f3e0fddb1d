use word_game::action::Action;
use word_game::dictionary::Dictionary;
use word_game::phase::GamePhase;
use word_game::state::State;

fn mk(words: &[&str]) -> State {
    State::new(Dictionary::new(words.iter().map(|w| w.to_string()).collect()))
}

fn join_abc(s: &mut State) {
    assert_eq!(s.join(1, "A".to_string()), Some(()));
    assert_eq!(s.join(2, "B".to_string()), Some(()));
    assert_eq!(s.join(3, "C".to_string()), Some(()));
}

fn active_id(s: &State) -> usize {
    let ai = s.active_index.expect("a session with players has an active player");
    s.players[ai].id.expect("the active player is connected in these scenarios")
}

fn inactive_ids(s: &State) -> Vec<usize> {
    let act = active_id(s);
    s.players
        .iter()
        .filter_map(|p| p.id)
        .filter(|id| *id != act)
        .collect()
}

/// Drives one complete round: hints from every non-active player, filtering
/// closed, a guess, a verdict, and the round closed.
fn play_round(s: &mut State) {
    let act = active_id(s);
    let others = inactive_ids(s);
    for (n, id) in others.iter().enumerate() {
        assert_eq!(s.action(&Action::GiveHint(*id, format!("hint-{}-{}", id, n))), Some(()));
    }
    assert!(matches!(s.phase, GamePhase::HintFiltering(_)));
    assert_eq!(s.action(&Action::FinishHintFiltering(others[0])), Some(()));
    assert_eq!(s.action(&Action::Guess(act, Some("a guess".to_string()))), Some(()));
    assert_eq!(s.action(&Action::Judge(others[0], true)), Some(()));
    assert_eq!(s.action(&Action::FinishJudging(act)), Some(()));
}

fn current_word(s: &State) -> String {
    match &s.phase {
        GamePhase::HintCollection(hc) => hc.word.clone(),
        GamePhase::HintFiltering(hf) => hf.word.clone(),
        GamePhase::Guessing(g) => g.word.clone(),
        GamePhase::Judging(j) => j.word.clone(),
        GamePhase::GatherPlayers => panic!("no round in progress"),
    }
}

#[test]
fn join_with_connected_name_is_noop() {
    let mut s = mk(&["w1", "w2"]);
    join_abc(&mut s);
    // "A" is held by a live connection: joining again under it changes nothing
    assert_eq!(s.action(&Action::Join(7, "A".to_string())), Some(()));
    assert_eq!(s.players.len(), 3);
    assert_eq!(s.players[0].id, Some(1));
    assert_eq!(s.players[0].name, "A");
    assert_eq!(s.active_index, Some(0));
}

#[test]
fn rejoin_after_disconnect_preserves_hints() {
    let mut s = mk(&["w1", "w2"]);
    join_abc(&mut s);
    assert_eq!(s.action(&Action::Start(1)), Some(()));
    assert_eq!(s.action(&Action::GiveHint(2, "from-b".to_string())), Some(()));
    assert_eq!(s.action(&Action::DisconnectPlayer(2)), Some(()));
    assert_eq!(s.players[1].id, None);
    // the entry and its hint survive; a rejoin under the same name reattaches
    assert_eq!(s.action(&Action::Join(9, "B".to_string())), Some(()));
    assert_eq!(s.players.len(), 3);
    assert_eq!(s.players[1].id, Some(9));
    match &s.phase {
        GamePhase::HintCollection(hc) => {
            assert_eq!(hc.hints.entries.len(), 1);
            assert_eq!(hc.hints.entries[0].0, "B");
            assert_eq!(hc.hints.entries[0].1.content, "from-b");
        }
        other => panic!("still collecting hints, got {:?}", std::mem::discriminant(other)),
    }
}

#[test]
fn first_joiner_is_first_active() {
    let mut s = mk(&["w"]);
    assert_eq!(s.active_index, None);
    s.join(5, "first".to_string());
    assert_eq!(s.active_index, Some(0));
    s.join(6, "second".to_string());
    assert_eq!(s.active_index, Some(0));
}

#[test]
fn turn_rotation_is_mod_player_count() {
    let mut s = mk(&["w1", "w2"]);
    join_abc(&mut s);
    assert_eq!(s.action(&Action::Start(1)), Some(()));
    assert_eq!(s.active_index, Some(0));
    let mut expected: usize = 0;
    // two full rotations of three players bring the turn back to A
    for _ in 0..6 {
        assert_eq!(s.active_index, Some(expected));
        play_round(&mut s);
        expected = (expected + 1) % 3;
    }
    assert_eq!(s.active_index, Some(0));
}

#[test]
fn leave_of_active_passes_turn_to_next() {
    let mut s = mk(&["w"]);
    join_abc(&mut s);
    // [A*, B, C]: A leaves, B inherits the turn
    assert_eq!(s.action(&Action::Leave(1)), Some(()));
    assert_eq!(s.players.len(), 2);
    assert_eq!(s.players[0].name, "B");
    assert_eq!(s.players[1].name, "C");
    assert_eq!(s.active_index, Some(0));
}

#[test]
fn leave_of_inactive_keeps_active() {
    let mut s = mk(&["w1", "w2"]);
    join_abc(&mut s);
    assert_eq!(s.action(&Action::Start(1)), Some(()));
    play_round(&mut s);
    // one finished round later B holds the turn: [A, B*, C]
    assert_eq!(s.active_index, Some(1));
    assert_eq!(s.action(&Action::Leave(3)), Some(()));
    assert_eq!(s.players.len(), 2);
    assert_eq!(s.players[1].name, "B");
    assert_eq!(s.active_index, Some(1));
}

#[test]
fn leave_mid_guessing_with_two_players_abandons() {
    let mut s = mk(&["w1", "w2"]);
    assert_eq!(s.join(1, "A".to_string()), Some(()));
    assert_eq!(s.join(2, "B".to_string()), Some(()));
    assert_eq!(s.action(&Action::Start(1)), Some(()));
    assert_eq!(s.action(&Action::GiveHint(2, "h".to_string())), Some(()));
    assert_eq!(s.action(&Action::FinishHintFiltering(2)), Some(()));
    assert!(matches!(s.phase, GamePhase::Guessing(_)));
    assert_eq!(s.action(&Action::Leave(2)), Some(()));
    assert_eq!(s.players.len(), 1);
    assert!(matches!(s.phase, GamePhase::GatherPlayers));
}

#[test]
fn leave_mid_guessing_with_three_players_restarts_round() {
    let mut s = mk(&["w1", "w2", "w3"]);
    join_abc(&mut s);
    assert_eq!(s.action(&Action::Start(1)), Some(()));
    assert_eq!(current_word(&s), "w1");
    assert_eq!(s.action(&Action::GiveHint(2, "h-b".to_string())), Some(()));
    assert_eq!(s.action(&Action::GiveHint(3, "h-c".to_string())), Some(()));
    assert_eq!(s.action(&Action::FinishHintFiltering(2)), Some(()));
    assert_eq!(s.action(&Action::Guess(1, Some("w?".to_string()))), Some(()));
    assert!(matches!(s.phase, GamePhase::Judging(_)));
    assert_eq!(s.action(&Action::Leave(3)), Some(()));
    // the interrupted round is discarded: a fresh collection with a new word
    match &s.phase {
        GamePhase::HintCollection(hc) => {
            assert_eq!(hc.word, "w2");
            assert_eq!(hc.hints.entries.len(), 0);
        }
        _ => panic!("a fresh round should have started"),
    }
}

#[test]
fn word_cycling_repeats_the_list() {
    let mut s = mk(&["x", "y"]);
    join_abc(&mut s);
    let mut drawn: Vec<String> = Vec::new();
    assert_eq!(s.action(&Action::Start(1)), Some(()));
    drawn.push(current_word(&s));
    for _ in 0..3 {
        play_round(&mut s);
        drawn.push(current_word(&s));
    }
    assert_eq!(drawn, vec!["x", "y", "x", "y"]);
}

#[test]
fn full_exit_clears_history_but_keeps_cursor() {
    let mut s = mk(&["x", "y", "z"]);
    assert_eq!(s.join(1, "A".to_string()), Some(()));
    assert_eq!(s.join(2, "B".to_string()), Some(()));
    assert_eq!(s.action(&Action::Start(1)), Some(()));
    play_round(&mut s);
    assert_eq!(s.past_rounds.len(), 1);
    // the finished round drew "x", the follow-up round "y": cursor now at "z"
    assert_eq!(s.action(&Action::Leave(2)), Some(()));
    assert!(matches!(s.phase, GamePhase::GatherPlayers));
    assert_eq!(s.past_rounds.len(), 1);
    assert_eq!(s.action(&Action::Leave(1)), Some(()));
    assert_eq!(s.players.len(), 0);
    assert_eq!(s.past_rounds.len(), 0);
    assert!(matches!(s.phase, GamePhase::GatherPlayers));
    assert_eq!(s.active_index, None);
    // the next session continues the cycle instead of restarting it
    assert_eq!(s.join(4, "D".to_string()), Some(()));
    assert_eq!(s.join(5, "E".to_string()), Some(()));
    assert_eq!(s.action(&Action::Start(4)), Some(()));
    assert_eq!(current_word(&s), "z");
}

#[test]
fn past_round_records_name_word_and_verdict() {
    let mut s = mk(&["w1", "w2"]);
    join_abc(&mut s);
    assert_eq!(s.action(&Action::Start(1)), Some(()));
    play_round(&mut s);
    assert_eq!(s.past_rounds.len(), 1);
    assert_eq!(s.past_rounds[0].name, "A");
    assert_eq!(s.past_rounds[0].word, "w1");
    assert!(s.past_rounds[0].success);
}

#[test]
fn missing_verdict_counts_as_failure() {
    let mut s = mk(&["w1", "w2"]);
    join_abc(&mut s);
    assert_eq!(s.action(&Action::Start(1)), Some(()));
    assert_eq!(s.action(&Action::GiveHint(2, "h1".to_string())), Some(()));
    assert_eq!(s.action(&Action::GiveHint(3, "h2".to_string())), Some(()));
    assert_eq!(s.action(&Action::FinishHintFiltering(2)), Some(()));
    assert_eq!(s.action(&Action::Guess(1, None)), Some(()));
    // nobody judges before the round is closed
    assert_eq!(s.action(&Action::FinishJudging(2)), Some(()));
    assert_eq!(s.past_rounds.len(), 1);
    assert!(!s.past_rounds[0].success);
}

#[test]
fn rejected_actions_change_nothing() {
    let mut s = mk(&["w1", "w2"]);
    assert_eq!(s.join(1, "A".to_string()), Some(()));
    // starting needs at least two players
    assert_eq!(s.action(&Action::Start(1)), None);
    assert!(matches!(s.phase, GamePhase::GatherPlayers));
    assert_eq!(s.join(2, "B".to_string()), Some(()));
    // wrong phase
    assert_eq!(s.action(&Action::GiveHint(2, "h".to_string())), None);
    assert_eq!(s.action(&Action::FilterHint(2, "h".to_string(), false)), None);
    assert_eq!(s.action(&Action::FinishHintFiltering(2)), None);
    assert_eq!(s.action(&Action::Guess(1, None)), None);
    assert_eq!(s.action(&Action::Judge(2, true)), None);
    assert_eq!(s.action(&Action::FinishJudging(2)), None);
    // unknown handles
    assert_eq!(s.action(&Action::DisconnectPlayer(42)), None);
    assert_eq!(s.action(&Action::Leave(42)), None);
    assert_eq!(s.players.len(), 2);
    assert_eq!(s.action(&Action::Start(1)), Some(()));
    // the active player may not hint, filter, or judge; the others may not guess
    assert_eq!(s.action(&Action::GiveHint(1, "h".to_string())), None);
    assert_eq!(s.action(&Action::GiveHint(42, "h".to_string())), None);
    assert_eq!(s.action(&Action::Guess(2, None)), None);
    assert_eq!(s.action(&Action::GiveHint(2, "h".to_string())), Some(()));
    assert_eq!(s.action(&Action::FilterHint(1, "h".to_string(), false)), None);
    assert_eq!(s.action(&Action::FinishHintFiltering(1)), None);
    assert_eq!(s.action(&Action::FinishHintFiltering(2)), Some(()));
    assert_eq!(s.action(&Action::Guess(1, Some("g".to_string()))), Some(()));
    assert_eq!(s.action(&Action::Judge(1, true)), None);
}

#[test]
fn second_disconnect_fails() {
    let mut s = mk(&["w"]);
    assert_eq!(s.join(1, "A".to_string()), Some(()));
    assert_eq!(s.disconnect_player(1), Some(()));
    assert_eq!(s.players[0].id, None);
    assert_eq!(s.disconnect_player(1), None);
}

#[test]
fn hint_overwrites_own_earlier_hint() {
    let mut s = mk(&["w1", "w2"]);
    join_abc(&mut s);
    assert_eq!(s.action(&Action::Start(1)), Some(()));
    assert_eq!(s.action(&Action::GiveHint(2, "first".to_string())), Some(()));
    assert_eq!(s.action(&Action::GiveHint(2, "second".to_string())), Some(()));
    match &s.phase {
        GamePhase::HintCollection(hc) => {
            assert_eq!(hc.hints.entries.len(), 1);
            assert_eq!(hc.hints.entries[0].1.content, "second");
        }
        _ => panic!("still collecting"),
    }
}

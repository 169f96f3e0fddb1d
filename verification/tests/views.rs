use word_game::action::Action;
use word_game::dictionary::Dictionary;
use word_game::phase::GamePhase;
use word_game::state::State;
use word_game::view::{
    VisibleGamePhase, VisibleGuessing, VisibleHintCollection, VisibleHintFiltering, VisibleJudging,
};

fn mk(words: &[&str]) -> State {
    State::new(Dictionary::new(words.iter().map(|w| w.to_string()).collect()))
}

#[test]
fn collection_view_hides_content_from_active_and_others_from_inactive() {
    let mut s = mk(&["w1", "w2"]);
    assert_eq!(s.join(1, "A".to_string()), Some(()));
    assert_eq!(s.join(2, "B".to_string()), Some(()));
    assert_eq!(s.join(3, "C".to_string()), Some(()));
    assert_eq!(s.join(4, "D".to_string()), Some(()));
    assert_eq!(s.action(&Action::Start(1)), Some(()));
    assert_eq!(s.action(&Action::GiveHint(2, "b-secret".to_string())), Some(()));
    assert_eq!(s.action(&Action::GiveHint(3, "c-secret".to_string())), Some(()));
    assert!(matches!(s.phase, GamePhase::HintCollection(_)));

    // the active player sees only who has submitted, never a content
    let va = s.get_view(1);
    match va.phase {
        VisibleGamePhase::HintCollection(VisibleHintCollection::Active(a)) => {
            assert_eq!(a.players_done, vec!["B".to_string(), "C".to_string()]);
        }
        _ => panic!("the active viewer gets the redacted collection view"),
    }

    // B sees the word, exactly B's own hint, and the submitter names
    let vb = s.get_view(2);
    match vb.phase {
        VisibleGamePhase::HintCollection(VisibleHintCollection::Inactive(ia)) => {
            assert_eq!(ia.word, "w1");
            let own = ia.hint.expect("B already submitted");
            assert_eq!(own.content, "b-secret");
            assert!(own.allowed);
            assert_eq!(ia.players_done, vec!["B".to_string(), "C".to_string()]);
        }
        _ => panic!("a non-active viewer gets the inactive collection view"),
    }

    // D has not submitted: same shape, no own hint
    let vd = s.get_view(4);
    match vd.phase {
        VisibleGamePhase::HintCollection(VisibleHintCollection::Inactive(ia)) => {
            assert!(ia.hint.is_none());
        }
        _ => panic!("a non-active viewer gets the inactive collection view"),
    }
}

#[test]
fn filtering_is_content_keyed_across_authors() {
    let mut s = mk(&["w1", "w2"]);
    assert_eq!(s.join(1, "A".to_string()), Some(()));
    assert_eq!(s.join(2, "B".to_string()), Some(()));
    assert_eq!(s.join(3, "C".to_string()), Some(()));
    assert_eq!(s.action(&Action::Start(1)), Some(()));
    assert_eq!(s.action(&Action::GiveHint(2, "same".to_string())), Some(()));
    assert_eq!(s.action(&Action::GiveHint(3, "same".to_string())), Some(()));
    assert!(matches!(s.phase, GamePhase::HintFiltering(_)));
    // one verdict on the text flips both authors' entries together
    assert_eq!(s.action(&Action::FilterHint(2, "same".to_string(), false)), Some(()));
    match &s.phase {
        GamePhase::HintFiltering(hf) => {
            assert_eq!(hf.hints.entries.len(), 2);
            assert!(!hf.hints.entries[0].1.allowed);
            assert!(!hf.hints.entries[1].1.allowed);
        }
        _ => panic!("still filtering"),
    }
    assert_eq!(s.action(&Action::FilterHint(3, "same".to_string(), true)), Some(()));
    match &s.phase {
        GamePhase::HintFiltering(hf) => {
            assert!(hf.hints.entries[0].1.allowed);
            assert!(hf.hints.entries[1].1.allowed);
        }
        _ => panic!("still filtering"),
    }
}

#[test]
fn filtering_view_shows_allowed_names_to_active_and_all_to_inactive() {
    let mut s = mk(&["w1", "w2"]);
    assert_eq!(s.join(1, "A".to_string()), Some(()));
    assert_eq!(s.join(2, "B".to_string()), Some(()));
    assert_eq!(s.join(3, "C".to_string()), Some(()));
    assert_eq!(s.action(&Action::Start(1)), Some(()));
    assert_eq!(s.action(&Action::GiveHint(2, "hb".to_string())), Some(()));
    assert_eq!(s.action(&Action::GiveHint(3, "hc".to_string())), Some(()));
    assert_eq!(s.action(&Action::FilterHint(2, "hc".to_string(), false)), Some(()));

    let va = s.get_view(1);
    match va.phase {
        VisibleGamePhase::HintFiltering(VisibleHintFiltering::Active(a)) => {
            assert_eq!(a.players_valid_hints, vec!["B".to_string()]);
        }
        _ => panic!("the active viewer gets the redacted filtering view"),
    }

    let vc = s.get_view(3);
    match vc.phase {
        VisibleGamePhase::HintFiltering(VisibleHintFiltering::Inactive(ih)) => {
            assert_eq!(ih.0.word, "w1");
            assert_eq!(ih.0.hints.entries.len(), 2);
            assert_eq!(ih.0.hints.entries[0].0, "B");
            assert_eq!(ih.0.hints.entries[0].1.content, "hb");
            assert!(ih.0.hints.entries[0].1.allowed);
            assert_eq!(ih.0.hints.entries[1].0, "C");
            assert_eq!(ih.0.hints.entries[1].1.content, "hc");
            assert!(!ih.0.hints.entries[1].1.allowed);
        }
        _ => panic!("a non-active viewer sees the full filtering state"),
    }
}

#[test]
fn guessing_view_anonymises_allowed_hints_for_the_guesser() {
    let mut s = mk(&["w1", "w2"]);
    assert_eq!(s.join(1, "A".to_string()), Some(()));
    assert_eq!(s.join(2, "B".to_string()), Some(()));
    assert_eq!(s.join(3, "C".to_string()), Some(()));
    assert_eq!(s.action(&Action::Start(1)), Some(()));
    assert_eq!(s.action(&Action::GiveHint(2, "hb".to_string())), Some(()));
    assert_eq!(s.action(&Action::GiveHint(3, "hc".to_string())), Some(()));
    assert_eq!(s.action(&Action::FilterHint(2, "hc".to_string(), false)), Some(()));
    assert_eq!(s.action(&Action::FinishHintFiltering(3)), Some(()));

    // the guesser sees only the allowed contents, stripped of authorship
    let va = s.get_view(1);
    match va.phase {
        VisibleGamePhase::Guessing(VisibleGuessing::Active(a)) => {
            assert_eq!(a.hints.len(), 1);
            assert_eq!(a.hints[0].0, "hb");
            assert!(a.guess.is_none());
        }
        _ => panic!("the guesser gets the anonymised view"),
    }

    assert_eq!(s.action(&Action::Guess(1, Some("w1".to_string()))), Some(()));
    assert_eq!(s.action(&Action::Judge(2, true)), Some(()));

    // judgment is public: both sides see word, hints, guess and verdict
    let va = s.get_view(1);
    match va.phase {
        VisibleGamePhase::Judging(VisibleJudging::Active(j)) => {
            assert_eq!(j.word, "w1");
            assert_eq!(j.guess, Some("w1".to_string()));
            assert_eq!(j.success, Some(true));
            assert_eq!(j.hints.entries.len(), 2);
        }
        _ => panic!("judging is public"),
    }
    let vb = s.get_view(2);
    match vb.phase {
        VisibleGamePhase::Judging(VisibleJudging::Inactive(j)) => {
            assert_eq!(j.word, "w1");
            assert_eq!(j.guess, Some("w1".to_string()));
            assert_eq!(j.success, Some(true));
        }
        _ => panic!("judging is public"),
    }
}

#[test]
fn unregistered_viewer_gets_join_only() {
    let mut s = mk(&["w"]);
    assert_eq!(s.join(1, "A".to_string()), Some(()));
    let v = s.get_view(99);
    assert!(v.me.is_none());
    assert!(matches!(v.phase, VisibleGamePhase::GatherPlayers));
    assert_eq!(v.actions.len(), 1);
    match &v.actions[0] {
        Action::Join(id, name) => {
            assert_eq!(*id, 99);
            assert_eq!(name, "");
        }
        _ => panic!("an unregistered viewer may only join"),
    }
}

#[test]
fn legal_actions_follow_the_guard_table() {
    let mut s = mk(&["w1", "w2"]);
    assert_eq!(s.join(1, "A".to_string()), Some(()));
    // alone: leaving is the only move
    let v = s.list_actions(1);
    assert_eq!(v.len(), 1);
    assert!(matches!(v[0], Action::Leave(1)));

    assert_eq!(s.join(2, "B".to_string()), Some(()));
    let v = s.list_actions(1);
    assert_eq!(v.len(), 2);
    assert!(matches!(v[0], Action::Start(1)));
    assert!(matches!(v[1], Action::Leave(1)));

    assert_eq!(s.action(&Action::Start(1)), Some(()));
    // collecting: the active player only waits, the other may hint
    let v = s.list_actions(1);
    assert_eq!(v.len(), 1);
    assert!(matches!(v[0], Action::Leave(1)));
    let v = s.list_actions(2);
    assert_eq!(v.len(), 2);
    match &v[0] {
        Action::GiveHint(id, text) => {
            assert_eq!(*id, 2);
            assert_eq!(text, "");
        }
        _ => panic!("a non-active player may hint"),
    }

    assert_eq!(s.action(&Action::GiveHint(2, "h".to_string())), Some(()));
    // filtering: one verdict template per known hint, plus closing
    let v = s.list_actions(2);
    assert_eq!(v.len(), 3);
    match &v[0] {
        Action::FilterHint(id, text, allowed) => {
            assert_eq!(*id, 2);
            assert_eq!(text, "h");
            assert!(*allowed);
        }
        _ => panic!("filter templates come first"),
    }
    assert!(matches!(v[1], Action::FinishHintFiltering(2)));
    assert!(matches!(v[2], Action::Leave(2)));

    assert_eq!(s.action(&Action::FinishHintFiltering(2)), Some(()));
    // guessing: only the active player moves
    let v = s.list_actions(1);
    assert_eq!(v.len(), 2);
    assert!(matches!(v[0], Action::Guess(1, None)));
    let v = s.list_actions(2);
    assert_eq!(v.len(), 1);

    assert_eq!(s.action(&Action::Guess(1, Some("g".to_string()))), Some(()));
    // judging with a guess: the juror may contradict the standing verdict
    let v = s.list_actions(2);
    assert_eq!(v.len(), 3);
    assert!(matches!(v[0], Action::Judge(2, true)));
    assert!(matches!(v[1], Action::FinishJudging(2)));
    assert!(matches!(v[2], Action::Leave(2)));
    assert_eq!(s.action(&Action::Judge(2, true)), Some(()));
    let v = s.list_actions(2);
    assert!(matches!(v[0], Action::Judge(2, false)));
}

#[test]
fn view_carries_registry_me_and_history() {
    let mut s = mk(&["w1", "w2"]);
    assert_eq!(s.join(1, "A".to_string()), Some(()));
    assert_eq!(s.join(2, "B".to_string()), Some(()));
    let v = s.get_view(2);
    assert_eq!(v.players.len(), 2);
    assert_eq!(v.players[0].name, "A");
    assert_eq!(v.players[1].name, "B");
    let me = v.me.expect("handle 2 is registered");
    assert_eq!(me.name, "B");
    assert_eq!(me.id, Some(2));
    assert_eq!(v.past_rounds.len(), 0);
}

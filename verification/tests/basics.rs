use word_game::dictionary::Dictionary;

#[test]
fn it_works() {
    assert_eq!(2 + 2, 4);
}

#[test]
fn dictionary_cycles_in_order() {
    let mut d = Dictionary::new(vec!["x".to_string(), "y".to_string()]);
    assert_eq!(d.next_index, 0);
    assert_eq!(d.get_word(), "x");
    assert_eq!(d.get_word(), "y");
    assert_eq!(d.get_word(), "x");
    assert_eq!(d.get_word(), "y");
    assert_eq!(d.next_index, 0);
}

#[test]
fn default_dictionary_is_usable() {
    let mut d = Dictionary::default();
    assert_eq!(d.words.len(), 2);
    let first = d.get_word();
    assert_eq!(first, "Steinbruch");
}

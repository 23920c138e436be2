use undiscovered_steam::terms::TermSource;

fn words(list: &[&str]) -> Vec<String> {
    list.iter().map(|word| word.to_string()).collect()
}

#[test]
fn an_empty_list_makes_no_source() {
    assert!(TermSource::new(Vec::new()).is_none());
}

#[test]
fn an_empty_text_makes_no_source() {
    assert!(TermSource::from_text("").is_none());
}

#[test]
fn a_source_knows_how_many_words_it_holds() {
    let source = TermSource::new(words(&["ember", "quartz", "willow"])).unwrap();
    assert_eq!(source.len(), 3);
    let source = TermSource::new(words(&["only"])).unwrap();
    assert_eq!(source.len(), 1);
}

#[test]
fn a_source_reads_one_word_per_line() {
    let source = TermSource::from_text("ember\nquartz\r\nwillow\n").unwrap();
    assert_eq!(source.len(), 3);
    assert_eq!(source.pick(Some(0)), "ember");
    assert_eq!(source.pick(Some(1)), "quartz");
    assert_eq!(source.pick(Some(2)), "willow");
}

#[test]
fn a_text_of_one_blank_line_holds_one_empty_word() {
    let source = TermSource::from_text("\n").unwrap();
    assert_eq!(source.len(), 1);
    assert_eq!(source.pick(Some(0)), "");
}

#[test]
fn pick_hands_out_the_word_at_the_drawn_position() {
    let source = TermSource::new(words(&["ember", "quartz", "willow"])).unwrap();
    assert_eq!(source.pick(Some(0)), "ember");
    assert_eq!(source.pick(Some(1)), "quartz");
    assert_eq!(source.pick(Some(2)), "willow");
}

#[test]
fn pick_falls_back_to_the_first_word() {
    let source = TermSource::new(words(&["ember", "quartz", "willow"])).unwrap();
    assert_eq!(source.pick(None), "ember");
    assert_eq!(source.pick(Some(3)), "ember");
    assert_eq!(source.pick(Some(usize::MAX)), "ember");
}

#[test]
fn next_term_is_always_one_of_the_words() {
    let list = words(&["ember", "quartz", "willow", "harbor", "lantern"]);
    let source = TermSource::new(list.clone()).unwrap();
    for _ in 0..500 {
        let term = source.next_term();
        assert!(list.contains(&term));
    }
}

#[test]
fn next_term_of_a_single_word_is_that_word() {
    let source = TermSource::new(words(&["only"])).unwrap();
    for _ in 0..20 {
        assert_eq!(source.next_term(), "only");
    }
}

#[test]
fn next_term_reaches_every_word() {
    let list = words(&["ember", "quartz", "willow", "harbor"]);
    let source = TermSource::new(list.clone()).unwrap();
    let mut seen = vec![false; list.len()];
    for _ in 0..2000 {
        let term = source.next_term();
        let at = list.iter().position(|word| *word == term).unwrap();
        seen[at] = true;
    }
    assert_eq!(seen, vec![true, true, true, true]);
}

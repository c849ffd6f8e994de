use quiz_engine::shuffle::{apply_picks, draw_picks, position_of};

fn words(items: &[&str]) -> Vec<String> {
    items.iter().map(|s| s.to_string()).collect()
}

#[test]
fn identity_picks_change_nothing() {
    let mut options = words(&["a", "b", "c", "d"]);
    apply_picks(&mut options, &vec![0, 1, 2, 3]);
    assert_eq!(options, words(&["a", "b", "c", "d"]));
}

#[test]
fn picks_are_applied_as_successive_swaps() {
    let mut options = words(&["a", "b", "c", "d"]);
    apply_picks(&mut options, &vec![3, 1, 3, 3]);
    // swap(0,3): d b c a; swap(1,1): same; swap(2,3): d b a c; swap(3,3): same
    assert_eq!(options, words(&["d", "b", "a", "c"]));

    let mut options = words(&["a", "b", "c", "d"]);
    apply_picks(&mut options, &vec![1, 2, 3, 3]);
    // swap(0,1): b a c d; swap(1,2): b c a d; swap(2,3): b c d a
    assert_eq!(options, words(&["b", "c", "d", "a"]));
}

#[test]
fn shuffle_keeps_the_multiset_of_options() {
    for _ in 0..200 {
        let unshuffled = words(&["x", "y", "y", "z"]);
        let mut options = unshuffled.clone();
        let picks = draw_picks(4);
        apply_picks(&mut options, &picks);
        let mut before = unshuffled.clone();
        let mut after = options.clone();
        before.sort();
        after.sort();
        assert_eq!(before, after);
    }
}

#[test]
fn drawn_picks_point_at_or_behind_their_position() {
    for _ in 0..200 {
        let picks = draw_picks(4);
        assert_eq!(picks.len(), 4);
        for (i, j) in picks.iter().enumerate() {
            assert!(i <= *j && *j < 4);
        }
    }
    assert!(draw_picks(0).is_empty());
    assert_eq!(draw_picks(1), vec![0]);
}

#[test]
fn drawn_picks_reach_every_position() {
    let mut seen = [false; 4];
    for _ in 0..400 {
        let picks = draw_picks(4);
        seen[picks[0]] = true;
    }
    assert_eq!(seen, [true; 4]);
}

#[test]
fn position_of_finds_the_first_match() {
    let options = words(&["b", "a", "c", "a"]);
    assert_eq!(position_of(&options, &"a".to_string()), Some(1));
    assert_eq!(position_of(&options, &"b".to_string()), Some(0));
    assert_eq!(position_of(&options, &"z".to_string()), None);
    assert_eq!(position_of(&Vec::new(), &"a".to_string()), None);
}

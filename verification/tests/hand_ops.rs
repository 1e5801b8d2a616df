use dice_columns::die::Die;
use dice_columns::hand::HandExplicit;
use dice_columns::hand::overlaps;

#[test]
fn empty_hand_is_empty() {
    let h = HandExplicit::empty();
    assert_eq!(h.len(), 0);
    assert!(!h.is_full());
    assert!(!h.has(Die::One));
    assert!(!h.has(Die::Six));
}

#[test]
fn has_matches_len_for_distinct_hands() {
    let h = HandExplicit::new(Die::One, Die::Two, Die::Three);
    assert_eq!(h.len(), 3);
    let mut present = 0;
    for d in [Die::One, Die::Two, Die::Three, Die::Four, Die::Five, Die::Six] {
        if h.has(d) {
            present += 1;
        }
    }
    assert_eq!(present, 3);

    let h2 = HandExplicit::new2(Die::Two, Die::Five);
    assert_eq!(h2.len(), 2);
    let mut present2 = 0;
    for d in [Die::One, Die::Two, Die::Three, Die::Four, Die::Five, Die::Six] {
        if h2.has(d) {
            present2 += 1;
        }
    }
    assert_eq!(present2, 2);
}

#[test]
fn repeated_dice_share_one_value() {
    let h = HandExplicit::new(Die::Two, Die::Two, Die::Two);
    assert_eq!(h.len(), 3);
    let mut present = 0;
    for d in [Die::One, Die::Two, Die::Three, Die::Four, Die::Five, Die::Six] {
        if h.has(d) {
            present += 1;
        }
    }
    assert_eq!(present, 1);
}

#[test]
fn self_overlap_iff_non_empty() {
    let e = HandExplicit::empty();
    assert!(!overlaps(&e, &e));
    let h1 = HandExplicit::new1(Die::Four);
    assert!(overlaps(&h1, &h1));
    let h3 = HandExplicit::new(Die::One, Die::Three, Die::Six);
    assert!(overlaps(&h3, &h3));
}

#[test]
fn overlap_is_symmetric() {
    let a = HandExplicit::new2(Die::One, Die::Two);
    let b = HandExplicit::new2(Die::Two, Die::Three);
    let c = HandExplicit::new2(Die::Four, Die::Five);
    assert_eq!(overlaps(&a, &b), overlaps(&b, &a));
    assert_eq!(overlaps(&a, &c), overlaps(&c, &a));
    assert!(overlaps(&a, &b));
    assert!(!overlaps(&a, &c));
}

#[test]
fn score_of_triple_two_is_eighteen() {
    let h = HandExplicit::new(Die::Two, Die::Two, Die::Two);
    assert_eq!(h.score(), 18);
}

#[test]
fn score_of_distinct_hand_is_plain_sum() {
    let h = HandExplicit::new(Die::One, Die::Two, Die::Six);
    assert_eq!(h.score(), 9);
}

#[test]
fn score_of_one_pair_adds_its_square() {
    let h = HandExplicit::new(Die::Three, Die::Three, Die::Five);
    assert_eq!(h.score(), 20);
}

#[test]
fn score_of_partial_hands() {
    assert_eq!(HandExplicit::empty().score(), 0);
    assert_eq!(HandExplicit::new1(Die::Five).score(), 5);
    assert_eq!(HandExplicit::new2(Die::Four, Die::Four).score(), 24);
}

#[test]
fn display_strings() {
    assert_eq!(HandExplicit::empty().to_display_string(), "()".to_string());
    assert_eq!(HandExplicit::new1(Die::Six).to_display_string(), "(6)".to_string());
    assert_eq!(
        HandExplicit::new(Die::One, Die::Two, Die::Three).to_display_string(),
        "(123)".to_string()
    );
    assert_eq!(Die::Four.digit_str(), "4");
}

#[test]
fn val_maps_faces_to_numbers() {
    assert_eq!(Die::One.val(), 1);
    assert_eq!(Die::Six.val(), 6);
    assert_eq!(HandExplicit::val(None), 0);
    assert_eq!(HandExplicit::val(Some(Die::Three)), 3);
    let h = HandExplicit::new2(Die::Two, Die::Five);
    assert_eq!(h.val_1(), 2);
    assert_eq!(h.val_2(), 5);
    assert_eq!(h.val_3(), 0);
    assert_eq!(h.die_1(), Some(Die::Two));
    assert_eq!(h.die_2(), Some(Die::Five));
    assert_eq!(h.die_3(), None);
}

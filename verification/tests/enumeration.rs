use dice_columns::hand::HandExplicit;
use dice_columns::hand::overlaps;
use dice_columns::pairs::HandPairs;
use dice_columns::pairs::hand_pairs;
use dice_columns::pairs::hands;

#[test]
fn hand_count_is_84() {
    assert_eq!(hands().len(), 84);
}

#[test]
fn hands_are_distinct() {
    let v = hands();
    for i in 0..v.len() {
        for j in (i + 1)..v.len() {
            assert_ne!(
                (v[i].val_1(), v[i].val_2(), v[i].val_3()),
                (v[j].val_1(), v[j].val_2(), v[j].val_3())
            );
        }
    }
}

#[test]
fn hands_are_non_decreasing() {
    for h in hands() {
        if h.die_2().is_some() {
            assert!(h.val_1() <= h.val_2());
        }
        if h.die_3().is_some() {
            assert!(h.val_2() <= h.val_3());
        }
    }
}

#[test]
fn hand_pair_count_regression() {
    let v = hand_pairs(hands());
    assert_eq!(v.len(), 3067);
}

#[test]
fn hand_pairs_never_overlap() {
    for (a, b) in hand_pairs(hands()) {
        assert!(!overlaps(&a, &b));
    }
}

#[test]
fn reversed_pairs_stay_non_overlapping() {
    for (a, b) in hand_pairs(hands()) {
        assert!(!overlaps(&b, &a));
    }
}

#[test]
fn pair_table_round_trip() {
    let table = HandPairs::new();
    let n = table.pairs.len() as u16;
    assert_eq!(n, 3067);
    for ix in [0u16, 1, 42, 1000, 3066] {
        let p = table.get_by_index(ix);
        assert_eq!(table.get_by_hand(&p), ix);
    }
}

#[test]
fn empty_pair_is_interned() {
    let table = HandPairs::new();
    let e = HandExplicit::empty();
    let ix = table.get_by_hand(&(e, e));
    assert_eq!(table.get_by_index(ix), (e, e));
}

#[test]
fn generation_is_deterministic() {
    let first = hand_pairs(hands());
    let second = hand_pairs(hands());
    assert_eq!(first.len(), second.len());
    for (p, q) in first.iter().zip(second.iter()) {
        assert_eq!(p, q);
    }
}

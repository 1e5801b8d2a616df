use dice_columns::die::Die;
use dice_columns::hand::HandExplicit;
use dice_columns::pairs::HandPairs;
use dice_columns::pairs::hand_pairs;
use dice_columns::pairs::hands;
use dice_columns::state::State;
use dice_columns::state::state_counts;

fn full_ones() -> HandExplicit {
    HandExplicit::new(Die::One, Die::One, Die::One)
}

fn full_twos() -> HandExplicit {
    HandExplicit::new(Die::Two, Die::Two, Die::Two)
}

fn empty() -> HandExplicit {
    HandExplicit::empty()
}

#[test]
fn no_pairs_no_states() {
    assert_eq!(state_counts(vec![]), (0, 0));
}

#[test]
fn single_empty_pair_is_intermediate() {
    assert_eq!(state_counts(vec![(empty(), empty())]), (1, 0));
}

#[test]
fn one_sided_full_pairs_classify() {
    let p = (full_ones(), empty());
    let q = (empty(), full_twos());
    // Triples over {p, q}: (p,p,p) and (q,q,q) are final, (p,p,q) and
    // (p,q,q) are intermediate.
    assert_eq!(state_counts(vec![p, q]), (2, 2));
}

#[test]
fn both_full_triples_are_skipped() {
    let r = (full_ones(), full_twos());
    assert_eq!(state_counts(vec![r]), (0, 0));
    let p = (full_ones(), empty());
    // (p,p,p), (p,p,r) and (p,r,r) are final; (r,r,r) is invalid and lands
    // in neither bucket.
    assert_eq!(state_counts(vec![p, r]), (0, 3));
}

#[test]
fn non_full_pairs_are_all_intermediate() {
    let a = (empty(), empty());
    let b = (HandExplicit::new1(Die::One), empty());
    let c = (empty(), HandExplicit::new2(Die::Two, Die::Three));
    // C(3 + 2, 3) = 10 triples, none with a full column hand.
    assert_eq!(state_counts(vec![a, b, c]), (10, 0));
}

#[test]
fn counts_cover_every_triple_once() {
    let all = hand_pairs(hands());
    let ps: Vec<(HandExplicit, HandExplicit)> = all[..60].to_vec();
    let n = ps.len() as u64;
    let (inter, fin) = state_counts(ps.clone());
    let mut invalid: u64 = 0;
    for i in 0..ps.len() {
        for j in i..ps.len() {
            for k in j..ps.len() {
                let p1 = ps[i].0.is_full() && ps[j].0.is_full() && ps[k].0.is_full();
                let p2 = ps[i].1.is_full() && ps[j].1.is_full() && ps[k].1.is_full();
                if p1 && p2 {
                    invalid += 1;
                }
            }
        }
    }
    assert_eq!(inter + fin + invalid, n * (n + 1) * (n + 2) / 6);
}

#[test]
fn state_counting_is_deterministic() {
    let all = hand_pairs(hands());
    let ps: Vec<(HandExplicit, HandExplicit)> = all[..100].to_vec();
    assert_eq!(state_counts(ps.clone()), state_counts(ps));
}

#[test]
fn new_by_index_sorts_columns() {
    let s = State::new_by_index(5, 2, 9);
    assert_eq!((s.column_1, s.column_2, s.column_3), (2, 5, 9));
    let t = State::new_by_index(7, 7, 1);
    assert_eq!((t.column_1, t.column_2, t.column_3), (1, 7, 7));
}

#[test]
fn state_round_trip_through_table() {
    let table = HandPairs::new();
    let a = table.get_by_index(10);
    let b = table.get_by_index(20);
    let c = table.get_by_index(30);
    let s = State::new(&table, &a, &b, &c);
    assert_eq!((s.column_1, s.column_2, s.column_3), (10, 20, 30));
    assert_eq!(s.hands(&table), (a, b, c));
}

#[test]
fn reverse_twice_is_identity() {
    let table = HandPairs::new();
    let a = table.get_by_index(100);
    let b = table.get_by_index(200);
    let c = table.get_by_index(300);
    let s = State::new(&table, &a, &b, &c);
    let rr = s.reverse(&table).reverse(&table);
    assert_eq!(
        (rr.column_1, rr.column_2, rr.column_3),
        (s.column_1, s.column_2, s.column_3)
    );
}

#[test]
fn done_and_choices() {
    let table = HandPairs::new();
    let open_pair = (empty(), empty());
    let done_pair = (full_ones(), empty());
    let s_open = State::new(&table, &open_pair, &open_pair, &open_pair);
    assert!(!s_open.is_done(&table));
    assert_eq!(s_open.num_choices(&table), 3);
    let s_done = State::new(&table, &done_pair, &done_pair, &done_pair);
    assert!(s_done.is_done(&table));
    assert_eq!(s_done.num_choices(&table), 0);
    let s_mixed = State::new(&table, &done_pair, &open_pair, &open_pair);
    assert!(!s_mixed.is_done(&table));
    assert_eq!(s_mixed.num_choices(&table), 2);
}

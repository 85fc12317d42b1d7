use recur64::puct::best_action;

#[test]
fn deterministic_tie_breaks_lowest_action() {
    assert_eq!(best_action(&vec![]), None);
    assert_eq!(best_action(&vec![(3, 7)]), Some(7));
    assert_eq!(best_action(&vec![(1, 0), (5, 9), (5, 4), (2, 1)]), Some(4));
    assert_eq!(best_action(&vec![(5, 4), (5, 9)]), Some(4));
    assert_eq!(best_action(&vec![(0, 2), (0, 1), (0, 3)]), Some(1));
}

use stock_tracker::ledger::chronological_order;

fn dates(ds: &[&str]) -> Vec<String> {
    ds.iter().map(|d| d.to_string()).collect()
}

#[test]
fn orders_by_date() {
    let order = chronological_order(&dates(&["2026-02-01", "2026-01-01", "2026-03-01"]));
    assert_eq!(order, vec![1, 0, 2]);
}

#[test]
fn same_date_keeps_entry_order() {
    let order = chronological_order(&dates(&["2026-02-01", "2026-01-01", "2026-02-01", "2026-01-01"]));
    assert_eq!(order, vec![1, 3, 0, 2]);
}

#[test]
fn empty_and_single_ledgers() {
    assert_eq!(chronological_order(&dates(&[])), Vec::<usize>::new());
    assert_eq!(chronological_order(&dates(&["x"])), vec![0]);
}

#[test]
fn agrees_with_a_stable_sort() {
    let ds = dates(&["b", "a", "ab", "", "b", "a", "Z", "é"]);
    let mut expected: Vec<usize> = (0..ds.len()).collect();
    expected.sort_by(|x, y| ds[*x].cmp(&ds[*y]));
    assert_eq!(chronological_order(&ds), expected);
}

use bandsnatch::catalog::CollectionEntry;
use bandsnatch::dates::Timestamp;
use bandsnatch::select::{build_queue, is_known, select};

fn entry(id: &str) -> CollectionEntry {
    CollectionEntry { id: String::from(id), source_url: format!("https://example.test/{id}"), purchased_at: None }
}

fn listing(ids: &[&str]) -> Vec<CollectionEntry> {
    ids.iter().map(|id| entry(id)).collect()
}

fn ids_of(entries: &[CollectionEntry]) -> Vec<String> {
    entries.iter().map(|entry| entry.id.clone()).collect()
}

fn known(ids: &[&str]) -> Vec<String> {
    ids.iter().map(|id| String::from(*id)).collect()
}

#[test]
fn known_purchase_is_excluded() {
    let work = select(listing(&["A", "B", "C"]), &known(&["B"]), false, None);
    assert_eq!(work, listing(&["A", "C"]));
}

#[test]
fn force_keeps_known_purchases() {
    let work = select(listing(&["A", "B", "C"]), &known(&["B", "C"]), true, None);
    assert_eq!(work, listing(&["A", "B", "C"]));
}

#[test]
fn limit_takes_the_first_ones_in_order() {
    let work = select(listing(&["A", "B", "C", "D", "E"]), &known(&[]), false, Some(2));
    assert_eq!(ids_of(&work), vec!["A", "B"]);
}

#[test]
fn limit_counts_after_the_exclusion() {
    let work = select(listing(&["A", "B", "C", "D", "E"]), &known(&["A", "C"]), false, Some(2));
    assert_eq!(ids_of(&work), vec!["B", "D"]);
}

#[test]
fn limit_at_or_above_the_number_left_changes_nothing() {
    let all = select(listing(&["A", "B", "C"]), &known(&["B"]), false, Some(2));
    assert_eq!(ids_of(&all), vec!["A", "C"]);
    let more = select(listing(&["A", "B", "C"]), &known(&["B"]), false, Some(usize::MAX));
    assert_eq!(ids_of(&more), vec!["A", "C"]);
}

#[test]
fn limit_of_zero_leaves_nothing() {
    let work = select(listing(&["A", "B"]), &known(&[]), false, Some(0));
    assert_eq!(work, Vec::new());
}

#[test]
fn limit_applies_with_force_too() {
    let work = select(listing(&["A", "B", "C"]), &known(&["A"]), true, Some(2));
    assert_eq!(ids_of(&work), vec!["A", "B"]);
}

#[test]
fn everything_known_leaves_nothing() {
    let work = select(listing(&["A", "B"]), &known(&["B", "A", "Z"]), false, None);
    assert_eq!(work, Vec::new());
}

#[test]
fn empty_listing_leaves_nothing() {
    assert_eq!(select(Vec::new(), &known(&["A"]), false, Some(3)), Vec::new());
    assert_eq!(select(Vec::new(), &known(&[]), true, None), Vec::new());
}

#[test]
fn purchases_listed_twice_stay_twice() {
    let work = select(listing(&["A", "A", "B"]), &known(&[]), false, None);
    assert_eq!(ids_of(&work), vec!["A", "A", "B"]);
}

#[test]
fn selection_keeps_the_whole_entry() {
    let bought = Timestamp { secs: 1_546_300_800, nanos: 0 };
    let mut first = entry("A");
    first.purchased_at = Some(bought);
    let work = select(vec![first.clone(), entry("B")], &known(&["B"]), false, None);
    assert_eq!(work, vec![first]);
}

#[test]
fn ids_are_compared_whole() {
    let ids = known(&["AB", "b"]);
    assert!(is_known(&ids, &String::from("AB")));
    assert!(is_known(&ids, &String::from("b")));
    assert!(!is_known(&ids, &String::from("A")));
    assert!(!is_known(&ids, &String::from("B")));
    assert!(!is_known(&ids, &String::from("ab")));
    assert!(!is_known(&ids, &String::new()));
    assert!(!is_known(&Vec::new(), &String::from("AB")));
}

#[test]
fn queue_holds_the_selection() {
    let mut queue = build_queue(listing(&["A", "B", "C", "D"]), &known(&["B"]), false, Some(2));
    assert_eq!(queue.get_work(), Some(entry("A")));
    assert_eq!(queue.get_work(), Some(entry("C")));
    assert_eq!(queue.get_work(), None);
}

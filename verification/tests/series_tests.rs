use traffic_chronicle::report_models::QuantifiableEvents;
use traffic_chronicle::series::KeyedSeries;

fn pair(amount: u64, amount_unique: u64) -> QuantifiableEvents {
    QuantifiableEvents { amount, amount_unique }
}

fn key(text: &str) -> String {
    text.to_string()
}

#[test]
fn a_new_series_is_empty() {
    let series: KeyedSeries<QuantifiableEvents> = KeyedSeries::new();
    assert_eq!(series.len(), 0);
    assert_eq!(series.position(&key("a")), None);
    assert!(series.get(&key("a")).is_none());
}

#[test]
fn insert_stores_new_keys_in_arrival_order() {
    let mut series = KeyedSeries::new();
    series.insert(key("b"), pair(2, 1));
    series.insert(key("a"), pair(5, 3));
    assert_eq!(series.len(), 2);
    assert_eq!(series.key_at(0), "b");
    assert_eq!(series.key_at(1), "a");
    assert_eq!(series.value_at(0), &pair(2, 1));
    assert_eq!(series.value_at(1), &pair(5, 3));
    assert_eq!(series.position(&key("a")), Some(1));
    assert_eq!(series.get(&key("b")), Some(&pair(2, 1)));
}

#[test]
fn insert_replaces_the_value_of_a_known_key_in_place() {
    let mut series = KeyedSeries::new();
    series.insert(key("a"), pair(1, 1));
    series.insert(key("b"), pair(2, 2));
    series.insert(key("a"), pair(9, 4));
    assert_eq!(series.len(), 2);
    assert_eq!(series.key_at(0), "a");
    assert_eq!(series.get(&key("a")), Some(&pair(9, 4)));
    assert_eq!(series.get(&key("b")), Some(&pair(2, 2)));
}

#[test]
fn set_value_and_replace_value_keep_the_key() {
    let mut series = KeyedSeries::new();
    series.push_new(key("a"), pair(1, 1));
    series.push_new(key("b"), pair(2, 2));
    series.set_value(1, pair(7, 6));
    assert_eq!(series.get(&key("b")), Some(&pair(7, 6)));
    let previous = series.replace_value(0, pair(3, 3));
    assert_eq!(previous, pair(1, 1));
    assert_eq!(series.get(&key("a")), Some(&pair(3, 3)));
    assert_eq!(series.key_at(0), "a");
    assert_eq!(series.key_at(1), "b");
}

#[test]
fn keys_that_share_a_prefix_are_distinct() {
    let mut series = KeyedSeries::new();
    series.insert(key("2024-01-01T00:00:00Z"), pair(1, 1));
    series.insert(key("2024-01-01T00:00:00"), pair(2, 2));
    series.insert(key(""), pair(3, 3));
    assert_eq!(series.len(), 3);
    assert_eq!(series.get(&key("")), Some(&pair(3, 3)));
    assert_eq!(series.get(&key("2024-01-01T00:00:00")), Some(&pair(2, 2)));
}

#[test]
fn a_duplicate_holds_the_same_entries_and_is_independent() {
    let mut series = KeyedSeries::new();
    series.insert(key("a"), pair(1, 1));
    series.insert(key("b"), pair(2, 2));
    let mut copy = series.duplicate();
    copy.insert(key("a"), pair(8, 8));
    copy.insert(key("c"), pair(3, 3));
    assert_eq!(series.len(), 2);
    assert_eq!(series.get(&key("a")), Some(&pair(1, 1)));
    assert_eq!(copy.len(), 3);
    assert_eq!(copy.key_at(0), "a");
    assert_eq!(copy.key_at(1), "b");
    assert_eq!(copy.get(&key("b")), Some(&pair(2, 2)));
}

#[test]
fn a_series_written_out_as_pairs_and_read_back_is_the_same_series() {
    let mut series = KeyedSeries::new();
    series.insert(key("b"), pair(2, 1));
    series.insert(key("a"), pair(5, 3));
    series.insert(key("c"), pair(0, 0));
    let pairs = series.to_pairs();
    assert_eq!(
        pairs,
        vec![(key("b"), pair(2, 1)), (key("a"), pair(5, 3)), (key("c"), pair(0, 0))]
    );

    let mut shuffled = pairs.clone();
    shuffled.sort_by(|x, y| x.0.cmp(&y.0));
    let reloaded = KeyedSeries::from_pairs(&shuffled);
    assert_eq!(reloaded.len(), 3);
    for (k, v) in &pairs {
        assert_eq!(reloaded.get(k), Some(v));
    }
    assert_eq!(reloaded.key_at(0), "a");
}

#[test]
fn of_pairs_with_the_same_key_the_later_one_stays() {
    let pairs = vec![(key("a"), pair(1, 1)), (key("b"), pair(2, 2)), (key("a"), pair(3, 3))];
    let series = KeyedSeries::from_pairs(&pairs);
    assert_eq!(series.len(), 2);
    assert_eq!(series.get(&key("a")), Some(&pair(3, 3)));
    assert_eq!(KeyedSeries::<QuantifiableEvents>::from_pairs(&Vec::new()).len(), 0);
}

use wordfreq::counter::{count_words, tally};
use wordfreq::frequency::FrequencyMap;
use wordfreq::merger::{merge, merge_all};

fn table(pairs: &[(&str, u64)]) -> FrequencyMap {
    let mut m = FrequencyMap::new();
    for (word, n) in pairs {
        m.add(word, *n);
    }
    m
}

#[test]
fn new_table_is_empty() {
    let m = FrequencyMap::new();
    assert!(m.is_empty());
    assert_eq!(m.len(), 0);
    assert_eq!(m.get("anything"), 0);
    assert!(m.entries().is_empty());
}

#[test]
fn record_creates_an_entry_on_first_sight() {
    let mut m = FrequencyMap::new();
    m.record("cat");
    assert_eq!(m.get("cat"), 1);
    assert_eq!(m.len(), 1);
    assert!(!m.is_empty());
    m.record("cat");
    m.record("dog");
    assert_eq!(m.get("cat"), 2);
    assert_eq!(m.get("dog"), 1);
    assert_eq!(m.len(), 2);
}

#[test]
fn add_counts_from_zero() {
    let mut m = FrequencyMap::new();
    m.add("w", 5);
    assert_eq!(m.get("w"), 5);
    m.add("w", 7);
    assert_eq!(m.get("w"), 12);
}

#[test]
fn add_of_nothing_creates_no_entry() {
    let mut m = FrequencyMap::new();
    m.add("w", 0);
    assert_eq!(m.len(), 0);
    assert!(m.is_empty());
    assert_eq!(m.get("w"), 0);
}

#[test]
fn add_reaches_the_largest_count() {
    let mut m = FrequencyMap::new();
    m.add("w", u64::MAX - 1);
    m.record("w");
    assert_eq!(m.get("w"), u64::MAX);
}

#[test]
fn keys_are_case_sensitive() {
    let m = table(&[("The", 1), ("the", 2)]);
    assert_eq!(m.get("The"), 1);
    assert_eq!(m.get("the"), 2);
    assert_eq!(m.get("THE"), 0);
}

#[test]
fn entries_list_each_word_once_with_its_count() {
    let m = count_words("b a b c a b");
    let mut entries = m.entries();
    entries.sort();
    assert_eq!(
        entries,
        vec![("a".to_string(), 2), ("b".to_string(), 3), ("c".to_string(), 1)]
    );
}

#[test]
fn same_counts_ignores_the_order_of_entries() {
    let a = table(&[("x", 1), ("y", 2)]);
    let b = table(&[("y", 2), ("x", 1)]);
    assert!(a.same_counts(&b));
    assert!(b.same_counts(&a));
}

#[test]
fn same_counts_tells_tables_apart() {
    let a = table(&[("x", 1), ("y", 2)]);
    assert!(!a.same_counts(&table(&[("x", 1), ("y", 3)])));
    assert!(!a.same_counts(&table(&[("x", 1)])));
    assert!(!a.same_counts(&table(&[("x", 1), ("z", 2)])));
    assert!(!a.same_counts(&table(&[("x", 1), ("y", 2), ("z", 1)])));
    assert!(!a.same_counts(&FrequencyMap::new()));
}

#[test]
fn tally_counts_each_token() {
    let tokens: Vec<String> = ["a", "b", "a", "a"].iter().map(|t| t.to_string()).collect();
    let m = tally(&tokens);
    assert_eq!(m.get("a"), 3);
    assert_eq!(m.get("b"), 1);
    assert_eq!(m.len(), 2);
}

#[test]
fn count_words_of_empty_text_is_empty() {
    assert!(count_words("").is_empty());
}

#[test]
fn count_words_of_whitespace_only_text_is_empty() {
    let m = count_words("   \n\t  ");
    assert!(m.is_empty());
    assert_eq!(m.len(), 0);
}

#[test]
fn count_words_counts_occurrences() {
    let m = count_words("the cat sat on the mat the end");
    assert_eq!(m.get("the"), 3);
    assert_eq!(m.get("cat"), 1);
    assert_eq!(m.get("end"), 1);
    assert_eq!(m.get("dog"), 0);
    assert_eq!(m.len(), 6);
}

#[test]
fn absorb_adds_counts_key_wise() {
    let mut a = table(&[("x", 1), ("y", 2)]);
    let b = table(&[("y", 10), ("z", 20)]);
    a.absorb(&b);
    assert!(a.same_counts(&table(&[("x", 1), ("y", 12), ("z", 20)])));
    assert!(b.same_counts(&table(&[("y", 10), ("z", 20)])));
}

#[test]
fn merge_is_the_key_wise_sum() {
    let m = merge(table(&[("x", 1), ("y", 2)]), table(&[("y", 10), ("z", 20)]));
    assert_eq!(m.get("x"), 1);
    assert_eq!(m.get("y"), 12);
    assert_eq!(m.get("z"), 20);
    assert_eq!(m.len(), 3);
}

#[test]
fn merge_is_commutative() {
    let ab = merge(table(&[("x", 1), ("y", 2)]), table(&[("y", 10), ("z", 20)]));
    let ba = merge(table(&[("y", 10), ("z", 20)]), table(&[("x", 1), ("y", 2)]));
    assert!(ab.same_counts(&ba));
}

#[test]
fn merge_is_associative() {
    let a = || table(&[("x", 1), ("y", 2)]);
    let b = || table(&[("y", 10), ("z", 20)]);
    let c = || table(&[("x", 100), ("z", 200), ("w", 300)]);
    let left = merge(merge(a(), b()), c());
    let right = merge(a(), merge(b(), c()));
    assert!(left.same_counts(&right));
    assert!(left.same_counts(&table(&[("x", 101), ("y", 12), ("z", 220), ("w", 300)])));
}

#[test]
fn merge_with_empty_changes_nothing() {
    let a = || table(&[("x", 1), ("y", 2)]);
    assert!(merge(a(), FrequencyMap::new()).same_counts(&a()));
    assert!(merge(FrequencyMap::new(), a()).same_counts(&a()));
    assert!(merge(FrequencyMap::new(), FrequencyMap::new()).is_empty());
}

#[test]
fn merge_reaches_the_largest_count() {
    let m = merge(table(&[("x", u64::MAX - 3)]), table(&[("x", 3)]));
    assert_eq!(m.get("x"), u64::MAX);
}

#[test]
fn merge_all_folds_every_part() {
    let parts = vec![table(&[("x", 1)]), table(&[("x", 2), ("y", 1)]), FrequencyMap::new(), table(&[("y", 4)])];
    let m = merge_all(parts);
    assert!(m.same_counts(&table(&[("x", 3), ("y", 5)])));
}

#[test]
fn merge_all_of_nothing_is_empty() {
    assert!(merge_all(Vec::new()).is_empty());
}

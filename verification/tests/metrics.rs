use routing_core::metrics::MetricsStore;
use routing_core::select_adapter;

fn counters_for(store: &MetricsStore, adapter_id: &str) -> Option<(u64, u64, u64)> {
    for (key, counters) in store.snapshot().iter() {
        if key == adapter_id {
            return Some(*counters);
        }
    }
    None
}

#[test]
fn exact_mean_when_prefixes_divide() {
    let mut store = MetricsStore::new();
    let adapter = String::from("adapter-1");
    // every prefix sum divides its length: 100; (100+200)/2; (100+200+300)/3
    store.record_attempt(&adapter, true, 100);
    store.record_attempt(&adapter, true, 200);
    store.record_attempt(&adapter, true, 300);
    let (total, errors, avg) = counters_for(&store, "adapter-1").unwrap();
    assert_eq!(total, 3);
    assert_eq!(errors, 0);
    assert_eq!(avg, 200);
}

#[test]
fn running_mean_truncates_per_sample() {
    let mut store = MetricsStore::new();
    let adapter = String::from("adapter-1");
    // 3; then (3 * 1 + 0) / 2 = 1; then (1 * 2 + 0) / 3 = 0
    store.record_attempt(&adapter, true, 3);
    store.record_attempt(&adapter, true, 0);
    store.record_attempt(&adapter, true, 0);
    let (total, _errors, avg) = counters_for(&store, "adapter-1").unwrap();
    assert_eq!(total, 3);
    assert_eq!(avg, 0);
}

#[test]
fn single_sample_mean_is_the_sample() {
    let mut store = MetricsStore::new();
    let adapter = String::from("adapter-9");
    store.record_attempt(&adapter, true, 12345);
    let (total, errors, avg) = counters_for(&store, "adapter-9").unwrap();
    assert_eq!(total, 1);
    assert_eq!(errors, 0);
    assert_eq!(avg, 12345);
}

#[test]
fn failed_attempts_raise_the_error_counter() {
    let mut store = MetricsStore::new();
    let adapter = String::from("adapter-1");
    store.record_attempt(&adapter, true, 10);
    store.record_attempt(&adapter, false, 30);
    let (total, errors, avg) = counters_for(&store, "adapter-1").unwrap();
    assert_eq!(total, 2);
    assert_eq!(errors, 1);
    assert_eq!(avg, 20);
}

#[test]
fn adapters_are_counted_independently() {
    let mut store = MetricsStore::new();
    store.record_attempt(&String::from("a"), true, 10);
    store.record_attempt(&String::from("b"), true, 50);
    store.record_attempt(&String::from("a"), true, 30);
    assert_eq!(counters_for(&store, "a").unwrap(), (2, 0, 20));
    assert_eq!(counters_for(&store, "b").unwrap(), (1, 0, 50));
    assert_eq!(store.snapshot().len(), 2);
}

#[test]
fn default_policy_picks_the_first_candidate() {
    let candidates = vec![String::from("early"), String::from("late")];
    assert_eq!(select_adapter(&candidates), "early");
}

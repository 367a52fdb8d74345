use std::sync::{Arc, Mutex};

use profile_view_counter::counter::ViewCounter;

/// Many workers incrementing the same key through a shared lock yield
/// a final count of exactly the number of increments, and no two
/// increments observe the same pre-increment value.
#[test]
fn concurrent_increments_yield_exact_count() {
    let workers = 8usize;
    let per_worker = 25u64;
    let total = workers as u64 * per_worker;
    let rt = tokio::runtime::Builder::new_multi_thread()
        .worker_threads(4)
        .build()
        .unwrap();
    let counter = Arc::new(Mutex::new(ViewCounter::new()));
    let mut handles = Vec::new();
    for _ in 0..workers {
        let shared = Arc::clone(&counter);
        handles.push(rt.spawn(async move {
            let mut seen = Vec::new();
            for _ in 0..per_worker {
                let v = shared.lock().unwrap().increment_and_get("profile");
                seen.push(v);
            }
            seen
        }));
    }
    let mut all: Vec<u64> = Vec::new();
    for h in handles {
        all.extend(rt.block_on(h).unwrap());
    }
    all.sort();
    let expected: Vec<u64> = (1..=total).collect();
    assert_eq!(all, expected);
    assert_eq!(counter.lock().unwrap().get("profile"), total);
}

#[test]
fn concurrent_distinct_keys_do_not_interfere() {
    let rt = tokio::runtime::Builder::new_multi_thread()
        .worker_threads(4)
        .build()
        .unwrap();
    let counter = Arc::new(Mutex::new(ViewCounter::new()));
    let mut handles = Vec::new();
    for w in 0..6usize {
        let shared = Arc::clone(&counter);
        handles.push(rt.spawn(async move {
            let key = format!("profile-{}", w);
            for _ in 0..10 {
                shared.lock().unwrap().increment_and_get(&key);
            }
        }));
    }
    for h in handles {
        rt.block_on(h).unwrap();
    }
    let guard = counter.lock().unwrap();
    for w in 0..6usize {
        assert_eq!(guard.get(&format!("profile-{}", w)), 10);
    }
}

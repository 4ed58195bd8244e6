use randcache::cache::{RandCache, ScriptedSource};

fn scripted(bytes: &[u8]) -> RandCache<ScriptedSource> {
    RandCache::new(ScriptedSource::new(bytes.to_vec()))
}

#[test]
fn determinism_under_replay() {
    let mut cache = scripted(&[7, 1, 255, 0, 42, 99, 3]);
    let mut first = Vec::new();
    for _ in 0..5 {
        first.push(cache.get_u8());
    }
    assert_eq!(first, vec![7, 1, 255, 0, 42]);
    for _ in 0..3 {
        cache.rewind();
        let mut again = Vec::new();
        for _ in 0..5 {
            again.push(cache.get_u8());
        }
        assert_eq!(again, first);
    }
}

#[test]
fn replay_extends_history_with_fresh_bytes() {
    let mut cache = scripted(&[10, 11, 12, 13]);
    assert_eq!(cache.get_u8(), 10);
    assert_eq!(cache.get_u8(), 11);
    cache.rewind();
    assert_eq!(cache.get_u8(), 10);
    assert_eq!(cache.get_u8(), 11);
    // A longer pass replays the first two bytes, then grows the ledger.
    assert_eq!(cache.get_u8(), 12);
    assert_eq!(cache.get_u8(), 13);
}

#[test]
fn monotonic_ledger_growth() {
    let mut cache = scripted(&[5, 6, 7]);
    // Two cache-miss reads fill positions 0 and 1.
    assert_eq!(cache.get_u8(), 5);
    assert_eq!(cache.get_u8(), 6);
    assert!(cache.rewind_to(1).is_ok());
    assert!(cache.rewind_to(2).is_err());
    // A cache-hit read appends nothing: position 2 stays unfilled.
    cache.rewind();
    assert_eq!(cache.get_u8(), 5);
    assert!(cache.rewind_to(2).is_err());
    // Reading past the old frontier appends exactly one byte per miss.
    cache.rewind();
    cache.get_u8();
    cache.get_u8();
    assert_eq!(cache.get_u8(), 7);
    assert!(cache.rewind_to(2).is_ok());
    assert!(cache.rewind_to(3).is_err());
}

#[test]
fn rewind_validity() {
    let mut cache = scripted(&[1, 2, 3, 4]);
    // Position zero is always a valid rewind target, even on an empty ledger.
    assert_eq!(cache.rewind_to(0).unwrap(), 0);
    // An unfilled position is not.
    let err = cache.rewind_to(1).unwrap_err();
    assert_eq!(err.message(), "index is not available");
    assert_eq!(cache.get_cache_index(), 0);
    for _ in 0..3 {
        cache.get_u8();
    }
    // A filled position is valid; the previous cursor comes back.
    assert_eq!(cache.rewind_to(2).unwrap(), 3);
    assert_eq!(cache.get_cache_index(), 2);
    // The frontier itself has never been filled, so it is refused, and a
    // failed rewind leaves the cursor where it was.
    assert!(cache.rewind_to(3).is_err());
    assert!(cache.rewind_to(200).is_err());
    assert_eq!(cache.get_cache_index(), 2);
}

#[test]
fn cursor_stays_within_ledger() {
    let mut cache = scripted(&[9, 8]);
    assert_eq!(cache.get_cache_index(), 0);
    cache.get_u8();
    cache.get_u8();
    // Script exhausted: fresh bytes are zero from here on.
    assert_eq!(cache.get_u8(), 0);
    assert_eq!(cache.get_cache_index(), 3);
    // Three reads filled exactly three positions, so the cursor sits on the
    // frontier: position 2 is filled, position 3 is not.
    assert!(cache.rewind_to(2).is_ok());
    assert!(cache.rewind_to(3).is_err());
    cache.rewind();
    assert_eq!(cache.get_cache_index(), 0);
}

#[test]
fn rewind_replays_nested_checkpoints() {
    let mut cache = scripted(&[100, 101, 102, 103, 104]);
    cache.get_u8();
    cache.get_u8();
    let checkpoint = cache.get_cache_index();
    assert_eq!(checkpoint, 2);
    assert_eq!(cache.get_u8(), 102);
    let before = cache.rewind_to(checkpoint).unwrap();
    assert_eq!(before, 3);
    assert_eq!(cache.get_u8(), 102);
}

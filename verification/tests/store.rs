use rhi::id_store::SequentialIDStore;

#[test]
fn add_and_get_round_trip() {
    let mut store: SequentialIDStore<String> = SequentialIDStore::new(16);
    let a = store.add_obj(String::from("alpha")).unwrap();
    let b = store.add_obj(String::from("beta")).unwrap();
    assert_eq!(a, 0);
    assert_eq!(b, 1);
    assert_eq!(store.get_obj(a).unwrap(), "alpha");
    assert_eq!(store.get_obj(b).unwrap(), "beta");
}

#[test]
fn get_unknown_handle_fails() {
    let store: SequentialIDStore<u64> = SequentialIDStore::new(4);
    assert_eq!(store.get_obj(0), Err("item not found"));
    assert_eq!(store.get_obj(7), Err("item not found"));
}

#[test]
fn remove_returns_object_and_invalidates_handle() {
    let mut store: SequentialIDStore<u64> = SequentialIDStore::new(4);
    let id = store.add_obj(42).unwrap();
    assert_eq!(store.remove_obj(id), Ok(42));
    assert_eq!(store.get_obj(id), Err("item not found"));
    assert_eq!(store.remove_obj(id), Err("item not found"));
}

#[test]
fn removed_handle_is_reused() {
    let mut store: SequentialIDStore<u64> = SequentialIDStore::new(8);
    let a = store.add_obj(1).unwrap();
    let b = store.add_obj(2).unwrap();
    let c = store.add_obj(3).unwrap();
    assert_eq!((a, b, c), (0, 1, 2));
    assert_eq!(store.remove_obj(b), Ok(2));
    let d = store.add_obj(4).unwrap();
    assert_eq!(d, b);
    assert_eq!(store.get_obj(d).unwrap(), &4);
    let e = store.add_obj(5).unwrap();
    assert_eq!(e, 3);
}

#[test]
fn reuse_is_last_freed_first() {
    let mut store: SequentialIDStore<u64> = SequentialIDStore::new(8);
    for v in 0..5u64 {
        store.add_obj(v).unwrap();
    }
    store.remove_obj(1).unwrap();
    store.remove_obj(3).unwrap();
    assert_eq!(store.add_obj(10).unwrap(), 3);
    assert_eq!(store.add_obj(11).unwrap(), 1);
    assert_eq!(store.add_obj(12).unwrap(), 5);
}

#[test]
fn live_handles_never_collide() {
    let mut store: SequentialIDStore<u32> = SequentialIDStore::new(64);
    let mut live: Vec<u32> = Vec::new();
    for round in 0..10u32 {
        for k in 0..6u32 {
            let id = store.add_obj(round * 100 + k).unwrap();
            assert!(!live.contains(&id), "handle {id} issued while already live");
            live.push(id);
        }
        for _ in 0..3 {
            let id = live.remove(round as usize % live.len());
            store.remove_obj(id).unwrap();
        }
    }
    for (i, a) in live.iter().enumerate() {
        for b in live.iter().skip(i + 1) {
            assert_ne!(a, b);
        }
    }
    for id in &live {
        assert!(store.get_obj(*id).is_ok());
    }
}

#[test]
fn get_obj_mut_updates_in_place() {
    let mut store: SequentialIDStore<Vec<u8>> = SequentialIDStore::new(4);
    let id = store.add_obj(vec![1, 2]).unwrap();
    store.get_obj_mut(id).unwrap().push(3);
    assert_eq!(store.get_obj(id).unwrap(), &vec![1, 2, 3]);
    assert_eq!(store.get_obj_mut(99), Err("item not found"));
}

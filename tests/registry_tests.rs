use std::cell::Cell;
use std::rc::Rc;

use dcompose_watch::registry::{Cancel, SceneTable, ServiceKey, ServiceTable, WatchError};

struct Probe {
    id: u32,
    cancels: Rc<Cell<u32>>,
}

impl Cancel for Probe {
    fn cancel(&self) {
        self.cancels.set(self.cancels.get() + 1);
    }
}

fn probe(id: u32) -> (Probe, Rc<Cell<u32>>) {
    let c = Rc::new(Cell::new(0));
    (Probe { id, cancels: c.clone() }, c)
}

#[test]
fn register_then_contains() {
    let mut t: ServiceTable<Probe> = ServiceTable::new();
    let key = ServiceKey::new("scene", "web");
    assert!(!t.contains(&key));
    let (p, _) = probe(1);
    assert!(t.register(key.clone(), p).is_ok());
    assert!(t.contains(&key));
    assert!(!t.contains(&ServiceKey::new("scene", "db")));
    assert!(!t.contains(&ServiceKey::new("other", "web")));
}

#[test]
fn register_existing_key_is_refused_and_table_unchanged() {
    let mut t: ServiceTable<Probe> = ServiceTable::new();
    let key = ServiceKey::new("scene", "web");
    let (first, first_cancels) = probe(1);
    let (second, second_cancels) = probe(2);
    assert!(t.register(key.clone(), first).is_ok());
    match t.register(key.clone(), second) {
        Err((e, h)) => {
            assert_eq!(e, WatchError::AlreadyWatching);
            assert_eq!(h.id, 2);
        }
        Ok(()) => panic!("second registration accepted"),
    }
    // The first handle is still the registered one.
    let back = t.unregister(&key).expect("first handle");
    assert_eq!(back.id, 1);
    assert_eq!(first_cancels.get(), 0);
    assert_eq!(second_cancels.get(), 0);
}

#[test]
fn same_key_in_separate_tables() {
    let mut status: ServiceTable<Probe> = ServiceTable::new();
    let mut logs: ServiceTable<Probe> = ServiceTable::new();
    let key = ServiceKey::new("scene", "web");
    assert!(status.register(key.clone(), probe(1).0).is_ok());
    assert!(logs.register(key.clone(), probe(2).0).is_ok());
    assert!(status.contains(&key) && logs.contains(&key));
}

#[test]
fn cancel_absent_key_is_not_watching() {
    let mut t: ServiceTable<Probe> = ServiceTable::new();
    let (p, cancels) = probe(1);
    assert!(t.register(ServiceKey::new("scene", "web"), p).is_ok());
    let r = t.cancel_and_unregister(&ServiceKey::new("scene", "db"));
    assert_eq!(r, Err(WatchError::NotWatching));
    assert!(t.contains(&ServiceKey::new("scene", "web")));
    assert_eq!(cancels.get(), 0);
}

#[test]
fn cancel_present_key_removes_and_cancels() {
    let mut t: ServiceTable<Probe> = ServiceTable::new();
    let key = ServiceKey::new("scene", "web");
    let (p, cancels) = probe(1);
    assert!(t.register(key.clone(), p).is_ok());
    assert_eq!(t.cancel_and_unregister(&key), Ok(()));
    assert!(!t.contains(&key));
    assert_eq!(cancels.get(), 1);
}

#[test]
fn stop_twice_second_is_not_watching_and_cancel_once() {
    let mut t: ServiceTable<Probe> = ServiceTable::new();
    let key = ServiceKey::new("scene", "web");
    let (p, cancels) = probe(1);
    assert!(t.register(key.clone(), p).is_ok());
    assert_eq!(t.cancel_and_unregister(&key), Ok(()));
    assert_eq!(t.cancel_and_unregister(&key), Err(WatchError::NotWatching));
    assert_eq!(cancels.get(), 1);
}

#[test]
fn restart_after_stop_is_accepted() {
    let mut t: ServiceTable<Probe> = ServiceTable::new();
    let key = ServiceKey::new("scene", "web");
    assert!(t.register(key.clone(), probe(1).0).is_ok());
    assert_eq!(t.cancel_and_unregister(&key), Ok(()));
    assert!(t.register(key.clone(), probe(2).0).is_ok());
    assert_eq!(t.unregister(&key).map(|h| h.id), Some(2));
    assert!(t.unregister(&key).is_none());
}

#[test]
fn cancel_all_cancels_every_handle() {
    let mut t: ServiceTable<Probe> = ServiceTable::new();
    let (a, ca) = probe(1);
    let (b, cb) = probe(2);
    assert!(t.register(ServiceKey::new("s", "a"), a).is_ok());
    assert!(t.register(ServiceKey::new("s", "b"), b).is_ok());
    t.cancel_all();
    assert_eq!((ca.get(), cb.get()), (1, 1));
    assert!(!t.contains(&ServiceKey::new("s", "a")));
    assert!(!t.contains(&ServiceKey::new("s", "b")));
}

#[test]
fn scene_batch_register_and_cancel() {
    let mut t: SceneTable<Probe> = SceneTable::new();
    let (a, ca) = probe(1);
    let (b, cb) = probe(2);
    assert!(t.register("scene".to_string(), vec![a, b]).is_ok());
    match t.register("scene".to_string(), vec![probe(3).0]) {
        Err((e, hs)) => {
            assert_eq!(e, WatchError::AlreadyWatching);
            assert_eq!(hs.len(), 1);
        }
        Ok(()) => panic!("second batch accepted"),
    }
    assert_eq!(t.cancel_and_unregister(&"scene".to_string()), Ok(()));
    assert_eq!((ca.get(), cb.get()), (1, 1));
    assert_eq!(
        t.cancel_and_unregister(&"scene".to_string()),
        Err(WatchError::NotWatching)
    );
    assert_eq!((ca.get(), cb.get()), (1, 1));
}

#[test]
fn service_key_same_as_is_structural() {
    let a = ServiceKey::new("s", "x");
    assert!(a.same_as(&ServiceKey::new("s", "x")));
    assert!(!a.same_as(&ServiceKey::new("s", "y")));
    assert!(!a.same_as(&ServiceKey::new("t", "x")));
}

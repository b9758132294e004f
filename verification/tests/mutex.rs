use peace_lock::Mutex;

#[test]
fn lock_unlock_lock() {
    let mut val = Mutex::new(1);
    let lock1 = val.lock();
    val.unlock_exclusive(lock1);
    let lock2 = val.lock();
    assert_eq!(*lock2.get(), 1);
    val.unlock_exclusive(lock2);
}

#[test]
fn double_lock() {
    let mut val = Mutex::new(1);
    let lock1 = val.lock();
    assert!(val.try_lock().is_none());
    val.unlock_exclusive(lock1);
}

#[test]
fn try_lock_success_and_failure() {
    let mut val = Mutex::new(42);
    let guard = val.try_lock().expect("an unlocked mutex must be acquirable");
    assert_eq!(*guard.get(), 42);
    assert!(val.try_lock().is_none());
    val.unlock_exclusive(guard);
    assert!(val.try_lock().is_some());
}

#[test]
fn guard_mutation_round_trip() {
    let mut val = Mutex::new(10);
    let mut guard = val.lock();
    *guard.get_mut() += 5;
    val.unlock_exclusive(guard);
    assert_eq!(val.into_inner(), 15);
}

#[test]
fn get_mut_bypasses_state() {
    let mut val = Mutex::new(2);
    *val.get_mut() = 20;
    let guard = val.lock();
    assert_eq!(*guard.get(), 20);
    val.unlock_exclusive(guard);
}

#[test]
fn from_and_default() {
    let from_val: Mutex<i32> = Mutex::from(3);
    assert_eq!(from_val.into_inner(), 3);
    let mut def: Mutex<u32> = Mutex::default();
    let guard = def.lock();
    assert_eq!(*guard.get(), 0);
    def.unlock_exclusive(guard);
}

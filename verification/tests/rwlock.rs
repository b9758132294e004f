use peace_lock::RwLock;

#[test]
fn write_lock_unlock_lock() {
    let mut val = RwLock::new(1);
    let lock1 = val.write();
    val.unlock_exclusive(lock1);
    let lock2 = val.write();
    assert_eq!(*lock2.get(), 1);
    val.unlock_exclusive(lock2);
}

#[test]
fn double_write_lock() {
    let mut val = RwLock::new(1);
    let lock1 = val.write();
    assert!(val.try_write().is_none());
    val.unlock_exclusive(lock1);
}

#[test]
fn read_write_lock_conflict1() {
    let mut val = RwLock::new(1);
    let lock1 = val.write();
    assert!(val.try_read().is_none());
    val.unlock_exclusive(lock1);
}

#[test]
fn read_write_lock_conflict2() {
    let mut val = RwLock::new(1);
    let lock1 = val.read();
    assert!(val.try_write().is_none());
    val.unlock_shared(lock1);
}

#[test]
fn multiple_read() {
    let mut val = RwLock::new(1);
    let lock1 = val.read();
    let lock2 = val.read();
    assert_eq!(*val.read_ref(&lock1), 1);
    assert_eq!(*val.read_ref(&lock2), 1);
    val.unlock_shared(lock1);
    assert_eq!(*val.read_ref(&lock2), 1);
    val.unlock_shared(lock2);
}

#[test]
fn read_balance_restores_idle() {
    let mut val = RwLock::new(7);
    let g1 = val.read();
    let g2 = val.read();
    let g3 = val.read();
    assert!(val.try_write().is_none());
    val.unlock_shared(g1);
    val.unlock_shared(g2);
    val.unlock_shared(g3);
    let writer = val.try_write().expect("an idle lock must be writable");
    assert_eq!(*writer.get(), 7);
    val.unlock_exclusive(writer);
}

#[test]
fn write_guard_mutation_visible_to_readers() {
    let mut val = RwLock::new(4);
    let mut writer = val.write();
    *writer.get_mut() *= 2;
    val.unlock_exclusive(writer);
    let reader = val.read();
    assert_eq!(*val.read_ref(&reader), 8);
    val.unlock_shared(reader);
}

#[test]
fn get_mut_and_into_inner() {
    let mut val = RwLock::new(5);
    *val.get_mut() = 50;
    assert_eq!(val.into_inner(), 50);
}

#[test]
fn rwlock_from_and_default() {
    let from_val: RwLock<i32> = RwLock::from(9);
    assert_eq!(from_val.into_inner(), 9);
    let mut def: RwLock<u64> = RwLock::default();
    let reader = def.read();
    assert_eq!(*def.read_ref(&reader), 0);
    def.unlock_shared(reader);
}

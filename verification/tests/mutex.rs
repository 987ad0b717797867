use wasabi::mutex::Mutex;

#[test]
fn try_lock_fails_while_held() {
    let mut m: Mutex<u64> = Mutex::new(5, 10);
    assert_eq!(m.try_lock(21), Ok(()));
    assert_eq!(m.try_lock(22), Err("Locke failed"));
    m.unlock();
    assert_eq!(m.try_lock(23), Ok(()));
    m.unlock();
}

#[test]
fn lock_guards_the_value() {
    let mut m: Mutex<u64> = Mutex::new(5, 10);
    m.lock(30);
    assert_eq!(*m.borrow_data(), 5);
    m.set_data(7);
    assert_eq!(*m.borrow_data(), 7);
    m.unlock();
    m.lock(31);
    assert_eq!(*m.borrow_data(), 7);
    m.unlock();
}

#[test]
fn under_locked_runs_and_releases() {
    let mut m: Mutex<u64> = Mutex::new(41, 10);
    let r = m.under_locked(|x: &u64| (x + 1, Ok::<u64, &'static str>(*x)), 50);
    assert_eq!(r, Ok(41));
    // the closure's new value was stored and the lock was released
    assert_eq!(m.try_lock(51), Ok(()));
    assert_eq!(*m.borrow_data(), 42);
    m.unlock();
}

#[test]
fn under_locked_propagates_errors() {
    let mut m: Mutex<u64> = Mutex::new(1, 10);
    let r = m.under_locked(|x: &u64| (*x, Err::<u64, &'static str>("no luck")), 60);
    assert_eq!(r, Err("no luck"));
    assert_eq!(m.try_lock(61), Ok(()));
    assert_eq!(*m.borrow_data(), 1);
    m.unlock();
}

use kernel_core::task::sync::{Acquire, BlockingMutex, Condvar, RwLock, Semaphore, WaitList, Woken};

#[test]
fn wait_list_wakes_first_in_first_out() {
    let mut list = WaitList::new();
    assert_eq!(list.wake_one(), None);
    let a = list.park();
    let b = list.park();
    let c = list.park();
    assert_eq!((a, b, c), (0, 1, 2));
    assert_eq!(list.waiting(), 3);
    assert!(!list.is_woken(a) && !list.is_woken(b) && !list.is_woken(c));
    assert_eq!(list.wake_one(), Some(a));
    assert!(list.is_woken(a) && !list.is_woken(b) && !list.is_woken(c));
    assert_eq!(list.wake_one(), Some(b));
    assert!(list.is_woken(b) && !list.is_woken(c));
    let d = list.park();
    assert_eq!(d, 3);
    assert_eq!(list.wake_one(), Some(c));
    assert_eq!(list.wake_one(), Some(d));
    assert_eq!(list.wake_one(), None);
    assert!(list.is_woken(a));
    assert!(!list.is_woken(42));
}

#[test]
fn wait_list_wakes_all() {
    let mut list = WaitList::new();
    assert_eq!(list.wake_all(), 0);
    for _ in 0..5 {
        list.park();
    }
    list.wake_one();
    assert_eq!(list.wake_all(), 4);
    assert_eq!(list.waiting(), 0);
    for id in 0..5 {
        assert!(list.is_woken(id));
    }
}

#[test]
fn semaphore_counts_down_and_parks_at_zero() {
    let mut sem = Semaphore::new(2);
    assert_eq!(sem.acquire(), Acquire::Acquired);
    assert_eq!(sem.acquire(), Acquire::Acquired);
    assert_eq!(sem.available(), 0);
    assert_eq!(sem.acquire(), Acquire::Parked(0));
    assert_eq!(sem.acquire(), Acquire::Parked(1));
    assert!(!sem.is_woken(0));
    assert!(!sem.is_woken(1));
    assert_eq!(sem.available(), 0);
}

#[test]
fn semaphore_release_wakes_exactly_the_oldest_waiter() {
    let mut sem = Semaphore::new(0);
    let first = sem.acquire();
    let second = sem.acquire();
    let third = sem.acquire();
    assert_eq!((first, second, third), (Acquire::Parked(0), Acquire::Parked(1), Acquire::Parked(2)));
    // nobody is woken by more waiting
    assert!(!sem.is_woken(0) && !sem.is_woken(1) && !sem.is_woken(2));
    assert_eq!(sem.release(), Some(0));
    assert!(sem.is_woken(0) && !sem.is_woken(1) && !sem.is_woken(2));
    assert_eq!(sem.available(), 1);
    // the woken task asks again and gets the unit
    assert_eq!(sem.acquire(), Acquire::Acquired);
    assert_eq!(sem.available(), 0);
    assert_eq!(sem.release(), Some(1));
    assert!(sem.is_woken(1) && !sem.is_woken(2));
    assert_eq!(sem.release(), Some(2));
    assert_eq!(sem.release(), None);
    assert_eq!(sem.available(), 3);
}

#[test]
fn mutex_parks_those_who_find_it_taken() {
    let mut mutex = BlockingMutex::new(5u32);
    assert_eq!(*mutex.get(), 5);
    assert!(mutex.try_lock());
    assert!(!mutex.try_lock());
    assert_eq!(mutex.lock(), Acquire::Parked(0));
    assert_eq!(mutex.lock(), Acquire::Parked(1));
    mutex.set(6);
    assert_eq!(*mutex.get(), 6);
    assert!(!mutex.is_woken(0));
    assert_eq!(mutex.unlock(), Some(0));
    assert!(mutex.is_woken(0));
    assert!(!mutex.is_woken(1));
    assert_eq!(mutex.lock(), Acquire::Acquired);
    assert_eq!(mutex.unlock_next(), Some(1));
    assert!(!mutex.try_lock());
    assert_eq!(mutex.unlock(), None);
    assert!(mutex.try_lock());
    mutex.force_unlock();
    assert!(mutex.try_lock());
}

#[test]
fn condvar_releases_the_mutex_and_parks() {
    let mut mutex = BlockingMutex::new(());
    let mut condvar = Condvar::new();
    assert!(mutex.try_lock());
    let waiter = condvar.wait(&mut mutex);
    assert_eq!(waiter, 0);
    assert!(mutex.try_lock());
    assert!(!condvar.is_woken(waiter));
    let second = condvar.wait(&mut mutex);
    let third = condvar.wait(&mut mutex);
    assert_eq!(condvar.notify_one(), Some(waiter));
    assert!(condvar.is_woken(waiter));
    assert!(!condvar.is_woken(second));
    assert_eq!(condvar.notify_all(), 2);
    assert!(condvar.is_woken(second) && condvar.is_woken(third));
    assert_eq!(condvar.notify_one(), None);
    assert_eq!(condvar.notify_all(), 0);
}

#[test]
fn rwlock_lets_many_readers_or_one_writer_in() {
    let mut lock = RwLock::new(1u8);
    assert_eq!(lock.read(), Acquire::Acquired);
    assert_eq!(lock.read(), Acquire::Acquired);
    assert_eq!(lock.write(), Acquire::Parked(0));
    assert_eq!(lock.write(), Acquire::Parked(1));
    assert_eq!(lock.release_read(), None);
    assert_eq!(lock.release_read(), Some(0));
    assert_eq!(lock.write(), Acquire::Acquired);
    lock.set(2);
    assert_eq!(*lock.get(), 2);
    assert_eq!(lock.read(), Acquire::Parked(0));
    assert_eq!(lock.read(), Acquire::Parked(1));
    assert_eq!(lock.write(), Acquire::Parked(2));
    assert_eq!(lock.release_write(), Woken { readers: 2, writer: Some(1) });
    assert_eq!(lock.read(), Acquire::Acquired);
    assert_eq!(lock.write(), Acquire::Parked(3));
    assert_eq!(lock.release_read(), Some(2));
    assert_eq!(lock.write(), Acquire::Acquired);
    assert_eq!(lock.release_write(), Woken { readers: 0, writer: Some(3) });
}

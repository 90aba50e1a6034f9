use std::cell::{Cell, RefCell};

use abagames_util::pool::{Pool, PoolRemoval, MAX_RECOMMENDED_SIZE};

#[test]
fn test_pool_new() {
    let mut pool = Pool::new(10, || 0);
    *pool.get().unwrap() = 1;
    let in_use = pool.iter().iter().collect::<Vec<_>>();
    assert_eq!(in_use.len(), 1);
    assert_eq!(*in_use[0], 1);
}

#[test]
fn test_pool_indexed() {
    let mut pool = Pool::new_indexed(10, |i| i);
    assert_eq!(*pool.get().unwrap(), 9);
    assert_eq!(*pool.get().unwrap(), 8);
}

#[test]
fn test_pool_get_empty() {
    let mut pool = Pool::new(1, || 0);
    assert!(pool.get().is_some());
    assert!(pool.get().is_none());
}

#[test]
fn test_pool_get_forced_empty() {
    let mut pool = Pool::new(1, || 0);
    *pool.get().unwrap() = 1;
    assert_eq!(*pool.get_force(), 1);
}

#[test]
fn test_pool_get_forced_empty_big_type() {
    let mut pool = Pool::new(1, || [0u8; MAX_RECOMMENDED_SIZE]);
    (*pool.get().unwrap())[0] = 1;
    assert_eq!((*pool.get_force())[0], 1);
}

// A freshly constructed pool has every slot free and none in use.
#[test]
fn test_fresh_pool_partition() {
    let pool = Pool::new(7, || 42);
    let (live, idle) = pool.iter_all();
    assert_eq!(live.len(), 0);
    assert_eq!(idle.len(), 7);
    assert!(idle.iter().all(|&v| v == 42));

    let pool = Pool::new_indexed(4, |i| i * 10);
    let (live, idle) = pool.iter_all();
    assert_eq!(live.len(), 0);
    assert_eq!(idle, &[0, 10, 20, 30]);
}

// `get` succeeds exactly capacity-many times, each call handing out a
// distinct slot; the next call reports nothing available.
#[test]
fn test_gets_exhaust_capacity() {
    let n = 5;
    let mut pool = Pool::new(n, || 0usize);
    for k in 0..n {
        let handle = pool.get().expect("a free slot should be available");
        *handle = k + 1;
        assert_eq!(pool.iter().len(), k + 1);
    }
    assert!(pool.get().is_none());
    // Every handle wrote a different slot: all the written values survive.
    let mut seen = pool.iter().to_vec();
    seen.sort();
    assert_eq!(seen, vec![1, 2, 3, 4, 5]);
}

// `get_force` on a saturated pool hands out the oldest live allocation.
#[test]
fn test_get_force_returns_oldest() {
    let mut pool = Pool::new(2, || 0u32);
    *pool.get().unwrap() = 10;
    *pool.get().unwrap() = 20;
    assert!(pool.get().is_none());
    // 10 was allocated first, so it is the oldest live entity.
    assert_eq!(*pool.get_force(), 10);
    *pool.get_force() = 30;
    assert_eq!(pool.iter(), &[30, 20]);
}

// `run` evicting a subset S shrinks `in_use` by |S|, grows `free` by |S|,
// and visits every element exactly once even while removing.
#[test]
fn test_run_evicts_and_visits_each_once() {
    let mut pool = Pool::new_indexed(6, |i| i as u32);
    for _ in 0..6 {
        pool.get().unwrap();
    }
    assert_eq!(pool.iter().len(), 6);

    let visits = Cell::new(0usize);
    pool.run(|v: u32| {
        visits.set(visits.get() + 1);
        if v % 2 == 0 {
            (v, PoolRemoval::Remove)
        } else {
            (v, PoolRemoval::Keep)
        }
    });

    assert_eq!(visits.get(), 6);
    let (live, idle) = pool.iter_all();
    assert_eq!(live.len(), 3);
    assert_eq!(idle.len(), 3);
    assert!(live.iter().all(|v| v % 2 == 1));
    assert!(idle.iter().all(|v| v % 2 == 0));
}

// The removal scan never skips: on `Remove`, the last element swaps into the
// vacated slot and is visited next at the same index.
#[test]
fn test_run_swap_visitation_order() {
    let mut pool = Pool::new_indexed(4, |i| i as u32);
    for _ in 0..4 {
        pool.get().unwrap();
    }
    // Allocation popped the free list from the back: in-use order is 3,2,1,0.
    assert_eq!(pool.iter(), &[3, 2, 1, 0]);

    let order = RefCell::new(Vec::new());
    pool.run(|v: u32| {
        order.borrow_mut().push(v);
        if v == 2 {
            (v, PoolRemoval::Remove)
        } else {
            (v, PoolRemoval::Keep)
        }
    });

    // Removing 2 swaps the tail (0) into its slot, which is visited next.
    assert_eq!(*order.borrow(), vec![3, 2, 0, 1]);
    assert_eq!(pool.iter(), &[3, 0, 1]);
}

// `run_ref` shows each visited element all the others, in order.
#[test]
fn test_run_ref_sees_others() {
    let mut pool = Pool::new_indexed(3, |i| i as u32);
    for _ in 0..3 {
        pool.get().unwrap();
    }
    assert_eq!(pool.iter(), &[2, 1, 0]);

    let others_seen = RefCell::new(Vec::new());
    pool.run_ref(|v: u32, others: &[u32]| {
        others_seen.borrow_mut().push((v, others.to_vec()));
        (v, PoolRemoval::Keep)
    });

    assert_eq!(
        *others_seen.borrow(),
        vec![(2, vec![1, 0]), (1, vec![2, 0]), (0, vec![2, 1])],
    );
}

// `expire` removes by predicate with the same swap-removal semantics.
#[test]
fn test_expire_removes_matching() {
    let mut pool = Pool::new_indexed(5, |i| i as u32);
    for _ in 0..5 {
        pool.get().unwrap();
    }
    pool.expire(|v: &u32| {
        if *v < 2 {
            PoolRemoval::Remove
        } else {
            PoolRemoval::Keep
        }
    });
    let mut live = pool.iter().to_vec();
    live.sort();
    assert_eq!(live, vec![2, 3, 4]);
    // The evicted objects moved untouched into the free subset.
    let (_, idle) = pool.iter_all();
    let mut freed = idle.to_vec();
    freed.sort();
    assert_eq!(freed, vec![0, 1]);

    // A second scan with the same predicate changes nothing.
    let before = pool.iter().to_vec();
    pool.expire(|v: &u32| {
        if *v < 2 {
            PoolRemoval::Remove
        } else {
            PoolRemoval::Keep
        }
    });
    assert_eq!(pool.iter().to_vec(), before);
}

// `clear` returns every element to the free subset: afterwards, `get`
// succeeds exactly capacity-many times regardless of prior history.
#[test]
fn test_clear_then_gets() {
    let n = 4;
    let mut pool = Pool::new(n, || 0u8);
    for _ in 0..3 {
        pool.get().unwrap();
    }
    pool.expire(|_| PoolRemoval::Remove);
    for _ in 0..2 {
        pool.get().unwrap();
    }

    pool.clear();
    assert_eq!(pool.iter().len(), 0);
    for _ in 0..n {
        assert!(pool.get().is_some());
    }
    assert!(pool.get().is_none());
}

// `iter_mut` writes through to the live elements.
#[test]
fn test_iter_mut_writes() {
    let mut pool = Pool::new_indexed(3, |i| i as u32);
    for _ in 0..3 {
        pool.get().unwrap();
    }
    for v in pool.iter_mut() {
        *v += 100;
    }
    assert_eq!(pool.iter(), &[102, 101, 100]);
}

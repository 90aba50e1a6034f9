//! A fixed-capacity entity pool.
//!
//! The pool owns a fixed number of value slots, partitioned into a `free`
//! subset (unallocated) and an `in_use` subset (live entities). Slots are
//! recycled between the two subsets for the life of the pool: `get` and
//! `get_force` move a slot from `free` to `in_use`, while `run`, `run_ref`,
//! `expire` and `clear` move slots back. Removal during a scan uses
//! swap-with-last, so the order of `in_use` is allocation order but is not
//! stable across removals.

use std::io::Write;

use vstd::multiset::Multiset;
use vstd::prelude::*;

verus! {

/// Whether to keep or remove a pool entity after stepping it.
#[derive(Debug, Clone, Copy, PartialEq, Eq, Structural)]
pub enum PoolRemoval {
    /// Keep the entity in the pool.
    Keep,
    /// Remove the entity from the pool.
    Remove,
}

/// Pooled values above this many bytes are known to degrade the cost of
/// swap-based removal and memory locality; a host may warn before building
/// such a pool.
pub const MAX_RECOMMENDED_SIZE: usize = 160_000;

/// Relies on std::io::stderr: prints the oversized-item warning. A
/// diagnostic only; nothing is promised.
#[verifier::external_body]
fn warn_oversized(item_size: usize, limit: usize) {
    let mut err = std::io::stderr();
    writeln!(
        err,
        "Creating a pool with an item size > {} ({}); this is known to have issues",
        limit, item_size,
    )
    .ok();
}

/// An entity pool of a fixed size.
pub struct Pool<T> {
    /// The unused objects; `get` takes from the back.
    free: Vec<T>,
    /// The in-use objects, in allocation order (not stable across removals).
    in_use: Vec<T>,
}

/// What one `get` call does to a pool, seen at the level of the two subsets:
/// on an empty `free` subset nothing changes and no handle is produced;
/// otherwise the last free slot is removed and a new slot (whose value the
/// caller writes through the returned handle) is appended to `in_use`.
pub open spec fn get_post<T>(
    pre_free: Seq<T>,
    pre_in_use: Seq<T>,
    post_free: Seq<T>,
    post_in_use: Seq<T>,
    got: bool,
) -> bool {
    if pre_free.len() == 0 {
        &&& !got
        &&& post_free == pre_free
        &&& post_in_use == pre_in_use
    } else {
        &&& got
        &&& post_free == pre_free.drop_last()
        &&& post_in_use.len() == pre_in_use.len() + 1
        &&& forall|i: int| 0 <= i < pre_in_use.len() ==> post_in_use[i] == pre_in_use[i]
    }
}

impl<T> Pool<T> {
    /// The unallocated slots; the next `get` returns the last one.
    pub closed spec fn free_seq(&self) -> Seq<T> {
        self.free@
    }

    /// The live entities, oldest allocation first.
    pub closed spec fn in_use_seq(&self) -> Seq<T> {
        self.in_use@
    }

    /// The total number of value slots; fixed at construction.
    pub open spec fn capacity(&self) -> nat {
        self.free_seq().len() + self.in_use_seq().len()
    }

    /// Warn when the pooled value type is larger than recommended: such
    /// pools are known to degrade the swap-based removal cost and memory
    /// locality. Non-fatal.
    fn check_size() {
        let item_size = core::mem::size_of::<T>();
        if item_size > MAX_RECOMMENDED_SIZE {
            warn_oversized(item_size, MAX_RECOMMENDED_SIZE);
        }
    }

    /// Create a new pool filled with objects created by a function.
    pub fn new<F: Fn() -> T>(size: usize, ctor: F) -> (result: Pool<T>)
        requires
            size >= 1,
            call_requires(ctor, ()),
        ensures
            result.free_seq().len() == size,
            result.in_use_seq().len() == 0,
            forall|i: int|
                0 <= i < size ==> call_ensures(ctor, (), #[trigger] result.free_seq()[i]),
    {
        Self::check_size();
        let mut free: Vec<T> = Vec::new();
        let mut n: usize = 0;
        while n < size
            invariant
                n <= size,
                free@.len() == n,
                call_requires(ctor, ()),
                forall|i: int| 0 <= i < n ==> call_ensures(ctor, (), #[trigger] free@[i]),
            decreases size - n,
        {
            free.push(ctor());
            n += 1;
        }
        Pool { free, in_use: Vec::new() }
    }

    /// Create a new pool filled with indexed objects created by a function.
    pub fn new_indexed<F: Fn(usize) -> T>(size: usize, ctor: F) -> (result: Pool<T>)
        requires
            size >= 1,
            forall|i: usize| i < size ==> call_requires(ctor, (i,)),
        ensures
            result.free_seq().len() == size,
            result.in_use_seq().len() == 0,
            forall|i: int|
                0 <= i < size ==> call_ensures(
                    ctor,
                    (i as usize,),
                    #[trigger] result.free_seq()[i],
                ),
    {
        Self::check_size();
        let mut free: Vec<T> = Vec::new();
        let mut n: usize = 0;
        while n < size
            invariant
                n <= size,
                free@.len() == n,
                forall|i: usize| i < size ==> call_requires(ctor, (i,)),
                forall|i: int|
                    0 <= i < n ==> call_ensures(ctor, (i as usize,), #[trigger] free@[i]),
            decreases size - n,
        {
            free.push(ctor(n));
            n += 1;
        }
        Pool { free, in_use: Vec::new() }
    }

    /// Get a free object from the pool, or `None` if none is free.
    ///
    /// The returned handle points at the newly allocated `in_use` slot; the
    /// caller is responsible for resetting the value's logical state.
    pub fn get(&mut self) -> (res: Option<&mut T>)
        ensures
            get_post(
                old(self).free_seq(),
                old(self).in_use_seq(),
                final(self).free_seq(),
                final(self).in_use_seq(),
                res.is_some(),
            ),
            final(self).capacity() == old(self).capacity(),
            res.is_some() ==> {
                &&& *res.unwrap() == old(self).free_seq().last()
                &&& final(self).in_use_seq().last() == *final(res.unwrap())
            },
            res.is_none() <==> old(self).free_seq().len() == 0,
    {
        if let Some(item) = self.free.pop() {
            self.in_use.push(item);
            self.in_use.as_mut_slice().last_mut()
        } else {
            None
        }
    }

    /// Get an object from the pool, never failing while the pool has slots.
    ///
    /// Recycles an in-use object if there are no free objects: when `free`
    /// is empty the handle refers to the first `in_use` slot — the front of
    /// the allocation order, which is the oldest surviving allocation unless
    /// an earlier swap-removal moved a later one there.
    pub fn get_force(&mut self) -> (res: &mut T)
        requires
            old(self).capacity() > 0,
        ensures
            final(self).capacity() == old(self).capacity(),
            old(self).free_seq().len() > 0 ==> {
                &&& *res == old(self).free_seq().last()
                &&& final(self).free_seq() == old(self).free_seq().drop_last()
                &&& final(self).in_use_seq() == old(self).in_use_seq().push(*final(res))
            },
            old(self).free_seq().len() == 0 ==> {
                &&& *res == old(self).in_use_seq()[0]
                &&& final(self).free_seq() == old(self).free_seq()
                &&& final(self).in_use_seq() == old(self).in_use_seq().update(0, *final(res))
            },
    {
        if let Some(item) = self.free.pop() {
            self.in_use.push(item);
            match self.in_use.as_mut_slice().last_mut() {
                Some(r) => r,
                None => vstd::pervasive::unreached(),
            }
        } else {
            match self.in_use.as_mut_slice().first_mut() {
                Some(r) => r,
                None => vstd::pervasive::unreached(),
            }
        }
    }

    /// Clears the pool of all objects: every in-use object moves back into
    /// the free subset, keeping its value.
    pub fn clear(&mut self)
        ensures
            final(self).capacity() == old(self).capacity(),
            final(self).free_seq() == old(self).free_seq() + old(self).in_use_seq(),
            final(self).in_use_seq().len() == 0,
    {
        self.free.append(&mut self.in_use);
    }

    /// The in-use objects, in visitation order.
    pub fn iter(&self) -> (r: &[T])
        ensures
            r@ == self.in_use_seq(),
    {
        self.in_use.as_slice()
    }

    /// The in-use objects, in visitation order, writable in place.
    pub fn iter_mut(&mut self) -> (r: &mut [T])
        ensures
            r@ == old(self).in_use_seq(),
            final(self).in_use_seq() == final(r)@,
            final(self).free_seq() == old(self).free_seq(),
    {
        self.in_use.as_mut_slice()
    }

    /// All objects: the in-use ones first, then the free ones.
    pub fn iter_all(&self) -> (r: (&[T], &[T]))
        ensures
            r.0@ == self.in_use_seq(),
            r.1@ == self.free_seq(),
    {
        (self.in_use.as_slice(), self.free.as_slice())
    }

    /// All objects, writable in place: the in-use ones first, then the free
    /// ones.
    pub fn iter_all_mut(&mut self) -> ((live, idle): (&mut [T], &mut [T]))
        ensures
            live@ == old(self).in_use_seq(),
            idle@ == old(self).free_seq(),
            final(self).in_use_seq() == final(live)@,
            final(self).free_seq() == final(idle)@,
    {
        (self.in_use.as_mut_slice(), self.free.as_mut_slice())
    }

    /// Run a function for each in-use object and return expired objects to
    /// the pool.
    ///
    /// Each visited object is passed to `func` by value; the object that
    /// `func` hands back replaces it. On `Remove` the slot is evicted by
    /// swapping with the last in-use slot and the returned object is pushed
    /// onto the free subset; the swapped-in object is then visited at the
    /// same index, so no object is skipped. On `Keep` the scan advances.
    ///
    /// The contract carries an exact account of the scan
    /// ([`run_scan_account`]): the objects fed to `func` are exactly the
    /// objects that were live at entry, each visited once, every survivor is
    /// the `Keep` output on its own source, and the newly freed values are
    /// the `Remove` outputs in eviction order. When nothing is evicted, each
    /// slot holds the output on the object it held before.
    pub fn run<F: Fn(T) -> (T, PoolRemoval)>(&mut self, func: F)
        requires
            forall|t: T| call_requires(func, (t,)),
        ensures
            final(self).capacity() == old(self).capacity(),
            old(self).free_seq().is_prefix_of(final(self).free_seq()),
            final(self).in_use_seq().len() == old(self).in_use_seq().len() - (
            final(self).free_seq().len() - old(self).free_seq().len()),
            forall|j: int|
                old(self).free_seq().len() <= j < final(self).free_seq().len() ==> run_removes(
                    func,
                    old(self).in_use_seq(),
                    #[trigger] final(self).free_seq()[j],
                ),
            forall|j: int|
                0 <= j < final(self).in_use_seq().len() ==> run_keeps(
                    func,
                    old(self).in_use_seq(),
                    #[trigger] final(self).in_use_seq()[j],
                ),
            final(self).free_seq().len() == old(self).free_seq().len() ==> {
                &&& final(self).in_use_seq().len() == old(self).in_use_seq().len()
                &&& forall|j: int|
                    0 <= j < old(self).in_use_seq().len() ==> call_ensures(
                        func,
                        (old(self).in_use_seq()[j],),
                        (#[trigger] final(self).in_use_seq()[j], PoolRemoval::Keep),
                    )
            },
            exists|kept_src: Seq<T>, removed_src: Seq<T>|
                run_scan_account(
                    func,
                    old(self).in_use_seq(),
                    old(self).free_seq().len() as int,
                    final(self).in_use_seq(),
                    final(self).free_seq(),
                    kept_src,
                    removed_src,
                ),
    {
        let ghost k = old(self).free_seq().len() as int;
        let ghost mut kept_src: Seq<T> = Seq::empty();
        let ghost mut removed_src: Seq<T> = Seq::empty();
        let mut idx: usize = 0;
        proof {
            broadcast use vstd::seq_lib::group_to_multiset_ensures;
            broadcast use vstd::multiset::group_multiset_axioms;

            assert forall|j: int|
                0 <= j < self.in_use@.len() implies old(self).in_use_seq().contains(
                #[trigger] self.in_use@[j]) by {
                assert(old(self).in_use_seq()[j] == self.in_use@[j]);
            }
            lemma_empty_to_multiset::<T>();
            assert(self.in_use@.skip(0) =~= self.in_use@);
            assert(kept_src.to_multiset().add(removed_src.to_multiset()).add(
                self.in_use@.skip(0).to_multiset(),
            ) =~= old(self).in_use_seq().to_multiset());
        }
        while idx < self.in_use.len()
            invariant
                forall|t: T| call_requires(func, (t,)),
                idx <= self.in_use@.len(),
                k == old(self).free_seq().len() as int,
                kept_src.len() == idx,
                k + removed_src.len() == self.free@.len(),
                forall|j: int|
                    0 <= j < idx ==> call_ensures(
                        func,
                        (#[trigger] kept_src[j],),
                        (self.in_use@[j], PoolRemoval::Keep),
                    ),
                forall|j: int|
                    0 <= j < removed_src.len() ==> call_ensures(
                        func,
                        (#[trigger] removed_src[j],),
                        (self.free@[k + j], PoolRemoval::Remove),
                    ),
                kept_src.to_multiset().add(removed_src.to_multiset()).add(
                    self.in_use@.skip(idx as int).to_multiset(),
                ) == old(self).in_use_seq().to_multiset(),
                self.free@.len() + self.in_use@.len() == old(self).capacity(),
                old(self).free_seq().is_prefix_of(self.free@),
                forall|j: int|
                    old(self).free_seq().len() <= j < self.free@.len() ==> run_removes(
                        func,
                        old(self).in_use_seq(),
                        #[trigger] self.free@[j],
                    ),
                forall|j: int|
                    0 <= j < idx ==> run_keeps(
                        func,
                        old(self).in_use_seq(),
                        #[trigger] self.in_use@[j],
                    ),
                forall|j: int|
                    idx <= j < self.in_use@.len() ==> old(self).in_use_seq().contains(
                        #[trigger] self.in_use@[j],
                    ),
                self.free@.len() == old(self).free_seq().len() ==> {
                    &&& self.in_use@.len() == old(self).in_use_seq().len()
                    &&& forall|j: int|
                        0 <= j < idx ==> call_ensures(
                            func,
                            (old(self).in_use_seq()[j],),
                            (#[trigger] self.in_use@[j], PoolRemoval::Keep),
                        )
                    &&& forall|j: int|
                        idx <= j < self.in_use@.len() ==> #[trigger] self.in_use@[j] == old(
                        self).in_use_seq()[j]
                },
            decreases self.in_use@.len() - idx,
        {
            let ghost prev = self.in_use@;
            let ghost prev_free = self.free@;
            let item = self.in_use.swap_remove(idx);
            let ghost item0 = item;
            let ret = func(item);
            let mut kept = ret.0;
            let ghost kept0 = kept;
            proof {
                assert(old(self).in_use_seq().contains(item0));
            }
            match ret.1 {
                PoolRemoval::Remove => {
                    // The last in-use object now sits in the vacated slot and
                    // is visited next at the same index.
                    self.free.push(kept);
                    proof {
                        broadcast use vstd::seq_lib::group_to_multiset_ensures;
                        broadcast use vstd::multiset::group_multiset_axioms;

                        assert(call_ensures(func, (item0,), (kept0, PoolRemoval::Remove)));
                        assert(run_removes(func, old(self).in_use_seq(), kept0));
                        assert(forall|j: int| 0 <= j < idx ==> self.in_use@[j] == prev[j]);
                        assert(forall|j: int|
                            0 <= j < prev_free.len() ==> self.free@[j] == prev_free[j]);
                        assert(old(self).free_seq().is_prefix_of(self.free@));

                        removed_src = removed_src.push(item0);
                        assert(self.free@[k + removed_src.len() - 1] == kept0);
                        lemma_skip_head_to_multiset(prev, idx as int);
                        lemma_swap_remove_tail_to_multiset(prev, idx as int);
                        assert(kept_src.to_multiset().add(removed_src.to_multiset()).add(
                            self.in_use@.skip(idx as int).to_multiset(),
                        ) =~= old(self).in_use_seq().to_multiset());
                    }
                }
                PoolRemoval::Keep => {
                    // Put the result back where the visited object sat,
                    // returning the swapped-in object to the end.
                    if idx < self.in_use.len() {
                        self.in_use.set_and_swap(idx, &mut kept);
                        self.in_use.push(kept);
                    } else {
                        self.in_use.push(kept);
                    }
                    proof {
                        broadcast use vstd::seq_lib::group_to_multiset_ensures;
                        broadcast use vstd::multiset::group_multiset_axioms;

                        assert(call_ensures(func, (item0,), (kept0, PoolRemoval::Keep)));
                        assert(run_keeps(func, old(self).in_use_seq(), kept0));
                        assert(self.in_use@ =~= prev.update(idx as int, kept0));
                        if self.free@.len() == old(self).free_seq().len() {
                            assert(item0 == old(self).in_use_seq()[idx as int]);
                        }

                        kept_src = kept_src.push(item0);
                        assert(self.in_use@[idx as int] == kept0);
                        lemma_skip_head_to_multiset(prev, idx as int);
                        assert(self.in_use@.skip(idx as int + 1) =~= prev.skip(idx as int + 1));
                        assert(kept_src.to_multiset().add(removed_src.to_multiset()).add(
                            self.in_use@.skip(idx as int + 1).to_multiset(),
                        ) =~= old(self).in_use_seq().to_multiset());
                    }
                    idx += 1;
                }
            }
        }
        proof {
            broadcast use vstd::seq_lib::group_to_multiset_ensures;
            broadcast use vstd::multiset::group_multiset_axioms;

            lemma_empty_to_multiset::<T>();
            assert(self.in_use@.skip(idx as int) =~= Seq::<T>::empty());
            assert(kept_src.to_multiset().add(removed_src.to_multiset()) =~= old(
                self,
            ).in_use_seq().to_multiset());
            assert(run_scan_account(
                func,
                old(self).in_use_seq(),
                k,
                self.in_use@,
                self.free@,
                kept_src,
                removed_src,
            ));
        }
    }

    /// Run a function for each in-use object, with read access to all the
    /// other in-use objects, and return expired objects to the pool.
    ///
    /// The visitation and removal policy is the same as [`Pool::run`]; the
    /// slice passed to `func` holds every other in-use object, the ones
    /// before the visited one first, then the ones after it. Keeping the
    /// neighbor slice in allocation order costs a shifting removal here
    /// rather than `run`'s constant-time swap. The contract carries the same
    /// exact account of the scan as `run` ([`run_ref_scan_account`]).
    pub fn run_ref<F: Fn(T, &[T]) -> (T, PoolRemoval)>(&mut self, func: F)
        requires
            forall|t: T, rest: &[T]| call_requires(func, (t, rest)),
        ensures
            final(self).capacity() == old(self).capacity(),
            old(self).free_seq().is_prefix_of(final(self).free_seq()),
            final(self).in_use_seq().len() == old(self).in_use_seq().len() - (
            final(self).free_seq().len() - old(self).free_seq().len()),
            forall|j: int|
                old(self).free_seq().len() <= j < final(self).free_seq().len()
                    ==> run_ref_removes(
                    func,
                    old(self).in_use_seq(),
                    #[trigger] final(self).free_seq()[j],
                ),
            forall|j: int|
                0 <= j < final(self).in_use_seq().len() ==> run_ref_keeps(
                    func,
                    old(self).in_use_seq(),
                    #[trigger] final(self).in_use_seq()[j],
                ),
            final(self).free_seq().len() == old(self).free_seq().len() ==> {
                &&& final(self).in_use_seq().len() == old(self).in_use_seq().len()
                &&& forall|j: int|
                    0 <= j < old(self).in_use_seq().len() ==> run_ref_keep_of(
                        func,
                        old(self).in_use_seq()[j],
                        #[trigger] final(self).in_use_seq()[j],
                    )
            },
            exists|kept_src: Seq<T>, removed_src: Seq<T>|
                run_ref_scan_account(
                    func,
                    old(self).in_use_seq(),
                    old(self).free_seq().len() as int,
                    final(self).in_use_seq(),
                    final(self).free_seq(),
                    kept_src,
                    removed_src,
                ),
    {
        let ghost k = old(self).free_seq().len() as int;
        let ghost mut kept_src: Seq<T> = Seq::empty();
        let ghost mut removed_src: Seq<T> = Seq::empty();
        let mut idx: usize = 0;
        proof {
            broadcast use vstd::seq_lib::group_to_multiset_ensures;
            broadcast use vstd::multiset::group_multiset_axioms;

            assert forall|j: int|
                0 <= j < self.in_use@.len() implies old(self).in_use_seq().contains(
                #[trigger] self.in_use@[j]) by {
                assert(old(self).in_use_seq()[j] == self.in_use@[j]);
            }
            lemma_empty_to_multiset::<T>();
            assert(self.in_use@.skip(0) =~= self.in_use@);
            assert(kept_src.to_multiset().add(removed_src.to_multiset()).add(
                self.in_use@.skip(0).to_multiset(),
            ) =~= old(self).in_use_seq().to_multiset());
        }
        while idx < self.in_use.len()
            invariant
                forall|t: T, rest: &[T]| call_requires(func, (t, rest)),
                idx <= self.in_use@.len(),
                k == old(self).free_seq().len() as int,
                kept_src.len() == idx,
                k + removed_src.len() == self.free@.len(),
                forall|j: int|
                    0 <= j < idx ==> run_ref_keep_of(
                        func,
                        #[trigger] kept_src[j],
                        self.in_use@[j],
                    ),
                forall|j: int|
                    0 <= j < removed_src.len() ==> run_ref_remove_of(
                        func,
                        #[trigger] removed_src[j],
                        self.free@[k + j],
                    ),
                kept_src.to_multiset().add(removed_src.to_multiset()).add(
                    self.in_use@.skip(idx as int).to_multiset(),
                ) == old(self).in_use_seq().to_multiset(),
                self.free@.len() + self.in_use@.len() == old(self).capacity(),
                old(self).free_seq().is_prefix_of(self.free@),
                forall|j: int|
                    old(self).free_seq().len() <= j < self.free@.len() ==> run_ref_removes(
                        func,
                        old(self).in_use_seq(),
                        #[trigger] self.free@[j],
                    ),
                forall|j: int|
                    0 <= j < idx ==> run_ref_keeps(
                        func,
                        old(self).in_use_seq(),
                        #[trigger] self.in_use@[j],
                    ),
                forall|j: int|
                    idx <= j < self.in_use@.len() ==> old(self).in_use_seq().contains(
                        #[trigger] self.in_use@[j],
                    ),
                self.free@.len() == old(self).free_seq().len() ==> {
                    &&& self.in_use@.len() == old(self).in_use_seq().len()
                    &&& forall|j: int|
                        0 <= j < idx ==> run_ref_keep_of(
                            func,
                            old(self).in_use_seq()[j],
                            #[trigger] self.in_use@[j],
                        )
                    &&& forall|j: int|
                        idx <= j < self.in_use@.len() ==> #[trigger] self.in_use@[j] == old(
                        self).in_use_seq()[j]
                },
            decreases self.in_use@.len() - idx,
        {
            let ghost prev = self.in_use@;
            let ghost prev_free = self.free@;
            let item = self.in_use.remove(idx);
            let ghost item0 = item;
            let ret = func(item, self.in_use.as_slice());
            let new_item = ret.0;
            proof {
                assert(old(self).in_use_seq().contains(item0));
            }
            match ret.1 {
                PoolRemoval::Remove => {
                    if idx < self.in_use.len() {
                        let last = match self.in_use.pop() {
                            Some(last) => last,
                            None => vstd::pervasive::unreached(),
                        };
                        self.in_use.insert(idx, last);
                    }
                    self.free.push(new_item);
                    proof {
                        broadcast use vstd::seq_lib::group_to_multiset_ensures;
                        broadcast use vstd::multiset::group_multiset_axioms;

                        assert(run_ref_removes(func, old(self).in_use_seq(), new_item));
                        assert(run_ref_remove_of(func, item0, new_item));
                        assert(forall|j: int| 0 <= j < idx ==> self.in_use@[j] == prev[j]);
                        assert forall|j: int|
                            idx <= j < self.in_use@.len() implies old(self).in_use_seq().contains(
                            #[trigger] self.in_use@[j]) by {
                            if j == idx && idx < prev.len() - 1 {
                                assert(self.in_use@[j] == prev[prev.len() - 1]);
                            } else {
                                assert(self.in_use@[j] == prev[j]);
                            }
                        }
                        assert(forall|j: int|
                            0 <= j < prev_free.len() ==> self.free@[j] == prev_free[j]);
                        assert(old(self).free_seq().is_prefix_of(self.free@));

                        removed_src = removed_src.push(item0);
                        assert(self.free@[k + removed_src.len() - 1] == new_item);
                        assert(self.in_use@ =~= prev.update(idx as int, prev.last()).drop_last());
                        lemma_skip_head_to_multiset(prev, idx as int);
                        lemma_swap_remove_tail_to_multiset(prev, idx as int);
                        assert(kept_src.to_multiset().add(removed_src.to_multiset()).add(
                            self.in_use@.skip(idx as int).to_multiset(),
                        ) =~= old(self).in_use_seq().to_multiset());
                    }
                }
                PoolRemoval::Keep => {
                    self.in_use.insert(idx, new_item);
                    proof {
                        broadcast use vstd::seq_lib::group_to_multiset_ensures;
                        broadcast use vstd::multiset::group_multiset_axioms;

                        assert(run_ref_keeps(func, old(self).in_use_seq(), new_item));
                        assert(run_ref_keep_of(func, item0, new_item));
                        assert(forall|j: int| 0 <= j < idx ==> self.in_use@[j] == prev[j]);
                        assert(forall|j: int|
                            idx < j < prev.len() ==> self.in_use@[j] == prev[j]);
                        assert(self.in_use@[idx as int] == new_item);
                        if self.free@.len() == old(self).free_seq().len() {
                            assert(item0 == old(self).in_use_seq()[idx as int]);
                        }

                        kept_src = kept_src.push(item0);
                        assert(self.in_use@ =~= prev.update(idx as int, new_item));
                        lemma_skip_head_to_multiset(prev, idx as int);
                        assert(self.in_use@.skip(idx as int + 1) =~= prev.skip(idx as int + 1));
                        assert(kept_src.to_multiset().add(removed_src.to_multiset()).add(
                            self.in_use@.skip(idx as int + 1).to_multiset(),
                        ) =~= old(self).in_use_seq().to_multiset());
                    }
                    idx += 1;
                }
            }
        }
        proof {
            broadcast use vstd::seq_lib::group_to_multiset_ensures;
            broadcast use vstd::multiset::group_multiset_axioms;

            lemma_empty_to_multiset::<T>();
            assert(self.in_use@.skip(idx as int) =~= Seq::<T>::empty());
            assert(kept_src.to_multiset().add(removed_src.to_multiset()) =~= old(
                self,
            ).in_use_seq().to_multiset());
            assert(run_ref_scan_account(
                func,
                old(self).in_use_seq(),
                k,
                self.in_use@,
                self.free@,
                kept_src,
                removed_src,
            ));
        }
    }

    /// Expire objects which may be returned to the pool.
    ///
    /// A read-only variant of the removal scan: each in-use object is tested
    /// in place, and on `Remove` is evicted by swap-with-last, with the
    /// swapped-in object visited at the same index. Objects move untouched:
    /// the survivors plus the newly freed objects are, as a multiset,
    /// exactly the objects that were live when the scan began, and a scan
    /// that evicts nothing leaves the live objects exactly as they were.
    pub fn expire<F: Fn(&T) -> PoolRemoval>(&mut self, pred: F)
        requires
            forall|t: &T| call_requires(pred, (t,)),
        ensures
            final(self).capacity() == old(self).capacity(),
            old(self).free_seq().is_prefix_of(final(self).free_seq()),
            final(self).in_use_seq().len() == old(self).in_use_seq().len() - (
            final(self).free_seq().len() - old(self).free_seq().len()),
            forall|j: int|
                old(self).free_seq().len() <= j < final(self).free_seq().len()
                    ==> expire_removes(pred, #[trigger] final(self).free_seq()[j]),
            forall|j: int|
                0 <= j < final(self).in_use_seq().len()
                    ==> expire_keeps(pred, #[trigger] final(self).in_use_seq()[j]),
            forall|j: int|
                old(self).free_seq().len() <= j < final(self).free_seq().len() ==> old(
                self).in_use_seq().contains(#[trigger] final(self).free_seq()[j]),
            forall|j: int|
                0 <= j < final(self).in_use_seq().len() ==> old(self).in_use_seq().contains(
                #[trigger] final(self).in_use_seq()[j]),
            final(self).free_seq().len() == old(self).free_seq().len() ==> final(
            self).in_use_seq() == old(self).in_use_seq(),
            old(self).in_use_seq().to_multiset() == final(self).in_use_seq().to_multiset().add(
                final(self).free_seq().skip(old(self).free_seq().len() as int).to_multiset(),
            ),
    {
        let ghost k = old(self).free_seq().len() as int;
        let mut idx: usize = 0;
        proof {
            broadcast use vstd::seq_lib::group_to_multiset_ensures;
            broadcast use vstd::multiset::group_multiset_axioms;

            assert(self.free@.skip(k) =~= Seq::<T>::empty());
            assert forall|a: T| Seq::<T>::empty().to_multiset().count(a) == 0 by {
                assert(!Seq::<T>::empty().contains(a));
            }
            assert(old(self).in_use_seq().to_multiset() =~= self.in_use@.to_multiset().add(
                self.free@.skip(k).to_multiset(),
            ));
        }
        while idx < self.in_use.len()
            invariant
                forall|t: &T| call_requires(pred, (t,)),
                idx <= self.in_use@.len(),
                self.free@.len() + self.in_use@.len() == old(self).capacity(),
                old(self).free_seq().is_prefix_of(self.free@),
                forall|j: int|
                    old(self).free_seq().len() <= j < self.free@.len()
                        ==> expire_removes(pred, #[trigger] self.free@[j]),
                forall|j: int| 0 <= j < idx ==> expire_keeps(pred, #[trigger] self.in_use@[j]),
                forall|j: int|
                    old(self).free_seq().len() <= j < self.free@.len() ==> old(
                    self).in_use_seq().contains(#[trigger] self.free@[j]),
                forall|j: int|
                    0 <= j < self.in_use@.len() ==> old(self).in_use_seq().contains(
                    #[trigger] self.in_use@[j]),
                k == old(self).free_seq().len() as int,
                self.free@.len() == old(self).free_seq().len() ==> self.in_use@ == old(
                self).in_use_seq(),
                old(self).in_use_seq().to_multiset() == self.in_use@.to_multiset().add(
                    self.free@.skip(k).to_multiset(),
                ),
            decreases self.in_use@.len() - idx,
        {
            let ghost prev = self.in_use@;
            let ghost prev_free = self.free@;
            let status = pred(&self.in_use[idx]);
            match status {
                PoolRemoval::Remove => {
                    let item = self.in_use.swap_remove(idx);
                    let ghost item0 = item;
                    self.free.push(item);
                    proof {
                        broadcast use vstd::seq_lib::group_to_multiset_ensures;
                        broadcast use vstd::multiset::group_multiset_axioms;

                        assert(expire_removes(pred, item0));
                        assert(forall|j: int| 0 <= j < idx ==> self.in_use@[j] == prev[j]);
                        assert(forall|j: int|
                            0 <= j < prev_free.len() ==> self.free@[j] == prev_free[j]);
                        assert(old(self).free_seq().is_prefix_of(self.free@));

                        let last = prev.last();
                        let u = prev.update(idx as int, last);
                        assert(self.in_use@ =~= u.remove(u.len() - 1));
                        assert(u.to_multiset() == prev.to_multiset().insert(last).remove(
                            prev[idx as int],
                        ));
                        assert(self.in_use@.to_multiset() == u.to_multiset().remove(last));
                        assert(prev.to_multiset().count(prev[idx as int]) > 0) by {
                            assert(prev.contains(prev[idx as int]));
                        }
                        assert(self.in_use@.to_multiset() =~= prev.to_multiset().remove(item0));
                        assert(k <= prev_free.len());
                        assert forall|j: int|
                            0 <= j < self.free@.skip(k).len() implies self.free@.skip(k)[j]
                            == prev_free.skip(k).push(item0)[j] by {
                            assert(self.free@.skip(k)[j] == self.free@[k + j]);
                            if k + j < prev_free.len() {
                                assert(prev_free.skip(k)[j] == prev_free[k + j]);
                            }
                        }
                        assert(self.free@.skip(k) =~= prev_free.skip(k).push(item0));
                        assert(self.free@.skip(k).to_multiset() == prev_free.skip(
                            k,
                        ).to_multiset().insert(item0));
                        assert(old(self).in_use_seq().to_multiset() =~= self.in_use@.to_multiset().add(
                            self.free@.skip(k).to_multiset(),
                        ));
                    }
                }
                PoolRemoval::Keep => {
                    proof {
                        assert(expire_keeps(pred, prev[idx as int]));
                    }
                    idx += 1;
                }
            }
        }
    }
}

/// A value the scan of [`Pool::run`] could have kept: the output of `func`,
/// together with `Keep`, on one of the elements the pool held when the scan
/// began.
pub open spec fn run_keeps<T, F: Fn(T) -> (T, PoolRemoval)>(
    func: F,
    source: Seq<T>,
    v: T,
) -> bool {
    exists|x: T| source.contains(x) && call_ensures(func, (x,), (v, PoolRemoval::Keep))
}

/// A value the scan of [`Pool::run`] could have evicted: the output of
/// `func`, together with `Remove`, on one of the elements the pool held when
/// the scan began.
pub open spec fn run_removes<T, F: Fn(T) -> (T, PoolRemoval)>(
    func: F,
    source: Seq<T>,
    v: T,
) -> bool {
    exists|x: T| source.contains(x) && call_ensures(func, (x,), (v, PoolRemoval::Remove))
}

/// A value the scan of [`Pool::run_ref`] could have kept: the output of
/// `func`, together with `Keep`, on one of the elements the pool held when
/// the scan began.
pub open spec fn run_ref_keeps<T, F: Fn(T, &[T]) -> (T, PoolRemoval)>(
    func: F,
    source: Seq<T>,
    v: T,
) -> bool {
    exists|x: T, rest: &[T]|
        source.contains(x) && call_ensures(func, (x, rest), (v, PoolRemoval::Keep))
}

/// The output of `func`, together with `Keep`, on the given input element
/// and some neighbor slice, during [`Pool::run_ref`].
pub open spec fn run_ref_keep_of<T, F: Fn(T, &[T]) -> (T, PoolRemoval)>(
    func: F,
    x: T,
    v: T,
) -> bool {
    exists|rest: &[T]| call_ensures(func, (x, rest), (v, PoolRemoval::Keep))
}

/// The output of `func`, together with `Remove`, on the given input element
/// and some neighbor slice, during [`Pool::run_ref`].
pub open spec fn run_ref_remove_of<T, F: Fn(T, &[T]) -> (T, PoolRemoval)>(
    func: F,
    x: T,
    v: T,
) -> bool {
    exists|rest: &[T]| call_ensures(func, (x, rest), (v, PoolRemoval::Remove))
}

/// A value the scan of [`Pool::run_ref`] could have evicted: the output of
/// `func`, together with `Remove`, on one of the elements the pool held when
/// the scan began.
pub open spec fn run_ref_removes<T, F: Fn(T, &[T]) -> (T, PoolRemoval)>(
    func: F,
    source: Seq<T>,
    v: T,
) -> bool {
    exists|x: T, rest: &[T]|
        source.contains(x) && call_ensures(func, (x, rest), (v, PoolRemoval::Remove))
}

/// `pred` answers `Keep` for this value during [`Pool::expire`].
pub open spec fn expire_keeps<T, F: Fn(&T) -> PoolRemoval>(pred: F, v: T) -> bool {
    exists|x: &T| *x == v && call_ensures(pred, (x,), PoolRemoval::Keep)
}

/// `pred` answers `Remove` for this value during [`Pool::expire`].
pub open spec fn expire_removes<T, F: Fn(&T) -> PoolRemoval>(pred: F, v: T) -> bool {
    exists|x: &T| *x == v && call_ensures(pred, (x,), PoolRemoval::Remove)
}

/// The empty sequence carries the empty multiset.
proof fn lemma_empty_to_multiset<A>()
    ensures
        Seq::<A>::empty().to_multiset() == Multiset::<A>::empty(),
{
    broadcast use vstd::seq_lib::group_to_multiset_ensures;
    broadcast use vstd::multiset::group_multiset_axioms;

    assert forall|a: A| Seq::<A>::empty().to_multiset().count(a) == 0 by {
        assert(!Seq::<A>::empty().contains(a));
    }
    assert(Seq::<A>::empty().to_multiset() =~= Multiset::<A>::empty());
}

/// A one-element sequence carries the one-element multiset.
proof fn lemma_singleton_to_multiset<A>(x: A)
    ensures
        seq![x].to_multiset() == Multiset::<A>::empty().insert(x),
{
    broadcast use vstd::seq_lib::group_to_multiset_ensures;

    lemma_empty_to_multiset::<A>();
    assert(seq![x] =~= Seq::<A>::empty().push(x));
}

/// Splitting off the head of a suffix: the multiset of `s[i..]` is the
/// multiset of `s[i + 1..]` plus `s[i]`.
proof fn lemma_skip_head_to_multiset<A>(s: Seq<A>, i: int)
    requires
        0 <= i < s.len(),
    ensures
        s.skip(i).to_multiset() == s.skip(i + 1).to_multiset().insert(s[i]),
{
    broadcast use vstd::seq_lib::group_to_multiset_ensures;
    broadcast use vstd::multiset::group_multiset_axioms;

    assert(s.skip(i) =~= seq![s[i]] + s.skip(i + 1));
    vstd::seq_lib::lemma_multiset_commutative(seq![s[i]], s.skip(i + 1));
    lemma_singleton_to_multiset(s[i]);
    assert(s.skip(i).to_multiset() =~= s.skip(i + 1).to_multiset().insert(s[i]));
}

/// Removing the slot `i` by swap-with-last leaves the not-yet-visited
/// suffix with the same contents: the last element merely moved forward.
proof fn lemma_swap_remove_tail_to_multiset<A>(s: Seq<A>, i: int)
    requires
        0 <= i < s.len(),
    ensures
        s.update(i, s.last()).drop_last().skip(i).to_multiset() == s.skip(i + 1).to_multiset(),
{
    broadcast use vstd::seq_lib::group_to_multiset_ensures;
    broadcast use vstd::multiset::group_multiset_axioms;

    let t = s.update(i, s.last()).drop_last();
    if i < s.len() - 1 {
        assert(t.skip(i) =~= seq![s.last()] + s.subrange(i + 1, s.len() - 1));
        assert(s.skip(i + 1) =~= s.subrange(i + 1, s.len() - 1) + seq![s.last()]);
        vstd::seq_lib::lemma_multiset_commutative(seq![s.last()], s.subrange(i + 1, s.len() - 1));
        vstd::seq_lib::lemma_multiset_commutative(s.subrange(i + 1, s.len() - 1), seq![s.last()]);
        lemma_singleton_to_multiset(s.last());
        assert(t.skip(i).to_multiset() =~= s.skip(i + 1).to_multiset());
    } else {
        assert(t.skip(i) =~= Seq::<A>::empty());
        assert(s.skip(i + 1) =~= Seq::<A>::empty());
    }
}

/// An exact account of one [`Pool::run`] scan. `kept_src` and `removed_src`
/// list the objects the scan fed to `func`, split by its decision: together
/// they are exactly the objects that were live when the scan began — each
/// visited once — slot `j` of the final live sequence holds `func`'s output
/// on `kept_src[j]`, and the `j`-th newly freed value holds the output on
/// `removed_src[j]`, in eviction order.
pub open spec fn run_scan_account<T, F: Fn(T) -> (T, PoolRemoval)>(
    func: F,
    old_in_use: Seq<T>,
    old_free_len: int,
    fin_in_use: Seq<T>,
    fin_free: Seq<T>,
    kept_src: Seq<T>,
    removed_src: Seq<T>,
) -> bool {
    &&& kept_src.to_multiset().add(removed_src.to_multiset()) == old_in_use.to_multiset()
    &&& kept_src.len() == fin_in_use.len()
    &&& old_free_len + removed_src.len() == fin_free.len()
    &&& forall|j: int|
        0 <= j < kept_src.len() ==> call_ensures(
            func,
            (#[trigger] kept_src[j],),
            (fin_in_use[j], PoolRemoval::Keep),
        )
    &&& forall|j: int|
        0 <= j < removed_src.len() ==> call_ensures(
            func,
            (#[trigger] removed_src[j],),
            (fin_free[old_free_len + j], PoolRemoval::Remove),
        )
}

/// An exact account of one [`Pool::run_ref`] scan, with the same reading as
/// [`run_scan_account`]; the neighbor slice each call saw is existential.
pub open spec fn run_ref_scan_account<T, F: Fn(T, &[T]) -> (T, PoolRemoval)>(
    func: F,
    old_in_use: Seq<T>,
    old_free_len: int,
    fin_in_use: Seq<T>,
    fin_free: Seq<T>,
    kept_src: Seq<T>,
    removed_src: Seq<T>,
) -> bool {
    &&& kept_src.to_multiset().add(removed_src.to_multiset()) == old_in_use.to_multiset()
    &&& kept_src.len() == fin_in_use.len()
    &&& old_free_len + removed_src.len() == fin_free.len()
    &&& forall|j: int|
        0 <= j < kept_src.len() ==> run_ref_keep_of(func, #[trigger] kept_src[j], fin_in_use[j])
    &&& forall|j: int|
        0 <= j < removed_src.len() ==> run_ref_remove_of(
            func,
            #[trigger] removed_src[j],
            fin_free[old_free_len + j],
        )
}

/// Helper for the exhaustion laws: along a chain of `get` transitions from a
/// pool with `n` free and no in-use slots, the first `k` calls all succeed,
/// and after them exactly `k` slots are in use and `n - k` remain free.
proof fn lemma_get_trace_prefix<T>(
    free_trace: Seq<Seq<T>>,
    in_use_trace: Seq<Seq<T>>,
    got: Seq<bool>,
    n: nat,
    k: nat,
)
    requires
        k <= n,
        free_trace.len() >= k + 1,
        in_use_trace.len() >= k + 1,
        got.len() >= k,
        free_trace[0].len() == n,
        in_use_trace[0].len() == 0,
        forall|j: int|
            0 <= j < k ==> #[trigger] get_post(
                free_trace[j],
                in_use_trace[j],
                free_trace[j + 1],
                in_use_trace[j + 1],
                got[j],
            ),
    ensures
        free_trace[k as int].len() == n - k,
        in_use_trace[k as int].len() == k,
        forall|j: int| 0 <= j < k ==> got[j],
    decreases k,
{
    if k > 0 {
        lemma_get_trace_prefix(free_trace, in_use_trace, got, n, (k - 1) as nat);
        assert(get_post(
            free_trace[k - 1],
            in_use_trace[k - 1],
            free_trace[k - 1 + 1],
            in_use_trace[k - 1 + 1],
            got[k - 1],
        ));
    }
}

/// Law: from a freshly constructed pool of capacity `n`, a chain of `get`
/// calls succeeds exactly `n` times. Each success fills a distinct new
/// `in_use` slot — after the `k`-th success exactly `k` slots are live — and
/// the call after the `n`-th reports nothing available.
///
/// The chain is given as the pool's two views before and after each call,
/// linked by [`get_post`], the transition that [`Pool::get`] ensures.
pub proof fn lemma_gets_exhaust_capacity<T>(
    free_trace: Seq<Seq<T>>,
    in_use_trace: Seq<Seq<T>>,
    got: Seq<bool>,
    n: nat,
)
    requires
        free_trace.len() == n + 2,
        in_use_trace.len() == n + 2,
        got.len() == n + 1,
        free_trace[0].len() == n,
        in_use_trace[0].len() == 0,
        forall|j: int|
            0 <= j <= n ==> #[trigger] get_post(
                free_trace[j],
                in_use_trace[j],
                free_trace[j + 1],
                in_use_trace[j + 1],
                got[j],
            ),
    ensures
        forall|j: int| 0 <= j < n ==> got[j],
        forall|k: int| 0 <= k <= n ==> #[trigger] in_use_trace[k].len() == k,
        !got[n as int],
{
    assert forall|k: int| 0 <= k <= n implies #[trigger] in_use_trace[k].len() == k by {
        lemma_get_trace_prefix(free_trace, in_use_trace, got, n, k as nat);
    }
    lemma_get_trace_prefix(free_trace, in_use_trace, got, n, n);
    assert(get_post(
        free_trace[n as int],
        in_use_trace[n as int],
        free_trace[n as int + 1],
        in_use_trace[n as int + 1],
        got[n as int],
    ));
}

/// Law: `clear` followed by `n` `get` calls succeeds exactly `n` times on a
/// pool of capacity `n`, regardless of the allocation history before the
/// `clear`: clearing any split of the `n` slots leaves all of them free, so
/// the chain of `get` calls behaves as on a fresh pool.
pub proof fn lemma_clear_then_gets_exhaust<T>(
    pre_free: Seq<T>,
    pre_in_use: Seq<T>,
    free_trace: Seq<Seq<T>>,
    in_use_trace: Seq<Seq<T>>,
    got: Seq<bool>,
    n: nat,
)
    requires
        pre_free.len() + pre_in_use.len() == n,
        free_trace.len() == n + 2,
        in_use_trace.len() == n + 2,
        got.len() == n + 1,
        free_trace[0] == pre_free + pre_in_use,
        in_use_trace[0].len() == 0,
        forall|j: int|
            0 <= j <= n ==> #[trigger] get_post(
                free_trace[j],
                in_use_trace[j],
                free_trace[j + 1],
                in_use_trace[j + 1],
                got[j],
            ),
    ensures
        forall|j: int| 0 <= j < n ==> got[j],
        !got[n as int],
{
    lemma_gets_exhaust_capacity(free_trace, in_use_trace, got, n);
}

} // verus!

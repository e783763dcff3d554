//! Dataset replay bookkeeping: the order in which a recorded scan is replayed
//! on each frame, and the bounded trail of past vehicle positions.
use vstd::prelude::*;

use std::collections::VecDeque;

verus! {

/// How many past positions the trail keeps.
pub const TRAIL_CAPACITY: usize = 2048;

/// The last `n` elements of `s`, or all of them when there are fewer.
pub open spec fn keep_last<T>(s: Seq<T>, n: nat) -> Seq<T> {
    if s.len() > n {
        s.skip(s.len() - n)
    } else {
        s
    }
}

/// The positions of the vehicle, oldest first, bounded by `TRAIL_CAPACITY`.
pub struct Trail<T> {
    entries: VecDeque<T>,
}

impl<T> View for Trail<T> {
    type V = Seq<T>;

    closed spec fn view(&self) -> Seq<T> {
        self.entries@
    }
}

impl<T> Trail<T> {
    #[verifier::type_invariant]
    spec fn bounded(&self) -> bool {
        self.entries@.len() <= TRAIL_CAPACITY
    }

    /// An empty trail.
    pub fn new() -> (t: Self)
        ensures
            t@ == Seq::<T>::empty(),
    {
        Trail { entries: VecDeque::with_capacity(TRAIL_CAPACITY) }
    }

    /// Appends `p`, dropping the oldest position when the trail is over capacity.
    pub fn push(&mut self, p: T)
        ensures
            final(self)@ == keep_last(old(self)@.push(p), TRAIL_CAPACITY as nat),
    {
        proof {
            use_type_invariant(&*self);
        }
        let mut entries: VecDeque<T> = VecDeque::new();
        std::mem::swap(&mut entries, &mut self.entries);
        let ghost before = entries@;
        entries.push_back(p);
        if entries.len() > TRAIL_CAPACITY {
            let _ = entries.pop_front();
            assert(entries@ =~= keep_last(before.push(p), TRAIL_CAPACITY as nat));
        }
        self.entries = entries;
    }

    /// Forgets every position.
    pub fn clear(&mut self)
        ensures
            final(self)@ == Seq::<T>::empty(),
    {
        self.entries = VecDeque::new();
    }

    /// The number of positions held, never more than `TRAIL_CAPACITY`.
    pub fn len(&self) -> (n: usize)
        ensures
            n == self@.len(),
            n <= TRAIL_CAPACITY,
    {
        proof {
            use_type_invariant(self);
        }
        self.entries.len()
    }

    /// The `i`-th oldest position.
    pub fn get(&self, i: usize) -> (p: &T)
        requires
            i < self@.len(),
        ensures
            *p == self@[i as int],
    {
        &self.entries[i]
    }
}

/// The trail after pushing `ps`, in order, onto `start`.
pub open spec fn trail_after<T>(start: Seq<T>, ps: Seq<T>) -> Seq<T>
    decreases ps.len(),
{
    if ps.len() == 0 {
        start
    } else {
        trail_after(keep_last(start.push(ps[0]), TRAIL_CAPACITY as nat), ps.drop_first())
    }
}

proof fn lemma_keep_last_push<T>(s: Seq<T>, p: T, n: nat)
    ensures
        keep_last(keep_last(s, n).push(p), n) == keep_last(s.push(p), n),
{
    assert(keep_last(keep_last(s, n).push(p), n) =~= keep_last(s.push(p), n));
}

proof fn lemma_keep_last_twice<T>(s: Seq<T>, n: nat)
    ensures
        keep_last(keep_last(s, n), n) == keep_last(s, n),
{
    assert(keep_last(keep_last(s, n), n) =~= keep_last(s, n));
}

proof fn lemma_trail_after<T>(start: Seq<T>, ps: Seq<T>)
    ensures
        trail_after(keep_last(start, TRAIL_CAPACITY as nat), ps) == keep_last(
            start + ps,
            TRAIL_CAPACITY as nat,
        ),
    decreases ps.len(),
{
    let n = TRAIL_CAPACITY as nat;
    if ps.len() == 0 {
        assert(start + ps =~= start);
        lemma_keep_last_twice(start, n);
    } else {
        lemma_keep_last_push(start, ps[0], n);
        lemma_trail_after(start.push(ps[0]), ps.drop_first());
        lemma_keep_last_twice(start.push(ps[0]), n);
        assert(start.push(ps[0]) + ps.drop_first() =~= start + ps);
    }
}

/// Whatever was pushed, the trail holds exactly the latest `TRAIL_CAPACITY`
/// positions, oldest first.
pub proof fn law_trail_keeps_latest<T>(ps: Seq<T>)
    ensures
        trail_after(Seq::<T>::empty(), ps) == keep_last(ps, TRAIL_CAPACITY as nat),
{
    lemma_trail_after(Seq::<T>::empty(), ps);
    assert(Seq::<T>::empty() + ps =~= ps);
    assert(keep_last(Seq::<T>::empty(), TRAIL_CAPACITY as nat) =~= Seq::<T>::empty());
}

/// The dataset index replayed in position `i` of a frame that starts at `offset`.
pub open spec fn replay_index(offset: int, len: int, i: int) -> int {
    (offset + i) % len
}

/// The order in which a dataset of `len` points is replayed when the frame
/// starts at `offset`: the dataset rotated left by `offset`.
pub fn replay_order(len: usize, offset: usize) -> (order: Vec<usize>)
    ensures
        order@.len() == len,
        forall|i: int| 0 <= i < len ==> order@[i] == replay_index(offset as int, len as int, i),
{
    let mut order: Vec<usize> = Vec::with_capacity(len);
    if len == 0 {
        return order;
    }
    let start = offset % len;
    let mut i: usize = 0;
    while i < len
        invariant
            i <= len,
            0 < len,
            start == offset % len,
            order@.len() == i,
            forall|j: int| 0 <= j < i ==> order@[j] == replay_index(offset as int, len as int, j),
        decreases len - i,
    {
        let k = if i < len - start {
            start + i
        } else {
            i - (len - start)
        };
        proof {
            lemma_rotation_value(start as int, len as int, i as int);
            lemma_mod_shift(offset as int, len as int, i as int);
        }
        order.push(k);
        i = i + 1;
    }
    order
}

proof fn lemma_mod_shift(offset: int, len: int, i: int)
    requires
        0 < len,
        0 <= offset,
        0 <= i,
    ensures
        replay_index(offset, len, i) == replay_index(offset % len, len, i),
{
    vstd::arithmetic::div_mod::lemma_add_mod_noop(offset, i, len);
    vstd::arithmetic::div_mod::lemma_add_mod_noop(offset % len, i, len);
    vstd::arithmetic::div_mod::lemma_mod_twice(offset, len);
}

/// The offset at which the next frame starts.
pub fn next_replay_offset(offset: usize, len: usize) -> (next: usize)
    requires
        0 < len,
        offset < usize::MAX,
    ensures
        next == (offset + 1) % (len as int),
{
    let start = offset % len;
    proof {
        lemma_mod_shift(offset as int, len as int, 1);
    }
    if start + 1 == len {
        proof {
            vstd::arithmetic::div_mod::lemma_mod_self_0(len as int);
        }
        0
    } else {
        proof {
            vstd::arithmetic::div_mod::lemma_small_mod((start + 1) as nat, len as nat);
        }
        start + 1
    }
}

/// Each frame replays every point of the dataset exactly once.
pub proof fn law_replay_visits_each_once(offset: int, len: int, j: int)
    requires
        0 <= offset < len,
        0 <= j < len,
    ensures
        exists|i: int| 0 <= i < len && replay_index(offset, len, i) == j,
        forall|i1: int, i2: int|
            0 <= i1 < len && 0 <= i2 < len && replay_index(offset, len, i1) == j && replay_index(
                offset,
                len,
                i2,
            ) == j ==> i1 == i2,
{
    let i = if j >= offset {
        j - offset
    } else {
        len - offset + j
    };
    if j >= offset {
        vstd::arithmetic::div_mod::lemma_small_mod(j as nat, len as nat);
        assert(offset + i == j);
    } else {
        vstd::arithmetic::div_mod::lemma_mod_add_multiples_vanish(j, len);
        vstd::arithmetic::div_mod::lemma_small_mod(j as nat, len as nat);
        assert(offset + i == len + j);
    }
    assert(replay_index(offset, len, i) == j);
    assert forall|i1: int, i2: int|
        0 <= i1 < len && 0 <= i2 < len && replay_index(offset, len, i1) == j && replay_index(
            offset,
            len,
            i2,
        ) == j implies i1 == i2 by {
        lemma_rotation_value(offset, len, i1);
        lemma_rotation_value(offset, len, i2);
    }
}

proof fn lemma_rotation_value(offset: int, len: int, i: int)
    requires
        0 <= offset < len,
        0 <= i < len,
    ensures
        offset + i < len ==> replay_index(offset, len, i) == offset + i,
        offset + i >= len ==> replay_index(offset, len, i) == offset + i - len,
{
    if offset + i < len {
        vstd::arithmetic::div_mod::lemma_small_mod((offset + i) as nat, len as nat);
    } else {
        vstd::arithmetic::div_mod::lemma_mod_add_multiples_vanish(offset + i - len, len);
        vstd::arithmetic::div_mod::lemma_small_mod((offset + i - len) as nat, len as nat);
    }
}

/// The offset after `k` frames that started at `offset`.
pub open spec fn offset_after(offset: int, len: int, k: nat) -> int
    decreases k,
{
    if k == 0 {
        offset
    } else {
        (offset_after(offset, len, (k - 1) as nat) + 1) % len
    }
}

/// After `k` frames the replay has advanced by `k` modulo the dataset's length;
/// after `len` frames it is back where it started.
pub proof fn law_replay_offset_cycles(offset: int, len: int, k: nat)
    requires
        0 <= offset < len,
    ensures
        offset_after(offset, len, k) == (offset + k) % len,
        offset_after(offset, len, len as nat) == offset,
{
    lemma_offset_after(offset, len, k);
    lemma_offset_after(offset, len, len as nat);
    vstd::arithmetic::div_mod::lemma_mod_add_multiples_vanish(offset, len);
    vstd::arithmetic::div_mod::lemma_small_mod(offset as nat, len as nat);
}

proof fn lemma_offset_after(offset: int, len: int, k: nat)
    requires
        0 <= offset < len,
    ensures
        offset_after(offset, len, k) == (offset + k) % len,
    decreases k,
{
    if k == 0 {
        vstd::arithmetic::div_mod::lemma_small_mod(offset as nat, len as nat);
    } else {
        lemma_offset_after(offset, len, (k - 1) as nat);
        vstd::arithmetic::div_mod::lemma_add_mod_noop(offset + k - 1, 1, len);
        if len == 1 {
            vstd::arithmetic::div_mod::lemma_mod_self_0(1);
            assert((offset + k) % 1 == 0) by (nonlinear_arith);
            assert((offset_after(offset, len, (k - 1) as nat) + 1) % 1 == 0) by (nonlinear_arith);
        } else {
            vstd::arithmetic::div_mod::lemma_small_mod(1, len as nat);
            vstd::arithmetic::div_mod::lemma_mod_twice(offset + k - 1, len);
        }
    }
}

} // verus!

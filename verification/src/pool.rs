//! A pool of reusable plane buffers.

use vstd::prelude::*;

verus! {

/// Recycles the buffers that hold one frame's planes. The pool is a stack:
/// the buffer released last is the one handed out next.
pub struct VecPool {
    pool: Vec<Vec<u32>>,
}

impl View for VecPool {
    type V = Seq<Seq<u32>>;

    /// The pooled buffers, oldest first.
    closed spec fn view(&self) -> Seq<Seq<u32>> {
        Seq::new(self.pool@.len(), |i: int| self.pool@[i]@)
    }
}

/// A buffer of `n` zero elements.
pub open spec fn zeroed(n: nat) -> Seq<u32> {
    Seq::new(n, |i: int| 0u32)
}

/// What is left of a pool after `n` acquisitions: each takes the newest buffer
/// while there is one.
pub open spec fn after_acquires(pool: Seq<Seq<u32>>, n: nat) -> Seq<Seq<u32>> {
    if n >= pool.len() {
        Seq::empty()
    } else {
        pool.take(pool.len() - n)
    }
}

impl VecPool {
    /// An empty pool.
    pub fn new() -> (p: Self)
        ensures
            p@ == Seq::<Seq<u32>>::empty(),
    {
        let p = VecPool { pool: Vec::new() };
        assert(p@ =~= Seq::<Seq<u32>>::empty());
        p
    }

    /// Number of buffers that wait for reuse.
    pub fn len(&self) -> (n: usize)
        ensures
            n == self@.len(),
    {
        self.pool.len()
    }

    /// Hands out a buffer of exactly `capacity` zero elements. The newest pooled
    /// buffer is taken for it when there is one; the pool is otherwise untouched.
    pub fn acquire(&mut self, capacity: usize) -> (buf: Vec<u32>)
        ensures
            buf@ == zeroed(capacity as nat),
            final(self)@ == after_acquires(old(self)@, 1),
    {
        let buf = match self.pool.pop() {
            Some(mut vec) => {
                vec.clear();
                vec.resize(capacity, 0u32);
                vec
            },
            None => vec![0u32; capacity],
        };
        assert(buf@ =~= zeroed(capacity as nat));
        assert(self@ =~= after_acquires(old(self)@, 1));
        buf
    }

    /// Takes `vec` back for later reuse.
    pub fn release(&mut self, vec: Vec<u32>)
        ensures
            final(self)@ == old(self)@.push(vec@),
    {
        self.pool.push(vec);
        assert(self@ =~= old(self)@.push(vec@));
    }
}

impl Default for VecPool {
    fn default() -> (p: Self)
        ensures
            p@ == Seq::<Seq<u32>>::empty(),
    {
        VecPool::new()
    }
}

/// Round trip. A release makes the pool one buffer larger, an acquisition
/// from a pool that holds a buffer makes it one smaller, and an acquisition
/// right after a release takes the released buffer: the pool is as it was
/// before the two.
pub proof fn lemma_round_trip(pool: Seq<Seq<u32>>, buf: Seq<u32>)
    ensures
        pool.push(buf).len() == pool.len() + 1,
        pool.len() > 0 ==> after_acquires(pool, 1).len() == pool.len() - 1,
        after_acquires(pool.push(buf), 1) == pool,
{
    assert(after_acquires(pool.push(buf), 1) =~= pool);
}

/// Acquisitions add up: `a` of them and then `b` leave what `a + b` leave.
pub proof fn lemma_acquires_add(pool: Seq<Seq<u32>>, a: nat, b: nat)
    ensures
        after_acquires(after_acquires(pool, a), b) == after_acquires(pool, a + b),
{
    assert(after_acquires(after_acquires(pool, a), b) =~= after_acquires(pool, a + b));
}

} // verus!

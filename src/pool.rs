use vstd::prelude::*;

verus! {

/// What can go wrong when a buffer is handed to the display.
#[derive(Clone, Copy, Debug, PartialEq, Eq, Structural)]
pub enum AttachError {
    /// The buffer is still held by the display server.
    AlreadyInUse,
    /// No buffer of the pool has this index.
    NoSuchBuffer,
}

/// Index of the first buffer that is not in use, if any.
pub open spec fn first_free(s: Seq<bool>) -> Option<int>
    decreases s.len(),
{
    if s.len() == 0 {
        None
    } else {
        match first_free(s.drop_last()) {
            Some(i) => Some(i),
            None => if !s.last() {
                Some(s.len() - 1)
            } else {
                None
            },
        }
    }
}

/// Number of buffers marked in use.
pub open spec fn count_in_use(s: Seq<bool>) -> nat
    decreases s.len(),
{
    if s.len() == 0 {
        0
    } else {
        count_in_use(s.drop_last()) + if s.last() {
            1nat
        } else {
            0nat
        }
    }
}

/// The flags after buffer `i` is handed to the display: a buffer already in
/// use, or an index outside the pool, leaves them as they were.
pub open spec fn submit_spec(s: Seq<bool>, i: int) -> Seq<bool> {
    if 0 <= i < s.len() && !s[i] {
        s.update(i, true)
    } else {
        s
    }
}

/// The flags after the display server gives buffer `i` back: a buffer that is
/// not in use, or an index outside the pool, leaves them as they were.
pub open spec fn release_spec(s: Seq<bool>, i: int) -> Seq<bool> {
    if 0 <= i < s.len() && s[i] {
        s.update(i, false)
    } else {
        s
    }
}

pub open spec fn opt_index(r: Option<usize>) -> Option<int> {
    match r {
        Some(i) => Some(i as int),
        None => None,
    }
}

pub proof fn lemma_first_free(s: Seq<bool>)
    ensures
        match first_free(s) {
            Some(i) => 0 <= i < s.len() && !s[i] && forall|j: int| 0 <= j < i ==> s[j],
            None => forall|j: int| 0 <= j < s.len() ==> s[j],
        },
    decreases s.len(),
{
    if s.len() > 0 {
        let t = s.drop_last();
        lemma_first_free(t);
        assert forall|j: int| 0 <= j < t.len() implies t[j] == s[j] by {}
    }
}

pub proof fn lemma_count_in_use_bounded(s: Seq<bool>)
    ensures
        count_in_use(s) <= s.len(),
    decreases s.len(),
{
    if s.len() > 0 {
        lemma_count_in_use_bounded(s.drop_last());
    }
}

/// One change to the flags of a pool.
#[derive(Clone, Copy, Debug, PartialEq, Eq, Structural)]
pub enum PoolOp {
    /// The buffer of this index is handed to the display server.
    Submit(usize),
    /// The display server gives the buffer of this index back.
    Release(usize),
}

/// The flags after a run of changes.
pub open spec fn apply_ops(s: Seq<bool>, ops: Seq<PoolOp>) -> Seq<bool>
    decreases ops.len(),
{
    if ops.len() == 0 {
        s
    } else {
        let t = apply_ops(s, ops.drop_last());
        match ops.last() {
            PoolOp::Submit(i) => submit_spec(t, i as int),
            PoolOp::Release(i) => release_spec(t, i as int),
        }
    }
}

/// Whether buffer `i` was submitted in `ops` and not released since.
pub open spec fn outstanding(ops: Seq<PoolOp>, i: int) -> bool
    decreases ops.len(),
{
    if ops.len() == 0 {
        false
    } else {
        match ops.last() {
            PoolOp::Submit(j) => j as int == i || outstanding(ops.drop_last(), i),
            PoolOp::Release(j) => j as int != i && outstanding(ops.drop_last(), i),
        }
    }
}

/// The flags of a pool of `n` buffers, all free.
pub open spec fn all_free(n: nat) -> Seq<bool> {
    Seq::new(n, |i: int| false)
}

/// Starting from a pool of `n` free buffers, after any run of submits and
/// releases the buffers marked in use are exactly those submitted and not yet
/// released, and there are never more of them than `n`.
pub proof fn in_use_is_outstanding(n: nat, ops: Seq<PoolOp>)
    ensures
        apply_ops(all_free(n), ops).len() == n,
        forall|i: int| 0 <= i < n ==> apply_ops(all_free(n), ops)[i] == outstanding(ops, i),
        count_in_use(apply_ops(all_free(n), ops)) <= n,
    decreases ops.len(),
{
    if ops.len() > 0 {
        in_use_is_outstanding(n, ops.drop_last());
        let t = apply_ops(all_free(n), ops.drop_last());
        assert forall|i: int| 0 <= i < n implies apply_ops(all_free(n), ops)[i] == outstanding(
            ops,
            i,
        ) by {
            assert(t[i] == outstanding(ops.drop_last(), i));
        }
    }
    lemma_count_in_use_bounded(apply_ops(all_free(n), ops));
}

/// A fixed set of buffers, each either free for writing or in use by the
/// display server.
pub struct BufferPool {
    in_use: Vec<bool>,
}

impl View for BufferPool {
    type V = Seq<bool>;

    closed spec fn view(&self) -> Seq<bool> {
        self.in_use@
    }
}

impl BufferPool {
    /// A pool of `count` buffers, all free.
    pub fn new(count: usize) -> (r: BufferPool)
        ensures
            r@ == all_free(count as nat),
    {
        let mut in_use: Vec<bool> = Vec::new();
        let mut k: usize = 0;
        while k < count
            invariant
                k <= count,
                in_use@ == Seq::new(k as nat, |i: int| false),
            decreases count - k,
        {
            in_use.push(false);
            k = k + 1;
            assert(in_use@ =~= Seq::new(k as nat, |i: int| false));
        }
        BufferPool { in_use }
    }

    pub fn len(&self) -> (r: usize)
        ensures
            r == self@.len(),
    {
        self.in_use.len()
    }

    /// Whether buffer `i` is held by the display server; `false` outside the pool.
    pub fn is_in_use(&self, i: usize) -> (r: bool)
        ensures
            r == (i < self@.len() && self@[i as int]),
    {
        i < self.in_use.len() && self.in_use[i]
    }

    /// The number of buffers in use.
    pub fn in_use_count(&self) -> (r: usize)
        ensures
            r == count_in_use(self@),
    {
        let mut n: usize = 0;
        let mut k: usize = 0;
        while k < self.in_use.len()
            invariant
                k <= self@.len(),
                n == count_in_use(self@.subrange(0, k as int)),
                n <= k,
            decreases self@.len() - k,
        {
            proof {
                let s = self@.subrange(0, k as int + 1);
                assert(s.drop_last() =~= self@.subrange(0, k as int));
            }
            if self.in_use[k] {
                n = n + 1;
            }
            k = k + 1;
        }
        assert(self@.subrange(0, k as int) =~= self@);
        n
    }

    /// The first buffer, by index, that is free for writing; `None` when every
    /// buffer is in use. The answer depends on the flags alone, so asking again
    /// with nothing submitted or released in between gives the same buffer.
    pub fn find_free(&self) -> (r: Option<usize>)
        ensures
            opt_index(r) == first_free(self@),
            match r {
                Some(i) => i < self@.len() && !self@[i as int] && forall|j: int|
                    0 <= j < i ==> self@[j],
                None => forall|j: int| 0 <= j < self@.len() ==> self@[j],
            },
    {
        proof {
            lemma_first_free(self@);
        }
        let mut k: usize = 0;
        while k < self.in_use.len()
            invariant
                k <= self@.len(),
                forall|j: int| 0 <= j < k ==> self@[j],
                first_free(self@) matches Some(f) ==> k <= f,
            decreases self@.len() - k,
        {
            if !self.in_use[k] {
                proof {
                    lemma_first_free(self@);
                    match first_free(self@) {
                        Some(f) => {
                            if k < f {
                                assert(self@[k as int]);
                            }
                        },
                        None => {
                            assert(self@[k as int]);
                        },
                    }
                }
                return Some(k);
            }
            proof {
                lemma_first_free(self@);
                match first_free(self@) {
                    Some(f) => {
                        assert(f != k);
                    },
                    None => {},
                }
            }
            k = k + 1;
        }
        None
    }

    /// Hands buffer `i` to the display server: from now on it is in use and
    /// must not be written. Fails, changing nothing, where the buffer is
    /// already in use or the pool has no such buffer.
    pub fn mark_submitted(&mut self, i: usize) -> (r: Result<(), AttachError>)
        ensures
            final(self)@ == submit_spec(old(self)@, i as int),
            i >= old(self)@.len() ==> r == Err::<(), AttachError>(AttachError::NoSuchBuffer),
            i < old(self)@.len() && old(self)@[i as int] ==> r == Err::<(), AttachError>(
                AttachError::AlreadyInUse,
            ),
            i < old(self)@.len() && !old(self)@[i as int] ==> r is Ok,
    {
        if i >= self.in_use.len() {
            return Err(AttachError::NoSuchBuffer);
        }
        if self.in_use[i] {
            return Err(AttachError::AlreadyInUse);
        }
        self.in_use.set(i, true);
        Ok(())
    }

    /// The display server is done with buffer `i`: it is free again. A
    /// release for a buffer that is not in use, or outside the pool, changes
    /// nothing.
    pub fn on_release(&mut self, i: usize)
        ensures
            final(self)@ == release_spec(old(self)@, i as int),
    {
        if i < self.in_use.len() && self.in_use[i] {
            self.in_use.set(i, false);
        }
    }
}

} // verus!

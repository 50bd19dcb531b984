//! A bounded buffer of the last lines that a child process wrote.
use std::collections::VecDeque;
use vstd::prelude::*;

verus! {

/// How many lines a buffer keeps unless told otherwise.
pub const DEFAULT_CAPACITY: usize = 500;

/// The last lines of a child process, at most as many as its capacity.
#[derive(Debug)]
pub struct LogRingBuffer {
    inner: VecDeque<String>,
    capacity: usize,
}

/// The last `n` elements, or all where there are fewer.
pub open spec fn tail<A>(s: Seq<A>, n: nat) -> Seq<A> {
    if s.len() <= n {
        s
    } else {
        s.skip(s.len() - n)
    }
}

impl LogRingBuffer {
    /// The lines kept, oldest first.
    pub closed spec fn lines(&self) -> Seq<String> {
        self.inner@
    }

    /// How many lines are kept at most.
    pub closed spec fn spec_capacity(&self) -> usize {
        self.capacity
    }

    #[verifier::type_invariant]
    spec fn bounded(self) -> bool {
        self.inner@.len() <= self.capacity
    }

    /// An empty buffer.
    pub fn new(capacity: usize) -> (r: Self)
        ensures
            r.lines() == Seq::<String>::empty(),
            r.spec_capacity() == capacity,
    {
        LogRingBuffer { inner: VecDeque::new(), capacity }
    }

    /// Appends a line; the oldest makes room for it.
    pub fn push(&mut self, line: String)
        ensures
            final(self).spec_capacity() == old(self).spec_capacity(),
            final(self).lines() == tail(
                old(self).lines().push(line),
                old(self).spec_capacity() as nat,
            ),
            final(self).lines().len() <= final(self).spec_capacity(),
    {
        proof {
            use_type_invariant(&*self);
        }
        let mut inner: VecDeque<String> = VecDeque::new();
        std::mem::swap(&mut inner, &mut self.inner);
        let ghost before = inner@;
        let n: usize = inner.len();
        if n == self.capacity {
            let _ = inner.pop_front();
        }
        if self.capacity > 0 {
            inner.push_back(line);
        }
        assert(inner@ =~= tail(before.push(line), self.capacity as nat));
        self.inner = inner;
    }

    /// The last `n` lines, or all where there are fewer.
    pub fn snapshot(&self, n: usize) -> (r: Vec<String>)
        ensures
            r@ == tail(self.lines(), n as nat),
    {
        let len: usize = self.inner.len();
        let start: usize = if n < len {
            len - n
        } else {
            0
        };
        let mut out: Vec<String> = Vec::new();
        let mut i: usize = start;
        while i < len
            invariant
                len == self.inner@.len(),
                start <= i <= len,
                out@ == self.inner@.subrange(start as int, i as int),
            decreases len - i,
        {
            out.push(self.inner[i].clone());
            i = i + 1;
        }
        assert(out@ =~= tail(self.lines(), n as nat));
        out
    }
}

impl Default for LogRingBuffer {
    fn default() -> (r: Self)
        ensures
            r.lines() == Seq::<String>::empty(),
            r.spec_capacity() == DEFAULT_CAPACITY,
    {
        LogRingBuffer::new(DEFAULT_CAPACITY)
    }
}

/// What a buffer holds after a run of pushes.
pub open spec fn after_pushes(
    kept: Seq<String>,
    capacity: nat,
    pushed: Seq<String>,
) -> Seq<String>
    decreases pushed.len(),
{
    if pushed.len() == 0 {
        kept
    } else {
        tail(after_pushes(kept, capacity, pushed.drop_last()).push(pushed.last()), capacity)
    }
}

/// A buffer holds the last lines pushed, in order: as many as its capacity, or
/// all where fewer came.
pub proof fn law_buffer_keeps_the_last_lines(capacity: nat, pushed: Seq<String>)
    ensures
        after_pushes(Seq::empty(), capacity, pushed) == tail(pushed, capacity),
    decreases pushed.len(),
{
    if pushed.len() > 0 {
        let front = pushed.drop_last();
        law_buffer_keeps_the_last_lines(capacity, front);
        assert(tail(tail(front, capacity).push(pushed.last()), capacity) =~= tail(
            pushed,
            capacity,
        ));
    } else {
        assert(tail(pushed, capacity) =~= Seq::<String>::empty());
    }
}

/// The tail of a log is its last lines, in order, as many as were asked for or as there
/// are.
pub proof fn law_tail_is_the_end<A>(s: Seq<A>, n: nat, back: int)
    requires
        0 < back <= n,
        back <= s.len(),
    ensures
        tail(s, n).len() == (if s.len() < n {
            s.len()
        } else {
            n
        }),
        tail(s, n)[tail(s, n).len() - back] == s[s.len() - back],
{
}

} // verus!

use vstd::prelude::*;

verus! {

/// `a - b`, or 0 when `b` is larger.
pub open spec fn sub_or_zero(a: nat, b: nat) -> nat {
    if a >= b {
        (a - b) as nat
    } else {
        0
    }
}

/// `a + b`, capped at the largest `usize`.
pub open spec fn add_capped(a: nat, b: nat) -> nat {
    if a + b <= usize::MAX {
        a + b
    } else {
        usize::MAX as nat
    }
}

/// Counts the bytes read from a connection and reports when more than a
/// ceiling has been read, so that a client cannot make the server gather
/// header bytes without end.
pub struct LimitReader<T> {
    inner: T,
    max: usize,
    read: usize,
}

impl<T> LimitReader<T> {
    /// The wrapped stream.
    pub closed spec fn inner_view(&self) -> T {
        self.inner
    }

    /// The ceiling, in bytes.
    pub closed spec fn max_view(&self) -> nat {
        self.max as nat
    }

    /// Bytes read so far.
    pub closed spec fn read_view(&self) -> nat {
        self.read as nat
    }

    /// Wraps `inner` with a ceiling of `max` bytes; nothing is read yet.
    pub fn new(inner: T, max: usize) -> (r: Self)
        ensures
            r.inner_view() == inner,
            r.max_view() == max,
            r.read_view() == 0,
    {
        LimitReader { inner, max, read: 0 }
    }

    /// Accounts for one read, after which the buffer's filled length went
    /// from `before` to `after`. Returns whether the total is still within
    /// the ceiling; once it is not, the read must fail.
    pub fn record(&mut self, before: usize, after: usize) -> (ok: bool)
        ensures
            final(self).read_view() == add_capped(old(self).read_view(), sub_or_zero(after as nat, before as nat)),
            final(self).max_view() == old(self).max_view(),
            final(self).inner_view() == old(self).inner_view(),
            ok == (final(self).read_view() <= final(self).max_view()),
    {
        let new_bytes = after.saturating_sub(before);
        self.read = self.read.saturating_add(new_bytes);
        self.read <= self.max
    }

    /// Bytes read so far.
    pub fn bytes_read(&self) -> (r: usize)
        ensures
            r == self.read_view(),
    {
        self.read
    }

    /// The ceiling, in bytes.
    pub fn max(&self) -> (r: usize)
        ensures
            r == self.max_view(),
    {
        self.max
    }

    /// The wrapped stream, for reading and writing through it.
    pub fn inner_mut(&mut self) -> (r: &mut T)
        ensures
            *r == old(self).inner_view(),
            final(self).inner_view() == *final(r),
            final(self).max_view() == old(self).max_view(),
            final(self).read_view() == old(self).read_view(),
    {
        &mut self.inner
    }
}

} // verus!

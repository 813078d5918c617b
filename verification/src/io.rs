//! The adapter: a reader over a stream, with a limit that may be absent.
use crate::stream::{consumes, delivers, fills, reads, shorter, BufRead, Read};
use vstd::prelude::*;
use vstd::slice::slice_subrange;

verus! {

/// How many of `len` bytes may pass under `limit`.
pub open spec fn allowed(limit: Option<u64>, len: nat) -> nat {
    match limit {
        None => len,
        Some(remaining) => shorter(remaining as nat, len),
    }
}

/// What is left of `limit` once `n` bytes have passed under it.
pub open spec fn spent(limit: Option<u64>, n: nat) -> Option<u64>
    recommends
        n <= allowed(limit, n),
{
    match limit {
        None => None,
        Some(remaining) => Some((remaining - n) as u64),
    }
}

/// A reader over the stream `T` that hands out no more bytes than its limit,
/// where it has one. The limit can be set, changed and lifted at any time,
/// and the stream stays where it is.
///
/// The adapter is in one of two states: unbounded, where `limit()` is `None`,
/// or bounded, where `limit()` is `Some(remaining)`; `Some(0)` is a bound
/// like any other, under which nothing passes.
#[derive(Debug)]
pub struct OptionalTake<T> {
    inner: T,
    limit: Option<u64>,
}

/// The smaller of `remaining` and `len`.
fn window(remaining: u64, len: usize) -> (max: usize)
    ensures
        max == shorter(remaining as nat, len as nat),
{
    if remaining < len as u64 {
        remaining as usize
    } else {
        len
    }
}

impl<T> OptionalTake<T> {
    /// The wrapped stream, as it stands.
    pub closed spec fn inner(&self) -> T {
        self.inner
    }

    /// The bytes that may still pass, or `None` where nothing bounds them.
    pub closed spec fn spec_limit(&self) -> Option<u64> {
        self.limit
    }

    /// Whether `set_limit(limit)` leaves the adapter as `next`: with that
    /// limit, and with the stream as it stood.
    pub open spec fn may_set_limit(&self, next: &Self, limit: Option<u64>) -> bool {
        &&& next.limit() == limit
        &&& next.inner() == self.inner()
    }

    /// Wraps `read`, with `limit` bytes to pass, or unbounded where `limit`
    /// is `None`. Nothing is read.
    pub fn from_read(read: T, limit: Option<u64>) -> (adapter: Self) where T: Read
        ensures
            adapter.inner() == read,
            adapter.limit() == limit,
    {
        let mut adapter = OptionalTake { inner: read, limit: None };
        adapter.set_limit(limit);
        adapter
    }

    /// The bytes that may still pass, or `None` where nothing bounds them.
    #[verifier::when_used_as_spec(spec_limit)]
    pub fn limit(&self) -> (limit: Option<u64>)
        ensures
            limit == self.spec_limit(),
    {
        self.limit
    }

    /// Replaces the limit by `limit`, whatever it was and however much has
    /// passed under it. The stream is left as it stands.
    pub fn set_limit(&mut self, limit: Option<u64>) where T: Read
        ensures
            old(self).may_set_limit(final(self), limit),
    {
        self.limit = limit;
    }

    /// Gives the stream back, as it stands.
    pub fn into_inner(self) -> (stream: T)
        ensures
            stream == self.inner(),
    {
        self.inner
    }

    /// The wrapped stream.
    pub fn get_ref(&self) -> (stream: &T)
        ensures
            *stream == self.inner(),
    {
        &self.inner
    }

    /// The wrapped stream, to work on directly. What is read from it this way
    /// passes beside the limit, which stays as it is.
    pub fn get_mut(&mut self) -> (stream: &mut T)
        ensures
            *stream == old(self).inner(),
            final(self).inner() == *final(stream),
            final(self).limit() == old(self).limit(),
    {
        &mut self.inner
    }
}

/// The adapter is a stream in its own right: whatever a read of it does, it
/// delivers the adapter's own pending bytes in order.
pub proof fn lemma_read_delivers<T: Read>(
    adapter: &OptionalTake<T>,
    next: &OptionalTake<T>,
    before: Seq<u8>,
    after: Seq<u8>,
    res: Result<usize, std::io::Error>,
)
    requires
        adapter.may_read(next, before, after, res),
    ensures
        delivers(adapter.pending(), next.pending(), before, after, res),
{
    let stream = adapter.inner().pending();
    let left = next.inner().pending();
    match adapter.limit() {
        None => {
            assert(adapter.pending() =~= stream);
            assert(next.pending() =~= left);
        },
        Some(remaining) => {
            if remaining == 0 {
                assert(after.take(0) =~= adapter.pending().take(0));
                assert(next.pending() =~= adapter.pending().skip(0));
            } else {
                let max: int = shorter(remaining as nat, before.len()) as int;
                match res {
                    Ok(n) => {
                        assert(after.take(n as int) =~= after.take(max).take(n as int));
                        assert(adapter.pending().take(n as int) =~= stream.take(n as int));
                        assert(next.pending() =~= adapter.pending().skip(n as int));
                    },
                    Err(_) => {},
                }
            }
        },
    }
}

impl<T: Read> Read for OptionalTake<T> {
    /// The pending bytes of the stream, as far as the limit lets them pass.
    open spec fn pending(&self) -> Seq<u8> {
        self.inner().pending().take(allowed(self.limit(), self.inner().pending().len()) as int)
    }

    /// Without a limit, a read of the adapter is a read of the stream. With
    /// nothing left to pass, it returns `Ok(0)` and touches nothing. With
    /// `remaining` left, it is a read of the stream into the first
    /// `remaining` bytes of the buffer, or into all of it where it is
    /// shorter, and the rest of the buffer stays; what the stream returns is
    /// returned; the bytes that were delivered come off the limit, and a
    /// failure leaves it.
    open spec fn may_read(
        &self,
        next: &Self,
        before: Seq<u8>,
        after: Seq<u8>,
        res: Result<usize, std::io::Error>,
    ) -> bool {
        match self.limit() {
            None => {
                &&& next.limit() is None
                &&& reads(&self.inner(), &next.inner(), before, after, res)
            },
            Some(remaining) => if remaining == 0 {
                &&& *next == *self
                &&& after == before
                &&& res == Ok::<usize, std::io::Error>(0)
            } else {
                let max: int = shorter(remaining as nat, before.len()) as int;
                &&& reads(&self.inner(), &next.inner(), before.take(max), after.take(max), res)
                &&& after.len() == before.len()
                &&& after.skip(max) == before.skip(max)
                &&& next.limit() == match res {
                    Ok(n) => spent(self.limit(), n as nat),
                    Err(_) => self.limit(),
                }
            },
        }
    }

    fn read(&mut self, buf: &mut [u8]) -> (res: Result<usize, std::io::Error>) {
        let res = match self.limit {
            None => self.inner.read(buf),
            Some(remaining) => {
                if remaining == 0 {
                    Ok(0)
                } else {
                    let max: usize = window(remaining, buf.len());
                    let (head, rest) = buf.split_at_mut(max);
                    let res = self.inner.read(head);
                    proof {
                        assert(old(buf)@.take(max as int) =~= old(buf)@.subrange(0, max as int));
                        assert((head@ + rest@).take(max as int) =~= head@);
                        assert((head@ + rest@).skip(max as int) =~= old(buf)@.skip(max as int));
                    }
                    match res {
                        Ok(n) => {
                            self.limit = Some(remaining - n as u64);
                            Ok(n)
                        },
                        Err(e) => Err(e),
                    }
                }
            },
        };
        proof {
            lemma_read_delivers(old(self), self, old(buf)@, buf@, res);
        }
        res
    }
}

impl<T: BufRead> OptionalTake<T> {
    /// Whether `consume(amt)` may leave the adapter as `next`: the adapter
    /// has `amt` bytes buffered and pending, the stream marks them as handed
    /// out, and they come off the limit where there is one.
    pub open spec fn may_consume(&self, next: &Self, amt: usize) -> bool {
        &&& amt <= self.buffered()
        &&& amt <= self.pending().len()
        &&& consumes(&self.inner(), &next.inner(), amt)
        &&& next.limit() == spent(self.limit(), amt as nat)
    }
}

impl<T: BufRead> BufRead for OptionalTake<T> {
    /// The buffered bytes of the stream, as far as the limit lets them pass.
    open spec fn buffered(&self) -> nat {
        allowed(self.limit(), self.inner().buffered())
    }

    /// With nothing left to pass, filling the buffer succeeds and touches
    /// nothing. Otherwise it is a filling of the stream's buffer, whose
    /// failure is returned; the limit stays.
    open spec fn may_fill(&self, next: &Self, failure: Option<std::io::Error>) -> bool {
        if self.limit() == Some(0u64) {
            &&& *next == *self
            &&& failure is None
        } else {
            &&& fills(&self.inner(), &next.inner(), failure)
            &&& next.limit() == self.limit()
        }
    }

    fn fill_buf(&mut self) -> (res: Result<&[u8], std::io::Error>) {
        match self.limit {
            None => self.inner.fill_buf(),
            Some(remaining) => {
                if remaining == 0 {
                    Ok(&[])
                } else {
                    match self.inner.fill_buf() {
                        Ok(bytes) => {
                            let cap: usize = window(remaining, bytes.len());
                            Ok(slice_subrange(bytes, 0, cap))
                        },
                        Err(e) => Err(e),
                    }
                }
            },
        }
    }

    fn consume(&mut self, amt: usize)
        ensures
            old(self).may_consume(final(self), amt),
    {
        if let Some(remaining) = self.limit {
            self.limit = Some(remaining - amt as u64);
        }
        self.inner.consume(amt);
    }
}

/// Wraps a stream in an adapter, by a method on the stream.
pub trait Takable: Read {
    /// Wraps this stream, with `limit` bytes to pass, or unbounded where
    /// `limit` is `None`. Nothing is read.
    fn take_optional(self, limit: Option<u64>) -> (adapter: OptionalTake<Self>) where Self: Sized
        ensures
            adapter.inner() == self,
            adapter.limit() == limit,
    {
        OptionalTake::from_read(self, limit)
    }
}

impl<T> Takable for T where T: Read {
}

} // verus!

//! Byte streams: what a source of bytes promises of `read`, and what a
//! buffered one promises of its look-ahead buffer.
use vstd::prelude::*;
use vstd::slice::slice_subrange;

verus! {

/// The failure that a stream reports, `std::io::Error`. It is carried
/// through as it is: nothing here looks inside it or says anything of it.
#[verifier::external_type_specification]
#[verifier::external_body]
pub struct ExError(std::io::Error);

/// The smaller of the two lengths.
pub open spec fn shorter(a: nat, b: nat) -> nat {
    if a <= b {
        a
    } else {
        b
    }
}

/// The rule of sequential delivery. A stream that had `pending` to hand out
/// was asked to fill a buffer holding `before`; the buffer now holds `after`,
/// the stream has `left` to hand out, and the call returned `res`.
///
/// On `Ok(n)` the first `n` bytes of the buffer are the first `n` pending
/// bytes, and exactly those are gone from the stream. On an error the stream
/// has handed out nothing. The buffer keeps its length either way.
pub open spec fn delivers(
    pending: Seq<u8>,
    left: Seq<u8>,
    before: Seq<u8>,
    after: Seq<u8>,
    res: Result<usize, std::io::Error>,
) -> bool {
    &&& after.len() == before.len()
    &&& match res {
        Ok(n) => {
            &&& n <= before.len()
            &&& n <= pending.len()
            &&& after.take(n as int) == pending.take(n as int)
            &&& left == pending.skip(n as int)
        },
        Err(_) => left == pending,
    }
}

/// A source of bytes that are read in order.
///
/// A stream says what it does in two spec functions. One that leaves them as
/// they are promises sequential delivery of bytes it does not name, and
/// nothing more.
pub trait Read: Sized {
    /// The bytes that the stream has yet to hand out, in order. A stream
    /// that does not say what they are leaves them unknown.
    closed spec fn pending(&self) -> Seq<u8> {
        arbitrary::<spec_fn(Self) -> Seq<u8>>()(*self)
    }

    /// Whether one call of `read` on this stream, with a buffer that holds
    /// `before`, may leave the stream as `next` and the buffer holding
    /// `after`, and return `res`. A stream that does not say rules nothing
    /// out.
    open spec fn may_read(
        &self,
        next: &Self,
        before: Seq<u8>,
        after: Seq<u8>,
        res: Result<usize, std::io::Error>,
    ) -> bool {
        true
    }

    /// Pulls some bytes from the stream into the start of `buf` and returns
    /// how many.
    fn read(&mut self, buf: &mut [u8]) -> (res: Result<usize, std::io::Error>)
        ensures
            old(self).may_read(final(self), old(buf)@, final(buf)@, res),
            delivers(old(self).pending(), final(self).pending(), old(buf)@, final(buf)@, res),
    ;
}

/// The failure in the result of a `fill_buf`, if there is one.
pub open spec fn failure(res: Result<&[u8], std::io::Error>) -> Option<std::io::Error> {
    match res {
        Ok(_) => None,
        Err(e) => Some(e),
    }
}

/// A stream with a look-ahead buffer of its own.
pub trait BufRead: Read {
    /// How many bytes the stream holds in its own buffer, ready to be
    /// consumed. A stream that does not say leaves the number unknown.
    closed spec fn buffered(&self) -> nat {
        arbitrary::<spec_fn(Self) -> nat>()(*self)
    }

    /// Whether one call of `fill_buf` on this stream may leave it as `next`
    /// and fail with `failure`, or succeed where that is `None`. A stream
    /// that does not say rules nothing out.
    open spec fn may_fill(&self, next: &Self, failure: Option<std::io::Error>) -> bool {
        true
    }

    /// Shows the buffered bytes, after fetching more where the buffer was
    /// empty. None of them is handed out: they are the first of the pending
    /// bytes, before and after.
    fn fill_buf(&mut self) -> (res: Result<&[u8], std::io::Error>)
        ensures
            old(self).may_fill(final(self), failure(res)),
            final(self).pending() == old(self).pending(),
            res matches Ok(bytes) ==> final(self).buffered() <= final(self).pending().len()
                && bytes@ == final(self).pending().take(final(self).buffered() as int),
    ;

    /// Marks the first `amt` buffered bytes as handed out. The caller passes
    /// no more than the last `fill_buf` showed.
    fn consume(&mut self, amt: usize)
        requires
            amt <= old(self).buffered(),
            amt <= old(self).pending().len(),
        ensures
            final(self).pending() == old(self).pending().skip(amt as int),
            final(self).buffered() == old(self).buffered() - amt,
    ;
}

/// What a call of `read` promises of a stream: it is one that the stream may
/// make, and it delivers in order.
pub open spec fn reads<S: Read>(
    stream: &S,
    next: &S,
    before: Seq<u8>,
    after: Seq<u8>,
    res: Result<usize, std::io::Error>,
) -> bool {
    &&& stream.may_read(next, before, after, res)
    &&& delivers(stream.pending(), next.pending(), before, after, res)
}

/// What a call of `fill_buf` promises of a stream: it is one that the stream
/// may make, it hands nothing out, and where it succeeds the buffer holds
/// pending bytes only.
pub open spec fn fills<S: BufRead>(stream: &S, next: &S, failure: Option<std::io::Error>) -> bool {
    &&& stream.may_fill(next, failure)
    &&& next.pending() == stream.pending()
    &&& failure is None ==> next.buffered() <= next.pending().len()
}

/// What a call of `consume(amt)` asks and promises of a stream: the bytes
/// are buffered and pending, and they are gone from both afterwards.
pub open spec fn consumes<S: BufRead>(stream: &S, next: &S, amt: usize) -> bool {
    &&& amt <= stream.buffered()
    &&& amt <= stream.pending().len()
    &&& next.pending() == stream.pending().skip(amt as int)
    &&& next.buffered() == stream.buffered() - amt
}

/// A slice is a stream of its own bytes: reading moves its start forward.
impl<'a> Read for &'a [u8] {
    open spec fn pending(&self) -> Seq<u8> {
        self@
    }

    /// A read never fails. It copies as many bytes as the buffer takes and
    /// the slice has, leaves the rest of the buffer alone, and moves the
    /// start of the slice past the bytes copied.
    open spec fn may_read(
        &self,
        next: &Self,
        before: Seq<u8>,
        after: Seq<u8>,
        res: Result<usize, std::io::Error>,
    ) -> bool {
        let n: nat = shorter(before.len(), self@.len());
        &&& res matches Ok(k)
        &&& k == n
        &&& after == self@.take(n as int) + before.skip(n as int)
        &&& next@ == self@.skip(n as int)
    }

    fn read(&mut self, buf: &mut [u8]) -> (res: Result<usize, std::io::Error>) {
        let n: usize = if buf.len() <= self.len() {
            buf.len()
        } else {
            self.len()
        };
        let mut i: usize = 0;
        while i < n
            invariant
                i <= n,
                n <= self@.len(),
                n <= buf@.len(),
                buf@.len() == old(buf)@.len(),
                *self == *old(self),
                buf@ == self@.take(i as int) + old(buf)@.skip(i as int),
            decreases n - i,
        {
            buf[i] = self[i];
            i += 1;
            assert(buf@ =~= self@.take(i as int) + old(buf)@.skip(i as int));
        }
        assert(buf@.take(n as int) =~= self@.take(n as int));
        *self = slice_subrange(*self, n, self.len());
        Ok(n)
    }
}

/// The whole of a slice is its own buffer.
impl<'a> BufRead for &'a [u8] {
    open spec fn buffered(&self) -> nat {
        self@.len()
    }

    /// Filling never fails and changes nothing.
    open spec fn may_fill(&self, next: &Self, failure: Option<std::io::Error>) -> bool {
        failure is None && *next == *self
    }

    fn fill_buf(&mut self) -> (res: Result<&[u8], std::io::Error>) {
        Ok(*self)
    }

    fn consume(&mut self, amt: usize) {
        *self = slice_subrange(*self, amt, self.len());
    }
}

} // verus!

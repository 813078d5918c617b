//! What holds of the adapter over whole runs of calls, proved from the
//! contracts of its operations.
use crate::io::{spent, OptionalTake};
use crate::stream::{consumes, fills, reads, shorter, BufRead, Read};
use vstd::prelude::*;

verus! {

/// One call of `read` as its caller saw it: what the buffer held before and
/// after, and what the call returned.
pub struct ReadCall {
    pub before: Seq<u8>,
    pub after: Seq<u8>,
    pub res: Result<usize, std::io::Error>,
}

impl ReadCall {
    /// The bytes that the call delivered to its caller.
    pub open spec fn delivered(self) -> Seq<u8> {
        match self.res {
            Ok(n) => self.after.take(n as int),
            Err(_) => Seq::empty(),
        }
    }
}

/// The bytes that the calls delivered, one call after the other.
pub open spec fn delivered(calls: Seq<ReadCall>) -> Seq<u8>
    decreases calls.len(),
{
    if calls.len() == 0 {
        Seq::empty()
    } else {
        delivered(calls.drop_last()) + calls.last().delivered()
    }
}

/// Whether the call `calls[i]` may take an adapter from `states[i]` to
/// `states[i + 1]`.
pub open spec fn is_step<T: Read>(
    states: Seq<OptionalTake<T>>,
    calls: Seq<ReadCall>,
    i: int,
) -> bool {
    states[i].may_read(&states[i + 1], calls[i].before, calls[i].after, calls[i].res)
}

/// Whether `states` are the states that an adapter may go through while the
/// reads `calls` are made on it one after the other, with nothing else done
/// to it in between.
pub open spec fn is_run<T: Read>(states: Seq<OptionalTake<T>>, calls: Seq<ReadCall>) -> bool {
    &&& states.len() == calls.len() + 1
    &&& forall|i: int| 0 <= i < calls.len() ==> #[trigger] is_step(states, calls, i)
}

/// A run without its last read is a run, and the last read is a step from
/// where that run ends.
proof fn lemma_run_unfolds<T: Read>(states: Seq<OptionalTake<T>>, calls: Seq<ReadCall>)
    requires
        is_run(states, calls),
        calls.len() > 0,
    ensures
        is_run(states.drop_last(), calls.drop_last()),
        states.drop_last().last() == states[calls.len() - 1],
        states.drop_last()[0] == states[0],
        states[calls.len() - 1].may_read(
            &states.last(),
            calls.last().before,
            calls.last().after,
            calls.last().res,
        ),
{
    assert forall|i: int| 0 <= i < calls.len() - 1 implies #[trigger] is_step(
        states.drop_last(),
        calls.drop_last(),
        i,
    ) by {
        assert(is_step(states, calls, i));
    }
    assert(is_step(states, calls, calls.len() - 1));
}

/// One read accounts for every byte: what it delivered, followed by what the
/// stream still has pending, is what the stream had pending before. Under a
/// limit it delivers no more than may pass, and exactly that comes off the
/// limit; without one there is none afterwards either.
pub proof fn lemma_read_accounts<T: Read>(
    adapter: OptionalTake<T>,
    next: OptionalTake<T>,
    call: ReadCall,
)
    requires
        adapter.may_read(&next, call.before, call.after, call.res),
    ensures
        call.delivered() + next.inner().pending() == adapter.inner().pending(),
        adapter.limit() matches Some(remaining) ==> call.delivered().len() <= remaining,
        next.limit() == spent(adapter.limit(), call.delivered().len()),
{
    let stream = adapter.inner().pending();
    match adapter.limit() {
        None => {},
        Some(remaining) => {
            if remaining > 0 {
                let max: int = shorter(remaining as nat, call.before.len()) as int;
                match call.res {
                    Ok(n) => {
                        assert(call.after.take(n as int) =~= call.after.take(max).take(n as int));
                    },
                    Err(_) => {},
                }
            }
        },
    }
    assert(call.delivered() + next.inner().pending() =~= stream);
}

/// However many reads are made under a limit of `n` bytes, together they
/// deliver no more than `n` bytes, and what they delivered is what has come
/// off the limit.
pub proof fn lemma_run_stays_within_limit<T: Read>(
    states: Seq<OptionalTake<T>>,
    calls: Seq<ReadCall>,
    n: u64,
)
    requires
        is_run(states, calls),
        states[0].limit() == Some(n),
    ensures
        delivered(calls).len() <= n,
        states.last().limit() == spent(Some(n), delivered(calls).len()),
    decreases calls.len(),
{
    if calls.len() > 0 {
        lemma_run_unfolds(states, calls);
        lemma_run_stays_within_limit(states.drop_last(), calls.drop_last(), n);
        lemma_read_accounts(states[calls.len() - 1], states.last(), calls.last());
    }
}

/// Whether the read `calls[i]` returned `Ok(0)`, left the buffer as it was,
/// and left the adapter, with the stream in it, as it was when the run began.
pub open spec fn is_empty_read<T: Read>(
    states: Seq<OptionalTake<T>>,
    calls: Seq<ReadCall>,
    i: int,
) -> bool {
    &&& calls[i].res == Ok::<usize, std::io::Error>(0)
    &&& calls[i].after == calls[i].before
    &&& states[i + 1] == states[0]
}

/// Once nothing is left to pass, every further read returns `Ok(0)` and
/// leaves the adapter, the stream in it and the buffer as they were.
pub proof fn lemma_run_after_the_limit<T: Read>(
    states: Seq<OptionalTake<T>>,
    calls: Seq<ReadCall>,
)
    requires
        is_run(states, calls),
        states[0].limit() == Some(0u64),
    ensures
        forall|i: int| 0 <= i < calls.len() ==> #[trigger] is_empty_read(states, calls, i),
    decreases calls.len(),
{
    if calls.len() > 0 {
        let k: int = calls.len() - 1;
        lemma_run_unfolds(states, calls);
        lemma_run_after_the_limit(states.drop_last(), calls.drop_last());
        assert(states[k] == states[0]) by {
            if k > 0 {
                assert(is_empty_read(states.drop_last(), calls.drop_last(), k - 1));
            }
        }
        assert forall|i: int| 0 <= i < calls.len() implies #[trigger] is_empty_read(
            states,
            calls,
            i,
        ) by {
            if i < k {
                assert(is_empty_read(states.drop_last(), calls.drop_last(), i));
            }
        }
    }
}

/// Without a limit the adapter reads as the stream does: it has the same
/// bytes pending, a read of the adapter is a read of the stream with the same
/// buffer and the same result, and the other way round, and there is no limit
/// afterwards either.
pub proof fn lemma_unlimited_read_is_the_streams<T: Read>(
    adapter: OptionalTake<T>,
    next: OptionalTake<T>,
    call: ReadCall,
)
    requires
        adapter.limit() is None,
    ensures
        adapter.pending() == adapter.inner().pending(),
        adapter.may_read(&next, call.before, call.after, call.res) <==> (reads(
            &adapter.inner(),
            &next.inner(),
            call.before,
            call.after,
            call.res,
        ) && next.limit() is None),
{
    assert(adapter.pending() =~= adapter.inner().pending());
}

/// Without a limit the adapter is buffered as the stream is: it has as many
/// bytes buffered, and filling its buffer and consuming from it are those
/// operations on the stream.
pub proof fn lemma_unlimited_buffer_is_the_streams<T: BufRead>(
    adapter: OptionalTake<T>,
    next: OptionalTake<T>,
    failure: Option<std::io::Error>,
    amt: usize,
)
    requires
        adapter.limit() is None,
    ensures
        adapter.buffered() == adapter.inner().buffered(),
        adapter.may_fill(&next, failure) <==> (fills(&adapter.inner(), &next.inner(), failure)
            && next.limit() is None),
        adapter.may_consume(&next, amt) <==> (consumes(&adapter.inner(), &next.inner(), amt)
            && next.limit() is None),
{
    assert(adapter.pending() =~= adapter.inner().pending());
}

/// Whether the read `calls[i]` was made without a limit, left none, and was
/// a read of the stream in the adapter.
pub open spec fn is_read_of_stream<T: Read>(
    states: Seq<OptionalTake<T>>,
    calls: Seq<ReadCall>,
    i: int,
) -> bool {
    &&& states[i].limit() is None
    &&& states[i + 1].limit() is None
    &&& reads(
        &states[i].inner(),
        &states[i + 1].inner(),
        calls[i].before,
        calls[i].after,
        calls[i].res,
    )
}

/// Once the limit is lifted, whatever state the adapter was in, every read
/// that follows is a read of the stream as it stood, without a trace of the
/// limit that was.
pub proof fn lemma_lifted_limit_leaves_no_trace<T: Read>(
    adapter: OptionalTake<T>,
    states: Seq<OptionalTake<T>>,
    calls: Seq<ReadCall>,
)
    requires
        adapter.may_set_limit(&states[0], None),
        is_run(states, calls),
    ensures
        states[0].inner() == adapter.inner(),
        forall|i: int| 0 <= i < calls.len() ==> #[trigger] is_read_of_stream(states, calls, i),
    decreases calls.len(),
{
    if calls.len() > 0 {
        let k: int = calls.len() - 1;
        lemma_run_unfolds(states, calls);
        lemma_lifted_limit_leaves_no_trace(adapter, states.drop_last(), calls.drop_last());
        assert(states[k].limit() is None) by {
            if k > 0 {
                assert(is_read_of_stream(states.drop_last(), calls.drop_last(), k - 1));
            }
        }
        assert forall|i: int| 0 <= i < calls.len() implies #[trigger] is_read_of_stream(
            states,
            calls,
            i,
        ) by {
            if i < k {
                assert(is_read_of_stream(states.drop_last(), calls.drop_last(), i));
            }
        }
    }
}

/// A new limit replaces the old one and adds nothing to it: whatever state
/// the adapter was in when the limit was set to `m` bytes, the reads that
/// follow deliver no more than `m` bytes, and what they delivered is what
/// has come off `m`.
pub proof fn lemma_new_limit_replaces_the_old<T: Read>(
    adapter: OptionalTake<T>,
    states: Seq<OptionalTake<T>>,
    calls: Seq<ReadCall>,
    m: u64,
)
    requires
        adapter.may_set_limit(&states[0], Some(m)),
        is_run(states, calls),
    ensures
        states[0].limit() == Some(m),
        states[0].inner() == adapter.inner(),
        delivered(calls).len() <= m,
        states.last().limit() == spent(Some(m), delivered(calls).len()),
{
    lemma_run_stays_within_limit(states, calls, m);
}

/// No byte is lost and none comes twice: what a run of reads delivered,
/// followed by what the stream in the adapter still has pending, is what the
/// stream had pending when the run began.
pub proof fn lemma_run_keeps_every_byte<T: Read>(
    states: Seq<OptionalTake<T>>,
    calls: Seq<ReadCall>,
)
    requires
        is_run(states, calls),
    ensures
        delivered(calls) + states.last().inner().pending() == states[0].inner().pending(),
    decreases calls.len(),
{
    if calls.len() == 0 {
        assert(delivered(calls) + states.last().inner().pending() =~= states[0].inner().pending());
    } else {
        lemma_run_unfolds(states, calls);
        lemma_run_keeps_every_byte(states.drop_last(), calls.drop_last());
        lemma_read_accounts(states[calls.len() - 1], states.last(), calls.last());
        assert(delivered(calls) + states.last().inner().pending() =~= delivered(calls.drop_last())
            + (calls.last().delivered() + states.last().inner().pending()));
    }
}

/// Filling the buffer and then consuming `amt` of what it showed does to the
/// limit and to the place of the stream what a read that returns `Ok(amt)`
/// does.
pub proof fn lemma_fill_and_consume_is_a_read<T: BufRead>(
    adapter: OptionalTake<T>,
    filled: OptionalTake<T>,
    consumed: OptionalTake<T>,
    read: OptionalTake<T>,
    amt: usize,
    call: ReadCall,
)
    requires
        adapter.may_fill(&filled, None),
        filled.may_consume(&consumed, amt),
        call.res == Ok::<usize, std::io::Error>(amt),
        adapter.may_read(&read, call.before, call.after, call.res),
    ensures
        consumed.limit() == read.limit(),
        consumed.inner().pending() == read.inner().pending(),
        consumed.pending() == read.pending(),
{
    lemma_read_accounts(adapter, read, call);
}

} // verus!

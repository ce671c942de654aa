//! The input overlay's rolling history: the latest pedal and steering readings, up to a
//! fixed number of samples per series.

use vstd::prelude::*;
use std::collections::VecDeque;

verus! {

/// The last `max_len` items of `s`, oldest first.
pub open spec fn latest<T>(s: Seq<T>, max_len: nat) -> Seq<T> {
    if s.len() > max_len {
        s.skip(s.len() - max_len)
    } else {
        s
    }
}

/// What a history holds after the values of `stream` were pushed one by one into an
/// empty series capped at `max_len`.
pub open spec fn replay<T>(stream: Seq<T>, max_len: nat) -> Seq<T>
    decreases stream.len(),
{
    if stream.len() == 0 {
        Seq::empty()
    } else {
        latest(replay(stream.drop_last(), max_len).push(stream.last()), max_len)
    }
}

/// Appends `value` and drops the oldest items until at most `max_len` remain.
pub fn push_capped<T>(history: &mut VecDeque<T>, value: T, max_len: usize)
    ensures
        final(history)@ == latest(old(history)@.push(value), max_len as nat),
{
    history.push_back(value);
    let ghost full = history@;
    while history.len() > max_len
        invariant
            history@.len() <= full.len(),
            history@ == full.skip(full.len() - history@.len()),
            full.len() > max_len ==> history@.len() >= max_len,
            full.len() <= max_len ==> history@ == full,
        decreases history@.len(),
    {
        let ghost before = history@;
        let _ = history.pop_front();
        assert(history@ =~= full.skip(full.len() - history@.len())) by {
            assert(history@ =~= before.subrange(1, before.len() as int));
        }
    }
    assert(full.len() <= max_len ==> full.skip(0) =~= full);
}

/// The throttle, brake and steering series of the input overlay, each holding at most
/// `max_len` readings.
#[derive(Debug)]
pub struct TelemetryHistory<T> {
    pub max_len: usize,
    pub throttle: VecDeque<T>,
    pub brake: VecDeque<T>,
    pub steering: VecDeque<T>,
}

impl<T> TelemetryHistory<T> {
    /// An empty history that keeps up to `max_len` readings per series.
    pub fn new(max_len: usize) -> (r: Self)
        ensures
            r.max_len == max_len,
            r.throttle@ == Seq::<T>::empty(),
            r.brake@ == Seq::<T>::empty(),
            r.steering@ == Seq::<T>::empty(),
    {
        TelemetryHistory {
            max_len,
            throttle: VecDeque::with_capacity(max_len),
            brake: VecDeque::with_capacity(max_len),
            steering: VecDeque::with_capacity(max_len),
        }
    }

    /// Records one sample: each reading joins its series, whose oldest readings leave
    /// beyond `max_len`.
    pub fn push(&mut self, throttle: T, brake: T, steering: T)
        ensures
            final(self).max_len == old(self).max_len,
            final(self).throttle@ == latest(old(self).throttle@.push(throttle), old(self).max_len as nat),
            final(self).brake@ == latest(old(self).brake@.push(brake), old(self).max_len as nat),
            final(self).steering@ == latest(old(self).steering@.push(steering), old(self).max_len as nat),
    {
        push_capped(&mut self.throttle, throttle, self.max_len);
        push_capped(&mut self.brake, brake, self.max_len);
        push_capped(&mut self.steering, steering, self.max_len);
    }
}

/// A series never holds more than its cap, and it holds the whole stream while the
/// stream fits.
pub proof fn law_latest_is_capped<T>(s: Seq<T>, max_len: nat)
    ensures
        latest(s, max_len).len() == if s.len() > max_len { max_len } else { s.len() },
        s.len() <= max_len ==> latest(s, max_len) == s,
{
}

/// Capping once more after a push loses nothing: pushing onto the capped series gives
/// the cap of the whole stream with the value pushed.
pub proof fn law_push_onto_latest<T>(s: Seq<T>, v: T, max_len: nat)
    ensures
        latest(latest(s, max_len).push(v), max_len) == latest(s.push(v), max_len),
{
    if s.len() > max_len {
        let k = s.len() - max_len;
        assert(latest(s, max_len).push(v).len() == max_len + 1);
        assert(latest(latest(s, max_len).push(v), max_len) =~= s.push(v).skip(k + 1));
    }
}

/// A history fed a stream of readings one by one holds exactly the last `max_len`
/// readings of the stream, oldest first.
pub proof fn law_history_holds_latest<T>(stream: Seq<T>, max_len: nat)
    ensures
        replay(stream, max_len) == latest(stream, max_len),
    decreases stream.len(),
{
    if stream.len() > 0 {
        let front = stream.drop_last();
        law_history_holds_latest(front, max_len);
        law_push_onto_latest(front, stream.last(), max_len);
        assert(front.push(stream.last()) =~= stream);
    }
}

} // verus!

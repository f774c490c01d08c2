//! What it means for a sequence of frames to have been sent over a bus that may
//! fail at any write.

use vstd::prelude::*;
use crate::protocol::Frame;
use crate::transport::{failure_of, BusWrite};

verus! {

/// The record left by writing every one of `frames` to `address` with success.
pub open spec fn accepted<E>(address: u8, frames: Seq<Frame>) -> Seq<BusWrite<E>> {
    Seq::new(
        frames.len(),
        |i: int| BusWrite { address, bytes: frames[i].bytes(), failure: None },
    )
}

/// The record left by a write of `frame` to `address` that failed with `error`.
pub open spec fn refused<E>(address: u8, frame: Frame, error: E) -> BusWrite<E> {
    BusWrite { address, bytes: frame.bytes(), failure: Some(error) }
}

/// An attempt to send `frames` to `address`, one write per frame and in order,
/// took the record of a bus from `before` to `after` and ended in `result`.
///
/// With `Ok`, every frame was written and every write succeeded. With
/// `Err(e)`, the frames up to some frame were written, all of them with success
/// but the last, which failed with `e`; no later frame was written.
pub open spec fn delivered<E>(
    before: Seq<BusWrite<E>>,
    after: Seq<BusWrite<E>>,
    address: u8,
    frames: Seq<Frame>,
    result: Result<(), E>,
) -> bool {
    match result {
        Ok(_) => after == before + accepted(address, frames),
        Err(error) => {
            let done = after.len() - before.len() - 1;
            &&& 0 <= done < frames.len()
            &&& after == before + accepted(address, frames.take(done)).push(
                refused(address, frames[done], error),
            )
        },
    }
}

/// Sending nothing leaves the record as it was, and cannot fail.
pub proof fn lemma_delivered_nothing<E>(
    before: Seq<BusWrite<E>>,
    after: Seq<BusWrite<E>>,
    address: u8,
    result: Result<(), E>,
)
    ensures
        delivered(before, after, address, Seq::empty(), result) <==> after == before
            && result is Ok,
{
}

/// One write is the delivery of one frame, whatever its outcome.
pub proof fn lemma_delivered_one<E>(
    before: Seq<BusWrite<E>>,
    after: Seq<BusWrite<E>>,
    address: u8,
    frame: Frame,
    result: Result<(), E>,
)
    requires
        after == before.push(BusWrite { address, bytes: frame.bytes(), failure: failure_of(result) }),
    ensures
        delivered(before, after, address, seq![frame], result),
{
    match result {
        Ok(_) => {
            assert(after =~= before + accepted(address, seq![frame]));
        },
        Err(error) => {
            assert(after =~= before + accepted(address, seq![frame].take(0)).push(
                refused(address, frame, error),
            ));
        },
    }
}

/// A delivery that succeeded, followed by another delivery, is the delivery of
/// both sequences one after the other, with the outcome of the second.
pub proof fn lemma_delivered_then<E>(
    before: Seq<BusWrite<E>>,
    between: Seq<BusWrite<E>>,
    after: Seq<BusWrite<E>>,
    address: u8,
    first: Seq<Frame>,
    second: Seq<Frame>,
    result: Result<(), E>,
)
    requires
        delivered(before, between, address, first, Ok(())),
        delivered(between, after, address, second, result),
    ensures
        delivered(before, after, address, first + second, result),
{
    match result {
        Ok(_) => {
            assert(after =~= before + accepted(address, first + second));
        },
        Err(error) => {
            let done = after.len() - between.len() - 1;
            assert(after =~= before + accepted(address, (first + second).take(first.len() + done)).push(
                refused(address, (first + second)[first.len() + done], error),
            ));
        },
    }
}

/// A delivery that failed is also a failed delivery of any longer sequence
/// that begins with the same frames.
pub proof fn lemma_delivered_cut_short<E>(
    before: Seq<BusWrite<E>>,
    after: Seq<BusWrite<E>>,
    address: u8,
    first: Seq<Frame>,
    rest: Seq<Frame>,
    error: E,
)
    requires
        delivered(before, after, address, first, Err(error)),
    ensures
        delivered(before, after, address, first + rest, Err(error)),
{
    let done = after.len() - before.len() - 1;
    assert((first + rest).take(done) =~= first.take(done));
}

} // verus!

//! What to do with the datagrams that come in.
use std::time::Instant;
use vstd::prelude::*;

use crate::clock::now;
use crate::dogstatsd::{parse_datagram, read_from, Sample};

verus! {

/// The room that a buffer for a datagram should have.
pub const BUFFER_SIZE: usize = 8192;

/// What to do next: wait for a datagram, hand on samples, make room in the buffer, or end because
/// nobody takes the samples.
#[derive(Debug)]
pub enum IngestStep<V> {
    Receive,
    Send(Vec<Sample<V>>),
    Refill,
    Stop,
}

/// Whether a step hands on samples that can be those of a datagram, whenever it came in.
pub open spec fn hands_on<V, F: Fn(&str) -> Option<V>>(
    parse_value: F,
    bytes: Seq<u8>,
    step: IngestStep<V>,
) -> bool {
    match step {
        IngestStep::Send(samples) => exists|received_at: Instant| #[trigger]
            read_from(parse_value, bytes, received_at, samples@),
        _ => false,
    }
}

/// Whether a step can follow after a datagram was waited for.
pub open spec fn step_after_receive<V, F: Fn(&str) -> Option<V>>(
    parse_value: F,
    datagram: Option<&[u8]>,
    step: IngestStep<V>,
) -> bool {
    match datagram {
        Some(bytes) => hands_on(parse_value, bytes@, step),
        None => step is Receive,
    }
}

/// Whether a step can follow after samples were handed on, or one of them was not taken.
pub open spec fn step_after_send<V>(taken: bool, step: IngestStep<V>) -> bool {
    &&& taken ==> step is Refill
    &&& !taken ==> step is Stop
}

/// The room by which a buffer falls short of what it should have.
pub open spec fn room_missing(capacity: int) -> int {
    if capacity < BUFFER_SIZE {
        BUFFER_SIZE - capacity
    } else {
        0
    }
}

/// What to do after a datagram was waited for. Where none could be received, the next one is waited
/// for. All samples of a datagram bear the moment at which it came in.
pub fn after_receive<V, F: Fn(&str) -> Option<V>>(
    datagram: Option<&[u8]>,
    parse_value: F,
) -> (step: IngestStep<V>)
    requires
        forall|given: &str| #[trigger] call_requires(parse_value, (given,)),
    ensures
        step_after_receive(parse_value, datagram, step),
{
    match datagram {
        Some(bytes) => {
            let received_at: Instant = now();
            let samples: Vec<Sample<V>> = parse_datagram(bytes, received_at, parse_value);
            let step: IngestStep<V> = IngestStep::Send(samples);
            assert(read_from(parse_value, bytes@, received_at, step->Send_0@));
            step
        },
        None => IngestStep::Receive,
    }
}

/// What to do after samples were handed on, or one of them was not taken.
pub fn after_send<V>(taken: bool) -> (step: IngestStep<V>)
    ensures
        step_after_send(taken, step),
{
    if taken {
        IngestStep::Refill
    } else {
        IngestStep::Stop
    }
}

/// The room by which a buffer falls short of what it should have.
pub fn missing_room(capacity: usize) -> (room: usize)
    ensures
        room == room_missing(capacity as int),
{
    BUFFER_SIZE.saturating_sub(capacity)
}

/// The samples of a datagram are handed on, all of them with one moment, and where none was
/// received the next one is waited for.
pub proof fn datagrams_are_handed_on<V, F: Fn(&str) -> Option<V>>(
    parse_value: F,
    datagram: Option<&[u8]>,
    step: IngestStep<V>,
)
    requires
        step_after_receive(parse_value, datagram, step),
    ensures
        datagram is None <==> step is Receive,
        datagram is Some <==> step is Send,
        datagram matches Some(bytes) ==> exists|received_at: Instant| #[trigger]
            read_from(parse_value, bytes@, received_at, step->Send_0@),
{
    if let Some(bytes) = datagram {
        if let IngestStep::Send(samples) = step {
            let received_at = choose|received_at: Instant| #[trigger]
                read_from(parse_value, bytes@, received_at, samples@);
            assert(step->Send_0@ == samples@);
            assert(read_from(parse_value, bytes@, received_at, step->Send_0@));
        }
    }
}

/// Datagrams are received until samples are no longer taken.
pub proof fn only_untaken_samples_end_receiving<V>(taken: bool, step: IngestStep<V>)
    requires
        step_after_send(taken, step),
    ensures
        step is Stop <==> !taken,
        step is Refill <==> taken,
{
}

/// A buffer that is given the room it lacks has room for 8192 bytes; one that has as much already
/// is given none.
pub proof fn buffers_are_filled_up(capacity: int)
    requires
        0 <= capacity,
    ensures
        0 <= room_missing(capacity),
        capacity <= 8192 ==> capacity + room_missing(capacity) == 8192,
        capacity > 8192 ==> room_missing(capacity) == 0,
{
}

} // verus!

//! What the two request-facing operations do to the counter and what they
//! hand to the transport: the hit handler's acknowledgement and the push
//! handler's single event.

use crate::counter::{successor, Counter};
use crate::decimal::{decimal, decimal_string};
use vstd::prelude::*;

verus! {

/// The route that counts hits.
pub const HIT_ROUTE: &'static str = "/";

/// The route that pushes the current count to an observer.
pub const PUSH_ROUTE: &'static str = "/sse";

/// The status of a successful reply.
pub const STATUS_OK: u16 = 200;

/// The name every pushed event is tagged with.
pub const EVENT_NAME: &'static str = "throughput";

/// The acknowledgement of a hit.
#[derive(Clone, Debug, PartialEq, Eq)]
pub struct HitReply {
    pub status: u16,
    pub body: String,
}

/// The one event a push sends to its observer.
#[derive(Clone, Debug, PartialEq, Eq)]
pub struct PushEvent {
    pub name: &'static str,
    pub data: String,
}

/// Handles one hit: counts it, exactly once, and acknowledges with success
/// and an empty body. Nothing of the request is looked at, so the reply and
/// the count are the same for every method the route accepts.
pub fn hit(counter: &mut Counter) -> (reply: HitReply)
    ensures
        final(counter)@ == successor(old(counter)@),
        reply.status == 200,
        reply.body@ == Seq::<char>::empty(),
{
    counter.increment();
    HitReply { status: STATUS_OK, body: String::new() }
}

/// Handles one push: reads the counter once and reports the value, in
/// decimal, as a single event named `throughput`. The counter is not changed.
pub fn push(counter: &Counter) -> (event: PushEvent)
    ensures
        event.name@ == "throughput"@,
        event.data@ == decimal(counter@),
{
    let value: usize = counter.read();
    PushEvent { name: EVENT_NAME, data: decimal_string(value as u64) }
}

} // verus!

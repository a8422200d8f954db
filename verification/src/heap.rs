use vstd::prelude::*;
use crate::addr::Address;
use crate::bytes::{address_at, le64_at, read_address, read_u64_le};
use crate::errors::MarketError;

verus! {

/// Tag stored in the first eight bytes of an event-heap account.
pub const HEAP_ACCOUNT_TAG: u64 = 0x50414548;

/// Byte length of the event-heap account header: tag plus event count.
pub const HEAP_HEADER_BYTES: usize = 16;

/// Byte length of one pending-event record.
pub const EVENT_RECORD_BYTES: usize = 64;

/// One queued fill/out event awaiting a crank.
///
/// `maker` is the open-orders account the event belongs to; `account` is
/// the account a settlement instruction must reference so the event can be
/// processed.
#[derive(Clone, Copy, Debug, PartialEq, Eq, Structural)]
pub struct PendingEvent {
    pub maker: Address,
    pub account: Address,
}

/// The pending fill/out events of one market, in queue order.
#[derive(Clone, Debug, PartialEq, Eq)]
pub struct EventHeap {
    pub events: Vec<PendingEvent>,
}

impl EventHeap {
    /// An empty heap, the state before the first refresh.
    pub fn new_empty() -> (r: EventHeap)
        ensures
            r.events@ == Seq::<PendingEvent>::empty(),
    {
        EventHeap { events: Vec::new() }
    }
}

/// The number of event records an event-heap account claims to hold.
pub open spec fn event_count(s: Seq<u8>) -> int {
    le64_at(s, 8) as int
}

/// The event record at index `i`: two 32-byte addresses, maker then the
/// account to crank.
pub open spec fn event_at(s: Seq<u8>, i: int) -> PendingEvent {
    PendingEvent { maker: address_at(s, 16 + 64 * i), account: address_at(s, 16 + 64 * i + 32) }
}

/// All event records of an event-heap account, in stored order.
pub open spec fn events_of(s: Seq<u8>) -> Seq<PendingEvent> {
    Seq::new(event_count(s) as nat, |i: int| event_at(s, i))
}

/// Whether `s` is a well-formed event-heap account.
pub open spec fn heap_bytes_wf(s: Seq<u8>) -> bool {
    &&& s.len() >= HEAP_HEADER_BYTES
    &&& le64_at(s, 0) == HEAP_ACCOUNT_TAG
    &&& s.len() == HEAP_HEADER_BYTES + EVENT_RECORD_BYTES * event_count(s)
}

/// Decodes an event-heap account, accepting exactly the well-formed byte
/// strings.
#[verifier::loop_isolation(false)]
pub fn decode_event_heap(b: &Vec<u8>) -> (r: Result<EventHeap, MarketError>)
    ensures
        r is Ok <==> heap_bytes_wf(b@),
        r matches Ok(h) ==> h.events@ == events_of(b@),
        r matches Err(e) ==> e == MarketError::Decode,
{
    let n: usize = b.len();
    if n < HEAP_HEADER_BYTES {
        return Err(MarketError::Decode);
    }
    if read_u64_le(b, 0) != HEAP_ACCOUNT_TAG {
        return Err(MarketError::Decode);
    }
    let count64 = read_u64_le(b, 8);
    if (HEAP_HEADER_BYTES as u128) + (EVENT_RECORD_BYTES as u128) * (count64 as u128) != (
    n as u128) {
        return Err(MarketError::Decode);
    }
    let count = count64 as usize;
    let mut events: Vec<PendingEvent> = Vec::new();
    let mut i: usize = 0;
    while i < count
        invariant
            0 <= i <= count,
            events@.len() == i,
            forall|j: int| 0 <= j < i ==> events@[j] == event_at(b@, j),
        decreases count - i,
    {
        let off: usize = HEAP_HEADER_BYTES + EVENT_RECORD_BYTES * i;
        assert(off + 64 <= n);
        let maker = read_address(b, off);
        let account = read_address(b, off + 32);
        events.push(PendingEvent { maker, account });
        i = i + 1;
    }
    assert(events@ =~= events_of(b@));
    Ok(EventHeap { events })
}

} // verus!

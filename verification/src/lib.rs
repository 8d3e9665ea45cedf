//! The connection core of a log dashboard: a client-side protocol state
//! machine that maintains one WebSocket session to a pub/sub gateway,
//! correlates control requests with their asynchronous responses, routes
//! server pushes to the subscriptions that asked for them — and the
//! computational half of the log store's query layer.
//!
//! The I/O itself (the socket, the channels, the store) lives in the
//! surrounding application; everything decided here is a function of plain
//! values, stated in contracts and proved.

use vstd::prelude::*;

pub mod assoc;
pub mod codec;
pub mod correlator;
pub mod database;
pub mod json;
pub mod registry;
pub mod session;

verus! {

/// Relies on `String::push`: it appends exactly the given character.
pub assume_specification[ String::push ](s: &mut String, c: char)
    ensures
        final(s)@ == old(s)@.push(c),
;

/// The fixed channel-name prefix rule: a wire channel name is
/// `"logs:"` followed by the caller-supplied logical name.
pub open spec fn spec_channel_name(logical: Seq<char>) -> Seq<char> {
    "logs:"@ + logical
}

} // verus!

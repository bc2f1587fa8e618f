//! Names of per-socket channels and per-trip cache keys: a prefix, '_', then the id.
use crate::constants::{CACHE_KEY_PREFIX, DO_NOT_TRACK_KEY_PREFIX, PUBSUB_CHANNEL_OUT_PREFIX};
use vstd::prelude::*;

verus! {

/// `prefix`, an underscore, then `id`.
pub open spec fn prefixed_name(prefix: Seq<char>, id: Seq<char>) -> Seq<char> {
    prefix + seq!['_'] + id
}

/// The channel a socket's updates are published on.
pub open spec fn socket_channel_name(socket_id: Seq<char>) -> Seq<char> {
    prefixed_name(PUBSUB_CHANNEL_OUT_PREFIX@, socket_id)
}

/// The cache key of a trip's last update.
pub open spec fn cache_key_name(trip_id: Seq<char>) -> Seq<char> {
    prefixed_name(CACHE_KEY_PREFIX@, trip_id)
}

/// The cache key that marks a trip as not worth tracking.
pub open spec fn do_not_track_key_name(trip_id: Seq<char>) -> Seq<char> {
    prefixed_name(DO_NOT_TRACK_KEY_PREFIX@, trip_id)
}

/// `prefix`, an underscore, then `id`, as `format!("{}_{}", prefix, id)` writes it.
pub fn prefixed(prefix: &str, id: &str) -> (r: String)
    ensures
        r@ == prefixed_name(prefix@, id@),
{
    let mut r = String::from_str(prefix);
    r.append("_");
    r.append(id);
    proof {
        reveal_strlit("_");
    }
    r
}

/// The channel a socket's updates are published on.
pub fn socket_channel(socket_id: &str) -> (r: String)
    ensures
        r@ == socket_channel_name(socket_id@),
{
    prefixed(PUBSUB_CHANNEL_OUT_PREFIX, socket_id)
}

/// The cache key of a trip's last update.
pub fn cache_key(trip_id: &str) -> (r: String)
    ensures
        r@ == cache_key_name(trip_id@),
{
    prefixed(CACHE_KEY_PREFIX, trip_id)
}

/// The cache key that marks a trip as not worth tracking.
pub fn do_not_track_key(trip_id: &str) -> (r: String)
    ensures
        r@ == do_not_track_key_name(trip_id@),
{
    prefixed(DO_NOT_TRACK_KEY_PREFIX, trip_id)
}

} // verus!

//! The worker's output loop: it caches each reading and hands it to the sockets that follow
//! the trip.
use crate::channels::{socket_channel, socket_channel_name};
use crate::task_manager::{distinct_strings, member_set, TaskManager};
use tokio::task::JoinHandle;
use vstd::prelude::*;

verus! {

/// Nobody follows the trip: it was never followed, or every follower has left.
pub open spec fn unfollowed(subscribers: Map<Seq<char>, Set<Seq<char>>>, t: Seq<char>) -> bool {
    !subscribers.contains_key(t) || subscribers[t].is_empty()
}

/// Handles a fresh reading of the trip. A trip nobody follows is no longer tracked, its task's
/// handle is handed back for the caller to cancel, and the reading goes nowhere; otherwise the
/// manager is untouched, nothing is handed back and, when the reading is to be published, the
/// channels of all followers are returned, each once.
pub fn deliver_update(tm: &mut TaskManager, trip_id: &String, publish: bool) -> (r: (
    Vec<String>,
    Option<JoinHandle<()>>,
))
    requires
        old(tm).wf(),
    ensures
        final(tm).wf(),
        unfollowed(old(tm).view().subscribers, trip_id@) ==> final(tm).view() == old(
            tm,
        ).view().abort(trip_id@) && r.0@.len() == 0 && r.1 == old(tm).view().tasks.get(trip_id@),
        !unfollowed(old(tm).view().subscribers, trip_id@) ==> final(tm).view() == old(tm).view()
            && r.1 is None,
        !unfollowed(old(tm).view().subscribers, trip_id@) && !publish ==> r.0@.len() == 0,
        !unfollowed(old(tm).view().subscribers, trip_id@) && publish ==> member_set(r.0@)
            == old(tm).view().subscribers[trip_id@].map(|s: Seq<char>| socket_channel_name(s)),
        distinct_strings(r.0@),
        old(tm).view().consistent() ==> final(tm).view().consistent(),
{
    let mut channels: Vec<String> = Vec::new();
    let mut stopped: Option<JoinHandle<()>> = None;
    match tm.get_all_task_subscribers(trip_id.clone()) {
        Some(sockets) => {
            if sockets.len() == 0 {
                proof {
                    assert(old(tm).view().subscribers[trip_id@] =~= Set::empty()) by {
                        assert forall|x: Seq<char>| !#[trigger] member_set(sockets@).contains(x) by {}
                    }
                }
                stopped = tm.abort_task(trip_id);
            } else {
                proof {
                    assert(member_set(sockets@).contains(sockets@[0]@));
                }
                if publish {
                    let mut i: usize = 0;
                    while i < sockets.len()
                        invariant
                            i <= sockets@.len(),
                            distinct_strings(sockets@),
                            channels@.len() == i,
                            forall|j: int|
                                0 <= j < i ==> #[trigger] channels@[j]@ == socket_channel_name(
                                    sockets@[j]@,
                                ),
                        decreases sockets@.len() - i,
                    {
                        channels.push(socket_channel(sockets[i].as_str()));
                        i = i + 1;
                    }
                    proof {
                        let subs = member_set(sockets@);
                        assert forall|x: Seq<char>| member_set(channels@).contains(x) <==> subs.map(
                            |s: Seq<char>| socket_channel_name(s),
                        ).contains(x) by {
                            if member_set(channels@).contains(x) {
                                let j = choose|j: int|
                                    0 <= j < channels@.len() && #[trigger] channels@[j]@ == x;
                                assert(subs.contains(sockets@[j]@));
                            }
                            if subs.map(|s: Seq<char>| socket_channel_name(s)).contains(x) {
                                let s = choose|s: Seq<char>|
                                    subs.contains(s) && socket_channel_name(s) == x;
                                let j = choose|j: int| 0 <= j < sockets@.len() && #[trigger] sockets@[j]@ == s;
                                assert(channels@[j]@ == x);
                            }
                        }
                        assert(member_set(channels@) =~= subs.map(
                            |s: Seq<char>| socket_channel_name(s),
                        ));
                        assert forall|a: int, b: int|
                            0 <= a < channels@.len() && 0 <= b < channels@.len() && a != b implies #[trigger] channels@[a]@
                            != #[trigger] channels@[b]@ by {
                            let p = socket_channel_name(sockets@[a]@);
                            let q = socket_channel_name(sockets@[b]@);
                            assert(sockets@[a]@ != sockets@[b]@);
                            if p == q {
                                let n: int = crate::constants::PUBSUB_CHANNEL_OUT_PREFIX@.len() as int + 1;
                                assert(p.subrange(n, p.len() as int) =~= sockets@[a]@);
                                assert(q.subrange(n, q.len() as int) =~= sockets@[b]@);
                            }
                        }
                    }
                }
            }
        },
        None => {
            stopped = tm.abort_task(trip_id);
        },
    }
    (channels, stopped)
}

} // verus!

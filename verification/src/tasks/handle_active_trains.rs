//! The active-trains task: every train running now is followed by every open session.
use crate::laws::lemma_train_round_keeps_consistency;
use crate::task_manager::{
    distinct_strings, lemma_member_set_empty_prefix, lemma_member_set_take_push, member_set,
    with_string, TaskManager, TaskManagerView,
};
use crate::text::string_views;
use crate::types::response::trip::LiveTripResponse;
use tokio::task::JoinHandle;
use vstd::prelude::*;

verus! {

/// The timetable ids of the train lines: Ellenbrook, Airport, Thornlie-Cockburn, Midland,
/// Mandurah, Armadale, Fremantle and Yanchep.
pub open spec fn train_lines() -> Seq<Seq<char>> {
    seq![
        "PerthRestricted:RTG_16"@,
        "PerthRestricted:RTG_15"@,
        "PerthRestricted:RTG_12"@,
        "PerthRestricted:RTG_14"@,
        "PerthRestricted:RTG_13"@,
        "PerthRestricted:RTG_11"@,
        "PerthRestricted:RTG_10"@,
        "PerthRestricted:RTG_9"@,
    ]
}

/// The timetable ids of the train lines whose running trips are looked up.
pub fn train_timetable_ids() -> (r: Vec<String>)
    ensures
        string_views(r@) == train_lines(),
{
    let mut r: Vec<String> = Vec::new();
    r.push(String::from_str("PerthRestricted:RTG_16"));
    r.push(String::from_str("PerthRestricted:RTG_15"));
    r.push(String::from_str("PerthRestricted:RTG_12"));
    r.push(String::from_str("PerthRestricted:RTG_14"));
    r.push(String::from_str("PerthRestricted:RTG_13"));
    r.push(String::from_str("PerthRestricted:RTG_11"));
    r.push(String::from_str("PerthRestricted:RTG_10"));
    r.push(String::from_str("PerthRestricted:RTG_9"));
    assert(string_views(r@) =~= train_lines());
    r
}

/// The running trips of all lines whose lookup succeeded, line after line.
pub open spec fn live_trip_ids_of(results: Seq<Option<LiveTripResponse>>) -> Seq<Seq<char>>
    decreases results.len(),
{
    if results.len() == 0 {
        Seq::empty()
    } else {
        live_trip_ids_of(results.drop_last()) + match results.last() {
            Some(r) => string_views(r.live_trips@),
            None => Seq::empty(),
        }
    }
}

/// Gathers the running trips of the lines; a failed lookup (`None`) contributes nothing.
pub fn collect_live_trip_ids(results: &Vec<Option<LiveTripResponse>>) -> (r: Vec<String>)
    ensures
        string_views(r@) == live_trip_ids_of(results@),
{
    let mut out: Vec<String> = Vec::new();
    let mut i: usize = 0;
    while i < results.len()
        invariant
            i <= results@.len(),
            string_views(out@) == live_trip_ids_of(results@.take(i as int)),
        decreases results@.len() - i,
    {
        assert(results@.take(i + 1).drop_last() =~= results@.take(i as int));
        match &results[i] {
            Some(response) => {
                let trips = &response.live_trips;
                let ghost start = out@;
                let mut j: usize = 0;
                while j < trips.len()
                    invariant
                        j <= trips@.len(),
                        string_views(out@) == string_views(start) + string_views(
                            trips@.take(j as int),
                        ),
                    decreases trips@.len() - j,
                {
                    let ghost prev = out@;
                    out.push(trips[j].clone());
                    assert(string_views(out@) =~= string_views(prev).push(trips@[j as int]@));
                    assert(string_views(trips@.take(j + 1)) =~= string_views(
                        trips@.take(j as int),
                    ).push(trips@[j as int]@));
                    assert(string_views(out@) =~= string_views(start) + string_views(
                        trips@.take(j + 1),
                    ));
                    j = j + 1;
                }
                assert(trips@.take(trips@.len() as int) =~= trips@);
            },
            None => {
                assert(string_views(out@) =~= string_views(out@) + Seq::<Seq<char>>::empty());
            },
        }
        i = i + 1;
    }
    assert(results@.take(results@.len() as int) =~= results@);
    out
}

/// The followers a trip had before, or none.
pub open spec fn prior_followers(v: TaskManagerView, t: Seq<char>) -> Set<Seq<char>> {
    if v.subscribers.contains_key(t) {
        v.subscribers[t]
    } else {
        Set::empty()
    }
}

/// Every session of `v` also follows the trips `trips`.
pub open spec fn sessions_following(v: TaskManagerView, trips: Set<Seq<char>>) -> Map<
    Seq<char>,
    Set<Seq<char>>,
> {
    Map::new(|s: Seq<char>| v.sessions.contains_key(s), |s: Seq<char>| v.sessions[s].union(trips))
}

/// Every trip of `trips` is also followed by every session of `v`.
pub open spec fn trips_followed(v: TaskManagerView, trips: Set<Seq<char>>) -> Map<
    Seq<char>,
    Set<Seq<char>>,
> {
    Map::new(
        |t: Seq<char>| v.subscribers.contains_key(t) || trips.contains(t),
        |t: Seq<char>|
            if trips.contains(t) {
                prior_followers(v, t).union(v.sessions.dom())
            } else {
                v.subscribers[t]
            },
    )
}

/// Every open session follows every running train. Returns the trains that have no task yet,
/// each once: the caller is to start one for each and record it with
/// `TaskManager::record_task`. With no open session nothing changes and nothing is to start.
pub fn subscribe_sessions_to_trips(tm: &mut TaskManager, trips: &Vec<String>) -> (to_start: Vec<
    String,
>)
    requires
        old(tm).wf(),
    ensures
        final(tm).wf(),
        old(tm).view().sessions.dom().is_empty() ==> final(tm).view() == old(tm).view()
            && to_start@.len() == 0,
        !old(tm).view().sessions.dom().is_empty() ==> {
            &&& final(tm).view().sessions == sessions_following(old(tm).view(), member_set(trips@))
            &&& final(tm).view().subscribers == trips_followed(old(tm).view(), member_set(trips@))
            &&& final(tm).view().tasks == old(tm).view().tasks
            &&& member_set(to_start@) == member_set(trips@).difference(old(tm).view().tasks.dom())
        },
        distinct_strings(to_start@),
        old(tm).view().consistent() ==> final(tm).view().consistent(),
{
    let ghost v0 = tm.view();
    let ghost tset = member_set(trips@);
    let sockets = tm.get_all_socket_ids();
    let ghost sset = v0.sessions.dom();
    let mut a: usize = 0;
    while a < sockets.len()
        invariant
            a <= sockets@.len(),
            tm.wf(),
            v0 == old(tm).view(),
            tset == member_set(trips@),
            sset == v0.sessions.dom(),
            member_set(sockets@) == sset,
            distinct_strings(sockets@),
            tm.view().sessions == Map::new(
                |s: Seq<char>| v0.sessions.contains_key(s),
                |s: Seq<char>|
                    if member_set(sockets@.take(a as int)).contains(s) {
                        v0.sessions[s].union(tset)
                    } else {
                        v0.sessions[s]
                    },
            ),
            tm.view().subscribers == Map::new(
                |t: Seq<char>| v0.subscribers.contains_key(t) || (a > 0 && tset.contains(t)),
                |t: Seq<char>|
                    if a > 0 && tset.contains(t) {
                        prior_followers(v0, t).union(member_set(sockets@.take(a as int)))
                    } else {
                        v0.subscribers[t]
                    },
            ),
            tm.view().tasks == v0.tasks,
        decreases sockets@.len() - a,
    {
        let socket_id = &sockets[a];
        let ghost s = socket_id@;
        let ghost done = member_set(sockets@.take(a as int));
        proof {
            assert(sset.contains(s)) by {
                assert(member_set(sockets@).contains(s));
            }
            assert(!done.contains(s)) by {
                if done.contains(s) {
                    let j = choose|j: int|
                        0 <= j < sockets@.take(a as int).len() && #[trigger] sockets@.take(
                            a as int,
                        )[j]@ == s;
                    assert(sockets@[j]@ == sockets@[a as int]@);
                }
            }
        }
        proof {
            assert(member_set(trips@.take(0)) =~= Set::<Seq<char>>::empty()) by {
                assert(trips@.take(0).len() == 0);
            }
            if a == 0 {
                assert(done =~= Set::<Seq<char>>::empty()) by {
                    assert(sockets@.take(0).len() == 0);
                }
            }
            assert(v0.sessions[s].union(Set::<Seq<char>>::empty()) =~= v0.sessions[s]);
            assert(tm.view().sessions =~= Map::new(
                |s2: Seq<char>| v0.sessions.contains_key(s2),
                |s2: Seq<char>|
                    if s2 == s {
                        v0.sessions[s2].union(member_set(trips@.take(0)))
                    } else if done.contains(s2) {
                        v0.sessions[s2].union(tset)
                    } else {
                        v0.sessions[s2]
                    },
            ));
            assert(tm.view().subscribers =~= Map::new(
                |t: Seq<char>|
                    v0.subscribers.contains_key(t) || (a > 0 && tset.contains(t))
                        || member_set(trips@.take(0)).contains(t),
                |t: Seq<char>|
                    if member_set(trips@.take(0)).contains(t) {
                        prior_followers(v0, t).union(done).insert(s)
                    } else if a > 0 && tset.contains(t) {
                        prior_followers(v0, t).union(done)
                    } else {
                        v0.subscribers[t]
                    },
            ));
        }
        let mut b: usize = 0;
        while b < trips.len()
            invariant
                a < sockets@.len(),
                b <= trips@.len(),
                tm.wf(),
                s == socket_id@,
                socket_id == &sockets@[a as int],
                v0 == old(tm).view(),
                tset == member_set(trips@),
                sset == v0.sessions.dom(),
                sset.contains(s),
                done == member_set(sockets@.take(a as int)),
                !done.contains(s),
                tm.view().sessions == Map::new(
                    |s2: Seq<char>| v0.sessions.contains_key(s2),
                    |s2: Seq<char>|
                        if s2 == s {
                            v0.sessions[s2].union(member_set(trips@.take(b as int)))
                        } else if done.contains(s2) {
                            v0.sessions[s2].union(tset)
                        } else {
                            v0.sessions[s2]
                        },
                ),
                tm.view().subscribers == Map::new(
                    |t: Seq<char>|
                        v0.subscribers.contains_key(t) || (a > 0 && tset.contains(t))
                            || member_set(trips@.take(b as int)).contains(t),
                    |t: Seq<char>|
                        if member_set(trips@.take(b as int)).contains(t) {
                            prior_followers(v0, t).union(done).insert(s)
                        } else if a > 0 && tset.contains(t) {
                            prior_followers(v0, t).union(done)
                        } else {
                            v0.subscribers[t]
                        },
                ),
                tm.view().tasks == v0.tasks,
            decreases trips@.len() - b,
        {
            let task_id: &String = &trips[b];
            let ghost t = task_id@;
            let ghost before = tm.view();
            let ghost prefix = member_set(trips@.take(b as int));
            tm.add_task_to_websocket_session(socket_id.clone(), task_id.clone());
            proof {
                let next = member_set(trips@.take(b + 1));
                assert(next =~= prefix.insert(t)) by {
                    assert forall|x: Seq<char>| next.contains(x) implies prefix.insert(t).contains(
                        x,
                    ) by {
                        let j = choose|j: int|
                            0 <= j < trips@.take(b + 1).len() && #[trigger] trips@.take(b + 1)[j]@
                                == x;
                        if j < b {
                            assert(trips@.take(b as int)[j]@ == x);
                        }
                    }
                    assert forall|x: Seq<char>| prefix.insert(t).contains(x) implies next.contains(
                        x,
                    ) by {
                        if x == t {
                            assert(trips@.take(b + 1)[b as int]@ == x);
                        } else {
                            let j = choose|j: int|
                                0 <= j < trips@.take(b as int).len() && #[trigger] trips@.take(
                                    b as int,
                                )[j]@ == x;
                            assert(trips@.take(b + 1)[j]@ == x);
                        }
                    }
                }
                assert(tset.contains(t)) by {
                    assert(trips@[b as int]@ == t);
                }
                let after = tm.view();
                if a == 0 {
                    assert(done =~= Set::<Seq<char>>::empty()) by {
                        assert(sockets@.take(0).len() == 0);
                    }
                }
                assert(before.sessions.contains_key(s));
                assert(v0.sessions[s].union(prefix).insert(t) =~= v0.sessions[s].union(next));
                let old_t = if before.subscribers.contains_key(t) {
                    before.subscribers[t]
                } else {
                    Set::empty()
                };
                assert(old_t.insert(s) =~= prior_followers(v0, t).union(done).insert(s));
                assert(after.sessions =~= Map::new(
                    |s2: Seq<char>| v0.sessions.contains_key(s2),
                    |s2: Seq<char>|
                        if s2 == s {
                            v0.sessions[s2].union(next)
                        } else if done.contains(s2) {
                            v0.sessions[s2].union(tset)
                        } else {
                            v0.sessions[s2]
                        },
                ));
                assert(after.subscribers =~= Map::new(
                    |t2: Seq<char>|
                        v0.subscribers.contains_key(t2) || (a > 0 && tset.contains(t2))
                            || next.contains(t2),
                    |t2: Seq<char>|
                        if next.contains(t2) {
                            prior_followers(v0, t2).union(done).insert(s)
                        } else if a > 0 && tset.contains(t2) {
                            prior_followers(v0, t2).union(done)
                        } else {
                            v0.subscribers[t2]
                        },
                ));
            }
            b = b + 1;
        }
        proof {
            let next = member_set(sockets@.take(a + 1));
            assert(trips@.take(trips@.len() as int) =~= trips@);
            assert(member_set(trips@.take(trips@.len() as int)) == tset);
            assert(next =~= done.insert(s)) by {
                assert forall|x: Seq<char>| next.contains(x) implies done.insert(s).contains(x) by {
                    let j = choose|j: int|
                        0 <= j < sockets@.take(a + 1).len() && #[trigger] sockets@.take(a + 1)[j]@
                            == x;
                    if j < a {
                        assert(sockets@.take(a as int)[j]@ == x);
                    }
                }
                assert forall|x: Seq<char>| done.insert(s).contains(x) implies next.contains(x) by {
                    if x == s {
                        assert(sockets@.take(a + 1)[a as int]@ == x);
                    } else {
                        let j = choose|j: int|
                            0 <= j < sockets@.take(a as int).len() && #[trigger] sockets@.take(
                                a as int,
                            )[j]@ == x;
                        assert(sockets@.take(a + 1)[j]@ == x);
                    }
                }
            }
            assert forall|t: Seq<char>| tset.contains(t) implies prior_followers(v0, t).union(
                done,
            ).insert(s) =~= prior_followers(v0, t).union(next) by {}
            assert(v0.sessions[s].union(tset) == v0.sessions[s].union(tset));
            assert(tm.view().sessions =~= Map::new(
                |s2: Seq<char>| v0.sessions.contains_key(s2),
                |s2: Seq<char>|
                    if next.contains(s2) {
                        v0.sessions[s2].union(tset)
                    } else {
                        v0.sessions[s2]
                    },
            ));
            assert(tm.view().subscribers =~= Map::new(
                |t: Seq<char>| v0.subscribers.contains_key(t) || (a + 1 > 0 && tset.contains(t)),
                |t: Seq<char>|
                    if a + 1 > 0 && tset.contains(t) {
                        prior_followers(v0, t).union(next)
                    } else {
                        v0.subscribers[t]
                    },
            ));
        }
        a = a + 1;
    }
    proof {
        assert(sockets@.take(sockets@.len() as int) =~= sockets@);
        if sset.is_empty() {
            assert(sockets@.len() == 0) by {
                if sockets@.len() > 0 {
                    assert(member_set(sockets@).contains(sockets@[0]@));
                }
            }
            assert(tm.view().sessions =~= v0.sessions);
            assert(tm.view().subscribers =~= v0.subscribers);
            assert(tm.view().tasks =~= v0.tasks);
        } else {
            assert(sockets@.len() > 0) by {
                let x = sset.choose();
                assert(member_set(sockets@).contains(x));
            }
            assert(tm.view().sessions =~= sessions_following(v0, tset));
            assert(tm.view().subscribers =~= trips_followed(v0, tset));
            if v0.consistent() {
                lemma_train_round_keeps_consistency(v0, tset, tm.view());
            }
        }
    }
    if sockets.len() > 0 {
        untracked_trips(tm, trips)
    } else {
        Vec::new()
    }
}

/// The trips that have no task, each once.
fn untracked_trips(tm: &TaskManager, trips: &Vec<String>) -> (r: Vec<String>)
    requires
        tm.wf(),
    ensures
        distinct_strings(r@),
        member_set(r@) == member_set(trips@).difference(tm.view().tasks.dom()),
{
    let ghost tracked_trips = tm.view().tasks.dom();
    let mut r: Vec<String> = Vec::new();
    let mut i: usize = 0;
    proof {
        lemma_member_set_empty_prefix(trips@);
        assert(member_set(r@) =~= Set::<Seq<char>>::empty());
        assert(member_set(trips@.take(0)).difference(tracked_trips) =~= Set::<Seq<char>>::empty());
    }
    while i < trips.len()
        invariant
            i <= trips@.len(),
            tm.wf(),
            tracked_trips == tm.view().tasks.dom(),
            distinct_strings(r@),
            member_set(r@) == member_set(trips@.take(i as int)).difference(tracked_trips),
        decreases trips@.len() - i,
    {
        let ghost t = trips@[i as int]@;
        proof {
            lemma_member_set_take_push(trips@, i as int);
        }
        if !tm.task_exists(&trips[i]) {
            r = with_string(&r, trips[i].clone());
            proof {
                assert(member_set(r@) =~= member_set(trips@.take(i + 1)).difference(tracked_trips));
            }
        } else {
            proof {
                assert(member_set(r@) =~= member_set(trips@.take(i + 1)).difference(tracked_trips));
            }
        }
        i = i + 1;
    }
    proof {
        assert(trips@.take(trips@.len() as int) =~= trips@);
    }
    r
}

} // verus!

//! Properties that relate several operations of the library.
use crate::auth::without_dashes;
use crate::channels::{cache_key_name, prefixed_name, socket_channel_name};
use crate::task_manager::TaskManagerView;
use crate::tasks::handle_active_trains::{sessions_following, train_lines, trips_followed};
use crate::tasks::handle_trip::first_stop_scheduled;
use crate::text::{first_match_from, occurs_at, segment_before};
use crate::types::converters::{live_trip_name, live_trip_names, split_coordinates};
use crate::types::response::realtime::{RealTimeResponse, TransitStopStatus};
use crate::types::transperth::trip::PTAGetTripInfosResult;
use tokio::task::JoinHandle;
use vstd::prelude::*;

verus! {

/// Saying hello twice is the same as saying it once.
pub proof fn lemma_hello_idempotent(v: TaskManagerView, s: Seq<char>)
    ensures
        v.hello(s).hello(s) == v.hello(s),
{
}

/// A new session that says bye leaves the sessions as they were before its hello.
pub proof fn lemma_bye_undoes_hello(v: TaskManagerView, s: Seq<char>)
    requires
        !v.sessions.contains_key(s),
    ensures
        v.hello(s).bye(s).sessions == v.sessions,
{
    assert(v.hello(s).bye(s).sessions =~= v.sessions);
}

/// After bye, the socket is no session and follows no trip.
pub proof fn lemma_bye_unsubscribes_everywhere(v: TaskManagerView, s: Seq<char>)
    ensures
        !v.bye(s).sessions.contains_key(s),
        forall|t: Seq<char>| #[trigger]
            v.bye(s).subscribers.contains_key(t) ==> !v.bye(s).subscribers[t].contains(s),
        v.bye(s).subscribers.dom() == v.subscribers.dom(),
{
    assert(v.bye(s).subscribers.dom() =~= v.subscribers.dom());
}

/// Following a trip is recorded on both sides: the trip has the socket among its followers,
/// and a session has the trip on its list.
pub proof fn lemma_subscribe_records_both_sides(v: TaskManagerView, s: Seq<char>, t: Seq<char>)
    ensures
        v.subscribe(s, t).subscribers.contains_key(t),
        v.subscribe(s, t).subscribers[t].contains(s),
        v.sessions.contains_key(s) ==> v.subscribe(s, t).sessions[s].contains(t),
        v.subscribe(s, t).sessions.dom() == v.sessions.dom(),
{
    assert(v.subscribe(s, t).sessions.dom() =~= v.sessions.dom());
}

/// Following a trip twice is the same as following it once.
pub proof fn lemma_subscribe_idempotent(v: TaskManagerView, s: Seq<char>, t: Seq<char>)
    ensures
        v.subscribe(s, t).subscribe(s, t) == v.subscribe(s, t),
{
    let w = v.subscribe(s, t);
    assert(w.subscribers[t].insert(s) =~= w.subscribers[t]);
    if v.sessions.contains_key(s) {
        assert(w.sessions[s].insert(t) =~= w.sessions[s]);
    }
    assert(w.subscribe(s, t).sessions =~= w.sessions);
    assert(w.subscribe(s, t).subscribers =~= w.subscribers);
}

/// Once a trip's task was started for one request, a second request for the trip starts
/// nothing and changes nothing.
pub proof fn lemma_second_request_starts_nothing(
    v: TaskManagerView,
    s: Seq<char>,
    t: Seq<char>,
    h: JoinHandle<()>,
)
    requires
        !v.tasks.contains_key(t),
    ensures
        v.subscribe(s, t).start(t, h).tasks.contains_key(t),
        v.subscribe(s, t).start(t, h).subscribe(s, t) == v.subscribe(s, t).start(t, h),
{
    lemma_subscribe_idempotent(v, s, t);
    let w = v.subscribe(s, t).start(t, h);
    assert(w.subscribe(s, t).sessions == v.subscribe(s, t).subscribe(s, t).sessions);
    assert(w.subscribe(s, t).subscribers == v.subscribe(s, t).subscribe(s, t).subscribers);
}

/// Stopping a task that was just started leaves the tasks as they were.
pub proof fn lemma_abort_undoes_start(v: TaskManagerView, t: Seq<char>, h: JoinHandle<()>)
    requires
        !v.tasks.contains_key(t),
    ensures
        v.start(t, h).abort(t).tasks == v.tasks,
{
    assert(v.start(t, h).abort(t).tasks =~= v.tasks);
}

/// After the active-trains round, every session follows every running train and every
/// running train is followed by every session.
pub proof fn lemma_all_sessions_follow_all_trains(v: TaskManagerView, trains: Set<Seq<char>>)
    ensures
        forall|s: Seq<char>, t: Seq<char>|
            v.sessions.contains_key(s) && trains.contains(t) ==> #[trigger] sessions_following(
                v,
                trains,
            )[s].contains(t) && #[trigger] trips_followed(v, trains)[t].contains(s),
{
}

/// A manager with no sessions, no followers and no tasks is consistent.
pub proof fn lemma_empty_is_consistent()
    ensures
        (TaskManagerView {
            sessions: Map::empty(),
            subscribers: Map::empty(),
            tasks: Map::empty(),
        }).consistent(),
{
}

/// Every operation of the task manager keeps it consistent: tracked tasks belong to trips
/// with followers, and a trip on a session's list has that session among its followers.
pub proof fn lemma_operations_keep_consistency(
    v: TaskManagerView,
    s: Seq<char>,
    t: Seq<char>,
    h: JoinHandle<()>,
    dead: Set<Seq<char>>,
)
    requires
        v.consistent(),
    ensures
        v.hello(s).consistent(),
        v.bye(s).consistent(),
        v.subscribe(s, t).consistent(),
        v.subscribe(s, t).start(t, h).consistent(),
        v.abort(t).consistent(),
        v.without_tasks(dead).consistent(),
{
    let w = v.bye(s);
    assert forall|s2: Seq<char>, t2: Seq<char>|
        w.sessions.contains_key(s2) && #[trigger] w.sessions[s2].contains(t2) implies w.subscribers.contains_key(t2)
        && w.subscribers[t2].contains(s2) by {
        assert(v.sessions[s2].contains(t2));
    }
    let u = v.subscribe(s, t);
    assert forall|s2: Seq<char>, t2: Seq<char>|
        u.sessions.contains_key(s2) && #[trigger] u.sessions[s2].contains(t2) implies u.subscribers.contains_key(t2)
        && u.subscribers[t2].contains(s2) by {
        if !(s2 == s && t2 == t) {
            assert(v.sessions[s2].contains(t2));
        }
    }
    lemma_fewer_tasks_keep_consistency(v, v.abort(t));
    lemma_fewer_tasks_keep_consistency(v, v.without_tasks(dead));
}

/// Starting the task of a followed trip keeps the manager consistent.
pub proof fn lemma_start_keeps_consistency(v: TaskManagerView, t: Seq<char>, h: JoinHandle<()>)
    requires
        v.consistent(),
        v.subscribers.contains_key(t),
    ensures
        v.start(t, h).consistent(),
{
}

/// Dropping tracked tasks, and changing nothing else, keeps the manager consistent.
pub proof fn lemma_fewer_tasks_keep_consistency(v: TaskManagerView, w: TaskManagerView)
    requires
        v.consistent(),
        w.sessions == v.sessions,
        w.subscribers == v.subscribers,
        w.tasks.dom().subset_of(v.tasks.dom()),
    ensures
        w.consistent(),
{
    assert forall|t: Seq<char>| #[trigger] w.tasks.contains_key(t) implies w.subscribers.contains_key(t) by {
        assert(v.tasks.contains_key(t));
    }
}

/// The active-trains round keeps the manager consistent: every session follows the trains,
/// every train is followed by every session, and only trains gain tasks.
pub proof fn lemma_train_round_keeps_consistency(
    v: TaskManagerView,
    trains: Set<Seq<char>>,
    w: TaskManagerView,
)
    requires
        v.consistent(),
        w.sessions == sessions_following(v, trains),
        w.subscribers == trips_followed(v, trains),
        w.tasks.dom().subset_of(v.tasks.dom().union(trains)),
    ensures
        w.consistent(),
{
    assert forall|t: Seq<char>| #[trigger] w.tasks.contains_key(t) implies w.subscribers.contains_key(t) by {
        if !trains.contains(t) {
            assert(v.tasks.contains_key(t));
        }
    }
    assert forall|s2: Seq<char>, t2: Seq<char>|
        w.sessions.contains_key(s2) && #[trigger] w.sessions[s2].contains(t2) implies w.subscribers.contains_key(t2)
        && w.subscribers[t2].contains(s2) by {
        if !trains.contains(t2) {
            assert(v.sessions[s2].contains(t2));
        }
    }
}

/// Different sockets are sent their updates on different channels.
pub proof fn lemma_socket_channels_distinct(a: Seq<char>, b: Seq<char>)
    requires
        a != b,
    ensures
        socket_channel_name(a) != socket_channel_name(b),
        cache_key_name(a) != cache_key_name(b),
{
    lemma_prefixed_name_injective(crate::constants::PUBSUB_CHANNEL_OUT_PREFIX@, a, b);
    lemma_prefixed_name_injective(crate::constants::CACHE_KEY_PREFIX@, a, b);
}

proof fn lemma_prefixed_name_injective(p: Seq<char>, a: Seq<char>, b: Seq<char>)
    requires
        a != b,
    ensures
        prefixed_name(p, a) != prefixed_name(p, b),
{
    let x = prefixed_name(p, a);
    let y = prefixed_name(p, b);
    let n = p.len() + 1;
    assert(x.subrange(n as int, x.len() as int) =~= a);
    assert(y.subrange(n as int, y.len() as int) =~= b);
}

proof fn lemma_no_match_without_char(s: Seq<char>, pat: Seq<char>, c: char, i: int)
    requires
        pat.len() > 0,
        pat[0] == c,
        !s.contains(c),
    ensures
        first_match_from(s, pat, i) is None,
    decreases s.len() + 1 - i,
{
    if !(i < 0 || i + pat.len() > s.len()) {
        if occurs_at(s, pat, i) {
            assert(s.subrange(i, i + pat.len())[0] == s[i]);
        }
        lemma_no_match_without_char(s, pat, c, i + 1);
    }
}

proof fn lemma_first_match_at(s: Seq<char>, pat: Seq<char>, c: char, i: int, m: int)
    requires
        pat.len() > 0,
        pat[0] == c,
        0 <= i <= m,
        occurs_at(s, pat, m),
        forall|j: int| 0 <= j < m ==> s[j] != c,
    ensures
        first_match_from(s, pat, i) == Some(m),
    decreases m - i,
{
    if i < m {
        assert(!occurs_at(s, pat, i)) by {
            if occurs_at(s, pat, i) {
                assert(s.subrange(i, i + pat.len())[0] == s[i]);
            }
        }
        lemma_first_match_at(s, pat, c, i + 1, m);
    }
}

/// Two coordinates without commas, written "latitude, longitude", are read back as they
/// were written.
pub proof fn lemma_position_roundtrip(lat: Seq<char>, lon: Seq<char>)
    requires
        !lat.contains(','),
        !lon.contains(','),
    ensures
        split_coordinates(lat + seq![',', ' '] + lon) == Some((lat, lon)),
{
    let v = lat + seq![',', ' '] + lon;
    let sep = seq![',', ' '];
    let m = lat.len() as int;
    assert(v[m] == ',');
    assert(v.contains(','));
    assert(v.subrange(m, m + 2) =~= sep);
    assert forall|j: int| 0 <= j < m implies v[j] != ',' by {
        assert(v[j] == lat[j]);
    }
    lemma_first_match_at(v, sep, ',', 0, m);
    assert(v.subrange(0, m) =~= lat);
    assert(v.subrange(m + 2, v.len() as int) =~= lon);
    lemma_no_match_without_char(lon, sep, ',', 0);
    assert(segment_before(lon, sep) == lon);
}

/// Whether a reading is worth tracking is decided by its first stop alone: two readings whose
/// first stops agree, or which both have none, are judged alike, whatever their later stops
/// report.
pub proof fn lemma_only_first_stop_decides(r1: RealTimeResponse, r2: RealTimeResponse)
    requires
        (r1.transit_stops@.len() > 0) == (r2.transit_stops@.len() > 0),
        r1.transit_stops@.len() > 0 ==> r1.transit_stops@[0] == r2.transit_stops@[0],
    ensures
        first_stop_scheduled(r1) == first_stop_scheduled(r2),
{
}

/// A reading is not worth tracking exactly when it has a first stop whose real-time status is
/// "scheduled"; a reading without stops, or whose first stop has no real-time status or another
/// one, is worth tracking.
pub proof fn lemma_scheduled_first_stop(r: RealTimeResponse)
    ensures
        r.transit_stops@.len() == 0 ==> !first_stop_scheduled(r),
        r.transit_stops@.len() > 0 && r.transit_stops@[0].real_time_info is None
            ==> !first_stop_scheduled(r),
        r.transit_stops@.len() > 0 ==> (r.transit_stops@[0].real_time_info matches Some(info)
            ==> (first_stop_scheduled(r) <==> info.trip_status == TransitStopStatus::Scheduled)),
{
}

/// The train lines looked up are the eight lines of the network, each once: Ellenbrook
/// (RTG_16), Airport (RTG_15), Thornlie-Cockburn (RTG_12), Midland (RTG_14), Mandurah (RTG_13),
/// Armadale (RTG_11), Fremantle (RTG_10) and Yanchep (RTG_9).
pub proof fn lemma_train_lines_are_the_network()
    ensures
        train_lines().len() == 8,
        train_lines().no_duplicates(),
        train_lines().to_set() == set![
            "PerthRestricted:RTG_16"@,
            "PerthRestricted:RTG_15"@,
            "PerthRestricted:RTG_12"@,
            "PerthRestricted:RTG_14"@,
            "PerthRestricted:RTG_13"@,
            "PerthRestricted:RTG_11"@,
            "PerthRestricted:RTG_10"@,
            "PerthRestricted:RTG_9"@,
        ],
{
    reveal_strlit("PerthRestricted:RTG_16");
    reveal_strlit("PerthRestricted:RTG_15");
    reveal_strlit("PerthRestricted:RTG_12");
    reveal_strlit("PerthRestricted:RTG_14");
    reveal_strlit("PerthRestricted:RTG_13");
    reveal_strlit("PerthRestricted:RTG_11");
    reveal_strlit("PerthRestricted:RTG_10");
    reveal_strlit("PerthRestricted:RTG_9");
    let l = train_lines();
    assert forall|i: int, j: int| 0 <= i < l.len() && 0 <= j < l.len() && i != j implies l[i]
        != l[j] by {
        assert(l[i].len() != l[j].len() || l[i][l[i].len() - 1] != l[j][l[j].len() - 1]
            || l[i][l[i].len() - 2] != l[j][l[j].len() - 2]);
    }
    assert(l.to_set() =~= set![
        "PerthRestricted:RTG_16"@,
        "PerthRestricted:RTG_15"@,
        "PerthRestricted:RTG_12"@,
        "PerthRestricted:RTG_14"@,
        "PerthRestricted:RTG_13"@,
        "PerthRestricted:RTG_11"@,
        "PerthRestricted:RTG_10"@,
        "PerthRestricted:RTG_9"@,
    ]) by {
        assert(l[0] == "PerthRestricted:RTG_16"@);
        assert(l[1] == "PerthRestricted:RTG_15"@);
        assert(l[2] == "PerthRestricted:RTG_12"@);
        assert(l[3] == "PerthRestricted:RTG_14"@);
        assert(l[4] == "PerthRestricted:RTG_13"@);
        assert(l[5] == "PerthRestricted:RTG_11"@);
        assert(l[6] == "PerthRestricted:RTG_10"@);
        assert(l[7] == "PerthRestricted:RTG_9"@);
    }
}

/// Removing dashes from a text made of two parts removes them from each part.
pub proof fn lemma_without_dashes_concat(a: Seq<char>, b: Seq<char>)
    ensures
        without_dashes(a + b) == without_dashes(a) + without_dashes(b),
    decreases b.len(),
{
    if b.len() == 0 {
        assert(a + b =~= a);
        assert(without_dashes(a) + without_dashes(b) =~= without_dashes(a));
    } else {
        lemma_without_dashes_concat(a, b.drop_last());
        assert((a + b).drop_last() =~= a + b.drop_last());
        assert((a + b).last() == b.last());
        if b.last() != '-' {
            assert(without_dashes(a) + without_dashes(b.drop_last()).push(b.last()) =~= (
            without_dashes(a) + without_dashes(b.drop_last())).push(b.last()));
        }
    }
}

/// No dash is left, whatever the text.
pub proof fn lemma_without_dashes_has_no_dash(s: Seq<char>)
    ensures
        !without_dashes(s).contains('-'),
    decreases s.len(),
{
    if s.len() > 0 {
        lemma_without_dashes_has_no_dash(s.drop_last());
        let rest = without_dashes(s.drop_last());
        if s.last() != '-' {
            assert forall|i: int| 0 <= i < rest.push(s.last()).len() implies rest.push(s.last())[i]
                != '-' by {
                if i < rest.len() {
                    assert(rest.push(s.last())[i] == rest[i]);
                }
            }
        }
    }
}

/// A text without dashes is kept as it is.
pub proof fn lemma_without_dashes_keeps_other_text(s: Seq<char>)
    requires
        !s.contains('-'),
    ensures
        without_dashes(s) == s,
    decreases s.len(),
{
    if s.len() > 0 {
        assert(s[s.len() - 1] == s.last());
        assert(!s.drop_last().contains('-')) by {
            if s.drop_last().contains('-') {
                let i = choose|i: int| 0 <= i < s.drop_last().len() && s.drop_last()[i] == '-';
                assert(s[i] == '-');
            }
        }
        lemma_without_dashes_keeps_other_text(s.drop_last());
        assert(s.drop_last().push(s.last()) =~= s);
    }
}

/// The live trips of two lists of results, one after the other, are those of the first list
/// followed by those of the second: whether a result counts depends on that result alone.
pub proof fn lemma_live_trip_names_concat(a: Seq<PTAGetTripInfosResult>, b: Seq<PTAGetTripInfosResult>)
    ensures
        live_trip_names(a + b) == live_trip_names(a) + live_trip_names(b),
    decreases b.len(),
{
    if b.len() == 0 {
        assert(a + b =~= a);
        assert(live_trip_names(a) + live_trip_names(b) =~= live_trip_names(a));
    } else {
        lemma_live_trip_names_concat(a, b.drop_last());
        assert((a + b).drop_last() =~= a + b.drop_last());
        assert((a + b).last() == b.last());
        if b.last().status@ == "Live"@ {
            assert(live_trip_names(a) + live_trip_names(b.drop_last()).push(
                live_trip_name(b.last().trip_id),
            ) =~= (live_trip_names(a) + live_trip_names(b.drop_last())).push(
                live_trip_name(b.last().trip_id),
            ));
        }
    }
}

/// A single result is a live trip, named "PerthRestricted:" and its number, exactly when its
/// status is "Live".
pub proof fn lemma_live_trip_names_single(x: PTAGetTripInfosResult)
    ensures
        x.status@ == "Live"@ ==> live_trip_names(seq![x]) == seq![live_trip_name(x.trip_id)],
        x.status@ != "Live"@ ==> live_trip_names(seq![x]) == Seq::<Seq<char>>::empty(),
{
    let one = seq![x];
    assert(one.len() == 1);
    assert(one.last() == x);
    assert(one.drop_last() =~= Seq::<PTAGetTripInfosResult>::empty());
    assert(live_trip_names(Seq::<PTAGetTripInfosResult>::empty()) == Seq::<Seq<char>>::empty());
    assert(live_trip_names(one.drop_last()) == Seq::<Seq<char>>::empty());
    assert(Seq::<Seq<char>>::empty().push(live_trip_name(x.trip_id)) =~= seq![live_trip_name(x.trip_id)]);
}

} // verus!

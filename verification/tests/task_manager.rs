use perthtransport::channels::{cache_key, socket_channel};
use perthtransport::constants::{CACHE_KEY_PREFIX, PUBSUB_CHANNEL_OUT_PREFIX};
use perthtransport::task_manager::{finished_ids, TaskManager};
use perthtransport::tasks::handle_active_trains::subscribe_sessions_to_trips;
use perthtransport::tasks::handle_message::{request_trip, TripRequestOutcome};
use perthtransport::tasks::handle_worker_out::deliver_update;
use std::cell::Cell;
use tokio::runtime::Runtime;

fn s(x: &str) -> String {
    x.to_string()
}

fn sorted(mut v: Vec<String>) -> Vec<String> {
    v.sort();
    v
}

/// Follows the trip and, when told to, starts and records its task, counting the starts.
fn follow(tm: &mut TaskManager, rt: &Runtime, started: &Cell<u32>, socket: &str, trip: &str) -> bool {
    let created = tm.add_task_to_websocket_session(s(socket), s(trip));
    if created {
        started.set(started.get() + 1);
        tm.record_task(s(trip), rt.spawn(async {}));
    }
    created
}

#[test]
fn new_manager_is_empty() {
    let tm = TaskManager::new();
    assert!(tm.get_all_socket_ids().is_empty());
    assert_eq!(tm.get_all_task_subscribers(s("t")), None);
    assert!(tm.is_healthy());
}

#[test]
fn hello_creates_session_once() {
    let rt = Runtime::new().unwrap();
    let n = Cell::new(0);
    let mut tm = TaskManager::new();
    tm.create_websocket_session(s("a"));
    tm.create_websocket_session(s("b"));
    assert_eq!(sorted(tm.get_all_socket_ids()), vec![s("a"), s("b")]);
    follow(&mut tm, &rt, &n, "a", "t1");
    tm.create_websocket_session(s("a"));
    assert_eq!(sorted(tm.get_all_socket_ids()), vec![s("a"), s("b")]);
    assert_eq!(tm.get_all_task_subscribers(s("t1")), Some(vec![s("a")]));
}

#[test]
fn add_task_starts_each_trip_once() {
    let rt = Runtime::new().unwrap();
    let started = Cell::new(0);
    let mut tm = TaskManager::new();
    tm.create_websocket_session(s("a"));
    tm.create_websocket_session(s("b"));
    assert!(follow(&mut tm, &rt, &started, "a", "t1"));
    assert!(!follow(&mut tm, &rt, &started, "b", "t1"));
    assert!(!follow(&mut tm, &rt, &started, "a", "t1"));
    assert_eq!(started.get(), 1);
    assert_eq!(sorted(tm.get_all_task_subscribers(s("t1")).unwrap()), vec![s("a"), s("b")]);
}

#[test]
fn add_task_only_follows_until_recorded() {
    let rt = Runtime::new().unwrap();
    let mut tm = TaskManager::new();
    tm.create_websocket_session(s("a"));
    assert!(tm.add_task_to_websocket_session(s("a"), s("t1")));
    assert!(!tm.task_exists(&s("t1")));
    assert_eq!(tm.get_all_task_subscribers(s("t1")), Some(vec![s("a")]));
    tm.record_task(s("t1"), rt.spawn(async {}));
    assert!(tm.task_exists(&s("t1")));
    assert!(!tm.add_task_to_websocket_session(s("a"), s("t1")));
}

#[test]
fn add_task_for_unknown_socket_still_records_follower() {
    let rt = Runtime::new().unwrap();
    let n = Cell::new(0);
    let mut tm = TaskManager::new();
    assert!(follow(&mut tm, &rt, &n, "ghost", "t9"));
    assert!(tm.get_all_socket_ids().is_empty());
    assert_eq!(tm.get_all_task_subscribers(s("t9")), Some(vec![s("ghost")]));
}

#[test]
fn bye_removes_socket_everywhere() {
    let rt = Runtime::new().unwrap();
    let n = Cell::new(0);
    let mut tm = TaskManager::new();
    tm.create_websocket_session(s("a"));
    tm.create_websocket_session(s("b"));
    follow(&mut tm, &rt, &n, "a", "t1");
    follow(&mut tm, &rt, &n, "b", "t1");
    follow(&mut tm, &rt, &n, "a", "t2");
    tm.destroy_websocket_session(s("a"));
    assert_eq!(tm.get_all_socket_ids(), vec![s("b")]);
    assert_eq!(tm.get_all_task_subscribers(s("t1")), Some(vec![s("b")]));
    assert_eq!(tm.get_all_task_subscribers(s("t2")), Some(vec![]));
    tm.destroy_websocket_session(s("nobody"));
    assert_eq!(tm.get_all_socket_ids(), vec![s("b")]);
}

#[test]
fn abort_task_hands_back_the_tracked_handle() {
    let rt = Runtime::new().unwrap();
    let n = Cell::new(0);
    let mut tm = TaskManager::new();
    assert!(follow(&mut tm, &rt, &n, "a", "t1"));
    let stopped = tm.abort_task(&s("t1"));
    assert!(stopped.is_some());
    assert!(tm.abort_task(&s("never")).is_none());
    assert!(tm.abort_task(&s("t1")).is_none());
    assert!(follow(&mut tm, &rt, &n, "a", "t1"));
}

#[test]
fn clean_up_drops_finished_tasks_only() {
    let rt = Runtime::new().unwrap();
    let mut tm = TaskManager::new();
    let done = rt.spawn(async {});
    rt.block_on(async {
        while !done.is_finished() {
            tokio::task::yield_now().await;
        }
    });
    assert!(tm.add_task_to_websocket_session(s("a"), s("finished")));
    tm.record_task(s("finished"), done);
    let forever = rt.spawn(async {
        loop {
            tokio::time::sleep(std::time::Duration::from_secs(3600)).await;
        }
    });
    assert!(tm.add_task_to_websocket_session(s("a"), s("running")));
    tm.record_task(s("running"), forever);
    tm.clean_up_dead_tasks();
    assert!(!tm.task_exists(&s("finished")));
    assert!(tm.task_exists(&s("running")));
}

#[test]
fn finished_ids_keeps_stopped_trips_in_order() {
    let reports = vec![(s("a"), true), (s("b"), false), (s("c"), true)];
    assert_eq!(finished_ids(&reports), vec![s("a"), s("c")]);
    assert!(finished_ids(&vec![(s("x"), false)]).is_empty());
}

#[test]
fn remove_tasks_forgets_given_trips() {
    let rt = Runtime::new().unwrap();
    let n = Cell::new(0);
    let mut tm = TaskManager::new();
    follow(&mut tm, &rt, &n, "a", "t1");
    follow(&mut tm, &rt, &n, "a", "t2");
    tm.remove_tasks(&vec![s("t1"), s("t3")]);
    assert!(follow(&mut tm, &rt, &n, "a", "t1"));
    assert!(!follow(&mut tm, &rt, &n, "a", "t2"));
}

#[test]
fn deliver_update_publishes_to_followers() {
    let rt = Runtime::new().unwrap();
    let n = Cell::new(0);
    let mut tm = TaskManager::new();
    follow(&mut tm, &rt, &n, "a", "t1");
    follow(&mut tm, &rt, &n, "b", "t1");
    let (channels, stopped) = deliver_update(&mut tm, &s("t1"), true);
    assert!(stopped.is_none());
    assert_eq!(
        sorted(channels),
        vec![
            format!("{}_{}", PUBSUB_CHANNEL_OUT_PREFIX, "a"),
            format!("{}_{}", PUBSUB_CHANNEL_OUT_PREFIX, "b")
        ]
    );
    assert!(deliver_update(&mut tm, &s("t1"), false).0.is_empty());
    assert!(!follow(&mut tm, &rt, &n, "c", "t1"));
}

#[test]
fn deliver_update_stops_unfollowed_trip() {
    let rt = Runtime::new().unwrap();
    let n = Cell::new(0);
    let mut tm = TaskManager::new();
    tm.create_websocket_session(s("a"));
    follow(&mut tm, &rt, &n, "a", "t1");
    tm.destroy_websocket_session(s("a"));
    let (channels, stopped) = deliver_update(&mut tm, &s("t1"), true);
    assert!(channels.is_empty());
    assert!(stopped.is_some());
    assert!(follow(&mut tm, &rt, &n, "b", "t1"));
    let (channels, stopped) = deliver_update(&mut tm, &s("unknown"), true);
    assert!(channels.is_empty());
    assert!(stopped.is_none());
}

#[test]
fn request_trip_outcomes() {
    let rt = Runtime::new().unwrap();
    let mut tm = TaskManager::new();
    tm.create_websocket_session(s("a"));
    assert_eq!(request_trip(&mut tm, &s("a"), &s("t1"), true), TripRequestOutcome::Skipped);
    assert_eq!(tm.get_all_task_subscribers(s("t1")), None);
    assert_eq!(request_trip(&mut tm, &s("a"), &s("t1"), false), TripRequestOutcome::Started);
    tm.record_task(s("t1"), rt.spawn(async {}));
    assert_eq!(
        request_trip(&mut tm, &s("b"), &s("t1"), false),
        TripRequestOutcome::ServeCached {
            cache_key: format!("{}_{}", CACHE_KEY_PREFIX, "t1"),
            channel: format!("{}_{}", PUBSUB_CHANNEL_OUT_PREFIX, "b"),
        }
    );
}

#[test]
fn channel_and_key_names() {
    assert_eq!(socket_channel("abc"), format!("{}_abc", PUBSUB_CHANNEL_OUT_PREFIX));
    assert_eq!(cache_key("PerthRestricted:1"), format!("{}_PerthRestricted:1", CACHE_KEY_PREFIX));
}

#[test]
fn every_session_follows_every_train() {
    let rt = Runtime::new().unwrap();
    let n = Cell::new(0);
    let mut tm = TaskManager::new();
    tm.create_websocket_session(s("a"));
    tm.create_websocket_session(s("b"));
    follow(&mut tm, &rt, &n, "a", "y");
    let trains = vec![s("x"), s("y"), s("x")];
    let to_start = subscribe_sessions_to_trips(&mut tm, &trains);
    assert_eq!(to_start, vec![s("x")]);
    assert_eq!(sorted(tm.get_all_task_subscribers(s("x")).unwrap()), vec![s("a"), s("b")]);
    assert_eq!(sorted(tm.get_all_task_subscribers(s("y")).unwrap()), vec![s("a"), s("b")]);
    assert!(!tm.task_exists(&s("x")));
}

#[test]
fn no_session_means_no_train_task() {
    let mut tm = TaskManager::new();
    assert!(subscribe_sessions_to_trips(&mut tm, &vec![s("x")]).is_empty());
    assert_eq!(tm.get_all_task_subscribers(s("x")), None);
}

#[test]
fn followed_trips_keep_their_followers() {
    let rt = Runtime::new().unwrap();
    let n = Cell::new(0);
    let mut tm = TaskManager::new();
    tm.create_websocket_session(s("a"));
    tm.create_websocket_session(s("b"));
    follow(&mut tm, &rt, &n, "a", "t1");
    follow(&mut tm, &rt, &n, "b", "t1");
    follow(&mut tm, &rt, &n, "b", "t2");
    tm.destroy_websocket_session(s("a"));
    // Every tracked trip still has an entry of followers, and b is among the followers of
    // each trip it follows.
    assert_eq!(tm.get_all_task_subscribers(s("t1")), Some(vec![s("b")]));
    assert_eq!(tm.get_all_task_subscribers(s("t2")), Some(vec![s("b")]));
    tm.abort_task(&s("t2"));
    assert_eq!(tm.get_all_task_subscribers(s("t2")), Some(vec![s("b")]));
    assert_eq!(tm.get_all_socket_ids(), vec![s("b")]);
}

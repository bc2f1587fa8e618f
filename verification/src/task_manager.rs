//! Which websocket sessions follow which trips, and which trip tasks are running.
use crate::outside::task_handle_is_finished;
use crate::laws::{
    lemma_empty_is_consistent, lemma_fewer_tasks_keep_consistency,
    lemma_operations_keep_consistency, lemma_start_keeps_consistency,
};
use crate::string_map::StringMap;
use crate::text::string_views;
use tokio::task::JoinHandle;
use vstd::prelude::*;

verus! {

/// The texts of the strings in `v`.
pub open spec fn member_set(v: Seq<String>) -> Set<Seq<char>> {
    Set::new(|x: Seq<char>| exists|i: int| 0 <= i < v.len() && #[trigger] v[i]@ == x)
}

/// No text occurs twice in `v`.
pub open spec fn distinct_strings(v: Seq<String>) -> bool {
    forall|i: int, j: int|
        0 <= i < v.len() && 0 <= j < v.len() && i != j ==> #[trigger] v[i]@ != #[trigger] v[j]@
}

/// Each list of `m` read as the set of its texts.
pub open spec fn set_map(m: Map<Seq<char>, Vec<String>>) -> Map<Seq<char>, Set<Seq<char>>> {
    Map::new(|k: Seq<char>| m.contains_key(k), |k: Seq<char>| member_set(m[k]@))
}

/// No list of `m` holds a text twice.
pub open spec fn lists_distinct(m: Map<Seq<char>, Vec<String>>) -> bool {
    forall|k: Seq<char>| #[trigger] m.contains_key(k) ==> distinct_strings(m[k]@)
}

/// The state of a task manager.
pub struct TaskManagerView {
    /// Socket id to the trips the session follows.
    pub sessions: Map<Seq<char>, Set<Seq<char>>>,
    /// Trip id to the sockets that follow it.
    pub subscribers: Map<Seq<char>, Set<Seq<char>>>,
    /// Trip id to the handle of its running task.
    pub tasks: Map<Seq<char>, JoinHandle<()>>,
}

impl TaskManagerView {
    /// A socket said hello: it becomes a session following nothing, unless it already is one.
    pub open spec fn hello(self, s: Seq<char>) -> TaskManagerView {
        if self.sessions.contains_key(s) {
            self
        } else {
            TaskManagerView { sessions: self.sessions.insert(s, Set::empty()), ..self }
        }
    }

    /// A socket said bye: its session ends and it follows no trip any more.
    pub open spec fn bye(self, s: Seq<char>) -> TaskManagerView {
        TaskManagerView {
            sessions: self.sessions.remove(s),
            subscribers: Map::new(
                |t: Seq<char>| self.subscribers.contains_key(t),
                |t: Seq<char>| self.subscribers[t].remove(s),
            ),
            tasks: self.tasks,
        }
    }

    /// The socket `s` follows the trip `t`: the trip joins the session's list if `s` is a
    /// session, and `s` joins the trip's followers in any case.
    pub open spec fn subscribe(self, s: Seq<char>, t: Seq<char>) -> TaskManagerView {
        TaskManagerView {
            sessions: if self.sessions.contains_key(s) {
                self.sessions.insert(s, self.sessions[s].insert(t))
            } else {
                self.sessions
            },
            subscribers: self.subscribers.insert(
                t,
                if self.subscribers.contains_key(t) {
                    self.subscribers[t]
                } else {
                    Set::empty()
                }.insert(s),
            ),
            tasks: self.tasks,
        }
    }

    /// The task of trip `t` runs under the handle `h`.
    pub open spec fn start(self, t: Seq<char>, h: JoinHandle<()>) -> TaskManagerView {
        TaskManagerView { tasks: self.tasks.insert(t, h), ..self }
    }

    /// The task of trip `t` is no longer tracked.
    pub open spec fn abort(self, t: Seq<char>) -> TaskManagerView {
        TaskManagerView { tasks: self.tasks.remove(t), ..self }
    }

    /// Every tracked task belongs to a trip with an entry of followers, and every trip on a
    /// session's list has that session among its followers.
    pub open spec fn consistent(self) -> bool {
        &&& forall|t: Seq<char>| #[trigger]
            self.tasks.contains_key(t) ==> self.subscribers.contains_key(t)
        &&& forall|s: Seq<char>, t: Seq<char>|
            self.sessions.contains_key(s) && #[trigger] self.sessions[s].contains(t)
                ==> self.subscribers.contains_key(t) && self.subscribers[t].contains(s)
    }

    /// The tasks of the trips in `dead` are no longer tracked.
    pub open spec fn without_tasks(self, dead: Set<Seq<char>>) -> TaskManagerView {
        TaskManagerView { tasks: self.tasks.remove_keys(dead), ..self }
    }
}

/// Tracks websocket sessions, the trips they follow and the tasks that poll those trips.
pub struct TaskManager {
    websocket_subscriptions: StringMap<Vec<String>>,
    task_subscribers: StringMap<Vec<String>>,
    existing_tasks: StringMap<JoinHandle<()>>,
}

/// A copy of `v`, string by string.
fn copy_strings(v: &Vec<String>) -> (r: Vec<String>)
    ensures
        r@.len() == v@.len(),
        forall|i: int| 0 <= i < v@.len() ==> #[trigger] r@[i]@ == v@[i]@,
        member_set(r@) == member_set(v@),
        distinct_strings(v@) ==> distinct_strings(r@),
{
    let mut r: Vec<String> = Vec::new();
    let mut i: usize = 0;
    while i < v.len()
        invariant
            i <= v@.len(),
            r@.len() == i,
            forall|j: int| 0 <= j < i ==> #[trigger] r@[j]@ == v@[j]@,
        decreases v@.len() - i,
    {
        r.push(v[i].clone());
        i = i + 1;
    }
    assert forall|x: Seq<char>| member_set(r@).contains(x) <==> member_set(v@).contains(x) by {
        if member_set(r@).contains(x) {
            let j = choose|j: int| 0 <= j < r@.len() && #[trigger] r@[j]@ == x;
            assert(v@[j]@ == x);
        }
        if member_set(v@).contains(x) {
            let j = choose|j: int| 0 <= j < v@.len() && #[trigger] v@[j]@ == x;
            assert(r@[j]@ == x);
        }
    }
    assert(member_set(r@) =~= member_set(v@));
    r
}

/// Whether `s` is one of the strings of `v`.
fn contains_string(v: &Vec<String>, s: &String) -> (r: bool)
    ensures
        r == member_set(v@).contains(s@),
{
    let mut i: usize = 0;
    while i < v.len()
        invariant
            i <= v@.len(),
            forall|j: int| 0 <= j < i ==> #[trigger] v@[j]@ != s@,
        decreases v@.len() - i,
    {
        if v[i] == *s {
            return true;
        }
        i = i + 1;
    }
    false
}

/// `v` with `s` added unless it is there already.
pub fn with_string(v: &Vec<String>, s: String) -> (r: Vec<String>)
    requires
        distinct_strings(v@),
    ensures
        member_set(r@) == member_set(v@).insert(s@),
        distinct_strings(r@),
{
    let present = contains_string(v, &s);
    let mut r = copy_strings(v);
    if !present {
        let ghost before = r@;
        r.push(s);
        proof {
            assert forall|x: Seq<char>| member_set(r@).contains(x) <==> member_set(
                before,
            ).insert(s@).contains(x) by {
                if member_set(r@).contains(x) {
                    let j = choose|j: int| 0 <= j < r@.len() && #[trigger] r@[j]@ == x;
                    if j < before.len() {
                        assert(before[j]@ == x);
                    }
                }
                if member_set(before).contains(x) {
                    let j = choose|j: int| 0 <= j < before.len() && #[trigger] before[j]@ == x;
                    assert(r@[j]@ == x);
                }
                if x == s@ {
                    assert(r@[before.len() as int]@ == x);
                }
            }
            assert(member_set(r@) =~= member_set(v@).insert(s@));
            assert forall|i: int, j: int|
                0 <= i < r@.len() && 0 <= j < r@.len() && i != j implies #[trigger] r@[i]@
                != #[trigger] r@[j]@ by {
                if i < before.len() && j < before.len() {
                    assert(v@[i]@ == r@[i]@ && v@[j]@ == r@[j]@);
                } else if i < before.len() {
                    assert(v@[i]@ == r@[i]@);
                } else {
                    assert(v@[j]@ == r@[j]@);
                }
            }
        }
    } else {
        assert(member_set(r@) =~= member_set(v@).insert(s@));
    }
    r
}

/// `v` without `s`.
fn without_string(v: &Vec<String>, s: &String) -> (r: Vec<String>)
    requires
        distinct_strings(v@),
    ensures
        member_set(r@) == member_set(v@).remove(s@),
        distinct_strings(r@),
{
    let mut r: Vec<String> = Vec::new();
    let ghost mut origin: Seq<int> = Seq::empty();
    let mut i: usize = 0;
    while i < v.len()
        invariant
            i <= v@.len(),
            distinct_strings(v@),
            origin.len() == r@.len(),
            forall|j: int|
                0 <= j < r@.len() ==> 0 <= #[trigger] origin[j] < i && r@[j]@ == v@[origin[j]]@,
            forall|a: int, b: int|
                0 <= a < b < r@.len() ==> #[trigger] origin[a] < #[trigger] origin[b],
            forall|j: int| 0 <= j < r@.len() ==> #[trigger] r@[j]@ != s@,
            forall|k: int|
                0 <= k < i && v@[k]@ != s@ ==> exists|j: int|
                    0 <= j < r@.len() && #[trigger] origin[j] == k,
        decreases v@.len() - i,
    {
        if v[i] != *s {
            r.push(v[i].clone());
            proof {
                let old_origin = origin;
                origin = origin.push(i as int);
                assert forall|k: int|
                    0 <= k < i + 1 && v@[k]@ != s@ implies exists|j: int|
                    0 <= j < r@.len() && #[trigger] origin[j] == k by {
                    if k == i {
                        assert(origin[old_origin.len() as int] == k);
                    } else {
                        let j = choose|j: int|
                            0 <= j < old_origin.len() && #[trigger] old_origin[j] == k;
                        assert(origin[j] == k);
                    }
                }
            }
        }
        i = i + 1;
    }
    proof {
        assert forall|x: Seq<char>| member_set(r@).contains(x) <==> member_set(v@).remove(
            s@,
        ).contains(x) by {
            if member_set(r@).contains(x) {
                let j = choose|j: int| 0 <= j < r@.len() && #[trigger] r@[j]@ == x;
                assert(v@[origin[j]]@ == x);
            }
            if member_set(v@).remove(s@).contains(x) {
                let k = choose|k: int| 0 <= k < v@.len() && #[trigger] v@[k]@ == x;
                let j = choose|j: int| 0 <= j < r@.len() && #[trigger] origin[j] == k;
                assert(r@[j]@ == x);
            }
        }
        assert(member_set(r@) =~= member_set(v@).remove(s@));
        assert forall|a: int, b: int|
            0 <= a < r@.len() && 0 <= b < r@.len() && a != b implies #[trigger] r@[a]@
            != #[trigger] r@[b]@ by {
            if a < b {
                assert(origin[a] < origin[b]);
            } else {
                assert(origin[b] < origin[a]);
            }
        }
    }
    r
}

impl TaskManager {
    /// The internal maps are consistent.
    pub closed spec fn wf(&self) -> bool {
        &&& self.websocket_subscriptions.wf()
        &&& self.task_subscribers.wf()
        &&& self.existing_tasks.wf()
        &&& lists_distinct(self.websocket_subscriptions.view())
        &&& lists_distinct(self.task_subscribers.view())
    }

    /// The sessions, the followers of each trip and the running tasks.
    pub closed spec fn view(&self) -> TaskManagerView {
        TaskManagerView {
            sessions: set_map(self.websocket_subscriptions.view()),
            subscribers: set_map(self.task_subscribers.view()),
            tasks: self.existing_tasks.view(),
        }
    }

    /// A manager with no sessions, no followers and no tasks.
    pub fn new() -> (tm: TaskManager)
        ensures
            tm.wf(),
            tm.view().sessions == Map::<Seq<char>, Set<Seq<char>>>::empty(),
            tm.view().subscribers == Map::<Seq<char>, Set<Seq<char>>>::empty(),
            tm.view().tasks == Map::<Seq<char>, JoinHandle<()>>::empty(),
            tm.view().consistent(),
    {
        let tm = TaskManager {
            websocket_subscriptions: StringMap::new(),
            existing_tasks: StringMap::new(),
            task_subscribers: StringMap::new(),
        };
        assert(tm.view().sessions =~= Map::<Seq<char>, Set<Seq<char>>>::empty());
        assert(tm.view().subscribers =~= Map::<Seq<char>, Set<Seq<char>>>::empty());
        proof {
            lemma_empty_is_consistent();
        }
        tm
    }

    /// A socket says hello; a socket that already did is left as it is.
    pub fn create_websocket_session(&mut self, socket_id: String)
        requires
            old(self).wf(),
        ensures
            final(self).wf(),
            final(self).view() == old(self).view().hello(socket_id@),
            old(self).view().consistent() ==> final(self).view().consistent(),
    {
        proof {
            if old(self).view().consistent() {
                lemma_operations_keep_consistency(
                    old(self).view(),
                    socket_id@,
                    socket_id@,
                    vstd::pervasive::arbitrary(),
                    Set::empty(),
                );
            }
        }
        if !self.websocket_subscriptions.contains_key(&socket_id) {
            let ghost before = self.websocket_subscriptions.view();
            let ghost k = socket_id@;
            let empty: Vec<String> = Vec::new();
            self.websocket_subscriptions.insert(socket_id, empty);
            proof {
                assert(member_set(empty@) =~= Set::<Seq<char>>::empty());
                assert(set_map(self.websocket_subscriptions.view()) =~= set_map(before).insert(
                    k,
                    Set::empty(),
                ));
            }
        }
    }

    /// A socket says bye: its session ends and it is taken off every trip's followers.
    pub fn destroy_websocket_session(&mut self, socket_id: String)
        requires
            old(self).wf(),
        ensures
            final(self).wf(),
            final(self).view() == old(self).view().bye(socket_id@),
            old(self).view().consistent() ==> final(self).view().consistent(),
    {
        proof {
            if old(self).view().consistent() {
                lemma_operations_keep_consistency(
                    old(self).view(),
                    socket_id@,
                    socket_id@,
                    vstd::pervasive::arbitrary(),
                    Set::empty(),
                );
            }
        }
        let ghost s = socket_id@;
        let ghost old_ws = self.websocket_subscriptions.view();
        let ghost old_ts = self.task_subscribers.view();
        self.websocket_subscriptions.remove(&socket_id);
        proof {
            assert(set_map(self.websocket_subscriptions.view()) =~= set_map(old_ws).remove(s));
        }
        let keys = self.task_subscribers.keys();
        let mut i: usize = 0;
        while i < keys.len()
            invariant
                i <= keys@.len(),
                s == socket_id@,
                old_ts == old(self).task_subscribers.view(),
                self.websocket_subscriptions.wf(),
                self.existing_tasks.wf(),
                lists_distinct(self.websocket_subscriptions.view()),
                set_map(self.websocket_subscriptions.view()) == old(self).view().sessions.remove(s),
                self.existing_tasks.view() == old(self).existing_tasks.view(),
                self.task_subscribers.wf(),
                lists_distinct(self.task_subscribers.view()),
                self.task_subscribers.view().dom() == old_ts.dom(),
                forall|a: int, b: int|
                    0 <= a < keys@.len() && 0 <= b < keys@.len() && a != b ==> #[trigger] keys@[a]@
                        != #[trigger] keys@[b]@,
                forall|k: Seq<char>|
                    old_ts.contains_key(k) <==> exists|j: int|
                        0 <= j < keys@.len() && #[trigger] keys@[j]@ == k,
                forall|j: int|
                    0 <= j < i ==> member_set(self.task_subscribers.view()[#[trigger] keys@[j]@]@)
                        == member_set(old_ts[keys@[j]@]@).remove(s),
                forall|j: int|
                    i <= j < keys@.len() ==> self.task_subscribers.view()[#[trigger] keys@[j]@]
                        == old_ts[keys@[j]@],
            decreases keys@.len() - i,
        {
            let key = &keys[i];
            proof {
                assert(old_ts.contains_key(key@));
            }
            let members = self.task_subscribers.get(key);
            match members {
                Some(list) => {
                    let found = contains_string(list, &socket_id);
                    if found {
                        let trimmed = without_string(list, &socket_id);
                        let ghost before = self.task_subscribers.view();
                        self.task_subscribers.insert(key.clone(), trimmed);
                        proof {
                            assert forall|j: int|
                                0 <= j < keys@.len() && j != i implies self.task_subscribers.view()[#[trigger] keys@[j]@]
                                == before[keys@[j]@] by {
                                assert(keys@[j]@ != keys@[i as int]@);
                            }
                            assert(self.task_subscribers.view().dom() =~= old_ts.dom());
                        }
                    } else {
                        proof {
                            assert(!member_set(list@).contains(s));
                            assert(member_set(list@).remove(s) =~= member_set(list@));
                        }
                    }
                },
                None => {},
            }
            i = i + 1;
        }
        proof {
            let new_subs = set_map(self.task_subscribers.view());
            let expected = old(self).view().bye(s).subscribers;
            assert forall|k: Seq<char>| new_subs.contains_key(k) implies new_subs[k]
                == expected[k] by {
                let j = choose|j: int| 0 <= j < keys@.len() && #[trigger] keys@[j]@ == k;
            }
            assert(new_subs =~= expected);
        }
    }

    /// Whether a task for the trip is tracked.
    pub fn task_exists(&self, task_id: &String) -> (r: bool)
        requires
            self.wf(),
        ensures
            r == self.view().tasks.contains_key(task_id@),
    {
        self.existing_tasks.contains_key(task_id)
    }

    /// Stops tracking the trip's task and hands back its handle, for the caller to cancel; an
    /// untracked trip is left as it is and nothing is handed back.
    pub fn abort_task(&mut self, task_id: &String) -> (stopped: Option<JoinHandle<()>>)
        requires
            old(self).wf(),
        ensures
            final(self).wf(),
            final(self).view() == old(self).view().abort(task_id@),
            stopped == old(self).view().tasks.get(task_id@),
            old(self).view().consistent() ==> final(self).view().consistent(),
    {
        proof {
            if old(self).view().consistent() {
                lemma_operations_keep_consistency(
                    old(self).view(),
                    task_id@,
                    task_id@,
                    vstd::pervasive::arbitrary(),
                    Set::empty(),
                );
            }
        }
        self.existing_tasks.remove(task_id)
    }

    /// The socket follows the trip. Says whether the trip has no task yet: then, and only
    /// then, the caller is to start one and hand its handle to `record_task`.
    pub fn add_task_to_websocket_session(&mut self, socket_id: String, task_id: String) -> (created:
        bool)
        requires
            old(self).wf(),
        ensures
            final(self).wf(),
            created == !old(self).view().tasks.contains_key(task_id@),
            final(self).view() == old(self).view().subscribe(socket_id@, task_id@),
            old(self).view().consistent() ==> final(self).view().consistent(),
    {
        let ghost s = socket_id@;
        let ghost t = task_id@;
        let ghost old_ws = self.websocket_subscriptions.view();
        let ghost old_ts = self.task_subscribers.view();
        match self.websocket_subscriptions.get(&socket_id) {
            Some(list) => {
                let grown = with_string(list, task_id.clone());
                self.websocket_subscriptions.insert(socket_id.clone(), grown);
                proof {
                    assert(set_map(self.websocket_subscriptions.view()) =~= set_map(old_ws).insert(
                        s,
                        set_map(old_ws)[s].insert(t),
                    ));
                }
            },
            None => {},
        }
        let grown = match self.task_subscribers.get(&task_id) {
            Some(list) => with_string(list, socket_id),
            None => {
                let empty: Vec<String> = Vec::new();
                proof {
                    assert(member_set(empty@) =~= Set::<Seq<char>>::empty());
                }
                with_string(&empty, socket_id)
            },
        };
        self.task_subscribers.insert(task_id.clone(), grown);
        proof {
            assert(set_map(self.task_subscribers.view()) =~= old(self).view().subscribe(
                s,
                t,
            ).subscribers);
            assert(set_map(self.websocket_subscriptions.view()) =~= old(self).view().subscribe(
                s,
                t,
            ).sessions);
        }
        proof {
            if old(self).view().consistent() {
                lemma_operations_keep_consistency(
                    old(self).view(),
                    s,
                    t,
                    vstd::pervasive::arbitrary(),
                    Set::empty(),
                );
            }
        }
        !self.task_exists(&task_id)
    }

    /// The trip's newly started task runs under `handle`. A trip that is followed keeps the
    /// manager consistent.
    pub fn record_task(&mut self, task_id: String, handle: JoinHandle<()>)
        requires
            old(self).wf(),
            !old(self).view().tasks.contains_key(task_id@),
        ensures
            final(self).wf(),
            final(self).view() == old(self).view().start(task_id@, handle),
            old(self).view().consistent() && old(self).view().subscribers.contains_key(task_id@)
                ==> final(self).view().consistent(),
    {
        proof {
            if old(self).view().consistent() && old(self).view().subscribers.contains_key(task_id@) {
                lemma_start_keeps_consistency(old(self).view(), task_id@, handle);
            }
        }
        self.existing_tasks.insert(task_id, handle);
    }

    /// The sockets that follow the trip, each once, if the trip was ever followed.
    pub fn get_all_task_subscribers(&self, task_id: String) -> (r: Option<Vec<String>>)
        requires
            self.wf(),
        ensures
            match r {
                Some(v) => self.view().subscribers.contains_key(task_id@) && member_set(v@)
                    == self.view().subscribers[task_id@] && distinct_strings(v@),
                None => !self.view().subscribers.contains_key(task_id@),
            },
    {
        match self.task_subscribers.get(&task_id) {
            Some(list) => Some(copy_strings(list)),
            None => None,
        }
    }

    /// Always healthy: there is nothing yet that could make it otherwise.
    pub fn is_healthy(&self) -> (r: bool)
        ensures
            r,
    {
        true
    }

    /// The sessions' socket ids, each once.
    pub fn get_all_socket_ids(&self) -> (r: Vec<String>)
        requires
            self.wf(),
        ensures
            member_set(r@) == self.view().sessions.dom(),
            distinct_strings(r@),
    {
        let r = self.websocket_subscriptions.keys();
        assert(member_set(r@) =~= self.view().sessions.dom());
        r
    }

    /// For each tracked trip, whether the runtime reports its task as stopped.
    /// Each report is what `is_finished` answered for that trip's own handle.
    fn task_reports<F: Fn(&JoinHandle<()>) -> bool>(&self, is_finished: F) -> (r: Vec<
        (String, bool),
    >)
        requires
            self.wf(),
            forall|h: &JoinHandle<()>| call_requires(is_finished, (h,)),
        ensures
            reports_cover(self.view().tasks.dom(), r@),
            forall|j: int|
                0 <= j < r@.len() ==> call_ensures(
                    is_finished,
                    (&self.view().tasks[#[trigger] r@[j].0@],),
                    r@[j].1,
                ),
    {
        let keys = self.existing_tasks.keys();
        let mut reports: Vec<(String, bool)> = Vec::new();
        let mut i: usize = 0;
        while i < keys.len()
            invariant
                i <= keys@.len(),
                self.wf(),
                forall|k: Seq<char>|
                    self.view().tasks.contains_key(k) <==> exists|j: int|
                        0 <= j < keys@.len() && #[trigger] keys@[j]@ == k,
                reports@.len() == i,
                forall|j: int| 0 <= j < i ==> #[trigger] reports@[j].0@ == keys@[j]@,
                forall|h: &JoinHandle<()>| call_requires(is_finished, (h,)),
                forall|j: int|
                    0 <= j < i ==> call_ensures(
                        is_finished,
                        (&self.view().tasks[#[trigger] reports@[j].0@],),
                        reports@[j].1,
                    ),
            decreases keys@.len() - i,
        {
            let key = &keys[i];
            proof {
                assert(self.view().tasks.contains_key(key@));
            }
            let finished = match self.existing_tasks.get(key) {
                Some(handle) => is_finished(handle),
                None => false,
            };
            reports.push((key.clone(), finished));
            i = i + 1;
        }
        proof {
            assert forall|j: int| 0 <= j < reports@.len() implies self.view().tasks.dom().contains(
                #[trigger] reports@[j].0@,
            ) by {
                assert(keys@[j]@ == reports@[j].0@);
            }
            assert forall|k: Seq<char>| self.view().tasks.dom().contains(k) implies exists|j: int|
                0 <= j < reports@.len() && #[trigger] reports@[j].0@ == k by {
                let j = choose|j: int| 0 <= j < keys@.len() && #[trigger] keys@[j]@ == k;
                assert(reports@[j].0@ == k);
            }
        }
        reports
    }

    /// Stops tracking the tasks of the given trips.
    pub fn remove_tasks(&mut self, dead: &Vec<String>)
        requires
            old(self).wf(),
        ensures
            final(self).wf(),
            final(self).view() == old(self).view().without_tasks(member_set(dead@)),
            old(self).view().consistent() ==> final(self).view().consistent(),
    {
        proof {
            if old(self).view().consistent() {
                lemma_operations_keep_consistency(
                    old(self).view(),
                    Seq::empty(),
                    Seq::empty(),
                    vstd::pervasive::arbitrary(),
                    member_set(dead@),
                );
            }
        }
        let ghost old_tasks = self.existing_tasks.view();
        let mut i: usize = 0;
        while i < dead.len()
            invariant
                i <= dead@.len(),
                self.wf(),
                self.view().sessions == old(self).view().sessions,
                self.view().subscribers == old(self).view().subscribers,
                self.existing_tasks.view() == old_tasks.remove_keys(
                    member_set(dead@.take(i as int)),
                ),
            decreases dead@.len() - i,
        {
            let ghost before = self.existing_tasks.view();
            self.existing_tasks.remove(&dead[i]);
            proof {
                assert(member_set(dead@.take(i + 1)) =~= member_set(dead@.take(i as int)).insert(
                    dead@[i as int]@,
                )) by {
                    assert forall|x: Seq<char>| member_set(dead@.take(i + 1)).contains(x) implies member_set(
                        dead@.take(i as int),
                    ).insert(dead@[i as int]@).contains(x) by {
                        let j = choose|j: int|
                            0 <= j < dead@.take(i + 1).len() && #[trigger] dead@.take(i + 1)[j]@
                                == x;
                        if j < i {
                            assert(dead@.take(i as int)[j]@ == x);
                        }
                    }
                    assert forall|x: Seq<char>| member_set(dead@.take(i as int)).insert(
                        dead@[i as int]@,
                    ).contains(x) implies member_set(dead@.take(i + 1)).contains(x) by {
                        if x == dead@[i as int]@ {
                            assert(dead@.take(i + 1)[i as int]@ == x);
                        } else {
                            let j = choose|j: int|
                                0 <= j < dead@.take(i as int).len() && #[trigger] dead@.take(
                                    i as int,
                                )[j]@ == x;
                            assert(dead@.take(i + 1)[j]@ == x);
                        }
                    }
                }
                assert(self.existing_tasks.view() =~= old_tasks.remove_keys(
                    member_set(dead@.take(i + 1)),
                ));
            }
            i = i + 1;
        }
        proof {
            assert(dead@.take(dead@.len() as int) =~= dead@);
        }
    }

    /// Stops tracking every task that the runtime reports as stopped: each tracked trip is
    /// reported on once, and exactly the trips reported stopped are dropped. What the runtime
    /// reports is its own business.
    pub fn clean_up_dead_tasks(&mut self)
        requires
            old(self).wf(),
        ensures
            final(self).wf(),
            exists|reports: Seq<(String, bool)>|
                #[trigger] reports_cover(old(self).view().tasks.dom(), reports) && (forall|j: int|
                    0 <= j < reports.len() ==> reported_by_runtime(
                        old(self).view().tasks[#[trigger] reports[j].0@],
                        reports[j].1,
                    )) && final(self).view() == old(self).view().without_tasks(
                    finished_seq(reports).to_set(),
                ),
            old(self).view().consistent() ==> final(self).view().consistent(),
    {
        let reports = self.task_reports(task_handle_is_finished);
        let dead = finished_ids(&reports);
        self.remove_tasks(&dead);
        proof {
            lemma_member_set_is_views(dead@);
            assert(reports_cover(old(self).view().tasks.dom(), reports@));
            if old(self).view().consistent() {
                lemma_fewer_tasks_keep_consistency(old(self).view(), self.view());
            }
        }
    }
}

/// `finished` is an answer that `JoinHandle::is_finished` gave for the task of `h`.
pub closed spec fn reported_by_runtime(h: JoinHandle<()>, finished: bool) -> bool {
    call_ensures(task_handle_is_finished, (&h,), finished)
}

/// `reports` speaks of the trips of `trips` and of no other, each at least once.
pub open spec fn reports_cover(trips: Set<Seq<char>>, reports: Seq<(String, bool)>) -> bool {
    &&& forall|j: int| 0 <= j < reports.len() ==> trips.contains(#[trigger] reports[j].0@)
    &&& forall|k: Seq<char>|
        trips.contains(k) ==> exists|j: int| 0 <= j < reports.len() && #[trigger] reports[j].0@ == k
}

/// The trips reported as stopped, in the order of the reports.
pub open spec fn finished_seq(reports: Seq<(String, bool)>) -> Seq<Seq<char>>
    decreases reports.len(),
{
    if reports.len() == 0 {
        Seq::empty()
    } else {
        let rest = finished_seq(reports.drop_last());
        if reports.last().1 {
            rest.push(reports.last().0@)
        } else {
            rest
        }
    }
}

/// The trips of the reports that say stopped, in the order of the reports.
pub fn finished_ids(reports: &Vec<(String, bool)>) -> (r: Vec<String>)
    ensures
        string_views(r@) == finished_seq(reports@),
{
    let mut r: Vec<String> = Vec::new();
    let mut i: usize = 0;
    while i < reports.len()
        invariant
            i <= reports@.len(),
            string_views(r@) == finished_seq(reports@.take(i as int)),
        decreases reports@.len() - i,
    {
        let ghost before = r@;
        proof {
            assert(reports@.take(i + 1).drop_last() =~= reports@.take(i as int));
        }
        if reports[i].1 {
            r.push(reports[i].0.clone());
            proof {
                assert(string_views(r@) =~= string_views(before).push(reports@[i as int].0@));
            }
        }
        i = i + 1;
    }
    proof {
        assert(reports@.take(reports@.len() as int) =~= reports@);
    }
    r
}

/// The first `i + 1` strings of `v` hold the texts of the first `i` and that of the next.
pub proof fn lemma_member_set_take_push(v: Seq<String>, i: int)
    requires
        0 <= i < v.len(),
    ensures
        member_set(v.take(i + 1)) == member_set(v.take(i)).insert(v[i]@),
{
    let next = member_set(v.take(i + 1));
    let prev = member_set(v.take(i));
    assert forall|x: Seq<char>| next.contains(x) <==> prev.insert(v[i]@).contains(x) by {
        if next.contains(x) {
            let j = choose|j: int| 0 <= j < v.take(i + 1).len() && #[trigger] v.take(i + 1)[j]@ == x;
            if j < i {
                assert(v.take(i)[j]@ == x);
            }
        }
        if prev.insert(v[i]@).contains(x) {
            if x == v[i]@ {
                assert(v.take(i + 1)[i]@ == x);
            } else {
                let j = choose|j: int| 0 <= j < v.take(i).len() && #[trigger] v.take(i)[j]@ == x;
                assert(v.take(i + 1)[j]@ == x);
            }
        }
    }
    assert(next =~= prev.insert(v[i]@));
}

/// No string comes before the first.
pub proof fn lemma_member_set_empty_prefix(v: Seq<String>)
    ensures
        member_set(v.take(0)) == Set::<Seq<char>>::empty(),
{
    assert(member_set(v.take(0)) =~= Set::<Seq<char>>::empty());
}

/// The texts of the strings of `v` are those of its views.
pub proof fn lemma_member_set_is_views(v: Seq<String>)
    ensures
        member_set(v) == string_views(v).to_set(),
{
    assert forall|x: Seq<char>| member_set(v).contains(x) <==> string_views(v).to_set().contains(x) by {
        if member_set(v).contains(x) {
            let j = choose|j: int| 0 <= j < v.len() && #[trigger] v[j]@ == x;
            assert(string_views(v)[j] == x);
        }
        if string_views(v).to_set().contains(x) {
            let j = choose|j: int| 0 <= j < string_views(v).len() && string_views(v)[j] == x;
            assert(v[j]@ == x);
        }
    }
    assert(member_set(v) =~= string_views(v).to_set());
}

} // verus!

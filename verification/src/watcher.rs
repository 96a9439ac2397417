//! The registry of running streams (resource watches and log tails): at most
//! one task per stream key, replaced and cleaned up in a fixed way, and the
//! decisions that a running task takes on what it reads.
//!
//! A task itself (its spawning, its reads, the delivery of its messages) is
//! the caller's. The caller holds a handle for each task; the registry keeps
//! the handles by key and says which one is to be aborted.

use vstd::prelude::*;

verus! {

// ---------------------------------------------------------------------------
// Keys and event names
// ---------------------------------------------------------------------------

/// The key of the watch of the pods of one namespace of one cluster.
pub fn pod_watch_key(cluster_id: &str, namespace: &str) -> (key: String)
    ensures
        key@ == "pod_watch:"@ + cluster_id@ + ":"@ + namespace@,
{
    let mut key = String::from_str("pod_watch:");
    key.append(cluster_id);
    key.append(":");
    key.append(namespace);
    key
}

/// The key of the log tail `stream_id`.
pub fn log_stream_key(stream_id: &str) -> (key: String)
    ensures
        key@ == "logs:"@ + stream_id@,
{
    let mut key = String::from_str("logs:");
    key.append(stream_id);
    key
}

/// The name of the event that carries the lines of the log tail
/// `stream_id`.
pub fn log_event_name(stream_id: &str) -> (name: String)
    ensures
        name@ == "container_logs_"@ + stream_id@,
{
    let mut name = String::from_str("container_logs_");
    name.append(stream_id);
    name
}

/// The name of the event that carries the changes of a pod watch.
pub fn pod_event_name() -> (name: String)
    ensures
        name@ == "pod_event"@,
{
    String::from_str("pod_event")
}

/// How many lines of its past a log tail starts with.
pub const LOG_TAIL_LINES: i64 = 1000;

/// What a watch covers.
#[derive(Debug, Clone, Copy, PartialEq, Eq, Structural)]
pub enum WatchScope {
    AllNamespaces,
    Namespace,
}

/// The scope that a namespace argument asks for: `all` stands for every
/// namespace, anything else names one.
pub fn watch_scope(namespace: &str) -> (scope: WatchScope)
    ensures
        scope == if namespace@ == "all"@ {
            WatchScope::AllNamespaces
        } else {
            WatchScope::Namespace
        },
{
    let given = String::from_str(namespace);
    let all = String::from_str("all");
    if given == all {
        WatchScope::AllNamespaces
    } else {
        WatchScope::Namespace
    }
}

// ---------------------------------------------------------------------------
// What a running task decides
// ---------------------------------------------------------------------------

/// What a watch reports of a resource, in the terms of the watch itself.
#[derive(Debug, Clone, Copy, PartialEq, Eq, Structural)]
pub enum WatchSignal {
    /// The resource was added or modified.
    Apply,
    /// The resource was deleted.
    Delete,
    /// A listing of the resources begins.
    Init,
    /// The resource is part of the listing.
    InitApply,
    /// The listing is complete.
    InitDone,
}

/// The kind of change that is sent outward for a pod.
#[derive(Debug, Clone, Copy, PartialEq, Eq, Structural)]
pub enum PodChange {
    Added,
    Deleted,
}

/// The change sent outward for a signal: an applied or listed pod counts as
/// added, a deleted one as deleted; the marks of a listing are not sent.
pub open spec fn change_of(signal: WatchSignal) -> Option<PodChange> {
    match signal {
        WatchSignal::Apply => Some(PodChange::Added),
        WatchSignal::InitApply => Some(PodChange::Added),
        WatchSignal::Delete => Some(PodChange::Deleted),
        WatchSignal::Init => None,
        WatchSignal::InitDone => None,
    }
}

pub fn pod_change(signal: WatchSignal) -> (change: Option<PodChange>)
    ensures
        change == change_of(signal),
{
    match signal {
        WatchSignal::Apply => Some(PodChange::Added),
        WatchSignal::InitApply => Some(PodChange::Added),
        WatchSignal::Delete => Some(PodChange::Deleted),
        WatchSignal::Init => None,
        WatchSignal::InitDone => None,
    }
}

/// What a watch task read from its stream.
#[derive(Debug, Clone, Copy, PartialEq, Eq, Structural)]
pub enum WatchRead {
    Signal(WatchSignal),
    /// The stream reported an error; it goes on afterwards.
    Failed,
    /// The stream has ended.
    End,
}

/// What a log task read from its stream.
#[derive(Debug, Clone, Copy, PartialEq, Eq, Structural)]
pub enum LogRead {
    Line,
    /// Reading failed.
    Failed,
    /// The stream has ended.
    End,
}

/// What a task does next.
#[derive(Debug, Clone, Copy, PartialEq, Eq, Structural)]
pub enum TaskStep {
    /// Send this change outward, then go by `after_delivery`.
    SendChange(PodChange),
    /// Send the line outward, then go by `after_delivery`.
    SendLine,
    /// Read on.
    ReadOn,
    /// Stop, and remove the task's entry from the registry.
    Stop,
}

/// The step of a watch task after a read: a change is sent, a mark of a
/// listing or an error of the stream is passed over, the end of the stream
/// stops the task.
pub open spec fn watch_step_of(read: WatchRead) -> TaskStep {
    match read {
        WatchRead::Signal(signal) => match change_of(signal) {
            Some(change) => TaskStep::SendChange(change),
            None => TaskStep::ReadOn,
        },
        WatchRead::Failed => TaskStep::ReadOn,
        WatchRead::End => TaskStep::Stop,
    }
}

pub fn watch_step(read: WatchRead) -> (step: TaskStep)
    ensures
        step == watch_step_of(read),
{
    match read {
        WatchRead::Signal(signal) => match pod_change(signal) {
            Some(change) => TaskStep::SendChange(change),
            None => TaskStep::ReadOn,
        },
        WatchRead::Failed => TaskStep::ReadOn,
        WatchRead::End => TaskStep::Stop,
    }
}

/// The step of a log task after a read: a line is sent; the end of the
/// stream and a failed read both stop the task.
pub open spec fn log_step_of(read: LogRead) -> TaskStep {
    match read {
        LogRead::Line => TaskStep::SendLine,
        LogRead::Failed => TaskStep::Stop,
        LogRead::End => TaskStep::Stop,
    }
}

pub fn log_step(read: LogRead) -> (step: TaskStep)
    ensures
        step == log_step_of(read),
{
    match read {
        LogRead::Line => TaskStep::SendLine,
        LogRead::Failed => TaskStep::Stop,
        LogRead::End => TaskStep::Stop,
    }
}

/// The step after a message was handed to the consumer: a task whose
/// message could not be delivered stops, as its consumer is gone.
pub fn after_delivery(delivered: bool) -> (step: TaskStep)
    ensures
        step == if delivered {
            TaskStep::ReadOn
        } else {
            TaskStep::Stop
        },
{
    if delivered {
        TaskStep::ReadOn
    } else {
        TaskStep::Stop
    }
}

// ---------------------------------------------------------------------------
// The registry
// ---------------------------------------------------------------------------

/// The handles of the running tasks, by stream key. No key occurs twice.
pub struct WatcherState<H> {
    keys: Vec<String>,
    handles: Vec<H>,
}

/// The position of `key` among `keys`, where it occurs.
pub open spec fn key_position(keys: Seq<String>, key: Seq<char>) -> int {
    choose|i: int| 0 <= i < keys.len() && (#[trigger] keys[i])@ == key
}

pub open spec fn holds_key(keys: Seq<String>, key: Seq<char>) -> bool {
    exists|i: int| 0 <= i < keys.len() && (#[trigger] keys[i])@ == key
}

pub open spec fn distinct_keys(keys: Seq<String>) -> bool {
    forall|i: int, j: int|
        0 <= i < j < keys.len() ==> (#[trigger] keys[i])@ != (#[trigger] keys[j])@
}

proof fn lemma_key_position<H>(keys: Seq<String>, i: int)
    requires
        distinct_keys(keys),
        0 <= i < keys.len(),
    ensures
        holds_key(keys, keys[i]@),
        key_position(keys, keys[i]@) == i,
{
    let p = key_position(keys, keys[i]@);
    if p < i {
        assert(keys[p]@ != keys[i]@);
    } else if i < p {
        assert(keys[i]@ != keys[p]@);
    }
}

impl<H> WatcherState<H> {
    /// The registry holds one handle for each of its keys, and no key
    /// twice. Every registry made by `new` and changed by the methods below
    /// is well formed.
    pub closed spec fn well_formed(&self) -> bool {
        self.keys@.len() == self.handles@.len() && distinct_keys(self.keys@)
    }

    /// The running tasks: the handle of each key that has one.
    pub closed spec fn view(&self) -> Map<Seq<char>, H> {
        Map::new(
            |key: Seq<char>| holds_key(self.keys@, key),
            |key: Seq<char>| self.handles@[key_position(self.keys@, key)],
        )
    }

    /// A registry without tasks.
    pub fn new() -> (state: Self)
        ensures
            state.well_formed(),
            state@ == Map::<Seq<char>, H>::empty(),
    {
        let state = WatcherState { keys: Vec::new(), handles: Vec::new() };
        assert(state@ =~= Map::<Seq<char>, H>::empty());
        state
    }

    fn find(&self, key: &String) -> (found: Option<usize>)
        ensures
            found matches Some(i) ==> i < self.keys@.len() && self.keys@[i as int]@ == key@,
            found is None ==> !holds_key(self.keys@, key@),
    {
        let mut i: usize = 0;
        while i < self.keys.len()
            invariant
                i <= self.keys.len(),
                forall|k: int| 0 <= k < i ==> (#[trigger] self.keys@[k])@ != key@,
            decreases self.keys.len() - i,
        {
            if self.keys[i] == *key {
                return Some(i);
            }
            i += 1;
        }
        None
    }

    /// Whether a task runs under `key`.
    pub fn is_running(&self, key: &str) -> (running: bool)
        ensures
            running == self@.contains_key(key@),
    {
        let wanted = String::from_str(key);
        self.find(&wanted).is_some()
    }

    /// Takes the task of `key` out of the registry, if it has one. The
    /// caller aborts the task whose handle it gets.
    pub fn take(&mut self, key: &str) -> (previous: Option<H>)
        requires
            old(self).well_formed(),
        ensures
            final(self).well_formed(),
            final(self)@ == old(self)@.remove(key@),
            previous == if old(self)@.contains_key(key@) {
                Some(old(self)@[key@])
            } else {
                None
            },
    {
        let wanted = String::from_str(key);
        match self.find(&wanted) {
            Some(i) => {
                let ghost keys = self.keys@;
                let ghost handles = self.handles@;
                proof {
                    lemma_key_position::<H>(keys, i as int);
                }
                self.keys.remove(i);
                let handle = self.handles.remove(i);
                proof {
                    let after_keys = self.keys@;
                    let after_handles = self.handles@;
                    assert(distinct_keys(after_keys)) by {
                        assert forall|a: int, b: int| 0 <= a < b < after_keys.len() implies (
                        #[trigger] after_keys[a])@ != (#[trigger] after_keys[b])@ by {
                            let a0 = if a < i { a } else { a + 1 };
                            let b0 = if b < i { b } else { b + 1 };
                            assert(keys[a0]@ != keys[b0]@);
                        }
                    }
                    assert forall|k: Seq<char>| holds_key(after_keys, k) <==> (holds_key(keys, k)
                        && k != key@) by {
                        if holds_key(after_keys, k) {
                            let a = key_position(after_keys, k);
                            let a0 = if a < i { a } else { a + 1 };
                            assert(keys[a0]@ == k);
                            if a0 < i {
                                assert(keys[a0]@ != keys[i as int]@);
                            } else {
                                assert(keys[i as int]@ != keys[a0]@);
                            }
                        }
                        if holds_key(keys, k) && k != key@ {
                            let p = key_position(keys, k);
                            let a = if p < i { p } else { p - 1 };
                            assert(after_keys[a]@ == k);
                        }
                    }
                    assert forall|k: Seq<char>| holds_key(after_keys, k) implies after_handles[
                        key_position(after_keys, k)
                    ] == handles[key_position(keys, k)] by {
                        let a = key_position(after_keys, k);
                        let a0 = if a < i { a } else { a + 1 };
                        assert(keys[a0]@ == k);
                        lemma_key_position::<H>(keys, a0);
                    }
                    assert(self@ =~= old(self)@.remove(key@));
                }
                Some(handle)
            },
            None => {
                proof {
                    assert(self@ =~= old(self)@.remove(key@));
                }
                None
            },
        }
    }

    /// Records `handle` as the task of `key`. A handle that the registry
    /// still held for the key is returned; the new one takes its place.
    pub fn install(&mut self, key: String, handle: H) -> (replaced: Option<H>)
        requires
            old(self).well_formed(),
        ensures
            final(self).well_formed(),
            final(self)@ == old(self)@.insert(key@, handle),
            replaced == if old(self)@.contains_key(key@) {
                Some(old(self)@[key@])
            } else {
                None
            },
    {
        let replaced = self.take(key.as_str());
        let ghost keys = self.keys@;
        let ghost handles = self.handles@;
        let ghost before = self@;
        assert(!before.contains_key(key@));
        assert(before.dom().contains(key@) == holds_key(keys, key@));
        self.keys.push(key);
        self.handles.push(handle);
        proof {
            let after_keys = self.keys@;
            let after_handles = self.handles@;
            let n = keys.len() as int;
            assert(distinct_keys(after_keys)) by {
                assert forall|a: int, b: int| 0 <= a < b < after_keys.len() implies (
                #[trigger] after_keys[a])@ != (#[trigger] after_keys[b])@ by {
                    if b < n {
                        assert(keys[a]@ != keys[b]@);
                    } else {
                        assert(keys[a]@ != key@);
                    }
                }
            }
            assert(after_keys[n]@ == key@);
            lemma_key_position::<H>(after_keys, n);
            assert forall|k: Seq<char>| holds_key(after_keys, k) <==> (holds_key(keys, k) || k
                == key@) by {
                if holds_key(after_keys, k) {
                    let a = key_position(after_keys, k);
                    if a < n {
                        assert(keys[a]@ == k);
                    }
                }
                if holds_key(keys, k) {
                    let p = key_position(keys, k);
                    assert(after_keys[p]@ == k);
                }
            }
            assert forall|k: Seq<char>| holds_key(keys, k) implies after_handles[key_position(
                after_keys,
                k,
            )] == handles[key_position(keys, k)] by {
                let p = key_position(keys, k);
                assert(after_keys[p]@ == k);
                lemma_key_position::<H>(after_keys, p);
            }
            assert(self@ =~= before.insert(key@, handle));
            assert(before.insert(key@, handle) =~= old(self)@.insert(key@, handle));
        }
        replaced
    }

    /// Removes the entry of `key`: what a task does for itself when it
    /// stops. The handle, if any, is dropped and nothing is aborted.
    pub fn finish(&mut self, key: &str)
        requires
            old(self).well_formed(),
        ensures
            final(self).well_formed(),
            final(self)@ == old(self)@.remove(key@),
    {
        let _ = self.take(key);
    }
}

impl<H> Default for WatcherState<H> {
    fn default() -> (state: Self)
        ensures
            state.well_formed(),
            state@ == Map::<Seq<char>, H>::empty(),
    {
        WatcherState::new()
    }
}

/// Subscribing under a key that has a running task leaves exactly the new
/// task under that key: the old task is the one handed out for abortion,
/// and the tasks of all other keys run on untouched.
pub proof fn law_resubscription_replaces<H>(
    running: Map<Seq<char>, H>,
    key: Seq<char>,
    previous: H,
    next: H,
)
    requires
        running.contains_key(key),
        running[key] == previous,
    ensures
        running.remove(key).insert(key, next).contains_key(key),
        running.remove(key).insert(key, next)[key] == next,
        running.remove(key).insert(key, next).dom() == running.dom(),
        forall|other: Seq<char>|
            other != key && running.contains_key(other) ==> #[trigger] running.remove(key).insert(
                key,
                next,
            )[other] == running[other],
        !running.remove(key).contains_key(key),
{
    assert(running.remove(key).insert(key, next).dom() =~= running.dom());
}

} // verus!

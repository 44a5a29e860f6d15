use vstd::prelude::*;

use std::collections::HashMap;
use std::sync::mpsc::{Receiver, Sender};

use notify_debouncer_full::notify::{RecommendedWatcher, Watcher};
use notify_debouncer_full::{Debouncer, FileIdMap};

use crate::dispatch::deliver_batch;
use crate::error::{WatchError, WatchResult};
use crate::opts::{EventType, RegisterOpts};
use crate::FSEvent;

verus! {

broadcast use vstd::std_specs::hash::group_hash_axioms;

/// The debounced watcher behind one session: notify_debouncer_full's
/// `Debouncer`, which Verus cannot declare (its parameters carry bounds of
/// outside traits). Dropping it stops the session.
#[verifier::external_body]
pub struct SessionWatcher {
    inner: Debouncer<RecommendedWatcher, FileIdMap>,
}

#[verifier::external_type_specification]
#[verifier::external_body]
#[verifier::reject_recursive_types(T)]
pub struct ExReceiver<T>(Receiver<T>);

/// Relies on std's `mpsc::channel`: a fresh channel for one session's events.
#[verifier::external_body]
fn event_channel() -> (r: (Sender<FSEvent>, Receiver<FSEvent>)) {
    std::sync::mpsc::channel()
}

/// Relies on notify_debouncer_full's `new_debouncer`: starts a debouncer
/// with a window of `window_ms` milliseconds whose batches go through
/// `deliver_batch` for session `uid`.
#[verifier::external_body]
fn start_debouncer(
    window_ms: u64,
    sender: Sender<FSEvent>,
    uid: usize,
    watch_for: Vec<EventType>,
) -> (r: Result<SessionWatcher, notify_debouncer_full::notify::Error>) {
    notify_debouncer_full::new_debouncer(
        std::time::Duration::from_millis(window_ms),
        None,
        move |events| deliver_batch(&sender, uid, &watch_for, events),
    ).map(|inner| SessionWatcher { inner })
}

/// Relies on notify's `Watcher::watch`, through `Debouncer::watcher`:
/// subscribes to the changes of one path, not recursively.
#[verifier::external_body]
fn watch_path(watcher: &mut SessionWatcher, path: &String) -> (r: Result<
    (),
    notify_debouncer_full::notify::Error,
>) {
    watcher.inner.watcher().watch(
        std::path::Path::new(path),
        notify_debouncer_full::notify::RecursiveMode::NonRecursive,
    )
}

/// Relies on `FileIdMap::add_root`, through `Debouncer::cache`: records a
/// watched path in the file-id cache that tracks renames.
#[verifier::external_body]
fn add_cache_root(watcher: &mut SessionWatcher, path: &String) {
    watcher.inner.cache().add_root(
        std::path::Path::new(path),
        notify_debouncer_full::notify::RecursiveMode::NonRecursive,
    )
}

/// Relies on notify_debouncer_full's `Debouncer::stop`: signals the
/// session's worker to stop and waits for it to finish, so that it makes no
/// further delivery; dropping the watcher then unsubscribes its paths.
#[verifier::external_body]
fn stop_watcher(watcher: SessionWatcher) {
    watcher.inner.stop()
}

/// The active sessions, keyed by uid.
pub struct WatcherRegistrar {
    watchers: HashMap<usize, SessionWatcher>,
}

impl View for WatcherRegistrar {
    type V = Set<usize>;

    /// The uids of the registered sessions.
    closed spec fn view(&self) -> Set<usize> {
        self.watchers@.dom()
    }
}

/// A registration of `uid` is refused as a duplicate exactly when a session
/// with that uid is registered.
pub open spec fn refuses_uid(uids: Set<usize>, uid: usize) -> bool {
    uids.contains(uid)
}

/// Whether `e` is the duplicate-uid error for `uid`.
pub open spec fn is_duplicate(e: WatchError, uid: usize) -> bool {
    match e {
        WatchError::DuplicateUid(u) => u == uid,
        _ => false,
    }
}

/// Whether `e` is the unknown-uid error for `uid`.
pub open spec fn is_not_found(e: WatchError, uid: usize) -> bool {
    match e {
        WatchError::UidNotFound(u) => u == uid,
        _ => false,
    }
}

impl WatcherRegistrar {
    /// A registrar with no session.
    pub fn new() -> (r: Self)
        ensures
            r@ == Set::<usize>::empty(),
    {
        let r = WatcherRegistrar { watchers: HashMap::new() };
        assert(r@ =~= Set::<usize>::empty());
        r
    }

    /// Whether a session with this uid is registered.
    pub fn is_registered(&self, uid: usize) -> (r: bool)
        ensures
            r == self@.contains(uid),
    {
        self.watchers.contains_key(&uid)
    }

    /// Ends the session `uid`: its worker is stopped and joined before this
    /// returns, its paths are unsubscribed and its event stream is closed.
    pub fn unregister_watcher(&mut self, uid: usize) -> (r: WatchResult<()>)
        ensures
            old(self)@.contains(uid) <==> r is Ok,
            r is Err ==> is_not_found(r->Err_0, uid),
            final(self)@ == old(self)@.remove(uid),
    {
        let removed = self.watchers.remove(&uid);
        assert(self@ =~= old(self)@.remove(uid));
        match removed {
            Some(watcher) => {
                stop_watcher(watcher);
                Ok(())
            },
            None => Err(WatchError::UidNotFound(uid)),
        }
    }

    /// Starts a session for `opts.uid` that watches each of `watch_paths`
    /// and returns its event stream. Refused when the uid is registered; the
    /// notification source may refuse to start or to watch a path. Either
    /// refusal leaves the registrar unchanged.
    pub fn register_watcher(&mut self, opts: RegisterOpts, watch_paths: &[String]) -> (r: WatchResult<
        Receiver<FSEvent>,
    >)
        ensures
            refuses_uid(old(self)@, opts.uid) ==> r is Err && is_duplicate(r->Err_0, opts.uid),
            !refuses_uid(old(self)@, opts.uid) ==> (r is Err ==> r->Err_0 is NotifyError),
            r is Ok ==> final(self)@ == old(self)@.insert(opts.uid),
            r is Err ==> final(self)@ == old(self)@,
    {
        if self.watchers.contains_key(&opts.uid) {
            return Err(WatchError::DuplicateUid(opts.uid));
        }
        let uid = opts.uid;
        let (sender, receiver) = event_channel();
        let mut watcher = match start_debouncer(opts.debounce_changes, sender, uid, opts.watch_for) {
            Ok(w) => w,
            Err(e) => return Err(WatchError::NotifyError(e)),
        };
        let mut i: usize = 0;
        while i < watch_paths.len()
            invariant
                0 <= i <= watch_paths@.len(),
                self@ == old(self)@,
                uid == opts.uid,
                !refuses_uid(old(self)@, uid),
            decreases watch_paths@.len() - i,
        {
            match watch_path(&mut watcher, &watch_paths[i]) {
                Ok(()) => {},
                Err(e) => return Err(WatchError::NotifyError(e)),
            }
            add_cache_root(&mut watcher, &watch_paths[i]);
            i += 1;
        }
        self.watchers.insert(uid, watcher);
        assert(self@ =~= old(self)@.insert(uid));
        Ok(receiver)
    }
}

impl Default for WatcherRegistrar {
    /// A registrar with no session.
    fn default() -> (r: Self)
        ensures
            r@ == Set::<usize>::empty(),
    {
        Self::new()
    }
}

/// A uid is free again once its session is unregistered: a later
/// registration of it is not refused, while a registered uid is refused.
pub proof fn lemma_uid_reusable(uids: Set<usize>, uid: usize)
    ensures
        !refuses_uid(uids.remove(uid), uid),
        refuses_uid(uids.insert(uid), uid),
{
}

/// Registering or unregistering one uid does not change whether another
/// uid is refused.
pub proof fn lemma_uids_independent(uids: Set<usize>, uid: usize, other: usize)
    requires
        uid != other,
    ensures
        refuses_uid(uids.remove(uid), other) == refuses_uid(uids, other),
        refuses_uid(uids.insert(uid), other) == refuses_uid(uids, other),
{
}

/// After a successful unregistration of `uid` no session with that uid
/// remains, and a second unregistration of it fails.
pub proof fn lemma_teardown(uids: Set<usize>, uid: usize)
    ensures
        !uids.remove(uid).contains(uid),
        uids.remove(uid).remove(uid) == uids.remove(uid),
{
}

} // verus!

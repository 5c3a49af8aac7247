//! The Sync Coordinator: owns the cached local snapshot and the binding to
//! the remote snapshot, and decides between push, pull and doing nothing.
use crate::diff::{installations_differ, maps_agree};
use crate::error::Error;
use crate::gist::GitHubGistDataSink;
use crate::models::{
    FlatpakInstallationMap, FlatpakInstallationPayload,
    FlatpakInstallationPayloadView, Timestamp,
};
use crate::transaction::{plan, Transaction};
use vstd::prelude::*;

verus! {

/// What a poll does once the remote snapshot has been fetched.
#[derive(Debug, Clone, Copy, PartialEq, Eq, Structural)]
pub enum SyncDecision {
    /// Nothing to do: the fetch failed, returned nothing, or nothing differs.
    NoChange,
    /// The local snapshot is strictly newer: send it to the remote store.
    Push,
    /// The remote snapshot is newer or as new: apply it to the local state.
    Pull,
}

/// The decision that a fetched remote snapshot calls for against the cache.
pub open spec fn decision_for(
    cached: FlatpakInstallationPayloadView,
    fetched: Option<FlatpakInstallationPayloadView>,
) -> SyncDecision {
    match fetched {
        None => SyncDecision::NoChange,
        Some(remote) => if maps_agree(remote.installations, cached.installations) {
            SyncDecision::NoChange
        } else if cached.altered_at.later_than(remote.altered_at) {
            SyncDecision::Push
        } else {
            SyncDecision::Pull
        },
    }
}

/// The view of what a fetch returned; `None` when it failed or was empty.
pub open spec fn fetched_view(fetched: Result<Option<FlatpakInstallationPayload>, Error>) -> Option<
    FlatpakInstallationPayloadView,
> {
    match fetched {
        Ok(Some(p)) => Some(p@),
        _ => None,
    }
}

/// Whether a poll goes on to fetch the remote snapshot: a manual request
/// always does; a scheduled one only off metered networks and power saving.
pub fn poll_gate(manual: bool, network_metered: bool, power_saver: bool) -> (fetch: bool)
    ensures
        fetch == (manual || (!network_metered && !power_saver)),
{
    manual || (!network_metered && !power_saver)
}

/// How a poll starts: `Ok(false)` skips this cycle (a scheduled poll on a
/// metered network or under power saving); `GistIdMissing` when no remote
/// snapshot is bound; `Ok(true)` goes on to fetch the remote snapshot.
pub fn poll_start(settings: &Settings, manual: bool, network_metered: bool, power_saver: bool) -> (r:
    Result<bool, Error>)
    ensures
        !(manual || (!network_metered && !power_saver)) ==> r == Ok::<bool, Error>(false),
        (manual || (!network_metered && !power_saver)) && !settings@.is_initialised() ==> r matches Err(
            Error::GistIdMissing,
        ),
        (manual || (!network_metered && !power_saver)) && settings@.is_initialised() ==> r == Ok::<
            bool,
            Error,
        >(true),
{
    if !poll_gate(manual, network_metered, power_saver) {
        return Ok(false);
    }
    match settings.check_push() {
        Ok(()) => Ok(true),
        Err(e) => Err(e),
    }
}

/// The recency rule. When a fetched remote snapshot differs from the cached
/// one, a strictly newer cache pushes and never pulls; a cache as old as the
/// remote or older pulls and never pushes.
pub proof fn lemma_recency_rule(
    cached: FlatpakInstallationPayloadView,
    remote: FlatpakInstallationPayloadView,
)
    requires
        !maps_agree(remote.installations, cached.installations),
    ensures
        cached.altered_at.later_than(remote.altered_at) ==> decision_for(cached, Some(remote))
            == SyncDecision::Push,
        !cached.altered_at.later_than(remote.altered_at) ==> decision_for(cached, Some(remote))
            == SyncDecision::Pull,
{
}

/// Holds the last-known local snapshot, kept in step with the cache file.
pub struct Context {
    local_installations: FlatpakInstallationPayload,
}

impl View for Context {
    type V = FlatpakInstallationPayloadView;

    closed spec fn view(&self) -> FlatpakInstallationPayloadView {
        self.local_installations@
    }
}

impl Context {
    /// A coordinator whose cache holds `cached`: the snapshot read from the
    /// cache file or, where that failed, a fresh capture.
    pub fn new(cached: FlatpakInstallationPayload) -> (r: Context)
        ensures
            r@ == cached@,
    {
        Context { local_installations: cached }
    }

    /// The cached local snapshot, as it is to be persisted.
    pub fn local_installations(&self) -> (r: &FlatpakInstallationPayload)
        ensures
            r@ == self@,
    {
        &self.local_installations
    }

    /// Whether `other` differs from the cached snapshot in any scope.
    pub fn installations_changed(&self, other: &FlatpakInstallationPayload) -> (r: bool)
        ensures
            r == !maps_agree(other@.installations, self@.installations),
    {
        installations_differ(&other.installations, &self.local_installations.installations)
    }

    /// When the cached snapshot was last altered.
    pub fn local_altered_at(&self) -> (r: Timestamp)
        ensures
            r == self@.altered_at,
    {
        self.local_installations.altered_at
    }

    /// Adopts a fresh capture of the local state if it differs from the
    /// cache, and says whether it did (the cache file is then rewritten).
    /// The cached timestamp never goes back.
    pub fn refresh_local_installations(&mut self, current: FlatpakInstallationPayload) -> (changed:
        bool)
        ensures
            changed == !maps_agree(current@.installations, old(self)@.installations),
            changed ==> final(self)@ == (FlatpakInstallationPayloadView {
                installations: current@.installations,
                altered_at: if current@.altered_at.later_than(old(self)@.altered_at) {
                    current@.altered_at
                } else {
                    old(self)@.altered_at
                },
            }),
            !changed ==> final(self)@ == old(self)@,
            !old(self)@.altered_at.later_than(final(self)@.altered_at),
    {
        let changed = self.installations_changed(&current);
        if changed {
            let altered_at = self.local_installations.altered_at.latest(current.altered_at);
            self.local_installations = FlatpakInstallationPayload {
                installations: current.installations,
                altered_at,
            };
        }
        changed
    }

    /// Decides what a poll does with the outcome of fetching the remote
    /// snapshot: nothing on a failed or empty fetch or when nothing differs;
    /// a push when the cache is strictly newer; a pull otherwise.
    pub fn reconcile(&self, fetched: &Result<Option<FlatpakInstallationPayload>, Error>) -> (r:
        SyncDecision)
        ensures
            r == decision_for(self@, fetched_view(*fetched)),
    {
        match fetched {
            Ok(Some(remote)) => {
                if !self.installations_changed(remote) {
                    SyncDecision::NoChange
                } else if self.local_altered_at().is_later_than(&remote.altered_at) {
                    SyncDecision::Push
                } else {
                    SyncDecision::Pull
                }
            },
            _ => SyncDecision::NoChange,
        }
    }

    /// The transaction that takes the live state `live` to the remote snapshot.
    pub fn sync_to_system(&self, remote: &FlatpakInstallationPayload, live: &FlatpakInstallationMap) -> (r:
        Transaction)
        ensures
            r.plans(remote@.installations, live@),
    {
        plan(&remote.installations, live)
    }

    /// Caches the state captured after a pull, stamped with the remote's
    /// timestamp so that it does not look locally newer.
    pub fn adopt_remote_state(&mut self, captured: FlatpakInstallationMap, remote_altered_at: Timestamp)
        ensures
            final(self)@ == (FlatpakInstallationPayloadView {
                installations: captured@,
                altered_at: remote_altered_at,
            }),
    {
        self.local_installations = FlatpakInstallationPayload {
            installations: captured,
            altered_at: remote_altered_at,
        };
    }
}

/// A remote-store backend. Each backend is one variant.
#[derive(Debug, Clone, Copy, PartialEq, Eq, Structural)]
pub enum DataSink {
    GitHubGists(GitHubGistDataSink),
}

impl DataSink {
    /// The backend's name.
    pub fn sink_name(&self) -> (r: &'static str)
        ensures
            r@ == "github-gists"@,
    {
        match self {
            DataSink::GitHubGists(_) => "github-gists",
        }
    }

    /// The settings key under which the remote identifier is kept.
    pub fn id_key(&self) -> (r: &'static str)
        ensures
            r@ == "github-gists-id"@,
    {
        match self {
            DataSink::GitHubGists(_) => "github-gists-id",
        }
    }

    /// The purpose attribute of the credential in the secret store.
    pub fn secret_purpose(&self) -> (r: &'static str)
        ensures
            r@ == "github-gists-secret"@,
    {
        match self {
            DataSink::GitHubGists(_) => "github-gists-secret",
        }
    }

    /// The name of the file that holds the snapshot in the remote blob.
    pub fn file_name(&self) -> (r: &'static str)
        ensures
            r@ == "flatsync.json"@,
    {
        "flatsync.json"
    }
}

/// Configuration of the synchronisation: the remote binding and autosync.
pub struct Settings {
    sink: DataSink,
    sink_id: String,
    autosync: bool,
    autosync_timer: u32,
}

/// Mathematical value of [`Settings`].
pub struct SettingsView {
    pub sink: DataSink,
    pub sink_id: Seq<char>,
    pub autosync: bool,
    pub autosync_timer: u32,
}

impl View for Settings {
    type V = SettingsView;

    closed spec fn view(&self) -> SettingsView {
        SettingsView {
            sink: self.sink,
            sink_id: self.sink_id@,
            autosync: self.autosync,
            autosync_timer: self.autosync_timer,
        }
    }
}

impl SettingsView {
    /// A remote snapshot is bound.
    pub open spec fn is_initialised(self) -> bool {
        self.sink_id.len() > 0
    }
}

impl Settings {
    /// Settings as loaded from the configuration store; an empty identifier
    /// means that no remote snapshot is bound.
    pub fn new(sink: DataSink, sink_id: String, autosync: bool, autosync_timer: u32) -> (r: Settings)
        ensures
            r@ == (SettingsView { sink, sink_id: sink_id@, autosync, autosync_timer }),
    {
        Settings { sink, sink_id, autosync, autosync_timer }
    }

    /// The backend.
    pub fn sink(&self) -> (r: DataSink)
        ensures
            r == self@.sink,
    {
        self.sink
    }

    /// Whether a remote snapshot is bound.
    pub fn is_initialised(&self) -> (r: bool)
        ensures
            r == self@.is_initialised(),
    {
        !self.sink_id.as_str().is_empty()
    }

    /// The identifier of the remote snapshot; empty when none is bound.
    pub fn sink_id(&self) -> (r: String)
        ensures
            r@ == self@.sink_id,
    {
        self.sink_id.clone()
    }

    /// Binds the remote snapshot `id`, as the control surface asks.
    pub fn set_sink_id(&mut self, id: String)
        ensures
            final(self)@ == (SettingsView { sink_id: id@, ..old(self)@ }),
    {
        self.sink_id = id;
    }

    /// Whether scheduled synchronisation runs.
    pub fn autosync(&self) -> (r: bool)
        ensures
            r == self@.autosync,
    {
        self.autosync
    }

    /// Turns scheduled synchronisation on or off.
    pub fn set_autosync(&mut self, autosync: bool)
        ensures
            final(self)@ == (SettingsView { autosync, ..old(self)@ }),
    {
        self.autosync = autosync;
    }

    /// The synchronisation interval in minutes.
    pub fn autosync_timer(&self) -> (r: u32)
        ensures
            r == self@.autosync_timer,
    {
        self.autosync_timer
    }

    /// Sets the synchronisation interval in minutes.
    pub fn set_autosync_timer(&mut self, timer: u32)
        ensures
            final(self)@ == (SettingsView { autosync_timer: timer, ..old(self)@ }),
    {
        self.autosync_timer = timer;
    }

    /// Whether a remote snapshot may be created: not while one is bound.
    pub fn check_create(&self) -> (r: Result<(), Error>)
        ensures
            !self@.is_initialised() <==> r is Ok,
            match r {
                Err(Error::GistAlreadyInitialized(id)) => id@ == self@.sink_id,
                Err(_) => false,
                Ok(_) => true,
            },
    {
        if self.is_initialised() {
            Err(Error::GistAlreadyInitialized(self.sink_id.clone()))
        } else {
            Ok(())
        }
    }

    /// Binds the identifier that creating a remote snapshot returned. An
    /// existing binding is never overwritten.
    pub fn record_created(&mut self, id: String) -> (r: Result<(), Error>)
        ensures
            !old(self)@.is_initialised() <==> r is Ok,
            r is Ok ==> final(self)@ == (SettingsView { sink_id: id@, ..old(self)@ }),
            r is Err ==> final(self)@ == old(self)@,
            match r {
                Err(Error::GistAlreadyInitialized(existing)) => existing@ == old(self)@.sink_id,
                Err(_) => false,
                Ok(_) => true,
            },
    {
        match self.check_create() {
            Ok(()) => {
                self.sink_id = id;
                Ok(())
            },
            Err(e) => Err(e),
        }
    }

    /// Whether the local snapshot may be pushed: only once a remote is bound.
    pub fn check_push(&self) -> (r: Result<(), Error>)
        ensures
            self@.is_initialised() <==> r is Ok,
            match r {
                Err(Error::GistIdMissing) => true,
                Err(_) => false,
                Ok(_) => true,
            },
    {
        if self.is_initialised() {
            Ok(())
        } else {
            Err(Error::GistIdMissing)
        }
    }
}

} // verus!

use flatsync::diff::{diff, installations_differ};
use flatsync::error::Error;
use flatsync::gist::{
    check_secret, DBusError, FetchGist, FetchGistResponse, FetchGistResponseFile,
    GitHubGistDataSink,
};
use flatsync::models::{
    Entity, FlatpakInstallation, FlatpakInstallationKind, FlatpakInstallationMap,
    FlatpakInstallationPayload, FlatpakInstallationStorageType, FlatpakRef, FlatpakRefKind,
    FlatpakRemote, FlatpakRemoteType, Timestamp,
};
use flatsync::scheduler::{
    ManualSync, MessageType, PollRequest, Scheduler, SchedulerAction,
};
use flatsync::sync::{poll_gate, poll_start, Context, DataSink, Settings, SyncDecision};
use flatsync::text::{has_prefix, str_equals};
use flatsync::transaction::{is_local_remote, plan, RefTx, RemoteTx};

fn pkg(id: &str, commit: &str) -> FlatpakRef {
    FlatpakRef {
        kind: FlatpakRefKind::App,
        ref_: format!("app/{}/x86_64/stable", id),
        id: id.to_string(),
        arch: "x86_64".to_string(),
        branch: "stable".to_string(),
        commit: commit.to_string(),
        origin: "flathub".to_string(),
        name: Some(id.to_string()),
        version: None,
        license: None,
        summary: None,
        oars: None,
    }
}

fn repo(name: &str, url: &str) -> FlatpakRemote {
    FlatpakRemote {
        type_: FlatpakRemoteType::Static,
        name: name.to_string(),
        title: None,
        description: None,
        collection_id: None,
        gpg_verify: true,
        url: Some(url.to_string()),
        prio: 1,
    }
}

fn inst(refs: Vec<FlatpakRef>, remotes: Vec<FlatpakRemote>) -> FlatpakInstallation {
    FlatpakInstallation {
        id: "user".to_string(),
        path: "/home/u/.local/share/flatpak".to_string(),
        display_name: None,
        priority: 0,
        storage_type: FlatpakInstallationStorageType::Default,
        refs,
        remotes,
    }
}

fn user_map(refs: Vec<FlatpakRef>, remotes: Vec<FlatpakRemote>) -> FlatpakInstallationMap {
    let mut m = FlatpakInstallationMap::new();
    m.insert(FlatpakInstallationKind::User, inst(refs, remotes));
    m
}

fn payload(map: FlatpakInstallationMap, secs: i64) -> FlatpakInstallationPayload {
    FlatpakInstallationPayload { installations: map, altered_at: Timestamp { secs, nanos: 0 } }
}

fn settings(id: &str, autosync: bool, minutes: u32) -> Settings {
    Settings::new(DataSink::GitHubGists(GitHubGistDataSink), id.to_string(), autosync, minutes)
}

/// Applies a transaction to a model of the live installation, as the package
/// manager would when every operation succeeds.
fn apply(map: &mut FlatpakInstallationMap, tx: &flatsync::transaction::Transaction) {
    for scope in &tx.installations {
        let live = match scope.kind {
            FlatpakInstallationKind::User => map.user.as_mut().unwrap(),
            FlatpakInstallationKind::System => map.system.as_mut().unwrap(),
        };
        for r in &scope.remotes {
            let RemoteTx::New { remote } = r;
            if !live.remotes.iter().any(|x| x.name == remote.name) {
                let mut added = remote.clone();
                added.gpg_verify = false;
                live.remotes.push(added);
            }
        }
        for op in &scope.refs {
            match op {
                RefTx::New { target } | RefTx::Update { target, .. } => {
                    match live.refs.iter().position(|x| x.same_identity(target)) {
                        Some(i) => live.refs[i] = target.clone(),
                        None => live.refs.push(target.clone()),
                    }
                }
                RefTx::Remove { installed } => live.refs.retain(|x| !x.same_identity(installed)),
            }
        }
    }
}

#[test]
fn kind_tags_parse_and_print() {
    assert_eq!(FlatpakInstallationKind::try_from_str("user").unwrap(), FlatpakInstallationKind::User);
    assert_eq!(
        FlatpakInstallationKind::try_from_str("default").unwrap(),
        FlatpakInstallationKind::System
    );
    match FlatpakInstallationKind::try_from_str("system") {
        Err(Error::InvalidFlatpakInstallationKind(s)) => assert_eq!(s, "system"),
        other => panic!("unexpected {:?}", other),
    }
    assert_eq!(FlatpakInstallationKind::User.as_str(), "user");
    assert_eq!(FlatpakInstallationKind::System.as_str(), "default");
}

#[test]
fn diff_of_snapshot_with_itself_is_empty() {
    let a = user_map(vec![pkg("org.a", "c1"), pkg("org.b", "c2")], vec![repo("flathub", "https://dl")]);
    assert!(diff(&a, &a).is_empty());
    assert!(!installations_differ(&a, &a));
    let empty = FlatpakInstallationMap::new();
    assert!(diff(&empty, &empty).is_empty());
}

#[test]
fn scenario_remote_newer_pulls_and_adopts_timestamp() {
    let local = user_map(vec![pkg("X", "v1")], vec![]);
    let remote = user_map(vec![pkg("X", "v2"), pkg("Y", "v1")], vec![]);
    let d = diff(&remote, &local);
    assert_eq!(d.user.refs.added.len(), 1);
    assert_eq!(d.user.refs.added[0].id, "Y");
    assert_eq!(d.user.refs.altered.len(), 1);
    assert_eq!(d.user.refs.altered[0].before.commit, "v1");
    assert_eq!(d.user.refs.altered[0].after.commit, "v2");
    assert!(d.user.refs.removed.is_empty());

    let mut ctx = Context::new(payload(local.clone(), 100));
    let fetched = Ok(Some(payload(remote.clone(), 200)));
    assert_eq!(ctx.reconcile(&fetched), SyncDecision::Pull);

    let tx = ctx.sync_to_system(&payload(remote.clone(), 200), &local);
    assert_eq!(tx.installations.len(), 1);
    let ops = &tx.installations[0].refs;
    assert_eq!(ops.len(), 2);
    assert!(matches!(&ops[0], RefTx::New { target } if target.id == "Y"));
    assert!(matches!(&ops[1], RefTx::Update { installed, target }
        if installed.commit == "v1" && target.commit == "v2"));
    assert!(!ops.iter().any(|o| matches!(o, RefTx::Remove { .. })));

    let mut live = local.clone();
    apply(&mut live, &tx);
    ctx.adopt_remote_state(live, Timestamp { secs: 200, nanos: 0 });
    assert_eq!(ctx.local_altered_at(), Timestamp { secs: 200, nanos: 0 });
    assert!(!ctx.installations_changed(&payload(remote, 200)));
}

#[test]
fn scenario_fetch_timeout_changes_nothing() {
    let local = user_map(vec![pkg("X", "v1")], vec![]);
    let ctx = Context::new(payload(local.clone(), 100));
    let fetched = Err(Error::HttpFailure("operation timed out".to_string()));
    assert_eq!(ctx.reconcile(&fetched), SyncDecision::NoChange);
    assert_eq!(ctx.local_altered_at(), Timestamp { secs: 100, nanos: 0 });
    assert!(!ctx.installations_changed(&payload(local, 5)));
    assert_eq!(ctx.reconcile(&Ok(None)), SyncDecision::NoChange);
}

#[test]
fn scenario_create_remote_twice_is_refused() {
    let mut s = settings("", true, 15);
    assert!(s.check_create().is_ok());
    assert!(s.record_created("abc123".to_string()).is_ok());
    match s.check_create() {
        Err(Error::GistAlreadyInitialized(id)) => assert_eq!(id, "abc123"),
        other => panic!("unexpected {:?}", other),
    }
    match s.record_created("zzz".to_string()) {
        Err(Error::GistAlreadyInitialized(id)) => assert_eq!(id, "abc123"),
        other => panic!("unexpected {:?}", other),
    }
    assert_eq!(s.sink_id(), "abc123");
}

#[test]
fn scenario_interval_change_replaces_timer() {
    let s = settings("abc", true, 5);
    let mut sched = Scheduler::new();
    assert_eq!(
        sched.handle(&MessageType::TimeToPoll(PollRequest::Timer(0)), &s),
        SchedulerAction::Poll { manual: false }
    );
    let action = sched.handle(&MessageType::TimerChanged, &s);
    assert_eq!(action, SchedulerAction::ReplaceTimer { stop: 0, start: 1, period_secs: 300 });
    assert_eq!(sched.active_timer(), 1);
    assert_eq!(sched.handle(&MessageType::TimeToPoll(PollRequest::Timer(0)), &s), SchedulerAction::Ignore);
    assert_eq!(
        sched.handle(&MessageType::TimeToPoll(PollRequest::Timer(1)), &s),
        SchedulerAction::Poll { manual: false }
    );
}

#[test]
fn scenario_manual_sync_bypasses_metered_gate() {
    assert!(poll_gate(true, true, false));
    assert!(poll_gate(true, true, true));
    assert!(!poll_gate(false, true, false));
    assert!(!poll_gate(false, false, true));
    assert!(poll_gate(false, false, false));
    let s = settings("abc", false, 5);
    let mut sched = Scheduler::new();
    assert_eq!(
        sched.handle(&MessageType::TimeToPoll(PollRequest::Manual(ManualSync)), &s),
        SchedulerAction::Poll { manual: true }
    );
    assert_eq!(sched.handle(&MessageType::TimeToPoll(PollRequest::Timer(0)), &s), SchedulerAction::Ignore);
}

#[test]
fn local_change_refreshes_without_polling() {
    let s = settings("abc", true, 5);
    let mut sched = Scheduler::new();
    assert_eq!(sched.handle(&MessageType::FlatpakInstallationChanged, &s), SchedulerAction::RefreshLocal);
    assert_eq!(sched.active_timer(), 0);
}

#[test]
fn recency_rule_push_when_local_strictly_newer() {
    let local = user_map(vec![pkg("X", "v1")], vec![]);
    let remote = user_map(vec![pkg("X", "v2")], vec![]);
    let ctx = Context::new(payload(local, 300));
    assert_eq!(ctx.reconcile(&Ok(Some(payload(remote.clone(), 299)))), SyncDecision::Push);
    assert_eq!(ctx.reconcile(&Ok(Some(payload(remote.clone(), 300)))), SyncDecision::Pull);
    assert_eq!(ctx.reconcile(&Ok(Some(payload(remote, 301)))), SyncDecision::Pull);
    let same = user_map(vec![pkg("X", "v1")], vec![]);
    assert_eq!(ctx.reconcile(&Ok(Some(payload(same, 1)))), SyncDecision::NoChange);
}

#[test]
fn timestamps_order_by_seconds_then_nanos() {
    let a = Timestamp { secs: 10, nanos: 5 };
    let b = Timestamp { secs: 10, nanos: 6 };
    let c = Timestamp { secs: 11, nanos: 0 };
    assert!(b.is_later_than(&a));
    assert!(!a.is_later_than(&b));
    assert!(!a.is_later_than(&a));
    assert!(c.is_later_than(&b));
    assert_eq!(a.latest(c), c);
    assert_eq!(c.latest(a), c);
}

#[test]
fn refresh_adopts_changes_and_keeps_time_monotonic() {
    let mut ctx = Context::new(payload(user_map(vec![pkg("X", "v1")], vec![]), 500));
    assert!(!ctx.refresh_local_installations(payload(user_map(vec![pkg("X", "v1")], vec![]), 600)));
    assert_eq!(ctx.local_altered_at(), Timestamp { secs: 500, nanos: 0 });
    assert!(ctx.refresh_local_installations(payload(user_map(vec![pkg("Y", "v1")], vec![]), 400)));
    assert_eq!(ctx.local_altered_at(), Timestamp { secs: 500, nanos: 0 });
    assert_eq!(ctx.local_installations().installations.user.as_ref().unwrap().refs[0].id, "Y");
    assert!(ctx.refresh_local_installations(payload(user_map(vec![], vec![]), 700)));
    assert_eq!(ctx.local_altered_at(), Timestamp { secs: 700, nanos: 0 });
}

#[test]
fn plan_round_trip_reaches_target() {
    let current = user_map(
        vec![pkg("A", "1"), pkg("B", "1"), pkg("C", "1")],
        vec![repo("flathub", "https://dl.flathub.org/repo/")],
    );
    let target = user_map(
        vec![pkg("B", "2"), pkg("D", "1"), pkg("C", "1")],
        vec![repo("flathub", "https://dl.flathub.org/repo/"), repo("beta", "https://beta"), repo("usb", "file:///media/usb")],
    );
    let tx = plan(&target, &current);
    let scope = &tx.installations[0];
    assert_eq!(scope.remotes.len(), 1);
    let RemoteTx::New { remote } = &scope.remotes[0];
    assert_eq!(remote.name, "beta");
    let mut live = current.clone();
    apply(&mut live, &tx);
    let got = &live.user.as_ref().unwrap().refs;
    let want = &target.user.as_ref().unwrap().refs;
    assert_eq!(got.len(), want.len());
    for w in want {
        assert!(got.iter().any(|g| g.equals(w)));
    }
    // Applying a plan computed against the reconciled state changes nothing.
    let again = plan(&target, &live);
    assert!(again.installations[0].refs.is_empty());
    assert!(again.installations[0].remotes.is_empty());
}

#[test]
fn plan_skips_scopes_missing_on_either_side() {
    let target = user_map(vec![pkg("A", "1")], vec![]);
    let mut current = FlatpakInstallationMap::new();
    current.insert(FlatpakInstallationKind::System, inst(vec![], vec![]));
    assert!(plan(&target, &current).installations.is_empty());
}

#[test]
fn diff_reports_attribute_and_presence_changes() {
    let a = user_map(vec![], vec![]);
    let mut b = user_map(vec![], vec![]);
    b.user.as_mut().unwrap().priority = 7;
    assert!(diff(&a, &b).user.attributes_altered);
    let empty = FlatpakInstallationMap::new();
    let d = diff(&a, &empty);
    assert!(d.user.attributes_altered);
    assert!(!d.system.attributes_altered);
    let c = user_map(vec![], vec![repo("flathub", "https://a")]);
    let d2 = diff(&a, &c);
    assert_eq!(d2.user.remotes.removed.len(), 1);
    assert!(installations_differ(&a, &c));
}

#[test]
fn local_repositories_are_recognised() {
    assert!(is_local_remote(&repo("usb", "file:///media")));
    assert!(!is_local_remote(&repo("flathub", "https://dl.flathub.org")));
    let mut none = repo("x", "");
    none.url = None;
    assert!(!is_local_remote(&none));
    assert!(has_prefix("file://x", "file://"));
    assert!(!has_prefix("file:", "file://"));
    assert!(str_equals("abc", "abc"));
    assert!(!str_equals("abc", "abd"));
}

#[test]
fn push_requires_a_bound_remote() {
    let s = settings("", true, 5);
    assert!(matches!(s.check_push(), Err(Error::GistIdMissing)));
    assert!(!s.is_initialised());
    let t = settings("id", true, 5);
    assert!(t.check_push().is_ok());
}

#[test]
fn settings_setters_update_values() {
    let mut s = settings("", true, 5);
    s.set_autosync(false);
    s.set_autosync_timer(30);
    s.set_sink_id("g".to_string());
    assert!(!s.autosync());
    assert_eq!(s.autosync_timer(), 30);
    assert_eq!(s.sink_id(), "g");
    assert_eq!(s.sink().sink_name(), "github-gists");
    assert_eq!(s.sink().id_key(), "github-gists-id");
    assert_eq!(s.sink().secret_purpose(), "github-gists-secret");
    assert_eq!(s.sink().file_name(), "flatsync.json");
    assert_eq!(Scheduler::period_secs(30), 1800);
}

#[test]
fn gist_file_lookup() {
    let f = FetchGist::new("abc");
    assert_eq!(f.gist_id(), "abc");
    let resp = FetchGistResponse {
        files: vec![
            FetchGistResponseFile { filename: "README.md".to_string(), raw_url: "u1".to_string() },
            FetchGistResponseFile { filename: "flatsync.json".to_string(), raw_url: "u2".to_string() },
        ],
    };
    assert_eq!(resp.file("flatsync.json").unwrap().raw_url, "u2");
    assert!(matches!(resp.file("other.json"), Err(Error::MissingGistFiles)));
    assert!(matches!(check_secret(""), Err(DBusError::InvalidSecret)));
    assert!(check_secret("token").is_ok());
}

#[test]
fn payload_is_stamped_at_capture() {
    let p = FlatpakInstallationPayload::new(user_map(vec![pkg("X", "v1")], vec![]));
    assert!(p.altered_at.secs > 1_600_000_000);
    assert_eq!(p.installations(FlatpakInstallationKind::User).unwrap().refs.len(), 1);
    assert!(p.installations(FlatpakInstallationKind::System).is_none());
}

#[test]
fn poll_start_gates_and_requires_a_remote() {
    let bound = settings("abc", true, 5);
    let unbound = settings("", true, 5);
    assert!(matches!(poll_start(&bound, false, true, false), Ok(false)));
    assert!(matches!(poll_start(&bound, true, true, false), Ok(true)));
    assert!(matches!(poll_start(&bound, false, false, false), Ok(true)));
    assert!(matches!(poll_start(&unbound, false, false, false), Err(Error::GistIdMissing)));
    assert!(matches!(poll_start(&unbound, false, false, true), Ok(false)));
}

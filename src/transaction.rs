//! The Transaction Applier's plan: which repositories to add and which
//! package references to install, update or uninstall so that the live state
//! of each scope follows a target snapshot.
use crate::diff::{
    added_spec, altered_spec, diff_entities, removed_spec, Altered,
};
use crate::models::{
    views, FlatpakInstallation, FlatpakInstallationKind, FlatpakInstallationMap,
    FlatpakInstallationMapView, FlatpakInstallationView, FlatpakRef, FlatpakRefView,
    FlatpakRemote, FlatpakRemoteView, Entity,
};
use crate::text::has_prefix;
use vstd::prelude::*;

verus! {

/// A repository to add to the live package manager.
#[derive(Debug, Clone)]
pub enum RemoteTx {
    New { remote: FlatpakRemote },
}

impl View for RemoteTx {
    type V = FlatpakRemoteView;

    open spec fn view(&self) -> FlatpakRemoteView {
        match self {
            RemoteTx::New { remote } => remote@,
        }
    }
}

/// One operation on the installed package references.
#[derive(Debug, Clone)]
pub enum RefTx {
    /// Install a reference that the live state lacks, pinned to its commit.
    New { target: FlatpakRef },
    /// Bring an installed reference to the recorded value of the target.
    Update { installed: FlatpakRef, target: FlatpakRef },
    /// Uninstall a reference that the target lacks.
    Remove { installed: FlatpakRef },
}

/// Mathematical value of a [`RefTx`].
pub enum RefTxView {
    New(FlatpakRefView),
    Update(FlatpakRefView, FlatpakRefView),
    Remove(FlatpakRefView),
}

impl View for RefTx {
    type V = RefTxView;

    open spec fn view(&self) -> RefTxView {
        match self {
            RefTx::New { target } => RefTxView::New(target@),
            RefTx::Update { installed, target } => RefTxView::Update(installed@, target@),
            RefTx::Remove { installed } => RefTxView::Remove(installed@),
        }
    }
}

/// The operations planned for one scope, in the order they are carried out:
/// repositories first, then installs and updates, then removals.
#[derive(Debug, Clone)]
pub struct InstallationTx {
    pub kind: FlatpakInstallationKind,
    pub remotes: Vec<RemoteTx>,
    pub refs: Vec<RefTx>,
}

/// The operations planned for every scope.
#[derive(Debug, Clone)]
pub struct Transaction {
    pub installations: Vec<InstallationTx>,
}

/// A repository served from the local file system: nothing to fetch.
pub open spec fn is_local_url(url: Option<Seq<char>>) -> bool {
    match url {
        Some(u) => 7 <= u.len() && u.subrange(0, 7) == "file://"@,
        None => false,
    }
}

/// Holds of the repositories that are worth adding.
pub open spec fn fetchable() -> spec_fn(FlatpakRemoteView) -> bool {
    |r: FlatpakRemoteView| !is_local_url(r.url)
}

/// Repositories of `target` that `current` lacks, leaving out local ones.
pub open spec fn remotes_to_add(target: Seq<FlatpakRemoteView>, current: Seq<FlatpakRemoteView>) -> Seq<
    FlatpakRemoteView,
> {
    added_spec::<FlatpakRemote>(target, current).filter(fetchable())
}

/// An install of the given reference.
pub open spec fn as_install() -> spec_fn(FlatpakRefView) -> RefTxView {
    |t: FlatpakRefView| RefTxView::New(t)
}

/// An update from the installed value to the target value.
pub open spec fn as_update() -> spec_fn((FlatpakRefView, FlatpakRefView)) -> RefTxView {
    |p: (FlatpakRefView, FlatpakRefView)| RefTxView::Update(p.0, p.1)
}

/// An uninstall of the given reference.
pub open spec fn as_removal() -> spec_fn(FlatpakRefView) -> RefTxView {
    |c: FlatpakRefView| RefTxView::Remove(c)
}

/// Package operations that take `current` to `target`: installs of what is
/// missing, updates of what differs, removals of what the target lacks.
pub open spec fn ref_ops(target: Seq<FlatpakRefView>, current: Seq<FlatpakRefView>) -> Seq<
    RefTxView,
> {
    added_spec::<FlatpakRef>(target, current).map_values(as_install()) + altered_spec::<FlatpakRef>(
        target,
        current,
    ).map_values(as_update()) + removed_spec::<FlatpakRef>(target, current).map_values(
        as_removal(),
    )
}

impl InstallationTx {
    /// The plan holds exactly the operations that take `current` to `target`.
    pub open spec fn plans(
        &self,
        target: FlatpakInstallationView,
        current: FlatpakInstallationView,
    ) -> bool {
        &&& views(self.remotes@) == remotes_to_add(target.remotes, current.remotes)
        &&& views(self.refs@) == ref_ops(target.refs, current.refs)
    }
}

/// Whether the repository is served from the local file system.
pub fn is_local_remote(remote: &FlatpakRemote) -> (r: bool)
    ensures
        r == is_local_url(remote@.url),
{
    proof {
        reveal_strlit("file://");
    }
    match &remote.url {
        Some(u) => has_prefix(u.as_str(), "file://"),
        None => false,
    }
}

/// Plans one scope: the operations that take the live installation `current`
/// to the `target` installation.
pub fn plan_installation(
    kind: FlatpakInstallationKind,
    target: &FlatpakInstallation,
    current: &FlatpakInstallation,
) -> (r: InstallationTx)
    ensures
        r.kind == kind,
        r.plans(target@, current@),
{
    let remote_diff = diff_entities(&target.remotes, &current.remotes);
    let ghost added = views(remote_diff.added@);
    let mut remotes: Vec<RemoteTx> = Vec::new();
    let mut i: usize = 0;
    while i < remote_diff.added.len()
        invariant
            i <= remote_diff.added.len(),
            added == views(remote_diff.added@),
            views(remotes@) == added.take(i as int).filter(fetchable()),
        decreases remote_diff.added.len() - i,
    {
        proof {
            crate::diff::lemma_filter_step(added, i as int, fetchable());
        }
        let r = &remote_diff.added[i];
        if !is_local_remote(r) {
            let tx = RemoteTx::New { remote: r.duplicate() };
            remotes.push(tx);
            proof {
                assert(views(remotes@) =~= added.take(i as int).filter(fetchable()).push(r@));
            }
        }
        i = i + 1;
    }
    proof {
        assert(added.take(i as int) =~= added);
    }
    let ref_diff = diff_entities(&target.refs, &current.refs);
    let ghost ins = views(ref_diff.added@);
    let ghost upd = views(ref_diff.altered@);
    let ghost rem = views(ref_diff.removed@);
    let mut refs: Vec<RefTx> = Vec::new();
    let mut a: usize = 0;
    while a < ref_diff.added.len()
        invariant
            a <= ref_diff.added.len(),
            ins == views(ref_diff.added@),
            views(refs@) == ins.take(a as int).map_values(as_install()),
        decreases ref_diff.added.len() - a,
    {
        let tx = RefTx::New { target: ref_diff.added[a].duplicate() };
        let ghost before = views(refs@);
        proof {
            assert(tx@ == as_install()(ins[a as int]));
        }
        refs.push(tx);
        proof {
            assert(views(refs@) =~= before.push(tx@));
            assert(ins.take(a + 1) =~= ins.take(a as int).push(ins[a as int]));
            assert(views(refs@) =~= ins.take(a + 1).map_values(as_install()));
        }
        a = a + 1;
    }
    proof {
        assert(ins.take(a as int) =~= ins);
    }
    let ghost done = views(refs@);
    let mut b: usize = 0;
    while b < ref_diff.altered.len()
        invariant
            b <= ref_diff.altered.len(),
            upd == views(ref_diff.altered@),
            views(refs@) == done + upd.take(b as int).map_values(as_update()),
        decreases ref_diff.altered.len() - b,
    {
        let pair: &Altered<FlatpakRef> = &ref_diff.altered[b];
        let tx = RefTx::Update { installed: pair.before.duplicate(), target: pair.after.duplicate() };
        let ghost before = views(refs@);
        proof {
            assert(tx@ == as_update()(upd[b as int]));
        }
        refs.push(tx);
        proof {
            assert(views(refs@) =~= before.push(tx@));
            assert(upd.take(b + 1) =~= upd.take(b as int).push(upd[b as int]));
            assert(views(refs@) =~= done + upd.take(b + 1).map_values(as_update()));
        }
        b = b + 1;
    }
    proof {
        assert(upd.take(b as int) =~= upd);
    }
    let ghost done2 = views(refs@);
    let mut c: usize = 0;
    while c < ref_diff.removed.len()
        invariant
            c <= ref_diff.removed.len(),
            rem == views(ref_diff.removed@),
            views(refs@) == done2 + rem.take(c as int).map_values(as_removal()),
        decreases ref_diff.removed.len() - c,
    {
        let tx = RefTx::Remove { installed: ref_diff.removed[c].duplicate() };
        let ghost before = views(refs@);
        proof {
            assert(tx@ == as_removal()(rem[c as int]));
        }
        refs.push(tx);
        proof {
            assert(views(refs@) =~= before.push(tx@));
            assert(rem.take(c + 1) =~= rem.take(c as int).push(rem[c as int]));
            assert(views(refs@) =~= done2 + rem.take(c + 1).map_values(as_removal()));
        }
        c = c + 1;
    }
    proof {
        assert(rem.take(c as int) =~= rem);
        assert(views(refs@) =~= ref_ops(target@.refs, current@.refs));
    }
    InstallationTx { kind, remotes, refs }
}


/// Whether a scope is present both in the target and in the live state.
pub open spec fn plannable(
    target: FlatpakInstallationMapView,
    current: FlatpakInstallationMapView,
    kind: FlatpakInstallationKind,
) -> bool {
    target.get(kind) is Some && current.get(kind) is Some
}

/// The scopes that are planned, system first: those present on both sides.
pub open spec fn scopes_to_plan(
    target: FlatpakInstallationMapView,
    current: FlatpakInstallationMapView,
) -> Seq<FlatpakInstallationKind> {
    let first = if plannable(target, current, FlatpakInstallationKind::System) {
        seq![FlatpakInstallationKind::System]
    } else {
        Seq::empty()
    };
    if plannable(target, current, FlatpakInstallationKind::User) {
        first.push(FlatpakInstallationKind::User)
    } else {
        first
    }
}

impl Transaction {
    /// The transaction plans, for each scope present on both sides, exactly
    /// the operations that take `current` to `target`.
    pub open spec fn plans(
        &self,
        target: FlatpakInstallationMapView,
        current: FlatpakInstallationMapView,
    ) -> bool {
        &&& self.installations@.len() == scopes_to_plan(target, current).len()
        &&& forall|i: int|
            0 <= i < self.installations@.len() ==> {
                let tx = #[trigger] self.installations@[i];
                &&& tx.kind == scopes_to_plan(target, current)[i]
                &&& tx.plans(target.get(tx.kind)->0, current.get(tx.kind)->0)
            }
    }
}

/// Plans the reconciliation of the live state `current` toward `target`,
/// scope by scope. A scope absent on either side is left alone.
pub fn plan(target: &FlatpakInstallationMap, current: &FlatpakInstallationMap) -> (r: Transaction)
    ensures
        r.plans(target@, current@),
{
    let mut installations: Vec<InstallationTx> = Vec::new();
    let sys = FlatpakInstallationKind::System;
    let user = FlatpakInstallationKind::User;
    match (target.get(sys), current.get(sys)) {
        (Some(t), Some(c)) => installations.push(plan_installation(sys, t, c)),
        _ => {},
    }
    match (target.get(user), current.get(user)) {
        (Some(t), Some(c)) => installations.push(plan_installation(user, t, c)),
        _ => {},
    }
    Transaction { installations }
}

} // verus!

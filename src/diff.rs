//! Structural difference between two snapshots, per scope and per entity.
use crate::models::{
    unique, views, Entity, FlatpakInstallation, FlatpakInstallationKind, FlatpakInstallationMap,
    FlatpakInstallationMapView, FlatpakInstallationView, FlatpakRef, FlatpakRefView,
    FlatpakRemote, FlatpakRemoteView,
};
use vstd::prelude::*;

verus! {

/// Index of the last element of `s` that denotes the same entity as `x`, or -1.
pub open spec fn last_match<T: Entity>(s: Seq<T::V>, x: T::V) -> int
    decreases s.len(),
{
    if s.len() == 0 {
        -1
    } else if T::identity_matches(s.last(), x) {
        s.len() - 1
    } else {
        last_match::<T>(s.drop_last(), x)
    }
}

/// Holds of the values that no element of `s` matches.
pub open spec fn absent_from<T: Entity>(s: Seq<T::V>) -> spec_fn(T::V) -> bool {
    |x: T::V| last_match::<T>(s, x) < 0
}

/// Holds of the values that an element of `s` matches by identity but not in full.
pub open spec fn changed_in<T: Entity>(s: Seq<T::V>) -> spec_fn(T::V) -> bool {
    |x: T::V| last_match::<T>(s, x) >= 0 && s[last_match::<T>(s, x)] != x
}

/// Pairs a value with the element of `s` that it matches.
pub open spec fn paired_with<T: Entity>(s: Seq<T::V>) -> spec_fn(T::V) -> (T::V, T::V) {
    |x: T::V| (s[last_match::<T>(s, x)], x)
}

/// Entities of `remote` that `local` lacks.
pub open spec fn added_spec<T: Entity>(remote: Seq<T::V>, local: Seq<T::V>) -> Seq<T::V> {
    remote.filter(absent_from::<T>(local))
}

/// Entities present on both sides with different values, as (local, remote).
pub open spec fn altered_spec<T: Entity>(remote: Seq<T::V>, local: Seq<T::V>) -> Seq<
    (T::V, T::V),
> {
    remote.filter(changed_in::<T>(local)).map_values(paired_with::<T>(local))
}

/// Entities of `local` that `remote` lacks.
pub open spec fn removed_spec<T: Entity>(remote: Seq<T::V>, local: Seq<T::V>) -> Seq<T::V> {
    local.filter(absent_from::<T>(remote))
}

/// No difference at all between two sequences of entities.
pub open spec fn entities_agree<T: Entity>(remote: Seq<T::V>, local: Seq<T::V>) -> bool {
    &&& added_spec::<T>(remote, local).len() == 0
    &&& altered_spec::<T>(remote, local).len() == 0
    &&& removed_spec::<T>(remote, local).len() == 0
}

/// `last_match` is -1 or the index of an element that matches.
pub proof fn lemma_last_match_range<T: Entity>(s: Seq<T::V>, x: T::V)
    ensures
        -1 <= last_match::<T>(s, x) < s.len(),
        last_match::<T>(s, x) >= 0 ==> T::identity_matches(s[last_match::<T>(s, x)], x),
    decreases s.len(),
{
    if s.len() > 0 && !T::identity_matches(s.last(), x) {
        lemma_last_match_range::<T>(s.drop_last(), x);
    }
}

/// Filtering a prefix one element longer.
pub proof fn lemma_filter_step<A>(s: Seq<A>, i: int, p: spec_fn(A) -> bool)
    requires
        0 <= i < s.len(),
    ensures
        s.take(i + 1).filter(p) == if p(s[i]) {
            s.take(i).filter(p).push(s[i])
        } else {
            s.take(i).filter(p)
        },
{
    reveal(Seq::filter);
    let t = s.take(i + 1);
    assert(t.drop_last() =~= s.take(i));
    assert(t.last() == s[i]);
}

/// An entity changed between two snapshots: its value before and after.
#[derive(Debug, Clone)]
pub struct Altered<T> {
    pub before: T,
    pub after: T,
}

impl<T: View> View for Altered<T> {
    type V = (T::V, T::V);

    open spec fn view(&self) -> (T::V, T::V) {
        (self.before@, self.after@)
    }
}

/// Added, altered and removed entities of one kind.
#[derive(Debug, Clone)]
pub struct EntityDiff<T> {
    pub added: Vec<T>,
    pub altered: Vec<Altered<T>>,
    pub removed: Vec<T>,
}

impl<T: Entity> EntityDiff<T> {
    /// The diff states exactly the difference between `remote` and `local`.
    pub open spec fn describes(&self, remote: Seq<T::V>, local: Seq<T::V>) -> bool {
        &&& views(self.added@) == added_spec::<T>(remote, local)
        &&& views(self.altered@) == altered_spec::<T>(remote, local)
        &&& views(self.removed@) == removed_spec::<T>(remote, local)
    }

    /// Whether nothing was added, altered or removed.
    pub fn is_empty(&self) -> (r: bool)
        ensures
            r == (self.added@.len() == 0 && self.altered@.len() == 0 && self.removed@.len() == 0),
    {
        self.added.len() == 0 && self.altered.len() == 0 && self.removed.len() == 0
    }
}

/// Position of the last element of `s` that denotes the same entity as `x`.
pub fn find_match<T: Entity>(s: &Vec<T>, x: &T) -> (r: Option<usize>)
    ensures
        match r {
            Some(j) => j as int == last_match::<T>(views(s@), x@),
            None => last_match::<T>(views(s@), x@) == -1,
        },
{
    let mut found: Option<usize> = None;
    let mut j: usize = 0;
    while j < s.len()
        invariant
            j <= s.len(),
            match found {
                Some(k) => k as int == last_match::<T>(views(s@).take(j as int), x@),
                None => last_match::<T>(views(s@).take(j as int), x@) == -1,
            },
        decreases s.len() - j,
    {
        proof {
            let t = views(s@).take(j + 1);
            assert(t.drop_last() =~= views(s@).take(j as int));
            assert(t.last() == s@[j as int]@);
        }
        if s[j].same_identity(x) {
            found = Some(j);
        }
        j = j + 1;
    }
    proof {
        assert(views(s@).take(j as int) =~= views(s@));
    }
    found
}

/// Entity-level difference between `remote` and `local`.
pub fn diff_entities<T: Entity>(remote: &Vec<T>, local: &Vec<T>) -> (r: EntityDiff<T>)
    ensures
        r.describes(views(remote@), views(local@)),
{
    let ghost rv = views(remote@);
    let ghost lv = views(local@);
    let mut added: Vec<T> = Vec::new();
    let mut altered: Vec<Altered<T>> = Vec::new();
    let mut i: usize = 0;
    while i < remote.len()
        invariant
            i <= remote.len(),
            rv == views(remote@),
            lv == views(local@),
            views(added@) == rv.take(i as int).filter(absent_from::<T>(lv)),
            views(altered@) == rv.take(i as int).filter(changed_in::<T>(lv)).map_values(
                paired_with::<T>(lv),
            ),
        decreases remote.len() - i,
    {
        proof {
            lemma_filter_step(rv, i as int, absent_from::<T>(lv));
            lemma_filter_step(rv, i as int, changed_in::<T>(lv));
            assert(rv[i as int] == remote@[i as int]@);
        }
        let x = &remote[i];
        match find_match(local, x) {
            None => {
                added.push(x.duplicate());
                proof {
                    assert(views(added@) =~= rv.take(i as int).filter(absent_from::<T>(lv)).push(
                        x@,
                    ));
                }
            },
            Some(j) => {
                proof {
                    lemma_last_match_range::<T>(lv, x@);
                }
                if !local[j].equals(x) {
                    let pair = Altered { before: local[j].duplicate(), after: x.duplicate() };
                    altered.push(pair);
                    proof {
                        let f = rv.take(i as int).filter(changed_in::<T>(lv));
                        assert(views(altered@) =~= f.map_values(paired_with::<T>(lv)).push(
                            pair@,
                        ));
                        assert(f.push(x@).map_values(paired_with::<T>(lv)) =~= f.map_values(
                            paired_with::<T>(lv),
                        ).push(pair@));
                    }
                }
            },
        }
        i = i + 1;
    }
    proof {
        assert(rv.take(i as int) =~= rv);
    }
    let mut removed: Vec<T> = Vec::new();
    let mut k: usize = 0;
    while k < local.len()
        invariant
            k <= local.len(),
            rv == views(remote@),
            lv == views(local@),
            views(removed@) == lv.take(k as int).filter(absent_from::<T>(rv)),
        decreases local.len() - k,
    {
        proof {
            lemma_filter_step(lv, k as int, absent_from::<T>(rv));
            assert(lv[k as int] == local@[k as int]@);
        }
        let y = &local[k];
        match find_match(remote, y) {
            None => {
                removed.push(y.duplicate());
                proof {
                    assert(views(removed@) =~= lv.take(k as int).filter(absent_from::<T>(rv)).push(
                        y@,
                    ));
                }
            },
            Some(_) => {},
        }
        k = k + 1;
    }
    proof {
        assert(lv.take(k as int) =~= lv);
    }
    EntityDiff { added, altered, removed }
}


/// The packages of an optional installation; none when it is absent.
pub open spec fn refs_of(o: Option<FlatpakInstallationView>) -> Seq<FlatpakRefView> {
    match o {
        Some(i) => i.refs,
        None => Seq::empty(),
    }
}

/// The repositories of an optional installation; none when it is absent.
pub open spec fn remotes_of(o: Option<FlatpakInstallationView>) -> Seq<FlatpakRemoteView> {
    match o {
        Some(i) => i.remotes,
        None => Seq::empty(),
    }
}

/// The scope is present on one side only, or its own attributes differ.
pub open spec fn attributes_differ(
    remote: Option<FlatpakInstallationView>,
    local: Option<FlatpakInstallationView>,
) -> bool {
    match (remote, local) {
        (Some(a), Some(b)) => !a.same_attributes(b),
        (None, None) => false,
        _ => true,
    }
}

/// One scope shows no difference at all.
pub open spec fn scopes_agree(
    remote: Option<FlatpakInstallationView>,
    local: Option<FlatpakInstallationView>,
) -> bool {
    &&& !attributes_differ(remote, local)
    &&& entities_agree::<FlatpakRef>(refs_of(remote), refs_of(local))
    &&& entities_agree::<FlatpakRemote>(remotes_of(remote), remotes_of(local))
}

/// Two snapshots show no difference in any scope.
pub open spec fn maps_agree(remote: FlatpakInstallationMapView, local: FlatpakInstallationMapView) -> bool {
    &&& scopes_agree(remote.user, local.user)
    &&& scopes_agree(remote.system, local.system)
}

/// The view of an optional borrowed installation.
pub open spec fn borrowed_view(o: Option<&FlatpakInstallation>) -> Option<FlatpakInstallationView> {
    match o {
        Some(i) => Some(i@),
        None => None,
    }
}

/// Difference within one scope.
#[derive(Debug, Clone)]
pub struct FlatpakInstallationDiff {
    pub kind: FlatpakInstallationKind,
    pub attributes_altered: bool,
    pub refs: EntityDiff<FlatpakRef>,
    pub remotes: EntityDiff<FlatpakRemote>,
}

impl FlatpakInstallationDiff {
    /// The diff states exactly the difference within one scope.
    pub open spec fn describes(
        &self,
        remote: Option<FlatpakInstallationView>,
        local: Option<FlatpakInstallationView>,
    ) -> bool {
        &&& self.attributes_altered == attributes_differ(remote, local)
        &&& self.refs.describes(refs_of(remote), refs_of(local))
        &&& self.remotes.describes(remotes_of(remote), remotes_of(local))
    }

    /// Whether the scope shows no difference.
    pub fn is_empty(&self) -> (r: bool)
        ensures
            r == (!self.attributes_altered && self.refs.added@.len() == 0
                && self.refs.altered@.len() == 0 && self.refs.removed@.len() == 0
                && self.remotes.added@.len() == 0 && self.remotes.altered@.len() == 0
                && self.remotes.removed@.len() == 0),
    {
        !self.attributes_altered && self.refs.is_empty() && self.remotes.is_empty()
    }
}

/// Difference within one scope between the `remote` and `local` installations.
pub fn diff_installation(
    kind: FlatpakInstallationKind,
    remote: Option<&FlatpakInstallation>,
    local: Option<&FlatpakInstallation>,
) -> (r: FlatpakInstallationDiff)
    ensures
        r.kind == kind,
        r.describes(borrowed_view(remote), borrowed_view(local)),
{
    let no_refs: Vec<FlatpakRef> = Vec::new();
    let no_remotes: Vec<FlatpakRemote> = Vec::new();
    proof {
        assert(views(no_refs@) =~= Seq::<FlatpakRefView>::empty());
        assert(views(no_remotes@) =~= Seq::<FlatpakRemoteView>::empty());
    }
    let attributes_altered = match (remote, local) {
        (Some(a), Some(b)) => !a.same_attributes(b),
        (None, None) => false,
        _ => true,
    };
    let (remote_refs, remote_remotes) = match remote {
        Some(i) => (&i.refs, &i.remotes),
        None => (&no_refs, &no_remotes),
    };
    let (local_refs, local_remotes) = match local {
        Some(i) => (&i.refs, &i.remotes),
        None => (&no_refs, &no_remotes),
    };
    FlatpakInstallationDiff {
        kind,
        attributes_altered,
        refs: diff_entities(remote_refs, local_refs),
        remotes: diff_entities(remote_remotes, local_remotes),
    }
}

/// Difference between two snapshots, one entry per scope.
#[derive(Debug, Clone)]
pub struct FlatpakInstallationMapDiff {
    pub user: FlatpakInstallationDiff,
    pub system: FlatpakInstallationDiff,
}

impl FlatpakInstallationMapDiff {
    /// Whether no scope shows a difference.
    pub fn is_empty(&self) -> (r: bool)
        ensures
            r == (self.user.is_empty_spec() && self.system.is_empty_spec()),
    {
        self.user.is_empty() && self.system.is_empty()
    }
}

impl FlatpakInstallationDiff {
    /// Nothing added, altered or removed in the scope.
    pub open spec fn is_empty_spec(&self) -> bool {
        !self.attributes_altered && self.refs.added@.len() == 0 && self.refs.altered@.len() == 0
            && self.refs.removed@.len() == 0 && self.remotes.added@.len() == 0
            && self.remotes.altered@.len() == 0 && self.remotes.removed@.len() == 0
    }
}

/// Structural difference of `remote` relative to `local`, in every scope.
pub fn diff(remote: &FlatpakInstallationMap, local: &FlatpakInstallationMap) -> (r:
    FlatpakInstallationMapDiff)
    ensures
        r.user.kind == FlatpakInstallationKind::User,
        r.system.kind == FlatpakInstallationKind::System,
        r.user.describes(remote@.user, local@.user),
        r.system.describes(remote@.system, local@.system),
        r.is_empty_spec() == maps_agree(remote@, local@),
{
    let user = diff_installation(
        FlatpakInstallationKind::User,
        remote.get(FlatpakInstallationKind::User),
        local.get(FlatpakInstallationKind::User),
    );
    let system = diff_installation(
        FlatpakInstallationKind::System,
        remote.get(FlatpakInstallationKind::System),
        local.get(FlatpakInstallationKind::System),
    );
    let r = FlatpakInstallationMapDiff { user, system };
    proof {
        lemma_describes_empty(&r.user, remote@.user, local@.user);
        lemma_describes_empty(&r.system, remote@.system, local@.system);
    }
    r
}

impl FlatpakInstallationMapDiff {
    /// No difference in either scope.
    pub open spec fn is_empty_spec(&self) -> bool {
        self.user.is_empty_spec() && self.system.is_empty_spec()
    }
}

proof fn lemma_describes_empty(
    d: &FlatpakInstallationDiff,
    remote: Option<FlatpakInstallationView>,
    local: Option<FlatpakInstallationView>,
)
    requires
        d.describes(remote, local),
    ensures
        d.is_empty_spec() == scopes_agree(remote, local),
{
}

/// Whether two snapshots differ anywhere: any entity added, altered or
/// removed, or any scope's own attributes changed.
pub fn installations_differ(remote: &FlatpakInstallationMap, local: &FlatpakInstallationMap) -> (r:
    bool)
    ensures
        r == !maps_agree(remote@, local@),
{
    !diff(remote, local).is_empty()
}

proof fn lemma_unique_last_match<T: Entity>(s: Seq<T::V>, i: int)
    requires
        unique::<T>(s),
        0 <= i < s.len(),
    ensures
        last_match::<T>(s, s[i]) == i,
    decreases s.len(),
{
    T::lemma_identity_reflexive(s[i]);
    if i < s.len() - 1 {
        let t = s.drop_last();
        assert(!T::identity_matches(s[s.len() - 1], s[i]));
        assert(unique::<T>(t));
        assert(t[i] == s[i]);
        lemma_unique_last_match::<T>(t, i);
    }
}

/// Filtering with a predicate that holds of no element leaves nothing.
pub proof fn lemma_filter_none<A>(s: Seq<A>, p: spec_fn(A) -> bool)
    requires
        forall|i: int| 0 <= i < s.len() ==> !p(#[trigger] s[i]),
    ensures
        s.filter(p).len() == 0,
    decreases s.len(),
{
    reveal(Seq::filter);
    if s.len() > 0 {
        let t = s.drop_last();
        assert forall|i: int| 0 <= i < t.len() implies !p(#[trigger] t[i]) by {
            assert(t[i] == s[i]);
        }
        lemma_filter_none(t, p);
        assert(!p(s[s.len() - 1]));
    }
}

proof fn lemma_entities_agree_self<T: Entity>(s: Seq<T::V>)
    requires
        unique::<T>(s),
    ensures
        entities_agree::<T>(s, s),
{
    assert forall|i: int| 0 <= i < s.len() implies !absent_from::<T>(s)(#[trigger] s[i])
        && !changed_in::<T>(s)(s[i]) by {
        lemma_unique_last_match::<T>(s, i);
    }
    lemma_filter_none(s, absent_from::<T>(s));
    lemma_filter_none(s, changed_in::<T>(s));
}

/// A well-formed snapshot compared with itself shows no difference: nothing is
/// added, altered or removed in any scope.
pub proof fn lemma_diff_self_empty(a: FlatpakInstallationMapView)
    requires
        a.wf(),
    ensures
        maps_agree(a, a),
{
    assert(a.get(FlatpakInstallationKind::User) == a.user);
    assert(a.get(FlatpakInstallationKind::System) == a.system);
    lemma_entities_agree_self::<FlatpakRef>(refs_of(a.user));
    lemma_entities_agree_self::<FlatpakRemote>(remotes_of(a.user));
    lemma_entities_agree_self::<FlatpakRef>(refs_of(a.system));
    lemma_entities_agree_self::<FlatpakRemote>(remotes_of(a.system));
}

} // verus!

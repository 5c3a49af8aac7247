//! The data model: package references, repositories, installations and the
//! timestamped snapshot that is cached locally and stored remotely.
use crate::error::Error;
use crate::text::{opt_copy, opt_equals, opt_view, str_equals};
use vstd::prelude::*;

verus! {

/// A record that has an identity within its container (a package reference
/// or a repository) and is compared structurally otherwise.
pub trait Entity: View + Sized {
    /// Whether two values denote the same entity.
    spec fn identity_matches(a: Self::V, b: Self::V) -> bool;

    /// Every value denotes the same entity as itself.
    proof fn lemma_identity_reflexive(a: Self::V)
        ensures
            Self::identity_matches(a, a),
    ;

    /// Whether `self` and `other` denote the same entity.
    fn same_identity(&self, other: &Self) -> (r: bool)
        ensures
            r == Self::identity_matches(self@, other@),
    ;

    /// Field-by-field equality.
    fn equals(&self, other: &Self) -> (r: bool)
        ensures
            r == (self@ == other@),
    ;

    /// A copy with the same value.
    fn duplicate(&self) -> (r: Self)
        ensures
            r@ == self@,
    ;
}

/// No two elements of `s` denote the same entity.
pub open spec fn unique<T: Entity>(s: Seq<T::V>) -> bool {
    forall|i: int, j: int|
        0 <= i < s.len() && 0 <= j < s.len() && i != j ==> !T::identity_matches(
            #[trigger] s[i],
            #[trigger] s[j],
        )
}

/// Kind of an installed package reference.
#[derive(Debug, Clone, Copy, PartialEq, Eq, Structural, Hash)]
pub enum FlatpakRefKind {
    App,
    Runtime,
}

/// Kind of a configured repository.
#[derive(Debug, Clone, Copy, PartialEq, Eq, Structural, Hash)]
pub enum FlatpakRemoteType {
    Static,
    Usb,
    Lan,
}

/// Storage medium of an installation.
#[derive(Debug, Clone, Copy, PartialEq, Eq, Structural, Hash)]
pub enum FlatpakInstallationStorageType {
    Default,
    Network,
    Mmc,
    Sdcard,
    HardDisk,
}

/// The two package-manager roots that are tracked independently.
#[derive(Debug, Clone, Copy, PartialEq, Eq, Structural, Hash, PartialOrd, Ord)]
pub enum FlatpakInstallationKind {
    User,
    System,
}

/// One installed package reference.
#[derive(Debug, Clone)]
pub struct FlatpakRef {
    pub kind: FlatpakRefKind,
    pub ref_: String,
    pub id: String,
    pub arch: String,
    pub branch: String,
    pub commit: String,
    pub origin: String,
    pub name: Option<String>,
    pub version: Option<String>,
    pub license: Option<String>,
    pub summary: Option<String>,
    pub oars: Option<String>,
}

/// Mathematical value of a [`FlatpakRef`].
pub struct FlatpakRefView {
    pub kind: FlatpakRefKind,
    pub ref_: Seq<char>,
    pub id: Seq<char>,
    pub arch: Seq<char>,
    pub branch: Seq<char>,
    pub commit: Seq<char>,
    pub origin: Seq<char>,
    pub name: Option<Seq<char>>,
    pub version: Option<Seq<char>>,
    pub license: Option<Seq<char>>,
    pub summary: Option<Seq<char>>,
    pub oars: Option<Seq<char>>,
}

impl View for FlatpakRef {
    type V = FlatpakRefView;

    open spec fn view(&self) -> FlatpakRefView {
        FlatpakRefView {
            kind: self.kind,
            ref_: self.ref_@,
            id: self.id@,
            arch: self.arch@,
            branch: self.branch@,
            commit: self.commit@,
            origin: self.origin@,
            name: opt_view(self.name),
            version: opt_view(self.version),
            license: opt_view(self.license),
            summary: opt_view(self.summary),
            oars: opt_view(self.oars),
        }
    }
}

impl FlatpakRefView {
    /// Two references denote the same package when ref string, id,
    /// architecture and branch agree.
    pub open spec fn same_identity(self, other: FlatpakRefView) -> bool {
        &&& self.ref_ == other.ref_
        &&& self.id == other.id
        &&& self.arch == other.arch
        &&& self.branch == other.branch
    }
}

impl Entity for FlatpakRef {
    open spec fn identity_matches(a: FlatpakRefView, b: FlatpakRefView) -> bool {
        a.same_identity(b)
    }

    proof fn lemma_identity_reflexive(a: FlatpakRefView) {
    }

    fn same_identity(&self, other: &FlatpakRef) -> (r: bool) {
        str_equals(self.ref_.as_str(), other.ref_.as_str()) && str_equals(
            self.id.as_str(),
            other.id.as_str(),
        ) && str_equals(self.arch.as_str(), other.arch.as_str()) && str_equals(
            self.branch.as_str(),
            other.branch.as_str(),
        )
    }

    fn equals(&self, other: &FlatpakRef) -> (r: bool) {
        self.kind == other.kind && self.same_identity(other) && str_equals(
            self.commit.as_str(),
            other.commit.as_str(),
        ) && str_equals(self.origin.as_str(), other.origin.as_str()) && opt_equals(
            &self.name,
            &other.name,
        ) && opt_equals(&self.version, &other.version) && opt_equals(
            &self.license,
            &other.license,
        ) && opt_equals(&self.summary, &other.summary) && opt_equals(&self.oars, &other.oars)
    }

    fn duplicate(&self) -> (r: FlatpakRef) {
        FlatpakRef {
            kind: self.kind,
            ref_: self.ref_.clone(),
            id: self.id.clone(),
            arch: self.arch.clone(),
            branch: self.branch.clone(),
            commit: self.commit.clone(),
            origin: self.origin.clone(),
            name: opt_copy(&self.name),
            version: opt_copy(&self.version),
            license: opt_copy(&self.license),
            summary: opt_copy(&self.summary),
            oars: opt_copy(&self.oars),
        }
    }
}

/// One configured repository.
#[derive(Debug, Clone)]
pub struct FlatpakRemote {
    pub type_: FlatpakRemoteType,
    pub name: String,
    pub title: Option<String>,
    pub description: Option<String>,
    pub collection_id: Option<String>,
    pub gpg_verify: bool,
    pub url: Option<String>,
    pub prio: i32,
}

/// Mathematical value of a [`FlatpakRemote`].
pub struct FlatpakRemoteView {
    pub type_: FlatpakRemoteType,
    pub name: Seq<char>,
    pub title: Option<Seq<char>>,
    pub description: Option<Seq<char>>,
    pub collection_id: Option<Seq<char>>,
    pub gpg_verify: bool,
    pub url: Option<Seq<char>>,
    pub prio: i32,
}

impl View for FlatpakRemote {
    type V = FlatpakRemoteView;

    open spec fn view(&self) -> FlatpakRemoteView {
        FlatpakRemoteView {
            type_: self.type_,
            name: self.name@,
            title: opt_view(self.title),
            description: opt_view(self.description),
            collection_id: opt_view(self.collection_id),
            gpg_verify: self.gpg_verify,
            url: opt_view(self.url),
            prio: self.prio,
        }
    }
}

impl FlatpakRemoteView {
    /// Repositories are identified by name.
    pub open spec fn same_identity(self, other: FlatpakRemoteView) -> bool {
        self.name == other.name
    }
}

impl Entity for FlatpakRemote {
    open spec fn identity_matches(a: FlatpakRemoteView, b: FlatpakRemoteView) -> bool {
        a.same_identity(b)
    }

    proof fn lemma_identity_reflexive(a: FlatpakRemoteView) {
    }

    fn same_identity(&self, other: &FlatpakRemote) -> (r: bool) {
        str_equals(self.name.as_str(), other.name.as_str())
    }

    fn equals(&self, other: &FlatpakRemote) -> (r: bool) {
        self.type_ == other.type_ && self.same_identity(other) && opt_equals(
            &self.title,
            &other.title,
        ) && opt_equals(&self.description, &other.description) && opt_equals(
            &self.collection_id,
            &other.collection_id,
        ) && self.gpg_verify == other.gpg_verify && opt_equals(&self.url, &other.url)
            && self.prio == other.prio
    }

    fn duplicate(&self) -> (r: FlatpakRemote) {
        FlatpakRemote {
            type_: self.type_,
            name: self.name.clone(),
            title: opt_copy(&self.title),
            description: opt_copy(&self.description),
            collection_id: opt_copy(&self.collection_id),
            gpg_verify: self.gpg_verify,
            url: opt_copy(&self.url),
            prio: self.prio,
        }
    }
}

/// One package-manager root with its packages and repositories.
#[derive(Debug, Clone)]
pub struct FlatpakInstallation {
    pub id: String,
    pub path: String,
    pub display_name: Option<String>,
    pub priority: i32,
    pub storage_type: FlatpakInstallationStorageType,
    pub refs: Vec<FlatpakRef>,
    pub remotes: Vec<FlatpakRemote>,
}

/// The views of the elements of a sequence.
pub open spec fn views<T: View>(s: Seq<T>) -> Seq<T::V> {
    s.map_values(|x: T| x@)
}

/// Mathematical value of a [`FlatpakInstallation`].
pub struct FlatpakInstallationView {
    pub id: Seq<char>,
    pub path: Seq<char>,
    pub display_name: Option<Seq<char>>,
    pub priority: i32,
    pub storage_type: FlatpakInstallationStorageType,
    pub refs: Seq<FlatpakRefView>,
    pub remotes: Seq<FlatpakRemoteView>,
}

impl View for FlatpakInstallation {
    type V = FlatpakInstallationView;

    open spec fn view(&self) -> FlatpakInstallationView {
        FlatpakInstallationView {
            id: self.id@,
            path: self.path@,
            display_name: opt_view(self.display_name),
            priority: self.priority,
            storage_type: self.storage_type,
            refs: views(self.refs@),
            remotes: views(self.remotes@),
        }
    }
}

impl FlatpakInstallationView {
    /// No two packages share an identity, and no two repositories a name.
    pub open spec fn wf(self) -> bool {
        &&& unique::<FlatpakRef>(self.refs)
        &&& unique::<FlatpakRemote>(self.remotes)
    }

    /// The attributes of the installation itself, without its contents, agree.
    pub open spec fn same_attributes(self, other: FlatpakInstallationView) -> bool {
        &&& self.id == other.id
        &&& self.path == other.path
        &&& self.display_name == other.display_name
        &&& self.priority == other.priority
        &&& self.storage_type == other.storage_type
    }
}

impl FlatpakInstallation {
    /// Whether the attributes of the installation itself agree.
    pub fn same_attributes(&self, other: &FlatpakInstallation) -> (r: bool)
        ensures
            r == self@.same_attributes(other@),
    {
        str_equals(self.id.as_str(), other.id.as_str()) && str_equals(
            self.path.as_str(),
            other.path.as_str(),
        ) && opt_equals(&self.display_name, &other.display_name) && self.priority
            == other.priority && self.storage_type == other.storage_type
    }
}

/// Tag under which a scope is stored: `user` or `default`.
pub open spec fn kind_tag(kind: FlatpakInstallationKind) -> Seq<char> {
    match kind {
        FlatpakInstallationKind::User => "user"@,
        FlatpakInstallationKind::System => "default"@,
    }
}

impl FlatpakInstallationKind {
    /// Parses the tag of a scope.
    pub fn try_from_str(s: &str) -> (r: Result<FlatpakInstallationKind, Error>)
        ensures
            s@ == "user"@ ==> r == Ok::<FlatpakInstallationKind, Error>(
                FlatpakInstallationKind::User,
            ),
            s@ == "default"@ ==> r == Ok::<FlatpakInstallationKind, Error>(
                FlatpakInstallationKind::System,
            ),
            s@ != "user"@ && s@ != "default"@ ==> (match r {
                Err(Error::InvalidFlatpakInstallationKind(t)) => t@ == s@,
                _ => false,
            }),
    {
        proof {
            reveal_strlit("user");
            reveal_strlit("default");
            assert("user"@.len() != "default"@.len());
        }
        if str_equals(s, "user") {
            Ok(FlatpakInstallationKind::User)
        } else if str_equals(s, "default") {
            Ok(FlatpakInstallationKind::System)
        } else {
            Err(Error::InvalidFlatpakInstallationKind(s.to_owned()))
        }
    }

    /// The tag of the scope, inverse of [`FlatpakInstallationKind::try_from_str`].
    pub fn as_str(&self) -> (r: &'static str)
        ensures
            r@ == kind_tag(*self),
    {
        match self {
            FlatpakInstallationKind::User => "user",
            FlatpakInstallationKind::System => "default",
        }
    }
}


/// Mathematical value of an optional installation.
pub open spec fn opt_installation_view(o: Option<FlatpakInstallation>) -> Option<
    FlatpakInstallationView,
> {
    match o {
        Some(i) => Some(i@),
        None => None,
    }
}

/// The installations of a snapshot, at most one per scope.
#[derive(Debug, Clone)]
pub struct FlatpakInstallationMap {
    pub user: Option<FlatpakInstallation>,
    pub system: Option<FlatpakInstallation>,
}

/// Mathematical value of a [`FlatpakInstallationMap`].
pub struct FlatpakInstallationMapView {
    pub user: Option<FlatpakInstallationView>,
    pub system: Option<FlatpakInstallationView>,
}

impl View for FlatpakInstallationMap {
    type V = FlatpakInstallationMapView;

    open spec fn view(&self) -> FlatpakInstallationMapView {
        FlatpakInstallationMapView {
            user: opt_installation_view(self.user),
            system: opt_installation_view(self.system),
        }
    }
}

impl FlatpakInstallationMapView {
    /// The installation of one scope.
    pub open spec fn get(self, kind: FlatpakInstallationKind) -> Option<FlatpakInstallationView> {
        match kind {
            FlatpakInstallationKind::User => self.user,
            FlatpakInstallationKind::System => self.system,
        }
    }

    /// Every installation present is well formed.
    pub open spec fn wf(self) -> bool {
        forall|kind: FlatpakInstallationKind| #[trigger]
            self.get(kind) is Some ==> self.get(kind)->0.wf()
    }
}

impl FlatpakInstallationMap {
    /// A map without installations.
    pub fn new() -> (r: FlatpakInstallationMap)
        ensures
            r@.user is None,
            r@.system is None,
    {
        FlatpakInstallationMap { user: None, system: None }
    }

    /// The installation of one scope, if present.
    pub fn get(&self, kind: FlatpakInstallationKind) -> (r: Option<&FlatpakInstallation>)
        ensures
            self@.get(kind) == match r {
                Some(i) => Some(i@),
                None => None::<FlatpakInstallationView>,
            },
    {
        let slot = match kind {
            FlatpakInstallationKind::User => &self.user,
            FlatpakInstallationKind::System => &self.system,
        };
        match slot {
            Some(i) => Some(i),
            None => None,
        }
    }

    /// Sets the installation of one scope, replacing any earlier one.
    pub fn insert(&mut self, kind: FlatpakInstallationKind, installation: FlatpakInstallation)
        ensures
            final(self)@.get(kind) == Some(installation@),
            forall|k: FlatpakInstallationKind|
                k != kind ==> #[trigger] final(self)@.get(k) == old(self)@.get(k),
    {
        match kind {
            FlatpakInstallationKind::User => self.user = Some(installation),
            FlatpakInstallationKind::System => self.system = Some(installation),
        }
    }
}

/// A point in time: seconds since the Unix epoch and the nanoseconds past
/// that second (above 999,999,999 only during a leap second).
#[derive(Debug, Clone, Copy, PartialEq, Eq, Structural)]
pub struct Timestamp {
    pub secs: i64,
    pub nanos: u32,
}

impl Timestamp {
    /// Strict chronological order.
    pub open spec fn later_than(self, other: Timestamp) -> bool {
        self.secs > other.secs || (self.secs == other.secs && self.nanos > other.nanos)
    }

    /// Whether `self` is strictly later than `other`.
    pub fn is_later_than(&self, other: &Timestamp) -> (r: bool)
        ensures
            r == self.later_than(*other),
    {
        self.secs > other.secs || (self.secs == other.secs && self.nanos > other.nanos)
    }

    /// The later of two points in time.
    pub fn latest(self, other: Timestamp) -> (r: Timestamp)
        ensures
            r == if other.later_than(self) {
                other
            } else {
                self
            },
    {
        if other.is_later_than(&self) {
            other
        } else {
            self
        }
    }

    /// The current time.
    pub fn now() -> (r: Timestamp) {
        utc_now()
    }
}

/// Relies on chrono::Utc::now, read as seconds (`timestamp`) and nanoseconds
/// past the second (`timestamp_subsec_nanos`). Nothing is known of the value.
#[verifier::external_body]
fn utc_now() -> (r: Timestamp) {
    let t = chrono::Utc::now();
    Timestamp { secs: t.timestamp(), nanos: t.timestamp_subsec_nanos() }
}

/// A snapshot of the local installations and the time it was last altered.
#[derive(Debug, Clone)]
pub struct FlatpakInstallationPayload {
    pub installations: FlatpakInstallationMap,
    pub altered_at: Timestamp,
}

/// Mathematical value of a [`FlatpakInstallationPayload`].
pub struct FlatpakInstallationPayloadView {
    pub installations: FlatpakInstallationMapView,
    pub altered_at: Timestamp,
}

impl View for FlatpakInstallationPayload {
    type V = FlatpakInstallationPayloadView;

    open spec fn view(&self) -> FlatpakInstallationPayloadView {
        FlatpakInstallationPayloadView {
            installations: self.installations@,
            altered_at: self.altered_at,
        }
    }
}

impl FlatpakInstallationPayload {
    /// A snapshot of `installations`, stamped with the current time.
    pub fn new(installations: FlatpakInstallationMap) -> (r: FlatpakInstallationPayload)
        ensures
            r.installations@ == installations@,
    {
        FlatpakInstallationPayload { installations, altered_at: Timestamp::now() }
    }

    /// The installation of one scope, if present.
    pub fn installations(&self, kind: FlatpakInstallationKind) -> (r: Option<&FlatpakInstallation>)
        ensures
            self.installations@.get(kind) == match r {
                Some(i) => Some(i@),
                None => None::<FlatpakInstallationView>,
            },
    {
        self.installations.get(kind)
    }
}

} // verus!

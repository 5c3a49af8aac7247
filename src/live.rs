//! What a planned transaction does to the live state of a scope when every
//! operation succeeds, and the laws that reconciliation obeys.
use crate::diff::{
    absent_from, added_spec, altered_spec, changed_in, last_match, lemma_last_match_range,
    lemma_filter_none, removed_spec,
};
use crate::models::{
    unique, FlatpakInstallationView, FlatpakRef, FlatpakRefView, FlatpakRemote,
    FlatpakRemoteView,
};
use crate::transaction::{
    as_install, as_removal, as_update, fetchable, is_local_url, ref_ops, remotes_to_add,
    RefTxView,
};
use vstd::prelude::*;

verus! {

/// `live` with `t` in place of the installed reference of the same identity,
/// or with `t` added when there is none.
pub open spec fn put(live: Seq<FlatpakRefView>, t: FlatpakRefView) -> Seq<FlatpakRefView> {
    let j = last_match::<FlatpakRef>(live, t);
    if j >= 0 {
        live.update(j, t)
    } else {
        live.push(t)
    }
}

/// Holds of the references that do not denote the same package as `c`.
pub open spec fn other_than(c: FlatpakRefView) -> spec_fn(FlatpakRefView) -> bool {
    |x: FlatpakRefView| !x.same_identity(c)
}

/// The installed references after one successful operation. Uninstalling an
/// absent reference changes nothing.
pub open spec fn apply_ref_op(live: Seq<FlatpakRefView>, op: RefTxView) -> Seq<FlatpakRefView> {
    match op {
        RefTxView::New(t) => put(live, t),
        RefTxView::Update(_, t) => put(live, t),
        RefTxView::Remove(c) => live.filter(other_than(c)),
    }
}

/// The installed references after a sequence of successful operations.
pub open spec fn apply_ref_ops(live: Seq<FlatpakRefView>, ops: Seq<RefTxView>) -> Seq<
    FlatpakRefView,
>
    decreases ops.len(),
{
    if ops.len() == 0 {
        live
    } else {
        apply_ref_ops(apply_ref_op(live, ops[0]), ops.drop_first())
    }
}

/// A repository as it is added: signature verification switched off.
pub open spec fn as_added(r: FlatpakRemoteView) -> FlatpakRemoteView {
    FlatpakRemoteView { gpg_verify: false, ..r }
}

/// The configured repositories after adding `adds`, skipping each one whose
/// name is already configured.
pub open spec fn apply_remote_ops(live: Seq<FlatpakRemoteView>, adds: Seq<FlatpakRemoteView>) -> Seq<
    FlatpakRemoteView,
>
    decreases adds.len(),
{
    if adds.len() == 0 {
        live
    } else {
        let next = if last_match::<FlatpakRemote>(live, adds[0]) >= 0 {
            live
        } else {
            live.push(as_added(adds[0]))
        };
        apply_remote_ops(next, adds.drop_first())
    }
}

/// The live packages of a scope once its plan toward `target` has run.
pub open spec fn reconciled_refs(
    target: FlatpakInstallationView,
    current: FlatpakInstallationView,
) -> Seq<FlatpakRefView> {
    apply_ref_ops(current.refs, ref_ops(target.refs, current.refs))
}

/// The live repositories of a scope once its plan toward `target` has run.
pub open spec fn reconciled_remotes(
    target: FlatpakInstallationView,
    current: FlatpakInstallationView,
) -> Seq<FlatpakRemoteView> {
    apply_remote_ops(current.remotes, remotes_to_add(target.remotes, current.remotes))
}

/// No element occurs twice.
pub open spec fn no_dups<A>(s: Seq<A>) -> bool {
    forall|i: int, j: int| 0 <= i < j < s.len() ==> s[i] != s[j]
}

/// Packages of `s` that share an identity are equal.
pub open spec fn identity_determines(s: Seq<FlatpakRefView>) -> bool {
    forall|x: FlatpakRefView, y: FlatpakRefView|
        #![trigger s.contains(x), s.contains(y)]
        s.contains(x) && s.contains(y) && x.same_identity(y) ==> x == y
}

proof fn lemma_push_contains<A>(s: Seq<A>, y: A, x: A)
    ensures
        s.push(y).contains(x) <==> (s.contains(x) || x == y),
{
    if s.contains(x) {
        let i = choose|i: int| 0 <= i < s.len() && s[i] == x;
        assert(s.push(y)[i] == x);
    }
    if x == y {
        assert(s.push(y)[s.len() as int] == x);
    }
    if s.push(y).contains(x) {
        let i = choose|i: int| 0 <= i < s.len() + 1 && s.push(y)[i] == x;
        if i < s.len() {
            assert(s[i] == x);
        }
    }
}

proof fn lemma_filter_contains<A>(s: Seq<A>, p: spec_fn(A) -> bool, x: A)
    ensures
        s.filter(p).contains(x) <==> (s.contains(x) && p(x)),
    decreases s.len(),
{
    reveal(Seq::filter);
    if s.len() > 0 {
        let d = s.drop_last();
        lemma_filter_contains(d, p, x);
        assert(s =~= d.push(s.last()));
        lemma_push_contains(d, s.last(), x);
        lemma_push_contains(d.filter(p), s.last(), x);
    }
}

proof fn lemma_filter_no_dups<A>(s: Seq<A>, p: spec_fn(A) -> bool)
    requires
        no_dups(s),
    ensures
        no_dups(s.filter(p)),
    decreases s.len(),
{
    reveal(Seq::filter);
    if s.len() > 0 {
        let d = s.drop_last();
        assert(no_dups(d)) by {
            assert forall|i: int, j: int| 0 <= i < j < d.len() implies d[i] != d[j] by {
                assert(d[i] == s[i] && d[j] == s[j]);
            }
        }
        lemma_filter_no_dups(d, p);
        if p(s.last()) {
            let f = d.filter(p);
            lemma_filter_contains(d, p, s.last());
            if d.contains(s.last()) {
                let k = choose|k: int| 0 <= k < d.len() && d[k] == s.last();
                assert(s[k] == s[s.len() - 1]);
            }
            assert forall|i: int, j: int| 0 <= i < j < f.push(s.last()).len() implies f.push(
                s.last(),
            )[i] != f.push(s.last())[j] by {
                if j == f.len() {
                    assert(f.contains(f[i]));
                }
            }
        }
    }
}

/// The unique-identity invariant in terms of contents.
proof fn lemma_unique_contents(s: Seq<FlatpakRefView>)
    ensures
        unique::<FlatpakRef>(s) <==> (no_dups(s) && identity_determines(s)),
{
    if unique::<FlatpakRef>(s) {
        assert forall|x: FlatpakRefView, y: FlatpakRefView|
            s.contains(x) && s.contains(y) && x.same_identity(y) implies x == y by {
            let i = choose|i: int| 0 <= i < s.len() && s[i] == x;
            let j = choose|j: int| 0 <= j < s.len() && s[j] == y;
            assert(i == j);
        }
    }
    if no_dups(s) && identity_determines(s) {
        assert forall|i: int, j: int|
            0 <= i < s.len() && 0 <= j < s.len() && i != j implies !(#[trigger] s[i]).same_identity(
            #[trigger] s[j],
        ) by {
            assert(s.contains(s[i]) && s.contains(s[j]));
            if i < j {
                assert(s[i] != s[j]);
            } else {
                assert(s[j] != s[i]);
            }
        }
    }
}

proof fn lemma_no_match(s: Seq<FlatpakRefView>, x: FlatpakRefView)
    ensures
        last_match::<FlatpakRef>(s, x) < 0 <==> forall|i: int|
            0 <= i < s.len() ==> !(#[trigger] s[i]).same_identity(x),
    decreases s.len(),
{
    lemma_last_match_range::<FlatpakRef>(s, x);
    if s.len() > 0 {
        let d = s.drop_last();
        lemma_no_match(d, x);
        if last_match::<FlatpakRef>(s, x) < 0 {
            assert forall|i: int| 0 <= i < s.len() implies !(#[trigger] s[i]).same_identity(x) by {
                if i < s.len() - 1 {
                    assert(s[i] == d[i]);
                }
            }
        }
    }
}

/// Putting a reference keeps identities unique and changes the contents by
/// that one identity.
proof fn lemma_put(s: Seq<FlatpakRefView>, t: FlatpakRefView)
    requires
        unique::<FlatpakRef>(s),
    ensures
        unique::<FlatpakRef>(put(s, t)),
        forall|x: FlatpakRefView|
            put(s, t).contains(x) <==> (x == t || (s.contains(x) && !x.same_identity(t))),
{
    let j = last_match::<FlatpakRef>(s, t);
    lemma_last_match_range::<FlatpakRef>(s, t);
    lemma_no_match(s, t);
    let r = put(s, t);
    if j >= 0 {
        assert forall|a: int, b: int|
            0 <= a < r.len() && 0 <= b < r.len() && a != b implies !(#[trigger] r[a]).same_identity(
            #[trigger] r[b],
        ) by {
            if a != j && b != j {
                assert(r[a] == s[a] && r[b] == s[b]);
            } else if a == j {
                assert(!s[b].same_identity(s[j]));
            } else {
                assert(!s[a].same_identity(s[j]));
            }
        }
        assert forall|x: FlatpakRefView|
            r.contains(x) <==> (x == t || (s.contains(x) && !x.same_identity(t))) by {
            if r.contains(x) && x != t {
                let k = choose|k: int| 0 <= k < r.len() && r[k] == x;
                assert(k != j);
                assert(s[k] == x);
                assert(!s[k].same_identity(s[j]));
            }
            if x == t {
                assert(r[j] == t);
            }
            if s.contains(x) && !x.same_identity(t) {
                let k = choose|k: int| 0 <= k < s.len() && s[k] == x;
                assert(k != j);
                assert(r[k] == x);
            }
        }
    } else {
        assert forall|a: int, b: int|
            0 <= a < r.len() && 0 <= b < r.len() && a != b implies !(#[trigger] r[a]).same_identity(
            #[trigger] r[b],
        ) by {
            if a < s.len() && b < s.len() {
                assert(r[a] == s[a] && r[b] == s[b]);
            } else if a == s.len() {
                assert(!s[b].same_identity(t));
            } else {
                assert(!s[a].same_identity(t));
            }
        }
        assert forall|x: FlatpakRefView|
            r.contains(x) <==> (x == t || (s.contains(x) && !x.same_identity(t))) by {
            lemma_push_contains(s, t, x);
            if s.contains(x) {
                let k = choose|k: int| 0 <= k < s.len() && s[k] == x;
                assert(!s[k].same_identity(t));
            }
        }
    }
}

/// Uninstalling keeps identities unique and drops exactly that identity.
proof fn lemma_remove(s: Seq<FlatpakRefView>, c: FlatpakRefView)
    requires
        unique::<FlatpakRef>(s),
    ensures
        unique::<FlatpakRef>(s.filter(other_than(c))),
        forall|x: FlatpakRefView|
            s.filter(other_than(c)).contains(x) <==> (s.contains(x) && !x.same_identity(c)),
{
    let f = s.filter(other_than(c));
    lemma_unique_contents(s);
    lemma_filter_no_dups(s, other_than(c));
    assert forall|x: FlatpakRefView| f.contains(x) <==> (s.contains(x) && !x.same_identity(c)) by {
        lemma_filter_contains(s, other_than(c), x);
    }
    lemma_unique_contents(f);
}

/// The targets of a sequence of installs and updates.
pub open spec fn target_of(op: RefTxView) -> FlatpakRefView {
    match op {
        RefTxView::New(t) => t,
        RefTxView::Update(_, t) => t,
        RefTxView::Remove(c) => c,
    }
}

proof fn lemma_apply_append(s: Seq<FlatpakRefView>, a: Seq<RefTxView>, b: Seq<RefTxView>)
    ensures
        apply_ref_ops(s, a + b) == apply_ref_ops(apply_ref_ops(s, a), b),
    decreases a.len(),
{
    if a.len() > 0 {
        assert((a + b).drop_first() =~= a.drop_first() + b);
        assert((a + b)[0] == a[0]);
        lemma_apply_append(apply_ref_op(s, a[0]), a.drop_first(), b);
    } else {
        assert(a + b =~= b);
    }
}

/// A run of installs and updates whose targets have distinct identities.
proof fn lemma_puts(s: Seq<FlatpakRefView>, ops: Seq<RefTxView>)
    requires
        unique::<FlatpakRef>(s),
        forall|i: int| 0 <= i < ops.len() ==> !((#[trigger] ops[i]) is Remove),
        forall|i: int, j: int|
            0 <= i < ops.len() && 0 <= j < ops.len() && i != j ==> !target_of(
                #[trigger] ops[i],
            ).same_identity(target_of(#[trigger] ops[j])),
    ensures
        unique::<FlatpakRef>(apply_ref_ops(s, ops)),
        forall|x: FlatpakRefView|
            #[trigger] apply_ref_ops(s, ops).contains(x) <==> ((exists|i: int|
                0 <= i < ops.len() && target_of(#[trigger] ops[i]) == x) || (s.contains(x)
                && forall|i: int|
                0 <= i < ops.len() ==> !x.same_identity(target_of(#[trigger] ops[i])))),
    decreases ops.len(),
{
    if ops.len() > 0 {
        let t = target_of(ops[0]);
        let rest = ops.drop_first();
        let s1 = apply_ref_op(s, ops[0]);
        assert(s1 == put(s, t));
        lemma_put(s, t);
        assert forall|i: int| 0 <= i < rest.len() implies !((#[trigger] rest[i]) is Remove) by {
            assert(rest[i] == ops[i + 1]);
        }
        assert forall|i: int, j: int|
            0 <= i < rest.len() && 0 <= j < rest.len() && i != j implies !target_of(
            #[trigger] rest[i],
        ).same_identity(target_of(#[trigger] rest[j])) by {
            assert(rest[i] == ops[i + 1] && rest[j] == ops[j + 1]);
        }
        lemma_puts(s1, rest);
        let r = apply_ref_ops(s, ops);
        assert(r == apply_ref_ops(s1, rest));
        assert forall|x: FlatpakRefView|
            r.contains(x) <==> ((exists|i: int| 0 <= i < ops.len() && target_of(#[trigger] ops[i]) == x)
                || (s.contains(x) && forall|i: int|
                0 <= i < ops.len() ==> !x.same_identity(target_of(#[trigger] ops[i])))) by {
            if exists|i: int| 0 <= i < ops.len() && target_of(#[trigger] ops[i]) == x {
                let i = choose|i: int| 0 <= i < ops.len() && target_of(#[trigger] ops[i]) == x;
                if i > 0 {
                    assert(rest[i - 1] == ops[i]);
                } else {
                    assert forall|k: int| 0 <= k < rest.len() implies !x.same_identity(
                        target_of(#[trigger] rest[k]),
                    ) by {
                        assert(rest[k] == ops[k + 1]);
                    }
                }
            }
            if s.contains(x) && forall|i: int|
                0 <= i < ops.len() ==> !x.same_identity(target_of(#[trigger] ops[i])) {
                assert(!x.same_identity(target_of(ops[0])));
                assert forall|k: int| 0 <= k < rest.len() implies !x.same_identity(
                    target_of(#[trigger] rest[k]),
                ) by {
                    assert(rest[k] == ops[k + 1]);
                }
            }
            if r.contains(x) {
                if exists|k: int| 0 <= k < rest.len() && target_of(#[trigger] rest[k]) == x {
                    let k = choose|k: int| 0 <= k < rest.len() && target_of(#[trigger] rest[k]) == x;
                    assert(ops[k + 1] == rest[k]);
                } else {
                    assert(s1.contains(x));
                    if x != t {
                        assert forall|i: int| 0 <= i < ops.len() implies !x.same_identity(
                            target_of(#[trigger] ops[i]),
                        ) by {
                            if i > 0 {
                                assert(rest[i - 1] == ops[i]);
                            }
                        }
                    } else {
                        assert(target_of(ops[0]) == x);
                    }
                }
            }
        }
    }
}

/// A run of uninstalls.
proof fn lemma_removes(s: Seq<FlatpakRefView>, ops: Seq<RefTxView>)
    requires
        unique::<FlatpakRef>(s),
        forall|i: int| 0 <= i < ops.len() ==> (#[trigger] ops[i]) is Remove,
    ensures
        unique::<FlatpakRef>(apply_ref_ops(s, ops)),
        forall|x: FlatpakRefView|
            #[trigger] apply_ref_ops(s, ops).contains(x) <==> (s.contains(x) && forall|i: int|
                0 <= i < ops.len() ==> !x.same_identity(target_of(#[trigger] ops[i]))),
    decreases ops.len(),
{
    if ops.len() > 0 {
        let c = target_of(ops[0]);
        let rest = ops.drop_first();
        let s1 = apply_ref_op(s, ops[0]);
        assert(s1 == s.filter(other_than(c)));
        lemma_remove(s, c);
        assert forall|i: int| 0 <= i < rest.len() implies (#[trigger] rest[i]) is Remove by {
            assert(rest[i] == ops[i + 1]);
        }
        lemma_removes(s1, rest);
        assert forall|x: FlatpakRefView|
            apply_ref_ops(s, ops).contains(x) <==> (s.contains(x) && forall|i: int|
                0 <= i < ops.len() ==> !x.same_identity(target_of(#[trigger] ops[i]))) by {
            if s.contains(x) && forall|i: int|
                0 <= i < ops.len() ==> !x.same_identity(target_of(#[trigger] ops[i])) {
                assert(!x.same_identity(target_of(ops[0])));
                assert forall|k: int| 0 <= k < rest.len() implies !x.same_identity(
                    target_of(#[trigger] rest[k]),
                ) by {
                    assert(rest[k] == ops[k + 1]);
                }
            }
            if apply_ref_ops(s, ops).contains(x) {
                assert(apply_ref_ops(s1, rest).contains(x));
                assert(s1.contains(x));
                assert(!x.same_identity(c));
                assert forall|i: int| 0 <= i < ops.len() implies !x.same_identity(
                    target_of(#[trigger] ops[i]),
                ) by {
                    if i > 0 {
                        assert(rest[i - 1] == ops[i]);
                    }
                }
            }
        }
    }
}


/// The installs and updates of a plan target exactly the packages of `b`
/// that `a` lacks or holds with other values.
proof fn lemma_put_targets(b: Seq<FlatpakRefView>, a: Seq<FlatpakRefView>)
    requires
        unique::<FlatpakRef>(b),
    ensures
        ({
            let puts = added_spec::<FlatpakRef>(b, a).map_values(as_install()) + altered_spec::<
                FlatpakRef,
            >(b, a).map_values(as_update());
            &&& forall|i: int| 0 <= i < puts.len() ==> !((#[trigger] puts[i]) is Remove)
            &&& forall|i: int, j: int|
                0 <= i < puts.len() && 0 <= j < puts.len() && i != j ==> !target_of(
                    #[trigger] puts[i],
                ).same_identity(target_of(#[trigger] puts[j]))
            &&& forall|i: int|
                0 <= i < puts.len() ==> b.contains(target_of(#[trigger] puts[i])) && (absent_from::<
                    FlatpakRef,
                >(a)(target_of(puts[i])) || changed_in::<FlatpakRef>(a)(target_of(puts[i])))
            &&& forall|x: FlatpakRefView|
                b.contains(x) && (absent_from::<FlatpakRef>(a)(x) || changed_in::<FlatpakRef>(a)(x))
                    ==> exists|i: int| 0 <= i < puts.len() && target_of(#[trigger] puts[i]) == x
        }),
{
    let ba = b.filter(absent_from::<FlatpakRef>(a));
    let bc = b.filter(changed_in::<FlatpakRef>(a));
    let ins = ba.map_values(as_install());
    let upd = altered_spec::<FlatpakRef>(b, a).map_values(as_update());
    let puts = ins + upd;
    assert(upd.len() == bc.len());
    assert forall|i: int| 0 <= i < puts.len() implies target_of(#[trigger] puts[i]) == if i
        < ba.len() {
        ba[i]
    } else {
        bc[i - ba.len()]
    } by {
        if i >= ba.len() {
            assert(puts[i] == upd[i - ba.len()]);
        }
    }
    lemma_unique_contents(b);
    lemma_filter_no_dups(b, absent_from::<FlatpakRef>(a));
    lemma_filter_no_dups(b, changed_in::<FlatpakRef>(a));
    assert forall|i: int| 0 <= i < puts.len() implies b.contains(target_of(#[trigger] puts[i])) && (
    absent_from::<FlatpakRef>(a)(target_of(puts[i])) || changed_in::<FlatpakRef>(a)(
        target_of(puts[i]),
    )) by {
        if i < ba.len() {
            assert(ba.contains(ba[i]));
            lemma_filter_contains(b, absent_from::<FlatpakRef>(a), ba[i]);
        } else {
            assert(bc.contains(bc[i - ba.len()]));
            lemma_filter_contains(b, changed_in::<FlatpakRef>(a), bc[i - ba.len()]);
        }
    }
    assert forall|i: int, j: int|
        0 <= i < puts.len() && 0 <= j < puts.len() && i != j implies !target_of(
        #[trigger] puts[i],
    ).same_identity(target_of(#[trigger] puts[j])) by {
        let x = target_of(puts[i]);
        let y = target_of(puts[j]);
        if x.same_identity(y) {
            assert(b.contains(x) && b.contains(y));
            assert(x == y);
            if i < ba.len() && j < ba.len() {
                if i < j {
                    assert(ba[i] != ba[j]);
                } else {
                    assert(ba[j] != ba[i]);
                }
            } else if i >= ba.len() && j >= ba.len() {
                if i < j {
                    assert(bc[i - ba.len()] != bc[j - ba.len()]);
                } else {
                    assert(bc[j - ba.len()] != bc[i - ba.len()]);
                }
            } else if i < ba.len() {
                assert(bc.contains(bc[j - ba.len()]));
                lemma_filter_contains(b, changed_in::<FlatpakRef>(a), y);
                assert(ba.contains(ba[i]));
                lemma_filter_contains(b, absent_from::<FlatpakRef>(a), x);
            } else {
                assert(bc.contains(bc[i - ba.len()]));
                lemma_filter_contains(b, changed_in::<FlatpakRef>(a), x);
                assert(ba.contains(ba[j]));
                lemma_filter_contains(b, absent_from::<FlatpakRef>(a), y);
            }
        }
    }
    assert forall|x: FlatpakRefView|
        b.contains(x) && (absent_from::<FlatpakRef>(a)(x) || changed_in::<FlatpakRef>(a)(x)) implies exists|i: int|
        0 <= i < puts.len() && target_of(#[trigger] puts[i]) == x by {
        if absent_from::<FlatpakRef>(a)(x) {
            lemma_filter_contains(b, absent_from::<FlatpakRef>(a), x);
            let k = choose|k: int| 0 <= k < ba.len() && ba[k] == x;
            assert(target_of(puts[k]) == x);
        } else {
            lemma_filter_contains(b, changed_in::<FlatpakRef>(a), x);
            let k = choose|k: int| 0 <= k < bc.len() && bc[k] == x;
            assert(target_of(puts[k + ba.len()]) == x);
        }
    }
}

/// Reconciliation reaches the target. When every operation of the plan for
/// one scope succeeds, the installed packages are exactly those of the
/// target, with unique identities, and every repository of the target that
/// is not served from the local file system is configured.
pub proof fn lemma_reconcile_reaches_target(
    target: FlatpakInstallationView,
    current: FlatpakInstallationView,
)
    requires
        target.wf(),
        current.wf(),
    ensures
        unique::<FlatpakRef>(reconciled_refs(target, current)),
        forall|x: FlatpakRefView|
            reconciled_refs(target, current).contains(x) <==> target.refs.contains(x),
        forall|i: int|
            0 <= i < target.remotes.len() && !is_local_url(target.remotes[i].url) ==> last_match::<
                FlatpakRemote,
            >(reconciled_remotes(target, current), #[trigger] target.remotes[i]) >= 0,
{
    let b = target.refs;
    let a = current.refs;
    let puts = added_spec::<FlatpakRef>(b, a).map_values(as_install()) + altered_spec::<FlatpakRef>(
        b,
        a,
    ).map_values(as_update());
    let ar = removed_spec::<FlatpakRef>(b, a);
    let rems = ar.map_values(as_removal());
    lemma_apply_append(a, puts, rems);
    lemma_put_targets(b, a);
    lemma_puts(a, puts);
    let p = apply_ref_ops(a, puts);
    assert forall|i: int| 0 <= i < rems.len() implies (#[trigger] rems[i]) is Remove by {
    }
    lemma_removes(p, rems);
    let r = reconciled_refs(target, current);
    assert(r == apply_ref_ops(p, rems));
    lemma_unique_contents(b);
    lemma_unique_contents(a);
    assert forall|x: FlatpakRefView| r.contains(x) <==> b.contains(x) by {
        if b.contains(x) {
            let i0 = choose|i: int| 0 <= i < b.len() && b[i] == x;
            assert forall|k: int| 0 <= k < rems.len() implies !x.same_identity(
                target_of(#[trigger] rems[k]),
            ) by {
                assert(target_of(rems[k]) == ar[k]);
                assert(ar.contains(ar[k]));
                lemma_filter_contains(a, absent_from::<FlatpakRef>(b), ar[k]);
                lemma_no_match(b, ar[k]);
                assert(!b[i0].same_identity(ar[k]));
            }
            if absent_from::<FlatpakRef>(a)(x) || changed_in::<FlatpakRef>(a)(x) {
                assert(exists|i: int| 0 <= i < puts.len() && target_of(#[trigger] puts[i]) == x);
                let i = choose|i: int| 0 <= i < puts.len() && target_of(#[trigger] puts[i]) == x;
                assert(target_of(puts[i]) == x);
                assert(p.contains(x));
            } else {
                let m = last_match::<FlatpakRef>(a, x);
                lemma_last_match_range::<FlatpakRef>(a, x);
                assert(a[m] == x);
                assert(a.contains(x));
                assert forall|i: int| 0 <= i < puts.len() implies !x.same_identity(
                    target_of(#[trigger] puts[i]),
                ) by {
                    let y = target_of(puts[i]);
                    if x.same_identity(y) {
                        assert(b.contains(y));
                        assert(x == y);
                    }
                }
                assert(p.contains(x));
            }
        }
        if r.contains(x) {
            assert(p.contains(x));
            if !(exists|i: int| 0 <= i < puts.len() && target_of(#[trigger] puts[i]) == x) {
                assert(a.contains(x));
                let j = last_match::<FlatpakRef>(b, x);
                lemma_last_match_range::<FlatpakRef>(b, x);
                if j < 0 {
                    lemma_filter_contains(a, absent_from::<FlatpakRef>(b), x);
                    let k = choose|k: int| 0 <= k < ar.len() && ar[k] == x;
                    assert(target_of(rems[k]) == x);
                    assert(!x.same_identity(target_of(rems[k])));
                } else {
                    let y = b[j];
                    assert(b.contains(y));
                    if absent_from::<FlatpakRef>(a)(y) || changed_in::<FlatpakRef>(a)(y) {
                        let i = choose|i: int| 0 <= i < puts.len() && target_of(#[trigger] puts[i]) == y;
                        assert(!x.same_identity(target_of(puts[i])));
                    } else {
                        let m = last_match::<FlatpakRef>(a, y);
                        lemma_last_match_range::<FlatpakRef>(a, y);
                        assert(a[m] == y);
                        assert(a.contains(y));
                        assert(x == y);
                    }
                }
            }
        }
    }
    lemma_remotes_reach_target(target.remotes, current.remotes);
}

proof fn lemma_remote_kept(s: Seq<FlatpakRemoteView>, y: FlatpakRemoteView, x: FlatpakRemoteView)
    requires
        last_match::<FlatpakRemote>(s, x) >= 0,
    ensures
        last_match::<FlatpakRemote>(s.push(y), x) >= 0,
{
    assert(s.push(y).drop_last() =~= s);
}

proof fn lemma_apply_remotes(s: Seq<FlatpakRemoteView>, adds: Seq<FlatpakRemoteView>)
    ensures
        forall|x: FlatpakRemoteView|
            last_match::<FlatpakRemote>(s, x) >= 0 ==> last_match::<FlatpakRemote>(
                #[trigger] apply_remote_ops(s, adds),
                x,
            ) >= 0,
        forall|k: int|
            0 <= k < adds.len() ==> last_match::<FlatpakRemote>(
                apply_remote_ops(s, adds),
                #[trigger] adds[k],
            ) >= 0,
    decreases adds.len(),
{
    if adds.len() > 0 {
        let r = adds[0];
        let next = if last_match::<FlatpakRemote>(s, r) >= 0 {
            s
        } else {
            s.push(as_added(r))
        };
        let rest = adds.drop_first();
        lemma_apply_remotes(next, rest);
        assert forall|x: FlatpakRemoteView| last_match::<FlatpakRemote>(s, x) >= 0 implies last_match::<
            FlatpakRemote,
        >(#[trigger] apply_remote_ops(s, adds), x) >= 0 by {
            if last_match::<FlatpakRemote>(s, r) < 0 {
                lemma_remote_kept(s, as_added(r), x);
            }
        }
        assert(last_match::<FlatpakRemote>(next, r) >= 0);
        assert forall|k: int| 0 <= k < adds.len() implies last_match::<FlatpakRemote>(
            apply_remote_ops(s, adds),
            #[trigger] adds[k],
        ) >= 0 by {
            if k > 0 {
                assert(rest[k - 1] == adds[k]);
            }
        }
    }
}

proof fn lemma_remotes_reach_target(b: Seq<FlatpakRemoteView>, a: Seq<FlatpakRemoteView>)
    ensures
        forall|i: int|
            0 <= i < b.len() && !is_local_url(b[i].url) ==> last_match::<FlatpakRemote>(
                apply_remote_ops(a, remotes_to_add(b, a)),
                #[trigger] b[i],
            ) >= 0,
{
    let adds = remotes_to_add(b, a);
    let added = added_spec::<FlatpakRemote>(b, a);
    lemma_apply_remotes(a, adds);
    assert forall|i: int| 0 <= i < b.len() && !is_local_url(b[i].url) implies last_match::<
        FlatpakRemote,
    >(apply_remote_ops(a, adds), #[trigger] b[i]) >= 0 by {
        let x = b[i];
        if last_match::<FlatpakRemote>(a, x) < 0 {
            b.lemma_filter_contains(absent_from::<FlatpakRemote>(a), i);
            let k = choose|k: int| 0 <= k < added.len() && added[k] == x;
            added.lemma_filter_contains(fetchable(), k);
            let m = choose|m: int| 0 <= m < adds.len() && adds[m] == x;
            assert(last_match::<FlatpakRemote>(apply_remote_ops(a, adds), adds[m]) >= 0);
        }
    }
}


/// A scope after its plan toward `target` has run, every operation succeeding.
pub open spec fn reconciled(
    target: FlatpakInstallationView,
    current: FlatpakInstallationView,
) -> FlatpakInstallationView {
    FlatpakInstallationView {
        refs: reconciled_refs(target, current),
        remotes: reconciled_remotes(target, current),
        ..current
    }
}

/// Reconciliation is idempotent. Planning the same target again against the
/// reconciled state of a scope yields no operation at all, so a second pass
/// ends in the state that the first one left.
pub proof fn lemma_reconcile_idempotent(
    target: FlatpakInstallationView,
    current: FlatpakInstallationView,
)
    requires
        target.wf(),
        current.wf(),
    ensures
        ref_ops(target.refs, reconciled(target, current).refs).len() == 0,
        remotes_to_add(target.remotes, reconciled(target, current).remotes).len() == 0,
        reconciled(target, reconciled(target, current)) == reconciled(target, current),
{
    lemma_reconcile_reaches_target(target, current);
    let after = reconciled(target, current);
    let b = target.refs;
    let r = after.refs;
    lemma_unique_contents(b);
    assert forall|i: int| 0 <= i < b.len() implies !absent_from::<FlatpakRef>(r)(#[trigger] b[i])
        && !changed_in::<FlatpakRef>(r)(b[i]) by {
        let x = b[i];
        assert(b.contains(x));
        assert(r.contains(x));
        let k = choose|k: int| 0 <= k < r.len() && r[k] == x;
        lemma_no_match(r, x);
        assert(r[k].same_identity(x));
        let m = last_match::<FlatpakRef>(r, x);
        lemma_last_match_range::<FlatpakRef>(r, x);
        assert(r.contains(r[m]));
        assert(b.contains(r[m]));
        assert(r[m] == x);
    }
    lemma_filter_none(b, absent_from::<FlatpakRef>(r));
    lemma_filter_none(b, changed_in::<FlatpakRef>(r));
    assert forall|k: int| 0 <= k < r.len() implies !absent_from::<FlatpakRef>(b)(#[trigger] r[k]) by {
        let y = r[k];
        assert(r.contains(y));
        assert(b.contains(y));
        let i = choose|i: int| 0 <= i < b.len() && b[i] == y;
        lemma_no_match(b, y);
        assert(b[i].same_identity(y));
    }
    lemma_filter_none(r, absent_from::<FlatpakRef>(b));
    let ops = ref_ops(b, r);
    assert(ops.len() == 0);
    let rb = target.remotes;
    let ra = after.remotes;
    let added = added_spec::<FlatpakRemote>(rb, ra);
    assert forall|k: int| 0 <= k < added.len() implies !fetchable()(#[trigger] added[k]) by {
        let x = added[k];
        assert(added.contains(x));
        lemma_filter_contains(rb, absent_from::<FlatpakRemote>(ra), x);
        let i = choose|i: int| 0 <= i < rb.len() && rb[i] == x;
        if !is_local_url(x.url) {
            assert(last_match::<FlatpakRemote>(ra, rb[i]) >= 0);
        }
    }
    lemma_filter_none(added, fetchable());
    let again = reconciled(target, after);
    assert(again.refs == r);
    assert(again.remotes == ra);
}


proof fn lemma_remotes_present(s: Seq<FlatpakRemoteView>, adds: Seq<FlatpakRemoteView>)
    requires
        forall|k: int| 0 <= k < adds.len() ==> last_match::<FlatpakRemote>(s, #[trigger] adds[k]) >= 0,
    ensures
        apply_remote_ops(s, adds) == s,
    decreases adds.len(),
{
    if adds.len() > 0 {
        assert(last_match::<FlatpakRemote>(s, adds[0]) >= 0);
        let rest = adds.drop_first();
        assert forall|k: int| 0 <= k < rest.len() implies last_match::<FlatpakRemote>(
            s,
            #[trigger] rest[k],
        ) >= 0 by {
            assert(rest[k] == adds[k + 1]);
        }
        lemma_remotes_present(s, rest);
    }
}

/// Running the very same plan a second time, on the state that the first run
/// left, installs the same packages and configures the same repositories.
pub proof fn lemma_same_plan_twice(target: FlatpakInstallationView, current: FlatpakInstallationView)
    requires
        target.wf(),
        current.wf(),
    ensures
        unique::<FlatpakRef>(
            apply_ref_ops(reconciled_refs(target, current), ref_ops(target.refs, current.refs)),
        ),
        forall|x: FlatpakRefView|
            apply_ref_ops(reconciled_refs(target, current), ref_ops(target.refs, current.refs)).contains(
                x,
            ) <==> reconciled_refs(target, current).contains(x),
        apply_remote_ops(
            reconciled_remotes(target, current),
            remotes_to_add(target.remotes, current.remotes),
        ) == reconciled_remotes(target, current),
{
    lemma_reconcile_reaches_target(target, current);
    let b = target.refs;
    let a = current.refs;
    let r = reconciled_refs(target, current);
    let puts = added_spec::<FlatpakRef>(b, a).map_values(as_install()) + altered_spec::<FlatpakRef>(
        b,
        a,
    ).map_values(as_update());
    let ar = removed_spec::<FlatpakRef>(b, a);
    let rems = ar.map_values(as_removal());
    lemma_apply_append(r, puts, rems);
    lemma_put_targets(b, a);
    lemma_puts(r, puts);
    let p = apply_ref_ops(r, puts);
    assert forall|i: int| 0 <= i < rems.len() implies (#[trigger] rems[i]) is Remove by {
    }
    lemma_removes(p, rems);
    lemma_unique_contents(b);
    let f = apply_ref_ops(r, ref_ops(b, a));
    assert(f == apply_ref_ops(p, rems));
    assert forall|x: FlatpakRefView| f.contains(x) <==> r.contains(x) by {
        if r.contains(x) {
            assert(b.contains(x));
            let i0 = choose|i: int| 0 <= i < b.len() && b[i] == x;
            if !(exists|i: int| 0 <= i < puts.len() && target_of(#[trigger] puts[i]) == x) {
                assert forall|i: int| 0 <= i < puts.len() implies !x.same_identity(
                    target_of(#[trigger] puts[i]),
                ) by {
                    let y = target_of(puts[i]);
                    if x.same_identity(y) {
                        assert(b.contains(y));
                        assert(x == y);
                    }
                }
            } else {
                let i = choose|i: int| 0 <= i < puts.len() && target_of(#[trigger] puts[i]) == x;
                assert(target_of(puts[i]) == x);
            }
            assert(p.contains(x));
            assert forall|k: int| 0 <= k < rems.len() implies !x.same_identity(
                target_of(#[trigger] rems[k]),
            ) by {
                assert(target_of(rems[k]) == ar[k]);
                assert(ar.contains(ar[k]));
                lemma_filter_contains(a, absent_from::<FlatpakRef>(b), ar[k]);
                lemma_no_match(b, ar[k]);
                assert(!b[i0].same_identity(ar[k]));
            }
        }
        if f.contains(x) {
            assert(p.contains(x));
            if exists|i: int| 0 <= i < puts.len() && target_of(#[trigger] puts[i]) == x {
                let i = choose|i: int| 0 <= i < puts.len() && target_of(#[trigger] puts[i]) == x;
                assert(b.contains(target_of(puts[i])));
            }
        }
    }
    let ra = current.remotes;
    let adds = remotes_to_add(target.remotes, ra);
    lemma_apply_remotes(ra, adds);
    lemma_remotes_present(reconciled_remotes(target, current), adds);
}

} // verus!

//! Properties of the differ: what replacing one snapshot by another notifies.
use vstd::prelude::*;
use crate::client::{notify_all, DispatchModel};
use crate::codec::{decode_spec, names_unique};
use crate::setting::{SettingModel, XSettingsAction};
use crate::snapshot::{deletions, diff, lookup, upserts, ChangeModel};

verus! {

/// `lookup` finds a setting of `s` exactly when one has that name, and what
/// it finds is one of them.
pub proof fn lemma_lookup(s: Seq<SettingModel>, name: Seq<u8>)
    ensures
        lookup(s, name) is None <==> forall|i: int| 0 <= i < s.len() ==> #[trigger] s[i].name != name,
        lookup(s, name) matches Some(m) ==> exists|i: int|
            0 <= i < s.len() && #[trigger] s[i] == m && m.name == name,
    decreases s.len(),
{
    if s.len() > 0 {
        lemma_lookup(s.drop_first(), name);
        if s[0].name != name {
            assert forall|i: int| 0 <= i < s.len() && #[trigger] s[i].name == name implies lookup(
                s,
                name,
            ) is Some by {
                assert(s.drop_first()[i - 1] == s[i]);
            }
            if let Some(m) = lookup(s, name) {
                let i = choose|i: int| 0 <= i < s.drop_first().len() && #[trigger] s.drop_first()[i] == m
                    && m.name == name;
                assert(s[i + 1] == m);
            }
        }
    }
}

/// In a snapshot with unique names, looking up a setting's name finds it.
pub proof fn lemma_lookup_unique(s: Seq<SettingModel>, i: int)
    requires
        names_unique(s),
        0 <= i < s.len(),
    ensures
        lookup(s, s[i].name) == Some(s[i]),
    decreases s.len(),
{
    if i > 0 {
        assert(s[0].name != s[i].name);
        let t = s.drop_first();
        assert(t[i - 1] == s[i]);
        assert forall|a: int, b: int| 0 <= a < b < t.len() implies #[trigger] t[a].name
            != #[trigger] t[b].name by {
            assert(t[a] == s[a + 1] && t[b] == s[b + 1]);
        }
        lemma_lookup_unique(t, i - 1);
    }
}

proof fn lemma_upserts_silent(old: Seq<SettingModel>, new: Seq<SettingModel>)
    requires
        forall|j: int| 0 <= j < new.len() ==> lookup(old, #[trigger] new[j].name) == Some(new[j]),
    ensures
        upserts(old, new) == Seq::<ChangeModel>::empty(),
    decreases new.len(),
{
    if new.len() > 0 {
        let t = new.drop_last();
        assert forall|j: int| 0 <= j < t.len() implies lookup(old, #[trigger] t[j].name) == Some(
            t[j],
        ) by {
            assert(t[j] == new[j]);
        }
        lemma_upserts_silent(old, t);
        assert(lookup(old, new[new.len() - 1].name) == Some(new[new.len() - 1]));
    }
}

proof fn lemma_deletions_silent(old: Seq<SettingModel>, new: Seq<SettingModel>)
    requires
        forall|j: int| 0 <= j < old.len() ==> lookup(new, #[trigger] old[j].name) is Some,
    ensures
        deletions(old, new) == Seq::<ChangeModel>::empty(),
    decreases old.len(),
{
    if old.len() > 0 {
        let t = old.drop_last();
        assert forall|j: int| 0 <= j < t.len() implies lookup(new, #[trigger] t[j].name) is Some by {
            assert(t[j] == old[j]);
        }
        lemma_deletions_silent(t, new);
        assert(lookup(new, old[old.len() - 1].name) is Some);
    }
}

/// Replacing a snapshot by itself notifies nothing.
pub proof fn lemma_diff_identical(s: Seq<SettingModel>)
    requires
        names_unique(s),
    ensures
        diff(s, s).len() == 0,
{
    assert forall|j: int| 0 <= j < s.len() implies lookup(s, #[trigger] s[j].name) == Some(s[j]) by {
        lemma_lookup_unique(s, j);
    }
    lemma_upserts_silent(s, s);
    lemma_deletions_silent(s, s);
}

/// Applying the same blob twice: once its settings are the snapshot, the
/// second application notifies nothing.
pub proof fn lemma_reapply_is_silent(b: Seq<u8>)
    requires
        decode_spec(b) is Ok,
    ensures
        diff(decode_spec(b)->Ok_0, decode_spec(b)->Ok_0).len() == 0,
{
    lemma_diff_identical(decode_spec(b)->Ok_0);
}

/// `c` is a `New` or `Changed` notification that replacing `a` by `b` calls for.
pub open spec fn is_upsert(a: Seq<SettingModel>, b: Seq<SettingModel>, c: ChangeModel) -> bool {
    &&& lookup(b, c.setting.name) == Some(c.setting)
    &&& match lookup(a, c.setting.name) {
        None => c.action == XSettingsAction::New,
        Some(o) => c.action == XSettingsAction::Changed && o.value != c.setting.value,
    }
}

/// `c` is a `Deleted` notification that replacing `a` by `b` calls for.
pub open spec fn is_deletion(a: Seq<SettingModel>, b: Seq<SettingModel>, c: ChangeModel) -> bool {
    &&& c.action == XSettingsAction::Deleted
    &&& lookup(b, c.setting.name) is None
    &&& lookup(a, c.setting.name) == Some(c.setting)
}

/// No two notifications of `d` are about the same name.
pub open spec fn one_per_name(d: Seq<ChangeModel>) -> bool {
    forall|i: int, k: int|
        0 <= i < k < d.len() ==> #[trigger] d[i].setting.name != #[trigger] d[k].setting.name
}

proof fn lemma_unique_drop_last(s: Seq<SettingModel>)
    requires
        names_unique(s),
        s.len() > 0,
    ensures
        names_unique(s.drop_last()),
{
    let t = s.drop_last();
    assert forall|a: int, b: int| 0 <= a < b < t.len() implies #[trigger] t[a].name
        != #[trigger] t[b].name by {
        assert(t[a] == s[a] && t[b] == s[b]);
    }
}

proof fn lemma_lookup_lift(s: Seq<SettingModel>, name: Seq<u8>)
    requires
        names_unique(s),
        s.len() > 0,
        lookup(s.drop_last(), name) is Some,
    ensures
        lookup(s, name) == lookup(s.drop_last(), name),
        name != s.last().name,
{
    let t = s.drop_last();
    lemma_lookup(t, name);
    let m = lookup(t, name)->Some_0;
    let j = choose|j: int| 0 <= j < t.len() && #[trigger] t[j] == m && m.name == name;
    assert(s[j] == t[j]);
    lemma_lookup_unique(s, j);
    assert(s[j].name != s[s.len() - 1].name);
}

proof fn lemma_upserts(a: Seq<SettingModel>, b: Seq<SettingModel>)
    requires
        names_unique(b),
    ensures
        forall|i: int| 0 <= i < upserts(a, b).len() ==> is_upsert(a, b, #[trigger] upserts(a, b)[i]),
        one_per_name(upserts(a, b)),
        forall|j: int|
            0 <= j < b.len() && lookup(a, #[trigger] b[j].name) is None ==> exists|i: int|
                0 <= i < upserts(a, b).len() && #[trigger] upserts(a, b)[i] == (ChangeModel {
                    action: XSettingsAction::New,
                    setting: b[j],
                }),
        forall|j: int|
            0 <= j < b.len() && lookup(a, #[trigger] b[j].name) is Some && lookup(a, b[j].name)->Some_0.value
                != b[j].value ==> exists|i: int|
                0 <= i < upserts(a, b).len() && #[trigger] upserts(a, b)[i] == (ChangeModel {
                    action: XSettingsAction::Changed,
                    setting: b[j],
                }),
    decreases b.len(),
{
    if b.len() > 0 {
        let t = b.drop_last();
        lemma_unique_drop_last(b);
        lemma_upserts(a, t);
        let prev = upserts(a, t);
        let u = upserts(a, b);
        let e = b.last();
        lemma_lookup_unique(b, b.len() - 1);
        assert(prev.len() <= u.len());
        assert forall|i: int| 0 <= i < prev.len() implies #[trigger] u[i] == prev[i] && is_upsert(
            a,
            b,
            u[i],
        ) && u[i].setting.name != e.name by {
            assert(is_upsert(a, t, prev[i]));
            lemma_lookup_lift(b, prev[i].setting.name);
        }
        assert forall|i: int| 0 <= i < u.len() implies is_upsert(a, b, #[trigger] u[i]) by {
            if i >= prev.len() {
                assert(u[i].setting == e);
            }
        }
        assert forall|i: int, k: int| 0 <= i < k < u.len() implies #[trigger] u[i].setting.name
            != #[trigger] u[k].setting.name by {
            if k >= prev.len() {
                assert(u[k].setting == e);
                assert(u[i] == prev[i]);
            } else {
                assert(u[i] == prev[i] && u[k] == prev[k]);
            }
        }
        assert forall|j: int| 0 <= j < b.len() && lookup(a, #[trigger] b[j].name) is None implies exists|i: int|
            0 <= i < u.len() && #[trigger] u[i] == (ChangeModel {
                action: XSettingsAction::New,
                setting: b[j],
            }) by {
            if j < t.len() {
                assert(t[j] == b[j]);
                let i = choose|i: int| 0 <= i < prev.len() && #[trigger] prev[i] == (ChangeModel {
                    action: XSettingsAction::New,
                    setting: t[j],
                });
                assert(u[i] == prev[i]);
            } else {
                assert(u[u.len() - 1].setting == e);
            }
        }
        assert forall|j: int| 0 <= j < b.len() && lookup(a, #[trigger] b[j].name) is Some
            && lookup(a, b[j].name)->Some_0.value != b[j].value implies exists|i: int|
            0 <= i < u.len() && #[trigger] u[i] == (ChangeModel {
                action: XSettingsAction::Changed,
                setting: b[j],
            }) by {
            if j < t.len() {
                assert(t[j] == b[j]);
                let i = choose|i: int| 0 <= i < prev.len() && #[trigger] prev[i] == (ChangeModel {
                    action: XSettingsAction::Changed,
                    setting: t[j],
                });
                assert(u[i] == prev[i]);
            } else {
                assert(u[u.len() - 1].setting == e);
            }
        }
    }
}

proof fn lemma_deletions(a: Seq<SettingModel>, b: Seq<SettingModel>)
    requires
        names_unique(a),
    ensures
        forall|i: int| 0 <= i < deletions(a, b).len() ==> is_deletion(a, b, #[trigger] deletions(a, b)[i]),
        one_per_name(deletions(a, b)),
        forall|j: int|
            0 <= j < a.len() && lookup(b, #[trigger] a[j].name) is None ==> exists|i: int|
                0 <= i < deletions(a, b).len() && #[trigger] deletions(a, b)[i] == (ChangeModel {
                    action: XSettingsAction::Deleted,
                    setting: a[j],
                }),
    decreases a.len(),
{
    if a.len() > 0 {
        let t = a.drop_last();
        lemma_unique_drop_last(a);
        lemma_deletions(t, b);
        let prev = deletions(t, b);
        let d = deletions(a, b);
        let o = a.last();
        lemma_lookup_unique(a, a.len() - 1);
        assert(prev.len() <= d.len());
        assert forall|i: int| 0 <= i < prev.len() implies #[trigger] d[i] == prev[i]
            && is_deletion(a, b, d[i]) && d[i].setting.name != o.name by {
            assert(is_deletion(t, b, prev[i]));
            lemma_lookup_lift(a, prev[i].setting.name);
        }
        assert forall|i: int| 0 <= i < d.len() implies is_deletion(a, b, #[trigger] d[i]) by {
            if i >= prev.len() {
                assert(d[i].setting == o);
            }
        }
        assert forall|i: int, k: int| 0 <= i < k < d.len() implies #[trigger] d[i].setting.name
            != #[trigger] d[k].setting.name by {
            if k >= prev.len() {
                assert(d[k].setting == o);
                assert(d[i] == prev[i]);
            } else {
                assert(d[i] == prev[i] && d[k] == prev[k]);
            }
        }
        assert forall|j: int| 0 <= j < a.len() && lookup(b, #[trigger] a[j].name) is None implies exists|i: int|
            0 <= i < d.len() && #[trigger] d[i] == (ChangeModel {
                action: XSettingsAction::Deleted,
                setting: a[j],
            }) by {
            if j < t.len() {
                assert(t[j] == a[j]);
                let i = choose|i: int| 0 <= i < prev.len() && #[trigger] prev[i] == (ChangeModel {
                    action: XSettingsAction::Deleted,
                    setting: t[j],
                });
                assert(d[i] == prev[i]);
            } else {
                assert(d[d.len() - 1].setting == o);
            }
        }
    }
}

/// Diff completeness: replacing snapshot `a` by `b` notifies each name at
/// most once; `New` for each name only in `b`, `Deleted` for each name only
/// in `a`, `Changed` for each name in both whose value differs, and nothing
/// else.
pub proof fn lemma_diff_complete(a: Seq<SettingModel>, b: Seq<SettingModel>)
    requires
        names_unique(a),
        names_unique(b),
    ensures
        forall|i: int| 0 <= i < diff(a, b).len() ==> is_upsert(a, b, #[trigger] diff(a, b)[i])
            || is_deletion(a, b, diff(a, b)[i]),
        one_per_name(diff(a, b)),
        forall|n: Seq<u8>| lookup(a, n) is None && #[trigger] lookup(b, n) is Some ==> exists|i: int|
            0 <= i < diff(a, b).len() && #[trigger] diff(a, b)[i] == (ChangeModel {
                action: XSettingsAction::New,
                setting: lookup(b, n)->Some_0,
            }),
        forall|n: Seq<u8>| #[trigger] lookup(a, n) is Some && lookup(b, n) is Some
            && lookup(a, n)->Some_0.value != lookup(b, n)->Some_0.value ==> exists|i: int|
            0 <= i < diff(a, b).len() && #[trigger] diff(a, b)[i] == (ChangeModel {
                action: XSettingsAction::Changed,
                setting: lookup(b, n)->Some_0,
            }),
        forall|n: Seq<u8>| #[trigger] lookup(a, n) is Some && lookup(b, n) is None ==> exists|i: int|
            0 <= i < diff(a, b).len() && #[trigger] diff(a, b)[i] == (ChangeModel {
                action: XSettingsAction::Deleted,
                setting: lookup(a, n)->Some_0,
            }),
{
    lemma_upserts(a, b);
    lemma_deletions(a, b);
    let u = upserts(a, b);
    let dl = deletions(a, b);
    let d = diff(a, b);
    assert forall|i: int| 0 <= i < d.len() implies is_upsert(a, b, #[trigger] d[i]) || is_deletion(
        a,
        b,
        d[i],
    ) by {
        if i < u.len() {
            assert(d[i] == u[i]);
        } else {
            assert(d[i] == dl[i - u.len()]);
        }
    }
    assert forall|i: int, k: int| 0 <= i < k < d.len() implies #[trigger] d[i].setting.name
        != #[trigger] d[k].setting.name by {
        if k < u.len() {
            assert(d[i] == u[i] && d[k] == u[k]);
        } else if i >= u.len() {
            assert(d[i] == dl[i - u.len()] && d[k] == dl[k - u.len()]);
        } else {
            assert(d[i] == u[i] && d[k] == dl[k - u.len()]);
            assert(is_upsert(a, b, u[i]));
            assert(is_deletion(a, b, dl[k - u.len()]));
        }
    }
    assert forall|n: Seq<u8>| lookup(a, n) is None && #[trigger] lookup(b, n) is Some implies exists|i: int|
        0 <= i < d.len() && #[trigger] d[i] == (ChangeModel {
            action: XSettingsAction::New,
            setting: lookup(b, n)->Some_0,
        }) by {
        let e = lookup(b, n)->Some_0;
        lemma_lookup(b, n);
        let j = choose|j: int| 0 <= j < b.len() && #[trigger] b[j] == e && e.name == n;
        let i = choose|i: int| 0 <= i < u.len() && #[trigger] u[i] == (ChangeModel {
            action: XSettingsAction::New,
            setting: b[j],
        });
        assert(d[i] == u[i]);
    }
    assert forall|n: Seq<u8>| #[trigger] lookup(a, n) is Some && lookup(b, n) is Some
        && lookup(a, n)->Some_0.value != lookup(b, n)->Some_0.value implies exists|i: int|
        0 <= i < d.len() && #[trigger] d[i] == (ChangeModel {
            action: XSettingsAction::Changed,
            setting: lookup(b, n)->Some_0,
        }) by {
        let e = lookup(b, n)->Some_0;
        lemma_lookup(b, n);
        let j = choose|j: int| 0 <= j < b.len() && #[trigger] b[j] == e && e.name == n;
        let i = choose|i: int| 0 <= i < u.len() && #[trigger] u[i] == (ChangeModel {
            action: XSettingsAction::Changed,
            setting: b[j],
        });
        assert(d[i] == u[i]);
    }
    assert forall|n: Seq<u8>| #[trigger] lookup(a, n) is Some && lookup(b, n) is None implies exists|i: int|
        0 <= i < d.len() && #[trigger] d[i] == (ChangeModel {
            action: XSettingsAction::Deleted,
            setting: lookup(a, n)->Some_0,
        }) by {
        let o = lookup(a, n)->Some_0;
        lemma_lookup(a, n);
        let j = choose|j: int| 0 <= j < a.len() && #[trigger] a[j] == o && o.name == n;
        let i = choose|i: int| 0 <= i < dl.len() && #[trigger] dl[i] == (ChangeModel {
            action: XSettingsAction::Deleted,
            setting: a[j],
        });
        assert(d[i + u.len()] == dl[i]);
    }
}

/// The names that replacing snapshot `a` by `b` must notify: those only in
/// `b`, those only in `a`, and those in both whose value differs.
pub open spec fn changed_names(a: Seq<SettingModel>, b: Seq<SettingModel>) -> Set<Seq<u8>> {
    Set::new(
        |n: Seq<u8>|
            {
                ||| lookup(a, n) is None && lookup(b, n) is Some
                ||| lookup(a, n) is Some && lookup(b, n) is None
                ||| lookup(a, n) is Some && lookup(b, n) is Some && lookup(a, n)->Some_0.value
                    != lookup(b, n)->Some_0.value
            },
    )
}

/// The names that a sequence of notifications is about, in order.
pub open spec fn names_of(d: Seq<ChangeModel>) -> Seq<Seq<u8>> {
    d.map_values(|c: ChangeModel| c.setting.name)
}

/// Diff count: replacing snapshot `a` by `b` notifies exactly the changed
/// names, each once. No name whose type and value stay the same is notified,
/// whatever its serial, and there are as many notifications as changed
/// names.
pub proof fn lemma_diff_count(a: Seq<SettingModel>, b: Seq<SettingModel>)
    requires
        names_unique(a),
        names_unique(b),
    ensures
        names_of(diff(a, b)).to_set() == changed_names(a, b),
        diff(a, b).len() == changed_names(a, b).len(),
{
    lemma_diff_complete(a, b);
    let d = diff(a, b);
    let ns = names_of(d);
    let c = changed_names(a, b);
    assert forall|n: Seq<u8>| ns.to_set().contains(n) implies c.contains(n) by {
        let i = choose|i: int| 0 <= i < ns.len() && ns[i] == n;
        assert(ns[i] == d[i].setting.name);
        assert(is_upsert(a, b, d[i]) || is_deletion(a, b, d[i]));
    }
    assert forall|n: Seq<u8>| c.contains(n) implies ns.to_set().contains(n) by {
        lemma_lookup(a, n);
        lemma_lookup(b, n);
        if lookup(a, n) is None && lookup(b, n) is Some {
            let i = choose|i: int| 0 <= i < d.len() && #[trigger] d[i] == (ChangeModel {
                action: XSettingsAction::New,
                setting: lookup(b, n)->Some_0,
            });
            assert(ns[i] == n);
        } else if lookup(a, n) is Some && lookup(b, n) is None {
            let i = choose|i: int| 0 <= i < d.len() && #[trigger] d[i] == (ChangeModel {
                action: XSettingsAction::Deleted,
                setting: lookup(a, n)->Some_0,
            });
            assert(ns[i] == n);
        } else {
            let i = choose|i: int| 0 <= i < d.len() && #[trigger] d[i] == (ChangeModel {
                action: XSettingsAction::Changed,
                setting: lookup(b, n)->Some_0,
            });
            assert(ns[i] == n);
        }
    }
    assert(ns.to_set() =~= c);
    assert(ns.no_duplicates()) by {
        assert forall|i: int, k: int| 0 <= i < ns.len() && 0 <= k < ns.len() && i != k implies ns[i]
            != ns[k] by {
            assert(ns[i] == d[i].setting.name && ns[k] == d[k].setting.name);
            if i < k {
                assert(d[i].setting.name != d[k].setting.name);
            } else {
                assert(d[k].setting.name != d[i].setting.name);
            }
        }
    }
    ns.unique_seq_to_set();
}

/// A property change of a bound session runs the notify callback once per
/// changed name and for no other name: the callbacks are the diff's
/// notifications, one each, in order.
pub proof fn lemma_property_change_notifies(a: Seq<SettingModel>, b: Seq<SettingModel>)
    requires
        names_unique(a),
        names_unique(b),
    ensures
        notify_all(diff(a, b)).len() == changed_names(a, b).len(),
        forall|i: int|
            0 <= i < diff(a, b).len() ==> #[trigger] notify_all(diff(a, b))[i] == DispatchModel::Notify(
                diff(a, b)[i],
            ),
{
    lemma_diff_count(a, b);
}

} // verus!

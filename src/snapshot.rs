//! Snapshots of settings and the diff between two of them.
use vstd::prelude::*;
use crate::setting::{models, SettingModel, XSettingsAction, XSettingsSetting};

verus! {

/// The first setting named `name` in `s`.
pub open spec fn lookup(s: Seq<SettingModel>, name: Seq<u8>) -> Option<SettingModel>
    decreases s.len(),
{
    if s.len() == 0 {
        None
    } else if s[0].name == name {
        Some(s[0])
    } else {
        lookup(s.drop_first(), name)
    }
}

/// One notification of the diff: what happened, and to which setting.
/// For `Deleted` the setting is the one that left the snapshot.
pub struct Change {
    pub action: XSettingsAction,
    pub setting: XSettingsSetting,
}

/// Mathematical model of a notification.
pub struct ChangeModel {
    pub action: XSettingsAction,
    pub setting: SettingModel,
}

impl View for Change {
    type V = ChangeModel;

    open spec fn view(&self) -> ChangeModel {
        ChangeModel { action: self.action, setting: self.setting@ }
    }
}

/// The models of a sequence of notifications.
pub open spec fn change_models(s: Seq<Change>) -> Seq<ChangeModel> {
    s.map_values(|c: Change| c@)
}

/// `New` for each setting of `new` whose name `old` lacks, `Changed` for each
/// whose value differs from the one in `old`, in the order of `new`.
pub open spec fn upserts(old: Seq<SettingModel>, new: Seq<SettingModel>) -> Seq<ChangeModel>
    decreases new.len(),
{
    if new.len() == 0 {
        seq![]
    } else {
        let prev = upserts(old, new.drop_last());
        let e = new.last();
        match lookup(old, e.name) {
            None => prev.push(ChangeModel { action: XSettingsAction::New, setting: e }),
            Some(o) => if o.value == e.value {
                prev
            } else {
                prev.push(ChangeModel { action: XSettingsAction::Changed, setting: e })
            },
        }
    }
}

/// `Deleted` for each setting of `old` whose name `new` lacks, in the order of `old`.
pub open spec fn deletions(old: Seq<SettingModel>, new: Seq<SettingModel>) -> Seq<ChangeModel>
    decreases old.len(),
{
    if old.len() == 0 {
        seq![]
    } else {
        let prev = deletions(old.drop_last(), new);
        let o = old.last();
        if lookup(new, o.name) is Some {
            prev
        } else {
            prev.push(ChangeModel { action: XSettingsAction::Deleted, setting: o })
        }
    }
}

/// The notifications that replacing snapshot `old` by `new` gives.
pub open spec fn diff(old: Seq<SettingModel>, new: Seq<SettingModel>) -> Seq<ChangeModel> {
    upserts(old, new) + deletions(old, new)
}

/// The index of the first setting of `s` named `name`.
pub fn find(s: &Vec<XSettingsSetting>, name: &[u8]) -> (r: Option<usize>)
    ensures
        match lookup(models(s@), name@) {
            None => r is None,
            Some(m) => r matches Some(i) && i < s@.len() && s@[i as int]@ == m,
        },
{
    let ghost m = models(s@);
    assert(m.subrange(0, m.len() as int) =~= m);
    let mut i: usize = 0;
    while i < s.len()
        invariant
            m == models(s@),
            i <= s@.len(),
            lookup(m, name@) == lookup(m.subrange(i as int, m.len() as int), name@),
        decreases s@.len() - i,
    {
        let ghost tail = m.subrange(i as int, m.len() as int);
        assert(tail.drop_first() =~= m.subrange(i + 1, m.len() as int));
        if crate::setting::bytes_equal(s[i].name.as_slice(), name) {
            return Some(i);
        }
        i = i + 1;
    }
    None
}

/// The notifications for replacing snapshot `old` by `new`: `New` and
/// `Changed` in the order of `new`, then `Deleted` in the order of `old`.
pub fn apply_diff(old: &Vec<XSettingsSetting>, new: &Vec<XSettingsSetting>) -> (r: Vec<Change>)
    ensures
        change_models(r@) == diff(models(old@), models(new@)),
{
    let ghost mo = models(old@);
    let ghost mn = models(new@);
    let mut out: Vec<Change> = Vec::new();
    let mut i: usize = 0;
    while i < new.len()
        invariant
            mo == models(old@),
            mn == models(new@),
            i <= new@.len(),
            change_models(out@) == upserts(mo, mn.subrange(0, i as int)),
        decreases new@.len() - i,
    {
        assert(mn.subrange(0, i + 1).drop_last() =~= mn.subrange(0, i as int));
        let ghost prev = change_models(out@);
        let e = &new[i];
        match find(old, e.name.as_slice()) {
            None => {
                out.push(Change { action: XSettingsAction::New, setting: e.copy() });
                assert(change_models(out@) =~= prev.push(
                    ChangeModel { action: XSettingsAction::New, setting: mn[i as int] },
                ));
            },
            Some(j) => {
                if !old[j].data.same_value(&e.data) {
                    out.push(Change { action: XSettingsAction::Changed, setting: e.copy() });
                    assert(change_models(out@) =~= prev.push(
                        ChangeModel { action: XSettingsAction::Changed, setting: mn[i as int] },
                    ));
                }
            },
        }
        i = i + 1;
    }
    assert(mn.subrange(0, new@.len() as int) =~= mn);
    let ghost ups = change_models(out@);
    let mut k: usize = 0;
    while k < old.len()
        invariant
            mo == models(old@),
            mn == models(new@),
            k <= old@.len(),
            change_models(out@) == ups + deletions(mo.subrange(0, k as int), mn),
        decreases old@.len() - k,
    {
        assert(mo.subrange(0, k + 1).drop_last() =~= mo.subrange(0, k as int));
        let ghost prev = change_models(out@);
        let o = &old[k];
        if find(new, o.name.as_slice()).is_none() {
            out.push(Change { action: XSettingsAction::Deleted, setting: o.copy() });
            assert(change_models(out@) =~= prev.push(
                ChangeModel { action: XSettingsAction::Deleted, setting: mo[k as int] },
            ));
        }
        k = k + 1;
    }
    assert(mo.subrange(0, old@.len() as int) =~= mo);
    out
}

} // verus!

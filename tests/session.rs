use xsettings::snapshot::apply_diff;
use xsettings::{
    Change, Client, Dispatch, Event, Need, Setting, SettingData, SettingRef, XSettingsAction,
    XSettingsColor, XSettingsResult, XSettingsSetting, WATCH_MASK,
};

const SEL: u64 = 300;
const PROP: u64 = 301;

enum Val<'a> {
    Int(i32),
    Str(&'a [u8]),
}

fn le_blob(entries: &[(&[u8], Val)]) -> Vec<u8> {
    let mut out = vec![0u8, 0, 0, 0];
    out.extend_from_slice(&1u32.to_le_bytes());
    out.extend_from_slice(&(entries.len() as u32).to_le_bytes());
    for (name, v) in entries {
        out.push(match v {
            Val::Int(_) => 0,
            Val::Str(_) => 1,
        });
        out.push(0);
        out.extend_from_slice(&(name.len() as u16).to_le_bytes());
        out.extend_from_slice(name);
        while out.len() % 4 != 0 {
            out.push(0);
        }
        out.extend_from_slice(&0u32.to_le_bytes());
        match v {
            Val::Int(i) => out.extend_from_slice(&i.to_le_bytes()),
            Val::Str(s) => {
                out.extend_from_slice(&(s.len() as u32).to_le_bytes());
                out.extend_from_slice(s);
                while out.len() % 4 != 0 {
                    out.push(0);
                }
            }
        }
    }
    out
}

fn notified(d: &Dispatch) -> Option<(XSettingsAction, Vec<u8>)> {
    match d {
        Dispatch::Notify(c) => Some((c.action, c.setting.name.clone())),
        Dispatch::Watch { .. } => None,
    }
}

fn watched(d: &Dispatch) -> Option<(u64, bool, i64)> {
    match d {
        Dispatch::Watch { window, is_start, mask } => Some((*window, *is_start, *mask)),
        Dispatch::Notify(_) => None,
    }
}

fn int_of(c: &Client, name: &[u8]) -> Option<i32> {
    match c.get_setting(name) {
        Ok(s) => match s.data() {
            SettingData::Int(i) => Some(*i),
            _ => None,
        },
        Err(_) => None,
    }
}

fn setting(name: &[u8], data: SettingData, serial: u32) -> XSettingsSetting {
    XSettingsSetting { name: name.to_vec(), data, last_change_serial: serial }
}

#[test]
fn owner_loss_then_rebind() {
    let mut c = Client::new(0, SEL, PROP);
    let blob = le_blob(&[(b"A", Val::Int(1)), (b"B", Val::Str(b"x"))]);
    let out = c.owner_changed(Some(10), Ok(Some(&blob)));
    assert_eq!(out.result, XSettingsResult::Success);
    assert_eq!(out.dispatches.len(), 3);
    assert_eq!(watched(&out.dispatches[0]), Some((10, true, WATCH_MASK)));
    assert_eq!(notified(&out.dispatches[1]), Some((XSettingsAction::New, b"A".to_vec())));
    assert_eq!(notified(&out.dispatches[2]), Some((XSettingsAction::New, b"B".to_vec())));
    assert_eq!(c.owner(), Some(10));

    let out = c.owner_changed(None, Ok(None));
    assert_eq!(out.result, XSettingsResult::Success);
    assert_eq!(out.dispatches.len(), 3);
    assert_eq!(notified(&out.dispatches[0]), Some((XSettingsAction::Deleted, b"A".to_vec())));
    assert_eq!(notified(&out.dispatches[1]), Some((XSettingsAction::Deleted, b"B".to_vec())));
    assert_eq!(watched(&out.dispatches[2]), Some((10, false, WATCH_MASK)));
    assert_eq!(c.owner(), None);
    assert_eq!(c.get_setting(b"A").err(), Some(XSettingsResult::NoEntry));

    let blob = le_blob(&[(b"A", Val::Int(2))]);
    let out = c.owner_changed(Some(11), Ok(Some(&blob)));
    assert_eq!(out.result, XSettingsResult::Success);
    assert_eq!(out.dispatches.len(), 2);
    assert_eq!(watched(&out.dispatches[0]), Some((11, true, WATCH_MASK)));
    assert_eq!(notified(&out.dispatches[1]), Some((XSettingsAction::New, b"A".to_vec())));
    assert_eq!(int_of(&c, b"A"), Some(2));
}

#[test]
fn same_blob_twice_is_silent() {
    let mut c = Client::new(0, SEL, PROP);
    let blob = le_blob(&[(b"A", Val::Int(1)), (b"B", Val::Str(b"x"))]);
    c.owner_changed(Some(10), Ok(Some(&blob)));
    let first = c.property_changed(Ok(Some(&blob)));
    assert_eq!(first.result, XSettingsResult::Success);
    assert_eq!(first.dispatches.len(), 0);
    let second = c.property_changed(Ok(Some(&blob)));
    assert_eq!(second.dispatches.len(), 0);
}

#[test]
fn property_change_diffs_against_snapshot() {
    let mut c = Client::new(0, SEL, PROP);
    let old = le_blob(&[(b"A", Val::Int(1)), (b"B", Val::Str(b"x")), (b"C", Val::Int(5))]);
    c.owner_changed(Some(10), Ok(Some(&old)));
    let new = le_blob(&[(b"D", Val::Int(1)), (b"A", Val::Int(2)), (b"C", Val::Int(5))]);
    let out = c.property_changed(Ok(Some(&new)));
    assert_eq!(out.result, XSettingsResult::Success);
    assert_eq!(out.dispatches.len(), 3);
    assert_eq!(notified(&out.dispatches[0]), Some((XSettingsAction::New, b"D".to_vec())));
    assert_eq!(notified(&out.dispatches[1]), Some((XSettingsAction::Changed, b"A".to_vec())));
    assert_eq!(notified(&out.dispatches[2]), Some((XSettingsAction::Deleted, b"B".to_vec())));
    assert_eq!(int_of(&c, b"A"), Some(2));
    assert_eq!(c.get_setting(b"B").err(), Some(XSettingsResult::NoEntry));
}

#[test]
fn type_change_is_a_change() {
    let mut c = Client::new(0, SEL, PROP);
    c.owner_changed(Some(10), Ok(Some(&le_blob(&[(b"A", Val::Int(1))]))));
    let out = c.property_changed(Ok(Some(&le_blob(&[(b"A", Val::Str(b"1"))]))));
    assert_eq!(out.dispatches.len(), 1);
    assert_eq!(notified(&out.dispatches[0]), Some((XSettingsAction::Changed, b"A".to_vec())));
}

#[test]
fn failed_decode_keeps_snapshot() {
    let mut c = Client::new(0, SEL, PROP);
    let blob = le_blob(&[(b"A", Val::Int(1))]);
    c.owner_changed(Some(10), Ok(Some(&blob)));
    let cut = &blob[..blob.len() - 1];
    let out = c.property_changed(Ok(Some(cut)));
    assert_eq!(out.result, XSettingsResult::Failed);
    assert_eq!(out.dispatches.len(), 0);
    assert_eq!(int_of(&c, b"A"), Some(1));
    let mut bad = blob.clone();
    bad[12] = 9;
    assert_eq!(c.property_changed(Ok(Some(&bad))).result, XSettingsResult::Failed);
    let dup = le_blob(&[(b"A", Val::Int(1)), (b"A", Val::Int(3))]);
    assert_eq!(c.property_changed(Ok(Some(&dup))).result, XSettingsResult::DuplicateEntry);
    assert_eq!(int_of(&c, b"A"), Some(1));
    assert_eq!(c.owner(), Some(10));
}

#[test]
fn failed_decode_on_bind_stays_unbound() {
    let mut c = Client::new(0, SEL, PROP);
    let out = c.owner_changed(Some(10), Ok(Some(&[1u8, 2, 3])));
    assert_eq!(out.result, XSettingsResult::Failed);
    assert_eq!(out.dispatches.len(), 0);
    assert_eq!(c.owner(), None);
}

#[test]
fn absent_property_binds_empty() {
    let mut c = Client::new(0, SEL, PROP);
    let out = c.owner_changed(Some(10), Ok(None));
    assert_eq!(out.result, XSettingsResult::Success);
    assert_eq!(out.dispatches.len(), 1);
    assert_eq!(c.owner(), Some(10));
    let out = c.property_changed(Ok(Some(&le_blob(&[]))));
    assert_eq!(out.dispatches.len(), 0);
}

#[test]
fn property_change_when_unbound_is_ignored() {
    let mut c = Client::new(0, SEL, PROP);
    let out = c.property_changed(Ok(Some(&le_blob(&[(b"A", Val::Int(1))]))));
    assert_eq!(out.result, XSettingsResult::Success);
    assert_eq!(out.dispatches.len(), 0);
    assert_eq!(c.get_setting(b"A").err(), Some(XSettingsResult::NoEntry));
}

#[test]
fn classify_events() {
    let mut c = Client::new(2, SEL, PROP);
    assert_eq!(c.screen(), 2);
    assert_eq!(c.classify(&Event::Other), Need::Nothing);
    assert_eq!(c.classify(&Event::ManagerAnnounce { selection: SEL }), Need::Owner);
    assert_eq!(c.classify(&Event::ManagerAnnounce { selection: 7 }), Need::Nothing);
    assert_eq!(c.classify(&Event::SelectionClear { selection: SEL }), Need::Owner);
    assert_eq!(c.classify(&Event::PropertyNotify { window: 10, atom: PROP }), Need::Nothing);
    assert_eq!(c.classify(&Event::DestroyNotify { window: 10 }), Need::Nothing);
    c.owner_changed(Some(10), Ok(None));
    assert_eq!(
        c.classify(&Event::PropertyNotify { window: 10, atom: PROP }),
        Need::Property { window: 10 }
    );
    assert_eq!(c.classify(&Event::PropertyNotify { window: 10, atom: 5 }), Need::Nothing);
    assert_eq!(c.classify(&Event::PropertyNotify { window: 11, atom: PROP }), Need::Nothing);
    assert_eq!(c.classify(&Event::DestroyNotify { window: 10 }), Need::Owner);
}

#[test]
fn lookup_is_exact_and_case_sensitive() {
    let mut c = Client::new(0, SEL, PROP);
    c.owner_changed(Some(10), Ok(Some(&le_blob(&[(b"Xft/DPI", Val::Int(98304))]))));
    assert_eq!(int_of(&c, b"Xft/DPI"), Some(98304));
    assert_eq!(c.get_setting(b"xft/dpi").err(), Some(XSettingsResult::NoEntry));
    assert_eq!(c.get_setting(b"Xft/DP").err(), Some(XSettingsResult::NoEntry));
    let s = c.get_setting(b"Xft/DPI").unwrap();
    assert_eq!(s.name(), b"Xft/DPI");
}

#[test]
fn equality_ignores_serial() {
    let a = Setting::from_raw(setting(b"A", SettingData::String(b"x".to_vec()), 1));
    let b = Setting::from_raw(setting(b"A", SettingData::String(b"x".to_vec()), 2));
    assert!(a == b);
    assert_eq!(a.last_change_serial(), 1);
    let c = Setting::from_raw(setting(b"A", SettingData::String(b"y".to_vec()), 1));
    assert!(a != c);
    let d = Setting::from_raw(setting(b"B", SettingData::String(b"x".to_vec()), 1));
    assert!(a != d);
    let e = Setting::from_raw(setting(b"A", SettingData::Int(1), 1));
    assert!(a != e);
    assert!(a.clone() == a);
}

#[test]
fn owned_equals_borrowed() {
    let raw = setting(b"C", SettingData::Color(XSettingsColor { red: 1, green: 2, blue: 3, alpha: 65535 }), 9);
    let borrowed = SettingRef::from_raw(&raw);
    let owned = Setting::from_raw(setting(
        b"C",
        SettingData::Color(XSettingsColor { red: 1, green: 2, blue: 3, alpha: 65535 }),
        4,
    ));
    assert!(owned == borrowed);
    assert!(borrowed.to_owned() == owned);
    assert_eq!(borrowed.name(), b"C");
    let other = setting(b"C", SettingData::Color(XSettingsColor { red: 1, green: 2, blue: 3, alpha: 0 }), 9);
    assert!(owned != SettingRef::from_raw(&other));
}

#[test]
fn diff_of_empty_snapshots_is_empty() {
    let none: Vec<XSettingsSetting> = Vec::new();
    let r: Vec<Change> = apply_diff(&none, &none);
    assert!(r.is_empty());
}

#[test]
fn differ_orders_upserts_then_deletions() {
    let old = vec![
        setting(b"Y1", SettingData::Int(1), 0),
        setting(b"Z", SettingData::Int(1), 0),
        setting(b"Same", SettingData::Int(7), 0),
        setting(b"Y2", SettingData::Int(1), 0),
    ];
    let new = vec![
        setting(b"X", SettingData::Int(1), 0),
        setting(b"Same", SettingData::Int(7), 5),
        setting(b"Z", SettingData::Int(2), 0),
    ];
    let r = apply_diff(&old, &new);
    let got: Vec<(XSettingsAction, Vec<u8>)> = r.iter().map(|c| (c.action, c.setting.name.clone())).collect();
    assert_eq!(
        got,
        vec![
            (XSettingsAction::New, b"X".to_vec()),
            (XSettingsAction::Changed, b"Z".to_vec()),
            (XSettingsAction::Deleted, b"Y1".to_vec()),
            (XSettingsAction::Deleted, b"Y2".to_vec()),
        ]
    );
    match &r[1].setting.data {
        SettingData::Int(i) => assert_eq!(*i, 2),
        _ => panic!("not an int"),
    }
}

#[test]
fn failed_read_keeps_snapshot() {
    let mut c = Client::new(0, SEL, PROP);
    c.owner_changed(Some(10), Ok(Some(&le_blob(&[(b"A", Val::Int(1))]))));
    let out = c.property_changed(Err(XSettingsResult::Access));
    assert_eq!(out.result, XSettingsResult::Access);
    assert_eq!(out.dispatches.len(), 0);
    assert_eq!(int_of(&c, b"A"), Some(1));
    assert_eq!(c.owner(), Some(10));
}

#[test]
fn failed_read_on_bind_stays_unbound() {
    let mut c = Client::new(0, SEL, PROP);
    let out = c.owner_changed(Some(10), Err(XSettingsResult::Access));
    assert_eq!(out.result, XSettingsResult::Access);
    assert_eq!(out.dispatches.len(), 0);
    assert_eq!(c.owner(), None);
}

#[test]
fn serial_only_change_is_silent() {
    let old = vec![setting(b"A", SettingData::Int(1), 1)];
    let new = vec![setting(b"A", SettingData::Int(1), 2)];
    assert!(apply_diff(&old, &new).is_empty());
}

#[test]
fn clone_outlives_original() {
    let s = Setting::from_raw(setting(b"Net/ThemeName", SettingData::String(b"Adwaita".to_vec()), 3));
    let c = s.clone();
    assert_eq!(c.last_change_serial(), 3);
    drop(s);
    assert_eq!(c.name(), b"Net/ThemeName");
    match c.data() {
        SettingData::String(v) => assert_eq!(v, &b"Adwaita".to_vec()),
        _ => panic!("not a string"),
    }
}

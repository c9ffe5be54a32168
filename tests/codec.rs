use xsettings::codec::decode;
use xsettings::{SettingData, XSettingsColor, XSettingsResult};

fn push_u16(out: &mut Vec<u8>, v: u16, big: bool) {
    if big {
        out.extend_from_slice(&v.to_be_bytes());
    } else {
        out.extend_from_slice(&v.to_le_bytes());
    }
}

fn push_u32(out: &mut Vec<u8>, v: u32, big: bool) {
    if big {
        out.extend_from_slice(&v.to_be_bytes());
    } else {
        out.extend_from_slice(&v.to_le_bytes());
    }
}

fn pad(out: &mut Vec<u8>) {
    while out.len() % 4 != 0 {
        out.push(0);
    }
}

enum V<'a> {
    I(i32),
    S(&'a [u8]),
    C(u16, u16, u16, u16),
}

fn blob(entries: &[(&[u8], V, u32)], big: bool) -> Vec<u8> {
    let mut out = vec![if big { 1 } else { 0 }, 0, 0, 0];
    push_u32(&mut out, 7, big);
    push_u32(&mut out, entries.len() as u32, big);
    for (name, v, serial) in entries {
        let tag = match v {
            V::I(_) => 0,
            V::S(_) => 1,
            V::C(..) => 2,
        };
        out.push(tag);
        out.push(0);
        push_u16(&mut out, name.len() as u16, big);
        out.extend_from_slice(name);
        pad(&mut out);
        push_u32(&mut out, *serial, big);
        match v {
            V::I(i) => push_u32(&mut out, *i as u32, big),
            V::S(s) => {
                push_u32(&mut out, s.len() as u32, big);
                out.extend_from_slice(s);
                pad(&mut out);
            }
            V::C(r, g, b, a) => {
                push_u16(&mut out, *r, big);
                push_u16(&mut out, *g, big);
                push_u16(&mut out, *b, big);
                push_u16(&mut out, *a, big);
            }
        }
    }
    out
}

#[test]
fn decode_all_types_both_byte_orders() {
    for big in [false, true] {
        let b = blob(
            &[
                (b"Xft/DPI", V::I(-98304), 3),
                (b"Net/ThemeName", V::S(b"Adwaita"), 4),
                (b"Empty", V::S(b""), 5),
                (b"Gtk/Color", V::C(0, 65535, 1, 32768), 6),
            ],
            big,
        );
        let v = decode(&b).unwrap();
        assert_eq!(v.len(), 4);
        assert_eq!(v[0].name, b"Xft/DPI".to_vec());
        assert!(matches!(v[0].data, SettingData::Int(-98304)));
        assert_eq!(v[0].last_change_serial, 3);
        assert_eq!(v[1].name, b"Net/ThemeName".to_vec());
        match &v[1].data {
            SettingData::String(s) => assert_eq!(s, &b"Adwaita".to_vec()),
            _ => panic!("not a string"),
        }
        match &v[2].data {
            SettingData::String(s) => assert!(s.is_empty()),
            _ => panic!("not a string"),
        }
        match &v[3].data {
            SettingData::Color(c) => assert_eq!(
                *c,
                XSettingsColor { red: 0, green: 65535, blue: 1, alpha: 32768 }
            ),
            _ => panic!("not a color"),
        }
        assert_eq!(v[3].last_change_serial, 6);
    }
}

#[test]
fn decode_empty_blob() {
    let b = blob(&[], false);
    assert_eq!(decode(&b).unwrap().len(), 0);
}

#[test]
fn decode_rejects_truncation() {
    let b = blob(&[(b"Net/ThemeName", V::S(b"Adwaita"), 4)], false);
    for cut in 0..b.len() {
        assert_eq!(decode(&b[..cut]).err(), Some(XSettingsResult::Failed));
    }
    assert!(decode(&b).is_ok());
}

#[test]
fn decode_rejects_unknown_tag() {
    let mut b = blob(&[(b"A", V::I(1), 0)], false);
    b[12] = 3;
    assert_eq!(decode(&b).err(), Some(XSettingsResult::Failed));
}

#[test]
fn decode_rejects_bad_name_length() {
    let mut b = blob(&[(b"A", V::I(1), 0)], false);
    b[14] = 200;
    assert_eq!(decode(&b).err(), Some(XSettingsResult::Failed));
}

#[test]
fn decode_rejects_bad_byte_order() {
    let mut b = blob(&[(b"A", V::I(1), 0)], false);
    b[0] = 2;
    assert_eq!(decode(&b).err(), Some(XSettingsResult::Failed));
}

#[test]
fn decode_rejects_duplicate_names() {
    let b = blob(&[(b"A", V::I(1), 0), (b"A", V::I(2), 0)], true);
    assert_eq!(decode(&b).err(), Some(XSettingsResult::DuplicateEntry));
}

#[test]
fn round_trip_long_name_and_string() {
    let name = vec![b'n'; 65535];
    let value = vec![0xffu8; 70001];
    let b = blob(
        &[(&name, V::S(&value), u32::MAX), (b"Min", V::I(i32::MIN), 0), (b"Max", V::I(i32::MAX), 1)],
        true,
    );
    let v = decode(&b).unwrap();
    assert_eq!(v.len(), 3);
    assert_eq!(v[0].name, name);
    assert_eq!(v[0].last_change_serial, u32::MAX);
    match &v[0].data {
        SettingData::String(s) => assert_eq!(s, &value),
        _ => panic!("not a string"),
    }
    assert!(matches!(v[1].data, SettingData::Int(i32::MIN)));
    assert!(matches!(v[2].data, SettingData::Int(i32::MAX)));
}

#[test]
fn trailing_bytes_are_ignored() {
    let mut b = blob(&[(b"A", V::I(1), 0)], false);
    b.extend_from_slice(&[9, 9, 9, 9]);
    assert_eq!(decode(&b).unwrap().len(), 1);
}

#[test]
fn setting_types_follow_values() {
    let b = blob(&[(b"I", V::I(1), 0), (b"S", V::S(b"s"), 0), (b"C", V::C(1, 2, 3, 4), 0)], false);
    let v = decode(&b).unwrap();
    assert_eq!(v[0].setting_type(), xsettings::XSettingsType::Int);
    assert_eq!(v[1].setting_type(), xsettings::XSettingsType::String);
    assert_eq!(v[2].setting_type(), xsettings::XSettingsType::Color);
    assert_eq!(SettingData::Undefined.setting_type(), xsettings::XSettingsType::Undefined);
}

//! The settings blob: its wire format as a spec parser, and a decoder proved
//! against it.
use vstd::prelude::*;
use crate::setting::{
    models, SettingData, SettingModel, ValueModel, XSettingsColor, XSettingsResult,
    XSettingsSetting,
};

verus! {

/// Byte order marker of a blob written least significant byte first.
pub const LSB_FIRST: u8 = 0;

/// Byte order marker of a blob written most significant byte first.
pub const MSB_FIRST: u8 = 1;

/// Type tag of an integer setting.
pub const TAG_INT: u8 = 0;

/// Type tag of a string setting.
pub const TAG_STRING: u8 = 1;

/// Type tag of a color setting.
pub const TAG_COLOR: u8 = 2;

/// Length of the blob header: byte order, padding, serial and count.
pub const HEADER_LEN: usize = 12;

/// The 16-bit field at `i`.
pub open spec fn rd16(b: Seq<u8>, i: int, big: bool) -> u16 {
    let b0 = b[i] as u16;
    let b1 = b[i + 1] as u16;
    if big {
        (b0 << 8u16) | b1
    } else {
        (b1 << 8u16) | b0
    }
}

/// The 32-bit field at `i`.
pub open spec fn rd32(b: Seq<u8>, i: int, big: bool) -> u32 {
    let b0 = b[i] as u32;
    let b1 = b[i + 1] as u32;
    let b2 = b[i + 2] as u32;
    let b3 = b[i + 3] as u32;
    if big {
        (b0 << 24u32) | (b1 << 16u32) | (b2 << 8u32) | b3
    } else {
        (b3 << 24u32) | (b2 << 16u32) | (b1 << 8u32) | b0
    }
}

/// A length rounded up to a multiple of four.
pub open spec fn padded(n: int) -> int {
    n + (4 - n % 4) % 4
}

/// The two's complement reading of a 32-bit field.
pub open spec fn as_signed(u: u32) -> i32 {
    if u < 0x8000_0000 {
        u as i32
    } else {
        (u as int - 0x1_0000_0000) as i32
    }
}

/// The payload of a setting with type tag `tag`, at `p`, and where it ends.
pub open spec fn parse_value(b: Seq<u8>, big: bool, tag: u8, p: int) -> Option<(ValueModel, int)> {
    if tag == TAG_INT {
        if p + 4 > b.len() {
            None
        } else {
            Some((ValueModel::Int(as_signed(rd32(b, p, big))), p + 4))
        }
    } else if tag == TAG_STRING {
        if p + 4 > b.len() {
            None
        } else {
            let len = rd32(b, p, big) as int;
            let s = p + 4;
            if s + padded(len) > b.len() {
                None
            } else {
                Some((ValueModel::Str(b.subrange(s, s + len)), s + padded(len)))
            }
        }
    } else if tag == TAG_COLOR {
        if p + 8 > b.len() {
            None
        } else {
            Some(
                (
                    ValueModel::Color(
                        XSettingsColor {
                            red: rd16(b, p, big),
                            green: rd16(b, p + 2, big),
                            blue: rd16(b, p + 4, big),
                            alpha: rd16(b, p + 6, big),
                        },
                    ),
                    p + 8,
                ),
            )
        }
    } else {
        None
    }
}

/// The record that starts at `pos`, and where it ends.
pub open spec fn parse_entry(b: Seq<u8>, big: bool, pos: int) -> Option<(SettingModel, int)> {
    if pos + 4 > b.len() {
        None
    } else {
        let name_len = rd16(b, pos + 2, big) as int;
        let name_start = pos + 4;
        let serial_pos = name_start + padded(name_len);
        if serial_pos + 4 > b.len() {
            None
        } else {
            match parse_value(b, big, b[pos], serial_pos + 4) {
                None => None,
                Some((value, next)) => Some(
                    (
                        SettingModel {
                            name: b.subrange(name_start, name_start + name_len),
                            value,
                            serial: rd32(b, serial_pos, big),
                        },
                        next,
                    ),
                ),
            }
        }
    }
}

/// The `n` records that start at `pos`.
pub open spec fn parse_entries(b: Seq<u8>, big: bool, pos: int, n: nat) -> Option<Seq<SettingModel>>
    decreases n,
{
    if n == 0 {
        Some(seq![])
    } else {
        match parse_entry(b, big, pos) {
            None => None,
            Some((e, next)) => match parse_entries(b, big, next, (n - 1) as nat) {
                None => None,
                Some(rest) => Some(seq![e] + rest),
            },
        }
    }
}

/// The records of a whole blob, if its structure is sound.
pub open spec fn parse_blob(b: Seq<u8>) -> Option<Seq<SettingModel>> {
    if b.len() < HEADER_LEN || b[0] > MSB_FIRST {
        None
    } else {
        let big = b[0] == MSB_FIRST;
        parse_entries(b, big, HEADER_LEN as int, rd32(b, 8, big) as nat)
    }
}

/// No two settings share a name.
pub open spec fn names_unique(s: Seq<SettingModel>) -> bool {
    forall|i: int, j: int| 0 <= i < j < s.len() ==> #[trigger] s[i].name != #[trigger] s[j].name
}

/// What decoding a blob gives: its records, or why it was refused.
pub open spec fn decode_spec(b: Seq<u8>) -> Result<Seq<SettingModel>, XSettingsResult> {
    match parse_blob(b) {
        None => Err(XSettingsResult::Failed),
        Some(s) => if names_unique(s) {
            Ok(s)
        } else {
            Err(XSettingsResult::DuplicateEntry)
        },
    }
}

/// `a` put in front of the records of `r`, if there are any.
pub open spec fn prepend(a: Seq<SettingModel>, r: Option<Seq<SettingModel>>) -> Option<Seq<SettingModel>> {
    match r {
        None => None,
        Some(x) => Some(a + x),
    }
}

fn read_u16(b: &[u8], i: usize, big: bool) -> (r: u16)
    requires
        i + 2 <= b@.len(),
    ensures
        r == rd16(b@, i as int, big),
{
    let b0 = b[i] as u16;
    let b1 = b[i + 1] as u16;
    if big {
        (b0 << 8u16) | b1
    } else {
        (b1 << 8u16) | b0
    }
}

fn read_u32(b: &[u8], i: usize, big: bool) -> (r: u32)
    requires
        i + 4 <= b@.len(),
    ensures
        r == rd32(b@, i as int, big),
{
    let b0 = b[i] as u32;
    let b1 = b[i + 1] as u32;
    let b2 = b[i + 2] as u32;
    let b3 = b[i + 3] as u32;
    if big {
        (b0 << 24u32) | (b1 << 16u32) | (b2 << 8u32) | b3
    } else {
        (b3 << 24u32) | (b2 << 16u32) | (b1 << 8u32) | b0
    }
}

fn to_signed(u: u32) -> (r: i32)
    ensures
        r == as_signed(u),
{
    if u < 0x8000_0000 {
        u as i32
    } else {
        (u as i64 - 0x1_0000_0000i64) as i32
    }
}

fn copy_range(b: &[u8], start: usize, end: usize) -> (r: Vec<u8>)
    requires
        start <= end <= b@.len(),
    ensures
        r@ == b@.subrange(start as int, end as int),
{
    let mut r: Vec<u8> = Vec::with_capacity(end - start);
    let mut i: usize = start;
    while i < end
        invariant
            start <= i <= end <= b@.len(),
            r@ == b@.subrange(start as int, i as int),
        decreases end - i,
    {
        r.push(b[i]);
        assert(b@.subrange(start as int, i + 1) =~= b@.subrange(start as int, i as int).push(
            b@[i as int],
        ));
        i = i + 1;
    }
    r
}

fn decode_value(b: &[u8], big: bool, tag: u8, p: usize) -> (r: Option<(SettingData, usize)>)
    requires
        p <= b@.len(),
    ensures
        match parse_value(b@, big, tag, p as int) {
            None => r is None,
            Some((v, next)) => r matches Some((d, n)) && d@ == v && n == next && n <= b@.len(),
        },
{
    let rest = b.len() - p;
    if tag == TAG_INT {
        if rest < 4 {
            None
        } else {
            Some((SettingData::Int(to_signed(read_u32(b, p, big))), p + 4))
        }
    } else if tag == TAG_STRING {
        if rest < 4 {
            None
        } else {
            let len = read_u32(b, p, big) as usize;
            let s = p + 4;
            let extra = (4 - len % 4) % 4;
            if rest - 4 < len || rest - 4 - len < extra {
                None
            } else {
                Some((SettingData::String(copy_range(b, s, s + len)), s + len + extra))
            }
        }
    } else if tag == TAG_COLOR {
        if rest < 8 {
            None
        } else {
            let color = XSettingsColor {
                red: read_u16(b, p, big),
                green: read_u16(b, p + 2, big),
                blue: read_u16(b, p + 4, big),
                alpha: read_u16(b, p + 6, big),
            };
            Some((SettingData::Color(color), p + 8))
        }
    } else {
        None
    }
}

fn decode_entry(b: &[u8], big: bool, pos: usize) -> (r: Option<(XSettingsSetting, usize)>)
    requires
        pos <= b@.len(),
    ensures
        match parse_entry(b@, big, pos as int) {
            None => r is None,
            Some((m, next)) => r matches Some((e, n)) && e@ == m && n == next && n <= b@.len(),
        },
{
    if b.len() - pos < 4 {
        return None;
    }
    let name_len = read_u16(b, pos + 2, big) as usize;
    let name_start = pos + 4;
    let extra = (4 - name_len % 4) % 4;
    if b.len() - name_start < name_len + extra + 4 {
        return None;
    }
    let serial_pos = name_start + name_len + extra;
    let serial = read_u32(b, serial_pos, big);
    match decode_value(b, big, b[pos], serial_pos + 4) {
        None => None,
        Some((data, next)) => {
            let name = copy_range(b, name_start, name_start + name_len);
            Some((XSettingsSetting { name, data, last_change_serial: serial }, next))
        },
    }
}

/// Whether two settings of `v` share a name.
pub fn has_duplicate_names(v: &Vec<XSettingsSetting>) -> (r: bool)
    ensures
        r == !names_unique(models(v@)),
{
    let ghost m = models(v@);
    let mut i: usize = 0;
    while i < v.len()
        invariant
            m == models(v@),
            i <= v@.len(),
            forall|a: int, c: int| 0 <= a < c < m.len() && a < i ==> #[trigger] m[a].name != #[trigger] m[c].name,
        decreases v@.len() - i,
    {
        let mut j: usize = i + 1;
        while j < v.len()
            invariant
                m == models(v@),
                i < v@.len(),
                i < j <= v@.len(),
                forall|a: int, c: int| 0 <= a < c < m.len() && a < i ==> #[trigger] m[a].name != #[trigger] m[c].name,
                forall|c: int| i < c < j ==> m[i as int].name != #[trigger] m[c].name,
            decreases v@.len() - j,
        {
            if crate::setting::bytes_equal(v[i].name.as_slice(), v[j].name.as_slice()) {
                assert(m[i as int].name == m[j as int].name);
                return true;
            }
            j = j + 1;
        }
        i = i + 1;
    }
    false
}

/// Decodes a settings blob into its records, in blob order.
/// A structural fault gives `Failed`; a name given twice gives `DuplicateEntry`.
pub fn decode(buf: &[u8]) -> (r: Result<Vec<XSettingsSetting>, XSettingsResult>)
    ensures
        match r {
            Ok(v) => decode_spec(buf@) == Ok::<Seq<SettingModel>, XSettingsResult>(models(v@)),
            Err(e) => decode_spec(buf@) == Err::<Seq<SettingModel>, XSettingsResult>(e),
        },
{
    if buf.len() < HEADER_LEN || buf[0] > MSB_FIRST {
        return Err(XSettingsResult::Failed);
    }
    let big = buf[0] == MSB_FIRST;
    let n = read_u32(buf, 8, big);
    let ghost b = buf@;
    let mut out: Vec<XSettingsSetting> = Vec::new();
    let mut pos: usize = HEADER_LEN;
    let mut k: u32 = 0;
    while k < n
        invariant
            b == buf@,
            pos <= b.len(),
            k <= n,
            parse_blob(b) == prepend(models(out@), parse_entries(b, big, pos as int, (n - k) as nat)),
        decreases n - k,
    {
        match decode_entry(buf, big, pos) {
            None => {
                return Err(XSettingsResult::Failed);
            },
            Some((e, next)) => {
                let ghost old_models = models(out@);
                let ghost em = e@;
                let ghost rest = parse_entries(b, big, next as int, (n - k - 1) as nat);
                out.push(e);
                assert(models(out@) =~= old_models.push(em));
                proof {
                    if let Some(x) = rest {
                        assert(old_models + (seq![em] + x) =~= old_models.push(em) + x);
                    }
                }
                pos = next;
                k = k + 1;
            },
        }
    }
    assert(models(out@) + seq![] =~= models(out@));
    if has_duplicate_names(&out) {
        Err(XSettingsResult::DuplicateEntry)
    } else {
        Ok(out)
    }
}

/// The two bytes of a 16-bit field.
pub open spec fn wr16(v: u16, big: bool) -> Seq<u8> {
    let hi = ((v >> 8u16) & 0xffu16) as u8;
    let lo = (v & 0xffu16) as u8;
    if big {
        seq![hi, lo]
    } else {
        seq![lo, hi]
    }
}

/// The four bytes of a 32-bit field.
pub open spec fn wr32(v: u32, big: bool) -> Seq<u8> {
    let b3 = ((v >> 24u32) & 0xffu32) as u8;
    let b2 = ((v >> 16u32) & 0xffu32) as u8;
    let b1 = ((v >> 8u32) & 0xffu32) as u8;
    let b0 = (v & 0xffu32) as u8;
    if big {
        seq![b3, b2, b1, b0]
    } else {
        seq![b0, b1, b2, b3]
    }
}

/// `n` zero bytes.
pub open spec fn zeros(n: int) -> Seq<u8> {
    Seq::new(n as nat, |i: int| 0u8)
}

/// The 32-bit field that holds a signed integer.
pub open spec fn as_unsigned(i: i32) -> u32 {
    if i >= 0 {
        i as u32
    } else {
        (i as int + 0x1_0000_0000) as u32
    }
}

/// The type tag of a value.
pub open spec fn tag_of(v: ValueModel) -> u8 {
    match v {
        ValueModel::Int(_) => TAG_INT,
        ValueModel::Str(_) => TAG_STRING,
        ValueModel::Color(_) => TAG_COLOR,
        ValueModel::Undefined => 0xff,
    }
}

/// The payload of a value.
pub open spec fn encode_value(v: ValueModel, big: bool) -> Seq<u8> {
    match v {
        ValueModel::Int(i) => wr32(as_unsigned(i), big),
        ValueModel::Str(s) => wr32(s.len() as u32, big) + s + zeros(padded(s.len() as int) - s.len()),
        ValueModel::Color(c) => wr16(c.red, big) + wr16(c.green, big) + wr16(c.blue, big) + wr16(
            c.alpha,
            big,
        ),
        ValueModel::Undefined => seq![],
    }
}

/// The record of a setting.
pub open spec fn encode_entry(e: SettingModel, big: bool) -> Seq<u8> {
    seq![tag_of(e.value), 0u8] + wr16(e.name.len() as u16, big) + e.name + zeros(
        padded(e.name.len() as int) - e.name.len(),
    ) + wr32(e.serial, big) + encode_value(e.value, big)
}

/// The records of a sequence of settings, in order.
pub open spec fn encode_entries(s: Seq<SettingModel>, big: bool) -> Seq<u8>
    decreases s.len(),
{
    if s.len() == 0 {
        seq![]
    } else {
        encode_entry(s[0], big) + encode_entries(s.drop_first(), big)
    }
}

/// A whole blob holding `s`, with blob serial `serial`.
pub open spec fn encode_blob(s: Seq<SettingModel>, big: bool, serial: u32) -> Seq<u8> {
    seq![if big { MSB_FIRST } else { LSB_FIRST }, 0u8, 0u8, 0u8] + wr32(serial, big) + wr32(
        s.len() as u32,
        big,
    ) + encode_entries(s, big)
}

/// A setting the wire format can carry: its name and string fit their
/// length fields, and its type is known.
pub open spec fn encodable_entry(e: SettingModel) -> bool {
    &&& e.name.len() < 0x1_0000
    &&& match e.value {
        ValueModel::Str(s) => s.len() < 0x1_0000_0000,
        ValueModel::Undefined => false,
        _ => true,
    }
}

/// Settings the wire format can carry.
pub open spec fn encodable(s: Seq<SettingModel>) -> bool {
    &&& s.len() < 0x1_0000_0000
    &&& forall|i: int| 0 <= i < s.len() ==> encodable_entry(#[trigger] s[i])
}

} // verus!

//! Properties of the codec: blobs written in the wire format decode back to
//! what was written.
use vstd::prelude::*;
use crate::codec::{
    as_unsigned, decode_spec, encodable, encodable_entry, encode_blob, encode_entries,
    encode_entry, encode_value, names_unique, padded, parse_blob, parse_entries, parse_entry,
    parse_value, rd16, rd32, tag_of, wr16, wr32, zeros, MSB_FIRST,
};
use crate::setting::{SettingModel, ValueModel, XSettingsResult};

verus! {

proof fn lemma_bytes16(v: u16)
    ensures
        ((((v >> 8u16) & 0xffu16) as u8) as u16) << 8u16 | (((v & 0xffu16) as u8) as u16) == v,
{
    assert(((((v >> 8u16) & 0xffu16) as u8) as u16) << 8u16 | (((v & 0xffu16) as u8) as u16) == v)
        by (bit_vector);
}

proof fn lemma_bytes32(v: u32)
    ensures
        ((((v >> 24u32) & 0xffu32) as u8) as u32) << 24u32 | ((((v >> 16u32) & 0xffu32) as u8) as u32)
            << 16u32 | ((((v >> 8u32) & 0xffu32) as u8) as u32) << 8u32 | (((v & 0xffu32) as u8) as u32)
            == v,
{
    assert(((((v >> 24u32) & 0xffu32) as u8) as u32) << 24u32 | ((((v >> 16u32) & 0xffu32) as u8) as u32)
        << 16u32 | ((((v >> 8u32) & 0xffu32) as u8) as u32) << 8u32 | (((v & 0xffu32) as u8) as u32)
        == v) by (bit_vector);
}

/// `w` stands in `b` at `pos`.
pub open spec fn holds_at(b: Seq<u8>, pos: int, w: Seq<u8>) -> bool {
    0 <= pos && pos + w.len() <= b.len() && b.subrange(pos, pos + w.len()) == w
}

proof fn lemma_split(b: Seq<u8>, pos: int, x: Seq<u8>, y: Seq<u8>)
    requires
        holds_at(b, pos, x + y),
    ensures
        holds_at(b, pos, x),
        holds_at(b, pos + x.len(), y),
{
    assert(b.subrange(pos, pos + x.len()) =~= x) by {
        assert forall|k: int| 0 <= k < x.len() implies b.subrange(pos, pos + x.len())[k] == x[k] by {
            assert(b.subrange(pos, pos + (x + y).len())[k] == (x + y)[k]);
        }
    }
    assert(b.subrange(pos + x.len(), pos + x.len() + y.len()) =~= y) by {
        assert forall|k: int| 0 <= k < y.len() implies b.subrange(
            pos + x.len(),
            pos + x.len() + y.len(),
        )[k] == y[k] by {
            assert(b.subrange(pos, pos + (x + y).len())[x.len() + k] == (x + y)[x.len() + k]);
        }
    }
}

proof fn lemma_rd16(b: Seq<u8>, pos: int, v: u16, big: bool)
    requires
        holds_at(b, pos, wr16(v, big)),
    ensures
        rd16(b, pos, big) == v,
{
    let w = wr16(v, big);
    assert(b[pos] == b.subrange(pos, pos + 2)[0]);
    assert(b[pos + 1] == b.subrange(pos, pos + 2)[1]);
    lemma_bytes16(v);
}

proof fn lemma_rd32(b: Seq<u8>, pos: int, v: u32, big: bool)
    requires
        holds_at(b, pos, wr32(v, big)),
    ensures
        rd32(b, pos, big) == v,
{
    assert(b[pos] == b.subrange(pos, pos + 4)[0]);
    assert(b[pos + 1] == b.subrange(pos, pos + 4)[1]);
    assert(b[pos + 2] == b.subrange(pos, pos + 4)[2]);
    assert(b[pos + 3] == b.subrange(pos, pos + 4)[3]);
    lemma_bytes32(v);
}

proof fn lemma_parse_value(b: Seq<u8>, big: bool, p: int, v: ValueModel)
    requires
        holds_at(b, p, encode_value(v, big)),
        match v {
            ValueModel::Str(s) => s.len() < 0x1_0000_0000,
            ValueModel::Undefined => false,
            _ => true,
        },
    ensures
        parse_value(b, big, tag_of(v), p) == Some((v, p + encode_value(v, big).len())),
{
    match v {
        ValueModel::Int(i) => {
            lemma_rd32(b, p, as_unsigned(i), big);
        },
        ValueModel::Str(s) => {
            let x = zeros(padded(s.len() as int) - s.len());
            lemma_split(b, p, wr32(s.len() as u32, big) + s, x);
            lemma_split(b, p, wr32(s.len() as u32, big), s);
            lemma_rd32(b, p, s.len() as u32, big);
        },
        ValueModel::Color(c) => {
            let w1 = wr16(c.red, big);
            let w2 = wr16(c.green, big);
            let w3 = wr16(c.blue, big);
            let w4 = wr16(c.alpha, big);
            lemma_split(b, p, w1 + w2 + w3, w4);
            lemma_split(b, p, w1 + w2, w3);
            lemma_split(b, p, w1, w2);
            lemma_rd16(b, p, c.red, big);
            lemma_rd16(b, p + 2, c.green, big);
            lemma_rd16(b, p + 4, c.blue, big);
            lemma_rd16(b, p + 6, c.alpha, big);
        },
        ValueModel::Undefined => {},
    }
}

proof fn lemma_parse_entry(b: Seq<u8>, big: bool, pos: int, e: SettingModel)
    requires
        encodable_entry(e),
        holds_at(b, pos, encode_entry(e, big)),
    ensures
        parse_entry(b, big, pos) == Some((e, pos + encode_entry(e, big).len())),
{
    let h = seq![tag_of(e.value), 0u8];
    let w = wr16(e.name.len() as u16, big);
    let z = zeros(padded(e.name.len() as int) - e.name.len());
    let s = wr32(e.serial, big);
    let v = encode_value(e.value, big);
    lemma_split(b, pos, h + w + e.name + z + s, v);
    lemma_split(b, pos, h + w + e.name + z, s);
    lemma_split(b, pos, h + w + e.name, z);
    lemma_split(b, pos, h + w, e.name);
    lemma_split(b, pos, h, w);
    assert(b[pos] == b.subrange(pos, pos + 2)[0]);
    lemma_rd16(b, pos + 2, e.name.len() as u16, big);
    lemma_rd32(b, pos + 4 + padded(e.name.len() as int), e.serial, big);
    lemma_parse_value(b, big, pos + 4 + padded(e.name.len() as int) + 4, e.value);
}

proof fn lemma_parse_entries(b: Seq<u8>, big: bool, pos: int, s: Seq<SettingModel>)
    requires
        forall|i: int| 0 <= i < s.len() ==> encodable_entry(#[trigger] s[i]),
        holds_at(b, pos, encode_entries(s, big)),
    ensures
        parse_entries(b, big, pos, s.len()) == Some(s),
    decreases s.len(),
{
    if s.len() > 0 {
        let e = encode_entry(s[0], big);
        let t = s.drop_first();
        lemma_split(b, pos, e, encode_entries(t, big));
        lemma_parse_entry(b, big, pos, s[0]);
        assert forall|i: int| 0 <= i < t.len() implies encodable_entry(#[trigger] t[i]) by {
            assert(t[i] == s[i + 1]);
        }
        lemma_parse_entries(b, big, pos + e.len(), t);
        assert(seq![s[0]] + t =~= s);
    }
}

/// Round trip: a blob written from settings that the wire format can carry
/// parses back to exactly those settings, names, values and serials alike;
/// with unique names it decodes to them.
#[verifier::rlimit(50)]
pub proof fn lemma_round_trip(s: Seq<SettingModel>, big: bool, serial: u32)
    requires
        encodable(s),
    ensures
        parse_blob(encode_blob(s, big, serial)) == Some(s),
        names_unique(s) ==> decode_spec(encode_blob(s, big, serial)) == Ok::<
            Seq<SettingModel>,
            XSettingsResult,
        >(s),
{
    let b = encode_blob(s, big, serial);
    let h = seq![if big { MSB_FIRST } else { 0u8 }, 0u8, 0u8, 0u8];
    let w1 = wr32(serial, big);
    let w2 = wr32(s.len() as u32, big);
    let en = encode_entries(s, big);
    assert(b.subrange(0, b.len() as int) =~= b);
    lemma_split(b, 0, h + w1 + w2, en);
    lemma_split(b, 0, h + w1, w2);
    lemma_split(b, 0, h, w1);
    assert(b[0] == b.subrange(0, 4)[0]);
    lemma_rd32(b, 8, s.len() as u32, big);
    lemma_parse_entries(b, big, 12, s);
}

} // verus!

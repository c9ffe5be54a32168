//! Properties of the codec on damaged blobs: they are refused as a whole.
use vstd::prelude::*;
use crate::codec::{decode_spec, padded, parse_blob, parse_entries, parse_entry, rd16, rd32, MSB_FIRST};
use crate::setting::{SettingModel, XSettingsResult};

verus! {

/// Where the `n` records that start at `pos` end, as far as they parse.
pub open spec fn entries_end(b: Seq<u8>, big: bool, pos: int, n: nat) -> int
    decreases n,
{
    if n == 0 {
        pos
    } else {
        match parse_entry(b, big, pos) {
            None => pos,
            Some((_, next)) => entries_end(b, big, next, (n - 1) as nat),
        }
    }
}

/// Where the last record of a blob ends, as far as it parses.
pub open spec fn blob_end(b: Seq<u8>) -> int {
    let big = b[0] == MSB_FIRST;
    entries_end(b, big, 12, rd32(b, 8, big) as nat)
}

proof fn lemma_prefix_entry(b: Seq<u8>, big: bool, pos: int, m: int)
    requires
        0 <= pos,
        0 <= m <= b.len(),
        parse_entry(b.subrange(0, m), big, pos) is Some,
    ensures
        parse_entry(b, big, pos) == parse_entry(b.subrange(0, m), big, pos),
        parse_entry(b.subrange(0, m), big, pos)->Some_0.1 <= m,
{
    let c = b.subrange(0, m);
    assert forall|i: int| 0 <= i < m implies #[trigger] c[i] == b[i] by {}
    let name_len = rd16(c, pos + 2, big) as int;
    assert(name_len == rd16(b, pos + 2, big) as int);
    let name_start = pos + 4;
    let serial_pos = name_start + padded(name_len);
    assert(c.subrange(name_start, name_start + name_len) =~= b.subrange(name_start, name_start + name_len));
    assert(rd32(c, serial_pos, big) == rd32(b, serial_pos, big));
    let p = serial_pos + 4;
    let tag = c[pos];
    if tag == 0 {
        assert(rd32(c, p, big) == rd32(b, p, big));
    } else if tag == 1 {
        assert(rd32(c, p, big) == rd32(b, p, big));
        let len = rd32(b, p, big) as int;
        assert(c.subrange(p + 4, p + 4 + len) =~= b.subrange(p + 4, p + 4 + len));
    } else if tag == 2 {
        assert(rd16(c, p, big) == rd16(b, p, big));
        assert(rd16(c, p + 2, big) == rd16(b, p + 2, big));
        assert(rd16(c, p + 4, big) == rd16(b, p + 4, big));
        assert(rd16(c, p + 6, big) == rd16(b, p + 6, big));
    }
}

proof fn lemma_prefix_entries(b: Seq<u8>, big: bool, pos: int, n: nat, m: int)
    requires
        0 <= pos <= m <= b.len(),
        parse_entries(b, big, pos, n) is Some,
        m < entries_end(b, big, pos, n),
    ensures
        parse_entries(b.subrange(0, m), big, pos, n) is None,
    decreases n,
{
    let c = b.subrange(0, m);
    if n > 0 {
        let (e, next) = parse_entry(b, big, pos)->Some_0;
        if parse_entry(c, big, pos) is Some {
            lemma_prefix_entry(b, big, pos, m);
            lemma_entry_grows(b, big, pos);
            assert(parse_entries(b, big, next, (n - 1) as nat) is Some);
            lemma_prefix_entries(b, big, next, (n - 1) as nat, m);
        }
    }
}

proof fn lemma_entry_grows(b: Seq<u8>, big: bool, pos: int)
    requires
        parse_entry(b, big, pos) is Some,
    ensures
        pos < parse_entry(b, big, pos)->Some_0.1 <= b.len(),
{
}

proof fn lemma_entries_end_bounded(b: Seq<u8>, big: bool, pos: int, n: nat)
    requires
        pos <= b.len(),
    ensures
        entries_end(b, big, pos, n) <= b.len(),
    decreases n,
{
    if n > 0 {
        if let Some((_, next)) = parse_entry(b, big, pos) {
            lemma_entry_grows(b, big, pos);
            lemma_entries_end_bounded(b, big, next, (n - 1) as nat);
        }
    }
}

/// Decode rejection, truncation: a blob that decodes, cut anywhere before
/// the end of its last record, is refused as `Failed`.
pub proof fn lemma_truncated_fails(b: Seq<u8>, m: int)
    requires
        parse_blob(b) is Some,
        0 <= m < blob_end(b),
    ensures
        decode_spec(b.subrange(0, m)) == Err::<Seq<SettingModel>, XSettingsResult>(
            XSettingsResult::Failed,
        ),
{
    let big = b[0] == MSB_FIRST;
    lemma_entries_end_bounded(b, big, 12, rd32(b, 8, big) as nat);
    let c = b.subrange(0, m);
    if m >= 12 {
        assert(c[0] == b[0]);
        assert(rd32(c, 8, big) == rd32(b, 8, big));
        lemma_prefix_entries(b, big, 12, rd32(b, 8, big) as nat, m);
    }
}

proof fn lemma_fails_at(b: Seq<u8>, big: bool, pos: int, k: nat, n: nat)
    requires
        k < n,
        parse_entries(b, big, pos, k) is Some,
        parse_entry(b, big, entries_end(b, big, pos, k)) is None,
    ensures
        parse_entries(b, big, pos, n) is None,
    decreases k,
{
    if k > 0 {
        let next = parse_entry(b, big, pos)->Some_0.1;
        assert(parse_entries(b, big, next, (k - 1) as nat) is Some);
        lemma_fails_at(b, big, next, (k - 1) as nat, (n - 1) as nat);
    }
}

/// Where record `k` of a blob starts, when the records before it parse.
pub open spec fn record_start(b: Seq<u8>, k: nat) -> int {
    entries_end(b, b[0] == MSB_FIRST, 12, k)
}

/// The blob's header is sound, it declares more than `k` records, and the
/// `k` records before record `k` parse.
pub open spec fn reaches_record(b: Seq<u8>, k: nat) -> bool {
    let big = b[0] == MSB_FIRST;
    &&& b.len() >= 12
    &&& b[0] <= MSB_FIRST
    &&& k < rd32(b, 8, big)
    &&& parse_entries(b, big, 12, k) is Some
}

/// Decode rejection, unknown type: a blob in which a record that parsing
/// reaches carries a type tag other than integer, string or color is refused
/// as `Failed`.
pub proof fn lemma_unknown_tag_fails(b: Seq<u8>, k: nat)
    requires
        reaches_record(b, k),
        0 <= record_start(b, k) < b.len(),
        b[record_start(b, k)] > 2,
    ensures
        decode_spec(b) == Err::<Seq<SettingModel>, XSettingsResult>(XSettingsResult::Failed),
{
    let big = b[0] == MSB_FIRST;
    lemma_fails_at(b, big, 12, k, rd32(b, 8, big) as nat);
}

/// Decode rejection, name length: a blob in which a record that parsing
/// reaches declares a name longer than what is left of the buffer is refused
/// as `Failed`.
pub proof fn lemma_bad_name_length_fails(b: Seq<u8>, k: nat)
    requires
        reaches_record(b, k),
        0 <= record_start(b, k),
        record_start(b, k) + 4 <= b.len(),
        record_start(b, k) + 4 + rd16(b, record_start(b, k) + 2, b[0] == MSB_FIRST) > b.len(),
    ensures
        decode_spec(b) == Err::<Seq<SettingModel>, XSettingsResult>(XSettingsResult::Failed),
{
    let big = b[0] == MSB_FIRST;
    lemma_fails_at(b, big, 12, k, rd32(b, 8, big) as nat);
}

} // verus!

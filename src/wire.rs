//! Mathematical model of the tagged values and of their binary encoding.
use vstd::prelude::*;
use vstd::utf8::encode_utf8;

verus! {

/// The largest field number (exclusive) that fits in a field key.
pub const TAG_LIMIT: u32 = 0x2000_0000;

/// Wire type of varint-encoded fields.
pub const WIRE_VARINT: u8 = 0;

/// Wire type of length-delimited fields.
pub const WIRE_LEN: u8 = 2;

/// A tagged value as a mathematical object.
pub enum Wire {
    Int(i64),
    Bool(bool),
    Str(Seq<char>),
    Bytes(Seq<u8>),
    List(Seq<Wire>),
    Mapping(Seq<(u32, Wire)>),
    Null,
}

/// Unsigned little-endian base-128 encoding of `v`.
pub open spec fn varint(v: nat) -> Seq<u8>
    decreases v,
{
    if v < 128 {
        seq![v as u8]
    } else {
        seq![((v % 128) + 128) as u8] + varint(v / 128)
    }
}

/// A reference LEB128 decoder: reads one varint from the front of `b`.
pub open spec fn leb128(b: Seq<u8>) -> nat
    decreases b.len(),
{
    if b.len() == 0 {
        0
    } else if b[0] < 128 {
        b[0] as nat
    } else {
        ((b[0] - 128) as nat) + 128 * leb128(b.drop_first())
    }
}

/// The zigzag map `(v << 1) ^ (v >> 63)`, read as a number.
pub open spec fn zigzag(v: int) -> nat {
    if v < 0 {
        (-2 * v - 1) as nat
    } else {
        (2 * v) as nat
    }
}

/// Inverse of `zigzag`.
pub open spec fn unzigzag(n: nat) -> int {
    if n % 2 == 1 {
        -((n + 1) / 2)
    } else {
        (n / 2) as int
    }
}

/// The number that an integer field carries: zigzag for negatives, the value itself otherwise.
pub open spec fn int_payload(v: i64) -> nat {
    if v < 0 {
        zigzag(v as int)
    } else {
        v as nat
    }
}

/// The key that prefixes a field: `(tag << 3) | wire_type`.
pub open spec fn field_key(tag: u32, wire_type: u8) -> nat {
    tag as nat * 8 + wire_type as nat
}

/// Bytes prefixed by their length as a varint.
pub open spec fn length_delimited(b: Seq<u8>) -> Seq<u8> {
    varint(b.len()) + b
}

/// One field entry: the varint key, then its payload.
pub open spec fn key_value(tag: u32, wire_type: u8, payload: Seq<u8>) -> Seq<u8> {
    varint(field_key(tag, wire_type)) + payload
}

/// Encoding of a single (non-list) value under `tag`; `Null` gives nothing.
pub open spec fn enc_single(tag: u32, w: Wire) -> Seq<u8>
    decreases w, 0int,
{
    match w {
        Wire::Int(v) => key_value(tag, WIRE_VARINT, varint(int_payload(v))),
        Wire::Bool(b) => key_value(tag, WIRE_VARINT, varint(if b { 1 } else { 0 })),
        Wire::Str(s) => key_value(tag, WIRE_LEN, length_delimited(encode_utf8(s))),
        Wire::Bytes(b) => key_value(tag, WIRE_LEN, length_delimited(b)),
        Wire::Mapping(es) => key_value(tag, WIRE_LEN, length_delimited(enc_from(es, 0))),
        Wire::List(_) => Seq::empty(),
        Wire::Null => Seq::empty(),
    }
}

/// Encoding of the first `n` items of a repeated field, one entry per item.
pub open spec fn enc_list(tag: u32, items: Seq<Wire>, n: int) -> Seq<u8>
    decreases items, n,
{
    if n <= 0 || n > items.len() {
        Seq::empty()
    } else {
        enc_list(tag, items, n - 1) + enc_single(tag, items[n - 1])
    }
}

/// Encoding of a field: a list is unpacked into entries, anything else is one value.
pub open spec fn enc_field(tag: u32, w: Wire) -> Seq<u8>
    decreases w, 1int,
{
    match w {
        Wire::List(items) => enc_list(tag, items, items.len() as int),
        _ => enc_single(tag, w),
    }
}

/// Whether some entry of the mapping has tag `t`.
pub open spec fn has_tag(es: Seq<(u32, Wire)>, t: int) -> bool {
    exists|i: int| 0 <= i < es.len() && es[i].0 == t
}

/// The bytes that the field with tag `t` contributes, if the mapping has one.
pub open spec fn tag_bytes(es: Seq<(u32, Wire)>, t: int) -> Seq<u8>
    decreases es, 0int,
{
    if has_tag(es, t) {
        let i = choose|i: int| 0 <= i < es.len() && es[i].0 == t;
        enc_field(es[i].0, es[i].1)
    } else {
        Seq::empty()
    }
}

/// The fields of a mapping with tags `lo` and above, in ascending tag order.
pub open spec fn enc_from(es: Seq<(u32, Wire)>, lo: int) -> Seq<u8>
    decreases es, 0x1_0000_0001 - lo,
{
    if lo < 0 || lo >= 0x1_0000_0000 {
        Seq::empty()
    } else {
        tag_bytes(es, lo) + enc_from(es, lo + 1)
    }
}

/// Encoding of a whole mapping.
pub open spec fn enc_mapping(es: Seq<(u32, Wire)>) -> Seq<u8> {
    enc_from(es, 0)
}

/// Tags are unique within the mapping.
pub open spec fn unique_tags(es: Seq<(u32, Wire)>) -> bool {
    forall|i: int, j: int| 0 <= i < es.len() && 0 <= j < es.len() && es[i].0 == es[j].0 ==> i == j
}

/// A value that the single-value encoder accepts: no list, and nested mappings well formed.
pub open spec fn wf_single(w: Wire) -> bool
    decreases w, 0int,
{
    match w {
        Wire::List(_) => false,
        Wire::Mapping(es) => wf_entries(es),
        _ => true,
    }
}

/// A value that may stand as a field: a list of single values, or a single value.
pub open spec fn wf_field(w: Wire) -> bool
    decreases w, 1int,
{
    match w {
        Wire::List(items) => forall|k: int| 0 <= k < items.len() ==> wf_single(#[trigger] items[k]),
        _ => wf_single(w),
    }
}

/// A well-formed mapping: tags in `[1, TAG_LIMIT)`, unique, and every field well formed.
pub open spec fn wf_entries(es: Seq<(u32, Wire)>) -> bool
    decreases es, 2int,
{
    &&& unique_tags(es)
    &&& forall|i: int| 0 <= i < es.len() ==> 1 <= #[trigger] es[i].0 < TAG_LIMIT
    &&& forall|i: int| 0 <= i < es.len() ==> wf_field(#[trigger] es[i].1)
}

/// Tags in `[lo, m)` that no entry carries contribute nothing.
pub proof fn lemma_enc_from_skip(es: Seq<(u32, Wire)>, lo: int, m: int)
    requires
        0 <= lo <= m <= 0x1_0000_0000,
        forall|i: int| 0 <= i < es.len() ==> !(lo <= #[trigger] es[i].0 < m),
    ensures
        enc_from(es, lo) == enc_from(es, m),
    decreases m - lo,
{
    if lo < m {
        assert(!has_tag(es, lo)) by {
            if has_tag(es, lo) {
                let i = choose|i: int| 0 <= i < es.len() && es[i].0 == lo;
                assert(!(lo <= es[i].0 < m));
            }
        }
        lemma_enc_from_skip(es, lo + 1, m);
        assert(tag_bytes(es, lo) == Seq::<u8>::empty());
        assert(enc_from(es, lo) == tag_bytes(es, lo) + enc_from(es, lo + 1));
        assert(Seq::<u8>::empty() + enc_from(es, lo + 1) =~= enc_from(es, lo + 1));
    }
}

/// A mapping whose tags are all below `lo` has nothing left to encode from `lo` on.
pub proof fn lemma_enc_from_done(es: Seq<(u32, Wire)>, lo: int)
    requires
        0 <= lo <= 0x1_0000_0000,
        forall|i: int| 0 <= i < es.len() ==> #[trigger] es[i].0 < lo,
    ensures
        enc_from(es, lo) == Seq::<u8>::empty(),
{
    lemma_enc_from_skip(es, lo, 0x1_0000_0000);
}

/// With unique tags, the entry at index `j` is the one encoded at its tag.
pub proof fn lemma_enc_from_step(es: Seq<(u32, Wire)>, j: int)
    requires
        unique_tags(es),
        0 <= j < es.len(),
    ensures
        enc_from(es, es[j].0 as int) == enc_field(es[j].0, es[j].1) + enc_from(es, es[j].0 + 1),
{
    assert(has_tag(es, es[j].0 as int));
    assert(tag_bytes(es, es[j].0 as int) == enc_field(es[j].0, es[j].1));
}

} // verus!

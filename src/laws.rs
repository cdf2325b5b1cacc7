//! Facts about the encoding that hold for every input.
use vstd::prelude::*;
use vstd::utf8::encode_utf8;
use crate::wire::{
    Wire, enc_field, enc_from, enc_list, enc_mapping, enc_single, field_key, has_tag, int_payload,
    key_value, leb128, length_delimited, tag_bytes, unique_tags, unzigzag, varint, wf_single, WIRE_LEN,
    WIRE_VARINT,
};

verus! {

/// Decoding reads exactly one varint, whatever follows it.
pub proof fn lemma_leb128_prefix(v: nat, tail: Seq<u8>)
    ensures
        leb128(varint(v) + tail) == v,
    decreases v,
{
    if v < 128 {
        assert((varint(v) + tail)[0] == v as u8);
    } else {
        let b = ((v % 128) + 128) as u8;
        assert(varint(v) + tail =~= seq![b] + (varint(v / 128) + tail));
        assert((seq![b] + (varint(v / 128) + tail)).drop_first() =~= varint(v / 128) + tail);
        lemma_leb128_prefix(v / 128, tail);
    }
}

/// A varint decodes back to the number that was encoded.
pub proof fn lemma_varint_round_trip(v: nat)
    requires
        v < 0x1_0000_0000_0000_0000,
    ensures
        leb128(varint(v)) == v,
{
    lemma_leb128_prefix(v, Seq::empty());
    assert(varint(v) + Seq::<u8>::empty() =~= varint(v));
}

/// Negative integers are zigzag-encoded and decode back to themselves; non-negative
/// integers are written as plain varints.
pub proof fn lemma_int_payload(v: i64)
    ensures
        v < 0 ==> unzigzag(leb128(varint(int_payload(v)))) == v,
        v >= 0 ==> varint(int_payload(v)) == varint(v as nat),
{
    if v < 0 {
        let n = int_payload(v);
        assert(n == -2 * v - 1);
        lemma_varint_round_trip(n);
        assert(n % 2 == 1);
        assert((n + 1) / 2 == -v);
    }
}

/// The bytes of one tag do not depend on where its entry stands: two mappings with
/// unique tags and the same entries give the same bytes for every tag.
proof fn lemma_same_entries_tag(a: Seq<(u32, Wire)>, b: Seq<(u32, Wire)>, t: int)
    requires
        unique_tags(a),
        unique_tags(b),
        forall|e: (u32, Wire)| a.contains(e) <==> b.contains(e),
    ensures
        tag_bytes(a, t) == tag_bytes(b, t),
{
    if has_tag(a, t) {
        let i = choose|i: int| 0 <= i < a.len() && a[i].0 == t;
        assert(a.contains(a[i]));
        assert(b.contains(a[i]));
        let j = choose|j: int| 0 <= j < b.len() && b[j] == a[i];
        assert(has_tag(b, t));
    } else if has_tag(b, t) {
        let j = choose|j: int| 0 <= j < b.len() && b[j].0 == t;
        assert(b.contains(b[j]));
        assert(a.contains(b[j]));
    }
}

/// Two mappings that agree on the bytes of every tag from `lo` on agree from `lo` on.
proof fn lemma_enc_from_agree(a: Seq<(u32, Wire)>, b: Seq<(u32, Wire)>, lo: int)
    requires
        0 <= lo <= 0x1_0000_0000,
        forall|t: int| lo <= t < 0x1_0000_0000 ==> tag_bytes(a, t) == tag_bytes(b, t),
    ensures
        enc_from(a, lo) == enc_from(b, lo),
    decreases 0x1_0000_0000 - lo,
{
    if lo < 0x1_0000_0000 {
        lemma_enc_from_agree(a, b, lo + 1);
        assert(tag_bytes(a, lo) == tag_bytes(b, lo));
    }
}

/// The order in which a mapping's entries are listed does not change its encoding.
pub proof fn lemma_order_independent(a: Seq<(u32, Wire)>, b: Seq<(u32, Wire)>)
    requires
        unique_tags(a),
        unique_tags(b),
        forall|e: (u32, Wire)| a.contains(e) <==> b.contains(e),
    ensures
        enc_mapping(a) == enc_mapping(b),
{
    assert forall|t: int| 0 <= t < 0x1_0000_0000 implies tag_bytes(a, t) == tag_bytes(b, t) by {
        lemma_same_entries_tag(a, b, t);
    }
    lemma_enc_from_agree(a, b, 0);
}

/// A nested mapping is written as its key, then the exact length of its own encoding,
/// then that encoding.
pub proof fn lemma_nested_length(tag: u32, es: Seq<(u32, Wire)>)
    ensures
        enc_single(tag, Wire::Mapping(es)) == varint(field_key(tag, WIRE_LEN)) + varint(
            enc_mapping(es).len(),
        ) + enc_mapping(es),
        leb128(enc_single(tag, Wire::Mapping(es)).skip(varint(field_key(tag, WIRE_LEN)).len() as int))
            == enc_mapping(es).len(),
{
    let k = varint(field_key(tag, WIRE_LEN));
    let inner = enc_mapping(es);
    assert(enc_single(tag, Wire::Mapping(es)) =~= k + varint(inner.len()) + inner);
    assert((k + varint(inner.len()) + inner).skip(k.len() as int) =~= varint(inner.len()) + inner);
    lemma_leb128_prefix(inner.len(), inner);
}

/// The wire type that a single value is written with.
pub open spec fn wire_type_of(w: Wire) -> u8 {
    match w {
        Wire::Int(_) | Wire::Bool(_) => WIRE_VARINT,
        _ => WIRE_LEN,
    }
}

/// The payload that follows the key of a single value.
pub open spec fn payload_of(w: Wire) -> Seq<u8> {
    match w {
        Wire::Int(v) => varint(int_payload(v)),
        Wire::Bool(b) => varint(if b { 1 } else { 0 }),
        Wire::Str(s) => length_delimited(encode_utf8(s)),
        Wire::Bytes(b) => length_delimited(b),
        Wire::Mapping(es) => length_delimited(enc_mapping(es)),
        _ => Seq::empty(),
    }
}

/// The entries that each item of a repeated field becomes, one per item.
pub open spec fn list_entries(tag: u32, items: Seq<Wire>) -> Seq<Seq<u8>> {
    Seq::new(items.len(), |k: int| enc_single(tag, items[k]))
}

proof fn lemma_list_prefix(tag: u32, items: Seq<Wire>, n: int)
    requires
        0 <= n <= items.len(),
    ensures
        enc_list(tag, items, n) == list_entries(tag, items).take(n).flatten_alt(),
    decreases n,
{
    if n > 0 {
        lemma_list_prefix(tag, items, n - 1);
        let p = list_entries(tag, items).take(n);
        assert(p.drop_last() =~= list_entries(tag, items).take(n - 1));
    } else {
        assert(list_entries(tag, items).take(0) =~= Seq::<Seq<u8>>::empty());
    }
}

/// A list of N values under one tag is written as N separate entries, in list order,
/// each carrying the tag's key and one item.
pub proof fn lemma_repeated_unpacked(tag: u32, items: Seq<Wire>)
    ensures
        enc_field(tag, Wire::List(items)) == list_entries(tag, items).flatten(),
        list_entries(tag, items).len() == items.len(),
        forall|k: int|
            0 <= k < items.len() && wf_single(items[k]) && items[k] != Wire::Null ==> #[trigger] list_entries(
                tag,
                items,
            )[k] == key_value(tag, wire_type_of(items[k]), payload_of(items[k])),
{
    lemma_list_prefix(tag, items, items.len() as int);
    assert(list_entries(tag, items).take(items.len() as int) =~= list_entries(tag, items));
    list_entries(tag, items).lemma_flatten_and_flatten_alt_are_equivalent();
}

/// A field whose value is null writes the same bytes as no field at all.
pub proof fn lemma_null_omitted(es: Seq<(u32, Wire)>, t: u32)
    requires
        unique_tags(es),
        !has_tag(es, t as int),
    ensures
        enc_mapping(es.push((t, Wire::Null))) == enc_mapping(es),
{
    let with = es.push((t, Wire::Null));
    assert forall|u: int| 0 <= u < 0x1_0000_0000 implies tag_bytes(with, u) == tag_bytes(es, u) by {
        if u == t {
            assert(with[es.len() as int].0 == t);
            assert(has_tag(with, u));
            let i = choose|i: int| 0 <= i < with.len() && with[i].0 == u;
            if i < es.len() {
                assert(es[i].0 == t);
            }
            assert(enc_field(t, Wire::Null) == Seq::<u8>::empty());
        } else if has_tag(with, u) {
            let i = choose|i: int| 0 <= i < with.len() && with[i].0 == u;
            assert(es[i] == with[i]);
            assert(has_tag(es, u));
            let j = choose|j: int| 0 <= j < es.len() && es[j].0 == u;
            assert(with[j] == es[j]);
            if i != j {
                assert(unique_tags(es));
            }
        } else {
            if has_tag(es, u) {
                let j = choose|j: int| 0 <= j < es.len() && es[j].0 == u;
                assert(with[j] == es[j]);
            }
        }
    }
    lemma_enc_from_agree(with, es, 0);
}

} // verus!

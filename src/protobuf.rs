//! Tagged values and their binary encoder.
use vstd::prelude::*;
use crate::wire::{
    Wire, enc_field, enc_from, enc_list, enc_mapping, enc_single, int_payload, key_value, length_delimited,
    lemma_enc_from_done, lemma_enc_from_step, lemma_enc_from_skip, varint, wf_entries, wf_field,
    wf_single, WIRE_LEN, WIRE_VARINT,
};

verus! {

/// A tagged value. A `Mapping` holds `(tag, value)` entries; their order does not matter.
#[derive(Debug)]
pub enum Value {
    Int(i64),
    Bool(bool),
    Str(String),
    Bytes(Vec<u8>),
    List(Vec<Value>),
    Mapping(Vec<(u32, Value)>),
    Null,
}

/// The model of each item of a list.
pub open spec fn list_view(items: Vec<Value>) -> Seq<Wire>
    decreases items,
{
    Seq::new(items.len() as nat, |k: int| if 0 <= k < items.len() { items[k].view() } else { Wire::Null })
}

/// The model of each entry of a mapping.
pub open spec fn entries_view(es: Vec<(u32, Value)>) -> Seq<(u32, Wire)>
    decreases es,
{
    Seq::new(es.len() as nat, |k: int| if 0 <= k < es.len() { (es[k].0, es[k].1.view()) } else { (0u32, Wire::Null) })
}

impl View for Value {
    type V = Wire;

    open spec fn view(&self) -> Wire
        decreases self,
    {
        match self {
            Value::Int(v) => Wire::Int(*v),
            Value::Bool(b) => Wire::Bool(*b),
            Value::Str(s) => Wire::Str(s@),
            Value::Bytes(b) => Wire::Bytes(b@),
            Value::List(items) => Wire::List(list_view(*items)),
            Value::Mapping(es) => Wire::Mapping(entries_view(*es)),
            Value::Null => Wire::Null,
        }
    }
}

/// The binary encoder of tag-keyed mappings.
pub struct ProtobufEncoder;

impl ProtobufEncoder {
    /// Encodes a mapping, its fields in ascending tag order.
    pub fn encode(obj: &Vec<(u32, Value)>) -> (r: Vec<u8>)
        requires
            wf_entries(entries_view(*obj)),
        ensures
            r@ == enc_mapping(entries_view(*obj)),
        decreases obj, 2int,
    {
        let ghost es = entries_view(*obj);
        assert(es.len() == obj.len());
        assert(forall|k: int| 0 <= k < obj.len() ==> #[trigger] es[k] == (obj@[k].0, obj@[k].1@));
        let mut buffer: Vec<u8> = Vec::new();
        let mut lo: u64 = 0;
        loop
            invariant
                es == entries_view(*obj),
                es.len() == obj.len(),
                forall|k: int| 0 <= k < obj.len() ==> #[trigger] es[k] == (obj@[k].0, obj@[k].1@),
                wf_entries(es),
                lo <= 0x1_0000_0000,
                enc_mapping(es) == buffer@ + enc_from(es, lo as int),
            decreases 0x1_0000_0000 - lo,
        {
            let mut best: usize = obj.len();
            let mut i: usize = 0;
            while i < obj.len()
                invariant
                    es == entries_view(*obj),
                    es.len() == obj.len(),
                    forall|k: int| 0 <= k < obj.len() ==> #[trigger] es[k] == (obj@[k].0, obj@[k].1@),
                    i <= obj.len(),
                    best <= obj.len(),
                    best == obj.len() ==> forall|k: int| 0 <= k < i ==> (#[trigger] es[k].0) < lo,
                    best < obj.len() ==> {
                        &&& best < i
                        &&& es[best as int].0 >= lo
                        &&& forall|k: int| 0 <= k < i && (#[trigger] es[k].0) >= lo ==> es[best as int].0 <= es[k].0
                    },
                decreases obj.len() - i,
            {
                let t = obj[i].0;
                if (t as u64) >= lo && (best == obj.len() || t < obj[best].0) {
                    best = i;
                }
                i = i + 1;
            }
            if best == obj.len() {
                proof {
                    lemma_enc_from_done(es, lo as int);
                    assert(buffer@ + Seq::<u8>::empty() =~= buffer@);
                }
                return buffer;
            }
            let m = obj[best].0;
            proof {
                lemma_enc_from_skip(es, lo as int, m as int);
                lemma_enc_from_step(es, best as int);
                assert(wf_field(es[best as int].1));
            }
            let ghost before = buffer@;
            Self::encode_field(&mut buffer, m, &obj[best].1);
            proof {
                assert(before + (enc_field(m, es[best as int].1) + enc_from(es, m + 1))
                    =~= buffer@ + enc_from(es, m + 1));
            }
            lo = m as u64 + 1;
        }
    }

    /// Encodes one field: each item of a list as an entry of its own, anything else once.
    fn encode_field(buffer: &mut Vec<u8>, tag: u32, value: &Value)
        requires
            wf_field(value@),
        ensures
            final(buffer)@ == old(buffer)@ + enc_field(tag, value@),
        decreases value, 1int,
    {
        match value {
            Value::List(items) => {
                let ghost start = buffer@;
                let ghost ws = list_view(*items);
                assert(wf_field(Wire::List(ws)));
                assert(ws.len() == items.len());
                assert(forall|k: int| 0 <= k < items.len() ==> #[trigger] ws[k] == items@[k]@);
                let mut i: usize = 0;
                while i < items.len()
                    invariant
                        ws == list_view(*items),
                        *value == Value::List(*items),
                        value@ == Wire::List(ws),
                        ws.len() == items.len(),
                        forall|k: int| 0 <= k < items.len() ==> #[trigger] ws[k] == items@[k]@,
                        forall|k: int| 0 <= k < ws.len() ==> wf_single(#[trigger] ws[k]),
                        i <= items.len(),
                        buffer@ == start + enc_list(tag, ws, i as int),
                    decreases items.len() - i,
                {
                    assert(wf_single(ws[i as int]));
                    assert(decreases_to!(*items => items[i as int]));
                    Self::encode_single_value(buffer, tag, &items[i]);
                    proof {
                        assert(start + (enc_list(tag, ws, i as int) + enc_single(tag, ws[i as int]))
                            =~= buffer@);
                    }
                    i = i + 1;
                }
            },
            _ => Self::encode_single_value(buffer, tag, value),
        }
    }

    /// Encodes one value under `tag`; a null value writes nothing.
    fn encode_single_value(buffer: &mut Vec<u8>, tag: u32, value: &Value)
        requires
            wf_single(value@),
        ensures
            final(buffer)@ == old(buffer)@ + enc_single(tag, value@),
        decreases value, 0int,
    {
        match value {
            Value::Null => {
                assert(old(buffer)@ + Seq::<u8>::empty() =~= buffer@);
            },
            Value::Int(v) => {
                let payload: u64 = if *v < 0 {
                    ((-(*v + 1)) as u64) * 2 + 1
                } else {
                    *v as u64
                };
                let mut body: Vec<u8> = Vec::new();
                Self::write_varint(&mut body, payload);
                assert(body@ =~= varint(int_payload(*v)));
                Self::write_key_value(buffer, tag, WIRE_VARINT, &body);
            },
            Value::Bool(b) => {
                let mut body: Vec<u8> = Vec::new();
                Self::write_varint(&mut body, if *b { 1 } else { 0 });
                assert(body@ =~= varint(if *b { 1 } else { 0 }));
                Self::write_key_value(buffer, tag, WIRE_VARINT, &body);
            },
            Value::Str(s) => {
                let mut body: Vec<u8> = Vec::new();
                Self::write_length_delimited(&mut body, s.as_str().as_bytes());
                assert(body@ =~= length_delimited(vstd::utf8::encode_utf8(s@)));
                Self::write_key_value(buffer, tag, WIRE_LEN, &body);
            },
            Value::Bytes(bytes) => {
                let mut body: Vec<u8> = Vec::new();
                Self::write_length_delimited(&mut body, bytes.as_slice());
                assert(body@ =~= length_delimited(bytes@));
                Self::write_key_value(buffer, tag, WIRE_LEN, &body);
            },
            Value::Mapping(es) => {
                let nested = Self::encode(es);
                let mut body: Vec<u8> = Vec::new();
                Self::write_length_delimited(&mut body, nested.as_slice());
                assert(body@ =~= length_delimited(enc_mapping(entries_view(*es))));
                Self::write_key_value(buffer, tag, WIRE_LEN, &body);
            },
            Value::List(_) => {
                assert(false);
            },
        }
    }

    /// Appends the key `(tag << 3) | wire_type`, then the already encoded payload.
    fn write_key_value(buffer: &mut Vec<u8>, tag: u32, wire_type: u8, payload: &Vec<u8>)
        ensures
            final(buffer)@ == old(buffer)@ + key_value(tag, wire_type, payload@),
    {
        let key: u64 = (tag as u64) * 8 + wire_type as u64;
        Self::write_varint(buffer, key);
        let ghost mid = buffer@;
        let mut i: usize = 0;
        while i < payload.len()
            invariant
                i <= payload.len(),
                buffer@ == mid + payload@.subrange(0, i as int),
            decreases payload.len() - i,
        {
            buffer.push(payload[i]);
            assert(payload@.subrange(0, i + 1) =~= payload@.subrange(0, i as int).push(payload@[i as int]));
            i = i + 1;
        }
        assert(payload@.subrange(0, payload.len() as int) =~= payload@);
        assert(old(buffer)@ + key_value(tag, wire_type, payload@) =~= buffer@);
    }

    /// Appends the unsigned LEB128 encoding of `value`.
    fn write_varint(buffer: &mut Vec<u8>, value: u64)
        ensures
            final(buffer)@ == old(buffer)@ + varint(value as nat),
    {
        let ghost start = buffer@;
        let mut v: u64 = value;
        while v >= 0x80
            invariant
                start + varint(value as nat) == buffer@ + varint(v as nat),
            decreases v,
        {
            let ghost prev = buffer@;
            buffer.push(((v % 128) + 128) as u8);
            assert(prev + varint(v as nat) =~= buffer@ + varint((v / 128) as nat));
            v = v / 128;
        }
        buffer.push(v as u8);
        assert(start + varint(value as nat) =~= buffer@);
    }

    /// Appends the length of `data` as a varint, then `data` itself.
    fn write_length_delimited(buffer: &mut Vec<u8>, data: &[u8])
        ensures
            final(buffer)@ == old(buffer)@ + length_delimited(data@),
    {
        Self::write_varint(buffer, data.len() as u64);
        let ghost mid = buffer@;
        let mut i: usize = 0;
        while i < data.len()
            invariant
                i <= data@.len(),
                buffer@ == mid + data@.subrange(0, i as int),
            decreases data@.len() - i,
        {
            buffer.push(data[i]);
            assert(data@.subrange(0, i + 1) =~= data@.subrange(0, i as int).push(data@[i as int]));
            i = i + 1;
        }
        assert(data@.subrange(0, data@.len() as int) =~= data@);
        assert(old(buffer)@ + length_delimited(data@) =~= buffer@);
    }
}

} // verus!

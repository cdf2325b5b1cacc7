//! Message elements, their projection onto tagged values, and the outer packet.
use vstd::prelude::*;
use vstd::string::StringExecFns;
use crate::protobuf::{entries_view, list_view, ProtobufEncoder, Value};
use crate::wire::{enc_mapping, wf_entries, wf_field, wf_single, Wire};

verus! {

/// Value of the keyboard marker field, fixed by the remote protocol.
pub const KEYBOARD_MARKER: i64 = 46;

/// Value of the keyboard's trailing field, fixed by the remote protocol.
pub const KEYBOARD_TRAILER: i64 = 1;

/// Outer tag under which a keyboard element is stored.
pub const KEYBOARD_TAG: u32 = 53;

/// A keyboard: rows of buttons, top to bottom.
#[derive(Debug, Clone)]
pub struct KeyboardData {
    pub rows: Vec<Row>,
}

/// One row of a keyboard, its buttons left to right.
#[derive(Debug, Clone)]
pub struct Row {
    pub buttons: Vec<Button>,
}

/// A keyboard button: its id, how it is drawn, and what it does.
#[derive(Debug, Clone)]
pub struct Button {
    pub id: String,
    pub render_data: RenderData,
    pub action: Action,
}

/// What pressing a button does.
#[derive(Debug, Clone)]
pub struct Action {
    pub action_type: i32,
    pub permission: Permission,
    pub unsupport_tips: String,
    pub data: String,
    pub reply: bool,
    pub enter: bool,
}

/// Who may press a button.
#[derive(Debug, Clone)]
pub struct Permission {
    pub permission_type: i32,
    pub specify_role_ids: Vec<String>,
    pub specify_user_ids: Vec<String>,
}

/// How a button is drawn, before and after it is pressed.
#[derive(Debug, Clone)]
pub struct RenderData {
    pub label: String,
    pub visited_label: String,
    pub style: i32,
}

/// One element of a message: plain text or a keyboard.
#[derive(Debug, Clone)]
pub enum MessageElement {
    Text(String),
    Keyboard(KeyboardData),
}

/// The text of a text element as it arrives in a request.
#[derive(Debug, Clone)]
pub struct TextData {
    pub text: String,
}

/// A message element as it arrives in a request, before it is turned into a `MessageElement`.
#[derive(Debug, Clone)]
pub enum RawMessageElement {
    Text { data: TextData },
    Keyboard { data: KeyboardData },
}

/// Why a packet could not be built.
#[derive(Debug, PartialEq, Eq, Structural)]
pub enum PacketError {
    /// The recipient kind is neither `user` nor `group`.
    InvalidRecipient,
}

/// A list of strings as a repeated string field.
pub open spec fn str_list(ids: Seq<String>) -> Seq<Wire> {
    Seq::new(ids.len(), |k: int| Wire::Str(ids[k]@))
}

pub open spec fn flag(b: bool) -> Wire {
    Wire::Int(if b { 1 } else { 0 })
}

pub open spec fn permission_wire(p: Permission) -> Wire {
    Wire::Mapping(
        seq![
            (1u32, Wire::Int(p.permission_type as i64)),
            (2u32, Wire::List(str_list(p.specify_role_ids@))),
            (3u32, Wire::List(str_list(p.specify_user_ids@))),
        ],
    )
}

pub open spec fn render_wire(r: RenderData) -> Wire {
    Wire::Mapping(
        seq![
            (1u32, Wire::Str(r.label@)),
            (2u32, Wire::Str(r.visited_label@)),
            (3u32, Wire::Int(r.style as i64)),
        ],
    )
}

pub open spec fn action_wire(a: Action) -> Wire {
    Wire::Mapping(
        seq![
            (1u32, Wire::Int(a.action_type as i64)),
            (2u32, permission_wire(a.permission)),
            (4u32, Wire::Str(a.unsupport_tips@)),
            (5u32, Wire::Str(a.data@)),
            (7u32, flag(a.reply)),
            (8u32, flag(a.enter)),
        ],
    )
}

pub open spec fn button_wire(b: Button) -> Wire {
    Wire::Mapping(
        seq![
            (1u32, Wire::Str(b.id@)),
            (2u32, render_wire(b.render_data)),
            (3u32, action_wire(b.action)),
        ],
    )
}

pub open spec fn row_wire(r: Row) -> Wire {
    Wire::Mapping(seq![(1u32, Wire::List(Seq::new(r.buttons.len() as nat, |k: int| button_wire(r.buttons[k]))))])
}

pub open spec fn keyboard_wire(kb: KeyboardData) -> Wire {
    let rows = Wire::List(Seq::new(kb.rows.len() as nat, |k: int| row_wire(kb.rows[k])));
    Wire::Mapping(
        seq![
            (
                KEYBOARD_TAG,
                Wire::Mapping(
                    seq![
                        (1u32, Wire::Int(KEYBOARD_MARKER)),
                        (
                            2u32,
                            Wire::Mapping(
                                seq![
                                    (
                                        1u32,
                                        Wire::Mapping(
                                            seq![(1u32, rows), (2u32, Wire::Str("1145140000"@))],
                                        ),
                                    ),
                                ],
                            ),
                        ),
                        (3u32, Wire::Int(KEYBOARD_TRAILER)),
                    ],
                ),
            ),
        ],
    )
}

/// The tagged value of one message element.
pub open spec fn element_wire(e: MessageElement) -> Wire {
    match e {
        MessageElement::Text(t) => Wire::Mapping(
            seq![(1u32, Wire::Mapping(seq![(1u32, Wire::Str(t@))]))],
        ),
        MessageElement::Keyboard(kb) => keyboard_wire(kb),
    }
}

fn str_list_value(ids: &Vec<String>) -> (r: Value)
    ensures
        r@ == Wire::List(str_list(ids@)),
        wf_field(r@),
{
    let mut out: Vec<Value> = Vec::new();
    let mut i: usize = 0;
    while i < ids.len()
        invariant
            i <= ids.len(),
            out.len() == i,
            forall|k: int| 0 <= k < i ==> (#[trigger] out@[k])@ == Wire::Str(ids@[k]@),
        decreases ids.len() - i,
    {
        out.push(Value::Str(ids[i].clone()));
        i = i + 1;
    }
    assert(list_view(out) =~= str_list(ids@));
    Value::List(out)
}

fn permission_value(p: &Permission) -> (r: Value)
    ensures
        r@ == permission_wire(*p),
        wf_single(r@),
{
    let roles = str_list_value(&p.specify_role_ids);
    let users = str_list_value(&p.specify_user_ids);
    let v = vec![(1u32, Value::Int(p.permission_type as i64)), (2u32, roles), (3u32, users)];
    let ghost es = seq![(1u32, Wire::Int(p.permission_type as i64)), (2u32, roles@), (3u32, users@)];
    assert(entries_view(v) =~= es);
    assert(wf_entries(es));
    Value::Mapping(v)
}

fn render_value(rd: &RenderData) -> (r: Value)
    ensures
        r@ == render_wire(*rd),
        wf_single(r@),
{
    let v = vec![
        (1u32, Value::Str(rd.label.clone())),
        (2u32, Value::Str(rd.visited_label.clone())),
        (3u32, Value::Int(rd.style as i64)),
    ];
    let ghost es = seq![
        (1u32, Wire::Str(rd.label@)),
        (2u32, Wire::Str(rd.visited_label@)),
        (3u32, Wire::Int(rd.style as i64)),
    ];
    assert(entries_view(v) =~= es);
    assert(wf_entries(es));
    Value::Mapping(v)
}

fn action_value(a: &Action) -> (r: Value)
    ensures
        r@ == action_wire(*a),
        wf_single(r@),
{
    let perm = permission_value(&a.permission);
    let v = vec![
        (1u32, Value::Int(a.action_type as i64)),
        (2u32, perm),
        (4u32, Value::Str(a.unsupport_tips.clone())),
        (5u32, Value::Str(a.data.clone())),
        (7u32, Value::Int(if a.reply { 1 } else { 0 })),
        (8u32, Value::Int(if a.enter { 1 } else { 0 })),
    ];
    let ghost es = seq![
        (1u32, Wire::Int(a.action_type as i64)),
        (2u32, perm@),
        (4u32, Wire::Str(a.unsupport_tips@)),
        (5u32, Wire::Str(a.data@)),
        (7u32, flag(a.reply)),
        (8u32, flag(a.enter)),
    ];
    assert(entries_view(v) =~= es);
    assert(wf_entries(es));
    Value::Mapping(v)
}

fn button_value(b: &Button) -> (r: Value)
    ensures
        r@ == button_wire(*b),
        wf_single(r@),
{
    let render = render_value(&b.render_data);
    let action = action_value(&b.action);
    let v = vec![(1u32, Value::Str(b.id.clone())), (2u32, render), (3u32, action)];
    let ghost es = seq![(1u32, Wire::Str(b.id@)), (2u32, render@), (3u32, action@)];
    assert(entries_view(v) =~= es);
    assert(wf_entries(es));
    Value::Mapping(v)
}

fn row_value(row: &Row) -> (r: Value)
    ensures
        r@ == row_wire(*row),
        wf_single(r@),
{
    let mut out: Vec<Value> = Vec::new();
    let mut i: usize = 0;
    while i < row.buttons.len()
        invariant
            i <= row.buttons.len(),
            out.len() == i,
            forall|k: int| 0 <= k < i ==> (#[trigger] out@[k])@ == button_wire(row.buttons@[k]),
            forall|k: int| 0 <= k < i ==> wf_single((#[trigger] out@[k])@),
        decreases row.buttons.len() - i,
    {
        out.push(button_value(&row.buttons[i]));
        i = i + 1;
    }
    let ghost items = Seq::new(row.buttons.len() as nat, |k: int| button_wire(row.buttons[k]));
    assert(list_view(out) =~= items);
    let list = Value::List(out);
    let v = vec![(1u32, list)];
    let ghost es = seq![(1u32, Wire::List(items))];
    assert(entries_view(v) =~= es);
    assert(wf_entries(es));
    Value::Mapping(v)
}

fn keyboard_value(kb: &KeyboardData) -> (r: Value)
    ensures
        r@ == keyboard_wire(*kb),
        wf_single(r@),
{
    let mut out: Vec<Value> = Vec::new();
    let mut i: usize = 0;
    while i < kb.rows.len()
        invariant
            i <= kb.rows.len(),
            out.len() == i,
            forall|k: int| 0 <= k < i ==> (#[trigger] out@[k])@ == row_wire(kb.rows@[k]),
            forall|k: int| 0 <= k < i ==> wf_single((#[trigger] out@[k])@),
        decreases kb.rows.len() - i,
    {
        out.push(row_value(&kb.rows[i]));
        i = i + 1;
    }
    let ghost rows = Wire::List(Seq::new(kb.rows.len() as nat, |k: int| row_wire(kb.rows[k])));
    assert(list_view(out) =~= Seq::new(kb.rows.len() as nat, |k: int| row_wire(kb.rows[k])));
    let template = vec![(1u32, Value::List(out)), (2u32, Value::Str(String::from_str("1145140000")))];
    let ghost template_es = seq![(1u32, rows), (2u32, Wire::Str("1145140000"@))];
    assert(entries_view(template) =~= template_es);
    assert(wf_entries(template_es));
    let body = vec![(1u32, Value::Mapping(template))];
    let ghost body_es = seq![(1u32, Wire::Mapping(template_es))];
    assert(entries_view(body) =~= body_es);
    assert(wf_entries(body_es));
    let marker = vec![
        (1u32, Value::Int(KEYBOARD_MARKER)),
        (2u32, Value::Mapping(body)),
        (3u32, Value::Int(KEYBOARD_TRAILER)),
    ];
    let ghost marker_es = seq![
        (1u32, Wire::Int(KEYBOARD_MARKER)),
        (2u32, Wire::Mapping(body_es)),
        (3u32, Wire::Int(KEYBOARD_TRAILER)),
    ];
    assert(entries_view(marker) =~= marker_es);
    assert(wf_entries(marker_es));
    let v = vec![(KEYBOARD_TAG, Value::Mapping(marker))];
    let ghost es = seq![(KEYBOARD_TAG, Wire::Mapping(marker_es))];
    assert(entries_view(v) =~= es);
    assert(wf_entries(es));
    Value::Mapping(v)
}

/// Projects a message element onto its tagged value.
pub fn element_to_protobuf_value(element: &MessageElement) -> (r: Value)
    ensures
        r@ == element_wire(*element),
        wf_single(r@),
{
    match element {
        MessageElement::Text(text) => {
            let inner = vec![(1u32, Value::Str(text.clone()))];
            let ghost inner_es = seq![(1u32, Wire::Str(text@))];
            assert(entries_view(inner) =~= inner_es);
            assert(wf_entries(inner_es));
            let v = vec![(1u32, Value::Mapping(inner))];
            let ghost es = seq![(1u32, Wire::Mapping(inner_es))];
            assert(entries_view(v) =~= es);
            assert(wf_entries(es));
            Value::Mapping(v)
        },
        MessageElement::Keyboard(kb) => keyboard_value(kb),
    }
}

/// The message element that a request element stands for.
pub open spec fn element_of(raw: RawMessageElement) -> MessageElement {
    match raw {
        RawMessageElement::Text { data } => MessageElement::Text(data.text),
        RawMessageElement::Keyboard { data } => MessageElement::Keyboard(data),
    }
}

/// Turns request elements into message elements, one for one and in order.
pub fn parse_message_elements(raw: Vec<RawMessageElement>) -> (r: Vec<MessageElement>)
    ensures
        r@ == raw@.map_values(|e: RawMessageElement| element_of(e)),
{
    let ghost all = raw@;
    let mut rest = raw;
    let mut out: Vec<MessageElement> = Vec::new();
    while rest.len() > 0
        invariant
            out.len() + rest.len() == all.len(),
            rest@ == all.skip(out.len() as int),
            forall|k: int| 0 <= k < out.len() ==> #[trigger] out@[k] == element_of(all[k]),
        decreases rest.len(),
    {
        let e = rest.remove(0);
        assert(all.skip(out.len() + 1) =~= all.skip(out.len() as int).remove(0));
        let m = match e {
            RawMessageElement::Text { data } => MessageElement::Text(data.text),
            RawMessageElement::Keyboard { data } => MessageElement::Keyboard(data),
        };
        out.push(m);
    }
    assert(out@ =~= all.map_values(|e: RawMessageElement| element_of(e)));
    out
}

/// The recipient kinds that a packet can be addressed to.
pub open spec fn valid_recipient(kind: Seq<char>) -> bool {
    kind == "user"@ || kind == "group"@
}

/// The recipient field: a group id under tag 2, a user id under tag 1.
pub open spec fn recipient_wire(is_group: bool, peer_id: u64) -> Wire {
    let id = Wire::Mapping(seq![(1u32, Wire::Int(peer_id as i64))]);
    Wire::Mapping(seq![(if is_group { 2u32 } else { 1u32 }, id)])
}

/// The fixed metadata field of every packet.
pub open spec fn metadata_wire() -> Wire {
    Wire::Mapping(seq![(1u32, Wire::Int(1)), (2u32, Wire::Int(0)), (3u32, Wire::Int(0))])
}

/// The message body: every element, in order, as a repeated field.
pub open spec fn body_wire(elements: Seq<MessageElement>) -> Wire {
    let items = Seq::new(elements.len(), |k: int| element_wire(elements[k]));
    Wire::Mapping(seq![(1u32, Wire::Mapping(seq![(2u32, Wire::List(items))]))])
}

/// The entries of the outer packet mapping.
pub open spec fn packet_entries(
    elements: Seq<MessageElement>,
    is_group: bool,
    peer_id: u64,
    seq: u64,
    random_number: u32,
) -> Seq<(u32, Wire)> {
    seq![
        (1u32, recipient_wire(is_group, peer_id)),
        (2u32, metadata_wire()),
        (3u32, body_wire(elements)),
        (4u32, Wire::Int(seq as i64)),
        (5u32, Wire::Int(random_number as i64)),
    ]
}

/// Builds the binary packet for `elements`, addressed to a `user` or a `group`.
pub fn build_packet(
    elements: &Vec<MessageElement>,
    peer_type: &String,
    peer_id: u64,
    seq: u64,
    random_number: u32,
) -> (r: Result<Vec<u8>, PacketError>)
    ensures
        valid_recipient(peer_type@) <==> r is Ok,
        r is Ok ==> r->Ok_0@ == enc_mapping(
            packet_entries(elements@, peer_type@ == "group"@, peer_id, seq, random_number),
        ),
        r is Err ==> r->Err_0 == PacketError::InvalidRecipient,
{
    let group = String::from_str("group");
    let user = String::from_str("user");
    let is_group = *peer_type == group;
    if !is_group && !(*peer_type == user) {
        return Err(PacketError::InvalidRecipient);
    }
    let id = vec![(1u32, Value::Int(peer_id as i64))];
    let ghost id_es = seq![(1u32, Wire::Int(peer_id as i64))];
    assert(entries_view(id) =~= id_es);
    assert(wf_entries(id_es));
    let recipient = vec![(if is_group { 2u32 } else { 1u32 }, Value::Mapping(id))];
    let ghost recipient_es = seq![(if is_group { 2u32 } else { 1u32 }, Wire::Mapping(id_es))];
    assert(entries_view(recipient) =~= recipient_es);
    assert(wf_entries(recipient_es));
    let metadata = vec![(1u32, Value::Int(1)), (2u32, Value::Int(0)), (3u32, Value::Int(0))];
    let ghost metadata_es = seq![(1u32, Wire::Int(1)), (2u32, Wire::Int(0)), (3u32, Wire::Int(0))];
    assert(entries_view(metadata) =~= metadata_es);
    assert(wf_entries(metadata_es));
    let mut content: Vec<Value> = Vec::new();
    let mut i: usize = 0;
    while i < elements.len()
        invariant
            i <= elements.len(),
            content.len() == i,
            forall|k: int| 0 <= k < i ==> (#[trigger] content@[k])@ == element_wire(elements@[k]),
            forall|k: int| 0 <= k < i ==> wf_single((#[trigger] content@[k])@),
        decreases elements.len() - i,
    {
        content.push(element_to_protobuf_value(&elements[i]));
        i = i + 1;
    }
    let ghost items = Seq::new(elements.len() as nat, |k: int| element_wire(elements@[k]));
    assert(list_view(content) =~= items);
    let list = vec![(2u32, Value::List(content))];
    let ghost list_es = seq![(2u32, Wire::List(items))];
    assert(entries_view(list) =~= list_es);
    assert(wf_entries(list_es));
    let body = vec![(1u32, Value::Mapping(list))];
    let ghost body_es = seq![(1u32, Wire::Mapping(list_es))];
    assert(entries_view(body) =~= body_es);
    assert(wf_entries(body_es));
    let message = vec![
        (1u32, Value::Mapping(recipient)),
        (2u32, Value::Mapping(metadata)),
        (3u32, Value::Mapping(body)),
        (4u32, Value::Int(seq as i64)),
        (5u32, Value::Int(random_number as i64)),
    ];
    let ghost es = packet_entries(elements@, is_group, peer_id, seq, random_number);
    assert(body_wire(elements@) == Wire::Mapping(body_es));
    assert(recipient_wire(is_group, peer_id) == Wire::Mapping(recipient_es));
    assert(metadata_wire() == Wire::Mapping(metadata_es));
    assert(wf_single(Wire::Mapping(body_es)));
    assert(wf_single(Wire::Mapping(recipient_es)));
    assert(wf_single(Wire::Mapping(metadata_es)));
    assert(entries_view(message) =~= es);
    assert(wf_entries(es));
    Ok(ProtobufEncoder::encode(&message))
}

/// Hexadecimal digit `d`, in lower case.
pub open spec fn hex_digit(d: int) -> char {
    seq!['0', '1', '2', '3', '4', '5', '6', '7', '8', '9', 'a', 'b', 'c', 'd', 'e', 'f'][d]
}

/// Bytes as lowercase hexadecimal text, two digits per byte, high digit first.
pub open spec fn hex_of(b: Seq<u8>) -> Seq<char> {
    Seq::new(
        2 * b.len(),
        |i: int| if i % 2 == 0 { hex_digit(b[i / 2] as int / 16) } else { hex_digit(b[i / 2] as int % 16) },
    )
}

/// Relies on hex::encode: each byte becomes two lowercase hexadecimal digits, high one first.
#[verifier::external_body]
fn to_hex(b: &Vec<u8>) -> (r: String)
    ensures
        r@ == hex_of(b@),
{
    hex::encode(b)
}

/// Builds the packet for `elements` and renders it as lowercase hexadecimal text.
/// A recipient kind other than `user` or `group` yields an error and no output.
pub fn create_packet_hex(
    elements: Vec<MessageElement>,
    peer_type: String,
    peer_id: u64,
    seq: u64,
    random_number: u32,
) -> (r: Result<String, PacketError>)
    ensures
        valid_recipient(peer_type@) <==> r is Ok,
        r is Ok ==> r->Ok_0@ == hex_of(
            enc_mapping(packet_entries(elements@, peer_type@ == "group"@, peer_id, seq, random_number)),
        ),
        r is Err ==> r->Err_0 == PacketError::InvalidRecipient,
{
    match build_packet(&elements, &peer_type, peer_id, seq, random_number) {
        Ok(bytes) => Ok(to_hex(&bytes)),
        Err(e) => Err(e),
    }
}

} // verus!

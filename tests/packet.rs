use packet_encoder::{
    create_packet_hex, element_to_protobuf_value, ProtobufEncoder, parse_message_elements, Action, Button, KeyboardData, MessageElement,
    PacketError, Permission, RawMessageElement, RenderData, Row, TextData,
};

struct SimpleRng {
    seed: u32,
}

impl SimpleRng {
    fn new(seed: u32) -> Self {
        Self { seed }
    }

    fn next_u32(&mut self) -> u32 {
        self.seed = self.seed.wrapping_mul(1664525).wrapping_add(1013904223);
        self.seed
    }

    fn gen_uuid_v4(&mut self) -> String {
        let mut parts = [0u32; 4];
        for i in 0..4 {
            parts[i] = self.next_u32();
        }
        let mut b: Vec<u8> = parts.iter().flat_map(|n| n.to_be_bytes()).collect();
        b[6] = (b[6] & 0x0f) | 0x40;
        b[8] = (b[8] & 0x3f) | 0x80;
        format!(
            "{:08x}-{:04x}-{:04x}-{:04x}-{:012x}",
            u32::from_be_bytes([b[0], b[1], b[2], b[3]]),
            u16::from_be_bytes([b[4], b[5]]),
            u16::from_be_bytes([b[6], b[7]]),
            u16::from_be_bytes([b[8], b[9]]),
            u64::from_be_bytes([b[10], b[11], b[12], b[13], b[14], b[15], 0, 0]) >> 16
        )
    }
}

/// A field read back from encoded bytes: tag, wire type, and varint value or raw payload.
#[derive(Debug, Clone)]
enum Field {
    Varint(u32, u64),
    Len(u32, Vec<u8>),
}

fn read_varint(b: &[u8], pos: &mut usize) -> u64 {
    let mut v: u64 = 0;
    let mut shift = 0;
    loop {
        let byte = b[*pos];
        *pos += 1;
        v |= ((byte & 0x7f) as u64) << shift;
        if byte < 0x80 {
            return v;
        }
        shift += 7;
    }
}

fn parse(b: &[u8]) -> Vec<Field> {
    let mut pos = 0;
    let mut out = Vec::new();
    while pos < b.len() {
        let key = read_varint(b, &mut pos);
        let tag = (key >> 3) as u32;
        match key & 7 {
            0 => out.push(Field::Varint(tag, read_varint(b, &mut pos))),
            2 => {
                let n = read_varint(b, &mut pos) as usize;
                out.push(Field::Len(tag, b[pos..pos + n].to_vec()));
                pos += n;
            }
            w => panic!("unexpected wire type {}", w),
        }
    }
    assert_eq!(pos, b.len());
    out
}

fn from_hex(s: &str) -> Vec<u8> {
    (0..s.len()).step_by(2).map(|i| u8::from_str_radix(&s[i..i + 2], 16).unwrap()).collect()
}

fn sub(b: &[u8], tag: u32) -> Vec<u8> {
    for f in parse(b) {
        if let Field::Len(t, p) = f {
            if t == tag {
                return p;
            }
        }
    }
    panic!("no field {}", tag)
}

fn int_at(b: &[u8], tag: u32) -> u64 {
    for f in parse(b) {
        if let Field::Varint(t, v) = f {
            if t == tag {
                return v;
            }
        }
    }
    panic!("no field {}", tag)
}

fn sample_button(id: &str) -> Button {
    Button {
        id: id.into(),
        render_data: RenderData {
            label: "Click".into(),
            visited_label: "Clicked".into(),
            style: 1,
        },
        action: Action {
            action_type: 0,
            permission: Permission {
                permission_type: 2,
                specify_role_ids: vec![],
                specify_user_ids: vec![],
            },
            unsupport_tips: "".into(),
            data: "https://x".into(),
            reply: true,
            enter: false,
        },
    }
}

#[test]
fn test_packet_with_multiple_elements() {
    let mut rng = SimpleRng::new(12345114);
    let keyboard_data = KeyboardData {
        rows: vec![Row {
            buttons: vec![Button {
                id: rng.gen_uuid_v4(),
                render_data: RenderData {
                    label: "点击我".into(),
                    visited_label: "已点击".into(),
                    style: 1,
                },
                action: Action {
                    action_type: 0,
                    permission: Permission {
                        permission_type: 2,
                        specify_role_ids: vec![],
                        specify_user_ids: vec![],
                    },
                    unsupport_tips: "不支持".into(),
                    data: "https://example.com".into(),
                    reply: true,
                    enter: false,
                },
            }],
        }],
    };

    let elements = vec![MessageElement::Keyboard(keyboard_data)];

    let hex_string = create_packet_hex(
        elements,
        "group".to_string(),
        260011598,
        rng.next_u32() as u64,
        rng.next_u32(),
    )
    .unwrap();
    println!("{}", hex_string);
}

#[test]
fn text_to_user_exact_bytes() {
    let hex = create_packet_hex(
        vec![MessageElement::Text("hello".to_string())],
        "user".to_string(),
        12345,
        1,
        7,
    )
    .unwrap();
    assert_eq!(
        hex,
        "0a050a0308b96012060801100018001a0d0a0b12090a070a0568656c6c6f20012807"
    );
}

#[test]
fn text_to_user_decodes() {
    let hex = create_packet_hex(
        vec![MessageElement::Text("hello".to_string())],
        "user".to_string(),
        12345,
        1,
        7,
    )
    .unwrap();
    let b = from_hex(&hex);
    let element = sub(&sub(&sub(&b, 3), 1), 2);
    assert_eq!(sub(&sub(&element, 1), 1), b"hello".to_vec());
    assert_eq!(int_at(&b, 4), 1);
    assert_eq!(int_at(&b, 5), 7);
    assert_eq!(int_at(&sub(&sub(&b, 1), 1), 1), 12345);
}

#[test]
fn keyboard_to_group_decodes() {
    let kb = KeyboardData { rows: vec![Row { buttons: vec![sample_button("b1")] }] };
    let hex = create_packet_hex(
        vec![MessageElement::Keyboard(kb)],
        "group".to_string(),
        999,
        3,
        4,
    )
    .unwrap();
    let b = from_hex(&hex);
    assert_eq!(int_at(&sub(&sub(&b, 1), 2), 1), 999);
    let element = sub(&sub(&sub(&b, 3), 1), 2);
    let keyboard = sub(&element, 53);
    assert_eq!(int_at(&keyboard, 1), 46);
    assert_eq!(int_at(&keyboard, 3), 1);
    let template = sub(&sub(&keyboard, 2), 1);
    assert_eq!(sub(&template, 2), b"1145140000".to_vec());
    let row = sub(&template, 1);
    let button = sub(&row, 1);
    assert_eq!(sub(&button, 1), b"b1".to_vec());
    let render = sub(&button, 2);
    assert_eq!(sub(&render, 1), b"Click".to_vec());
    assert_eq!(sub(&render, 2), b"Clicked".to_vec());
    assert_eq!(int_at(&render, 3), 1);
    let action = sub(&button, 3);
    assert_eq!(int_at(&action, 1), 0);
    assert_eq!(int_at(&sub(&action, 2), 1), 2);
    assert_eq!(sub(&action, 4), Vec::<u8>::new());
    assert_eq!(sub(&action, 5), b"https://x".to_vec());
    assert_eq!(int_at(&action, 7), 1);
    assert_eq!(int_at(&action, 8), 0);
}

#[test]
fn role_and_user_ids_are_repeated_fields() {
    let mut button = sample_button("b");
    button.action.permission.specify_role_ids = vec!["r1".into(), "r2".into()];
    button.action.permission.specify_user_ids = vec!["u".into()];
    let kb = KeyboardData { rows: vec![Row { buttons: vec![button] }] };
    let hex = create_packet_hex(vec![MessageElement::Keyboard(kb)], "user".into(), 1, 1, 1).unwrap();
    let b = from_hex(&hex);
    let element = sub(&sub(&sub(&b, 3), 1), 2);
    let template = sub(&sub(&sub(&element, 53), 2), 1);
    let perm = sub(&sub(&sub(&sub(&template, 1), 1), 3), 2);
    let fields = parse(&perm);
    assert_eq!(fields.len(), 4);
    assert!(matches!(&fields[1], Field::Len(2, p) if p == b"r1"));
    assert!(matches!(&fields[2], Field::Len(2, p) if p == b"r2"));
    assert!(matches!(&fields[3], Field::Len(3, p) if p == b"u"));
}

#[test]
fn unknown_recipient_kind_is_rejected() {
    let r = create_packet_hex(
        vec![MessageElement::Text("hello".to_string())],
        "channel".to_string(),
        1,
        1,
        1,
    );
    assert_eq!(r, Err(PacketError::InvalidRecipient));
    let r = create_packet_hex(vec![], "".to_string(), 1, 1, 1);
    assert_eq!(r, Err(PacketError::InvalidRecipient));
    let r = create_packet_hex(vec![], "User".to_string(), 1, 1, 1);
    assert_eq!(r, Err(PacketError::InvalidRecipient));
}

#[test]
fn no_elements_gives_empty_body() {
    let hex = create_packet_hex(vec![], "group".to_string(), 5, 0, 0).unwrap();
    assert_eq!(hex, "0a041202080512060801100018001a020a0020002800");
}

#[test]
fn large_peer_id_wraps_to_negative() {
    let hex = create_packet_hex(vec![], "user".to_string(), u64::MAX, 0, 0).unwrap();
    let b = from_hex(&hex);
    assert_eq!(int_at(&sub(&sub(&b, 1), 1), 1), 1);
}

#[test]
fn raw_elements_convert_in_order() {
    let raw = vec![
        RawMessageElement::Text { data: TextData { text: "a".into() } },
        RawMessageElement::Keyboard { data: KeyboardData { rows: vec![] } },
        RawMessageElement::Text { data: TextData { text: "b".into() } },
    ];
    let out = parse_message_elements(raw);
    assert_eq!(out.len(), 3);
    assert!(matches!(&out[0], MessageElement::Text(t) if t == "a"));
    assert!(matches!(&out[1], MessageElement::Keyboard(k) if k.rows.is_empty()));
    assert!(matches!(&out[2], MessageElement::Text(t) if t == "b"));
}

#[test]
fn text_element_value_encodes_under_tag_one() {
    let v = element_to_protobuf_value(&MessageElement::Text("hi".to_string()));
    let b = ProtobufEncoder::encode(&vec![(2, v)]);
    assert_eq!(b, vec![0x12, 0x06, 0x0a, 0x04, 0x0a, 0x02, b'h', b'i']);
}

//! Encodes message elements into a tag-indexed, length-delimited binary payload.
pub mod laws;
pub mod packet;
pub mod protobuf;
pub mod wire;

pub use packet::{
    create_packet_hex, element_to_protobuf_value, parse_message_elements, Action, Button,
    KeyboardData, MessageElement, PacketError, Permission, RawMessageElement, RenderData, Row,
    TextData,
};
pub use protobuf::{ProtobufEncoder, Value};

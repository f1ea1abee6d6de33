use vstd::prelude::*;

use crate::field::FieldTable;
use crate::uri::AmqpUri;

verus! {

/// A subscription of the manager's queue to a topic pattern.
///
/// Two bindings are the same subscription exactly when their ids are equal.
#[derive(Debug)]
pub struct Binding {
    pub id: u128,
    pub exchange: String,
    pub routing_key: String,
    pub arguments: FieldTable,
}

/// A request from the presentation layer to the connection manager.
///
/// `H` is the presentation layer's repaint handle, carried through untouched.
pub enum ConnectionCommand<H> {
    Disconnect,
    Connect(AmqpUri, H),
    Bind { exchange: String, routing_key: String, arguments: FieldTable },
    Unbind(Binding),
}

/// A status change or a delivered message, sent from the connection manager to
/// the presentation layer.
#[derive(Debug)]
pub enum ConnectionUpdate {
    Connecting,
    Connected,
    Disconnected,
    TextDelivery { headers: String, content: String, content_type: Option<String> },
    /// A message whose body is not UTF-8 text; the body itself is withheld.
    BinaryDelivery { headers: String, content_type: Option<String> },
    Bound(Binding),
    Unbound(Binding),
}

/// A message as the broker delivered it.
///
/// `headers` is the JSON text of the message's header table, `None` when the
/// message carried no header table.
#[derive(Debug)]
pub struct Delivery {
    pub headers: Option<String>,
    pub data: Vec<u8>,
    pub content_type: Option<String>,
}

/// The text that `bytes` decodes to when they are well-formed UTF-8, `None`
/// otherwise.
pub uninterp spec fn utf8_text(bytes: Seq<u8>) -> Option<Seq<char>>;

/// Relies on `String::from_utf8`, which succeeds exactly on well-formed UTF-8
/// and then holds the decoded text.
#[verifier::external_body]
fn string_from_utf8(bytes: Vec<u8>) -> (r: Option<String>)
    ensures
        match r {
            Some(s) => utf8_text(bytes@) == Some(s@),
            None => utf8_text(bytes@) is None,
        },
{
    String::from_utf8(bytes).ok()
}

/// The header text of a delivered message: its header table's JSON text, or an
/// empty JSON object when it carried none.
pub open spec fn header_text(headers: Option<String>) -> Seq<char> {
    match headers {
        Some(h) => h@,
        None => "{}"@,
    }
}

/// `u` is the update for the delivered message `d`: text when the body is
/// UTF-8, binary (without the body) otherwise, with the same header text and
/// content type either way.
pub open spec fn decodes_to(d: Delivery, u: ConnectionUpdate) -> bool {
    match utf8_text(d.data@) {
        Some(text) => match u {
            ConnectionUpdate::TextDelivery { headers, content, content_type } => {
                &&& headers@ == header_text(d.headers)
                &&& content@ == text
                &&& content_type == d.content_type
            },
            _ => false,
        },
        None => match u {
            ConnectionUpdate::BinaryDelivery { headers, content_type } => {
                &&& headers@ == header_text(d.headers)
                &&& content_type == d.content_type
            },
            _ => false,
        },
    }
}

/// The update for a delivered message whose body decoded to `text` (`None`
/// when the body is not UTF-8): a text delivery carrying the text, or a binary
/// delivery without the body; either way with the header text and the content
/// type.
pub fn delivery_update(headers: Option<String>, text: Option<String>, content_type: Option<String>) -> (r:
    ConnectionUpdate)
    ensures
        match text {
            Some(t) => match r {
                ConnectionUpdate::TextDelivery { headers: h, content, content_type: c } => {
                    &&& h@ == header_text(headers)
                    &&& content == t
                    &&& c == content_type
                },
                _ => false,
            },
            None => match r {
                ConnectionUpdate::BinaryDelivery { headers: h, content_type: c } => {
                    &&& h@ == header_text(headers)
                    &&& c == content_type
                },
                _ => false,
            },
        },
{
    let headers = match headers {
        Some(h) => h,
        None => "{}".to_owned(),
    };
    match text {
        Some(content) => ConnectionUpdate::TextDelivery { headers, content, content_type },
        None => ConnectionUpdate::BinaryDelivery { headers, content_type },
    }
}

/// Turns a delivered message into the update that reports it.
pub fn decode_delivery(d: Delivery) -> (r: ConnectionUpdate)
    ensures
        decodes_to(d, r),
        r is TextDelivery <==> utf8_text(d.data@) is Some,
        r is BinaryDelivery <==> utf8_text(d.data@) is None,
{
    let Delivery { headers, data, content_type } = d;
    delivery_update(headers, string_from_utf8(data), content_type)
}

} // verus!

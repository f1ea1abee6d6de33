use vstd::prelude::*;

use std::collections::VecDeque;

use vstd::string::StringExecFns;

use crate::field::{DecimalValue, FieldTable, FieldValue};
use crate::number::{int_in_range, parse_int};
use crate::params::ConnectionParams;
use crate::protocol::{Binding, ConnectionCommand, ConnectionUpdate};

verus! {

/// State of the broker link as the presentation layer sees it.
#[derive(PartialEq, Eq, Structural, Clone, Copy, Debug)]
pub enum ConnectionStatus {
    Disconnected,
    Connecting,
    Connected,
}

/// The outcome of a modal dialog.
#[derive(PartialEq, Eq, Structural, Clone, Copy, Debug)]
pub enum ModalResult {
    /// The dialog is still open.
    Pending,
    /// The dialog was confirmed.
    Accepted,
    Cancel,
}

/// Which part of a message a highlight lies in.
#[derive(PartialEq, Eq, Structural, Clone, Copy, Debug)]
pub enum HighlightField {
    Header,
    Body,
}

/// A highlighted span, `start..end`, of a message's headers or body.
#[derive(PartialEq, Eq, Structural, Clone, Copy, Debug)]
pub struct Highlight {
    pub field: HighlightField,
    pub start: usize,
    pub end: usize,
}

/// A received message as the message list shows it.
#[derive(Debug)]
pub struct ModelItem {
    pub headers: String,
    pub body: String,
    pub expanded: bool,
    pub highlights: Vec<Highlight>,
}

/// How many messages the message list holds by default.
pub const DEFAULT_DATA_LIMIT: usize = 1000;

/// The received messages, oldest first.
#[derive(Debug)]
pub struct Model {
    pub data_limit: usize,
    pub data: VecDeque<ModelItem>,
}

impl Default for Model {
    fn default() -> (r: Self)
        ensures
            r.data_limit == DEFAULT_DATA_LIMIT,
            r.data@.len() == 0,
    {
        Model { data_limit: DEFAULT_DATA_LIMIT, data: VecDeque::new() }
    }
}

/// The kinds of value a binding argument can be entered as.
#[derive(PartialEq, Eq, Structural, Clone, Copy, Debug)]
pub enum SubscriptionArgumentType {
    Boolean,
    LongString,
    LongLongInt,
    LongInt,
    LongUInt,
    ShortInt,
    ShortUInt,
    ShortShortInt,
    ShortShortUInt,
    Float,
    Double,
    DecimalValue,
}

/// The name under which each argument kind is offered.
pub open spec fn type_label(t: SubscriptionArgumentType) -> Seq<char> {
    match t {
        SubscriptionArgumentType::Boolean => "Bool"@,
        SubscriptionArgumentType::LongInt => "32 bit int"@,
        SubscriptionArgumentType::LongUInt => "32 bit unsigned int"@,
        SubscriptionArgumentType::DecimalValue => "Decimal"@,
        SubscriptionArgumentType::LongString => "String"@,
        SubscriptionArgumentType::LongLongInt => "64 bit int"@,
        SubscriptionArgumentType::ShortInt => "16 bit int"@,
        SubscriptionArgumentType::ShortUInt => "16 bit unsigned int"@,
        SubscriptionArgumentType::ShortShortInt => "8 bit int"@,
        SubscriptionArgumentType::ShortShortUInt => "8 bit unsigned int"@,
        SubscriptionArgumentType::Float => "32 bit float"@,
        SubscriptionArgumentType::Double => "64 bit float"@,
    }
}

impl SubscriptionArgumentType {
    /// The name under which this kind is offered.
    pub fn label(&self) -> (r: &'static str)
        ensures
            r@ == type_label(*self),
    {
        match self {
            SubscriptionArgumentType::Boolean => "Bool",
            SubscriptionArgumentType::LongInt => "32 bit int",
            SubscriptionArgumentType::LongUInt => "32 bit unsigned int",
            SubscriptionArgumentType::DecimalValue => "Decimal",
            SubscriptionArgumentType::LongString => "String",
            SubscriptionArgumentType::LongLongInt => "64 bit int",
            SubscriptionArgumentType::ShortInt => "16 bit int",
            SubscriptionArgumentType::ShortUInt => "16 bit unsigned int",
            SubscriptionArgumentType::ShortShortInt => "8 bit int",
            SubscriptionArgumentType::ShortShortUInt => "8 bit unsigned int",
            SubscriptionArgumentType::Float => "32 bit float",
            SubscriptionArgumentType::Double => "64 bit float",
        }
    }
}

/// A binding argument as typed into the subscription dialog.
#[derive(Debug)]
pub struct RawSubscriptionArgument {
    pub t: SubscriptionArgumentType,
    pub value: String,
    pub name: String,
}

impl Default for RawSubscriptionArgument {
    fn default() -> (r: Self)
        ensures
            r.t == SubscriptionArgumentType::LongString,
            r.value@ == Seq::<char>::empty(),
            r.name@ == Seq::<char>::empty(),
    {
        RawSubscriptionArgument {
            t: SubscriptionArgumentType::LongString,
            value: String::new(),
            name: String::new(),
        }
    }
}

/// The scale and value of a decimal written as the JSON object
/// `{"scale": .., "value": ..}`, when `s` is one.
pub uninterp spec fn decimal_from_json(s: Seq<char>) -> Option<(u8, u32)>;

/// Relies on `serde_json::from_str` reading lapin's `DecimalValue`, whose
/// derived `Deserialize` takes an object with a `scale` and a `value`.
#[verifier::external_body]
fn parse_decimal(s: &str) -> (r: Option<DecimalValue>)
    ensures
        match r {
            Some(d) => decimal_from_json(s@) == Some((d.scale, d.value)),
            None => decimal_from_json(s@) is None,
        },
{
    match serde_json::from_str::<lapin::types::DecimalValue>(s) {
        Ok(d) => Some(DecimalValue { scale: d.scale, value: d.value }),
        Err(_) => None,
    }
}

/// The floating-point kinds, whose text this library does not read.
pub open spec fn is_float_kind(t: SubscriptionArgumentType) -> bool {
    t == SubscriptionArgumentType::Float || t == SubscriptionArgumentType::Double
}

/// The integer that `text` spells, when it lies in `lo..=hi`, as a field value
/// made by `make`.
pub open spec fn int_field(
    text: Seq<char>,
    signed: bool,
    lo: int,
    hi: int,
    make: spec_fn(int) -> FieldValue,
) -> Option<FieldValue> {
    match int_in_range(text, signed, lo, hi) {
        Some(v) => Some(make(v)),
        None => None,
    }
}

/// The field value that an argument's text reads as for its kind, if any:
/// `true` or `false` for booleans, the text itself for strings, an integer in
/// the kind's range for the integer kinds, and a JSON `{"scale", "value"}`
/// object for decimals.
pub open spec fn argument_value(a: RawSubscriptionArgument) -> Option<FieldValue> {
    let text = a.value@;
    match a.t {
        SubscriptionArgumentType::Boolean => if text == "true"@ {
            Some(FieldValue::Boolean(true))
        } else if text == "false"@ {
            Some(FieldValue::Boolean(false))
        } else {
            None
        },
        SubscriptionArgumentType::LongString => Some(FieldValue::LongString(a.value)),
        SubscriptionArgumentType::LongLongInt => int_field(
            text,
            true,
            i64::MIN as int,
            i64::MAX as int,
            |v: int| FieldValue::LongLongInt(v as i64),
        ),
        SubscriptionArgumentType::LongInt => int_field(
            text,
            true,
            i32::MIN as int,
            i32::MAX as int,
            |v: int| FieldValue::LongInt(v as i32),
        ),
        SubscriptionArgumentType::LongUInt => int_field(
            text,
            false,
            0,
            u32::MAX as int,
            |v: int| FieldValue::LongUInt(v as u32),
        ),
        SubscriptionArgumentType::ShortInt => int_field(
            text,
            true,
            i16::MIN as int,
            i16::MAX as int,
            |v: int| FieldValue::ShortInt(v as i16),
        ),
        SubscriptionArgumentType::ShortUInt => int_field(
            text,
            false,
            0,
            u16::MAX as int,
            |v: int| FieldValue::ShortUInt(v as u16),
        ),
        SubscriptionArgumentType::ShortShortInt => int_field(
            text,
            true,
            i8::MIN as int,
            i8::MAX as int,
            |v: int| FieldValue::ShortShortInt(v as i8),
        ),
        SubscriptionArgumentType::ShortShortUInt => int_field(
            text,
            false,
            0,
            u8::MAX as int,
            |v: int| FieldValue::ShortShortUInt(v as u8),
        ),
        SubscriptionArgumentType::DecimalValue => match decimal_from_json(text) {
            Some((scale, value)) => Some(FieldValue::DecimalValue(DecimalValue { scale, value })),
            None => None,
        },
        SubscriptionArgumentType::Float => None,
        SubscriptionArgumentType::Double => None,
    }
}

/// The message for an argument whose text does not read as its kind.
pub open spec fn invalid_value_message(value: Seq<char>, name: Seq<char>) -> Seq<char> {
    "Invalid value '"@ + value + "' for field '"@ + name + "'"@
}

impl RawSubscriptionArgument {
    /// Whether the argument has a name and its text reads as its kind.
    pub fn is_valid(&self) -> (r: bool)
        requires
            !is_float_kind(self.t),
        ensures
            r == (self.name@.len() > 0 && argument_value(*self) is Some),
    {
        self.is_name_valid() && self.is_value_valid()
    }

    /// Whether the argument has a name.
    pub fn is_name_valid(&self) -> (r: bool)
        ensures
            r == (self.name@.len() > 0),
    {
        !self.name.as_str().is_empty()
    }

    /// Whether the argument's text reads as its kind.
    pub fn is_value_valid(&self) -> (r: bool)
        requires
            !is_float_kind(self.t),
        ensures
            r == argument_value(*self) is Some,
    {
        self.parse_value().is_ok()
    }

    /// The message for an argument whose text does not read as its kind.
    fn parse_error(&self) -> (r: String)
        ensures
            r@ == invalid_value_message(self.value@, self.name@),
    {
        let r = "Invalid value '".to_owned();
        let r = r.concat(self.value.as_str());
        let r = r.concat("' for field '");
        let r = r.concat(self.name.as_str());
        r.concat("'")
    }

    /// Reads the argument's text as an integer in `lo..=hi`.
    fn parse_int_field(&self, signed: bool, lo: i128, hi: i128) -> (r: Option<i128>)
        requires
            -crate::number::MAGNITUDE_LIMIT <= lo <= hi <= crate::number::MAGNITUDE_LIMIT,
        ensures
            match r {
                Some(v) => int_in_range(self.value@, signed, lo as int, hi as int) == Some(v as int)
                    && lo <= v <= hi,
                None => int_in_range(self.value@, signed, lo as int, hi as int) is None,
            },
    {
        parse_int(self.value.as_str(), signed, lo, hi)
    }

    /// The field value the argument's text reads as for its kind, or the
    /// message saying that it does not.
    pub fn parse_value(&self) -> (r: Result<FieldValue, String>)
        requires
            !is_float_kind(self.t),
        ensures
            match r {
                Ok(v) => argument_value(*self) == Some(v),
                Err(e) => argument_value(*self) is None && e@ == invalid_value_message(
                    self.value@,
                    self.name@,
                ),
            },
    {
        let parsed: Option<FieldValue> = match self.t {
            SubscriptionArgumentType::Boolean => {
                if self.value == "true".to_owned() {
                    Some(FieldValue::Boolean(true))
                } else if self.value == "false".to_owned() {
                    Some(FieldValue::Boolean(false))
                } else {
                    None
                }
            },
            SubscriptionArgumentType::LongString => Some(FieldValue::LongString(self.value.clone())),
            SubscriptionArgumentType::LongLongInt => {
                match self.parse_int_field(true, i64::MIN as i128, i64::MAX as i128) {
                    Some(v) => Some(FieldValue::LongLongInt(v as i64)),
                    None => None,
                }
            },
            SubscriptionArgumentType::LongInt => {
                match self.parse_int_field(true, i32::MIN as i128, i32::MAX as i128) {
                    Some(v) => Some(FieldValue::LongInt(v as i32)),
                    None => None,
                }
            },
            SubscriptionArgumentType::LongUInt => {
                match self.parse_int_field(false, 0, u32::MAX as i128) {
                    Some(v) => Some(FieldValue::LongUInt(v as u32)),
                    None => None,
                }
            },
            SubscriptionArgumentType::ShortInt => {
                match self.parse_int_field(true, i16::MIN as i128, i16::MAX as i128) {
                    Some(v) => Some(FieldValue::ShortInt(v as i16)),
                    None => None,
                }
            },
            SubscriptionArgumentType::ShortUInt => {
                match self.parse_int_field(false, 0, u16::MAX as i128) {
                    Some(v) => Some(FieldValue::ShortUInt(v as u16)),
                    None => None,
                }
            },
            SubscriptionArgumentType::ShortShortInt => {
                match self.parse_int_field(true, i8::MIN as i128, i8::MAX as i128) {
                    Some(v) => Some(FieldValue::ShortShortInt(v as i8)),
                    None => None,
                }
            },
            SubscriptionArgumentType::ShortShortUInt => {
                match self.parse_int_field(false, 0, u8::MAX as i128) {
                    Some(v) => Some(FieldValue::ShortShortUInt(v as u8)),
                    None => None,
                }
            },
            SubscriptionArgumentType::DecimalValue => match parse_decimal(self.value.as_str()) {
                Some(d) => Some(FieldValue::DecimalValue(d)),
                None => None,
            },
            SubscriptionArgumentType::Float => None,
            SubscriptionArgumentType::Double => None,
        };
        match parsed {
            Some(v) => Ok(v),
            None => Err(self.parse_error()),
        }
    }
}

/// `bs` without the bindings whose id is `id`, the others in their order.
pub open spec fn without_id(bs: Seq<Binding>, id: u128) -> Seq<Binding>
    decreases bs.len(),
{
    if bs.len() == 0 {
        bs
    } else if bs[0].id == id {
        without_id(bs.drop_first(), id)
    } else {
        seq![bs[0]] + without_id(bs.drop_first(), id)
    }
}

/// `item` is the message list's entry for a delivered message with the given
/// headers and body: folded, and without highlights.
pub open spec fn new_item(item: ModelItem, headers: Seq<char>, body: Seq<char>) -> bool {
    &&& item.headers@ == headers
    &&& item.body@ == body
    &&& !item.expanded
    &&& item.highlights@.len() == 0
}

/// `r` is what recording the status `s` asks of the connection manager: the
/// wildcard subscription to `params.exchange` once connected, when `params`
/// asks for it, and nothing otherwise.
pub open spec fn status_request<H>(s: ConnectionStatus, params: ConnectionParams, r: Option<ConnectionCommand<H>>) -> bool {
    &&& r is Some <==> (s == ConnectionStatus::Connected && params.wildcard)
    &&& r is Some ==> match r->0 {
        ConnectionCommand::Bind { exchange, routing_key, arguments } => {
            &&& exchange@ == params.exchange@
            &&& routing_key@.len() == 0
            &&& arguments.entries@.len() == 0
        },
        _ => false,
    }
}

/// `post` and `r` are what the presentation layer makes of `update` in `pre`:
/// status updates set the status (see `status_request`), `Bound` adds the
/// binding, `Unbound` removes every binding with its id, and a delivery adds an
/// entry to the end of the message list, whose body for a binary message is a
/// placeholder.
pub open spec fn processed<H>(
    pre: ViewState,
    update: ConnectionUpdate,
    params: ConnectionParams,
    post: ViewState,
    r: Option<ConnectionCommand<H>>,
) -> bool {
    match update {
        ConnectionUpdate::Connecting => {
            &&& post == (ViewState { connection: ConnectionStatus::Connecting, ..pre })
            &&& r is None
        },
        ConnectionUpdate::Connected => {
            &&& post == (ViewState { connection: ConnectionStatus::Connected, ..pre })
            &&& status_request(ConnectionStatus::Connected, params, r)
        },
        ConnectionUpdate::Disconnected => {
            &&& post == (ViewState { connection: ConnectionStatus::Disconnected, ..pre })
            &&& r is None
        },
        ConnectionUpdate::Bound(b) => {
            &&& post.connection == pre.connection
            &&& post.gui_data == pre.gui_data
            &&& post.queue_bindings@ == pre.queue_bindings@.push(b)
            &&& r is None
        },
        ConnectionUpdate::Unbound(b) => {
            &&& post.connection == pre.connection
            &&& post.gui_data == pre.gui_data
            &&& post.queue_bindings@ == without_id(pre.queue_bindings@, b.id)
            &&& r is None
        },
        ConnectionUpdate::TextDelivery { headers, content, content_type } => {
            &&& post.connection == pre.connection
            &&& post.queue_bindings == pre.queue_bindings
            &&& post.gui_data.data_limit == pre.gui_data.data_limit
            &&& post.gui_data.data@.len() == pre.gui_data.data@.len() + 1
            &&& post.gui_data.data@.drop_last() == pre.gui_data.data@
            &&& new_item(post.gui_data.data@.last(), headers@, content@)
            &&& r is None
        },
        ConnectionUpdate::BinaryDelivery { headers, content_type } => {
            &&& post.connection == pre.connection
            &&& post.queue_bindings == pre.queue_bindings
            &&& post.gui_data.data_limit == pre.gui_data.data_limit
            &&& post.gui_data.data@.len() == pre.gui_data.data@.len() + 1
            &&& post.gui_data.data@.drop_last() == pre.gui_data.data@
            &&& new_item(post.gui_data.data@.last(), headers@, "-Binary data-"@)
            &&& r is None
        },
    }
}

/// What the presentation layer keeps of the connection manager's updates: the
/// link's status, the active subscriptions and the received messages.
#[derive(Debug)]
pub struct ViewState {
    pub connection: ConnectionStatus,
    pub queue_bindings: Vec<Binding>,
    pub gui_data: Model,
}

impl ViewState {
    /// Disconnected, with no subscriptions and no messages.
    pub fn new() -> (r: Self)
        ensures
            r.connection == ConnectionStatus::Disconnected,
            r.queue_bindings@.len() == 0,
            r.gui_data.data@.len() == 0,
            r.gui_data.data_limit == DEFAULT_DATA_LIMIT,
    {
        ViewState {
            connection: ConnectionStatus::Disconnected,
            queue_bindings: Vec::new(),
            gui_data: Model::default(),
        }
    }

    /// Records a new link status, and returns the wildcard subscription when
    /// one is due (see `status_request`).
    pub fn change_connection_state<H>(&mut self, new_state: ConnectionStatus, params: &ConnectionParams) -> (r:
        Option<ConnectionCommand<H>>)
        ensures
            *final(self) == (ViewState { connection: new_state, ..*old(self) }),
            status_request(new_state, *params, r),
    {
        self.connection = new_state;
        if new_state == ConnectionStatus::Connected && params.wildcard {
            Some(
                ConnectionCommand::Bind {
                    exchange: params.exchange.clone(),
                    routing_key: String::new(),
                    arguments: FieldTable { entries: Vec::new() },
                },
            )
        } else {
            None
        }
    }

    /// Drops every subscription whose id is `id`.
    fn remove_binding(&mut self, id: u128)
        ensures
            final(self).queue_bindings@ == without_id(old(self).queue_bindings@, id),
            final(self).connection == old(self).connection,
            final(self).gui_data == old(self).gui_data,
    {
        let mut taken: Vec<Binding> = Vec::new();
        std::mem::swap(&mut self.queue_bindings, &mut taken);
        let ghost all = taken@;
        let mut kept: Vec<Binding> = Vec::new();
        assert(kept@ + without_id(taken@, id) =~= without_id(all, id));
        while taken.len() > 0
            invariant
                without_id(all, id) == kept@ + without_id(taken@, id),
            decreases taken@.len(),
        {
            let ghost before = taken@;
            let ghost kept_before = kept@;
            let b = taken.remove(0);
            assert(taken@ =~= before.drop_first());
            if b.id != id {
                kept.push(b);
                assert(kept@ + without_id(taken@, id) =~= kept_before + (seq![b] + without_id(taken@, id)));
            }
        }
        assert(kept@ + without_id(taken@, id) =~= kept@);
        self.queue_bindings = kept;
    }

    /// Appends the entry for a delivered message to the message list.
    fn push_item(&mut self, headers: String, body: String)
        ensures
            final(self).connection == old(self).connection,
            final(self).queue_bindings == old(self).queue_bindings,
            final(self).gui_data.data_limit == old(self).gui_data.data_limit,
            final(self).gui_data.data@.len() == old(self).gui_data.data@.len() + 1,
            final(self).gui_data.data@.drop_last() == old(self).gui_data.data@,
            new_item(final(self).gui_data.data@.last(), headers@, body@),
    {
        let item = ModelItem { headers, body, expanded: false, highlights: Vec::new() };
        self.gui_data.data.push_back(item);
        assert(self.gui_data.data@.drop_last() =~= old(self).gui_data.data@);
    }

    /// Takes in one update from the connection manager, and returns the
    /// command that it calls for, if any (see `processed`).
    pub fn process_connection_update<H>(&mut self, update: ConnectionUpdate, params: &ConnectionParams) -> (r:
        Option<ConnectionCommand<H>>)
        ensures
            processed(*old(self), update, *params, *final(self), r),
    {
        match update {
            ConnectionUpdate::Connected => self.change_connection_state(ConnectionStatus::Connected, params),
            ConnectionUpdate::Disconnected => self.change_connection_state(ConnectionStatus::Disconnected, params),
            ConnectionUpdate::Connecting => self.change_connection_state(ConnectionStatus::Connecting, params),
            ConnectionUpdate::Bound(binding) => {
                self.queue_bindings.push(binding);
                None
            },
            ConnectionUpdate::Unbound(binding) => {
                self.remove_binding(binding.id);
                None
            },
            ConnectionUpdate::TextDelivery { headers, content, content_type } => {
                self.push_item(headers, content);
                None
            },
            ConnectionUpdate::BinaryDelivery { headers, content_type } => {
                self.push_item(headers, "-Binary data-".to_owned());
                None
            },
        }
    }
}

} // verus!

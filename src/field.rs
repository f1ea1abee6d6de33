use vstd::prelude::*;

verus! {

/// A decimal field: `value` scaled down by `scale` decimal places.
#[derive(PartialEq, Eq, Structural, Clone, Copy, Debug)]
pub struct DecimalValue {
    pub scale: u8,
    pub value: u32,
}

/// A typed value of a broker header table or binding argument table.
///
/// Floating-point kinds are carried as their IEEE-754 bit patterns.
#[derive(Debug)]
pub enum FieldValue {
    Boolean(bool),
    ShortShortInt(i8),
    ShortShortUInt(u8),
    ShortInt(i16),
    ShortUInt(u16),
    LongInt(i32),
    LongUInt(u32),
    LongLongInt(i64),
    /// Bits of a single-precision float.
    Float(u32),
    /// Bits of a double-precision float.
    Double(u64),
    DecimalValue(DecimalValue),
    ShortString(String),
    LongString(String),
    FieldArray(Vec<FieldValue>),
    Timestamp(u64),
    FieldTable(FieldTable),
    ByteArray(Vec<u8>),
    Void,
}

/// An ordered mapping of names to typed values.
#[derive(Debug)]
pub struct FieldTable {
    pub entries: Vec<(String, FieldValue)>,
}

/// A generic JSON value tree.
///
/// Numbers keep the width they came from: signed integers, unsigned integers,
/// and the bit patterns of single- and double-precision floats.
#[derive(Debug)]
pub enum JsonValue {
    Null,
    Bool(bool),
    Int(i64),
    UInt(u64),
    F32Bits(u32),
    F64Bits(u64),
    Str(String),
    Array(Vec<JsonValue>),
    Object(Vec<(String, JsonValue)>),
}

/// `j` is the JSON object `{"scale": d.scale, "value": d.value}`.
pub open spec fn decimal_object(d: DecimalValue, j: JsonValue) -> bool {
    match j {
        JsonValue::Object(es) => {
            &&& es@.len() == 2
            &&& es@[0].0@ == "scale"@
            &&& es@[0].1 == JsonValue::UInt(d.scale as u64)
            &&& es@[1].0@ == "value"@
            &&& es@[1].1 == JsonValue::UInt(d.value as u64)
        },
        _ => false,
    }
}

/// `j` is a JSON array holding each byte of `bytes` as a number, in order.
pub open spec fn byte_array(bytes: Seq<u8>, j: JsonValue) -> bool {
    match j {
        JsonValue::Array(items) => {
            &&& items@.len() == bytes.len()
            &&& forall|i: int| 0 <= i < bytes.len() ==> items@[i] == JsonValue::UInt(bytes[i] as u64)
        },
        _ => false,
    }
}

/// `j` is a JSON string with the characters of `s`.
pub open spec fn json_string(s: Seq<char>, j: JsonValue) -> bool {
    match j {
        JsonValue::Str(t) => t@ == s,
        _ => false,
    }
}

/// `j` is the projection of the field value `v`: scalars map directly, decimals
/// to a two-field object, strings to strings, byte arrays and field arrays
/// element-wise, and nested tables recursively to nested objects.
pub open spec fn projects(v: FieldValue, j: JsonValue) -> bool
    decreases v,
{
    match v {
        FieldValue::Boolean(b) => j == JsonValue::Bool(b),
        FieldValue::ShortShortInt(i) => j == JsonValue::Int(i as i64),
        FieldValue::ShortShortUInt(u) => j == JsonValue::UInt(u as u64),
        FieldValue::ShortInt(i) => j == JsonValue::Int(i as i64),
        FieldValue::ShortUInt(u) => j == JsonValue::UInt(u as u64),
        FieldValue::LongInt(i) => j == JsonValue::Int(i as i64),
        FieldValue::LongUInt(u) => j == JsonValue::UInt(u as u64),
        FieldValue::LongLongInt(i) => j == JsonValue::Int(i),
        FieldValue::Float(bits) => j == JsonValue::F32Bits(bits),
        FieldValue::Double(bits) => j == JsonValue::F64Bits(bits),
        FieldValue::DecimalValue(d) => decimal_object(d, j),
        FieldValue::ShortString(s) => json_string(s@, j),
        FieldValue::LongString(s) => json_string(s@, j),
        FieldValue::FieldArray(items) => match j {
            JsonValue::Array(js) => {
                &&& js@.len() == items@.len()
                &&& forall|i: int|
                    0 <= i < items@.len() ==> #[trigger] projects(items@[i], js@[i])
            },
            _ => false,
        },
        FieldValue::Timestamp(t) => j == JsonValue::UInt(t),
        FieldValue::FieldTable(t) => projects_table(t, j),
        FieldValue::ByteArray(bytes) => byte_array(bytes@, j),
        FieldValue::Void => j == JsonValue::Null,
    }
}

/// The member `m` has the name of the table entry `e` and the projection of its
/// value.
pub open spec fn projects_entry(e: (String, FieldValue), m: (String, JsonValue)) -> bool
    decreases e,
{
    &&& m.0@ == e.0@
    &&& projects(e.1, m.1)
}

/// `j` is the JSON object of the table `t`: one member per entry, in the
/// table's order, each named by the entry's name and holding the projection of
/// its value.
pub open spec fn projects_table(t: FieldTable, j: JsonValue) -> bool
    decreases t,
{
    match j {
        JsonValue::Object(es) => {
            &&& es@.len() == t.entries@.len()
            &&& forall|i: int|
                #![trigger es@[i]]
                0 <= i < t.entries@.len() ==> projects_entry(t.entries@[i], es@[i])
        },
        _ => false,
    }
}

/// Projects a field value onto a JSON value tree.
pub fn field_value_to_json(v: &FieldValue) -> (r: JsonValue)
    ensures
        projects(*v, r),
    decreases *v,
{
    match v {
        FieldValue::Boolean(b) => JsonValue::Bool(*b),
        FieldValue::ShortShortInt(i) => JsonValue::Int(*i as i64),
        FieldValue::ShortShortUInt(u) => JsonValue::UInt(*u as u64),
        FieldValue::ShortInt(i) => JsonValue::Int(*i as i64),
        FieldValue::ShortUInt(u) => JsonValue::UInt(*u as u64),
        FieldValue::LongInt(i) => JsonValue::Int(*i as i64),
        FieldValue::LongUInt(u) => JsonValue::UInt(*u as u64),
        FieldValue::LongLongInt(i) => JsonValue::Int(*i),
        FieldValue::Float(bits) => JsonValue::F32Bits(*bits),
        FieldValue::Double(bits) => JsonValue::F64Bits(*bits),
        FieldValue::DecimalValue(d) => {
            let mut es: Vec<(String, JsonValue)> = Vec::new();
            es.push(("scale".to_owned(), JsonValue::UInt(d.scale as u64)));
            es.push(("value".to_owned(), JsonValue::UInt(d.value as u64)));
            JsonValue::Object(es)
        },
        FieldValue::ShortString(s) => JsonValue::Str(s.clone()),
        FieldValue::LongString(s) => JsonValue::Str(s.clone()),
        FieldValue::FieldArray(items) => {
            let mut js: Vec<JsonValue> = Vec::new();
            let mut i: usize = 0;
            while i < items.len()
                invariant
                    decreases_to!(*v => *items),
                    i <= items@.len(),
                    js@.len() == i,
                    forall|k: int| #![trigger js@[k]] 0 <= k < i ==> projects(items@[k], js@[k]),
                decreases items@.len() - i,
            {
                proof {
                    assert(decreases_to!(*items => items@[i as int]));
                }
                let j = field_value_to_json(&items[i]);
                js.push(j);
                i += 1;
            }
            JsonValue::Array(js)
        },
        FieldValue::Timestamp(t) => JsonValue::UInt(*t),
        FieldValue::FieldTable(t) => field_table_to_json(t),
        FieldValue::ByteArray(bytes) => {
            let mut js: Vec<JsonValue> = Vec::new();
            let mut i: usize = 0;
            while i < bytes.len()
                invariant
                    i <= bytes@.len(),
                    js@.len() == i,
                    forall|k: int| 0 <= k < i ==> js@[k] == JsonValue::UInt(bytes@[k] as u64),
                decreases bytes@.len() - i,
            {
                js.push(JsonValue::UInt(bytes[i] as u64));
                i += 1;
            }
            JsonValue::Array(js)
        },
        FieldValue::Void => JsonValue::Null,
    }
}

/// Projects a field table onto a JSON object, member by member in the table's
/// order.
pub fn field_table_to_json(t: &FieldTable) -> (r: JsonValue)
    ensures
        projects_table(*t, r),
    decreases *t,
{
    let mut es: Vec<(String, JsonValue)> = Vec::new();
    let mut i: usize = 0;
    while i < t.entries.len()
        invariant
            i <= t.entries@.len(),
            es@.len() == i,
            forall|k: int| #![trigger es@[k]] 0 <= k < i ==> projects_entry(t.entries@[k], es@[k]),
        decreases t.entries@.len() - i,
    {
        let name = t.entries[i].0.clone();
        let j = field_value_to_json(&t.entries[i].1);
        es.push((name, j));
        i += 1;
    }
    JsonValue::Object(es)
}

/// The projection keeps primitive scalars exactly: each integer kind becomes
/// the JSON integer of the same value, a boolean the same JSON boolean, a
/// timestamp its number, a string the same text, and a nested table the JSON
/// object of that table, whose members are again projections, to any depth.
pub proof fn lemma_projection_exact(v: FieldValue, j: JsonValue)
    requires
        projects(v, j),
    ensures
        v is Boolean ==> j == JsonValue::Bool(v->Boolean_0),
        v is ShortShortInt ==> j is Int && j->Int_0 as int == v->ShortShortInt_0 as int,
        v is ShortShortUInt ==> j is UInt && j->UInt_0 as int == v->ShortShortUInt_0 as int,
        v is ShortInt ==> j is Int && j->Int_0 as int == v->ShortInt_0 as int,
        v is ShortUInt ==> j is UInt && j->UInt_0 as int == v->ShortUInt_0 as int,
        v is LongInt ==> j is Int && j->Int_0 as int == v->LongInt_0 as int,
        v is LongUInt ==> j is UInt && j->UInt_0 as int == v->LongUInt_0 as int,
        v is LongLongInt ==> j is Int && j->Int_0 as int == v->LongLongInt_0 as int,
        v is Timestamp ==> j is UInt && j->UInt_0 as int == v->Timestamp_0 as int,
        v is LongString ==> j is Str && j->Str_0@ == v->LongString_0@,
        v is ShortString ==> j is Str && j->Str_0@ == v->ShortString_0@,
        v is Void ==> j is Null,
        v is FieldTable ==> {
            &&& j is Object
            &&& j->Object_0@.len() == v->FieldTable_0.entries@.len()
            &&& forall|i: int|
                0 <= i < j->Object_0@.len() ==> {
                    &&& (#[trigger] j->Object_0@[i]).0@ == v->FieldTable_0.entries@[i].0@
                    &&& projects(v->FieldTable_0.entries@[i].1, j->Object_0@[i].1)
                }
        },
{
    if v is FieldTable {
        let t = v->FieldTable_0;
        assert(projects_table(t, j));
        assert forall|i: int| 0 <= i < j->Object_0@.len() implies {
            &&& (#[trigger] j->Object_0@[i]).0@ == t.entries@[i].0@
            &&& projects(t.entries@[i].1, j->Object_0@[i].1)
        } by {
            assert(projects_entry(t.entries@[i], j->Object_0@[i]));
        }
    }
}

} // verus!

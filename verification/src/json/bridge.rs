//! Where JSON meets the JSON crate: its values, its parser and its writer.
use vstd::prelude::*;

use vstd::utf8::encode_utf8;

use crate::json::braces::is_object;
use crate::json::{
    empty_object, fields_view, items_view, json_view, lemma_array_view, Json, JsonObject, JsonView,
};

verus! {

/// Declares `serde_json::Number`, a JSON number as the JSON crate holds it.
#[verifier::external_type_specification]
#[verifier::external_body]
pub struct ExNumber(serde_json::Number);

/// Declares `serde_json::Value`, a JSON value as the JSON crate holds it.
#[verifier::external_type_specification]
#[verifier::external_body]
pub struct ExValue(serde_json::Value);

/// Declares `serde_json::Error`, what the JSON crate reports of a text or a value that it
/// refuses.
#[verifier::external_type_specification]
#[verifier::external_body]
pub struct ExJsonError(serde_json::Error);

/// What a `serde_json::Value` holds.
pub uninterp spec fn value_view(v: serde_json::Value) -> JsonView;

/// The number that `serde_json::Number::from` makes of an unsigned integer.
pub uninterp spec fn unsigned_number(n: u64) -> serde_json::Number;

/// The number that `serde_json::Number::from` makes of a signed integer.
pub uninterp spec fn signed_number(n: i64) -> serde_json::Number;

/// What `serde_json::from_str` reads out of a text; `None` where the text is not JSON.
pub uninterp spec fn parsed_json(text: Seq<char>) -> Option<JsonView>;

/// What `serde_json::to_string` writes for a value; `None` where it reports an error.
pub uninterp spec fn compact_text(v: JsonView) -> Option<Seq<char>>;

/// What the `Display` impl of `serde_json::Value` writes for a value.
pub uninterp spec fn display_text(v: JsonView) -> Seq<char>;

/// Whether a number is an integer of at most 64 bits.
pub open spec fn is_integer(n: serde_json::Number) -> bool {
    (exists|u: u64| n == #[trigger] unsigned_number(u)) || (exists|i: i64|
        n == #[trigger] signed_number(i))
}

/// How deep a text may nest that the JSON crate reads.
pub open spec fn deepest() -> nat {
    127
}

/// The name of a field by which the JSON crate marks JSON text inside JSON text.
pub open spec fn raw_text_field() -> Seq<char> {
    "$serde_json::private::RawValue"@
}

/// Whether all numbers of a value are integers, no object in it has the field that marks JSON
/// text, and its lists and objects nest at most `levels` deep.
pub open spec fn is_plain(v: JsonView, levels: nat) -> bool
    decreases levels,
{
    match v {
        JsonView::Number(n) => is_integer(n),
        JsonView::Array(items) => levels > 0 && forall|i: int|
            0 <= i < items.len() ==> is_plain(#[trigger] items[i], (levels - 1) as nat),
        JsonView::Object(m) => levels > 0 && forall|k: Seq<char>| #[trigger]
            m.dom().contains(k) ==> k != raw_text_field() && is_plain(m[k], (levels - 1) as nat),
        _ => true,
    }
}

/// The outermost level of a `serde_json::Value`.
pub enum ValueNode {
    Null,
    Bool(bool),
    Number(serde_json::Number),
    Text(String),
    Array(Vec<serde_json::Value>),
    Object(Vec<(String, serde_json::Value)>),
}

/// The map that a list of named values stands for; the later of two equal names counts.
pub open spec fn value_fields_view(fields: Seq<(String, serde_json::Value)>) -> Map<
    Seq<char>,
    JsonView,
>
    decreases fields.len(),
{
    if fields.len() == 0 {
        Map::empty()
    } else {
        value_fields_view(fields.drop_last()).insert(
            fields.last().0@,
            value_view(fields.last().1),
        )
    }
}

/// What a value with this outermost level holds.
pub open spec fn node_view(n: ValueNode) -> JsonView {
    match n {
        ValueNode::Null => JsonView::Null,
        ValueNode::Bool(b) => JsonView::Bool(b),
        ValueNode::Number(n) => JsonView::Number(n),
        ValueNode::Text(s) => JsonView::Text(s@),
        ValueNode::Array(items) => JsonView::Array(
            Seq::new(items@.len(), |i: int| value_view(items@[i])),
        ),
        ValueNode::Object(fields) => JsonView::Object(value_fields_view(fields@)),
    }
}

/// `serde_json::Number::clone`: the copy is the same number.
pub assume_specification[ <serde_json::Number as Clone>::clone ](
    n: &serde_json::Number,
) -> (r: serde_json::Number)
    ensures
        r == *n,
;

/// `serde_json::Number::from` on an unsigned integer: the result is a function of the integer.
#[verifier::external_body]
pub(crate) fn number_from_u64(n: u64) -> (r: serde_json::Number)
    ensures
        r == unsigned_number(n),
{
    serde_json::Number::from(n)
}

/// `serde_json::Number::from` on a signed integer: the result is a function of the integer.
#[verifier::external_body]
pub(crate) fn number_from_i64(n: i64) -> (r: serde_json::Number)
    ensures
        r == signed_number(n),
{
    serde_json::Number::from(n)
}

/// Takes the outermost level of a `serde_json::Value` apart. The level holds what the value
/// held, and no name occurs twice among the fields of an object.
#[verifier::external_body]
fn open_value(v: serde_json::Value) -> (r: ValueNode)
    ensures
        node_view(r) == value_view(v),
        r matches ValueNode::Object(f) ==> forall|i: int, j: int|
            0 <= i < j < f@.len() ==> (#[trigger] f@[i]).0@ != (#[trigger] f@[j]).0@,
{
    match v {
        serde_json::Value::Null => ValueNode::Null,
        serde_json::Value::Bool(b) => ValueNode::Bool(b),
        serde_json::Value::Number(n) => ValueNode::Number(n),
        serde_json::Value::String(s) => ValueNode::Text(s),
        serde_json::Value::Array(items) => ValueNode::Array(items),
        serde_json::Value::Object(fields) => ValueNode::Object(fields.into_iter().collect()),
    }
}

/// Makes a `serde_json::Value` out of its outermost level. The value holds what the level
/// holds: `serde_json::Map` keeps the later of two fields with one name.
#[verifier::external_body]
fn close_value(n: ValueNode) -> (r: serde_json::Value)
    ensures
        value_view(r) == node_view(n),
{
    match n {
        ValueNode::Null => serde_json::Value::Null,
        ValueNode::Bool(b) => serde_json::Value::Bool(b),
        ValueNode::Number(n) => serde_json::Value::Number(n),
        ValueNode::Text(s) => serde_json::Value::String(s),
        ValueNode::Array(items) => serde_json::Value::Array(items),
        ValueNode::Object(fields) => serde_json::Value::Object(fields.into_iter().collect()),
    }
}

/// `serde_json::from_str` into a `serde_json::Value`: whether it succeeds, and what the value
/// then holds, is a function of the text.
#[verifier::external_body]
fn parse_value(text: &str) -> (r: Result<serde_json::Value, serde_json::Error>)
    ensures
        match r {
            Ok(v) => parsed_json(text@) == Some(value_view(v)),
            Err(_) => parsed_json(text@) is None,
        },
{
    serde_json::from_str(text)
}

/// `serde_json::to_string` of a `serde_json::Value`: whether it succeeds, and the text, is a
/// function of what the value holds. An object is always written, and as one object: strings are
/// escaped, so the first brace is matched by the last byte. `serde_json::from_str` reads the text
/// back as the same value where all numbers are integers, no object has the field that marks JSON
/// text, and nothing nests too deep for it. What it reads of a fraction is not said here, nor what
/// it reads of that field, whose text it parses in place of the object.
#[verifier::external_body]
fn compact_value(v: &serde_json::Value) -> (r: Result<String, serde_json::Error>)
    ensures
        match r {
            Ok(s) => {
                &&& compact_text(value_view(*v)) == Some(s@)
                &&& value_view(*v) is Object ==> is_object(encode_utf8(s@))
                &&& is_plain(value_view(*v), deepest()) ==> parsed_json(s@) == Some(value_view(*v))
            },
            Err(_) => {
                &&& compact_text(value_view(*v)) is None
                &&& value_view(*v) !is Object
                &&& !is_plain(value_view(*v), deepest())
            },
        },
{
    serde_json::to_string(v)
}

/// `serde_json::Value::to_string`, which its `Display` impl gives it: the text is a function
/// of what the value holds.
#[verifier::external_body]
fn display_value(v: &serde_json::Value) -> (r: String)
    ensures
        r@ == display_text(value_view(*v)),
{
    v.to_string()
}

proof fn lemma_value_fields_finite(fields: Seq<(String, serde_json::Value)>)
    ensures
        value_fields_view(fields).dom().finite(),
    decreases fields.len(),
{
    if fields.len() > 0 {
        lemma_value_fields_finite(fields.drop_last());
    }
}

proof fn lemma_value_fields_last(fields: Seq<(String, serde_json::Value)>, k: int)
    requires
        0 <= k < fields.len(),
        forall|i: int, j: int|
            0 <= i < j < fields.len() ==> (#[trigger] fields[i]).0@ != (#[trigger] fields[j]).0@,
    ensures
        value_fields_view(fields).dom().contains(fields[k].0@),
        value_fields_view(fields)[fields[k].0@] == value_view(fields[k].1),
    decreases fields.len(),
{
    if k < fields.len() - 1 {
        assert(fields.drop_last()[k] == fields[k]);
        assert(fields[k].0@ != fields[fields.len() - 1].0@);
        assert forall|i: int, j: int| 0 <= i < j < fields.drop_last().len() implies (
        #[trigger] fields.drop_last()[i]).0@ != (#[trigger] fields.drop_last()[j]).0@ by {
            assert(fields.drop_last()[i] == fields[i]);
            assert(fields.drop_last()[j] == fields[j]);
        }
        lemma_value_fields_last(fields.drop_last(), k);
    }
}

impl Json {
    /// The value that a `serde_json::Value` holds.
    pub fn from_value(v: serde_json::Value) -> (r: Json)
        ensures
            r@ == value_view(v),
        decreases value_view(v),
    {
        let ghost whole = value_view(v);
        match open_value(v) {
            ValueNode::Null => Json::Null,
            ValueNode::Bool(b) => Json::Bool(b),
            ValueNode::Number(n) => Json::Number(n),
            ValueNode::Text(s) => Json::Text(s),
            ValueNode::Array(items) => {
                let mut out: Vec<Json> = Vec::new();
                let ghost all = items@;
                for item in it: items
                    invariant
                        whole == value_view(v),
                        it.seq() == all,
                        out@.len() == it.index(),
                        whole == JsonView::Array(Seq::new(all.len(), |i: int| value_view(all[i]))),
                        forall|j: int| 0 <= j < it.index() ==> json_view(#[trigger] out@[j])
                            == value_view(all[j]),
                {
                    proof {
                        let parts = whole->Array_0;
                        assert(parts[it.index()] == value_view(item));
                        assert(decreases_to!(whole => whole->Array_0));
                        assert(decreases_to!(parts => parts[it.index()]));
                    }
                    out.push(Json::from_value(item));
                }
                proof {
                    lemma_array_view(out);
                    assert(items_view(out@) =~= whole->Array_0);
                }
                Json::Array(out)
            },
            ValueNode::Object(fields) => {
                let mut out: Vec<(String, Json)> = Vec::new();
                let ghost all = fields@;
                assert(all.take(0) =~= Seq::<(String, serde_json::Value)>::empty());
                for entry in it: fields
                    invariant
                        whole == value_view(v),
                        it.seq() == all,
                        whole == JsonView::Object(value_fields_view(all)),
                        forall|i: int, j: int|
                            0 <= i < j < all.len() ==> (#[trigger] all[i]).0@ != (#[trigger] all[j]).0@,
                        fields_view(out@) == value_fields_view(all.take(it.index())),
                {
                    let ghost before = out@;
                    let (name, value) = entry;
                    proof {
                        let parts = whole->Object_0;
                        lemma_value_fields_last(all, it.index());
                        lemma_value_fields_finite(all);
                        assert(parts[name@] == value_view(value));
                        assert(decreases_to!(whole => whole->Object_0));
                        assert(decreases_to!(parts => parts[name@]));
                    }
                    out.push((name, Json::from_value(value)));
                    proof {
                        assert(out@.drop_last() =~= before);
                        assert(all.take(it.index() + 1).drop_last() =~= all.take(it.index()));
                    }
                }
                assert(all.take(all.len() as int) =~= all);
                Json::Object(JsonObject { fields: out })
            },
        }
    }

    /// This value as a `serde_json::Value`.
    pub fn to_value(&self) -> (r: serde_json::Value)
        ensures
            value_view(r) == self@,
        decreases self,
    {
        match self {
            Json::Null => close_value(ValueNode::Null),
            Json::Bool(b) => close_value(ValueNode::Bool(*b)),
            Json::Number(n) => close_value(ValueNode::Number(n.clone())),
            Json::Text(s) => close_value(ValueNode::Text(s.clone())),
            Json::Array(items) => {
                let mut out: Vec<serde_json::Value> = Vec::new();
                let mut i: usize = 0;
                while i < items.len()
                    invariant
                        i <= items@.len(),
                        out@.len() == i,
                        *self == Json::Array(*items),
                        forall|j: int| 0 <= j < i ==> value_view(#[trigger] out@[j]) == json_view(
                            items@[j],
                        ),
                    decreases items@.len() - i,
                {
                    proof {
                        assert(decreases_to!(*self => self->Array_0));
                        assert(decreases_to!(self->Array_0 => items@));
                        assert(decreases_to!(items@ => items@[i as int]));
                    }
                    out.push(items[i].to_value());
                    i += 1;
                }
                proof {
                    lemma_array_view(*items);
                    assert(node_view(ValueNode::Array(out))->Array_0 =~= items_view(items@));
                }
                close_value(ValueNode::Array(out))
            },
            Json::Object(o) => {
                let mut out: Vec<(String, serde_json::Value)> = Vec::new();
                let mut i: usize = 0;
                assert(o.fields@.take(0) =~= Seq::<(String, Json)>::empty());
                while i < o.fields.len()
                    invariant
                        i <= o.fields@.len(),
                        *self == Json::Object(*o),
                        value_fields_view(out@) == fields_view(o.fields@.take(i as int)),
                    decreases o.fields@.len() - i,
                {
                    let ghost before = out@;
                    proof {
                        assert(decreases_to!(*self => self->Object_0));
                        assert(decreases_to!(self->Object_0 => o.fields));
                        assert(decreases_to!(o.fields => o.fields@));
                        assert(decreases_to!(o.fields@ => o.fields@[i as int]));
                        assert(decreases_to!(o.fields@[i as int] => o.fields@[i as int].1));
                    }
                    out.push((o.fields[i].0.clone(), o.fields[i].1.to_value()));
                    proof {
                        assert(out@.drop_last() =~= before);
                        assert(o.fields@.take(i + 1).drop_last() =~= o.fields@.take(i as int));
                    }
                    i += 1;
                }
                assert(o.fields@.take(o.fields@.len() as int) =~= o.fields@);
                close_value(ValueNode::Object(out))
            },
        }
    }

    /// The JSON value that `text` spells; `None` where it spells none.
    pub fn parse(text: &str) -> (r: Option<Json>)
        ensures
            match r {
                Some(j) => parsed_json(text@) == Some(j@),
                None => parsed_json(text@) is None,
            },
    {
        match parse_value(text) {
            Ok(v) => Some(Json::from_value(v)),
            Err(_) => None,
        }
    }

    /// The JSON text of this value, without spaces; the empty text where it cannot be written. An
    /// object is written as one object. What holds no fractions and no field that marks JSON text,
    /// and does not nest too deep, is read back from its text.
    pub fn compact(&self) -> (r: String)
        ensures
            r@ == compact_or_empty(self@),
            self@ is Object ==> is_object(encode_utf8(r@)),
            is_plain(self@, deepest()) ==> parsed_json(r@) == Some(self@),
    {
        match compact_value(&self.to_value()) {
            Ok(s) => s,
            Err(_) => String::new(),
        }
    }

    /// The JSON text by which this value is shown.
    pub fn display(&self) -> (r: String)
        ensures
            r@ == display_text(self@),
    {
        display_value(&self.to_value())
    }

    /// An unsigned integer as a JSON value.
    pub fn unsigned(n: u64) -> (r: Json)
        ensures
            r@ == JsonView::Number(unsigned_number(n)),
    {
        Json::Number(number_from_u64(n))
    }

    /// A signed integer as a JSON value.
    pub fn signed(n: i64) -> (r: Json)
        ensures
            r@ == JsonView::Number(signed_number(n)),
    {
        Json::Number(number_from_i64(n))
    }
}

/// The written text of a value, or the empty text where it cannot be written.
pub open spec fn compact_or_empty(v: JsonView) -> Seq<char> {
    match compact_text(v) {
        Some(s) => s,
        None => Seq::empty(),
    }
}

/// What a text spells, or an object without fields where it spells nothing.
pub open spec fn parsed_or_empty(text: Seq<char>) -> JsonView {
    match parsed_json(text) {
        Some(v) => v,
        None => empty_object(),
    }
}

/// What `text` spells, or an object without fields where it spells nothing.
pub fn parse_or_empty(text: &str) -> (r: Json)
    ensures
        r@ == parsed_or_empty(text@),
{
    match Json::parse(text) {
        Some(v) => v,
        None => Json::empty_object(),
    }
}

} // verus!

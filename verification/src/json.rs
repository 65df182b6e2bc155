//! JSON values: the tree that the proxy reads and builds, and its model.
use vstd::prelude::*;

use crate::text::text_eq;

pub mod braces;
pub mod bridge;
pub mod objects;

verus! {

/// A JSON value.
///
/// A number stays the value that the JSON crate made of it: the proxy passes numbers on and
/// reads none of them.
#[derive(Debug)]
pub enum Json {
    Null,
    Bool(bool),
    Number(serde_json::Number),
    Text(String),
    Array(Vec<Json>),
    Object(JsonObject),
}

/// The fields of a JSON object, in the order in which they were set.
#[derive(Debug)]
pub struct JsonObject {
    pub fields: Vec<(String, Json)>,
}

/// What a JSON value is: an object is a map from names to values, without an order.
pub enum JsonView {
    Null,
    Bool(bool),
    Number(serde_json::Number),
    Text(Seq<char>),
    Array(Seq<JsonView>),
    Object(Map<Seq<char>, JsonView>),
}

/// The model of a JSON value.
pub open spec fn json_view(j: Json) -> JsonView
    decreases j,
{
    match j {
        Json::Null => JsonView::Null,
        Json::Bool(b) => JsonView::Bool(b),
        Json::Number(n) => JsonView::Number(n),
        Json::Text(s) => JsonView::Text(s@),
        Json::Array(items) => JsonView::Array(
            Seq::new(
                items@.len(),
                |i: int|
                    if 0 <= i < items@.len() {
                        json_view(items@[i])
                    } else {
                        JsonView::Null
                    },
            ),
        ),
        Json::Object(o) => JsonView::Object(fields_view(o.fields@)),
    }
}

/// The map that a list of fields stands for: where a name occurs twice, the later value counts.
pub open spec fn fields_view(fields: Seq<(String, Json)>) -> Map<Seq<char>, JsonView>
    decreases fields,
{
    if fields.len() == 0 {
        Map::empty()
    } else {
        fields_view(fields.drop_last()).insert(fields.last().0@, json_view(fields.last().1))
    }
}

/// The models of a sequence of values.
pub open spec fn items_view(items: Seq<Json>) -> Seq<JsonView> {
    Seq::new(items.len(), |i: int| json_view(items[i]))
}

impl View for Json {
    type V = JsonView;

    open spec fn view(&self) -> JsonView {
        json_view(*self)
    }
}

impl View for JsonObject {
    type V = Map<Seq<char>, JsonView>;

    open spec fn view(&self) -> Map<Seq<char>, JsonView> {
        fields_view(self.fields@)
    }
}

/// The value of the field `name`, where `v` is an object that has it.
pub open spec fn field(v: JsonView, name: Seq<char>) -> Option<JsonView> {
    match v {
        JsonView::Object(m) => if m.dom().contains(name) {
            Some(m[name])
        } else {
            None
        },
        _ => None,
    }
}

/// The text of the field `name`, where `v` is an object that has it and it holds a text.
pub open spec fn text_field(v: JsonView, name: Seq<char>) -> Option<Seq<char>> {
    match field(v, name) {
        Some(JsonView::Text(s)) => Some(s),
        _ => None,
    }
}

/// Whether `v` is an object whose field `name` has the value `value`.
pub open spec fn has_field(v: JsonView, name: Seq<char>, value: JsonView) -> bool {
    v matches JsonView::Object(m) && m.contains_key(name) && m[name] == value
}

/// Whether `v` is an object whose fields have these names and no others.
pub open spec fn has_names(v: JsonView, names: Set<Seq<char>>) -> bool {
    v matches JsonView::Object(m) && m.dom() == names
}

/// Whether `v` is an object without the field `name`, or no object.
pub open spec fn lacks_field(v: JsonView, name: Seq<char>) -> bool {
    v matches JsonView::Object(m) ==> !m.contains_key(name)
}

/// The value of the field `name`.
pub open spec fn inner(v: JsonView, name: Seq<char>) -> JsonView {
    v->Object_0[name]
}

/// The items of a list.
pub open spec fn items(v: JsonView) -> Seq<JsonView> {
    v->Array_0
}

/// A field is read as it stands: its value, where there is one, and nothing else.
pub proof fn lemma_field_is_read(v: JsonView, name: Seq<char>, value: JsonView)
    ensures
        field(v, name) == Some(value) <==> has_field(v, name, value),
        field(v, name) is None <==> lacks_field(v, name),
{
}

/// The text of a field is read as it stands.
pub proof fn lemma_text_field_is_read(v: JsonView, name: Seq<char>, text: Seq<char>)
    ensures
        text_field(v, name) == Some(text) <==> has_field(v, name, JsonView::Text(text)),
{
}

/// A value is what it is made of: a text keeps its characters, a list its items in their order,
/// and an object the last value of each name.
pub proof fn lemma_value_is_kept(s: String, items: Vec<Json>, fields: Seq<(String, Json)>, k: int)
    ensures
        json_view(Json::Text(s)) == JsonView::Text(s@),
        json_view(Json::Array(items)) matches JsonView::Array(a) && a.len() == items@.len()
            && forall|i: int| 0 <= i < items@.len() ==> a[i] == json_view(#[trigger] items@[i]),
        0 <= k < fields.len() && (forall|j: int|
            k < j < fields.len() ==> (#[trigger] fields[j]).0@ != fields[k].0@)
            ==> fields_view(fields).contains_key(fields[k].0@) && fields_view(
            fields,
        )[fields[k].0@] == json_view(fields[k].1),
    decreases fields.len(),
{
    if 0 <= k < fields.len() - 1 {
        let shorter = fields.drop_last();
        if forall|j: int| k < j < fields.len() ==> (#[trigger] fields[j]).0@ != fields[k].0@ {
            assert(fields[fields.len() - 1].0@ != fields[k].0@);
            assert forall|j: int| k < j < shorter.len() implies (#[trigger] shorter[j]).0@
                != shorter[k].0@ by {
                assert(shorter[j] == fields[j]);
            }
            lemma_value_is_kept(s, items, shorter, k);
        }
    }
}

/// Every other value is what it is made of, too.
pub proof fn lemma_plain_value_is_kept(b: bool, n: serde_json::Number, o: JsonObject)
    ensures
        json_view(Json::Null) == JsonView::Null,
        json_view(Json::Bool(b)) == JsonView::Bool(b),
        json_view(Json::Number(n)) == JsonView::Number(n),
        json_view(Json::Object(o)) == JsonView::Object(o@),
        o@ == fields_view(o.fields@),
        fields_view(Seq::empty()) == Map::<Seq<char>, JsonView>::empty(),
{
}

/// An object without fields.
pub open spec fn empty_object() -> JsonView {
    JsonView::Object(Map::empty())
}

/// An array is the sequence of its items' models.
pub broadcast proof fn lemma_array_view(items: Vec<Json>)
    ensures
        #[trigger] json_view(Json::Array(items)) == JsonView::Array(items_view(items@)),
{
    assert(json_view(Json::Array(items))->Array_0 =~= items_view(items@));
}

/// The model of a longer list has one more entry.
pub proof fn lemma_items_push(items: Seq<Json>, j: Json)
    ensures
        items_view(items.push(j)) == items_view(items).push(json_view(j)),
{
    assert(items_view(items.push(j)) =~= items_view(items).push(json_view(j)));
}

/// A list of fields has the names of its entries, and each value is that of the last entry
/// with its name.
proof fn lemma_fields_last(fields: Seq<(String, Json)>, k: int)
    requires
        0 <= k < fields.len(),
        forall|i: int| k < i < fields.len() ==> (#[trigger] fields[i]).0@ != fields[k].0@,
    ensures
        fields_view(fields).dom().contains(fields[k].0@),
        fields_view(fields)[fields[k].0@] == json_view(fields[k].1),
    decreases fields.len(),
{
    if k < fields.len() - 1 {
        assert(fields.drop_last()[k] == fields[k]);
        assert(fields[fields.len() - 1].0@ != fields[k].0@);
        assert forall|i: int| k < i < fields.drop_last().len() implies (
        #[trigger] fields.drop_last()[i]).0@ != fields.drop_last()[k].0@ by {
            assert(fields.drop_last()[i] == fields[i]);
        }
        lemma_fields_last(fields.drop_last(), k);
    }
}

/// A name that no entry has is not in the map.
proof fn lemma_fields_absent(fields: Seq<(String, Json)>, name: Seq<char>)
    requires
        forall|i: int| 0 <= i < fields.len() ==> (#[trigger] fields[i]).0@ != name,
    ensures
        !fields_view(fields).dom().contains(name),
    decreases fields.len(),
{
    if fields.len() > 0 {
        assert(fields[fields.len() - 1].0@ != name);
        assert forall|i: int| 0 <= i < fields.drop_last().len() implies (
        #[trigger] fields.drop_last()[i]).0@ != name by {
            assert(fields.drop_last()[i] == fields[i]);
        }
        lemma_fields_absent(fields.drop_last(), name);
    }
}

/// Changing the value of the last entry with a name sets that name in the map.
proof fn lemma_fields_update(fields: Seq<(String, Json)>, k: int, entry: (String, Json))
    requires
        0 <= k < fields.len(),
        entry.0@ == fields[k].0@,
        forall|i: int| k < i < fields.len() ==> (#[trigger] fields[i]).0@ != fields[k].0@,
    ensures
        fields_view(fields.update(k, entry)) == fields_view(fields).insert(
            entry.0@,
            json_view(entry.1),
        ),
    decreases fields.len(),
{
    let changed = fields.update(k, entry);
    if k == fields.len() - 1 {
        assert(changed.drop_last() =~= fields.drop_last());
        assert(fields_view(changed) =~= fields_view(fields).insert(entry.0@, json_view(entry.1)));
    } else {
        assert(changed.drop_last() =~= fields.drop_last().update(k, entry));
        assert(fields.drop_last()[k] == fields[k]);
        assert(fields[fields.len() - 1].0@ != fields[k].0@);
        assert forall|i: int| k < i < fields.drop_last().len() implies (
        #[trigger] fields.drop_last()[i]).0@ != fields.drop_last()[k].0@ by {
            assert(fields.drop_last()[i] == fields[i]);
        }
        lemma_fields_update(fields.drop_last(), k, entry);
        assert(changed.last() == fields.last());
        assert(fields_view(changed) =~= fields_view(fields).insert(entry.0@, json_view(entry.1)));
    }
}

impl JsonObject {
    /// An object without fields.
    pub fn new() -> (r: JsonObject)
        ensures
            r@ == Map::<Seq<char>, JsonView>::empty(),
    {
        JsonObject { fields: Vec::new() }
    }

    /// The position of the last entry with the name `name`.
    fn position(&self, name: &str) -> (r: Option<usize>)
        ensures
            match r {
                Some(k) => k < self.fields@.len() && self.fields@[k as int].0@ == name@ && forall|
                    i: int,
                |
                    k < i < self.fields@.len() ==> (#[trigger] self.fields@[i]).0@ != name@,
                None => forall|i: int|
                    0 <= i < self.fields@.len() ==> (#[trigger] self.fields@[i]).0@ != name@,
            },
    {
        let mut k: usize = self.fields.len();
        while k > 0
            invariant
                k <= self.fields@.len(),
                forall|i: int| k <= i < self.fields@.len() ==> (#[trigger] self.fields@[i]).0@
                    != name@,
            decreases k,
        {
            k -= 1;
            if text_eq(self.fields[k].0.as_str(), name) {
                return Some(k);
            }
        }
        None
    }

    /// Sets the field `name` to `value`; a field that is already there changes its value.
    pub fn set(&mut self, name: &str, value: Json)
        ensures
            final(self)@ == old(self)@.insert(name@, value@),
    {
        match self.position(name) {
            Some(k) => {
                let entry = (name.to_string(), value);
                proof {
                    lemma_fields_update(self.fields@, k as int, entry);
                }
                self.fields.set(k, entry);
            },
            None => {
                let entry = (name.to_string(), value);
                let ghost before = self.fields@;
                self.fields.push(entry);
                assert(self.fields@.drop_last() =~= before);
            },
        }
    }

    /// Takes the field `name` away, where it is there.
    pub fn remove(&mut self, name: &str)
        ensures
            final(self)@ == old(self)@.remove(name@),
    {
        let mut entries: Vec<(String, Json)> = Vec::new();
        std::mem::swap(&mut entries, &mut self.fields);
        let ghost all = entries@;
        assert(all.take(0) =~= Seq::<(String, Json)>::empty());
        assert(fields_view(self.fields@) =~= fields_view(all.take(0)).remove(name@));
        for entry in it: entries
            invariant
                it.seq() == all,
                fields_view(self.fields@) == fields_view(all.take(it.index())).remove(name@),
        {
            let ghost before = self.fields@;
            assert(all.take(it.index() + 1).drop_last() =~= all.take(it.index()));
            if !text_eq(entry.0.as_str(), name) {
                self.fields.push(entry);
                assert(self.fields@.drop_last() =~= before);
            }
            assert(fields_view(self.fields@) =~= fields_view(all.take(it.index() + 1)).remove(
                name@,
            ));
        }
        assert(all.take(all.len() as int) =~= all);
    }

    /// The object with one more field set.
    pub fn with(self, name: &str, value: Json) -> (r: JsonObject)
        ensures
            r@ == self@.insert(name@, value@),
    {
        let mut o = self;
        o.set(name, value);
        o
    }

    /// The value of the field `name`.
    pub fn get(&self, name: &str) -> (r: Option<&Json>)
        ensures
            match r {
                Some(v) => self@.dom().contains(name@) && self@[name@] == v@,
                None => !self@.dom().contains(name@),
            },
    {
        match self.position(name) {
            Some(k) => {
                proof {
                    lemma_fields_last(self.fields@, k as int);
                }
                Some(&self.fields[k].1)
            },
            None => {
                proof {
                    lemma_fields_absent(self.fields@, name@);
                }
                None
            },
        }
    }

    /// Whether the object has no field.
    pub fn is_empty(&self) -> (r: bool)
        ensures
            r == (self@ == Map::<Seq<char>, JsonView>::empty()),
    {
        proof {
            if self.fields@.len() > 0 {
                assert(self@.dom().contains(self.fields@.last().0@));
            }
        }
        self.fields.len() == 0
    }
}

impl Json {
    /// The text `s` as a JSON value.
    pub fn text(s: &str) -> (r: Json)
        ensures
            r@ == JsonView::Text(s@),
    {
        Json::Text(s.to_string())
    }

    /// An object without fields as a JSON value.
    pub fn empty_object() -> (r: Json)
        ensures
            r@ == empty_object(),
    {
        Json::Object(JsonObject::new())
    }

    /// The value of the field `name`; `None` where this is no object or has no such field.
    pub fn get(&self, name: &str) -> (r: Option<&Json>)
        ensures
            match r {
                Some(v) => field(self@, name@) == Some(v@),
                None => field(self@, name@) is None,
            },
    {
        match self {
            Json::Object(o) => o.get(name),
            _ => None,
        }
    }

    /// The text that this value holds, where it is a text.
    pub fn as_str(&self) -> (r: Option<&str>)
        ensures
            match r {
                Some(s) => self@ == JsonView::Text(s@),
                None => !(self@ is Text),
            },
    {
        match self {
            Json::Text(s) => Some(s.as_str()),
            _ => None,
        }
    }

    /// The truth value that this value holds, where it is one.
    pub fn as_bool(&self) -> (r: Option<bool>)
        ensures
            match r {
                Some(b) => self@ == JsonView::Bool(b),
                None => !(self@ is Bool),
            },
    {
        match self {
            Json::Bool(b) => Some(*b),
            _ => None,
        }
    }

    /// The text of the field `name`, where this is an object that has it and it holds a text.
    pub fn get_str(&self, name: &str) -> (r: Option<&str>)
        ensures
            match r {
                Some(s) => text_field(self@, name@) == Some(s@),
                None => text_field(self@, name@) is None,
            },
    {
        match self.get(name) {
            Some(v) => v.as_str(),
            None => None,
        }
    }

    /// A copy of this value.
    pub fn duplicate(&self) -> (r: Json)
        ensures
            r@ == self@,
        decreases self,
    {
        match self {
            Json::Null => Json::Null,
            Json::Bool(b) => Json::Bool(*b),
            Json::Number(n) => Json::Number(n.clone()),
            Json::Text(s) => Json::Text(s.clone()),
            Json::Array(items) => {
                let mut out: Vec<Json> = Vec::new();
                let mut i: usize = 0;
                while i < items.len()
                    invariant
                        i <= items@.len(),
                        out@.len() == i,
                        *self == Json::Array(*items),
                        forall|j: int| 0 <= j < i ==> json_view(#[trigger] out@[j]) == json_view(
                            items@[j],
                        ),
                    decreases items@.len() - i,
                {
                    proof {
                        assert(decreases_to!(*self => self->Array_0));
                        assert(decreases_to!(self->Array_0 => items@));
                        assert(decreases_to!(items@ => items@[i as int]));
                    }
                    out.push(items[i].duplicate());
                    i += 1;
                }
                proof {
                    lemma_array_view(out);
                    lemma_array_view(*items);
                    assert(items_view(out@) =~= items_view(items@));
                }
                Json::Array(out)
            },
            Json::Object(o) => {
                let mut out: Vec<(String, Json)> = Vec::new();
                let mut i: usize = 0;
                assert(o.fields@.take(0) =~= Seq::<(String, Json)>::empty());
                while i < o.fields.len()
                    invariant
                        i <= o.fields@.len(),
                        *self == Json::Object(*o),
                        fields_view(out@) == fields_view(o.fields@.take(i as int)),
                    decreases o.fields@.len() - i,
                {
                    let ghost before = out@;
                    proof {
                        assert(decreases_to!(*self => self->Object_0));
                        assert(decreases_to!(self->Object_0 => o.fields));
                        assert(decreases_to!(o.fields => o.fields@));
                        assert(decreases_to!(o.fields@ => o.fields@[i as int]));
                        assert(decreases_to!(o.fields@[i as int] => o.fields@[i as int].1));
                    }
                    out.push((o.fields[i].0.clone(), o.fields[i].1.duplicate()));
                    proof {
                        assert(out@.drop_last() =~= before);
                        assert(o.fields@.take(i + 1).drop_last() =~= o.fields@.take(i as int));
                    }
                    i += 1;
                }
                assert(o.fields@.take(o.fields@.len() as int) =~= o.fields@);
                Json::Object(JsonObject { fields: out })
            },
        }
    }
}

} // verus!

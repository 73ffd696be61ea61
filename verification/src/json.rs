//! A JSON value as the transcript logic reads it. Numbers keep their textual
//! form; objects keep their fields in order, each key once.
use vstd::prelude::*;

use crate::text::str_eq;

verus! {

broadcast use vstd::string::group_string_axioms;

/// A JSON document.
#[derive(Debug)]
pub enum Json {
    Null,
    Bool(bool),
    Number(String),
    Str(String),
    Array(Vec<Json>),
    Object(Vec<(String, Json)>),
}

/// A JSON document as a mathematical value: what a `Json` holds, with its
/// strings taken as character sequences.
pub enum JsonView {
    Null,
    Bool(bool),
    Number(Seq<char>),
    Str(Seq<char>),
    Array(Seq<JsonView>),
    Object(Seq<(Seq<char>, JsonView)>),
}

/// The mathematical value of a document.
pub open spec fn json_view(j: Json) -> JsonView
    decreases j, 1int,
{
    match j {
        Json::Null => JsonView::Null,
        Json::Bool(b) => JsonView::Bool(b),
        Json::Number(t) => JsonView::Number(t@),
        Json::Str(t) => JsonView::Str(t@),
        Json::Array(items) => JsonView::Array(items_view(items@)),
        Json::Object(fields) => JsonView::Object(fields_view(fields@)),
    }
}

/// The values of the items of an array, in order.
pub open spec fn items_view(items: Seq<Json>) -> Seq<JsonView>
    decreases items, 0int,
{
    if items.len() == 0 {
        Seq::empty()
    } else {
        items_view(items.drop_last()).push(json_view(items.last()))
    }
}

/// The keys and values of the fields of an object, in order.
pub open spec fn fields_view(fields: Seq<(String, Json)>) -> Seq<(Seq<char>, JsonView)>
    decreases fields, 0int,
{
    if fields.len() == 0 {
        Seq::empty()
    } else {
        fields_view(fields.drop_last()).push((fields.last().0@, json_view(fields.last().1)))
    }
}

impl View for Json {
    type V = JsonView;

    open spec fn view(&self) -> JsonView {
        json_view(*self)
    }
}

/// The view of an optional document.
pub open spec fn opt_view(o: Option<Json>) -> Option<JsonView> {
    match o {
        Some(j) => Some(j@),
        None => None,
    }
}

/// Item by item, the view of an array is the view of its items.
pub proof fn lemma_items_view(items: Seq<Json>)
    ensures
        items_view(items).len() == items.len(),
        forall|i: int| 0 <= i < items.len() ==> #[trigger] items_view(items)[i] == json_view(items[i]),
    decreases items.len(),
{
    if items.len() > 0 {
        lemma_items_view(items.drop_last());
        assert forall|i: int| 0 <= i < items.len() implies #[trigger] items_view(items)[i] == json_view(items[i]) by {
            if i < items.len() - 1 {
                assert(items.drop_last()[i] == items[i]);
            }
        }
    }
}

/// Field by field, the view of an object is the key and view of its fields.
pub proof fn lemma_fields_view(fields: Seq<(String, Json)>)
    ensures
        fields_view(fields).len() == fields.len(),
        forall|i: int| 0 <= i < fields.len() ==> #[trigger] fields_view(fields)[i] == (fields[i].0@, json_view(fields[i].1)),
    decreases fields.len(),
{
    if fields.len() > 0 {
        lemma_fields_view(fields.drop_last());
        assert forall|i: int| 0 <= i < fields.len() implies #[trigger] fields_view(fields)[i] == (fields[i].0@, json_view(fields[i].1)) by {
            if i < fields.len() - 1 {
                assert(fields.drop_last()[i] == fields[i]);
            }
        }
    }
}

/// The index of the first field named `key` among the fields of an object
/// value, if any.
pub open spec fn key_index(fields: Seq<(Seq<char>, JsonView)>, key: Seq<char>) -> Option<int>
    decreases fields.len(),
{
    if fields.len() == 0 {
        None
    } else if fields[0].0 == key {
        Some(0)
    } else {
        match key_index(fields.drop_first(), key) {
            Some(i) => Some(i + 1),
            None => None,
        }
    }
}

/// `key_index` finds the first field with the key, and none when no field has it.
pub proof fn lemma_key_index(fields: Seq<(Seq<char>, JsonView)>, key: Seq<char>)
    ensures
        match key_index(fields, key) {
            Some(i) => 0 <= i < fields.len() && fields[i].0 == key && forall|j: int|
                0 <= j < i ==> fields[j].0 != key,
            None => forall|j: int| 0 <= j < fields.len() ==> fields[j].0 != key,
        },
    decreases fields.len(),
{
    if fields.len() > 0 {
        lemma_key_index(fields.drop_first(), key);
        if fields[0].0 != key {
            assert forall|j: int| 0 < j < fields.len() implies fields[j].0 == fields.drop_first()[j
                - 1].0 by {}
        }
    }
}

impl JsonView {
    /// `v[key]` for an object value; `None` for a missing key or a non-object.
    pub open spec fn get(self, key: Seq<char>) -> Option<JsonView> {
        match self {
            JsonView::Object(fields) => match key_index(fields, key) {
                Some(i) => Some(fields[i].1),
                None => None,
            },
            _ => None,
        }
    }

    /// `v[key]` when it is a string.
    pub open spec fn get_text(self, key: Seq<char>) -> Option<Seq<char>> {
        match self.get(key) {
            Some(JsonView::Str(t)) => Some(t),
            _ => None,
        }
    }

    /// The value with its existing field `key` set to `value`: an object that
    /// holds the key has the first such field's value replaced; anything else
    /// is unchanged.
    pub open spec fn with_field(self, key: Seq<char>, value: JsonView) -> JsonView {
        match self {
            JsonView::Object(fields) => match key_index(fields, key) {
                Some(i) => JsonView::Object(fields.update(i, (key, value))),
                None => self,
            },
            _ => self,
        }
    }
}

/// Finding a key among an object's fields finds it at the same place in
/// the object's view.
pub proof fn lemma_index_view(fields: Seq<(String, Json)>, key: Seq<char>)
    ensures
        key_index(fields_view(fields), key) == field_index(fields, key),
{
    lemma_fields_view(fields);
    lemma_field_index(fields, key);
    lemma_key_index(fields_view(fields), key);
    let fv = fields_view(fields);
    match field_index(fields, key) {
        Some(i) => {
            assert(fv[i].0 == key);
            match key_index(fv, key) {
                Some(k) => {
                    if k < i {
                        assert(fv[k].0 == fields[k].0@);
                    } else if i < k {
                        assert(fv[i].0 == fields[i].0@);
                    }
                },
                None => {
                    assert(fv[i].0 == fields[i].0@);
                },
            }
        },
        None => {
            match key_index(fv, key) {
                Some(k) => {
                    assert(fv[k].0 == fields[k].0@);
                },
                None => {},
            }
        },
    }
}

/// A lookup in a document's view gives the view of the lookup.
pub proof fn lemma_lookup_view(j: Json, key: Seq<char>)
    ensures
        j@.get(key) == opt_view(j.lookup(key)),
        j@.get_text(key) == j.str_field(key),
{
    match j {
        Json::Object(fields) => {
            lemma_index_view(fields@, key);
            lemma_fields_view(fields@);
            lemma_field_index(fields@, key);
        },
        _ => {},
    }
}

/// The value of the first field named `key`, if any.
pub open spec fn field_of(fields: Seq<(String, Json)>, key: Seq<char>) -> Option<Json>
    decreases fields.len(),
{
    if fields.len() == 0 {
        None
    } else if fields[0].0@ == key {
        Some(fields[0].1)
    } else {
        field_of(fields.drop_first(), key)
    }
}

/// The index of the first field named `key`, if any.
pub open spec fn field_index(fields: Seq<(String, Json)>, key: Seq<char>) -> Option<int>
    decreases fields.len(),
{
    if fields.len() == 0 {
        None
    } else if fields[0].0@ == key {
        Some(0)
    } else {
        match field_index(fields.drop_first(), key) {
            Some(i) => Some(i + 1),
            None => None,
        }
    }
}

impl Json {
    /// `v[key]` for an object; `None` for a missing key or a non-object.
    pub open spec fn lookup(self, key: Seq<char>) -> Option<Json> {
        match self {
            Json::Object(fields) => field_of(fields@, key),
            _ => None,
        }
    }

    /// The text of a JSON string.
    pub open spec fn str_value(self) -> Option<Seq<char>> {
        match self {
            Json::Str(s) => Some(s@),
            _ => None,
        }
    }

    /// `v[key]` when it is a string.
    pub open spec fn str_field(self, key: Seq<char>) -> Option<Seq<char>> {
        match self.lookup(key) {
            Some(v) => v.str_value(),
            None => None,
        }
    }

    /// `v[key]` when it is a boolean.
    pub open spec fn bool_field(self, key: Seq<char>) -> Option<bool> {
        match self.lookup(key) {
            Some(Json::Bool(b)) => Some(b),
            _ => None,
        }
    }

    /// Whether `v` is an object holding a field named `key`.
    pub open spec fn has_field(self, key: Seq<char>) -> bool {
        self.lookup(key) is Some
    }

    /// Looks up a field of an object.
    pub fn get<'a>(&'a self, key: &str) -> (r: Option<&'a Json>)
        ensures
            match r {
                Some(v) => self.lookup(key@) == Some(*v),
                None => self.lookup(key@) is None,
            },
    {
        match self {
            Json::Object(fields) => {
                let mut i: usize = 0;
                assert(fields@.skip(0) =~= fields@);
                while i < fields.len()
                    invariant
                        i <= fields@.len(),
                        self.lookup(key@) == field_of(fields@, key@),
                        field_of(fields@, key@) == field_of(fields@.skip(i as int), key@),
                    decreases fields@.len() - i,
                {
                    assert(fields@.skip(i as int).drop_first() =~= fields@.skip(i + 1));
                    if str_eq(fields[i].0.as_str(), key) {
                        assert(fields@.skip(i as int)[0] == fields@[i as int]);
                        return Some(&fields[i].1);
                    }
                    i = i + 1;
                }
                None
            },
            _ => None,
        }
    }

    /// The text of a string value.
    pub fn as_str<'a>(&'a self) -> (r: Option<&'a String>)
        ensures
            match r {
                Some(s) => self.str_value() == Some(s@),
                None => self.str_value() is None,
            },
    {
        match self {
            Json::Str(s) => Some(s),
            _ => None,
        }
    }

    /// The value of a boolean.
    pub fn as_bool(&self) -> (r: Option<bool>)
        ensures
            r == (match *self {
                Json::Bool(b) => Some(b),
                _ => None,
            }),
    {
        match self {
            Json::Bool(b) => Some(*b),
            _ => None,
        }
    }

    /// The items of an array.
    pub fn as_array<'a>(&'a self) -> (r: Option<&'a Vec<Json>>)
        ensures
            match r {
                Some(items) => *self == Json::Array(*items),
                None => !(*self is Array),
            },
    {
        match self {
            Json::Array(items) => Some(items),
            _ => None,
        }
    }

    /// `v[key]` when it is a string.
    pub fn get_str<'a>(&'a self, key: &str) -> (r: Option<&'a String>)
        ensures
            match r {
                Some(s) => self.str_field(key@) == Some(s@),
                None => self.str_field(key@) is None,
            },
    {
        match self.get(key) {
            Some(v) => v.as_str(),
            None => None,
        }
    }
}

/// `fields` with the value of field `i` replaced by `value`.
pub open spec fn replace_value(fields: Seq<(String, Json)>, i: int, value: Json) -> Seq<
    (String, Json),
> {
    fields.update(i, (fields[i].0, value))
}

/// `after` is `before` with its existing field `key` set to `value`: an object
/// that holds the key has that field's value replaced and keeps every other
/// field in place; any other value is left as it is.
pub open spec fn field_set(before: Json, after: Json, key: Seq<char>, value: Json) -> bool {
    match before {
        Json::Object(fields) => match field_index(fields@, key) {
            Some(i) => match after {
                Json::Object(g) => g@ == replace_value(fields@, i, value),
                _ => false,
            },
            None => match after {
                Json::Object(g) => g@ == fields@,
                _ => false,
            },
        },
        _ => after == before,
    }
}

/// The index `field_index` finds holds the key, and no earlier field does;
/// when it finds none, no field holds the key.
pub proof fn lemma_field_index(fields: Seq<(String, Json)>, key: Seq<char>)
    ensures
        match field_index(fields, key) {
            Some(i) => 0 <= i < fields.len() && fields[i].0@ == key && field_of(fields, key) == Some(
                fields[i].1,
            ) && forall|j: int| 0 <= j < i ==> fields[j].0@ != key,
            None => field_of(fields, key) is None && forall|j: int|
                0 <= j < fields.len() ==> fields[j].0@ != key,
        },
    decreases fields.len(),
{
    if fields.len() > 0 {
        lemma_field_index(fields.drop_first(), key);
        if fields[0].0@ != key {
            assert forall|j: int| 0 < j < fields.len() implies fields[j].0@ == fields.drop_first()[j
                - 1].0@ by {}
        }
    }
}

impl Json {
    /// Sets an existing field of an object (`v[key] = value` guarded by
    /// `v.get(key).is_some()`); any other value comes back unchanged.
    pub fn with_existing_field(self, key: &str, value: Json) -> (r: Json)
        ensures
            field_set(self, r, key@, value),
            r@ == self@.with_field(key@, value@),
    {
        match self {
            Json::Object(mut fields) => {
                let ghost f0 = fields@;
                proof {
                    lemma_field_index(f0, key@);
                }
                let mut i: usize = 0;
                while i < fields.len()
                    invariant
                        fields@ == f0,
                        match self {
                            Json::Object(g) => g@ == f0,
                            _ => false,
                        },
                        i <= f0.len(),
                        forall|j: int| 0 <= j < i ==> f0[j].0@ != key@,
                        match field_index(f0, key@) {
                            Some(k) => 0 <= k < f0.len() && f0[k].0@ == key@ && forall|j: int|
                                0 <= j < k ==> f0[j].0@ != key@,
                            None => forall|j: int| 0 <= j < f0.len() ==> f0[j].0@ != key@,
                        },
                    decreases f0.len() - i,
                {
                    if str_eq(fields[i].0.as_str(), key) {
                        let name = fields[i].0.clone();
                        fields.set(i, (name, value));
                        assert(field_index(f0, key@) == Some(i as int));
                        assert(fields@ =~= replace_value(f0, i as int, value));
                        proof {
                            lemma_index_view(f0, key@);
                            lemma_fields_view(f0);
                            lemma_fields_view(fields@);
                            assert(fields_view(fields@) =~= fields_view(f0).update(
                                i as int,
                                (key@, json_view(value)),
                            ));
                        }
                        return Json::Object(fields);
                    }
                    i = i + 1;
                }
                assert(field_index(f0, key@) is None);
                proof {
                    lemma_index_view(f0, key@);
                }
                Json::Object(fields)
            },
            other => other,
        }
    }
}

/// Replacing the value of the first field named `key` changes what a lookup of
/// `key` gives and nothing else.
pub proof fn lemma_replace_lookup(
    fields: Seq<(String, Json)>,
    key: Seq<char>,
    value: Json,
    other: Seq<char>,
)
    requires
        field_index(fields, key) is Some,
    ensures
        field_of(replace_value(fields, field_index(fields, key).unwrap(), value), other) == if other
            == key {
            Some(value)
        } else {
            field_of(fields, other)
        },
    decreases fields.len(),
{
    let i = field_index(fields, key).unwrap();
    let g = replace_value(fields, i, value);
    lemma_field_index(fields, key);
    if i == 0 {
        assert(g[0].0@ == key);
        assert(g.drop_first() =~= fields.drop_first());
    } else {
        assert(fields[0].0@ != key);
        let rest = fields.drop_first();
        assert(field_index(rest, key) == Some(i - 1));
        lemma_replace_lookup(rest, key, value, other);
        assert(g.drop_first() =~= replace_value(rest, i - 1, value));
        assert(g[0] == fields[0]);
    }
}

/// Setting an existing field changes what a lookup of that key gives and
/// nothing else: every other key looks up as before, and a missing key stays
/// missing.
pub proof fn lemma_field_set_lookup(
    before: Json,
    after: Json,
    key: Seq<char>,
    value: Json,
    other: Seq<char>,
)
    requires
        field_set(before, after, key, value),
    ensures
        after.lookup(other) == if other == key && before.has_field(key) {
            Some(value)
        } else {
            before.lookup(other)
        },
{
    match before {
        Json::Object(fields) => {
            lemma_field_index(fields@, key);
            if field_index(fields@, key) is Some {
                lemma_replace_lookup(fields@, key, value, other);
            }
        },
        _ => {},
    }
}

} // verus!

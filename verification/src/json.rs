//! A JSON document model, the event name a message carries, and lookups.
use vstd::prelude::*;

verus! {

broadcast use {vstd::std_specs::vec::group_vec_axioms, vstd::string::group_string_axioms};

/// A JSON value. Numbers keep their textual form.
#[derive(Debug)]
pub enum JsonValue {
    Null,
    Bool(bool),
    Number(String),
    Str(String),
    Array(Vec<JsonValue>),
    Object(Vec<(String, JsonValue)>),
}

/// The mathematical model of a JSON value.
pub enum Json {
    Null,
    Bool(bool),
    Number(Seq<char>),
    Str(Seq<char>),
    Array(Seq<Json>),
    Object(Seq<(Seq<char>, Json)>),
}

impl View for JsonValue {
    type V = Json;

    open spec fn view(&self) -> Json
        decreases self,
    {
        match self {
            JsonValue::Null => Json::Null,
            JsonValue::Bool(b) => Json::Bool(*b),
            JsonValue::Number(n) => Json::Number(n@),
            JsonValue::Str(s) => Json::Str(s@),
            JsonValue::Array(items) => Json::Array(
                Seq::new(
                    items.len() as nat,
                    |i: int|
                        if 0 <= i < items.len() {
                            items[i].view()
                        } else {
                            Json::Null
                        },
                ),
            ),
            JsonValue::Object(fields) => Json::Object(
                Seq::new(
                    fields.len() as nat,
                    |i: int|
                        (
                            fields[i].0@,
                            if 0 <= i < fields.len() {
                                fields[i].1.view()
                            } else {
                                Json::Null
                            },
                        ),
                ),
            ),
        }
    }
}


/// The model of an object's members.
pub open spec fn fields_view(fields: Seq<(String, JsonValue)>) -> Seq<(Seq<char>, Json)> {
    fields.map_values(|f: (String, JsonValue)| (f.0@, f.1@))
}

/// The member named `key` of an object's fields: the first one, as a map
/// lookup finds it when the names are distinct.
pub open spec fn json_field(fields: Seq<(Seq<char>, Json)>, key: Seq<char>) -> Option<Json>
    decreases fields.len(),
{
    if fields.len() == 0 {
        None
    } else if fields[0].0 == key {
        Some(fields[0].1)
    } else {
        json_field(fields.drop_first(), key)
    }
}

/// What indexing a value by a member name gives: the member of an object,
/// nothing for any other value.
pub open spec fn json_get(v: Json, key: Seq<char>) -> Option<Json> {
    match v {
        Json::Object(fields) => json_field(fields, key),
        _ => None,
    }
}

/// The name of the member that carries a message's event.
pub open spec fn event_key() -> Seq<char> {
    seq!['e', 'v', 'e', 'n', 't']
}

/// The event a JSON value names: the string member `event` of an object.
pub open spec fn json_event(v: Json) -> Option<Seq<char>> {
    match json_get(v, event_key()) {
        Some(Json::Str(s)) => Some(s),
        _ => None,
    }
}

/// The characters of an optional string slice.
pub open spec fn opt_str_view(o: Option<&str>) -> Option<Seq<char>> {
    match o {
        Some(s) => Some(s@),
        None => None,
    }
}

/// The model of an optional JSON value.
pub open spec fn opt_json_view(o: Option<&JsonValue>) -> Option<Json> {
    match o {
        Some(v) => Some(v@),
        None => None,
    }
}

/// The lookup finds the first member with the name, and nothing when no
/// member has it.
pub proof fn lemma_json_field_first(fields: Seq<(Seq<char>, Json)>, key: Seq<char>, i: int)
    requires
        0 <= i <= fields.len(),
        forall|j: int| 0 <= j < i ==> fields[j].0 != key,
    ensures
        i < fields.len() && fields[i].0 == key ==> json_field(fields, key) == Some(fields[i].1),
        i == fields.len() ==> json_field(fields, key) is None,
    decreases i,
{
    if i > 0 {
        let rest = fields.drop_first();
        assert forall|j: int| 0 <= j < i - 1 implies rest[j].0 != key by {
            assert(rest[j] == fields[j + 1]);
        }
        lemma_json_field_first(rest, key, i - 1);
    }
}

/// Copies the members of an object.
pub fn clone_fields(fields: &Vec<(String, JsonValue)>) -> (r: Vec<(String, JsonValue)>)
    ensures
        fields_view(r@) == fields_view(fields@),
{
    let mut out: Vec<(String, JsonValue)> = Vec::new();
    let mut i: usize = 0;
    while i < fields.len()
        invariant
            i <= fields.len(),
            fields_view(out@) =~= fields_view(fields@).take(i as int),
        decreases fields.len() - i,
    {
        let k = fields[i].0.clone();
        let v = fields[i].1.clone();
        let ghost before = out@;
        out.push((k, v));
        assert(fields_view(out@) =~= fields_view(before).push((k@, v@)));
        assert(fields_view(fields@).take(i + 1) =~= fields_view(fields@).take(i as int).push(
            (k@, v@),
        ));
        i = i + 1;
    }
    assert(fields_view(fields@).take(i as int) =~= fields_view(fields@));
    out
}

impl JsonValue {
    /// The member `key` of an object, as `serde_json::Value::get` with a
    /// string index gives it; nothing for a value that is not an object.
    pub fn get(&self, key: &String) -> (r: Option<&JsonValue>)
        ensures
            opt_json_view(r) == json_get(self@, key@),
    {
        match self {
            JsonValue::Object(fields) => {
                let ghost model = self@->Object_0;
                assert(model.len() == fields.len());
                let mut i: usize = 0;
                while i < fields.len()
                    invariant
                        i <= fields.len(),
                        model == self@->Object_0,
                        *self == JsonValue::Object(*fields),
                        model.len() == fields.len(),
                        forall|j: int| 0 <= j < i ==> model[j].0 != key@,
                    decreases fields.len() - i,
                {
                    assert(model[i as int] == (fields[i as int].0@, fields[i as int].1@));
                    if fields[i].0 == *key {
                        proof {
                            lemma_json_field_first(model, key@, i as int);
                        }
                        return Some(&fields[i].1);
                    }
                    i = i + 1;
                }
                proof {
                    lemma_json_field_first(model, key@, i as int);
                }
                None
            },
            _ => None,
        }
    }
}

impl Clone for JsonValue {
    /// A deep copy: the copy has the same model.
    fn clone(&self) -> (r: Self)
        ensures
            r@ == self@,
        decreases self,
    {
        match self {
            JsonValue::Null => JsonValue::Null,
            JsonValue::Bool(b) => JsonValue::Bool(*b),
            JsonValue::Number(n) => JsonValue::Number(n.clone()),
            JsonValue::Str(s) => JsonValue::Str(s.clone()),
            JsonValue::Array(items) => {
                let mut out: Vec<JsonValue> = Vec::new();
                let mut i: usize = 0;
                while i < items.len()
                    invariant
                        i <= items.len(),
                        out.len() == i,
                        *self == JsonValue::Array(*items),
                        forall|j: int| 0 <= j < i ==> #[trigger] out[j]@ == items[j]@,
                    decreases items.len() - i,
                {
                    proof {
                        assert(decreases_to!(*self => self->Array_0));
                        assert(decreases_to!(*items => items[i as int]));
                    }
                    let c = items[i].clone();
                    out.push(c);
                    i = i + 1;
                }
                let r = JsonValue::Array(out);
                assert(r@->Array_0.len() == self@->Array_0.len());
                assert forall|j: int| 0 <= j < out.len() implies r@->Array_0[j] == self@->Array_0[j] by {
                    assert(out[j]@ == items[j]@);
                }
                assert(r@->Array_0 =~= self@->Array_0);
                r
            },
            JsonValue::Object(fields) => {
                let mut out: Vec<(String, JsonValue)> = Vec::new();
                let mut i: usize = 0;
                while i < fields.len()
                    invariant
                        i <= fields.len(),
                        out.len() == i,
                        *self == JsonValue::Object(*fields),
                        forall|j: int|
                            0 <= j < i ==> #[trigger] out[j].0@ == fields[j].0@ && out[j].1@
                                == fields[j].1@,
                    decreases fields.len() - i,
                {
                    proof {
                        assert(decreases_to!(*self => self->Object_0));
                        assert(decreases_to!(*fields => fields[i as int]));
                        assert(decreases_to!(fields[i as int] => fields[i as int].1));
                    }
                    let k = fields[i].0.clone();
                    let v = fields[i].1.clone();
                    out.push((k, v));
                    i = i + 1;
                }
                let r = JsonValue::Object(out);
                assert(r@->Object_0 =~= self@->Object_0);
                r
            },
        }
    }
}

/// Values that may name an event.
pub trait Event {
    /// The event this value names, if any.
    spec fn event_name(&self) -> Option<Seq<char>>;

    /// The event this value names, if any.
    fn event(&self) -> (r: Option<&str>)
        ensures
            opt_str_view(r) == self.event_name(),
    ;
}

impl Event for JsonValue {
    open spec fn event_name(&self) -> Option<Seq<char>> {
        json_event(self@)
    }

    fn event(&self) -> (r: Option<&str>) {
        proof {
            reveal_strlit("event");
        }
        let key = "event".to_string();
        assert(key@ == event_key());
        match self.get(&key) {
            Some(JsonValue::Str(s)) => Some(s.as_str()),
            _ => None,
        }
    }
}

} // verus!

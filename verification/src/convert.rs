//! Turning an event into its JSON object and a JSON object into an event.
//!
//! An event becomes a JSON object with one entry per context attribute and
//! per extension, and a `data` entry. A JSON object becomes an event by
//! taking the context attributes out of it; what is left becomes the
//! extensions.

use vstd::prelude::*;
use vstd::utf8::{decode_utf8, valid_utf8};
use crate::encoding::{
    base64_encode, base64_standard, is_url_serialization, is_written_time, rfc3339_time,
    url_serialization, utf8_to_string, SchemaUrl, Time,
};
use crate::event::{
    SpecVersion,
    extensions_view, opt_time_view, opt_url_view, opt_view, Attributes, Data, DataView, EventView, ExtensionValue, ExtensionView,
    InternalEvent,
};
use crate::json::{
    json_as_str, json_from_bool, json_from_i64, json_from_map, json_from_string, json_map_get,
    json_as_bool, json_as_i64, json_into_object, json_map_into_entries, json_map_remove,
    json_map_insert, json_map_new, json_map_view, json_null, json_parse, json_text_value,
    json_value_view, JsonObject, JsonView,
};
use crate::text::{contains_str, has_infix};

verus! {

/// The context attributes that every event must have.
#[derive(Clone, Copy, Debug, PartialEq, Eq, Structural)]
pub enum RequiredAttribute {
    Id,
    Type,
    Source,
}

impl RequiredAttribute {
    /// The name of the attribute in an event's JSON form.
    pub open spec fn key(self) -> Seq<char> {
        match self {
            RequiredAttribute::Id => "id"@,
            RequiredAttribute::Type => "type"@,
            RequiredAttribute::Source => "source"@,
        }
    }

    /// The name of the attribute in an event's JSON form.
    pub fn name(&self) -> (r: &'static str)
        ensures
            r@ == self.key(),
    {
        match self {
            RequiredAttribute::Id => "id",
            RequiredAttribute::Type => "type",
            RequiredAttribute::Source => "source",
        }
    }
}

/// Why a conversion failed.
#[derive(Clone, Copy, Debug, PartialEq, Eq, Structural)]
pub enum ConvertError {
    /// The JSON value to read an event from is not an object.
    NotAnObject,
    /// The JSON object lacks a required attribute, or holds it as something
    /// other than a string.
    MissingRequiredAttribute(RequiredAttribute),
    /// Binary data declared as JSON is not UTF-8.
    InvalidUtf8,
    /// Binary data declared as JSON is not JSON text.
    InvalidJson,
}

// ---------------------------------------------------------------------------
// Event to JSON
// ---------------------------------------------------------------------------

/// `m` with `k` mapped to the string `v`, where there is one.
pub open spec fn insert_opt_str(
    m: Map<Seq<char>, JsonView>,
    k: Seq<char>,
    v: Option<Seq<char>>,
) -> Map<Seq<char>, JsonView> {
    match v {
        Some(s) => m.insert(k, JsonView::Str(s)),
        None => m,
    }
}

/// The context attributes of an event that are set, each under its name,
/// each as a JSON string: `specversion`, `id`, `type`, `source`, and where
/// set `datacontenttype`, the data schema (`dataschema`, or `schemaurl` in
/// version 0.3), `subject` and `time`.
pub open spec fn attributes_json(e: EventView) -> Map<Seq<char>, JsonView> {
    let m = Map::empty().insert("specversion"@, JsonView::Str(e.spec_version.text())).insert(
        "id"@,
        JsonView::Str(e.id),
    ).insert("type"@, JsonView::Str(e.ty)).insert("source"@, JsonView::Str(e.source));
    let m = insert_opt_str(m, "datacontenttype"@, e.datacontenttype);
    let m = insert_opt_str(m, e.spec_version.schema_key(), e.dataschema);
    let m = insert_opt_str(m, "subject"@, e.subject);
    insert_opt_str(m, "time"@, e.time)
}

/// The JSON form of an extension value.
pub open spec fn extension_json(x: ExtensionView) -> JsonView {
    match x {
        ExtensionView::Str(s) => JsonView::Str(s),
        ExtensionView::Boolean(b) => JsonView::Bool(b),
        ExtensionView::Integer(i) => JsonView::from_i64(i),
    }
}

/// The extensions of an event, each as its JSON form.
pub open spec fn extensions_json(x: Map<Seq<char>, ExtensionView>) -> Map<Seq<char>, JsonView> {
    Map::new(|k: Seq<char>| x.contains_key(k), |k: Seq<char>| extension_json(x[k]))
}

/// The entries of an event's JSON object other than `data`: its attributes,
/// then its extensions, an extension replacing an attribute of its name.
pub open spec fn context_json(e: EventView) -> Map<Seq<char>, JsonView> {
    attributes_json(e).union_prefer_right(extensions_json(e.extensions))
}

/// The context entries declare JSON content: `datacontenttype` is a string
/// that contains `json`.
pub open spec fn declares_json(m: Map<Seq<char>, JsonView>) -> bool {
    &&& m.contains_key("datacontenttype"@)
    &&& m["datacontenttype"@] matches JsonView::Str(s) && has_infix(s, "json"@)
}

/// The `data` entry of an event's JSON object: `null` without data, the
/// value of JSON data, the string of string data; binary data is read as
/// JSON text where the content is declared JSON, and is written in base64
/// otherwise.
pub open spec fn data_json(m: Map<Seq<char>, JsonView>, data: Option<DataView>) -> Result<
    JsonView,
    ConvertError,
> {
    match data {
        None => Ok(JsonView::Null),
        Some(DataView::Json(v)) => Ok(v),
        Some(DataView::Text(s)) => Ok(JsonView::Str(s)),
        Some(DataView::Binary(b)) => if declares_json(m) {
            if !valid_utf8(b) {
                Err(ConvertError::InvalidUtf8)
            } else {
                match json_text_value(decode_utf8(b)) {
                    Some(v) => Ok(v),
                    None => Err(ConvertError::InvalidJson),
                }
            }
        } else {
            Ok(JsonView::Str(base64_standard(b)))
        },
    }
}

/// The JSON object of an event, or why there is none.
pub open spec fn event_to_json(e: EventView) -> Result<JsonView, ConvertError> {
    let m = context_json(e);
    match data_json(m, e.data) {
        Ok(d) => Ok(JsonView::Object(m.insert("data"@, d))),
        Err(x) => Err(x),
    }
}

/// Set key `k` of `m` to the string `v`, where there is one.
fn insert_opt_string(m: &mut JsonObject, k: &str, v: Option<String>)
    ensures
        json_map_view(*final(m)) == insert_opt_str(json_map_view(*old(m)), k@, opt_view(v)),
{
    match v {
        Some(s) => {
            json_map_insert(m, k.to_owned(), json_from_string(s));
        },
        None => {},
    }
}

/// The text of an optional time.
fn time_text(t: Option<Time>) -> (r: Option<String>)
    ensures
        opt_view(r) == opt_time_view(t),
        t matches Some(x) ==> is_written_time(x.text()),
{
    match t {
        Some(t) => Some(t.as_str().to_owned()),
        None => None,
    }
}

/// The serialization of an optional URL.
fn url_text(u: Option<SchemaUrl>) -> (r: Option<String>)
    ensures
        opt_view(r) == opt_url_view(u),
        u matches Some(x) ==> is_url_serialization(x.text()),
{
    match u {
        Some(u) => Some(u.as_str().to_owned()),
        None => None,
    }
}

/// The JSON form of an extension value.
fn extension_to_json(x: &ExtensionValue) -> (r: serde_json::Value)
    ensures
        json_value_view(r) == extension_json(x@),
{
    match x {
        ExtensionValue::String(s) => json_from_string(s.clone()),
        ExtensionValue::Boolean(b) => json_from_bool(*b),
        ExtensionValue::Integer(i) => json_from_i64(*i),
    }
}

proof fn lemma_extensions_step(
    a: Map<Seq<char>, JsonView>,
    s: Seq<(String, ExtensionValue)>,
    i: int,
)
    requires
        0 <= i < s.len(),
    ensures
        a.union_prefer_right(extensions_json(extensions_view(s.take(i + 1)))) =~= a.union_prefer_right(
            extensions_json(extensions_view(s.take(i))),
        ).insert(s[i].0@, extension_json(s[i].1@)),
{
    assert(s.take(i + 1).drop_last() =~= s.take(i));
    assert(s.take(i + 1).last() == s[i]);
}

impl InternalEvent {
    /// The JSON object of the event: its context attributes and extensions,
    /// each under its name, and its data under `data`. Fails only where
    /// binary data declared as JSON is not UTF-8 JSON text. (The event is
    /// well formed, as every event is: its time and data schema are texts
    /// that chrono and the `url` crate write.)
    pub fn into_value(self) -> (r: Result<serde_json::Value, ConvertError>)
        ensures
            self@.well_formed(),
            r matches Ok(v) ==> event_to_json(self@) == Ok::<JsonView, ConvertError>(
                json_value_view(v),
            ),
            r matches Err(x) ==> event_to_json(self@) == Err::<JsonView, ConvertError>(x),
    {
        let ghost e = self@;
        let InternalEvent { spec_version, attributes, data, extensions } = self;
        let Attributes { id, ty, source, datacontenttype, dataschema, subject, time } = attributes;
        let schema_text = url_text(dataschema);
        let time_text = time_text(time);
        let mut root = json_map_new();
        json_map_insert(&mut root, "specversion".to_owned(), json_from_string(spec_version.as_str().to_owned()));
        json_map_insert(&mut root, "id".to_owned(), json_from_string(id));
        json_map_insert(&mut root, "type".to_owned(), json_from_string(ty));
        json_map_insert(&mut root, "source".to_owned(), json_from_string(source));
        insert_opt_string(&mut root, "datacontenttype", datacontenttype);
        insert_opt_string(&mut root, spec_version.schema_key_str(), schema_text);
        insert_opt_string(&mut root, "subject", subject);
        insert_opt_string(&mut root, "time", time_text);
        proof {
            assert(json_map_view(root) =~= attributes_json(e));
        }
        let n: usize = extensions.len();
        let mut i: usize = 0;
        while i < n
            invariant
                n == extensions.len(),
                i <= n,
                e.extensions == extensions_view(extensions@),
                json_map_view(root) == attributes_json(e).union_prefer_right(
                    extensions_json(extensions_view(extensions@.take(i as int))),
                ),
            decreases n - i,
        {
            proof {
                lemma_extensions_step(attributes_json(e), extensions@, i as int);
            }
            let name = extensions[i].0.clone();
            let value = extension_to_json(&extensions[i].1);
            json_map_insert(&mut root, name, value);
            i = i + 1;
        }
        proof {
            assert(extensions@.take(n as int) =~= extensions@);
            assert(json_map_view(root) == context_json(e));
        }
        let ghost m = json_map_view(root);
        let data_value = match data {
            None => json_null(),
            Some(Data::Json(v)) => v,
            Some(Data::String(s)) => json_from_string(s),
            Some(Data::Binary(bytes)) => {
                let json_declared = match json_map_get(&root, "datacontenttype") {
                    Some(v) => match json_as_str(v) {
                        Some(dct) => contains_str(dct, "json"),
                        None => false,
                    },
                    None => false,
                };
                assert(json_declared == declares_json(m));
                if json_declared {
                    let text = match utf8_to_string(bytes) {
                        Some(t) => t,
                        None => {
                            return Err(ConvertError::InvalidUtf8);
                        },
                    };
                    match json_parse(text.as_str()) {
                        Ok(v) => v,
                        Err(_) => {
                            return Err(ConvertError::InvalidJson);
                        },
                    }
                } else {
                    json_from_string(base64_encode(bytes.as_slice()))
                }
            },
        };
        json_map_insert(&mut root, "data".to_owned(), data_value);
        Ok(json_from_map(root))
    }
}

// ---------------------------------------------------------------------------
// JSON to event
// ---------------------------------------------------------------------------

/// The string under key `k` of `m`; `None` where there is no such key or its
/// value is not a string.
pub open spec fn str_at(m: Map<Seq<char>, JsonView>, k: Seq<char>) -> Option<Seq<char>> {
    if m.contains_key(k) {
        m[k].as_str()
    } else {
        None
    }
}

/// What is left of an event's JSON object once its context attributes and
/// its data are taken out (`specversion` stays).
pub open spec fn leftover_entries(m: Map<Seq<char>, JsonView>) -> Map<Seq<char>, JsonView> {
    m.remove("id"@).remove("type"@).remove("source"@).remove("subject"@).remove(
        "datacontenttype"@,
    ).remove("dataschema"@).remove("time"@).remove("data"@)
}

/// The extension value a JSON value becomes: booleans and strings as they
/// are, numbers where they are integers that fit an `i64`; any other value
/// becomes none.
pub open spec fn json_extension(v: JsonView) -> Option<ExtensionView> {
    match v {
        JsonView::Bool(b) => Some(ExtensionView::Boolean(b)),
        JsonView::Number(_) => match v.as_i64() {
            Some(i) => Some(ExtensionView::Integer(i)),
            None => None,
        },
        JsonView::Str(s) => Some(ExtensionView::Str(s)),
        _ => None,
    }
}

/// The extensions read from the leftover entries of a JSON object: each
/// entry whose value becomes an extension value.
pub open spec fn extensions_from_json(m: Map<Seq<char>, JsonView>) -> Map<
    Seq<char>,
    ExtensionView,
> {
    Map::new(
        |k: Seq<char>| m.contains_key(k) && json_extension(m[k]) is Some,
        |k: Seq<char>| json_extension(m[k])->0,
    )
}

/// The event read from a JSON object.
pub open spec fn event_of_object(m: Map<Seq<char>, JsonView>) -> EventView {
    EventView {
        spec_version: SpecVersion::V10,
        id: str_at(m, "id"@)->0,
        ty: str_at(m, "type"@)->0,
        source: str_at(m, "source"@)->0,
        datacontenttype: str_at(m, "datacontenttype"@),
        dataschema: match str_at(m, "dataschema"@) {
            Some(s) => url_serialization(s),
            None => None,
        },
        subject: str_at(m, "subject"@),
        time: match str_at(m, "time"@) {
            Some(s) => rfc3339_time(s),
            None => None,
        },
        data: if m.contains_key("data"@) && str_at(m, "datacontenttype"@) is Some {
            Some(DataView::Json(m["data"@]))
        } else {
            None
        },
        extensions: extensions_from_json(leftover_entries(m)),
    }
}

/// The event a JSON value stands for, or why there is none: the value must
/// be an object, with `id`, `type` and `source` strings (checked in that
/// order). The event follows version 1.0; a time, a data schema, a subject
/// and a data content type are read where they are strings (a time or a
/// schema that does not parse is dropped); `data` is kept, as JSON, only
/// together with a data content type; every other entry that is a boolean,
/// a string or an `i64` becomes an extension.
pub open spec fn json_to_event(j: JsonView) -> Result<EventView, ConvertError> {
    match j {
        JsonView::Object(m) => if str_at(m, "id"@) is None {
            Err(ConvertError::MissingRequiredAttribute(RequiredAttribute::Id))
        } else if str_at(m, "type"@) is None {
            Err(ConvertError::MissingRequiredAttribute(RequiredAttribute::Type))
        } else if str_at(m, "source"@) is None {
            Err(ConvertError::MissingRequiredAttribute(RequiredAttribute::Source))
        } else {
            Ok(event_of_object(m))
        },
        _ => Err(ConvertError::NotAnObject),
    }
}

/// Takes a required attribute out of an object: its string, or the error
/// that names it where it is missing or not a string. The key leaves the
/// object either way.
fn remove_required_string(value: &mut JsonObject, attribute: RequiredAttribute) -> (r: Result<
    String,
    ConvertError,
>)
    ensures
        json_map_view(*final(value)) == json_map_view(*old(value)).remove(attribute.key()),
        r matches Ok(s) ==> str_at(json_map_view(*old(value)), attribute.key()) == Some(s@),
        r matches Err(x) ==> str_at(json_map_view(*old(value)), attribute.key()) is None
            && x == ConvertError::MissingRequiredAttribute(attribute),
{
    match json_map_remove(value, attribute.name()) {
        Some(v) => match json_as_str(&v) {
            Some(s) => Ok(s.to_owned()),
            None => Err(ConvertError::MissingRequiredAttribute(attribute)),
        },
        None => Err(ConvertError::MissingRequiredAttribute(attribute)),
    }
}

/// Takes an optional attribute out of an object: its string, where it is
/// there as a string. The key leaves the object either way.
fn remove_optional_string(value: &mut JsonObject, attribute: &str) -> (r: Option<String>)
    ensures
        json_map_view(*final(value)) == json_map_view(*old(value)).remove(attribute@),
        opt_view(r) == str_at(json_map_view(*old(value)), attribute@),
{
    match json_map_remove(value, attribute) {
        Some(v) => match json_as_str(&v) {
            Some(s) => Some(s.to_owned()),
            None => None,
        },
        None => None,
    }
}

/// The extension value a JSON value becomes, if any.
fn extension_of_json(v: &serde_json::Value) -> (r: Option<ExtensionValue>)
    ensures
        match r {
            Some(x) => json_extension(json_value_view(*v)) == Some(x@),
            None => json_extension(json_value_view(*v)) is None,
        },
{
    if let Some(b) = json_as_bool(v) {
        Some(ExtensionValue::Boolean(b))
    } else if let Some(i) = json_as_i64(v) {
        Some(ExtensionValue::Integer(i))
    } else if let Some(s) = json_as_str(v) {
        Some(ExtensionValue::String(s.to_owned()))
    } else {
        None
    }
}

/// The names an event's JSON object gives its attributes and data are
/// distinct from one another.
pub proof fn lemma_keys_distinct()
    ensures
        "specversion"@ != "id"@,
        "specversion"@ != "type"@,
        "specversion"@ != "source"@,
        "specversion"@ != "datacontenttype"@,
        "specversion"@ != "dataschema"@,
        "specversion"@ != "subject"@,
        "specversion"@ != "time"@,
        "specversion"@ != "data"@,
        "schemaurl"@ != "id"@,
        "schemaurl"@ != "type"@,
        "schemaurl"@ != "source"@,
        "schemaurl"@ != "datacontenttype"@,
        "id"@ != "type"@,
        "id"@ != "source"@,
        "id"@ != "subject"@,
        "id"@ != "datacontenttype"@,
        "id"@ != "dataschema"@,
        "id"@ != "time"@,
        "id"@ != "data"@,
        "type"@ != "source"@,
        "type"@ != "subject"@,
        "type"@ != "datacontenttype"@,
        "type"@ != "dataschema"@,
        "type"@ != "time"@,
        "type"@ != "data"@,
        "source"@ != "subject"@,
        "source"@ != "datacontenttype"@,
        "source"@ != "dataschema"@,
        "source"@ != "time"@,
        "source"@ != "data"@,
        "subject"@ != "datacontenttype"@,
        "subject"@ != "dataschema"@,
        "subject"@ != "time"@,
        "subject"@ != "data"@,
        "datacontenttype"@ != "dataschema"@,
        "datacontenttype"@ != "time"@,
        "datacontenttype"@ != "data"@,
        "dataschema"@ != "time"@,
        "dataschema"@ != "data"@,
        "time"@ != "data"@,
{
    reveal_strlit("specversion");
    reveal_strlit("schemaurl");
    reveal_strlit("id");
    reveal_strlit("type");
    reveal_strlit("source");
    reveal_strlit("subject");
    reveal_strlit("datacontenttype");
    reveal_strlit("dataschema");
    reveal_strlit("time");
    reveal_strlit("data");
    assert("specversion"@.len() != "id"@.len());
    assert("specversion"@.len() != "type"@.len());
    assert("specversion"@.len() != "source"@.len());
    assert("specversion"@.len() != "datacontenttype"@.len());
    assert("specversion"@[0] != "dataschema"@[0]);
    assert("specversion"@.len() != "subject"@.len());
    assert("specversion"@.len() != "time"@.len());
    assert("specversion"@.len() != "data"@.len());
    assert("schemaurl"@.len() != "id"@.len());
    assert("schemaurl"@.len() != "type"@.len());
    assert("schemaurl"@.len() != "source"@.len());
    assert("schemaurl"@.len() != "datacontenttype"@.len());
    assert("id"@.len() != "type"@.len());
    assert("id"@.len() != "source"@.len());
    assert("id"@.len() != "subject"@.len());
    assert("id"@.len() != "datacontenttype"@.len());
    assert("id"@.len() != "dataschema"@.len());
    assert("id"@[0] != "time"@[0]);
    assert("id"@.len() != "data"@.len());
    assert("type"@.len() != "source"@.len());
    assert("type"@.len() != "subject"@.len());
    assert("type"@.len() != "datacontenttype"@.len());
    assert("type"@.len() != "dataschema"@.len());
    assert("type"@[1] != "time"@[1]);
    assert("type"@[0] != "data"@[0]);
    assert("source"@[0] != "subject"@[1]);
    assert("source"@.len() != "datacontenttype"@.len());
    assert("source"@.len() != "dataschema"@.len());
    assert("source"@.len() != "time"@.len());
    assert("source"@.len() != "data"@.len());
    assert("subject"@.len() != "datacontenttype"@.len());
    assert("subject"@.len() != "dataschema"@.len());
    assert("subject"@.len() != "time"@.len());
    assert("subject"@.len() != "data"@.len());
    assert("datacontenttype"@.len() != "dataschema"@.len());
    assert("datacontenttype"@.len() != "time"@.len());
    assert("datacontenttype"@.len() != "data"@.len());
    assert("dataschema"@.len() != "time"@.len());
    assert("dataschema"@.len() != "data"@.len());
    assert("time"@[0] != "data"@[0]);
}

impl InternalEvent {
    /// The event a JSON value stands for (see `json_to_event`).
    pub fn try_from_value(value: serde_json::Value) -> (r: Result<InternalEvent, ConvertError>)
        ensures
            r matches Ok(e) ==> json_to_event(json_value_view(value)) == Ok::<
                EventView,
                ConvertError,
            >(e@),
            r matches Ok(e) ==> e@.well_formed(),
            r matches Err(x) ==> json_to_event(json_value_view(value)) == Err::<
                EventView,
                ConvertError,
            >(x),
    {
        let mut obj = match json_into_object(value) {
            Some(m) => m,
            None => {
                return Err(ConvertError::NotAnObject);
            },
        };
        let ghost m = json_map_view(obj);
        proof {
            lemma_keys_distinct();
        }
        let id = remove_required_string(&mut obj, RequiredAttribute::Id)?;
        let ty = remove_required_string(&mut obj, RequiredAttribute::Type)?;
        let source = remove_required_string(&mut obj, RequiredAttribute::Source)?;
        let subject = remove_optional_string(&mut obj, "subject");
        let datacontenttype = remove_optional_string(&mut obj, "datacontenttype");
        let dataschema = match remove_optional_string(&mut obj, "dataschema") {
            Some(s) => SchemaUrl::read(s.as_str()),
            None => None,
        };
        let time = match remove_optional_string(&mut obj, "time") {
            Some(s) => Time::read(s.as_str()),
            None => None,
        };
        let data = match json_map_remove(&mut obj, "data") {
            Some(d) => if datacontenttype.is_some() {
                Some(Data::Json(d))
            } else {
                None
            },
            None => None,
        };
        let ghost rest = json_map_view(obj);
        assert(rest == leftover_entries(m));
        let entries = json_map_into_entries(obj);
        let mut extensions: Vec<(String, ExtensionValue)> = Vec::new();
        let n: usize = entries.len();
        let mut i: usize = 0;
        while i < n
            invariant
                n == entries.len(),
                i <= n,
                forall|a: int, b: int| 0 <= a < b < entries.len() ==> entries[a].0@ != entries[b].0@,
                forall|a: int|
                    0 <= a < entries.len() ==> #[trigger] rest.contains_key(entries[a].0@)
                        && rest[entries[a].0@] == json_value_view(entries[a].1),
                forall|k: Seq<char>|
                    #[trigger] extensions_view(extensions@).contains_key(k) ==> rest.contains_key(k)
                        && json_extension(rest[k]) == Some(extensions_view(extensions@)[k]),
                forall|a: int|
                    0 <= a < i && json_extension(rest[#[trigger] entries[a].0@]) is Some
                        ==> extensions_view(extensions@).contains_key(entries[a].0@),
            decreases n - i,
        {
            assert(rest.contains_key(entries[i as int].0@));
            match extension_of_json(&entries[i].1) {
                Some(x) => {
                    let ghost before = extensions@;
                    let ghost xv = x@;
                    let name = entries[i].0.clone();
                    extensions.push((name, x));
                    proof {
                        assert(extensions@.drop_last() =~= before);
                        assert(extensions_view(extensions@) == extensions_view(before).insert(
                            entries[i as int].0@,
                            xv,
                        ));
                    }
                },
                None => {},
            }
            i = i + 1;
        }
        proof {
            let target = extensions_from_json(rest);
            let got = extensions_view(extensions@);
            assert forall|k: Seq<char>| target.contains_key(k) implies got.contains_key(k) by {
                let a = choose|a: int| 0 <= a < entries.len() && entries[a].0@ == k;
                assert(rest.contains_key(entries[a].0@));
            }
            assert(got =~= target);
        }
        Ok(
            InternalEvent {
                spec_version: SpecVersion::V10,
                attributes: Attributes { id, ty, source, datacontenttype, dataschema, subject, time },
                data,
                extensions,
            },
        )
    }
}

/// The JSON object of an event, from which a message is then read (the
/// reading itself is serde's, and is done by the caller).
pub fn try_from_event(event: InternalEvent) -> (r: Result<serde_json::Value, ConvertError>)
    ensures
        event@.well_formed(),
        r matches Ok(v) ==> event_to_json(event@) == Ok::<JsonView, ConvertError>(
            json_value_view(v),
        ),
        r matches Err(x) ==> event_to_json(event@) == Err::<JsonView, ConvertError>(x),
{
    event.into_value()
}

/// The event that the JSON form of a message stands for (the JSON form
/// itself is serde's, and is made by the caller).
pub fn try_to_event(obj: serde_json::Value) -> (r: Result<InternalEvent, ConvertError>)
    ensures
        r matches Ok(e) ==> json_to_event(json_value_view(obj)) == Ok::<EventView, ConvertError>(
            e@,
        ),
        r matches Err(x) ==> json_to_event(json_value_view(obj)) == Err::<EventView, ConvertError>(
            x,
        ),
{
    InternalEvent::try_from_value(obj)
}

} // verus!

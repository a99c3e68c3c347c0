//! The event model: what the library reads and writes of a CloudEvent.
//!
//! `InternalEvent` holds, as plain values, the context attributes, the data
//! and the extensions of a CloudEvent. A time is held as the RFC 3339 text
//! that the event writes it as, a URL as its serialization.

use vstd::prelude::*;
use crate::json::{JsonView, json_value_view};
use crate::encoding::{is_url_serialization, is_written_time, SchemaUrl, Time};

verus! {

/// The version of the CloudEvents specification an event follows.
#[derive(Clone, Copy, Debug, PartialEq, Eq, Structural)]
pub enum SpecVersion {
    V03,
    V10,
}

impl SpecVersion {
    /// The text of the version, as the `specversion` attribute carries it.
    pub open spec fn text(self) -> Seq<char> {
        match self {
            SpecVersion::V03 => "0.3"@,
            SpecVersion::V10 => "1.0"@,
        }
    }

    /// The name under which the version carries its data schema attribute.
    pub open spec fn schema_key(self) -> Seq<char> {
        match self {
            SpecVersion::V03 => "schemaurl"@,
            SpecVersion::V10 => "dataschema"@,
        }
    }

    /// The text of the version.
    pub fn as_str(&self) -> (r: &'static str)
        ensures
            r@ == self.text(),
    {
        match self {
            SpecVersion::V03 => "0.3",
            SpecVersion::V10 => "1.0",
        }
    }

    /// The name of the data schema attribute in this version.
    pub fn schema_key_str(&self) -> (r: &'static str)
        ensures
            r@ == self.schema_key(),
    {
        match self {
            SpecVersion::V03 => "schemaurl",
            SpecVersion::V10 => "dataschema",
        }
    }
}

/// The value of an extension attribute.
#[derive(Debug, PartialEq, Eq)]
pub enum ExtensionValue {
    String(String),
    Boolean(bool),
    Integer(i64),
}

/// The model of an extension value.
pub enum ExtensionView {
    Str(Seq<char>),
    Boolean(bool),
    Integer(i64),
}

impl View for ExtensionValue {
    type V = ExtensionView;

    open spec fn view(&self) -> ExtensionView {
        match self {
            ExtensionValue::String(s) => ExtensionView::Str(s@),
            ExtensionValue::Boolean(b) => ExtensionView::Boolean(*b),
            ExtensionValue::Integer(i) => ExtensionView::Integer(*i),
        }
    }
}

/// The data an event carries.
#[derive(Debug)]
pub enum Data {
    Binary(Vec<u8>),
    String(String),
    Json(serde_json::Value),
}

/// The model of event data.
pub enum DataView {
    Binary(Seq<u8>),
    Text(Seq<char>),
    Json(JsonView),
}

impl View for Data {
    type V = DataView;

    open spec fn view(&self) -> DataView {
        match self {
            Data::Binary(b) => DataView::Binary(b@),
            Data::String(s) => DataView::Text(s@),
            Data::Json(v) => DataView::Json(json_value_view(*v)),
        }
    }
}

/// The context attributes of an event (and, with serde's derives added in
/// the service, the attributes of a message).
#[derive(Debug, PartialEq, Eq)]
pub struct Attributes {
    pub id: String,
    pub ty: String,
    pub source: String,
    pub datacontenttype: Option<String>,
    pub dataschema: Option<SchemaUrl>,
    pub subject: Option<String>,
    pub time: Option<Time>,
}

/// The model of an optional string.
pub open spec fn opt_view(o: Option<String>) -> Option<Seq<char>> {
    match o {
        Some(s) => Some(s@),
        None => None,
    }
}

/// The model of an optional time.
pub open spec fn opt_time_view(o: Option<Time>) -> Option<Seq<char>> {
    match o {
        Some(t) => Some(t.text()),
        None => None,
    }
}

/// The model of an optional URL.
pub open spec fn opt_url_view(o: Option<SchemaUrl>) -> Option<Seq<char>> {
    match o {
        Some(u) => Some(u.text()),
        None => None,
    }
}

/// The extensions an event ends with after setting each of them in turn: a
/// later one of the same name replaces an earlier one.
pub open spec fn extensions_view(s: Seq<(String, ExtensionValue)>) -> Map<Seq<char>, ExtensionView>
    decreases s.len(),
{
    if s.len() == 0 {
        Map::empty()
    } else {
        extensions_view(s.drop_last()).insert(s.last().0@, s.last().1@)
    }
}

/// A CloudEvent, as plain values.
#[derive(Debug)]
pub struct InternalEvent {
    pub spec_version: SpecVersion,
    pub attributes: Attributes,
    pub data: Option<Data>,
    /// The extensions, in the order they were set.
    pub extensions: Vec<(String, ExtensionValue)>,
}

/// The model of an event.
pub struct EventView {
    pub spec_version: SpecVersion,
    pub id: Seq<char>,
    pub ty: Seq<char>,
    pub source: Seq<char>,
    pub datacontenttype: Option<Seq<char>>,
    pub dataschema: Option<Seq<char>>,
    pub subject: Option<Seq<char>>,
    pub time: Option<Seq<char>>,
    pub data: Option<DataView>,
    pub extensions: Map<Seq<char>, ExtensionView>,
}

impl EventView {
    /// The time and the data schema are texts that chrono and the `url`
    /// crate write: what every `Time` and every `SchemaUrl` holds.
    pub open spec fn well_formed(self) -> bool {
        &&& self.time matches Some(t) ==> is_written_time(t)
        &&& self.dataschema matches Some(u) ==> is_url_serialization(u)
    }
}

impl View for InternalEvent {
    type V = EventView;

    open spec fn view(&self) -> EventView {
        EventView {
            spec_version: self.spec_version,
            id: self.attributes.id@,
            ty: self.attributes.ty@,
            source: self.attributes.source@,
            datacontenttype: opt_view(self.attributes.datacontenttype),
            dataschema: opt_url_view(self.attributes.dataschema),
            subject: opt_view(self.attributes.subject),
            time: opt_time_view(self.attributes.time),
            data: match self.data {
                Some(d) => Some(d@),
                None => None,
            },
            extensions: extensions_view(self.extensions@),
        }
    }
}

} // verus!

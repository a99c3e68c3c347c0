use nuboxido_warp::{
    try_from_event, try_to_event, Attributes, ConvertError, Data, ExtensionValue, InternalEvent,
    RequiredAttribute, SchemaUrl, SpecVersion, Time,
};
use serde_json::Value;

fn json(text: &str) -> Value {
    serde_json::from_str(text).unwrap()
}

fn attributes(datacontenttype: Option<&str>) -> Attributes {
    Attributes {
        id: "abcd".to_owned(),
        ty: "com.acme.events.something".to_owned(),
        source: "com.acme.apps.ingress".to_owned(),
        datacontenttype: datacontenttype.map(str::to_owned),
        dataschema: None,
        subject: None,
        time: Time::read("2023-07-02T00:00:00+00:00"),
    }
}

fn event(datacontenttype: Option<&str>, data: Option<Data>) -> InternalEvent {
    InternalEvent {
        spec_version: SpecVersion::V10,
        attributes: attributes(datacontenttype),
        data,
        extensions: vec![("something".to_owned(), ExtensionValue::String("no nulls".to_owned()))],
    }
}

#[test]
fn binary_json_data_becomes_json() {
    let e = event(
        Some("application/json"),
        Some(Data::Binary(br#"{"body":"hello world", "volume": 10}"#.to_vec())),
    );
    let v = try_from_event(e).unwrap();
    let expected = json(
        r#"{"specversion":"1.0","id":"abcd","type":"com.acme.events.something",
            "source":"com.acme.apps.ingress","datacontenttype":"application/json",
            "time":"2023-07-02T00:00:00+00:00","something":"no nulls",
            "data":{"body":"hello world","volume":10}}"#,
    );
    assert_eq!(v, expected);
}

#[test]
fn binary_data_not_declared_json_becomes_base64() {
    let e = event(Some("application/octet-stream"), Some(Data::Binary(b"hello".to_vec())));
    let v = try_from_event(e).unwrap();
    assert_eq!(v["data"], Value::String("aGVsbG8=".to_owned()));
}

#[test]
fn binary_data_without_content_type_becomes_base64() {
    let e = event(None, Some(Data::Binary(vec![0xff, 0x00, 0x10])));
    let v = try_from_event(e).unwrap();
    assert_eq!(v["data"], Value::String("/wAQ".to_owned()));
    assert!(v.get("datacontenttype").is_none());
}

#[test]
fn binary_data_declared_json_must_be_utf8() {
    let e = event(Some("text/json"), Some(Data::Binary(vec![0xff, 0xfe])));
    assert!(matches!(try_from_event(e), Err(ConvertError::InvalidUtf8)));
}

#[test]
fn binary_data_declared_json_must_be_json() {
    let e = event(Some("application/cloudevents+json"), Some(Data::Binary(b"{not json".to_vec())));
    assert!(matches!(try_from_event(e), Err(ConvertError::InvalidJson)));
}

#[test]
fn string_data_stays_a_string() {
    let e = event(Some("application/json"), Some(Data::String("{\"a\":1}".to_owned())));
    let v = try_from_event(e).unwrap();
    assert_eq!(v["data"], Value::String("{\"a\":1}".to_owned()));
}

#[test]
fn no_data_is_null() {
    let e = event(None, None);
    let v = try_from_event(e).unwrap();
    assert_eq!(v["data"], Value::Null);
}

#[test]
fn extension_values_keep_their_kind() {
    let mut e = event(None, None);
    e.extensions.push(("flag".to_owned(), ExtensionValue::Boolean(true)));
    e.extensions.push(("count".to_owned(), ExtensionValue::Integer(-7)));
    e.extensions.push(("big".to_owned(), ExtensionValue::Integer(42)));
    let v = try_from_event(e).unwrap();
    assert_eq!(v["flag"], Value::Bool(true));
    assert_eq!(v["count"], json("-7"));
    assert_eq!(v["big"], json("42"));
}

#[test]
fn later_extension_of_a_name_wins() {
    let mut e = event(None, None);
    e.extensions.push(("something".to_owned(), ExtensionValue::Integer(3)));
    let v = try_from_event(e).unwrap();
    assert_eq!(v["something"], json("3"));
}

#[test]
fn version_0_3_names_its_schema_schemaurl() {
    let mut e = event(None, None);
    e.spec_version = SpecVersion::V03;
    e.attributes.dataschema = SchemaUrl::read("http://example.com/schema");
    let v = try_from_event(e).unwrap();
    assert_eq!(v["specversion"], Value::String("0.3".to_owned()));
    assert_eq!(v["schemaurl"], Value::String("http://example.com/schema".to_owned()));
    assert!(v.get("dataschema").is_none());
}

#[test]
fn json_to_event_reads_attributes_and_extensions() {
    let v = json(
        r#"{"specversion":"1.0","id":"370058fc","type":"com.acme.events.something",
            "source":"com.acme.apps.ingress","time":"2023-10-01T00:00:00Z",
            "something":"else","datacontenttype":"application/json",
            "dataschema":"http://example.com/schema","subject":"sub",
            "flag":false,"count":12,"ratio":0.5,"list":[1],"nothing":null,
            "huge":18446744073709551615,
            "data":{"body":"text","volume":90}}"#,
    );
    let e = try_to_event(v).unwrap();
    assert_eq!(e.spec_version, SpecVersion::V10);
    assert_eq!(e.attributes.id, "370058fc");
    assert_eq!(e.attributes.ty, "com.acme.events.something");
    assert_eq!(e.attributes.source, "com.acme.apps.ingress");
    assert_eq!(e.attributes.time.as_ref().map(|t| t.as_str()), Some("2023-10-01T00:00:00+00:00"));
    assert_eq!(e.attributes.datacontenttype.as_deref(), Some("application/json"));
    assert_eq!(e.attributes.dataschema.as_ref().map(|u| u.as_str()), Some("http://example.com/schema"));
    assert_eq!(e.attributes.subject.as_deref(), Some("sub"));
    match &e.data {
        Some(Data::Json(d)) => assert_eq!(d, &json(r#"{"body":"text","volume":90}"#)),
        other => panic!("unexpected data {other:?}"),
    }
    let mut ext: Vec<(String, ExtensionValue)> = e.extensions;
    ext.sort_by(|a, b| a.0.cmp(&b.0));
    assert_eq!(
        ext,
        vec![
            ("count".to_owned(), ExtensionValue::Integer(12)),
            ("flag".to_owned(), ExtensionValue::Boolean(false)),
            ("something".to_owned(), ExtensionValue::String("else".to_owned())),
            ("specversion".to_owned(), ExtensionValue::String("1.0".to_owned())),
        ]
    );
}

#[test]
fn json_to_event_drops_data_without_content_type() {
    let v = json(r#"{"id":"1","type":"t","source":"s","data":{"a":1}}"#);
    let e = try_to_event(v).unwrap();
    assert!(e.data.is_none());
    assert!(e.attributes.datacontenttype.is_none());
    assert!(e.attributes.time.is_none());
    assert!(e.extensions.is_empty());
}

#[test]
fn json_to_event_drops_unreadable_time_and_schema() {
    let v = json(
        r#"{"id":"1","type":"t","source":"s","time":"yesterday","dataschema":"not a url","subject":5}"#,
    );
    let e = try_to_event(v).unwrap();
    assert!(e.attributes.time.is_none());
    assert!(e.attributes.dataschema.is_none());
    assert!(e.attributes.subject.is_none());
    assert!(e.extensions.is_empty());
}

#[test]
fn json_to_event_requires_id_type_and_source() {
    let missing_id = json(r#"{"type":"t","source":"s"}"#);
    assert_eq!(
        try_to_event(missing_id).unwrap_err(),
        ConvertError::MissingRequiredAttribute(RequiredAttribute::Id)
    );
    let id_not_string = json(r#"{"id":1,"type":"t","source":"s"}"#);
    assert_eq!(
        try_to_event(id_not_string).unwrap_err(),
        ConvertError::MissingRequiredAttribute(RequiredAttribute::Id)
    );
    let missing_type = json(r#"{"id":"1","source":"s"}"#);
    assert_eq!(
        try_to_event(missing_type).unwrap_err(),
        ConvertError::MissingRequiredAttribute(RequiredAttribute::Type)
    );
    let missing_source = json(r#"{"id":"1","type":"t"}"#);
    assert_eq!(
        try_to_event(missing_source).unwrap_err(),
        ConvertError::MissingRequiredAttribute(RequiredAttribute::Source)
    );
}

#[test]
fn json_to_event_requires_an_object() {
    assert_eq!(try_to_event(json("[1,2]")).unwrap_err(), ConvertError::NotAnObject);
    assert_eq!(try_to_event(json("\"x\"")).unwrap_err(), ConvertError::NotAnObject);
}

#[test]
fn event_round_trip_adds_specversion_extension() {
    let e = event(Some("application/json"), Some(Data::Json(json(r#"{"x":[1,2]}"#))));
    let v = try_from_event(e).unwrap();
    let back = try_to_event(v).unwrap();
    assert_eq!(back.spec_version, SpecVersion::V10);
    assert_eq!(back.attributes, attributes(Some("application/json")));
    match &back.data {
        Some(Data::Json(d)) => assert_eq!(d, &json(r#"{"x":[1,2]}"#)),
        other => panic!("unexpected data {other:?}"),
    }
    let mut ext = back.extensions;
    ext.sort_by(|a, b| a.0.cmp(&b.0));
    assert_eq!(
        ext,
        vec![
            ("something".to_owned(), ExtensionValue::String("no nulls".to_owned())),
            ("specversion".to_owned(), ExtensionValue::String("1.0".to_owned())),
        ]
    );
}

#[test]
fn data_schema_is_read_as_a_url() {
    let v = json(r#"{"id":"1","type":"t","source":"s","dataschema":"HTTP://Example.COM"}"#);
    let e = try_to_event(v).unwrap();
    assert_eq!(e.attributes.dataschema.as_ref().map(|u| u.as_str()), Some("http://example.com/"));
}

#[test]
fn time_is_read_and_written_in_rfc3339() {
    let v = json(r#"{"id":"1","type":"t","source":"s","time":"2023-07-02 01:30:00+01:00"}"#);
    let e = try_to_event(v).unwrap();
    assert_eq!(e.attributes.time.as_ref().map(|t| t.as_str()), Some("2023-07-02T00:30:00+00:00"));
}

#[test]
fn echoed_event_through_its_json_form() {
    let e = event(
        Some("application/json"),
        Some(Data::Binary(br#"{"body":"hello world", "volume": 10}"#.to_vec())),
    );
    let back = try_to_event(try_from_event(e).unwrap()).unwrap();
    let answer = nuboxido_warp::service::echo_event(back);
    assert_eq!(answer.attributes.ty, "com.acme.events.something.echoed");
    assert_eq!(answer.attributes.id, "abcd");
    match &answer.data {
        Some(Data::Json(d)) => assert_eq!(d, &json(r#"{"body":"hello world","volume":10}"#)),
        other => panic!("unexpected data {other:?}"),
    }
}

#[test]
fn floats_and_large_numbers_are_no_extensions() {
    let v = json(r#"{"id":"1","type":"t","source":"s","f":1.5,"n":-3,"u":9223372036854775807,"o":9223372036854775808}"#);
    let mut ext = try_to_event(v).unwrap().extensions;
    ext.sort_by(|a, b| a.0.cmp(&b.0));
    assert_eq!(
        ext,
        vec![
            ("n".to_owned(), ExtensionValue::Integer(-3)),
            ("u".to_owned(), ExtensionValue::Integer(i64::MAX)),
        ]
    );
}

#[test]
fn json_round_trip_adds_specversion() {
    let v = json(
        r#"{"id":"1","type":"t","source":"s","datacontenttype":"application/json",
            "data":{"body":"text","volume":90},"flag":true,"count":-4,"big":17,"note":"x"}"#,
    );
    let back = try_from_event(try_to_event(v.clone()).unwrap()).unwrap();
    let mut expected = v;
    expected
        .as_object_mut()
        .unwrap()
        .insert("specversion".to_owned(), Value::String("1.0".to_owned()));
    assert_eq!(back, expected);
}

#[test]
fn times_and_urls_hold_the_text_their_crates_write() {
    assert_eq!(Time::read("2023-07-02T00:00:00Z").unwrap().as_str(), "2023-07-02T00:00:00+00:00");
    assert_eq!(Time::read("2023-07-02T00:00:00+00:00").unwrap().as_str(), "2023-07-02T00:00:00+00:00");
    assert!(Time::read("July").is_none());
    assert_eq!(SchemaUrl::read("HTTP://Example.COM").unwrap().as_str(), "http://example.com/");
    assert_eq!(SchemaUrl::read("http://example.com/").unwrap().as_str(), "http://example.com/");
    assert!(SchemaUrl::read("not a url").is_none());
}

#[test]
fn event_round_trip_keeps_time_and_schema() {
    let mut e = event(None, None);
    e.attributes.dataschema = SchemaUrl::read("http://example.com/schema");
    e.attributes.subject = Some("sub".to_owned());
    let back = try_to_event(try_from_event(e).unwrap()).unwrap();
    let mut expected = attributes(None);
    expected.dataschema = SchemaUrl::read("http://example.com/schema");
    expected.subject = Some("sub".to_owned());
    assert_eq!(back.attributes, expected);
}

use nuboxido_warp::routing::{route, Endpoint};
use nuboxido_warp::service::{
    echo_event, env_json, get_root_health, get_root_health_live, get_root_health_ready,
    get_root_health_started, health_status, refusal_status, HealthProbe, Refusal, StatusCode,
};
use nuboxido_warp::text::{contains_str, echoed_type};
use nuboxido_warp::{Attributes, InternalEvent, SpecVersion};
use serde_json::Value;

#[test]
fn health_probes_answer_ok() {
    assert_eq!(get_root_health(), StatusCode::Success);
    assert_eq!(get_root_health_started(), StatusCode::Success);
    assert_eq!(get_root_health_ready(), StatusCode::Success);
    assert_eq!(get_root_health_live(), StatusCode::Success);
    assert_eq!(get_root_health_live().code(), 200);
}

#[test]
fn failed_health_checks() {
    assert_eq!(health_status(HealthProbe::Overall, Err(())), StatusCode::ServiceUnavailable);
    assert_eq!(health_status(HealthProbe::Started, Err(())), StatusCode::ServiceUnavailable);
    assert_eq!(health_status(HealthProbe::Ready, Err(())), StatusCode::ServiceUnavailable);
    assert_eq!(health_status(HealthProbe::Live, Err(())), StatusCode::InternalServerError);
    assert_eq!(StatusCode::ServiceUnavailable.code(), 503);
    assert_eq!(StatusCode::InternalServerError.code(), 500);
}

#[test]
fn env_body_is_an_object_of_the_variables() {
    let vars = vec![
        ("HOME".to_owned(), "/root".to_owned()),
        ("LANG".to_owned(), "C".to_owned()),
        ("HOME".to_owned(), "/home".to_owned()),
    ];
    let v = env_json(&vars);
    let expected: Value = serde_json::from_str(r#"{"HOME":"/home","LANG":"C"}"#).unwrap();
    assert_eq!(v, expected);
    assert!(env_json(&Vec::new()).is_object());
}

#[test]
fn echo_appends_echoed_to_the_type() {
    let e = InternalEvent {
        spec_version: SpecVersion::V10,
        attributes: Attributes {
            id: "abcd".to_owned(),
            ty: "com.acme.events.something".to_owned(),
            source: "com.acme.apps.ingress".to_owned(),
            datacontenttype: None,
            dataschema: None,
            subject: None,
            time: None,
        },
        data: None,
        extensions: Vec::new(),
    };
    let r = echo_event(e);
    assert_eq!(r.attributes.ty, "com.acme.events.something.echoed");
    assert_eq!(r.attributes.id, "abcd");
    assert_eq!(echoed_type(""), ".echoed");
}

#[test]
fn contains_finds_a_run_of_characters() {
    assert!(contains_str("application/json", "json"));
    assert!(contains_str("application/cloudevents+json; charset=utf-8", "json"));
    assert!(!contains_str("application/jso", "json"));
    assert!(!contains_str("js", "json"));
    assert!(contains_str("anything", ""));
    assert!(contains_str("ünïcödé", "cöd"));
}

#[test]
fn routes_of_the_service() {
    assert_eq!(route("POST", "/"), Some(Endpoint::PostRoot));
    assert_eq!(route("GET", "/"), None);
    assert_eq!(route("POST", "/env"), None);
    assert_eq!(route("GET", "/env"), Some(Endpoint::Env));
    assert_eq!(route("GET", "/env/extra"), Some(Endpoint::Env));
    assert_eq!(route("GET", "/environment"), None);
    assert_eq!(route("GET", "/health/started"), Some(Endpoint::Health(HealthProbe::Started)));
    assert_eq!(route("GET", "/health/ready"), Some(Endpoint::Health(HealthProbe::Ready)));
    assert_eq!(route("GET", "/health/live"), Some(Endpoint::Health(HealthProbe::Live)));
    assert_eq!(route("GET", "/health/live/"), Some(Endpoint::Health(HealthProbe::Live)));
    assert_eq!(route("GET", "/health/live/x"), None);
    assert_eq!(route("GET", "/health"), Some(Endpoint::Health(HealthProbe::Overall)));
    assert_eq!(route("GET", "/health/"), Some(Endpoint::Health(HealthProbe::Overall)));
    assert_eq!(route("GET", "/health/unknown"), None);
    assert_eq!(route("POST", "/health"), None);
    assert_eq!(route("GET", "/health//live"), None);
    assert_eq!(route("PUT", "/health/live"), None);
}

#[test]
fn refusals_follow_the_response_code_guide() {
    assert_eq!(refusal_status(Refusal::NoEndpoint).code(), 404);
    assert_eq!(refusal_status(Refusal::UnreadableEvent).code(), 400);
    assert_eq!(refusal_status(Refusal::ConversionFailed).code(), 500);
}

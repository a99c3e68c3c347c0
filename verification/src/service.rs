//! The rules of the echo service: what each health probe answers, the JSON
//! body of the environment endpoint, and the event that answers an event.

use vstd::prelude::*;
use crate::event::{EventView, InternalEvent};
use crate::json::{json_from_map, json_from_string, json_map_insert, json_map_new, json_map_view, json_value_view, JsonView};
use crate::text::{echoed, echoed_type};

verus! {

/// An HTTP status code the service answers with.
#[derive(Clone, Copy, Debug, PartialEq, Eq, Structural)]
pub enum StatusCode {
    Success,
    BadRequest,
    NotFound,
    InternalServerError,
    ServiceUnavailable,
}

impl StatusCode {
    /// The number of the status.
    pub open spec fn spec_code(self) -> u16 {
        match self {
            StatusCode::Success => 200,
            StatusCode::BadRequest => 400,
            StatusCode::NotFound => 404,
            StatusCode::InternalServerError => 500,
            StatusCode::ServiceUnavailable => 503,
        }
    }

    /// The number of the status.
    pub fn code(&self) -> (r: u16)
        ensures
            r == self.spec_code(),
    {
        match self {
            StatusCode::Success => 200,
            StatusCode::BadRequest => 400,
            StatusCode::NotFound => 404,
            StatusCode::InternalServerError => 500,
            StatusCode::ServiceUnavailable => 503,
        }
    }
}

/// The health probes the service answers: its health as a whole, and
/// whether it has started, is ready, is live.
#[derive(Clone, Copy, Debug, PartialEq, Eq, Structural)]
pub enum HealthProbe {
    Overall,
    Started,
    Ready,
    Live,
}

/// The status a probe answers with: OK when the check passed; otherwise
/// "internal server error" for the liveness probe and "service
/// unavailable" for the others.
pub open spec fn health_answer(probe: HealthProbe, healthy: bool) -> StatusCode {
    if healthy {
        StatusCode::Success
    } else {
        match probe {
            HealthProbe::Live => StatusCode::InternalServerError,
            _ => StatusCode::ServiceUnavailable,
        }
    }
}

/// The status a probe answers with, given the outcome of the check.
pub fn health_status(probe: HealthProbe, health: Result<(), ()>) -> (r: StatusCode)
    ensures
        r == health_answer(probe, health is Ok),
{
    match health {
        Ok(_) => StatusCode::Success,
        Err(_) => match probe {
            HealthProbe::Live => StatusCode::InternalServerError,
            _ => StatusCode::ServiceUnavailable,
        },
    }
}

/// The answer to the health endpoint. The service has nothing to check:
/// once it runs it is healthy.
pub fn get_root_health() -> (r: StatusCode)
    ensures
        r == StatusCode::Success,
{
    let health: Result<(), ()> = Ok(());
    health_status(HealthProbe::Overall, health)
}

/// The answer to the start probe. The service has nothing to check: once it
/// runs it has started.
pub fn get_root_health_started() -> (r: StatusCode)
    ensures
        r == StatusCode::Success,
{
    let health: Result<(), ()> = Ok(());
    health_status(HealthProbe::Started, health)
}

/// The answer to the readiness probe. The service has nothing to check: once
/// it runs it is ready.
pub fn get_root_health_ready() -> (r: StatusCode)
    ensures
        r == StatusCode::Success,
{
    let health: Result<(), ()> = Ok(());
    health_status(HealthProbe::Ready, health)
}

/// The answer to the liveness probe. The service has nothing to check: once
/// it runs it is live.
pub fn get_root_health_live() -> (r: StatusCode)
    ensures
        r == StatusCode::Success,
{
    let health: Result<(), ()> = Ok(());
    health_status(HealthProbe::Live, health)
}

/// Why the service answers a request without an endpoint's answer.
#[derive(Clone, Copy, Debug, PartialEq, Eq, Structural)]
pub enum Refusal {
    /// No endpoint answers the request.
    NoEndpoint,
    /// The request posted to take an event holds no readable event.
    UnreadableEvent,
    /// The event could not be turned into its answer.
    ConversionFailed,
}

/// The status of a refusal, as the response-code guide gives it: "not
/// found" for a request no endpoint answers, "bad request" for an
/// unparsable event, "internal server error" where the answer could not be
/// made.
pub open spec fn refusal_answer(why: Refusal) -> StatusCode {
    match why {
        Refusal::NoEndpoint => StatusCode::NotFound,
        Refusal::UnreadableEvent => StatusCode::BadRequest,
        Refusal::ConversionFailed => StatusCode::InternalServerError,
    }
}

/// The status of a refusal.
pub fn refusal_status(why: Refusal) -> (r: StatusCode)
    ensures
        r == refusal_answer(why),
{
    match why {
        Refusal::NoEndpoint => StatusCode::NotFound,
        Refusal::UnreadableEvent => StatusCode::BadRequest,
        Refusal::ConversionFailed => StatusCode::InternalServerError,
    }
}

/// The object of environment variables: each name with its value as a JSON
/// string; of two variables of one name, the later one counts.
pub open spec fn env_object(vars: Seq<(String, String)>) -> Map<Seq<char>, JsonView>
    decreases vars.len(),
{
    if vars.len() == 0 {
        Map::empty()
    } else {
        env_object(vars.drop_last()).insert(vars.last().0@, JsonView::Str(vars.last().1@))
    }
}

/// The JSON body of the environment endpoint: an object of the variables.
pub fn env_json(vars: &Vec<(String, String)>) -> (r: serde_json::Value)
    ensures
        json_value_view(r) == JsonView::Object(env_object(vars@)),
{
    let mut m = json_map_new();
    let n: usize = vars.len();
    let mut i: usize = 0;
    while i < n
        invariant
            n == vars.len(),
            i <= n,
            json_map_view(m) == env_object(vars@.take(i as int)),
        decreases n - i,
    {
        proof {
            assert(vars@.take(i + 1).drop_last() =~= vars@.take(i as int));
        }
        json_map_insert(&mut m, vars[i].0.clone(), json_from_string(vars[i].1.clone()));
        i = i + 1;
    }
    proof {
        assert(vars@.take(n as int) =~= vars@);
        assert(json_map_view(m) =~= env_object(vars@));
    }
    json_from_map(m)
}

/// `e` with its type replaced.
pub open spec fn with_type(e: EventView, ty: Seq<char>) -> EventView {
    EventView { ty, ..e }
}

/// The event that answers an event: the same event, of the type with
/// `.echoed` appended.
pub fn echo_event(event: InternalEvent) -> (r: InternalEvent)
    ensures
        r@ == with_type(event@, echoed(event@.ty)),
{
    let mut event = event;
    let ty = echoed_type(event.attributes.ty.as_str());
    event.attributes.ty = ty;
    event
}

} // verus!

//! Conversions between CloudEvents and their JSON form, with the rules of
//! the echo service that sits on top of them.
//!
//! - `json`: `serde_json` values and objects, through their model.
//! - `encoding`: UTF-8, base64, and the `Time` and `SchemaUrl` types.
//! - `text`: searching text, and the type of an echoed event.
//! - `event`: the event model.
//! - `convert`: an event to its JSON object and back.
//! - `message`: the message the service reads out of an event.
//! - `service`: health probes, the environment body, the echo.
//! - `routing`: which endpoint answers a request.
//! - `laws`: what holds across the conversions.

pub mod convert;
pub mod encoding;
pub mod event;
pub mod json;
pub mod laws;
pub mod message;
pub mod routing;
pub mod service;
pub mod text;

pub use convert::{try_from_event, try_to_event, ConvertError, RequiredAttribute};
pub use encoding::{SchemaUrl, Time};
pub use event::{Attributes, Data, ExtensionValue, InternalEvent, SpecVersion};
pub use json::{JsonView, NumberView};
pub use message::{CustomMessage, CustomMessageData, CustomMessageExtensions};

//! The message the service reads out of an event and writes back into one.
//!
//! These are the bare types; reading one from JSON and writing one to JSON
//! is serde's work, done on copies of these types that carry serde's
//! derives.

use vstd::prelude::*;
use crate::event::Attributes;

verus! {

/// The extensions a message expects.
#[derive(Debug, PartialEq, Eq)]
pub struct CustomMessageExtensions {
    something: String,
}

/// The data a message expects.
#[derive(Debug, PartialEq, Eq)]
pub struct CustomMessageData {
    body: String,
    volume: u32,
}

/// A message: the attributes of an event, its extensions and its data.
#[derive(Debug, PartialEq, Eq)]
pub struct CustomMessage {
    attributes: Attributes,
    extensions: CustomMessageExtensions,
    data: CustomMessageData,
}

impl CustomMessageExtensions {
    pub fn new(something: String) -> (r: Self)
        ensures
            r.something() == something,
    {
        CustomMessageExtensions { something }
    }

    pub closed spec fn something(&self) -> String {
        self.something
    }

    pub fn get_something(&self) -> (r: &String)
        ensures
            *r == self.something(),
    {
        &self.something
    }
}

impl CustomMessageData {
    pub fn new(body: String, volume: u32) -> (r: Self)
        ensures
            r.body() == body,
            r.volume() == volume,
    {
        CustomMessageData { body, volume }
    }

    pub closed spec fn body(&self) -> String {
        self.body
    }

    pub closed spec fn volume(&self) -> u32 {
        self.volume
    }

    pub fn get_body(&self) -> (r: &String)
        ensures
            *r == self.body(),
    {
        &self.body
    }

    pub fn get_volume(&self) -> (r: u32)
        ensures
            r == self.volume(),
    {
        self.volume
    }
}

impl CustomMessage {
    pub fn new(
        attributes: Attributes,
        extensions: CustomMessageExtensions,
        data: CustomMessageData,
    ) -> (r: Self)
        ensures
            r.attributes() == attributes,
            r.extensions() == extensions,
            r.data() == data,
    {
        CustomMessage { attributes, extensions, data }
    }

    pub closed spec fn attributes(&self) -> Attributes {
        self.attributes
    }

    pub closed spec fn extensions(&self) -> CustomMessageExtensions {
        self.extensions
    }

    pub closed spec fn data(&self) -> CustomMessageData {
        self.data
    }

    pub fn get_attributes(&self) -> (r: &Attributes)
        ensures
            *r == self.attributes(),
    {
        &self.attributes
    }

    pub fn get_extensions(&self) -> (r: &CustomMessageExtensions)
        ensures
            *r == self.extensions(),
    {
        &self.extensions
    }

    pub fn get_data(&self) -> (r: &CustomMessageData)
        ensures
            *r == self.data(),
    {
        &self.data
    }

    /// The message taken apart into its attributes, extensions and data.
    pub fn into_parts(self) -> (r: (Attributes, CustomMessageExtensions, CustomMessageData))
        ensures
            r.0 == self.attributes(),
            r.1 == self.extensions(),
            r.2 == self.data(),
    {
        (self.attributes, self.extensions, self.data)
    }
}

} // verus!

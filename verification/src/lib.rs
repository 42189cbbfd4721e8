//! # Misuse-resistant SMTP types
//!
//! The most prominent types are [`Greeting`](response::Greeting),
//! [`Command`](command::Command), and [`Response`](response::Response).
//! These types ensure correctness by validating their contents at construction time.
//!
//! The [`core_types`] module contains fundamental types like [`Domain`](core_types::Domain),
//! [`Mailbox`](core_types::Mailbox), [`Atom`](core_types::Atom), and [`Text`](core_types::Text).
//! These types validate their contents according to RFC 5321 rules, and every
//! validation rule is stated as a specification that the code is proved to
//! follow.
//!
//! When you are *sure* that the thing you want to create is valid, you can use
//! the `unvalidated(...)` functions; their precondition is that the value is valid.
//!
//! # Supported SMTP extensions
//!
//! STARTTLS (RFC 3207), AUTH (RFC 4954), SIZE (RFC 1870), 8BITMIME (RFC 6152),
//! PIPELINING (RFC 2920), SMTPUTF8 (RFC 6531), ENHANCEDSTATUSCODES (RFC 2034).

pub mod ascii;
pub mod auth;
pub mod command;
pub mod core_types;
pub mod error;
pub mod response;
pub mod secret;
pub mod state;
pub mod utils;

use vstd::prelude::*;

use crate::core_types::{Atom, Domain, LocalPart, Text};
use crate::error::ValidationError;
use crate::response::{EnhancedStatusCode, ReplyCode};
use crate::state::State;

verus! {

/// Create owned variant of object.
///
/// Useful, e.g., if you want to pass the object to another thread or executor.
pub trait ToStatic {
    type Static: 'static;

    fn to_static(&self) -> Self::Static;
}

/// Create owned variant of object (consuming it).
///
/// Useful, e.g., if you want to pass the object to another thread or executor.
pub trait IntoStatic {
    type Static: 'static;

    fn into_static(self) -> Self::Static;
}

impl ToStatic for State {
    type Static = State;

    fn to_static(&self) -> (r: State)
        ensures
            r == *self,
    {
        *self
    }
}

impl IntoStatic for State {
    type Static = State;

    fn into_static(self) -> (r: State)
        ensures
            r == self,
    {
        self
    }
}

impl ToStatic for ReplyCode {
    type Static = ReplyCode;

    fn to_static(&self) -> (r: ReplyCode)
        ensures
            r == *self,
    {
        *self
    }
}

impl IntoStatic for ReplyCode {
    type Static = ReplyCode;

    fn into_static(self) -> (r: ReplyCode)
        ensures
            r == self,
    {
        self
    }
}

impl ToStatic for EnhancedStatusCode {
    type Static = EnhancedStatusCode;

    fn to_static(&self) -> (r: EnhancedStatusCode)
        ensures
            r == *self,
    {
        *self
    }
}

impl IntoStatic for EnhancedStatusCode {
    type Static = EnhancedStatusCode;

    fn into_static(self) -> (r: EnhancedStatusCode)
        ensures
            r == self,
    {
        self
    }
}

impl ToStatic for ValidationError {
    type Static = ValidationError;

    fn to_static(&self) -> (r: ValidationError)
        ensures
            r == *self,
    {
        *self
    }
}

impl IntoStatic for ValidationError {
    type Static = ValidationError;

    fn into_static(self) -> (r: ValidationError)
        ensures
            r == self,
    {
        self
    }
}

impl ToStatic for Domain {
    type Static = Domain;

    fn to_static(&self) -> (r: Domain)
        ensures
            r == *self,
    {
        self.clone()
    }
}

impl IntoStatic for Domain {
    type Static = Domain;

    fn into_static(self) -> (r: Domain)
        ensures
            r == self,
    {
        self
    }
}

impl ToStatic for LocalPart {
    type Static = LocalPart;

    fn to_static(&self) -> (r: LocalPart)
        ensures
            r == *self,
    {
        self.clone()
    }
}

impl IntoStatic for LocalPart {
    type Static = LocalPart;

    fn into_static(self) -> (r: LocalPart)
        ensures
            r == self,
    {
        self
    }
}

impl ToStatic for Atom {
    type Static = Atom;

    fn to_static(&self) -> (r: Atom)
        ensures
            r == *self,
    {
        self.clone()
    }
}

impl IntoStatic for Atom {
    type Static = Atom;

    fn into_static(self) -> (r: Atom)
        ensures
            r == self,
    {
        self
    }
}

impl ToStatic for Text {
    type Static = Text;

    fn to_static(&self) -> (r: Text)
        ensures
            r == *self,
    {
        self.clone()
    }
}

impl IntoStatic for Text {
    type Static = Text;

    fn into_static(self) -> (r: Text)
        ensures
            r == self,
    {
        self
    }
}

} // verus!

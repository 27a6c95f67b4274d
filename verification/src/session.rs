//! Session identifiers.
use crate::decimal::{decimal, decimal_string};
use crate::json::JsonValue;
use vstd::prelude::*;
use vstd::std_specs::cmp::PartialEqSpecImpl;
use vstd::std_specs::convert::FromSpecImpl;

verus! {

/// The identifier of a connected client.
#[derive(Debug, Hash)]
pub struct Session(pub String);

impl View for Session {
    type V = Seq<char>;

    open spec fn view(&self) -> Seq<char> {
        self.0@
    }
}

/// What `{:?}` writes for a string: the text quoted, with its special
/// characters escaped.
pub uninterp spec fn debug_text(s: Seq<char>) -> Seq<char>;

/// `format!("{:?}", s)`, std's `Debug` for `str`. Its result is named
/// `debug_text` of the characters of `s`; nothing more is claimed of it.
#[verifier::external_body]
fn debug_string(s: &str) -> (r: String)
    ensures
        r@ == debug_text(s@),
{
    format!("{:?}", s)
}

impl Session {
    /// The session of the `n`-th anonymous connection: `n` in decimal.
    pub fn from_count(n: u128) -> (s: Session)
        ensures
            s@ == decimal(n as nat),
    {
        Session(decimal_string(n))
    }

    /// A session named by the given text.
    pub fn from_text(t: &str) -> (s: Session)
        ensures
            s@ == t@,
    {
        Session(t.to_string())
    }

    /// The identifier as text.
    pub fn as_str(&self) -> (r: &str)
        ensures
            r@ == self@,
    {
        self.0.as_str()
    }

    /// The session as it is displayed: its identifier in `Debug` form.
    pub fn to_display_string(&self) -> (r: String)
        ensures
            r@ == debug_text(self@),
    {
        debug_string(self.0.as_str())
    }
}

impl core::ops::Deref for Session {
    type Target = String;

    fn deref(&self) -> (r: &String)
        ensures
            *r == self.0,
    {
        &self.0
    }
}

impl Clone for Session {
    fn clone(&self) -> (r: Self)
        ensures
            r == *self,
    {
        Session(self.0.clone())
    }
}

impl PartialEq for Session {
    fn eq(&self, other: &Self) -> (r: bool) {
        self.0 == other.0
    }
}

impl PartialEqSpecImpl for Session {
    open spec fn obeys_eq_spec() -> bool {
        true
    }

    open spec fn eq_spec(&self, other: &Session) -> bool {
        self.0@ == other.0@
    }
}

impl Eq for Session {}

impl Default for Session {
    fn default() -> (r: Self)
        ensures
            r@ == Seq::<char>::empty(),
    {
        Session(String::new())
    }
}

impl From<Session> for JsonValue {
    fn from(v: Session) -> (r: JsonValue) {
        JsonValue::Str(v.0)
    }
}

impl FromSpecImpl<Session> for JsonValue {
    open spec fn obeys_from_spec() -> bool {
        true
    }

    open spec fn from_spec(v: Session) -> JsonValue {
        JsonValue::Str(v.0)
    }
}

} // verus!

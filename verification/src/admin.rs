//! The administration interface: who is connected, where a message sent
//! through it goes, and the stand-in login service.
use crate::connection::{connected_receivers, present};
use crate::json::{fields_view, JsonValue};
use crate::session::Session;
use crate::template::opt_string_view;
use crate::shared::{clone_info, info_view, session_ids, Client, Info, SessionManager};
use vstd::prelude::*;

verus! {

/// One connected user, as the user list shows it.
#[derive(Debug)]
pub struct UserLine {
    pub id: Session,
    pub info: Info,
}

/// The connected users, in the table's order, with what the login service
/// said of each.
pub fn user_lines<S>(sm: &SessionManager<Client<S>>) -> (r: Vec<UserLine>)
    ensures
        r.len() == sm.order().len(),
        forall|i: int|
            0 <= i < r.len() ==> #[trigger] r[i].id@ == sm.order()[i] && info_view(r[i].info)
                == info_view(sm@[sm.order()[i]].info),
{
    let mut out: Vec<UserLine> = Vec::new();
    let mut i: usize = 0;
    while i < sm.len()
        invariant
            i <= sm.order().len(),
            out.len() == i,
            forall|j: int|
                0 <= j < i ==> #[trigger] out[j].id@ == sm.order()[j] && info_view(out[j].info)
                    == info_view(sm@[sm.order()[j]].info),
        decreases sm.order().len() - i,
    {
        let (k, c) = sm.entry_at(i);
        out.push(UserLine { id: k.clone(), info: clone_info(&c.info) });
        i = i + 1;
    }
    out
}

/// The sessions that a message sent through the administration interface
/// goes to: every session when it names no receiver, else the connected
/// ones among its receivers, in the order given.
pub fn send_targets<T>(sm: &SessionManager<T>, receivers: &Vec<Session>) -> (r: Vec<Session>)
    ensures
        receivers.len() == 0 ==> session_ids(r@) == sm.order(),
        receivers.len() > 0 ==> session_ids(r@) == present(session_ids(receivers@), sm@),
{
    if receivers.len() == 0 {
        sm.keys()
    } else {
        connected_receivers(sm, receivers)
    }
}

/// The form of a short UUID: 22 characters of the flickrBase58 alphabet.
pub open spec fn is_short_uuid(s: Seq<char>) -> bool {
    &&& s.len() == 22
    &&& forall|i: int|
        0 <= i < s.len() ==> "123456789abcdefghijkmnopqrstuvwxyzABCDEFGHJKLMNPQRSTUVWXYZ"@.contains(
            #[trigger] s[i],
        )
}

/// `short_uuid::ShortUuid::generate()`, written out with `to_string`. The
/// result is random: the contract states only its form, 22 characters of
/// the flickrBase58 alphabet, as the crate's source pads and encodes it.
#[verifier::external_body]
fn generate_short_uuid() -> (r: String)
    ensures
        is_short_uuid(r@),
{
    short_uuid::ShortUuid::generate().to_string()
}

/// The answer of the stand-in login service: a fresh session, with the
/// request's members as the user's information.
pub fn login_reply(payload: Vec<(String, JsonValue)>) -> (r: (Session, Info))
    ensures
        is_short_uuid(r.0@),
        info_view(r.1) == Some(fields_view(payload@)),
{
    let uuid = generate_short_uuid();
    (Session::from_text(uuid.as_str()), Some(payload))
}

/// The bytes of `application/json`.
pub open spec fn json_mime_bytes() -> Seq<u8> {
    seq![97u8, 112, 112, 108, 105, 99, 97, 116, 105, 111, 110, 47, 106, 115, 111, 110]
}

/// Whether an `Accept` header asks for JSON: exactly `application/json`.
pub fn accepts_json(accept: Option<&[u8]>) -> (r: bool)
    ensures
        r == (accept matches Some(b) && b@ == json_mime_bytes()),
{
    match accept {
        None => false,
        Some(b) => {
            let want: [u8; 16] = [97, 112, 112, 108, 105, 99, 97, 116, 105, 111, 110, 47, 106, 115, 111, 110];
            assert(want@ == json_mime_bytes());
            if b.len() != 16 {
                return false;
            }
            let mut i: usize = 0;
            while i < 16
                invariant
                    i <= 16,
                    accept == Some(b),
                    b@.len() == 16,
                    want@ == json_mime_bytes(),
                    forall|j: int| 0 <= j < i ==> b@[j] == want@[j],
                decreases 16 - i,
            {
                if b[i] != want[i] {
                    assert(b@[i as int] != json_mime_bytes()[i as int]);
                    return false;
                }
                i = i + 1;
            }
            assert(b@ =~= json_mime_bytes());
            true
        },
    }
}

/// The JSON text that a JSON request body is echoed as: the body parsed as
/// a JSON value and written out again; nothing when it is not JSON.
pub uninterp spec fn json_echo(body: Seq<char>) -> Option<Seq<char>>;

/// Parses `body` with `serde_json::from_str` into a `serde_json::Value` and
/// writes it out with `serde_json::to_string`, as axum's `Json` response
/// does. Its result is named `json_echo`; nothing more is claimed of it.
#[verifier::external_body]
fn reencode_json(body: &str) -> (r: Option<String>)
    ensures
        opt_string_view(r) == json_echo(body@),
{
    let v: serde_json::Value = serde_json::from_str(body).ok()?;
    serde_json::to_string(&v).ok()
}

/// What the echo endpoint answers.
pub enum EchoReply {
    /// This JSON text, as a JSON response.
    Json(String),
    /// The body was asked to be echoed as JSON but is not JSON: an error.
    Invalid,
    /// The request body itself, as it came.
    Raw,
}

/// The echo endpoint's answer: a body that is asked back as JSON is parsed
/// and written out again, or refused when it is not JSON; any other body is
/// sent back as it is.
pub fn echo_reply(accept: Option<&[u8]>, body: &str) -> (r: EchoReply)
    ensures
        accept matches Some(b) && b@ == json_mime_bytes() ==> match json_echo(body@) {
            Some(t) => (r matches EchoReply::Json(j) && j@ == t),
            None => r is Invalid,
        },
        !(accept matches Some(b) && b@ == json_mime_bytes()) ==> r is Raw,
{
    if accepts_json(accept) {
        match reencode_json(body) {
            Some(t) => EchoReply::Json(t),
            None => EchoReply::Invalid,
        }
    } else {
        EchoReply::Raw
    }
}

} // verus!

//! What an HTTP request asks for and how a query's outcome is answered:
//! query parameters, the `/icon` suffix, status and error replies, the PNG
//! icon reply and the body of a rejected query string.

use vstd::prelude::*;

use base64::Engine;
use vstd::string::StringExecFns;

use crate::query::Edition;
use crate::status::{ErrorResponse, QueryError, StatusResponse};
use crate::text::{chars_of, last_piece, last_piece_of, string_from_chars, trim_chars, trimmed};

verus! {

/// Query parameters shared by the status endpoints.
pub struct QueryParams {
    /// Server address, possibly followed by `/icon`.
    pub ip: String,
    /// Whether a cached result may be used; absent means yes.
    pub cache: Option<bool>,
}

impl QueryParams {
    /// Whether a cached result may be used (defaults to `true`).
    pub fn use_cache(&self) -> (b: bool)
        ensures
            b == match self.cache {
                Some(c) => c,
                None => true,
            },
    {
        match self.cache {
            Some(c) => c,
            None => true,
        }
    }
}

/// The status endpoints.
#[derive(Clone, Copy, PartialEq, Eq, Structural)]
pub enum Endpoint {
    /// `/`: Java and Bedrock probed side by side.
    Auto,
    /// `/java`.
    Java,
    /// `/bedrock`.
    Bedrock,
}

/// What a request to a status endpoint is answered with.
pub enum Plan {
    /// The Java server icon of this host, as a PNG image.
    Icon(String),
    /// The status of this host as JSON, probed as the endpoint says.
    Status(Edition, String),
    /// The status of this host as JSON, Java and Bedrock probed side by side.
    AutoStatus(String),
}

/// The suffix that asks for the server icon.
pub open spec fn icon_suffix() -> Seq<char> {
    seq!['/', 'i', 'c', 'o', 'n']
}

/// `ip` ends with `/icon`.
pub open spec fn asks_for_icon(ip: Seq<char>) -> bool {
    ip.len() >= 5 && ip.subrange(ip.len() - 5, ip.len() as int) == icon_suffix()
}

/// The address before the `/icon` suffix.
pub open spec fn icon_host(ip: Seq<char>) -> Seq<char> {
    ip.subrange(0, ip.len() - 5)
}

/// Which answer a request to `endpoint` with `ip` gets: on `/java` and `/`
/// an address ending with `/icon` asks for the Java icon of the address
/// before the suffix; everything else asks for a status.
pub fn plan_request(endpoint: Endpoint, ip: &str) -> (plan: Plan)
    ensures
        (endpoint != Endpoint::Bedrock && asks_for_icon(ip@)) ==> (plan matches Plan::Icon(h)
            && h@ == icon_host(ip@)),
        (endpoint == Endpoint::Java && !asks_for_icon(ip@)) ==> (plan matches Plan::Status(e, h)
            && e == Edition::Java && h@ == ip@),
        endpoint == Endpoint::Bedrock ==> (plan matches Plan::Status(e, h) && e == Edition::Bedrock
            && h@ == ip@),
        (endpoint == Endpoint::Auto && !asks_for_icon(ip@)) ==> (plan matches Plan::AutoStatus(h)
            && h@ == ip@),
{
    if endpoint == Endpoint::Bedrock {
        return Plan::Status(Edition::Bedrock, String::from_str(ip));
    }
    let s = chars_of(ip);
    let n = s.len();
    if n >= 5 && s[n - 5] == '/' && s[n - 4] == 'i' && s[n - 3] == 'c' && s[n - 2] == 'o' && s[n
        - 1] == 'n' {
        assert(s@.subrange(n - 5, n as int) =~= icon_suffix());
        let mut host: Vec<char> = Vec::new();
        let mut i: usize = 0;
        while i < n - 5
            invariant
                i <= n - 5,
                n == s@.len(),
                host@ == s@.subrange(0, i as int),
            decreases n - 5 - i,
        {
            host.push(s[i]);
            i = i + 1;
        }
        Plan::Icon(string_from_chars(&host))
    } else {
        assert(!asks_for_icon(ip@)) by {
            if asks_for_icon(ip@) {
                let t = s@.subrange(n - 5, n as int);
                assert(t[0] == s@[n - 5] && t[1] == s@[n - 4] && t[2] == s@[n - 3] && t[3] == s@[n
                    - 2] && t[4] == s@[n - 1]);
            }
        }
        match endpoint {
            Endpoint::Java => Plan::Status(Edition::Java, String::from_str(ip)),
            _ => Plan::AutoStatus(String::from_str(ip)),
        }
    }
}

/// JSON reply to a status query (HTTP 200 either way).
pub enum StatusReply {
    Status(StatusResponse),
    Error(ErrorResponse),
}

/// The reply to a status query's outcome: the status, or the error message.
pub fn status_reply(outcome: Result<StatusResponse, QueryError>) -> (reply: StatusReply)
    ensures
        match outcome {
            Ok(resp) => reply == StatusReply::Status(resp),
            Err(e) => reply matches StatusReply::Error(body) && body.error == e.0,
        },
{
    match outcome {
        Ok(resp) => StatusReply::Status(resp),
        Err(e) => StatusReply::Error(ErrorResponse { error: e.0 }),
    }
}

/// Reply of the icon endpoint.
pub enum IconReply {
    /// HTTP 200 with these PNG bytes.
    Png(Vec<u8>),
    /// HTTP 404 with this JSON body.
    NotFound(ErrorResponse),
}

/// Bytes that the standard Base64 alphabet (with padding) decodes `text`
/// into, or `None` where `text` is not valid Base64.
pub uninterp spec fn base64_standard_decoded(text: Seq<char>) -> Option<Seq<u8>>;

#[verifier::external_type_specification]
#[verifier::external_body]
pub struct ExDecodeError(base64::DecodeError);

/// Calls `base64::engine::general_purpose::STANDARD.decode` on the UTF-8
/// bytes of `text`.
///
/// Trusted: decoding depends on the input alone, so its result is named by
/// [`base64_standard_decoded`]; nothing more is claimed of it.
#[verifier::external_body]
fn decode_base64(text: &str) -> (r: Result<Vec<u8>, base64::DecodeError>)
    ensures
        match r {
            Ok(bytes) => base64_standard_decoded(text@) == Some(bytes@),
            Err(_) => base64_standard_decoded(text@) is None,
        },
{
    base64::engine::general_purpose::STANDARD.decode(text)
}

/// The Base64 text of an icon: the part after its last `,` (which drops a
/// `data:image/png;base64,` prefix), trimmed of white space.
pub open spec fn icon_base64(icon: Seq<char>) -> Seq<char> {
    trimmed(last_piece(icon, ','))
}

/// The Base64 text of an icon.
pub fn icon_payload(icon: &str) -> (text: String)
    ensures
        text@ == icon_base64(icon@),
{
    let all = chars_of(icon);
    let piece = last_piece_of(&all, ',');
    let t = trim_chars(&piece);
    string_from_chars(&t)
}

/// The icon reply once the icon text has been decoded (`None` when it was
/// not valid Base64).
pub fn icon_reply_from_decoded(decoded: Option<Vec<u8>>) -> (reply: IconReply)
    ensures
        match decoded {
            Some(bytes) => reply == IconReply::Png(bytes),
            None => reply matches IconReply::NotFound(body) && body.error@ == "Invalid icon data"@,
        },
{
    match decoded {
        Some(bytes) => IconReply::Png(bytes),
        None => IconReply::NotFound(ErrorResponse { error: String::from_str("Invalid icon data") }),
    }
}

/// Serves the Java server icon from the outcome of a Java status query: a
/// failed query, a missing icon and invalid Base64 each give a 404 with
/// their message; otherwise the decoded PNG bytes.
pub fn java_icon_reply(outcome: Result<StatusResponse, QueryError>) -> (reply: IconReply)
    ensures
        match outcome {
            Err(e) => reply matches IconReply::NotFound(body) && body.error == e.0,
            Ok(resp) => match resp.icon {
                None => reply matches IconReply::NotFound(body) && body.error@
                    == "Server has no icon"@,
                Some(icon) => match base64_standard_decoded(icon_base64(icon@)) {
                    Some(bytes) => reply matches IconReply::Png(png) && png@ == bytes,
                    None => reply matches IconReply::NotFound(body) && body.error@
                        == "Invalid icon data"@,
                },
            },
        },
{
    match outcome {
        Err(e) => IconReply::NotFound(ErrorResponse { error: e.0 }),
        Ok(resp) => match resp.icon {
            None => IconReply::NotFound(ErrorResponse { error: String::from_str("Server has no icon") }),
            Some(icon) => {
                let text = icon_payload(icon.as_str());
                let decoded = match decode_base64(text.as_str()) {
                    Ok(bytes) => Some(bytes),
                    Err(_) => None,
                };
                icon_reply_from_decoded(decoded)
            },
        },
    }
}

/// One entry of a FastAPI-style validation error body.
pub struct ValidationDetail {
    /// `type` of the entry.
    pub kind: String,
    /// Where the problem lies.
    pub loc: Vec<String>,
    /// Human-readable message.
    pub msg: String,
}

/// The validation entry for a rejected query string: a query string that
/// could not be deserialized is reported as a missing `ip`; any other
/// rejection as an invalid request. `message` is the rejection's text.
pub fn validation_detail(failed_to_deserialize: bool, message: &str) -> (d: ValidationDetail)
    ensures
        d.msg@ == message@,
        failed_to_deserialize ==> d.kind@ == "missing"@ && d.loc@.len() == 2 && d.loc@[0]@
            == "query"@ && d.loc@[1]@ == "ip"@,
        !failed_to_deserialize ==> d.kind@ == "invalid_request"@ && d.loc@.len() == 1
            && d.loc@[0]@ == "query"@,
{
    let mut loc: Vec<String> = Vec::new();
    loc.push(String::from_str("query"));
    if failed_to_deserialize {
        loc.push(String::from_str("ip"));
        ValidationDetail { kind: String::from_str("missing"), loc, msg: String::from_str(message) }
    } else {
        ValidationDetail {
            kind: String::from_str("invalid_request"),
            loc,
            msg: String::from_str(message),
        }
    }
}

} // verus!

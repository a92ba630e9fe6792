use vstd::prelude::*;
use vstd::string::StringExecFns;
use crate::json::{Json, JsonV};
use crate::error::ClientError;
use crate::text::{take_chars, truncate_chars};

verus! {

/// The top-level JSON wrapper every endpoint of the API returns: a status
/// discriminator, an optional payload, optional error fields, and optional
/// warnings.
pub struct Envelope {
    pub status: String,
    pub data: Option<Json>,
    pub error_type: Option<String>,
    pub error: Option<String>,
    pub warnings: Option<Vec<String>>,
}

/// The texts of a sequence of strings.
pub open spec fn texts_of(v: Seq<String>) -> Seq<Seq<char>> {
    v.map_values(|s: String| s@)
}

/// The payload a success envelope carries: its `data` value, or JSON null
/// when the server omitted it.
pub open spec fn data_of(env: Envelope) -> JsonV {
    match env.data {
        Some(d) => d@,
        None => JsonV::Null,
    }
}

/// The warning list of an envelope, empty when absent.
pub open spec fn warnings_of(env: Envelope) -> Seq<Seq<char>> {
    match env.warnings {
        Some(w) => texts_of(w@),
        None => Seq::empty(),
    }
}

/// The server's error type, defaulted when it was omitted.
pub open spec fn remote_error_type(env: Envelope) -> Seq<char> {
    match env.error_type {
        Some(t) => t@,
        None => "unknown"@,
    }
}

/// The server's error message, defaulted when it was omitted.
pub open spec fn remote_error_message(env: Envelope) -> Seq<char> {
    match env.error {
        Some(m) => m@,
        None => "unknown error"@,
    }
}

/// The protocol error for a response body that does not parse as the
/// envelope: keeps the HTTP status and the first 200 characters of the
/// body as a diagnostic preview.
pub fn malformed_error(http_status: u16, body: &str) -> (r: ClientError)
    ensures
        r matches ClientError::Malformed { http_status: s, body_preview: p } && s == http_status
            && p@ == take_chars(body@, 200),
{
    let preview = truncate_chars(body, 200);
    ClientError::Malformed { http_status, body_preview: String::from_str(preview) }
}

/// Checks the envelope's status discriminator. A status of exactly
/// `"success"` yields the payload (null when `data` was omitted) and the
/// warnings to surface, in order; any other status is a remote error that
/// carries the server's error type and message, each defaulted when the
/// server omitted it — whether `data` was present makes no difference.
pub fn validate(env: Envelope) -> (r: Result<(Json, Vec<String>), ClientError>)
    ensures
        env.status@ == "success"@ ==> (r matches Ok(p) && p.0@ == data_of(env) && texts_of(p.1@)
            == warnings_of(env)),
        env.status@ != "success"@ ==> (r matches Err(e) && (e matches ClientError::Remote {
            error_type,
            error_message,
        } && error_type@ == remote_error_type(env) && error_message@ == remote_error_message(
            env,
        ))),
{
    proof {
        reveal_strlit("success");
        reveal_strlit("unknown");
        reveal_strlit("unknown error");
    }
    let success = String::from_str("success");
    if env.status == success {
        let data = match env.data {
            Some(d) => d,
            None => Json::Null,
        };
        let warnings = match env.warnings {
            Some(w) => w,
            None => Vec::new(),
        };
        proof {
            if env.warnings is None {
                assert(texts_of(Seq::<String>::empty()) =~= Seq::<Seq<char>>::empty());
            }
        }
        Ok((data, warnings))
    } else {
        let error_type = match env.error_type {
            Some(t) => t,
            None => String::from_str("unknown"),
        };
        let error_message = match env.error {
            Some(m) => m,
            None => String::from_str("unknown error"),
        };
        Err(ClientError::Remote { error_type, error_message })
    }
}

} // verus!

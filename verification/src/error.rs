use vstd::prelude::*;
use vstd::string::StringExecFns;
use crate::text::{dec_str, u16_to_dec};

verus! {

/// Everything that can go wrong in this layer, as the error taxonomy names
/// it: configuration errors, protocol errors, remote errors, output errors.
/// Transport failures stay outside the library and are passed through by the
/// caller.
#[derive(Debug)]
pub enum ClientError {
    /// A combined `user:password` string without a colon or with an empty
    /// user part.
    InvalidAuthFormat,
    /// Only one of the split user/password pair was supplied; the flag says
    /// whether the user side is the missing one.
    IncompleteCredentials { missing_user: bool },
    /// A series request with no matcher at all.
    MissingMatcher,
    /// The base URL or the joined endpoint does not parse as a URL.
    InvalidUrl,
    /// The response body is not a JSON envelope; carries the HTTP status and
    /// the first 200 characters of the body.
    Malformed { http_status: u16, body_preview: String },
    /// The envelope's status was not `"success"`; carries the server's error
    /// type and message, each defaulted when the server omitted it.
    Remote { error_type: String, error_message: String },
    /// Line output was asked of a value that is not an array.
    NotAnArray,
}

/// The diagnostic text of each error.
pub open spec fn message_of(e: ClientError) -> Seq<char> {
    match e {
        ClientError::InvalidAuthFormat => "auth must be in the form user:password"@,
        ClientError::IncompleteCredentials { missing_user } => if missing_user {
            "--user is required when using --password"@
        } else {
            "--password is required when using --user"@
        },
        ClientError::MissingMatcher => "--match is required for series queries"@,
        ClientError::InvalidUrl => "invalid base URL"@,
        ClientError::Malformed { http_status, body_preview } => "failed to parse response as JSON (status "@
            + dec_str(http_status as nat) + "): "@ + body_preview@,
        ClientError::Remote { error_type, error_message } => "API error ("@ + error_type@ + "): "@
            + error_message@,
        ClientError::NotAnArray => "expected an array response for lines output"@,
    }
}

impl ClientError {
    /// The diagnostic text a caller prints for this error.
    pub fn message(&self) -> (r: String)
        ensures
            r@ == message_of(*self),
    {
        match self {
            ClientError::InvalidAuthFormat => {
                proof {
                    reveal_strlit("auth must be in the form user:password");
                }
                String::from_str("auth must be in the form user:password")
            },
            ClientError::IncompleteCredentials { missing_user } => {
                if *missing_user {
                    proof {
                        reveal_strlit("--user is required when using --password");
                    }
                    String::from_str("--user is required when using --password")
                } else {
                    proof {
                        reveal_strlit("--password is required when using --user");
                    }
                    String::from_str("--password is required when using --user")
                }
            },
            ClientError::MissingMatcher => {
                proof {
                    reveal_strlit("--match is required for series queries");
                }
                String::from_str("--match is required for series queries")
            },
            ClientError::InvalidUrl => {
                proof {
                    reveal_strlit("invalid base URL");
                }
                String::from_str("invalid base URL")
            },
            ClientError::Malformed { http_status, body_preview } => {
                proof {
                    reveal_strlit("failed to parse response as JSON (status ");
                    reveal_strlit("): ");
                }
                let mut out = String::from_str("failed to parse response as JSON (status ");
                let status_text = u16_to_dec(*http_status);
                out.append(status_text.as_str());
                out.append("): ");
                out.append(body_preview.as_str());
                out
            },
            ClientError::Remote { error_type, error_message } => {
                proof {
                    reveal_strlit("API error (");
                    reveal_strlit("): ");
                }
                let mut out = String::from_str("API error (");
                out.append(error_type.as_str());
                out.append("): ");
                out.append(error_message.as_str());
                out
            },
            ClientError::NotAnArray => {
                proof {
                    reveal_strlit("expected an array response for lines output");
                }
                String::from_str("expected an array response for lines output")
            },
        }
    }
}

} // verus!

use vstd::prelude::*;
use vstd::string::StrSliceExecFns;
use vstd::string::StringExecFns;
use crate::error::ClientError;

verus! {

/// The one authentication mode a request carries, after precedence has been
/// applied: a bearer token, basic credentials, or nothing.
#[derive(Debug)]
pub enum AuthMode {
    NoAuth,
    Bearer(String),
    Basic(String, String),
}

/// The mathematical shape of an `AuthMode`.
pub enum AuthModeV {
    NoAuth,
    Bearer(Seq<char>),
    Basic(Seq<char>, Seq<char>),
}

impl View for AuthMode {
    type V = AuthModeV;

    open spec fn view(&self) -> AuthModeV {
        match self {
            AuthMode::NoAuth => AuthModeV::NoAuth,
            AuthMode::Bearer(t) => AuthModeV::Bearer(t@),
            AuthMode::Basic(u, p) => AuthModeV::Basic(u@, p@),
        }
    }
}

/// A combined `user:password` string is well formed when it has a colon and
/// a non-empty part before the first colon.
pub open spec fn valid_combined_auth(s: Seq<char>) -> bool {
    s.contains(':') && s.len() > 0 && s[0] != ':'
}

/// Splits a combined `user:password` string on its first colon. The user
/// part must be non-empty and a password part must exist; everything after
/// the first colon, further colons included, is the password.
pub fn split_auth(auth: &str) -> (r: Result<(String, String), ClientError>)
    ensures
        r matches Ok(up) ==> {
            &&& up.0@.len() > 0
            &&& !up.0@.contains(':')
            &&& auth@ == up.0@ + seq![':'] + up.1@
        },
        r is Ok <==> valid_combined_auth(auth@),
        r matches Err(e) ==> e matches ClientError::InvalidAuthFormat,
{
    let len = auth.unicode_len();
    let mut i: usize = 0;
    while i < len
        invariant
            0 <= i <= len,
            len == auth@.len(),
            forall|j: int| 0 <= j < i ==> auth@[j] != ':',
        decreases len - i,
    {
        if auth.get_char(i) == ':' {
            if i == 0 {
                return Err(ClientError::InvalidAuthFormat);
            }
            let user = auth.substring_char(0, i);
            let pass = auth.substring_char(i + 1, len);
            proof {
                assert(auth@ =~= user@ + seq![':'] + pass@);
                assert(auth@.contains(':')) by {
                    assert(auth@[i as int] == ':');
                }
                assert(!user@.contains(':')) by {
                    assert(forall|j: int|
                        0 <= j < user@.len() ==> #[trigger] user@[j] == auth@[j]);
                }
            }
            return Ok((String::from_str(user), String::from_str(pass)));
        }
        i += 1;
    }
    proof {
        assert(!auth@.contains(':')) by {
            assert(forall|j: int| 0 <= j < auth@.len() ==> auth@[j] != ':');
        }
    }
    Err(ClientError::InvalidAuthFormat)
}

/// Which authentication the configuration calls for. Precedence, first match
/// wins: a bearer token; a combined `user:password` string; the split
/// user/password pair; nothing.
pub open spec fn selected_auth(
    bearer: Option<Seq<char>>,
    combined: Option<Seq<char>>,
    user: Option<Seq<char>>,
    password: Option<Seq<char>>,
) -> Result<AuthModeV, ClientError> {
    match bearer {
        Some(t) => Ok(AuthModeV::Bearer(t)),
        None => match combined {
            Some(c) => if valid_combined_auth(c) {
                Ok(
                    AuthModeV::Basic(
                        c.subrange(0, first_colon(c)),
                        c.subrange(first_colon(c) + 1, c.len() as int),
                    ),
                )
            } else {
                Err(ClientError::InvalidAuthFormat)
            },
            None => match (user, password) {
                (Some(u), Some(p)) => Ok(AuthModeV::Basic(u, p)),
                (Some(u), None) => Err(ClientError::IncompleteCredentials { missing_user: false }),
                (None, Some(p)) => Err(ClientError::IncompleteCredentials { missing_user: true }),
                (None, None) => Ok(AuthModeV::NoAuth),
            },
        },
    }
}

/// The index of the first colon of a text that has one.
pub open spec fn first_colon(s: Seq<char>) -> int
    recommends
        s.contains(':'),
    decreases s.len(),
{
    if s.len() == 0 {
        0
    } else if s[0] == ':' {
        0
    } else {
        1 + first_colon(s.drop_first())
    }
}

/// A decomposition of `s` into a colon-free part, a colon, and a rest is
/// the split at the first colon.
proof fn lemma_first_colon_split(s: Seq<char>, u: Seq<char>, p: Seq<char>)
    requires
        s == u + seq![':'] + p,
        !u.contains(':'),
    ensures
        first_colon(s) == u.len(),
        u == s.subrange(0, u.len() as int),
        p == s.subrange(u.len() as int + 1, s.len() as int),
    decreases u.len(),
{
    assert(s.len() == u.len() + 1 + p.len());
    if u.len() == 0 {
        assert(s[0] == ':');
        assert(u =~= s.subrange(0, 0));
        assert(p =~= s.subrange(1, s.len() as int));
    } else {
        assert(s[0] == u[0]);
        assert(u.contains(u[0])) by {
            assert(u[0] == u[0]);
        }
        assert(s[0] != ':');
        let s1 = s.drop_first();
        let u1 = u.drop_first();
        assert(!u1.contains(':')) by {
            assert(forall|j: int| 0 <= j < u1.len() ==> #[trigger] u1[j] == u[j + 1]);
        }
        assert(s1 =~= u1 + seq![':'] + p);
        lemma_first_colon_split(s1, u1, p);
        assert(u =~= s.subrange(0, u.len() as int)) by {
            assert(forall|j: int|
                1 <= j < u.len() ==> #[trigger] u[j] == u1[j - 1] && u1[j - 1] == s1[j - 1]);
        }
        assert(p =~= s.subrange(u.len() as int + 1, s.len() as int)) by {
            assert(forall|j: int|
                0 <= j < p.len() ==> #[trigger] p[j] == s1[u1.len() + 1 + j]);
        }
    }
}

/// Picks the one authentication mode the configuration calls for, by the
/// fixed precedence: bearer token, then combined auth string, then the
/// split user/password pair, then none.
pub fn select_auth(
    bearer: &Option<String>,
    combined: &Option<String>,
    user: &Option<String>,
    password: &Option<String>,
) -> (r: Result<AuthMode, ClientError>)
    ensures
        (match r {
            Ok(m) => Ok(m@),
            Err(e) => Err(e),
        }) == selected_auth(
            opt_text(*bearer),
            opt_text(*combined),
            opt_text(*user),
            opt_text(*password),
        ),
{
    if let Some(token) = bearer {
        return Ok(AuthMode::Bearer(token.clone()));
    }
    if let Some(auth) = combined {
        return match split_auth(auth.as_str()) {
            Ok((u, p)) => {
                proof {
                    lemma_first_colon_split(auth@, u@, p@);
                }
                Ok(AuthMode::Basic(u, p))
            },
            Err(e) => Err(e),
        };
    }
    if let Some(u) = user {
        return match password {
            Some(p) => Ok(AuthMode::Basic(u.clone(), p.clone())),
            None => Err(ClientError::IncompleteCredentials { missing_user: false }),
        };
    }
    if password.is_some() {
        return Err(ClientError::IncompleteCredentials { missing_user: true });
    }
    Ok(AuthMode::NoAuth)
}

/// Bearer precedence: whenever a bearer token is supplied, the selected
/// mode is bearer auth with that token — whatever combined auth string or
/// split credentials also stand in the configuration, they play no part.
pub proof fn lemma_bearer_precedence(
    bearer: Seq<char>,
    combined: Option<Seq<char>>,
    user: Option<Seq<char>>,
    password: Option<Seq<char>>,
)
    ensures
        selected_auth(Some(bearer), combined, user, password) == Ok::<AuthModeV, ClientError>(
            AuthModeV::Bearer(bearer),
        ),
{
}

/// The text a present option holds.
pub open spec fn opt_text(o: Option<String>) -> Option<Seq<char>> {
    match o {
        Some(s) => Some(s@),
        None => None,
    }
}

} // verus!

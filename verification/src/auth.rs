//! Who may change the gallery.
//!
//! There is one administrator. A client that has logged in carries a signed
//! token, either in a cookie or after the word `Bearer` in a header. Signing
//! and checking tokens and hashing passwords are done elsewhere; here are the
//! rules around them.

use vstd::prelude::*;
use crate::text::{chars_of, string_of};

verus! {

/// How long a session lasts, in seconds.
pub const SESSION_SECONDS: u64 = 3600;

/// The name and the hashed password of the administrator.
#[derive(Clone, Debug)]
pub struct AdminCredentials {
    pub username: String,
    pub password_hash: String,
}

/// What the server is set up with.
#[derive(Clone, Debug)]
pub struct Config {
    pub jwt_secret: String,
    pub admin_credentials: AdminCredentials,
}

/// What a client sends to log in.
#[derive(Clone, Debug)]
pub struct LoginRequest {
    pub username: String,
    pub password: String,
}

/// What a client that has logged in gets back.
#[derive(Debug)]
pub struct LoginResponse {
    pub token: String,
}

/// What a token says: who it was given to, and until when it holds, in
/// seconds since 1970.
#[derive(Debug)]
pub struct Claims {
    pub sub: String,
    pub exp: usize,
}

/// The work factor for hashing the password, by the name of the environment
/// that the server runs in.
pub open spec fn cost_for(environment: Seq<char>) -> u32 {
    if environment == "production"@ {
        12
    } else if environment == "development"@ {
        4
    } else {
        10
    }
}

/// Chooses the work factor for hashing the password: high in production, low
/// in development, in between anywhere else.
pub fn bcrypt_cost(environment: &str) -> (cost: u32)
    ensures
        cost == cost_for(environment@),
{
    let name = environment.to_owned();
    if name == "production".to_owned() {
        12
    } else if name == "development".to_owned() {
        4
    } else {
        10
    }
}

/// The token in a header of the form `Bearer <token>`: what follows the
/// first seven characters, where those are `Bearer `.
pub open spec fn bearer_token_of(header: Seq<char>) -> Option<Seq<char>> {
    if header.len() >= 7 && header.take(7) == "Bearer "@ {
        Some(header.skip(7))
    } else {
        None
    }
}

/// Takes the token out of an authorization header. Returns `None` unless the
/// header starts with `Bearer ` .
pub fn bearer_token(header: &str) -> (token: Option<String>)
    ensures
        match token {
            Some(t) => bearer_token_of(header@) == Some(t@),
            None => bearer_token_of(header@) is None,
        },
{
    let v = chars_of(header);
    proof {
        reveal_strlit("Bearer ");
    }
    if v.len() < 7 {
        return None;
    }
    let matches = v[0] == 'B' && v[1] == 'e' && v[2] == 'a' && v[3] == 'r' && v[4] == 'e' && v[5]
        == 'r' && v[6] == ' ';
    if matches {
        assert(v@.take(7) =~= "Bearer "@);
        let token = string_of(&v, 7, v.len());
        assert(v@.subrange(7, v.len() as int) == v@.skip(7));
        Some(token)
    } else {
        assert(v@.take(7) != "Bearer "@) by {
            if v@.take(7) == "Bearer "@ {
                assert(v@.take(7)[0] == 'B' && v@.take(7)[1] == 'e' && v@.take(7)[2] == 'a'
                    && v@.take(7)[3] == 'r' && v@.take(7)[4] == 'e' && v@.take(7)[5] == 'r'
                    && v@.take(7)[6] == ' ');
            }
        }
        None
    }
}

/// Whether a login is accepted: the name must be the administrator's and the
/// password must have been found to match.
pub fn login_accepted(
    request: &LoginRequest,
    admin: &AdminCredentials,
    password_matches: bool,
) -> (accepted: bool)
    ensures
        accepted == (request.username@ == admin.username@ && password_matches),
{
    request.username == admin.username && password_matches
}

impl Claims {
    /// The claims of a session of `username` that starts at `now`, in seconds
    /// since 1970, and lasts `lifetime` seconds. The end of the session is
    /// the last moment that can be written where the sum cannot.
    pub fn for_session(username: String, now: u64, lifetime: u64) -> (claims: Claims)
        ensures
            claims.sub == username,
            claims.exp == if now + lifetime <= usize::MAX {
                (now + lifetime) as usize
            } else {
                usize::MAX
            },
    {
        let end: u128 = now as u128 + lifetime as u128;
        let exp: usize = if end <= usize::MAX as u128 {
            end as usize
        } else {
            usize::MAX
        };
        Claims { sub: username, exp }
    }
}

} // verus!

//! What the account endpoints compute: the profile shown for a user, and the
//! claims of a session token.

use vstd::prelude::*;

verus! {

/// A user as the session layer knows them.
#[derive(Clone, Debug, PartialEq, Eq)]
pub struct User {
    pub id: String,
    pub username: String,
    pub email: String,
    pub avatar: String,
    pub role: String,
}

/// A user as shown to themselves.
#[derive(Clone, Debug, PartialEq, Eq)]
pub struct Profile {
    pub id: String,
    pub username: String,
    pub email: String,
    pub avatar: String,
    pub role: String,
}

/// What a sign-up hands in.
#[derive(Clone, Debug, PartialEq, Eq)]
pub struct SignupPayload {
    pub username: String,
    pub email: String,
    pub password: String,
}

/// What a login hands in.
#[derive(Clone, Debug, PartialEq, Eq)]
pub struct LoginPayload {
    pub email: String,
    pub password: String,
}

/// The claims of a session token: whose it is, and the second at which it
/// expires, counted from the Unix epoch.
#[derive(Clone, Debug, PartialEq, Eq)]
pub struct Claims {
    pub sub: String,
    pub exp: usize,
}

/// The seconds that a session token is valid for: one day.
pub const TOKEN_LIFETIME_SECS: i64 = 86_400;

/// The profile of a user: the same five values.
pub fn me(user: &User) -> (profile: Profile)
    ensures
        profile.id@ == user.id@,
        profile.username@ == user.username@,
        profile.email@ == user.email@,
        profile.avatar@ == user.avatar@,
        profile.role@ == user.role@,
{
    Profile {
        id: user.id.clone(),
        username: user.username.clone(),
        email: user.email.clone(),
        avatar: user.avatar.clone(),
        role: user.role.clone(),
    }
}

/// What a member of a workspace may do to its pages.
#[derive(Clone, Copy, Debug, PartialEq, Eq, Structural)]
pub enum WriteAccess {
    /// The user may create, rename and delete pages.
    Allowed,
    /// The user is a viewer of the workspace.
    Viewer,
    /// The user is no member of the workspace.
    NotMember,
}

/// What the role `role` of a user in a workspace lets them do; `None` is the
/// role of one who is no member.
pub open spec fn access_of(role: Option<Seq<char>>) -> WriteAccess {
    match role {
        None => WriteAccess::NotMember,
        Some(name) => if name == "viewer"@ {
            WriteAccess::Viewer
        } else {
            WriteAccess::Allowed
        },
    }
}

/// Decides whether a user with the role `role` may write to a workspace.
pub fn write_access(role: &Option<String>) -> (access: WriteAccess)
    ensures
        access == access_of(crate::page::opt_text(*role)),
{
    match role {
        None => WriteAccess::NotMember,
        Some(name) => {
            let viewer = "viewer".to_owned();
            if *name == viewer {
                WriteAccess::Viewer
            } else {
                WriteAccess::Allowed
            }
        },
    }
}

/// The cookie that carries the session token `token`, valid for as long as
/// the token.
pub fn session_cookie(token: &str) -> (cookie: String)
    ensures
        cookie@ == "axtoken="@ + token@ + "; HttpOnly; Path=/; Max-Age=86400"@,
{
    let mut cookie = "axtoken=".to_owned();
    cookie.append(token);
    cookie.append("; HttpOnly; Path=/; Max-Age=86400");
    cookie
}

/// The cookie that ends a session.
pub fn expired_cookie() -> (cookie: String)
    ensures
        cookie@ == "axtoken=; HttpOnly; Path=/; Max-Age=0; "@,
{
    "axtoken=; HttpOnly; Path=/; Max-Age=0; ".to_owned()
}

impl Claims {
    /// The claims of a token issued to `user_id` at the second `now`: it
    /// expires one day later. `None` where that second is before the epoch
    /// or beyond what `usize` holds.
    pub fn issue(user_id: &str, now: i64) -> (claims: Option<Claims>)
        ensures
            match claims {
                Some(c) => {
                    &&& c.sub@ == user_id@
                    &&& c.exp == now + TOKEN_LIFETIME_SECS
                },
                None => now + TOKEN_LIFETIME_SECS < 0 || now + TOKEN_LIFETIME_SECS > usize::MAX,
            },
    {
        if now < -TOKEN_LIFETIME_SECS {
            return None;
        }
        let expires: u64 = if now < 0 {
            (now + TOKEN_LIFETIME_SECS) as u64
        } else {
            now as u64 + TOKEN_LIFETIME_SECS as u64
        };
        if expires > usize::MAX as u64 {
            return None;
        }
        Some(Claims { sub: user_id.to_owned(), exp: expires as usize })
    }
}

} // verus!

use scraper_service::account::{
    expired_cookie, me, session_cookie, write_access, Claims, LoginPayload, Profile,
    SignupPayload, User, WriteAccess,
    TOKEN_LIFETIME_SECS,
};

#[test]
fn the_profile_of_a_user_has_the_same_values() {
    let user = User {
        id: "7d1f".to_string(),
        username: "ada".to_string(),
        email: "ada@example.com".to_string(),
        avatar: "a.png".to_string(),
        role: "owner".to_string(),
    };
    assert_eq!(
        me(&user),
        Profile {
            id: "7d1f".to_string(),
            username: "ada".to_string(),
            email: "ada@example.com".to_string(),
            avatar: "a.png".to_string(),
            role: "owner".to_string(),
        }
    );
}

#[test]
fn a_token_expires_one_day_after_it_is_issued() {
    assert_eq!(TOKEN_LIFETIME_SECS, 86_400);
    assert_eq!(
        Claims::issue("user-1", 1_700_000_000),
        Some(Claims { sub: "user-1".to_string(), exp: 1_700_086_400 })
    );
    assert_eq!(Claims::issue("", 0), Some(Claims { sub: String::new(), exp: 86_400 }));
    assert_eq!(Claims::issue("u", -86_400), Some(Claims { sub: "u".to_string(), exp: 0 }));
}

#[test]
fn a_token_that_would_expire_before_the_epoch_is_not_issued() {
    assert_eq!(Claims::issue("u", -86_401), None);
    assert_eq!(Claims::issue("u", i64::MIN), None);
}

#[test]
fn a_viewer_and_a_stranger_may_not_write() {
    assert_eq!(write_access(&None), WriteAccess::NotMember);
    assert_eq!(write_access(&Some("viewer".to_string())), WriteAccess::Viewer);
}

#[test]
fn any_other_role_may_write() {
    for role in ["owner", "editor", "", "Viewer", "viewer ", "viewers"] {
        assert_eq!(write_access(&Some(role.to_string())), WriteAccess::Allowed);
    }
}

#[test]
fn the_session_cookie_carries_the_token_for_a_day() {
    assert_eq!(session_cookie("abc.def"), "axtoken=abc.def; HttpOnly; Path=/; Max-Age=86400");
    assert_eq!(session_cookie(""), "axtoken=; HttpOnly; Path=/; Max-Age=86400");
    assert_eq!(expired_cookie(), "axtoken=; HttpOnly; Path=/; Max-Age=0; ");
}

#[test]
fn the_payloads_of_sign_up_and_login_hold_what_was_handed_in() {
    let signup = SignupPayload {
        username: "ada".to_string(),
        email: "ada@example.com".to_string(),
        password: "secret".to_string(),
    };
    assert_eq!(signup.clone(), signup);
    assert_eq!(signup.username, "ada");
    let login = LoginPayload { email: signup.email.clone(), password: signup.password.clone() };
    assert_eq!(login.email, "ada@example.com");
    assert_eq!(login.password, "secret");
}

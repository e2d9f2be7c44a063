use isq::oauth::{
    build_auth_url, encode, generate_code_challenge, generate_code_verifier, lookup, poll_step,
    read_callback, CallbackStep, PollStep, TokenResponse, REDIRECT_PORT,
};

#[test]
fn encode_keeps_unreserved_bytes() {
    assert_eq!(encode("AZaz09-_.~"), "AZaz09-_.~");
    assert_eq!(encode(""), "");
    assert_eq!(encode("read,write"), "read%2Cwrite");
    assert_eq!(encode("http://127.0.0.1:19284/callback"), "http%3A%2F%2F127.0.0.1%3A19284%2Fcallback");
    assert_eq!(encode("a b+c"), "a%20b%2Bc");
    assert_eq!(encode("ü"), "%C3%BC");
    assert_eq!(encode("\u{0}\u{7f}"), "%00%7F");
    assert_eq!(encode("@[`{"), "%40%5B%60%7B");
}

#[test]
fn the_auth_url_carries_challenge_and_state() {
    assert_eq!(REDIRECT_PORT, 19284);
    assert_eq!(
        build_auth_url("CHALLENGE", "STATE"),
        "https://linear.app/oauth/authorize?client_id=a6c010f01947bd3b847cb3c1707366e5&redirect_uri=http%3A%2F%2F127.0.0.1%3A19284%2Fcallback&response_type=code&scope=read%2Cwrite&code_challenge=CHALLENGE&code_challenge_method=S256&state=STATE"
    );
}

#[test]
fn the_challenge_is_the_hash_of_the_verifier() {
    assert_eq!(
        generate_code_challenge("dBjftJeZ4CVP-mB92K27uhbUJU1p1r_wW1gFWFOEjXk"),
        "E9Melhoa2OwvFrEMTJguCHaoeK1t8URWbuGJSstw-cM"
    );
    assert_eq!(generate_code_challenge(""), "47DEQpj8HBSa-_TImW-5JCeuQeRkm5NMpJWZG3hSuFU");
}

#[test]
fn verifiers_are_fresh_and_safe_for_urls() {
    let a = generate_code_verifier();
    let b = generate_code_verifier();
    assert_eq!(a.len(), 43);
    assert_ne!(a, b);
    assert!(a.chars().all(|c| c.is_ascii_alphanumeric() || c == '-' || c == '_'));
    assert_eq!(encode(&a), a);
}

#[test]
fn token_responses_are_plain_records() {
    let token = TokenResponse {
        access_token: "t".to_string(),
        token_type: "Bearer".to_string(),
        expires_in: Some(3600),
        scope: None,
        refresh_token: None,
    };
    assert_eq!(token.access_token, "t");
    assert_eq!(token.expires_in, Some(3600));
}

#[test]
fn device_flow_errors() {
    assert!(matches!(poll_step("authorization_pending", None), PollStep::KeepPolling));
    assert!(matches!(poll_step("slow_down", Some("x")), PollStep::SlowDown));
    assert!(matches!(poll_step("expired_token", None), PollStep::Fail(m) if m == "Authorization timed out. Please try again."));
    assert!(matches!(poll_step("access_denied", None), PollStep::Fail(m) if m == "Authorization was denied."));
    assert!(matches!(poll_step("incorrect_client_credentials", Some("bad id")), PollStep::Fail(m) if m == "GitHub error: incorrect_client_credentials - bad id"));
    assert!(matches!(poll_step("other", None), PollStep::Fail(m) if m == "GitHub error: other - "));
}

#[test]
fn the_last_value_of_a_key_counts() {
    let pieces: Vec<String> =
        ["a=1", "b", "a=2", "c=", "=x", "d=e=f"].iter().map(|p| p.to_string()).collect();
    assert_eq!(lookup(&pieces, "a"), Some("2".to_string()));
    assert_eq!(lookup(&pieces, "b"), None);
    assert_eq!(lookup(&pieces, "c"), Some(String::new()));
    assert_eq!(lookup(&pieces, ""), Some("x".to_string()));
    assert_eq!(lookup(&pieces, "d"), Some("e=f".to_string()));
    assert_eq!(lookup(&[].to_vec(), "a"), None);
}

#[test]
fn callbacks_are_read_from_the_path() {
    assert!(matches!(read_callback("/favicon.ico", "S"), CallbackStep::Ignore));
    assert!(matches!(read_callback("", "S"), CallbackStep::Ignore));
    assert!(matches!(
        read_callback("/callback?code=abc&state=S", "S"),
        CallbackStep::Accept { page, code } if code == "abc" && page == "Authorization successful! You can close this tab."
    ));
    assert!(matches!(
        read_callback("/callback?state=S&code=abc&code=xyz", "S"),
        CallbackStep::Accept { code, .. } if code == "xyz"
    ));
    assert!(matches!(
        read_callback("/callback?code=abc&state=T", "S"),
        CallbackStep::Refuse { page, error } if page == "State mismatch - possible CSRF attack" && error == "State mismatch"
    ));
    assert!(matches!(
        read_callback("/callback?code=abc", "S"),
        CallbackStep::Fail { error } if error == "Missing state parameter"
    ));
    assert!(matches!(
        read_callback("/callback", "S"),
        CallbackStep::Fail { error } if error == "Missing state parameter"
    ));
    assert!(matches!(
        read_callback("/callbackx?state=S&code=abc", "S"),
        CallbackStep::Fail { error } if error == "Missing state parameter"
    ));
    assert!(matches!(
        read_callback("/callback?state=S", "S"),
        CallbackStep::Fail { error } if error == "Missing code parameter"
    ));
    assert!(matches!(
        read_callback("/callback?error=access_denied&error_description=no&state=S&code=abc", "S"),
        CallbackStep::Refuse { page, error } if page == "Authorization failed: no" && error == "OAuth error: access_denied - no"
    ));
    assert!(matches!(
        read_callback("/callback?error=boom", "S"),
        CallbackStep::Refuse { page, error } if page == "Authorization failed: Unknown error" && error == "OAuth error: boom - Unknown error"
    ));
}

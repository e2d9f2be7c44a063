use isq::credentials::{Credential, CredentialError};

#[test]
fn test_credential_serialization_full() {
    let cred = Credential {
        access_token: "ghp_abc123".to_string(),
        refresh_token: Some("ghr_xyz789".to_string()),
        expires_at: Some("2024-12-31T23:59:59Z".to_string()),
    };

    let json = cred.to_json().unwrap();
    assert!(json.contains("ghp_abc123"));
    assert!(json.contains("ghr_xyz789"));
    assert!(json.contains("2024-12-31T23:59:59Z"));
    assert_eq!(
        json,
        r#"{"access_token":"ghp_abc123","refresh_token":"ghr_xyz789","expires_at":"2024-12-31T23:59:59Z"}"#
    );
}

#[test]
fn test_credential_serialization_minimal() {
    let cred = Credential {
        access_token: "token123".to_string(),
        refresh_token: None,
        expires_at: None,
    };

    let json = cred.to_json().unwrap();
    assert!(json.contains("token123"));
    // Optional fields should be omitted when None
    assert!(!json.contains("refresh_token"));
    assert!(!json.contains("expires_at"));
    assert_eq!(json, r#"{"access_token":"token123"}"#);
}

#[test]
fn test_credential_deserialization_full() {
    let json = r#"{"access_token":"abc","refresh_token":"xyz","expires_at":"2024-01-01"}"#;
    let cred = Credential::from_json(json).unwrap();

    assert_eq!(cred.access_token, "abc");
    assert_eq!(cred.refresh_token, Some("xyz".to_string()));
    assert_eq!(cred.expires_at, Some("2024-01-01".to_string()));
}

#[test]
fn test_credential_deserialization_minimal() {
    let json = r#"{"access_token":"token_only"}"#;
    let cred = Credential::from_json(json).unwrap();

    assert_eq!(cred.access_token, "token_only");
    assert_eq!(cred.refresh_token, None);
    assert_eq!(cred.expires_at, None);
}

#[test]
fn test_credential_deserialization_with_null_fields() {
    let json = r#"{"access_token":"tok","refresh_token":null,"expires_at":null}"#;
    let cred = Credential::from_json(json).unwrap();

    assert_eq!(cred.access_token, "tok");
    assert_eq!(cred.refresh_token, None);
    assert_eq!(cred.expires_at, None);
}

#[test]
fn test_credential_roundtrip_serialization() {
    let stored = Credential {
        access_token: "access".to_string(),
        refresh_token: Some("refresh".to_string()),
        expires_at: Some("2025-06-15T12:00:00Z".to_string()),
    };

    let json = stored.to_json().unwrap();
    let restored = Credential::from_json(&json).unwrap();

    assert_eq!(stored.access_token, restored.access_token);
    assert_eq!(stored.refresh_token, restored.refresh_token);
    assert_eq!(stored.expires_at, restored.expires_at);
}

#[test]
fn credential_round_trip_keeps_every_character() {
    let tokens = ["", "plain", "with \"quotes\" and \\ and\nnewline\ttab", "ünï©ode \u{1F511}", "\u{0}\u{1f}"];
    for token in tokens {
        for refresh in [None, Some(token.to_string())] {
            for expires in [None, Some("2025-06-15T12:00:00Z".to_string())] {
                let stored = Credential {
                    access_token: token.to_string(),
                    refresh_token: refresh.clone(),
                    expires_at: expires.clone(),
                };
                let restored = Credential::from_json(&stored.to_json().unwrap()).unwrap();
                assert_eq!(restored.access_token, stored.access_token);
                assert_eq!(restored.refresh_token, stored.refresh_token);
                assert_eq!(restored.expires_at, stored.expires_at);
            }
        }
    }
}

#[test]
fn a_text_without_token_is_no_credential() {
    assert!(matches!(Credential::from_json("{}"), Err(CredentialError::MissingToken)));
    assert!(matches!(
        Credential::from_json(r#"{"access_token":5}"#),
        Err(CredentialError::MissingToken)
    ));
    assert!(matches!(Credential::from_json("not json"), Err(CredentialError::Malformed(_))));
    let cred = Credential::from_json(r#" { "other": 1, "access_token" : "t" } "#).unwrap();
    assert_eq!(cred.access_token, "t");
}

use isq::forge::{
    all_forge_types, AuthConfig, ForgeType, GoalState, LinkArgs, LinkArgsError,
};

fn test_auth() -> AuthConfig {
    AuthConfig {
        keyring_service: "_isq_test".to_string(),
        env_var: "_ISQ_TEST_TOKEN".to_string(),
        cli_command: None,
        display_name: "Test".to_string(),
        link_command: "isq link test".to_string(),
    }
}

#[test]
fn test_auth_config_env_var_fallback() {
    let result = test_auth().get_token(None, None, Some("test_token_123".to_string()));
    assert!(result.is_ok());
    assert_eq!(result.unwrap(), "test_token_123");
}

#[test]
fn test_auth_config_has_credentials_with_env_var() {
    assert!(test_auth().has_credentials(false, false, true));
}

#[test]
fn test_auth_config_has_credentials_without_anything() {
    assert!(!test_auth().has_credentials(false, false, false));
}

#[test]
fn test_auth_config_error_message() {
    let result = test_auth().get_token(None, None, None);
    assert!(result.is_err());
    let err = result.unwrap_err();
    assert!(err.contains("Test not authenticated"));
    assert!(err.contains("isq link test"));
    assert!(err.contains("_ISQ_TEST_TOKEN"));
    assert_eq!(
        err,
        "Test not authenticated.\n\nOption 1: Run: isq link test\nOption 2: Set _ISQ_TEST_TOKEN environment variable"
    );
}

#[test]
fn auth_error_names_the_tool_first() {
    assert_eq!(
        ForgeType::GitHub.auth().auth_error(),
        "GitHub not authenticated.\n\nOption 1: Install gh CLI and authenticate\nOption 2: Run: isq link github\nOption 3: Set GITHUB_TOKEN environment variable"
    );
}

#[test]
fn token_sources_are_tried_in_order() {
    let auth = ForgeType::GitHub.auth();
    let cli = Some("from-cli".to_string());
    let stored = Some("from-keyring".to_string());
    let env = Some("from-env".to_string());
    assert_eq!(auth.get_token(cli.clone(), stored.clone(), env.clone()).unwrap(), "from-cli");
    assert_eq!(auth.get_token(None, stored, env.clone()).unwrap(), "from-keyring");
    assert_eq!(auth.get_token(None, None, env).unwrap(), "from-env");
}

#[test]
fn test_github_auth_config() {
    // Verify GitHub AUTH is properly configured
    let auth = ForgeType::GitHub.auth();
    assert_eq!(auth.keyring_service, "github");
    assert_eq!(auth.env_var, "GITHUB_TOKEN");
    assert!(auth.cli_command.is_some());
    assert_eq!(auth.display_name, "GitHub");
}

#[test]
fn test_linear_auth_config() {
    // Verify Linear AUTH is properly configured
    let auth = ForgeType::Linear.auth();
    assert_eq!(auth.keyring_service, "linear");
    assert_eq!(auth.env_var, "LINEAR_API_KEY");
    assert!(auth.cli_command.is_none());
    assert_eq!(auth.display_name, "Linear");
}

#[test]
fn mod_test_github_token_from_env_var() {
    let result = ForgeType::GitHub.auth().get_token(None, None, Some("ghp_test123".to_string()));
    assert!(result.is_ok());
    assert!(!result.unwrap().is_empty());
}

#[test]
fn mod_test_linear_token_from_env_var() {
    let result = ForgeType::Linear.auth().get_token(None, None, Some("lin_test456".to_string()));
    assert!(result.is_ok());
    assert!(!result.unwrap().is_empty());
}

#[test]
fn forge_names_are_read_in_any_case() {
    assert_eq!(ForgeType::from_str("github"), Some(ForgeType::GitHub));
    assert_eq!(ForgeType::from_str("GitHub"), Some(ForgeType::GitHub));
    assert_eq!(ForgeType::from_str("LINEAR"), Some(ForgeType::Linear));
    assert_eq!(ForgeType::from_str("gitlab"), None);
    assert_eq!(ForgeType::from_str(""), None);
    assert_eq!(ForgeType::from_lowercase("GitHub"), None);
    assert_eq!(ForgeType::GitHub.as_str(), "github");
    assert_eq!(ForgeType::Linear.as_str(), "linear");
    assert_eq!(all_forge_types(), vec![ForgeType::GitHub, ForgeType::Linear]);
}

#[test]
fn forge_name_round_trip() {
    for forge in all_forge_types() {
        assert_eq!(ForgeType::from_str(forge.as_str()), Some(forge));
    }
}

#[test]
fn goal_states_are_read_in_any_case() {
    assert_eq!(GoalState::from_str("closed"), GoalState::Closed);
    assert_eq!(GoalState::from_str("Completed"), GoalState::Closed);
    assert_eq!(GoalState::from_str("CANCELED"), GoalState::Closed);
    assert_eq!(GoalState::from_str("open"), GoalState::Open);
    assert_eq!(GoalState::from_str("anything"), GoalState::Open);
    assert_eq!(GoalState::Open.as_str(), "open");
    assert_eq!(GoalState::Closed.as_str(), "closed");
    assert_eq!(GoalState::from_str(GoalState::Closed.as_str()), GoalState::Closed);
    assert_eq!(GoalState::from_str(GoalState::Open.as_str()), GoalState::Open);
}

#[test]
fn link_args_are_read_in_turn() {
    let args = LinkArgs::parse(&[]).unwrap();
    assert_eq!(args.team, None);
    assert!(!args.list_teams);

    let args = LinkArgs::parse(&["list-teams".to_string()]).unwrap();
    assert!(args.list_teams);

    let opts = vec!["team=ENG".to_string(), "list-teams".to_string(), "team=a=b".to_string()];
    let args = LinkArgs::parse(&opts).unwrap();
    assert_eq!(args.team, Some("a=b".to_string()));
    assert!(args.list_teams);
}

#[test]
fn link_args_refuse_what_they_do_not_know() {
    let err = LinkArgs::parse(&["colour=red".to_string()]).unwrap_err();
    assert!(matches!(&err, LinkArgsError::UnknownOption(k) if k == "colour"));
    assert_eq!(err.message(), "Unknown option: colour");

    let opts = vec!["team=ENG".to_string(), "teams".to_string(), "colour=red".to_string()];
    let err = LinkArgs::parse(&opts).unwrap_err();
    assert!(matches!(&err, LinkArgsError::InvalidFormat(o) if o == "teams"));
    assert_eq!(err.message(), "Invalid option format: teams. Use key=value or flag name.");
}

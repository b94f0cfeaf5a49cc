use knack::auth::{auth_from_env, resolve_token, try_gh_cli, AuthError, TokenSource};

#[test]
fn the_environment_wins() {
    let env = Some("t-env".to_string());
    let auth = resolve_token(&env, Some(b"t-gh\n".to_vec()), Some("t-dev".into())).unwrap();
    assert_eq!((auth.token.as_str(), auth.source), ("t-env", TokenSource::Env));
    assert_eq!(auth_from_env(&env).unwrap().clone().token, "t-env");
    assert!(auth_from_env(&Some(String::new())).is_none());
    assert!(auth_from_env(&None).is_none());
}

#[test]
fn gh_comes_second() {
    let empty = Some(String::new());
    let auth = resolve_token(&empty, Some(b"  t-gh \n".to_vec()), Some("t-dev".into())).unwrap();
    assert_eq!((auth.token.as_str(), auth.source), ("t-gh", TokenSource::GhCli));
    assert_eq!(try_gh_cli(Some(b" \n".to_vec())).unwrap(), None);
    assert_eq!(try_gh_cli(None).unwrap(), None);
    assert_eq!(try_gh_cli(Some("tök".as_bytes().to_vec())).unwrap().as_deref(), Some("tök"));
}

#[test]
fn the_device_flow_comes_last() {
    let auth = resolve_token(&None, None, Some("t-dev".into())).unwrap();
    assert_eq!((auth.token.as_str(), auth.source), ("t-dev", TokenSource::DeviceFlow));
    let err = resolve_token(&None, Some(b"\n".to_vec()), Some(String::new())).unwrap_err();
    assert_eq!(err, AuthError::NoCredentials);
    let err = resolve_token(&None, None, None).unwrap_err();
    assert_eq!(
        err.message(),
        "no GitHub credentials. set GITHUB_TOKEN, install gh and run `gh auth login`, or run `knack auth login --github`"
    );
}

#[test]
fn gh_has_to_answer_in_text() {
    let err = resolve_token(&None, Some(vec![0xff, 0xfe]), Some("t-dev".into())).unwrap_err();
    assert_eq!(err, AuthError::NotText);
    assert_eq!(err.message(), "gh auth token returned non-UTF-8");
    assert!(resolve_token(&Some("t".into()), Some(vec![0xff]), None).is_ok());
}

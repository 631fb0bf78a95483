use strava_analysis::auth::{
    after_authorization, auth_url, complete_exchange, complete_refresh, exchange_token_form,
    get_token, redirect_result, refresh_token_form, AppSecrets, AuthError, AuthInfo, AuthStep,
    AuthTokens, TokenReply, TokenStep,
};

fn pairs(form: &[(String, String)]) -> Vec<(&str, &str)> {
    form.iter().map(|(k, v)| (k.as_str(), v.as_str())).collect()
}

fn secrets() -> AppSecrets {
    AppSecrets { client_id: 4242, client_secret: "app-secret".to_string() }
}

fn tokens(expires_at: i64) -> AuthTokens {
    AuthTokens {
        access_token: "access-1".to_string(),
        expires_at,
        refresh_token: "refresh-1".to_string(),
    }
}

#[test]
fn auth_url_embeds_client_and_scopes() {
    let url = auth_url(12345, &["read_all", "profile:read_all", "activity:read_all", "activity:write"]);
    assert_eq!(
        url,
        "https://www.strava.com/oauth/authorize?client_id=12345&redirect_uri=http://localhost:8000\
         &response_type=code&approval_prompt=auto&scope=read_all,profile:read_all,activity:read_all,activity:write"
    );
}

#[test]
fn auth_url_no_scopes() {
    assert_eq!(
        auth_url(0, &[]),
        "https://www.strava.com/oauth/authorize?client_id=0&redirect_uri=http://localhost:8000\
         &response_type=code&approval_prompt=auto&scope="
    );
}

#[test]
fn auth_info_splits_scopes() {
    let info = AuthInfo::new("12345", "scope1,scope2");
    assert_eq!(info.code, "12345");
    assert_eq!(info.scopes, vec!["scope1".to_string(), "scope2".to_string()]);
    assert_eq!(AuthInfo::new("c", "").scopes, vec!["".to_string()]);
    assert_eq!(AuthInfo::new("c", "a,,b,").scopes, vec!["a", "", "b", ""]);
}

#[test]
fn redirect_success_route() {
    match redirect_result(Some("abc"), Some("read,activity:read_all"), None) {
        Some(Ok(info)) => {
            assert_eq!(info.code, "abc");
            assert_eq!(info.scopes, vec!["read", "activity:read_all"]);
        }
        _ => panic!("expected a success"),
    }
}

#[test]
fn redirect_error_route() {
    match redirect_result(None, None, Some("access_denied")) {
        Some(Err(reason)) => assert_eq!(reason, "access_denied"),
        _ => panic!("expected a failure"),
    }
    assert!(redirect_result(Some("abc"), None, None).is_none());
}

#[test]
fn access_denied_redirect_denies_authorization() {
    let result = redirect_result(None, None, Some("access_denied")).unwrap();
    match after_authorization(result, &secrets()) {
        AuthStep::Denied(err) => {
            assert_eq!(err, AuthError::AuthorizationDenied("access_denied".to_string()))
        }
        AuthStep::Exchange(_) => panic!("expected a refusal"),
    }
}

#[test]
fn granted_code_is_exchanged() {
    let result = redirect_result(Some("code-9"), Some("read"), None).unwrap();
    match after_authorization(result, &secrets()) {
        AuthStep::Exchange(form) => assert_eq!(
            pairs(&form),
            vec![
                ("client_id", "4242"),
                ("client_secret", "app-secret"),
                ("code", "code-9"),
                ("grant_type", "authorization_code"),
            ]
        ),
        AuthStep::Denied(_) => panic!("expected an exchange"),
    }
}

#[test]
fn exchange_and_refresh_forms() {
    assert_eq!(
        pairs(&exchange_token_form("c1", 7, "s1")),
        vec![("client_id", "7"), ("client_secret", "s1"), ("code", "c1"), ("grant_type", "authorization_code")]
    );
    assert_eq!(
        pairs(&refresh_token_form("r1", 7, "s1")),
        vec![("client_id", "7"), ("client_secret", "s1"), ("grant_type", "refresh_token"), ("refresh_token", "r1")]
    );
}

#[test]
fn exchange_outcomes() {
    let ok = complete_exchange(TokenReply::Received { status: 200, tokens: Some(tokens(100)) });
    assert_eq!(ok.unwrap().access_token, "access-1");
    assert!(matches!(
        complete_exchange(TokenReply::Received { status: 400, tokens: Some(tokens(100)) }),
        Err(AuthError::ExchangeFailed)
    ));
    assert!(matches!(
        complete_exchange(TokenReply::Received { status: 200, tokens: None }),
        Err(AuthError::ExchangeFailed)
    ));
    assert!(matches!(complete_exchange(TokenReply::TransportError), Err(AuthError::ExchangeFailed)));
}

#[test]
fn current_token_is_kept() {
    assert!(matches!(get_token(&tokens(2000), &secrets(), 1000), TokenStep::Current));
    assert!(matches!(get_token(&tokens(1000), &secrets(), 1000), TokenStep::Current));
}

#[test]
fn expired_token_refresh_fails_leaving_tokens() {
    let stored = tokens(500);
    match get_token(&stored, &secrets(), 1000) {
        TokenStep::Refresh(form) => assert_eq!(
            pairs(&form),
            vec![
                ("client_id", "4242"),
                ("client_secret", "app-secret"),
                ("grant_type", "refresh_token"),
                ("refresh_token", "refresh-1"),
            ]
        ),
        TokenStep::Current => panic!("expected a refresh"),
    }
    let reply = TokenReply::Received { status: 401, tokens: None };
    assert!(matches!(complete_refresh(reply), Err(AuthError::RefreshFailed)));
    assert_eq!(stored.access_token, "access-1");
    assert_eq!(stored.expires_at, 500);
    assert_eq!(stored.refresh_token, "refresh-1");
}

#[test]
fn refresh_outcomes() {
    let fresh = AuthTokens {
        access_token: "access-2".to_string(),
        expires_at: 9000,
        refresh_token: "refresh-2".to_string(),
    };
    let got = complete_refresh(TokenReply::Received { status: 201, tokens: Some(fresh) }).unwrap();
    assert_eq!(got.access_token, "access-2");
    assert_eq!(got.expires_at, 9000);
    assert!(matches!(
        complete_refresh(TokenReply::Received { status: 200, tokens: None }),
        Err(AuthError::RefreshFailed)
    ));
    assert!(matches!(complete_refresh(TokenReply::TransportError), Err(AuthError::RefreshFailed)));
}

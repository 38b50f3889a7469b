use sub_manager_lite::auth::{token_matches, validate_token, MIN_TOKEN_LENGTH};

#[test]
fn empty_token_is_refused() {
    assert_eq!(
        validate_token(""),
        Err("API_TOKEN 环境变量未配置，请设置一个强随机 Token 后重启".to_string())
    );
}

#[test]
fn short_token_is_refused() {
    assert_eq!(MIN_TOKEN_LENGTH, 16);
    assert_eq!(
        validate_token("0123456789abcde"),
        Err("API_TOKEN 长度必须至少 16 位".to_string())
    );
    // Length counts characters, not bytes.
    assert!(validate_token("令牌令牌令牌令牌令牌令牌令牌令").is_err());
    assert!(validate_token("令牌令牌令牌令牌令牌令牌令牌令牌").is_ok());
}

#[test]
fn placeholder_token_is_refused_in_any_case() {
    let expected = Err("API_TOKEN 不能使用占位符，请改为强随机值".to_string());
    assert_eq!(validate_token("your-secret-token-here"), expected);
    assert_eq!(validate_token("YOUR-Secret-Token-HERE"), expected);
}

#[test]
fn strong_token_is_accepted() {
    assert_eq!(validate_token("0123456789abcdef"), Ok(()));
    assert_eq!(validate_token("your-secret-token-here!"), Ok(()));
}

#[test]
fn token_comparison_is_equality() {
    assert!(token_matches("0123456789abcdef", "0123456789abcdef"));
    assert!(!token_matches("0123456789abcdeF", "0123456789abcdef"));
    assert!(!token_matches("0123456789abcde", "0123456789abcdef"));
    assert!(!token_matches("0123456789abcdef0", "0123456789abcdef"));
    assert!(!token_matches("", "0123456789abcdef"));
    assert!(token_matches("", ""));
    assert!(!token_matches("wrong-token", "0123456789abcdef"));
}

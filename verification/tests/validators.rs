use shop_core::validators::{is_not_empty, is_valid_email, is_valid_password, validate_user_input};

#[test]
fn test_valid_email() {
    assert!(is_valid_email("user@example.com"));
    assert!(is_valid_email("user.name@example.co.uk"));
}

#[test]
fn test_invalid_email() {
    assert!(!is_valid_email(""));
    assert!(!is_valid_email("user@"));
    assert!(!is_valid_email("@example.com"));
    assert!(!is_valid_email("user@example"));
    assert!(!is_valid_email("user example.com"));
}

#[test]
fn test_valid_password() {
    assert!(is_valid_password("password"));
    assert!(is_valid_password("123456"));
}

#[test]
fn test_invalid_password() {
    assert!(!is_valid_password(""));
    assert!(!is_valid_password("12345"));
    assert!(!is_valid_password("abcd"));
}

#[test]
fn email_rejects_second_at_and_short_label() {
    assert!(!is_valid_email("a@b@c.de"));
    assert!(!is_valid_email("user@example.c"));
    assert!(!is_valid_email("user@.com"));
    assert!(is_valid_email("a_b%c+d-e@ex-1.org"));
    assert!(!is_valid_email("user@example.c0m"));
}

#[test]
fn blank_detection_trims_whitespace() {
    assert!(!is_not_empty(""));
    assert!(!is_not_empty("   "));
    assert!(!is_not_empty(" \t\n "));
    assert!(is_not_empty(" a "));
    assert!(is_not_empty("x"));
}

#[test]
fn combined_validation_reports_each_field() {
    assert!(validate_user_input("user@example.com", "123456").is_ok());

    let errs = validate_user_input("", "123456").unwrap_err();
    assert_eq!(errs.len(), 1);
    assert_eq!(errs[0], "邮箱不能为空");

    let errs = validate_user_input("nonsense", "123456").unwrap_err();
    assert_eq!(errs.len(), 1);
    assert_eq!(errs[0], "邮箱格式无效");

    let errs = validate_user_input("user@example.com", "").unwrap_err();
    assert_eq!(errs.len(), 1);
    assert_eq!(errs[0], "密码不能为空");

    let errs = validate_user_input("user@example.com", "12345").unwrap_err();
    assert_eq!(errs.len(), 1);
    assert_eq!(errs[0], "密码至少需要6个字符");

    let errs = validate_user_input("", "").unwrap_err();
    assert_eq!(errs.len(), 2);
    assert_eq!(errs[0], "邮箱不能为空");
    assert_eq!(errs[1], "密码不能为空");
}

use im_bridge::auth::{random_pass, Token, OTP};

#[test]
fn otp_verifies_exactly_once() {
    let mut otp = OTP::default();
    let pass = otp.generate_new();
    assert!(otp.verify(&pass));
    assert!(!otp.verify(&pass));
    assert!(!otp.verify(&pass));
}

#[test]
fn unknown_otp_never_verifies() {
    let mut otp = OTP::default();
    assert!(!otp.verify("never-issued"));
}

#[test]
fn consuming_one_otp_leaves_another_live() {
    let mut otp = OTP::default();
    let p1 = otp.generate_new();
    let p2 = otp.generate_new();
    assert!(otp.verify(&p2));
    if p1 != p2 {
        assert!(otp.verify(&p1));
    }
}

#[test]
fn token_matches_its_own_value_only() {
    let token = Token::from_string("open-sesame".to_string());
    assert!(token.matches(&"open-sesame".to_string()));
    assert!(!token.matches(&"open-sesam".to_string()));
    assert!(!token.matches(&"".to_string()));
    assert_eq!(token.as_str(), "open-sesame");
}

#[test]
fn generated_token_is_stable() {
    let token = Token::generate();
    let s = token.as_str().to_string();
    assert_eq!(token.as_str(), s);
    assert!(token.matches(&s));
}

#[test]
fn random_pass_is_not_empty() {
    let p = random_pass();
    assert!(!p.is_empty());
}

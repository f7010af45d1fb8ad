use mslm::Client;

#[test]
fn init_sets_the_key_everywhere() {
    let c = Client::init("k0");
    assert_eq!(c.c.api_key.as_str(), "k0");
    assert_eq!(c.email_verify.client.api_key.as_str(), "k0");
    assert_eq!(c.otp.client.api_key.as_str(), "k0");
    assert_eq!(c.c.base_url.as_str(), "https://mslm.io/");
    assert_eq!(c.email_verify.client.base_url.as_str(), "https://mslm.io/");
    assert_eq!(c.otp.client.base_url.as_str(), "https://mslm.io/");
}

#[test]
fn init_defaults_has_an_empty_key() {
    let c = Client::init_defaults();
    assert_eq!(c.c.api_key.as_str(), "");
    assert_eq!(c.otp.client.user_agent.as_str(), "mslm/rust/1.0.0");
}

#[test]
fn set_api_key_propagates() {
    let mut c = Client::init("old");
    c.set_api_key("k2");
    assert_eq!(c.c.api_key.as_str(), "k2");
    assert_eq!(c.email_verify.client.api_key.as_str(), "k2");
    assert_eq!(c.otp.client.api_key.as_str(), "k2");
}

#[test]
fn set_user_agent_propagates() {
    let mut c = Client::init("k");
    c.set_user_agent("agent/9");
    assert_eq!(c.c.user_agent.as_str(), "agent/9");
    assert_eq!(c.email_verify.client.user_agent.as_str(), "agent/9");
    assert_eq!(c.otp.client.user_agent.as_str(), "agent/9");
}

#[test]
fn set_base_url_propagates_normalized() {
    let mut c = Client::init("k");
    c.set_base_url("https://example.org").unwrap();
    assert_eq!(c.c.base_url.as_str(), "https://example.org/");
    assert_eq!(c.email_verify.client.base_url.as_str(), "https://example.org/");
    assert_eq!(c.otp.client.base_url.as_str(), "https://example.org/");
}

#[test]
fn set_base_url_failure_changes_nothing() {
    let mut c = Client::init("k");
    assert!(c.set_base_url("no scheme here").is_err());
    assert_eq!(c.c.base_url.as_str(), "https://mslm.io/");
    assert_eq!(c.email_verify.client.base_url.as_str(), "https://mslm.io/");
    assert_eq!(c.otp.client.base_url.as_str(), "https://mslm.io/");
}

#[test]
fn set_http_client_reaches_every_client() {
    let mut c = Client::init("k");
    let fresh = reqwest::blocking::Client::new();
    c.set_http_client(fresh);
    // The shared configuration stays untouched.
    assert_eq!(c.c.api_key.as_str(), "k");
    assert_eq!(c.email_verify.client.api_key.as_str(), "k");
    assert_eq!(c.otp.client.api_key.as_str(), "k");
}

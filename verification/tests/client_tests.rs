use mslm::{BaseClient, HttpMethod, ReqOpts, RequestError};

fn opts_with(base: &str, key: &str, ua: &str) -> ReqOpts {
    ReqOpts {
        http: None,
        base_url: Some(String::from(base)),
        user_agent: Some(String::from(ua)),
        api_key: Some(String::from(key)),
    }
}

#[test]
fn base_client_defaults() {
    let c = BaseClient::new();
    assert_eq!(c.base_url.as_str(), "https://mslm.io/");
    assert_eq!(c.user_agent.as_str(), "mslm/rust/1.0.0");
    assert_eq!(c.api_key.as_str(), "");
}

#[test]
fn set_base_url_normalizes() {
    let mut c = BaseClient::new();
    c.set_base_url("https://example.com").unwrap();
    assert_eq!(c.base_url.as_str(), "https://example.com/");
    let direct = url::Url::parse("https://example.com").unwrap();
    assert_eq!(c.base_url.as_str(), direct.as_str());
}

#[test]
fn set_base_url_rejects_invalid() {
    let mut c = BaseClient::new();
    let r = c.set_base_url("not a url at all");
    assert!(r.is_err());
    assert_eq!(c.base_url.as_str(), "https://mslm.io/");
}

#[test]
fn setters_update_configuration() {
    let mut c = BaseClient::new();
    c.set_user_agent("agent/1");
    c.set_api_key("key9");
    assert_eq!(c.user_agent.as_str(), "agent/1");
    assert_eq!(c.api_key.as_str(), "key9");
}

#[test]
fn prepare_opts_fills_defaults() {
    let mut c = BaseClient::new();
    c.set_api_key("kx");
    let merged = c.prepare_opts(&ReqOpts::default());
    assert_eq!(merged.base_url.as_deref(), Some("https://mslm.io/"));
    assert_eq!(merged.user_agent.as_deref(), Some("mslm/rust/1.0.0"));
    assert_eq!(merged.api_key.as_deref(), Some("kx"));
    assert!(merged.http.is_some());
}

#[test]
fn prepare_opts_keeps_overrides() {
    let c = BaseClient::new();
    let over = opts_with("https://other.example/", "ko", "ua-o");
    let merged = c.prepare_opts(&over);
    assert_eq!(merged.base_url.as_deref(), Some("https://other.example/"));
    assert_eq!(merged.user_agent.as_deref(), Some("ua-o"));
    assert_eq!(merged.api_key.as_deref(), Some("ko"));
}

#[test]
fn prepare_url_appends_params_and_key() {
    let c = BaseClient::new();
    let opt = opts_with("https://mslm.io/", "k1", "ua");
    let qp = vec![(String::from("email"), String::from("a@b.com"))];
    let u = c.prepare_url("api/sv/v1", &qp, &opt).unwrap();
    assert_eq!(u.as_str(), "https://mslm.io/api/sv/v1?email=a%40b.com&apikey=k1");
}

#[test]
fn prepare_url_keeps_parameter_order() {
    let c = BaseClient::new();
    let opt = opts_with("https://mslm.io/", "k", "ua");
    let qp = vec![
        (String::from("b"), String::from("2")),
        (String::from("a"), String::from("1")),
    ];
    let u = c.prepare_url("api/sv/v1", &qp, &opt).unwrap();
    assert_eq!(u.as_str(), "https://mslm.io/api/sv/v1?b=2&a=1&apikey=k");
}

#[test]
fn prepare_url_exactly_the_supplied_parameters() {
    // An independent decoder sees exactly the supplied pairs plus apikey.
    let c = BaseClient::new();
    let opt = opts_with("https://mslm.io/", "k 1", "ua");
    let qp = vec![
        (String::from("email"), String::from("a@b.com")),
        (String::from("x y"), String::from("z&w=q")),
    ];
    let u = c.prepare_url("api/sv/v1", &qp, &opt).unwrap();
    let parsed = url::Url::parse(&u).unwrap();
    let pairs: Vec<(String, String)> = parsed
        .query_pairs()
        .map(|(k, v)| (k.to_string(), v.to_string()))
        .collect();
    assert_eq!(
        pairs,
        vec![
            (String::from("email"), String::from("a@b.com")),
            (String::from("x y"), String::from("z&w=q")),
            (String::from("apikey"), String::from("k 1")),
        ]
    );
}

#[test]
fn prepare_url_normalizes_an_override_base() {
    // An override without the trailing slash joins as a path, not as
    // part of the host name.
    let c = BaseClient::new();
    let opt = opts_with("https://mslm.io", "k", "ua");
    let qp: Vec<(String, String)> = Vec::new();
    let u = c.prepare_url("api/sv/v1", &qp, &opt).unwrap();
    assert_eq!(u.as_str(), "https://mslm.io/api/sv/v1?apikey=k");
}

#[test]
fn prepare_url_inserts_the_query_before_a_fragment() {
    let c = BaseClient::new();
    let opt = opts_with("https://mslm.io/p#frag", "k", "ua");
    let qp: Vec<(String, String)> = Vec::new();
    let u = c.prepare_url("", &qp, &opt).unwrap();
    assert_eq!(u.as_str(), "https://mslm.io/p?apikey=k#frag");
}

#[test]
fn prepare_url_without_base_fails() {
    let c = BaseClient::new();
    let opt = ReqOpts {
        http: None,
        base_url: None,
        user_agent: Some(String::from("ua")),
        api_key: Some(String::from("k")),
    };
    let qp: Vec<(String, String)> = Vec::new();
    let r = c.prepare_url("api/sv/v1", &qp, &opt);
    match r {
        Err(RequestError::UrlParse { message }) => {
            assert_eq!(message, "Base URL not configured.");
        }
        _ => panic!("expected a URL error"),
    }
}

#[test]
fn prepare_url_rejects_bad_join() {
    let c = BaseClient::new();
    let opt = opts_with("::::", "k", "ua");
    let qp: Vec<(String, String)> = Vec::new();
    let r = c.prepare_url("api/sv/v1", &qp, &opt);
    match r {
        Err(RequestError::UrlParse { message }) => {
            assert!(message.starts_with("URL parsing failed: "));
        }
        _ => panic!("expected a URL error"),
    }
}

#[test]
fn prepare_request_assembles_fields() {
    let c = BaseClient::new();
    let opt = opts_with("https://mslm.io/", "k", "agent/2");
    let req = c.prepare_request(
        HttpMethod::Post,
        String::from("https://mslm.io/x?apikey=k"),
        Some(String::from("{}")),
        &opt,
    );
    assert_eq!(req.method, HttpMethod::Post);
    assert_eq!(req.url.as_str(), "https://mslm.io/x?apikey=k");
    assert_eq!(req.user_agent.as_str(), "agent/2");
    assert_eq!(req.body.as_deref(), Some("{}"));
}

#[test]
fn error_message_is_returned() {
    let e = RequestError::Json { message: String::from("JSON parsing failed: oops") };
    assert_eq!(e.message(), "JSON parsing failed: oops");
}

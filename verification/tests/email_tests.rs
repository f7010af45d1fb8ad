use mslm::{
    EmailVerifyClient, HttpMethod, ReqOpts, RequestError, SingleVerifyReqOpts, SingleVerifyResp,
};

fn full_resp_json() -> String {
    String::from(
        "{\"email\":\"a@b.com\",\"username\":\"a\",\"domain\":\"b.com\",\
         \"malformed\":false,\"suggestion\":\"\",\"status\":\"real\",\
         \"has_mailbox\":true,\"accept_all\":false,\"disposable\":false,\
         \"free\":true,\"role\":false,\
         \"mx\":[{\"host\":\"mx1.b.com\",\"pref\":10},{\"host\":\"mx2.b.com\",\"pref\":20}]}",
    )
}

#[test]
fn single_verify_request_default_passthrough() {
    let c = EmailVerifyClient::new("k");
    let req = c.single_verify_request("a@b.com", None).unwrap();
    assert_eq!(req.method, HttpMethod::Get);
    assert!(req.body.is_none());
    assert_eq!(req.url.as_str(), "https://mslm.io/api/sv/v1?email=a%40b.com&apikey=k");
}

#[test]
fn single_verify_request_encodes_when_asked() {
    // The flag set to false turns percent-encoding on; the query string
    // then escapes the encoded text once more, as the wire format asks.
    let c = EmailVerifyClient::new("k");
    let opts = SingleVerifyReqOpts {
        req_opts: c.client.prepare_opts(&ReqOpts::default()),
        disable_url_encode: Some(false),
    };
    let req = c.single_verify_request("a@b.com", Some(&opts)).unwrap();
    assert_eq!(req.url.as_str(), "https://mslm.io/api/sv/v1?email=a%2540b%252Ecom&apikey=k");
}

#[test]
fn single_verify_request_disabled_flag_passes_through() {
    let c = EmailVerifyClient::new("k");
    let opts = SingleVerifyReqOpts {
        req_opts: c.client.prepare_opts(&ReqOpts::default()),
        disable_url_encode: Some(true),
    };
    let req = c.single_verify_request("a@b.com", Some(&opts)).unwrap();
    assert_eq!(req.url.as_str(), "https://mslm.io/api/sv/v1?email=a%40b.com&apikey=k");
}

#[test]
fn single_verify_resp_full_record() {
    let r = SingleVerifyResp::from_json(&full_resp_json()).unwrap();
    assert_eq!(r.email, "a@b.com");
    assert_eq!(r.username, "a");
    assert_eq!(r.domain, "b.com");
    assert!(!r.malformed);
    assert_eq!(r.suggestion, "");
    assert_eq!(r.status, "real");
    assert!(r.has_mailbox);
    assert!(!r.accept_all);
    assert!(!r.disposable);
    assert!(r.free);
    assert!(!r.role);
    assert_eq!(r.mx.len(), 2);
    assert_eq!(r.mx[0].host, "mx1.b.com");
    assert_eq!(r.mx[0].pref, 10);
    assert_eq!(r.mx[1].host, "mx2.b.com");
    assert_eq!(r.mx[1].pref, 20);
}

#[test]
fn single_verify_resp_reordered_and_spaced() {
    let text = " {\n  \"mx\" : [ ] ,\n  \"role\" : true, \"free\": false, \"disposable\": true,\
        \"accept_all\": true, \"has_mailbox\": false, \"status\": \"x\",\
        \"suggestion\": \"try@b.com\", \"malformed\": true, \"domain\": \"d\",\
        \"username\": \"u\", \"email\": \"e\" }\n";
    let r = SingleVerifyResp::from_json(text).unwrap();
    assert_eq!(r.email, "e");
    assert!(r.malformed);
    assert_eq!(r.suggestion, "try@b.com");
    assert!(r.mx.is_empty());
}

#[test]
fn single_verify_resp_ignores_unknown_members() {
    let text = full_resp_json()
        .replace(
            "\"username\":\"a\",",
            "\"username\":\"a\",\"seen_at\":\"2020-01-01\",\"score\":0.9,",
        )
        .replace(
            "{\"host\":\"mx1.b.com\",\"pref\":10}",
            "{\"host\":\"mx1.b.com\",\"weight\":[1,2],\"pref\":10}",
        );
    let r = SingleVerifyResp::from_json(&text).unwrap();
    assert_eq!(r.username, "a");
    assert_eq!(r.mx.len(), 2);
    assert_eq!(r.mx[0].host, "mx1.b.com");
    assert_eq!(r.mx[0].pref, 10);
}

#[test]
fn single_verify_resp_duplicate_member_is_an_error() {
    let text = full_resp_json().replace(
        "\"username\":\"a\",",
        "\"username\":\"a\",\"username\":\"b\",",
    );
    match SingleVerifyResp::from_json(&text) {
        Err(RequestError::Json { .. }) => {}
        _ => panic!("expected a JSON error"),
    }
}

#[test]
fn single_verify_resp_missing_field_is_an_error() {
    let text = "{\"email\":\"a@b.com\"}";
    match SingleVerifyResp::from_json(text) {
        Err(RequestError::Json { .. }) => {}
        _ => panic!("expected a JSON error"),
    }
}

#[test]
fn single_verify_resp_wrong_type_is_an_error() {
    let text = full_resp_json().replace("\"malformed\":false", "\"malformed\":0");
    match SingleVerifyResp::from_json(&text) {
        Err(RequestError::Json { .. }) => {}
        _ => panic!("expected a JSON error"),
    }
}

#[test]
fn single_verify_resp_agrees_with_serde_json() {
    let v: serde_json::Value = serde_json::from_str(&full_resp_json()).unwrap();
    let r = SingleVerifyResp::from_json(&full_resp_json()).unwrap();
    assert_eq!(v["email"].as_str().unwrap(), r.email);
    assert_eq!(v["mx"][1]["pref"].as_i64().unwrap(), r.mx[1].pref as i64);
}

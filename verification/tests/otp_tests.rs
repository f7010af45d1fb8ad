use mslm::{HttpMethod, OtpClient, OtpSendReq, OtpSendResp, OtpTokenVerifyReq, OtpTokenVerifyResp,
    RequestError};

fn send_req_sample() -> OtpSendReq {
    OtpSendReq {
        phone: String::from("+15551230000"),
        tmpl_sms: String::from("Code: {code}"),
        token_len: 6,
        expire_seconds: 60,
    }
}

#[test]
fn send_req_to_json_exact_text() {
    let req = send_req_sample();
    assert_eq!(
        req.to_json(),
        "{\"phone\":\"+15551230000\",\"tmpl_sms\":\"Code: {code}\",\"token_len\":6,\"expire_seconds\":60}"
    );
}

#[test]
fn send_req_json_has_exactly_four_fields() {
    let req = send_req_sample();
    let v: serde_json::Value = serde_json::from_str(&req.to_json()).unwrap();
    let obj = v.as_object().unwrap();
    assert_eq!(obj.len(), 4);
    assert_eq!(v["phone"], "+15551230000");
    assert_eq!(v["tmpl_sms"], "Code: {code}");
    assert_eq!(v["token_len"], 6);
    assert_eq!(v["expire_seconds"], 60);
}

#[test]
fn send_request_scenario() {
    // base URL https://mslm.io, API key k1: the send request goes to
    // https://mslm.io/api/otp/v1/send?apikey=k1 with the four fields.
    let mut c = OtpClient::new("k1");
    c.set_base_url("https://mslm.io").unwrap();
    let req = c.send_request(&send_req_sample(), None).unwrap();
    assert_eq!(req.method, HttpMethod::Post);
    assert_eq!(req.url.as_str(), "https://mslm.io/api/otp/v1/send?apikey=k1");
    let body = req.body.unwrap();
    let v: serde_json::Value = serde_json::from_str(&body).unwrap();
    assert_eq!(v.as_object().unwrap().len(), 4);
    assert_eq!(v["phone"], "+15551230000");
    assert_eq!(v["tmpl_sms"], "Code: {code}");
    assert_eq!(v["token_len"], 6);
    assert_eq!(v["expire_seconds"], 60);
    assert_eq!(req.user_agent.as_str(), "mslm/rust/1.0.0");
}

#[test]
fn verify_request_scenario() {
    let c = OtpClient::new("k1");
    let vreq = OtpTokenVerifyReq {
        phone: String::from("+15551230000"),
        token: String::from("123456"),
        consume: Some(true),
    };
    let req = c.verify_request(&vreq, None).unwrap();
    assert_eq!(req.method, HttpMethod::Post);
    assert_eq!(req.url.as_str(), "https://mslm.io/api/otp/v1/token_verify?apikey=k1");
    assert_eq!(
        req.body.as_deref(),
        Some("{\"phone\":\"+15551230000\",\"token\":\"123456\",\"consume\":true}")
    );
}

#[test]
fn verify_req_consume_unset_is_null() {
    let vreq = OtpTokenVerifyReq {
        phone: String::from("p"),
        token: String::from("t"),
        consume: None,
    };
    assert_eq!(vreq.to_json(), "{\"phone\":\"p\",\"token\":\"t\",\"consume\":null}");
}

#[test]
fn send_resp_from_json_plain() {
    let r = OtpSendResp::from_json("{\"code\":200,\"msg\":\"ok\"}").unwrap();
    assert_eq!(r.code, 200);
    assert_eq!(r.msg, "ok");
}

#[test]
fn send_resp_from_json_any_order_and_whitespace() {
    let r = OtpSendResp::from_json(" { \"msg\" : \"fine\" ,\n\t\"code\" : -7 } ").unwrap();
    assert_eq!(r.code, -7);
    assert_eq!(r.msg, "fine");
}

#[test]
fn token_verify_resp_from_json() {
    let r = OtpTokenVerifyResp::from_json("{\"code\":1,\"msg\":\"expired\"}").unwrap();
    assert_eq!(r.code, 1);
    assert_eq!(r.msg, "expired");
}

#[test]
fn send_resp_round_trip() {
    let r = OtpSendResp { code: -42, msg: String::from("hi \"there\"\nline") };
    let back = OtpSendResp::from_json(&r.to_json()).unwrap();
    assert_eq!(back.code, r.code);
    assert_eq!(back.msg, r.msg);
}

#[test]
fn token_verify_resp_round_trip() {
    let r = OtpTokenVerifyResp { code: i64::MAX, msg: String::from("x") };
    let back = OtpTokenVerifyResp::from_json(&r.to_json()).unwrap();
    assert_eq!(back.code, r.code);
    assert_eq!(back.msg, r.msg);
}

#[test]
fn send_req_round_trip() {
    let r = OtpSendReq {
        phone: String::from("+1 (555) 123-0000"),
        tmpl_sms: String::from("\u{65e5}\u{672c}: {code}\t!"),
        token_len: -3,
        expire_seconds: i32::MAX,
    };
    let back = OtpSendReq::from_json(&r.to_json()).unwrap();
    assert_eq!(back.phone, r.phone);
    assert_eq!(back.tmpl_sms, r.tmpl_sms);
    assert_eq!(back.token_len, r.token_len);
    assert_eq!(back.expire_seconds, r.expire_seconds);
}

#[test]
fn verify_req_round_trip_all_consume_values() {
    for consume in [None, Some(false), Some(true)] {
        let r = OtpTokenVerifyReq {
            phone: String::from("+2"),
            token: String::from("ab\"c"),
            consume,
        };
        let back = OtpTokenVerifyReq::from_json(&r.to_json()).unwrap();
        assert_eq!(back.phone, r.phone);
        assert_eq!(back.token, r.token);
        assert_eq!(back.consume, r.consume);
    }
}

#[test]
fn escaping_matches_serde_json() {
    let r = OtpSendResp {
        code: 7,
        msg: String::from("a\"b\\c\nd\te\u{1}f\u{1f}g"),
    };
    let mine = r.to_json();
    let v: serde_json::Value = serde_json::from_str(&mine).unwrap();
    assert_eq!(v["msg"], "a\"b\\c\nd\te\u{1}f\u{1f}g");
    // serde_json writes the same compact text for this object shape.
    assert_eq!(mine, serde_json::to_string(&v).unwrap());
}

#[test]
fn extreme_codes_round_trip() {
    for code in [i64::MIN, -1, 0, 1, i64::MAX] {
        let r = OtpSendResp { code, msg: String::from("m") };
        let back = OtpSendResp::from_json(&r.to_json()).unwrap();
        assert_eq!(back.code, code);
    }
}

#[test]
fn unknown_members_are_ignored() {
    let text = "{\"code\":2,\"extra\":[{\"a\":-1.5e3},null,\"s\\\"x\",[]],\"msg\":\"ok\",\"more\":{\"x\":{\"y\":[true,false]},\"z\":0.25}}";
    let v: serde_json::Value = serde_json::from_str(text).unwrap();
    assert_eq!(v["code"], 2);
    let r = OtpSendResp::from_json(text).unwrap();
    assert_eq!(r.code, 2);
    assert_eq!(r.msg, "ok");
}

#[test]
fn unknown_members_in_requests_are_ignored() {
    let text = "{\"phone\":\"p\",\"note\":\"skip me\",\"tmpl_sms\":\"t\",\"token_len\":4,\"expire_seconds\":9,\"v\":2}";
    let r = OtpSendReq::from_json(text).unwrap();
    assert_eq!(r.phone, "p");
    assert_eq!(r.tmpl_sms, "t");
    assert_eq!(r.token_len, 4);
    assert_eq!(r.expire_seconds, 9);
}

#[test]
fn surrogate_pair_escape_is_read() {
    let r = OtpSendResp::from_json("{\"code\":1,\"msg\":\"\\ud83d\\ude00!\"}").unwrap();
    assert_eq!(r.msg, "\u{1f600}!");
}

#[test]
fn unicode_escape_is_read() {
    let r = OtpSendResp::from_json("{\"code\":1,\"msg\":\"\\u0041\\u00e9\\n\"}").unwrap();
    assert_eq!(r.msg, "A\u{e9}\n");
}

#[test]
fn malformed_json_is_an_error() {
    let cases = [
        "",
        "{",
        "{\"code\":1}",
        "{\"msg\":\"x\"}",
        "{\"code\":1,\"msg\":\"x\"",
        "{\"code\":1,\"msg\":\"x\"} trailing",
        "{\"code\":1,\"code\":2,\"msg\":\"x\"}",
        "{\"code\":\"1\",\"msg\":\"x\"}",
        "{\"code\":1.5,\"msg\":\"x\"}",
        "{\"code\":99999999999999999999,\"msg\":\"x\"}",
        "{\"code\":1,\"msg\":\"\\q\"}",
        "{\"code\":1,\"msg\":\"\\ud800\"}",
        "{\"code\":01,\"msg\":\"x\"}",
    ];
    for s in cases {
        let r = OtpSendResp::from_json(s);
        match r {
            Err(RequestError::Json { message }) => {
                assert!(message.starts_with("JSON parsing failed"), "case {:?}", s);
            }
            _ => panic!("expected a JSON error for {:?}", s),
        }
    }
}

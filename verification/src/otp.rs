//! The OTP endpoint client: sending a one-time password and verifying a
//! token.  The request records are written to JSON by verified encoders
//! and the response records are read back by verified parsers; the
//! round-trip laws at the end show that parsing a written record gives
//! the record back.

use vstd::prelude::*;

use crate::client::{
    opt_i32_of, opt_int_of, opt_text, opt_txt_of, qp_views, query_text, with_query, BaseClient,
    HttpMethod, HttpRequest, ReqOpts, RequestError,
};
use crate::jsontext::{
    at_lit, bool_text, json_quoted, lemma_parse_bool_at, lemma_parse_int_at, lemma_parse_null_at,
    lemma_parse_quoted_at, parse_bool, parse_i64, parse_member_end, parse_member_key, parse_null,
    parse_quoted, push_json_quoted, skip_value, skip_ws, sp_bool, sp_int, sp_member_end,
    sp_member_key, sp_null, sp_quoted, sp_skip_value, sp_ws, str_eq,
};
use crate::textenc::{int_text, push_dec_i64};
use crate::trusted::url_norm;

verus! {

// ---------------------------------------------------------------------------
// Records
// ---------------------------------------------------------------------------

/// The service's reply to an OTP send: a numeric code and a message.
#[derive(Debug, Clone)]
pub struct OtpSendResp {
    pub code: i64,
    pub msg: String,
}

impl Default for OtpSendResp {
    fn default() -> (r: OtpSendResp)
        ensures
            r.code == 0,
            r.msg@ == Seq::<char>::empty(),
    {
        OtpSendResp { code: 0, msg: String::new() }
    }
}

/// An OTP send request: phone number, SMS template, token length, and
/// expiry in seconds.
#[derive(Debug, Clone)]
pub struct OtpSendReq {
    pub phone: String,
    pub tmpl_sms: String,
    pub token_len: i32,
    pub expire_seconds: i32,
}

impl Default for OtpSendReq {
    fn default() -> (r: OtpSendReq)
        ensures
            r.phone@ == Seq::<char>::empty(),
            r.tmpl_sms@ == Seq::<char>::empty(),
            r.token_len == 0,
            r.expire_seconds == 0,
    {
        OtpSendReq {
            phone: String::new(),
            tmpl_sms: String::new(),
            token_len: 0,
            expire_seconds: 0,
        }
    }
}

/// Per-call options of the OTP send operation.
pub struct OtpSendReqOpts {
    pub req_opts: ReqOpts,
}

/// The service's reply to a token verification: a numeric code and a
/// message.
#[derive(Debug, Clone)]
pub struct OtpTokenVerifyResp {
    pub code: i64,
    pub msg: String,
}

impl Default for OtpTokenVerifyResp {
    fn default() -> (r: OtpTokenVerifyResp)
        ensures
            r.code == 0,
            r.msg@ == Seq::<char>::empty(),
    {
        OtpTokenVerifyResp { code: 0, msg: String::new() }
    }
}

/// Per-call options of the token verification operation.
pub struct OtpTokenVerifyReqOpts {
    pub req_opts: ReqOpts,
}

/// A token verification request: phone number, the token, and whether a
/// successful verification consumes the token.
#[derive(Debug, Clone)]
pub struct OtpTokenVerifyReq {
    pub phone: String,
    pub token: String,
    pub consume: Option<bool>,
}

impl Default for OtpTokenVerifyReq {
    fn default() -> (r: OtpTokenVerifyReq)
        ensures
            r.phone@ == Seq::<char>::empty(),
            r.token@ == Seq::<char>::empty(),
            r.consume is None,
    {
        OtpTokenVerifyReq { phone: String::new(), token: String::new(), consume: None }
    }
}

// ---------------------------------------------------------------------------
// The code/msg response shape, shared by both OTP responses
// ---------------------------------------------------------------------------

/// The JSON text of a `{"code":...,"msg":...}` record.
pub open spec fn json_of_code_msg(code: int, msg: Seq<char>) -> Seq<char> {
    seq!['{'] + json_quoted(seq!['c', 'o', 'd', 'e']) + seq![':'] + int_text(code) + seq![',']
        + json_quoted(seq!['m', 's', 'g']) + seq![':'] + json_quoted(msg) + seq!['}']
}

/// Parses the members of a code/msg object from position `i`, given
/// which fields were already seen.  Each named field must appear exactly
/// once; a member with any other key is skipped together with its value.
pub open spec fn sp_code_msg_members(
    s: Seq<char>,
    i: int,
    code: Option<int>,
    msg: Option<Seq<char>>,
) -> Option<(int, Seq<char>, int)>
    decreases s.len() - i,
{
    match sp_member_key(s, i) {
        None => None,
        Some((key, i4)) => {
            let step: Option<(Option<int>, Option<Seq<char>>, int)> = if key == seq![
                'c',
                'o',
                'd',
                'e',
            ] && code is None {
                match sp_int(s, i4) {
                    None => None,
                    Some((v, i5)) => if -0x8000000000000000 <= v <= 0x7fffffffffffffff {
                        Some((Some(v), msg, i5))
                    } else {
                        None
                    },
                }
            } else if key == seq!['m', 's', 'g'] && msg is None {
                match sp_quoted(s, i4) {
                    None => None,
                    Some((m, i5)) => Some((code, Some(m), i5)),
                }
            } else if key == seq!['c', 'o', 'd', 'e'] || key == seq!['m', 's', 'g'] {
                None
            } else {
                match sp_skip_value(s, i4) {
                    None => None,
                    Some(i5) => Some((code, msg, i5)),
                }
            };
            match step {
                None => None,
                Some((code2, msg2, i5)) => match sp_member_end(s, i5) {
                    None => None,
                    Some((more, i6)) => if more {
                        if i < i6 && i6 <= s.len() {
                            sp_code_msg_members(s, i6, code2, msg2)
                        } else {
                            None
                        }
                    } else {
                        match (code2, msg2) {
                            (Some(c), Some(m)) => Some((c, m, i6)),
                            _ => None,
                        }
                    },
                },
            }
        },
    }
}

/// Parses a whole code/msg object: both fields present, in any order,
/// with nothing but whitespace around the object.
pub open spec fn sp_code_msg(s: Seq<char>) -> Option<(int, Seq<char>)> {
    let i0 = sp_ws(s, 0);
    if 0 <= i0 && i0 < s.len() && s[i0] == '{' {
        match sp_code_msg_members(s, i0 + 1, None, None) {
            None => None,
            Some((c, m, j)) => if sp_ws(s, j) == s.len() {
                Some((c, m))
            } else {
                None
            },
        }
    } else {
        None
    }
}

fn parse_code_msg_members(s: &str, i: usize, code: Option<i64>, msg: Option<String>) -> (r: Option<
    (i64, String, usize),
>)
    requires
        i <= s@.len(),
    ensures
        r matches Some(p) ==> (sp_code_msg_members(s@, i as int, opt_int_of(code), opt_txt_of(msg))
            matches Some(t) && p.0 as int == t.0 && p.1@ == t.1 && p.2 as int == t.2 && p.2
            <= s@.len()),
        r is None ==> sp_code_msg_members(s@, i as int, opt_int_of(code), opt_txt_of(msg)) is None,
    decreases s@.len() - i,
{
    proof {
        reveal_strlit("code");
        reveal_strlit("msg");
        assert("code"@ =~= seq!['c', 'o', 'd', 'e']);
        assert("msg"@ =~= seq!['m', 's', 'g']);
    }
    match parse_member_key(s, i) {
        None => None,
        Some((key, i4)) => {
            if str_eq(key.as_str(), "code") && code.is_none() {
                match parse_i64(s, i4) {
                    None => None,
                    Some((v, i5)) => match parse_member_end(s, i5) {
                        None => None,
                        Some((more, i6)) => {
                            if more {
                                parse_code_msg_members(s, i6, Some(v), msg)
                            } else {
                                match msg {
                                    Some(m) => Some((v, m, i6)),
                                    None => None,
                                }
                            }
                        },
                    },
                }
            } else if str_eq(key.as_str(), "msg") && msg.is_none() {
                match parse_quoted(s, i4) {
                    None => None,
                    Some((m, i5)) => match parse_member_end(s, i5) {
                        None => None,
                        Some((more, i6)) => {
                            if more {
                                parse_code_msg_members(s, i6, code, Some(m))
                            } else {
                                match code {
                                    Some(c) => Some((c, m, i6)),
                                    None => None,
                                }
                            }
                        },
                    },
                }
            } else if str_eq(key.as_str(), "code") || str_eq(key.as_str(), "msg") {
                None
            } else {
                match skip_value(s, i4) {
                    None => None,
                    Some(i5) => match parse_member_end(s, i5) {
                        None => None,
                        Some((more, i6)) => {
                            if more {
                                parse_code_msg_members(s, i6, code, msg)
                            } else {
                                match (code, msg) {
                                    (Some(c), Some(m)) => Some((c, m, i6)),
                                    _ => None,
                                }
                            }
                        },
                    },
                }
            }
        },
    }
}

/// Parses a whole code/msg object from the response body text.
pub fn parse_code_msg(s: &str) -> (r: Option<(i64, String)>)
    ensures
        r matches Some(p) ==> (sp_code_msg(s@) matches Some(t) && p.0 as int == t.0 && p.1@
            == t.1),
        r is None ==> sp_code_msg(s@) is None,
{
    let i0 = skip_ws(s, 0);
    let n = s.unicode_len();
    if i0 < n {
        if s.get_char(i0) == '{' {
            match parse_code_msg_members(s, i0 + 1, None, None) {
                Some((c, m, j)) => {
                    let j2 = skip_ws(s, j);
                    if j2 == n {
                        return Some((c, m));
                    }
                    return None;
                },
                None => {
                    return None;
                },
            }
        }
    }
    None
}

/// Writes a code/msg record as JSON text.
fn code_msg_to_json(code: i64, msg: &str) -> (r: String)
    ensures
        r@ == json_of_code_msg(code as int, msg@),
{
    let mut out = String::new();
    out.push('{');
    push_json_quoted(&mut out, "code");
    out.push(':');
    push_dec_i64(&mut out, code);
    out.push(',');
    push_json_quoted(&mut out, "msg");
    out.push(':');
    push_json_quoted(&mut out, msg);
    out.push('}');
    proof {
        reveal_strlit("code");
        reveal_strlit("msg");
        assert("code"@ =~= seq!['c', 'o', 'd', 'e']);
        assert("msg"@ =~= seq!['m', 's', 'g']);
        assert(out@ =~= json_of_code_msg(code as int, msg@));
    }
    out
}

impl OtpSendResp {
    /// Writes this record as JSON text.
    pub fn to_json(&self) -> (r: String)
        ensures
            r@ == json_of_code_msg(self.code as int, self.msg@),
    {
        code_msg_to_json(self.code, self.msg.as_str())
    }

    /// Parses the service's JSON reply to an OTP send.
    pub fn from_json(s: &str) -> (r: Result<OtpSendResp, RequestError>)
        ensures
            sp_code_msg(s@) matches Some(t) ==> (r matches Ok(v) && v.code as int == t.0 && v.msg@
                == t.1),
            sp_code_msg(s@) is None ==> (r matches Err(e) && e is Json),
    {
        match parse_code_msg(s) {
            Some((code, msg)) => Ok(OtpSendResp { code, msg }),
            None => Err(
                RequestError::Json {
                    message: String::from_str("JSON parsing failed: not a code/msg object"),
                },
            ),
        }
    }
}

impl OtpTokenVerifyResp {
    /// Writes this record as JSON text.
    pub fn to_json(&self) -> (r: String)
        ensures
            r@ == json_of_code_msg(self.code as int, self.msg@),
    {
        code_msg_to_json(self.code, self.msg.as_str())
    }

    /// Parses the service's JSON reply to a token verification.
    pub fn from_json(s: &str) -> (r: Result<OtpTokenVerifyResp, RequestError>)
        ensures
            sp_code_msg(s@) matches Some(t) ==> (r matches Ok(v) && v.code as int == t.0 && v.msg@
                == t.1),
            sp_code_msg(s@) is None ==> (r matches Err(e) && e is Json),
    {
        match parse_code_msg(s) {
            Some((code, msg)) => Ok(OtpTokenVerifyResp { code, msg }),
            None => Err(
                RequestError::Json {
                    message: String::from_str("JSON parsing failed: not a code/msg object"),
                },
            ),
        }
    }
}

/// Parsing the written text of a code/msg record gives the record back.
pub proof fn lemma_code_msg_round_trip(code: i64, msg: Seq<char>)
    ensures
        sp_code_msg(json_of_code_msg(code as int, msg)) == Some((code as int, msg)),
{
    let s = json_of_code_msg(code as int, msg);
    let kc = json_quoted(seq!['c', 'o', 'd', 'e']);
    let it = int_text(code as int);
    let km = json_quoted(seq!['m', 's', 'g']);
    let qm = json_quoted(msg);
    let o2: int = 1 + kc.len() as int;
    let o3: int = o2 + 1;
    let o4: int = o3 + it.len() as int;
    let o5: int = o4 + 1;
    let o6: int = o5 + km.len() as int;
    let o7: int = o6 + 1;
    let o8: int = o7 + qm.len() as int;
    assert(s.len() == o8 + 1);
    assert(s[0] == '{');
    assert(s[o2] == ':');
    assert(s[o4] == ',');
    assert(s[o6] == ':');
    assert(s[o8] == '}');
    assert(s.subrange(1, o2) =~= kc) by {
        assert forall|t: int| 0 <= t < kc.len() implies s.subrange(1, o2)[t] == kc[t] by {
            assert(s.subrange(1, o2)[t] == s[1 + t]);
        }
    }
    assert(s.subrange(o3, o4) =~= it) by {
        assert forall|t: int| 0 <= t < it.len() implies s.subrange(o3, o4)[t] == it[t] by {
            assert(s.subrange(o3, o4)[t] == s[o3 + t]);
        }
    }
    assert(s.subrange(o5, o6) =~= km) by {
        assert forall|t: int| 0 <= t < km.len() implies s.subrange(o5, o6)[t] == km[t] by {
            assert(s.subrange(o5, o6)[t] == s[o5 + t]);
        }
    }
    assert(s.subrange(o7, o8) =~= qm) by {
        assert forall|t: int| 0 <= t < qm.len() implies s.subrange(o7, o8)[t] == qm[t] by {
            assert(s.subrange(o7, o8)[t] == s[o7 + t]);
        }
    }
    lemma_parse_quoted_at(s, 1, seq!['c', 'o', 'd', 'e']);
    lemma_parse_int_at(s, o3, code as int);
    lemma_parse_quoted_at(s, o5, seq!['m', 's', 'g']);
    lemma_parse_quoted_at(s, o7, msg);
    assert(s[1] == '"');
    assert(sp_ws(s, 1) == 1);
    assert(sp_member_key(s, 1) == Some((seq!['c', 'o', 'd', 'e'], o3)));
    assert(sp_int(s, o3) == Some((code as int, o4)));
    assert(sp_member_end(s, o4) == Some((true, o5)));
    assert(s[o5] == '"');
    assert(sp_member_key(s, o5) == Some((seq!['m', 's', 'g'], o7)));
    assert(sp_quoted(s, o7) matches Some(t) && t.0 == msg && t.1 == o8);
    assert(sp_member_end(s, o8) == Some((false, o8 + 1)));
    assert(sp_code_msg_members(s, o5, Some(code as int), None) == Some(
        (code as int, msg, o8 + 1),
    ));
    assert(sp_code_msg_members(s, 1, None, None) == Some((code as int, msg, o8 + 1)));
    assert(sp_ws(s, 0) == 0);
    assert(sp_ws(s, o8 + 1) == s.len());
}

// ---------------------------------------------------------------------------
// The OTP send request
// ---------------------------------------------------------------------------

pub open spec fn key_phone() -> Seq<char> {
    seq!['p', 'h', 'o', 'n', 'e']
}

pub open spec fn key_tmpl_sms() -> Seq<char> {
    seq!['t', 'm', 'p', 'l', '_', 's', 'm', 's']
}

pub open spec fn key_token_len() -> Seq<char> {
    seq!['t', 'o', 'k', 'e', 'n', '_', 'l', 'e', 'n']
}

pub open spec fn key_expire_seconds() -> Seq<char> {
    seq!['e', 'x', 'p', 'i', 'r', 'e', '_', 's', 'e', 'c', 'o', 'n', 'd', 's']
}

/// The JSON text of an OTP send request, fields in declaration order.
pub open spec fn json_of_send_req(phone: Seq<char>, tmpl: Seq<char>, tl: int, exp: int) -> Seq<
    char,
> {
    seq!['{'] + json_quoted(key_phone()) + seq![':'] + json_quoted(phone) + seq![',']
        + json_quoted(key_tmpl_sms()) + seq![':'] + json_quoted(tmpl) + seq![','] + json_quoted(
        key_token_len(),
    ) + seq![':'] + int_text(tl) + seq![','] + json_quoted(key_expire_seconds()) + seq![':']
        + int_text(exp) + seq!['}']
}

/// Parses the members of an OTP send request object.  Each named field
/// must appear exactly once and the numeric fields must fit an i32; a
/// member with any other key is skipped together with its value.
pub open spec fn sp_send_req_members(
    s: Seq<char>,
    i: int,
    phone: Option<Seq<char>>,
    tmpl: Option<Seq<char>>,
    tl: Option<int>,
    exp: Option<int>,
) -> Option<(Seq<char>, Seq<char>, int, int, int)>
    decreases s.len() - i,
{
    match sp_member_key(s, i) {
        None => None,
        Some((key, i4)) => {
            let step: Option<
                (Option<Seq<char>>, Option<Seq<char>>, Option<int>, Option<int>, int),
            > = if key == key_phone() && phone is None {
                match sp_quoted(s, i4) {
                    None => None,
                    Some((v, i5)) => Some((Some(v), tmpl, tl, exp, i5)),
                }
            } else if key == key_tmpl_sms() && tmpl is None {
                match sp_quoted(s, i4) {
                    None => None,
                    Some((v, i5)) => Some((phone, Some(v), tl, exp, i5)),
                }
            } else if key == key_token_len() && tl is None {
                match sp_int(s, i4) {
                    None => None,
                    Some((v, i5)) => if -0x80000000 <= v <= 0x7fffffff {
                        Some((phone, tmpl, Some(v), exp, i5))
                    } else {
                        None
                    },
                }
            } else if key == key_expire_seconds() && exp is None {
                match sp_int(s, i4) {
                    None => None,
                    Some((v, i5)) => if -0x80000000 <= v <= 0x7fffffff {
                        Some((phone, tmpl, tl, Some(v), i5))
                    } else {
                        None
                    },
                }
            } else if key == key_phone() || key == key_tmpl_sms() || key == key_token_len() || key
                == key_expire_seconds() {
                None
            } else {
                match sp_skip_value(s, i4) {
                    None => None,
                    Some(i5) => Some((phone, tmpl, tl, exp, i5)),
                }
            };
            match step {
                None => None,
                Some((p2, t2, l2, e2, i5)) => match sp_member_end(s, i5) {
                    None => None,
                    Some((more, i6)) => if more {
                        if i < i6 && i6 <= s.len() {
                            sp_send_req_members(s, i6, p2, t2, l2, e2)
                        } else {
                            None
                        }
                    } else {
                        match (p2, t2, l2, e2) {
                            (Some(pv), Some(tv), Some(lv), Some(ev)) => Some((pv, tv, lv, ev, i6)),
                            _ => None,
                        }
                    },
                },
            }
        },
    }
}

/// Parses a whole OTP send request object.
pub open spec fn sp_send_req(s: Seq<char>) -> Option<(Seq<char>, Seq<char>, int, int)> {
    let i0 = sp_ws(s, 0);
    if 0 <= i0 && i0 < s.len() && s[i0] == '{' {
        match sp_send_req_members(s, i0 + 1, None, None, None, None) {
            None => None,
            Some((pv, tv, lv, ev, j)) => if sp_ws(s, j) == s.len() {
                Some((pv, tv, lv, ev))
            } else {
                None
            },
        }
    } else {
        None
    }
}

fn parse_send_req_members(
    s: &str,
    i: usize,
    phone: Option<String>,
    tmpl: Option<String>,
    tl: Option<i32>,
    exp: Option<i32>,
) -> (r: Option<(String, String, i32, i32, usize)>)
    requires
        i <= s@.len(),
    ensures
        r matches Some(p) ==> (sp_send_req_members(
            s@,
            i as int,
            opt_txt_of(phone),
            opt_txt_of(tmpl),
            opt_i32_of(tl),
            opt_i32_of(exp),
        ) matches Some(t) && p.0@ == t.0 && p.1@ == t.1 && p.2 as int == t.2 && p.3 as int == t.3
            && p.4 as int == t.4 && p.4 <= s@.len()),
        r is None ==> sp_send_req_members(
            s@,
            i as int,
            opt_txt_of(phone),
            opt_txt_of(tmpl),
            opt_i32_of(tl),
            opt_i32_of(exp),
        ) is None,
    decreases s@.len() - i,
{
    proof {
        reveal_strlit("phone");
        reveal_strlit("tmpl_sms");
        reveal_strlit("token_len");
        reveal_strlit("expire_seconds");
        assert("phone"@ =~= key_phone());
        assert("tmpl_sms"@ =~= key_tmpl_sms());
        assert("token_len"@ =~= key_token_len());
        assert("expire_seconds"@ =~= key_expire_seconds());
    }
    match parse_member_key(s, i) {
        None => None,
        Some((key, i4)) => {
            if str_eq(key.as_str(), "phone") && phone.is_none() {
                match parse_quoted(s, i4) {
                    None => None,
                    Some((v, i5)) => match parse_member_end(s, i5) {
                        None => None,
                        Some((more, i6)) => {
                            if more {
                                parse_send_req_members(s, i6, Some(v), tmpl, tl, exp)
                            } else {
                                match (tmpl, tl, exp) {
                                    (Some(tv), Some(lv), Some(ev)) => Some((v, tv, lv, ev, i6)),
                                    _ => None,
                                }
                            }
                        },
                    },
                }
            } else if str_eq(key.as_str(), "tmpl_sms") && tmpl.is_none() {
                match parse_quoted(s, i4) {
                    None => None,
                    Some((v, i5)) => match parse_member_end(s, i5) {
                        None => None,
                        Some((more, i6)) => {
                            if more {
                                parse_send_req_members(s, i6, phone, Some(v), tl, exp)
                            } else {
                                match (phone, tl, exp) {
                                    (Some(pv), Some(lv), Some(ev)) => Some((pv, v, lv, ev, i6)),
                                    _ => None,
                                }
                            }
                        },
                    },
                }
            } else if str_eq(key.as_str(), "token_len") && tl.is_none() {
                match parse_i64(s, i4) {
                    None => None,
                    Some((v, i5)) => {
                        if !(-2147483648 <= v && v <= 2147483647) {
                            return None;
                        }
                        match parse_member_end(s, i5) {
                            None => None,
                            Some((more, i6)) => {
                                if more {
                                    parse_send_req_members(s, i6, phone, tmpl, Some(v as i32), exp)
                                } else {
                                    match (phone, tmpl, exp) {
                                        (Some(pv), Some(tv), Some(ev)) => Some(
                                            (pv, tv, v as i32, ev, i6),
                                        ),
                                        _ => None,
                                    }
                                }
                            },
                        }
                    },
                }
            } else if str_eq(key.as_str(), "expire_seconds") && exp.is_none() {
                match parse_i64(s, i4) {
                    None => None,
                    Some((v, i5)) => {
                        if !(-2147483648 <= v && v <= 2147483647) {
                            return None;
                        }
                        match parse_member_end(s, i5) {
                            None => None,
                            Some((more, i6)) => {
                                if more {
                                    parse_send_req_members(s, i6, phone, tmpl, tl, Some(v as i32))
                                } else {
                                    match (phone, tmpl, tl) {
                                        (Some(pv), Some(tv), Some(lv)) => Some(
                                            (pv, tv, lv, v as i32, i6),
                                        ),
                                        _ => None,
                                    }
                                }
                            },
                        }
                    },
                }
            } else if str_eq(key.as_str(), "phone") || str_eq(key.as_str(), "tmpl_sms") || str_eq(
                key.as_str(),
                "token_len",
            ) || str_eq(key.as_str(), "expire_seconds") {
                None
            } else {
                match skip_value(s, i4) {
                    None => None,
                    Some(i5) => match parse_member_end(s, i5) {
                        None => None,
                        Some((more, i6)) => {
                            if more {
                                parse_send_req_members(s, i6, phone, tmpl, tl, exp)
                            } else {
                                match (phone, tmpl, tl, exp) {
                                    (Some(pv), Some(tv), Some(lv), Some(ev)) => Some(
                                        (pv, tv, lv, ev, i6),
                                    ),
                                    _ => None,
                                }
                            }
                        },
                    },
                }
            }
        },
    }
}

impl OtpSendReq {
    /// Writes this record as compact JSON, fields in declaration order.
    pub fn to_json(&self) -> (r: String)
        ensures
            r@ == json_of_send_req(
                self.phone@,
                self.tmpl_sms@,
                self.token_len as int,
                self.expire_seconds as int,
            ),
    {
        let mut out = String::new();
        out.push('{');
        push_json_quoted(&mut out, "phone");
        out.push(':');
        push_json_quoted(&mut out, self.phone.as_str());
        out.push(',');
        push_json_quoted(&mut out, "tmpl_sms");
        out.push(':');
        push_json_quoted(&mut out, self.tmpl_sms.as_str());
        out.push(',');
        push_json_quoted(&mut out, "token_len");
        out.push(':');
        push_dec_i64(&mut out, self.token_len as i64);
        out.push(',');
        push_json_quoted(&mut out, "expire_seconds");
        out.push(':');
        push_dec_i64(&mut out, self.expire_seconds as i64);
        out.push('}');
        proof {
            reveal_strlit("phone");
            reveal_strlit("tmpl_sms");
            reveal_strlit("token_len");
            reveal_strlit("expire_seconds");
            assert("phone"@ =~= key_phone());
            assert("tmpl_sms"@ =~= key_tmpl_sms());
            assert("token_len"@ =~= key_token_len());
            assert("expire_seconds"@ =~= key_expire_seconds());
            assert(out@ =~= json_of_send_req(
                self.phone@,
                self.tmpl_sms@,
                self.token_len as int,
                self.expire_seconds as int,
            ));
        }
        out
    }

    /// Parses the JSON text of an OTP send request.
    pub fn from_json(s: &str) -> (r: Result<OtpSendReq, RequestError>)
        ensures
            sp_send_req(s@) matches Some(t) ==> (r matches Ok(v) && v.phone@ == t.0 && v.tmpl_sms@
                == t.1 && v.token_len as int == t.2 && v.expire_seconds as int == t.3),
            sp_send_req(s@) is None ==> (r matches Err(e) && e is Json),
    {
        let i0 = skip_ws(s, 0);
        let n = s.unicode_len();
        if i0 < n {
            if s.get_char(i0) == '{' {
                match parse_send_req_members(s, i0 + 1, None, None, None, None) {
                    Some((pv, tv, lv, ev, j)) => {
                        let j2 = skip_ws(s, j);
                        if j2 == n {
                            return Ok(
                                OtpSendReq {
                                    phone: pv,
                                    tmpl_sms: tv,
                                    token_len: lv,
                                    expire_seconds: ev,
                                },
                            );
                        }
                        return Err(
                            RequestError::Json {
                                message: String::from_str(
                                    "JSON parsing failed: not an OTP send request object",
                                ),
                            },
                        );
                    },
                    None => {
                        return Err(
                            RequestError::Json {
                                message: String::from_str(
                                    "JSON parsing failed: not an OTP send request object",
                                ),
                            },
                        );
                    },
                }
            }
        }
        Err(
            RequestError::Json {
                message: String::from_str("JSON parsing failed: not an OTP send request object"),
            },
        )
    }
}

/// Parsing the written text of an OTP send request gives it back.
#[verifier::rlimit(100)]
#[verifier::spinoff_prover]
pub proof fn lemma_send_req_round_trip(phone: Seq<char>, tmpl: Seq<char>, tl: i32, exp: i32)
    ensures
        sp_send_req(json_of_send_req(phone, tmpl, tl as int, exp as int)) == Some(
            (phone, tmpl, tl as int, exp as int),
        ),
{
    let s = json_of_send_req(phone, tmpl, tl as int, exp as int);
    let kp = json_quoted(key_phone());
    let qp = json_quoted(phone);
    let kt = json_quoted(key_tmpl_sms());
    let qt = json_quoted(tmpl);
    let kl = json_quoted(key_token_len());
    let il = int_text(tl as int);
    let ke = json_quoted(key_expire_seconds());
    let ie = int_text(exp as int);
    let a2: int = 1 + kp.len() as int;
    let a3: int = a2 + 1;
    let a4: int = a3 + qp.len() as int;
    let a5: int = a4 + 1;
    let a6: int = a5 + kt.len() as int;
    let a7: int = a6 + 1;
    let a8: int = a7 + qt.len() as int;
    let a9: int = a8 + 1;
    let a10: int = a9 + kl.len() as int;
    let a11: int = a10 + 1;
    let a12: int = a11 + il.len() as int;
    let a13: int = a12 + 1;
    let a14: int = a13 + ke.len() as int;
    let a15: int = a14 + 1;
    let a16: int = a15 + ie.len() as int;
    assert(s.len() == a16 + 1);
    assert(s[0] == '{');
    assert(s[a2] == ':');
    assert(s[a4] == ',');
    assert(s[a6] == ':');
    assert(s[a8] == ',');
    assert(s[a10] == ':');
    assert(s[a12] == ',');
    assert(s[a14] == ':');
    assert(s[a16] == '}');
    assert(s.subrange(1, a2) =~= kp) by {
        assert forall|t: int| 0 <= t < kp.len() implies s.subrange(1, a2)[t] == kp[t] by {
            assert(s.subrange(1, a2)[t] == s[1 + t]);
        }
    }
    assert(s.subrange(a3, a4) =~= qp) by {
        assert forall|t: int| 0 <= t < qp.len() implies s.subrange(a3, a4)[t] == qp[t] by {
            assert(s.subrange(a3, a4)[t] == s[a3 + t]);
        }
    }
    assert(s.subrange(a5, a6) =~= kt) by {
        assert forall|t: int| 0 <= t < kt.len() implies s.subrange(a5, a6)[t] == kt[t] by {
            assert(s.subrange(a5, a6)[t] == s[a5 + t]);
        }
    }
    assert(s.subrange(a7, a8) =~= qt) by {
        assert forall|t: int| 0 <= t < qt.len() implies s.subrange(a7, a8)[t] == qt[t] by {
            assert(s.subrange(a7, a8)[t] == s[a7 + t]);
        }
    }
    assert(s.subrange(a9, a10) =~= kl) by {
        assert forall|t: int| 0 <= t < kl.len() implies s.subrange(a9, a10)[t] == kl[t] by {
            assert(s.subrange(a9, a10)[t] == s[a9 + t]);
        }
    }
    assert(s.subrange(a11, a12) =~= il) by {
        assert forall|t: int| 0 <= t < il.len() implies s.subrange(a11, a12)[t] == il[t] by {
            assert(s.subrange(a11, a12)[t] == s[a11 + t]);
        }
    }
    assert(s.subrange(a13, a14) =~= ke) by {
        assert forall|t: int| 0 <= t < ke.len() implies s.subrange(a13, a14)[t] == ke[t] by {
            assert(s.subrange(a13, a14)[t] == s[a13 + t]);
        }
    }
    assert(s.subrange(a15, a16) =~= ie) by {
        assert forall|t: int| 0 <= t < ie.len() implies s.subrange(a15, a16)[t] == ie[t] by {
            assert(s.subrange(a15, a16)[t] == s[a15 + t]);
        }
    }
    lemma_parse_quoted_at(s, 1, key_phone());
    lemma_parse_quoted_at(s, a3, phone);
    lemma_parse_quoted_at(s, a5, key_tmpl_sms());
    lemma_parse_quoted_at(s, a7, tmpl);
    lemma_parse_quoted_at(s, a9, key_token_len());
    lemma_parse_int_at(s, a11, tl as int);
    lemma_parse_quoted_at(s, a13, key_expire_seconds());
    lemma_parse_int_at(s, a15, exp as int);
    assert(s[1] == '"');
    assert(s[a3] == '"');
    assert(s[a5] == '"');
    assert(s[a7] == '"');
    assert(s[a9] == '"');
    assert(s[a13] == '"');
    assert(sp_member_key(s, 1) == Some((key_phone(), a3)));
    assert(sp_member_end(s, a4) == Some((true, a5)));
    assert(sp_member_key(s, a5) == Some((key_tmpl_sms(), a7)));
    assert(sp_member_end(s, a8) == Some((true, a9)));
    assert(sp_member_key(s, a9) == Some((key_token_len(), a11)));
    assert(sp_int(s, a11) == Some((tl as int, a12)));
    assert(sp_member_end(s, a12) == Some((true, a13)));
    assert(sp_member_key(s, a13) == Some((key_expire_seconds(), a15)));
    assert(sp_int(s, a15) == Some((exp as int, a16)));
    assert(sp_member_end(s, a16) == Some((false, a16 + 1)));
    assert(sp_send_req_members(s, a13, Some(phone), Some(tmpl), Some(tl as int), None) == Some(
        (phone, tmpl, tl as int, exp as int, a16 + 1),
    ));
    assert(sp_send_req_members(s, a9, Some(phone), Some(tmpl), None, None) == Some(
        (phone, tmpl, tl as int, exp as int, a16 + 1),
    ));
    assert(sp_send_req_members(s, a5, Some(phone), None, None, None) == Some(
        (phone, tmpl, tl as int, exp as int, a16 + 1),
    ));
    assert(sp_send_req_members(s, 1, None, None, None, None) == Some(
        (phone, tmpl, tl as int, exp as int, a16 + 1),
    ));
    assert(sp_ws(s, 0) == 0);
    assert(sp_ws(s, a16 + 1) == s.len());
}

// ---------------------------------------------------------------------------
// The token verification request
// ---------------------------------------------------------------------------

pub open spec fn key_token() -> Seq<char> {
    seq!['t', 'o', 'k', 'e', 'n']
}

pub open spec fn key_consume() -> Seq<char> {
    seq!['c', 'o', 'n', 's', 'u', 'm', 'e']
}

/// The JSON text of an absent-or-set boolean: `null` when absent.
pub open spec fn consume_text(c: Option<bool>) -> Seq<char> {
    match c {
        Some(b) => bool_text(b),
        None => seq!['n', 'u', 'l', 'l'],
    }
}

/// The JSON text of a token verification request, fields in declaration
/// order; an unset consume flag is written as `null`.
pub open spec fn json_of_verify_req(phone: Seq<char>, token: Seq<char>, consume: Option<
    bool,
>) -> Seq<char> {
    seq!['{'] + json_quoted(key_phone()) + seq![':'] + json_quoted(phone) + seq![','] + json_quoted(
        key_token(),
    ) + seq![':'] + json_quoted(token) + seq![','] + json_quoted(key_consume()) + seq![':']
        + consume_text(consume) + seq!['}']
}

/// Parses the members of a token verification request object.  The
/// consume flag may be `true`, `false`, or `null`, and may be missing
/// altogether, which reads as unset; a member with an unrecognized key
/// is skipped together with its value.
pub open spec fn sp_verify_req_members(
    s: Seq<char>,
    i: int,
    phone: Option<Seq<char>>,
    token: Option<Seq<char>>,
    consume: Option<Option<bool>>,
) -> Option<(Seq<char>, Seq<char>, Option<bool>, int)>
    decreases s.len() - i,
{
    match sp_member_key(s, i) {
        None => None,
        Some((key, i4)) => {
            let step: Option<
                (Option<Seq<char>>, Option<Seq<char>>, Option<Option<bool>>, int),
            > = if key == key_phone() && phone is None {
                match sp_quoted(s, i4) {
                    None => None,
                    Some((v, i5)) => Some((Some(v), token, consume, i5)),
                }
            } else if key == key_token() && token is None {
                match sp_quoted(s, i4) {
                    None => None,
                    Some((v, i5)) => Some((phone, Some(v), consume, i5)),
                }
            } else if key == key_consume() && consume is None {
                match sp_null(s, i4) {
                    Some(j) => Some((phone, token, Some(None), j)),
                    None => match sp_bool(s, i4) {
                        Some((b, j)) => Some((phone, token, Some(Some(b)), j)),
                        None => None,
                    },
                }
            } else if key == key_phone() || key == key_token() || key == key_consume() {
                None
            } else {
                match sp_skip_value(s, i4) {
                    None => None,
                    Some(i5) => Some((phone, token, consume, i5)),
                }
            };
            match step {
                None => None,
                Some((p2, t2, c2, i5)) => match sp_member_end(s, i5) {
                    None => None,
                    Some((more, i6)) => if more {
                        if i < i6 && i6 <= s.len() {
                            sp_verify_req_members(s, i6, p2, t2, c2)
                        } else {
                            None
                        }
                    } else {
                        match (p2, t2) {
                            (Some(pv), Some(tv)) => Some(
                                (
                                    pv,
                                    tv,
                                    match c2 {
                                        Some(cv) => cv,
                                        None => None,
                                    },
                                    i6,
                                ),
                            ),
                            _ => None,
                        }
                    },
                },
            }
        },
    }
}

/// Parses a whole token verification request object.
pub open spec fn sp_verify_req(s: Seq<char>) -> Option<(Seq<char>, Seq<char>, Option<bool>)> {
    let i0 = sp_ws(s, 0);
    if 0 <= i0 && i0 < s.len() && s[i0] == '{' {
        match sp_verify_req_members(s, i0 + 1, None, None, None) {
            None => None,
            Some((pv, tv, cv, j)) => if sp_ws(s, j) == s.len() {
                Some((pv, tv, cv))
            } else {
                None
            },
        }
    } else {
        None
    }
}

#[verifier::rlimit(90)]
#[verifier::spinoff_prover]
fn parse_verify_req_members(
    s: &str,
    i: usize,
    phone: Option<String>,
    token: Option<String>,
    consume: Option<Option<bool>>,
) -> (r: Option<(String, String, Option<bool>, usize)>)
    requires
        i <= s@.len(),
    ensures
        r matches Some(p) ==> (sp_verify_req_members(
            s@,
            i as int,
            opt_txt_of(phone),
            opt_txt_of(token),
            consume,
        ) matches Some(t) && p.0@ == t.0 && p.1@ == t.1 && p.2 == t.2 && p.3 as int == t.3 && p.3
            <= s@.len()),
        r is None ==> sp_verify_req_members(
            s@,
            i as int,
            opt_txt_of(phone),
            opt_txt_of(token),
            consume,
        ) is None,
    decreases s@.len() - i,
{
    proof {
        reveal_strlit("phone");
        reveal_strlit("token");
        reveal_strlit("consume");
        assert("phone"@ =~= key_phone());
        assert("token"@ =~= key_token());
        assert("consume"@ =~= key_consume());
    }
    match parse_member_key(s, i) {
        None => None,
        Some((key, i4)) => {
            if str_eq(key.as_str(), "phone") && phone.is_none() {
                match parse_quoted(s, i4) {
                    None => None,
                    Some((v, i5)) => match parse_member_end(s, i5) {
                        None => None,
                        Some((more, i6)) => {
                            if more {
                                parse_verify_req_members(s, i6, Some(v), token, consume)
                            } else {
                                match token {
                                    Some(tv) => Some(
                                        (
                                            v,
                                            tv,
                                            match consume {
                                                Some(cv) => cv,
                                                None => None,
                                            },
                                            i6,
                                        ),
                                    ),
                                    None => None,
                                }
                            }
                        },
                    },
                }
            } else if str_eq(key.as_str(), "token") && token.is_none() {
                match parse_quoted(s, i4) {
                    None => None,
                    Some((v, i5)) => match parse_member_end(s, i5) {
                        None => None,
                        Some((more, i6)) => {
                            if more {
                                parse_verify_req_members(s, i6, phone, Some(v), consume)
                            } else {
                                match phone {
                                    Some(pv) => Some(
                                        (
                                            pv,
                                            v,
                                            match consume {
                                                Some(cv) => cv,
                                                None => None,
                                            },
                                            i6,
                                        ),
                                    ),
                                    None => None,
                                }
                            }
                        },
                    },
                }
            } else if str_eq(key.as_str(), "consume") && consume.is_none() {
                let cv: Option<(Option<bool>, usize)> = match parse_null(s, i4) {
                    Some(j) => Some((None, j)),
                    None => match parse_bool(s, i4) {
                        Some((b, j)) => Some((Some(b), j)),
                        None => None,
                    },
                };
                match cv {
                    None => None,
                    Some((c2, i5)) => match parse_member_end(s, i5) {
                        None => None,
                        Some((more, i6)) => {
                            if more {
                                parse_verify_req_members(s, i6, phone, token, Some(c2))
                            } else {
                                match (phone, token) {
                                    (Some(pv), Some(tv)) => Some((pv, tv, c2, i6)),
                                    _ => None,
                                }
                            }
                        },
                    },
                }
            } else if str_eq(key.as_str(), "phone") || str_eq(key.as_str(), "token") || str_eq(
                key.as_str(),
                "consume",
            ) {
                None
            } else {
                match skip_value(s, i4) {
                    None => None,
                    Some(i5) => match parse_member_end(s, i5) {
                        None => None,
                        Some((more, i6)) => {
                            if more {
                                parse_verify_req_members(s, i6, phone, token, consume)
                            } else {
                                match (phone, token) {
                                    (Some(pv), Some(tv)) => Some(
                                        (
                                            pv,
                                            tv,
                                            match consume {
                                                Some(cv) => cv,
                                                None => None,
                                            },
                                            i6,
                                        ),
                                    ),
                                    _ => None,
                                }
                            }
                        },
                    },
                }
            }
        },
    }
}

impl OtpTokenVerifyReq {
    /// Writes this record as compact JSON, fields in declaration order;
    /// an unset consume flag is written as `null`.
    pub fn to_json(&self) -> (r: String)
        ensures
            r@ == json_of_verify_req(self.phone@, self.token@, self.consume),
    {
        let mut out = String::new();
        out.push('{');
        push_json_quoted(&mut out, "phone");
        out.push(':');
        push_json_quoted(&mut out, self.phone.as_str());
        out.push(',');
        push_json_quoted(&mut out, "token");
        out.push(':');
        push_json_quoted(&mut out, self.token.as_str());
        out.push(',');
        push_json_quoted(&mut out, "consume");
        out.push(':');
        match self.consume {
            Some(true) => out.append("true"),
            Some(false) => out.append("false"),
            None => out.append("null"),
        }
        out.push('}');
        proof {
            reveal_strlit("phone");
            reveal_strlit("token");
            reveal_strlit("consume");
            reveal_strlit("true");
            reveal_strlit("false");
            reveal_strlit("null");
            assert("phone"@ =~= key_phone());
            assert("token"@ =~= key_token());
            assert("consume"@ =~= key_consume());
            assert("true"@ =~= bool_text(true));
            assert("false"@ =~= bool_text(false));
            assert("null"@ =~= consume_text(None));
            assert(out@ =~= json_of_verify_req(self.phone@, self.token@, self.consume));
        }
        out
    }

    /// Parses the JSON text of a token verification request.
    pub fn from_json(s: &str) -> (r: Result<OtpTokenVerifyReq, RequestError>)
        ensures
            sp_verify_req(s@) matches Some(t) ==> (r matches Ok(v) && v.phone@ == t.0 && v.token@
                == t.1 && v.consume == t.2),
            sp_verify_req(s@) is None ==> (r matches Err(e) && e is Json),
    {
        let i0 = skip_ws(s, 0);
        let n = s.unicode_len();
        if i0 < n {
            if s.get_char(i0) == '{' {
                match parse_verify_req_members(s, i0 + 1, None, None, None) {
                    Some((pv, tv, cv, j)) => {
                        let j2 = skip_ws(s, j);
                        if j2 == n {
                            return Ok(OtpTokenVerifyReq { phone: pv, token: tv, consume: cv });
                        }
                        return Err(
                            RequestError::Json {
                                message: String::from_str(
                                    "JSON parsing failed: not a token verification request object",
                                ),
                            },
                        );
                    },
                    None => {
                        return Err(
                            RequestError::Json {
                                message: String::from_str(
                                    "JSON parsing failed: not a token verification request object",
                                ),
                            },
                        );
                    },
                }
            }
        }
        Err(
            RequestError::Json {
                message: String::from_str(
                    "JSON parsing failed: not a token verification request object",
                ),
            },
        )
    }
}

/// The member chain of a canonically written token verification request,
/// stated over the component parse results alone.
proof fn lemma_verify_req_chain(
    s: Seq<char>,
    phone: Seq<char>,
    token: Seq<char>,
    consume: Option<bool>,
    a3: int,
    a4: int,
    a5: int,
    a7: int,
    a8: int,
    a9: int,
    a11: int,
    a12: int,
)
    requires
        1 < a5 && a5 <= s.len(),
        a5 < a9 && a9 <= s.len(),
        sp_member_key(s, 1) == Some((key_phone(), a3)),
        sp_quoted(s, a3) == Some((phone, a4)),
        sp_member_end(s, a4) == Some((true, a5)),
        sp_member_key(s, a5) == Some((key_token(), a7)),
        sp_quoted(s, a7) == Some((token, a8)),
        sp_member_end(s, a8) == Some((true, a9)),
        sp_member_key(s, a9) == Some((key_consume(), a11)),
        consume matches Some(b) ==> sp_null(s, a11) is None && sp_bool(s, a11) == Some((b, a12)),
        consume is None ==> sp_null(s, a11) == Some(a12),
        sp_member_end(s, a12) == Some((false, a12 + 1)),
    ensures
        sp_verify_req_members(s, 1, None, None, None) == Some((phone, token, consume, a12 + 1)),
{
    assert(sp_verify_req_members(s, a9, Some(phone), Some(token), None) == Some(
        (phone, token, consume, a12 + 1),
    ));
    assert(sp_verify_req_members(s, a5, Some(phone), None, None) == Some(
        (phone, token, consume, a12 + 1),
    ));
}

/// Parsing the written text of a token verification request gives it
/// back.
#[verifier::rlimit(100)]
#[verifier::spinoff_prover]
pub proof fn lemma_verify_req_round_trip(phone: Seq<char>, token: Seq<char>, consume: Option<bool>)
    ensures
        sp_verify_req(json_of_verify_req(phone, token, consume)) == Some((phone, token, consume)),
{
    let s = json_of_verify_req(phone, token, consume);
    let kp = json_quoted(key_phone());
    let qp = json_quoted(phone);
    let kt = json_quoted(key_token());
    let qt = json_quoted(token);
    let kc = json_quoted(key_consume());
    let ct = consume_text(consume);
    let a2: int = 1 + kp.len() as int;
    let a3: int = a2 + 1;
    let a4: int = a3 + qp.len() as int;
    let a5: int = a4 + 1;
    let a6: int = a5 + kt.len() as int;
    let a7: int = a6 + 1;
    let a8: int = a7 + qt.len() as int;
    let a9: int = a8 + 1;
    let a10: int = a9 + kc.len() as int;
    let a11: int = a10 + 1;
    let a12: int = a11 + ct.len() as int;
    lemma_verify_req_sub(phone, token, consume);
    lemma_verify_req_chain(
        s,
        phone,
        token,
        consume,
        a3,
        a4,
        a5,
        a7,
        a8,
        a9,
        a11,
        a12,
    );
    assert(sp_ws(s, a12 + 1) == s.len());
}

/// The component parse results inside the written text of a token
/// verification request.
#[verifier::rlimit(100)]
#[verifier::spinoff_prover]
proof fn lemma_verify_req_sub(phone: Seq<char>, token: Seq<char>, consume: Option<bool>)
    ensures
        ({
            let s = json_of_verify_req(phone, token, consume);
            let kp = json_quoted(key_phone());
            let qp = json_quoted(phone);
            let kt = json_quoted(key_token());
            let qt = json_quoted(token);
            let kc = json_quoted(key_consume());
            let ct = consume_text(consume);
            let a2 = 1 + kp.len() as int;
            let a3 = a2 + 1;
            let a4 = a3 + qp.len() as int;
            let a5 = a4 + 1;
            let a6 = a5 + kt.len() as int;
            let a7 = a6 + 1;
            let a8 = a7 + qt.len() as int;
            let a9 = a8 + 1;
            let a10 = a9 + kc.len() as int;
            let a11 = a10 + 1;
            let a12 = a11 + ct.len() as int;
            &&& s.len() == a12 + 1
            &&& sp_ws(s, 0) == 0
            &&& s[0] == '{'
            &&& sp_member_key(s, 1) == Some((key_phone(), a3))
            &&& sp_quoted(s, a3) == Some((phone, a4))
            &&& sp_member_end(s, a4) == Some((true, a5))
            &&& sp_member_key(s, a5) == Some((key_token(), a7))
            &&& sp_quoted(s, a7) == Some((token, a8))
            &&& sp_member_end(s, a8) == Some((true, a9))
            &&& sp_member_key(s, a9) == Some((key_consume(), a11))
            &&& (consume matches Some(b) ==> sp_null(s, a11) is None && sp_bool(s, a11) == Some(
                (b, a12),
            ))
            &&& (consume is None ==> sp_null(s, a11) == Some(a12))
            &&& sp_member_end(s, a12) == Some((false, a12 + 1))
        }),
{
    let s = json_of_verify_req(phone, token, consume);
    let kp = json_quoted(key_phone());
    let qp = json_quoted(phone);
    let kt = json_quoted(key_token());
    let qt = json_quoted(token);
    let kc = json_quoted(key_consume());
    let ct = consume_text(consume);
    let a2: int = 1 + kp.len() as int;
    let a3: int = a2 + 1;
    let a4: int = a3 + qp.len() as int;
    let a5: int = a4 + 1;
    let a6: int = a5 + kt.len() as int;
    let a7: int = a6 + 1;
    let a8: int = a7 + qt.len() as int;
    let a9: int = a8 + 1;
    let a10: int = a9 + kc.len() as int;
    let a11: int = a10 + 1;
    let a12: int = a11 + ct.len() as int;
    assert(s.len() == a12 + 1);
    assert(s[0] == '{');
    assert(s[a2] == ':');
    assert(s[a4] == ',');
    assert(s[a6] == ':');
    assert(s[a8] == ',');
    assert(s[a10] == ':');
    assert(s[a12] == '}');
    assert(s.subrange(1, a2) =~= kp) by {
        assert forall|t: int| 0 <= t < kp.len() implies s.subrange(1, a2)[t] == kp[t] by {
            assert(s.subrange(1, a2)[t] == s[1 + t]);
        }
    }
    assert(s.subrange(a3, a4) =~= qp) by {
        assert forall|t: int| 0 <= t < qp.len() implies s.subrange(a3, a4)[t] == qp[t] by {
            assert(s.subrange(a3, a4)[t] == s[a3 + t]);
        }
    }
    assert(s.subrange(a5, a6) =~= kt) by {
        assert forall|t: int| 0 <= t < kt.len() implies s.subrange(a5, a6)[t] == kt[t] by {
            assert(s.subrange(a5, a6)[t] == s[a5 + t]);
        }
    }
    assert(s.subrange(a7, a8) =~= qt) by {
        assert forall|t: int| 0 <= t < qt.len() implies s.subrange(a7, a8)[t] == qt[t] by {
            assert(s.subrange(a7, a8)[t] == s[a7 + t]);
        }
    }
    assert(s.subrange(a9, a10) =~= kc) by {
        assert forall|t: int| 0 <= t < kc.len() implies s.subrange(a9, a10)[t] == kc[t] by {
            assert(s.subrange(a9, a10)[t] == s[a9 + t]);
        }
    }
    assert(s.subrange(a11, a12) =~= ct) by {
        assert forall|t: int| 0 <= t < ct.len() implies s.subrange(a11, a12)[t] == ct[t] by {
            assert(s.subrange(a11, a12)[t] == s[a11 + t]);
        }
    }
    lemma_parse_quoted_at(s, 1, key_phone());
    lemma_parse_quoted_at(s, a3, phone);
    lemma_parse_quoted_at(s, a5, key_token());
    lemma_parse_quoted_at(s, a7, token);
    lemma_parse_quoted_at(s, a9, key_consume());
    assert(s[1] == '"');
    assert(s[a3] == '"');
    assert(s[a5] == '"');
    assert(s[a7] == '"');
    assert(s[a9] == '"');
    assert(sp_member_key(s, 1) == Some((key_phone(), a3)));
    assert(sp_member_end(s, a4) == Some((true, a5)));
    assert(sp_member_key(s, a5) == Some((key_token(), a7)));
    assert(sp_member_end(s, a8) == Some((true, a9)));
    assert(sp_member_key(s, a9) == Some((key_consume(), a11)));
    match consume {
        Some(b) => {
            lemma_parse_bool_at(s, a11, b);
            assert(s[a11] == bool_text(b)[0]) by {
                assert(s.subrange(a11, a12)[0] == s[a11]);
            }
            assert(!at_lit(s, a11, seq!['n', 'u', 'l', 'l'])) by {
                if at_lit(s, a11, seq!['n', 'u', 'l', 'l']) {
                    assert(s.subrange(a11, a11 + 4)[0] == s[a11]);
                }
            }
            assert(sp_null(s, a11) is None);
            assert(sp_bool(s, a11) == Some((b, a12)));
        },
        None => {
            lemma_parse_null_at(s, a11);
            assert(sp_null(s, a11) == Some(a12));
        },
    }
    assert(sp_member_end(s, a12) == Some((false, a12 + 1)));
    assert(sp_ws(s, 0) == 0);
}

// ---------------------------------------------------------------------------
// The OTP client
// ---------------------------------------------------------------------------

/// The OTP endpoint client, wrapping the base client.
pub struct OtpClient {
    pub client: BaseClient,
}

impl OtpClient {
    /// A client with the default configuration and the given API key.
    pub fn new(api_key: &str) -> (c: OtpClient)
        ensures
            c.client.api_key@ == api_key@,
            c.client.base_url@ == "https://mslm.io/"@,
            c.client.user_agent@ == "mslm/rust/1.0.0"@,
    {
        let mut client = BaseClient::new();
        client.set_api_key(api_key);
        OtpClient { client }
    }

    /// A client with the default configuration and an empty API key.
    pub fn init_defaults() -> (c: OtpClient)
        ensures
            c.client.api_key@ == Seq::<char>::empty(),
            c.client.base_url@ == "https://mslm.io/"@,
            c.client.user_agent@ == "mslm/rust/1.0.0"@,
    {
        let c = OtpClient::new("");
        proof {
            reveal_strlit("");
            assert(""@ =~= Seq::<char>::empty());
        }
        c
    }

    pub fn set_http_client(&mut self, http_client: reqwest::blocking::Client)
        ensures
            final(self).client.http == http_client,
            final(self).client.base_url == old(self).client.base_url,
            final(self).client.user_agent == old(self).client.user_agent,
            final(self).client.api_key == old(self).client.api_key,
    {
        self.client.set_http_client(http_client);
    }

    pub fn set_base_url(&mut self, base_url_str: &str) -> (r: Result<(), url::ParseError>)
        ensures
            r is Ok <==> url_norm(base_url_str@) is Some,
            r is Ok ==> Some(final(self).client.base_url@) == url_norm(base_url_str@),
            r is Err ==> final(self).client.base_url == old(self).client.base_url,
            final(self).client.http == old(self).client.http,
            final(self).client.user_agent == old(self).client.user_agent,
            final(self).client.api_key == old(self).client.api_key,
    {
        self.client.set_base_url(base_url_str)
    }

    pub fn set_user_agent(&mut self, user_agent: &str)
        ensures
            final(self).client.user_agent@ == user_agent@,
            final(self).client.http == old(self).client.http,
            final(self).client.base_url == old(self).client.base_url,
            final(self).client.api_key == old(self).client.api_key,
    {
        self.client.set_user_agent(user_agent);
    }

    pub fn set_api_key(&mut self, api_key: &str)
        ensures
            final(self).client.api_key@ == api_key@,
            final(self).client.http == old(self).client.http,
            final(self).client.base_url == old(self).client.base_url,
            final(self).client.user_agent == old(self).client.user_agent,
    {
        self.client.set_api_key(api_key);
    }

    /// Builds the OTP send request: a POST to `api/otp/v1/send` with the
    /// record as its JSON body, the configured or overridden base URL and
    /// API key in the URL, and the chosen user agent and transport.
    pub fn send_request(&self, otp_send_req: &OtpSendReq, opts: Option<&OtpSendReqOpts>) -> (r:
        Result<HttpRequest, RequestError>)
        ensures
            ({
                let ob = match opts {
                    Some(o) => o.req_opts.base_url,
                    None => Some(self.client.base_url),
                };
                let okey = match opts {
                    Some(o) => o.req_opts.api_key,
                    None => Some(self.client.api_key),
                };
                let oua = match opts {
                    Some(o) => o.req_opts.user_agent,
                    None => Some(self.client.user_agent),
                };
                let oh = match opts {
                    Some(o) => o.req_opts.http,
                    None => Some(self.client.http),
                };
                &&& ob is None ==> (r matches Err(e) && e is UrlParse)
                &&& ob matches Some(b) ==> (url_norm(b@) is None ==> (r matches Err(e)
                    && e is UrlParse))
                &&& ob matches Some(b) ==> (url_norm(b@) matches Some(nb) ==> (url_norm(
                    nb + "api/otp/v1/send"@,
                ) is None ==> (r matches Err(e) && e is UrlParse)))
                &&& ob matches Some(b) ==> (url_norm(b@) matches Some(nb) ==> (url_norm(
                    nb + "api/otp/v1/send"@,
                ) matches Some(nu) ==> (r matches Ok(req) && req.method == HttpMethod::Post && req.url@
                    == with_query(nu, query_text(Seq::empty(), opt_text(okey))) && req.user_agent@
                    == opt_text(oua) && (req.body matches Some(bd) && bd@ == json_of_send_req(
                    otp_send_req.phone@,
                    otp_send_req.tmpl_sms@,
                    otp_send_req.token_len as int,
                    otp_send_req.expire_seconds as int,
                )) && req.http == (match oh {
                    Some(h) => h,
                    None => self.client.http,
                }))))
            }),
    {
        let default_opts = OtpSendReqOpts { req_opts: self.client.prepare_opts(&ReqOpts::default()) };
        let opt = match opts {
            Some(o) => o,
            None => &default_opts,
        };
        let qp: Vec<(String, String)> = Vec::new();
        proof {
            assert(qp_views(qp@) =~= Seq::<(Seq<char>, Seq<char>)>::empty());
        }
        let t_url = match self.client.prepare_url("api/otp/v1/send", &qp, &opt.req_opts) {
            Ok(u) => u,
            Err(e) => {
                return Err(e);
            },
        };
        let data = otp_send_req.to_json();
        Ok(self.client.prepare_request(HttpMethod::Post, t_url, Some(data), &opt.req_opts))
    }

    /// Builds the token verification request: a POST to
    /// `api/otp/v1/token_verify` with the record as its JSON body.
    pub fn verify_request(
        &self,
        otp_token_verify_req: &OtpTokenVerifyReq,
        opts: Option<&OtpTokenVerifyReqOpts>,
    ) -> (r: Result<HttpRequest, RequestError>)
        ensures
            ({
                let ob = match opts {
                    Some(o) => o.req_opts.base_url,
                    None => Some(self.client.base_url),
                };
                let okey = match opts {
                    Some(o) => o.req_opts.api_key,
                    None => Some(self.client.api_key),
                };
                let oua = match opts {
                    Some(o) => o.req_opts.user_agent,
                    None => Some(self.client.user_agent),
                };
                let oh = match opts {
                    Some(o) => o.req_opts.http,
                    None => Some(self.client.http),
                };
                &&& ob is None ==> (r matches Err(e) && e is UrlParse)
                &&& ob matches Some(b) ==> (url_norm(b@) is None ==> (r matches Err(e)
                    && e is UrlParse))
                &&& ob matches Some(b) ==> (url_norm(b@) matches Some(nb) ==> (url_norm(
                    nb + "api/otp/v1/token_verify"@,
                ) is None ==> (r matches Err(e) && e is UrlParse)))
                &&& ob matches Some(b) ==> (url_norm(b@) matches Some(nb) ==> (url_norm(
                    nb + "api/otp/v1/token_verify"@,
                ) matches Some(nu) ==> (r matches Ok(req) && req.method == HttpMethod::Post && req.url@
                    == with_query(nu, query_text(Seq::empty(), opt_text(okey))) && req.user_agent@
                    == opt_text(oua) && (req.body matches Some(bd) && bd@ == json_of_verify_req(
                    otp_token_verify_req.phone@,
                    otp_token_verify_req.token@,
                    otp_token_verify_req.consume,
                )) && req.http == (match oh {
                    Some(h) => h,
                    None => self.client.http,
                }))))
            }),
    {
        let default_opts = OtpTokenVerifyReqOpts {
            req_opts: self.client.prepare_opts(&ReqOpts::default()),
        };
        let opt = match opts {
            Some(o) => o,
            None => &default_opts,
        };
        let qp: Vec<(String, String)> = Vec::new();
        proof {
            assert(qp_views(qp@) =~= Seq::<(Seq<char>, Seq<char>)>::empty());
        }
        let t_url = match self.client.prepare_url("api/otp/v1/token_verify", &qp, &opt.req_opts) {
            Ok(u) => u,
            Err(e) => {
                return Err(e);
            },
        };
        let data = otp_token_verify_req.to_json();
        Ok(self.client.prepare_request(HttpMethod::Post, t_url, Some(data), &opt.req_opts))
    }
}

} // verus!

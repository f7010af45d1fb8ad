//! The email-verification endpoint client: one operation, single-address
//! verification.  The address is optionally percent-encoded before it is
//! placed in the query string; the JSON response is read back by a
//! verified parser.

use vstd::prelude::*;

use crate::client::{
    opt_i32_of, opt_text, opt_txt_of, qp_views, query_text, with_query, BaseClient, HttpMethod,
    HttpRequest, ReqOpts, RequestError,
};
use crate::jsontext::{
    parse_bool, parse_i64, parse_member_end, parse_member_key, parse_quoted, skip_value, skip_ws,
    sp_bool, sp_int, sp_member_end, sp_member_key, sp_quoted, sp_skip_value, sp_ws, str_eq,
};
use crate::textenc::{pct_encoded, percent_encode_all};
use crate::trusted::url_norm;

verus! {

// ---------------------------------------------------------------------------
// Records
// ---------------------------------------------------------------------------

/// One mail-exchanger entry of a verification response.
#[derive(Debug, Clone)]
pub struct SingleVerifyRespMx {
    pub host: String,
    pub pref: i32,
}

/// The verification response record.
#[derive(Debug, Clone)]
pub struct SingleVerifyResp {
    pub email: String,
    pub username: String,
    pub domain: String,
    pub malformed: bool,
    pub suggestion: String,
    pub status: String,
    pub has_mailbox: bool,
    pub accept_all: bool,
    pub disposable: bool,
    pub free: bool,
    pub role: bool,
    pub mx: Vec<SingleVerifyRespMx>,
}

/// Per-call options of single verification: the shared request options
/// and the percent-encoding flag.  The address is encoded exactly when
/// the flag is set to false.
pub struct SingleVerifyReqOpts {
    pub req_opts: ReqOpts,
    pub disable_url_encode: Option<bool>,
}

// ---------------------------------------------------------------------------
// The response parser
// ---------------------------------------------------------------------------

/// The views of a list of mail-exchanger entries.
pub open spec fn mx_views(v: Seq<SingleVerifyRespMx>) -> Seq<(Seq<char>, int)> {
    v.map_values(|m: SingleVerifyRespMx| (m.host@, m.pref as int))
}

/// Parses the members of one mail-exchanger object.
pub open spec fn sp_mx_members(
    s: Seq<char>,
    i: int,
    host: Option<Seq<char>>,
    pref: Option<int>,
) -> Option<(Seq<char>, int, int)>
    decreases s.len() - i,
{
    match sp_member_key(s, i) {
        None => None,
        Some((key, i4)) => {
            let step: Option<(Option<Seq<char>>, Option<int>, int)> = if key == seq![
                'h',
                'o',
                's',
                't',
            ] && host is None {
                match sp_quoted(s, i4) {
                    None => None,
                    Some((v, i5)) => Some((Some(v), pref, i5)),
                }
            } else if key == seq!['p', 'r', 'e', 'f'] && pref is None {
                match sp_int(s, i4) {
                    None => None,
                    Some((v, i5)) => if -0x80000000 <= v <= 0x7fffffff {
                        Some((host, Some(v), i5))
                    } else {
                        None
                    },
                }
            } else if key == seq!['h', 'o', 's', 't'] || key == seq!['p', 'r', 'e', 'f'] {
                None
            } else {
                match sp_skip_value(s, i4) {
                    None => None,
                    Some(i5) => Some((host, pref, i5)),
                }
            };
            match step {
                None => None,
                Some((h2, p2, i5)) => match sp_member_end(s, i5) {
                    None => None,
                    Some((more, i6)) => if more {
                        if i < i6 && i6 <= s.len() {
                            sp_mx_members(s, i6, h2, p2)
                        } else {
                            None
                        }
                    } else {
                        match (h2, p2) {
                            (Some(hv), Some(pv)) => Some((hv, pv, i6)),
                            _ => None,
                        }
                    },
                },
            }
        },
    }
}

/// Parses one mail-exchanger object starting at `i` (whitespace allowed
/// before the brace).
pub open spec fn sp_mx_item(s: Seq<char>, i: int) -> Option<(Seq<char>, int, int)> {
    let i0 = sp_ws(s, i);
    if 0 <= i0 && i0 < s.len() && s[i0] == '{' {
        sp_mx_members(s, i0 + 1, None, None)
    } else {
        None
    }
}

/// Parses the items of a non-empty mail-exchanger array, starting just
/// past the opening bracket or a comma.
pub open spec fn sp_mx_items(s: Seq<char>, i: int) -> Option<(Seq<(Seq<char>, int)>, int)>
    decreases s.len() - i,
{
    match sp_mx_item(s, i) {
        None => None,
        Some((host, pref, j)) => {
            let j2 = sp_ws(s, j);
            if 0 <= j2 && j2 < s.len() && s[j2] == ',' {
                if i < j2 + 1 && j2 + 1 <= s.len() {
                    match sp_mx_items(s, j2 + 1) {
                        None => None,
                        Some((rest, k)) => Some((seq![(host, pref)] + rest, k)),
                    }
                } else {
                    None
                }
            } else if 0 <= j2 && j2 < s.len() && s[j2] == ']' {
                Some((seq![(host, pref)], j2 + 1))
            } else {
                None
            }
        },
    }
}

/// Parses a whole mail-exchanger array at `i`.
pub open spec fn sp_mx_array(s: Seq<char>, i: int) -> Option<(Seq<(Seq<char>, int)>, int)> {
    let i0 = sp_ws(s, i);
    if 0 <= i0 && i0 < s.len() && s[i0] == '[' {
        let i1 = sp_ws(s, i0 + 1);
        if 0 <= i1 && i1 < s.len() && s[i1] == ']' {
            Some((Seq::empty(), i1 + 1))
        } else {
            sp_mx_items(s, i0 + 1)
        }
    } else {
        None
    }
}

fn parse_mx_members(s: &str, i: usize, host: Option<String>, pref: Option<i32>) -> (r: Option<
    (String, i32, usize),
>)
    requires
        i <= s@.len(),
    ensures
        r matches Some(p) ==> (sp_mx_members(
            s@,
            i as int,
            opt_txt_of(host),
            opt_i32_of(pref),
        ) matches Some(t) && p.0@ == t.0 && p.1 as int == t.1 && p.2 as int == t.2 && i < p.2
            && p.2 <= s@.len()),
        r is None ==> sp_mx_members(
            s@,
            i as int,
            opt_txt_of(host),
            opt_i32_of(pref),
        ) is None,
    decreases s@.len() - i,
{
    proof {
        reveal_strlit("host");
        reveal_strlit("pref");
        assert("host"@ =~= seq!['h', 'o', 's', 't']);
        assert("pref"@ =~= seq!['p', 'r', 'e', 'f']);
    }
    match parse_member_key(s, i) {
        None => None,
        Some((key, i4)) => {
            if str_eq(key.as_str(), "host") && host.is_none() {
                match parse_quoted(s, i4) {
                    None => None,
                    Some((v, i5)) => match parse_member_end(s, i5) {
                        None => None,
                        Some((more, i6)) => {
                            if more {
                                parse_mx_members(s, i6, Some(v), pref)
                            } else {
                                match pref {
                                    Some(pv) => Some((v, pv, i6)),
                                    None => None,
                                }
                            }
                        },
                    },
                }
            } else if str_eq(key.as_str(), "pref") && pref.is_none() {
                match parse_i64(s, i4) {
                    None => None,
                    Some((v, i5)) => {
                        if !(-2147483648 <= v && v <= 2147483647) {
                            return None;
                        }
                        match parse_member_end(s, i5) {
                            None => None,
                            Some((more, i6)) => {
                                if more {
                                    parse_mx_members(s, i6, host, Some(v as i32))
                                } else {
                                    match host {
                                        Some(hv) => Some((hv, v as i32, i6)),
                                        None => None,
                                    }
                                }
                            },
                        }
                    },
                }
            } else if str_eq(key.as_str(), "host") || str_eq(key.as_str(), "pref") {
                None
            } else {
                match skip_value(s, i4) {
                    None => None,
                    Some(i5) => match parse_member_end(s, i5) {
                        None => None,
                        Some((more, i6)) => {
                            if more {
                                parse_mx_members(s, i6, host, pref)
                            } else {
                                match (host, pref) {
                                    (Some(hv), Some(pv)) => Some((hv, pv, i6)),
                                    _ => None,
                                }
                            }
                        },
                    },
                }
            }
        },
    }
}

fn parse_mx_item(s: &str, i: usize) -> (r: Option<(SingleVerifyRespMx, usize)>)
    requires
        i <= s@.len(),
    ensures
        r matches Some(p) ==> (sp_mx_item(s@, i as int) matches Some(t) && p.0.host@ == t.0
            && p.0.pref as int == t.1 && p.1 as int == t.2 && i < p.1 && p.1 <= s@.len()),
        r is None ==> sp_mx_item(s@, i as int) is None,
{
    let i0 = skip_ws(s, i);
    let n = s.unicode_len();
    if i0 < n {
        if s.get_char(i0) == '{' {
            match parse_mx_members(s, i0 + 1, None, None) {
                Some((hv, pv, j)) => {
                    return Some((SingleVerifyRespMx { host: hv, pref: pv }, j));
                },
                None => {
                    return None;
                },
            }
        }
    }
    None
}

fn parse_mx_items(s: &str, i: usize) -> (r: Option<(Vec<SingleVerifyRespMx>, usize)>)
    requires
        i <= s@.len(),
    ensures
        r matches Some(p) ==> (sp_mx_items(s@, i as int) matches Some(t) && mx_views(p.0@) == t.0
            && p.1 as int == t.1 && i < p.1 && p.1 <= s@.len()),
        r is None ==> sp_mx_items(s@, i as int) is None,
    decreases s@.len() - i,
{
    match parse_mx_item(s, i) {
        None => None,
        Some((item, j)) => {
            let j2 = skip_ws(s, j);
            let n = s.unicode_len();
            if j2 < n {
                let c = s.get_char(j2);
                if c == ',' {
                    proof {
                        assert(j < j2 + 1);
                    }
                    match parse_mx_items(s, j2 + 1) {
                        None => {
                            return None;
                        },
                        Some((rest, k)) => {
                            let mut out: Vec<SingleVerifyRespMx> = Vec::new();
                            out.push(item);
                            let mut rest_vec = rest;
                            out.append(&mut rest_vec);
                            proof {
                                assert(mx_views(out@) =~= seq![(item.host@, item.pref as int)]
                                    + mx_views(rest@)) by {
                                    assert forall|t2: int|
                                        0 <= t2 < out@.len() implies mx_views(out@)[t2] == (seq![
                                        (item.host@, item.pref as int),
                                    ] + mx_views(rest@))[t2] by {
                                        if t2 > 0 {
                                            assert(out@[t2] == rest@[t2 - 1]);
                                            assert(mx_views(rest@)[t2 - 1] == (
                                            rest@[t2 - 1].host@,
                                            rest@[t2 - 1].pref as int,
                                            ));
                                        }
                                    }
                                }
                            }
                            return Some((out, k));
                        },
                    }
                }
                if c == ']' {
                    let mut out: Vec<SingleVerifyRespMx> = Vec::new();
                    out.push(item);
                    proof {
                        assert(mx_views(out@) =~= seq![(item.host@, item.pref as int)]);
                    }
                    return Some((out, j2 + 1));
                }
            }
            None
        },
    }
}

fn parse_mx_array(s: &str, i: usize) -> (r: Option<(Vec<SingleVerifyRespMx>, usize)>)
    requires
        i <= s@.len(),
    ensures
        r matches Some(p) ==> (sp_mx_array(s@, i as int) matches Some(t) && mx_views(p.0@) == t.0
            && p.1 as int == t.1 && i < p.1 && p.1 <= s@.len()),
        r is None ==> sp_mx_array(s@, i as int) is None,
{
    let i0 = skip_ws(s, i);
    let n = s.unicode_len();
    if i0 < n {
        if s.get_char(i0) == '[' {
            let i1 = skip_ws(s, i0 + 1);
            if i1 < n {
                if s.get_char(i1) == ']' {
                    let out: Vec<SingleVerifyRespMx> = Vec::new();
                    proof {
                        assert(mx_views(out@) =~= Seq::<(Seq<char>, int)>::empty());
                    }
                    return Some((out, i1 + 1));
                }
            }
            return parse_mx_items(s, i0 + 1);
        }
    }
    None
}

/// The partially-filled response while its members are being read: which
/// fields have been seen, and their values.
pub struct SvPartialV {
    pub email: Option<Seq<char>>,
    pub username: Option<Seq<char>>,
    pub domain: Option<Seq<char>>,
    pub malformed: Option<bool>,
    pub suggestion: Option<Seq<char>>,
    pub status: Option<Seq<char>>,
    pub has_mailbox: Option<bool>,
    pub accept_all: Option<bool>,
    pub disposable: Option<bool>,
    pub free: Option<bool>,
    pub role: Option<bool>,
    pub mx: Option<Seq<(Seq<char>, int)>>,
}

pub open spec fn sv_empty() -> SvPartialV {
    SvPartialV {
        email: None,
        username: None,
        domain: None,
        malformed: None,
        suggestion: None,
        status: None,
        has_mailbox: None,
        accept_all: None,
        disposable: None,
        free: None,
        role: None,
        mx: None,
    }
}

pub open spec fn sv_complete(st: SvPartialV) -> bool {
    st.email is Some && st.username is Some && st.domain is Some && st.malformed is Some
        && st.suggestion is Some && st.status is Some && st.has_mailbox is Some && st.accept_all
        is Some && st.disposable is Some && st.free is Some && st.role is Some && st.mx is Some
}

/// One member's value by key: which field it fills and what value kind
/// it must hold.  A key already seen, or unknown, is rejected.
pub open spec fn sp_sv_value(s: Seq<char>, i: int, key: Seq<char>, st: SvPartialV) -> Option<
    (SvPartialV, int),
> {
    if key == seq!['e', 'm', 'a', 'i', 'l'] && st.email is None {
        match sp_quoted(s, i) {
            Some((v, j)) => Some((SvPartialV { email: Some(v), ..st }, j)),
            None => None,
        }
    } else if key == seq!['u', 's', 'e', 'r', 'n', 'a', 'm', 'e'] && st.username is None {
        match sp_quoted(s, i) {
            Some((v, j)) => Some((SvPartialV { username: Some(v), ..st }, j)),
            None => None,
        }
    } else if key == seq!['d', 'o', 'm', 'a', 'i', 'n'] && st.domain is None {
        match sp_quoted(s, i) {
            Some((v, j)) => Some((SvPartialV { domain: Some(v), ..st }, j)),
            None => None,
        }
    } else if key == seq!['m', 'a', 'l', 'f', 'o', 'r', 'm', 'e', 'd'] && st.malformed is None {
        match sp_bool(s, i) {
            Some((v, j)) => Some((SvPartialV { malformed: Some(v), ..st }, j)),
            None => None,
        }
    } else if key == seq!['s', 'u', 'g', 'g', 'e', 's', 't', 'i', 'o', 'n'] && st.suggestion
        is None {
        match sp_quoted(s, i) {
            Some((v, j)) => Some((SvPartialV { suggestion: Some(v), ..st }, j)),
            None => None,
        }
    } else if key == seq!['s', 't', 'a', 't', 'u', 's'] && st.status is None {
        match sp_quoted(s, i) {
            Some((v, j)) => Some((SvPartialV { status: Some(v), ..st }, j)),
            None => None,
        }
    } else if key == seq!['h', 'a', 's', '_', 'm', 'a', 'i', 'l', 'b', 'o', 'x'] && st.has_mailbox
        is None {
        match sp_bool(s, i) {
            Some((v, j)) => Some((SvPartialV { has_mailbox: Some(v), ..st }, j)),
            None => None,
        }
    } else if key == seq!['a', 'c', 'c', 'e', 'p', 't', '_', 'a', 'l', 'l'] && st.accept_all
        is None {
        match sp_bool(s, i) {
            Some((v, j)) => Some((SvPartialV { accept_all: Some(v), ..st }, j)),
            None => None,
        }
    } else if key == seq!['d', 'i', 's', 'p', 'o', 's', 'a', 'b', 'l', 'e'] && st.disposable
        is None {
        match sp_bool(s, i) {
            Some((v, j)) => Some((SvPartialV { disposable: Some(v), ..st }, j)),
            None => None,
        }
    } else if key == seq!['f', 'r', 'e', 'e'] && st.free is None {
        match sp_bool(s, i) {
            Some((v, j)) => Some((SvPartialV { free: Some(v), ..st }, j)),
            None => None,
        }
    } else if key == seq!['r', 'o', 'l', 'e'] && st.role is None {
        match sp_bool(s, i) {
            Some((v, j)) => Some((SvPartialV { role: Some(v), ..st }, j)),
            None => None,
        }
    } else if key == seq!['m', 'x'] && st.mx is None {
        match sp_mx_array(s, i) {
            Some((v, j)) => Some((SvPartialV { mx: Some(v), ..st }, j)),
            None => None,
        }
    } else if key == seq!['e', 'm', 'a', 'i', 'l'] || key == seq![
        'u',
        's',
        'e',
        'r',
        'n',
        'a',
        'm',
        'e',
    ] || key == seq!['d', 'o', 'm', 'a', 'i', 'n'] || key == seq![
        'm',
        'a',
        'l',
        'f',
        'o',
        'r',
        'm',
        'e',
        'd',
    ] || key == seq!['s', 'u', 'g', 'g', 'e', 's', 't', 'i', 'o', 'n'] || key == seq![
        's',
        't',
        'a',
        't',
        'u',
        's',
    ] || key == seq!['h', 'a', 's', '_', 'm', 'a', 'i', 'l', 'b', 'o', 'x'] || key == seq![
        'a',
        'c',
        'c',
        'e',
        'p',
        't',
        '_',
        'a',
        'l',
        'l',
    ] || key == seq!['d', 'i', 's', 'p', 'o', 's', 'a', 'b', 'l', 'e'] || key == seq![
        'f',
        'r',
        'e',
        'e',
    ] || key == seq!['r', 'o', 'l', 'e'] || key == seq!['m', 'x'] {
        None
    } else {
        match sp_skip_value(s, i) {
            Some(j) => Some((st, j)),
            None => None,
        }
    }
}

/// Parses the members of a verification response object.
pub open spec fn sp_sv_members(s: Seq<char>, i: int, st: SvPartialV) -> Option<(SvPartialV, int)>
    decreases s.len() - i,
{
    match sp_member_key(s, i) {
        None => None,
        Some((key, i4)) => match sp_sv_value(s, i4, key, st) {
            None => None,
            Some((st2, i5)) => match sp_member_end(s, i5) {
                None => None,
                Some((more, i6)) => if more {
                    if i < i6 && i6 <= s.len() {
                        sp_sv_members(s, i6, st2)
                    } else {
                        None
                    }
                } else {
                    if sv_complete(st2) {
                        Some((st2, i6))
                    } else {
                        None
                    }
                },
            },
        },
    }
}

/// Parses a whole verification response object: all twelve fields, in
/// any order, each exactly once; members with other keys are skipped.
pub open spec fn sp_single_verify(s: Seq<char>) -> Option<SvPartialV> {
    let i0 = sp_ws(s, 0);
    if 0 <= i0 && i0 < s.len() && s[i0] == '{' {
        match sp_sv_members(s, i0 + 1, sv_empty()) {
            None => None,
            Some((st, j)) => if sp_ws(s, j) == s.len() {
                Some(st)
            } else {
                None
            },
        }
    } else {
        None
    }
}

/// The partially-filled exec state while the members are being read.
struct SvPartial {
    email: Option<String>,
    username: Option<String>,
    domain: Option<String>,
    malformed: Option<bool>,
    suggestion: Option<String>,
    status: Option<String>,
    has_mailbox: Option<bool>,
    accept_all: Option<bool>,
    disposable: Option<bool>,
    free: Option<bool>,
    role: Option<bool>,
    mx: Option<Vec<SingleVerifyRespMx>>,
}

impl SvPartial {
    spec fn view_p(&self) -> SvPartialV {
        SvPartialV {
            email: opt_txt_of(self.email),
            username: opt_txt_of(self.username),
            domain: opt_txt_of(self.domain),
            malformed: self.malformed,
            suggestion: opt_txt_of(self.suggestion),
            status: opt_txt_of(self.status),
            has_mailbox: self.has_mailbox,
            accept_all: self.accept_all,
            disposable: self.disposable,
            free: self.free,
            role: self.role,
            mx: match self.mx {
                Some(v) => Some(mx_views(v@)),
                None => None,
            },
        }
    }
}

#[verifier::rlimit(60)]
fn parse_sv_members(s: &str, i: usize, st: SvPartial) -> (r: Option<(SvPartial, usize)>)
    requires
        i <= s@.len(),
    ensures
        r matches Some(p) ==> (sp_sv_members(s@, i as int, st.view_p()) matches Some(t)
            && p.0.view_p() == t.0 && p.1 as int == t.1 && p.1 <= s@.len() && sv_complete(
            p.0.view_p(),
        )),
        r is None ==> sp_sv_members(s@, i as int, st.view_p()) is None,
    decreases s@.len() - i,
{
    proof {
        reveal_strlit("email");
        reveal_strlit("username");
        reveal_strlit("domain");
        reveal_strlit("malformed");
        reveal_strlit("suggestion");
        reveal_strlit("status");
        reveal_strlit("has_mailbox");
        reveal_strlit("accept_all");
        reveal_strlit("disposable");
        reveal_strlit("free");
        reveal_strlit("role");
        reveal_strlit("mx");
        assert("email"@ =~= seq!['e', 'm', 'a', 'i', 'l']);
        assert("username"@ =~= seq!['u', 's', 'e', 'r', 'n', 'a', 'm', 'e']);
        assert("domain"@ =~= seq!['d', 'o', 'm', 'a', 'i', 'n']);
        assert("malformed"@ =~= seq!['m', 'a', 'l', 'f', 'o', 'r', 'm', 'e', 'd']);
        assert("suggestion"@ =~= seq!['s', 'u', 'g', 'g', 'e', 's', 't', 'i', 'o', 'n']);
        assert("status"@ =~= seq!['s', 't', 'a', 't', 'u', 's']);
        assert("has_mailbox"@ =~= seq!['h', 'a', 's', '_', 'm', 'a', 'i', 'l', 'b', 'o', 'x']);
        assert("accept_all"@ =~= seq!['a', 'c', 'c', 'e', 'p', 't', '_', 'a', 'l', 'l']);
        assert("disposable"@ =~= seq!['d', 'i', 's', 'p', 'o', 's', 'a', 'b', 'l', 'e']);
        assert("free"@ =~= seq!['f', 'r', 'e', 'e']);
        assert("role"@ =~= seq!['r', 'o', 'l', 'e']);
        assert("mx"@ =~= seq!['m', 'x']);
    }
    match parse_member_key(s, i) {
        None => None,
        Some((key, i4)) => {
            let stepped: Option<(SvPartial, usize)> = if str_eq(key.as_str(), "email")
                && st.email.is_none() {
                match parse_quoted(s, i4) {
                    Some((v, j)) => Some((SvPartial { email: Some(v), ..st }, j)),
                    None => None,
                }
            } else if str_eq(key.as_str(), "username") && st.username.is_none() {
                match parse_quoted(s, i4) {
                    Some((v, j)) => Some((SvPartial { username: Some(v), ..st }, j)),
                    None => None,
                }
            } else if str_eq(key.as_str(), "domain") && st.domain.is_none() {
                match parse_quoted(s, i4) {
                    Some((v, j)) => Some((SvPartial { domain: Some(v), ..st }, j)),
                    None => None,
                }
            } else if str_eq(key.as_str(), "malformed") && st.malformed.is_none() {
                match parse_bool(s, i4) {
                    Some((v, j)) => Some((SvPartial { malformed: Some(v), ..st }, j)),
                    None => None,
                }
            } else if str_eq(key.as_str(), "suggestion") && st.suggestion.is_none() {
                match parse_quoted(s, i4) {
                    Some((v, j)) => Some((SvPartial { suggestion: Some(v), ..st }, j)),
                    None => None,
                }
            } else if str_eq(key.as_str(), "status") && st.status.is_none() {
                match parse_quoted(s, i4) {
                    Some((v, j)) => Some((SvPartial { status: Some(v), ..st }, j)),
                    None => None,
                }
            } else if str_eq(key.as_str(), "has_mailbox") && st.has_mailbox.is_none() {
                match parse_bool(s, i4) {
                    Some((v, j)) => Some((SvPartial { has_mailbox: Some(v), ..st }, j)),
                    None => None,
                }
            } else if str_eq(key.as_str(), "accept_all") && st.accept_all.is_none() {
                match parse_bool(s, i4) {
                    Some((v, j)) => Some((SvPartial { accept_all: Some(v), ..st }, j)),
                    None => None,
                }
            } else if str_eq(key.as_str(), "disposable") && st.disposable.is_none() {
                match parse_bool(s, i4) {
                    Some((v, j)) => Some((SvPartial { disposable: Some(v), ..st }, j)),
                    None => None,
                }
            } else if str_eq(key.as_str(), "free") && st.free.is_none() {
                match parse_bool(s, i4) {
                    Some((v, j)) => Some((SvPartial { free: Some(v), ..st }, j)),
                    None => None,
                }
            } else if str_eq(key.as_str(), "role") && st.role.is_none() {
                match parse_bool(s, i4) {
                    Some((v, j)) => Some((SvPartial { role: Some(v), ..st }, j)),
                    None => None,
                }
            } else if str_eq(key.as_str(), "mx") && st.mx.is_none() {
                match parse_mx_array(s, i4) {
                    Some((v, j)) => Some((SvPartial { mx: Some(v), ..st }, j)),
                    None => None,
                }
            } else if str_eq(key.as_str(), "email") || str_eq(key.as_str(), "username") || str_eq(
                key.as_str(),
                "domain",
            ) || str_eq(key.as_str(), "malformed") || str_eq(key.as_str(), "suggestion") || str_eq(
                key.as_str(),
                "status",
            ) || str_eq(key.as_str(), "has_mailbox") || str_eq(key.as_str(), "accept_all")
                || str_eq(key.as_str(), "disposable") || str_eq(key.as_str(), "free") || str_eq(
                key.as_str(),
                "role",
            ) || str_eq(key.as_str(), "mx") {
                None
            } else {
                match skip_value(s, i4) {
                    Some(j) => Some((st, j)),
                    None => None,
                }
            };
            match stepped {
                None => None,
                Some((st2, i5)) => match parse_member_end(s, i5) {
                    None => None,
                    Some((more, i6)) => {
                        if more {
                            parse_sv_members(s, i6, st2)
                        } else {
                            if st2.email.is_some() && st2.username.is_some() && st2.domain.is_some()
                                && st2.malformed.is_some() && st2.suggestion.is_some()
                                && st2.status.is_some() && st2.has_mailbox.is_some()
                                && st2.accept_all.is_some() && st2.disposable.is_some()
                                && st2.free.is_some() && st2.role.is_some() && st2.mx.is_some() {
                                Some((st2, i6))
                            } else {
                                None
                            }
                        }
                    },
                },
            }
        },
    }
}

impl SingleVerifyResp {
    /// Parses the service's JSON verification response.
    pub fn from_json(s: &str) -> (r: Result<SingleVerifyResp, RequestError>)
        ensures
            sp_single_verify(s@) matches Some(t) ==> (r matches Ok(v) && t.email == Some(v.email@)
                && t.username == Some(v.username@) && t.domain == Some(v.domain@) && t.malformed
                == Some(v.malformed) && t.suggestion == Some(v.suggestion@) && t.status == Some(
                v.status@,
            ) && t.has_mailbox == Some(v.has_mailbox) && t.accept_all == Some(v.accept_all)
                && t.disposable == Some(v.disposable) && t.free == Some(v.free) && t.role == Some(
                v.role,
            ) && t.mx == Some(mx_views(v.mx@))),
            sp_single_verify(s@) is None ==> (r matches Err(e) && e is Json),
    {
        let i0 = skip_ws(s, 0);
        let n = s.unicode_len();
        if i0 < n {
            if s.get_char(i0) == '{' {
                let empty = SvPartial {
                    email: None,
                    username: None,
                    domain: None,
                    malformed: None,
                    suggestion: None,
                    status: None,
                    has_mailbox: None,
                    accept_all: None,
                    disposable: None,
                    free: None,
                    role: None,
                    mx: None,
                };
                proof {
                    assert(empty.view_p() == sv_empty());
                }
                match parse_sv_members(s, i0 + 1, empty) {
                    Some((st, j)) => {
                        let j2 = skip_ws(s, j);
                        if j2 == n {
                            match (st.email, st.username, st.domain, st.malformed, st.suggestion,
                                st.status, st.has_mailbox, st.accept_all, st.disposable, st.free,
                                st.role, st.mx) {
                                (
                                    Some(email),
                                    Some(username),
                                    Some(domain),
                                    Some(malformed),
                                    Some(suggestion),
                                    Some(status),
                                    Some(has_mailbox),
                                    Some(accept_all),
                                    Some(disposable),
                                    Some(free),
                                    Some(role),
                                    Some(mx),
                                ) => {
                                    return Ok(
                                        SingleVerifyResp {
                                            email,
                                            username,
                                            domain,
                                            malformed,
                                            suggestion,
                                            status,
                                            has_mailbox,
                                            accept_all,
                                            disposable,
                                            free,
                                            role,
                                            mx,
                                        },
                                    );
                                },
                                _ => {
                                    proof {
                                        assert(false);
                                    }
                                    return Err(
                                        RequestError::Json {
                                            message: String::from_str("JSON parsing failed"),
                                        },
                                    );
                                },
                            }
                        }
                        return Err(
                            RequestError::Json {
                                message: String::from_str(
                                    "JSON parsing failed: not a verification response object",
                                ),
                            },
                        );
                    },
                    None => {
                        return Err(
                            RequestError::Json {
                                message: String::from_str(
                                    "JSON parsing failed: not a verification response object",
                                ),
                            },
                        );
                    },
                }
            }
        }
        Err(
            RequestError::Json {
                message: String::from_str(
                    "JSON parsing failed: not a verification response object",
                ),
            },
        )
    }
}

// ---------------------------------------------------------------------------
// The email-verification client
// ---------------------------------------------------------------------------

/// The email-verification endpoint client, wrapping the base client.
pub struct EmailVerifyClient {
    pub client: BaseClient,
}

impl EmailVerifyClient {
    /// A client with the default configuration and the given API key.
    pub fn new(api_key: &str) -> (c: EmailVerifyClient)
        ensures
            c.client.api_key@ == api_key@,
            c.client.base_url@ == "https://mslm.io/"@,
            c.client.user_agent@ == "mslm/rust/1.0.0"@,
    {
        let mut client = BaseClient::new();
        client.set_api_key(api_key);
        EmailVerifyClient { client }
    }

    /// A client with the default configuration and an empty API key.
    pub fn init_defaults() -> (c: EmailVerifyClient)
        ensures
            c.client.api_key@ == Seq::<char>::empty(),
            c.client.base_url@ == "https://mslm.io/"@,
            c.client.user_agent@ == "mslm/rust/1.0.0"@,
    {
        let c = EmailVerifyClient::new("");
        proof {
            reveal_strlit("");
            assert(""@ =~= Seq::<char>::empty());
        }
        c
    }

    pub fn set_http_client(&mut self, http_client: reqwest::blocking::Client)
        ensures
            final(self).client.http == http_client,
            final(self).client.base_url == old(self).client.base_url,
            final(self).client.user_agent == old(self).client.user_agent,
            final(self).client.api_key == old(self).client.api_key,
    {
        self.client.set_http_client(http_client);
    }

    pub fn set_base_url(&mut self, base_url_str: &str) -> (r: Result<(), url::ParseError>)
        ensures
            r is Ok <==> url_norm(base_url_str@) is Some,
            r is Ok ==> Some(final(self).client.base_url@) == url_norm(base_url_str@),
            r is Err ==> final(self).client.base_url == old(self).client.base_url,
            final(self).client.http == old(self).client.http,
            final(self).client.user_agent == old(self).client.user_agent,
            final(self).client.api_key == old(self).client.api_key,
    {
        self.client.set_base_url(base_url_str)
    }

    pub fn set_user_agent(&mut self, user_agent: &str)
        ensures
            final(self).client.user_agent@ == user_agent@,
            final(self).client.http == old(self).client.http,
            final(self).client.base_url == old(self).client.base_url,
            final(self).client.api_key == old(self).client.api_key,
    {
        self.client.set_user_agent(user_agent);
    }

    pub fn set_api_key(&mut self, api_key: &str)
        ensures
            final(self).client.api_key@ == api_key@,
            final(self).client.http == old(self).client.http,
            final(self).client.base_url == old(self).client.base_url,
            final(self).client.user_agent == old(self).client.user_agent,
    {
        self.client.set_api_key(api_key);
    }

    /// Builds the single-verification request: a GET to `api/sv/v1` whose
    /// query holds the address as the `email` parameter and the API key.
    /// The address is percent-encoded first exactly when the options set
    /// the encoding flag to false.
    pub fn single_verify_request(&self, email_addr: &str, opts: Option<&SingleVerifyReqOpts>) -> (r:
        Result<HttpRequest, RequestError>)
        ensures
            ({
                let ob = match opts {
                    Some(o) => o.req_opts.base_url,
                    None => Some(self.client.base_url),
                };
                let okey = match opts {
                    Some(o) => o.req_opts.api_key,
                    None => Some(self.client.api_key),
                };
                let oua = match opts {
                    Some(o) => o.req_opts.user_agent,
                    None => Some(self.client.user_agent),
                };
                let oh = match opts {
                    Some(o) => o.req_opts.http,
                    None => Some(self.client.http),
                };
                let dis = match opts {
                    Some(o) => o.disable_url_encode,
                    None => None,
                };
                let value = if dis == Some(false) {
                    pct_encoded(email_addr@)
                } else {
                    email_addr@
                };
                &&& ob is None ==> (r matches Err(e) && e is UrlParse)
                &&& ob matches Some(b) ==> (url_norm(b@) is None ==> (r matches Err(e)
                    && e is UrlParse))
                &&& ob matches Some(b) ==> (url_norm(b@) matches Some(nb) ==> (url_norm(
                    nb + "api/sv/v1"@,
                ) is None ==> (r matches Err(e) && e is UrlParse)))
                &&& ob matches Some(b) ==> (url_norm(b@) matches Some(nb) ==> (url_norm(
                    nb + "api/sv/v1"@,
                ) matches Some(nu) ==> (r matches Ok(req) && req.method == HttpMethod::Get
                    && req.url@ == with_query(
                    nu,
                    query_text(seq![("email"@, value)], opt_text(okey)),
                ) && req.user_agent@ == opt_text(oua) && req.body is None && req.http == (
                match oh {
                    Some(h) => h,
                    None => self.client.http,
                }))))
            }),
    {
        let default_opts = SingleVerifyReqOpts {
            req_opts: self.client.prepare_opts(&ReqOpts::default()),
            disable_url_encode: None,
        };
        let opt = match opts {
            Some(o) => o,
            None => &default_opts,
        };
        let encode = match opt.disable_url_encode {
            Some(d) => !d,
            None => false,
        };
        let value = if encode {
            percent_encode_all(email_addr)
        } else {
            email_addr.to_owned()
        };
        let mut qp: Vec<(String, String)> = Vec::new();
        qp.push((String::from_str("email"), value));
        proof {
            assert(qp_views(qp@) =~= seq![
                (
                    "email"@,
                    if (match opts {
                        Some(o) => o.disable_url_encode,
                        None => None,
                    }) == Some(false) {
                        pct_encoded(email_addr@)
                    } else {
                        email_addr@
                    },
                ),
            ]);
        }
        let t_url = match self.client.prepare_url("api/sv/v1", &qp, &opt.req_opts) {
            Ok(u) => u,
            Err(e) => {
                return Err(e);
            },
        };
        Ok(self.client.prepare_request(HttpMethod::Get, t_url, None, &opt.req_opts))
    }
}

} // verus!

//! The base client: configuration, query-string and URL construction, and
//! assembly of the outgoing HTTP request.

use vstd::prelude::*;

use crate::jsontext::{hex_val, is_hex};
use crate::textenc::{form_enc_byte, form_encode, form_encoded, form_from, form_kept_byte, upper_hex};
use crate::trusted::{new_http_client, parse_and_normalize, url_error_text, url_norm};
use vstd::utf8::{decode_utf8, encode_utf8, valid_utf8};

verus! {

// ---------------------------------------------------------------------------
// Errors
// ---------------------------------------------------------------------------

/// The single error taxonomy of the library: URL composition, transport,
/// and JSON parsing failures, each carrying a human-readable message.
#[derive(Debug)]
pub enum RequestError {
    UrlParse { message: String },
    Transport { message: String },
    Json { message: String },
}

impl RequestError {
    /// The message carried by the error, whichever kind it is.
    pub open spec fn text(&self) -> Seq<char> {
        match self {
            RequestError::UrlParse { message } => message@,
            RequestError::Transport { message } => message@,
            RequestError::Json { message } => message@,
        }
    }

    /// Returns the error's message.
    pub fn message(&self) -> (m: String)
        ensures
            m@ == self.text(),
    {
        match self {
            RequestError::UrlParse { message } => message.clone(),
            RequestError::Transport { message } => message.clone(),
            RequestError::Json { message } => message.clone(),
        }
    }
}

// ---------------------------------------------------------------------------
// Request options
// ---------------------------------------------------------------------------

/// Per-call overrides: any field that is set takes the place of the
/// client's configured value for that one request.
#[derive(Debug)]
pub struct ReqOpts {
    pub http: Option<reqwest::blocking::Client>,
    pub base_url: Option<String>,
    pub user_agent: Option<String>,
    pub api_key: Option<String>,
}

impl Default for ReqOpts {
    /// No overrides: every field of the client's configuration applies.
    fn default() -> (r: ReqOpts)
        ensures
            r.http is None,
            r.base_url is None,
            r.user_agent is None,
            r.api_key is None,
    {
        ReqOpts { http: None, base_url: None, user_agent: None, api_key: None }
    }
}

/// The text of an optional string, empty when absent.
pub open spec fn opt_text(o: Option<String>) -> Seq<char> {
    match o {
        Some(s) => s@,
        None => Seq::empty(),
    }
}

/// The view of an optional owned string.
pub open spec fn opt_txt_of(o: Option<String>) -> Option<Seq<char>> {
    match o {
        Some(v) => Some(v@),
        None => None,
    }
}

/// The value of an optional 64-bit integer.
pub open spec fn opt_int_of(o: Option<i64>) -> Option<int> {
    match o {
        Some(v) => Some(v as int),
        None => None,
    }
}

/// The value of an optional 32-bit integer.
pub open spec fn opt_i32_of(o: Option<i32>) -> Option<int> {
    match o {
        Some(v) => Some(v as int),
        None => None,
    }
}

// ---------------------------------------------------------------------------
// Query strings
// ---------------------------------------------------------------------------

/// One `key=value` fragment of a query string, both sides form-encoded.
pub open spec fn pair_frag(k: Seq<char>, v: Seq<char>) -> Seq<char> {
    form_encoded(k) + seq!['='] + form_encoded(v)
}

/// The views of a list of key-value pairs.
pub open spec fn qp_views(qp: Seq<(String, String)>) -> Seq<(Seq<char>, Seq<char>)> {
    qp.map_values(|p: (String, String)| (p.0@, p.1@))
}

/// The supplied pairs, each followed by `&`, in the order given.
pub open spec fn frags_prefix(pairs: Seq<(Seq<char>, Seq<char>)>) -> Seq<char>
    decreases pairs.len(),
{
    if pairs.len() == 0 {
        Seq::empty()
    } else {
        frags_prefix(pairs.drop_last()) + pair_frag(pairs.last().0, pairs.last().1) + seq!['&']
    }
}

/// The full query text: exactly the supplied pairs, in order, and the
/// `apikey` pair last.
pub open spec fn query_text(pairs: Seq<(Seq<char>, Seq<char>)>, key: Seq<char>) -> Seq<char> {
    frags_prefix(pairs) + pair_frag("apikey"@, key)
}

/// The first position of `#` in a text, or its length when there is
/// none.
pub open spec fn hash_idx(s: Seq<char>, i: int) -> int
    decreases s.len() - i,
{
    if 0 <= i && i < s.len() {
        if s[i] == '#' {
            i
        } else {
            hash_idx(s, i + 1)
        }
    } else {
        i
    }
}

/// A URL with a query text attached: inserted before the fragment when
/// the URL carries one, appended with `&` when the URL already has a
/// query and with `?` otherwise.
pub open spec fn with_query(base: Seq<char>, q: Seq<char>) -> Seq<char> {
    let h = hash_idx(base, 0);
    let pre = base.subrange(0, h);
    let frag = base.subrange(h, base.len() as int);
    if pre.contains('?') {
        pre + seq!['&'] + q + frag
    } else {
        pre + seq!['?'] + q + frag
    }
}

fn hash_at(s: &str, i: usize) -> (h: usize)
    requires
        i <= s@.len(),
    ensures
        h as int == hash_idx(s@, i as int),
        i <= h,
        h <= s@.len(),
    decreases s@.len() - i,
{
    let n = s.unicode_len();
    if i < n {
        if s.get_char(i) != '#' {
            return hash_at(s, i + 1);
        }
    }
    i
}

/// Holds of the error returned for a text the url crate refused: the
/// UrlParse variant, its message starting with the URL-parsing prefix.
pub open spec fn says_url_parse_failed(e: RequestError) -> bool {
    e matches RequestError::UrlParse { message } && message@.len() >= "URL parsing failed: "@.len()
        && message@.subrange(0, "URL parsing failed: "@.len() as int) == "URL parsing failed: "@
}

/// The URL-parse failure error: the fixed prefix followed by the parse
/// error's own description.
fn url_parse_failed(e: &url::ParseError) -> (r: RequestError)
    ensures
        says_url_parse_failed(r),
{
    let mut message = String::from_str("URL parsing failed: ");
    let detail = url_error_text(e);
    message.append(detail.as_str());
    proof {
        assert(message@.subrange(0, "URL parsing failed: "@.len() as int) =~= "URL parsing failed: "@);
    }
    RequestError::UrlParse { message }
}

/// Whether a text contains the given character.
pub fn contains_char(s: &str, c: char) -> (r: bool)
    ensures
        r == s@.contains(c),
{
    let n = s.unicode_len();
    let mut i: usize = 0;
    while i < n
        invariant
            i <= s@.len(),
            n == s@.len(),
            forall|j: int| 0 <= j < i ==> s@[j] != c,
        decreases s@.len() - i,
    {
        if s.get_char(i) == c {
            proof {
                assert(s@.contains(c));
            }
            return true;
        }
        i = i + 1;
    }
    proof {
        assert(!s@.contains(c));
    }
    false
}

// ---------------------------------------------------------------------------
// The base client
// ---------------------------------------------------------------------------

/// Holds the transport handle, the base URL, the user agent, and the API
/// key shared by every endpoint.
pub struct BaseClient {
    pub http: reqwest::blocking::Client,
    pub base_url: String,
    pub user_agent: String,
    pub api_key: String,
}

/// An HTTP method used by the service: verification reads with GET, OTP
/// operations post a JSON body.
#[derive(Clone, Copy, PartialEq, Eq, Structural, Debug)]
pub enum HttpMethod {
    Get,
    Post,
}

/// A fully-assembled outgoing request: everything the transport needs to
/// perform the call.
pub struct HttpRequest {
    pub http: reqwest::blocking::Client,
    pub method: HttpMethod,
    pub url: String,
    pub user_agent: String,
    pub body: Option<String>,
}

impl BaseClient {
    /// A client with the default base URL, user agent, and an empty API
    /// key.
    pub fn new() -> (c: BaseClient)
        ensures
            c.base_url@ == "https://mslm.io/"@,
            c.user_agent@ == "mslm/rust/1.0.0"@,
            c.api_key@ == Seq::<char>::empty(),
    {
        BaseClient {
            http: new_http_client(),
            base_url: String::from_str("https://mslm.io/"),
            user_agent: String::from_str("mslm/rust/1.0.0"),
            api_key: String::new(),
        }
    }

    pub fn set_http_client(&mut self, http_client: reqwest::blocking::Client)
        ensures
            final(self).http == http_client,
            final(self).base_url == old(self).base_url,
            final(self).user_agent == old(self).user_agent,
            final(self).api_key == old(self).api_key,
    {
        self.http = http_client;
    }

    /// Validates the text as a URL; on success the client keeps its
    /// normalized serialization.
    pub fn set_base_url(&mut self, base_url_str: &str) -> (r: Result<(), url::ParseError>)
        ensures
            r is Ok <==> url_norm(base_url_str@) is Some,
            r is Ok ==> Some(final(self).base_url@) == url_norm(base_url_str@),
            r is Err ==> final(self).base_url == old(self).base_url,
            final(self).http == old(self).http,
            final(self).user_agent == old(self).user_agent,
            final(self).api_key == old(self).api_key,
    {
        match parse_and_normalize(base_url_str) {
            Ok(n) => {
                self.base_url = n;
                Ok(())
            },
            Err(e) => Err(e),
        }
    }

    pub fn set_user_agent(&mut self, user_agent: &str)
        ensures
            final(self).user_agent@ == user_agent@,
            final(self).http == old(self).http,
            final(self).base_url == old(self).base_url,
            final(self).api_key == old(self).api_key,
    {
        self.user_agent = user_agent.to_owned();
    }

    pub fn set_api_key(&mut self, api_key: &str)
        ensures
            final(self).api_key@ == api_key@,
            final(self).http == old(self).http,
            final(self).base_url == old(self).base_url,
            final(self).user_agent == old(self).user_agent,
    {
        self.api_key = api_key.to_owned();
    }

    /// Merges per-call overrides with the client's configuration: every
    /// field of the result is set, the override where one was given and
    /// the configured value otherwise.
    pub fn prepare_opts(&self, opt: &ReqOpts) -> (r: ReqOpts)
        ensures
            r.http == (if opt.http is Some {
                opt.http
            } else {
                Some(self.http)
            }),
            r.base_url == (if opt.base_url is Some {
                opt.base_url
            } else {
                Some(self.base_url)
            }),
            r.user_agent == (if opt.user_agent is Some {
                opt.user_agent
            } else {
                Some(self.user_agent)
            }),
            r.api_key == (if opt.api_key is Some {
                opt.api_key
            } else {
                Some(self.api_key)
            }),
    {
        let http_c = match &opt.http {
            Some(h) => h.clone(),
            None => self.http.clone(),
        };
        let base_url = match &opt.base_url {
            Some(b) => b.clone(),
            None => self.base_url.clone(),
        };
        let user_agent = match &opt.user_agent {
            Some(u) => u.clone(),
            None => self.user_agent.clone(),
        };
        let api_key = match &opt.api_key {
            Some(k) => k.clone(),
            None => self.api_key.clone(),
        };
        ReqOpts {
            http: Some(http_c),
            base_url: Some(base_url),
            user_agent: Some(user_agent),
            api_key: Some(api_key),
        }
    }

    /// Builds the target URL for one call: the option's base URL is
    /// itself validated and normalized as a URL, the path is appended to
    /// its serialization and the whole validated again, and the query
    /// carries exactly the supplied parameters and the `apikey`
    /// parameter, inserted before any fragment.
    pub fn prepare_url(&self, url_path: &str, qp: &Vec<(String, String)>, opt: &ReqOpts) -> (r:
        Result<String, RequestError>)
        ensures
            opt.base_url is None ==> (r matches Err(e) && e matches RequestError::UrlParse {
                message,
            } && message@ == "Base URL not configured."@),
            opt.base_url matches Some(b) ==> (url_norm(b@) is None ==> (r matches Err(e)
                && says_url_parse_failed(e))),
            opt.base_url matches Some(b) ==> (url_norm(b@) matches Some(nb) ==> (url_norm(
                nb + url_path@,
            ) is None ==> (r matches Err(e) && says_url_parse_failed(e)))),
            opt.base_url matches Some(b) ==> (url_norm(b@) matches Some(nb) ==> (url_norm(
                nb + url_path@,
            ) matches Some(n) ==> (r matches Ok(u) && u@ == with_query(
                n,
                query_text(qp_views(qp@), opt_text(opt.api_key)),
            )))),
    {
        let base = match &opt.base_url {
            Some(b) => b.clone(),
            None => {
                return Err(
                    RequestError::UrlParse {
                        message: String::from_str("Base URL not configured."),
                    },
                );
            },
        };
        let nbase = match parse_and_normalize(base.as_str()) {
            Ok(nb) => nb,
            Err(e) => {
                return Err(url_parse_failed(&e));
            },
        };
        let joined = nbase.concat(url_path);
        let normalized = match parse_and_normalize(joined.as_str()) {
            Ok(n) => n,
            Err(e) => {
                return Err(url_parse_failed(&e));
            },
        };
        let mut q = String::new();
        let mut i: usize = 0;
        proof {
            assert(qp_views(qp@).take(0) =~= Seq::<(Seq<char>, Seq<char>)>::empty());
        }
        while i < qp.len()
            invariant
                i <= qp@.len(),
                q@ == frags_prefix(qp_views(qp@).take(i as int)),
            decreases qp@.len() - i,
        {
            let ek = form_encode(qp[i].0.as_str());
            q.append(ek.as_str());
            q.push('=');
            let ev = form_encode(qp[i].1.as_str());
            q.append(ev.as_str());
            q.push('&');
            proof {
                let pv = qp_views(qp@);
                assert(pv.take(i + 1).drop_last() =~= pv.take(i as int));
                assert(pv.take(i + 1).last() == pv[i as int]);
                assert(q@ =~= frags_prefix(pv.take(i + 1)));
            }
            i = i + 1;
        }
        proof {
            assert(qp_views(qp@).take(qp@.len() as int) =~= qp_views(qp@));
        }
        let ak = form_encode("apikey");
        q.append(ak.as_str());
        q.push('=');
        let key = match &opt.api_key {
            Some(k) => k.clone(),
            None => String::new(),
        };
        let ekey = form_encode(key.as_str());
        q.append(ekey.as_str());
        proof {
            assert(q@ =~= query_text(qp_views(qp@), opt_text(opt.api_key)));
        }
        let nlen = normalized.as_str().unicode_len();
        let h = hash_at(normalized.as_str(), 0);
        let pre = normalized.as_str().substring_char(0, h);
        let frag = normalized.as_str().substring_char(h, nlen);
        let mut url = pre.to_owned();
        if contains_char(url.as_str(), '?') {
            url.push('&');
        } else {
            url.push('?');
        }
        url.append(q.as_str());
        url.append(frag);
        proof {
            assert(url@ =~= with_query(
                url_norm(joined@)->Some_0,
                query_text(qp_views(qp@), opt_text(opt.api_key)),
            ));
        }
        Ok(url)
    }

    /// Assembles the outgoing request: the chosen transport, the method,
    /// the prepared URL, the option's user agent, and the JSON body when
    /// the operation has one.
    pub fn prepare_request(&self, method: HttpMethod, t_url: String, data: Option<String>, opt:
        &ReqOpts) -> (r: HttpRequest)
        ensures
            r.method == method,
            r.url == t_url,
            r.user_agent@ == opt_text(opt.user_agent),
            r.http == (if opt.http is Some {
                opt.http->Some_0
            } else {
                self.http
            }),
            r.body == data,
    {
        let user_agent = match &opt.user_agent {
            Some(u) => u.clone(),
            None => String::new(),
        };
        let http = match &opt.http {
            Some(h) => h.clone(),
            None => self.http.clone(),
        };
        HttpRequest { http, method, url: t_url, user_agent, body: data }
    }
}

// ---------------------------------------------------------------------------
// Reading a query value back: the encoding loses nothing
// ---------------------------------------------------------------------------

/// Reads form-encoded text back into bytes: `+` is a space, `%XY` is the
/// byte XY, and any other ASCII character stands for itself.
pub open spec fn form_decode_bytes(q: Seq<char>, i: int) -> Option<Seq<u8>>
    decreases q.len() - i,
{
    if i < 0 || i >= q.len() {
        Some(Seq::empty())
    } else if q[i] == '+' {
        match form_decode_bytes(q, i + 1) {
            Some(r) => Some(seq![32u8] + r),
            None => None,
        }
    } else if q[i] == '%' {
        if i + 3 > q.len() {
            None
        } else if is_hex(q[i + 1]) && is_hex(q[i + 2]) {
            match form_decode_bytes(q, i + 3) {
                Some(r) => Some(seq![((hex_val(q[i + 1]) * 16 + hex_val(q[i + 2])) as u8)] + r),
                None => None,
            }
        } else {
            None
        }
    } else if (q[i] as u32) < 128 {
        match form_decode_bytes(q, i + 1) {
            Some(r) => Some(seq![((q[i] as u32) as u8)] + r),
            None => None,
        }
    } else {
        None
    }
}

/// The text a form-encoded query value stands for.
pub open spec fn form_decoded(q: Seq<char>) -> Option<Seq<char>> {
    match form_decode_bytes(q, 0) {
        Some(bs) => if valid_utf8(bs) {
            Some(decode_utf8(bs))
        } else {
            None
        },
        None => None,
    }
}

proof fn lemma_hex_val_upper(n: int)
    requires
        0 <= n < 16,
    ensures
        is_hex(upper_hex(n)),
        hex_val(upper_hex(n)) == n,
{
}

proof fn lemma_form_decode_from(bs: Seq<u8>, k: int, q: Seq<char>, i: int)
    requires
        0 <= k <= bs.len(),
        0 <= i <= q.len(),
        q.subrange(i, q.len() as int) == form_from(bs, k),
    ensures
        form_decode_bytes(q, i) == Some(bs.subrange(k, bs.len() as int)),
    decreases bs.len() - k,
{
    if k == bs.len() {
        assert(form_from(bs, k) =~= Seq::<char>::empty());
        assert(i == q.len());
        assert(bs.subrange(k, bs.len() as int) =~= Seq::<u8>::empty());
    } else {
        let b = bs[k];
        let e = form_enc_byte(b);
        let rest = form_from(bs, k + 1);
        assert(form_from(bs, k) == e + rest);
        let suffix = q.subrange(i, q.len() as int);
        assert(q[i] == e[0]) by {
            assert(suffix[0] == q[i]);
        }
        if e.len() == 3 {
            assert(q[i + 1] == e[1]) by {
                assert(suffix[1] == q[i + 1]);
            }
            assert(q[i + 2] == e[2]) by {
                assert(suffix[2] == q[i + 2]);
            }
        }
        assert(q.subrange(i + e.len(), q.len() as int) =~= rest) by {
            assert forall|t: int| 0 <= t < rest.len() implies q.subrange(
                i + e.len(),
                q.len() as int,
            )[t] == rest[t] by {
                assert(q.subrange(i + e.len(), q.len() as int)[t] == q[i + e.len() + t]);
                assert(suffix[e.len() + t] == q[i + e.len() + t]);
                assert((e + rest)[e.len() + t] == rest[t]);
            }
        }
        lemma_form_decode_from(bs, k + 1, q, i + e.len());
        assert(seq![b] + bs.subrange(k + 1, bs.len() as int) =~= bs.subrange(k, bs.len() as int));
        if form_kept_byte(b) {
            assert(q[i] == b as char);
            assert((q[i] as u32) == b as u32);
            assert(q[i] != '+');
            assert(q[i] != '%');
            assert(((q[i] as u32) as u8) == b);
        } else if b == 32 {
            assert(q[i] == '+');
        } else {
            assert(q[i] == '%');
            lemma_hex_val_upper(b as int / 16);
            lemma_hex_val_upper(b as int % 16);
            assert(q[i + 1] == upper_hex(b as int / 16));
            assert(q[i + 2] == upper_hex(b as int % 16));
            assert(hex_val(q[i + 1]) * 16 + hex_val(q[i + 2]) == b as int);
        }
    }
}

/// Form-encoding loses nothing: decoding an encoded text gives the text
/// back, so the query built for a URL stands for exactly the keys and
/// values that were supplied.
pub proof fn lemma_form_encoding_lossless(s: Seq<char>)
    ensures
        form_decoded(form_encoded(s)) == Some(s),
{
    let bs = encode_utf8(s);
    let q = form_encoded(s);
    assert(q.subrange(0, q.len() as int) =~= form_from(bs, 0));
    lemma_form_decode_from(bs, 0, q, 0);
    assert(bs.subrange(0, bs.len() as int) =~= bs);
    vstd::utf8::encode_utf8_valid_utf8(s);
    vstd::utf8::encode_utf8_decode_utf8(s);
}

// ---------------------------------------------------------------------------
// The query carries exactly the supplied parameters plus the API key
// ---------------------------------------------------------------------------

/// The fragments of a query text, split on `&`.
pub open spec fn amp_split(q: Seq<char>) -> Seq<Seq<char>>
    decreases q.len(),
{
    if q.len() == 0 {
        seq![Seq::<char>::empty()]
    } else if q[0] == '&' {
        seq![Seq::<char>::empty()] + amp_split(q.drop_first())
    } else {
        let rest = amp_split(q.drop_first());
        seq![seq![q[0]] + rest[0]] + rest.drop_first()
    }
}

/// A fragment's key and value: the text before the first `=` and the
/// text after it.
pub open spec fn eq_split(f: Seq<char>) -> Option<(Seq<char>, Seq<char>)>
    decreases f.len(),
{
    if f.len() == 0 {
        None
    } else if f[0] == '=' {
        Some((Seq::<char>::empty(), f.drop_first()))
    } else {
        match eq_split(f.drop_first()) {
            Some((k, v)) => Some((seq![f[0]] + k, v)),
            None => None,
        }
    }
}

/// The decoded key-value pairs of a list of fragments.
pub open spec fn params_of(frags: Seq<Seq<char>>) -> Option<Seq<(Seq<char>, Seq<char>)>>
    decreases frags.len(),
{
    if frags.len() == 0 {
        Some(Seq::empty())
    } else {
        match eq_split(frags[0]) {
            None => None,
            Some((k, v)) => match (form_decoded(k), form_decoded(v)) {
                (Some(dk), Some(dv)) => match params_of(frags.drop_first()) {
                    Some(rest) => Some(seq![(dk, dv)] + rest),
                    None => None,
                },
                _ => None,
            },
        }
    }
}

/// The parameters a query text stands for, read back by splitting on
/// `&` and `=` and undoing the form-encoding.
pub open spec fn query_params(q: Seq<char>) -> Option<Seq<(Seq<char>, Seq<char>)>> {
    params_of(amp_split(q))
}

proof fn lemma_form_no_amp_eq(bs: Seq<u8>, k: int)
    ensures
        forall|t: int|
            0 <= t < form_from(bs, k).len() ==> #[trigger] form_from(bs, k)[t] != '&' && form_from(
                bs,
                k,
            )[t] != '=',
    decreases bs.len() - k,
{
    if k < 0 || k >= bs.len() {
    } else {
        lemma_form_no_amp_eq(bs, k + 1);
        let b = bs[k];
        let e = form_enc_byte(b);
        let rest = form_from(bs, k + 1);
        assert forall|t: int|
            0 <= t < form_from(bs, k).len() implies #[trigger] form_from(bs, k)[t] != '&'
            && form_from(bs, k)[t] != '=' by {
            if t < e.len() {
                assert(form_from(bs, k)[t] == e[t]);
                if form_kept_byte(b) {
                    assert(e[t] == b as char);
                    assert((b as char) as u32 == b as u32);
                } else if b == 32 {
                    assert(e[t] == '+');
                } else {
                    if t == 0 {
                        assert(e[t] == '%');
                    } else {
                        let n: int = if t == 1 {
                            b as int / 16
                        } else {
                            b as int % 16
                        };
                        assert(e[t] == upper_hex(n));
                        assert(upper_hex(n) as u32 == (if n < 10 {
                            48 + n
                        } else {
                            55 + n
                        }));
                    }
                }
            } else {
                assert(form_from(bs, k)[t] == rest[t - e.len()]);
            }
        }
    }
}

proof fn lemma_pair_frag_no_amp(k: Seq<char>, v: Seq<char>)
    ensures
        forall|t: int|
            0 <= t < pair_frag(k, v).len() ==> #[trigger] pair_frag(k, v)[t] != '&',
{
    lemma_form_no_amp_eq(encode_utf8(k), 0);
    lemma_form_no_amp_eq(encode_utf8(v), 0);
    let f = pair_frag(k, v);
    let ek = form_encoded(k);
    let ev = form_encoded(v);
    assert forall|t: int| 0 <= t < f.len() implies #[trigger] f[t] != '&' by {
        if t < ek.len() {
            assert(f[t] == ek[t]);
        } else if t == ek.len() {
            assert(f[t] == '=');
        } else {
            assert(f[t] == ev[t - ek.len() - 1]);
        }
    }
}

proof fn lemma_eq_split_of(a: Seq<char>, b: Seq<char>)
    requires
        forall|t: int| 0 <= t < a.len() ==> #[trigger] a[t] != '=',
    ensures
        eq_split(a + seq!['='] + b) == Some((a, b)),
    decreases a.len(),
{
    let f = a + seq!['='] + b;
    if a.len() == 0 {
        assert(f[0] == '=');
        assert(f.drop_first() =~= b);
        assert(a =~= Seq::<char>::empty());
    } else {
        assert(f[0] == a[0]);
        assert(f.drop_first() =~= a.drop_first() + seq!['='] + b);
        lemma_eq_split_of(a.drop_first(), b);
        assert(seq![a[0]] + a.drop_first() =~= a);
    }
}

proof fn lemma_eq_split_pair_frag(k: Seq<char>, v: Seq<char>)
    ensures
        eq_split(pair_frag(k, v)) == Some((form_encoded(k), form_encoded(v))),
{
    lemma_form_no_amp_eq(encode_utf8(k), 0);
    lemma_eq_split_of(form_encoded(k), form_encoded(v));
    assert(form_encoded(k) + seq!['='] + form_encoded(v) == pair_frag(k, v));
}

proof fn lemma_amp_split_solo(a: Seq<char>)
    requires
        forall|t: int| 0 <= t < a.len() ==> #[trigger] a[t] != '&',
    ensures
        amp_split(a) == seq![a],
    decreases a.len(),
{
    if a.len() == 0 {
        assert(amp_split(a) =~~= seq![a]);
    } else {
        assert(a[0] != '&');
        lemma_amp_split_solo(a.drop_first());
        assert(seq![a[0]] + a.drop_first() =~= a);
        assert(seq![a.drop_first()].drop_first() =~= Seq::<Seq<char>>::empty());
        assert(amp_split(a) =~~= seq![a]);
    }
}

proof fn lemma_amp_split_step(a: Seq<char>, rest: Seq<char>)
    requires
        forall|t: int| 0 <= t < a.len() ==> #[trigger] a[t] != '&',
    ensures
        amp_split(a + seq!['&'] + rest) == seq![a] + amp_split(rest),
    decreases a.len(),
{
    let q = a + seq!['&'] + rest;
    if a.len() == 0 {
        assert(q[0] == '&');
        assert(q.drop_first() =~= rest);
        assert(a =~= Seq::<char>::empty());
        assert(amp_split(q) =~~= seq![a] + amp_split(rest));
    } else {
        assert(a[0] != '&');
        assert(q[0] == a[0]);
        assert(q.drop_first() =~= a.drop_first() + seq!['&'] + rest);
        lemma_amp_split_step(a.drop_first(), rest);
        let inner = amp_split(q.drop_first());
        assert(inner == seq![a.drop_first()] + amp_split(rest));
        assert(inner[0] == a.drop_first());
        assert(seq![a[0]] + a.drop_first() =~= a);
        assert(inner.drop_first() =~= amp_split(rest));
        assert(amp_split(q) =~~= seq![a] + amp_split(rest));
    }
}

/// The fragments that a built query consists of: one per supplied pair,
/// in order, and the API-key fragment last.
pub open spec fn frag_list(pairs: Seq<(Seq<char>, Seq<char>)>, key: Seq<char>) -> Seq<Seq<char>>
    decreases pairs.len(),
{
    if pairs.len() == 0 {
        seq![pair_frag("apikey"@, key)]
    } else {
        seq![pair_frag(pairs[0].0, pairs[0].1)] + frag_list(pairs.drop_first(), key)
    }
}

proof fn lemma_frags_prefix_left(pairs: Seq<(Seq<char>, Seq<char>)>)
    requires
        pairs.len() > 0,
    ensures
        frags_prefix(pairs) == pair_frag(pairs[0].0, pairs[0].1) + seq!['&'] + frags_prefix(
            pairs.drop_first(),
        ),
    decreases pairs.len(),
{
    if pairs.len() == 1 {
        assert(pairs.drop_last() =~= Seq::<(Seq<char>, Seq<char>)>::empty());
        assert(pairs.drop_first() =~= Seq::<(Seq<char>, Seq<char>)>::empty());
        assert(frags_prefix(pairs) =~= pair_frag(pairs[0].0, pairs[0].1) + seq!['&']
            + frags_prefix(pairs.drop_first()));
    } else {
        let front = pairs.drop_last();
        lemma_frags_prefix_left(front);
        assert(front[0] == pairs[0]);
        assert(front.drop_first() =~= pairs.drop_first().drop_last());
        assert(pairs.drop_first().last() == pairs.last());
        assert(frags_prefix(pairs) =~= pair_frag(pairs[0].0, pairs[0].1) + seq!['&']
            + frags_prefix(pairs.drop_first()));
    }
}

proof fn lemma_query_text_frags(pairs: Seq<(Seq<char>, Seq<char>)>, key: Seq<char>)
    ensures
        amp_split(query_text(pairs, key)) == frag_list(pairs, key),
    decreases pairs.len(),
{
    if pairs.len() == 0 {
        assert(frags_prefix(pairs) =~= Seq::<char>::empty());
        assert(query_text(pairs, key) =~= pair_frag("apikey"@, key));
        lemma_pair_frag_no_amp("apikey"@, key);
        lemma_amp_split_solo(pair_frag("apikey"@, key));
        assert(amp_split(query_text(pairs, key)) =~= frag_list(pairs, key));
    } else {
        lemma_frags_prefix_left(pairs);
        lemma_query_text_frags(pairs.drop_first(), key);
        lemma_pair_frag_no_amp(pairs[0].0, pairs[0].1);
        assert(query_text(pairs, key) =~= pair_frag(pairs[0].0, pairs[0].1) + seq!['&']
            + query_text(pairs.drop_first(), key));
        lemma_amp_split_step(pair_frag(pairs[0].0, pairs[0].1), query_text(pairs.drop_first(), key));
        assert(amp_split(query_text(pairs, key)) =~= frag_list(pairs, key));
    }
}

proof fn lemma_params_of_frag_list(pairs: Seq<(Seq<char>, Seq<char>)>, key: Seq<char>)
    ensures
        params_of(frag_list(pairs, key)) == Some(pairs + seq![("apikey"@, key)]),
    decreases pairs.len(),
{
    if pairs.len() == 0 {
        let fl = frag_list(pairs, key);
        lemma_eq_split_pair_frag("apikey"@, key);
        lemma_form_encoding_lossless("apikey"@);
        lemma_form_encoding_lossless(key);
        assert(fl[0] == pair_frag("apikey"@, key));
        assert(fl.drop_first() =~= Seq::<Seq<char>>::empty());
        assert(params_of(fl.drop_first()) == Some(Seq::<(Seq<char>, Seq<char>)>::empty()));
        assert(seq![(("apikey"@), key)] + Seq::<(Seq<char>, Seq<char>)>::empty() =~~= pairs
            + seq![(("apikey"@), key)]);
    } else {
        let fl = frag_list(pairs, key);
        assert(fl[0] == pair_frag(pairs[0].0, pairs[0].1));
        lemma_eq_split_pair_frag(pairs[0].0, pairs[0].1);
        lemma_form_encoding_lossless(pairs[0].0);
        lemma_form_encoding_lossless(pairs[0].1);
        lemma_params_of_frag_list(pairs.drop_first(), key);
        assert(fl.drop_first() =~= frag_list(pairs.drop_first(), key));
        assert(params_of(fl.drop_first()) == Some(
            pairs.drop_first() + seq![(("apikey"@), key)],
        ));
        assert(seq![(pairs[0].0, pairs[0].1)] + (pairs.drop_first() + seq![(("apikey"@), key)])
            =~~= pairs + seq![(("apikey"@), key)]);
    }
}

/// The query of a built URL carries exactly the supplied parameters, in
/// order, plus one `apikey` parameter holding the configured key: read
/// back with the standard splitting and decoding, it gives exactly
/// those pairs.
pub proof fn lemma_query_exact(pairs: Seq<(Seq<char>, Seq<char>)>, key: Seq<char>)
    ensures
        query_params(query_text(pairs, key)) == Some(pairs + seq![(("apikey"@), key)]),
{
    lemma_query_text_frags(pairs, key);
    lemma_params_of_frag_list(pairs, key);
}

/// A base client with the default configuration.
pub fn init_defaults() -> (c: BaseClient)
    ensures
        c.base_url@ == "https://mslm.io/"@,
        c.user_agent@ == "mslm/rust/1.0.0"@,
        c.api_key@ == Seq::<char>::empty(),
{
    BaseClient::new()
}

} // verus!
